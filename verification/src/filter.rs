//! The Todoist filter query built from the `list` command's components.

use vstd::prelude::*;
use crate::text::{join, join_strings, opt_view, views};

verus! {

/// The filter component for an optional value: the prefix followed by the value.
pub open spec fn value_component(v: Option<Seq<char>>, prefix: Seq<char>) -> Seq<Seq<char>> {
    match v {
        Some(x) => seq![prefix + x],
        None => Seq::empty(),
    }
}

/// The filter component for a switch: its fixed text when it is on.
pub open spec fn flag_component(on: bool, text: Seq<char>) -> Seq<Seq<char>> {
    if on {
        seq![text]
    } else {
        Seq::empty()
    }
}

/// One when `b` holds, else zero.
pub open spec fn one_if(b: bool) -> int {
    if b {
        1
    } else {
        0
    }
}

/// The filter components in the order the query lists them.
pub open spec fn filter_components(
    search: Option<Seq<char>>,
    project: Option<Seq<char>>,
    due: Option<Seq<char>>,
    before: Option<Seq<char>>,
    after: Option<Seq<char>>,
    priority: Option<Seq<char>>,
    overdue: bool,
    today: bool,
    tomorrow: bool,
    week: bool,
    month: bool,
    year: bool,
    recurring: bool,
) -> Seq<Seq<char>> {
    value_component(search, "search: "@) + value_component(project, "##"@) + value_component(
        due,
        "due: "@,
    ) + value_component(before, "due before: "@) + value_component(after, "due after: "@)
        + value_component(priority, "p"@) + flag_component(overdue, "overdue"@) + flag_component(
        today,
        "due: today"@,
    ) + flag_component(tomorrow, "due: tomorrow"@) + flag_component(week, "due before: next week"@)
        + flag_component(month, "due before: next month"@) + flag_component(
        year,
        "due before: next year"@,
    ) + flag_component(recurring, "recurring"@)
}

/// The filter query: the raw filter when one is given, otherwise the
/// components joined with " & ", or none when there is no component.
pub open spec fn spec_build_filter(
    filter: Option<Seq<char>>,
    search: Option<Seq<char>>,
    project: Option<Seq<char>>,
    due: Option<Seq<char>>,
    before: Option<Seq<char>>,
    after: Option<Seq<char>>,
    priority: Option<Seq<char>>,
    overdue: bool,
    today: bool,
    tomorrow: bool,
    week: bool,
    month: bool,
    year: bool,
    recurring: bool,
) -> Option<Seq<char>> {
    match filter {
        Some(f) => Some(f),
        None => {
            let parts = filter_components(
                search,
                project,
                due,
                before,
                after,
                priority,
                overdue,
                today,
                tomorrow,
                week,
                month,
                year,
                recurring,
            );
            if parts.len() == 0 {
                None
            } else {
                Some(join(parts, " & "@))
            }
        },
    }
}

proof fn lemma_component_count(
    search: Option<Seq<char>>,
    project: Option<Seq<char>>,
    due: Option<Seq<char>>,
    before: Option<Seq<char>>,
    after: Option<Seq<char>>,
    priority: Option<Seq<char>>,
    overdue: bool,
    today: bool,
    tomorrow: bool,
    week: bool,
    month: bool,
    year: bool,
    recurring: bool,
)
    ensures
        filter_components(
            search,
            project,
            due,
            before,
            after,
            priority,
            overdue,
            today,
            tomorrow,
            week,
            month,
            year,
            recurring,
        ).len() == 0 <==> (search is None && project is None && due is None && before is None
            && after is None && priority is None && !overdue && !today && !tomorrow && !week
            && !month && !year && !recurring),
{
}

fn push_value(parts: &mut Vec<String>, v: Option<String>, prefix: &str)
    ensures
        views(final(parts)@) == views(old(parts)@) + value_component(opt_view(v), prefix@),
{
    match v {
        Some(x) => {
            let item = String::from_str(prefix).concat(x.as_str());
            parts.push(item);
            assert(views(parts@) =~= views(old(parts)@) + value_component(opt_view(v), prefix@));
        },
        None => {
            assert(views(parts@) =~= views(old(parts)@) + value_component(opt_view(v), prefix@));
        },
    }
}

fn push_flag(parts: &mut Vec<String>, on: bool, text: &str)
    ensures
        views(final(parts)@) == views(old(parts)@) + flag_component(on, text@),
{
    if on {
        parts.push(String::from_str(text));
    }
    assert(views(parts@) =~= views(old(parts)@) + flag_component(on, text@));
}

/// Builds the filter query of the `list` command.
///
/// A raw `filter` wins over every component.  Otherwise each given
/// component becomes one term (`search: ..`, `##project`, `due: ..`,
/// `due before: ..`, `due after: ..`, `p<priority>`, then the switches in
/// order), the terms are joined with " & ", and no term gives no query.
pub fn build_filter(
    filter: Option<String>,
    search: Option<String>,
    project: Option<String>,
    due: Option<String>,
    before: Option<String>,
    after: Option<String>,
    priority: Option<String>,
    overdue: bool,
    today: bool,
    tomorrow: bool,
    week: bool,
    month: bool,
    year: bool,
    recurring: bool,
) -> (r: Option<String>)
    ensures
        opt_view(r) == spec_build_filter(
            opt_view(filter),
            opt_view(search),
            opt_view(project),
            opt_view(due),
            opt_view(before),
            opt_view(after),
            opt_view(priority),
            overdue,
            today,
            tomorrow,
            week,
            month,
            year,
            recurring,
        ),
        filter.is_some() ==> r == filter,
        filter.is_none() ==> (r.is_none() <==> (search.is_none() && project.is_none()
            && due.is_none() && before.is_none() && after.is_none() && priority.is_none()
            && !overdue && !today && !tomorrow && !week && !month && !year && !recurring)),
{
    if filter.is_some() {
        return filter;
    }
    let ghost comps = filter_components(
        opt_view(search),
        opt_view(project),
        opt_view(due),
        opt_view(before),
        opt_view(after),
        opt_view(priority),
        overdue,
        today,
        tomorrow,
        week,
        month,
        year,
        recurring,
    );
    proof {
        lemma_component_count(
            opt_view(search),
            opt_view(project),
            opt_view(due),
            opt_view(before),
            opt_view(after),
            opt_view(priority),
            overdue,
            today,
            tomorrow,
            week,
            month,
            year,
            recurring,
        );
    }
    let mut parts: Vec<String> = Vec::new();
    push_value(&mut parts, search, "search: ");
    push_value(&mut parts, project, "##");
    push_value(&mut parts, due, "due: ");
    push_value(&mut parts, before, "due before: ");
    push_value(&mut parts, after, "due after: ");
    push_value(&mut parts, priority, "p");
    push_flag(&mut parts, overdue, "overdue");
    push_flag(&mut parts, today, "due: today");
    push_flag(&mut parts, tomorrow, "due: tomorrow");
    push_flag(&mut parts, week, "due before: next week");
    push_flag(&mut parts, month, "due before: next month");
    push_flag(&mut parts, year, "due before: next year");
    push_flag(&mut parts, recurring, "recurring");
    assert(views(parts@) =~= comps);
    if parts.len() == 0 {
        None
    } else {
        Some(join_strings(&parts, " & "))
    }
}


proof fn lemma_concat_contains(a: Seq<Seq<char>>, b: Seq<Seq<char>>, t: Seq<char>)
    ensures
        (a + b).contains(t) <==> a.contains(t) || b.contains(t),
{
    if (a + b).contains(t) {
        let i = choose|i: int| 0 <= i < (a + b).len() && (a + b)[i] == t;
        if i < a.len() {
            assert(a[i] == t);
        } else {
            assert(b[i - a.len()] == t);
        }
    }
    if a.contains(t) {
        let i = choose|i: int| 0 <= i < a.len() && a[i] == t;
        assert((a + b)[i] == t);
    }
    if b.contains(t) {
        let i = choose|i: int| 0 <= i < b.len() && b[i] == t;
        assert((a + b)[a.len() + i] == t);
    }
}

proof fn lemma_value_contains(v: Option<Seq<char>>, prefix: Seq<char>, t: Seq<char>)
    ensures
        value_component(v, prefix).contains(t) <==> (v matches Some(x) && prefix + x == t),
{
    if let Some(x) = v {
        assert(value_component(v, prefix)[0] == prefix + x);
    }
}

proof fn lemma_flag_contains(on: bool, text: Seq<char>, t: Seq<char>)
    ensures
        flag_component(on, text).contains(t) <==> (on && text == t),
{
    if on {
        assert(flag_component(on, text)[0] == text);
    }
}

/// `prefix` followed by anything differs from `t` where they differ at an
/// index of `prefix`.
proof fn lemma_prefix_mismatch(prefix: Seq<char>, x: Seq<char>, t: Seq<char>, k: int)
    requires
        0 <= k < prefix.len(),
        k < t.len(),
        prefix[k] != t[k],
    ensures
        prefix + x != t,
{
    assert((prefix + x)[k] == prefix[k]);
}

/// `prefix` followed by `x` is `prefix` followed by `y` exactly when `x` is `y`.
proof fn lemma_prefix_cancel(prefix: Seq<char>, x: Seq<char>, y: Seq<char>)
    ensures
        (prefix + x == prefix + y) <==> x == y,
{
    if prefix + x == prefix + y {
        assert(x =~= (prefix + x).skip(prefix.len() as int));
        assert(y =~= (prefix + y).skip(prefix.len() as int));
    }
}

proof fn lemma_components_contain(
    search: Option<Seq<char>>,
    project: Option<Seq<char>>,
    due: Option<Seq<char>>,
    before: Option<Seq<char>>,
    after: Option<Seq<char>>,
    priority: Option<Seq<char>>,
    overdue: bool,
    today: bool,
    tomorrow: bool,
    week: bool,
    month: bool,
    year: bool,
    recurring: bool,
    t: Seq<char>,
)
    ensures
        filter_components(search, project, due, before, after, priority, overdue, today, tomorrow, week, month, year, recurring).contains(t) <==> {
            ||| (search matches Some(x) && "search: "@ + x == t)
            ||| (project matches Some(x) && "##"@ + x == t)
            ||| (due matches Some(x) && "due: "@ + x == t)
            ||| (before matches Some(x) && "due before: "@ + x == t)
            ||| (after matches Some(x) && "due after: "@ + x == t)
            ||| (priority matches Some(x) && "p"@ + x == t)
            ||| (overdue && "overdue"@ == t)
            ||| (today && "due: today"@ == t)
            ||| (tomorrow && "due: tomorrow"@ == t)
            ||| (week && "due before: next week"@ == t)
            ||| (month && "due before: next month"@ == t)
            ||| (year && "due before: next year"@ == t)
            ||| (recurring && "recurring"@ == t)
        },
{
    let c1 = value_component(search, "search: "@);
    let c2 = value_component(project, "##"@);
    let c3 = value_component(due, "due: "@);
    let c4 = value_component(before, "due before: "@);
    let c5 = value_component(after, "due after: "@);
    let c6 = value_component(priority, "p"@);
    let c7 = flag_component(overdue, "overdue"@);
    let c8 = flag_component(today, "due: today"@);
    let c9 = flag_component(tomorrow, "due: tomorrow"@);
    let c10 = flag_component(week, "due before: next week"@);
    let c11 = flag_component(month, "due before: next month"@);
    let c12 = flag_component(year, "due before: next year"@);
    let c13 = flag_component(recurring, "recurring"@);
    lemma_concat_contains(c1, c2, t);
    lemma_concat_contains(c1 + c2, c3, t);
    lemma_concat_contains(c1 + c2 + c3, c4, t);
    lemma_concat_contains(c1 + c2 + c3 + c4, c5, t);
    lemma_concat_contains(c1 + c2 + c3 + c4 + c5, c6, t);
    lemma_concat_contains(c1 + c2 + c3 + c4 + c5 + c6, c7, t);
    lemma_concat_contains(c1 + c2 + c3 + c4 + c5 + c6 + c7, c8, t);
    lemma_concat_contains(c1 + c2 + c3 + c4 + c5 + c6 + c7 + c8, c9, t);
    lemma_concat_contains(c1 + c2 + c3 + c4 + c5 + c6 + c7 + c8 + c9, c10, t);
    lemma_concat_contains(c1 + c2 + c3 + c4 + c5 + c6 + c7 + c8 + c9 + c10, c11, t);
    lemma_concat_contains(c1 + c2 + c3 + c4 + c5 + c6 + c7 + c8 + c9 + c10 + c11, c12, t);
    lemma_concat_contains(c1 + c2 + c3 + c4 + c5 + c6 + c7 + c8 + c9 + c10 + c11 + c12, c13, t);
    lemma_value_contains(search, "search: "@, t);
    lemma_value_contains(project, "##"@, t);
    lemma_value_contains(due, "due: "@, t);
    lemma_value_contains(before, "due before: "@, t);
    lemma_value_contains(after, "due after: "@, t);
    lemma_value_contains(priority, "p"@, t);
    lemma_flag_contains(overdue, "overdue"@, t);
    lemma_flag_contains(today, "due: today"@, t);
    lemma_flag_contains(tomorrow, "due: tomorrow"@, t);
    lemma_flag_contains(week, "due before: next week"@, t);
    lemma_flag_contains(month, "due before: next month"@, t);
    lemma_flag_contains(year, "due before: next year"@, t);
    lemma_flag_contains(recurring, "recurring"@, t);
}

/// With no raw filter, the query holds a switch's term exactly when that
/// switch is on, or when the matching value was given in words ("--due
/// today", "--before next week"); "overdue" and "recurring" only by their
/// switches.  There is one term per given value and per switch that is on.
/// Without a raw filter the query is the terms joined with " & ",
/// and none when there is no term.
pub proof fn lemma_switch_terms(
    search: Option<Seq<char>>,
    project: Option<Seq<char>>,
    due: Option<Seq<char>>,
    before: Option<Seq<char>>,
    after: Option<Seq<char>>,
    priority: Option<Seq<char>>,
    overdue: bool,
    today: bool,
    tomorrow: bool,
    week: bool,
    month: bool,
    year: bool,
    recurring: bool,
)
    ensures
        filter_components(search, project, due, before, after, priority, overdue, today, tomorrow, week, month, year, recurring).contains("overdue"@) <==> overdue,
        filter_components(search, project, due, before, after, priority, overdue, today, tomorrow, week, month, year, recurring).contains("due: today"@) <==> (today || due == Some("today"@)),
        filter_components(search, project, due, before, after, priority, overdue, today, tomorrow, week, month, year, recurring).contains("due: tomorrow"@) <==> (tomorrow || due == Some("tomorrow"@)),
        filter_components(search, project, due, before, after, priority, overdue, today, tomorrow, week, month, year, recurring).contains("due before: next week"@) <==> (week || before == Some("next week"@)),
        filter_components(search, project, due, before, after, priority, overdue, today, tomorrow, week, month, year, recurring).contains("due before: next month"@) <==> (month || before == Some("next month"@)),
        filter_components(search, project, due, before, after, priority, overdue, today, tomorrow, week, month, year, recurring).contains("due before: next year"@) <==> (year || before == Some("next year"@)),
        filter_components(search, project, due, before, after, priority, overdue, today, tomorrow, week, month, year, recurring).contains("recurring"@) <==> recurring,
        filter_components(search, project, due, before, after, priority, overdue, today, tomorrow, week, month, year, recurring).len() == one_if(search is Some) + one_if(project is Some)
            + one_if(due is Some) + one_if(before is Some) + one_if(after is Some)
            + one_if(priority is Some) + one_if(overdue) + one_if(today)
            + one_if(tomorrow) + one_if(week) + one_if(month)
            + one_if(year) + one_if(recurring),
        spec_build_filter(None, search, project, due, before, after, priority, overdue, today, tomorrow, week, month, year, recurring) == if filter_components(search, project, due, before, after, priority, overdue, today, tomorrow, week, month, year, recurring).len() == 0 {
            None::<Seq<char>>
        } else {
            Some(join(filter_components(search, project, due, before, after, priority, overdue, today, tomorrow, week, month, year, recurring), " & "@))
        },
{
    lemma_term_count(search, project, due, before, after, priority, overdue, today, tomorrow, week, month, year, recurring);
    lemma_switch_terms_ends(search, project, due, before, after, priority, overdue, today, tomorrow, week, month, year, recurring);
    lemma_switch_terms_due(search, project, due, before, after, priority, overdue, today, tomorrow, week, month, year, recurring);
    lemma_switch_terms_before(search, project, due, before, after, priority, overdue, today, tomorrow, week, month, year, recurring);
}

proof fn lemma_switch_terms_due(
    search: Option<Seq<char>>,
    project: Option<Seq<char>>,
    due: Option<Seq<char>>,
    before: Option<Seq<char>>,
    after: Option<Seq<char>>,
    priority: Option<Seq<char>>,
    overdue: bool,
    today: bool,
    tomorrow: bool,
    week: bool,
    month: bool,
    year: bool,
    recurring: bool,
)
    ensures
        filter_components(search, project, due, before, after, priority, overdue, today, tomorrow, week, month, year, recurring).contains("due: today"@) <==> (today || due == Some("today"@)),
        filter_components(search, project, due, before, after, priority, overdue, today, tomorrow, week, month, year, recurring).contains("due: tomorrow"@) <==> (tomorrow || due == Some("tomorrow"@)),
{
    reveal_strlit("search: ");
    reveal_strlit("##");
    reveal_strlit("due: ");
    reveal_strlit("due before: ");
    reveal_strlit("due after: ");
    reveal_strlit("p");
    reveal_strlit("overdue");
    reveal_strlit("due: today");
    reveal_strlit("due: tomorrow");
    reveal_strlit("due before: next week");
    reveal_strlit("due before: next month");
    reveal_strlit("due before: next year");
    reveal_strlit("recurring");
    reveal_strlit("today");
    reveal_strlit("tomorrow");
    assert("due: "@ + "today"@ =~= "due: today"@);
    assert("due: "@ + "tomorrow"@ =~= "due: tomorrow"@);
    assert("due: today"@ =~= "due: "@ + "today"@);
    assert("due: tomorrow"@ =~= "due: "@ + "tomorrow"@);
    lemma_components_contain(search, project, due, before, after, priority, overdue, today, tomorrow, week, month, year, recurring, "due: today"@);
    lemma_components_contain(search, project, due, before, after, priority, overdue, today, tomorrow, week, month, year, recurring, "due: tomorrow"@);
    if let Some(x) = search {
        lemma_prefix_mismatch("search: "@, x, "due: today"@, 0);
        lemma_prefix_mismatch("search: "@, x, "due: tomorrow"@, 0);
    }
    if let Some(x) = project {
        lemma_prefix_mismatch("##"@, x, "due: today"@, 0);
        lemma_prefix_mismatch("##"@, x, "due: tomorrow"@, 0);
    }
    if let Some(x) = priority {
        lemma_prefix_mismatch("p"@, x, "due: today"@, 0);
        lemma_prefix_mismatch("p"@, x, "due: tomorrow"@, 0);
    }
    if let Some(x) = due {
        lemma_prefix_cancel("due: "@, x, "today"@);
        lemma_prefix_cancel("due: "@, x, "tomorrow"@);
    }
    if let Some(x) = before {
        lemma_prefix_mismatch("due before: "@, x, "due: today"@, 3);
        lemma_prefix_mismatch("due before: "@, x, "due: tomorrow"@, 3);
    }
    if let Some(x) = after {
        lemma_prefix_mismatch("due after: "@, x, "due: today"@, 3);
        lemma_prefix_mismatch("due after: "@, x, "due: tomorrow"@, 3);
    }
    assert("overdue"@[0] != "due: today"@[0]);
    assert("recurring"@[0] != "due: today"@[0]);
    assert("due: tomorrow"@[7] != "due: today"@[7]);
    assert("due before: next week"@[3] != "due: today"@[3]);
    assert("due before: next month"@[3] != "due: today"@[3]);
    assert("due before: next year"@[3] != "due: today"@[3]);
    assert("overdue"@[0] != "due: tomorrow"@[0]);
    assert("recurring"@[0] != "due: tomorrow"@[0]);
    assert("due before: next week"@[3] != "due: tomorrow"@[3]);
    assert("due before: next month"@[3] != "due: tomorrow"@[3]);
    assert("due before: next year"@[3] != "due: tomorrow"@[3]);
}

proof fn lemma_switch_terms_before(
    search: Option<Seq<char>>,
    project: Option<Seq<char>>,
    due: Option<Seq<char>>,
    before: Option<Seq<char>>,
    after: Option<Seq<char>>,
    priority: Option<Seq<char>>,
    overdue: bool,
    today: bool,
    tomorrow: bool,
    week: bool,
    month: bool,
    year: bool,
    recurring: bool,
)
    ensures
        filter_components(search, project, due, before, after, priority, overdue, today, tomorrow, week, month, year, recurring).contains("due before: next week"@) <==> (week || before == Some("next week"@)),
        filter_components(search, project, due, before, after, priority, overdue, today, tomorrow, week, month, year, recurring).contains("due before: next month"@) <==> (month || before == Some("next month"@)),
        filter_components(search, project, due, before, after, priority, overdue, today, tomorrow, week, month, year, recurring).contains("due before: next year"@) <==> (year || before == Some("next year"@)),
{
    reveal_strlit("search: ");
    reveal_strlit("##");
    reveal_strlit("due: ");
    reveal_strlit("due before: ");
    reveal_strlit("due after: ");
    reveal_strlit("p");
    reveal_strlit("overdue");
    reveal_strlit("due: today");
    reveal_strlit("due: tomorrow");
    reveal_strlit("due before: next week");
    reveal_strlit("due before: next month");
    reveal_strlit("due before: next year");
    reveal_strlit("recurring");
    reveal_strlit("next week");
    reveal_strlit("next month");
    reveal_strlit("next year");
    assert("due before: next week"@ =~= "due before: "@ + "next week"@);
    assert("due before: next month"@ =~= "due before: "@ + "next month"@);
    assert("due before: next year"@ =~= "due before: "@ + "next year"@);
    let w = "due before: next week"@;
    let m = "due before: next month"@;
    let y = "due before: next year"@;
    lemma_components_contain(search, project, due, before, after, priority, overdue, today, tomorrow, week, month, year, recurring, w);
    lemma_components_contain(search, project, due, before, after, priority, overdue, today, tomorrow, week, month, year, recurring, m);
    lemma_components_contain(search, project, due, before, after, priority, overdue, today, tomorrow, week, month, year, recurring, y);
    if let Some(x) = search {
        lemma_prefix_mismatch("search: "@, x, w, 0);
        lemma_prefix_mismatch("search: "@, x, m, 0);
        lemma_prefix_mismatch("search: "@, x, y, 0);
    }
    if let Some(x) = project {
        lemma_prefix_mismatch("##"@, x, w, 0);
        lemma_prefix_mismatch("##"@, x, m, 0);
        lemma_prefix_mismatch("##"@, x, y, 0);
    }
    if let Some(x) = priority {
        lemma_prefix_mismatch("p"@, x, w, 0);
        lemma_prefix_mismatch("p"@, x, m, 0);
        lemma_prefix_mismatch("p"@, x, y, 0);
    }
    if let Some(x) = due {
        lemma_prefix_mismatch("due: "@, x, w, 3);
        lemma_prefix_mismatch("due: "@, x, m, 3);
        lemma_prefix_mismatch("due: "@, x, y, 3);
    }
    if let Some(x) = before {
        lemma_prefix_cancel("due before: "@, x, "next week"@);
        lemma_prefix_cancel("due before: "@, x, "next month"@);
        lemma_prefix_cancel("due before: "@, x, "next year"@);
    }
    if let Some(x) = after {
        lemma_prefix_mismatch("due after: "@, x, w, 4);
        lemma_prefix_mismatch("due after: "@, x, m, 4);
        lemma_prefix_mismatch("due after: "@, x, y, 4);
    }
    assert("overdue"@[0] != w[0]);
    assert("recurring"@[0] != w[0]);
    assert("due: today"@[3] != w[3]);
    assert("due: tomorrow"@[3] != w[3]);
    assert(m[17] != w[17]);
    assert(y[17] != w[17]);
    assert("overdue"@[0] != m[0]);
    assert("recurring"@[0] != m[0]);
    assert("due: today"@[3] != m[3]);
    assert("due: tomorrow"@[3] != m[3]);
    assert(y[17] != m[17]);
    assert("overdue"@[0] != y[0]);
    assert("recurring"@[0] != y[0]);
    assert("due: today"@[3] != y[3]);
    assert("due: tomorrow"@[3] != y[3]);
}


proof fn lemma_switch_terms_ends(
    search: Option<Seq<char>>,
    project: Option<Seq<char>>,
    due: Option<Seq<char>>,
    before: Option<Seq<char>>,
    after: Option<Seq<char>>,
    priority: Option<Seq<char>>,
    overdue: bool,
    today: bool,
    tomorrow: bool,
    week: bool,
    month: bool,
    year: bool,
    recurring: bool,
)
    ensures
        filter_components(search, project, due, before, after, priority, overdue, today, tomorrow, week, month, year, recurring).contains("overdue"@) <==> overdue,
        filter_components(search, project, due, before, after, priority, overdue, today, tomorrow, week, month, year, recurring).contains("recurring"@) <==> recurring,
{
    reveal_strlit("search: ");
    reveal_strlit("##");
    reveal_strlit("due: ");
    reveal_strlit("due before: ");
    reveal_strlit("due after: ");
    reveal_strlit("p");
    reveal_strlit("overdue");
    reveal_strlit("due: today");
    reveal_strlit("due: tomorrow");
    reveal_strlit("due before: next week");
    reveal_strlit("due before: next month");
    reveal_strlit("due before: next year");
    reveal_strlit("recurring");
    let o = "overdue"@;
    let r = "recurring"@;
    lemma_components_contain(search, project, due, before, after, priority, overdue, today, tomorrow, week, month, year, recurring, o);
    lemma_components_contain(search, project, due, before, after, priority, overdue, today, tomorrow, week, month, year, recurring, r);
    if let Some(x) = search {
        lemma_prefix_mismatch("search: "@, x, o, 0);
        lemma_prefix_mismatch("search: "@, x, r, 0);
    }
    if let Some(x) = project {
        lemma_prefix_mismatch("##"@, x, o, 0);
        lemma_prefix_mismatch("##"@, x, r, 0);
    }
    if let Some(x) = priority {
        lemma_prefix_mismatch("p"@, x, o, 0);
        lemma_prefix_mismatch("p"@, x, r, 0);
    }
    if let Some(x) = due {
        lemma_prefix_mismatch("due: "@, x, o, 0);
        lemma_prefix_mismatch("due: "@, x, r, 0);
    }
    if let Some(x) = before {
        lemma_prefix_mismatch("due before: "@, x, o, 0);
        lemma_prefix_mismatch("due before: "@, x, r, 0);
    }
    if let Some(x) = after {
        lemma_prefix_mismatch("due after: "@, x, o, 0);
        lemma_prefix_mismatch("due after: "@, x, r, 0);
    }
    assert("due: today"@[0] != o[0]);
    assert("due: tomorrow"@[0] != o[0]);
    assert("due before: next week"@[0] != o[0]);
    assert("due before: next month"@[0] != o[0]);
    assert("due before: next year"@[0] != o[0]);
    assert(r[0] != o[0]);
    assert("due: today"@[0] != r[0]);
    assert("due: tomorrow"@[0] != r[0]);
    assert("due before: next week"@[0] != r[0]);
    assert("due before: next month"@[0] != r[0]);
    assert("due before: next year"@[0] != r[0]);
}


proof fn lemma_term_count(
    search: Option<Seq<char>>,
    project: Option<Seq<char>>,
    due: Option<Seq<char>>,
    before: Option<Seq<char>>,
    after: Option<Seq<char>>,
    priority: Option<Seq<char>>,
    overdue: bool,
    today: bool,
    tomorrow: bool,
    week: bool,
    month: bool,
    year: bool,
    recurring: bool,
)
    ensures
        filter_components(search, project, due, before, after, priority, overdue, today, tomorrow, week, month, year, recurring).len() == one_if(search is Some) + one_if(project is Some)
            + one_if(due is Some) + one_if(before is Some) + one_if(after is Some)
            + one_if(priority is Some) + one_if(overdue) + one_if(today)
            + one_if(tomorrow) + one_if(week) + one_if(month)
            + one_if(year) + one_if(recurring),
{
    let c1 = value_component(search, "search: "@);
    let c2 = value_component(project, "##"@);
    let c3 = value_component(due, "due: "@);
    let c4 = value_component(before, "due before: "@);
    let c5 = value_component(after, "due after: "@);
    let c6 = value_component(priority, "p"@);
    let c7 = flag_component(overdue, "overdue"@);
    let c8 = flag_component(today, "due: today"@);
    let c9 = flag_component(tomorrow, "due: tomorrow"@);
    let c10 = flag_component(week, "due before: next week"@);
    let c11 = flag_component(month, "due before: next month"@);
    let c12 = flag_component(year, "due before: next year"@);
    let c13 = flag_component(recurring, "recurring"@);
    lemma_value_len(search, "search: "@);
    lemma_value_len(project, "##"@);
    lemma_value_len(due, "due: "@);
    lemma_value_len(before, "due before: "@);
    lemma_value_len(after, "due after: "@);
    lemma_value_len(priority, "p"@);
    lemma_flag_len(overdue, "overdue"@);
    lemma_flag_len(today, "due: today"@);
    lemma_flag_len(tomorrow, "due: tomorrow"@);
    lemma_flag_len(week, "due before: next week"@);
    lemma_flag_len(month, "due before: next month"@);
    lemma_flag_len(year, "due before: next year"@);
    lemma_flag_len(recurring, "recurring"@);
    assert(filter_components(search, project, due, before, after, priority, overdue, today, tomorrow, week, month, year, recurring)
        == c1 + c2 + c3 + c4 + c5 + c6 + c7 + c8 + c9 + c10 + c11 + c12 + c13);
    assert((c1 + c2 + c3 + c4 + c5 + c6 + c7 + c8 + c9 + c10 + c11 + c12 + c13).len()
        == c1.len() + c2.len() + c3.len() + c4.len() + c5.len() + c6.len() + c7.len() + c8.len()
        + c9.len() + c10.len() + c11.len() + c12.len() + c13.len());
}


proof fn lemma_value_len(v: Option<Seq<char>>, prefix: Seq<char>)
    ensures
        value_component(v, prefix).len() == one_if(v is Some),
{
}

proof fn lemma_flag_len(on: bool, text: Seq<char>)
    ensures
        flag_component(on, text).len() == one_if(on),
{
}


/// With no raw filter and no value given, one switch on alone gives its own
/// term as the whole query: `--overdue` gives "overdue", `--today` gives
/// "due: today", `--tomorrow` gives "due: tomorrow", `--week`, `--month` and
/// `--year` give "due before: next week", "... next month" and "... next
/// year", and `--recurring` gives "recurring".
pub proof fn lemma_lone_switch(
    overdue: bool,
    today: bool,
    tomorrow: bool,
    week: bool,
    month: bool,
    year: bool,
    recurring: bool,
)
    requires
        one_if(overdue) + one_if(today) + one_if(tomorrow) + one_if(week) + one_if(month)
            + one_if(year) + one_if(recurring) == 1,
    ensures
        overdue ==> spec_build_filter(None, None, None, None, None, None, None, overdue, today, tomorrow, week, month, year, recurring) == Some("overdue"@),
        today ==> spec_build_filter(None, None, None, None, None, None, None, overdue, today, tomorrow, week, month, year, recurring) == Some("due: today"@),
        tomorrow ==> spec_build_filter(None, None, None, None, None, None, None, overdue, today, tomorrow, week, month, year, recurring) == Some("due: tomorrow"@),
        week ==> spec_build_filter(None, None, None, None, None, None, None, overdue, today, tomorrow, week, month, year, recurring) == Some("due before: next week"@),
        month ==> spec_build_filter(None, None, None, None, None, None, None, overdue, today, tomorrow, week, month, year, recurring) == Some("due before: next month"@),
        year ==> spec_build_filter(None, None, None, None, None, None, None, overdue, today, tomorrow, week, month, year, recurring) == Some("due before: next year"@),
        recurring ==> spec_build_filter(None, None, None, None, None, None, None, overdue, today, tomorrow, week, month, year, recurring) == Some("recurring"@),
{
    let none: Option<Seq<char>> = None;
    let comps = filter_components(none, none, none, none, none, none, overdue, today, tomorrow, week, month, year, recurring);
    let term = if overdue {
        "overdue"@
    } else if today {
        "due: today"@
    } else if tomorrow {
        "due: tomorrow"@
    } else if week {
        "due before: next week"@
    } else if month {
        "due before: next month"@
    } else if year {
        "due before: next year"@
    } else {
        "recurring"@
    };
    assert(comps =~= seq![term]);
    assert(join(comps, " & "@) == term);
}

} // verus!
