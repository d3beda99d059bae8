//! The task listing: one entry per task of the service's answer, ordered by
//! due date, and the summary of a newly added task.

use vstd::prelude::*;
use crate::api::CliError;
use crate::due::{
    at_midnight, days_from_ce, valid_ymd, due_color, due_le, due_text, format_due_date_on, local_today, parse_due_date,
    spec_from_ymd_hms, spec_parse_due_date, DueDateTime, DueDisplay, DueParts, first_day,
    last_day,
};
use crate::text::{opt_view, pad_right, pad_right_str};

verus! {

broadcast use vstd::seq_lib::group_seq_properties;

/// One entry of the task listing.
#[derive(Clone, Debug)]
pub struct ListEntry {
    /// When the task is due, for ordering: tasks without due date last,
    /// tasks due on a day without time at the end of that day.
    pub order: DueDateTime,
    /// The content and description, padded to the column width.
    pub content: String,
    /// The due date as shown, with its markers, padded to the column width.
    pub due: DueDisplay,
    /// The task's identifier at the service.
    pub id: String,
}

/// Whether an entry's ordering date is `k`.
pub open spec fn has_order(k: DueParts) -> spec_fn(ListEntry) -> bool {
    |e: ListEntry| e.order@ == k
}

/// The entries of `s` whose ordering date is `k`.
pub open spec fn with_order(s: Seq<ListEntry>, k: DueParts) -> Seq<ListEntry> {
    s.filter(has_order(k))
}

/// `s` is ordered by due date.
pub open spec fn ordered(s: Seq<ListEntry>) -> bool {
    forall|i: int, j: int| 0 <= i < j < s.len() ==> due_le(#[trigger] s[i].order@, #[trigger] s[j].order@)
}

proof fn lemma_with_order_insert(out: Seq<ListEntry>, p: int, x: ListEntry, k: DueParts)
    requires
        0 <= p <= out.len(),
        forall|i: int| 0 <= i < p ==> (#[trigger] out[i]).order@ != x.order@,
    ensures
        with_order(out.insert(p, x), k) == if x.order@ == k {
            seq![x] + with_order(out, k)
        } else {
            with_order(out, k)
        },
{
    let pred = has_order(k);
    let a = out.take(p);
    let b = out.skip(p);
    assert(out.insert(p, x) =~= a + seq![x] + b);
    assert(out =~= a + b);
    Seq::filter_distributes_over_add(a + seq![x], b, pred);
    Seq::filter_distributes_over_add(a, seq![x], pred);
    Seq::filter_distributes_over_add(a, b, pred);
    reveal_with_fuel(Seq::filter, 2);
    if x.order@ == k {
        assert forall|i: int| 0 <= i < a.len() implies !pred(#[trigger] a[i]) by {}
        a.lemma_all_neg_filter_empty(pred);
        assert(a.filter(pred) =~= Seq::<ListEntry>::empty());
        assert(seq![x].filter(pred) =~= seq![x]);
        assert(seq![x] + b.filter(pred) =~= a.filter(pred) + seq![x] + b.filter(pred));
    } else {
        assert(seq![x].filter(pred) =~= Seq::<ListEntry>::empty());
        assert(a.filter(pred) + seq![x].filter(pred) =~= a.filter(pred));
    }
}

proof fn lemma_with_order_prepend(x: ListEntry, rest: Seq<ListEntry>, k: DueParts)
    ensures
        with_order(seq![x] + rest, k) == if x.order@ == k {
            seq![x] + with_order(rest, k)
        } else {
            with_order(rest, k)
        },
{
    let pred = has_order(k);
    Seq::filter_distributes_over_add(seq![x], rest, pred);
    reveal_with_fuel(Seq::filter, 2);
    if x.order@ == k {
        assert(seq![x].filter(pred) =~= seq![x]);
    } else {
        assert(seq![x].filter(pred) =~= Seq::<ListEntry>::empty());
        assert(Seq::<ListEntry>::empty() + rest.filter(pred) =~= rest.filter(pred));
    }
}

/// Orders the entries by due date, keeping entries due at the same moment
/// in their given order (a stable sort, as `sort_by_key` does).
pub fn order_entries(entries: Vec<ListEntry>) -> (r: Vec<ListEntry>)
    ensures
        ordered(r@),
        same_groups(r@, entries@),
{
    let ghost all = entries@;
    let n = entries.len();
    let mut rest = entries;
    let mut out: Vec<ListEntry> = Vec::new();
    let mut m: usize = n;
    assert forall|k: DueParts| #[trigger] with_order(out@, k) == with_order(all.subrange(m as int, n as int), k) by {
        assert(out@ =~= all.subrange(m as int, n as int));
    }
    while m > 0
        invariant
            n == all.len(),
            m <= n,
            rest@ == all.take(m as int),
            ordered(out@),
            forall|k: DueParts| #[trigger] with_order(out@, k) == with_order(all.subrange(m as int, n as int), k),
        decreases m,
    {
        let x = rest.pop().unwrap();
        assert(x == all[m - 1]);
        let mut p: usize = 0;
        while p < out.len() && !x.order.le(&out[p].order)
            invariant
                p <= out.len(),
                forall|i: int| 0 <= i < p ==> !due_le(x.order@, #[trigger] out@[i].order@),
            decreases out.len() - p,
        {
            p = p + 1;
        }
        let ghost old_out = out@;
        proof {
            assert forall|i: int| 0 <= i < p implies (#[trigger] old_out[i]).order@ != x.order@ by {
                if old_out[i].order@ == x.order@ {
                    assert(due_le(x.order@, old_out[i].order@));
                }
            }
            assert forall|k: DueParts| #[trigger] with_order(old_out.insert(p as int, x), k) == with_order(all.subrange(m - 1, n as int), k) by {
                lemma_with_order_insert(old_out, p as int, x, k);
                lemma_with_order_prepend(x, all.subrange(m as int, n as int), k);
                assert(all.subrange(m - 1, n as int) =~= seq![x] + all.subrange(m as int, n as int));
            }
        }
        out.insert(p, x);
        proof {
            assert forall|i: int, j: int| 0 <= i < j < out@.len() implies due_le(#[trigger] out@[i].order@, #[trigger] out@[j].order@) by {
                if j < p {
                    assert(out@[i] == old_out[i] && out@[j] == old_out[j]);
                } else if j == p {
                    assert(out@[i] == old_out[i]);
                } else if i == p {
                    assert(out@[j] == old_out[j - 1]);
                    if p < old_out.len() {
                        assert(due_le(x.order@, old_out[p as int].order@));
                        if j - 1 > p {
                            assert(due_le(old_out[p as int].order@, old_out[j - 1].order@));
                        }
                    }
                } else if i < p {
                    assert(out@[i] == old_out[i] && out@[j] == old_out[j - 1]);
                } else {
                    assert(out@[i] == old_out[i - 1] && out@[j] == old_out[j - 1]);
                }
            }
        }
        m = m - 1;
    }
    assert(all.subrange(0, n as int) =~= all);
    out
}


/// A task as the service describes it; a field is none where the answer
/// does not hold it (or not as text, or not as a boolean).
#[derive(Clone, Debug)]
pub struct RawTask {
    pub id: Option<String>,
    pub content: Option<String>,
    pub description: Option<String>,
    /// The `date` of the task's `due` object.
    pub due_date: Option<String>,
    /// The `is_recurring` of the task's `due` object.
    pub is_recurring: Option<bool>,
}

/// An optional text, or `default` when there is none.
pub open spec fn text_or(o: Option<String>, default: Seq<char>) -> Seq<char> {
    match opt_view(o) {
        Some(t) => t,
        None => default,
    }
}

/// The content followed by " - " and the description, leaving out whatever
/// is empty.
pub open spec fn content_description(content: Seq<char>, description: Seq<char>) -> Seq<char> {
    if description.len() == 0 {
        content
    } else if content.len() == 0 {
        description
    } else {
        content + " - "@ + description
    }
}

fn text_or_empty(o: &Option<String>) -> (r: String)
    ensures
        r@ == text_or(*o, Seq::empty()),
{
    match o {
        Some(t) => t.clone(),
        None => String::new(),
    }
}

/// Joins a task's content and description as a listing shows them.
pub fn join_content_description(content: &str, description: &str) -> (r: String)
    ensures
        r@ == content_description(content@, description@),
{
    let mut r = String::from_str(content);
    if description.unicode_len() > 0 {
        if content.unicode_len() > 0 {
            r.append(" - ");
        }
        r.append(description);
    }
    r
}

/// The due date that orders tasks without one: 1 January 22222.
pub open spec fn fallback_due() -> DueParts {
    spec_from_ymd_hms(22222, 1, 1, 0, 0, 0).unwrap()
}

/// When a task counts as due for ordering: its due date, or the fallback
/// date; a due date at midnight counts at 23:59:59 of its day.
pub open spec fn ordering_due(date: Option<DueParts>) -> DueParts {
    let d = match date {
        Some(d) => d,
        None => fallback_due(),
    };
    if at_midnight(d) {
        DueParts { day: d.day, secs: 86399, nanos: 0 }
    } else {
        d
    }
}

/// The marker of an overdue task.
pub open spec fn overdue_mark() -> char {
    '\u{23F0}'
}

/// The marker of a recurring task.
pub open spec fn recurring_mark() -> char {
    '\u{1F501}'
}

/// The due text with the overdue marker when the task counts as due before
/// today, and the recurring marker when it recurs.
pub open spec fn marked_due_text(due: Seq<char>, order: DueParts, today: int, recurring: bool) -> Seq<char> {
    let with_overdue = if order.day < today {
        due.push(overdue_mark())
    } else {
        due
    };
    if recurring {
        with_overdue.push(recurring_mark())
    } else {
        with_overdue
    }
}

/// The width of the content column of the listing.
pub open spec fn content_width() -> nat {
    75
}

/// The width of the due column of the listing.
pub open spec fn due_width() -> nat {
    12
}

/// `e` is the listing entry of the task `t` on the day `today`.
pub open spec fn entry_of(e: ListEntry, t: RawTask, today: int) -> bool {
    let date = spec_parse_due_date(text_or(t.due_date, "none"@));
    let order = ordering_due(date);
    let recurring = t.is_recurring == Some(true);
    &&& e.order@ == order
    &&& e.content@ == pad_right(
        content_description(text_or(t.content, Seq::empty()), text_or(t.description, Seq::empty())),
        content_width(),
    )
    &&& e.due.text@ == pad_right(marked_due_text(due_text(date, today), order, today, recurring), due_width())
    &&& e.due.color == due_color(date, today)
    &&& e.id@ == text_or(t.id, Seq::empty())
}

fn ordering_date(date: Option<DueDateTime>) -> (r: DueDateTime)
    ensures
        r@ == ordering_due(match date {
            Some(d) => Some(d@),
            None => None,
        }),
{
    let d = match date {
        Some(d) => d,
        None => match DueDateTime::from_ymd_hms(22222, 1, 1, 0, 0, 0) {
            Some(f) => f,
            None => {
                assert(false);
                return date.unwrap();
            },
        },
    };
    if d.is_midnight() {
        let end = DueDateTime::new(d.day(), 86399, 0);
        match end {
            Some(e) => e,
            None => {
                assert(false);
                d
            },
        }
    } else {
        d
    }
}

/// `entries` are the listing entries of `tasks`, one for one, on `today`.
pub open spec fn entries_of(entries: Seq<ListEntry>, tasks: Seq<RawTask>, today: int) -> bool {
    &&& entries.len() == tasks.len()
    &&& forall|i: int| 0 <= i < tasks.len() ==> entry_of(#[trigger] entries[i], tasks[i], today)
}

/// `a` and `b` hold the same entries for each ordering date, in the same
/// order.
pub open spec fn same_groups(a: Seq<ListEntry>, b: Seq<ListEntry>) -> bool {
    forall|k: DueParts| #[trigger] with_order(a, k) == with_order(b, k)
}

/// `r` is the listing of `tasks` on `today`: their entries ordered by when
/// they count as due, entries due at the same moment in the tasks' order.
pub open spec fn is_listing(r: Seq<ListEntry>, tasks: Seq<RawTask>, today: int) -> bool {
    exists|entries: Seq<ListEntry>|
        #[trigger] entries_of(entries, tasks, today) && ordered(r) && same_groups(r, entries)
}

/// The listing entry of one task, with due dates shown relative to the day
/// `today`.
pub fn task_entry(task: &RawTask, today: i32) -> (r: ListEntry)
    ensures
        entry_of(r, *task, today as int),
{
    let due_source = match &task.due_date {
        Some(d) => d.clone(),
        None => String::from_str("none"),
    };
    let date = parse_due_date(due_source.as_str());
    let display = format_due_date_on(date, today);
    let order = ordering_date(date);
    let mut text = display.text;
    if (order.day() as i64) < (today as i64) {
        text.push('\u{23F0}');
    }
    if task.is_recurring == Some(true) {
        text.push('\u{1F501}');
    }
    let content = text_or_empty(&task.content);
    let description = text_or_empty(&task.description);
    let joined = join_content_description(content.as_str(), description.as_str());
    ListEntry {
        order,
        content: pad_right_str(joined.as_str(), 75),
        due: DueDisplay { text: pad_right_str(text.as_str(), 12), color: display.color },
        id: text_or_empty(&task.id),
    }
}

/// The task listing on the day `today`: each task's entry, ordered by when
/// it counts as due, tasks due at the same moment in the service's order.
pub fn list_tasks_on(tasks: &Vec<RawTask>, today: i32) -> (r: Vec<ListEntry>)
    ensures
        is_listing(r@, tasks@, today as int),
{
    let mut entries: Vec<ListEntry> = Vec::new();
    let n = tasks.len();
    let mut i: usize = 0;
    while i < n
        invariant
            n == tasks@.len(),
            i <= n,
            entries@.len() == i,
            forall|j: int| 0 <= j < i ==> entry_of(#[trigger] entries@[j], tasks@[j], today as int),
        decreases n - i,
    {
        let e = task_entry(&tasks[i], today);
        entries.push(e);
        i = i + 1;
    }
    let ghost unordered = entries@;
    let r = order_entries(entries);
    assert(entries_of(unordered, tasks@, today as int));
    r
}

/// The task listing on today's date by the machine's clock; whatever day
/// that is, the listing is the one `list_tasks_on` gives for it.
pub fn list_tasks(tasks: &Vec<RawTask>) -> (r: Vec<ListEntry>)
    ensures
        exists|today: int|
            first_day() <= today <= last_day() && #[trigger] is_listing(r@, tasks@, today),
{
    let today = local_today();
    list_tasks_on(tasks, today)
}

/// The identifiers of the listed tasks, in listing order, as the stored
/// task list keeps them.
pub fn listed_ids(entries: &Vec<ListEntry>) -> (r: Vec<String>)
    ensures
        r@.len() == entries@.len(),
        forall|i: int| 0 <= i < entries@.len() ==> (#[trigger] r@[i])@ == entries@[i].id@,
{
    let mut r: Vec<String> = Vec::new();
    let n = entries.len();
    let mut i: usize = 0;
    while i < n
        invariant
            n == entries@.len(),
            i <= n,
            r@.len() == i,
            forall|j: int| 0 <= j < i ==> (#[trigger] r@[j])@ == entries@[j].id@,
        decreases n - i,
    {
        r.push(entries[i].id.clone());
        i = i + 1;
    }
    r
}


/// What the `add` command reports of a created task and the task list it
/// stores afterwards.
#[derive(Clone, Debug)]
pub struct AddedTask {
    /// The line printed for the task.
    pub line: String,
    /// The stored task list: the new task alone, at index 0.
    pub ids: Vec<String>,
}

/// The line printed for a created task: its index 0, content and
/// description, due date text as the service gave it ("none" without one),
/// and the recurring marker after a space when it recurs.
pub open spec fn added_line(t: RawTask) -> Seq<char> {
    let recurring = if t.is_recurring == Some(true) {
        seq![' ', recurring_mark()]
    } else {
        Seq::empty()
    };
    "0  | "@ + content_description(text_or(t.content, Seq::empty()), text_or(t.description, Seq::empty()))
        + " (due: "@ + text_or(t.due_date, "none"@) + recurring + ")"@
}

/// The outcome of the `add` command for the service's answer: the error the
/// answer holds, or the created task's line and the new stored task list.
pub fn added_task(api_error: Option<String>, task: &RawTask) -> (r: Result<AddedTask, CliError>)
    ensures
        match (api_error, r) {
            (Some(m), Err(CliError::ApiError { message })) => message@ == m@,
            (None, Ok(a)) => {
                &&& a.line@ == added_line(*task)
                &&& a.ids@.len() == 1
                &&& a.ids@[0]@ == text_or(task.id, Seq::empty())
            },
            _ => false,
        },
{
    if let Some(message) = api_error {
        return Err(CliError::ApiError { message });
    }
    let content = text_or_empty(&task.content);
    let description = text_or_empty(&task.description);
    let joined = join_content_description(content.as_str(), description.as_str());
    let mut line = String::from_str("0  | ");
    line.append(joined.as_str());
    line.append(" (due: ");
    match &task.due_date {
        Some(d) => line.append(d.as_str()),
        None => line.append("none"),
    }
    if task.is_recurring == Some(true) {
        line.push(' ');
        line.push('\u{1F501}');
    }
    line.append(")");
    let mut ids: Vec<String> = Vec::new();
    ids.push(text_or_empty(&task.id));
    proof {
        let recurring = if task.is_recurring == Some(true) {
            seq![' ', recurring_mark()]
        } else {
            Seq::<char>::empty()
        };
        assert(line@ =~= "0  | "@ + joined@ + " (due: "@ + text_or(task.due_date, "none"@) + recurring + ")"@);
    }
    Ok(AddedTask { line, ids })
}


/// A task due on a day without a time of day is listed after every task
/// due on that same day at a time up to 23:59:59.
pub proof fn lemma_date_only_after_timed(d: DueParts, e: DueParts)
    requires
        at_midnight(d),
        e.day == d.day,
        0 <= e.secs < 86399 || (e.secs == 86399 && e.nanos == 0),
    ensures
        due_le(ordering_due(Some(e)), ordering_due(Some(d))),
{
}

/// A task without due date counts as due at 23:59:59 on 1 January 22222,
/// and is listed after every task due on an earlier day.
pub proof fn lemma_no_due_date_last(e: DueParts)
    requires
        e.day < days_from_ce(22222, 1, 1),
    ensures
        ordering_due(None) == (DueParts { day: days_from_ce(22222, 1, 1), secs: 86399, nanos: 0 }),
        days_from_ce(22222, 1, 1) == 8116054,
        due_le(ordering_due(Some(e)), ordering_due(None)),
        !due_le(ordering_due(None), ordering_due(Some(e))),
{
    assert(valid_ymd(22222, 1, 1));
}

/// The day on which a task counts as due: its due date's day, or for a task
/// without one the day of 1 January 22222.
pub open spec fn due_day_of(date: Option<DueParts>) -> int {
    match date {
        Some(d) => d.day,
        None => days_from_ce(22222, 1, 1),
    }
}

/// A listed task's due text carries the overdue marker exactly when the day
/// it is due is before today, whatever its time of day, and then the
/// recurring marker exactly when the service says it recurs.
pub proof fn lemma_entry_markers(e: ListEntry, t: RawTask, today: int)
    requires
        entry_of(e, t, today),
    ensures
        e.due.text@ == pad_right(
            due_text(spec_parse_due_date(text_or(t.due_date, "none"@)), today) + (if due_day_of(
                spec_parse_due_date(text_or(t.due_date, "none"@)),
            ) < today {
                seq!['\u{23F0}']
            } else {
                Seq::empty()
            }) + (if t.is_recurring == Some(true) {
                seq!['\u{1F501}']
            } else {
                Seq::empty()
            }),
            12,
        ),
{
    let date = spec_parse_due_date(text_or(t.due_date, "none"@));
    let order = ordering_due(date);
    assert(valid_ymd(22222, 1, 1));
    assert(order.day == due_day_of(date));
    let txt = due_text(date, today);
    let over = if due_day_of(date) < today {
        seq!['\u{23F0}']
    } else {
        Seq::<char>::empty()
    };
    let rec = if t.is_recurring == Some(true) {
        seq!['\u{1F501}']
    } else {
        Seq::<char>::empty()
    };
    assert(marked_due_text(txt, order, today, t.is_recurring == Some(true)) =~= txt + over + rec);
}

/// The task `t` with the given recurrence flag.
pub open spec fn with_recurring(t: RawTask, r: Option<bool>) -> RawTask {
    RawTask { is_recurring: r, ..t }
}

/// The line of an added task carries the recurring marker exactly when the
/// service says the task recurs: a missing flag reads as not recurring, and
/// a recurring task's line is the non-recurring line with " " and the
/// marker before its closing parenthesis.
pub proof fn lemma_added_line_recurring(t: RawTask)
    ensures
        added_line(with_recurring(t, None)) == added_line(with_recurring(t, Some(false))),
        added_line(with_recurring(t, Some(false))).last() == ')',
        added_line(with_recurring(t, Some(true))) == added_line(with_recurring(t, Some(false))).drop_last()
            + seq![' ', '\u{1F501}', ')'],
{
    reveal_strlit(")");
    let base = "0  | "@ + content_description(text_or(t.content, Seq::empty()), text_or(t.description, Seq::empty()))
        + " (due: "@ + text_or(t.due_date, "none"@);
    assert(added_line(with_recurring(t, Some(false))) =~= base + ")"@);
    assert(added_line(with_recurring(t, None)) =~= base + ")"@);
    assert((base + ")"@).drop_last() =~= base);
    assert(added_line(with_recurring(t, Some(true))) =~= base + seq![' ', '\u{1F501}', ')']);
}

/// A listing shows a task's content first and its description last, with
/// " - " between them only when both are there; nothing else is added or
/// lost.
pub proof fn lemma_content_then_description(content: Seq<char>, description: Seq<char>)
    ensures
        content_description(content, description).take(content.len() as int) == content,
        content_description(content, description).skip(
            content_description(content, description).len() - description.len(),
        ) == description,
        content_description(content, description).len() == content.len() + description.len()
            + if content.len() > 0 && description.len() > 0 {
            3int
        } else {
            0int
        },
{
    let r = content_description(content, description);
    if content.len() > 0 && description.len() > 0 {
        reveal_strlit(" - ");
    }
    assert(r.take(content.len() as int) =~= content);
    assert(r.skip(r.len() - description.len()) =~= description);
}

/// A listing goes by when tasks count as due: an entry never counts as due
/// on a later day than an entry after it, nor later in the day when both
/// count as due on the same day.
pub proof fn lemma_listing_by_time(r: Seq<ListEntry>, tasks: Seq<RawTask>, today: int)
    requires
        is_listing(r, tasks, today),
    ensures
        forall|i: int, j: int|
            0 <= i < j < r.len() ==> (#[trigger] r[i]).order@.day <= (#[trigger] r[j]).order@.day,
        forall|i: int, j: int|
            0 <= i < j < r.len() && (#[trigger] r[i]).order@.day == (#[trigger] r[j]).order@.day
                ==> r[i].order@.secs <= r[j].order@.secs,
{
}

/// Whether an entry's ordering date is other than `k`.
spec fn other_order(k: DueParts) -> spec_fn(ListEntry) -> bool {
    |e: ListEntry| e.order@ != k
}

proof fn lemma_split_by_order(s: Seq<ListEntry>, k: DueParts)
    ensures
        s.len() == with_order(s, k).len() + s.filter(other_order(k)).len(),
        forall|k2: DueParts|
            k2 != k ==> #[trigger] with_order(s.filter(other_order(k)), k2) == with_order(s, k2),
        with_order(s.filter(other_order(k)), k).len() == 0,
    decreases s.len(),
{
    reveal_with_fuel(Seq::filter, 1);
    if s.len() > 0 {
        let front = s.drop_last();
        let x = s.last();
        lemma_split_by_order(front, k);
        let fo = front.filter(other_order(k));
        if x.order@ != k {
            assert(s.filter(other_order(k)) == fo.push(x));
            assert(fo.push(x).drop_last() =~= fo);
            assert forall|k2: DueParts| k2 != k implies #[trigger] with_order(s.filter(other_order(k)), k2)
                == with_order(s, k2) by {
                assert(with_order(fo.push(x), k2) == if x.order@ == k2 {
                    with_order(fo, k2).push(x)
                } else {
                    with_order(fo, k2)
                });
            }
            assert(with_order(fo.push(x), k) == with_order(fo, k));
        } else {
            assert(s.filter(other_order(k)) == fo);
            assert forall|k2: DueParts| k2 != k implies #[trigger] with_order(s.filter(other_order(k)), k2)
                == with_order(s, k2) by {
                assert(with_order(s, k2) == with_order(front, k2));
            }
        }
    }
}

proof fn lemma_same_groups_len(a: Seq<ListEntry>, b: Seq<ListEntry>)
    requires
        same_groups(a, b),
    ensures
        a.len() == b.len(),
    decreases a.len() + b.len(),
{
    reveal_with_fuel(Seq::filter, 1);
    if a.len() > 0 || b.len() > 0 {
        let k = if b.len() > 0 {
            b.last().order@
        } else {
            a.last().order@
        };
        assert(with_order(a, k) == with_order(b, k));
        lemma_split_by_order(a, k);
        lemma_split_by_order(b, k);
        let a2 = a.filter(other_order(k));
        let b2 = b.filter(other_order(k));
        if b.len() > 0 {
            assert(with_order(b, k).len() > 0);
        } else {
            assert(with_order(a, k).len() > 0);
        }
        assert forall|k2: DueParts| #[trigger] with_order(a2, k2) == with_order(b2, k2) by {
            if k2 == k {
                assert(with_order(a2, k2) =~= with_order(b2, k2));
            } else {
                assert(with_order(a, k2) == with_order(b, k2));
            }
        }
        lemma_same_groups_len(a2, b2);
    }
}

/// Some entry of `r` is the entry of the task `t` on `today`.
pub open spec fn has_entry(r: Seq<ListEntry>, t: RawTask, today: int) -> bool {
    exists|j: int| 0 <= j < r.len() && entry_of(#[trigger] r[j], t, today)
}

/// A listing holds one entry per task, and each task's entry is in it.
pub proof fn lemma_listing_lists_every_task(r: Seq<ListEntry>, tasks: Seq<RawTask>, today: int)
    requires
        is_listing(r, tasks, today),
    ensures
        r.len() == tasks.len(),
        forall|i: int| 0 <= i < tasks.len() ==> #[trigger] has_entry(r, tasks[i], today),
{
    let entries = choose|entries: Seq<ListEntry>|
        #[trigger] entries_of(entries, tasks, today) && ordered(r) && same_groups(r, entries);
    lemma_same_groups_len(r, entries);
    assert forall|i: int| 0 <= i < tasks.len() implies #[trigger] has_entry(r, tasks[i], today) by {
        let e = entries[i];
        assert(entry_of(entries[i], tasks[i], today));
        let k = e.order@;
        entries.lemma_filter_contains(has_order(k), i);
        assert(with_order(r, k) == with_order(entries, k));
        r.lemma_filter_contains_rev(has_order(k), e);
        let j = choose|j: int| 0 <= j < r.len() && r[j] == e;
        assert(entry_of(r[j], tasks[i], today));
    }
}

} // verus!
