use taskcli::filter::build_filter;

#[test]
fn build_filter_prefers_raw_filter_when_present() {
    let filter = build_filter(
        Some(String::from("raw filter")),
        Some(String::from("search-term")),
        Some(String::from("Inbox")),
        Some(String::from("today")),
        Some(String::from("tomorrow")),
        Some(String::from("next week")),
        Some(String::from("1")),
        true,
        true,
        true,
        true,
        true,
        true,
        true,
    );

    assert_eq!(filter, Some(String::from("raw filter")));
}

#[test]
fn build_filter_returns_none_when_no_components_are_provided() {
    let filter = build_filter(
        None, None, None, None, None, None, None, false, false, false, false, false, false, false,
    );

    assert_eq!(filter, None);
}

#[test]
fn build_filter_combines_components_in_expected_order() {
    let filter = build_filter(
        None,
        Some(String::from("feature")),
        Some(String::from("Work")),
        Some(String::from("today")),
        Some(String::from("tomorrow")),
        Some(String::from("next week")),
        Some(String::from("2")),
        true,
        true,
        true,
        true,
        true,
        true,
        true,
    );

    assert_eq!(
        filter,
        Some(String::from(
            "search: feature & ##Work & due: today & due before: tomorrow & due after: next week & p2 & overdue & due: today & due: tomorrow & due before: next week & due before: next month & due before: next year & recurring"
        ))
    );
}

#[test]
fn build_filter_single_component_has_no_separator() {
    let filter = build_filter(
        None, None, None, None, None, None, Some(String::from("4")), false, false, false, false,
        false, false, false,
    );
    assert_eq!(filter, Some(String::from("p4")));
    let flag = build_filter(
        None, None, None, None, None, None, None, false, false, false, false, false, false, true,
    );
    assert_eq!(flag, Some(String::from("recurring")));
}

#[test]
fn build_filter_raw_filter_kept_even_if_empty() {
    let filter = build_filter(
        Some(String::new()),
        None, None, None, None, None, None, false, false, false, false, false, false, false,
    );
    assert_eq!(filter, Some(String::new()));
}

#[test]
fn build_filter_some_components() {
    let filter = build_filter(
        None,
        None,
        Some(String::from("Home")),
        None,
        Some(String::from("monday")),
        None,
        None,
        true,
        false,
        false,
        true,
        false,
        false,
        false,
    );
    assert_eq!(
        filter,
        Some(String::from("##Home & due before: monday & overdue & due before: next week"))
    );
}
