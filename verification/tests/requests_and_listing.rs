use chrono::Datelike;
use taskcli::api::{
    add_request, auth_header_value, list_request, resolve_task_id, task_action_url, update_task,
    validate_add_response, validate_response, CliError, HttpMethod, TaskAction,
};
use taskcli::due::DueColor;
use taskcli::tasks::{added_task, list_tasks, list_tasks_on, listed_ids, task_entry, RawTask};

fn strings(v: &[&str]) -> Vec<String> {
    v.iter().map(|s| s.to_string()).collect()
}

fn task(id: &str, content: &str, description: &str, due: Option<&str>, recurring: Option<bool>) -> RawTask {
    RawTask {
        id: Some(id.to_string()),
        content: Some(content.to_string()),
        description: Some(description.to_string()),
        due_date: due.map(str::to_string),
        is_recurring: recurring,
    }
}

fn day_of(y: i32, m: u32, d: u32) -> i32 {
    chrono::NaiveDate::from_ymd_opt(y, m, d).unwrap().num_days_from_ce()
}

#[test]
fn auth_header_is_bearer_token() {
    assert_eq!(auth_header_value(Ok(String::from("abc"))).unwrap(), "Bearer abc");
    match auth_header_value(Err(String::from("no entry"))) {
        Err(CliError::NoAuthToken { cause }) => assert_eq!(cause, "no entry"),
        other => panic!("unexpected {:?}", other),
    }
}

#[test]
fn resolve_task_id_picks_listed_index() {
    let list = strings(&["a", "b", "c"]);
    assert_eq!(resolve_task_id(Ok(list.clone()), 1).unwrap(), "b");
    match resolve_task_id(Ok(list), 3) {
        Err(CliError::TaskIdNotFound { id }) => assert_eq!(id, 3),
        other => panic!("unexpected {:?}", other),
    }
    match resolve_task_id(Err(String::from("missing file")), 0) {
        Err(CliError::NoTaskList { cause }) => assert_eq!(cause, "missing file"),
        other => panic!("unexpected {:?}", other),
    }
}

#[test]
fn validate_response_accepts_only_2xx() {
    assert!(validate_response(200).is_ok());
    assert!(validate_response(204).is_ok());
    assert!(validate_response(299).is_ok());
    for s in [199u16, 300, 404, 500] {
        match validate_response(s) {
            Err(CliError::RequestFailed { status }) => assert_eq!(status, s),
            other => panic!("unexpected {:?}", other),
        }
    }
}

#[test]
fn task_actions_address_the_task() {
    assert_eq!(
        task_action_url("123", TaskAction::Close),
        "https://api.todoist.com/api/v1/tasks/123/close"
    );
    assert_eq!(
        task_action_url("123", TaskAction::Reopen),
        "https://api.todoist.com/api/v1/tasks/123/reopen"
    );
    assert_eq!(task_action_url("123", TaskAction::Delete), "https://api.todoist.com/api/v1/tasks/123");
    assert_eq!(TaskAction::Delete.method(), HttpMethod::Delete);
    assert_eq!(TaskAction::Close.method(), HttpMethod::Post);
}

#[test]
fn update_task_checks_token_then_list() {
    let req = update_task(Ok(String::from("tok")), Ok(strings(&["x", "y"])), 1, TaskAction::Reopen).unwrap();
    assert_eq!(req.method, HttpMethod::Post);
    assert_eq!(req.url, "https://api.todoist.com/api/v1/tasks/y/reopen");
    assert_eq!(req.authorization, "Bearer tok");
    assert_eq!(req.success_message, "Task reopened successfully.");
    assert!(matches!(
        update_task(Err(String::from("e")), Err(String::from("f")), 0, TaskAction::Close),
        Err(CliError::NoAuthToken { .. })
    ));
    assert!(matches!(
        update_task(Ok(String::from("t")), Err(String::from("f")), 0, TaskAction::Close),
        Err(CliError::NoTaskList { .. })
    ));
    assert!(matches!(
        update_task(Ok(String::from("t")), Ok(strings(&["x"])), 1, TaskAction::Delete),
        Err(CliError::TaskIdNotFound { id: 1 })
    ));
}

#[test]
fn list_request_encodes_limit_and_filter() {
    assert_eq!(list_request(None, None).unwrap(), "https://api.todoist.com/api/v1/tasks?limit=25");
    assert_eq!(
        list_request(Some(-3), Some(String::from("search: a&b & ##Work"))).unwrap(),
        "https://api.todoist.com/api/v1/tasks/filter?limit=-3&query=search%3A+a%26b+%26+%23%23Work"
    );
}

#[test]
fn add_request_encodes_text_and_reminder() {
    assert_eq!(
        add_request("Buy milk tomorrow #Home", Some(String::from("in 1 hour"))).unwrap(),
        "https://api.todoist.com/api/v1/tasks/quick?text=Buy+milk+tomorrow+%23Home&reminder=in+1+hour"
    );
    assert_eq!(add_request("x", None).unwrap(), "https://api.todoist.com/api/v1/tasks/quick?text=x");
}

#[test]
fn task_entry_shows_content_due_and_markers() {
    let today = day_of(2026, 3, 10);
    let e = task_entry(&task("1", "Pay rent", "monthly", Some("2026-03-09"), Some(true)), today);
    assert_eq!(e.content, format!("{:<75}", "Pay rent - monthly"));
    assert_eq!(e.due.text, format!("{:<12}", "Yesterday\u{23F0}\u{1F501}"));
    assert_eq!(e.due.color, DueColor::Red);
    assert_eq!(e.id, "1");
    let later = task_entry(&task("2", "", "only description", Some("2026-03-10T08:00:00Z"), None), today);
    assert_eq!(later.content.trim_end(), "only description");
    assert_eq!(later.due.text, format!("{:<12}", "Today 08:00"));
    let none = task_entry(
        &RawTask { id: None, content: None, description: None, due_date: None, is_recurring: None },
        today,
    );
    assert_eq!(none.due.text, " ".repeat(12));
    assert_eq!(none.due.color, DueColor::Plain);
    assert_eq!(none.id, "");
    assert_eq!(none.content, " ".repeat(75));
}

#[test]
fn listing_orders_by_due_and_keeps_ties_in_order() {
    let today = day_of(2026, 3, 10);
    let tasks = vec![
        task("nodue", "a", "", None, None),
        task("dateonly", "b", "", Some("2026-03-10"), None),
        task("late", "c", "", Some("2026-03-10T22:00:00Z"), None),
        task("early", "d", "", Some("2026-03-10T08:00:00Z"), None),
        task("dateonly2", "e", "", Some("2026-03-10"), None),
        task("past", "f", "", Some("2026-03-01"), None),
        task("nodue2", "g", "", None, None),
    ];
    let listing = list_tasks_on(&tasks, today);
    assert_eq!(
        listed_ids(&listing),
        strings(&["past", "early", "late", "dateonly", "dateonly2", "nodue", "nodue2"])
    );
    assert!(listing[0].due.text.contains('\u{23F0}'));
    assert!(!listing[1].due.text.contains('\u{23F0}'));
    assert_eq!(list_tasks(&Vec::new()).len(), 0);
}

#[test]
fn added_task_reports_line_and_new_list() {
    let added = added_task(None, &task("42", "Write report", "draft", Some("2026-03-11"), Some(true))).unwrap();
    assert_eq!(added.line, "0  | Write report - draft (due: 2026-03-11 \u{1F501})");
    assert_eq!(added.ids, strings(&["42"]));
    let plain = added_task(
        None,
        &RawTask { id: None, content: Some(String::from("x")), description: None, due_date: None, is_recurring: Some(false) },
    )
    .unwrap();
    assert_eq!(plain.line, "0  | x (due: none)");
    assert_eq!(plain.ids, strings(&[""]));
    match added_task(Some(String::from("bad request")), &task("1", "", "", None, None)) {
        Err(CliError::ApiError { message }) => assert_eq!(message, "bad request"),
        other => panic!("unexpected {:?}", other.map(|a| a.line)),
    }
}

#[test]
fn error_messages_read_as_the_command_prints_them() {
    assert_eq!(
        CliError::TaskIdNotFound { id: 3 }.message(),
        "Task ID not found in list: 3\nPlease ensure you are using a valid task ID from the most recent `todo list` output."
    );
    assert_eq!(
        CliError::NoTaskList { cause: String::from("failed to read list file x") }.message(),
        "No task list found: failed to read list file x\nPlease run `todo list` first to generate the task list."
    );
    assert_eq!(
        CliError::NoAuthToken { cause: String::from("failed to read token from OS keychain") }.message(),
        "No Auth Token set: failed to read token from OS keychain\nPlease set it using `todo auth <token>`"
    );
    assert_eq!(
        CliError::RequestFailed { status: 404 }.message(),
        "API request failed with status: 404 Not Found"
    );
    assert_eq!(
        CliError::RequestFailed { status: 599 }.message(),
        "API request failed with status: 599 <unknown status code>"
    );
    assert_eq!(CliError::RequestFailed { status: 42 }.message(), "API request failed with status: 42");
    assert_eq!(CliError::ApiError { message: String::from("bad") }.message(), "API Error: bad");
    assert_eq!(
        CliError::TokenNotSaved { cause: String::from("locked") }.message(),
        "Error saving token: locked"
    );
    assert_eq!(CliError::InvalidUrl.message(), "invalid request address");
}

#[test]
fn status_message_matches_status_code_display() {
    for s in [100u16, 200, 301, 404, 418, 500, 503, 999] {
        let code = reqwest::StatusCode::from_u16(s).unwrap();
        assert_eq!(
            CliError::RequestFailed { status: s }.message(),
            format!("API request failed with status: {code}")
        );
    }
}

#[test]
fn add_response_refusal_is_an_api_error() {
    assert!(validate_add_response(201).is_ok());
    match validate_add_response(404) {
        Err(e @ CliError::ApiError { .. }) => {
            assert_eq!(e.message(), "API Error: API request failed with status: 404 Not Found")
        }
        other => panic!("unexpected {:?}", other),
    }
}

#[test]
fn resolve_then_message_for_missing_index() {
    let err = resolve_task_id(Ok(strings(&["a1", "b2", "c3"])), 3).unwrap_err();
    assert!(err.message().starts_with("Task ID not found in list: 3"));
}
