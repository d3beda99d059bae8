//! The requests the client makes of the task service and the errors that
//! stop a command.

use vstd::prelude::*;
use reqwest::{StatusCode, Url};
use crate::text::{i32_to_decimal, int_decimal, nat_decimal, opt_view, usize_to_decimal};

verus! {

/// Why a command stops.
#[derive(Clone, Debug)]
pub enum CliError {
    /// No API token could be read; `cause` says why.
    NoAuthToken { cause: String },
    /// No stored task list could be read; `cause` says why.
    NoTaskList { cause: String },
    /// The stored task list has no entry with this index.
    TaskIdNotFound { id: usize },
    /// The service answered with a status outside 200..=299.
    RequestFailed { status: u16 },
    /// The service answered with an error message.
    ApiError { message: String },
    /// The request address could not be built.
    InvalidUrl,
    /// The token could not be saved; `cause` says why.
    TokenNotSaved { cause: String },
}

/// The address of the task service's task collection.
pub open spec fn tasks_endpoint() -> Seq<char> {
    "https://api.todoist.com/api/v1/tasks"@
}

/// An HTTP method of a request.
#[derive(Clone, Copy, Debug, PartialEq, Eq, Structural)]
pub enum HttpMethod {
    Get,
    Post,
    Delete,
}

/// What the `check`, `uncheck` and `delete` commands do to a listed task.
#[derive(Clone, Copy, Debug, PartialEq, Eq, Structural)]
pub enum TaskAction {
    /// Complete the task.
    Close,
    /// Reopen a completed task.
    Reopen,
    /// Delete the task.
    Delete,
}

/// The method of an action's request.
pub open spec fn action_method(a: TaskAction) -> HttpMethod {
    match a {
        TaskAction::Close => HttpMethod::Post,
        TaskAction::Reopen => HttpMethod::Post,
        TaskAction::Delete => HttpMethod::Delete,
    }
}

/// The path that follows the task's address in an action's request.
pub open spec fn action_path(a: TaskAction) -> Seq<char> {
    match a {
        TaskAction::Close => "/close"@,
        TaskAction::Reopen => "/reopen"@,
        TaskAction::Delete => ""@,
    }
}

/// What is printed when an action succeeded.
pub open spec fn action_message(a: TaskAction) -> Seq<char> {
    match a {
        TaskAction::Close => "Task closed successfully."@,
        TaskAction::Reopen => "Task reopened successfully."@,
        TaskAction::Delete => "Task deleted successfully."@,
    }
}

impl TaskAction {
    /// The method of the action's request.
    pub fn method(&self) -> (r: HttpMethod)
        ensures
            r == action_method(*self),
    {
        match self {
            TaskAction::Close => HttpMethod::Post,
            TaskAction::Reopen => HttpMethod::Post,
            TaskAction::Delete => HttpMethod::Delete,
        }
    }

    /// The path that follows the task's address.
    pub fn path(&self) -> (r: &'static str)
        ensures
            r@ == action_path(*self),
    {
        match self {
            TaskAction::Close => "/close",
            TaskAction::Reopen => "/reopen",
            TaskAction::Delete => "",
        }
    }

    /// What is printed when the action succeeded.
    pub fn success_message(&self) -> (r: &'static str)
        ensures
            r@ == action_message(*self),
    {
        match self {
            TaskAction::Close => "Task closed successfully.",
            TaskAction::Reopen => "Task reopened successfully.",
            TaskAction::Delete => "Task deleted successfully.",
        }
    }
}

/// The value of the `Authorization` header for a token.
pub open spec fn bearer(token: Seq<char>) -> Seq<char> {
    "Bearer "@ + token
}

/// The `Authorization` header value made of the stored token, or the error
/// that no token is set when it could not be read.
pub fn auth_header_value(token: Result<String, String>) -> (r: Result<String, CliError>)
    ensures
        match (token, r) {
            (Ok(t), Ok(v)) => v@ == bearer(t@),
            (Err(c), Err(CliError::NoAuthToken { cause })) => cause@ == c@,
            _ => false,
        },
{
    match token {
        Ok(t) => Ok(String::from_str("Bearer ").concat(t.as_str())),
        Err(cause) => Err(CliError::NoAuthToken { cause }),
    }
}

/// The task identifier at index `id` of the stored task list: the list
/// could not be read, or it has no such index, or the identifier.
pub fn resolve_task_id(list: Result<Vec<String>, String>, id: usize) -> (r: Result<String, CliError>)
    ensures
        match (list, r) {
            (Ok(l), Ok(t)) => id < l.len() && t@ == l@[id as int]@,
            (Ok(l), Err(CliError::TaskIdNotFound { id: i })) => id >= l.len() && i == id,
            (Err(c), Err(CliError::NoTaskList { cause })) => cause@ == c@,
            _ => false,
        },
{
    match list {
        Ok(l) => if id < l.len() {
            Ok(l[id].clone())
        } else {
            Err(CliError::TaskIdNotFound { id })
        },
        Err(cause) => Err(CliError::NoTaskList { cause }),
    }
}

/// Whether an HTTP status code is a success (200 to 299).
pub open spec fn is_success(status: u16) -> bool {
    200 <= status <= 299
}

/// Accepts a response whose status is a success and refuses the others.
pub fn validate_response(status: u16) -> (r: Result<(), CliError>)
    ensures
        is_success(status) ==> r is Ok,
        !is_success(status) ==> (r matches Err(CliError::RequestFailed { status: s }) && s == status),
{
    if 200 <= status && status <= 299 {
        Ok(())
    } else {
        Err(CliError::RequestFailed { status })
    }
}

/// The address of an action's request on a task.
pub open spec fn action_url(task_id: Seq<char>, a: TaskAction) -> Seq<char> {
    tasks_endpoint() + "/"@ + task_id + action_path(a)
}

/// A request to act on one task.
#[derive(Clone, Debug)]
pub struct TaskRequest {
    pub method: HttpMethod,
    pub url: String,
    /// The `Authorization` header value.
    pub authorization: String,
    /// What to print once the request was sent.
    pub success_message: String,
}

/// The address of an action's request on the task `task_id`.
pub fn task_action_url(task_id: &str, action: TaskAction) -> (r: String)
    ensures
        r@ == action_url(task_id@, action),
{
    let mut url = String::from_str("https://api.todoist.com/api/v1/tasks");
    url.append("/");
    url.append(task_id);
    url.append(action.path());
    proof {
        assert(url@ =~= action_url(task_id@, action));
    }
    url
}

/// The request of the `check`, `uncheck` or `delete` command on the listed
/// task `id`: the token is needed first, then the stored list must hold the
/// index.
pub fn update_task(
    token: Result<String, String>,
    list: Result<Vec<String>, String>,
    id: usize,
    action: TaskAction,
) -> (r: Result<TaskRequest, CliError>)
    ensures
        match (token, list, r) {
            (Err(c), _, Err(CliError::NoAuthToken { cause })) => cause@ == c@,
            (Ok(_), Err(c), Err(CliError::NoTaskList { cause })) => cause@ == c@,
            (Ok(_), Ok(l), Err(CliError::TaskIdNotFound { id: i })) => id >= l.len() && i == id,
            (Ok(t), Ok(l), Ok(req)) => {
                &&& id < l.len()
                &&& req.method == action_method(action)
                &&& req.url@ == action_url(l@[id as int]@, action)
                &&& req.authorization@ == bearer(t@)
                &&& req.success_message@ == action_message(action)
            },
            _ => false,
        },
{
    let authorization = match auth_header_value(token) {
        Ok(v) => v,
        Err(e) => {
            return Err(e);
        },
    };
    let task_id = match resolve_task_id(list, id) {
        Ok(t) => t,
        Err(e) => {
            return Err(e);
        },
    };
    Ok(TaskRequest {
        method: action.method(),
        url: task_action_url(task_id.as_str(), action),
        authorization,
        success_message: String::from_str(action.success_message()),
    })
}


/// What `Url::parse(base)` followed by appending the query pairs in order
/// (form-urlencoded) gives as text, or none where `base` is no URL.
pub uninterp spec fn url_with_query_text(base: Seq<char>, pairs: Seq<(Seq<char>, Seq<char>)>) -> Option<Seq<char>>;

/// Calls `Url::parse` and `query_pairs_mut().extend_pairs(..)`; the contract
/// names the resulting address.
#[verifier::external_body]
fn url_with_query(base: &str, pairs: &Vec<(String, String)>) -> (r: Option<String>)
    ensures
        opt_view(r) == url_with_query_text(base@, pairs.deep_view()),
{
    let mut url = match Url::parse(base) {
        Ok(u) => u,
        Err(_) => return None,
    };
    url.query_pairs_mut().extend_pairs(pairs);
    Some(String::from(url))
}

/// The address built from `base` and the query pairs, or the error that it
/// could not be built.
pub open spec fn spec_request_url(base: Seq<char>, pairs: Seq<(Seq<char>, Seq<char>)>) -> Result<Seq<char>, ()> {
    match url_with_query_text(base, pairs) {
        Some(u) => Ok(u),
        None => Err(()),
    }
}

/// The outcome of a request address as a plain value.
pub open spec fn url_outcome(r: Result<String, CliError>) -> Result<Seq<char>, ()> {
    match r {
        Ok(u) => Ok(u@),
        Err(_) => Err(()),
    }
}

fn request_url(base: &str, pairs: &Vec<(String, String)>) -> (r: Result<String, CliError>)
    ensures
        url_outcome(r) == spec_request_url(base@, pairs.deep_view()),
        r matches Err(e) ==> e is InvalidUrl,
{
    match url_with_query(base, pairs) {
        Some(u) => Ok(u),
        None => Err(CliError::InvalidUrl),
    }
}

/// The number of tasks that the `list` command asks for: 25 unless given.
pub open spec fn list_limit(limit: Option<i32>) -> i32 {
    match limit {
        Some(l) => l,
        None => 25,
    }
}

/// The endpoint that the `list` command asks: the filter endpoint when
/// there is a filter query.
pub open spec fn list_endpoint(has_filter: bool) -> Seq<char> {
    if has_filter {
        "https://api.todoist.com/api/v1/tasks/filter"@
    } else {
        "https://api.todoist.com/api/v1/tasks"@
    }
}

/// The query of the `list` command: the limit, then the filter if any.
pub open spec fn list_query(limit: Option<i32>, filter: Option<Seq<char>>) -> Seq<(Seq<char>, Seq<char>)> {
    let first = seq![("limit"@, int_decimal(list_limit(limit) as int))];
    match filter {
        Some(f) => first.push(("query"@, f)),
        None => first,
    }
}

/// The address that the `list` command asks for its tasks.
pub fn list_request(limit: Option<i32>, filter: Option<String>) -> (r: Result<String, CliError>)
    ensures
        url_outcome(r) == spec_request_url(list_endpoint(filter is Some), list_query(limit, opt_view(filter))),
        r matches Err(e) ==> e is InvalidUrl,
{
    let limit_value = match limit {
        Some(l) => l,
        None => 25,
    };
    let mut pairs: Vec<(String, String)> = Vec::new();
    pairs.push((String::from_str("limit"), i32_to_decimal(limit_value)));
    let base = match filter {
        Some(f) => {
            pairs.push((String::from_str("query"), f));
            "https://api.todoist.com/api/v1/tasks/filter"
        },
        None => "https://api.todoist.com/api/v1/tasks",
    };
    assert(pairs.deep_view() =~= list_query(limit, opt_view(filter)));
    request_url(base, &pairs)
}

/// The query of the `add` command: the text of the task, then the reminder
/// if any.
pub open spec fn add_query(content: Seq<char>, reminder: Option<Seq<char>>) -> Seq<(Seq<char>, Seq<char>)> {
    let first = seq![("text"@, content)];
    match reminder {
        Some(r) => first.push(("reminder"@, r)),
        None => first,
    }
}

/// The endpoint that creates a task from its text.
pub open spec fn quick_add_endpoint() -> Seq<char> {
    "https://api.todoist.com/api/v1/tasks/quick"@
}

/// The address that the `add` command posts to.
pub fn add_request(content: &str, reminder: Option<String>) -> (r: Result<String, CliError>)
    ensures
        url_outcome(r) == spec_request_url(quick_add_endpoint(), add_query(content@, opt_view(reminder))),
        r matches Err(e) ==> e is InvalidUrl,
{
    let mut pairs: Vec<(String, String)> = Vec::new();
    pairs.push((String::from_str("text"), String::from_str(content)));
    match reminder {
        Some(rem) => {
            pairs.push((String::from_str("reminder"), rem));
        },
        None => {},
    }
    assert(pairs.deep_view() =~= add_query(content@, opt_view(reminder)));
    request_url("https://api.todoist.com/api/v1/tasks/quick", &pairs)
}

/// What `StatusCode::canonical_reason` gives for a status code.
pub uninterp spec fn http_canonical_reason(status: int) -> Option<Seq<char>>;

/// The character view of an optional text.
pub open spec fn opt_str_view(o: Option<&str>) -> Option<Seq<char>> {
    match o {
        Some(s) => Some(s@),
        None => None,
    }
}

/// Calls `StatusCode::from_u16(status)` and `canonical_reason`; the contract
/// names the reason phrase.
#[verifier::external_body]
fn canonical_reason(status: u16) -> (r: Option<&'static str>)
    requires
        100 <= status <= 999,
    ensures
        opt_str_view(r) == http_canonical_reason(status as int),
{
    match StatusCode::from_u16(status) {
        Ok(code) => code.canonical_reason(),
        Err(_) => None,
    }
}

/// A status code as `StatusCode`'s `Display` writes it: the number, a space
/// and the reason phrase, or "<unknown status code>" without one.  A number
/// outside 100..=999, which no status code holds, is written alone.
pub open spec fn status_text(status: u16) -> Seq<char> {
    if 100 <= status <= 999 {
        nat_decimal(status as nat) + " "@ + match http_canonical_reason(status as int) {
            Some(reason) => reason,
            None => "<unknown status code>"@,
        }
    } else {
        nat_decimal(status as nat)
    }
}

/// The message of a refused response.
pub open spec fn request_failed_message(status: u16) -> Seq<char> {
    "API request failed with status: "@ + status_text(status)
}

/// The message of each error, as the command prints it.
pub open spec fn error_message(e: CliError) -> Seq<char> {
    match e {
        CliError::NoAuthToken { cause } => "No Auth Token set: "@ + cause@
            + "\nPlease set it using `todo auth <token>`"@,
        CliError::NoTaskList { cause } => "No task list found: "@ + cause@
            + "\nPlease run `todo list` first to generate the task list."@,
        CliError::TaskIdNotFound { id } => "Task ID not found in list: "@ + nat_decimal(id as nat)
            + "\nPlease ensure you are using a valid task ID from the most recent `todo list` output."@,
        CliError::RequestFailed { status } => request_failed_message(status),
        CliError::ApiError { message } => "API Error: "@ + message@,
        CliError::InvalidUrl => "invalid request address"@,
        CliError::TokenNotSaved { cause } => "Error saving token: "@ + cause@,
    }
}

fn status_string(status: u16) -> (r: String)
    ensures
        r@ == status_text(status),
{
    let mut r = usize_to_decimal(status as usize);
    if 100 <= status && status <= 999 {
        r.append(" ");
        match canonical_reason(status) {
            Some(reason) => r.append(reason),
            None => r.append("<unknown status code>"),
        }
    }
    r
}

fn request_failed_string(status: u16) -> (r: String)
    ensures
        r@ == request_failed_message(status),
{
    let r = String::from_str("API request failed with status: ").concat(status_string(status).as_str());
    r
}

fn framed(before: &str, middle: &str, after: &str) -> (r: String)
    ensures
        r@ == before@ + middle@ + after@,
{
    let mut r = String::from_str(before);
    r.append(middle);
    r.append(after);
    r
}

impl CliError {
    /// The message that the command prints for this error.
    pub fn message(&self) -> (r: String)
        ensures
            r@ == error_message(*self),
    {
        match self {
            CliError::NoAuthToken { cause } => framed(
                "No Auth Token set: ",
                cause.as_str(),
                "\nPlease set it using `todo auth <token>`",
            ),
            CliError::NoTaskList { cause } => framed(
                "No task list found: ",
                cause.as_str(),
                "\nPlease run `todo list` first to generate the task list.",
            ),
            CliError::TaskIdNotFound { id } => framed(
                "Task ID not found in list: ",
                usize_to_decimal(*id).as_str(),
                "\nPlease ensure you are using a valid task ID from the most recent `todo list` output.",
            ),
            CliError::RequestFailed { status } => request_failed_string(*status),
            CliError::ApiError { message } => String::from_str("API Error: ").concat(message.as_str()),
            CliError::InvalidUrl => String::from_str("invalid request address"),
            CliError::TokenNotSaved { cause } => String::from_str("Error saving token: ").concat(
                cause.as_str(),
            ),
        }
    }
}

/// Accepts the answer to the `add` command when its status is a success;
/// otherwise the error is an API error whose message is that of the
/// refused response.
pub fn validate_add_response(status: u16) -> (r: Result<(), CliError>)
    ensures
        is_success(status) ==> r is Ok,
        !is_success(status) ==> (r matches Err(CliError::ApiError { message })
            && message@ == request_failed_message(status)),
{
    if 200 <= status && status <= 299 {
        Ok(())
    } else {
        Err(CliError::ApiError { message: request_failed_string(status) })
    }
}

/// The first pair of the `list` query is the limit: the given limit in
/// decimal whenever one is given, with or without a filter, and 25 when none
/// is given; the filter, when there is one, follows as the only other pair;
/// and the filter endpoint is asked exactly when there is a filter.
pub proof fn lemma_list_query_limit(limit: Option<i32>, filter: Option<Seq<char>>)
    ensures
        list_query(limit, filter)[0].0 == "limit"@,
        limit matches Some(l) ==> list_query(limit, filter)[0].1 == int_decimal(l as int),
        limit is None ==> list_query(limit, filter)[0].1 == seq!['2', '5'],
        list_query(limit, filter)[0] == list_query(limit, None)[0],
        filter is None ==> list_query(limit, filter).len() == 1,
        filter matches Some(f) ==> list_query(limit, filter).len() == 2 && list_query(limit, filter)[1]
            == ("query"@, f),
        filter is Some ==> list_endpoint(filter is Some) == "https://api.todoist.com/api/v1/tasks/filter"@,
        filter is None ==> list_endpoint(filter is Some) == "https://api.todoist.com/api/v1/tasks"@,
{
    reveal_with_fuel(nat_decimal, 2);
    assert(nat_decimal(2) == seq!['2']);
    assert(nat_decimal(25) =~= seq!['2', '5']);
}

/// The `add` query holds the task's text, then the reminder when one is given.
pub proof fn lemma_add_query(content: Seq<char>, reminder: Option<Seq<char>>)
    ensures
        add_query(content, reminder)[0] == ("text"@, content),
        reminder is None ==> add_query(content, reminder).len() == 1,
        reminder matches Some(r) ==> add_query(content, reminder).len() == 2 && add_query(content, reminder)[1]
            == ("reminder"@, r),
{
}

/// Each action on a task goes to the task's own address: `check` posts to
/// it followed by "/close", `uncheck` posts to it followed by "/reopen", and
/// `delete` sends DELETE to the address itself; the three requests differ.
pub proof fn lemma_action_requests(task_id: Seq<char>)
    ensures
        action_url(task_id, TaskAction::Close) == tasks_endpoint() + "/"@ + task_id + "/close"@,
        action_url(task_id, TaskAction::Reopen) == tasks_endpoint() + "/"@ + task_id + "/reopen"@,
        action_url(task_id, TaskAction::Delete) == tasks_endpoint() + "/"@ + task_id,
        action_method(TaskAction::Close) == HttpMethod::Post,
        action_method(TaskAction::Reopen) == HttpMethod::Post,
        action_method(TaskAction::Delete) == HttpMethod::Delete,
        action_url(task_id, TaskAction::Close) != action_url(task_id, TaskAction::Reopen),
        action_message(TaskAction::Close) != action_message(TaskAction::Reopen),
        action_message(TaskAction::Close) != action_message(TaskAction::Delete),
        action_message(TaskAction::Reopen) != action_message(TaskAction::Delete),
{
    reveal_strlit("");
    reveal_strlit("/close");
    reveal_strlit("/reopen");
    reveal_strlit("Task closed successfully.");
    reveal_strlit("Task reopened successfully.");
    reveal_strlit("Task deleted successfully.");
    let base = tasks_endpoint() + "/"@ + task_id;
    assert(base + ""@ =~= base);
    assert(action_url(task_id, TaskAction::Close).len() != action_url(task_id, TaskAction::Reopen).len());
    assert(action_message(TaskAction::Close)[5] != action_message(TaskAction::Reopen)[5]);
    assert(action_message(TaskAction::Close)[5] != action_message(TaskAction::Delete)[5]);
    assert(action_message(TaskAction::Reopen)[5] != action_message(TaskAction::Delete)[5]);
}

} // verus!
