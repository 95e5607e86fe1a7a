//! The decisions behind the HTTP API: errors and their status codes,
//! authentication headers, request checks, paging, and the shaping of rows
//! into responses.
use std::collections::HashMap;

use vstd::prelude::*;

use crate::auth::{
    argon2_phc, password_accepted, password_error, prepare_new_user, username_error, validate_password,
    validate_username,
};
use crate::models::{
    validate_account_config, AuthResponse, RegisterRequest, UserPublic, AccountConfig, InviteResponse, Service, TaskLogResponse,
    TaskResponse, UpsertAccountRequest, first_blank, required_fields, required_message,
};
use crate::text::{contains, contains_seq, join2, starts_with, starts_with_seq, substring, trim,
    trim_seq, chars_of};

verus! {

// ----- Errors -----

/// Why an API request failed.
#[derive(Debug, Clone)]
pub enum ApiError {
    BadRequest(String),
    Conflict(String),
    NotFound,
    Unauthorized,
    /// An unexpected failure, with the text of its cause (not shown to clients).
    Internal(String),
}

/// The HTTP status code of an error.
pub open spec fn status_code_of(e: ApiError) -> u16 {
    match e {
        ApiError::BadRequest(_) => 400,
        ApiError::Conflict(_) => 409,
        ApiError::NotFound => 404,
        ApiError::Unauthorized => 401,
        ApiError::Internal(_) => 500,
    }
}

/// The message shown to clients for an error.
pub open spec fn message_of(e: ApiError) -> Seq<char> {
    match e {
        ApiError::BadRequest(m) => m@,
        ApiError::Conflict(m) => m@,
        ApiError::NotFound => "not found"@,
        ApiError::Unauthorized => "unauthorized"@,
        ApiError::Internal(_) => "internal server error"@,
    }
}

impl ApiError {
    /// The HTTP status code of the error.
    pub fn status_code(&self) -> (r: u16)
        ensures
            r == status_code_of(*self),
    {
        match self {
            ApiError::BadRequest(_) => 400,
            ApiError::Conflict(_) => 409,
            ApiError::NotFound => 404,
            ApiError::Unauthorized => 401,
            ApiError::Internal(_) => 500,
        }
    }

    /// The message shown to clients: the text of a bad request or conflict,
    /// else a fixed phrase. The cause of an internal error is not shown.
    pub fn message(&self) -> (r: String)
        ensures
            r@ == message_of(*self),
    {
        match self {
            ApiError::BadRequest(m) => m.clone(),
            ApiError::Conflict(m) => m.clone(),
            ApiError::NotFound => String::from_str("not found"),
            ApiError::Unauthorized => String::from_str("unauthorized"),
            ApiError::Internal(_) => String::from_str("internal server error"),
        }
    }
}

/// An internal error never shows its cause to clients.
pub proof fn internal_error_hides_cause(cause: String)
    ensures
        message_of(ApiError::Internal(cause)) == "internal server error"@,
        status_code_of(ApiError::Internal(cause)) == 500,
{
}

/// The error for a failed insert of a user: a clash on the username is a
/// conflict, anything else an internal error. `database_message` is the
/// message of the database error, if the failure came from the database.
pub fn map_database_insert_error(database_message: Option<&str>, error_text: String) -> (r: ApiError)
    ensures
        (database_message matches Some(m) && contains_seq(
            m@,
            "UNIQUE constraint failed: users.username"@,
        )) ==> (r matches ApiError::Conflict(c) && c@ == "username is already registered"@),
        !(database_message matches Some(m) && contains_seq(
            m@,
            "UNIQUE constraint failed: users.username"@,
        )) ==> r == ApiError::Internal(error_text),
{
    match database_message {
        Some(m) => {
            if contains(m, "UNIQUE constraint failed: users.username") {
                return ApiError::Conflict(String::from_str("username is already registered"));
            }
        },
        None => {},
    }
    ApiError::Internal(error_text)
}

/// The error for a refused new invite code: reaching the limit is a
/// conflict, anything else an internal error.
pub fn invite_creation_error(error_text: String) -> (r: ApiError)
    ensures
        contains_seq(error_text@, "at most 5"@) ==> r == ApiError::Conflict(error_text),
        !contains_seq(error_text@, "at most 5"@) ==> r == ApiError::Internal(error_text),
{
    if contains(error_text.as_str(), "at most 5") {
        ApiError::Conflict(error_text)
    } else {
        ApiError::Internal(error_text)
    }
}

/// `NotFound` when a delete or update touched no row.
pub fn require_row_affected(rows_affected: u64) -> (r: Result<(), ApiError>)
    ensures
        rows_affected == 0 ==> r == Err::<(), ApiError>(ApiError::NotFound),
        rows_affected != 0 ==> r is Ok,
{
    if rows_affected == 0 {
        return Err(ApiError::NotFound);
    }
    Ok(())
}

/// A resource owned by `owner_id` (if it exists) is visible to `user_id`
/// only when it is theirs; otherwise it is not found.
pub fn require_owner(owner_id: Option<i64>, user_id: i64) -> (r: Result<(), ApiError>)
    ensures
        owner_id == Some(user_id) ==> r is Ok,
        owner_id != Some(user_id) ==> r == Err::<(), ApiError>(ApiError::NotFound),
{
    match owner_id {
        Some(owner) => {
            if owner != user_id {
                return Err(ApiError::NotFound);
            }
            Ok(())
        },
        None => Err(ApiError::NotFound),
    }
}

// ----- Authentication header -----

/// The token of an `Authorization: Bearer <token>` header value.
pub open spec fn bearer_token_of(header: Option<Seq<char>>) -> Option<Seq<char>> {
    match header {
        Some(h) => if starts_with_seq(h, "Bearer "@) {
            Some(h.subrange(7, h.len() as int))
        } else {
            None
        },
        None => None,
    }
}

/// The bearer token of the `Authorization` header, given its value if the
/// header is present and readable as text.
pub fn bearer_token(authorization: Option<&str>) -> (r: Option<String>)
    ensures
        match bearer_token_of(
            match authorization {
                Some(h) => Some(h@),
                None => None,
            },
        ) {
            Some(t) => r matches Some(s) && s@ == t,
            None => r is None,
        },
{
    match authorization {
        Some(h) => {
            if starts_with(h, "Bearer ") {
                proof {
                    reveal_strlit("Bearer ");
                }
                let n = chars_of(h).len();
                Some(substring(h, 7, n))
            } else {
                None
            }
        },
        None => None,
    }
}

// ----- Paging of the execution log -----

/// Which page of the execution log to show, and how the query selects it.
#[derive(Debug, Clone, Copy)]
pub struct LogsPage {
    pub page: u32,
    pub page_size: u32,
    pub offset: i64,
    pub limit: i64,
}

/// The page asked for: the first page when absent, and at least 1.
pub open spec fn page_number_of(page: Option<u32>) -> u32 {
    match page {
        Some(p) => if p >= 1 { p } else { 1 },
        None => 1,
    }
}

/// The page size asked for: 20 when absent, and between 1 and 100.
pub open spec fn page_size_of(page_size: Option<u32>) -> u32 {
    match page_size {
        Some(s) => if s < 1 { 1 } else if s > 100 { 100 } else { s },
        None => 20,
    }
}

/// The paging of the execution log: the page shows at most `page_size`
/// entries, after skipping the `(page - 1) * page_size` newer ones.
pub fn logs_page(page: Option<u32>, page_size: Option<u32>) -> (r: LogsPage)
    ensures
        r.page == page_number_of(page),
        r.page_size == page_size_of(page_size),
        r.limit == r.page_size as i64,
        r.offset == (r.page - 1) * r.page_size,
{
    let p: u32 = match page {
        Some(x) => if x >= 1 {
            x
        } else {
            1
        },
        None => 1,
    };
    let s: u32 = match page_size {
        Some(x) => if x < 1 {
            1
        } else if x > 100 {
            100
        } else {
            x
        },
        None => 20,
    };
    let a = (p - 1) as u64;
    let b = s as u64;
    assert(a * b <= 0xFFFF_FFFF * 100) by (nonlinear_arith)
        requires
            a <= 0xFFFF_FFFF,
            b <= 100,
    ;
    let offset = (a * b) as i64;
    LogsPage { page: p, page_size: s, offset, limit: s as i64 }
}

// ----- Requests -----

/// An account request once checked: trimmed name and checked settings.
#[derive(Debug, Clone)]
pub struct NormalizedAccountPayload {
    pub name: String,
    pub service: Service,
    pub enabled: bool,
    pub config: AccountConfig,
}

/// Checks an account request: the name, trimmed, must not be empty; the
/// settings must pass `validate_account_config`.
pub fn normalize_account_payload(payload: UpsertAccountRequest) -> (r: Result<
    NormalizedAccountPayload,
    ApiError,
>)
    ensures
        trim_seq(payload.name@).len() == 0 ==> (r matches Err(ApiError::BadRequest(m)) && m@
            == "account name is required"@),
        trim_seq(payload.name@).len() != 0 ==> match first_blank(required_fields(payload.config)) {
            Some(field) => r matches Err(ApiError::BadRequest(m)) && m@ == required_message(field),
            None => r matches Ok(n) && n.name@ == trim_seq(payload.name@) && n.service
                == payload.service && n.enabled == payload.enabled && n.config == payload.config,
        },
{
    let name = trim(payload.name.as_str());
    if name.as_str().unicode_len() == 0 {
        return Err(ApiError::BadRequest(String::from_str("account name is required")));
    }
    let config = match validate_account_config(payload.config) {
        Ok(c) => c,
        Err(m) => {
            return Err(ApiError::BadRequest(m));
        },
    };
    Ok(NormalizedAccountPayload { name, service: payload.service, enabled: payload.enabled, config })
}

/// A new alert target once checked: trimmed name and topic.
#[derive(Debug, Clone)]
pub struct NtfyAlertFields {
    pub name: String,
    pub topic: String,
}

/// Checks a new alert target: its name and topic, trimmed, must not be empty.
pub fn check_ntfy_alert_request(name: &str, topic: &str) -> (r: Result<NtfyAlertFields, ApiError>)
    ensures
        trim_seq(name@).len() == 0 ==> (r matches Err(ApiError::BadRequest(m)) && m@
            == "alert name is required"@),
        trim_seq(name@).len() != 0 && trim_seq(topic@).len() == 0 ==> (r matches Err(
            ApiError::BadRequest(m),
        ) && m@ == "topic is required"@),
        trim_seq(name@).len() != 0 && trim_seq(topic@).len() != 0 ==> (r matches Ok(f) && f.name@
            == trim_seq(name@) && f.topic@ == trim_seq(topic@)),
{
    let name = trim(name);
    if name.as_str().unicode_len() == 0 {
        return Err(ApiError::BadRequest(String::from_str("alert name is required")));
    }
    let topic = trim(topic);
    if topic.as_str().unicode_len() == 0 {
        return Err(ApiError::BadRequest(String::from_str("topic is required")));
    }
    Ok(NtfyAlertFields { name, topic })
}

// ----- Rows into responses -----

/// A scheduled task as read from the database, with its account's name.
#[derive(Debug, Clone)]
pub struct TaskRow {
    pub id: i64,
    pub account_id: i64,
    pub account_name: String,
    pub task_type: String,
    pub enabled: i64,
    pub next_run_at: String,
    pub last_run_at: Option<String>,
}

impl TaskRow {
    /// The task as shown to clients; a stored `0` means disabled.
    pub fn into_response(self) -> (r: TaskResponse)
        ensures
            r.id == self.id,
            r.account_id == self.account_id,
            r.account_name == self.account_name,
            r.task_type == self.task_type,
            r.enabled == (self.enabled != 0),
            r.next_run_at == self.next_run_at,
            r.last_run_at == self.last_run_at,
    {
        TaskResponse {
            id: self.id,
            account_id: self.account_id,
            account_name: self.account_name,
            task_type: self.task_type,
            enabled: self.enabled != 0,
            next_run_at: self.next_run_at,
            last_run_at: self.last_run_at,
        }
    }
}

/// An invite code as read from the database, with who redeemed it.
#[derive(Debug, Clone)]
pub struct InviteRow {
    pub id: i64,
    pub code: String,
    pub created_at: String,
    pub redeemed_at: Option<String>,
    pub redeemed_by_username: Option<String>,
}

impl InviteRow {
    /// The invite code as shown to clients.
    pub fn into_response(self) -> (r: InviteResponse)
        ensures
            r.id == self.id,
            r.code == self.code,
            r.created_at == self.created_at,
            r.redeemed_at == self.redeemed_at,
            r.redeemed_by_username == self.redeemed_by_username,
    {
        InviteResponse {
            id: self.id,
            code: self.code,
            created_at: self.created_at,
            redeemed_at: self.redeemed_at,
            redeemed_by_username: self.redeemed_by_username,
        }
    }
}

/// An execution log entry as read from the database, with its account's name.
#[derive(Debug, Clone)]
pub struct TaskLogRow {
    pub id: i64,
    pub account_id: Option<i64>,
    pub account_name: Option<String>,
    pub task_type: String,
    pub status: String,
    pub started_at: String,
    pub finished_at: String,
    pub duration_ms: i64,
    pub message: String,
}

impl TaskLogRow {
    /// The log entry as shown to clients.
    pub fn into_response(self) -> (r: TaskLogResponse)
        ensures
            r.id == self.id,
            r.account_id == self.account_id,
            r.account_name == self.account_name,
            r.task_type == self.task_type,
            r.status == self.status,
            r.started_at == self.started_at,
            r.finished_at == self.finished_at,
            r.duration_ms == self.duration_ms,
            r.message == self.message,
    {
        TaskLogResponse {
            id: self.id,
            account_id: self.account_id,
            account_name: self.account_name,
            task_type: self.task_type,
            status: self.status,
            started_at: self.started_at,
            finished_at: self.finished_at,
            duration_ms: self.duration_ms,
            message: self.message,
        }
    }
}

/// An ntfy alert target, as shown to clients.
#[derive(Debug, Clone)]
pub struct NtfyAlertResponse {
    pub id: i64,
    pub name: String,
    pub topic: String,
    pub created_at: String,
}

/// An ntfy alert target as read from the database.
#[derive(Debug, Clone)]
pub struct NtfyAlertRow {
    pub id: i64,
    pub name: String,
    pub topic: String,
    pub created_at: String,
}

impl NtfyAlertRow {
    /// The alert target as shown to clients.
    pub fn into_response(self) -> (r: NtfyAlertResponse)
        ensures
            r.id == self.id,
            r.name == self.name,
            r.topic == self.topic,
            r.created_at == self.created_at,
    {
        NtfyAlertResponse { id: self.id, name: self.name, topic: self.topic, created_at: self.created_at }
    }
}

// ----- Tasks of each account -----

fn copy_opt_string(o: &Option<String>) -> (r: Option<String>)
    ensures
        r == *o,
{
    match o {
        Some(s) => Some(s.clone()),
        None => None,
    }
}

/// A copy of a task.
pub fn copy_task(t: &TaskResponse) -> (r: TaskResponse)
    ensures
        r == *t,
{
    TaskResponse {
        id: t.id,
        account_id: t.account_id,
        account_name: t.account_name.clone(),
        task_type: t.task_type.clone(),
        enabled: t.enabled,
        next_run_at: t.next_run_at.clone(),
        last_run_at: copy_opt_string(&t.last_run_at),
    }
}

/// The tasks of account `account_id`, in their order in `tasks`.
pub open spec fn tasks_of(tasks: Seq<TaskResponse>, account_id: i64) -> Seq<TaskResponse>
    decreases tasks.len(),
{
    if tasks.len() == 0 {
        seq![]
    } else {
        let init = tasks_of(tasks.drop_last(), account_id);
        if tasks.last().account_id == account_id {
            init.push(tasks.last())
        } else {
            init
        }
    }
}

/// The tasks of account `account_id`, in order.
pub fn tasks_for_account(tasks: &Vec<TaskResponse>, account_id: i64) -> (r: Vec<TaskResponse>)
    ensures
        r@ == tasks_of(tasks@, account_id),
{
    let mut out: Vec<TaskResponse> = Vec::new();
    let n = tasks.len();
    for i in 0..n
        invariant
            n == tasks@.len(),
            out@ == tasks_of(tasks@.take(i as int), account_id),
    {
        assert(tasks@.take(i + 1).drop_last() =~= tasks@.take(i as int));
        if tasks[i].account_id == account_id {
            out.push(copy_task(&tasks[i]));
        }
    }
    assert(tasks@.take(n as int) =~= tasks@);
    out
}

/// The tasks that go with each account of `account_ids`, in order: each
/// account gets its tasks, except that an id listed again gets none, the
/// tasks having gone with its first listing.
pub open spec fn grouped_tasks_of(account_ids: Seq<i64>, tasks: Seq<TaskResponse>) -> Seq<
    Seq<TaskResponse>,
> {
    Seq::new(
        account_ids.len(),
        |i: int|
            if account_ids.take(i).contains(account_ids[i]) {
                seq![]
            } else {
                tasks_of(tasks, account_ids[i])
            },
    )
}

/// Distributes tasks to the accounts they belong to: the tasks are first
/// gathered in a map by account, and each account then takes its own out.
pub fn group_tasks_by_account(account_ids: &Vec<i64>, tasks: &Vec<TaskResponse>) -> (r: Vec<
    Vec<TaskResponse>,
>)
    ensures
        r@.len() == account_ids@.len(),
        forall|i: int|
            0 <= i < r@.len() ==> (#[trigger] r@[i])@ == grouped_tasks_of(account_ids@, tasks@)[i],
{
    broadcast use vstd::std_specs::hash::group_hash_axioms;

    let mut by_account: HashMap<i64, Vec<TaskResponse>> = HashMap::new();
    let m = tasks.len();
    for k in 0..m
        invariant
            m == tasks@.len(),
            forall|id: i64| #[trigger]
                by_account@.contains_key(id) <==> tasks_of(tasks@.take(k as int), id).len() > 0,
            forall|id: i64|
                by_account@.contains_key(id) ==> (#[trigger] by_account@[id])@ == tasks_of(
                    tasks@.take(k as int),
                    id,
                ),
    {
        let id = tasks[k].account_id;
        let t = copy_task(&tasks[k]);
        let ghost before = by_account@;
        proof {
            assert(tasks@.take(k + 1).drop_last() =~= tasks@.take(k as int));
            assert(tasks@.take(k + 1).last() == tasks@[k as int]);
        }
        match by_account.remove(&id) {
            Some(mut v) => {
                v.push(t);
                by_account.insert(id, v);
            },
            None => {
                let mut v: Vec<TaskResponse> = Vec::new();
                v.push(t);
                by_account.insert(id, v);
                proof {
                    assert(tasks_of(tasks@.take(k as int), id) =~= seq![]);
                }
            },
        }
        proof {
            assert forall|x: i64|
                by_account@.contains_key(x) <==> tasks_of(tasks@.take(k + 1), x).len() > 0 by {
                if x != id {
                    assert(by_account@.contains_key(x) == before.contains_key(x));
                }
            }
            assert forall|x: i64| by_account@.contains_key(x) implies (#[trigger] by_account@[x])@
                == tasks_of(tasks@.take(k + 1), x) by {
                if x != id {
                    assert(by_account@[x] == before[x]);
                }
            }
        }
    }
    assert(tasks@.take(m as int) =~= tasks@);

    let mut out: Vec<Vec<TaskResponse>> = Vec::new();
    let n = account_ids.len();
    for i in 0..n
        invariant
            n == account_ids@.len(),
            out@.len() == i,
            forall|k: int|
                0 <= k < i ==> (#[trigger] out@[k])@ == grouped_tasks_of(account_ids@, tasks@)[k],
            forall|id: i64| #[trigger]
                by_account@.contains_key(id) <==> tasks_of(tasks@, id).len() > 0
                    && !account_ids@.take(i as int).contains(id),
            forall|id: i64|
                by_account@.contains_key(id) ==> (#[trigger] by_account@[id])@ == tasks_of(
                    tasks@,
                    id,
                ),
    {
        let id = account_ids[i];
        let ghost before = by_account@;
        proof {
            assert(account_ids@.take(i + 1) =~= account_ids@.take(i as int).push(id));
            broadcast use vstd::seq_lib::group_seq_properties;
        }
        match by_account.remove(&id) {
            Some(v) => {
                out.push(v);
            },
            None => {
                proof {
                    if !account_ids@.take(i as int).contains(id) {
                        assert(tasks_of(tasks@, id) =~= seq![]);
                    }
                }
                out.push(Vec::new());
            },
        }
        proof {
            broadcast use vstd::seq_lib::group_seq_properties;
            assert forall|x: i64| #[trigger]
                by_account@.contains_key(x) <==> tasks_of(tasks@, x).len() > 0
                    && !account_ids@.take(i + 1).contains(x) by {
                if x != id {
                    assert(by_account@.contains_key(x) == before.contains_key(x));
                }
            }
            assert forall|x: i64| by_account@.contains_key(x) implies (#[trigger] by_account@[x])@
                == tasks_of(tasks@, x) by {
                assert(by_account@[x] == before[x]);
            }
        }
    }
    out
}

/// Grouping hands each task to exactly the first listing of its account,
/// keeping their order, and to no other listing.
pub proof fn grouping_places_tasks_once(account_ids: Seq<i64>, tasks: Seq<TaskResponse>, i: int)
    requires
        0 <= i < account_ids.len(),
    ensures
        !account_ids.take(i).contains(account_ids[i]) ==> grouped_tasks_of(account_ids, tasks)[i]
            == tasks_of(tasks, account_ids[i]),
        account_ids.take(i).contains(account_ids[i]) ==> grouped_tasks_of(account_ids, tasks)[i].len()
            == 0,
        forall|t: TaskResponse| #[trigger]
            grouped_tasks_of(account_ids, tasks)[i].contains(t) ==> t.account_id == account_ids[i],
{
    assert forall|t: TaskResponse| #[trigger]
        grouped_tasks_of(account_ids, tasks)[i].contains(t) implies t.account_id
        == account_ids[i] by {
        if !account_ids.take(i).contains(account_ids[i]) {
            lemma_tasks_of_belong(tasks, account_ids[i], t);
        }
    }
}

proof fn lemma_tasks_of_belong(tasks: Seq<TaskResponse>, account_id: i64, t: TaskResponse)
    requires
        tasks_of(tasks, account_id).contains(t),
    ensures
        t.account_id == account_id,
    decreases tasks.len(),
{
    if tasks.len() > 0 {
        let init = tasks_of(tasks.drop_last(), account_id);
        if tasks.last().account_id == account_id {
            if t != tasks.last() {
                let k = choose|k: int| 0 <= k < tasks_of(tasks, account_id).len() && tasks_of(tasks, account_id)[k] == t;
                assert(init.push(tasks.last())[k] == t);
                assert(k < init.len());
                assert(init[k] == t);
                lemma_tasks_of_belong(tasks.drop_last(), account_id, t);
            }
        } else {
            lemma_tasks_of_belong(tasks.drop_last(), account_id, t);
        }
    }
}

// ----- Registration -----

/// Where a registration stands.
#[derive(Debug, Clone, Copy, PartialEq, Eq)]
pub enum RegistrationStage {
    /// Nothing done yet.
    Start,
    /// Waiting for the lookup of the invite code.
    AwaitingInvite,
    /// Waiting for the new user to be stored.
    AwaitingUserInsert { invite_id: i64 },
    /// Waiting for the invite code to be marked redeemed.
    AwaitingRedeem { invite_id: i64, user_id: i64 },
    /// Waiting for the transaction to commit and a session to be created.
    AwaitingSession { user_id: i64 },
    /// Done, one way or the other.
    Finished,
}

/// What the outside world reports back to a registration.
#[derive(Debug)]
pub enum RegistrationEvent {
    /// The request arrived.
    Begin,
    /// The id of the unredeemed invite with the code, if there is one.
    InviteLooked(Option<i64>),
    /// The id of the stored user, or why storing failed.
    UserInserted(Result<i64, ApiError>),
    /// How many invite codes were marked redeemed.
    InviteRedeemed(u64),
    /// The token of the new session.
    SessionCreated(String),
}

/// What a registration asks the outside world to do next.
#[derive(Debug)]
pub enum RegistrationAction {
    /// Find the unredeemed invite with this code (inside a transaction).
    LookUpInvite { code: String },
    /// Store the new user.
    InsertUser { username: String, password_hash: String },
    /// Mark the invite redeemed by the user, if it still is unredeemed.
    RedeemInvite { invite_id: i64, user_id: i64 },
    /// Commit the transaction and create a session for the user.
    CommitAndCreateSession { user_id: i64 },
    /// Answer the request with the new session.
    Succeed(AuthResponse),
    /// Answer the request with an error (rolling back the transaction).
    Fail(ApiError),
}

/// The event a registration waits for in each stage.
pub open spec fn expects(stage: RegistrationStage, event: RegistrationEvent) -> bool {
    match stage {
        RegistrationStage::Start => event is Begin,
        RegistrationStage::AwaitingInvite => event is InviteLooked,
        RegistrationStage::AwaitingUserInsert { .. } => event is UserInserted,
        RegistrationStage::AwaitingRedeem { .. } => event is InviteRedeemed,
        RegistrationStage::AwaitingSession { .. } => event is SessionCreated,
        RegistrationStage::Finished => false,
    }
}

/// Registration of a new user with an invite code, step by step.
pub struct Registration {
    request: RegisterRequest,
    stage: RegistrationStage,
    /// Whether this registration has marked an invite code redeemed.
    redeemed: Ghost<bool>,
}

impl Registration {
    pub closed spec fn stage_of(&self) -> RegistrationStage {
        self.stage
    }

    pub closed spec fn request_of(&self) -> RegisterRequest {
        self.request
    }

    pub closed spec fn has_redeemed(&self) -> bool {
        self.redeemed@
    }

    /// The invariant of a registration: it has redeemed an invite exactly
    /// when it waits for its session or has finished after that.
    pub closed spec fn wf(&self) -> bool {
        &&& match self.stage {
            RegistrationStage::AwaitingSession { .. } => self.redeemed@,
            RegistrationStage::Finished => true,
            _ => !self.redeemed@,
        }
        &&& (self.stage is AwaitingInvite ==> username_error(self.request.username@) is None
            && password_error(self.request.password@) is None)
    }

    /// A registration for `request`, about to begin.
    pub fn new(request: RegisterRequest) -> (r: Self)
        ensures
            r.wf(),
            r.stage_of() == RegistrationStage::Start,
            r.request_of() == request,
            !r.has_redeemed(),
    {
        Registration { request, stage: RegistrationStage::Start, redeemed: Ghost(false) }
    }

    /// Where the registration stands.
    pub fn stage(&self) -> (r: RegistrationStage)
        ensures
            r == self.stage_of(),
    {
        self.stage
    }

    /// Takes the next event and says what to do. The username and password
    /// are checked first (a refusal is a bad request); an unknown or redeemed
    /// invite code is a bad request; a failed insert fails as reported; an
    /// invite redeemed meanwhile is a conflict; otherwise the user gets a session.
    pub fn step(&mut self, event: RegistrationEvent) -> (r: RegistrationAction)
        requires
            old(self).wf(),
            expects(old(self).stage_of(), event),
        ensures
            final(self).wf(),
            final(self).request_of() == old(self).request_of(),
            // Each stage and event lead where the rules say.
            match (old(self).stage_of(), event) {
                (RegistrationStage::Start, RegistrationEvent::Begin) => {
                    let req = old(self).request_of();
                    match username_error(req.username@) {
                        Some(m) => r matches RegistrationAction::Fail(ApiError::BadRequest(e))
                            && e@ == m && final(self).stage_of() == RegistrationStage::Finished,
                        None => match password_error(req.password@) {
                            Some(m) => r matches RegistrationAction::Fail(ApiError::BadRequest(e))
                                && e@ == m && final(self).stage_of() == RegistrationStage::Finished,
                            None => r matches RegistrationAction::LookUpInvite { code } && code@
                                == trim_seq(req.invite_code@) && final(self).stage_of()
                                == RegistrationStage::AwaitingInvite,
                        },
                    }
                },
                (RegistrationStage::AwaitingInvite, RegistrationEvent::InviteLooked(None)) => r matches RegistrationAction::Fail(ApiError::BadRequest(e))
                    && e@ == "invite code is invalid or redeemed"@ && final(self).stage_of()
                    == RegistrationStage::Finished,
                (RegistrationStage::AwaitingInvite, RegistrationEvent::InviteLooked(Some(invite_id))) => {
                    let req = old(self).request_of();
                    exists|salt: Seq<u8>|
                        salt.len() == 16 && match argon2_phc(
                            vstd::utf8::encode_utf8(req.password@),
                            salt,
                        ) {
                            Ok(h) => r matches RegistrationAction::InsertUser {
                                username,
                                password_hash,
                            } && username@ == trim_seq(req.username@) && password_hash@ == h
                                && final(self).stage_of() == (RegistrationStage::AwaitingUserInsert {
                                invite_id,
                            }),
                            Err(e) => r matches RegistrationAction::Fail(ApiError::BadRequest(m))
                                && m@ == e && final(self).stage_of() == RegistrationStage::Finished,
                        }
                },
                (RegistrationStage::AwaitingUserInsert { .. }, RegistrationEvent::UserInserted(Err(e))) => r == RegistrationAction::Fail(e) && final(self).stage_of()
                    == RegistrationStage::Finished,
                (RegistrationStage::AwaitingUserInsert { invite_id }, RegistrationEvent::UserInserted(Ok(user_id))) => r == (RegistrationAction::RedeemInvite { invite_id, user_id }) && final(self).stage_of()
                    == (RegistrationStage::AwaitingRedeem { invite_id, user_id }),
                (RegistrationStage::AwaitingRedeem { user_id, .. }, RegistrationEvent::InviteRedeemed(rows)) => if rows == 1 {
                    r == (RegistrationAction::CommitAndCreateSession { user_id }) && final(self).stage_of()
                        == (RegistrationStage::AwaitingSession { user_id })
                } else {
                    r matches RegistrationAction::Fail(ApiError::Conflict(e)) && e@
                        == "invite code was already redeemed"@ && final(self).stage_of()
                        == RegistrationStage::Finished
                },
                (RegistrationStage::AwaitingSession { user_id }, RegistrationEvent::SessionCreated(token)) => r matches RegistrationAction::Succeed(resp) && resp.token == token
                    && resp.user.id == user_id && resp.user.username@ == trim_seq(
                    old(self).request_of().username@,
                ) && final(self).stage_of() == RegistrationStage::Finished,
                _ => false,
            },
            // The stored hash is one against which the password is accepted.
            r matches RegistrationAction::InsertUser { password_hash, .. } ==> password_accepted(
                old(self).request_of().password@,
                password_hash@,
            ),
            // A registration succeeds only after it has redeemed an invite code.
            r is Succeed ==> old(self).has_redeemed(),
            // It redeems at most one, and only once a redeem touched exactly one code.
            final(self).has_redeemed() != old(self).has_redeemed() ==> (event == RegistrationEvent::InviteRedeemed(1)),
    {
        match event {
            RegistrationEvent::Begin => {
                self.stage = RegistrationStage::Finished;
                if let Err(e) = validate_username(self.request.username.as_str()) {
                    return RegistrationAction::Fail(ApiError::BadRequest(e));
                }
                if let Err(e) = validate_password(self.request.password.as_str()) {
                    return RegistrationAction::Fail(ApiError::BadRequest(e));
                }
                self.stage = RegistrationStage::AwaitingInvite;
                RegistrationAction::LookUpInvite { code: trim(self.request.invite_code.as_str()) }
            },
            RegistrationEvent::InviteLooked(found) => {
                self.stage = RegistrationStage::Finished;
                let invite_id = match found {
                    None => {
                        return RegistrationAction::Fail(
                            ApiError::BadRequest(String::from_str("invite code is invalid or redeemed")),
                        );
                    },
                    Some(id) => id,
                };
                match prepare_new_user(self.request.username.as_str(), self.request.password.as_str()) {
                    Err(e) => RegistrationAction::Fail(ApiError::BadRequest(e)),
                    Ok(user) => {
                        self.stage = RegistrationStage::AwaitingUserInsert { invite_id };
                        RegistrationAction::InsertUser {
                            username: user.username,
                            password_hash: user.password_hash,
                        }
                    },
                }
            },
            RegistrationEvent::UserInserted(result) => {
                let invite_id = match self.stage {
                    RegistrationStage::AwaitingUserInsert { invite_id } => invite_id,
                    _ => 0,
                };
                match result {
                    Err(e) => {
                        self.stage = RegistrationStage::Finished;
                        RegistrationAction::Fail(e)
                    },
                    Ok(user_id) => {
                        self.stage = RegistrationStage::AwaitingRedeem { invite_id, user_id };
                        RegistrationAction::RedeemInvite { invite_id, user_id }
                    },
                }
            },
            RegistrationEvent::InviteRedeemed(rows) => {
                let user_id = match self.stage {
                    RegistrationStage::AwaitingRedeem { user_id, .. } => user_id,
                    _ => 0,
                };
                if rows != 1 {
                    self.stage = RegistrationStage::Finished;
                    return RegistrationAction::Fail(
                        ApiError::Conflict(String::from_str("invite code was already redeemed")),
                    );
                }
                self.stage = RegistrationStage::AwaitingSession { user_id };
                self.redeemed = Ghost(true);
                RegistrationAction::CommitAndCreateSession { user_id }
            },
            RegistrationEvent::SessionCreated(token) => {
                let user_id = match self.stage {
                    RegistrationStage::AwaitingSession { user_id } => user_id,
                    _ => 0,
                };
                self.stage = RegistrationStage::Finished;
                RegistrationAction::Succeed(
                    AuthResponse {
                        token,
                        user: UserPublic { id: user_id, username: trim(self.request.username.as_str()) },
                    },
                )
            },
        }
    }
}

} // verus!
