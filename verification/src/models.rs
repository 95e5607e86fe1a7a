//! The data the service stores and exchanges, and the validation of account settings.
use vstd::prelude::*;

use crate::text::{join2, join3, str_eq, trim_seq, trims_to_empty};

verus! {

/// The task that collects the daily Hoyoverse rewards.
pub const TASK_HOYOVERSE_DAILY_CHECKIN: &'static str = "hoyoverse_daily_checkin";

/// The task that signs in to nCore once a day.
pub const TASK_NCORE_DAILY_CHECKIN: &'static str = "ncore_daily_checkin";

/// The services an account can belong to.
#[derive(Debug, Clone, Copy, PartialEq, Eq)]
pub enum Service {
    Hoyoverse,
    Ncore,
}

pub open spec fn service_text(s: Service) -> Seq<char> {
    match s {
        Service::Hoyoverse => "hoyoverse"@,
        Service::Ncore => "ncore"@,
    }
}

/// The service named `name`, if any.
pub open spec fn service_named(name: Seq<char>) -> Option<Service> {
    if name == "hoyoverse"@ {
        Some(Service::Hoyoverse)
    } else if name == "ncore"@ {
        Some(Service::Ncore)
    } else {
        None
    }
}

impl Service {
    /// The name under which the service is stored.
    pub fn as_str(self) -> (r: &'static str)
        ensures
            r@ == service_text(self),
    {
        match self {
            Service::Hoyoverse => "hoyoverse",
            Service::Ncore => "ncore",
        }
    }

    /// The service stored under `value`, or the message refusing it.
    pub fn try_from(value: &str) -> (r: Result<Service, String>)
        ensures
            match service_named(value@) {
                Some(s) => r == Ok::<Service, String>(s),
                None => r matches Err(m) && m@ == "unsupported service '"@ + value@ + "'"@,
            },
    {
        if str_eq(value, "hoyoverse") {
            Ok(Service::Hoyoverse)
        } else if str_eq(value, "ncore") {
            Ok(Service::Ncore)
        } else {
            Err(join3("unsupported service '", value, "'"))
        }
    }
}

/// Reading back the stored name of a service gives the service.
pub proof fn service_name_round_trip(s: Service)
    ensures
        service_named(service_text(s)) == Some(s),
{
    assert(service_text(Service::Hoyoverse) != service_text(Service::Ncore)) by {
        reveal_strlit("hoyoverse");
        reveal_strlit("ncore");
        assert("hoyoverse"@.len() != "ncore"@.len());
    }
}

/// The two task types are different names, as are the two services.
pub proof fn task_and_service_names_distinct()
    ensures
        TASK_HOYOVERSE_DAILY_CHECKIN@ != TASK_NCORE_DAILY_CHECKIN@,
        service_text(Service::Hoyoverse) != service_text(Service::Ncore),
{
    reveal_strlit("hoyoverse_daily_checkin");
    reveal_strlit("ncore_daily_checkin");
    reveal_strlit("hoyoverse");
    reveal_strlit("ncore");
    assert(TASK_HOYOVERSE_DAILY_CHECKIN@.len() != TASK_NCORE_DAILY_CHECKIN@.len());
    assert("hoyoverse"@.len() != "ncore"@.len());
}

/// A user, as shown to clients.
#[derive(Debug, Clone)]
pub struct UserPublic {
    pub id: i64,
    pub username: String,
}

/// The HoYoLAB cookies of a Hoyoverse account.
#[derive(Debug, Clone)]
pub struct HoyoverseConfig {
    pub ltoken_v2: String,
    pub ltuid_v2: String,
    pub ltmid_v2: String,
}

/// The credentials of an nCore account, and the site to use.
#[derive(Debug, Clone)]
pub struct NcoreConfig {
    pub username: String,
    pub password: String,
    pub base_url: String,
}

/// The settings of an account, for the service it belongs to.
#[derive(Debug, Clone)]
pub enum AccountConfig {
    Hoyoverse(HoyoverseConfig),
    Ncore(NcoreConfig),
}

impl AccountConfig {
    /// The service these settings are for.
    pub fn service(&self) -> (r: Service)
        ensures
            r == match *self {
                AccountConfig::Hoyoverse(_) => Service::Hoyoverse,
                AccountConfig::Ncore(_) => Service::Ncore,
            },
    {
        match self {
            AccountConfig::Hoyoverse(_) => Service::Hoyoverse,
            AccountConfig::Ncore(_) => Service::Ncore,
        }
    }
}

/// The outcome of one run of a task.
#[derive(Debug, Clone)]
pub struct TaskOutcome {
    pub success: bool,
    pub message: String,
}

#[derive(Debug, Clone)]
pub struct RegisterRequest {
    pub username: String,
    pub password: String,
    pub invite_code: String,
}

#[derive(Debug, Clone)]
pub struct LoginRequest {
    pub username: String,
    pub password: String,
}

#[derive(Debug, Clone)]
pub struct AuthResponse {
    pub token: String,
    pub user: UserPublic,
}

/// A request to create or change an account, with its settings read for its service.
#[derive(Debug, Clone)]
pub struct UpsertAccountRequest {
    pub name: String,
    pub service: Service,
    pub enabled: bool,
    pub config: AccountConfig,
}

/// Whether a new account is enabled when the request does not say: it is.
pub fn default_enabled() -> (r: bool)
    ensures
        r,
{
    true
}

#[derive(Debug, Clone)]
pub struct TaskResponse {
    pub id: i64,
    pub account_id: i64,
    pub account_name: String,
    pub task_type: String,
    pub enabled: bool,
    pub next_run_at: String,
    pub last_run_at: Option<String>,
}

#[derive(Debug, Clone)]
pub struct InviteResponse {
    pub id: i64,
    pub code: String,
    pub created_at: String,
    pub redeemed_at: Option<String>,
    pub redeemed_by_username: Option<String>,
}

#[derive(Debug, Clone)]
pub struct TaskLogResponse {
    pub id: i64,
    pub account_id: Option<i64>,
    pub account_name: Option<String>,
    pub task_type: String,
    pub status: String,
    pub started_at: String,
    pub finished_at: String,
    pub duration_ms: i64,
    pub message: String,
}

#[derive(Debug, Clone)]
pub struct PaginatedLogsResponse {
    pub page: u32,
    pub page_size: u32,
    pub total: i64,
    pub items: Vec<TaskLogResponse>,
}

/// The message refusing a blank required field.
pub open spec fn required_message(field: Seq<char>) -> Seq<char> {
    field + " is required"@
}

/// Refuses a value that is empty once trimmed.
pub fn require_non_empty(field: &str, value: &str) -> (r: Result<(), String>)
    ensures
        trim_seq(value@).len() == 0 ==> (r matches Err(m) && m@ == required_message(field@)),
        trim_seq(value@).len() != 0 ==> r is Ok,
{
    if trims_to_empty(value) {
        return Err(join2(field, " is required"));
    }
    Ok(())
}

/// The first of the named fields that is blank once trimmed, if any.
pub open spec fn first_blank(fields: Seq<(Seq<char>, Seq<char>)>) -> Option<Seq<char>>
    decreases fields.len(),
{
    if fields.len() == 0 {
        None
    } else if trim_seq(fields[0].1).len() == 0 {
        Some(fields[0].0)
    } else {
        first_blank(fields.drop_first())
    }
}

/// The required fields of account settings, by name, in the order they are checked.
pub open spec fn required_fields(config: AccountConfig) -> Seq<(Seq<char>, Seq<char>)> {
    match config {
        AccountConfig::Hoyoverse(c) => seq![
            ("ltoken_v2"@, c.ltoken_v2@),
            ("ltuid_v2"@, c.ltuid_v2@),
            ("ltmid_v2"@, c.ltmid_v2@),
        ],
        AccountConfig::Ncore(c) => seq![("username"@, c.username@), ("password"@, c.password@)],
    }
}

/// Checks account settings: each required field must be non-blank. The
/// settings come back unchanged, or the first blank field is named.
pub fn validate_account_config(config: AccountConfig) -> (r: Result<AccountConfig, String>)
    ensures
        match first_blank(required_fields(config)) {
            None => r matches Ok(c) && c == config,
            Some(field) => r matches Err(m) && m@ == required_message(field),
        },
{
    let ghost fields = required_fields(config);
    proof {
        reveal_with_fuel(first_blank, 4);
    }
    let checked = match &config {
        AccountConfig::Hoyoverse(c) => {
            assert(fields.drop_first().drop_first().drop_first().len() == 0);
            assert(fields.drop_first()[0] == fields[1]);
            assert(fields.drop_first().drop_first()[0] == fields[2]);
            match require_non_empty("ltoken_v2", c.ltoken_v2.as_str()) {
                Err(e) => Err(e),
                Ok(()) => match require_non_empty("ltuid_v2", c.ltuid_v2.as_str()) {
                    Err(e) => Err(e),
                    Ok(()) => require_non_empty("ltmid_v2", c.ltmid_v2.as_str()),
                },
            }
        },
        AccountConfig::Ncore(c) => {
            assert(fields.drop_first().drop_first().len() == 0);
            assert(fields.drop_first()[0] == fields[1]);
            match require_non_empty("username", c.username.as_str()) {
                Err(e) => Err(e),
                Ok(()) => require_non_empty("password", c.password.as_str()),
            }
        },
    };
    if let Err(e) = checked {
        return Err(e);
    }
    Ok(config)
}

} // verus!
