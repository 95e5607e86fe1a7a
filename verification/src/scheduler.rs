//! When scheduled check-ins run next, and which task runs for which account.
use vstd::prelude::*;

use crate::calendar::{
    day_of_timestamp, day_of_unix_timestamp, in_chrono_range, last_sunday_day, last_sunday_of_month,
    unix_day, unix_day_of, year_of_day, year_of_unix_day, SECONDS_PER_DAY,
};

use crate::models::{
    service_text, task_and_service_names_distinct, Service, TaskOutcome, TASK_HOYOVERSE_DAILY_CHECKIN, TASK_NCORE_DAILY_CHECKIN,
};
use crate::text::{join2, join3, str_eq};

verus! {

/// Hoyoverse resets its daily rewards at midnight in UTC+8.
pub const HOYOVERSE_UTC_OFFSET: i64 = 28800;

/// nCore check-ins are due from 10:00 local (Hungarian) time.
pub const NCORE_LOCAL_START: i64 = 36000;

/// Hungarian standard time (CET) as an offset from UTC.
pub const HUNGARY_STANDARD_OFFSET: i64 = 3600;

/// Hungarian summer time (CEST) as an offset from UTC.
pub const HUNGARY_SUMMER_OFFSET: i64 = 7200;

/// Smallest random delay added to a Hoyoverse run, in seconds.
pub const HOYOVERSE_MIN_DELAY: i64 = 10;

/// Largest random delay added to a Hoyoverse run, in seconds.
pub const HOYOVERSE_MAX_DELAY: i64 = 60;

/// Largest random delay added to an nCore run, in seconds (four hours).
pub const NCORE_MAX_DELAY: i64 = 14400;

/// A run whose base time is less than this many seconds ahead counts as missed.
pub const GRACE_SECONDS: i64 = 60;

// ----- Hoyoverse -----

/// The start of the UTC+8 day that holds `after`, as a Unix timestamp.
pub open spec fn utc8_day_start(after: int) -> int {
    day_of_timestamp(after + HOYOVERSE_UTC_OFFSET) * SECONDS_PER_DAY - HOYOVERSE_UTC_OFFSET
}

/// The UTC+8 midnight at which the next Hoyoverse run is due: today's, unless
/// it lies a minute or more in the past, else tomorrow's.
pub open spec fn hoyoverse_base_of(after: int) -> int {
    let today = utc8_day_start(after);
    if today + GRACE_SECONDS <= after {
        today + SECONDS_PER_DAY
    } else {
        today
    }
}

/// The UTC+8 midnight that starts the day after the one holding `after`.
pub open spec fn hoyoverse_next_day_base_of(after: int) -> int {
    utc8_day_start(after) + SECONDS_PER_DAY
}

/// Every intermediate instant of the Hoyoverse schedule stays within the
/// range of `chrono::DateTime<Utc>` (outside it the date arithmetic panics).
pub open spec fn hoyoverse_schedulable(after: int) -> bool {
    let today = utc8_day_start(after);
    &&& in_chrono_range(after)
    &&& in_chrono_range(after + HOYOVERSE_UTC_OFFSET)
    &&& in_chrono_range(today)
    &&& in_chrono_range(today + GRACE_SECONDS)
    &&& (today + GRACE_SECONDS <= after ==> in_chrono_range(
        today + HOYOVERSE_UTC_OFFSET + SECONDS_PER_DAY,
    ))
    &&& in_chrono_range(hoyoverse_base_of(after) + HOYOVERSE_MAX_DELAY)
}

/// As `hoyoverse_schedulable`, for the run on the following day.
pub open spec fn hoyoverse_next_day_schedulable(after: int) -> bool {
    let today = utc8_day_start(after);
    &&& in_chrono_range(after)
    &&& in_chrono_range(after + HOYOVERSE_UTC_OFFSET)
    &&& in_chrono_range(today + HOYOVERSE_UTC_OFFSET + SECONDS_PER_DAY)
    &&& in_chrono_range(hoyoverse_next_day_base_of(after) + HOYOVERSE_MAX_DELAY)
}

/// The base time (before the random delay) of the next Hoyoverse run after `after`.
pub fn hoyoverse_daily_base(after: i64) -> (r: i64)
    requires
        hoyoverse_schedulable(after as int),
    ensures
        r == hoyoverse_base_of(after as int),
{
    let day = day_of_unix_timestamp(after + HOYOVERSE_UTC_OFFSET);
    let today = day * SECONDS_PER_DAY - HOYOVERSE_UTC_OFFSET;
    if today + GRACE_SECONDS <= after {
        today + SECONDS_PER_DAY
    } else {
        today
    }
}

/// The base time of the Hoyoverse run on the UTC+8 day after the one holding `after`.
pub fn hoyoverse_next_day_base(after: i64) -> (r: i64)
    requires
        hoyoverse_next_day_schedulable(after as int),
    ensures
        r == hoyoverse_next_day_base_of(after as int),
{
    let day = day_of_unix_timestamp(after + HOYOVERSE_UTC_OFFSET);
    (day + 1) * SECONDS_PER_DAY - HOYOVERSE_UTC_OFFSET
}

/// A uniformly drawn integer in `lo..=hi`.
#[verifier::external_body]
fn random_in_range(lo: i64, hi: i64) -> (r: i64)
    requires
        lo <= hi,
    ensures
        lo <= r <= hi,
{
    rand::random_range(lo..=hi)
}

/// `base` delayed by a random 10 to 60 seconds.
fn with_hoyoverse_random_delay(base: i64) -> (r: i64)
    requires
        in_chrono_range(base + HOYOVERSE_MAX_DELAY),
    ensures
        base + HOYOVERSE_MIN_DELAY <= r <= base + HOYOVERSE_MAX_DELAY,
{
    let delay = random_in_range(HOYOVERSE_MIN_DELAY, HOYOVERSE_MAX_DELAY);
    base + delay
}

/// When the next Hoyoverse check-in should run, given the current time `after`.
pub fn next_hoyoverse_daily_run_from(after: i64) -> (r: i64)
    requires
        hoyoverse_schedulable(after as int),
    ensures
        hoyoverse_base_of(after as int) + HOYOVERSE_MIN_DELAY <= r <= hoyoverse_base_of(
            after as int,
        ) + HOYOVERSE_MAX_DELAY,
{
    let base = hoyoverse_daily_base(after);
    with_hoyoverse_random_delay(base)
}

/// When the Hoyoverse check-in runs after one started at `after`.
pub fn next_hoyoverse_daily_run_next_day(after: i64) -> (r: i64)
    requires
        hoyoverse_next_day_schedulable(after as int),
    ensures
        hoyoverse_next_day_base_of(after as int) + HOYOVERSE_MIN_DELAY <= r
            <= hoyoverse_next_day_base_of(after as int) + HOYOVERSE_MAX_DELAY,
{
    let base = hoyoverse_next_day_base(after);
    with_hoyoverse_random_delay(base)
}

// ----- Hungarian time -----

/// Summer time in Hungary starts at 01:00 UTC on the last Sunday of March.
pub open spec fn summer_time_start(y: int) -> int {
    unix_day(y, 3, last_sunday_day(y, 3)) * SECONDS_PER_DAY + 3600
}

/// Summer time in Hungary ends at 01:00 UTC on the last Sunday of October.
pub open spec fn summer_time_end(y: int) -> int {
    unix_day(y, 10, last_sunday_day(y, 10)) * SECONDS_PER_DAY + 3600
}

/// The offset of Hungarian time from UTC at instant `t`, in seconds.
pub open spec fn hungarian_offset_of(t: int) -> int {
    let y = year_of_day(day_of_timestamp(t));
    if summer_time_start(y) <= t < summer_time_end(y) {
        HUNGARY_SUMMER_OFFSET as int
    } else {
        HUNGARY_STANDARD_OFFSET as int
    }
}

/// The offset of Hungarian time from UTC at instant `now`, in seconds.
pub fn hungarian_offset_at(now: i64) -> (r: i64)
    requires
        in_chrono_range(now as int),
    ensures
        r == hungarian_offset_of(now as int),
        r == HUNGARY_STANDARD_OFFSET || r == HUNGARY_SUMMER_OFFSET,
{
    let day = day_of_unix_timestamp(now);
    let year = year_of_unix_day(day);
    let march = last_sunday_of_month(year, 3);
    let october = last_sunday_of_month(year, 10);
    let start = unix_day_of(march) * SECONDS_PER_DAY + 3600;
    let end = unix_day_of(october) * SECONDS_PER_DAY + 3600;
    if now >= start && now < end {
        HUNGARY_SUMMER_OFFSET
    } else {
        HUNGARY_STANDARD_OFFSET
    }
}

/// The current time, as whole seconds since the Unix epoch.
#[verifier::external_body]
pub fn unix_now() -> (r: i64)
    ensures
        in_chrono_range(r as int),
{
    chrono::Utc::now().timestamp()
}

/// The offset of Hungarian time from UTC right now.
fn hungarian_offset_now() -> (r: i64)
    ensures
        r == HUNGARY_STANDARD_OFFSET || r == HUNGARY_SUMMER_OFFSET,
{
    let now = unix_now();
    hungarian_offset_at(now)
}

// ----- nCore -----

/// The start of the local day holding `after`, for a local time `offset` seconds ahead of UTC.
pub open spec fn local_day_start(after: int, offset: int) -> int {
    day_of_timestamp(after + offset) * SECONDS_PER_DAY - offset
}

/// 10:00 local time on the day the next nCore run is due: today, unless that
/// lies a minute or more in the past, else tomorrow.
pub open spec fn ncore_base_of(after: int, offset: int) -> int {
    let today = local_day_start(after, offset) + NCORE_LOCAL_START;
    if today + GRACE_SECONDS <= after {
        today + SECONDS_PER_DAY
    } else {
        today
    }
}

/// 10:00 local time on the day after the one holding `after`.
pub open spec fn ncore_next_day_base_of(after: int, offset: int) -> int {
    local_day_start(after, offset) + SECONDS_PER_DAY + NCORE_LOCAL_START
}

/// Every intermediate instant of the nCore schedule stays within the range of
/// `chrono::DateTime<Utc>`.
pub open spec fn ncore_schedulable(after: int, offset: int) -> bool {
    let start = local_day_start(after, offset);
    let today = start + NCORE_LOCAL_START;
    &&& in_chrono_range(after)
    &&& in_chrono_range(after + offset)
    &&& in_chrono_range(start)
    &&& in_chrono_range(today)
    &&& in_chrono_range(today + GRACE_SECONDS)
    &&& (today + GRACE_SECONDS <= after ==> {
        &&& in_chrono_range(start + offset + SECONDS_PER_DAY)
        &&& in_chrono_range(start + SECONDS_PER_DAY)
    })
    &&& in_chrono_range(ncore_base_of(after, offset) + NCORE_MAX_DELAY)
}

/// As `ncore_schedulable`, for the run on the following day.
pub open spec fn ncore_next_day_schedulable(after: int, offset: int) -> bool {
    let start = local_day_start(after, offset);
    &&& in_chrono_range(after)
    &&& in_chrono_range(after + offset)
    &&& in_chrono_range(start + offset + SECONDS_PER_DAY)
    &&& in_chrono_range(start + SECONDS_PER_DAY)
    &&& in_chrono_range(ncore_next_day_base_of(after, offset) + NCORE_MAX_DELAY)
}

/// The base time (before the random delay) of the next nCore run after
/// `after`, when local time is `offset` seconds ahead of UTC.
pub fn ncore_daily_base(after: i64, offset: i64) -> (r: i64)
    requires
        0 <= offset <= HUNGARY_SUMMER_OFFSET,
        ncore_schedulable(after as int, offset as int),
    ensures
        r == ncore_base_of(after as int, offset as int),
{
    let day = day_of_unix_timestamp(after + offset);
    let start = day * SECONDS_PER_DAY - offset;
    let today = start + NCORE_LOCAL_START;
    if today + GRACE_SECONDS <= after {
        today + SECONDS_PER_DAY
    } else {
        today
    }
}

/// The base time of the nCore run on the local day after the one holding `after`.
pub fn ncore_next_day_base(after: i64, offset: i64) -> (r: i64)
    requires
        0 <= offset <= HUNGARY_SUMMER_OFFSET,
        ncore_next_day_schedulable(after as int, offset as int),
    ensures
        r == ncore_next_day_base_of(after as int, offset as int),
{
    let day = day_of_unix_timestamp(after + offset);
    (day + 1) * SECONDS_PER_DAY - offset + NCORE_LOCAL_START
}

/// `base` delayed by a random 0 to 14400 seconds.
fn with_ncore_random_delay(base: i64) -> (r: i64)
    requires
        in_chrono_range(base + NCORE_MAX_DELAY),
    ensures
        base <= r <= base + NCORE_MAX_DELAY,
{
    let delay = random_in_range(0, NCORE_MAX_DELAY);
    base + delay
}

/// The nCore schedule can be computed from `after` whichever Hungarian offset applies.
pub open spec fn ncore_schedulable_any_offset(after: int) -> bool {
    ncore_schedulable(after, HUNGARY_STANDARD_OFFSET as int) && ncore_schedulable(
        after,
        HUNGARY_SUMMER_OFFSET as int,
    )
}

/// As `ncore_schedulable_any_offset`, for the run on the following day.
pub open spec fn ncore_next_day_schedulable_any_offset(after: int) -> bool {
    ncore_next_day_schedulable(after, HUNGARY_STANDARD_OFFSET as int)
        && ncore_next_day_schedulable(after, HUNGARY_SUMMER_OFFSET as int)
}

/// `run` lies within the random-delay window that follows `base`.
pub open spec fn ncore_run_within(base: int, run: int) -> bool {
    base <= run <= base + NCORE_MAX_DELAY
}

/// When the next nCore check-in should run, given the current time `after`.
/// The Hungarian offset is read from the clock at the time of the call.
pub fn next_ncore_daily_run_from(after: i64) -> (r: i64)
    requires
        ncore_schedulable_any_offset(after as int),
    ensures
        ncore_run_within(ncore_base_of(after as int, HUNGARY_STANDARD_OFFSET as int), r as int)
            || ncore_run_within(ncore_base_of(after as int, HUNGARY_SUMMER_OFFSET as int), r as int),
{
    let offset = hungarian_offset_now();
    let base = ncore_daily_base(after, offset);
    with_ncore_random_delay(base)
}

/// When the nCore check-in runs after one started at `after`.
pub fn next_ncore_daily_run_next_day(after: i64) -> (r: i64)
    requires
        ncore_next_day_schedulable_any_offset(after as int),
    ensures
        ncore_run_within(
            ncore_next_day_base_of(after as int, HUNGARY_STANDARD_OFFSET as int),
            r as int,
        ) || ncore_run_within(
            ncore_next_day_base_of(after as int, HUNGARY_SUMMER_OFFSET as int),
            r as int,
        ),
{
    let offset = hungarian_offset_now();
    let base = ncore_next_day_base(after, offset);
    with_ncore_random_delay(base)
}

// ----- Checking the range before scheduling -----

fn in_range(t: i64) -> (r: bool)
    ensures
        r == in_chrono_range(t as int),
{
    crate::calendar::MIN_TIMESTAMP <= t && t <= crate::calendar::MAX_TIMESTAMP
}

/// Whether the Hoyoverse schedule can be computed from `after`.
pub fn is_hoyoverse_schedulable(after: i64) -> (r: bool)
    ensures
        r == hoyoverse_schedulable(after as int),
{
    if !in_range(after) || !in_range(after + HOYOVERSE_UTC_OFFSET) {
        return false;
    }
    let day = day_of_unix_timestamp(after + HOYOVERSE_UTC_OFFSET);
    let today = day * SECONDS_PER_DAY - HOYOVERSE_UTC_OFFSET;
    if !in_range(today) || !in_range(today + GRACE_SECONDS) {
        return false;
    }
    if today + GRACE_SECONDS <= after && !in_range(today + HOYOVERSE_UTC_OFFSET + SECONDS_PER_DAY) {
        return false;
    }
    let base = if today + GRACE_SECONDS <= after {
        today + SECONDS_PER_DAY
    } else {
        today
    };
    in_range(base + HOYOVERSE_MAX_DELAY)
}

/// Whether the next-day Hoyoverse schedule can be computed from `after`.
pub fn is_hoyoverse_next_day_schedulable(after: i64) -> (r: bool)
    ensures
        r == hoyoverse_next_day_schedulable(after as int),
{
    if !in_range(after) || !in_range(after + HOYOVERSE_UTC_OFFSET) {
        return false;
    }
    let day = day_of_unix_timestamp(after + HOYOVERSE_UTC_OFFSET);
    let today = day * SECONDS_PER_DAY - HOYOVERSE_UTC_OFFSET;
    in_range(today + HOYOVERSE_UTC_OFFSET + SECONDS_PER_DAY) && in_range(
        today + SECONDS_PER_DAY + HOYOVERSE_MAX_DELAY,
    )
}

fn is_ncore_schedulable_with(after: i64, offset: i64) -> (r: bool)
    requires
        0 <= offset <= HUNGARY_SUMMER_OFFSET,
    ensures
        r == ncore_schedulable(after as int, offset as int),
{
    if !in_range(after) || !in_range(after + offset) {
        return false;
    }
    let day = day_of_unix_timestamp(after + offset);
    let start = day * SECONDS_PER_DAY - offset;
    let today = start + NCORE_LOCAL_START;
    if !in_range(start) || !in_range(today) || !in_range(today + GRACE_SECONDS) {
        return false;
    }
    if today + GRACE_SECONDS <= after && !(in_range(start + offset + SECONDS_PER_DAY) && in_range(
        start + SECONDS_PER_DAY,
    )) {
        return false;
    }
    let base = if today + GRACE_SECONDS <= after {
        today + SECONDS_PER_DAY
    } else {
        today
    };
    in_range(base + NCORE_MAX_DELAY)
}

fn is_ncore_next_day_schedulable_with(after: i64, offset: i64) -> (r: bool)
    requires
        0 <= offset <= HUNGARY_SUMMER_OFFSET,
    ensures
        r == ncore_next_day_schedulable(after as int, offset as int),
{
    if !in_range(after) || !in_range(after + offset) {
        return false;
    }
    let day = day_of_unix_timestamp(after + offset);
    let start = day * SECONDS_PER_DAY - offset;
    in_range(start + offset + SECONDS_PER_DAY) && in_range(start + SECONDS_PER_DAY) && in_range(
        start + SECONDS_PER_DAY + NCORE_LOCAL_START + NCORE_MAX_DELAY,
    )
}

/// Whether the nCore schedule can be computed from `after`, whichever offset applies.
pub fn is_ncore_schedulable(after: i64) -> (r: bool)
    ensures
        r == ncore_schedulable_any_offset(after as int),
{
    is_ncore_schedulable_with(after, HUNGARY_STANDARD_OFFSET) && is_ncore_schedulable_with(
        after,
        HUNGARY_SUMMER_OFFSET,
    )
}

/// Whether the next-day nCore schedule can be computed from `after`, whichever offset applies.
pub fn is_ncore_next_day_schedulable(after: i64) -> (r: bool)
    ensures
        r == ncore_next_day_schedulable_any_offset(after as int),
{
    is_ncore_next_day_schedulable_with(after, HUNGARY_STANDARD_OFFSET)
        && is_ncore_next_day_schedulable_with(after, HUNGARY_SUMMER_OFFSET)
}

// ----- Running tasks -----

/// Which check-in a task runs.
pub enum TaskDispatch {
    RunHoyoverse,
    RunNcore,
    /// The task cannot run; the outcome says why.
    Refuse(TaskOutcome),
}

/// Which check-in runs for a task of type `task_type` on an account of
/// `service`: a known type runs only for its own service.
pub fn task_dispatch(task_type: &str, service: &str) -> (r: TaskDispatch)
    ensures
        task_type@ == TASK_HOYOVERSE_DAILY_CHECKIN@ && service@ == service_text(Service::Hoyoverse)
            ==> r is RunHoyoverse,
        task_type@ == TASK_NCORE_DAILY_CHECKIN@ && service@ == service_text(Service::Ncore)
            ==> r is RunNcore,
        task_type@ == TASK_HOYOVERSE_DAILY_CHECKIN@ && service@ != service_text(Service::Hoyoverse)
            ==> (r matches TaskDispatch::Refuse(o) && !o.success && o.message@ == "task "@
            + task_type@ + " cannot run for service "@ + service@),
        task_type@ != TASK_HOYOVERSE_DAILY_CHECKIN@ && task_type@ == TASK_NCORE_DAILY_CHECKIN@
            && service@ != service_text(Service::Ncore) ==> (r matches TaskDispatch::Refuse(o)
            && !o.success && o.message@ == "task "@ + task_type@ + " cannot run for service "@
            + service@),
        task_type@ != TASK_HOYOVERSE_DAILY_CHECKIN@ && task_type@ != TASK_NCORE_DAILY_CHECKIN@ ==> (
        r matches TaskDispatch::Refuse(o) && !o.success && o.message@ == "unknown task type "@
            + task_type@),
{
    proof {
        task_and_service_names_distinct();
    }
    let wrong_service = |t: &str, s: &str| -> (o: TaskOutcome)
        ensures
            !o.success,
            o.message@ == "task "@ + t@ + " cannot run for service "@ + s@,
        { TaskOutcome { success: false, message: join3("task ", t, " cannot run for service ").concat(s) } };
    if str_eq(task_type, TASK_HOYOVERSE_DAILY_CHECKIN) {
        if !str_eq(service, Service::Hoyoverse.as_str()) {
            return TaskDispatch::Refuse(wrong_service(task_type, service));
        }
        TaskDispatch::RunHoyoverse
    } else if str_eq(task_type, TASK_NCORE_DAILY_CHECKIN) {
        if !str_eq(service, Service::Ncore.as_str()) {
            return TaskDispatch::Refuse(wrong_service(task_type, service));
        }
        TaskDispatch::RunNcore
    } else {
        TaskDispatch::Refuse(
            TaskOutcome { success: false, message: join2("unknown task type ", task_type) },
        )
    }
}

/// The outcome of a task whose stored account settings could not be read.
pub fn config_error_outcome(service: Service, error: &str) -> (r: TaskOutcome)
    ensures
        !r.success,
        service == Service::Hoyoverse ==> r.message@ == "invalid Hoyoverse account configuration: "@
            + error@,
        service == Service::Ncore ==> r.message@ == "invalid nCore account configuration: "@
            + error@,
{
    match service {
        Service::Hoyoverse => TaskOutcome {
            success: false,
            message: join2("invalid Hoyoverse account configuration: ", error),
        },
        Service::Ncore => TaskOutcome {
            success: false,
            message: join2("invalid nCore account configuration: ", error),
        },
    }
}

/// When a task of `task_type` that started at `started_at` runs next: on the
/// following day of its service; an unknown type is not rescheduled.
pub fn next_run_after(task_type: &str, started_at: i64) -> (r: Option<i64>)
    requires
        task_type@ == TASK_HOYOVERSE_DAILY_CHECKIN@ ==> hoyoverse_next_day_schedulable(
            started_at as int,
        ),
        task_type@ == TASK_NCORE_DAILY_CHECKIN@ ==> ncore_next_day_schedulable_any_offset(
            started_at as int,
        ),
    ensures
        task_type@ == TASK_HOYOVERSE_DAILY_CHECKIN@ ==> (r matches Some(t)
            && hoyoverse_next_day_base_of(started_at as int) + HOYOVERSE_MIN_DELAY <= t
            <= hoyoverse_next_day_base_of(started_at as int) + HOYOVERSE_MAX_DELAY),
        task_type@ != TASK_HOYOVERSE_DAILY_CHECKIN@ && task_type@ == TASK_NCORE_DAILY_CHECKIN@ ==> (
        r matches Some(t) && (ncore_run_within(
            ncore_next_day_base_of(started_at as int, HUNGARY_STANDARD_OFFSET as int),
            t as int,
        ) || ncore_run_within(
            ncore_next_day_base_of(started_at as int, HUNGARY_SUMMER_OFFSET as int),
            t as int,
        ))),
        task_type@ != TASK_HOYOVERSE_DAILY_CHECKIN@ && task_type@ != TASK_NCORE_DAILY_CHECKIN@
            ==> r is None,
{
    proof {
        task_and_service_names_distinct();
    }
    if str_eq(task_type, TASK_HOYOVERSE_DAILY_CHECKIN) {
        Some(next_hoyoverse_daily_run_next_day(started_at))
    } else if str_eq(task_type, TASK_NCORE_DAILY_CHECKIN) {
        Some(next_ncore_daily_run_next_day(started_at))
    } else {
        None
    }
}

/// The task an account of `service` gets, and when it first runs, if the account is created at `now`.
pub fn initial_task_for(service: Service, now: i64) -> (r: (&'static str, i64))
    requires
        service == Service::Hoyoverse ==> hoyoverse_schedulable(now as int),
        service == Service::Ncore ==> ncore_schedulable_any_offset(now as int),
    ensures
        service == Service::Hoyoverse ==> r.0@ == TASK_HOYOVERSE_DAILY_CHECKIN@
            && hoyoverse_base_of(now as int) + HOYOVERSE_MIN_DELAY <= r.1 <= hoyoverse_base_of(
            now as int,
        ) + HOYOVERSE_MAX_DELAY,
        service == Service::Ncore ==> r.0@ == TASK_NCORE_DAILY_CHECKIN@ && (ncore_run_within(
            ncore_base_of(now as int, HUNGARY_STANDARD_OFFSET as int),
            r.1 as int,
        ) || ncore_run_within(ncore_base_of(now as int, HUNGARY_SUMMER_OFFSET as int), r.1 as int)),
{
    match service {
        Service::Hoyoverse => (TASK_HOYOVERSE_DAILY_CHECKIN, next_hoyoverse_daily_run_from(now)),
        Service::Ncore => (TASK_NCORE_DAILY_CHECKIN, next_ncore_daily_run_from(now)),
    }
}

/// The status logged for an outcome.
pub fn outcome_status(success: bool) -> (r: &'static str)
    ensures
        success ==> r@ == "success"@,
        !success ==> r@ == "failed"@,
{
    if success {
        "success"
    } else {
        "failed"
    }
}

/// An alert to send.
pub struct Alert {
    pub title: String,
    pub message: String,
}

/// The alert sent when a run fails; none when it succeeds.
pub fn failure_alert(task_type: &str, account_name: &str, outcome: &TaskOutcome) -> (r: Option<Alert>)
    ensures
        outcome.success ==> r is None,
        !outcome.success ==> (r matches Some(a) && a.title@ == "Check-in failed: "@ + account_name@
            && a.message@ == "["@ + task_type@ + "] "@ + account_name@ + " - "@ + outcome.message@),
{
    if outcome.success {
        return None;
    }
    let title = join2("Check-in failed: ", account_name);
    let message = join3("[", task_type, "] ").concat(account_name).concat(" - ").concat(
        outcome.message.as_str(),
    );
    Some(Alert { title, message })
}

/// How long the scheduler sleeps, in seconds: a minute when nothing is
/// scheduled, else until the next run, but at least a second and at most an hour.
pub fn sleep_seconds(until_next_run: Option<i64>) -> (r: u64)
    ensures
        until_next_run is None ==> r == 60,
        until_next_run matches Some(s) ==> r == if s < 1 { 1 } else if s > 3600 { 3600 } else { s },
        1 <= r <= 3600,
{
    match until_next_run {
        None => 60,
        Some(s) => if s < 1 {
            1
        } else if s > 3600 {
            3600
        } else {
            s as u64
        },
    }
}

/// The sleep for a next run `s` seconds away: at least a second, at most an hour.
pub open spec fn sleep_for(s: int) -> int {
    if s < 1 {
        1
    } else if s > 3600 {
        3600
    } else {
        s
    }
}

/// The whole seconds (rounded towards zero) from the instant `now_secs`
/// seconds and `now_nanos` nanoseconds after the Unix epoch until the RFC 3339
/// time `text`, or why `text` could not be read.
pub uninterp spec fn rfc3339_seconds_until(text: Seq<char>, now_secs: int, now_nanos: int) -> Result<
    i64,
    Seq<char>,
>;

/// Reads `text` with `chrono::DateTime::parse_from_rfc3339`, takes it to UTC,
/// subtracts the instant `DateTime::from_timestamp(now_secs, now_nanos)` and
/// returns `TimeDelta::num_seconds` of the difference; a text that does not
/// parse gives the parse error's message. Trusted: the outcome is what
/// `rfc3339_seconds_until` names. Within the `requires` the instant exists,
/// so the fallback is never taken.
#[verifier::external_body]
fn seconds_until(text: &str, now_secs: i64, now_nanos: u32) -> (r: Result<i64, String>)
    requires
        in_chrono_range(now_secs as int),
        now_nanos < 1_000_000_000,
    ensures
        match rfc3339_seconds_until(text@, now_secs as int, now_nanos as int) {
            Ok(s) => r matches Ok(v) && v == s,
            Err(e) => r matches Err(m) && m@ == e,
        },
{
    let now = chrono::DateTime::from_timestamp(now_secs, now_nanos).unwrap_or_default();
    let parsed = chrono::DateTime::parse_from_rfc3339(text).map_err(|e| e.to_string())?;
    Ok((parsed.with_timezone(&chrono::Utc) - now).num_seconds())
}

/// How long the scheduler sleeps, in seconds, when the earliest enabled task
/// is due at the stored time `next_run_at` (none: nothing is scheduled) and
/// the time is now `now_secs` seconds and `now_nanos` nanoseconds after the
/// Unix epoch. A stored time that cannot be read is reported.
pub fn next_sleep_seconds(next_run_at: Option<&str>, now_secs: i64, now_nanos: u32) -> (r: Result<
    u64,
    String,
>)
    requires
        in_chrono_range(now_secs as int),
        now_nanos < 1_000_000_000,
    ensures
        match next_run_at {
            None => r == Ok::<u64, String>(60),
            Some(text) => match rfc3339_seconds_until(text@, now_secs as int, now_nanos as int) {
                Ok(s) => r matches Ok(v) && v == sleep_for(s as int),
                Err(e) => r matches Err(m) && m@ == e,
            },
        },
{
    match next_run_at {
        None => Ok(sleep_seconds(None)),
        Some(text) => match seconds_until(text, now_secs, now_nanos) {
            Ok(s) => Ok(sleep_seconds(Some(s))),
            Err(e) => Err(e),
        },
    }
}

// ----- Laws of the schedule -----

/// The next Hoyoverse run is based on the first UTC+8 midnight that is not a
/// minute or more in the past: a midnight in UTC+8, later than `after - 60`,
/// and such that the midnight before it was at least a minute before `after`.
pub proof fn hoyoverse_base_is_first_open_midnight(after: int)
    ensures
        (hoyoverse_base_of(after) + HOYOVERSE_UTC_OFFSET) % SECONDS_PER_DAY as int == 0,
        hoyoverse_base_of(after) + GRACE_SECONDS > after,
        hoyoverse_base_of(after) - SECONDS_PER_DAY + GRACE_SECONDS <= after,
{
    let d = day_of_timestamp(after + HOYOVERSE_UTC_OFFSET);
    assert(d * 86400 <= after + 28800 < d * 86400 + 86400);
    assert((d * 86400) % 86400 == 0) by {
        vstd::arithmetic::div_mod::lemma_mod_multiples_vanish(d, 0, 86400);
    }
    assert((d * 86400 + 86400) % 86400 == 0) by {
        vstd::arithmetic::div_mod::lemma_mod_multiples_vanish(d + 1, 0, 86400);
    }
}

/// The Hoyoverse run after one started at `after` is based on the UTC+8
/// midnight that ends the day holding `after`: strictly later than `after`
/// and at most a day later.
pub proof fn hoyoverse_next_day_base_is_next_midnight(after: int)
    ensures
        (hoyoverse_next_day_base_of(after) + HOYOVERSE_UTC_OFFSET) % SECONDS_PER_DAY as int == 0,
        after < hoyoverse_next_day_base_of(after) <= after + SECONDS_PER_DAY,
{
    let d = day_of_timestamp(after + HOYOVERSE_UTC_OFFSET);
    assert(d * 86400 <= after + 28800 < d * 86400 + 86400);
    assert((d * 86400 + 86400) % 86400 == 0) by {
        vstd::arithmetic::div_mod::lemma_mod_multiples_vanish(d + 1, 0, 86400);
    }
}

/// The next nCore run is based on the first 10:00 local time that is not a
/// minute or more in the past.
pub proof fn ncore_base_is_first_open_ten_oclock(after: int, offset: int)
    ensures
        (ncore_base_of(after, offset) + offset - NCORE_LOCAL_START) % SECONDS_PER_DAY as int == 0,
        ncore_base_of(after, offset) + GRACE_SECONDS > after,
        ncore_base_of(after, offset) - SECONDS_PER_DAY + GRACE_SECONDS <= after,
{
    let d = day_of_timestamp(after + offset);
    assert(d * 86400 <= after + offset < d * 86400 + 86400);
    assert((d * 86400) % 86400 == 0) by {
        vstd::arithmetic::div_mod::lemma_mod_multiples_vanish(d, 0, 86400);
    }
    assert((d * 86400 + 86400) % 86400 == 0) by {
        vstd::arithmetic::div_mod::lemma_mod_multiples_vanish(d + 1, 0, 86400);
    }
}

/// The nCore run after one started at `after` is based on 10:00 local time on
/// the following local day: later than `after`, and less than two days later.
pub proof fn ncore_next_day_base_is_next_ten_oclock(after: int, offset: int)
    requires
        0 <= offset <= NCORE_LOCAL_START,
    ensures
        (ncore_next_day_base_of(after, offset) + offset - NCORE_LOCAL_START) % SECONDS_PER_DAY as int
            == 0,
        after < ncore_next_day_base_of(after, offset) < after + 2 * SECONDS_PER_DAY,
{
    let d = day_of_timestamp(after + offset);
    assert(d * 86400 <= after + offset < d * 86400 + 86400);
    assert((d * 86400 + 86400) % 86400 == 0) by {
        vstd::arithmetic::div_mod::lemma_mod_multiples_vanish(d + 1, 0, 86400);
    }
}

} // verus!
