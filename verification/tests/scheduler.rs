use lantern::calendar::{
    day_of_unix_timestamp, days_in_month, is_leap_year, last_sunday_of_month, unix_day_of,
    weekday_from_sunday, year_of_unix_day, CivilDate,
};
use lantern::models::{Service, TaskOutcome};
use lantern::scheduler::{
    config_error_outcome, failure_alert, hoyoverse_daily_base, hoyoverse_next_day_base,
    hungarian_offset_at, initial_task_for, ncore_daily_base, ncore_next_day_base,
    next_hoyoverse_daily_run_from, next_hoyoverse_daily_run_next_day, next_ncore_daily_run_from,
    next_run_after, next_sleep_seconds, outcome_status, sleep_seconds, task_dispatch, unix_now,
    TaskDispatch,
};

fn date(year: i32, month: u32, day: u32) -> CivilDate {
    CivilDate { year, month, day }
}

#[test]
fn calendar_basics() {
    assert!(is_leap_year(2024));
    assert!(!is_leap_year(1900));
    assert!(is_leap_year(2000));
    assert_eq!(days_in_month(2023, 2), 28);
    assert_eq!(days_in_month(2024, 2), 29);
    assert_eq!(days_in_month(2024, 4), 30);
    assert_eq!(unix_day_of(date(1970, 1, 1)), 0);
    assert_eq!(unix_day_of(date(2024, 3, 31)), 19813);
    assert_eq!(unix_day_of(date(1969, 12, 31)), -1);
    assert_eq!(weekday_from_sunday(date(1970, 1, 1)), 4);
    assert_eq!(weekday_from_sunday(date(2024, 3, 31)), 0);
    assert_eq!(year_of_unix_day(0), 1970);
    assert_eq!(year_of_unix_day(-1), 1969);
    assert_eq!(year_of_unix_day(19813), 2024);
    assert_eq!(day_of_unix_timestamp(-1), -1);
    assert_eq!(day_of_unix_timestamp(86_399), 0);
}

#[test]
fn last_sundays() {
    assert_eq!(last_sunday_of_month(2024, 3), date(2024, 3, 31));
    assert_eq!(last_sunday_of_month(2024, 10), date(2024, 10, 27));
    assert_eq!(last_sunday_of_month(2023, 3), date(2023, 3, 26));
    assert_eq!(last_sunday_of_month(2025, 10), date(2025, 10, 26));
    assert_eq!(last_sunday_of_month(2026, 2), date(2026, 2, 22));
}

#[test]
fn hungarian_summer_time() {
    assert_eq!(hungarian_offset_at(1_705_276_800), 3600); // 2024-01-15
    assert_eq!(hungarian_offset_at(1_719_792_000), 7200); // 2024-07-01
    assert_eq!(hungarian_offset_at(1_711_846_800), 7200); // 2024-03-31 01:00 UTC
    assert_eq!(hungarian_offset_at(1_711_846_799), 3600);
    assert_eq!(hungarian_offset_at(1_729_990_800), 3600); // 2024-10-27 01:00 UTC
    assert_eq!(hungarian_offset_at(1_729_990_799), 7200);
}

#[test]
fn hoyoverse_runs_after_utc8_midnight() {
    // 2024-01-01 15:59:30 UTC is 23:59:30 in UTC+8: today's midnight is long past.
    assert_eq!(hoyoverse_daily_base(1_704_124_770), 1_704_124_800);
    // Exactly midnight in UTC+8, and within the minute of grace after it.
    assert_eq!(hoyoverse_daily_base(1_704_124_800), 1_704_124_800);
    assert_eq!(hoyoverse_daily_base(1_704_124_830), 1_704_124_800);
    // A minute after midnight: the next midnight.
    assert_eq!(hoyoverse_daily_base(1_704_124_860), 1_704_211_200);
    assert_eq!(hoyoverse_next_day_base(1_704_124_800), 1_704_211_200);
    assert_eq!(hoyoverse_next_day_base(1_704_124_770), 1_704_124_800);
}

#[test]
fn hoyoverse_delay_is_ten_to_sixty_seconds() {
    for _ in 0..20 {
        let r = next_hoyoverse_daily_run_from(1_704_124_860);
        assert!((1_704_211_210..=1_704_211_260).contains(&r));
        let n = next_hoyoverse_daily_run_next_day(1_704_124_800);
        assert!((1_704_211_210..=1_704_211_260).contains(&n));
    }
}

#[test]
fn ncore_runs_from_ten_local() {
    // 2024-01-15 08:00 UTC is 09:00 in Budapest (UTC+1): today's 10:00 is ahead.
    assert_eq!(ncore_daily_base(1_705_305_600, 3600), 1_705_309_200);
    assert_eq!(ncore_daily_base(1_705_309_230, 3600), 1_705_309_200);
    assert_eq!(ncore_daily_base(1_705_309_260, 3600), 1_705_395_600);
    assert_eq!(ncore_next_day_base(1_705_305_600, 3600), 1_705_395_600);
    // Summer time: 10:00 local is 08:00 UTC.
    assert_eq!(ncore_daily_base(1_719_817_200, 7200), 1_719_820_800);
}

#[test]
fn ncore_delay_is_at_most_four_hours() {
    let r = next_ncore_daily_run_from(1_705_305_600);
    let winter = 1_705_309_200;
    let summer = 1_705_309_200 - 3600;
    assert!((winter..=winter + 14_400).contains(&r) || (summer..=summer + 14_400).contains(&r));
}

#[test]
fn tasks_run_for_their_own_service() {
    assert!(matches!(task_dispatch("hoyoverse_daily_checkin", "hoyoverse"), TaskDispatch::RunHoyoverse));
    assert!(matches!(task_dispatch("ncore_daily_checkin", "ncore"), TaskDispatch::RunNcore));
    match task_dispatch("hoyoverse_daily_checkin", "ncore") {
        TaskDispatch::Refuse(o) => {
            assert!(!o.success);
            assert_eq!(o.message, "task hoyoverse_daily_checkin cannot run for service ncore");
        }
        _ => panic!("expected a refusal"),
    }
    match task_dispatch("backup", "ncore") {
        TaskDispatch::Refuse(o) => assert_eq!(o.message, "unknown task type backup"),
        _ => panic!("expected a refusal"),
    }
}

#[test]
fn rescheduling_by_task_type() {
    let r = next_run_after("hoyoverse_daily_checkin", 1_704_124_800).unwrap();
    assert!((1_704_211_210..=1_704_211_260).contains(&r));
    assert!(next_run_after("ncore_daily_checkin", 1_705_305_600).is_some());
    assert_eq!(next_run_after("other", 1_705_305_600), None);
    let (t, at) = initial_task_for(Service::Hoyoverse, 1_704_124_860);
    assert_eq!(t, "hoyoverse_daily_checkin");
    assert!((1_704_211_210..=1_704_211_260).contains(&at));
    assert_eq!(initial_task_for(Service::Ncore, 1_705_305_600).0, "ncore_daily_checkin");
}

#[test]
fn outcomes_and_alerts() {
    assert_eq!(outcome_status(true), "success");
    assert_eq!(outcome_status(false), "failed");
    let ok = TaskOutcome { success: true, message: "fine".to_string() };
    assert!(failure_alert("t", "acc", &ok).is_none());
    let bad = TaskOutcome { success: false, message: "boom".to_string() };
    let alert = failure_alert("hoyoverse_daily_checkin", "main", &bad).unwrap();
    assert_eq!(alert.title, "Check-in failed: main");
    assert_eq!(alert.message, "[hoyoverse_daily_checkin] main - boom");
    let c = config_error_outcome(Service::Ncore, "missing field");
    assert!(!c.success);
    assert_eq!(c.message, "invalid nCore account configuration: missing field");
    assert_eq!(
        config_error_outcome(Service::Hoyoverse, "x").message,
        "invalid Hoyoverse account configuration: x"
    );
}

#[test]
fn scheduler_sleep_is_clamped() {
    assert_eq!(sleep_seconds(None), 60);
    assert_eq!(sleep_seconds(Some(-100)), 1);
    assert_eq!(sleep_seconds(Some(0)), 1);
    assert_eq!(sleep_seconds(Some(42)), 42);
    assert_eq!(sleep_seconds(Some(86_400)), 3600);
}

#[test]
fn clock_reads_a_plausible_time() {
    assert!(unix_now() > 1_700_000_000);
}

#[test]
fn sleeps_until_the_stored_next_run() {
    let t = "2023-11-14T22:13:20Z";
    assert_eq!(next_sleep_seconds(None, 1_700_000_000, 0), Ok(60));
    assert_eq!(next_sleep_seconds(Some(t), 1_700_000_000 - 100, 0), Ok(100));
    assert_eq!(next_sleep_seconds(Some(t), 1_700_000_000 - 100, 500_000_000), Ok(99));
    assert_eq!(next_sleep_seconds(Some(t), 1_700_000_000 - 100_000, 0), Ok(3600));
    assert_eq!(next_sleep_seconds(Some(t), 1_700_000_005, 500_000_000), Ok(1));
    assert_eq!(next_sleep_seconds(Some("2023-11-14T23:13:20+01:00"), 1_700_000_000 - 30, 0), Ok(30));
    assert!(next_sleep_seconds(Some("not a time"), 1_700_000_000, 0).is_err());
}
