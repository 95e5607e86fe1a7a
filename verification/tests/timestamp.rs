use lantern::calendar::{MAX_TIMESTAMP, MIN_TIMESTAMP};
use lantern::timestamp::to_sql_timestamp;

#[test]
fn sql_timestamps_are_rfc3339_utc_seconds() {
    assert_eq!(to_sql_timestamp(0), "1970-01-01T00:00:00Z");
    assert_eq!(to_sql_timestamp(1_700_000_000), "2023-11-14T22:13:20Z");
    assert_eq!(to_sql_timestamp(-1), "1969-12-31T23:59:59Z");
    assert_eq!(to_sql_timestamp(951_782_400), "2000-02-29T00:00:00Z");
    assert_eq!(to_sql_timestamp(-62_167_219_200), "0000-01-01T00:00:00Z");
}

#[test]
fn sql_timestamps_sign_years_outside_four_digits() {
    assert_eq!(to_sql_timestamp(-62_167_219_201), "-0001-12-31T23:59:59Z");
    assert_eq!(to_sql_timestamp(253_402_300_800), "+10000-01-01T00:00:00Z");
    assert_eq!(to_sql_timestamp(MAX_TIMESTAMP), "+262142-12-31T23:59:59Z");
    assert_eq!(to_sql_timestamp(MIN_TIMESTAMP), "-262143-01-01T00:00:00Z");
}

#[test]
fn sql_timestamps_sort_as_instants() {
    let times = [-62_167_219_200i64, -1, 0, 59, 60, 86_399, 86_400, 951_782_400, 1_700_000_000];
    for pair in times.windows(2) {
        assert!(to_sql_timestamp(pair[0]) < to_sql_timestamp(pair[1]));
    }
}
