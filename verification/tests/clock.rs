use sing_box_config_api::clock::{Timestamp, MAX_SECS, MIN_SECS};
use sing_box_config_api::names::sanitize_backup_name;

fn at(secs: i64, nanos: u32) -> Timestamp {
    Timestamp::new(secs, nanos).expect("time")
}

#[test]
fn times_are_written_by_rfc3339() {
    assert_eq!(at(0, 0).to_rfc3339(), "1970-01-01T00:00:00+00:00");
    assert_eq!(at(1_776_279_304, 710_000_000).to_rfc3339(), "2026-04-15T18:55:04.710+00:00");
    assert_eq!(at(-1, 500_000_000).to_rfc3339(), "1969-12-31T23:59:59.500+00:00");
    assert_eq!(Timestamp::epoch().to_rfc3339(), "1970-01-01T00:00:00+00:00");
}

#[test]
fn backups_bear_the_time() {
    assert_eq!(
        at(1_776_279_304, 710_999_999).backup_file_name(),
        "config-20260415-185504-710.json"
    );
    assert_eq!(at(0, 1_000_000).backup_file_name(), "config-19700101-000000-001.json");
}

#[test]
fn calendar_dates_have_an_end() {
    assert!(Timestamp::new(MIN_SECS - 1, 0).is_none());
    assert!(Timestamp::new(MAX_SECS + 1, 0).is_none());
    assert!(Timestamp::new(0, 1_000_000_000).is_none());
    for time in [at(MIN_SECS, 0), at(MAX_SECS, 999_999_999), at(-62_200_000_000, 0)] {
        let name = time.backup_file_name();
        assert_eq!(sanitize_backup_name(&name).expect("name"), name);
        assert!(!time.to_rfc3339().is_empty());
    }
    assert!(chrono::DateTime::from_timestamp(MIN_SECS, 0).is_some());
    assert!(chrono::DateTime::from_timestamp(MIN_SECS - 1, 0).is_none());
    assert!(chrono::DateTime::from_timestamp(MAX_SECS, 999_999_999).is_some());
    assert!(chrono::DateTime::from_timestamp(MAX_SECS + 1, 0).is_none());
}

#[test]
fn time_is_counted_from_1970() {
    assert_eq!(at(1, 2_500_000).nanos_since_epoch(), 1_002_500_000);
    assert_eq!(at(1, 2_500_000).millis_since_epoch(), 1002);
    assert_eq!(at(-1, 999_999_999).nanos_since_epoch(), 0);
    assert_eq!(at(-1, 999_999_999).millis_since_epoch(), 0);
    assert_eq!(at(MAX_SECS, 0).nanos_since_epoch(), MAX_SECS as u128 * 1_000_000_000);
}

#[test]
fn checks_bear_the_time_in_nanoseconds() {
    assert_eq!(at(1, 2).check_file_name(), "sing-box-config-api-check-1000000002.json");
    assert_eq!(at(-5, 2).check_file_name(), "sing-box-config-api-check-0.json");
}

#[test]
fn backups_of_other_milliseconds_have_other_names() {
    let times = [
        at(0, 0),
        at(0, 1_000_000),
        at(1, 0),
        at(-1, 0),
        at(-62_198_755_200, 0),
        at(253_402_300_799, 999_000_000),
        at(253_402_300_800, 0),
        at(2_534_023_008_000, 0),
        at(MIN_SECS, 0),
        at(MAX_SECS, 0),
    ];
    let names: Vec<String> = times.iter().map(|time| time.backup_file_name()).collect();
    for (i, name) in names.iter().enumerate() {
        for other in &names[i + 1..] {
            assert_ne!(name, other);
        }
    }
    assert_eq!(at(7, 5_000_000).backup_file_name(), at(7, 5_999_999).backup_file_name());
}
