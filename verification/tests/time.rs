use undelegation_query::time::{epoch_seconds, Timestamp};

fn ts(year: i32, month: u8, day: u8, hour: u8, minute: u8, second: u8) -> Timestamp {
    Timestamp { year, month, day, hour, minute, second }
}

#[test]
fn naive_new_year_2023_is_1672531200() {
    assert_eq!(epoch_seconds(&ts(2023, 1, 1, 0, 0, 0)), 1672531200);
}

#[test]
fn unix_epoch_is_zero() {
    assert_eq!(epoch_seconds(&ts(1970, 1, 1, 0, 0, 0)), 0);
}

#[test]
fn leap_day_noon_2024() {
    assert_eq!(epoch_seconds(&ts(2024, 2, 29, 12, 0, 0)), 1709208000);
}

#[test]
fn seconds_of_day_are_added() {
    assert_eq!(epoch_seconds(&ts(2023, 1, 1, 1, 2, 3)), 1672531200 + 3600 + 120 + 3);
}

#[test]
fn pre_epoch_dates_are_negative() {
    assert_eq!(epoch_seconds(&ts(1969, 12, 31, 23, 59, 59)), -1);
}

#[test]
fn well_formedness_is_decided() {
    assert!(ts(2023, 1, 1, 0, 0, 0).is_wf());
    assert!(!ts(2023, 13, 1, 0, 0, 0).is_wf());
    assert!(!ts(2023, 0, 1, 0, 0, 0).is_wf());
    assert!(!ts(2023, 1, 1, 24, 0, 0).is_wf());
    assert!(!ts(0, 1, 1, 0, 0, 0).is_wf());
}
