use antenna_toolbox::calendar::{month_of_unix_secs, this_month};

#[test]
fn the_epoch_is_in_january() {
    assert_eq!(month_of_unix_secs(0), 0);
    assert_eq!(month_of_unix_secs(31449600), 11);
}

#[test]
fn a_late_summer_day() {
    assert_eq!(month_of_unix_secs(1725029869), 7);
}

#[test]
fn leap_days_fall_in_february() {
    assert_eq!(month_of_unix_secs(951782400), 1);
    assert_eq!(month_of_unix_secs(951868800 - 1), 1);
    assert_eq!(month_of_unix_secs(951868800), 2);
    assert_eq!(month_of_unix_secs(13574563200), 1);
}

#[test]
fn a_century_year_is_not_leap() {
    assert_eq!(month_of_unix_secs(4107456000), 1);
    assert_eq!(month_of_unix_secs(4107456000 + 86400), 2);
    assert_eq!(month_of_unix_secs(4107542400), 2);
}

#[test]
fn the_last_second_of_a_year() {
    assert_eq!(month_of_unix_secs(1735689599), 11);
    assert_eq!(month_of_unix_secs(1735689600), 0);
}

#[test]
fn the_far_future_still_has_months() {
    assert!(month_of_unix_secs(u64::MAX) < 12);
}

#[test]
fn this_month_is_a_month() {
    assert!(this_month() < 12);
}
