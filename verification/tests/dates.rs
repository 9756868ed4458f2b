use photosort::date::{date_string, CalendarDate};
use photosort::relocate::entry_for;

fn date(year: i32, month: u8, day: u8) -> CalendarDate {
    CalendarDate { year, month, day }
}

#[test]
fn epoch_is_first_of_1970() {
    let e = entry_for(String::from("a.JPG"), 0).unwrap();
    assert_eq!(e.target_date, date(1970, 1, 1));
    assert_eq!(e.source, "a.JPG");
}

#[test]
fn known_timestamp_2015() {
    // 2015-05-15 00:00:00 UTC
    let e = entry_for(String::from("x"), 1431648000).unwrap();
    assert_eq!(e.target_date, date(2015, 5, 15));
}

#[test]
fn known_timestamp_2024() {
    // 2024-03-10 00:00:00 UTC
    let e = entry_for(String::from("x"), 1710028800).unwrap();
    assert_eq!(e.target_date, date(2024, 3, 10));
}

#[test]
fn last_second_of_a_day_stays_on_that_day() {
    let e = entry_for(String::from("x"), 1710028799).unwrap();
    assert_eq!(e.target_date, date(2024, 3, 9));
}

#[test]
fn pre_epoch_timestamp_has_a_date() {
    let e = entry_for(String::from("x"), -86400).unwrap();
    assert_eq!(e.target_date, date(1969, 12, 31));
}

#[test]
fn date_string_pads_month_and_day() {
    assert_eq!(date_string(&date(2024, 3, 10)), "2024-03-10");
    assert_eq!(date_string(&date(987, 4, 5)), "987-04-05");
    assert_eq!(date_string(&date(2023, 12, 31)), "2023-12-31");
}

#[test]
fn date_string_negative_year() {
    assert_eq!(date_string(&date(-44, 3, 15)), "-44-03-15");
}

#[test]
fn keys_distinguish_nearby_dates() {
    let a = date(2023, 5, 1).key();
    let b = date(2023, 5, 2).key();
    let c = date(2023, 6, 1).key();
    let d = date(2024, 5, 1).key();
    assert_ne!(a, b);
    assert_ne!(a, c);
    assert_ne!(a, d);
    assert_eq!(a, date(2023, 5, 1).key());
}
