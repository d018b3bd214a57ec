use bandsnatch::dates::{
    before_cutoff, is_before_filter, parse_date, parse_purchased_date, Timestamp,
};

fn at(secs: i64) -> Timestamp {
    Timestamp { secs, nanos: 0 }
}

#[test]
fn purchase_date_in_the_catalog_form() {
    assert_eq!(parse_purchased_date("30 Jan 2026 02:51:12 GMT"), Some(at(1_769_741_472)));
}

#[test]
fn purchase_date_at_the_epoch() {
    assert_eq!(parse_purchased_date("01 Jan 1970 00:00:00 GMT"), Some(at(0)));
}

#[test]
fn purchase_date_agrees_with_chrono() {
    let expected = chrono::NaiveDate::from_ymd_opt(2021, 1, 1)
        .unwrap()
        .and_hms_opt(8, 30, 0)
        .unwrap()
        .and_utc();
    assert_eq!(
        parse_purchased_date("01 Jan 2021 08:30:00 GMT"),
        Some(Timestamp { secs: expected.timestamp(), nanos: expected.timestamp_subsec_nanos() })
    );
    assert_eq!(expected.timestamp(), 1_609_489_800);
}

#[test]
fn purchase_date_during_a_leap_second() {
    assert_eq!(
        parse_purchased_date("31 Dec 2016 23:59:60 GMT"),
        Some(Timestamp { secs: 1_483_228_799, nanos: 1_000_000_000 })
    );
}

#[test]
fn purchase_date_in_another_form_is_unknown() {
    assert_eq!(parse_purchased_date("2026-01-30"), None);
    assert_eq!(parse_purchased_date(""), None);
    assert_eq!(parse_purchased_date("30 Jan 2026"), None);
    assert_eq!(parse_purchased_date("31 Feb 2026 02:51:12 GMT"), None);
    assert_eq!(parse_purchased_date("30 Jan 2026 25:00:00 GMT"), None);
}

#[test]
fn cutoff_day_is_its_first_instant() {
    assert_eq!(parse_date("2020-01-01"), Ok(at(1_577_836_800)));
    assert_eq!(parse_date("1970-01-01"), Ok(at(0)));
    assert_eq!(parse_date("1969-12-31"), Ok(at(-86_400)));
}

#[test]
fn cutoff_day_agrees_with_chrono() {
    let expected = chrono::NaiveDate::from_ymd_opt(2024, 2, 29)
        .unwrap()
        .and_hms_opt(0, 0, 0)
        .unwrap()
        .and_utc();
    assert_eq!(parse_date("2024-02-29"), Ok(at(expected.timestamp())));
    let early = chrono::NaiveDate::from_ymd_opt(-44, 3, 15)
        .unwrap()
        .and_hms_opt(0, 0, 0)
        .unwrap()
        .and_utc();
    assert_eq!(Timestamp::at_midnight(chrono::Datelike::num_days_from_ce(&early)), at(early.timestamp()));
}

#[test]
fn cutoff_day_in_another_form_is_refused_with_a_message() {
    assert_eq!(
        parse_date("01/02/2020"),
        Err(String::from("Invalid date '01/02/2020'. Use YYYY-MM-DD format."))
    );
    assert_eq!(parse_date(""), Err(String::from("Invalid date ''. Use YYYY-MM-DD format.")));
    assert_eq!(
        parse_date("2020-02-30"),
        Err(String::from("Invalid date '2020-02-30'. Use YYYY-MM-DD format."))
    );
    assert_eq!(
        parse_date("2020-01-01 extra"),
        Err(String::from("Invalid date '2020-01-01 extra'. Use YYYY-MM-DD format."))
    );
}

#[test]
fn midnight_of_a_day_number() {
    assert_eq!(Timestamp::at_midnight(719_163), at(0));
    assert_eq!(Timestamp::at_midnight(737_425), at(1_577_836_800));
    assert_eq!(Timestamp::at_midnight(719_162), at(-86_400));
    assert_eq!(Timestamp::at_midnight(i32::MAX), at((2_147_483_647i64 - 719_163) * 86_400));
    assert_eq!(Timestamp::at_midnight(i32::MIN), at((-2_147_483_648i64 - 719_163) * 86_400));
}

#[test]
fn earlier_means_strictly_earlier() {
    let a = Timestamp { secs: 10, nanos: 5 };
    let b = Timestamp { secs: 10, nanos: 6 };
    let c = Timestamp { secs: 11, nanos: 0 };
    assert!(a.is_before(&b));
    assert!(b.is_before(&c));
    assert!(a.is_before(&c));
    assert!(!b.is_before(&a));
    assert!(!c.is_before(&a));
    assert!(!a.is_before(&a));
    assert!(Timestamp { secs: -1, nanos: 999_999_999 }.is_before(&at(0)));
}

#[test]
fn before_cutoff_needs_a_cutoff_and_a_purchase_instant() {
    assert_eq!(before_cutoff(None, Some(at(5))), None);
    assert_eq!(before_cutoff(Some(at(5)), None), None);
    assert_eq!(before_cutoff(None, None), None);
}

#[test]
fn before_cutoff_hands_back_the_purchase_instant() {
    assert_eq!(before_cutoff(Some(at(100)), Some(at(99))), Some(at(99)));
    assert_eq!(before_cutoff(Some(at(100)), Some(at(100))), None);
    assert_eq!(before_cutoff(Some(at(100)), Some(at(101))), None);
}

#[test]
fn filter_reads_the_catalog_form() {
    let cutoff = parse_date("2020-01-01").unwrap();
    let early = String::from("01 Jan 2019 12:00:00 GMT");
    let late = String::from("01 Jan 2021 08:30:00 GMT");
    let edge = String::from("01 Jan 2020 00:00:00 GMT");
    let last = String::from("31 Dec 2019 23:59:59 GMT");
    assert_eq!(is_before_filter(Some(cutoff), Some(&early)), Some(at(1_546_344_000)));
    assert_eq!(is_before_filter(Some(cutoff), Some(&late)), None);
    assert_eq!(is_before_filter(Some(cutoff), Some(&edge)), None);
    assert_eq!(is_before_filter(Some(cutoff), Some(&last)), Some(at(1_577_836_799)));
}

#[test]
fn filter_lets_unknown_dates_pass() {
    let cutoff = parse_date("2020-01-01").unwrap();
    let odd = String::from("some time ago");
    let early = String::from("01 Jan 2019 12:00:00 GMT");
    assert_eq!(is_before_filter(Some(cutoff), None), None);
    assert_eq!(is_before_filter(Some(cutoff), Some(&odd)), None);
    assert_eq!(is_before_filter(None, Some(&early)), None);
    assert_eq!(is_before_filter(None, None), None);
}
