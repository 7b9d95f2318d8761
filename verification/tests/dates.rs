use protonmail_client::dates::{detail_date, listing_date};

#[test]
fn dates_are_shown_in_utc() {
    assert_eq!(listing_date(0), "1970-01-01 00:00");
    assert_eq!(detail_date(1431648000), "2015-05-15 00:00:00 UTC");
    assert_eq!(listing_date(1431648059), "2015-05-15 00:00");
    assert_eq!(listing_date(i64::MAX), "?");
    assert_eq!(detail_date(i64::MIN), "?");
}
