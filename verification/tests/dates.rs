use feed_rs::util::timestamp::parse_iso_date;
use feed_rs::util::timestamp::parse_mail_date;
use feed_rs::util::timestamp::parse_rfc2822;
use feed_rs::util::timestamp::parse_rfc3339;
use feed_rs::util::timestamp::DateTime;

fn seconds(time: Option<DateTime>) -> Option<i64> {
    time.map(|t| t.seconds())
}

#[test]
fn civil_dates_count_from_1970() {
    assert_eq!(seconds(DateTime::from_civil(1970, 1, 1, 0, 0, 0)), Some(0));
    assert_eq!(seconds(DateTime::from_civil(1970, 1, 1, 0, 0, 1)), Some(1));
    assert_eq!(seconds(DateTime::from_civil(1969, 12, 31, 23, 59, 59)), Some(-1));
    assert_eq!(seconds(DateTime::from_civil(2000, 2, 29, 0, 0, 0)), Some(951782400));
    assert_eq!(seconds(DateTime::from_civil(2000, 3, 1, 0, 0, 0)), Some(951868800));
    assert_eq!(seconds(DateTime::from_civil(2005, 7, 31, 12, 29, 29)), Some(1122812969));
    assert_eq!(seconds(DateTime::from_civil(2100, 3, 1, 0, 0, 0)), Some(4107542400));
    assert_eq!(seconds(DateTime::from_civil(9999, 12, 31, 23, 59, 59)), Some(253402300799));
    assert_eq!(seconds(DateTime::from_civil(1, 1, 1, 0, 0, 0)), Some(-62135596800));
}

#[test]
fn civil_dates_off_the_calendar_are_none() {
    assert_eq!(DateTime::from_civil(0, 1, 1, 0, 0, 0), None);
    assert_eq!(DateTime::from_civil(10000, 1, 1, 0, 0, 0), None);
    assert_eq!(DateTime::from_civil(2001, 0, 1, 0, 0, 0), None);
    assert_eq!(DateTime::from_civil(2001, 13, 1, 0, 0, 0), None);
    assert_eq!(DateTime::from_civil(2001, 1, 0, 0, 0, 0), None);
    assert_eq!(DateTime::from_civil(2001, 1, 32, 0, 0, 0), None);
    assert_eq!(DateTime::from_civil(2001, 2, 29, 0, 0, 0), None);
    assert_eq!(DateTime::from_civil(2100, 2, 29, 0, 0, 0), None);
    assert_eq!(DateTime::from_civil(2001, 4, 31, 0, 0, 0), None);
    assert_eq!(DateTime::from_civil(2001, 1, 1, 24, 0, 0), None);
    assert_eq!(DateTime::from_civil(2001, 1, 1, 0, 60, 0), None);
    assert_eq!(DateTime::from_civil(2001, 1, 1, 0, 0, 60), None);
    assert!(DateTime::from_civil(2004, 2, 29, 23, 59, 59).is_some());
}

#[test]
fn seconds_round_trip() {
    assert_eq!(DateTime::from_seconds(-5).seconds(), -5);
    assert_eq!(DateTime::from_seconds(1122812969), DateTime::from_civil(2005, 7, 31, 12, 29, 29).unwrap());
}

#[test]
fn rfc3339_dates() {
    assert_eq!(seconds(parse_rfc3339("2005-07-31T12:29:29Z")), Some(1122812969));
    assert_eq!(seconds(parse_rfc3339("2005-07-31t12:29:29z")), Some(1122812969));
    assert_eq!(seconds(parse_rfc3339("2005-07-31 12:29:29Z")), Some(1122812969));
    assert_eq!(seconds(parse_rfc3339("2005-07-31T12:29:29")), Some(1122812969));
    assert_eq!(seconds(parse_rfc3339("2005-07-31T12:29Z")), Some(1122812969 - 29));
    assert_eq!(seconds(parse_rfc3339("2005-07-31T12:29:29.5Z")), Some(1122812969));
    assert_eq!(seconds(parse_rfc3339("2005-07-31T12:29:29.123456+00:00")), Some(1122812969));
    assert_eq!(seconds(parse_rfc3339("2003-12-13T18:30:02+01:00")), Some(1071336602));
    assert_eq!(seconds(parse_rfc3339("2003-12-13T18:30:02+0100")), Some(1071336602));
    assert_eq!(seconds(parse_rfc3339("2003-12-13T18:30:02-05:30")), Some(1071340202 + 19800));
    assert_eq!(seconds(parse_rfc3339("2003-12-13T18:30:02 GMT")), None);
    assert_eq!(seconds(parse_rfc3339("2003-12-13T18:30:02EST")), Some(1071340202 + 18000));
    assert_eq!(seconds(parse_rfc3339("2000-02-29")), Some(951782400));
    assert_eq!(seconds(parse_rfc3339("1970-01-01T00:00:00Z")), Some(0));
}

#[test]
fn rfc3339_rejects_what_is_no_date() {
    for text in [
        "",
        "2005",
        "2005-07-3",
        "2005/07/31",
        "2005-07-31X12:29:29Z",
        "2005-07-31T",
        "2005-07-31T12",
        "2005-07-31T12:2",
        "2005-07-31T24:00:00Z",
        "2005-07-31T12:60:00Z",
        "2005-07-31T12:29:60Z",
        "2005-07-31T12:29:29+1",
        "2005-07-31T12:29:29+25:00",
        "2005-07-31T12:29:29Zjunk",
        "2005-13-01T00:00:00Z",
        "2005-02-29T00:00:00Z",
        "0000-01-01T00:00:00Z",
        "20o5-07-31T12:29:29Z",
        "\u{662}005-07-31T12:29:29Z",
        "Sat, 07 Sep 2002 00:00:01 GMT",
    ] {
        assert_eq!(parse_rfc3339(text), None, "{}", text);
    }
}

#[test]
fn rfc2822_dates() {
    assert_eq!(seconds(parse_rfc2822("Sat, 07 Sep 2002 00:00:01 GMT")), Some(1031356801));
    assert_eq!(seconds(parse_rfc2822("Tue, 10 Jun 2003 04:00:00 GMT")), Some(1055217600));
    assert_eq!(seconds(parse_rfc2822("10 Jun 2003 04:00:00 GMT")), Some(1055217600));
    assert_eq!(seconds(parse_rfc2822("  Tue,10 Jun 2003   04:00:00   UT")), Some(1055217600));
    assert_eq!(seconds(parse_rfc2822("Tue, 10 Jun 2003 04:00:00 UTC")), Some(1055217600));
    assert_eq!(seconds(parse_rfc2822("Tue, 10 Jun 2003 04:00:00 Z")), Some(1055217600));
    assert_eq!(seconds(parse_rfc2822("Tue, 10 Jun 2003 04:00:00")), Some(1055217600));
    assert_eq!(seconds(parse_rfc2822("Tue, 10 Jun 2003 04:00:00 +0000")), Some(1055217600));
    assert_eq!(seconds(parse_rfc2822("Tue, 10 Jun 2003 04:00 +0000")), Some(1055217600));
    assert_eq!(seconds(parse_rfc2822("Tue, 03 Jun 2003 09:39:21 EST")), Some(1054651161));
    assert_eq!(seconds(parse_rfc2822("Tue, 03 Jun 2003 09:39:21 EDT")), Some(1054651161 - 3600));
    assert_eq!(seconds(parse_rfc2822("Tue, 03 Jun 2003 09:39:21 CST")), Some(1054651161 + 3600));
    assert_eq!(seconds(parse_rfc2822("Tue, 03 Jun 2003 09:39:21 CDT")), Some(1054651161));
    assert_eq!(seconds(parse_rfc2822("Tue, 03 Jun 2003 09:39:21 MST")), Some(1054651161 + 7200));
    assert_eq!(seconds(parse_rfc2822("Tue, 03 Jun 2003 09:39:21 MDT")), Some(1054651161 + 3600));
    assert_eq!(seconds(parse_rfc2822("Tue, 03 Jun 2003 09:39:21 PST")), Some(1054651161 + 10800));
    assert_eq!(seconds(parse_rfc2822("Tue, 03 Jun 2003 09:39:21 PDT")), Some(1054651161 + 7200));
    assert_eq!(seconds(parse_rfc2822("10 Jun 03 04:00 -0230")), Some(1055226600));
    assert_eq!(seconds(parse_rfc2822("1 Jan 99 00:00 PDT")), Some(915174000));
    assert_eq!(seconds(parse_rfc2822("1 Jan 49 00:00 GMT")), seconds(DateTime::from_civil(2049, 1, 1, 0, 0, 0)));
    assert_eq!(seconds(parse_rfc2822("1 Jan 50 00:00 GMT")), seconds(DateTime::from_civil(1950, 1, 1, 0, 0, 0)));
    assert_eq!(seconds(parse_rfc2822("Mon, 1 Feb 2021 10:20:30 +05:30")), seconds(DateTime::from_civil(2021, 2, 1, 4, 50, 30)));
}

#[test]
fn rfc2822_knows_every_month() {
    let names = ["Jan", "Feb", "Mar", "Apr", "May", "Jun", "Jul", "Aug", "Sep", "Oct", "Nov", "Dec"];
    for (i, name) in names.iter().enumerate() {
        let text = format!("15 {} 2010 12:00:00 GMT", name);
        assert_eq!(parse_rfc2822(&text), DateTime::from_civil(2010, i as u32 + 1, 15, 12, 0, 0));
    }
}

#[test]
fn rfc2822_rejects_what_is_no_date() {
    for text in [
        "",
        "Sat",
        "Sat, 07",
        "Sat, 07 Sep",
        "Sat, 07 Sep 2002",
        "Sat, 07 Sep 2002 00",
        "Sat, 007 Sep 2002 00:00:01 GMT",
        "Sat, 07 sep 2002 00:00:01 GMT",
        "Sat, 07 Sept 2002 00:00:01 GMT",
        "Sat, 07 Sep 202 00:00:01 GMT",
        "Sat, 07 Sep 20022 00:00:01 GMT",
        "Sat, 31 Sep 2002 00:00:01 GMT",
        "Sat, 07 Sep 2002 24:00:01 GMT",
        "Sat, 07 Sep 2002 00:00:01 XYZ",
        "Sat, 07 Sep 2002 00:00:01 GMT+1",
        "Sat, 07 Sep 2002 00:00:01 +2500",
        "Sat 07 Sep 2002 00:00:01 GMT",
        "2005-07-31T12:29:29Z",
    ] {
        assert_eq!(parse_rfc2822(text), None, "{}", text);
    }
}

#[test]
fn each_dialect_reads_the_other_format_too() {
    assert_eq!(seconds(parse_iso_date("2005-07-31T12:29:29Z")), Some(1122812969));
    assert_eq!(seconds(parse_iso_date("Sat, 07 Sep 2002 00:00:01 GMT")), Some(1031356801));
    assert_eq!(seconds(parse_mail_date("2005-07-31T12:29:29Z")), Some(1122812969));
    assert_eq!(seconds(parse_mail_date("Sat, 07 Sep 2002 00:00:01 GMT")), Some(1031356801));
    assert_eq!(parse_iso_date("tomorrow"), None);
    assert_eq!(parse_mail_date("tomorrow"), None);
}
