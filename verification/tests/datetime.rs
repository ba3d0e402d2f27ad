use keri::error::Error;
use keri::prefix::datetime::{restore_text, substitute_text, DateTimePrefix, TimeStamp};
use keri::prefix::Prefix;

#[test]
fn test_datetime() {
    let timestamp_str = "1AAG2020-08-22T17c50c09d988921p00c00";
    let timestamp = timestamp_str.parse::<DateTimePrefix>();
    assert!(timestamp.is_ok());
    assert_eq!(timestamp.unwrap().to_str(), timestamp_str);
}

#[test]
fn timestamp_encodes_to_the_known_text() {
    let t = TimeStamp::new(1_598_118_609, 988_921_000, 0).unwrap();
    assert_eq!(t.to_rfc3339(), "2020-08-22T17:50:09.988921+00:00");
    let prefix = DateTimePrefix::new(t);
    assert_eq!(prefix.to_str(), "1AAG2020-08-22T17c50c09d988921p00c00");
    assert_eq!(prefix.derivation_code(), "1AAG");
    assert_eq!(prefix.derivative(), b"2020-08-22T17c50c09d988921p00c00".to_vec());
}

#[test]
fn timestamp_decodes_to_the_same_instant() {
    let t = TimeStamp::new(1_598_118_609, 988_921_000, 0).unwrap();
    let read = DateTimePrefix::from_str("1AAG2020-08-22T17c50c09d988921p00c00").unwrap();
    assert_eq!(read.datetime(), t);
    assert_eq!(read.datetime().seconds(), 1_598_118_609);
    assert_eq!(read.datetime().nanos(), 988_921_000);
    assert_eq!(read.datetime().offset(), 0);
    assert_eq!(DateTimePrefix::from_str(&DateTimePrefix::new(t).to_str()).unwrap(), read);
}

#[test]
fn timestamp_keeps_its_offset() {
    let east = TimeStamp::new(1_598_118_609, 0, 2 * 3600).unwrap();
    let text = DateTimePrefix::new(east).to_str();
    assert_eq!(text, "1AAG2020-08-22T19c50c09d000000p02c00");
    assert_eq!(text.len(), 36);
    assert_eq!(DateTimePrefix::from_str(&text).unwrap().datetime(), east);

    let west = TimeStamp::new(1_598_118_609, 1_000, -(5 * 3600 + 1800)).unwrap();
    let text = DateTimePrefix::new(west).to_str();
    assert_eq!(text, "1AAG2020-08-22T12c20c09d000001-05c30");
    assert_eq!(DateTimePrefix::from_str(&text).unwrap().datetime(), west);
}

#[test]
fn timestamp_drops_what_is_below_a_microsecond() {
    let t = TimeStamp::new(0, 1_999, 0).unwrap();
    let text = DateTimePrefix::new(t).to_str();
    assert_eq!(text, "1AAG1970-01-01T00c00c00d000001p00c00");
    let back = DateTimePrefix::from_str(&text).unwrap().datetime();
    assert_eq!(back, TimeStamp::new(0, 1_000, 0).unwrap());
}

#[test]
fn timestamp_bounds() {
    assert!(TimeStamp::new(-62_167_219_200, 0, 0).is_some());
    assert!(TimeStamp::new(-62_167_219_201, 0, 0).is_none());
    assert!(TimeStamp::new(-62_167_219_201, 0, 1).is_some());
    assert!(TimeStamp::new(253_402_300_799, 999_999_999, 0).is_some());
    assert!(TimeStamp::new(253_402_300_800, 0, 0).is_none());
    assert!(TimeStamp::new(0, 0, 86_400).is_none());
    assert!(TimeStamp::new(0, 0, -86_400).is_none());
    assert!(TimeStamp::new(0, 0, 86_399).is_some());
    assert!(TimeStamp::new(0, 2_000_000_000, 0).is_none());
    assert!(TimeStamp::new(0, 1_000_000_000, 0).is_none());
    assert!(TimeStamp::new(59, 1_000_000_000, 0).is_some());
    assert!(TimeStamp::new(-1, 1_500_000_000, 0).is_some());
    assert!(TimeStamp::new(i64::MAX, 0, 0).is_none());
    assert!(TimeStamp::new(i64::MIN, 0, 0).is_none());
    assert_eq!(
        DateTimePrefix::new(TimeStamp::new(-62_167_219_200, 0, 0).unwrap()).to_str(),
        "1AAG0000-01-01T00c00c00d000000p00c00"
    );
    assert_eq!(
        DateTimePrefix::new(TimeStamp::new(253_402_300_799, 999_999_999, 0).unwrap()).to_str(),
        "1AAG9999-12-31T23c59c59d999999p00c00"
    );
}

#[test]
fn leap_second_is_written_and_read() {
    let t = TimeStamp::new(1_483_228_799, 1_250_000_000, 0).unwrap();
    let text = DateTimePrefix::new(t).to_str();
    assert_eq!(text, "1AAG2016-12-31T23c59c60d250000p00c00");
    assert_eq!(DateTimePrefix::from_str(&text).unwrap().datetime(), t);
}

#[test]
fn timestamp_errors() {
    assert_eq!(DateTimePrefix::from_str(""), Err(Error::UnknownPrefixCode));
    assert_eq!(DateTimePrefix::from_str("D2020"), Err(Error::UnknownPrefixCode));
    assert_eq!(DateTimePrefix::from_str("1AA"), Err(Error::UnknownDerivationCode));
    assert_eq!(
        DateTimePrefix::from_str("1AAA2020-08-22T17c50c09d988921p00c00"),
        Err(Error::UnknownDerivationCode)
    );
    assert_eq!(DateTimePrefix::from_str("1AAG"), Err(Error::TimestampParseError));
    assert_eq!(DateTimePrefix::from_str("1AAGyesterday"), Err(Error::TimestampParseError));
    assert_eq!(
        DateTimePrefix::from_str("1AAG2020-13-22T17c50c09d988921p00c00"),
        Err(Error::TimestampParseError)
    );
}

#[test]
fn substitution_is_undone() {
    let plain = "2020-08-22T17:50:09.988921+00:00";
    let inside = substitute_text(plain);
    assert_eq!(inside, "2020-08-22T17c50c09d988921p00c00");
    assert_eq!(restore_text(&inside), plain);
    assert_eq!(substitute_text("a:b.c+d"), "acbdcpd");
    assert_eq!(restore_text("cdp-x"), ":.+-x");
    assert_eq!(substitute_text(""), "");
}
