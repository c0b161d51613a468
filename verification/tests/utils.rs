use chrono::NaiveDate;
use tnef::utils::{
    checked_datetime_from_dtr, datetime_from_dtr, make_safe_string, string_from_varlen,
    vec_from_varlen, Dtr, VariableLength,
};
use tnef::TNEFError;

fn dtr(year: u16, month: u16, day: u16, hour: u16, minute: u16, second: u16) -> Dtr {
    Dtr { year, month, day, hour, minute, second, day_of_week: 0 }
}

#[test]
fn field_of_size_zero_is_absent() {
    let empty = VariableLength::new(vec![]);
    assert_eq!(empty.size(), 0);
    assert_eq!(vec_from_varlen(&empty), None);
    assert_eq!(string_from_varlen(&empty), None);
    assert_eq!(vec_from_varlen(&VariableLength::empty()), None);
    assert_eq!(string_from_varlen(&VariableLength::empty()), None);
}

#[test]
fn field_that_is_not_utf8_is_absent_as_text_only() {
    let field = VariableLength::new(vec![b'a', 0xC3, 0x28]);
    assert_eq!(field.size(), 3);
    assert_eq!(string_from_varlen(&field), None);
    assert_eq!(vec_from_varlen(&field), Some(vec![b'a', 0xC3, 0x28]));
}

#[test]
fn field_that_is_utf8_is_present_in_both() {
    let field = VariableLength::new("Grüße".as_bytes().to_vec());
    assert_eq!(string_from_varlen(&field), Some("Grüße".to_string()));
    assert_eq!(vec_from_varlen(&field), Some("Grüße".as_bytes().to_vec()));
    let with_nul = VariableLength::new(vec![b'a', 0, b'b']);
    assert_eq!(string_from_varlen(&with_nul), Some("a\0b".to_string()));
    assert_eq!(with_nul.clone().size(), 3);
}

#[test]
fn safe_string_ends_at_the_first_zero_byte() {
    assert_eq!(make_safe_string(b"abc\0def\0"), "abc");
    assert_eq!(make_safe_string(b"abc"), "abc");
    assert_eq!(make_safe_string(b"\0abc"), "");
    assert_eq!(make_safe_string(b""), "");
    assert_eq!(make_safe_string("né\0".as_bytes()), "né");
}

#[test]
fn safe_string_replaces_what_is_not_utf8() {
    assert_eq!(make_safe_string(&[b'a', 0xff, b'b']), "a\u{fffd}b");
    assert_eq!(make_safe_string(&[0xC3, 0, b'x']), "\u{fffd}");
}

#[test]
fn datetime_of_a_calendar_record() {
    let expected = NaiveDate::from_ymd_opt(2021, 2, 28).unwrap().and_hms_opt(23, 59, 59).unwrap();
    assert!(dtr(2021, 2, 28, 23, 59, 59).is_valid());
    assert_eq!(datetime_from_dtr(dtr(2021, 2, 28, 23, 59, 59)), expected);
    assert_eq!(checked_datetime_from_dtr(dtr(2021, 2, 28, 23, 59, 59)), Some(expected));
    let first = NaiveDate::from_ymd_opt(0, 1, 1).unwrap().and_hms_opt(0, 0, 0).unwrap();
    assert_eq!(checked_datetime_from_dtr(dtr(0, 1, 1, 0, 0, 0)), Some(first));
    let late = NaiveDate::from_ymd_opt(65535, 12, 31).unwrap().and_hms_opt(0, 0, 0).unwrap();
    assert_eq!(checked_datetime_from_dtr(dtr(65535, 12, 31, 0, 0, 0)), Some(late));
}

#[test]
fn record_that_names_no_date_has_no_datetime() {
    assert_eq!(checked_datetime_from_dtr(Dtr::zero()), None);
    assert_eq!(checked_datetime_from_dtr(dtr(2021, 2, 29, 0, 0, 0)), None);
    assert_eq!(checked_datetime_from_dtr(dtr(1900, 2, 29, 0, 0, 0)), None);
    assert_eq!(checked_datetime_from_dtr(dtr(2021, 13, 1, 0, 0, 0)), None);
    assert_eq!(checked_datetime_from_dtr(dtr(2021, 0, 1, 0, 0, 0)), None);
    assert_eq!(checked_datetime_from_dtr(dtr(2021, 4, 31, 0, 0, 0)), None);
    assert_eq!(checked_datetime_from_dtr(dtr(2021, 1, 0, 0, 0, 0)), None);
    assert_eq!(checked_datetime_from_dtr(dtr(2021, 1, 1, 24, 0, 0)), None);
    assert_eq!(checked_datetime_from_dtr(dtr(2021, 1, 1, 0, 60, 0)), None);
    assert_eq!(checked_datetime_from_dtr(dtr(2021, 1, 1, 0, 0, 60)), None);
    assert!(checked_datetime_from_dtr(dtr(2000, 2, 29, 0, 0, 0)).is_some());
    assert!(checked_datetime_from_dtr(dtr(2024, 2, 29, 0, 0, 0)).is_some());
}

#[test]
fn validity_agrees_with_the_calendar() {
    for year in [0u16, 1, 4, 100, 400, 1900, 1999, 2000, 2023, 2024, 2100, 65535] {
        for month in 0u16..=13 {
            for day in 0u16..=32 {
                let ours = dtr(year, month, day, 12, 0, 0).is_valid();
                let theirs =
                    NaiveDate::from_ymd_opt(year as i32, month as u32, day as u32).is_some();
                assert_eq!(ours, theirs, "{}-{}-{}", year, month, day);
            }
        }
    }
    for hour in 0u16..=25 {
        for minute in [0u16, 59, 60] {
            for second in [0u16, 59, 60, 61] {
                let ours = dtr(2020, 1, 1, hour, minute, second).is_valid();
                let theirs = chrono::NaiveTime::from_hms_opt(
                    hour as u32,
                    minute as u32,
                    second as u32,
                )
                .is_some();
                assert_eq!(ours, theirs, "{}:{}:{}", hour, minute, second);
            }
        }
    }
}

#[test]
fn error_of_each_code() {
    assert_eq!(TNEFError::from(-1), TNEFError::CannotInitData);
    assert_eq!(TNEFError::from(-2), TNEFError::NotTnefStream);
    assert_eq!(TNEFError::from(-3), TNEFError::ErrorReadingData);
    assert_eq!(TNEFError::from(-4), TNEFError::NoKey);
    assert_eq!(TNEFError::from(-5), TNEFError::BadChecksum);
    assert_eq!(TNEFError::from(-6), TNEFError::ErrorInHandler);
    assert_eq!(TNEFError::from(-7), TNEFError::UnknownProperty);
    assert_eq!(TNEFError::from(-8), TNEFError::IncorrectSetup);
    assert_eq!(TNEFError::from(-9), TNEFError::UnknownError);
    assert_eq!(TNEFError::from(-10), TNEFError::UnknownError);
    assert_eq!(TNEFError::from(0), TNEFError::UnknownError);
    assert_eq!(TNEFError::from(1), TNEFError::UnknownError);
    assert_eq!(TNEFError::from(i32::MIN), TNEFError::UnknownError);
    let e: TNEFError = (-5).into();
    assert_eq!(e, TNEFError::BadChecksum);
}

#[test]
fn code_of_each_error() {
    for code in -9..=-1 {
        assert_eq!(TNEFError::from(code).code(), code);
    }
}

#[test]
fn errors_are_ordered_by_their_codes() {
    assert!(TNEFError::CannotInitData > TNEFError::NotTnefStream);
    assert!(TNEFError::NotTnefStream > TNEFError::ErrorReadingData);
    assert!(TNEFError::IncorrectSetup > TNEFError::UnknownError);
    for a in -9..=-1 {
        for b in -9..=-1 {
            assert_eq!(TNEFError::from(a).cmp(&TNEFError::from(b)), a.cmp(&b));
        }
    }
}

#[test]
fn text_of_each_error() {
    assert_eq!(TNEFError::CannotInitData.to_string(), "Cannot initialize data (255)");
    assert_eq!(TNEFError::NotTnefStream.to_string(), "Not a TNEF stream (254)");
    assert_eq!(TNEFError::ErrorReadingData.to_string(), "Error reading data (253)");
    assert_eq!(TNEFError::NoKey.to_string(), "No key (252)");
    assert_eq!(TNEFError::BadChecksum.to_string(), "Bad checksum (251)");
    assert_eq!(TNEFError::ErrorInHandler.to_string(), "Error in I/O handler (250)");
    assert_eq!(TNEFError::UnknownProperty.to_string(), "Unkown property (249)");
    assert_eq!(TNEFError::IncorrectSetup.to_string(), "Incorrect setup (248)");
    assert_eq!(TNEFError::UnknownError.to_string(), "Unkown error (247)");
}
