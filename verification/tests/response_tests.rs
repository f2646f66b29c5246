use listing_core::numfmt::{u64_to_dec, u64_to_dec2};
use listing_core::response::{parse_validation_error_message, write_outcome, AppError};

#[test]
fn status_codes_per_variant() {
    assert_eq!(AppError::InvalidRequest(Vec::new()).status_code(), 400);
    assert_eq!(AppError::DataExist.status_code(), 400);
    assert_eq!(AppError::NotFound.status_code(), 404);
    assert_eq!(AppError::InternalServerError.status_code(), 500);
    assert_eq!(AppError::Other("boom".to_string()).status_code(), 500);
}

#[test]
fn error_texts_per_variant() {
    assert_eq!(AppError::DataExist.error_text(), Some("resource exist".to_string()));
    assert_eq!(AppError::NotFound.error_text(), Some("resource not found".to_string()));
    assert_eq!(
        AppError::InternalServerError.error_text(),
        Some("internal server error".to_string())
    );
    assert_eq!(
        AppError::Other("query failed: timeout".to_string()).error_text(),
        Some("query failed: timeout".to_string())
    );
    assert_eq!(AppError::InvalidRequest(Vec::new()).error_text(), None);
}

#[test]
fn write_outcome_reports_touched_rows() {
    assert_eq!(write_outcome(0), None);
    assert_eq!(write_outcome(1), Some(()));
    assert_eq!(write_outcome(7), Some(()));
}

#[test]
fn single_report_line_splits_at_the_separator() {
    let parsed = parse_validation_error_message("fullname: must be greater than 3 chars");
    assert_eq!(
        parsed,
        vec![("fullname".to_string(), "must be greater than 3 chars".to_string())]
    );
}

#[test]
fn several_report_lines_keep_their_order() {
    let parsed = parse_validation_error_message("id: mandatory\nfullname: mandatory");
    assert_eq!(
        parsed,
        vec![
            ("id".to_string(), "mandatory".to_string()),
            ("fullname".to_string(), "mandatory".to_string()),
        ]
    );
}

#[test]
fn repeated_field_keeps_its_place_with_the_later_message() {
    let parsed = parse_validation_error_message("id: first\nname: other\nid: second");
    assert_eq!(
        parsed,
        vec![
            ("id".to_string(), "second".to_string()),
            ("name".to_string(), "other".to_string()),
        ]
    );
}

#[test]
fn message_stops_at_the_next_separator() {
    let parsed = parse_validation_error_message("a: b: c");
    assert_eq!(parsed, vec![("a".to_string(), "b".to_string())]);
}

#[test]
fn windows_line_endings_are_handled() {
    let parsed = parse_validation_error_message("id: mandatory\r\nname: short\r\n");
    assert_eq!(
        parsed,
        vec![
            ("id".to_string(), "mandatory".to_string()),
            ("name".to_string(), "short".to_string()),
        ]
    );
}

#[test]
fn empty_report_has_no_entries() {
    assert_eq!(parse_validation_error_message(""), Vec::new());
}

#[test]
fn decimal_rendering() {
    assert_eq!(u64_to_dec(0), "0");
    assert_eq!(u64_to_dec(9), "9");
    assert_eq!(u64_to_dec(10), "10");
    assert_eq!(u64_to_dec(12345), "12345");
    assert_eq!(u64_to_dec(u64::MAX), "18446744073709551615");
}

#[test]
fn two_digit_rendering_pads_below_ten() {
    assert_eq!(u64_to_dec2(0), "00");
    assert_eq!(u64_to_dec2(7), "07");
    assert_eq!(u64_to_dec2(10), "10");
    assert_eq!(u64_to_dec2(123), "123");
}
