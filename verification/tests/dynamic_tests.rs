use sqlx_data_parser::dynamic::{
    validate_fields, DynamicError, ParamsSummary, SortCheck, MAX_CURSOR_FIELDS,
};
use sqlx_data_parser::error::{placeholder_prefix, ParserError};
use sqlx_data_parser::test_framework::TestError;

fn params(sort: Option<SortCheck>, cursor_fields: Option<usize>) -> ParamsSummary {
    ParamsSummary { sort, cursor_fields }
}

#[test]
fn test_validate_fields_with_safe_sorts() {
    let p = params(Some(SortCheck { has_unsafe_fields: false, whitelist_check: Ok(()) }), None);
    assert!(validate_fields(&p).is_ok());
}

#[test]
fn test_validate_fields_with_valid_unsafe_sorts() {
    let p = params(Some(SortCheck { has_unsafe_fields: true, whitelist_check: Ok(()) }), None);
    assert!(validate_fields(&p).is_ok());
}

#[test]
fn test_validate_fields_with_invalid_unsafe_sorts() {
    let p = params(
        Some(SortCheck {
            has_unsafe_fields: true,
            whitelist_check: Err("field 'malicious_field' is not allowed".to_string()),
        }),
        None,
    );
    let result = validate_fields(&p);
    assert!(result.is_err());
    let error_msg = result.unwrap_err().to_string();
    assert!(error_msg.contains("Sort validation failed"));
    assert!(error_msg.contains("malicious_field"));
}

#[test]
fn validate_fields_safe_sort_ignores_whitelist_outcome() {
    let p = params(
        Some(SortCheck { has_unsafe_fields: false, whitelist_check: Err("x".to_string()) }),
        None,
    );
    assert!(validate_fields(&p).is_ok());
}

#[test]
fn test_validate_fields_with_no_sorts() {
    assert!(validate_fields(&params(None, None)).is_ok());
}

#[test]
fn test_validate_fields_with_mixed_safe_unsafe() {
    let p = params(Some(SortCheck { has_unsafe_fields: true, whitelist_check: Ok(()) }), None);
    assert!(validate_fields(&p).is_ok());
}

#[test]
fn test_validate_fields_with_valid_cursor() {
    assert!(validate_fields(&params(None, Some(3))).is_ok());
}

#[test]
fn test_validate_fields_with_oversized_cursor() {
    let p = params(None, Some(15));
    let result = validate_fields(&p);
    assert!(result.is_err());
    let error_msg = result.unwrap_err().to_string();
    assert!(error_msg.contains("Cursor too large"));
    assert!(error_msg.contains("15 fields"));
    assert!(error_msg.contains("max 10"));
    let result = validate_fields(&p);
    assert!(result.is_err());
    let error_msg = result.unwrap_err().to_string();
    assert!(error_msg.contains("Cursor too large"));
    assert!(error_msg.contains("15 fields"));
    assert!(error_msg.contains("max 10"));
    assert_eq!(error_msg, "Cursor too large: 15 fields (max 10)");
}

#[test]
fn test_validate_fields_with_cursor_at_limit() {
    assert!(validate_fields(&params(None, Some(MAX_CURSOR_FIELDS))).is_ok());
    assert!(validate_fields(&params(None, Some(MAX_CURSOR_FIELDS + 1))).is_err());
}

#[test]
fn test_validate_fields_with_empty_cursor() {
    let p = params(None, Some(0));
    assert!(validate_fields(&p).is_ok());
    assert!(validate_fields(&p).is_ok());
}

#[test]
fn test_decode_rejects_oversized_cursor() {
    let result = validate_fields(&params(None, Some(20)));
    assert!(result.is_err());
    let error_msg = result.unwrap_err().to_string();
    assert!(error_msg.contains("Cursor too large"));
    assert!(error_msg.contains("20 fields"));
    assert!(error_msg.contains("max 10"));
}

#[test]
fn validate_fields_sort_error_comes_first() {
    let p = params(
        Some(SortCheck { has_unsafe_fields: true, whitelist_check: Err("bad".to_string()) }),
        Some(50),
    );
    assert_eq!(validate_fields(&p).unwrap_err().to_string(), "Sort validation failed: bad");
}

#[test]
fn parser_error_messages() {
    assert_eq!(
        ParserError::parse_sql("boom").to_string(),
        "error occurred while parsing SQL: boom"
    );
    assert_eq!(ParserError::error("bad").to_string(), "bad");
    assert_eq!(ParserError::invalid_argument("arg").to_string(), "arg");
}

#[test]
fn parser_error_becomes_protocol_error() {
    match DynamicError::from_parser_error(ParserError::error("x")) {
        DynamicError::Protocol(m) => assert_eq!(m, "x"),
        _ => panic!("expected a protocol error"),
    }
}

#[test]
fn test_error_messages() {
    assert_eq!(TestError::ParseError("a".to_string()).to_string(), "Parse error: a");
    assert_eq!(TestError::AssertionError("b".to_string()).to_string(), "Assertion failed: b");
    assert_eq!(
        TestError::CodeGenerationError("c".to_string()).to_string(),
        "Code generation error: c"
    );
}

#[test]
fn default_placeholder_prefix() {
    assert_eq!(placeholder_prefix(), "$");
}
