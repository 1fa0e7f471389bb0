use hl7_ls::diagnostics::{parse_error_to_diagnostic, translate, ParseFailure, Severity};
use hl7_ls::message::Span;
use hl7_ls::utils::{Position, Range};
use hl7_ls::validation::{ValidationCode, ValidationError};

#[test]
fn a_finding_becomes_a_diagnostic() {
    let text = "MSH|a\r\nPID|12a|b";
    let error = ValidationError::new(
        ValidationCode::InvalidDataType("not a number"),
        "Invalid numeric value: 12a".to_string(),
        Span { start: 11, end: 14 },
        Severity::Warning,
    );
    let d = error.into_diagnostic(text);
    assert_eq!(
        d.range,
        Range {
            start: Position { line: 1, character: 4 },
            end: Position { line: 1, character: 7 }
        }
    );
    assert_eq!(d.severity, Severity::Warning);
    assert_eq!(d.message, "Invalid numeric value: 12a");
    assert_eq!(d.code, Some("data type (not a number)".to_string()));
}

#[test]
fn codes_have_stable_texts() {
    assert_eq!(ValidationCode::MessageStructure.to_string(), "message structure");
    assert_eq!(ValidationCode::InvalidTableValue.to_string(), "table value");
    assert_eq!(ValidationCode::InvalidTimestamp.to_string(), "timestamp");
    assert_eq!(ValidationCode::InvalidLength.to_string(), "length");
    assert_eq!(ValidationCode::InvalidOptionality.to_string(), "optionality");
    assert_eq!(ValidationCode::InvalidDataType("x").to_string(), "data type (x)");
}

#[test]
fn findings_are_translated_in_order() {
    let text = "ab\ncd";
    let errors = vec![
        ValidationError::new(
            ValidationCode::MessageStructure,
            "one".to_string(),
            Span { start: 0, end: 0 },
            Severity::Warning,
        ),
        ValidationError::new(
            ValidationCode::InvalidLength,
            "two".to_string(),
            Span { start: 3, end: 5 },
            Severity::Info,
        ),
    ];
    let ds = translate(errors, text);
    assert_eq!(ds.len(), 2);
    assert_eq!(ds[0].message, "one");
    assert_eq!(ds[0].range.start, Position { line: 0, character: 0 });
    assert_eq!(ds[0].range.end, Position { line: 0, character: 0 });
    assert_eq!(ds[1].message, "two");
    assert_eq!(ds[1].severity, Severity::Info);
    assert_eq!(ds[1].range.start, Position { line: 1, character: 0 });
    assert_eq!(ds[1].range.end, Position { line: 1, character: 2 });
    assert!(translate(vec![], text).is_empty());
}

#[test]
fn a_parse_failure_becomes_one_error() {
    let text = "MSH|a\rPI";
    let d = parse_error_to_diagnostic(
        text,
        ParseFailure::FailedToParse { position: 6, message: "failed at 6".to_string() },
    );
    assert_eq!(d.severity, Severity::Error);
    assert_eq!(d.message, "failed at 6");
    assert_eq!(d.code, None);
    assert_eq!(d.range.start, Position { line: 1, character: 0 });
    assert_eq!(d.range.end, Position { line: 1, character: 1 });
    let d = parse_error_to_diagnostic(
        text,
        ParseFailure::IncompleteInput { message: "incomplete".to_string() },
    );
    assert_eq!(d.range.start, Position { line: 1, character: 2 });
    assert_eq!(d.range.end, Position { line: 1, character: 3 });
    assert_eq!(d.message, "incomplete");
}
