use typed_input::{
    read_input_from, read_input_from_tolerant, strip_line_terminator, FailSource, InputError,
    MemSource,
};

/// Source "42\n" with an integer target gives exactly 42.
#[test]
fn scenario_integer_line() {
    let mut reader = MemSource::new("42\n");
    let res: Result<i32, _> = read_input_from(&mut reader, None);
    assert_eq!(res.unwrap(), 42);
}

/// An empty source: the tolerant call gives `Ok(None)` …
#[test]
fn scenario_empty_source_tolerant() {
    let mut reader = MemSource::new("");
    let res: Result<Option<i32>, _> = read_input_from_tolerant(&mut reader, None);
    assert!(matches!(res, Ok(None)));
}

/// … and the non-tolerant call gives `EndOfStream`.
#[test]
fn scenario_empty_source_fail_policy() {
    let mut reader = MemSource::new("");
    let res: Result<i32, _> = read_input_from(&mut reader, None);
    assert!(matches!(res, Err(InputError::Eof)));
}

/// Source "notanumber\n" with an integer target is a parse failure.
#[test]
fn scenario_not_a_number() {
    let mut reader = MemSource::new("notanumber\n");
    let res: Result<i32, _> = read_input_from(&mut reader, None);
    assert!(matches!(res, Err(InputError::Parse(_))));
}

/// Source "hello\r\n" with a text target gives "hello": no trailing
/// carriage return survives the two-character terminator.
#[test]
fn scenario_crlf_text() {
    let mut reader = MemSource::new("hello\r\n");
    let res: Result<String, _> = read_input_from(&mut reader, None);
    assert_eq!(res.unwrap(), "hello");
}

/// A source that fails on its underlying read gives `IoFailure`, under the
/// fail policy …
#[test]
fn scenario_failing_transport_fail_policy() {
    let mut reader = FailSource::new("broken pipe");
    let res: Result<i32, _> = read_input_from(&mut reader, None);
    assert!(matches!(res, Err(InputError::Io(_))));
}

/// … and under the tolerant policy alike, before any parse is attempted.
#[test]
fn scenario_failing_transport_tolerant_policy() {
    let mut reader = FailSource::new("broken pipe");
    let res: Result<Option<i32>, _> = read_input_from_tolerant(&mut reader, None);
    assert!(matches!(res, Err(InputError::Io(_))));
}

/// The tolerant pipeline parses present lines exactly as the fail policy
/// does, and turns only exhaustion into `Ok(None)`.
#[test]
fn tolerant_reads_lines_then_none() {
    let mut reader = MemSource::new("7\n8\n");
    let first: Result<Option<u32>, _> = read_input_from_tolerant(&mut reader, None);
    assert!(matches!(first, Ok(Some(7))));
    let second: Result<Option<u32>, _> = read_input_from_tolerant(&mut reader, None);
    assert!(matches!(second, Ok(Some(8))));
    let third: Result<Option<u32>, _> = read_input_from_tolerant(&mut reader, None);
    assert!(matches!(third, Ok(None)));
}

/// An empty line is a legitimate parse attempt, not end of stream: a text
/// target reads it as the empty string under the tolerant policy.
#[test]
fn tolerant_empty_line_is_empty_string() {
    let mut reader = MemSource::new("\n");
    let res: Result<Option<String>, _> = read_input_from_tolerant(&mut reader, None);
    assert_eq!(res.unwrap(), Some(String::new()));
}

/// Mixed terminators across two lines: each is stripped independently.
#[test]
fn two_lines_mixed_terminators() {
    let mut reader = MemSource::new("first\r\nsecond\n");
    let first: String = read_input_from(&mut reader, None).unwrap();
    assert_eq!(first, "first");
    let second: String = read_input_from(&mut reader, None).unwrap();
    assert_eq!(second, "second");
}

/// A last line without any terminator is still one whole read.
#[test]
fn unterminated_final_line() {
    let mut reader = MemSource::new("12\n34");
    let first: i32 = read_input_from(&mut reader, None).unwrap();
    assert_eq!(first, 12);
    let second: i32 = read_input_from(&mut reader, None).unwrap();
    assert_eq!(second, 34);
}

/// Terminator stripping removes one trailing terminator and nothing else.
#[test]
fn strip_line_terminator_cases() {
    assert_eq!(strip_line_terminator("abc\r\n"), "abc");
    assert_eq!(strip_line_terminator("abc\n"), "abc");
    assert_eq!(strip_line_terminator("abc\r"), "abc");
    assert_eq!(strip_line_terminator("abc"), "abc");
    assert_eq!(strip_line_terminator(""), "");
    assert_eq!(strip_line_terminator("\n"), "");
    assert_eq!(strip_line_terminator("\r\n"), "");
    // Terminator-like characters mid-line stay put.
    assert_eq!(strip_line_terminator("a\rb\nc"), "a\rb\nc");
    // Only one terminator is stripped.
    assert_eq!(strip_line_terminator("abc\n\n"), "abc\n");
    assert_eq!(strip_line_terminator("abc\r\r\n"), "abc\r");
}
