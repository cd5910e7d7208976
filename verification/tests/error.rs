use doprs::raw::error::{kind_text, ErrorKind, RawParseError};

#[test]
fn a_new_failure_says_nothing() {
    let e = RawParseError::new();
    assert_eq!(e.kind(), ErrorKind::Unspecified);
    assert_eq!(e.message(), "");
    assert_eq!(e.to_string(), "RawParseError: ");
    assert_eq!(RawParseError::default(), e);
}

#[test]
fn a_failure_from_a_message() {
    let e = RawParseError::from(String::from("broken"));
    assert_eq!(e.kind(), ErrorKind::Unspecified);
    assert_eq!(e.message(), "broken");
    assert_eq!(e.to_string(), "RawParseError: broken");
    let e = RawParseError::with_message(ErrorKind::Io, String::from("no such file"));
    assert_eq!(e.kind(), ErrorKind::Io);
    assert_eq!(e.to_string(), "RawParseError: no such file");
}

#[test]
fn every_kind_has_its_message() {
    let kinds = [
        (ErrorKind::Unspecified, ""),
        (ErrorKind::Io, "Cannot read the content"),
        (ErrorKind::Encoding, "UTF-8 conversion error"),
        (ErrorKind::Number, "Parse float error"),
        (ErrorKind::DateTime, "Parse datetime error"),
        (ErrorKind::Pattern, "Pattern does not compile"),
        (ErrorKind::DataShape, "Unexpected data shape"),
        (ErrorKind::HeaderLine, "Unexpected header line"),
        (ErrorKind::KeyValue, "Unexpected (key,val) pair in header"),
        (ErrorKind::NoProfiles, "Zero complete profiles found"),
        (ErrorKind::Columns, "Unexpected number of columns"),
        (
            ErrorKind::ColumnMismatch,
            "Number of columns on header and number of columns in data mismatch",
        ),
        (ErrorKind::StateToken, "Unexpected value for Wiper state"),
    ];
    for (kind, text) in kinds {
        assert_eq!(kind_text(kind), text);
        let e = RawParseError::of_kind(kind);
        assert_eq!(e.kind(), kind);
        assert_eq!(e.message(), text);
    }
}

#[test]
fn outside_failures_keep_their_words() {
    let e = chrono::NaiveDateTime::parse_from_str("x", "%Y").unwrap_err();
    let ours = RawParseError::from_datetime(&e);
    assert_eq!(ours.kind(), ErrorKind::DateTime);
    assert_eq!(ours.message(), e.to_string());
    let e = regex::Regex::new("(").unwrap_err();
    let ours = RawParseError::from_pattern(&e);
    assert_eq!(ours.kind(), ErrorKind::Pattern);
    assert_eq!(ours.message(), e.to_string());
}
