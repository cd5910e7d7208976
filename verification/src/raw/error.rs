//! The one failure type of the decoders.
use vstd::prelude::*;
use vstd::std_specs::convert::FromSpecImpl;
use vstd::string::StringExecFns;

verus! {

/// `chrono::ParseError`, carried through and never looked into.
#[verifier::external_type_specification]
#[verifier::external_body]
pub struct ExChronoParseError(chrono::ParseError);

/// `regex::Error`, carried through and never looked into.
#[verifier::external_type_specification]
#[verifier::external_body]
pub struct ExRegexError(regex::Error);

/// What went wrong. A decode ends at the first failure, so one kind is all
/// that a caller ever sees of a file.
#[derive(Debug, Clone, Copy, PartialEq, Eq, Structural)]
pub enum ErrorKind {
    /// Built from a bare message.
    Unspecified,
    /// The content could not be read.
    Io,
    /// Bytes that should be text are not UTF-8.
    Encoding,
    /// A value that must be a number is not one.
    Number,
    /// A date or a time does not follow its format.
    DateTime,
    /// A pattern does not compile.
    Pattern,
    /// The data shape is not valid.
    DataShape,
    /// A header line without a key is none of the known annotations.
    HeaderLine,
    /// A header line has a key that is not known.
    KeyValue,
    /// The data hold less than one whole profile.
    NoProfiles,
    /// A data row has another number of columns than the first one.
    Columns,
    /// The banner names another number of columns than the rows have.
    ColumnMismatch,
    /// The state column holds a token that is no state.
    StateToken,
}

/// A failed decode: its kind, and a message for people.
#[derive(Debug, Clone, PartialEq, Eq)]
pub struct RawParseError {
    kind: ErrorKind,
    message: String,
}

impl RawParseError {
    /// What went wrong.
    pub closed spec fn spec_kind(&self) -> ErrorKind {
        self.kind
    }

    /// The message for people.
    pub closed spec fn spec_message(&self) -> Seq<char> {
        self.message@
    }

    /// The failure without a message.
    pub fn new() -> (r: Self)
        ensures
            r.spec_kind() == ErrorKind::Unspecified,
            r.spec_message() == Seq::<char>::empty(),
    {
        RawParseError { kind: ErrorKind::Unspecified, message: String::new() }
    }

    /// A failure of the given kind with the given message.
    pub fn with_message(kind: ErrorKind, message: String) -> (r: Self)
        ensures
            r.spec_kind() == kind,
            r.spec_message() == message@,
    {
        RawParseError { kind, message }
    }

    /// A failure of the given kind with the message that goes with the kind.
    pub fn of_kind(kind: ErrorKind) -> (r: Self)
        ensures
            r.spec_kind() == kind,
            r.spec_message() == spec_kind_text(kind)@,
    {
        RawParseError { kind, message: String::from_str(kind_text(kind)) }
    }

    /// A date or time that `chrono` refused, with `chrono`'s own words.
    pub fn from_datetime(e: &chrono::ParseError) -> (r: Self)
        ensures
            r.spec_kind() == ErrorKind::DateTime,
    {
        RawParseError { kind: ErrorKind::DateTime, message: e.to_string() }
    }

    /// A pattern that `regex` refused, with `regex`'s own words.
    pub fn from_pattern(e: &regex::Error) -> (r: Self)
        ensures
            r.spec_kind() == ErrorKind::Pattern,
    {
        RawParseError { kind: ErrorKind::Pattern, message: e.to_string() }
    }

    /// What went wrong.
    #[verifier::when_used_as_spec(spec_kind)]
    pub fn kind(&self) -> (r: ErrorKind)
        ensures
            r == self.spec_kind(),
    {
        self.kind
    }

    /// The message for people.
    pub fn message(&self) -> (r: &str)
        ensures
            r@ == self.spec_message(),
    {
        self.message.as_str()
    }

    /// The message behind the type's name, as it is shown to people.
    pub fn to_string(&self) -> (r: String)
        ensures
            r@ == "RawParseError: "@ + self.spec_message(),
    {
        let mut out = String::from_str("RawParseError: ");
        out.append(self.message.as_str());
        out
    }
}

/// The message that goes with a kind.
pub fn kind_text(kind: ErrorKind) -> (r: &'static str)
    ensures
        r@ == spec_kind_text(kind)@,
{
    match kind {
        ErrorKind::Unspecified => "",
        ErrorKind::Io => "Cannot read the content",
        ErrorKind::Encoding => "UTF-8 conversion error",
        ErrorKind::Number => "Parse float error",
        ErrorKind::DateTime => "Parse datetime error",
        ErrorKind::Pattern => "Pattern does not compile",
        ErrorKind::DataShape => "Unexpected data shape",
        ErrorKind::HeaderLine => "Unexpected header line",
        ErrorKind::KeyValue => "Unexpected (key,val) pair in header",
        ErrorKind::NoProfiles => "Zero complete profiles found",
        ErrorKind::Columns => "Unexpected number of columns",
        ErrorKind::ColumnMismatch =>
            "Number of columns on header and number of columns in data mismatch",
        ErrorKind::StateToken => "Unexpected value for Wiper state",
    }
}

/// The message that goes with a kind.
pub open spec fn spec_kind_text(kind: ErrorKind) -> &'static str {
    match kind {
        ErrorKind::Unspecified => "",
        ErrorKind::Io => "Cannot read the content",
        ErrorKind::Encoding => "UTF-8 conversion error",
        ErrorKind::Number => "Parse float error",
        ErrorKind::DateTime => "Parse datetime error",
        ErrorKind::Pattern => "Pattern does not compile",
        ErrorKind::DataShape => "Unexpected data shape",
        ErrorKind::HeaderLine => "Unexpected header line",
        ErrorKind::KeyValue => "Unexpected (key,val) pair in header",
        ErrorKind::NoProfiles => "Zero complete profiles found",
        ErrorKind::Columns => "Unexpected number of columns",
        ErrorKind::ColumnMismatch =>
            "Number of columns on header and number of columns in data mismatch",
        ErrorKind::StateToken => "Unexpected value for Wiper state",
    }
}

impl Default for RawParseError {
    fn default() -> (r: Self)
        ensures
            r.spec_kind() == ErrorKind::Unspecified,
            r.spec_message() == Seq::<char>::empty(),
    {
        Self::new()
    }
}

impl From<String> for RawParseError {
    fn from(s: String) -> (r: RawParseError) {
        RawParseError { kind: ErrorKind::Unspecified, message: s }
    }
}

impl FromSpecImpl<String> for RawParseError {
    open spec fn obeys_from_spec() -> bool {
        true
    }

    closed spec fn from_spec(s: String) -> RawParseError {
        RawParseError { kind: ErrorKind::Unspecified, message: s }
    }
}

} // verus!
