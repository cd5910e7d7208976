//! Dates and times of day, read by `chrono`.
use vstd::prelude::*;

verus! {

/// What `chrono` makes of `text` under `format`, read as UTC: the seconds
/// since the start of 1970 without leap seconds, and the milliseconds since
/// the last full second. Nothing where `chrono` refuses the text.
pub uninterp spec fn parsed_instant(text: Seq<char>, format: Seq<char>) -> Option<(i64, u32)>;

/// `chrono::NaiveDateTime::parse_from_str`, then `DateTime::timestamp` and
/// `DateTime::timestamp_subsec_millis` of the result taken as UTC. The
/// contract only gives the outcome a name: it is a function of the two
/// texts.
#[verifier::external_body]
pub(crate) fn parse_instant(text: &str, format: &str) -> (r: Result<
    (i64, u32),
    chrono::ParseError,
>)
    ensures
        r matches Ok(v) ==> parsed_instant(text@, format@) == Some(v),
        r is Err ==> parsed_instant(text@, format@) is None,
{
    let naive = chrono::NaiveDateTime::parse_from_str(text, format)?;
    let utc = chrono::DateTime::<chrono::Utc>::from_naive_utc_and_offset(naive, chrono::Utc);
    Ok((utc.timestamp(), utc.timestamp_subsec_millis()))
}

} // verus!
