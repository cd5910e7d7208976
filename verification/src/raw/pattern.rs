//! Regular expressions, compiled and run by `regex`.
use vstd::prelude::*;

verus! {

/// Whether `regex` compiles the pattern.
pub uninterp spec fn pattern_compiles(pattern: Seq<char>) -> bool;

/// What the leftmost match of the pattern in `text` captures: nothing where
/// there is no match, else what the first group holds, which is nothing where
/// the group took no part in the match.
pub uninterp spec fn first_group(pattern: Seq<char>, text: Seq<char>) -> Option<
    Option<Seq<char>>,
>;

/// The views of a capture.
pub open spec fn group_view(g: Option<Option<String>>) -> Option<Option<Seq<char>>> {
    match g {
        None => None,
        Some(None) => Some(None),
        Some(Some(s)) => Some(Some(s@)),
    }
}

/// `Regex::new`, then `Regex::captures` and `Captures::get(1)`. Whether the
/// pattern compiles depends on the pattern alone; the text of the first
/// group of the leftmost match depends on the pattern and the text alone.
/// The contract only gives the two outcomes their names.
#[verifier::external_body]
pub(crate) fn capture_first(pattern: &str, text: &str) -> (r: Result<
    Option<Option<String>>,
    regex::Error,
>)
    ensures
        r is Ok <==> pattern_compiles(pattern@),
        r matches Ok(g) ==> group_view(g) == first_group(pattern@, text@),
{
    let re = regex::Regex::new(pattern)?;
    Ok(re.captures(text).map(|c| c.get(1).map(|m| m.as_str().to_string())))
}

} // verus!
