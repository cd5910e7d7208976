//! Text taken out of bytes: decoding, trimming, comparing.
use vstd::prelude::*;
use vstd::string::StringSliceAdditionalSpecFns;
use vstd::utf8::{decode_utf8, valid_utf8};

verus! {

/// The characters that Unicode gives the property `White_Space`.
pub open spec fn is_white_space(c: char) -> bool {
    let n = c as u32;
    ||| 0x09 <= n <= 0x0d
    ||| n == 0x20
    ||| n == 0x85
    ||| n == 0xa0
    ||| n == 0x1680
    ||| 0x2000 <= n <= 0x200a
    ||| n == 0x2028
    ||| n == 0x2029
    ||| n == 0x202f
    ||| n == 0x205f
    ||| n == 0x3000
}

/// `s` without the white space at its start.
pub open spec fn trim_start(s: Seq<char>) -> Seq<char>
    decreases s.len(),
{
    if s.len() > 0 && is_white_space(s[0]) {
        trim_start(s.drop_first())
    } else {
        s
    }
}

/// `s` without the white space at its end.
pub open spec fn trim_end(s: Seq<char>) -> Seq<char>
    decreases s.len(),
{
    if s.len() > 0 && is_white_space(s.last()) {
        trim_end(s.drop_last())
    } else {
        s
    }
}

/// `s` without the white space at either end.
pub open spec fn trim(s: Seq<char>) -> Seq<char> {
    trim_end(trim_start(s))
}

/// The text that a field of bytes holds: its characters with the white space
/// at both ends taken off, or nothing where the bytes are not UTF-8.
pub open spec fn field_text(b: Seq<u8>) -> Option<Seq<char>> {
    if valid_utf8(b) {
        Some(trim(decode_utf8(b)))
    } else {
        None
    }
}

/// One character for each byte, with the byte's value as its code point.
pub open spec fn latin1(b: Seq<u8>) -> Seq<char> {
    Seq::new(b.len(), |i: int| b[i] as char)
}

/// `std::str::from_utf8`: the same bytes read as text, when and only when
/// they are well-formed UTF-8.
#[verifier::external_body]
pub(crate) fn utf8_str<'a>(b: &'a [u8]) -> (r: Option<&'a str>)
    ensures
        r is Some <==> valid_utf8(b@),
        r matches Some(s) ==> s.spec_bytes() == b@,
{
    match std::str::from_utf8(b) {
        Ok(s) => Some(s),
        Err(_) => None,
    }
}

/// `str::trim`: the slice between the leading and the trailing white space,
/// white space being what Unicode calls `White_Space`.
#[verifier::external_body]
pub(crate) fn trim_str<'a>(s: &'a str) -> (r: &'a str)
    ensures
        r@ == trim(s@),
{
    s.trim()
}

/// `String::push`: the character is appended.
#[verifier::external_body]
pub(crate) fn push_char(s: &mut String, c: char)
    ensures
        final(s)@ == old(s)@.push(c),
{
    s.push(c)
}

/// Whether two texts hold the same characters.
pub fn text_eq(a: &str, b: &str) -> (r: bool)
    ensures
        r == (a@ == b@),
{
    let x = a.to_owned();
    let y = b.to_owned();
    x == y
}

/// The trimmed text of a field, where the field is UTF-8.
pub fn read_field<'a>(b: &'a [u8]) -> (r: Option<&'a str>)
    ensures
        r is Some <==> field_text(b@) is Some,
        r matches Some(s) ==> Some(s@) == field_text(b@),
{
    match utf8_str(b) {
        Some(s) => {
            proof {
                vstd::utf8::encode_utf8_decode_utf8(s@);
            }
            Some(trim_str(s))
        },
        None => None,
    }
}

/// The text whose characters have the bytes' values as code points.
pub fn latin1_string(b: &[u8]) -> (r: String)
    ensures
        r@ == latin1(b@),
{
    let mut out = String::new();
    let mut i: usize = 0;
    while i < b.len()
        invariant
            i <= b.len(),
            out@ == latin1(b@.take(i as int)),
        decreases b.len() - i,
    {
        push_char(&mut out, b[i] as char);
        proof {
            assert(latin1(b@.take(i + 1)) =~= latin1(b@.take(i as int)).push(b@[i as int] as char));
        }
        i += 1;
    }
    proof {
        assert(b@.take(b.len() as int) == b@);
    }
    out
}

} // verus!
