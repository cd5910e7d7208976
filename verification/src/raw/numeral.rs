//! Numbers as the instruments write them.
//!
//! A reading is kept in its decimal notation. A text is a reading exactly when
//! the standard parser of doubles accepts it, so a caller can turn every
//! [`Numeral`] into a double without a failure to handle.
use vstd::prelude::*;
use vstd::string::StringSliceAdditionalSpecFns;
use crate::raw::scan::{first_index, lemma_first_index_is};
use crate::raw::text::{field_text, read_field};

verus! {

/// The bytes `0` to `9`.
pub open spec fn is_digit(b: u8) -> bool {
    48 <= b <= 57
}

/// The bytes `+` and `-`.
pub open spec fn is_sign(b: u8) -> bool {
    b == 43 || b == 45
}

/// The byte of an ASCII letter in lower case, any other byte unchanged.
pub open spec fn lower(b: u8) -> u8 {
    if 65 <= b <= 90 {
        (b + 32) as u8
    } else {
        b
    }
}

/// How many digits `s` starts with.
pub open spec fn digit_run(s: Seq<u8>) -> int {
    first_index(s, |b: u8| !is_digit(b))
}

/// `s` is `e` or `E`, an optional sign, and one digit or more.
pub open spec fn is_exponent(s: Seq<u8>) -> bool {
    &&& s.len() >= 2
    &&& lower(s[0]) == 101
    &&& {
        let d = if is_sign(s[1]) {
            s.skip(2)
        } else {
            s.skip(1)
        };
        d.len() > 0 && digit_run(d) == d.len()
    }
}

/// `s` is digits with at most one point among them, at least one digit in
/// all, and then nothing or an exponent.
pub open spec fn is_number(s: Seq<u8>) -> bool {
    let whole = digit_run(s);
    let rest = s.skip(whole);
    if rest.len() > 0 && rest[0] == 46 {
        let frac = digit_run(rest.skip(1));
        let tail = rest.skip(1 + frac);
        whole + frac > 0 && (tail.len() == 0 || is_exponent(tail))
    } else {
        whole > 0 && (rest.len() == 0 || is_exponent(rest))
    }
}

/// `s` is `word`, whatever the case of its letters.
pub open spec fn is_word(s: Seq<u8>, word: Seq<u8>) -> bool {
    s.len() == word.len() && forall|i: int| 0 <= i < s.len() ==> lower(#[trigger] s[i]) == word[i]
}

/// The bytes of `inf`.
pub open spec fn word_inf() -> Seq<u8> {
    seq![105u8, 110u8, 102u8]
}

/// The bytes of `infinity`.
pub open spec fn word_infinity() -> Seq<u8> {
    seq![105u8, 110u8, 102u8, 105u8, 110u8, 105u8, 116u8, 121u8]
}

/// The bytes of `nan`.
pub open spec fn word_nan() -> Seq<u8> {
    seq![110u8, 97u8, 110u8]
}

/// `s` without the sign that it may start with.
pub open spec fn unsigned(s: Seq<u8>) -> Seq<u8> {
    if s.len() > 0 && is_sign(s[0]) {
        s.skip(1)
    } else {
        s
    }
}

/// The notation of a double: an optional sign, then `inf`, `infinity` or
/// `nan` in any case, or a number.
pub open spec fn is_float_bytes(s: Seq<u8>) -> bool {
    let u = unsigned(s);
    is_word(u, word_inf()) || is_word(u, word_infinity()) || is_word(u, word_nan()) || is_number(u)
}

/// The bytes of an ASCII text.
pub open spec fn ascii_bytes(t: Seq<char>) -> Seq<u8> {
    Seq::new(t.len(), |i: int| t[i] as u8)
}

/// `t` is written in ASCII and is the notation of a double.
pub open spec fn is_float_text(t: Seq<char>) -> bool {
    vstd::utf8::is_ascii_chars(t) && is_float_bytes(ascii_bytes(t))
}

/// The number that a run of digits writes in base ten.
pub open spec fn decimal_value(s: Seq<u8>) -> nat
    decreases s.len(),
{
    if s.len() == 0 {
        0
    } else {
        decimal_value(s.drop_last()) * 10 + (s.last() - 48) as nat
    }
}

/// What `s` says as an unsigned integer of 64 bits: an optional `+`, then one
/// digit or more, the value within range.
pub open spec fn u64_of_bytes(s: Seq<u8>) -> Option<u64> {
    let d = if s.len() > 0 && s[0] == 43 {
        s.skip(1)
    } else {
        s
    };
    if d.len() > 0 && digit_run(d) == d.len() && decimal_value(d) <= u64::MAX {
        Some(decimal_value(d) as u64)
    } else {
        None
    }
}

/// What the text `t` says as an unsigned integer of 64 bits.
pub open spec fn u64_of_text(t: Seq<char>) -> Option<u64> {
    if vstd::utf8::is_ascii_chars(t) {
        u64_of_bytes(ascii_bytes(t))
    } else {
        None
    }
}

/// Counts the digits of `s` from `from` on.
fn count_digits(s: &[u8], from: usize) -> (r: usize)
    requires
        from <= s.len(),
    ensures
        r == digit_run(s@.skip(from as int)),
        from + r <= s.len(),
{
    let mut i: usize = from;
    while i < s.len() && 48 <= s[i] && s[i] <= 57
        invariant
            from <= i <= s.len(),
            forall|j: int| from <= j < i ==> is_digit(#[trigger] s@[j]),
        decreases s.len() - i,
    {
        i += 1;
    }
    proof {
        let t = s@.skip(from as int);
        let p = |b: u8| !is_digit(b);
        assert forall|j: int| 0 <= j < i - from implies !p(#[trigger] t[j]) by {
            assert(t[j] == s@[from + j]);
        }
        if i < s.len() {
            assert(t[i - from] == s@[i as int]);
        }
        lemma_first_index_is(t, p, i - from);
    }
    i - from
}

fn lower_byte(b: u8) -> (r: u8)
    ensures
        r == lower(b),
{
    if 65 <= b && b <= 90 {
        b + 32
    } else {
        b
    }
}

/// Whether `s` from `from` on is an exponent.
fn exponent_at(s: &[u8], from: usize) -> (r: bool)
    requires
        from <= s.len(),
    ensures
        r == is_exponent(s@.skip(from as int)),
{
    let n = s.len();
    if n - from < 2 {
        return false;
    }
    let ghost t = s@.skip(from as int);
    assert(t[0] == s@[from as int] && t[1] == s@[from + 1]);
    if lower_byte(s[from]) != 101 {
        return false;
    }
    let digits_from = if s[from + 1] == 43 || s[from + 1] == 45 {
        from + 2
    } else {
        from + 1
    };
    let run = count_digits(s, digits_from);
    proof {
        assert(t.skip(digits_from - from) == s@.skip(digits_from as int));
    }
    digits_from < n && digits_from + run == n
}

/// Whether `s` from `from` on is `word` in any case.
fn word_at(s: &[u8], from: usize, word: &[u8]) -> (r: bool)
    requires
        from <= s.len(),
    ensures
        r == is_word(s@.skip(from as int), word@),
{
    let ghost t = s@.skip(from as int);
    if s.len() - from != word.len() {
        return false;
    }
    let mut i: usize = 0;
    while i < word.len()
        invariant
            i <= word.len(),
            from <= s.len(),
            s.len() - from == word.len(),
            t == s@.skip(from as int),
            forall|j: int| 0 <= j < i ==> lower(#[trigger] t[j]) == word@[j],
        decreases word.len() - i,
    {
        assert(t[i as int] == s@[from + i]);
        if lower_byte(s[from + i]) != word[i] {
            return false;
        }
        i += 1;
    }
    true
}

/// Whether `s` from `from` on is a number.
fn number_at(s: &[u8], from: usize) -> (r: bool)
    requires
        from <= s.len(),
    ensures
        r == is_number(s@.skip(from as int)),
{
    let n = s.len();
    let ghost u = s@.skip(from as int);
    let whole = count_digits(s, from);
    let dot = from + whole;
    proof {
        assert(u.skip(whole as int) == s@.skip(dot as int));
        if dot < n {
            assert(s@.skip(dot as int)[0] == s@[dot as int]);
        }
    }
    if dot < n && s[dot] == 46 {
        let frac = count_digits(s, dot + 1);
        let tail = dot + 1 + frac;
        proof {
            assert(s@.skip(dot as int).skip(1) == s@.skip(dot + 1));
            assert(s@.skip(dot as int).skip(1 + frac) == s@.skip(tail as int));
        }
        (whole > 0 || frac > 0) && (tail == n || exponent_at(s, tail))
    } else {
        whole > 0 && (dot == n || exponent_at(s, dot))
    }
}

/// Whether `s` is the notation of a double.
pub fn is_float(s: &[u8]) -> (r: bool)
    ensures
        r == is_float_bytes(s@),
{
    let from: usize = if s.len() > 0 && (s[0] == 43 || s[0] == 45) {
        1
    } else {
        0
    };
    proof {
        assert(s@.skip(0) == s@);
        assert(unsigned(s@) == s@.skip(from as int));
    }
    let inf: [u8; 3] = [105, 110, 102];
    let infinity: [u8; 8] = [105, 110, 102, 105, 110, 105, 116, 121];
    let nan: [u8; 3] = [110, 97, 110];
    proof {
        assert(inf@ =~= word_inf());
        assert(infinity@ =~= word_infinity());
        assert(nan@ =~= word_nan());
    }
    word_at(s, from, inf.as_slice()) || word_at(s, from, infinity.as_slice()) || word_at(
        s,
        from,
        nan.as_slice(),
    ) || number_at(s, from)
}

/// A reading in decimal notation, such as `23.998611`, `-1.5e-6` or `nan`.
#[derive(Debug, PartialEq, Eq)]
pub struct Numeral {
    text: String,
}

impl View for Numeral {
    type V = Seq<char>;

    closed spec fn view(&self) -> Seq<char> {
        self.text@
    }
}

impl Clone for Numeral {
    fn clone(&self) -> (r: Self)
        ensures
            r@ == self@,
    {
        proof {
            use_type_invariant(self);
        }
        Numeral { text: self.text.clone() }
    }
}

impl Numeral {
    #[verifier::type_invariant]
    spec fn well_formed(self) -> bool {
        is_float_text(self.text@)
    }

    /// The reading that `s` writes, where it writes one.
    pub fn parse(s: &str) -> (r: Option<Numeral>)
        ensures
            r is Some <==> is_float_text(s@),
            r matches Some(n) ==> n@ == s@,
    {
        if !s.is_ascii() {
            return None;
        }
        proof {
            vstd::string::is_ascii_spec_bytes(s);
            assert(s.spec_bytes() == ascii_bytes(s@));
        }
        if is_float(s.as_bytes()) {
            Some(Numeral { text: s.to_owned() })
        } else {
            None
        }
    }

    /// The reading zero.
    pub fn zero() -> (r: Numeral)
        ensures
            r@ == "0"@,
    {
        let s = "0";
        proof {
            reveal_strlit("0");
            let b = ascii_bytes(s@);
            assert(b.len() == 1 && b[0] == 48);
            assert(unsigned(b) == b);
            lemma_first_index_is(b, |x: u8| !is_digit(x), 1);
            assert(b.skip(1).len() == 0);
            assert(is_number(b));
        }
        Numeral { text: s.to_owned() }
    }

    /// The notation, which the standard parser of doubles accepts.
    pub fn as_str(&self) -> (r: &str)
        ensures
            r@ == self@,
            is_float_text(r@),
    {
        proof {
            use_type_invariant(self);
        }
        self.text.as_str()
    }
}

/// The notations of a list of readings.
pub open spec fn numerals(v: Seq<Numeral>) -> Seq<Seq<char>> {
    v.map_values(|n: Numeral| n@)
}

/// The notations of a list of readings that may be absent.
pub open spec fn optional_numerals(v: Option<Vec<Numeral>>) -> Option<Seq<Seq<char>>> {
    match v {
        Some(w) => Some(numerals(w@)),
        None => None,
    }
}

/// The reading that a field of bytes writes, where it writes one: the field is
/// UTF-8, and its text without the white space around it is a reading.
pub open spec fn reading_of(field: Seq<u8>) -> Option<Seq<char>> {
    match field_text(field) {
        Some(t) => if is_float_text(t) {
            Some(t)
        } else {
            None
        },
        None => None,
    }
}

/// The reading that a field of bytes writes, where it writes one.
pub fn read_reading(field: &[u8]) -> (r: Option<Numeral>)
    ensures
        match r {
            Some(n) => reading_of(field@) == Some(n@),
            None => reading_of(field@) is None,
        },
{
    match read_field(field) {
        Some(t) => Numeral::parse(t),
        None => None,
    }
}

proof fn lemma_decimal_value_prefix(s: Seq<u8>, k: int)
    requires
        0 <= k <= s.len(),
    ensures
        decimal_value(s.take(k)) <= decimal_value(s),
    decreases s.len() - k,
{
    if k == s.len() {
        assert(s.take(k) == s);
    } else {
        lemma_decimal_value_prefix(s, k + 1);
        assert(s.take(k + 1).drop_last() == s.take(k));
    }
}

/// What `s` says as an unsigned integer of 64 bits.
pub fn parse_u64_bytes(s: &[u8]) -> (r: Option<u64>)
    ensures
        r == u64_of_bytes(s@),
{
    let n = s.len();
    let from: usize = if n > 0 && s[0] == 43 {
        1
    } else {
        0
    };
    let ghost d = s@.skip(from as int);
    proof {
        assert(s@.skip(0) == s@);
    }
    let run = count_digits(s, from);
    if from == n || from + run != n {
        return None;
    }
    let mut acc: u64 = 0;
    let mut i: usize = from;
    assert(d.take(0) == Seq::<u8>::empty());
    while i < n
        invariant
            from <= i <= n,
            n == s@.len(),
            d == s@.skip(from as int),
            u64_of_bytes(s@) == if d.len() > 0 && digit_run(d) == d.len() && decimal_value(d)
                <= u64::MAX {
                Some(decimal_value(d) as u64)
            } else {
                None
            },
            digit_run(d) == d.len(),
            acc == decimal_value(d.take(i - from)),
        decreases n - i,
    {
        proof {
            crate::raw::scan::lemma_first_index_bounds(d, |b: u8| !is_digit(b));
            assert(is_digit(d[i - from]));
            assert(d[i - from] == s@[i as int]);
            let next = d.take(i - from + 1);
            assert(next.drop_last() == d.take(i - from));
            assert(next.last() == d[i - from]);
            assert(decimal_value(next) == acc * 10 + (s@[i as int] - 48));
            lemma_decimal_value_prefix(d, i - from + 1);
        }
        let digit: u64 = (s[i] - 48) as u64;
        if acc > (u64::MAX - digit) / 10 {
            return None;
        }
        acc = acc * 10 + digit;
        i += 1;
    }
    proof {
        assert(d.take(n - from) == d);
    }
    Some(acc)
}

/// What the text `s` says as an unsigned integer of 64 bits.
pub fn parse_u64(s: &str) -> (r: Option<u64>)
    ensures
        r == u64_of_text(s@),
{
    if !s.is_ascii() {
        return None;
    }
    proof {
        vstd::string::is_ascii_spec_bytes(s);
        assert(s.spec_bytes() == ascii_bytes(s@));
    }
    parse_u64_bytes(s.as_bytes())
}

} // verus!
