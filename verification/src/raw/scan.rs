//! Cutting a byte buffer into lines, fields and tokens.
use vstd::prelude::*;
use vstd::slice::slice_subrange;

verus! {

/// The index of the first item of `s` of which `p` holds, or the length of
/// `s` where it holds of none.
pub open spec fn first_index<A>(s: Seq<A>, p: spec_fn(A) -> bool) -> int
    decreases s.len(),
{
    if s.len() == 0 || p(s[0]) {
        0
    } else {
        1 + first_index(s.drop_first(), p)
    }
}

/// `first_index` lies within the list, `p` holds of no item before it, and
/// of the item at it where there is one.
pub proof fn lemma_first_index_bounds<A>(s: Seq<A>, p: spec_fn(A) -> bool)
    ensures
        0 <= first_index(s, p) <= s.len(),
        forall|j: int| 0 <= j < first_index(s, p) ==> !p(#[trigger] s[j]),
        first_index(s, p) < s.len() ==> p(s[first_index(s, p)]),
    decreases s.len(),
{
    if s.len() == 0 || p(s[0]) {
    } else {
        let t = s.drop_first();
        lemma_first_index_bounds(t, p);
        assert forall|j: int| 0 <= j < first_index(s, p) implies !p(#[trigger] s[j]) by {
            if j > 0 {
                assert(s[j] == t[j - 1]);
            }
        }
        if first_index(t, p) < t.len() {
            assert(s[first_index(s, p)] == t[first_index(t, p)]);
        }
    }
}

/// `first_index` is the only index with no hit before it and a hit, or the
/// end, at it.
pub proof fn lemma_first_index_is<A>(s: Seq<A>, p: spec_fn(A) -> bool, k: int)
    requires
        0 <= k <= s.len(),
        forall|j: int| 0 <= j < k ==> !p(#[trigger] s[j]),
        k < s.len() ==> p(s[k]),
    ensures
        first_index(s, p) == k,
{
    lemma_first_index_bounds(s, p);
    let f = first_index(s, p);
    if f < k {
        assert(!p(s[f]));
    } else if k < f {
        assert(!p(s[k]));
    }
}

/// The index of the first byte of `s` that is one of `delims`, or the length
/// of `s` where there is none.
pub open spec fn first_delim(s: Seq<u8>, delims: Seq<u8>) -> int {
    first_index(s, |b: u8| delims.contains(b))
}

/// The pieces between delimiters: `n` delimiters give `n + 1` pieces, empty
/// ones included.
pub open spec fn split(s: Seq<u8>, delims: Seq<u8>) -> Seq<Seq<u8>>
    decreases s.len(),
{
    let k = first_delim(s, delims);
    if 0 <= k < s.len() {
        seq![s.take(k)] + split(s.skip(k + 1), delims)
    } else {
        seq![s]
    }
}

/// A piece that counts as a word: not empty, and not a lone carriage return.
pub open spec fn is_word(p: Seq<u8>) -> bool {
    p.len() > 0 && p != seq![13u8]
}

/// The pieces of `split` that are words.
pub open spec fn words(s: Seq<u8>, delims: Seq<u8>) -> Seq<Seq<u8>> {
    split(s, delims).filter(|p: Seq<u8>| is_word(p))
}

/// What stands before the first line feed of `s`.
pub open spec fn first_line(s: Seq<u8>) -> Seq<u8> {
    s.take(first_delim(s, seq![10u8]))
}

/// What stands after the first line feed of `s`: nothing where there is none.
pub open spec fn after_first_line(s: Seq<u8>) -> Seq<u8> {
    let k = first_delim(s, seq![10u8]);
    if 0 <= k < s.len() {
        s.skip(k + 1)
    } else {
        Seq::empty()
    }
}

/// `s` without the bytes that are zero.
pub open spec fn without_nulls(s: Seq<u8>) -> Seq<u8> {
    s.filter(|b: u8| b != 0)
}

/// Whether `prefix` stands at the start of `s`.
pub open spec fn has_prefix(s: Seq<u8>, prefix: Seq<u8>) -> bool {
    prefix.len() <= s.len() && s.take(prefix.len() as int) == prefix
}

/// The views of a list of slices.
pub open spec fn views(v: Seq<&[u8]>) -> Seq<Seq<u8>> {
    v.map_values(|p: &[u8]| p@)
}

/// `first_delim` is the only index with no delimiter before it and a
/// delimiter, or the end, at it.
pub proof fn lemma_first_delim_is(s: Seq<u8>, delims: Seq<u8>, k: int)
    requires
        0 <= k <= s.len(),
        forall|j: int| 0 <= j < k ==> !delims.contains(#[trigger] s[j]),
        k < s.len() ==> delims.contains(s[k]),
    ensures
        first_delim(s, delims) == k,
{
    lemma_first_index_is(s, |b: u8| delims.contains(b), k);
}

/// Whether `b` is one of `delims`.
pub fn is_delim(b: u8, delims: &[u8]) -> (r: bool)
    ensures
        r == delims@.contains(b),
{
    let mut i: usize = 0;
    while i < delims.len()
        invariant
            i <= delims.len(),
            forall|j: int| 0 <= j < i ==> delims@[j] != b,
        decreases delims.len() - i,
    {
        if delims[i] == b {
            return true;
        }
        i += 1;
    }
    false
}

/// Cuts `s` at every byte that is one of `delims`.
pub fn split_on<'a>(s: &'a [u8], delims: &[u8]) -> (r: Vec<&'a [u8]>)
    ensures
        views(r@) == split(s@, delims@),
{
    let n = s.len();
    let mut out: Vec<&'a [u8]> = Vec::new();
    let mut start: usize = 0;
    let mut i: usize = 0;
    assert(s@.skip(0) == s@);
    assert(views(out@) == Seq::<Seq<u8>>::empty());
    while i < n
        invariant
            n == s@.len(),
            start <= i <= n,
            forall|j: int| start <= j < i ==> !delims@.contains(#[trigger] s@[j]),
            views(out@) + split(s@.skip(start as int), delims@) == split(s@, delims@),
        decreases n - i,
    {
        if is_delim(s[i], delims) {
            let piece = slice_subrange(s, start, i);
            proof {
                let rest = s@.skip(start as int);
                assert forall|j: int| 0 <= j < i - start implies !delims@.contains(
                    #[trigger] rest[j],
                ) by {
                    assert(rest[j] == s@[start + j]);
                }
                assert(rest[i - start] == s@[i as int]);
                lemma_first_delim_is(rest, delims@, i - start);
                assert(rest.take(i - start) == s@.subrange(start as int, i as int));
                assert(rest.skip(i - start + 1) == s@.skip(i + 1));
                assert(views(out@.push(piece)) == views(out@) + seq![piece@]);
            }
            out.push(piece);
            start = i + 1;
        }
        i += 1;
    }
    let piece = slice_subrange(s, start, n);
    proof {
        let rest = s@.skip(start as int);
        assert forall|j: int| 0 <= j < n - start implies !delims@.contains(#[trigger] rest[j]) by {
            assert(rest[j] == s@[start + j]);
        }
        lemma_first_delim_is(rest, delims@, n - start);
        assert(rest == s@.subrange(start as int, n as int));
        assert(views(out@.push(piece)) == views(out@) + seq![piece@]);
    }
    out.push(piece);
    out
}

/// There are no more words than bytes.
pub proof fn lemma_words_len(s: Seq<u8>, delims: Seq<u8>)
    ensures
        words(s, delims).len() <= s.len(),
    decreases s.len(),
{
    let keep = |p: Seq<u8>| is_word(p);
    let k = first_delim(s, delims);
    let none = Seq::<Seq<u8>>::empty();
    none.lemma_filter_len(keep);
    if 0 <= k < s.len() {
        let head = seq![s.take(k)];
        let tail = split(s.skip(k + 1), delims);
        lemma_words_len(s.skip(k + 1), delims);
        Seq::filter_distributes_over_add(head, tail, keep);
        assert(head =~= none.push(s.take(k)));
        none.lemma_filter_push(s.take(k), keep);
    } else {
        assert(seq![s] =~= none.push(s));
        none.lemma_filter_push(s, keep);
    }
}

/// A split gives at least one piece.
pub proof fn lemma_split_nonempty(s: Seq<u8>, delims: Seq<u8>)
    ensures
        split(s, delims).len() >= 1,
{
}

/// A list that keeps some of the items of another is no longer than it.
pub proof fn lemma_filter_map_len<A, B>(s: Seq<A>, f: spec_fn(A) -> Option<B>)
    ensures
        s.filter_map(f).len() <= s.len(),
    decreases s.len(),
{
    reveal(Seq::filter_map);
    if s.len() > 0 {
        lemma_filter_map_len(s.drop_last(), f);
    }
}

/// The index of the first delimiter at or after `from`, or the length of `s`.
pub fn find_delim(s: &[u8], from: usize, delims: &[u8]) -> (r: usize)
    requires
        from <= s.len(),
    ensures
        from <= r <= s.len(),
        r == from + first_delim(s@.skip(from as int), delims@),
{
    let mut i: usize = from;
    while i < s.len() && !is_delim(s[i], delims)
        invariant
            from <= i <= s.len(),
            forall|j: int| from <= j < i ==> !delims@.contains(#[trigger] s@[j]),
        decreases s.len() - i,
    {
        i += 1;
    }
    proof {
        let rest = s@.skip(from as int);
        assert forall|j: int| 0 <= j < i - from implies !delims@.contains(#[trigger] rest[j]) by {
            assert(rest[j] == s@[from + j]);
        }
        if i < s.len() {
            assert(rest[i - from] == s@[i as int]);
        }
        lemma_first_delim_is(rest, delims@, i - from);
    }
    i
}

/// Whether a piece is a word.
pub fn word(p: &[u8]) -> (r: bool)
    ensures
        r == is_word(p@),
{
    if p.len() == 0 {
        false
    } else if p.len() == 1 && p[0] == 13 {
        assert(p@ =~= seq![13u8]);
        false
    } else {
        proof {
            if p@ == seq![13u8] {
                assert(p@.len() == 1 && p@[0] == 13);
            }
        }
        true
    }
}

/// The words of `s` between the delimiters, in order.
pub fn words_on<'a>(s: &'a [u8], delims: &[u8]) -> (r: Vec<&'a [u8]>)
    ensures
        views(r@) == words(s@, delims@),
{
    let pieces = split_on(s, delims);
    let ghost keep = |p: Seq<u8>| is_word(p);
    let mut out: Vec<&'a [u8]> = Vec::new();
    let mut i: usize = 0;
    proof {
        assert(views(pieces@).take(0) =~= Seq::<Seq<u8>>::empty());
        assert(views(out@) =~= Seq::<Seq<u8>>::empty());
        Seq::<Seq<u8>>::empty().lemma_filter_len(keep);
    }
    while i < pieces.len()
        invariant
            i <= pieces.len(),
            keep == |p: Seq<u8>| is_word(p),
            views(out@) == views(pieces@).take(i as int).filter(keep),
        decreases pieces.len() - i,
    {
        let piece = pieces[i];
        proof {
            let done = views(pieces@).take(i as int);
            assert(views(pieces@).take(i + 1) =~= done.push(piece@));
            done.lemma_filter_push(piece@, keep);
            assert(views(out@.push(piece)) =~= views(out@).push(piece@));
        }
        if word(piece) {
            out.push(piece);
        }
        i += 1;
    }
    proof {
        assert(views(pieces@).take(pieces.len() as int) == views(pieces@));
    }
    out
}

/// A copy of `s` without the bytes that are zero.
pub fn strip_nulls(s: &[u8]) -> (r: Vec<u8>)
    ensures
        r@ == without_nulls(s@),
{
    let ghost keep = |b: u8| b != 0;
    let mut out: Vec<u8> = Vec::new();
    let mut i: usize = 0;
    proof {
        assert(s@.take(0) =~= Seq::<u8>::empty());
        Seq::<u8>::empty().lemma_filter_len(keep);
    }
    while i < s.len()
        invariant
            i <= s.len(),
            keep == |b: u8| b != 0,
            out@ == s@.take(i as int).filter(keep),
        decreases s.len() - i,
    {
        proof {
            assert(s@.take(i + 1) =~= s@.take(i as int).push(s@[i as int]));
            s@.take(i as int).lemma_filter_push(s@[i as int], keep);
        }
        if s[i] != 0 {
            out.push(s[i]);
        }
        i += 1;
    }
    proof {
        assert(s@.take(s.len() as int) == s@);
    }
    out
}

/// Whether `prefix` stands at the start of `s`.
pub fn starts_with(s: &[u8], prefix: &[u8]) -> (r: bool)
    ensures
        r == has_prefix(s@, prefix@),
{
    if prefix.len() > s.len() {
        return false;
    }
    let mut i: usize = 0;
    while i < prefix.len()
        invariant
            i <= prefix.len() <= s.len(),
            forall|j: int| 0 <= j < i ==> s@[j] == prefix@[j],
        decreases prefix.len() - i,
    {
        if s[i] != prefix[i] {
            assert(s@.take(prefix.len() as int)[i as int] != prefix@[i as int]);
            return false;
        }
        i += 1;
    }
    assert(s@.take(prefix.len() as int) =~= prefix@);
    true
}

} // verus!
