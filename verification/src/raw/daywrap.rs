//! Times of day that fall back at midnight, and how far to lift them.
//!
//! A file gives its times in hours of the day. Where a sample lies more than
//! half a day before the one in front of it, a day has ended, and that sample
//! and all after it belong one day later.
use vstd::prelude::*;

verus! {

/// How many samples from the second up to sample `i` fell.
pub open spec fn falls_upto(falls: Seq<bool>, i: int) -> nat
    decreases i,
{
    if i <= 0 {
        0
    } else {
        falls_upto(falls, i - 1) + if falls[i] {
            1nat
        } else {
            0nat
        }
    }
}

/// For each sample the number of days to add to it: the number of falls up
/// to it. `falls[i]` says whether sample `i` lies more than half a day before
/// sample `i - 1`; the first sample has none in front of it, and what
/// `falls[0]` says is not read.
pub fn day_offsets(falls: &Vec<bool>) -> (r: Vec<u64>)
    ensures
        r@.len() == falls@.len(),
        forall|i: int| 0 <= i < r@.len() ==> r@[i] == falls_upto(falls@, i),
{
    let n = falls.len();
    let mut out: Vec<u64> = Vec::new();
    let mut days: u64 = 0;
    let mut i: usize = 0;
    while i < n
        invariant
            i <= n,
            n == falls@.len(),
            out@.len() == i,
            days <= i,
            i > 0 ==> days == falls_upto(falls@, i - 1),
            i == 0 ==> days == 0,
            forall|j: int| 0 <= j < i ==> out@[j] == falls_upto(falls@, j),
        decreases n - i,
    {
        if i > 0 && falls[i] {
            days += 1;
        }
        out.push(days);
        i += 1;
    }
    out
}

/// Which samples of a series fall: those that lie more than `half` before
/// the sample in front of them.
pub open spec fn falls_of(t: Seq<int>, half: int) -> Seq<bool> {
    Seq::new(t.len(), |i: int| i >= 1 && t[i] - t[i - 1] < -half)
}

/// A series with every sample lifted by two halves for each fall up to it.
pub open spec fn unwrapped(t: Seq<int>, half: int) -> Seq<int> {
    Seq::new(t.len(), |i: int| t[i] + 2 * half * falls_upto(falls_of(t, half), i))
}

proof fn lemma_step(t: Seq<int>, half: int, i: int)
    requires
        1 <= i < t.len(),
    ensures
        unwrapped(t, half)[i] - unwrapped(t, half)[i - 1] == t[i] - t[i - 1] + if t[i] - t[i - 1]
            < -half {
            2 * half
        } else {
            0
        },
{
    let f = falls_of(t, half);
    let a = falls_upto(f, i - 1) as int;
    assert(falls_upto(f, i) == a + if f[i] {
        1nat
    } else {
        0nat
    });
    assert(2 * half * (a + 1) == 2 * half * a + 2 * half) by (nonlinear_arith);
}

proof fn lemma_no_falls(falls: Seq<bool>, i: int)
    requires
        i < falls.len(),
        forall|j: int| 1 <= j < falls.len() ==> !falls[j],
    ensures
        falls_upto(falls, i) == 0,
    decreases i,
{
    if i > 0 {
        lemma_no_falls(falls, i - 1);
    }
}

/// Lifting is done once: where no sample lies more than three halves before
/// the one in front of it, as with times of one day, a lifted series has no
/// fall left, and lifting it again changes nothing.
pub proof fn lemma_unwrapped_twice(t: Seq<int>, half: int)
    requires
        half > 0,
        forall|i: int| 1 <= i < t.len() ==> #[trigger] t[i] - t[i - 1] >= -3 * half,
    ensures
        unwrapped(unwrapped(t, half), half) == unwrapped(t, half),
{
    let u = unwrapped(t, half);
    let f = falls_of(u, half);
    assert forall|j: int| 1 <= j < f.len() implies !f[j] by {
        lemma_step(t, half, j);
    }
    assert forall|i: int| 0 <= i < u.len() implies unwrapped(u, half)[i] == u[i] by {
        lemma_no_falls(f, i);
        assert(2 * half * 0 == 0);
    }
    assert(unwrapped(u, half) =~= u);
}

/// A lifted series never goes down, where the series itself only goes down
/// by a fall, and by no more than two halves at once.
pub proof fn lemma_unwrapped_rises(t: Seq<int>, half: int)
    requires
        half > 0,
        forall|i: int|
            1 <= i < t.len() ==> #[trigger] t[i] >= t[i - 1] || -2 * half <= t[i] - t[i - 1]
                < -half,
    ensures
        forall|i: int|
            1 <= i < t.len() ==> unwrapped(t, half)[i] >= #[trigger] unwrapped(t, half)[i - 1],
{
    assert forall|i: int| 1 <= i < t.len() implies unwrapped(t, half)[i] >= #[trigger] unwrapped(
        t,
        half,
    )[i - 1] by {
        lemma_step(t, half, i);
    }
}

/// The days to add never go down from one sample to the next.
pub proof fn lemma_offsets_rise(falls: Seq<bool>, i: int, j: int)
    requires
        0 <= i <= j,
    ensures
        falls_upto(falls, i) <= falls_upto(falls, j),
    decreases j - i,
{
    if i < j {
        lemma_offsets_rise(falls, i, j - 1);
    }
}

} // verus!
