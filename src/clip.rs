use crate::ring::RingBuffer;
use vstd::prelude::*;

verus! {

// Samples are single-precision floats carried as their IEEE-754 bit patterns.
/// Bit pattern of the near-silence threshold, 1e-6.
pub const SILENCE_THRESHOLD_BITS: u32 = 0x3586_37bd;

/// Bit pattern of positive infinity; a magnitude above it is a NaN.
pub const INFINITY_BITS: u32 = 0x7f80_0000;

/// Clears the sign bit: the bit pattern of the sample's absolute value.
pub open spec fn magnitude(x: u32) -> u32 {
    x & 0x7fff_ffff
}

/// `|x| < 1e-6` in float arithmetic: false for a NaN.
pub open spec fn is_silent(x: u32) -> bool {
    magnitude(x) < SILENCE_THRESHOLD_BITS
}

/// `|x| >= 1e-6` in float arithmetic: false for a NaN.
pub open spec fn is_audible(x: u32) -> bool {
    SILENCE_THRESHOLD_BITS <= magnitude(x) <= INFINITY_BITS
}

pub open spec fn all_silent(s: Seq<u32>) -> bool {
    forall|i: int| 0 <= i < s.len() ==> is_silent(s[i])
}

pub open spec fn has_audible(s: Seq<u32>) -> bool {
    exists|i: int| 0 <= i < s.len() && is_audible(s[i])
}

/// `r` is `s` from its first audible sample to its last, both included.
pub open spec fn is_trim_of(s: Seq<u32>, r: Seq<u32>) -> bool {
    exists|a: int, b: int|
        {
            &&& 0 <= a < b <= s.len()
            &&& r == s.subrange(a, b)
            &&& is_audible(s[a])
            &&& is_audible(s[b - 1])
            &&& forall|i: int| 0 <= i < a ==> !is_audible(s[i])
            &&& forall|i: int| b <= i < s.len() ==> !is_audible(s[i])
        }
}

/// Whether the sample is below the near-silence threshold.
pub fn sample_is_silent(x: u32) -> (r: bool)
    ensures
        r == is_silent(x),
{
    (x & 0x7fff_ffff) < SILENCE_THRESHOLD_BITS
}

/// Whether the sample reaches the near-silence threshold.
pub fn sample_is_audible(x: u32) -> (r: bool)
    ensures
        r == is_audible(x),
{
    let m = x & 0x7fff_ffff;
    SILENCE_THRESHOLD_BITS <= m && m <= INFINITY_BITS
}

/// Index of the first and one past the last audible sample, if any.
pub fn audible_span(s: &[u32]) -> (r: Option<(usize, usize)>)
    ensures
        r is None <==> !has_audible(s@),
        r matches Some((a, b)) ==> {
            &&& a < b <= s@.len()
            &&& is_audible(s@[a as int])
            &&& is_audible(s@[b - 1])
            &&& forall|i: int| 0 <= i < a ==> !is_audible(s@[i])
            &&& forall|i: int| b <= i < s@.len() ==> !is_audible(s@[i])
        },
{
    let n = s.len();
    let mut a: usize = 0;
    while a < n && !sample_is_audible(s[a])
        invariant
            n == s@.len(),
            a <= n,
            forall|i: int| 0 <= i < a ==> !is_audible(s@[i]),
        decreases n - a,
    {
        a = a + 1;
    }
    if a == n {
        return None;
    }
    let mut b: usize = n;
    while b > a + 1 && !sample_is_audible(s[b - 1])
        invariant
            n == s@.len(),
            a < b <= n,
            is_audible(s@[a as int]),
            forall|i: int| b <= i < n ==> !is_audible(s@[i]),
        decreases b,
    {
        b = b - 1;
    }
    Some((a, b))
}

/// The samples from the first audible one to the last, both included; the
/// whole input where none is audible.
pub fn trim_silence(s: &[u32]) -> (r: Vec<u32>)
    ensures
        has_audible(s@) ==> is_trim_of(s@, r@),
        !has_audible(s@) ==> r@ == s@,
{
    match audible_span(s) {
        Some((a, b)) => {
            let mut r: Vec<u32> = Vec::new();
            let mut i: usize = a;
            while i < b
                invariant
                    a <= i <= b <= s@.len(),
                    r@ == s@.subrange(a as int, i as int),
                decreases b - i,
            {
                r.push(s[i]);
                i = i + 1;
                assert(r@ =~= s@.subrange(a as int, i as int));
            }
            assert(is_trim_of(s@, r@)) by {
                assert(r@ == s@.subrange(a as int, b as int));
            }
            r
        },
        None => {
            let mut r: Vec<u32> = Vec::new();
            let mut i: usize = 0;
            while i < s.len()
                invariant
                    i <= s@.len(),
                    r@ == s@.subrange(0, i as int),
                decreases s@.len() - i,
            {
                r.push(s[i]);
                i = i + 1;
                assert(r@ =~= s@.subrange(0, i as int));
            }
            assert(r@ =~= s@);
            r
        },
    }
}

/// What extraction makes of the drained samples.
pub enum Extraction {
    /// Every sample was near silence: nothing is saved.
    Empty,
    /// The trimmed clip to hand to persistence.
    Clip(Vec<u32>),
}

/// What extraction yields for the drained samples `s`.
pub open spec fn extraction_of(s: Seq<u32>, r: Extraction) -> bool {
    &&& r is Empty <==> all_silent(s)
    &&& (r matches Extraction::Clip(c) ==> if has_audible(s) {
        is_trim_of(s, c@)
    } else {
        c@ == s
    })
}

/// Rejects an all-silent clip and trims leading and trailing silence from any
/// other.
pub fn extract_clip(s: &[u32]) -> (r: Extraction)
    ensures
        extraction_of(s@, r),
{
    let mut i: usize = 0;
    while i < s.len()
        invariant
            i <= s@.len(),
            forall|j: int| 0 <= j < i ==> is_silent(s@[j]),
        decreases s@.len() - i,
    {
        if !sample_is_silent(s[i]) {
            return Extraction::Clip(trim_silence(s));
        }
        i = i + 1;
    }
    Extraction::Empty
}

/// Drains the buffer and extracts a clip from what it held; the buffer is left
/// empty.
pub fn extract_from(buffer: &mut RingBuffer) -> (r: Extraction)
    requires
        old(buffer).wf(),
    ensures
        final(buffer).wf(),
        final(buffer).cap() == old(buffer).cap(),
        final(buffer).contents() == Seq::<u32>::empty(),
        extraction_of(old(buffer).contents(), r),
{
    let samples = buffer.drain_all();
    extract_clip(samples.as_slice())
}

/// An all-silent clip is rejected: extraction yields nothing to save.
pub proof fn lemma_silence_rejected(s: Seq<u32>, r: Extraction)
    requires
        all_silent(s),
        extraction_of(s, r),
    ensures
        r is Empty,
{
}

} // verus!
