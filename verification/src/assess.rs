//! What a quality report on a bit sequence is built from.
//!
//! The counts are exact. The real-valued measures of a report, the bias and
//! the Shannon entropy, are computed by the caller in floating point and
//! handed to [`assess_quality`] as the bit patterns of IEEE 754 doubles, so
//! that the verdict is decided here on the very values that were measured.

use vstd::prelude::*;

verus! {

/// The least number of bits that the quick test will look at.
pub const MIN_TESTED_BITS: usize = 100;

/// The number of elements of `s` that are 1.
pub open spec fn count_ones(s: Seq<u8>) -> nat
    decreases s.len(),
{
    if s.len() == 0 {
        0
    } else {
        count_ones(s.drop_last()) + if s.last() == 1 {
            1nat
        } else {
            0nat
        }
    }
}

/// The number of positions of `s`, from the second on, whose element differs
/// from the one before it.
pub open spec fn count_transitions(s: Seq<u8>) -> nat
    decreases s.len(),
{
    if s.len() < 2 {
        0
    } else {
        count_transitions(s.drop_last()) + if s[s.len() - 1] != s[s.len() - 2] {
            1nat
        } else {
            0nat
        }
    }
}

/// `part` of `whole` in percent, rounded down.
pub open spec fn percent_of(part: int, whole: int) -> int {
    (100 * part) / whole
}

/// The exact counts taken from a bit sequence.
#[derive(Clone, Copy, Debug, PartialEq, Eq)]
pub struct BitStatistics {
    /// The length of the sequence.
    pub bit_count: usize,
    /// How many elements are 1.
    pub ones: usize,
    /// How many elements are not 1.
    pub zeros: usize,
    /// How many elements differ from their predecessor.
    pub transitions: usize,
    /// The share of ones in percent, rounded down.
    pub percent_ones: usize,
    /// The share of zeros in percent, rounded down.
    pub percent_zeros: usize,
}

/// The statistics of `s`, as a fact about a value of [`BitStatistics`].
pub open spec fn statistics_of(s: Seq<u8>, stats: BitStatistics) -> bool {
    &&& stats.bit_count == s.len()
    &&& stats.ones == count_ones(s)
    &&& stats.zeros == s.len() - count_ones(s)
    &&& stats.transitions == count_transitions(s)
    &&& stats.percent_ones == percent_of(count_ones(s) as int, s.len() as int)
    &&& stats.percent_zeros == percent_of(s.len() - count_ones(s), s.len() as int)
}

/// The outcome of the quick test.
#[derive(Clone, Copy, Debug, PartialEq, Eq)]
pub enum QuickTest {
    /// The sequence is shorter than [`MIN_TESTED_BITS`]; nothing was counted.
    InsufficientData,
    /// The counts of a sequence that is long enough.
    Measured(BitStatistics),
}

/// No more ones than elements.
pub proof fn lemma_count_ones_bound(s: Seq<u8>)
    ensures
        count_ones(s) <= s.len(),
    decreases s.len(),
{
    if s.len() > 0 {
        lemma_count_ones_bound(s.drop_last());
    }
}

/// Fewer transitions than elements.
pub proof fn lemma_count_transitions_bound(s: Seq<u8>)
    ensures
        s.len() == 0 ==> count_transitions(s) == 0,
        s.len() > 0 ==> count_transitions(s) < s.len(),
    decreases s.len(),
{
    if s.len() >= 2 {
        lemma_count_transitions_bound(s.drop_last());
    }
}

/// Counts the elements of `bits` that are 1.
pub fn ones_in(bits: &[u8]) -> (ones: usize)
    ensures
        ones == count_ones(bits@),
{
    let mut ones: usize = 0;
    let mut k: usize = 0;
    while k < bits.len()
        invariant
            k <= bits.len(),
            ones == count_ones(bits@.take(k as int)),
            ones <= k,
        decreases bits.len() - k,
    {
        assert(bits@.take(k + 1).drop_last() =~= bits@.take(k as int));
        if bits[k] == 1 {
            ones += 1;
        }
        k += 1;
    }
    assert(bits@.take(bits.len() as int) =~= bits@);
    ones
}

/// Counts the elements of `bits` that differ from their predecessor.
pub fn transitions_in(bits: &[u8]) -> (transitions: usize)
    ensures
        transitions == count_transitions(bits@),
{
    let mut transitions: usize = 0;
    let mut k: usize = 1;
    if bits.len() < 2 {
        return 0;
    }
    assert(count_transitions(bits@.take(1)) == 0);
    while k < bits.len()
        invariant
            1 <= k <= bits.len(),
            transitions == count_transitions(bits@.take(k as int)),
            transitions < k,
        decreases bits.len() - k,
    {
        assert(bits@.take(k + 1).drop_last() =~= bits@.take(k as int));
        if bits[k] != bits[k - 1] {
            transitions += 1;
        }
        k += 1;
    }
    assert(bits@.take(bits.len() as int) =~= bits@);
    transitions
}

/// Computes `part` of `whole` in percent, rounded down.
pub(crate) fn percent(part: usize, whole: usize) -> (p: usize)
    requires
        part <= whole,
        whole > 0,
    ensures
        p == percent_of(part as int, whole as int),
        p <= 100,
{
    let scaled: u128 = 100 * (part as u128);
    let p: u128 = scaled / (whole as u128);
    assert(p <= 100) by (nonlinear_arith)
        requires
            p == scaled / (whole as u128),
            scaled <= 100 * whole,
            whole > 0,
    ;
    p as usize
}

/// Takes the counts of a quality report from `bits`, or declines where there
/// are fewer than [`MIN_TESTED_BITS`] of them.
pub fn quick_randomness_test(bits: &[u8]) -> (out: QuickTest)
    ensures
        bits@.len() < MIN_TESTED_BITS <==> out == QuickTest::InsufficientData,
        bits@.len() >= MIN_TESTED_BITS ==> (out matches QuickTest::Measured(stats)
            && statistics_of(bits@, stats)),
{
    let n: usize = bits.len();
    if n < MIN_TESTED_BITS {
        return QuickTest::InsufficientData;
    }
    let ones: usize = ones_in(bits);
    proof {
        lemma_count_ones_bound(bits@);
    }
    let zeros: usize = n - ones;
    let transitions: usize = transitions_in(bits);
    QuickTest::Measured(
        BitStatistics {
            bit_count: n,
            ones,
            zeros,
            transitions,
            percent_ones: percent(ones, n),
            percent_zeros: percent(zeros, n),
        },
    )
}

/// The three levels of a quality verdict.
#[derive(Clone, Copy, Debug, PartialEq, Eq)]
pub enum Verdict {
    /// Bias below 0.05 and entropy above 0.95.
    Good,
    /// Not good, but bias below 0.1 and entropy above 0.9.
    Fair,
    /// Neither.
    Poor,
}

/// The bit pattern of a double whose sign bit is set and whose other bits are
/// clear. Patterns from here on upwards carry the sign.
pub const SIGN_BIT: u64 = 0x8000_0000_0000_0000;

/// The bit pattern of positive infinity. With the sign bit put aside, every
/// pattern above it is a NaN.
pub const INFINITY: u64 = 0x7FF0_0000_0000_0000;

/// The bit pattern of the double 0.05: the bias of a good sequence is below.
pub const GOOD_BIAS: u64 = 0x3FA9_9999_9999_999A;

/// The bit pattern of the double 0.1: the bias of a fair sequence is below.
pub const FAIR_BIAS: u64 = 0x3FB9_9999_9999_999A;

/// The bit pattern of the double 0.95: the entropy of a good sequence is above.
pub const GOOD_ENTROPY: u64 = 0x3FEE_6666_6666_6666;

/// The bit pattern of the double 0.9: the entropy of a fair sequence is above.
pub const FAIR_ENTROPY: u64 = 0x3FEC_CCCC_CCCC_CCCD;

/// `code` is the bit pattern of a NaN.
pub open spec fn is_nan(code: u64) -> bool {
    code % SIGN_BIT > INFINITY
}

/// `code` is the bit pattern of a double with the sign bit set.
pub open spec fn is_negative(code: u64) -> bool {
    code >= SIGN_BIT
}

/// The double with bit pattern `code` is less than the double with bit
/// pattern `limit`, for a `limit` that is positive and finite. A NaN is less
/// than nothing, a double with the sign bit set is less than every positive
/// one, and two doubles without sign are ordered as their bit patterns are.
pub open spec fn is_below(code: u64, limit: u64) -> bool {
    !is_nan(code) && (is_negative(code) || code < limit)
}

/// The double with bit pattern `code` is greater than the double with bit
/// pattern `limit`, for a `limit` that is positive and finite.
pub open spec fn is_above(code: u64, limit: u64) -> bool {
    !is_nan(code) && !is_negative(code) && code > limit
}

/// The verdict on a sequence whose bias and entropy are the doubles with the
/// bit patterns `bias` and `entropy`.
pub open spec fn verdict_of(bias: u64, entropy: u64) -> Verdict {
    if is_below(bias, GOOD_BIAS) && is_above(entropy, GOOD_ENTROPY) {
        Verdict::Good
    } else if is_below(bias, FAIR_BIAS) && is_above(entropy, FAIR_ENTROPY) {
        Verdict::Fair
    } else {
        Verdict::Poor
    }
}

/// Decides `is_below(code, limit)`.
fn below(code: u64, limit: u64) -> (b: bool)
    ensures
        b == is_below(code, limit),
{
    code % SIGN_BIT <= INFINITY && (code >= SIGN_BIT || code < limit)
}

/// Decides `is_above(code, limit)`.
fn above(code: u64, limit: u64) -> (b: bool)
    ensures
        b == is_above(code, limit),
{
    code % SIGN_BIT <= INFINITY && code < SIGN_BIT && code > limit
}

/// Gives the verdict on a sequence from its measured bias and entropy, each
/// handed over as the bit pattern of a double. The sequence is good where
/// the bias is below 0.05 and the entropy above 0.95, fair where the bias is
/// below 0.1 and the entropy above 0.9, and poor otherwise.
pub fn assess_quality(bias: u64, entropy: u64) -> (verdict: Verdict)
    ensures
        verdict == verdict_of(bias, entropy),
{
    if below(bias, GOOD_BIAS) && above(entropy, GOOD_ENTROPY) {
        Verdict::Good
    } else if below(bias, FAIR_BIAS) && above(entropy, FAIR_ENTROPY) {
        Verdict::Fair
    } else {
        Verdict::Poor
    }
}

impl Verdict {
    /// The words in which a report states the verdict.
    pub fn label(&self) -> (text: String)
        ensures
            text@ == (match *self {
                Verdict::Good => "Good"@,
                Verdict::Fair => "Fair"@,
                Verdict::Poor => "Poor - Consider debiasing"@,
            }),
    {
        match self {
            Verdict::Good => "Good".to_owned(),
            Verdict::Fair => "Fair".to_owned(),
            Verdict::Poor => "Poor - Consider debiasing".to_owned(),
        }
    }
}

/// What passes the limits of a good verdict passes those of a fair one, so a
/// sequence is poor exactly when it misses a limit of the fair verdict.
pub proof fn lemma_good_is_within_fair(bias: u64, entropy: u64)
    ensures
        is_below(bias, GOOD_BIAS) ==> is_below(bias, FAIR_BIAS),
        is_above(entropy, GOOD_ENTROPY) ==> is_above(entropy, FAIR_ENTROPY),
        verdict_of(bias, entropy) == Verdict::Poor <==> !(is_below(bias, FAIR_BIAS) && is_above(
            entropy,
            FAIR_ENTROPY,
        )),
{
}

} // verus!
