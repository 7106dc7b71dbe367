//! Von Neumann debiasing.
//!
//! The input is read in consecutive pairs that do not overlap. A pair of two
//! equal elements is dropped; of a pair of two different elements the first
//! is kept. An element left over at an odd length is never looked at.

use crate::codec::{is_bit, is_bit_seq};
use vstd::prelude::*;
use vstd::slice::slice_to_vec;

verus! {

/// Pair `p` of `s` is made of two different elements.
pub open spec fn pair_differs(s: Seq<u8>, p: int) -> bool {
    s[2 * p] != s[2 * p + 1]
}

/// `v` stands first in one of the first `n` pairs of `s`, and that pair is
/// made of two different elements.
pub open spec fn leads_differing_pair(s: Seq<u8>, n: nat, v: u8) -> bool {
    exists|p: int| 0 <= p < n && #[trigger] pair_differs(s, p) && v == s[2 * p]
}

/// What the first `n` pairs of `s` contribute: the first element of each
/// pair whose two elements differ, in order.
pub open spec fn kept_of_pairs(s: Seq<u8>, n: nat) -> Seq<u8>
    decreases n,
{
    if n == 0 {
        Seq::empty()
    } else {
        let before = kept_of_pairs(s, (n - 1) as nat);
        if pair_differs(s, n - 1) {
            before.push(s[2 * (n - 1)])
        } else {
            before
        }
    }
}

/// What all the pairs of `s` contribute.
pub open spec fn kept(s: Seq<u8>) -> Seq<u8> {
    kept_of_pairs(s, s.len() / 2)
}

/// The two elements of every pair of `s` are equal.
pub open spec fn all_pairs_equal(s: Seq<u8>) -> bool {
    forall|p: int| 0 <= p < s.len() / 2 ==> !#[trigger] pair_differs(s, p)
}

/// Debiasing has nothing to give for `s` and falls back on its first
/// element: `s` has at least one pair and no pair contributes.
pub open spec fn falls_back(s: Seq<u8>) -> bool {
    s.len() >= 2 && kept(s).len() == 0
}

/// The debiased form of `s`. A sequence of fewer than two elements is left
/// as it is. Where no pair contributes, the result is the first element of
/// `s` alone, so that a sequence with content never debiases to nothing.
pub open spec fn debiased(s: Seq<u8>) -> Seq<u8> {
    if s.len() < 2 {
        s
    } else if kept(s).len() == 0 {
        seq![s[0]]
    } else {
        kept(s)
    }
}

/// A debiased sequence together with the note that the fallback was taken.
pub struct Debiased {
    /// The debiased bits.
    pub bits: Vec<u8>,
    /// No pair contributed, and `bits` holds the first input element alone.
    /// The output is then as biased as the input was: callers should warn.
    pub fell_back: bool,
}

/// Debiases `bits` and tells whether the fallback was taken.
pub fn debias(bits: &[u8]) -> (out: Debiased)
    ensures
        out.bits@ == debiased(bits@),
        out.fell_back == falls_back(bits@),
        bits@.len() >= 2 ==> 1 <= out.bits@.len() <= bits@.len() / 2,
{
    proof {
        lemma_kept_of_pairs(bits@, bits@.len() / 2);
    }
    let n: usize = bits.len();
    if n < 2 {
        return Debiased { bits: slice_to_vec(bits), fell_back: false };
    }
    let mut result: Vec<u8> = Vec::new();
    let pairs: usize = n / 2;
    let mut p: usize = 0;
    while p < pairs
        invariant
            n == bits.len(),
            pairs == n / 2,
            p <= pairs,
            result@ == kept_of_pairs(bits@, p as nat),
        decreases pairs - p,
    {
        let a: u8 = bits[2 * p];
        let b: u8 = bits[2 * p + 1];
        if a != b {
            result.push(a);
        }
        p += 1;
    }
    if result.len() == 0 {
        result.push(bits[0]);
        Debiased { bits: result, fell_back: true }
    } else {
        Debiased { bits: result, fell_back: false }
    }
}

/// Removes first-order bias from `bits`. See [`debias`] for the form that
/// also reports the fallback.
pub fn von_neumann_debias(bits: &[u8]) -> (out: Vec<u8>)
    ensures
        out@ == debiased(bits@),
        bits@.len() >= 2 ==> 1 <= out@.len() <= bits@.len() / 2,
{
    debias(bits).bits
}

/// The first `n` pairs contribute at most one element each, every element
/// they contribute stands first in a pair of two different elements, and
/// they contribute nothing exactly when no pair among them differs.
pub proof fn lemma_kept_of_pairs(s: Seq<u8>, n: nat)
    ensures
        kept_of_pairs(s, n).len() <= n,
        forall|k: int|
            0 <= k < kept_of_pairs(s, n).len() ==> leads_differing_pair(
                s,
                n,
                #[trigger] kept_of_pairs(s, n)[k],
            ),
        kept_of_pairs(s, n).len() == 0 <==> forall|p: int|
            0 <= p < n ==> !#[trigger] pair_differs(s, p),
    decreases n,
{
    if n > 0 {
        let m = (n - 1) as nat;
        lemma_kept_of_pairs(s, m);
        let before = kept_of_pairs(s, m);
        let now = kept_of_pairs(s, n);
        assert forall|k: int| 0 <= k < now.len() implies leads_differing_pair(
            s,
            n,
            #[trigger] now[k],
        ) by {
            if k < before.len() {
                assert(leads_differing_pair(s, m, before[k]));
                let p = choose|p: int|
                    0 <= p < m && #[trigger] pair_differs(s, p) && before[k] == s[2 * p];
                assert(0 <= p < n && pair_differs(s, p) && now[k] == s[2 * p]);
            } else {
                let p = m as int;
                assert(0 <= p < n && pair_differs(s, p) && now[k] == s[2 * p]);
            }
        }
        if now.len() == 0 {
            assert(!pair_differs(s, m as int));
            assert forall|p: int| 0 <= p < n implies !#[trigger] pair_differs(s, p) by {
                if p >= m {
                    assert(p == m);
                }
            }
        }
        if forall|p: int| 0 <= p < n ==> !#[trigger] pair_differs(s, p) {
            assert(!pair_differs(s, m as int));
        }
    }
}

/// The debiased form of a sequence of two or more elements is not empty and
/// at most half as long as the sequence.
pub proof fn lemma_debiased_len(s: Seq<u8>)
    requires
        s.len() >= 2,
    ensures
        1 <= debiased(s).len() <= s.len() / 2,
{
    lemma_kept_of_pairs(s, s.len() / 2);
}

/// The fallback is taken exactly when the sequence has a pair and the two
/// elements of every pair are equal.
pub proof fn lemma_falls_back_iff_all_pairs_equal(s: Seq<u8>)
    ensures
        falls_back(s) <==> s.len() >= 2 && all_pairs_equal(s),
{
    lemma_kept_of_pairs(s, s.len() / 2);
}

/// Every element of the debiased form is an element of the input, so the
/// debiased form of a bit sequence is a bit sequence.
pub proof fn lemma_debiased_is_bit_seq(s: Seq<u8>)
    requires
        is_bit_seq(s),
    ensures
        is_bit_seq(debiased(s)),
{
    let n = s.len() / 2;
    lemma_kept_of_pairs(s, n);
    if s.len() >= 2 {
        assert(is_bit(s[0]));
        assert forall|k: int| 0 <= k < kept(s).len() implies is_bit(#[trigger] kept(s)[k]) by {
            assert(leads_differing_pair(s, n, kept_of_pairs(s, n)[k]));
            let p = choose|p: int|
                0 <= p < n && #[trigger] pair_differs(s, p) && kept_of_pairs(s, n)[k] == s[2 * p];
            assert(is_bit(s[2 * p]));
        }
    }
}

/// An element left over at an odd length is never looked at: a sequence of
/// three or more elements debiases as it does without it.
pub proof fn lemma_debiased_ignores_odd_tail(s: Seq<u8>)
    requires
        s.len() >= 3,
        s.len() % 2 == 1,
    ensures
        debiased(s) == debiased(s.drop_last()),
{
    lemma_kept_of_pairs_same_prefix(s, s.drop_last(), s.len() / 2);
}

/// Two sequences that agree on their first `2 * n` elements get the same
/// contribution from their first `n` pairs.
proof fn lemma_kept_of_pairs_same_prefix(a: Seq<u8>, b: Seq<u8>, n: nat)
    requires
        2 * n <= a.len(),
        2 * n <= b.len(),
        forall|k: int| 0 <= k < 2 * n ==> a[k] == b[k],
    ensures
        kept_of_pairs(a, n) == kept_of_pairs(b, n),
    decreases n,
{
    if n > 0 {
        lemma_kept_of_pairs_same_prefix(a, b, (n - 1) as nat);
        assert(a[2 * (n - 1)] == b[2 * (n - 1)]);
        assert(a[2 * (n - 1) + 1] == b[2 * (n - 1) + 1]);
    }
}

} // verus!
