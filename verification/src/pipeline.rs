//! The conditioning pipeline: raw bits, then debiasing and whitening where
//! asked for, in that order, with a summary of the bits at every stage and
//! the form in which the final bits are stored.

use crate::assess::{count_ones, lemma_count_ones_bound, ones_in};
use crate::codec::{bits_to_bytes, is_bit_seq, packed};
use crate::debias::{
    debias, debiased, falls_back, lemma_debiased_is_bit_seq, lemma_debiased_len,
};
use crate::whiten::{hash_randomness, lemma_whitened_is_bit_seq, lemma_whitened_len, whitened};
use vstd::prelude::*;
use vstd::slice::slice_to_vec;

verus! {

/// What is reported of the bits at one stage: how many there are and how
/// many of them are 1. Their mean is `ones / length`.
#[derive(Clone, Copy, Debug, PartialEq, Eq)]
pub struct StageSummary {
    /// The number of bits.
    pub length: usize,
    /// The number of bits that are 1.
    pub ones: usize,
}

/// `summary` is the summary of `bits`.
pub open spec fn summarizes(summary: StageSummary, bits: Seq<u8>) -> bool {
    summary.length == bits.len() && summary.ones == count_ones(bits)
}

/// The bits after the debiasing stage, which is passed over unless
/// `debiasing` is set.
pub open spec fn after_debiasing(raw: Seq<u8>, debiasing: bool) -> Seq<u8> {
    if debiasing {
        debiased(raw)
    } else {
        raw
    }
}

/// The bits that the pipeline ends with: the raw bits, debiased if
/// `debiasing` is set, and after that whitened if `hashing` is set.
pub open spec fn processed(raw: Seq<u8>, debiasing: bool, hashing: bool) -> Seq<u8> {
    if hashing {
        whitened(after_debiasing(raw, debiasing))
    } else {
        after_debiasing(raw, debiasing)
    }
}

/// The outcome of one run of the pipeline.
pub struct PipelineResult {
    /// The bits after the last stage that ran.
    pub bits: Vec<u8>,
    /// The summary of the raw bits.
    pub before: StageSummary,
    /// The summary of the bits after debiasing, where that stage ran.
    pub debiased: Option<StageSummary>,
    /// Debiasing ran and had to fall back on the first raw bit: the output
    /// of that stage is as biased as its input, and the caller should warn.
    pub fell_back: bool,
    /// The summary of the bits after whitening, where that stage ran.
    pub whitened: Option<StageSummary>,
    /// The summary of `bits`.
    pub after: StageSummary,
}

/// Summarizes `bits`.
pub fn summarize(bits: &[u8]) -> (summary: StageSummary)
    ensures
        summarizes(summary, bits@),
        summary.ones <= summary.length,
{
    proof {
        lemma_count_ones_bound(bits@);
    }
    StageSummary { length: bits.len(), ones: ones_in(bits) }
}

/// Runs the stages that are asked for over `raw`, debiasing before
/// whitening, and reports the bits at every stage that ran.
pub fn process_bits(raw: &[u8], apply_debiasing: bool, apply_hashing: bool) -> (out:
    PipelineResult)
    ensures
        out.bits@ == processed(raw@, apply_debiasing, apply_hashing),
        summarizes(out.before, raw@),
        summarizes(out.after, out.bits@),
        apply_debiasing <==> out.debiased is Some,
        apply_debiasing ==> summarizes(out.debiased->0, debiased(raw@)),
        out.fell_back == (apply_debiasing && falls_back(raw@)),
        apply_hashing <==> out.whitened is Some,
        apply_hashing ==> out.whitened->0 == out.after,
{
    let before = summarize(raw);
    let (staged, debiased_summary, fell_back) = if apply_debiasing {
        let stage = debias(raw);
        let summary = summarize(stage.bits.as_slice());
        (stage.bits, Some(summary), stage.fell_back)
    } else {
        (slice_to_vec(raw), None, false)
    };
    let (bits, whitened_summary) = if apply_hashing {
        let mixed = hash_randomness(staged.as_slice());
        let summary = summarize(mixed.as_slice());
        (mixed, Some(summary))
    } else {
        (staged, None)
    };
    let after = summarize(bits.as_slice());
    PipelineResult {
        bits,
        before,
        debiased: debiased_summary,
        fell_back,
        whitened: whitened_summary,
        after,
    }
}

/// With no stage asked for, the pipeline hands the raw bits on as they are.
pub proof fn lemma_no_stage_is_identity(raw: Seq<u8>)
    ensures
        processed(raw, false, false) == raw,
{
}

/// The pipeline never turns bits into nothing, and only no bits stay no
/// bits: its result is empty exactly when the raw sequence is.
pub proof fn lemma_processed_empty_iff_raw_empty(raw: Seq<u8>, debiasing: bool, hashing: bool)
    ensures
        processed(raw, debiasing, hashing).len() == 0 <==> raw.len() == 0,
{
    if raw.len() >= 2 {
        lemma_debiased_len(raw);
    }
    lemma_whitened_len(after_debiasing(raw, debiasing));
}

/// With whitening asked for, raw bits of any number come out as exactly 256
/// bits, whether or not they were debiased first.
pub proof fn lemma_hashing_gives_256_bits(raw: Seq<u8>, debiasing: bool)
    requires
        raw.len() > 0,
    ensures
        processed(raw, debiasing, true).len() == 256,
{
    if raw.len() >= 2 {
        lemma_debiased_len(raw);
    }
    lemma_whitened_len(after_debiasing(raw, debiasing));
}

/// With debiasing alone, two or more raw bits come out as at most half as
/// many.
pub proof fn lemma_debiasing_halves(raw: Seq<u8>)
    requires
        raw.len() >= 2,
    ensures
        1 <= processed(raw, true, false).len() <= raw.len() / 2,
{
    lemma_debiased_len(raw);
}

/// What the pipeline makes of a bit sequence is a bit sequence.
pub proof fn lemma_processed_is_bit_seq(raw: Seq<u8>, debiasing: bool, hashing: bool)
    requires
        is_bit_seq(raw),
    ensures
        is_bit_seq(processed(raw, debiasing, hashing)),
{
    lemma_debiased_is_bit_seq(raw);
    lemma_whitened_is_bit_seq(after_debiasing(raw, debiasing));
}

/// The two forms in which final bits are stored.
#[derive(Clone, Copy, Debug, PartialEq, Eq)]
pub enum OutputForm {
    /// Packed bytes, eight bits each.
    Packed,
    /// One ASCII character, `0` or `1`, for each bit.
    Text,
}

/// The bytes to store, and the form they are in.
pub struct Output {
    /// The form of `bytes`.
    pub form: OutputForm,
    /// What is written to the destination.
    pub bytes: Vec<u8>,
}

/// The ASCII character for one element: `1` for a one, `0` for anything else.
pub open spec fn digit_of(bit: u8) -> u8 {
    if bit == 1 {
        0x31
    } else {
        0x30
    }
}

/// The text form of `bits`: one character per element, in order.
pub open spec fn text_of(bits: Seq<u8>) -> Seq<u8> {
    Seq::new(bits.len(), |k: int| digit_of(bits[k]))
}

/// The form in which `bits` are stored: packed where they fill whole bytes,
/// text where they do not.
pub open spec fn form_of(bits: Seq<u8>) -> OutputForm {
    if bits.len() % 8 == 0 {
        OutputForm::Packed
    } else {
        OutputForm::Text
    }
}

/// The bytes that are stored for `bits`.
pub open spec fn stored_bytes(bits: Seq<u8>) -> Seq<u8> {
    if bits.len() % 8 == 0 {
        packed(bits)
    } else {
        text_of(bits)
    }
}

/// Lays out final bits for storing: as packed bytes where their number is a
/// multiple of eight, and else as one `0` or `1` character per bit.
pub fn encode_output(bits: &[u8]) -> (out: Output)
    ensures
        out.form == form_of(bits@),
        out.bytes@ == stored_bytes(bits@),
{
    if bits.len() % 8 == 0 {
        Output { form: OutputForm::Packed, bytes: bits_to_bytes(bits) }
    } else {
        let mut text: Vec<u8> = Vec::new();
        let mut k: usize = 0;
        while k < bits.len()
            invariant
                k <= bits.len(),
                text@.len() == k,
                forall|t: int| 0 <= t < k ==> text@[t] == digit_of(bits@[t]),
            decreases bits.len() - k,
        {
            let digit: u8 = if bits[k] == 1 {
                0x31
            } else {
                0x30
            };
            text.push(digit);
            k += 1;
        }
        Output { form: OutputForm::Text, bytes: text }
    }
}

/// Stored bits take one byte per eight bits in packed form and one byte per
/// bit in text form.
pub proof fn lemma_stored_len(bits: Seq<u8>)
    ensures
        form_of(bits) == OutputForm::Packed ==> 8 * stored_bytes(bits).len() == bits.len(),
        form_of(bits) == OutputForm::Text ==> stored_bytes(bits).len() == bits.len(),
{
}

} // verus!
