//! The collecting side of an entropy source.
//!
//! A source delivers raw material: the bytes of an image, audio samples, or
//! lines of text that each hold one reading. A [`Collector`] takes the least
//! significant bit of each byte or sample, or the bit that a line states,
//! until it holds as many bits as were asked for. The devices themselves are
//! handled by the caller.

use crate::assess::{percent, percent_of};
use crate::codec::{is_bit, is_bit_seq};
use vstd::prelude::*;

verus! {

/// Why a source could not deliver.
#[derive(Clone, Copy, Debug, PartialEq, Eq)]
pub enum SourceError {
    /// The device is missing, busy, or may not be used.
    SourceUnavailable,
    /// The source dried up after `collected` bits, fewer than were asked for.
    InsufficientData {
        /// The number of bits that were collected.
        collected: usize,
    },
    /// The source delivers its data in a form that cannot be read.
    UnsupportedFormat,
}

/// The least significant bit of each byte of `data`.
pub open spec fn low_bits(data: Seq<u8>) -> Seq<u8> {
    Seq::new(data.len(), |k: int| data[k] % 2)
}

/// The least significant bit of a sample.
pub open spec fn sample_bit(sample: i16) -> u8 {
    (sample % 2) as u8
}

/// The least significant bit of each sample of `samples`.
pub open spec fn sample_bits(samples: Seq<i16>) -> Seq<u8> {
    Seq::new(samples.len(), |k: int| sample_bit(samples[k]))
}

/// Takes the least significant bit of a byte.
pub fn low_bit(byte: u8) -> (bit: u8)
    ensures
        bit == byte % 2,
        is_bit(bit),
{
    assert(byte & 1 == byte % 2) by (bit_vector);
    byte & 1
}

/// Takes the least significant bit of a sample.
pub fn low_bit_of_sample(sample: i16) -> (bit: u8)
    ensures
        bit == sample_bit(sample),
        is_bit(bit),
{
    assert(sample & 1 == sample % 2) by (bit_vector);
    (sample & 1) as u8
}

/// The signed sample with the bits of the unsigned sample `raw`.
pub open spec fn signed_sample(raw: u16) -> i16 {
    if raw < 0x8000 {
        raw as i16
    } else {
        (raw - 0x1_0000) as i16
    }
}

/// Reads an unsigned sample as a signed one of the same bits. The least
/// significant bit is the same in both.
pub fn sample_from_u16(raw: u16) -> (sample: i16)
    ensures
        sample == signed_sample(raw),
        sample_bit(sample) == raw % 2,
{
    let sample: i16 = raw as i16;
    assert(sample == signed_sample(raw) && sample % 2 == raw % 2) by (bit_vector)
        requires
            sample == raw as i16,
    ;
    sample
}

/// The ASCII code of the plus sign.
pub const PLUS: u8 = 0x2B;

/// The ASCII code of the digit zero.
pub const ZERO: u8 = 0x30;

/// The ASCII code of the digit one.
pub const ONE: u8 = 0x31;

/// The digits of a line: the line without a plus sign at its start.
pub open spec fn digits_of(line: Seq<u8>) -> Seq<u8> {
    if line.len() > 0 && line[0] == PLUS {
        line.skip(1)
    } else {
        line
    }
}

/// `digits` is a decimal numeral for 0 or for 1: zeros, and at the end one
/// digit that is `0` or `1`.
pub open spec fn is_bit_numeral(digits: Seq<u8>) -> bool {
    &&& digits.len() >= 1
    &&& forall|k: int| 0 <= k < digits.len() - 1 ==> digits[k] == ZERO
    &&& (digits.last() == ZERO || digits.last() == ONE)
}

/// The bit that `line` states, if it states one. A line states a bit where
/// it is a decimal numeral for 0 or 1, with or without a plus sign before
/// it, and nothing else.
pub open spec fn reading_of(line: Seq<u8>) -> Option<u8> {
    if is_bit_numeral(digits_of(line)) {
        Some((digits_of(line).last() - ZERO) as u8)
    } else {
        None
    }
}

/// Reads `line` as one reading of a source that sends its bits as text.
pub fn parse_reading(line: &[u8]) -> (reading: Option<u8>)
    ensures
        reading == reading_of(line@),
        reading matches Some(bit) ==> is_bit(bit),
{
    let n: usize = line.len();
    let start: usize = if n > 0 && line[0] == PLUS {
        1
    } else {
        0
    };
    if start == n {
        return None;
    }
    let ghost digits = digits_of(line@);
    assert(digits.len() == n - start);
    assert(forall|k: int| 0 <= k < digits.len() ==> digits[k] == line@[start + k]);
    let mut k: usize = start;
    while k < n - 1
        invariant
            start <= k <= n - 1,
            n == line.len(),
            digits == digits_of(line@),
            digits.len() == n - start,
            forall|t: int| 0 <= t < digits.len() ==> digits[t] == line@[start + t],
            forall|t: int| 0 <= t < k - start ==> digits[t] == ZERO,
        decreases n - k,
    {
        if line[k] != ZERO {
            assert(digits[k - start] != ZERO);
            return None;
        }
        k += 1;
    }
    let last: u8 = line[n - 1];
    assert(digits.last() == last);
    if last == ZERO {
        Some(0)
    } else if last == ONE {
        Some(1)
    } else {
        None
    }
}

/// The bits collected so far from a source, on the way to a wanted number.
pub struct Collector {
    bits: Vec<u8>,
    wanted: usize,
    rejected: usize,
}

impl Collector {
    /// The bits collected so far.
    pub closed spec fn collected(self) -> Seq<u8> {
        self.bits@
    }

    /// The number of bits asked for.
    pub closed spec fn target(self) -> nat {
        self.wanted as nat
    }

    /// The number of lines that were turned away, as far as it can be
    /// counted.
    pub closed spec fn refused(self) -> nat {
        self.rejected as nat
    }

    /// What holds of every collector: it holds bits, and no more of them
    /// than were asked for.
    pub open spec fn wf(self) -> bool {
        self.collected().len() <= self.target() && is_bit_seq(self.collected())
    }

    /// How many more bits the collector takes.
    pub open spec fn room(self) -> int {
        self.target() - self.collected().len()
    }

    /// Starts a collection of `wanted` bits.
    pub fn new(wanted: usize) -> (c: Collector)
        ensures
            c.wf(),
            c.collected() == Seq::<u8>::empty(),
            c.target() == wanted,
            c.refused() == 0,
    {
        Collector { bits: Vec::new(), wanted, rejected: 0 }
    }

    /// The number of bits collected so far.
    pub fn len(&self) -> (n: usize)
        ensures
            n == self.collected().len(),
    {
        self.bits.len()
    }

    /// The number of bits asked for.
    pub fn wanted(&self) -> (n: usize)
        ensures
            n == self.target(),
    {
        self.wanted
    }

    /// The number of lines turned away.
    pub fn rejected(&self) -> (n: usize)
        ensures
            n == self.refused(),
    {
        self.rejected
    }

    /// Whether all the bits asked for are there.
    pub fn is_complete(&self) -> (done: bool)
        requires
            self.wf(),
        ensures
            done == (self.collected().len() == self.target()),
    {
        self.bits.len() >= self.wanted
    }

    /// Takes the least significant bit of each byte of `data`, in order,
    /// until the collection is complete; the bytes after that are left out.
    pub fn absorb_bytes(&mut self, data: &[u8])
        requires
            old(self).wf(),
        ensures
            final(self).wf(),
            final(self).target() == old(self).target(),
            final(self).refused() == old(self).refused(),
            data@.len() <= old(self).room() ==> final(self).collected() == old(self).collected()
                + low_bits(data@),
            data@.len() > old(self).room() ==> final(self).collected() == old(self).collected()
                + low_bits(data@).take(old(self).room()),
    {
        let room: usize = self.wanted - self.bits.len();
        let take: usize = if data.len() <= room {
            data.len()
        } else {
            room
        };
        let mut k: usize = 0;
        while k < take
            invariant
                k <= take,
                take <= data.len(),
                take <= room,
                room == old(self).wanted - old(self).bits@.len(),
                self.wanted == old(self).wanted,
                self.rejected == old(self).rejected,
                self.bits@ == old(self).bits@ + low_bits(data@).take(k as int),
                is_bit_seq(self.bits@),
            decreases take - k,
        {
            let bit: u8 = low_bit(data[k]);
            assert(low_bits(data@).take(k + 1) =~= low_bits(data@).take(k as int).push(bit));
            self.bits.push(bit);
            k += 1;
        }
        assert(low_bits(data@).take(data@.len() as int) =~= low_bits(data@));
    }

    /// Takes the least significant bit of each sample of `samples`, in
    /// order, until the collection is complete; the samples after that are
    /// left out.
    pub fn absorb_samples(&mut self, samples: &[i16])
        requires
            old(self).wf(),
        ensures
            final(self).wf(),
            final(self).target() == old(self).target(),
            final(self).refused() == old(self).refused(),
            samples@.len() <= old(self).room() ==> final(self).collected() == old(
                self,
            ).collected() + sample_bits(samples@),
            samples@.len() > old(self).room() ==> final(self).collected() == old(
                self,
            ).collected() + sample_bits(samples@).take(old(self).room()),
    {
        let room: usize = self.wanted - self.bits.len();
        let take: usize = if samples.len() <= room {
            samples.len()
        } else {
            room
        };
        let mut k: usize = 0;
        while k < take
            invariant
                k <= take,
                take <= samples.len(),
                take <= room,
                room == old(self).wanted - old(self).bits@.len(),
                self.wanted == old(self).wanted,
                self.rejected == old(self).rejected,
                self.bits@ == old(self).bits@ + sample_bits(samples@).take(k as int),
                is_bit_seq(self.bits@),
            decreases take - k,
        {
            let bit: u8 = low_bit_of_sample(samples[k]);
            assert(sample_bits(samples@).take(k + 1) =~= sample_bits(samples@).take(
                k as int,
            ).push(bit));
            self.bits.push(bit);
            k += 1;
        }
        assert(sample_bits(samples@).take(samples@.len() as int) =~= sample_bits(samples@));
    }

    /// Takes one line of a source that sends its bits as text. A line that
    /// states a bit adds it to the collection, unless the collection is
    /// complete; any other line is turned away and counted. Returns whether
    /// the line stated a bit.
    pub fn accept_reading(&mut self, line: &[u8]) -> (stated: bool)
        requires
            old(self).wf(),
        ensures
            final(self).wf(),
            final(self).target() == old(self).target(),
            stated == reading_of(line@).is_some(),
            final(self).collected() == (if stated && old(self).room() > 0 {
                old(self).collected().push(reading_of(line@).unwrap())
            } else {
                old(self).collected()
            }),
            final(self).refused() == (if stated || old(self).refused() == usize::MAX {
                old(self).refused()
            } else {
                old(self).refused() + 1
            }),
    {
        match parse_reading(line) {
            Some(bit) => {
                if self.bits.len() < self.wanted {
                    self.bits.push(bit);
                }
                true
            },
            None => {
                if self.rejected < usize::MAX {
                    self.rejected += 1;
                }
                false
            },
        }
    }

    /// How far the collection has come, in percent of the bits asked for,
    /// rounded down. A collection of no bits is complete from the start.
    pub fn percent(&self) -> (p: usize)
        requires
            self.wf(),
        ensures
            p <= 100,
            self.target() > 0 ==> p == percent_of(
                self.collected().len() as int,
                self.target() as int,
            ),
            self.target() == 0 ==> p == 100,
    {
        if self.wanted == 0 {
            100
        } else {
            percent(self.bits.len(), self.wanted)
        }
    }

    /// Ends the collection: the bits, exactly as many as were asked for, or
    /// the error that tells how many there were instead.
    pub fn into_bits(self) -> (out: Result<Vec<u8>, SourceError>)
        requires
            self.wf(),
        ensures
            self.room() == 0 ==> (out matches Ok(bits) && bits@ == self.collected()),
            self.room() > 0 ==> out == Err::<Vec<u8>, SourceError>(
                SourceError::InsufficientData { collected: self.collected().len() as usize },
            ),
            out matches Ok(bits) ==> bits@.len() == self.target() && is_bit_seq(bits@),
    {
        if self.bits.len() == self.wanted {
            Ok(self.bits)
        } else {
            Err(SourceError::InsufficientData { collected: self.bits.len() })
        }
    }
}

} // verus!
