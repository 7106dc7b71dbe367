//! Lossless conversion between bit sequences and packed bytes.
//!
//! Within a byte the first bit of a group of eight is the least significant.

use vstd::prelude::*;

verus! {

/// A bit is the value 0 or 1.
pub open spec fn is_bit(b: u8) -> bool {
    b == 0 || b == 1
}

/// Every element of `s` is a bit.
pub open spec fn is_bit_seq(s: Seq<u8>) -> bool {
    forall|k: int| 0 <= k < s.len() ==> is_bit(#[trigger] s[k])
}

/// Bit `i` of `byte`, counted from the least significant one.
pub open spec fn bit_of(byte: u8, i: u8) -> u8 {
    (byte >> i) & 1
}

/// The bits of `bytes`, eight per byte, least significant first.
pub open spec fn unpacked(bytes: Seq<u8>) -> Seq<u8> {
    Seq::new(8 * bytes.len(), |k: int| bit_of(bytes[k / 8], (k % 8) as u8))
}

/// What the packer reads at position `k`: 1 where `bits` has a 1 there, and 0
/// elsewhere, which includes every position past the end.
pub open spec fn padded_bit(bits: Seq<u8>, k: int) -> u8 {
    if 0 <= k < bits.len() && bits[k] == 1 {
        1
    } else {
        0
    }
}

/// The byte whose bits, least significant first, are `b0` to `b7`.
pub open spec fn byte_from_bits(
    b0: u8,
    b1: u8,
    b2: u8,
    b3: u8,
    b4: u8,
    b5: u8,
    b6: u8,
    b7: u8,
) -> u8 {
    (b0 + 2 * b1 + 4 * b2 + 8 * b3 + 16 * b4 + 32 * b5 + 64 * b6 + 128 * b7) as u8
}

/// Byte `j` of the packed form of `bits`.
pub open spec fn packed_byte(bits: Seq<u8>, j: int) -> u8 {
    byte_from_bits(
        padded_bit(bits, 8 * j),
        padded_bit(bits, 8 * j + 1),
        padded_bit(bits, 8 * j + 2),
        padded_bit(bits, 8 * j + 3),
        padded_bit(bits, 8 * j + 4),
        padded_bit(bits, 8 * j + 5),
        padded_bit(bits, 8 * j + 6),
        padded_bit(bits, 8 * j + 7),
    )
}

/// The packed form of `bits`: one byte per group of eight, the last group
/// filled up with zeros.
pub open spec fn packed(bits: Seq<u8>) -> Seq<u8> {
    Seq::new(((bits.len() + 7) / 8) as nat, |j: int| packed_byte(bits, j))
}

/// Unpacks every byte into its eight bits, least significant first.
pub fn bytes_to_bits(bytes: &[u8]) -> (bits: Vec<u8>)
    ensures
        bits@ == unpacked(bytes@),
        bits@.len() == 8 * bytes@.len(),
        is_bit_seq(bits@),
{
    let mut bits: Vec<u8> = Vec::new();
    let mut j: usize = 0;
    while j < bytes.len()
        invariant
            j <= bytes.len(),
            bits@.len() == 8 * j,
            forall|k: int|
                0 <= k < bits@.len() ==> bits@[k] == bit_of(bytes@[k / 8], (k % 8) as u8),
        decreases bytes.len() - j,
    {
        let byte: u8 = bytes[j];
        let mut i: u8 = 0;
        while i < 8
            invariant
                i <= 8,
                j < bytes.len(),
                byte == bytes@[j as int],
                bits@.len() == 8 * j + i,
                forall|k: int|
                    0 <= k < bits@.len() ==> bits@[k] == bit_of(bytes@[k / 8], (k % 8) as u8),
            decreases 8 - i,
        {
            bits.push((byte >> i) & 1);
            i += 1;
        }
        j += 1;
    }
    proof {
        assert(bits@ =~= unpacked(bytes@));
        lemma_unpacked_is_bit_seq(bytes@);
    }
    bits
}

/// Position `base + i` of `bits` as the packer reads it.
fn group_bit(bits: &[u8], base: usize, i: usize) -> (b: u8)
    requires
        base < bits.len(),
        i < 8,
    ensures
        b == padded_bit(bits@, base + i),
{
    if i < bits.len() - base && bits[base + i] == 1 {
        1
    } else {
        0
    }
}

/// Packs the group of up to eight bits that starts at `base`.
fn pack_group(bits: &[u8], base: usize) -> (byte: u8)
    requires
        base < bits.len(),
        base % 8 == 0,
    ensures
        byte == packed_byte(bits@, base as int / 8),
{
    let b0: u8 = group_bit(bits, base, 0);
    let b1: u8 = group_bit(bits, base, 1);
    let b2: u8 = group_bit(bits, base, 2);
    let b3: u8 = group_bit(bits, base, 3);
    let b4: u8 = group_bit(bits, base, 4);
    let b5: u8 = group_bit(bits, base, 5);
    let b6: u8 = group_bit(bits, base, 6);
    let b7: u8 = group_bit(bits, base, 7);
    proof {
        lemma_or_of_shifted_bits(b0, b1, b2, b3, b4, b5, b6, b7);
    }
    b0 | (b1 << 1) | (b2 << 2) | (b3 << 3) | (b4 << 4) | (b5 << 5) | (b6 << 6) | (b7 << 7)
}

/// Packs bits into bytes, the first bit of each group of eight becoming the
/// least significant bit of its byte. A last group of fewer than eight bits
/// is filled up with zeros. An element other than 1 is read as 0.
pub fn bits_to_bytes(bits: &[u8]) -> (bytes: Vec<u8>)
    ensures
        bytes@ == packed(bits@),
        bytes@.len() == (bits@.len() + 7) / 8,
{
    let n: usize = bits.len();
    let count: usize = if n % 8 != 0 {
        n / 8 + 1
    } else {
        n / 8
    };
    let mut bytes: Vec<u8> = Vec::new();
    let mut j: usize = 0;
    while j < count
        invariant
            n == bits.len(),
            count == (n + 7) / 8,
            j <= count,
            bytes@.len() == j,
            forall|t: int| 0 <= t < j ==> bytes@[t] == packed_byte(bits@, t),
        decreases count - j,
    {
        let byte: u8 = pack_group(bits, j * 8);
        bytes.push(byte);
        j += 1;
    }
    bytes
}

/// Eight bits joined by shifts and ors make the byte that their weighted sum
/// names.
proof fn lemma_or_of_shifted_bits(b0: u8, b1: u8, b2: u8, b3: u8, b4: u8, b5: u8, b6: u8, b7: u8)
    requires
        b0 <= 1,
        b1 <= 1,
        b2 <= 1,
        b3 <= 1,
        b4 <= 1,
        b5 <= 1,
        b6 <= 1,
        b7 <= 1,
    ensures
        b0 | (b1 << 1) | (b2 << 2) | (b3 << 3) | (b4 << 4) | (b5 << 5) | (b6 << 6) | (b7 << 7)
            == byte_from_bits(b0, b1, b2, b3, b4, b5, b6, b7),
        b0 + 2 * b1 + 4 * b2 + 8 * b3 + 16 * b4 + 32 * b5 + 64 * b6 + 128 * b7 <= 255,
{
    assert(b0 <= 1 && b1 <= 1 && b2 <= 1 && b3 <= 1 && b4 <= 1 && b5 <= 1 && b6 <= 1 && b7 <= 1
        ==> b0 | (b1 << 1) | (b2 << 2) | (b3 << 3) | (b4 << 4) | (b5 << 5) | (b6 << 6) | (b7 << 7)
        == b0 + 2 * b1 + 4 * b2 + 8 * b3 + 16 * b4 + 32 * b5 + 64 * b6 + 128 * b7) by (bit_vector);
}

/// A byte is the weighted sum of its own eight bits.
proof fn lemma_byte_from_own_bits(byte: u8)
    ensures
        byte_from_bits(
            bit_of(byte, 0),
            bit_of(byte, 1),
            bit_of(byte, 2),
            bit_of(byte, 3),
            bit_of(byte, 4),
            bit_of(byte, 5),
            bit_of(byte, 6),
            bit_of(byte, 7),
        ) == byte,
{
    assert(((byte >> 0u8) & 1) + 2 * ((byte >> 1u8) & 1) + 4 * ((byte >> 2u8) & 1) + 8 * ((byte
        >> 3u8) & 1) + 16 * ((byte >> 4u8) & 1) + 32 * ((byte >> 5u8) & 1) + 64 * ((byte >> 6u8)
        & 1) + 128 * ((byte >> 7u8) & 1) == byte) by (bit_vector);
}

/// Each bit of a byte built from eight bits is the bit it was built from.
proof fn lemma_bits_of_built_byte(b0: u8, b1: u8, b2: u8, b3: u8, b4: u8, b5: u8, b6: u8, b7: u8)
    requires
        b0 <= 1,
        b1 <= 1,
        b2 <= 1,
        b3 <= 1,
        b4 <= 1,
        b5 <= 1,
        b6 <= 1,
        b7 <= 1,
    ensures
        bit_of(byte_from_bits(b0, b1, b2, b3, b4, b5, b6, b7), 0) == b0,
        bit_of(byte_from_bits(b0, b1, b2, b3, b4, b5, b6, b7), 1) == b1,
        bit_of(byte_from_bits(b0, b1, b2, b3, b4, b5, b6, b7), 2) == b2,
        bit_of(byte_from_bits(b0, b1, b2, b3, b4, b5, b6, b7), 3) == b3,
        bit_of(byte_from_bits(b0, b1, b2, b3, b4, b5, b6, b7), 4) == b4,
        bit_of(byte_from_bits(b0, b1, b2, b3, b4, b5, b6, b7), 5) == b5,
        bit_of(byte_from_bits(b0, b1, b2, b3, b4, b5, b6, b7), 6) == b6,
        bit_of(byte_from_bits(b0, b1, b2, b3, b4, b5, b6, b7), 7) == b7,
{
    lemma_or_of_shifted_bits(b0, b1, b2, b3, b4, b5, b6, b7);
    let v: u8 = b0 | (b1 << 1) | (b2 << 2) | (b3 << 3) | (b4 << 4) | (b5 << 5) | (b6 << 6) | (b7
        << 7);
    assert(b0 <= 1 && b1 <= 1 && b2 <= 1 && b3 <= 1 && b4 <= 1 && b5 <= 1 && b6 <= 1 && b7 <= 1
        && v == b0 | (b1 << 1) | (b2 << 2) | (b3 << 3) | (b4 << 4) | (b5 << 5) | (b6 << 6) | (b7
        << 7) ==> (v >> 0u8) & 1 == b0 && (v >> 1u8) & 1 == b1 && (v >> 2u8) & 1 == b2 && (v
        >> 3u8) & 1 == b3 && (v >> 4u8) & 1 == b4 && (v >> 5u8) & 1 == b5 && (v >> 6u8) & 1
        == b6 && (v >> 7u8) & 1 == b7) by (bit_vector);
}

/// The packer reads position `8 * j + i` of the unpacked bits of `bytes` as
/// bit `i` of byte `j`.
proof fn lemma_unpacked_position(bytes: Seq<u8>, j: int, i: u8)
    requires
        0 <= j < bytes.len(),
        i < 8,
    ensures
        padded_bit(unpacked(bytes), 8 * j + i) == bit_of(bytes[j], i),
{
    let k = 8 * j + i;
    lemma_bit_of_is_bit(bytes[j], i);
    assert(k / 8 == j && k % 8 == i);
    assert(unpacked(bytes)[k] == bit_of(bytes[k / 8], (k % 8) as u8));
}

/// Packing what was unpacked from a byte buffer gives the buffer back, for
/// every buffer.
pub proof fn lemma_pack_unpack(bytes: Seq<u8>)
    ensures
        packed(unpacked(bytes)) == bytes,
{
    let bits = unpacked(bytes);
    assert(packed(bits).len() == bytes.len());
    assert forall|j: int| 0 <= j < bytes.len() implies packed(bits)[j] == bytes[j] by {
        let byte = bytes[j];
        lemma_unpacked_position(bytes, j, 0);
        lemma_unpacked_position(bytes, j, 1);
        lemma_unpacked_position(bytes, j, 2);
        lemma_unpacked_position(bytes, j, 3);
        lemma_unpacked_position(bytes, j, 4);
        lemma_unpacked_position(bytes, j, 5);
        lemma_unpacked_position(bytes, j, 6);
        lemma_unpacked_position(bytes, j, 7);
        lemma_byte_from_own_bits(byte);
    }
    assert(packed(bits) =~= bytes);
}

/// Unpacking the packed form of any sequence gives, position by position,
/// what the packer read: 1 for a 1, and 0 for everything else and for the
/// filling of the last group.
pub proof fn lemma_unpack_pack_reads(bits: Seq<u8>)
    ensures
        unpacked(packed(bits)).len() == 8 * ((bits.len() + 7) / 8),
        forall|k: int|
            0 <= k < unpacked(packed(bits)).len() ==> #[trigger] unpacked(packed(bits))[k]
                == padded_bit(bits, k),
{
    let bytes = packed(bits);
    let round = unpacked(bytes);
    assert forall|k: int| 0 <= k < round.len() implies #[trigger] round[k] == padded_bit(
        bits,
        k,
    ) by {
        let j = k / 8;
        lemma_bits_of_built_byte(
            padded_bit(bits, 8 * j),
            padded_bit(bits, 8 * j + 1),
            padded_bit(bits, 8 * j + 2),
            padded_bit(bits, 8 * j + 3),
            padded_bit(bits, 8 * j + 4),
            padded_bit(bits, 8 * j + 5),
            padded_bit(bits, 8 * j + 6),
            padded_bit(bits, 8 * j + 7),
        );
        assert(round[k] == bit_of(bytes[j], (k % 8) as u8));
        assert(bytes[j] == packed_byte(bits, j));
        assert(k == 8 * j + k % 8);
    }
}

/// Unpacking the packed form of a bit sequence gives the sequence followed
/// by the zeros that filled its last group.
pub proof fn lemma_unpack_pack_padded(bits: Seq<u8>)
    requires
        is_bit_seq(bits),
    ensures
        unpacked(packed(bits)).len() == 8 * ((bits.len() + 7) / 8),
        unpacked(packed(bits)).len() >= bits.len(),
        unpacked(packed(bits)).take(bits.len() as int) == bits,
        forall|k: int|
            bits.len() <= k < unpacked(packed(bits)).len() ==> #[trigger] unpacked(
                packed(bits),
            )[k] == 0,
{
    lemma_unpack_pack_reads(bits);
    let round = unpacked(packed(bits));
    assert forall|k: int| 0 <= k < bits.len() implies round[k] == bits[k] by {
        assert(is_bit(bits[k]));
    }
    assert(round.take(bits.len() as int) =~= bits);
}

/// Unpacking the packed form of whole groups of eight bits gives them back.
pub proof fn lemma_unpack_pack(bits: Seq<u8>)
    requires
        is_bit_seq(bits),
        bits.len() % 8 == 0,
    ensures
        unpacked(packed(bits)) == bits,
{
    lemma_unpack_pack_padded(bits);
    assert(unpacked(packed(bits)).take(bits.len() as int) =~= unpacked(packed(bits)));
}

/// Where the length is no multiple of eight, the round trip through bytes is
/// strictly longer than the bits that went in.
pub proof fn lemma_unpack_pack_grows(bits: Seq<u8>)
    requires
        bits.len() % 8 != 0,
    ensures
        unpacked(packed(bits)).len() > bits.len(),
{
}

/// A bit taken out of a byte is 0 or 1.
pub proof fn lemma_bit_of_is_bit(byte: u8, i: u8)
    ensures
        is_bit(bit_of(byte, i)),
{
    assert((byte >> i) & 1 == 0 || (byte >> i) & 1 == 1) by (bit_vector);
}

/// What is unpacked from bytes is a bit sequence.
pub proof fn lemma_unpacked_is_bit_seq(bytes: Seq<u8>)
    ensures
        is_bit_seq(unpacked(bytes)),
{
    assert forall|k: int| 0 <= k < unpacked(bytes).len() implies is_bit(
        #[trigger] unpacked(bytes)[k],
    ) by {
        lemma_bit_of_is_bit(bytes[k / 8], (k % 8) as u8);
    }
}

} // verus!
