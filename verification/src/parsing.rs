//! Reading values back out of a sequence of octets, bit by bit.

use vstd::prelude::*;
use vstd::arithmetic::power2::{pow2, lemma2_to64, lemma_pow2_unfold, lemma_pow2_strictly_increases};
use crate::bits::{
    splice, lemma_splice_written, lemma_int_bits_value, bits_of_bytes, bits_signed_value, bits_value, fits_unsigned, int_bits, lemma_int_bits_len,
    lemma_signed_roundtrip, lemma_subrange_split, lemma_unsigned_roundtrip, fits_signed,
};
use crate::records::model::EntityId;
use crate::types::{VarInt, VarIntKind, value_width};
use crate::writing::SerializeCdis;

verus! {

broadcast use lemma_int_bits_len;

/// The `n` bits at `pos`, read as an unsigned integer, with the position after them.
pub open spec fn spec_take(bits: Seq<bool>, pos: int, n: nat) -> Option<(int, nat)> {
    if 0 <= pos && pos + n <= bits.len() {
        Some((pos + n, bits_value(bits.subrange(pos, pos + n))))
    } else {
        None
    }
}

/// The `n` bits at `pos`, read as a two's-complement integer, with the position after them.
pub open spec fn spec_take_signed(bits: Seq<bool>, pos: int, n: nat) -> Option<(int, int)> {
    if 0 <= pos && pos + n <= bits.len() {
        Some((pos + n, bits_signed_value(bits.subrange(pos, pos + n))))
    } else {
        None
    }
}

/// A UVINT16 read at `pos`: a 2-bit size flag, then the value in the width it selects.
pub open spec fn spec_uvint16(bits: Seq<bool>, pos: int) -> Option<(int, VarInt)> {
    match spec_take(bits, pos, 2) {
        Some((p1, flag)) => match spec_take(bits, p1, value_width(VarIntKind::Uvint16, flag)) {
            Some((p2, value)) => Some((p2, VarInt { kind: VarIntKind::Uvint16, size_index: flag as u8, value: value as i64 })),
            None => None,
        },
        None => None,
    }
}

/// An entity identification read at `pos`: three UVINT16.
pub open spec fn spec_entity_identification(bits: Seq<bool>, pos: int) -> Option<(int, EntityId)> {
    match spec_uvint16(bits, pos) {
        Some((p1, site)) => match spec_uvint16(bits, p1) {
            Some((p2, application)) => match spec_uvint16(bits, p2) {
                Some((p3, entity)) => Some((p3, EntityId { site, application, entity })),
                None => None,
            },
            None => None,
        },
        None => None,
    }
}

/// Read `n` bits at bit position `pos` of `input` as an unsigned integer.
/// Returns the position after them and the value, or `None` where the input
/// is too short.
pub fn take_bits(input: &[u8], pos: usize, n: usize) -> (r: Option<(usize, u64)>)
    requires
        1 <= n <= 64,
        pos + n <= usize::MAX,
    ensures
        match r {
            Some((p, v)) => spec_take(bits_of_bytes(input@), pos as int, n as nat) == Some((p as int, v as nat)),
            None => spec_take(bits_of_bytes(input@), pos as int, n as nat) is None,
        },
{
    let ghost bits = bits_of_bytes(input@);
    if (pos as u128) + (n as u128) > (input.len() as u128) * 8 {
        return None;
    }
    let mut v: u64 = 0;
    let mut i: usize = 0;
    proof {
        lemma2_to64();
        assert(bits.subrange(pos as int, pos as int) =~= Seq::<bool>::empty());
    }
    while i < n
        invariant
            i <= n <= 64,
            pos + n <= bits.len(),
            pos + n <= usize::MAX,
            bits.len() == 8 * input@.len(),
            bits == bits_of_bytes(input@),
            v == bits_value(bits.subrange(pos as int, pos + i)),
            v < pow2(i as nat),
        decreases n - i,
    {
        let k = pos + i;
        let byte = input[k / 8];
        let shift = (7 - k % 8) as u8;
        let bit = (byte >> shift) & 1u8 == 1u8;
        proof {
            let s = bits.subrange(pos as int, k + 1);
            assert(s.drop_last() =~= bits.subrange(pos as int, k as int));
            assert(s.last() == bits[k as int]);
            assert(bits[k as int] == bit);
            lemma_pow2_unfold(i as nat + 1);
            lemma2_to64();
            if i + 1 < 64 {
                lemma_pow2_strictly_increases(i as nat + 1, 64);
            }
        }
        v = v * 2 + if bit { 1 } else { 0 };
        i = i + 1;
    }
    Some((pos + n, v))
}

/// Read `n` bits at bit position `pos` of `input` as a two's-complement
/// integer. Returns the position after them and the value, or `None` where the
/// input is too short.
pub fn take_signed(input: &[u8], pos: usize, n: usize) -> (r: Option<(usize, i64)>)
    requires
        1 <= n <= 32,
        pos + n <= usize::MAX,
    ensures
        match r {
            Some((p, v)) => spec_take_signed(bits_of_bytes(input@), pos as int, n as nat) == Some((p as int, v as int)),
            None => spec_take_signed(bits_of_bytes(input@), pos as int, n as nat) is None,
        },
{
    match take_bits(input, pos, n) {
        None => None,
        Some((p, u)) => {
            proof {
                vstd::bits::lemma_u64_pow2_no_overflow(n as nat);
                vstd::bits::lemma_u64_pow2_no_overflow((n - 1) as nat);
                vstd::bits::lemma_u64_shl_is_mul(1, n as u64);
                vstd::bits::lemma_u64_shl_is_mul(1, (n - 1) as u64);
                lemma_pow2_strictly_increases(n as nat, 33);
                lemma2_to64();
                let s = bits_of_bytes(input@).subrange(pos as int, pos + n);
                vstd::bits::lemma_low_bits_mask_values();
                assert(bits_value(s) < pow2(n as nat)) by {
                    lemma_bits_value_bound(s);
                }
            }
            let half: u64 = 1u64 << ((n - 1) as u64);
            let full: u64 = 1u64 << (n as u64);
            if u >= half {
                Some((p, (u as i64) - (full as i64)))
            } else {
                Some((p, u as i64))
            }
        },
    }
}

/// A bit sequence denotes less than `2^len`.
pub proof fn lemma_bits_value_bound(s: Seq<bool>)
    ensures
        bits_value(s) < pow2(s.len()),
    decreases s.len(),
{
    if s.len() == 0 {
        lemma2_to64();
    } else {
        lemma_bits_value_bound(s.drop_last());
        lemma_pow2_unfold(s.len());
    }
}

/// Read a UVINT16 at bit position `pos` of `input`.
pub fn uvint16(input: &[u8], pos: usize) -> (r: Option<(usize, VarInt)>)
    requires
        pos + 18 <= usize::MAX,
    ensures
        match r {
            Some((p, v)) => spec_uvint16(bits_of_bytes(input@), pos as int) == Some((p as int, v)) && p <= pos + 18,
            None => spec_uvint16(bits_of_bytes(input@), pos as int) is None,
        },
{
    let (p1, flag) = match take_bits(input, pos, 2) {
        Some(r) => r,
        None => return None,
    };
    proof {
        lemma_bits_value_bound(bits_of_bytes(input@).subrange(pos as int, pos + 2));
        lemma2_to64();
    }
    let shape = VarInt { kind: VarIntKind::Uvint16, size_index: flag as u8, value: 0 };
    let width = shape.value_bit_size();
    let (p2, value) = match take_bits(input, p1, width) {
        Some(r) => r,
        None => return None,
    };
    proof {
        lemma_bits_value_bound(bits_of_bytes(input@).subrange(p1 as int, p1 + width));
        lemma2_to64();
    }
    Some((p2, VarInt { kind: VarIntKind::Uvint16, size_index: flag as u8, value: value as i64 }))
}

/// Read an entity identification (three UVINT16) at bit position `pos` of `input`.
pub fn entity_identification(input: &[u8], pos: usize) -> (r: Option<(usize, EntityId)>)
    requires
        pos + 54 <= usize::MAX,
    ensures
        match r {
            Some((p, v)) => spec_entity_identification(bits_of_bytes(input@), pos as int) == Some((p as int, v)) && p <= pos + 54,
            None => spec_entity_identification(bits_of_bytes(input@), pos as int) is None,
        },
{
    let (p1, site) = match uvint16(input, pos) {
        Some(r) => r,
        None => return None,
    };
    let (p2, application) = match uvint16(input, p1) {
        Some(r) => r,
        None => return None,
    };
    let (p3, entity) = match uvint16(input, p2) {
        Some(r) => r,
        None => return None,
    };
    Some((p3, EntityId { site, application, entity }))
}

/// Reading `n` bits where the bits of an unsigned value that fits in them
/// were written gives back the value.
pub proof fn lemma_take_roundtrip(bits: Seq<bool>, pos: int, v: int, n: nat)
    requires
        fits_unsigned(v, n),
        0 <= pos,
        pos + n <= bits.len(),
        bits.subrange(pos, pos + n) == int_bits(v, n),
    ensures
        spec_take(bits, pos, n) == Some((pos + n, v as nat)),
{
    lemma_unsigned_roundtrip(v, n);
}

/// Reading `n` signed bits where the bits of a value that fits in them were
/// written gives back the value.
pub proof fn lemma_take_signed_roundtrip(bits: Seq<bool>, pos: int, v: int, n: nat)
    requires
        fits_signed(v, n),
        0 <= pos,
        pos + n <= bits.len(),
        bits.subrange(pos, pos + n) == int_bits(v, n),
    ensures
        spec_take_signed(bits, pos, n) == Some((pos + n, v)),
{
    lemma_signed_roundtrip(v, n);
}

/// An unsigned value written in `n` bits (as `write_integer_bits` does) reads
/// back as itself when it fits in them, and as its remainder modulo `2^n`
/// otherwise.
pub proof fn lemma_written_unsigned_reads_back(bits: Seq<bool>, pos: int, v: int, n: nat)
    requires
        0 <= v,
        0 <= pos,
        pos + n <= bits.len(),
    ensures
        spec_take(splice(bits, pos, int_bits(v, n)), pos, n) == Some((pos + n, (v % (pow2(n) as int)) as nat)),
        fits_unsigned(v, n) ==> spec_take(splice(bits, pos, int_bits(v, n)), pos, n) == Some((pos + n, v as nat)),
{
    lemma_splice_written(bits, pos, int_bits(v, n));
    lemma_int_bits_value(v, n);
    if fits_unsigned(v, n) {
        vstd::arithmetic::div_mod::lemma_small_mod(v as nat, pow2(n));
    }
}

/// A signed value written in `n` bits (as `write_signed_bits` does) reads
/// back as itself when it fits in them.
pub proof fn lemma_written_signed_reads_back(bits: Seq<bool>, pos: int, v: int, n: nat)
    requires
        fits_signed(v, n),
        0 <= pos,
        pos + n <= bits.len(),
    ensures
        spec_take_signed(splice(bits, pos, int_bits(v, n)), pos, n) == Some((pos + n, v)),
{
    lemma_splice_written(bits, pos, int_bits(v, n));
    lemma_signed_roundtrip(v, n);
}

/// A UVINT16 that fits its size reads back from where it was written.
pub proof fn lemma_uvint16_roundtrip(bits: Seq<bool>, pos: int, x: VarInt)
    requires
        x.kind == VarIntKind::Uvint16,
        x.fits(),
        0 <= pos,
        pos + x.encoding().len() <= bits.len(),
        bits.subrange(pos, pos + x.encoding().len()) == x.encoding(),
    ensures
        spec_uvint16(bits, pos) == Some((pos + x.encoding().len(), x)),
{
    let e1 = int_bits(x.size_index as int, 2);
    let w = x.spec_value_width();
    let e2 = int_bits(x.value as int, w);
    lemma_subrange_split(bits, pos, e1, e2);
    lemma2_to64();
    lemma_take_roundtrip(bits, pos, x.size_index as int, 2);
    lemma_take_roundtrip(bits, pos + 2, x.value as int, w);
}

/// An entity identification of UVINT16 that fit their sizes reads back from
/// where it was written.
pub proof fn lemma_entity_identification_roundtrip(bits: Seq<bool>, pos: int, id: EntityId)
    requires
        id.well_formed(),
        0 <= pos,
        pos + id.encoding().len() <= bits.len(),
        bits.subrange(pos, pos + id.encoding().len()) == id.encoding(),
    ensures
        spec_entity_identification(bits, pos) == Some((pos + id.encoding().len(), id)),
{
    let e1 = id.site.encoding();
    let e2 = id.application.encoding();
    let e3 = id.entity.encoding();
    lemma_subrange_split(bits, pos, e1 + e2, e3);
    lemma_subrange_split(bits, pos, e1, e2);
    lemma_uvint16_roundtrip(bits, pos, id.site);
    lemma_uvint16_roundtrip(bits, pos + e1.len(), id.application);
    lemma_uvint16_roundtrip(bits, pos + e1.len() + e2.len(), id.entity);
}

} // verus!
