//! The variable-size integers and the floating-point fields of C-DIS.

use vstd::prelude::*;
use crate::bits::{lemma_written_part, splice, written_at};
use crate::bits::{int_bits, fits_signed, fits_unsigned, lemma_int_bits_len, lemma_splice_append};
use crate::writing::{BitBuffer, SerializeCdis, buffer_bits, write_integer_bits, write_signed_bits};

verus! {

/// The kinds of variable-size integers: a size flag is written first, then
/// the value in the number of bits that the flag selects.
#[derive(Clone, Copy, Debug, PartialEq, Eq, Structural)]
pub enum VarIntKind {
    Uvint8,
    Uvint16,
    Uvint32,
    Svint12,
    Svint13,
    Svint14,
    Svint16,
    Svint24,
}

/// Width in bits of the size flag of a kind.
pub open spec fn flag_width(kind: VarIntKind) -> nat {
    match kind {
        VarIntKind::Uvint8 => 1,
        _ => 2,
    }
}

/// Number of sizes a kind offers.
pub open spec fn size_count(kind: VarIntKind) -> nat {
    match kind {
        VarIntKind::Uvint8 => 2,
        _ => 4,
    }
}

/// Width in bits of the value of a kind for a given size flag.
pub open spec fn value_width(kind: VarIntKind, size_index: nat) -> nat {
    let table: Seq<nat> = match kind {
        VarIntKind::Uvint8 => seq![4nat, 8nat],
        VarIntKind::Uvint16 => seq![8nat, 11nat, 14nat, 16nat],
        VarIntKind::Uvint32 => seq![8nat, 15nat, 18nat, 32nat],
        VarIntKind::Svint12 => seq![3nat, 6nat, 9nat, 12nat],
        VarIntKind::Svint13 => seq![5nat, 8nat, 11nat, 13nat],
        VarIntKind::Svint14 => seq![4nat, 7nat, 9nat, 14nat],
        VarIntKind::Svint16 => seq![8nat, 11nat, 14nat, 16nat],
        VarIntKind::Svint24 => seq![16nat, 19nat, 21nat, 24nat],
    };
    table[size_index as int]
}

/// Whether a kind holds signed values.
pub open spec fn is_signed(kind: VarIntKind) -> bool {
    match kind {
        VarIntKind::Uvint8 | VarIntKind::Uvint16 | VarIntKind::Uvint32 => false,
        _ => true,
    }
}

/// A variable-size integer (UVINT8, UVINT16, UVINT32, SVINT12, ..., SVINT24).
#[derive(Clone, Copy, Debug, PartialEq, Eq, Structural)]
pub struct VarInt {
    pub kind: VarIntKind,
    /// Which of the kind's sizes the value is written in.
    pub size_index: u8,
    pub value: i64,
}

/// The UVINT8 that holds `value`: in four bits where it fits, else in eight.
pub open spec fn uvint8_of(value: u8) -> VarInt {
    VarInt { kind: VarIntKind::Uvint8, size_index: if value < 16 { 0u8 } else { 1u8 }, value: value as i64 }
}

impl VarInt {
    /// Width in bits of the value.
    pub open spec fn spec_value_width(&self) -> nat {
        value_width(self.kind, self.size_index as nat)
    }

    /// Whether the value fits the size that the flag selects, so that it reads
    /// back unchanged.
    pub open spec fn fits(&self) -> bool {
        &&& (self.size_index as nat) < size_count(self.kind)
        &&& if is_signed(self.kind) {
            fits_signed(self.value as int, self.spec_value_width())
        } else {
            fits_unsigned(self.value as int, self.spec_value_width())
        }
    }

    pub fn new(kind: VarIntKind, size_index: u8, value: i64) -> (v: VarInt)
        ensures
            v == (VarInt { kind, size_index, value }),
    {
        VarInt { kind, size_index, value }
    }

    /// The UVINT8 holding `value`, in four bits where it fits, else in eight.
    pub fn uvint8(value: u8) -> (v: VarInt)
        ensures
            v == uvint8_of(value),
            v.fits(),
    {
        proof { vstd::arithmetic::power2::lemma2_to64(); }
        if value < 16 {
            VarInt { kind: VarIntKind::Uvint8, size_index: 0, value: value as i64 }
        } else {
            VarInt { kind: VarIntKind::Uvint8, size_index: 1, value: value as i64 }
        }
    }

    /// Width in bits of the size flag.
    pub fn flag_bit_size(&self) -> (n: usize)
        ensures
            n == flag_width(self.kind),
    {
        match self.kind {
            VarIntKind::Uvint8 => 1,
            _ => 2,
        }
    }

    /// Width in bits of the value.
    pub fn value_bit_size(&self) -> (n: usize)
        requires
            (self.size_index as nat) < size_count(self.kind),
        ensures
            n == self.spec_value_width(),
    {
        let i = self.size_index;
        match self.kind {
            VarIntKind::Uvint8 => if i == 0 { 4 } else { 8 },
            VarIntKind::Uvint16 => if i == 0 { 8 } else if i == 1 { 11 } else if i == 2 { 14 } else { 16 },
            VarIntKind::Uvint32 => if i == 0 { 8 } else if i == 1 { 15 } else if i == 2 { 18 } else { 32 },
            VarIntKind::Svint12 => if i == 0 { 3 } else if i == 1 { 6 } else if i == 2 { 9 } else { 12 },
            VarIntKind::Svint13 => if i == 0 { 5 } else if i == 1 { 8 } else if i == 2 { 11 } else { 13 },
            VarIntKind::Svint14 => if i == 0 { 4 } else if i == 1 { 7 } else if i == 2 { 9 } else { 14 },
            VarIntKind::Svint16 => if i == 0 { 8 } else if i == 1 { 11 } else if i == 2 { 14 } else { 16 },
            VarIntKind::Svint24 => if i == 0 { 16 } else if i == 1 { 19 } else if i == 2 { 21 } else { 24 },
        }
    }

    /// Length in bits of the written value, flag included.
    pub fn record_length(&self) -> (n: usize)
        requires
            self.serializable(),
        ensures
            n == self.encoding().len(),
    {
        proof {
            lemma_int_bits_len(self.size_index as int, flag_width(self.kind));
            lemma_int_bits_len(self.value as int, self.spec_value_width());
        }
        self.flag_bit_size() + self.value_bit_size()
    }
}

impl SerializeCdis for VarInt {
    open spec fn serializable(&self) -> bool {
        (self.size_index as nat) < size_count(self.kind)
    }

    open spec fn encoding(&self) -> Seq<bool> {
        int_bits(self.size_index as int, flag_width(self.kind)) + int_bits(self.value as int, self.spec_value_width())
    }

    fn serialize(&self, buf: &mut BitBuffer, cursor: usize) -> (next: usize) {
        let ghost b0 = buffer_bits(*buf);
        let ghost e1 = int_bits(self.size_index as int, flag_width(self.kind));
        let ghost e2 = int_bits(self.value as int, self.spec_value_width());
        proof {
            lemma_int_bits_len(self.size_index as int, flag_width(self.kind));
            lemma_int_bits_len(self.value as int, self.spec_value_width());
        }
        let cursor1 = write_integer_bits(buf, cursor, self.flag_bit_size(), self.size_index as u64);
        let width = self.value_bit_size();
        proof { lemma_splice_append(b0, cursor as int, e1, e2); }
        write_signed_bits(buf, cursor1, width, self.value)
    }
}

/// A C-DIS floating-point field: a signed mantissa and a signed exponent, each
/// in the width that the field's type prescribes.
#[derive(Clone, Copy, Debug, PartialEq, Eq, Structural)]
pub struct CdisFloat {
    pub mantissa: i64,
    pub mantissa_bits: u8,
    pub exponent: i64,
    pub exponent_bits: u8,
}

impl SerializeCdis for CdisFloat {
    open spec fn serializable(&self) -> bool {
        1 <= self.mantissa_bits <= 64 && 1 <= self.exponent_bits <= 64
    }

    open spec fn encoding(&self) -> Seq<bool> {
        int_bits(self.mantissa as int, self.mantissa_bits as nat) + int_bits(self.exponent as int, self.exponent_bits as nat)
    }

    fn serialize(&self, buf: &mut BitBuffer, cursor: usize) -> (next: usize) {
        let ghost b0 = buffer_bits(*buf);
        proof {
            lemma_int_bits_len(self.mantissa as int, self.mantissa_bits as nat);
            lemma_int_bits_len(self.exponent as int, self.exponent_bits as nat);
            lemma_splice_append(b0, cursor as int,
                int_bits(self.mantissa as int, self.mantissa_bits as nat),
                int_bits(self.exponent as int, self.exponent_bits as nat));
        }
        let cursor = write_signed_bits(buf, cursor, self.mantissa_bits as usize, self.mantissa);
        write_signed_bits(buf, cursor, self.exponent_bits as usize, self.exponent)
    }
}

/// The C-DIS timestamp: 26 bits.
#[derive(Clone, Copy, Debug, PartialEq, Eq, Structural)]
pub struct CdisTimestamp {
    pub value: u32,
}

impl Default for CdisTimestamp {
    fn default() -> (timestamp: Self)
        ensures
            timestamp.value == 0,
    {
        CdisTimestamp { value: 0 }
    }
}

impl SerializeCdis for CdisTimestamp {
    open spec fn serializable(&self) -> bool {
        true
    }

    open spec fn encoding(&self) -> Seq<bool> {
        int_bits(self.value as int, 26)
    }

    fn serialize(&self, buf: &mut BitBuffer, cursor: usize) -> (next: usize) {
        proof { lemma_int_bits_len(self.value as int, 26); }
        write_integer_bits(buf, cursor, crate::constants::TWENTY_SIX_BITS, self.value as u64)
    }
}

/// The widths of the variable-size integers, by kind and size flag:
/// UVINT8 4 or 8 bits; UVINT16 8, 11, 14 or 16; UVINT32 8, 15, 18 or 32;
/// SVINT12 3, 6, 9 or 12; SVINT13 5, 8, 11 or 13; SVINT14 4, 7, 9 or 14;
/// SVINT16 8, 11, 14 or 16; SVINT24 16, 19, 21 or 24. The size flag is one
/// bit wide for UVINT8 and two bits wide for the others.
pub proof fn lemma_var_int_widths()
    ensures
        flag_width(VarIntKind::Uvint8) == 1 && size_count(VarIntKind::Uvint8) == 2,
        value_width(VarIntKind::Uvint8, 0) == 4 && value_width(VarIntKind::Uvint8, 1) == 8,
        forall|k: VarIntKind| k != VarIntKind::Uvint8 ==> #[trigger] flag_width(k) == 2 && size_count(k) == 4,
        value_width(VarIntKind::Uvint16, 0) == 8 && value_width(VarIntKind::Uvint16, 1) == 11
            && value_width(VarIntKind::Uvint16, 2) == 14 && value_width(VarIntKind::Uvint16, 3) == 16,
        value_width(VarIntKind::Uvint32, 0) == 8 && value_width(VarIntKind::Uvint32, 1) == 15
            && value_width(VarIntKind::Uvint32, 2) == 18 && value_width(VarIntKind::Uvint32, 3) == 32,
        value_width(VarIntKind::Svint12, 0) == 3 && value_width(VarIntKind::Svint12, 1) == 6
            && value_width(VarIntKind::Svint12, 2) == 9 && value_width(VarIntKind::Svint12, 3) == 12,
        value_width(VarIntKind::Svint13, 0) == 5 && value_width(VarIntKind::Svint13, 1) == 8
            && value_width(VarIntKind::Svint13, 2) == 11 && value_width(VarIntKind::Svint13, 3) == 13,
        value_width(VarIntKind::Svint14, 0) == 4 && value_width(VarIntKind::Svint14, 1) == 7
            && value_width(VarIntKind::Svint14, 2) == 9 && value_width(VarIntKind::Svint14, 3) == 14,
        value_width(VarIntKind::Svint16, 0) == 8 && value_width(VarIntKind::Svint16, 1) == 11
            && value_width(VarIntKind::Svint16, 2) == 14 && value_width(VarIntKind::Svint16, 3) == 16,
        value_width(VarIntKind::Svint24, 0) == 16 && value_width(VarIntKind::Svint24, 1) == 19
            && value_width(VarIntKind::Svint24, 2) == 21 && value_width(VarIntKind::Svint24, 3) == 24,
{
}

/// The UVINT8 of a value below 16 is the flag 0 and the value in 4 bits;
/// that of any other value is the flag 1 and the value in 8 bits.
pub proof fn lemma_uvint8_bits(value: u8)
    ensures
        uvint8_of(value).encoding() == if value < 16 {
            int_bits(0, 1) + int_bits(value as int, 4)
        } else {
            int_bits(1, 1) + int_bits(value as int, 8)
        },
{
}

/// Where a variable-size integer is written, its size flag stands first, in
/// one bit for a UVINT8 and two bits for the others, then the value in the
/// width that the flag selects.
pub proof fn lemma_var_int_layout(x: VarInt, bits: Seq<bool>, cursor: int)
    requires
        0 <= cursor,
        cursor + x.encoding().len() <= bits.len(),
    ensures
        ({
            let w = splice(bits, cursor, x.encoding());
            let flag = int_bits(x.size_index as int, if x.kind == VarIntKind::Uvint8 { 1nat } else { 2nat });
            let value = int_bits(x.value as int, value_width(x.kind, x.size_index as nat));
            let o0 = cursor;
            let o1 = o0 + flag.len();
            &&& x.encoding().len() == flag.len() + value.len()
            &&& written_at(w, o0, flag)
            &&& written_at(w, o1, value)
        }),
{
    let e = x.encoding();
    let w = splice(bits, cursor, e);
    let flag = int_bits(x.size_index as int, if x.kind == VarIntKind::Uvint8 { 1nat } else { 2nat });
    let value = int_bits(x.value as int, value_width(x.kind, x.size_index as nat));
    let o0 = 0int;
    let o1 = o0 + flag.len();
    assert(e.subrange(o0, o0 + flag.len()) =~= flag);
    lemma_written_part(bits, cursor, e, o0, flag);
    assert(e.subrange(o1, o1 + value.len()) =~= value);
    lemma_written_part(bits, cursor, e, o1, value);
}

/// Where a float is written, the mantissa stands first, then the exponent, each
/// in its own width.
pub proof fn lemma_cdis_float_layout(x: CdisFloat, bits: Seq<bool>, cursor: int)
    requires
        0 <= cursor,
        cursor + x.encoding().len() <= bits.len(),
    ensures
        ({
            let w = splice(bits, cursor, x.encoding());
            let mantissa = int_bits(x.mantissa as int, x.mantissa_bits as nat);
            let exponent = int_bits(x.exponent as int, x.exponent_bits as nat);
            let o0 = cursor;
            let o1 = o0 + mantissa.len();
            &&& x.encoding().len() == mantissa.len() + exponent.len()
            &&& written_at(w, o0, mantissa)
            &&& written_at(w, o1, exponent)
        }),
{
    let e = x.encoding();
    let w = splice(bits, cursor, e);
    let mantissa = int_bits(x.mantissa as int, x.mantissa_bits as nat);
    let exponent = int_bits(x.exponent as int, x.exponent_bits as nat);
    let o0 = 0int;
    let o1 = o0 + mantissa.len();
    assert(e.subrange(o0, o0 + mantissa.len()) =~= mantissa);
    lemma_written_part(bits, cursor, e, o0, mantissa);
    assert(e.subrange(o1, o1 + exponent.len()) =~= exponent);
    lemma_written_part(bits, cursor, e, o1, exponent);
}

/// Where a timestamp is written, it stands in 26 bits.
pub proof fn lemma_timestamp_layout(x: CdisTimestamp, bits: Seq<bool>, cursor: int)
    requires
        0 <= cursor,
        cursor + x.encoding().len() <= bits.len(),
    ensures
        ({
            let w = splice(bits, cursor, x.encoding());
            let value = int_bits(x.value as int, 26);
            let o0 = cursor;
            &&& x.encoding().len() == value.len()
            &&& written_at(w, o0, value)
        }),
{
    let e = x.encoding();
    let w = splice(bits, cursor, e);
    let value = int_bits(x.value as int, 26);
    let o0 = 0int;
    assert(e.subrange(o0, o0 + value.len()) =~= value);
    lemma_written_part(bits, cursor, e, o0, value);
}

} // verus!
