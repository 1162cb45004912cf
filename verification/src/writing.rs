use vstd::prelude::*;
use crate::bits::{lemma_written_part, written_at};
use crate::bits::{codes_bits, lemma_codes_bits_len, bits_of_bytes, int_bits, splice, lemma_int_bits_len, lemma_int_bits_shift, lemma_splice_append, lemma_splice_empty};
use crate::constants::{EIGHT_BITS, MTU_BITS, SIXTEEN_BITS};
use crate::{CdisBody, CdisPdu};
use bitvec::array::BitArray;
use bitvec::field::BitField;
use bitvec::order::Msb0;

verus! {

/// A fixed-size buffer of bits, stored in `MTU_BITS` octets, bit 0 being the
/// most significant bit of octet 0. It holds bitvec's `BitArray` with the
/// `Msb0` ordering; its contents are known to Verus through `buffer_bytes`.
#[verifier::external_body]
pub struct BitBuffer {
    bits: BitArray<[u8; MTU_BITS], Msb0>,
}

/// The octets that a `BitBuffer` holds.
pub uninterp spec fn buffer_bytes(buf: BitBuffer) -> Seq<u8>;

/// The bits that a `BitBuffer` holds, in order.
pub open spec fn buffer_bits(buf: BitBuffer) -> Seq<bool> {
    bits_of_bytes(buffer_bytes(buf))
}

/// `BitArray::ZERO`: a buffer of `MTU_BITS` octets, all zero.
#[verifier::external_body]
fn zeroed_buffer() -> (buf: BitBuffer)
    ensures
        buffer_bytes(buf) == Seq::new(MTU_BITS as nat, |i: int| 0u8),
{
    BitBuffer { bits: BitArray::ZERO }
}

/// `BitField::store_be` on the bits `start..end` of the buffer (an `Msb0`
/// slice of octets): the `end - start` least significant bits of `value` are
/// stored there, most significant first, and no other bit changes. bitvec
/// panics on an empty range, on one wider than the value's type and on one
/// that runs past the buffer: `requires` leaves those out.
#[verifier::external_body]
fn store_be_bits(buf: &mut BitBuffer, start: usize, end: usize, value: u64)
    requires
        start < end,
        end - start <= 64,
        end <= buffer_bits(*old(buf)).len(),
    ensures
        buffer_bytes(*final(buf)).len() == buffer_bytes(*old(buf)).len(),
        buffer_bits(*final(buf)) == splice(
            buffer_bits(*old(buf)),
            start as int,
            int_bits(value as int, (end - start) as nat),
        ),
{
    buf.bits[start..end].store_be(value);
}

/// `BitArray::as_raw_slice`: the octets of the buffer, in order.
#[verifier::external_body]
fn raw_bytes(buf: &BitBuffer) -> (bytes: &[u8])
    ensures
        bytes@ == buffer_bytes(*buf),
{
    buf.bits.as_raw_slice()
}

/// `BitArray::len`: the number of bits in the buffer, eight per octet.
#[verifier::external_body]
fn bit_len(buf: &BitBuffer) -> (n: usize)
    ensures
        n == buffer_bits(*buf).len(),
{
    buf.bits.len()
}

impl BitBuffer {
    /// The octets of the buffer, in order.
    pub fn as_raw_slice(&self) -> (bytes: &[u8])
        ensures
            bytes@ == buffer_bytes(*self),
    {
        raw_bytes(self)
    }
}

/// A buffer of `MTU_BITS` octets with every bit clear.
#[must_use]
pub fn create_bit_buffer() -> (buf: BitBuffer)
    ensures
        buffer_bytes(buf).len() == MTU_BITS,
        buffer_bits(buf) == Seq::new(8 * MTU_BITS as nat, |i: int| false),
{
    let buf = zeroed_buffer();
    assert forall|k: int| 0 <= k < 8 * MTU_BITS implies #[trigger] buffer_bits(buf)[k] == false by {
        let j = (7 - k % 8) as u8;
        assert((0u8 >> j) & 1u8 == 0u8) by (bit_vector);
    }
    assert(buffer_bits(buf) =~= Seq::new(8 * MTU_BITS as nat, |i: int| false));
    buf
}

/// Write the `bit_size` least significant bits of `value` into `buf` from
/// bit `cursor` on, most significant first. Returns the new cursor position.
pub fn write_integer_bits(buf: &mut BitBuffer, cursor: usize, bit_size: usize, value: u64) -> (next: usize)
    requires
        1 <= bit_size <= 64,
        cursor + bit_size <= buffer_bits(*old(buf)).len(),
    ensures
        next == cursor + bit_size,
        buffer_bits(*final(buf)) == splice(buffer_bits(*old(buf)), cursor as int, int_bits(value as int, bit_size as nat)),
{
    let len = bit_len(buf);
    assert(cursor + bit_size <= len);
    let next_cursor = cursor + bit_size;
    store_be_bits(buf, cursor, next_cursor, value);
    next_cursor
}

/// Write the `bit_size` least significant bits of the two's-complement
/// representation of `value` into `buf` from bit `cursor` on. Returns the new
/// cursor position.
pub fn write_signed_bits(buf: &mut BitBuffer, cursor: usize, bit_size: usize, value: i64) -> (next: usize)
    requires
        1 <= bit_size <= 64,
        cursor + bit_size <= buffer_bits(*old(buf)).len(),
    ensures
        next == cursor + bit_size,
        buffer_bits(*final(buf)) == splice(buffer_bits(*old(buf)), cursor as int, int_bits(value as int, bit_size as nat)),
{
    let raw = value as u64;
    proof {
        if value < 0 {
            assert(value < 0 ==> raw as int == value as int + 0x1_0000_0000_0000_0000int) by (bit_vector)
                requires raw == value as u64;
            let n = bit_size as nat;
            let m = vstd::arithmetic::power2::pow2((64 - n) as nat) as int;
            vstd::arithmetic::power2::lemma_pow2_adds((64 - n) as nat, n);
            vstd::arithmetic::power2::lemma2_to64();
            assert(m * vstd::arithmetic::power2::pow2(n) == 0x1_0000_0000_0000_0000int);
            lemma_int_bits_shift(value as int, m, n);
        }
    }
    write_integer_bits(buf, cursor, bit_size, raw)
}

/// Write each of `codes` in `width` bits, one after the other. Returns the new
/// cursor position.
pub fn write_codes(buf: &mut BitBuffer, cursor: usize, codes: &Vec<u8>, width: usize) -> (next: usize)
    requires
        1 <= width <= 64,
        cursor + codes_bits(codes@, width as nat).len() <= buffer_bits(*old(buf)).len(),
    ensures
        next == cursor + codes_bits(codes@, width as nat).len(),
        buffer_bits(*final(buf)) == splice(buffer_bits(*old(buf)), cursor as int, codes_bits(codes@, width as nat)),
{
    let ghost b0 = buffer_bits(*buf);
    let mut cur = cursor;
    let mut i: usize = 0;
    proof {
        assert(codes@.take(0) =~= Seq::<u8>::empty());
        lemma_splice_empty(b0, cursor as int);
        lemma_codes_bits_len(codes@, width as nat);
    }
    while i < codes.len()
        invariant
            i <= codes.len(),
            1 <= width <= 64,
            cursor + codes_bits(codes@, width as nat).len() <= b0.len(),
            codes_bits(codes@, width as nat).len() == codes.len() * width,
            cur == cursor + codes_bits(codes@.take(i as int), width as nat).len(),
            buffer_bits(*buf) == splice(b0, cursor as int, codes_bits(codes@.take(i as int), width as nat)),
        decreases codes.len() - i,
    {
        proof {
            assert(codes@.take(i + 1).drop_last() =~= codes@.take(i as int));
            lemma_codes_bits_len(codes@.take(i + 1), width as nat);
            lemma_codes_bits_len(codes@.take(i as int), width as nat);
            lemma_int_bits_len(codes@[i as int] as int, width as nat);
            assert((i + 1) * width <= codes.len() * width) by (nonlinear_arith)
                requires i + 1 <= codes.len();
            lemma_splice_append(b0, cursor as int, codes_bits(codes@.take(i as int), width as nat),
                int_bits(codes@[i as int] as int, width as nat));
        }
        cur = write_integer_bits(buf, cur, width, codes[i] as u64);
        i = i + 1;
    }
    proof {
        assert(codes@.take(i as int) =~= codes@);
    }
    cur
}

/// A record that can be written into a `BitBuffer`.
pub trait SerializeCdis {
    /// Whether the writer accepts the value (every width it writes is one that
    /// the buffer can store).
    spec fn serializable(&self) -> bool;

    /// The bits that `serialize` writes, in order.
    spec fn encoding(&self) -> Seq<bool>;

    /// Write the value into `buf` from bit `cursor` on and return the position
    /// just after it. No other bit of the buffer changes.
    fn serialize(&self, buf: &mut BitBuffer, cursor: usize) -> (next: usize)
        requires
            self.serializable(),
            cursor + self.encoding().len() <= buffer_bits(*old(buf)).len(),
        ensures
            next == cursor + self.encoding().len(),
            buffer_bits(*final(buf)) == splice(buffer_bits(*old(buf)), cursor as int, self.encoding()),
    ;
}

/// The bits of an optional record: those of the record when it is there, none otherwise.
#[verifier::opaque]
pub open spec fn option_encoding<I: SerializeCdis>(field: Option<I>) -> Seq<bool> {
    match field {
        Some(inner) => inner.encoding(),
        None => Seq::empty(),
    }
}

/// Whether an optional record is absent or serializable.
#[verifier::opaque]
pub open spec fn option_serializable<I: SerializeCdis>(field: Option<I>) -> bool {
    match field {
        Some(inner) => inner.serializable(),
        None => true,
    }
}

/// The bits of a sequence of records, one after the other.
#[verifier::opaque]
pub open spec fn seq_encoding<I: SerializeCdis>(items: Seq<I>) -> Seq<bool>
    decreases items.len(),
{
    if items.len() == 0 {
        Seq::empty()
    } else {
        seq_encoding(items.drop_last()) + items.last().encoding()
    }
}

/// Whether every record of a sequence is serializable.
#[verifier::opaque]
pub open spec fn seq_serializable<I: SerializeCdis>(items: Seq<I>) -> bool {
    forall|i: int| 0 <= i < items.len() ==> #[trigger] items[i].serializable()
}

/// The bits of an optional value of `n` bits: those of the value when it is
/// there, none otherwise.
#[verifier::opaque]
pub open spec fn option_bits(value: Option<u64>, n: nat) -> Seq<bool> {
    match value {
        Some(v) => int_bits(v as int, n),
        None => Seq::empty(),
    }
}

/// The bit that a flag is written as.
#[verifier::opaque]
pub open spec fn flag_bits(flag: bool) -> Seq<bool> {
    int_bits(if flag { 1int } else { 0int }, 1)
}

/// Writes `value` in `bit_size` bits when it is present.
pub fn write_bits_when_present(buf: &mut BitBuffer, cursor: usize, bit_size: usize, value: Option<u64>) -> (next: usize)
    requires
        1 <= bit_size <= 64,
        cursor + option_bits(value, bit_size as nat).len() <= buffer_bits(*old(buf)).len(),
    ensures
        next == cursor + option_bits(value, bit_size as nat).len(),
        buffer_bits(*final(buf)) == splice(buffer_bits(*old(buf)), cursor as int, option_bits(value, bit_size as nat)),
{
    reveal(option_bits);
    if let Some(v) = value {
        proof { lemma_int_bits_len(v as int, bit_size as nat); }
        write_integer_bits(buf, cursor, bit_size, v)
    } else {
        proof { lemma_splice_empty(buffer_bits(*buf), cursor as int); }
        cursor
    }
}

/// Writes a flag as one bit: 1 when set, 0 otherwise.
pub fn write_flag(buf: &mut BitBuffer, cursor: usize, flag: bool) -> (next: usize)
    requires
        cursor + 1 <= buffer_bits(*old(buf)).len(),
    ensures
        next == cursor + 1,
        flag_bits(flag).len() == 1,
        buffer_bits(*final(buf)) == splice(buffer_bits(*old(buf)), cursor as int, flag_bits(flag)),
{
    reveal(flag_bits);
    proof { lemma_int_bits_len(if flag { 1int } else { 0int }, 1); }
    write_integer_bits(buf, cursor, 1, if flag { 1 } else { 0 })
}

/// Checks whether the provided `Option` is `Some`, and then serializes the contained value.
/// Where the field is `None` the buffer is left as it is, wherever `cursor`
/// points.
pub fn serialize_when_present<I: SerializeCdis>(field: &Option<I>, buf: &mut BitBuffer, cursor: usize) -> (next: usize)
    requires
        option_serializable(*field),
        field is Some ==> cursor + option_encoding(*field).len() <= buffer_bits(*old(buf)).len(),
    ensures
        next == cursor + option_encoding(*field).len(),
        field is None ==> next == cursor && buffer_bytes(*final(buf)) == buffer_bytes(*old(buf)),
        cursor <= buffer_bits(*old(buf)).len() ==> buffer_bits(*final(buf)) == splice(
            buffer_bits(*old(buf)),
            cursor as int,
            option_encoding(*field),
        ),
{
    reveal(option_encoding);
    reveal(option_serializable);
    if let Some(inner) = field {
        inner.serialize(buf, cursor)
    } else {
        proof {
            if cursor <= buffer_bits(*buf).len() {
                lemma_splice_empty(buffer_bits(*buf), cursor as int);
            }
        }
        cursor
    }
}

/// Serializes the records of `items` one after the other.
pub fn serialize_all<I: SerializeCdis>(items: &Vec<I>, buf: &mut BitBuffer, cursor: usize) -> (next: usize)
    requires
        seq_serializable(items@),
        cursor + seq_encoding(items@).len() <= buffer_bits(*old(buf)).len(),
    ensures
        next == cursor + seq_encoding(items@).len(),
        buffer_bits(*final(buf)) == splice(buffer_bits(*old(buf)), cursor as int, seq_encoding(items@)),
{
    reveal(seq_serializable);
    reveal(seq_encoding);
    let ghost b0 = buffer_bits(*buf);
    let mut cur = cursor;
    let mut i: usize = 0;
    proof {
        assert(items@.take(0) =~= Seq::<I>::empty());
        lemma_splice_empty(b0, cursor as int);
        lemma_seq_encoding_prefix_len(items@, 0);
    }
    while i < items.len()
        invariant
            i <= items.len(),
            seq_serializable(items@),
            cursor + seq_encoding(items@).len() <= b0.len(),
            cur == cursor + seq_encoding(items@.take(i as int)).len(),
            buffer_bits(*buf) == splice(b0, cursor as int, seq_encoding(items@.take(i as int))),
        decreases items.len() - i,
    {
        proof {
            reveal(seq_serializable);
            reveal(seq_encoding);
            assert(items@.take(i + 1).drop_last() =~= items@.take(i as int));
            lemma_seq_encoding_prefix_len(items@, i as int + 1);
            lemma_splice_append(b0, cursor as int, seq_encoding(items@.take(i as int)), items@[i as int].encoding());
        }
        cur = items[i].serialize(buf, cur);
        i = i + 1;
    }
    proof {
        assert(items@.take(i as int) =~= items@);
    }
    cur
}

/// Octets are always serializable.
pub proof fn lemma_octets_serializable(octets: Seq<u8>)
    ensures
        seq_serializable(octets),
{
    reveal(seq_serializable);
}

/// The bits of a prefix of a sequence are no more than those of the sequence.
pub proof fn lemma_seq_encoding_prefix_len<I: SerializeCdis>(items: Seq<I>, k: int)
    requires
        0 <= k <= items.len(),
    ensures
        seq_encoding(items.take(k)).len() <= seq_encoding(items).len(),
    decreases items.len() - k,
{
    reveal(seq_encoding);
    if k < items.len() {
        lemma_seq_encoding_prefix_len(items, k + 1);
        assert(items.take(k + 1).drop_last() =~= items.take(k));
    } else {
        assert(items.take(k) =~= items);
    }
}

impl SerializeCdis for CdisPdu {
    open spec fn serializable(&self) -> bool {
        self.header.serializable() && self.body.serializable()
    }

    /// The header, then the body.
    open spec fn encoding(&self) -> Seq<bool> {
        self.header.encoding() + self.body.encoding()
    }

    fn serialize(&self, buf: &mut BitBuffer, cursor: usize) -> (next: usize) {
        proof { lemma_splice_append(buffer_bits(*buf), cursor as int, self.header.encoding(), self.body.encoding()); }
        let cursor = self.header.serialize(buf, cursor);
        let cursor = self.body.serialize(buf, cursor);

        cursor
    }
}

impl SerializeCdis for CdisBody {
    open spec fn serializable(&self) -> bool {
        match self {
            CdisBody::Unsupported => true,
            CdisBody::RemoveEntity(body) => body.serializable(),
            CdisBody::Acknowledge(body) => body.serializable(),
            CdisBody::ElectromagneticEmission(body) => body.serializable(),
            CdisBody::Designator(body) => body.serializable(),
            CdisBody::Transmitter(body) => body.serializable(),
            CdisBody::Signal(body) => body.serializable(),
            CdisBody::Receiver(body) => body.serializable(),
        }
    }

    /// The bits of the body; none for an unsupported one.
    open spec fn encoding(&self) -> Seq<bool> {
        match self {
            CdisBody::Unsupported => Seq::empty(),
            CdisBody::RemoveEntity(body) => body.encoding(),
            CdisBody::Acknowledge(body) => body.encoding(),
            CdisBody::ElectromagneticEmission(body) => body.encoding(),
            CdisBody::Designator(body) => body.encoding(),
            CdisBody::Transmitter(body) => body.encoding(),
            CdisBody::Signal(body) => body.encoding(),
            CdisBody::Receiver(body) => body.encoding(),
        }
    }

    fn serialize(&self, buf: &mut BitBuffer, cursor: usize) -> (next: usize) {
        let cursor = match self {
            CdisBody::Unsupported => {
                proof { lemma_splice_empty(buffer_bits(*buf), cursor as int); }
                cursor
            },
            CdisBody::RemoveEntity(body) => body.serialize(buf, cursor),
            CdisBody::Acknowledge(body) => body.serialize(buf, cursor),
            CdisBody::ElectromagneticEmission(body) => body.serialize(buf, cursor),
            CdisBody::Designator(body) => body.serialize(buf, cursor),
            CdisBody::Transmitter(body) => body.serialize(buf, cursor),
            CdisBody::Signal(body) => body.serialize(buf, cursor),
            CdisBody::Receiver(body) => body.serialize(buf, cursor),
        };

        cursor
    }
}

impl SerializeCdis for u8 {
    open spec fn serializable(&self) -> bool {
        true
    }

    open spec fn encoding(&self) -> Seq<bool> {
        int_bits(*self as int, 8)
    }

    fn serialize(&self, buf: &mut BitBuffer, cursor: usize) -> (next: usize) {
        proof { lemma_int_bits_len(*self as int, 8); }
        write_integer_bits(buf, cursor, EIGHT_BITS, *self as u64)
    }
}

impl SerializeCdis for u16 {
    open spec fn serializable(&self) -> bool {
        true
    }

    open spec fn encoding(&self) -> Seq<bool> {
        int_bits(*self as int, 16)
    }

    fn serialize(&self, buf: &mut BitBuffer, cursor: usize) -> (next: usize) {
        proof { lemma_int_bits_len(*self as int, 16); }
        write_integer_bits(buf, cursor, SIXTEEN_BITS, *self as u64)
    }
}

/// Where a PDU is written, its header stands first and its body right after it.
pub proof fn lemma_pdu_layout(x: CdisPdu, bits: Seq<bool>, cursor: int)
    requires
        0 <= cursor,
        cursor + x.encoding().len() <= bits.len(),
    ensures
        ({
            let w = splice(bits, cursor, x.encoding());
            let header = x.header.encoding();
            let body = x.body.encoding();
            let o0 = cursor;
            let o1 = o0 + header.len();
            &&& x.encoding().len() == header.len() + body.len()
            &&& written_at(w, o0, header)
            &&& written_at(w, o1, body)
        }),
{
    let e = x.encoding();
    let w = splice(bits, cursor, e);
    let header = x.header.encoding();
    let body = x.body.encoding();
    let o0 = 0int;
    let o1 = o0 + header.len();
    assert(e.subrange(o0, o0 + header.len()) =~= header);
    lemma_written_part(bits, cursor, e, o0, header);
    assert(e.subrange(o1, o1 + body.len()) =~= body);
    lemma_written_part(bits, cursor, e, o1, body);
}

} // verus!
