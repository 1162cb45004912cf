//! Mathematical model of bit strings: integers as fixed-width big-endian bit
//! sequences, reading them back, and writing a sequence over part of another.

use vstd::prelude::*;
use vstd::arithmetic::power2::{pow2, lemma_pow2_unfold, lemma_pow2_pos};
use vstd::arithmetic::div_mod::{lemma_mod_breakdown, lemma_fundamental_div_mod};

verus! {

/// The `n` least significant bits of the two's-complement representation of
/// `v`, most significant first.
pub open spec fn int_bits(v: int, n: nat) -> Seq<bool>
    decreases n,
{
    if n == 0 {
        Seq::empty()
    } else {
        int_bits(v / 2, (n - 1) as nat).push(v % 2 == 1)
    }
}

/// The unsigned integer that a big-endian bit sequence denotes.
pub open spec fn bits_value(s: Seq<bool>) -> nat
    decreases s.len(),
{
    if s.len() == 0 {
        0
    } else {
        2 * bits_value(s.drop_last()) + if s.last() { 1nat } else { 0nat }
    }
}

/// The signed integer that a big-endian two's-complement bit sequence denotes.
pub open spec fn bits_signed_value(s: Seq<bool>) -> int {
    if s.len() > 0 && bits_value(s) >= pow2((s.len() - 1) as nat) {
        bits_value(s) - pow2(s.len())
    } else {
        bits_value(s) as int
    }
}

/// Bit `j` (0 being the least significant) of octet `b`.
pub open spec fn byte_bit(b: u8, j: u8) -> bool {
    (b >> j) & 1u8 == 1u8
}

/// The bits of a sequence of octets, most significant bit of each octet first.
pub open spec fn bits_of_bytes(s: Seq<u8>) -> Seq<bool> {
    Seq::new(8 * s.len(), |k: int| byte_bit(s[k / 8], (7 - k % 8) as u8))
}

/// `buf` with `s` written over it from position `at` on.
#[verifier::opaque]
pub open spec fn splice(buf: Seq<bool>, at: int, s: Seq<bool>) -> Seq<bool> {
    buf.take(at) + s + buf.skip(at + s.len())
}

/// Codes written one after the other, `width` bits each.
pub open spec fn codes_bits(codes: Seq<u8>, width: nat) -> Seq<bool>
    decreases codes.len(),
{
    if codes.len() == 0 {
        Seq::empty()
    } else {
        codes_bits(codes.drop_last(), width) + int_bits(codes.last() as int, width)
    }
}

/// Whether `v` can be written in `n` bits as an unsigned integer.
pub open spec fn fits_unsigned(v: int, n: nat) -> bool {
    0 <= v < pow2(n)
}

/// Whether `v` can be written in `n` bits in two's complement.
pub open spec fn fits_signed(v: int, n: nat) -> bool {
    n > 0 && -(pow2((n - 1) as nat) as int) <= v < pow2((n - 1) as nat)
}

/// Writing `s1` and then `s2` right behind it is writing `s1 + s2`.
pub proof fn lemma_splice_append(b: Seq<bool>, at: int, s1: Seq<bool>, s2: Seq<bool>)
    requires
        0 <= at,
        at + s1.len() + s2.len() <= b.len(),
    ensures
        splice(b, at, s1).len() == b.len(),
        splice(splice(b, at, s1), at + s1.len(), s2) == splice(b, at, s1 + s2),
{
    reveal(splice);
    assert(splice(splice(b, at, s1), at + s1.len(), s2) =~= splice(b, at, s1 + s2));
}

/// Writing `s` at `at` changes no bit outside `at..at + s.len()`.
pub proof fn lemma_splice_frame(b: Seq<bool>, at: int, s: Seq<bool>, k: int)
    requires
        0 <= at,
        at + s.len() <= b.len(),
        0 <= k < b.len(),
        k < at || at + s.len() <= k,
    ensures
        splice(b, at, s)[k] == b[k],
{
    reveal(splice);
}

/// The bits `s` stand in `w` from position `pos` on.
pub open spec fn written_at(w: Seq<bool>, pos: int, s: Seq<bool>) -> bool {
    &&& 0 <= pos
    &&& pos + s.len() <= w.len()
    &&& w.subrange(pos, pos + s.len()) == s
}

/// Four parts written one after the other each stand where the ones before
/// them end.
pub proof fn lemma_written_four(w: Seq<bool>, o: int, k1: Seq<bool>, k2: Seq<bool>, k3: Seq<bool>, k4: Seq<bool>)
    requires
        written_at(w, o, k1 + k2 + k3 + k4),
    ensures
        written_at(w, o, k1),
        written_at(w, o + k1.len(), k2),
        written_at(w, o + k1.len() + k2.len(), k3),
        written_at(w, o + k1.len() + k2.len() + k3.len(), k4),
{
    lemma_subrange_split(w, o, k1 + k2 + k3, k4);
    lemma_subrange_split(w, o, k1 + k2, k3);
    lemma_subrange_split(w, o, k1, k2);
}

/// A part of what was written at `c`, found at offset `o` of it, stands in
/// the result at `c + o`.
pub proof fn lemma_written_part(b: Seq<bool>, c: int, e: Seq<bool>, o: int, part: Seq<bool>)
    requires
        0 <= c,
        c + e.len() <= b.len(),
        0 <= o,
        o + part.len() <= e.len(),
        e.subrange(o, o + part.len()) == part,
    ensures
        written_at(splice(b, c, e), c + o, part),
{
    lemma_splice_written(b, c, e);
    assert(splice(b, c, e).subrange(c + o, c + o + part.len())
        =~= splice(b, c, e).subrange(c, c + e.len()).subrange(o, o + part.len()));
}

/// A part of a run that stands in `e` from `a` on stands in `e` at its own
/// offset within that run.
pub proof fn lemma_subrange_within(e: Seq<bool>, a: int, big: Seq<bool>, o: int, part: Seq<bool>)
    requires
        0 <= a,
        a + big.len() <= e.len(),
        e.subrange(a, a + big.len()) == big,
        0 <= o,
        o + part.len() <= big.len(),
        big.subrange(o, o + part.len()) == part,
    ensures
        e.subrange(a + o, a + o + part.len()) == part,
{
    assert(e.subrange(a + o, a + o + part.len()) =~= e.subrange(a, a + big.len()).subrange(o, o + part.len()));
}

/// Writing nothing changes nothing.
pub proof fn lemma_splice_empty(b: Seq<bool>, at: int)
    requires
        0 <= at <= b.len(),
    ensures
        splice(b, at, Seq::empty()) == b,
{
    reveal(splice);
    assert(splice(b, at, Seq::empty()) =~= b);
}

pub broadcast proof fn lemma_int_bits_len(v: int, n: nat)
    ensures
        #[trigger] int_bits(v, n).len() == n,
    decreases n,
{
    if n > 0 {
        lemma_int_bits_len(v / 2, (n - 1) as nat);
    }
}

pub broadcast proof fn lemma_codes_bits_len(codes: Seq<u8>, width: nat)
    ensures
        #[trigger] codes_bits(codes, width).len() == codes.len() * width,
    decreases codes.len(),
{
    if codes.len() > 0 {
        lemma_codes_bits_len(codes.drop_last(), width);
        lemma_int_bits_len(codes.last() as int, width);
        assert((codes.len() - 1) * width + width == codes.len() * width) by (nonlinear_arith);
    }
}

/// Reading back the bits of a non-negative value gives its remainder modulo `2^n`.
pub proof fn lemma_int_bits_value(v: int, n: nat)
    requires
        0 <= v,
    ensures
        bits_value(int_bits(v, n)) == v % (pow2(n) as int),
    decreases n,
{
    lemma_int_bits_len(v, n);
    if n == 0 {
        assert(pow2(0) == 1) by { vstd::arithmetic::power2::lemma2_to64(); }
    } else {
        let s = int_bits(v, n);
        lemma_int_bits_value(v / 2, (n - 1) as nat);
        assert(s.drop_last() =~= int_bits(v / 2, (n - 1) as nat));
        lemma_pow2_unfold(n);
        lemma_pow2_pos((n - 1) as nat);
        lemma_mod_breakdown(v, 2, pow2((n - 1) as nat) as int);
    }
}

/// The bits of `v` depend only on `v` modulo `2^n`.
pub proof fn lemma_int_bits_shift(v: int, m: int, n: nat)
    ensures
        int_bits(v + m * pow2(n), n) == int_bits(v, n),
    decreases n,
{
    if n > 0 {
        lemma_pow2_unfold(n);
        let p = pow2((n - 1) as nat) as int;
        let w = v + m * pow2(n);
        assert(w == v + 2 * (m * p)) by (nonlinear_arith)
            requires w == v + m * pow2(n), pow2(n) == 2 * p;
        lemma_fundamental_div_mod(v, 2);
        lemma_fundamental_div_mod(w, 2);
        assert(w / 2 == v / 2 + m * p && w % 2 == v % 2) by {
            let q = v / 2;
            let r = v % 2;
            assert(w == 2 * (q + m * p) + r) by (nonlinear_arith)
                requires w == v + 2 * (m * p), v == 2 * q + r;
            vstd::arithmetic::div_mod::lemma_div_multiples_vanish_fancy(q + m * p, r, 2);
            vstd::arithmetic::div_mod::lemma_mod_multiples_vanish(q + m * p, r, 2);
        }
        lemma_int_bits_shift(v / 2, m, (n - 1) as nat);
    }
}

/// A signed value that fits in `n` bits reads back unchanged.
pub proof fn lemma_signed_roundtrip(v: int, n: nat)
    requires
        fits_signed(v, n),
    ensures
        int_bits(v, n).len() == n,
        bits_signed_value(int_bits(v, n)) == v,
{
    lemma_int_bits_len(v, n);
    lemma_pow2_unfold(n);
    lemma_pow2_pos((n - 1) as nat);
    if v >= 0 {
        lemma_int_bits_value(v, n);
        vstd::arithmetic::div_mod::lemma_small_mod(v as nat, pow2(n));
    } else {
        lemma_int_bits_shift(v, 1, n);
        lemma_int_bits_value(v + pow2(n), n);
        vstd::arithmetic::div_mod::lemma_small_mod((v + pow2(n)) as nat, pow2(n));
    }
}

/// The part of a spliced sequence that was written is what was written.
pub proof fn lemma_splice_written(b: Seq<bool>, at: int, s: Seq<bool>)
    requires
        0 <= at,
        at + s.len() <= b.len(),
    ensures
        splice(b, at, s).len() == b.len(),
        splice(b, at, s).subrange(at, at + s.len()) == s,
{
    reveal(splice);
    assert(splice(b, at, s).subrange(at, at + s.len()) =~= s);
}

/// A run of bits that holds `s1 + s2` holds `s1`, then `s2`.
pub proof fn lemma_subrange_split(b: Seq<bool>, at: int, s1: Seq<bool>, s2: Seq<bool>)
    requires
        0 <= at,
        at + s1.len() + s2.len() <= b.len(),
        b.subrange(at, at + s1.len() + s2.len()) == s1 + s2,
    ensures
        b.subrange(at, at + s1.len()) == s1,
        b.subrange(at + s1.len(), at + s1.len() + s2.len()) == s2,
{
    assert(b.subrange(at, at + s1.len()) =~= (s1 + s2).subrange(0, s1.len() as int));
    assert(b.subrange(at + s1.len(), at + s1.len() + s2.len()) =~= (s1 + s2).subrange(s1.len() as int, (s1.len() + s2.len()) as int));
    assert((s1 + s2).subrange(0, s1.len() as int) =~= s1);
    assert((s1 + s2).subrange(s1.len() as int, (s1.len() + s2.len()) as int) =~= s2);
}

/// An unsigned value that fits in `n` bits reads back unchanged.
pub proof fn lemma_unsigned_roundtrip(v: int, n: nat)
    requires
        fits_unsigned(v, n),
    ensures
        int_bits(v, n).len() == n,
        bits_value(int_bits(v, n)) == v,
{
    lemma_int_bits_len(v, n);
    lemma_int_bits_value(v, n);
    vstd::arithmetic::div_mod::lemma_small_mod(v as nat, pow2(n));
}

} // verus!
