//! The mathematical model of the packed font bit stream.
//!
//! Glyph headers and bitmaps are stored as a stream of bit fields without any
//! byte alignment. The stream is read least-significant-bit first within each
//! byte. This module defines the bit-level view of a byte sequence and the
//! value of a bit field, together with the lemmas that connect them to the
//! machine arithmetic of the executable reader.

use vstd::arithmetic::div_mod::{lemma_div_denominator, lemma_mod_breakdown};
use vstd::arithmetic::power2::{lemma_pow2_adds, lemma_pow2_pos, lemma_pow2_unfold, pow2};
use vstd::prelude::*;

verus! {

/// Bit `i` (least-significant first) of the byte `b`.
pub open spec fn u8_bit(b: u8, i: int) -> bool
    recommends
        0 <= i < 8,
{
    (b as nat / pow2(i as nat)) % 2 == 1
}

/// The bits of a whole byte sequence, least-significant bit of the first byte
/// first.
pub open spec fn blob_bits(data: Seq<u8>) -> Seq<bool> {
    Seq::new((data.len() * 8) as nat, |i: int| u8_bit(data[i / 8], i % 8))
}

/// The unsigned value of a bit field, least-significant bit first.
pub open spec fn bits_value(s: Seq<bool>) -> nat
    decreases s.len(),
{
    if s.len() == 0 {
        0
    } else {
        (if s[0] {
            1nat
        } else {
            0nat
        }) + 2 * bits_value(s.skip(1))
    }
}

/// The value of a concatenated bit field splits at the concatenation point.
pub proof fn lemma_bits_value_append(s1: Seq<bool>, s2: Seq<bool>)
    ensures
        bits_value(s1 + s2) == bits_value(s1) + pow2(s1.len()) * bits_value(s2),
    decreases s1.len(),
{
    if s1.len() == 0 {
        assert(s1 + s2 =~= s2);
        assert(pow2(0) == 1) by {
            lemma_pow2_unfold(1);
            lemma_pow2_pos(0);
            assert(pow2(1) == 2) by {
                vstd::arithmetic::power2::lemma2_to64();
            }
        }
    } else {
        assert((s1 + s2).skip(1) =~= s1.skip(1) + s2);
        lemma_bits_value_append(s1.skip(1), s2);
        lemma_pow2_unfold(s1.len());
        assert(bits_value(s1 + s2) == (if s1[0] {
            1nat
        } else {
            0nat
        }) + 2 * (bits_value(s1.skip(1)) + pow2((s1.len() - 1) as nat) * bits_value(s2)));
        assert(2 * (pow2((s1.len() - 1) as nat) * bits_value(s2)) == pow2(s1.len()) * bits_value(
            s2,
        )) by (nonlinear_arith)
            requires
                pow2(s1.len()) == 2 * pow2((s1.len() - 1) as nat),
        ;
    }
}

/// The value of `n` consecutive bits of a byte, starting at bit `p`,
/// is the byte shifted down by `p` and reduced modulo `2^n`.
pub proof fn lemma_bits_value_of_byte_range(v: u8, p: nat, n: nat)
    requires
        p + n <= 8,
    ensures
        bits_value(Seq::new(n, |i: int| u8_bit(v, p + i))) == (v as nat / pow2(p)) % pow2(
            n,
        ),
    decreases n,
{
    let s = Seq::new(n, |i: int| u8_bit(v, p + i));
    if n == 0 {
        assert(pow2(0) == 1) by {
            vstd::arithmetic::power2::lemma2_to64();
        }
    } else {
        let x = v as nat / pow2(p);
        assert(s.skip(1) =~= Seq::new((n - 1) as nat, |i: int| u8_bit(v, p + 1 + i)));
        lemma_bits_value_of_byte_range(v, p + 1, (n - 1) as nat);
        lemma_pow2_pos(p);
        lemma_pow2_pos((n - 1) as nat);
        // v / 2^(p+1) == (v / 2^p) / 2
        assert(pow2(p + 1) == pow2(p) * 2) by {
            lemma_pow2_adds(p, 1);
            vstd::arithmetic::power2::lemma2_to64();
        }
        lemma_div_denominator(v as int, pow2(p) as int, 2);
        assert(v as nat / pow2(p + 1) == x / 2);
        // x % 2^n == x % 2 + 2 * ((x / 2) % 2^(n-1))
        lemma_pow2_unfold(n);
        lemma_mod_breakdown(x as int, 2, pow2((n - 1) as nat) as int);
        assert(bits_value(s) == (if u8_bit(v, p as int) {
            1nat
        } else {
            0nat
        }) + 2 * ((x / 2) % pow2((n - 1) as nat)));
        assert((if u8_bit(v, p as int) {
            1nat
        } else {
            0nat
        }) == x % 2);
    }
}

/// A bit field value is bounded by two to the power of its width.
pub proof fn lemma_bits_value_bound(s: Seq<bool>)
    ensures
        bits_value(s) < pow2(s.len()),
    decreases s.len(),
{
    if s.len() == 0 {
        assert(pow2(0) == 1) by {
            vstd::arithmetic::power2::lemma2_to64();
        }
    } else {
        lemma_bits_value_bound(s.skip(1));
        lemma_pow2_unfold(s.len());
    }
}

/// The value of a single-bit field is its bit.
pub proof fn lemma_bits_value_one(s: Seq<bool>)
    requires
        s.len() == 1,
    ensures
        bits_value(s) == if s[0] {
            1nat
        } else {
            0nat
        },
{
    assert(s.skip(1) =~= Seq::<bool>::empty());
    assert(bits_value(Seq::<bool>::empty()) == 0);
}

/// Skipping up to one byte's worth of bits from the bit view of a byte
/// sequence leaves the tail bits of the head byte followed by the bit view of
/// the remaining bytes.
pub proof fn lemma_blob_bits_skip_head(data: Seq<u8>, q: nat)
    requires
        data.len() >= 1,
        q <= 8,
    ensures
        blob_bits(data).skip(q as int) =~= Seq::new((8 - q) as nat, |i: int| u8_bit(data[0], q + i))
            + blob_bits(data.skip(1)),
{
    let lhs = blob_bits(data).skip(q as int);
    let rhs = Seq::new((8 - q) as nat, |i: int| u8_bit(data[0], q + i)) + blob_bits(data.skip(1));
    assert(lhs.len() == rhs.len());
    assert forall|j: int| 0 <= j < lhs.len() implies lhs[j] == rhs[j] by {
        let k = q + j;
        if j < 8 - q {
            assert(k / 8 == 0 && k % 8 == k);
        } else {
            let k2 = k - 8;
            assert(k / 8 == 1 + k2 / 8 && k % 8 == k2 % 8) by (nonlinear_arith)
                requires
                    k >= 8,
                    k2 == k - 8,
            ;
            assert(data[1 + k2 / 8] == data.skip(1)[k2 / 8]);
        }
    }
}


} // verus!
