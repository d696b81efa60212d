//! Big-endian 256-bit words and the secp256k1 half-order bound.
use vstd::prelude::*;

verus! {

/// `256` raised to the power `n`.
pub open spec fn pow256(n: nat) -> nat
    decreases n,
{
    if n == 0 {
        1
    } else {
        256 * pow256((n - 1) as nat)
    }
}

/// The unsigned integer that `b` spells out, most significant byte first.
pub open spec fn be_value(b: Seq<u8>) -> nat
    decreases b.len(),
{
    if b.len() == 0 {
        0
    } else {
        be_value(b.drop_last()) * 256 + b.last() as nat
    }
}

/// `2^128`, the weight of the high half of a word.
pub open spec fn two_pow_128() -> nat {
    0xffff_ffff_ffff_ffff_ffff_ffff_ffff_ffff + 1
}

/// The order of the secp256k1 group.
pub open spec fn secp256k1_n() -> nat {
    0xffff_ffff_ffff_ffff_ffff_ffff_ffff_fffe * two_pow_128() + 0xbaae_dce6_af48_a03b_bfd2_5e8c_d036_4141
}

/// Whether the word `s` lies in the lower half of the group order.
pub open spec fn is_lower_half(s: Seq<u8>) -> bool {
    be_value(s) <= secp256k1_n() / 2
}

/// High 128 bits of `secp256k1_n() / 2`.
pub const HALF_ORDER_HI: u128 = 0x7fff_ffff_ffff_ffff_ffff_ffff_ffff_ffff;

/// Low 128 bits of `secp256k1_n() / 2`.
pub const HALF_ORDER_LO: u128 = 0x5d57_6e73_57a4_501d_dfe9_2f46_681b_20a0;

proof fn lemma_pow256_16()
    ensures
        pow256(16) == two_pow_128(),
{
    reveal_with_fuel(pow256, 17);
}

proof fn lemma_pow256_mono(a: nat, b: nat)
    requires
        a <= b,
    ensures
        pow256(a) <= pow256(b),
    decreases b,
{
    if a < b {
        lemma_pow256_mono(a, (b - 1) as nat);
    }
}

/// A word of `n` bytes is below `256^n`.
pub proof fn lemma_be_value_bound(b: Seq<u8>)
    ensures
        be_value(b) < pow256(b.len()),
    decreases b.len(),
{
    if b.len() > 0 {
        let d = b.drop_last();
        lemma_be_value_bound(d);
        let x = be_value(d);
        let p = pow256(d.len());
        let l = b.last();
        assert(x * 256 + l < 256 * p) by (nonlinear_arith)
            requires
                x < p,
                l < 256,
        ;
    }
}

/// Appending `b` to `a` shifts `a` left by one byte for each byte of `b`.
pub proof fn lemma_be_value_concat(a: Seq<u8>, b: Seq<u8>)
    ensures
        be_value(a + b) == be_value(a) * pow256(b.len()) + be_value(b),
    decreases b.len(),
{
    if b.len() == 0 {
        assert(a + b =~= a);
        assert(be_value(a) * 1 == be_value(a));
    } else {
        let d = b.drop_last();
        assert((a + b).drop_last() =~= a + d);
        lemma_be_value_concat(a, d);
        let x = be_value(a);
        let p = pow256(d.len());
        let y = be_value(d);
        assert((x * p + y) * 256 == x * (256 * p) + y * 256) by (nonlinear_arith);
        assert((a + b).last() == b.last());
        assert(pow256(b.len()) == 256 * p);
        assert(be_value(a + b) == (x * p + y) * 256 + b.last() as nat);
        assert(be_value(b) == y * 256 + b.last() as nat);
    }
}

/// Reads the sixteen bytes of `w` that start at `start` as a big-endian integer.
fn read_u128(w: &[u8; 32], start: usize) -> (r: u128)
    requires
        start + 16 <= 32,
    ensures
        r == be_value(w@.subrange(start as int, start + 16)),
{
    let mut acc: u128 = 0;
    let mut i: usize = 0;
    while i < 16
        invariant
            i <= 16,
            start + 16 <= 32,
            acc == be_value(w@.subrange(start as int, start + i)),
        decreases 16 - i,
    {
        proof {
            let p = w@.subrange(start as int, start + i);
            assert(w@.subrange(start as int, start + i + 1).drop_last() =~= p);
            lemma_be_value_bound(p);
            lemma_pow256_mono(i as nat, 15);
            lemma_pow256_16();
            assert(pow256(16) == 256 * pow256(15));
        }
        acc = acc * 256 + w[start + i] as u128;
        i += 1;
    }
    acc
}

/// Whether `s`, read as a big-endian integer, is at most half the secp256k1
/// group order.
pub fn is_lower_half_order(s: &[u8; 32]) -> (r: bool)
    ensures
        r == is_lower_half(s@),
{
    let hi = read_u128(s, 0);
    let lo = read_u128(s, 16);
    proof {
        let h = s@.subrange(0, 16);
        let l = s@.subrange(16, 32);
        assert(h + l =~= s@);
        lemma_be_value_concat(h, l);
        lemma_pow256_16();
        lemma_be_value_bound(l);
        lemma_be_value_bound(h);
        let t = two_pow_128();
        assert(secp256k1_n() / 2 == HALF_ORDER_HI as nat * t + HALF_ORDER_LO as nat);
        assert(be_value(s@) == hi as nat * t + lo as nat);
        assert((hi as nat * t + lo as nat <= HALF_ORDER_HI as nat * t + HALF_ORDER_LO as nat) <==> (
        hi < HALF_ORDER_HI || (hi == HALF_ORDER_HI && lo <= HALF_ORDER_LO))) by (nonlinear_arith)
            requires
                lo < t,
                HALF_ORDER_LO < t,
        ;
    }
    hi < HALF_ORDER_HI || (hi == HALF_ORDER_HI && lo <= HALF_ORDER_LO)
}

} // verus!
