//! Floating-point values by their IEEE 754 bit patterns, as the console stores and forwards them.
use vstd::arithmetic::power2::*;
use vstd::prelude::*;

verus! {

/// A single-precision value.
#[derive(Clone, Copy, Debug, PartialEq, Eq, Structural)]
pub struct Float32 {
    pub bits: u32,
}

/// A double-precision value.
#[derive(Clone, Copy, Debug, PartialEq, Eq, Structural)]
pub struct Float64 {
    pub bits: u64,
}

/// The bit pattern with the sign of `bits` reversed and everything else as it was.
pub open spec fn sign_flipped(bits: u64) -> u64 {
    if bits < 0x8000_0000_0000_0000 {
        (bits + 0x8000_0000_0000_0000) as u64
    } else {
        (bits - 0x8000_0000_0000_0000) as u64
    }
}

/// `bits` is the double-precision pattern of the whole number `n`: zero, or else the exponent `e` of
/// the highest power of two in `n`, followed by what is left of `n` as a fraction of that power.
pub open spec fn is_whole(bits: u64, n: u32) -> bool {
    if n == 0 {
        bits == 0
    } else {
        exists|e: nat|
            e < 32 && #[trigger] pow2(e) <= n < 2 * pow2(e) && bits == (1023 + e) * pow2(52) + (n
                - pow2(e)) * pow2((52 - e) as nat)
    }
}

impl Float64 {
    /// The value of the whole number `n`.
    pub fn from_u32(n: u32) -> (r: Float64)
        ensures
            is_whole(r.bits, n),
    {
        if n == 0 {
            return Float64 { bits: 0 };
        }
        let mut e: u64 = 0;
        let mut p: u64 = 1;
        let mut q: u64 = 0x10_0000_0000_0000;
        proof {
            lemma2_to64();
            lemma2_to64_rest();
        }
        while p * 2 <= n as u64
            invariant
                n > 0,
                e < 32,
                p == pow2(e as nat),
                q == pow2((52 - e) as nat),
                p * q == 0x10_0000_0000_0000,
                1 <= p <= n,
                pow2(31) == 0x8000_0000,
            decreases n - p,
        {
            proof {
                if e == 31 {
                    assert(p == 0x8000_0000);
                }
                lemma_pow2_unfold((e + 1) as nat);
                lemma_pow2_unfold((52 - e) as nat);
                assert((p * 2) * (q / 2) == p * q) by (nonlinear_arith)
                    requires
                        q % 2 == 0,
                ;
            }
            p = p * 2;
            q = q / 2;
            e = e + 1;
        }
        let rest: u64 = n as u64 - p;
        assert(rest * q < 0x10_0000_0000_0000) by (nonlinear_arith)
            requires
                rest < p,
                p * q == 0x10_0000_0000_0000,
        ;
        let bits: u64 = (1023 + e) * 0x10_0000_0000_0000 + rest * q;
        proof {
            lemma2_to64_rest();
            assert(pow2(e as nat) <= n < 2 * pow2(e as nat));
        }
        Float64 { bits }
    }

    /// The value with its sign reversed.
    pub open spec fn spec_negated(self) -> Float64 {
        Float64 { bits: sign_flipped(self.bits) }
    }

    /// Positive zero.
    pub open spec fn spec_zero() -> Float64 {
        Float64 { bits: 0 }
    }

    /// The value with its sign reversed.
    pub fn negated(self) -> (r: Float64)
        ensures
            r == self.spec_negated(),
    {
        if self.bits < 0x8000_0000_0000_0000 {
            Float64 { bits: self.bits + 0x8000_0000_0000_0000 }
        } else {
            Float64 { bits: self.bits - 0x8000_0000_0000_0000 }
        }
    }

    /// Positive zero.
    pub fn zero() -> (r: Float64)
        ensures
            r == Float64::spec_zero(),
    {
        Float64 { bits: 0 }
    }
}

/// A whole number has one bit pattern.
pub proof fn law_a_whole_number_has_one_pattern(a: u64, b: u64, n: u32)
    requires
        is_whole(a, n),
        is_whole(b, n),
    ensures
        a == b,
{
    if n > 0 {
        let e = choose|e: nat|
            e < 32 && #[trigger] pow2(e) <= n < 2 * pow2(e) && a == (1023 + e) * pow2(52) + (n
                - pow2(e)) * pow2((52 - e) as nat);
        let f = choose|f: nat|
            f < 32 && #[trigger] pow2(f) <= n < 2 * pow2(f) && b == (1023 + f) * pow2(52) + (n
                - pow2(f)) * pow2((52 - f) as nat);
        if e < f {
            lemma_pow2_unfold(e + 1);
            if e + 1 < f {
                lemma_pow2_strictly_increases(e + 1, f);
            }
        } else if f < e {
            lemma_pow2_unfold(f + 1);
            if f + 1 < e {
                lemma_pow2_strictly_increases(f + 1, e);
            }
        }
    }
}

/// Reversing the sign twice gives the value back.
pub proof fn law_negating_twice_is_the_identity(x: Float64)
    ensures
        x.spec_negated().spec_negated() == x,
        x.spec_negated() != x,
{
}

/// Reversing the sign flips the highest bit and leaves all others as they are.
pub proof fn law_negating_reverses_the_sign_bit(x: Float64)
    ensures
        x.spec_negated().bits == x.bits ^ 0x8000_0000_0000_0000u64,
{
    let b = x.bits;
    assert(b < 0x8000_0000_0000_0000u64 ==> b ^ 0x8000_0000_0000_0000u64 == b
        + 0x8000_0000_0000_0000u64) by (bit_vector);
    assert(b >= 0x8000_0000_0000_0000u64 ==> b ^ 0x8000_0000_0000_0000u64 == b
        - 0x8000_0000_0000_0000u64) by (bit_vector);
}

/// The pattern of a whole number stands for that number: with the exponent and the fraction that it
/// holds, one and the fraction times two to the exponent is the number.
pub proof fn law_a_pattern_stands_for_its_number(bits: u64, n: u32)
    requires
        is_whole(bits, n),
        n > 0,
    ensures
        1023 <= bits as int / 0x10_0000_0000_0000 < 1055,
        (0x10_0000_0000_0000 + bits as int % 0x10_0000_0000_0000) * pow2(
            (bits as int / 0x10_0000_0000_0000 - 1023) as nat,
        ) == n * 0x10_0000_0000_0000,
{
    lemma2_to64_rest();
    let e = choose|e: nat|
        e < 32 && #[trigger] pow2(e) <= n < 2 * pow2(e) && bits == (1023 + e) * pow2(52) + (n
            - pow2(e)) * pow2((52 - e) as nat);
    let p = pow2(e) as int;
    let q = pow2((52 - e) as nat) as int;
    let rest = (n - p) * q;
    lemma_pow2_adds(e, (52 - e) as nat);
    assert(p * q == 0x10_0000_0000_0000);
    lemma_pow2_pos(e);
    lemma_pow2_pos((52 - e) as nat);
    assert(0 <= rest < 0x10_0000_0000_0000) by (nonlinear_arith)
        requires
            rest == (n - p) * q,
            p * q == 0x10_0000_0000_0000,
            0 < q,
            p <= n < 2 * p,
    ;
    assert((p * q + rest) * p == n * (p * q)) by (nonlinear_arith)
        requires
            rest == (n - p) * q,
    ;
}

} // verus!
