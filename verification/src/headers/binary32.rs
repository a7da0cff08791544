//! Numbers with a fraction: stored in half precision, held in single
//! precision, and both by their bit patterns.

use crate::bit_reader::{lemma_bits_value_bound, lemma_pow2_at_most, spec_read_bits, BitReader};
use crate::error::Error;
use crate::headers::record::{defaulted, forward, viewed, Decoded};
use vstd::arithmetic::power2::{lemma2_to64, lemma_pow2_unfold, pow2};
use vstd::prelude::*;

verus! {

/// A number in IEEE 754 single precision, held by its bit pattern.
#[derive(Clone, Copy, Debug, PartialEq, Eq, Structural)]
pub struct Binary32 {
    pub bits: u32,
}

/// The sign bit of a half-precision pattern.
pub open spec fn half_sign(h: u16) -> nat {
    h as nat / 0x8000
}

/// The exponent field of a half-precision pattern: five bits.
pub open spec fn half_exponent(h: u16) -> nat {
    h as nat / 0x400 % 0x20
}

/// The fraction field of a half-precision pattern: ten bits.
pub open spec fn half_fraction(h: u16) -> nat {
    h as nat % 0x400
}

/// The absolute value of a finite half-precision number, in units of 2^-24.
pub open spec fn half_magnitude(h: u16) -> nat {
    if half_exponent(h) == 0 {
        half_fraction(h)
    } else {
        (0x400 + half_fraction(h)) * pow2((half_exponent(h) - 1) as nat)
    }
}

/// How often a fraction below 2^10 has to be doubled to reach 2^10 or more.
pub open spec fn normalizing_shift(f: nat) -> nat
    decreases 0x800 - f,
{
    if f == 0 || f >= 0x400 {
        0
    } else {
        1 + normalizing_shift(2 * f)
    }
}

/// The exponent and fraction fields in single precision of the number whose
/// half-precision fields are `e` and `f`. Infinities and NaNs keep their
/// class, and a NaN its payload in the upper fraction bits; a subnormal half
/// becomes a normal single.
pub open spec fn widened_fields(e: nat, f: nat) -> (nat, nat) {
    if e == 31 {
        (255, f * 0x2000)
    } else if e != 0 {
        (e + 112, f * 0x2000)
    } else if f == 0 {
        (0, 0)
    } else {
        let k = normalizing_shift(f);
        ((113 - k) as nat, ((f * pow2(k) - 0x400) * 0x2000) as nat)
    }
}

impl Binary32 {
    /// The sign bit.
    pub open spec fn sign(self) -> nat {
        self.bits as nat / 0x8000_0000
    }

    /// The exponent field: eight bits.
    pub open spec fn exponent(self) -> nat {
        self.bits as nat / 0x80_0000 % 0x100
    }

    /// The fraction field: twenty-three bits.
    pub open spec fn fraction(self) -> nat {
        self.bits as nat % 0x80_0000
    }

    /// The absolute value of a finite number, in units of 2^-149.
    pub open spec fn magnitude(self) -> nat {
        if self.exponent() == 0 {
            self.fraction()
        } else {
            (0x80_0000 + self.fraction()) * pow2((self.exponent() - 1) as nat)
        }
    }

    /// The single-precision number equal to the half-precision number `h`.
    pub open spec fn spec_from_binary16(h: u16) -> Binary32 {
        let (e, f) = widened_fields(half_exponent(h), half_fraction(h));
        Binary32 { bits: (half_sign(h) * 0x8000_0000 + e * 0x80_0000 + f) as u32 }
    }

    /// Widens a half-precision pattern to single precision.
    pub fn from_binary16(h: u16) -> (r: Binary32)
        ensures
            r == Self::spec_from_binary16(h),
    {
        let sign: u32 = (h / 0x8000) as u32;
        let e: u32 = (h / 0x400 % 0x20) as u32;
        let f: u32 = (h % 0x400) as u32;
        if e == 31 {
            Binary32 { bits: sign * 0x8000_0000 + 255 * 0x80_0000 + f * 0x2000 }
        } else if e != 0 {
            Binary32 { bits: sign * 0x8000_0000 + (e + 112) * 0x80_0000 + f * 0x2000 }
        } else if f == 0 {
            Binary32 { bits: sign * 0x8000_0000 }
        } else {
            let mut m: u32 = f;
            let mut k: u32 = 0;
            proof {
                lemma2_to64();
            }
            while m < 0x400
                invariant
                    0 < m < 0x800,
                    pow2(k as nat) <= m,
                    m == f * pow2(k as nat),
                    normalizing_shift(f as nat) == k + normalizing_shift(m as nat),
                decreases 0x800 - m,
            {
                proof {
                    lemma2_to64();
                    if k >= 10 {
                        lemma_pow2_at_most(10, k as nat);
                    }
                    lemma_pow2_unfold((k + 1) as nat);
                    assert(f * (2 * pow2(k as nat)) == 2 * (f * pow2(k as nat)))
                        by (nonlinear_arith);
                }
                m = 2 * m;
                k = k + 1;
            }
            proof {
                lemma2_to64();
                if k > 10 {
                    lemma_pow2_at_most(11, k as nat);
                }
            }
            Binary32 { bits: sign * 0x8000_0000 + (113 - k) * 0x80_0000 + (m - 0x400) * 0x2000 }
        }
    }
}

/// A fraction that is not zero and below 2^10 reaches 2^10, and stays below
/// 2^11, after its normalizing shift, which is between one and ten.
pub proof fn lemma_normalizing_shift(f: nat)
    requires
        0 < f < 0x400,
    ensures
        1 <= normalizing_shift(f) <= 10,
        0x400 <= f * pow2(normalizing_shift(f)) < 0x800,
    decreases 0x800 - f,
{
    lemma2_to64();
    if 2 * f >= 0x400 {
        assert(normalizing_shift(2 * f) == 0);
        assert(normalizing_shift(f) == 1);
    } else {
        lemma_normalizing_shift(2 * f);
        let k = normalizing_shift(2 * f);
        lemma_pow2_unfold(k + 1);
        assert(f * (2 * pow2(k)) == (2 * f) * pow2(k)) by (nonlinear_arith);
        if k >= 10 {
            lemma_pow2_at_most(10, k);
            assert((2 * f) * pow2(k) >= 2 * pow2(k)) by (nonlinear_arith)
                requires
                    f >= 1,
            ;
        }
    }
}

/// Widening keeps the number. The sign stays. A finite number stays finite
/// and keeps its absolute value: the unit of a single-precision magnitude is
/// 2^125 times smaller than that of a half-precision one. An infinity stays
/// an infinity, and a NaN stays a NaN with its payload in the upper bits of
/// the fraction.
pub proof fn lemma_widening_keeps_the_number(h: u16)
    ensures
        Binary32::spec_from_binary16(h).sign() == half_sign(h),
        half_exponent(h) != 31 ==> Binary32::spec_from_binary16(h).exponent() != 255
            && Binary32::spec_from_binary16(h).magnitude() == half_magnitude(h) * pow2(125),
        half_exponent(h) == 31 ==> Binary32::spec_from_binary16(h).exponent() == 255
            && Binary32::spec_from_binary16(h).fraction() == half_fraction(h) * 0x2000,
{
    lemma2_to64();
    let s = half_sign(h);
    let e = half_exponent(h);
    let f = half_fraction(h);
    let (we, wf) = widened_fields(e, f);
    let w = Binary32::spec_from_binary16(h);
    vstd::arithmetic::power2::lemma_pow2_adds(13, 112);
    let unit = pow2(112);
    if e == 31 {
        assert(w.bits == s * 0x8000_0000 + 255 * 0x80_0000 + f * 0x2000);
    } else if e != 0 {
        assert(w.bits == s * 0x8000_0000 + (e + 112) * 0x80_0000 + f * 0x2000);
        assert(w.exponent() == e + 112);
        assert(w.fraction() == f * 0x2000);
        vstd::arithmetic::power2::lemma_pow2_adds((e - 1) as nat, 112);
        let low = pow2((e - 1) as nat);
        assert((0x80_0000 + f * 0x2000) * (low * unit) == ((0x400 + f) * low) * (0x2000 * unit))
            by (nonlinear_arith);
    } else if f == 0 {
        assert(w.bits == s * 0x8000_0000);
        assert(0 * pow2(125) == 0);
    } else {
        lemma_normalizing_shift(f);
        let k = normalizing_shift(f);
        let m = f * pow2(k);
        assert(w.bits == s * 0x8000_0000 + (113 - k) * 0x80_0000 + (m - 0x400) * 0x2000);
        assert(w.exponent() == 113 - k);
        assert(w.fraction() == (m - 0x400) * 0x2000);
        vstd::arithmetic::power2::lemma_pow2_adds(k, (112 - k) as nat);
        let rest = pow2((112 - k) as nat);
        assert((0x80_0000 + (m - 0x400) * 0x2000) * rest == f * (0x2000 * (pow2(k) * rest)))
            by (nonlinear_arith)
            requires
                m == f * pow2(k),
        ;
    }
}

/// A number at `pos`: sixteen bits in half precision.
pub open spec fn spec_read_f16(data: Seq<u8>, pos: nat) -> Decoded<Binary32> {
    match spec_read_bits(data, pos, 16) {
        (Ok(raw), p) => (Ok(Binary32::spec_from_binary16(raw as u16)), p),
        (Err(e), p) => (Err(e), p),
    }
}

/// Reads a number in half precision.
pub fn read_f16(br: &mut BitReader) -> (r: Result<Binary32, Error>)
    ensures
        final(br).data() == old(br).data(),
        (r, final(br).pos()) == spec_read_f16(old(br).data(), old(br).pos()),
{
    proof {
        lemma_bits_value_bound(br.data(), br.pos(), 16);
        lemma2_to64();
    }
    let raw = br.read_bits(16)?;
    Ok(Binary32::from_binary16(raw as u16))
}

/// Reads the number where `condition` holds, and yields `default` without
/// moving where it does not.
pub fn read_defaulted_f16(condition: bool, default: Binary32, br: &mut BitReader) -> (r: Result<
    Binary32,
    Error,
>)
    ensures
        final(br).data() == old(br).data(),
        (r, final(br).pos()) == defaulted(
            condition,
            default,
            spec_read_f16(old(br).data(), old(br).pos()),
            old(br).pos(),
        ),
{
    if condition {
        read_f16(br)
    } else {
        Ok(default)
    }
}

/// `count` numbers in half precision at `pos`, one behind the other.
pub open spec fn spec_read_f16s(data: Seq<u8>, pos: nat, count: nat) -> Decoded<Seq<Binary32>>
    decreases count,
{
    if count == 0 {
        (Ok(Seq::empty()), pos)
    } else {
        match spec_read_f16s(data, pos, (count - 1) as nat) {
            (Ok(front), p) => match spec_read_f16(data, p) {
                (Ok(last), q) => (Ok(front.push(last)), q),
                (Err(e), q) => (Err(e), q),
            },
            (Err(e), p) => (Err(e), p),
        }
    }
}

/// Once one number of a sequence cannot be read, no longer sequence can.
pub proof fn lemma_f16s_failure_stays(data: Seq<u8>, pos: nat, failed: nat, count: nat)
    requires
        failed <= count,
        spec_read_f16s(data, pos, failed).0 is Err,
    ensures
        spec_read_f16s(data, pos, count) == spec_read_f16s(data, pos, failed),
    decreases count,
{
    if failed < count {
        lemma_f16s_failure_stays(data, pos, failed, (count - 1) as nat);
    }
}

/// Reads `count` numbers in half precision, one behind the other.
pub fn read_f16_vec(count: usize, br: &mut BitReader) -> (r: Result<Vec<Binary32>, Error>)
    ensures
        final(br).data() == old(br).data(),
        (viewed(r), final(br).pos()) == spec_read_f16s(old(br).data(), old(br).pos(), count as nat),
{
    let mut values: Vec<Binary32> = Vec::new();
    let mut i: usize = 0;
    while i < count
        invariant
            i <= count,
            br.data() == old(br).data(),
            (Ok::<Seq<Binary32>, Error>(values@), br.pos()) == spec_read_f16s(
                old(br).data(),
                old(br).pos(),
                i as nat,
            ),
        decreases count - i,
    {
        match read_f16(br) {
            Ok(v) => {
                values.push(v);
            },
            Err(e) => {
                proof {
                    lemma_f16s_failure_stays(
                        old(br).data(),
                        old(br).pos(),
                        (i + 1) as nat,
                        count as nat,
                    );
                }
                return Err(e);
            },
        }
        i = i + 1;
    }
    Ok(values)
}

/// Reads `N` numbers in half precision where `condition` holds, and yields
/// `default` without moving where it does not.
pub fn read_defaulted_f16_array<const N: usize>(
    condition: bool,
    default: [Binary32; N],
    br: &mut BitReader,
) -> (r: Result<[Binary32; N], Error>)
    ensures
        final(br).data() == old(br).data(),
        (viewed(r), final(br).pos()) == defaulted(
            condition,
            default@,
            spec_read_f16s(old(br).data(), old(br).pos(), N as nat),
            old(br).pos(),
        ),
{
    if condition {
        let values = read_f16_vec(N, br)?;
        proof {
            lemma_f16s_length(old(br).data(), old(br).pos(), N as nat);
        }
        let mut out = default;
        let mut i: usize = 0;
        while i < N
            invariant
                i <= N,
                values@.len() == N,
                out@.len() == N,
                forall|k: int| 0 <= k < i ==> out@[k] == values@[k],
            decreases N - i,
        {
            out[i] = values[i];
            i = i + 1;
        }
        assert(out@ =~= values@);
        Ok(out)
    } else {
        Ok(default)
    }
}

/// A sequence of numbers that was read is as long as was asked for.
pub proof fn lemma_f16s_length(data: Seq<u8>, pos: nat, count: nat)
    ensures
        spec_read_f16s(data, pos, count).0 matches Ok(s) ==> s.len() == count,
    decreases count,
{
    if count > 0 {
        lemma_f16s_length(data, pos, (count - 1) as nat);
    }
}

/// A sequence of numbers moves the cursor forward, and not out of the
/// buffer; so does a single number.
pub proof fn lemma_f16s_move_forward(data: Seq<u8>, pos: nat, count: nat)
    ensures
        forward(data, pos, spec_read_f16s(data, pos, count)),
        forward(data, pos, spec_read_f16(data, pos)),
    decreases count,
{
    if count > 0 {
        lemma_f16s_move_forward(data, pos, (count - 1) as nat);
    }
}

} // verus!
