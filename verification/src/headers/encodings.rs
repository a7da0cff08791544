//! The codings of integers and truth values.

use crate::bit_reader::{
    bits_value, lemma_bits_value_bound, lemma_pow2_at_most, spec_read_bits, BitReader,
};
use crate::error::Error;
use crate::headers::record::{defaulted, forward, repeated, viewed, Decoded};
use vstd::arithmetic::power2::{lemma2_to64, pow2};
use vstd::prelude::*;

verus! {

/// One alternative of an integer coding: a constant, or raw bits with or
/// without an offset.
#[derive(Clone, Copy, Debug, PartialEq, Eq, Structural)]
pub enum U32 {
    Bits(usize),
    BitsOffset { n: usize, off: u32 },
    Val(u32),
}

impl U32 {
    /// The number of raw bits that the alternative reads.
    pub open spec fn width(self) -> nat {
        match self {
            U32::Bits(n) => n as nat,
            U32::BitsOffset { n, off } => n as nat,
            U32::Val(v) => 0,
        }
    }

    /// What the alternative adds to its raw bits: for a constant, the constant.
    pub open spec fn offset(self) -> nat {
        match self {
            U32::Bits(n) => 0,
            U32::BitsOffset { n, off } => off as nat,
            U32::Val(v) => v as nat,
        }
    }

    /// Every value that the alternative can yield fits in 32 bits.
    pub open spec fn wf(self) -> bool {
        self.width() <= 32 && self.offset() + pow2(self.width()) <= 0x1_0000_0000
    }

    /// Whether the alternative can yield `v`.
    pub open spec fn admits(self, v: u32) -> bool {
        self.offset() <= v < self.offset() + pow2(self.width())
    }

    /// The alternative's value at `pos`: a constant as it is, with nothing
    /// read; else the offset plus the raw bits.
    pub open spec fn spec_read(self, data: Seq<u8>, pos: nat) -> Decoded<u32> {
        match self {
            U32::Val(v) => (Ok(v), pos),
            _ => match spec_read_bits(data, pos, self.width()) {
                (Ok(raw), p) => (Ok((self.offset() + raw) as u32), p),
                (Err(e), p) => (Err(e), p),
            },
        }
    }

    /// Reads the alternative's value.
    pub fn read(&self, br: &mut BitReader) -> (r: Result<u32, Error>)
        requires
            self.wf(),
        ensures
            final(br).data() == old(br).data(),
            (r, final(br).pos()) == self.spec_read(old(br).data(), old(br).pos()),
    {
        proof {
            lemma_bits_value_bound(br.data(), br.pos(), self.width());
            lemma_pow2_at_most(self.width(), 32);
            lemma2_to64();
        }
        match *self {
            U32::Bits(n) => {
                let raw = br.read_bits(n)?;
                Ok(raw as u32)
            },
            U32::BitsOffset { n, off } => {
                let raw = br.read_bits(n)?;
                Ok(off + raw as u32)
            },
            U32::Val(v) => Ok(v),
        }
    }
}

/// An integer coding: one alternative, or four of them behind a selector of
/// two bits.
#[derive(Clone, Copy, Debug, PartialEq, Eq, Structural)]
pub enum U32Coder {
    Direct(U32),
    Select(U32, U32, U32, U32),
}

impl U32Coder {
    /// Every alternative of the coding is well formed.
    pub open spec fn wf(self) -> bool {
        match self {
            U32Coder::Direct(d) => d.wf(),
            U32Coder::Select(d0, d1, d2, d3) => d0.wf() && d1.wf() && d2.wf() && d3.wf(),
        }
    }

    /// Whether the coding can yield `v`.
    pub open spec fn admits(self, v: u32) -> bool {
        match self {
            U32Coder::Direct(d) => d.admits(v),
            U32Coder::Select(d0, d1, d2, d3) => d0.admits(v) || d1.admits(v) || d2.admits(v)
                || d3.admits(v),
        }
    }

    /// The alternative that selector `s` picks.
    pub open spec fn alternative(self, s: nat) -> U32 {
        match self {
            U32Coder::Direct(d) => d,
            U32Coder::Select(d0, d1, d2, d3) => if s == 0 {
                d0
            } else if s == 1 {
                d1
            } else if s == 2 {
                d2
            } else {
                d3
            },
        }
    }

    /// The coded integer at `pos`. A selector coding reads its two selector
    /// bits and then the alternative that they pick.
    pub open spec fn spec_read(self, data: Seq<u8>, pos: nat) -> Decoded<u32> {
        match self {
            U32Coder::Direct(d) => d.spec_read(data, pos),
            U32Coder::Select(d0, d1, d2, d3) => match spec_read_bits(data, pos, 2) {
                (Ok(s), p) => self.alternative(s as nat).spec_read(data, p),
                (Err(e), p) => (Err(e), p),
            },
        }
    }

    /// Reads the coded integer.
    pub fn read(&self, br: &mut BitReader) -> (r: Result<u32, Error>)
        requires
            self.wf(),
        ensures
            final(br).data() == old(br).data(),
            (r, final(br).pos()) == self.spec_read(old(br).data(), old(br).pos()),
    {
        match *self {
            U32Coder::Direct(d) => d.read(br),
            U32Coder::Select(d0, d1, d2, d3) => {
                let s = br.read_bits(2)?;
                if s == 0 {
                    d0.read(br)
                } else if s == 1 {
                    d1.read(br)
                } else if s == 2 {
                    d2.read(br)
                } else {
                    d3.read(br)
                }
            },
        }
    }

    /// Reads the integer where `condition` holds, and yields `default` without
    /// moving where it does not.
    pub fn read_defaulted(&self, condition: bool, default: u32, br: &mut BitReader) -> (r: Result<
        u32,
        Error,
    >)
        requires
            self.wf(),
        ensures
            final(br).data() == old(br).data(),
            (r, final(br).pos()) == defaulted(
                condition,
                default,
                self.spec_read(old(br).data(), old(br).pos()),
                old(br).pos(),
            ),
    {
        if condition {
            self.read(br)
        } else {
            Ok(default)
        }
    }
}

/// The coding of a tag where the field says nothing else: short for the
/// codes 0 and 1.
pub open spec fn spec_enum_coder() -> U32Coder {
    U32Coder::Select(
        U32::Val(0),
        U32::Val(1),
        U32::BitsOffset { n: 4, off: 2 },
        U32::BitsOffset { n: 6, off: 18 },
    )
}

/// The coding of a tag where the field says nothing else.
#[verifier::when_used_as_spec(spec_enum_coder)]
pub fn enum_coder() -> (coder: U32Coder)
    ensures
        coder == spec_enum_coder(),
        coder.wf(),
{
    proof {
        lemma2_to64();
    }
    U32Coder::Select(
        U32::Val(0),
        U32::Val(1),
        U32::BitsOffset { n: 4, off: 2 },
        U32::BitsOffset { n: 6, off: 18 },
    )
}

/// A coded integer is one that the coding admits.
pub proof fn lemma_read_is_admitted(coder: U32Coder, data: Seq<u8>, pos: nat)
    requires
        coder.wf(),
    ensures
        coder.spec_read(data, pos).0 matches Ok(v) ==> coder.admits(v),
{
    lemma2_to64();
    match coder {
        U32Coder::Direct(d) => {
            lemma_bits_value_bound(data, pos, d.width());
        },
        U32Coder::Select(d0, d1, d2, d3) => {
            lemma_bits_value_bound(data, pos + 2, d0.width());
            lemma_bits_value_bound(data, pos + 2, d1.width());
            lemma_bits_value_bound(data, pos + 2, d2.width());
            lemma_bits_value_bound(data, pos + 2, d3.width());
        },
    }
}

/// Each integer of a coded sequence is one that the coding admits, and the
/// sequence is as long as was asked for.
pub proof fn lemma_read_u32s_are_admitted(coder: U32Coder, data: Seq<u8>, pos: nat, count: nat)
    requires
        coder.wf(),
    ensures
        spec_read_u32s(coder, data, pos, count).0 matches Ok(s) ==> s.len() == count && forall|
            i: int,
        |
            0 <= i < s.len() ==> coder.admits(#[trigger] s[i]),
    decreases count,
{
    if count > 0 {
        lemma_read_u32s_are_admitted(coder, data, pos, (count - 1) as nat);
        let front = spec_read_u32s(coder, data, pos, (count - 1) as nat);
        lemma_read_is_admitted(coder, data, front.1);
    }
}

/// A selector coding reads its two selector bits `s`, then exactly the raw
/// bits of alternative `s`, and yields that alternative's offset plus those
/// bits; a constant alternative reads nothing more and yields the constant.
pub proof fn lemma_select_reads_chosen_alternative(
    d0: U32,
    d1: U32,
    d2: U32,
    d3: U32,
    data: Seq<u8>,
    pos: nat,
)
    requires
        U32Coder::Select(d0, d1, d2, d3).wf(),
        pos + 2 <= 8 * data.len(),
    ensures
        ({
            let coder = U32Coder::Select(d0, d1, d2, d3);
            let s = bits_value(data, pos, 2);
            let chosen = if s == 0 {
                d0
            } else if s == 1 {
                d1
            } else if s == 2 {
                d2
            } else {
                d3
            };
            let raw = bits_value(data, pos + 2, chosen.width());
            let end = pos + 2 + chosen.width();
            &&& s < 4
            &&& chosen.offset() + raw <= u32::MAX
            &&& coder.spec_read(data, pos) == if chosen is Val || end <= 8 * data.len() {
                (Ok::<u32, Error>((chosen.offset() + raw) as u32), end)
            } else {
                (Err::<u32, Error>(Error::OutOfBounds), pos + 2)
            }
        }),
{
    lemma2_to64();
    lemma_bits_value_bound(data, pos, 2);
    lemma_bits_value_bound(data, pos + 2, d0.width());
    lemma_bits_value_bound(data, pos + 2, d1.width());
    lemma_bits_value_bound(data, pos + 2, d2.width());
    lemma_bits_value_bound(data, pos + 2, d3.width());
}

/// A single bit as a truth value.
pub open spec fn spec_read_bool(data: Seq<u8>, pos: nat) -> Decoded<bool> {
    match spec_read_bits(data, pos, 1) {
        (Ok(raw), p) => (Ok(raw != 0), p),
        (Err(e), p) => (Err(e), p),
    }
}

/// Reads a bit as a truth value.
pub fn read_bool(br: &mut BitReader) -> (r: Result<bool, Error>)
    ensures
        final(br).data() == old(br).data(),
        (r, final(br).pos()) == spec_read_bool(old(br).data(), old(br).pos()),
{
    let raw = br.read_bits(1)?;
    Ok(raw != 0)
}

/// Reads the bit where `condition` holds, and yields `default` without moving
/// where it does not.
pub fn read_defaulted_bool(condition: bool, default: bool, br: &mut BitReader) -> (r: Result<
    bool,
    Error,
>)
    ensures
        final(br).data() == old(br).data(),
        (r, final(br).pos()) == defaulted(
            condition,
            default,
            spec_read_bool(old(br).data(), old(br).pos()),
            old(br).pos(),
        ),
{
    if condition {
        read_bool(br)
    } else {
        Ok(default)
    }
}

/// The signed integer that an unsigned code stands for: even codes count up
/// from zero, odd codes count down from minus one.
pub open spec fn unpack_signed(u: u32) -> i32 {
    if u % 2 == 0 {
        (u / 2) as i32
    } else {
        (-(u / 2) - 1) as i32
    }
}

impl U32Coder {
    /// Reads a signed integer where `condition` holds, and yields `default`
    /// without moving where it does not.
    pub fn read_defaulted_signed(&self, condition: bool, default: i32, br: &mut BitReader) -> (r:
        Result<i32, Error>)
        requires
            self.wf(),
        ensures
            final(br).data() == old(br).data(),
            (r, final(br).pos()) == defaulted(
                condition,
                default,
                spec_read_signed(*self, old(br).data(), old(br).pos()),
                old(br).pos(),
            ),
    {
        if condition {
            let u = self.read(br)?;
            if u % 2 == 0 {
                Ok((u / 2) as i32)
            } else {
                Ok(-((u / 2) as i32) - 1)
            }
        } else {
            Ok(default)
        }
    }
}

/// A signed integer at `pos`: the unsigned code, unpacked.
pub open spec fn spec_read_signed(coder: U32Coder, data: Seq<u8>, pos: nat) -> Decoded<i32> {
    match coder.spec_read(data, pos) {
        (Ok(u), p) => (Ok(unpack_signed(u)), p),
        (Err(e), p) => (Err(e), p),
    }
}

/// `count` integers at `pos`, each coded by `coder`, one behind the other.
pub open spec fn spec_read_u32s(coder: U32Coder, data: Seq<u8>, pos: nat, count: nat) -> Decoded<
    Seq<u32>,
>
    decreases count,
{
    if count == 0 {
        (Ok(Seq::empty()), pos)
    } else {
        match spec_read_u32s(coder, data, pos, (count - 1) as nat) {
            (Ok(front), p) => match coder.spec_read(data, p) {
                (Ok(last), q) => (Ok(front.push(last)), q),
                (Err(e), q) => (Err(e), q),
            },
            (Err(e), p) => (Err(e), p),
        }
    }
}

impl U32Coder {
    /// Reads `count` integers, one behind the other.
    pub fn read_vec(&self, count: u32, br: &mut BitReader) -> (r: Result<Vec<u32>, Error>)
        requires
            self.wf(),
        ensures
            final(br).data() == old(br).data(),
            (viewed(r), final(br).pos()) == spec_read_u32s(
                *self,
                old(br).data(),
                old(br).pos(),
                count as nat,
            ),
    {
        let mut values: Vec<u32> = Vec::new();
        let mut i: u32 = 0;
        while i < count
            invariant
                i <= count,
                self.wf(),
                br.data() == old(br).data(),
                (Ok::<Seq<u32>, Error>(values@), br.pos()) == spec_read_u32s(
                    *self,
                    old(br).data(),
                    old(br).pos(),
                    i as nat,
                ),
            decreases count - i,
        {
            let next = self.read(br);
            match next {
                Ok(v) => {
                    values.push(v);
                },
                Err(e) => {
                    proof {
                        lemma_u32s_failure_stays(
                            *self,
                            old(br).data(),
                            old(br).pos(),
                            (i + 1) as nat,
                            count as nat,
                        );
                    }
                    return Err(e);
                },
            }
            i = i + 1;
        }
        Ok(values)
    }

    /// Reads `count` integers where `condition` holds, and yields `count`
    /// times `default` without moving where it does not.
    pub fn read_defaulted_vec(
        &self,
        count: u32,
        condition: bool,
        default: u32,
        br: &mut BitReader,
    ) -> (r: Result<Vec<u32>, Error>)
        requires
            self.wf(),
        ensures
            final(br).data() == old(br).data(),
            (viewed(r), final(br).pos()) == defaulted(
                condition,
                repeated(count as nat, default),
                spec_read_u32s(*self, old(br).data(), old(br).pos(), count as nat),
                old(br).pos(),
            ),
    {
        if condition {
            self.read_vec(count, br)
        } else {
            let mut values: Vec<u32> = Vec::new();
            let mut i: u32 = 0;
            while i < count
                invariant
                    i <= count,
                    values@ =~= repeated(i as nat, default),
                decreases count - i,
            {
                values.push(default);
                i = i + 1;
            }
            Ok(values)
        }
    }

    /// Reads `N` integers where `condition` holds, and yields `default`
    /// without moving where it does not.
    pub fn read_defaulted_array<const N: usize>(
        &self,
        condition: bool,
        default: [u32; N],
        br: &mut BitReader,
    ) -> (r: Result<[u32; N], Error>)
        requires
            self.wf(),
            N <= u32::MAX,
        ensures
            final(br).data() == old(br).data(),
            (viewed(r), final(br).pos()) == defaulted(
                condition,
                default@,
                spec_read_u32s(*self, old(br).data(), old(br).pos(), N as nat),
                old(br).pos(),
            ),
    {
        if condition {
            let values = self.read_vec(N as u32, br)?;
            proof {
                lemma_read_u32s_are_admitted(*self, old(br).data(), old(br).pos(), N as nat);
            }
            let mut out = default;
            let mut i: usize = 0;
            while i < N
                invariant
                    i <= N,
                    values@.len() == N,
                    out@.len() == N,
                    forall|k: int| 0 <= k < i ==> out@[k] == values@[k],
                decreases N - i,
            {
                out[i] = values[i];
                i = i + 1;
            }
            assert(out@ =~= values@);
            Ok(out)
        } else {
            Ok(default)
        }
    }
}

/// Once one integer of a sequence cannot be read, no longer sequence can.
pub proof fn lemma_u32s_failure_stays(
    coder: U32Coder,
    data: Seq<u8>,
    pos: nat,
    failed: nat,
    count: nat,
)
    requires
        failed <= count,
        spec_read_u32s(coder, data, pos, failed).0 is Err,
    ensures
        spec_read_u32s(coder, data, pos, count) == spec_read_u32s(coder, data, pos, failed),
    decreases count,
{
    if failed < count {
        lemma_u32s_failure_stays(coder, data, pos, failed, (count - 1) as nat);
    }
}

/// The rest of a long 64-bit integer: while a continuation bit is set,
/// eight more bits follow and go above the `shift` bits that `value` holds;
/// above sixty bits, the last four follow and end the integer.
pub open spec fn spec_read_u64_rest(data: Seq<u8>, pos: nat, value: nat, shift: nat) -> Decoded<u64>
    decreases 68 - shift,
{
    match spec_read_bits(data, pos, 1) {
        (Ok(more), p) => if more == 0 {
            (Ok(value as u64), p)
        } else if shift >= 60 {
            match spec_read_bits(data, p, 4) {
                (Ok(top), q) => (Ok((value + top * pow2(shift)) as u64), q),
                (Err(e), q) => (Err(e), q),
            }
        } else {
            match spec_read_bits(data, p, 8) {
                (Ok(next), q) => spec_read_u64_rest(
                    data,
                    q,
                    (value + next * pow2(shift)) as nat,
                    shift + 8,
                ),
                (Err(e), q) => (Err(e), q),
            }
        },
        (Err(e), p) => (Err(e), p),
    }
}

/// A 64-bit integer at `pos`. Two selector bits pick among zero, four bits
/// above 1, eight bits above 17, and twelve bits that further groups of bits
/// may follow.
pub open spec fn spec_read_u64(data: Seq<u8>, pos: nat) -> Decoded<u64> {
    match spec_read_bits(data, pos, 2) {
        (Ok(s), p) => if s == 0 {
            (Ok(0), p)
        } else if s == 1 {
            match spec_read_bits(data, p, 4) {
                (Ok(raw), q) => (Ok((1 + raw) as u64), q),
                (Err(e), q) => (Err(e), q),
            }
        } else if s == 2 {
            match spec_read_bits(data, p, 8) {
                (Ok(raw), q) => (Ok((17 + raw) as u64), q),
                (Err(e), q) => (Err(e), q),
            }
        } else {
            match spec_read_bits(data, p, 12) {
                (Ok(raw), q) => spec_read_u64_rest(data, q, raw as nat, 12),
                (Err(e), q) => (Err(e), q),
            }
        },
        (Err(e), p) => (Err(e), p),
    }
}

/// Reads an integer of up to 64 bits.
pub fn read_u64(br: &mut BitReader) -> (r: Result<u64, Error>)
    ensures
        final(br).data() == old(br).data(),
        (r, final(br).pos()) == spec_read_u64(old(br).data(), old(br).pos()),
{
    let s = br.read_bits(2)?;
    proof {
        lemma2_to64();
        vstd::arithmetic::power2::lemma2_to64_rest();
    }
    if s == 0 {
        Ok(0)
    } else if s == 1 {
        let ghost p = br.pos();
        let raw = br.read_bits(4)?;
        proof {
            lemma_bits_value_bound(br.data(), p, 4);
        }
        Ok(1 + raw)
    } else if s == 2 {
        let ghost p = br.pos();
        let raw = br.read_bits(8)?;
        proof {
            lemma_bits_value_bound(br.data(), p, 8);
        }
        Ok(17 + raw)
    } else {
        let ghost p = br.pos();
        let mut value: u64 = br.read_bits(12)?;
        let mut weight: u64 = 0x1000;
        let mut shift: usize = 12;
        proof {
            lemma_bits_value_bound(br.data(), p, 12);
        }
        loop
            invariant
                12 <= shift <= 60,
                shift % 8 == 4,
                weight == pow2(shift as nat),
                value < weight,
                br.data() == old(br).data(),
                spec_read_u64(old(br).data(), old(br).pos()) == spec_read_u64_rest(
                    br.data(),
                    br.pos(),
                    value as nat,
                    shift as nat,
                ),
            decreases 60 - shift,
        {
            let more = br.read_bits(1)?;
            if more == 0 {
                return Ok(value);
            }
            let ghost q = br.pos();
            proof {
                lemma2_to64();
                vstd::arithmetic::power2::lemma2_to64_rest();
            }
            if shift == 60 {
                let top = br.read_bits(4)?;
                proof {
                    lemma_bits_value_bound(br.data(), q, 4);
                    assert(top * weight <= 15 * weight) by (nonlinear_arith)
                        requires
                            top <= 15,
                            weight >= 0,
                    ;
                }
                return Ok(value + top * weight);
            }
            let next = br.read_bits(8)?;
            proof {
                lemma_bits_value_bound(br.data(), q, 8);
                lemma_pow2_at_most(shift as nat, 52);
                vstd::arithmetic::power2::lemma_pow2_adds(shift as nat, 8);
                assert(next * weight <= 255 * weight) by (nonlinear_arith)
                    requires
                        next <= 255,
                        weight >= 0,
                ;
            }
            value = value + next * weight;
            weight = weight * 256;
            shift = shift + 8;
        }
    }
}

/// Reads the integer where `condition` holds, and yields `default` without
/// moving where it does not.
pub fn read_defaulted_u64(condition: bool, default: u64, br: &mut BitReader) -> (r: Result<
    u64,
    Error,
>)
    ensures
        final(br).data() == old(br).data(),
        (r, final(br).pos()) == defaulted(
            condition,
            default,
            spec_read_u64(old(br).data(), old(br).pos()),
            old(br).pos(),
        ),
{
    if condition {
        read_u64(br)
    } else {
        Ok(default)
    }
}

/// A coded integer moves the cursor forward, and not out of the buffer.
pub proof fn lemma_u32_moves_forward(coder: U32Coder, data: Seq<u8>, pos: nat)
    ensures
        forward(data, pos, coder.spec_read(data, pos)),
        forward(data, pos, spec_read_signed(coder, data, pos)),
{
}

/// A sequence of coded integers moves the cursor forward, and not out of the
/// buffer.
pub proof fn lemma_u32s_move_forward(coder: U32Coder, data: Seq<u8>, pos: nat, count: nat)
    ensures
        forward(data, pos, spec_read_u32s(coder, data, pos, count)),
    decreases count,
{
    if count > 0 {
        lemma_u32s_move_forward(coder, data, pos, (count - 1) as nat);
        lemma_u32_moves_forward(
            coder,
            data,
            spec_read_u32s(coder, data, pos, (count - 1) as nat).1,
        );
    }
}

/// The rest of a long 64-bit integer moves the cursor forward, and not out
/// of the buffer.
pub proof fn lemma_u64_rest_moves_forward(data: Seq<u8>, pos: nat, value: nat, shift: nat)
    ensures
        forward(data, pos, spec_read_u64_rest(data, pos, value, shift)),
    decreases 68 - shift,
{
    if shift < 60 {
        lemma_u64_rest_moves_forward(
            data,
            pos + 9,
            (value + bits_value(data, pos + 1, 8) as u64 * pow2(shift)) as nat,
            shift + 8,
        );
    }
}

/// A 64-bit integer moves the cursor forward, and not out of the buffer.
pub proof fn lemma_u64_moves_forward(data: Seq<u8>, pos: nat)
    ensures
        forward(data, pos, spec_read_u64(data, pos)),
        forward(data, pos, spec_read_bool(data, pos)),
{
    lemma_u64_rest_moves_forward(data, pos + 14, bits_value(data, pos + 2, 12) as u64 as nat, 12);
}

} // verus!
