//! The cursor over the bits of a buffer, and what a read of raw bits yields.

use crate::error::Error;
use vstd::arithmetic::power2::{lemma_pow2_unfold, pow2};
use vstd::prelude::*;

verus! {

/// Bit `i` of a byte stream, as 0 or 1. Bits are numbered from the least
/// significant bit of the first byte upwards.
pub open spec fn bit_at(data: Seq<u8>, i: nat) -> nat {
    if (data[i as int / 8] >> ((i % 8) as u8)) & 1 == 1 {
        1
    } else {
        0
    }
}

/// The unsigned integer held by the `n` bits that start at bit `pos`. The
/// first bit of the stream is the least significant bit of the integer.
pub open spec fn bits_value(data: Seq<u8>, pos: nat, n: nat) -> nat
    decreases n,
{
    if n == 0 {
        0
    } else {
        bit_at(data, pos) + 2 * bits_value(data, pos + 1, (n - 1) as nat)
    }
}

/// The number of bits in a byte stream.
pub open spec fn bit_len(data: Seq<u8>) -> nat {
    8 * data.len()
}

/// The first byte boundary at or after bit `pos`.
pub open spec fn next_byte_boundary(pos: nat) -> nat {
    ((pos + 7) / 8 * 8) as nat
}

/// The next byte boundary is at or behind the position, and inside the
/// buffer if the position is.
pub proof fn lemma_byte_boundary(data: Seq<u8>, pos: nat)
    ensures
        pos <= next_byte_boundary(pos),
        pos <= bit_len(data) ==> next_byte_boundary(pos) <= bit_len(data),
{
}

/// Reading `n` raw bits at `pos`: the integer and the position behind it, or
/// `OutOfBounds` with the position unchanged where fewer than `n` bits are
/// left.
pub open spec fn spec_read_bits(data: Seq<u8>, pos: nat, n: nat) -> (Result<u64, Error>, nat) {
    if pos + n <= bit_len(data) {
        (Ok(bits_value(data, pos, n) as u64), pos + n)
    } else {
        (Err(Error::OutOfBounds), pos)
    }
}

/// Passing over `n` bits at `pos` without looking at them.
pub open spec fn spec_skip_bits(data: Seq<u8>, pos: nat, n: nat) -> (Result<(), Error>, nat) {
    if pos + n <= bit_len(data) {
        (Ok(()), pos + n)
    } else {
        (Err(Error::OutOfBounds), pos)
    }
}

/// An integer of `n` bits is below `2^n`.
pub proof fn lemma_bits_value_bound(data: Seq<u8>, pos: nat, n: nat)
    ensures
        bits_value(data, pos, n) < pow2(n),
    decreases n,
{
    if n == 0 {
        assert(pow2(0) == 1) by {
            vstd::arithmetic::power2::lemma2_to64();
        }
    } else {
        lemma_bits_value_bound(data, pos + 1, (n - 1) as nat);
        lemma_pow2_unfold(n);
    }
}

/// Powers of two do not decrease with the exponent.
pub proof fn lemma_pow2_at_most(a: nat, b: nat)
    requires
        a <= b,
    ensures
        pow2(a) <= pow2(b),
{
    if a < b {
        vstd::arithmetic::power2::lemma_pow2_strictly_increases(a, b);
    }
}

/// A cursor over the bits of a byte buffer. It only moves forward, and a read
/// that fails leaves it where it was.
pub struct BitReader<'a> {
    data: &'a [u8],
    byte: usize,
    bit: usize,
}

impl<'a> BitReader<'a> {
    #[verifier::type_invariant]
    spec fn inv(self) -> bool {
        &&& self.bit < 8
        &&& self.byte <= self.data@.len()
        &&& self.byte == self.data@.len() ==> self.bit == 0
    }

    /// The bytes under the cursor.
    pub closed spec fn data(self) -> Seq<u8> {
        self.data@
    }

    /// The number of bits that have been passed.
    pub closed spec fn pos(self) -> nat {
        (8 * self.byte + self.bit) as nat
    }

    /// A cursor at the first bit of `data`.
    pub fn new(data: &'a [u8]) -> (br: Self)
        ensures
            br.data() == data@,
            br.pos() == 0,
    {
        BitReader { data, byte: 0, bit: 0 }
    }

    /// The number of whole bytes that have been passed.
    pub fn byte_position(&self) -> (n: usize)
        ensures
            n == self.pos() / 8,
    {
        proof {
            use_type_invariant(self);
        }
        self.byte
    }

    /// The number of bits that have been passed in the current byte.
    pub fn bit_offset(&self) -> (n: usize)
        ensures
            n == self.pos() % 8,
    {
        proof {
            use_type_invariant(self);
        }
        self.bit
    }

    /// Whether `n` more bits can be read.
    pub fn has_bits(&self, n: u64) -> (b: bool)
        ensures
            b == (self.pos() + n <= bit_len(self.data())),
    {
        proof {
            use_type_invariant(self);
        }
        let left: u64 = (self.data.len() - self.byte) as u64;
        let part: u64 = n % 8 + self.bit as u64;
        n / 8 + (part + 7) / 8 <= left
    }

    /// Moves the cursor `n` bits on.
    fn advance(&mut self, n: u64)
        requires
            old(self).pos() + n <= bit_len(old(self).data()),
        ensures
            final(self).data() == old(self).data(),
            final(self).pos() == old(self).pos() + n,
    {
        proof {
            use_type_invariant(&*self);
        }
        let len: usize = self.data.len();
        let part: u64 = n % 8 + self.bit as u64;
        let byte: usize = self.byte + (n / 8 + part / 8) as usize;
        let bit: usize = (part % 8) as usize;
        *self = BitReader { data: self.data, byte, bit };
    }

    /// Bit `i` after the cursor, without moving.
    fn peek_bit(&self, i: usize) -> (b: u64)
        requires
            i < 64,
            self.pos() + i < bit_len(self.data()),
        ensures
            b == bit_at(self.data(), self.pos() + i as nat),
    {
        proof {
            use_type_invariant(self);
        }
        let len: usize = self.data.len();
        let k: usize = self.bit + i;
        let byte: u8 = self.data[self.byte + k / 8];
        let shift: u8 = (k % 8) as u8;
        let b: u8 = (byte >> shift) & 1;
        assert(b == 0 || b == 1) by (bit_vector)
            requires
                b == (byte >> shift) & 1,
        ;
        b as u64
    }

    /// Reads `n` raw bits as an unsigned integer, least significant bit first.
    pub fn read_bits(&mut self, n: usize) -> (r: Result<u64, Error>)
        requires
            n <= 64,
        ensures
            final(self).data() == old(self).data(),
            (r, final(self).pos()) == spec_read_bits(old(self).data(), old(self).pos(), n as nat),
    {
        if !self.has_bits(n as u64) {
            return Err(Error::OutOfBounds);
        }
        let mut value: u64 = 0;
        let mut i: usize = n;
        while i > 0
            invariant
                i <= n <= 64,
                self.pos() + n <= bit_len(self.data()),
                value == bits_value(self.data(), self.pos() + i as nat, (n - i) as nat),
            decreases i,
        {
            i = i - 1;
            let b = self.peek_bit(i);
            proof {
                lemma_bits_value_bound(self.data(), self.pos() + i as nat + 1, (n - i - 1) as nat);
                lemma_pow2_at_most((n - i - 1) as nat, 63);
                vstd::arithmetic::power2::lemma2_to64_rest();
            }
            value = 2 * value + b;
        }
        self.advance(n as u64);
        Ok(value)
    }

    /// Passes over `n` bits.
    pub fn skip_bits(&mut self, n: u64) -> (r: Result<(), Error>)
        ensures
            final(self).data() == old(self).data(),
            (r, final(self).pos()) == spec_skip_bits(old(self).data(), old(self).pos(), n as nat),
    {
        if !self.has_bits(n) {
            return Err(Error::OutOfBounds);
        }
        self.advance(n);
        Ok(())
    }

    /// Moves the cursor to the next byte boundary, or leaves it where it is if
    /// it stands on one.
    pub fn align_to_byte(&mut self)
        ensures
            final(self).data() == old(self).data(),
            final(self).pos() == next_byte_boundary(old(self).pos()),
            final(self).pos() <= bit_len(old(self).data()),
    {
        proof {
            use_type_invariant(&*self);
        }
        let len: usize = self.data.len();
        if self.bit != 0 {
            *self = BitReader { data: self.data, byte: self.byte + 1, bit: 0 };
        }
    }
}

} // verus!
