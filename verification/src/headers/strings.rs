//! Strings in the stream.

use crate::bit_reader::{lemma_bits_value_bound, spec_read_bits, BitReader};
use crate::error::Error;
use crate::headers::encodings::{lemma_u32_moves_forward, U32Coder, U32};
use crate::headers::record::{defaulted, forward, value, viewed, Decoded};
use vstd::arithmetic::power2::lemma2_to64;
use vstd::prelude::*;

verus! {

/// `count` characters at `pos`, eight bits each, one behind the other.
pub open spec fn spec_read_chars(data: Seq<u8>, pos: nat, count: nat) -> Decoded<Seq<char>>
    decreases count,
{
    if count == 0 {
        (Ok(Seq::empty()), pos)
    } else {
        match spec_read_chars(data, pos, (count - 1) as nat) {
            (Ok(front), p) => match spec_read_bits(data, p, 8) {
                (Ok(raw), q) => (Ok(front.push(raw as u8 as char)), q),
                (Err(e), q) => (Err(e), q),
            },
            (Err(e), p) => (Err(e), p),
        }
    }
}

/// Once one character of a string cannot be read, no longer string can.
pub proof fn lemma_chars_failure_stays(data: Seq<u8>, pos: nat, failed: nat, count: nat)
    requires
        failed <= count,
        spec_read_chars(data, pos, failed).0 is Err,
    ensures
        spec_read_chars(data, pos, count) == spec_read_chars(data, pos, failed),
    decreases count,
{
    if failed < count {
        lemma_chars_failure_stays(data, pos, failed, (count - 1) as nat);
    }
}

/// The coding of a string's length.
pub open spec fn spec_length_coder() -> U32Coder {
    U32Coder::Select(
        U32::Val(0),
        U32::Bits(4),
        U32::BitsOffset { n: 5, off: 16 },
        U32::BitsOffset { n: 10, off: 48 },
    )
}

/// The coding of a string's length.
#[verifier::when_used_as_spec(spec_length_coder)]
pub fn length_coder() -> (coder: U32Coder)
    ensures
        coder == spec_length_coder(),
        coder.wf(),
{
    proof {
        lemma2_to64();
    }
    U32Coder::Select(
        U32::Val(0),
        U32::Bits(4),
        U32::BitsOffset { n: 5, off: 16 },
        U32::BitsOffset { n: 10, off: 48 },
    )
}

/// A string at `pos`: its length, then one character of eight bits for each
/// unit of the length.
pub open spec fn spec_read_string(data: Seq<u8>, pos: nat) -> Decoded<Seq<char>> {
    match length_coder().spec_read(data, pos) {
        (Ok(len), p) => spec_read_chars(data, p, len as nat),
        (Err(e), p) => (Err(e), p),
    }
}

/// `String::push` of the standard library: the character is appended to the
/// string, and nothing else of the string changes.
#[verifier::external_body]
fn push_char(s: &mut String, c: char)
    ensures
        final(s)@ == old(s)@.push(c),
{
    s.push(c)
}

/// Reads the string where `condition` holds, and yields the empty string
/// without moving where it does not.
pub fn read_defaulted_string(condition: bool, br: &mut BitReader) -> (r: Result<String, Error>)
    ensures
        final(br).data() == old(br).data(),
        (viewed(r), final(br).pos()) == defaulted(
            condition,
            Seq::<char>::empty(),
            spec_read_string(old(br).data(), old(br).pos()),
            old(br).pos(),
        ),
{
    if condition {
        read_string(br)
    } else {
        Ok(String::new())
    }
}

/// Reads a string: its length, then its characters.
pub fn read_string(br: &mut BitReader) -> (r: Result<String, Error>)
    ensures
        final(br).data() == old(br).data(),
        (viewed(r), final(br).pos()) == spec_read_string(old(br).data(), old(br).pos()),
{
    let len = length_coder().read(br)?;
    let ghost start = br.pos();
    let mut name = String::new();
    let mut i: u32 = 0;
    while i < len
        invariant
            i <= len,
            br.data() == old(br).data(),
            spec_read_string(old(br).data(), old(br).pos()) == spec_read_chars(
                old(br).data(),
                start,
                len as nat,
            ),
            (Ok::<Seq<char>, Error>(name@), br.pos()) == spec_read_chars(
                old(br).data(),
                start,
                i as nat,
            ),
        decreases len - i,
    {
        let ghost p = br.pos();
        match br.read_bits(8) {
            Ok(raw) => {
                proof {
                    lemma_bits_value_bound(br.data(), p, 8);
                    lemma2_to64();
                }
                push_char(&mut name, raw as u8 as char);
            },
            Err(e) => {
                proof {
                    lemma_chars_failure_stays(old(br).data(), start, (i + 1) as nat, len as nat);
                }
                return Err(e);
            },
        }
        i = i + 1;
    }
    Ok(name)
}

/// The characters of a string move the cursor forward, and not out of the
/// buffer.
pub proof fn lemma_chars_move_forward(data: Seq<u8>, pos: nat, count: nat)
    ensures
        forward(data, pos, spec_read_chars(data, pos, count)),
    decreases count,
{
    if count > 0 {
        lemma_chars_move_forward(data, pos, (count - 1) as nat);
    }
}

/// A string moves the cursor forward, and not out of the buffer.
pub proof fn lemma_string_moves_forward(data: Seq<u8>, pos: nat)
    ensures
        forward(data, pos, spec_read_string(data, pos)),
{
    let len = length_coder().spec_read(data, pos);
    lemma_u32_moves_forward(length_coder(), data, pos);
    if len.0 is Ok {
        lemma_chars_move_forward(data, len.1, value(len) as nat);
    }
}

} // verus!
