//! The block that keeps a record open to later additions.

use crate::bit_reader::{spec_skip_bits, BitReader};
use crate::error::Error;
use crate::headers::encodings::{lemma_u64_moves_forward, read_u64, spec_read_u64};
use crate::headers::record::{defaulted, forward, value, Decoded, Empty};
use vstd::arithmetic::power2::{lemma2_to64, pow2};
use vstd::prelude::*;

verus! {

/// The block that keeps a record open to later additions. Nothing of it is
/// kept: what it announces is passed over.
#[derive(Clone, Copy, Debug, PartialEq, Eq, Structural)]
pub struct Extensions {}

impl Default for Extensions {
    /// The empty block.
    fn default() -> (r: Self)
        ensures
            r == (Extensions {  }),
    {
        Extensions {  }
    }
}

/// Whether bit `i` of the selector is set, that is whether extension `i` is
/// there.
pub open spec fn extension_present(selector: u64, i: nat) -> bool {
    selector as nat / pow2(i) % 2 == 1
}

/// The sizes in bits of the extensions below number `upto`, read at `pos` in
/// the order of their numbers: one 64-bit integer for each that is there.
pub open spec fn spec_read_extension_sizes(
    data: Seq<u8>,
    pos: nat,
    selector: u64,
    upto: nat,
) -> Decoded<Seq<u64>>
    decreases upto,
{
    if upto == 0 {
        (Ok(Seq::empty()), pos)
    } else {
        match spec_read_extension_sizes(data, pos, selector, (upto - 1) as nat) {
            (Ok(front), p) => if extension_present(selector, (upto - 1) as nat) {
                match spec_read_u64(data, p) {
                    (Ok(size), q) => (Ok(front.push(size)), q),
                    (Err(e), q) => (Err(e), q),
                }
            } else {
                (Ok(front), p)
            },
            (Err(e), p) => (Err(e), p),
        }
    }
}

/// Passing over the first `upto` of the extensions, whose sizes in bits are
/// `sizes`, one behind the other.
pub open spec fn spec_skip_extensions(
    data: Seq<u8>,
    pos: nat,
    sizes: Seq<u64>,
    upto: nat,
) -> Decoded<()>
    decreases upto,
{
    if upto == 0 {
        (Ok(()), pos)
    } else {
        match spec_skip_extensions(data, pos, sizes, (upto - 1) as nat) {
            (Ok(_), p) => spec_skip_bits(data, p, sizes[upto - 1] as nat),
            (Err(e), p) => (Err(e), p),
        }
    }
}

/// The extension block at `pos`: a selector of 64 bits, the sizes of the
/// extensions that it announces, and then their contents.
pub open spec fn spec_read_extensions(data: Seq<u8>, pos: nat) -> Decoded<Extensions> {
    match spec_read_u64(data, pos) {
        (Ok(selector), p) => match spec_read_extension_sizes(data, p, selector, 64) {
            (Ok(sizes), q) => match spec_skip_extensions(data, q, sizes, sizes.len()) {
                (Ok(_), end) => (Ok(Extensions {  }), end),
                (Err(e), end) => (Err(e), end),
            },
            (Err(e), q) => (Err(e), q),
        },
        (Err(e), p) => (Err(e), p),
    }
}

impl Extensions {
    /// Reads the extension block where `condition` holds, and yields the
    /// empty block without moving where it does not.
    pub fn read_defaulted(condition: bool, br: &mut BitReader) -> (r: Result<Extensions, Error>)
        ensures
            final(br).data() == old(br).data(),
            (r, final(br).pos()) == defaulted(
                condition,
                Extensions {  },
                spec_read_extensions(old(br).data(), old(br).pos()),
                old(br).pos(),
            ),
    {
        if condition {
            Self::read_unconditional(&(), br, &Empty {  })
        } else {
            Ok(Extensions {  })
        }
    }
}

/// Once one size cannot be read, no further size can.
pub proof fn lemma_extension_sizes_failure_stays(
    data: Seq<u8>,
    pos: nat,
    selector: u64,
    failed: nat,
    upto: nat,
)
    requires
        failed <= upto,
        spec_read_extension_sizes(data, pos, selector, failed).0 is Err,
    ensures
        spec_read_extension_sizes(data, pos, selector, upto) == spec_read_extension_sizes(
            data,
            pos,
            selector,
            failed,
        ),
    decreases upto,
{
    if failed < upto {
        lemma_extension_sizes_failure_stays(data, pos, selector, failed, (upto - 1) as nat);
    }
}

/// Once one extension does not fit in the buffer, none behind it is reached.
pub proof fn lemma_skip_extensions_failure_stays(
    data: Seq<u8>,
    pos: nat,
    sizes: Seq<u64>,
    failed: nat,
    upto: nat,
)
    requires
        failed <= upto,
        spec_skip_extensions(data, pos, sizes, failed).0 is Err,
    ensures
        spec_skip_extensions(data, pos, sizes, upto) == spec_skip_extensions(
            data,
            pos,
            sizes,
            failed,
        ),
    decreases upto,
{
    if failed < upto {
        lemma_skip_extensions_failure_stays(data, pos, sizes, failed, (upto - 1) as nat);
    }
}

impl Extensions {
    /// Reads the extension block and passes over what it announces.
    pub fn read_unconditional(config: &(), br: &mut BitReader, nonserialized: &Empty) -> (r: Result<
        Extensions,
        Error,
    >)
        ensures
            final(br).data() == old(br).data(),
            (r, final(br).pos()) == spec_read_extensions(old(br).data(), old(br).pos()),
    {
        let selector = read_u64(br)?;
        let ghost start = br.pos();
        let mut sizes: Vec<u64> = Vec::new();
        let mut rest: u64 = selector;
        let mut i: usize = 0;
        proof {
            lemma2_to64();
        }
        while i < 64
            invariant
                i <= 64,
                br.data() == old(br).data(),
                rest as nat == selector as nat / pow2(i as nat),
                spec_read_u64(old(br).data(), old(br).pos()) == (Ok::<u64, Error>(selector), start),
                (Ok::<Seq<u64>, Error>(sizes@), br.pos()) == spec_read_extension_sizes(
                    old(br).data(),
                    start,
                    selector,
                    i as nat,
                ),
            decreases 64 - i,
        {
            if rest % 2 == 1 {
                match read_u64(br) {
                    Ok(size) => {
                        sizes.push(size);
                    },
                    Err(e) => {
                        proof {
                            lemma_extension_sizes_failure_stays(
                                old(br).data(),
                                start,
                                selector,
                                (i + 1) as nat,
                                64,
                            );
                        }
                        return Err(e);
                    },
                }
            }
            proof {
                vstd::arithmetic::power2::lemma_pow2_pos(i as nat);
                vstd::arithmetic::power2::lemma_pow2_unfold((i + 1) as nat);
                vstd::arithmetic::div_mod::lemma_div_denominator(
                    selector as int,
                    pow2(i as nat) as int,
                    2,
                );
                assert(pow2(i as nat) * 2 == 2 * pow2(i as nat)) by (nonlinear_arith);
            }
            rest = rest / 2;
            i = i + 1;
        }
        let ghost mid = br.pos();
        let mut k: usize = 0;
        while k < sizes.len()
            invariant
                k <= sizes.len(),
                br.data() == old(br).data(),
                spec_read_u64(old(br).data(), old(br).pos()) == (Ok::<u64, Error>(selector), start),
                spec_read_extension_sizes(old(br).data(), start, selector, 64) == (
                    Ok::<Seq<u64>, Error>(sizes@),
                    mid,
                ),
                (Ok::<(), Error>(()), br.pos()) == spec_skip_extensions(
                    old(br).data(),
                    mid,
                    sizes@,
                    k as nat,
                ),
            decreases sizes.len() - k,
        {
            match br.skip_bits(sizes[k]) {
                Ok(_) => {},
                Err(e) => {
                    proof {
                        lemma_skip_extensions_failure_stays(
                            old(br).data(),
                            mid,
                            sizes@,
                            (k + 1) as nat,
                            sizes@.len(),
                        );
                    }
                    return Err(e);
                },
            }
            k = k + 1;
        }
        Ok(Extensions {  })
    }
}

/// The sizes of the extensions move the cursor forward, and not out of the
/// buffer.
pub proof fn lemma_extension_sizes_move_forward(
    data: Seq<u8>,
    pos: nat,
    selector: u64,
    upto: nat,
)
    ensures
        forward(data, pos, spec_read_extension_sizes(data, pos, selector, upto)),
    decreases upto,
{
    if upto > 0 {
        lemma_extension_sizes_move_forward(data, pos, selector, (upto - 1) as nat);
        lemma_u64_moves_forward(
            data,
            spec_read_extension_sizes(data, pos, selector, (upto - 1) as nat).1,
        );
    }
}

/// Passing over the extensions moves the cursor forward, and not out of the
/// buffer.
pub proof fn lemma_skip_extensions_moves_forward(
    data: Seq<u8>,
    pos: nat,
    sizes: Seq<u64>,
    upto: nat,
)
    ensures
        forward(data, pos, spec_skip_extensions(data, pos, sizes, upto)),
    decreases upto,
{
    if upto > 0 {
        lemma_skip_extensions_moves_forward(data, pos, sizes, (upto - 1) as nat);
    }
}

/// The extension block moves the cursor forward, and not out of the buffer.
pub proof fn lemma_extensions_move_forward(data: Seq<u8>, pos: nat)
    ensures
        forward(data, pos, spec_read_extensions(data, pos)),
{
    lemma_u64_moves_forward(data, pos);
    let selector = spec_read_u64(data, pos);
    if selector.0 is Ok {
        lemma_extension_sizes_move_forward(data, selector.1, value(selector), 64);
        let sizes = spec_read_extension_sizes(data, selector.1, value(selector), 64);
        if sizes.0 is Ok {
            lemma_skip_extensions_moves_forward(
                data,
                sizes.1,
                value(sizes),
                value(sizes).len(),
            );
        }
    }
}

} // verus!
