//! The table of contents of a frame.

use crate::bit_reader::BitReader;
use crate::error::Error;
use crate::headers::encodings::{
    lemma_u32s_move_forward, read_bool, spec_read_bool, spec_read_u32s, U32Coder, U32,
};
use crate::headers::record::{
    after, conditional, finish, forward, value, viewed, Decoded, Empty,
};
use vstd::arithmetic::power2::lemma2_to64;
use vstd::prelude::*;

verus! {

/// The order in which the sections of a frame follow one another, where it
/// is not the natural one. The record has no fields: that an order is given
/// is all that is taken from the stream.
#[derive(Clone, Copy, Debug, PartialEq, Eq, Structural)]
pub struct Permutation {}

impl Default for Permutation {
    /// The permutation that says nothing.
    fn default() -> (r: Self)
        ensures
            r == (Permutation {  }),
    {
        Permutation {  }
    }
}

impl Permutation {
    /// The permutation at `pos`: nothing is read.
    pub open spec fn spec_read(data: Seq<u8>, pos: nat) -> Decoded<Permutation> {
        (Ok(Permutation {  }), pos)
    }

    /// Reads the permutation: nothing of the stream.
    pub fn read_unconditional(config: &(), br: &mut BitReader, nonserialized: &Empty) -> (r: Result<
        Permutation,
        Error,
    >)
        ensures
            final(br).data() == old(br).data(),
            (r, final(br).pos()) == Self::spec_read(old(br).data(), old(br).pos()),
    {
        Ok(Permutation {  })
    }
}

/// What the table of contents depends on. Only the number of entries, which
/// the frame header gives, decides what is read.
#[derive(Debug, PartialEq)]
pub struct TocNonserialized {
    pub permuted: bool,
    pub num_entries: u32,
    pub entries: Vec<u32>,
}

/// The table of contents of a frame: the size in bytes of each of its
/// sections.
#[derive(Debug, PartialEq)]
pub struct Toc {
    pub permuted: bool,
    pub permutation: Permutation,
    pub entries: Vec<u32>,
}

/// The table of contents as a mathematical value.
pub struct TocView {
    pub permuted: bool,
    pub permutation: Permutation,
    pub entries: Seq<u32>,
}

impl View for Toc {
    type V = TocView;

    open spec fn view(&self) -> TocView {
        TocView { permuted: self.permuted, permutation: self.permutation, entries: self.entries@ }
    }
}

/// The coding of an entry: a size in bytes, short for small sizes.
pub open spec fn spec_entry_coder() -> U32Coder {
    U32Coder::Select(
        U32::Bits(10),
        U32::BitsOffset { n: 14, off: 1024 },
        U32::BitsOffset { n: 22, off: 17408 },
        U32::BitsOffset { n: 30, off: 4211712 },
    )
}

/// The coding of an entry: a size in bytes, short for small sizes.
#[verifier::when_used_as_spec(spec_entry_coder)]
pub fn entry_coder() -> (coder: U32Coder)
    ensures
        coder == spec_entry_coder(),
        coder.wf(),
{
    proof {
        lemma2_to64();
    }
    U32Coder::Select(
        U32::Bits(10),
        U32::BitsOffset { n: 14, off: 1024 },
        U32::BitsOffset { n: 22, off: 17408 },
        U32::BitsOffset { n: 30, off: 4211712 },
    )
}

impl Toc {
    /// The table of contents at `pos`: the bit that says whether the
    /// sections are permuted, the permutation if they are, and then
    /// `num_entries` sizes.
    pub open spec fn spec_read(data: Seq<u8>, pos: nat, num_entries: u32) -> Decoded<TocView> {
        let permuted = spec_read_bool(data, pos);
        let permutation = conditional(
            permuted,
            value(permuted),
            Permutation {  },
            Permutation::spec_read(data, permuted.1),
        );
        let entries = after(
            permutation,
            spec_read_u32s(entry_coder(), data, permutation.1, num_entries as nat),
        );
        finish(
            entries,
            TocView {
                permuted: value(permuted),
                permutation: value(permutation),
                entries: value(entries),
            },
        )
    }

    /// Reads the table of contents of a frame.
    pub fn read_unconditional(
        config: &(),
        br: &mut BitReader,
        nonserialized: &TocNonserialized,
    ) -> (r: Result<Toc, Error>)
        ensures
            final(br).data() == old(br).data(),
            (viewed(r), final(br).pos()) == Self::spec_read(
                old(br).data(),
                old(br).pos(),
                nonserialized.num_entries,
            ),
    {
        let permuted = read_bool(br)?;
        let permutation = if permuted {
            Permutation::read_unconditional(&(), br, &Empty {  })?
        } else {
            Permutation {  }
        };
        let entries = entry_coder().read_vec(nonserialized.num_entries, br)?;
        Ok(Toc { permuted, permutation, entries })
    }
}

/// The sum of the first `upto` sizes.
pub open spec fn sum_of_sizes(entries: Seq<u32>, upto: nat) -> nat
    decreases upto,
{
    if upto == 0 {
        0
    } else {
        sum_of_sizes(entries, (upto - 1) as nat) + entries[upto - 1] as nat
    }
}

/// The sum grows with the number of sizes that it takes in.
pub proof fn lemma_sum_of_sizes_grows(entries: Seq<u32>, fewer: nat, more: nat)
    requires
        fewer <= more,
    ensures
        sum_of_sizes(entries, fewer) <= sum_of_sizes(entries, more),
    decreases more,
{
    if fewer < more {
        lemma_sum_of_sizes_grows(entries, fewer, (more - 1) as nat);
    }
}

impl Toc {
    /// The number of bytes that the sections of the frame take together, or
    /// `None` where the machine cannot count that many.
    pub fn total_size(&self) -> (total: Option<usize>)
        ensures
            total == if sum_of_sizes(self.entries@, self.entries@.len()) <= usize::MAX {
                Some(sum_of_sizes(self.entries@, self.entries@.len()) as usize)
            } else {
                None
            },
    {
        let mut total: usize = 0;
        let mut i: usize = 0;
        while i < self.entries.len()
            invariant
                i <= self.entries@.len(),
                total == sum_of_sizes(self.entries@, i as nat),
            decreases self.entries.len() - i,
        {
            match total.checked_add(self.entries[i] as usize) {
                Some(sum) => {
                    total = sum;
                },
                None => {
                    proof {
                        lemma_sum_of_sizes_grows(
                            self.entries@,
                            (i + 1) as nat,
                            self.entries@.len(),
                        );
                    }
                    return None;
                },
            }
            i = i + 1;
        }
        Some(total)
    }
}

/// The table of contents moves the cursor forward, and not out of the
/// buffer.
pub proof fn lemma_toc_moves_forward(data: Seq<u8>, pos: nat, num_entries: u32)
    ensures
        forward(data, pos, Toc::spec_read(data, pos, num_entries)),
{
    assert forall|p: nat|
        forward(data, p, #[trigger] spec_read_u32s(entry_coder(), data, p, num_entries as nat)) by {
        lemma_u32s_move_forward(entry_coder(), data, p, num_entries as nat);
    }
}

} // verus!
