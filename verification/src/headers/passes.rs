//! The progressive passes of a frame.

use crate::bit_reader::BitReader;
use crate::error::Error;
use crate::headers::encodings::{
    lemma_read_is_admitted, lemma_read_u32s_are_admitted, lemma_u32_moves_forward,
    lemma_u32s_move_forward, spec_read_u32s,
    U32Coder, U32,
};
use crate::headers::record::{
    conditional, defaulted, finish, forward, repeated, value, viewed, Decoded, Empty,
};
use vstd::arithmetic::power2::lemma2_to64;
use vstd::prelude::*;

verus! {

/// How a frame is split into progressive passes.
#[derive(Debug, PartialEq)]
pub struct Passes {
    pub num_passes: u32,
    pub num_ds: u32,
    pub shift: Vec<u32>,
    pub downsample: Vec<u32>,
    pub last_pass: Vec<u32>,
}

/// The pass structure as a mathematical value.
pub struct PassesView {
    pub num_passes: u32,
    pub num_ds: u32,
    pub shift: Seq<u32>,
    pub downsample: Seq<u32>,
    pub last_pass: Seq<u32>,
}

impl View for Passes {
    type V = PassesView;

    open spec fn view(&self) -> PassesView {
        PassesView {
            num_passes: self.num_passes,
            num_ds: self.num_ds,
            shift: self.shift@,
            downsample: self.downsample@,
            last_pass: self.last_pass@,
        }
    }
}

impl PassesView {
    /// A single pass, and nothing downsampled.
    pub open spec fn spec_default() -> PassesView {
        PassesView {
            num_passes: 1,
            num_ds: 0,
            shift: Seq::empty(),
            downsample: Seq::empty(),
            last_pass: Seq::empty(),
        }
    }

    /// The counts are in the range of their codings, and each list has the
    /// length that the counts give it.
    pub open spec fn wf(self) -> bool {
        &&& 1 <= self.num_passes <= 11
        &&& self.num_ds <= 4
        &&& self.num_passes == 1 ==> self.num_ds == 0
        &&& self.shift.len() == self.num_passes - 1
        &&& self.downsample.len() == self.num_ds
        &&& self.last_pass.len() == self.num_ds
    }
}

impl Default for Passes {
    /// A single pass, and nothing downsampled.
    fn default() -> (r: Self)
        ensures
            r@ == PassesView::spec_default(),
    {
        Passes {
            num_passes: 1,
            num_ds: 0,
            shift: Vec::new(),
            downsample: Vec::new(),
            last_pass: Vec::new(),
        }
    }
}

impl Passes {
    /// The pass structure at `pos`, field by field in the order of the
    /// stream. All fields but the first are there only where there is more
    /// than one pass.
    pub open spec fn spec_read(data: Seq<u8>, pos: nat) -> Decoded<PassesView> {
        let num_passes = U32Coder::Select(
            U32::Val(1),
            U32::Val(2),
            U32::Val(3),
            U32::BitsOffset { n: 3, off: 4 },
        ).spec_read(data, pos);
        let several = value(num_passes) != 1;
        let num_ds = conditional(
            num_passes,
            several,
            0,
            U32Coder::Select(
                U32::Val(0),
                U32::Val(1),
                U32::Val(2),
                U32::BitsOffset { n: 1, off: 3 },
            ).spec_read(data, num_passes.1),
        );
        let shift = conditional(
            num_ds,
            several,
            repeated((value(num_passes) - 1) as nat, 0),
            spec_read_u32s(
                U32Coder::Direct(U32::Bits(2)),
                data,
                num_ds.1,
                (value(num_passes) - 1) as nat,
            ),
        );
        let downsample = conditional(
            shift,
            several,
            repeated(value(num_ds) as nat, 1),
            spec_read_u32s(
                U32Coder::Select(U32::Val(1), U32::Val(2), U32::Val(4), U32::Val(8)),
                data,
                shift.1,
                value(num_ds) as nat,
            ),
        );
        let last_pass = conditional(
            downsample,
            several,
            repeated(value(num_ds) as nat, 0),
            spec_read_u32s(
                U32Coder::Select(U32::Val(0), U32::Val(1), U32::Val(2), U32::Bits(3)),
                data,
                downsample.1,
                value(num_ds) as nat,
            ),
        );
        finish(
            last_pass,
            PassesView {
                num_passes: value(num_passes),
                num_ds: value(num_ds),
                shift: value(shift),
                downsample: value(downsample),
                last_pass: value(last_pass),
            },
        )
    }

    /// Reads the pass structure where `condition` holds, and yields the
    /// default without moving where it does not.
    pub fn read_defaulted(condition: bool, br: &mut BitReader) -> (r: Result<Passes, Error>)
        ensures
            final(br).data() == old(br).data(),
            (viewed(r), final(br).pos()) == defaulted(
                condition,
                PassesView::spec_default(),
                Self::spec_read(old(br).data(), old(br).pos()),
                old(br).pos(),
            ),
    {
        if condition {
            Self::read_unconditional(&(), br, &Empty {  })
        } else {
            Ok(Passes::default())
        }
    }

    /// Reads the pass structure.
    pub fn read_unconditional(config: &(), br: &mut BitReader, nonserialized: &Empty) -> (r: Result<
        Passes,
        Error,
    >)
        ensures
            final(br).data() == old(br).data(),
            (viewed(r), final(br).pos()) == Self::spec_read(old(br).data(), old(br).pos()),
    {
        proof {
            lemma2_to64();
            lemma_read_is_admitted(
                U32Coder::Select(
                    U32::Val(1),
                    U32::Val(2),
                    U32::Val(3),
                    U32::BitsOffset { n: 3, off: 4 },
                ),
                br.data(),
                br.pos(),
            );
        }
        let num_passes = U32Coder::Select(
            U32::Val(1),
            U32::Val(2),
            U32::Val(3),
            U32::BitsOffset { n: 3, off: 4 },
        ).read(br)?;
        let several = num_passes != 1;
        let num_ds = U32Coder::Select(
            U32::Val(0),
            U32::Val(1),
            U32::Val(2),
            U32::BitsOffset { n: 1, off: 3 },
        ).read_defaulted(several, 0, br)?;
        let shift = U32Coder::Direct(U32::Bits(2)).read_defaulted_vec(
            num_passes - 1,
            several,
            0,
            br,
        )?;
        let downsample = U32Coder::Select(
            U32::Val(1),
            U32::Val(2),
            U32::Val(4),
            U32::Val(8),
        ).read_defaulted_vec(num_ds, several, 1, br)?;
        let last_pass = U32Coder::Select(
            U32::Val(0),
            U32::Val(1),
            U32::Val(2),
            U32::Bits(3),
        ).read_defaulted_vec(num_ds, several, 0, br)?;
        Ok(Passes { num_passes, num_ds, shift, downsample, last_pass })
    }
}

/// The pass structure moves the cursor forward, and not out of the buffer.
pub proof fn lemma_passes_move_forward(data: Seq<u8>, pos: nat)
    ensures
        forward(data, pos, Passes::spec_read(data, pos)),
{
    assert forall|coder: U32Coder, p: nat|
        forward(data, p, #[trigger] coder.spec_read(data, p)) by {
        lemma_u32_moves_forward(coder, data, p);
    }
    assert forall|coder: U32Coder, p: nat, count: nat|
        forward(data, p, #[trigger] spec_read_u32s(coder, data, p, count)) by {
        lemma_u32s_move_forward(coder, data, p, count);
    }
}

/// A pass structure that was decoded is well formed.
pub proof fn lemma_decoded_passes_are_wf(data: Seq<u8>, pos: nat)
    ensures
        Passes::spec_read(data, pos).0 is Ok ==> value(Passes::spec_read(data, pos)).wf(),
{
    lemma2_to64();
    assert forall|coder: U32Coder, p: nat|
        coder.wf() && (#[trigger] coder.spec_read(data, p)).0 is Ok implies coder.admits(
        value(coder.spec_read(data, p)),
    ) by {
        lemma_read_is_admitted(coder, data, p);
    }
    assert forall|coder: U32Coder, p: nat, count: nat|
        coder.wf() && (#[trigger] spec_read_u32s(coder, data, p, count)).0 is Ok implies value(
            spec_read_u32s(coder, data, p, count),
        ).len() == count by {
        lemma_read_u32s_are_admitted(coder, data, p, count);
    }
}

} // verus!
