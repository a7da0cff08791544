//! The check of a frame header against the headers of the image.

use crate::bit_reader::lemma_pow2_at_most;
use crate::error::Error;
use crate::headers::extra_channels::ExtraChannelInfo;
use crate::headers::frame_header::{
    FrameHeader, FrameHeaderNonserialized, FrameHeaderNonserializedView, FrameHeaderView,
};
use vstd::arithmetic::power2::{lemma2_to64, pow2};
use vstd::prelude::*;

verus! {

/// Whether the upsampling of an extra channel fits that of the frame:
/// shifted up by the channel's dimension shift it reaches the frame's
/// upsampling, and it is at most 8.
pub open spec fn ec_upsampling_fits(upsampling: u32, dim_shift: u32, ec_upsampling: u32) -> bool {
    ec_upsampling * pow2(dim_shift as nat) >= upsampling && ec_upsampling <= 8
}

/// Whether the upsampling of an extra channel fits that of the frame.
fn fits(upsampling: u32, dim_shift: u32, ec_upsampling: u32) -> (r: bool)
    ensures
        r == ec_upsampling_fits(upsampling, dim_shift, ec_upsampling),
{
    proof {
        lemma2_to64();
    }
    if ec_upsampling > 8 {
        false
    } else if ec_upsampling == 0 {
        assert(0 * pow2(dim_shift as nat) == 0);
        upsampling == 0
    } else if dim_shift >= 32 {
        proof {
            lemma_pow2_at_most(32, dim_shift as nat);
            assert(ec_upsampling * pow2(dim_shift as nat) >= pow2(dim_shift as nat))
                by (nonlinear_arith)
                requires
                    ec_upsampling >= 1,
            ;
        }
        true
    } else {
        proof {
            lemma_pow2_at_most(dim_shift as nat, 32);
            assert(ec_upsampling * pow2(dim_shift as nat) <= 8 * pow2(dim_shift as nat))
                by (nonlinear_arith)
                requires
                    ec_upsampling <= 8,
            ;
            vstd::bits::lemma_u64_shl_is_mul(ec_upsampling as u64, dim_shift as u64);
        }
        ((ec_upsampling as u64) << (dim_shift as u64)) >= upsampling as u64
    }
}

/// The first extra channel, at or behind number `from`, whose upsampling
/// does not fit that of the frame. Only channels that have both a
/// description and an upsampling are looked at.
pub open spec fn first_misfit(
    upsampling: u32,
    infos: Seq<ExtraChannelInfo>,
    ec_upsampling: Seq<u32>,
    from: nat,
) -> Option<nat>
    decreases infos.len() - from,
{
    if from >= infos.len() || from >= ec_upsampling.len() {
        None
    } else if !ec_upsampling_fits(
        upsampling,
        infos[from as int].dim_shift,
        ec_upsampling[from as int],
    ) {
        Some(from)
    } else {
        first_misfit(upsampling, infos, ec_upsampling, from + 1)
    }
}

impl FrameHeaderView {
    /// What the check of the header says. With an upsampling above 1, the
    /// first extra channel whose upsampling does not fit is an error; else a
    /// count of downsampled passes that is not below the count of passes is
    /// one.
    pub open spec fn spec_check(self, nonserialized: FrameHeaderNonserializedView) -> Result<
        (),
        Error,
    > {
        let misfit = first_misfit(
            self.upsampling,
            nonserialized.extra_channel_info,
            self.ec_upsampling,
            0,
        );
        if self.upsampling > 1 && misfit is Some {
            let i = misfit->Some_0 as int;
            Err(
                Error::InvalidEcUpsampling(
                    self.upsampling,
                    nonserialized.extra_channel_info[i].dim_shift,
                    self.ec_upsampling[i],
                ),
            )
        } else if self.passes.num_ds >= self.passes.num_passes {
            Err(Error::NumPassesTooLarge(self.passes.num_ds, self.passes.num_passes))
        } else {
            Ok(())
        }
    }
}

impl FrameHeader {
    /// Whether the header is consistent with the headers of the image: the
    /// upsampling of each extra channel fits the frame's, and fewer passes
    /// are downsampled than there are passes.
    pub fn check(&self, nonserialized: &FrameHeaderNonserialized) -> (r: Result<(), Error>)
        ensures
            r == self@.spec_check(nonserialized@),
    {
        if self.upsampling > 1 {
            let mut i: usize = 0;
            while i < nonserialized.extra_channel_info.len() && i < self.ec_upsampling.len()
                invariant
                    self.upsampling > 1,
                    first_misfit(
                        self.upsampling,
                        nonserialized.extra_channel_info@,
                        self.ec_upsampling@,
                        0,
                    ) == first_misfit(
                        self.upsampling,
                        nonserialized.extra_channel_info@,
                        self.ec_upsampling@,
                        i as nat,
                    ),
                decreases nonserialized.extra_channel_info.len() - i,
            {
                let dim_shift = nonserialized.extra_channel_info[i].dim_shift();
                let ec_upsampling = self.ec_upsampling[i];
                if !fits(self.upsampling, dim_shift, ec_upsampling) {
                    return Err(
                        Error::InvalidEcUpsampling(self.upsampling, dim_shift, ec_upsampling),
                    );
                }
                i = i + 1;
            }
        }
        if self.passes.num_ds >= self.passes.num_passes {
            return Err(Error::NumPassesTooLarge(self.passes.num_ds, self.passes.num_passes));
        }
        Ok(())
    }
}

/// The first misfit, if there is one, is a channel at or behind `from` that
/// has a description and an upsampling, and every channel between `from` and
/// it fits; if there is none, every such channel fits.
pub proof fn lemma_first_misfit(
    upsampling: u32,
    infos: Seq<ExtraChannelInfo>,
    ec_upsampling: Seq<u32>,
    from: nat,
)
    ensures
        match first_misfit(upsampling, infos, ec_upsampling, from) {
            Some(k) => {
                &&& from <= k < infos.len()
                &&& k < ec_upsampling.len()
                &&& !ec_upsampling_fits(
                    upsampling,
                    infos[k as int].dim_shift,
                    ec_upsampling[k as int],
                )
                &&& forall|i: int|
                    from <= i < k ==> ec_upsampling_fits(
                        upsampling,
                        (#[trigger] infos[i]).dim_shift,
                        ec_upsampling[i],
                    )
            },
            None => forall|i: int|
                from <= i < infos.len() && i < ec_upsampling.len() ==> ec_upsampling_fits(
                    upsampling,
                    (#[trigger] infos[i]).dim_shift,
                    ec_upsampling[i],
                ),
        },
    decreases infos.len() - from,
{
    if from < infos.len() && from < ec_upsampling.len() {
        lemma_first_misfit(upsampling, infos, ec_upsampling, from + 1);
    }
}

/// With an upsampling above 1, the check fails on the extra channels if and
/// only if there is a channel whose upsampling, shifted up by the channel's
/// dimension shift, stays below the frame's upsampling, or is above 8.
pub proof fn lemma_check_fails_on_misfit(
    header: FrameHeaderView,
    nonserialized: FrameHeaderNonserializedView,
)
    requires
        header.upsampling > 1,
    ensures
        (header.spec_check(nonserialized) matches Err(Error::InvalidEcUpsampling(_, _, _))) <==> (
        exists|i: int|
            0 <= i < nonserialized.extra_channel_info.len() && i < header.ec_upsampling.len() && (
            header.ec_upsampling[i] * pow2(
                (#[trigger] nonserialized.extra_channel_info[i]).dim_shift as nat,
            ) < header.upsampling || header.ec_upsampling[i] > 8)),
{
    lemma_first_misfit(
        header.upsampling,
        nonserialized.extra_channel_info,
        header.ec_upsampling,
        0,
    );
}

/// Whatever the extra channels are, the check fails where the count of
/// downsampled passes is not below the count of passes. Where no extra
/// channel stands in the way, it fails with exactly that error, and it
/// succeeds where the count is below.
pub proof fn lemma_check_of_passes(
    header: FrameHeaderView,
    nonserialized: FrameHeaderNonserializedView,
)
    ensures
        header.passes.num_ds >= header.passes.num_passes ==> header.spec_check(nonserialized)
            is Err,
        !(header.upsampling > 1 && first_misfit(
            header.upsampling,
            nonserialized.extra_channel_info,
            header.ec_upsampling,
            0,
        ) is Some) ==> header.spec_check(nonserialized) == if header.passes.num_ds
            >= header.passes.num_passes {
            Err::<(), Error>(
                Error::NumPassesTooLarge(header.passes.num_ds, header.passes.num_passes),
            )
        } else {
            Ok::<(), Error>(())
        },
{
}

} // verus!
