//! How a frame is blended with what is on the canvas.

use crate::bit_reader::BitReader;
use crate::error::{Error, Tag};
use crate::headers::encodings::{
    lemma_read_is_admitted, lemma_u32_moves_forward, read_defaulted_bool, spec_read_bool,
    U32Coder, U32,
};
use crate::headers::record::{
    conditional, defaulted, finish, forward, repeated, value, viewed, Decoded,
};
use vstd::arithmetic::power2::lemma2_to64;
use vstd::prelude::*;

verus! {

/// How a frame is combined with what is on the canvas.
#[derive(Clone, Copy, Debug, PartialEq, Eq, Structural)]
pub enum BlendingMode {
    Replace,
    Add,
    Blend,
    AlphaWeightedAdd,
    Mul,
}

impl BlendingMode {
    /// The mode that a code stands for, if any.
    pub open spec fn spec_from_u32(code: u32) -> Option<BlendingMode> {
        if code == 0 {
            Some(BlendingMode::Replace)
        } else if code == 1 {
            Some(BlendingMode::Add)
        } else if code == 2 {
            Some(BlendingMode::Blend)
        } else if code == 3 {
            Some(BlendingMode::AlphaWeightedAdd)
        } else if code == 4 {
            Some(BlendingMode::Mul)
        } else {
            None
        }
    }

    /// The mode that a code stands for, if any.
    pub fn from_u32(code: u32) -> (r: Option<BlendingMode>)
        ensures
            r == Self::spec_from_u32(code),
    {
        if code == 0 {
            Some(BlendingMode::Replace)
        } else if code == 1 {
            Some(BlendingMode::Add)
        } else if code == 2 {
            Some(BlendingMode::Blend)
        } else if code == 3 {
            Some(BlendingMode::AlphaWeightedAdd)
        } else if code == 4 {
            Some(BlendingMode::Mul)
        } else {
            None
        }
    }

    /// The mode at `pos`: the coded integer, which has to stand for a mode.
    pub open spec fn spec_read(coder: U32Coder, data: Seq<u8>, pos: nat) -> Decoded<BlendingMode> {
        match coder.spec_read(data, pos) {
            (Ok(code), p) => match Self::spec_from_u32(code) {
                Some(mode) => (Ok(mode), p),
                None => (Err(Error::InvalidEnum(code, Tag::BlendingMode)), p),
            },
            (Err(e), p) => (Err(e), p),
        }
    }

    /// Reads a blending mode.
    pub fn read(coder: &U32Coder, br: &mut BitReader) -> (r: Result<BlendingMode, Error>)
        requires
            coder.wf(),
        ensures
            final(br).data() == old(br).data(),
            (r, final(br).pos()) == Self::spec_read(*coder, old(br).data(), old(br).pos()),
    {
        let code = coder.read(br)?;
        match Self::from_u32(code) {
            Some(mode) => Ok(mode),
            None => Err(Error::InvalidEnum(code, Tag::BlendingMode)),
        }
    }
}

/// Whether a frame covers the whole image: it is not cropped, or its crop
/// starts at the origin and reaches the image's right and lower edges.
pub open spec fn full_frame(
    have_crop: bool,
    x0: i32,
    y0: i32,
    width: u32,
    height: u32,
    img_width: u32,
    img_height: u32,
) -> bool {
    !have_crop || (x0 == 0 && y0 == 0 && width + x0 >= img_width && height + y0 >= img_height)
}

/// Whether a frame covers the whole image.
pub fn is_full_frame(
    have_crop: bool,
    x0: i32,
    y0: i32,
    width: u32,
    height: u32,
    img_width: u32,
    img_height: u32,
) -> (r: bool)
    ensures
        r == full_frame(have_crop, x0, y0, width, height, img_width, img_height),
{
    !have_crop || (x0 == 0 && y0 == 0 && width as i64 + x0 as i64 >= img_width as i64
        && height as i64 + y0 as i64 >= img_height as i64)
}

/// What the blending information of a frame depends on: the number of extra
/// channels, the frame's crop and the image's size.
#[derive(Clone, Copy, Debug, PartialEq, Eq, Structural)]
pub struct BlendingInfoNonserialized {
    pub num_extra_channels: u32,
    pub have_crop: bool,
    pub x0: i32,
    pub y0: i32,
    pub width: u32,
    pub height: u32,
    pub img_width: u32,
    pub img_height: u32,
}

impl BlendingInfoNonserialized {
    /// Whether the frame covers the whole image.
    pub open spec fn full_frame(self) -> bool {
        full_frame(
            self.have_crop,
            self.x0,
            self.y0,
            self.width,
            self.height,
            self.img_width,
            self.img_height,
        )
    }
}

/// How one channel of a frame is blended.
#[derive(Clone, Copy, Debug, PartialEq, Eq, Structural)]
pub struct BlendingInfo {
    pub mode: BlendingMode,
    pub alpha_channel: u32,
    pub clamp: bool,
    pub source: u32,
}

impl Default for BlendingInfo {
    /// The frame replaces what is there.
    fn default() -> (r: Self)
        ensures
            r == BlendingInfo::spec_default(),
    {
        BlendingInfo { mode: BlendingMode::Replace, alpha_channel: 0, clamp: false, source: 0 }
    }
}

impl BlendingInfo {
    /// The frame replaces what is there.
    pub open spec fn spec_default() -> BlendingInfo {
        BlendingInfo { mode: BlendingMode::Replace, alpha_channel: 0, clamp: false, source: 0 }
    }

    /// The blending information at `pos`, field by field in the order of the
    /// stream. The alpha channel and the clamping are there only for modes
    /// that use them, and only with extra channels; the source only where the
    /// frame neither replaces nor covers the whole image.
    pub open spec fn spec_read(
        data: Seq<u8>,
        pos: nat,
        nonserialized: BlendingInfoNonserialized,
    ) -> Decoded<BlendingInfo> {
        let mode = BlendingMode::spec_read(
            U32Coder::Select(
                U32::Val(0),
                U32::Val(1),
                U32::Val(2),
                U32::BitsOffset { n: 2, off: 3 },
            ),
            data,
            pos,
        );
        let weighted = value(mode) == BlendingMode::Blend || value(mode)
            == BlendingMode::AlphaWeightedAdd;
        let alpha_channel = conditional(
            mode,
            nonserialized.num_extra_channels > 0 && weighted,
            0,
            U32Coder::Select(
                U32::Val(0),
                U32::Val(1),
                U32::Val(2),
                U32::BitsOffset { n: 3, off: 3 },
            ).spec_read(data, mode.1),
        );
        let clamp = conditional(
            alpha_channel,
            nonserialized.num_extra_channels > 0 && (weighted || value(mode)
                == BlendingMode::Mul),
            false,
            spec_read_bool(data, alpha_channel.1),
        );
        let source = conditional(
            clamp,
            value(mode) != BlendingMode::Replace && !nonserialized.full_frame(),
            0,
            U32Coder::Select(U32::Val(0), U32::Val(1), U32::Val(2), U32::Val(3)).spec_read(
                data,
                clamp.1,
            ),
        );
        finish(
            source,
            BlendingInfo {
                mode: value(mode),
                alpha_channel: value(alpha_channel),
                clamp: value(clamp),
                source: value(source),
            },
        )
    }

    /// Reads the blending information of one channel.
    pub fn read_unconditional(
        config: &(),
        br: &mut BitReader,
        nonserialized: &BlendingInfoNonserialized,
    ) -> (r: Result<BlendingInfo, Error>)
        ensures
            final(br).data() == old(br).data(),
            (r, final(br).pos()) == Self::spec_read(old(br).data(), old(br).pos(), *nonserialized),
    {
        proof {
            lemma2_to64();
        }
        let mode = BlendingMode::read(
            &U32Coder::Select(
                U32::Val(0),
                U32::Val(1),
                U32::Val(2),
                U32::BitsOffset { n: 2, off: 3 },
            ),
            br,
        )?;
        let weighted = mode == BlendingMode::Blend || mode == BlendingMode::AlphaWeightedAdd;
        let alpha_channel = U32Coder::Select(
            U32::Val(0),
            U32::Val(1),
            U32::Val(2),
            U32::BitsOffset { n: 3, off: 3 },
        ).read_defaulted(nonserialized.num_extra_channels > 0 && weighted, 0, br)?;
        let clamp = read_defaulted_bool(
            nonserialized.num_extra_channels > 0 && (weighted || mode == BlendingMode::Mul),
            false,
            br,
        )?;
        let full = is_full_frame(
            nonserialized.have_crop,
            nonserialized.x0,
            nonserialized.y0,
            nonserialized.width,
            nonserialized.height,
            nonserialized.img_width,
            nonserialized.img_height,
        );
        let source = U32Coder::Select(
            U32::Val(0),
            U32::Val(1),
            U32::Val(2),
            U32::Val(3),
        ).read_defaulted(mode != BlendingMode::Replace && !full, 0, br)?;
        Ok(BlendingInfo { mode, alpha_channel, clamp, source })
    }

    /// Reads the blending information where `condition` holds, and yields
    /// `default` without moving where it does not.
    pub fn read_defaulted(
        condition: bool,
        default: BlendingInfo,
        br: &mut BitReader,
        nonserialized: &BlendingInfoNonserialized,
    ) -> (r: Result<BlendingInfo, Error>)
        ensures
            final(br).data() == old(br).data(),
            (r, final(br).pos()) == defaulted(
                condition,
                default,
                Self::spec_read(old(br).data(), old(br).pos(), *nonserialized),
                old(br).pos(),
            ),
    {
        if condition {
            Self::read_unconditional(&(), br, nonserialized)
        } else {
            Ok(default)
        }
    }

    /// The blending information of `count` channels at `pos`, one behind the
    /// other.
    pub open spec fn spec_read_each(
        data: Seq<u8>,
        pos: nat,
        nonserialized: BlendingInfoNonserialized,
        count: nat,
    ) -> Decoded<Seq<BlendingInfo>>
        decreases count,
    {
        if count == 0 {
            (Ok(Seq::empty()), pos)
        } else {
            match Self::spec_read_each(data, pos, nonserialized, (count - 1) as nat) {
                (Ok(front), p) => match Self::spec_read(data, p, nonserialized) {
                    (Ok(last), q) => (Ok(front.push(last)), q),
                    (Err(e), q) => (Err(e), q),
                },
                (Err(e), p) => (Err(e), p),
            }
        }
    }

    /// Once the blending information of one channel cannot be read, that of
    /// no further channel can.
    pub proof fn lemma_read_each_failure_stays(
        data: Seq<u8>,
        pos: nat,
        nonserialized: BlendingInfoNonserialized,
        failed: nat,
        count: nat,
    )
        requires
            failed <= count,
            Self::spec_read_each(data, pos, nonserialized, failed).0 is Err,
        ensures
            Self::spec_read_each(data, pos, nonserialized, count) == Self::spec_read_each(
                data,
                pos,
                nonserialized,
                failed,
            ),
        decreases count,
    {
        if failed < count {
            Self::lemma_read_each_failure_stays(
                data,
                pos,
                nonserialized,
                failed,
                (count - 1) as nat,
            );
        }
    }

    /// Reads the blending information of `count` channels where `condition`
    /// holds, and yields `count` times `default` without moving where it does
    /// not.
    pub fn read_defaulted_vec(
        count: u32,
        condition: bool,
        default: BlendingInfo,
        br: &mut BitReader,
        nonserialized: &BlendingInfoNonserialized,
    ) -> (r: Result<Vec<BlendingInfo>, Error>)
        ensures
            final(br).data() == old(br).data(),
            (viewed(r), final(br).pos()) == defaulted(
                condition,
                repeated(count as nat, default),
                Self::spec_read_each(old(br).data(), old(br).pos(), *nonserialized, count as nat),
                old(br).pos(),
            ),
    {
        let mut infos: Vec<BlendingInfo> = Vec::new();
        let mut i: u32 = 0;
        if condition {
            while i < count
                invariant
                    i <= count,
                    condition,
                    br.data() == old(br).data(),
                    (Ok::<Seq<BlendingInfo>, Error>(infos@), br.pos()) == Self::spec_read_each(
                        old(br).data(),
                        old(br).pos(),
                        *nonserialized,
                        i as nat,
                    ),
                decreases count - i,
            {
                match Self::read_unconditional(&(), br, nonserialized) {
                    Ok(info) => {
                        infos.push(info);
                    },
                    Err(e) => {
                        proof {
                            Self::lemma_read_each_failure_stays(
                                old(br).data(),
                                old(br).pos(),
                                *nonserialized,
                                (i + 1) as nat,
                                count as nat,
                            );
                        }
                        return Err(e);
                    },
                }
                i = i + 1;
            }
        } else {
            while i < count
                invariant
                    i <= count,
                    infos@ =~= repeated(i as nat, default),
                decreases count - i,
            {
                infos.push(default);
                i = i + 1;
            }
        }
        Ok(infos)
    }
}

/// The blending information of one channel moves the cursor forward, and
/// not out of the buffer.
pub proof fn lemma_blending_moves_forward(
    data: Seq<u8>,
    pos: nat,
    nonserialized: BlendingInfoNonserialized,
)
    ensures
        forward(data, pos, BlendingInfo::spec_read(data, pos, nonserialized)),
{
    assert forall|coder: U32Coder, p: nat|
        forward(data, p, #[trigger] coder.spec_read(data, p)) by {
        lemma_u32_moves_forward(coder, data, p);
    }
}

/// The blending information of several channels moves the cursor forward,
/// and not out of the buffer.
pub proof fn lemma_blendings_move_forward(
    data: Seq<u8>,
    pos: nat,
    nonserialized: BlendingInfoNonserialized,
    count: nat,
)
    ensures
        forward(data, pos, BlendingInfo::spec_read_each(data, pos, nonserialized, count)),
    decreases count,
{
    if count > 0 {
        lemma_blendings_move_forward(data, pos, nonserialized, (count - 1) as nat);
        lemma_blending_moves_forward(
            data,
            BlendingInfo::spec_read_each(data, pos, nonserialized, (count - 1) as nat).1,
            nonserialized,
        );
    }
}

impl BlendingInfo {
    /// The alpha channel and the source are in the range of their codings.
    pub open spec fn wf(self) -> bool {
        self.alpha_channel <= 10 && self.source <= 3
    }
}

/// Blending information that was decoded is well formed.
pub proof fn lemma_decoded_blending_is_wf(
    data: Seq<u8>,
    pos: nat,
    nonserialized: BlendingInfoNonserialized,
)
    ensures
        BlendingInfo::spec_read(data, pos, nonserialized).0 is Ok ==> value(
            BlendingInfo::spec_read(data, pos, nonserialized),
        ).wf(),
{
    lemma2_to64();
    assert forall|coder: U32Coder, p: nat|
        coder.wf() && (#[trigger] coder.spec_read(data, p)).0 is Ok implies coder.admits(
        value(coder.spec_read(data, p)),
    ) by {
        lemma_read_is_admitted(coder, data, p);
    }
}

/// The blending information of several channels that was decoded is well
/// formed, and there is as much of it as there are channels.
pub proof fn lemma_decoded_blendings_are_wf(
    data: Seq<u8>,
    pos: nat,
    nonserialized: BlendingInfoNonserialized,
    count: nat,
)
    ensures
        BlendingInfo::spec_read_each(data, pos, nonserialized, count).0 matches Ok(infos)
            ==> infos.len() == count && forall|i: int|
            0 <= i < infos.len() ==> (#[trigger] infos[i]).wf(),
    decreases count,
{
    if count > 0 {
        lemma_decoded_blendings_are_wf(data, pos, nonserialized, (count - 1) as nat);
        lemma_decoded_blending_is_wf(
            data,
            BlendingInfo::spec_read_each(data, pos, nonserialized, (count - 1) as nat).1,
            nonserialized,
        );
    }
}

} // verus!
