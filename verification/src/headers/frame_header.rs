//! The header of a frame: its fields, the order in which they are decoded,
//! and what holds of every header that was decoded.

use crate::bit_reader::{lemma_byte_boundary, next_byte_boundary, BitReader};
use crate::error::{Error, Tag};
use crate::headers::blending::{
    full_frame, is_full_frame, lemma_blending_moves_forward, lemma_blendings_move_forward,
    lemma_decoded_blending_is_wf, lemma_decoded_blendings_are_wf, BlendingInfo,
    BlendingInfoNonserialized, BlendingMode,
};
use crate::headers::encodings::{
    enum_coder, lemma_read_is_admitted, lemma_read_u32s_are_admitted, lemma_u32_moves_forward,
    lemma_u32s_move_forward, lemma_u64_moves_forward, read_bool, read_defaulted_bool,
    read_defaulted_u64, spec_read_bool, spec_read_signed, spec_read_u32s, spec_read_u64,
    U32Coder, U32,
};
use crate::headers::extensions::{lemma_extensions_move_forward, spec_read_extensions, Extensions};
use crate::headers::extra_channels::ExtraChannelInfo;
use crate::headers::passes::{
    lemma_decoded_passes_are_wf, lemma_passes_move_forward, Passes, PassesView,
};
use crate::headers::record::{
    conditional, defaulted, finish, forward, repeated, value, viewed, Decoded,
};
use crate::headers::restoration_filter::{
    lemma_restoration_filter_moves_forward, RestorationFilter, RestorationFilterNonserialized,
    RestorationFilterView,
};
use crate::headers::strings::{
    lemma_string_moves_forward, read_defaulted_string, spec_read_string,
};
use vstd::arithmetic::power2::lemma2_to64;
use vstd::prelude::*;

verus! {

/// What a frame is for.
#[derive(Clone, Copy, Debug, PartialEq, Eq, Structural)]
pub enum FrameType {
    RegularFrame,
    LFFrame,
    ReferenceOnly,
    SkipProgressive,
}

impl FrameType {
    /// The frame type that a code stands for, if any.
    pub open spec fn spec_from_u32(code: u32) -> Option<FrameType> {
        if code == 0 {
            Some(FrameType::RegularFrame)
        } else if code == 1 {
            Some(FrameType::LFFrame)
        } else if code == 2 {
            Some(FrameType::ReferenceOnly)
        } else if code == 3 {
            Some(FrameType::SkipProgressive)
        } else {
            None
        }
    }

    /// The frame type that a code stands for, if any.
    pub fn from_u32(code: u32) -> (r: Option<FrameType>)
        ensures
            r == Self::spec_from_u32(code),
    {
        if code == 0 {
            Some(FrameType::RegularFrame)
        } else if code == 1 {
            Some(FrameType::LFFrame)
        } else if code == 2 {
            Some(FrameType::ReferenceOnly)
        } else if code == 3 {
            Some(FrameType::SkipProgressive)
        } else {
            None
        }
    }

    /// The frame type at `pos`: the coded integer, which has to stand for a
    /// frame type.
    pub open spec fn spec_read(coder: U32Coder, data: Seq<u8>, pos: nat) -> Decoded<FrameType> {
        match coder.spec_read(data, pos) {
            (Ok(code), p) => match Self::spec_from_u32(code) {
                Some(frame_type) => (Ok(frame_type), p),
                None => (Err(Error::InvalidEnum(code, Tag::FrameType)), p),
            },
            (Err(e), p) => (Err(e), p),
        }
    }

    /// Reads the frame type where `condition` holds, and yields `default`
    /// without moving where it does not.
    pub fn read_defaulted(
        coder: &U32Coder,
        condition: bool,
        default: FrameType,
        br: &mut BitReader,
    ) -> (r: Result<FrameType, Error>)
        requires
            coder.wf(),
        ensures
            final(br).data() == old(br).data(),
            (r, final(br).pos()) == defaulted(
                condition,
                default,
                Self::spec_read(*coder, old(br).data(), old(br).pos()),
                old(br).pos(),
            ),
    {
        if condition {
            let code = coder.read(br)?;
            match Self::from_u32(code) {
                Some(frame_type) => Ok(frame_type),
                None => Err(Error::InvalidEnum(code, Tag::FrameType)),
            }
        } else {
            Ok(default)
        }
    }
}

/// In which domain a frame is coded.
#[derive(Clone, Copy, Debug, PartialEq, Eq, Structural)]
pub enum Encoding {
    VarDCT,
    Modular,
}

impl Encoding {
    /// The encoding that a code stands for, if any.
    pub open spec fn spec_from_u32(code: u32) -> Option<Encoding> {
        if code == 0 {
            Some(Encoding::VarDCT)
        } else if code == 1 {
            Some(Encoding::Modular)
        } else {
            None
        }
    }

    /// The encoding that a code stands for, if any.
    pub fn from_u32(code: u32) -> (r: Option<Encoding>)
        ensures
            r == Self::spec_from_u32(code),
    {
        if code == 0 {
            Some(Encoding::VarDCT)
        } else if code == 1 {
            Some(Encoding::Modular)
        } else {
            None
        }
    }

    /// The encoding at `pos`: the coded integer, which has to stand for an
    /// encoding.
    pub open spec fn spec_read(coder: U32Coder, data: Seq<u8>, pos: nat) -> Decoded<Encoding> {
        match coder.spec_read(data, pos) {
            (Ok(code), p) => match Self::spec_from_u32(code) {
                Some(encoding) => (Ok(encoding), p),
                None => (Err(Error::InvalidEnum(code, Tag::Encoding)), p),
            },
            (Err(e), p) => (Err(e), p),
        }
    }

    /// Reads the encoding where `condition` holds, and yields `default`
    /// without moving where it does not.
    pub fn read_defaulted(
        coder: &U32Coder,
        condition: bool,
        default: Encoding,
        br: &mut BitReader,
    ) -> (r: Result<Encoding, Error>)
        requires
            coder.wf(),
        ensures
            final(br).data() == old(br).data(),
            (r, final(br).pos()) == defaulted(
                condition,
                default,
                Self::spec_read(*coder, old(br).data(), old(br).pos()),
                old(br).pos(),
            ),
    {
        if condition {
            let code = coder.read(br)?;
            match Self::from_u32(code) {
                Some(encoding) => Ok(encoding),
                None => Err(Error::InvalidEnum(code, Tag::Encoding)),
            }
        } else {
            Ok(default)
        }
    }
}

/// The coding of the sides and the offsets of a frame's rectangle.
pub open spec fn spec_crop_coder() -> U32Coder {
    U32Coder::Select(
        U32::Bits(8),
        U32::BitsOffset { n: 11, off: 256 },
        U32::BitsOffset { n: 14, off: 2304 },
        U32::BitsOffset { n: 30, off: 18688 },
    )
}

/// The coding of the sides and the offsets of a frame's rectangle.
#[verifier::when_used_as_spec(spec_crop_coder)]
pub fn crop_coder() -> (coder: U32Coder)
    ensures
        coder == spec_crop_coder(),
        coder.wf(),
{
    proof {
        lemma2_to64();
    }
    U32Coder::Select(
        U32::Bits(8),
        U32::BitsOffset { n: 11, off: 256 },
        U32::BitsOffset { n: 14, off: 2304 },
        U32::BitsOffset { n: 30, off: 18688 },
    )
}

/// The coding of an upsampling factor: 1, 2, 4 or 8.
pub open spec fn spec_upsampling_coder() -> U32Coder {
    U32Coder::Select(U32::Val(1), U32::Val(2), U32::Val(4), U32::Val(8))
}

/// The coding of an upsampling factor: 1, 2, 4 or 8.
#[verifier::when_used_as_spec(spec_upsampling_coder)]
pub fn upsampling_coder() -> (coder: U32Coder)
    ensures
        coder == spec_upsampling_coder(),
        coder.wf(),
{
    proof {
        lemma2_to64();
    }
    U32Coder::Select(U32::Val(1), U32::Val(2), U32::Val(4), U32::Val(8))
}

/// Whether a number is an upsampling factor: 1, 2, 4 or 8.
pub open spec fn is_upsampling(factor: u32) -> bool {
    factor == 1 || factor == 2 || factor == 4 || factor == 8
}

/// The bits of a frame's flags.
pub struct Flags {}

impl Flags {
    pub const ENABLE_NOISE: u64 = 1;

    pub const ENABLE_PATCHES: u64 = 2;

    pub const ENABLE_SPLINES: u64 = 0x10;

    pub const USE_LF_FRAME: u64 = 0x20;

    pub const SKIP_ADAPTIVE_LF_SMOOTHING: u64 = 0x80;
}

/// Whether a frame of this type is shown: a regular frame, or one that skips
/// progressive rendering.
pub open spec fn normal_frame(frame_type: FrameType) -> bool {
    frame_type == FrameType::RegularFrame || frame_type == FrameType::SkipProgressive
}

/// Whether a frame of this type is shown.
pub fn is_normal_frame(frame_type: FrameType) -> (r: bool)
    ensures
        r == normal_frame(frame_type),
{
    frame_type == FrameType::RegularFrame || frame_type == FrameType::SkipProgressive
}

/// What the header of a frame depends on, from the headers of the image.
#[derive(Debug, PartialEq)]
pub struct FrameHeaderNonserialized {
    pub xyb_encoded: bool,
    pub num_extra_channels: u32,
    pub extra_channel_info: Vec<ExtraChannelInfo>,
    pub have_animation: bool,
    pub have_timecode: bool,
    pub img_width: u32,
    pub img_height: u32,
}

/// The context of a frame header as a mathematical value.
pub struct FrameHeaderNonserializedView {
    pub xyb_encoded: bool,
    pub num_extra_channels: u32,
    pub extra_channel_info: Seq<ExtraChannelInfo>,
    pub have_animation: bool,
    pub have_timecode: bool,
    pub img_width: u32,
    pub img_height: u32,
}

impl View for FrameHeaderNonserialized {
    type V = FrameHeaderNonserializedView;

    open spec fn view(&self) -> FrameHeaderNonserializedView {
        FrameHeaderNonserializedView {
            xyb_encoded: self.xyb_encoded,
            num_extra_channels: self.num_extra_channels,
            extra_channel_info: self.extra_channel_info@,
            have_animation: self.have_animation,
            have_timecode: self.have_timecode,
            img_width: self.img_width,
            img_height: self.img_height,
        }
    }
}

/// The header of a frame.
#[derive(Debug, PartialEq)]
pub struct FrameHeader {
    pub all_default: bool,
    pub frame_type: FrameType,
    pub encoding: Encoding,
    pub flags: u64,
    pub do_ycbcr: bool,
    pub jpeg_upsampling: [u32; 3],
    pub upsampling: u32,
    pub ec_upsampling: Vec<u32>,
    pub group_size_shift: u32,
    pub x_qm_scale: u32,
    pub b_qm_scale: u32,
    pub passes: Passes,
    pub lf_level: u32,
    pub have_crop: bool,
    pub x0: i32,
    pub y0: i32,
    pub width: u32,
    pub height: u32,
    pub blending_info: BlendingInfo,
    pub ec_blending_info: Vec<BlendingInfo>,
    pub duration: u32,
    pub timecode: u32,
    pub is_last: bool,
    pub save_as_reference: u32,
    pub save_before_ct: bool,
    pub name: String,
    pub restoration_filter: RestorationFilter,
    pub extensions: Extensions,
}

/// The header of a frame as a mathematical value.
pub struct FrameHeaderView {
    pub all_default: bool,
    pub frame_type: FrameType,
    pub encoding: Encoding,
    pub flags: u64,
    pub do_ycbcr: bool,
    pub jpeg_upsampling: Seq<u32>,
    pub upsampling: u32,
    pub ec_upsampling: Seq<u32>,
    pub group_size_shift: u32,
    pub x_qm_scale: u32,
    pub b_qm_scale: u32,
    pub passes: PassesView,
    pub lf_level: u32,
    pub have_crop: bool,
    pub x0: i32,
    pub y0: i32,
    pub width: u32,
    pub height: u32,
    pub blending_info: BlendingInfo,
    pub ec_blending_info: Seq<BlendingInfo>,
    pub duration: u32,
    pub timecode: u32,
    pub is_last: bool,
    pub save_as_reference: u32,
    pub save_before_ct: bool,
    pub name: Seq<char>,
    pub restoration_filter: RestorationFilterView,
    pub extensions: Extensions,
}

impl View for FrameHeader {
    type V = FrameHeaderView;

    open spec fn view(&self) -> FrameHeaderView {
        FrameHeaderView {
            all_default: self.all_default,
            frame_type: self.frame_type,
            encoding: self.encoding,
            flags: self.flags,
            do_ycbcr: self.do_ycbcr,
            jpeg_upsampling: self.jpeg_upsampling@,
            upsampling: self.upsampling,
            ec_upsampling: self.ec_upsampling@,
            group_size_shift: self.group_size_shift,
            x_qm_scale: self.x_qm_scale,
            b_qm_scale: self.b_qm_scale,
            passes: self.passes@,
            lf_level: self.lf_level,
            have_crop: self.have_crop,
            x0: self.x0,
            y0: self.y0,
            width: self.width,
            height: self.height,
            blending_info: self.blending_info,
            ec_blending_info: self.ec_blending_info@,
            duration: self.duration,
            timecode: self.timecode,
            is_last: self.is_last,
            save_as_reference: self.save_as_reference,
            save_before_ct: self.save_before_ct,
            name: self.name@,
            restoration_filter: self.restoration_filter@,
            extensions: self.extensions,
        }
    }
}

impl FrameHeaderView {
    /// The header before anything of it has been decoded.
    pub open spec fn blank() -> FrameHeaderView {
        FrameHeaderView {
            all_default: false,
            frame_type: FrameType::RegularFrame,
            encoding: Encoding::VarDCT,
            flags: 0,
            do_ycbcr: false,
            jpeg_upsampling: repeated(3, 0u32),
            upsampling: 0,
            ec_upsampling: Seq::empty(),
            group_size_shift: 0,
            x_qm_scale: 0,
            b_qm_scale: 0,
            passes: PassesView::spec_default(),
            lf_level: 0,
            have_crop: false,
            x0: 0,
            y0: 0,
            width: 0,
            height: 0,
            blending_info: BlendingInfo::spec_default(),
            ec_blending_info: Seq::empty(),
            duration: 0,
            timecode: 0,
            is_last: false,
            save_as_reference: 0,
            save_before_ct: false,
            name: Seq::<char>::empty(),
            restoration_filter: RestorationFilterView::spec_default(),
            extensions: Extensions {  },
        }
    }
}

impl FrameHeader {
    /// The header before anything of it has been decoded.
    fn blank() -> (header: FrameHeader)
        ensures
            header@ == FrameHeaderView::blank(),
    {
        assert([0u32, 0u32, 0u32]@ =~= repeated(3, 0u32));
        FrameHeader {
            all_default: false,
            frame_type: FrameType::RegularFrame,
            encoding: Encoding::VarDCT,
            flags: 0,
            do_ycbcr: false,
            jpeg_upsampling: [0u32, 0u32, 0u32],
            upsampling: 0,
            ec_upsampling: Vec::new(),
            group_size_shift: 0,
            x_qm_scale: 0,
            b_qm_scale: 0,
            passes: Passes::default(),
            lf_level: 0,
            have_crop: false,
            x0: 0,
            y0: 0,
            width: 0,
            height: 0,
            blending_info: BlendingInfo::default(),
            ec_blending_info: Vec::new(),
            duration: 0,
            timecode: 0,
            is_last: false,
            save_as_reference: 0,
            save_before_ct: false,
            name: String::new(),
            restoration_filter: RestorationFilter::default(),
            extensions: Extensions {  },
        }
    }

    /// The first section of the header at `pos`: the bit that says whether
    /// every field has its default, then what the frame is for and how it is
    /// coded, its flags, and the upsampling of its channels. The fields of
    /// the later sections are not decoded yet.
    pub open spec fn spec_read_kind(
        data: Seq<u8>,
        pos: nat,
        nonserialized: FrameHeaderNonserializedView,
    ) -> Decoded<FrameHeaderView> {
        let all_default = spec_read_bool(data, pos);
        let on = !value(all_default);
        let frame_type = conditional(
            all_default,
            on,
            FrameType::RegularFrame,
            FrameType::spec_read(
                enum_coder(),
                data,
                all_default.1,
            ),
        );
        let encoding = conditional(
            frame_type,
            on,
            Encoding::VarDCT,
            Encoding::spec_read(
                U32Coder::Direct(U32::Bits(1)),
                data,
                frame_type.1,
            ),
        );
        let flags = conditional(
            encoding,
            on,
            0,
            spec_read_u64(data, encoding.1),
        );
        let do_ycbcr = conditional(
            flags,
            on && !nonserialized.xyb_encoded,
            false,
            spec_read_bool(data, flags.1),
        );
        let jpeg_upsampling = conditional(
            do_ycbcr,
            on && value(do_ycbcr) && (value(flags) & Flags::USE_LF_FRAME) == 0,
            repeated(3, 0u32),
            spec_read_u32s(U32Coder::Direct(U32::Bits(2)), data, do_ycbcr.1, 3),
        );
        let upsampling = conditional(
            jpeg_upsampling,
            on && (value(flags) & Flags::USE_LF_FRAME) == 0,
            1,
            upsampling_coder().spec_read(
                data,
                jpeg_upsampling.1,
            ),
        );
        let ec_upsampling = conditional(
            upsampling,
            on && (value(flags) & Flags::USE_LF_FRAME) == 0,
            repeated(nonserialized.num_extra_channels as nat, 1),
            spec_read_u32s(
                upsampling_coder(),
                data,
                upsampling.1,
                nonserialized.num_extra_channels as nat,
            ),
        );
        finish(
            ec_upsampling,
            FrameHeaderView {
                all_default: value(all_default),
                frame_type: value(frame_type),
                encoding: value(encoding),
                flags: value(flags),
                do_ycbcr: value(do_ycbcr),
                jpeg_upsampling: value(jpeg_upsampling),
                upsampling: value(upsampling),
                ec_upsampling: value(ec_upsampling),
                ..FrameHeaderView::blank()
            },
        )
    }

    /// The next section of the header, behind the sections that gave
    /// `earlier`: the group size, the scales of the quantization matrices,
    /// the passes and the level of a low-frequency frame.
    pub open spec fn spec_read_tools(
        data: Seq<u8>,
        nonserialized: FrameHeaderNonserializedView,
        earlier: Decoded<FrameHeaderView>,
    ) -> Decoded<FrameHeaderView> {
        let on = !value(earlier).all_default;
        let group_size_shift = conditional(
            earlier,
            on && value(earlier).encoding == Encoding::Modular,
            1,
            U32Coder::Direct(U32::Bits(2)).spec_read(data, earlier.1),
        );
        let x_qm_scale = conditional(
            group_size_shift,
            on && value(earlier).encoding == Encoding::VarDCT && nonserialized.xyb_encoded,
            3,
            U32Coder::Direct(U32::Bits(3)).spec_read(data, group_size_shift.1),
        );
        let b_qm_scale = conditional(
            x_qm_scale,
            on && value(earlier).encoding == Encoding::VarDCT && nonserialized.xyb_encoded,
            2,
            U32Coder::Direct(U32::Bits(3)).spec_read(data, x_qm_scale.1),
        );
        let passes = conditional(
            b_qm_scale,
            on && value(earlier).frame_type != FrameType::ReferenceOnly,
            PassesView::spec_default(),
            Passes::spec_read(data, b_qm_scale.1),
        );
        let lf_level = conditional(
            passes,
            on && value(earlier).frame_type == FrameType::LFFrame,
            0,
            U32Coder::Select(U32::Val(1), U32::Val(2), U32::Val(3), U32::Val(4)).spec_read(
                data,
                passes.1,
            ),
        );
        finish(
            lf_level,
            FrameHeaderView {
                group_size_shift: value(group_size_shift),
                x_qm_scale: value(x_qm_scale),
                b_qm_scale: value(b_qm_scale),
                passes: value(passes),
                lf_level: value(lf_level),
                ..value(earlier)
            },
        )
    }

    /// The next section of the header, behind the sections that gave
    /// `earlier`: the rectangle that the frame covers, and how the frame is
    /// blended with what is there.
    pub open spec fn spec_read_crop(
        data: Seq<u8>,
        nonserialized: FrameHeaderNonserializedView,
        earlier: Decoded<FrameHeaderView>,
    ) -> Decoded<FrameHeaderView> {
        let on = !value(earlier).all_default;
        let have_crop = conditional(
            earlier,
            on && value(earlier).frame_type != FrameType::LFFrame,
            false,
            spec_read_bool(data, earlier.1),
        );
        let x0 = conditional(
            have_crop,
            on && value(have_crop) && value(earlier).frame_type != FrameType::ReferenceOnly,
            0,
            spec_read_signed(
                crop_coder(),
                data,
                have_crop.1,
            ),
        );
        let y0 = conditional(
            x0,
            on && value(have_crop) && value(earlier).frame_type != FrameType::ReferenceOnly,
            0,
            spec_read_signed(
                crop_coder(),
                data,
                x0.1,
            ),
        );
        let width = conditional(
            y0,
            on && value(have_crop),
            0,
            crop_coder().spec_read(data, y0.1),
        );
        let height = conditional(
            width,
            on && value(have_crop),
            0,
            crop_coder().spec_read(data, width.1),
        );
        let blending_info = conditional(
            height,
            on && normal_frame(value(earlier).frame_type),
            BlendingInfo::spec_default(),
            BlendingInfo::spec_read(
                data,
                height.1,
                BlendingInfoNonserialized {
                    num_extra_channels: nonserialized.num_extra_channels,
                    have_crop: value(have_crop),
                    x0: value(x0),
                    y0: value(y0),
                    width: value(width),
                    height: value(height),
                    img_width: nonserialized.img_width,
                    img_height: nonserialized.img_height,
                },
            ),
        );
        let ec_blending_info = conditional(
            blending_info,
            on,
            repeated(nonserialized.num_extra_channels as nat, BlendingInfo::spec_default()),
            BlendingInfo::spec_read_each(
                data,
                blending_info.1,
                BlendingInfoNonserialized {
                    num_extra_channels: nonserialized.num_extra_channels,
                    have_crop: value(have_crop),
                    x0: value(x0),
                    y0: value(y0),
                    width: value(width),
                    height: value(height),
                    img_width: nonserialized.img_width,
                    img_height: nonserialized.img_height,
                },
                nonserialized.num_extra_channels as nat,
            ),
        );
        finish(
            ec_blending_info,
            FrameHeaderView {
                have_crop: value(have_crop),
                x0: value(x0),
                y0: value(y0),
                width: value(width),
                height: value(height),
                blending_info: value(blending_info),
                ec_blending_info: value(ec_blending_info),
                ..value(earlier)
            },
        )
    }

    /// The next section of the header, behind the sections that gave
    /// `earlier`: how long the frame is shown, whether it is the last one,
    /// and whether it is kept for later frames.
    pub open spec fn spec_read_animation(
        data: Seq<u8>,
        nonserialized: FrameHeaderNonserializedView,
        earlier: Decoded<FrameHeaderView>,
    ) -> Decoded<FrameHeaderView> {
        let on = !value(earlier).all_default;
        let duration = conditional(
            earlier,
            on && normal_frame(value(earlier).frame_type) && nonserialized.have_animation,
            0,
            U32Coder::Select(U32::Val(0), U32::Val(1), U32::Bits(8), U32::Bits(32)).spec_read(
                data,
                earlier.1,
            ),
        );
        let timecode = conditional(
            duration,
            on && normal_frame(value(earlier).frame_type) && nonserialized.have_timecode,
            0,
            U32Coder::Direct(U32::Bits(32)).spec_read(data, duration.1),
        );
        let is_last = conditional(
            timecode,
            on && normal_frame(value(earlier).frame_type),
            value(earlier).frame_type == FrameType::RegularFrame,
            spec_read_bool(data, timecode.1),
        );
        let save_as_reference = conditional(
            is_last,
            on && value(earlier).frame_type != FrameType::LFFrame && !value(is_last),
            0,
            U32Coder::Direct(U32::Bits(2)).spec_read(data, is_last.1),
        );
        let save_before_ct = conditional(
            save_as_reference,
            on && value(earlier).frame_type != FrameType::LFFrame,
            !full_frame(
                value(earlier).have_crop,
                value(earlier).x0,
                value(earlier).y0,
                value(earlier).width,
                value(earlier).height,
                nonserialized.img_width,
                nonserialized.img_height,
            )
                && normal_frame(value(earlier).frame_type)
                && value(earlier).blending_info.mode == BlendingMode::Replace
                && (value(duration) == 0 || value(save_as_reference) != 0) && !value(is_last),
            spec_read_bool(data, save_as_reference.1),
        );
        finish(
            save_before_ct,
            FrameHeaderView {
                duration: value(duration),
                timecode: value(timecode),
                is_last: value(is_last),
                save_as_reference: value(save_as_reference),
                save_before_ct: value(save_before_ct),
                ..value(earlier)
            },
        )
    }

    /// The next section of the header, behind the sections that gave
    /// `earlier`: the frame's name, its restoration filter and its extensions.
    pub open spec fn spec_read_tail(
        data: Seq<u8>,
        nonserialized: FrameHeaderNonserializedView,
        earlier: Decoded<FrameHeaderView>,
    ) -> Decoded<FrameHeaderView> {
        let on = !value(earlier).all_default;
        let name = conditional(
            earlier,
            on,
            Seq::<char>::empty(),
            spec_read_string(data, earlier.1),
        );
        let restoration_filter = conditional(
            name,
            on,
            RestorationFilterView::spec_default(),
            RestorationFilter::spec_read(
                data,
                name.1,
                RestorationFilterNonserialized { encoding: value(earlier).encoding },
            ),
        );
        let extensions = conditional(
            restoration_filter,
            on,
            Extensions {  },
            spec_read_extensions(data, restoration_filter.1),
        );
        finish(
            extensions,
            FrameHeaderView {
                name: value(name),
                restoration_filter: value(restoration_filter),
                extensions: value(extensions),
                ..value(earlier)
            },
        )
    }

    /// The header that the sections give, one behind the other, from `pos`.
    pub open spec fn spec_read_fields(
        data: Seq<u8>,
        pos: nat,
        nonserialized: FrameHeaderNonserializedView,
    ) -> Decoded<FrameHeaderView> {
        Self::spec_read_tail(
            data,
            nonserialized,
            Self::spec_read_animation(
                data,
                nonserialized,
                Self::spec_read_crop(
                    data,
                    nonserialized,
                    Self::spec_read_tools(
                        data,
                        nonserialized,
                        Self::spec_read_kind(data, pos, nonserialized),
                    ),
                ),
            ),
        )
    }

    /// Reads the first section of the header.
    fn read_kind(br: &mut BitReader, nonserialized: &FrameHeaderNonserialized) -> (r: Result<
        FrameHeader,
        Error,
    >)
        ensures
            final(br).data() == old(br).data(),
            (viewed(r), final(br).pos()) == Self::spec_read_kind(
                old(br).data(),
                old(br).pos(),
                nonserialized@,
            ),
    {
        proof {
            lemma2_to64();
        }
        let header = FrameHeader::blank();
        let all_default = read_bool(br)?;
        let on = !all_default;
        let frame_type = FrameType::read_defaulted(&enum_coder(), on, FrameType::RegularFrame, br)?;
        let encoding = Encoding::read_defaulted(
            &U32Coder::Direct(U32::Bits(1)),
            on,
            Encoding::VarDCT,
            br,
        )?;
        let flags = read_defaulted_u64(on, 0, br)?;
        let do_ycbcr = read_defaulted_bool(on && !nonserialized.xyb_encoded, false, br)?;
        assert([0u32, 0u32, 0u32]@ =~= repeated(3, 0u32));
        let jpeg_upsampling = U32Coder::Direct(U32::Bits(2)).read_defaulted_array(
            on && do_ycbcr && (flags & Flags::USE_LF_FRAME) == 0,
            [0u32, 0u32, 0u32],
            br,
        )?;
        let upsampling = upsampling_coder().read_defaulted(
            on && (flags & Flags::USE_LF_FRAME) == 0,
            1,
            br,
        )?;
        let ec_upsampling = upsampling_coder().read_defaulted_vec(
            nonserialized.num_extra_channels,
            on && (flags & Flags::USE_LF_FRAME) == 0,
            1,
            br,
        )?;
        Ok(FrameHeader {
            all_default,
            frame_type,
            encoding,
            flags,
            do_ycbcr,
            jpeg_upsampling,
            upsampling,
            ec_upsampling,
            ..header
        })
    }

    /// Reads the section of the coding tools.
    fn read_tools(
        br: &mut BitReader,
        nonserialized: &FrameHeaderNonserialized,
        header: FrameHeader,
    ) -> (r: Result<FrameHeader, Error>)
        ensures
            final(br).data() == old(br).data(),
            (viewed(r), final(br).pos()) == Self::spec_read_tools(
                old(br).data(),
                nonserialized@,
                (Ok(header@), old(br).pos()),
            ),
    {
        proof {
            lemma2_to64();
        }
        let on = !header.all_default;
        let group_size_shift = U32Coder::Direct(U32::Bits(2)).read_defaulted(
            on && header.encoding == Encoding::Modular,
            1,
            br,
        )?;
        let x_qm_scale = U32Coder::Direct(U32::Bits(3)).read_defaulted(
            on && header.encoding == Encoding::VarDCT && nonserialized.xyb_encoded,
            3,
            br,
        )?;
        let b_qm_scale = U32Coder::Direct(U32::Bits(3)).read_defaulted(
            on && header.encoding == Encoding::VarDCT && nonserialized.xyb_encoded,
            2,
            br,
        )?;
        let passes = Passes::read_defaulted(
            on && header.frame_type != FrameType::ReferenceOnly,
            br,
        )?;
        let lf_level = U32Coder::Select(
            U32::Val(1),
            U32::Val(2),
            U32::Val(3),
            U32::Val(4),
        ).read_defaulted(
            on && header.frame_type == FrameType::LFFrame,
            0,
            br,
        )?;
        Ok(FrameHeader {
            group_size_shift,
            x_qm_scale,
            b_qm_scale,
            passes,
            lf_level,
            ..header
        })
    }

    /// Reads the section of the rectangle and the blending.
    fn read_crop(
        br: &mut BitReader,
        nonserialized: &FrameHeaderNonserialized,
        header: FrameHeader,
    ) -> (r: Result<FrameHeader, Error>)
        ensures
            final(br).data() == old(br).data(),
            (viewed(r), final(br).pos()) == Self::spec_read_crop(
                old(br).data(),
                nonserialized@,
                (Ok(header@), old(br).pos()),
            ),
    {
        proof {
            lemma2_to64();
        }
        let on = !header.all_default;
        let have_crop = read_defaulted_bool(
            on && header.frame_type != FrameType::LFFrame,
            false,
            br,
        )?;
        let x0 = crop_coder().read_defaulted_signed(
            on && have_crop && header.frame_type != FrameType::ReferenceOnly,
            0,
            br,
        )?;
        let y0 = crop_coder().read_defaulted_signed(
            on && have_crop && header.frame_type != FrameType::ReferenceOnly,
            0,
            br,
        )?;
        let width = crop_coder().read_defaulted(on && have_crop, 0, br)?;
        let height = crop_coder().read_defaulted(on && have_crop, 0, br)?;
        let context = BlendingInfoNonserialized {
            num_extra_channels: nonserialized.num_extra_channels,
            have_crop,
            x0,
            y0,
            width,
            height,
            img_width: nonserialized.img_width,
            img_height: nonserialized.img_height,
        };
        let blending_info = BlendingInfo::read_defaulted(
            on && is_normal_frame(header.frame_type),
            BlendingInfo::default(),
            br,
            &context,
        )?;
        let ec_blending_info = BlendingInfo::read_defaulted_vec(
            nonserialized.num_extra_channels,
            on,
            BlendingInfo::default(),
            br,
            &context,
        )?;
        Ok(FrameHeader {
            have_crop,
            x0,
            y0,
            width,
            height,
            blending_info,
            ec_blending_info,
            ..header
        })
    }

    /// Reads the section of the animation and the references.
    fn read_animation(
        br: &mut BitReader,
        nonserialized: &FrameHeaderNonserialized,
        header: FrameHeader,
    ) -> (r: Result<FrameHeader, Error>)
        ensures
            final(br).data() == old(br).data(),
            (viewed(r), final(br).pos()) == Self::spec_read_animation(
                old(br).data(),
                nonserialized@,
                (Ok(header@), old(br).pos()),
            ),
    {
        proof {
            lemma2_to64();
        }
        let on = !header.all_default;
        let duration = U32Coder::Select(
            U32::Val(0),
            U32::Val(1),
            U32::Bits(8),
            U32::Bits(32),
        ).read_defaulted(
            on && is_normal_frame(header.frame_type) && nonserialized.have_animation,
            0,
            br,
        )?;
        let timecode = U32Coder::Direct(U32::Bits(32)).read_defaulted(
            on && is_normal_frame(header.frame_type) && nonserialized.have_timecode,
            0,
            br,
        )?;
        let is_last = read_defaulted_bool(
            on && is_normal_frame(header.frame_type),
            header.frame_type == FrameType::RegularFrame,
            br,
        )?;
        let save_as_reference = U32Coder::Direct(U32::Bits(2)).read_defaulted(
            on && header.frame_type != FrameType::LFFrame && !is_last,
            0,
            br,
        )?;
        let save_before_ct = read_defaulted_bool(
            on && header.frame_type != FrameType::LFFrame,
            !is_full_frame(
                header.have_crop,
                header.x0,
                header.y0,
                header.width,
                header.height,
                nonserialized.img_width,
                nonserialized.img_height,
            )
                && is_normal_frame(header.frame_type)
                && header.blending_info.mode == BlendingMode::Replace
                && (duration == 0 || save_as_reference != 0) && !is_last,
            br,
        )?;
        Ok(FrameHeader {
            duration,
            timecode,
            is_last,
            save_as_reference,
            save_before_ct,
            ..header
        })
    }

    /// Reads the last section of the header.
    fn read_tail(
        br: &mut BitReader,
        nonserialized: &FrameHeaderNonserialized,
        header: FrameHeader,
    ) -> (r: Result<FrameHeader, Error>)
        ensures
            final(br).data() == old(br).data(),
            (viewed(r), final(br).pos()) == Self::spec_read_tail(
                old(br).data(),
                nonserialized@,
                (Ok(header@), old(br).pos()),
            ),
    {
        proof {
            lemma2_to64();
        }
        let on = !header.all_default;
        let name = read_defaulted_string(on, br)?;
        let restoration_filter = RestorationFilter::read_defaulted(
            on,
            br,
            &RestorationFilterNonserialized { encoding: header.encoding },
        )?;
        let extensions = Extensions::read_defaulted(on, br)?;
        Ok(FrameHeader {
            name,
            restoration_filter,
            extensions,
            ..header
        })
    }

    /// The header at `pos`: the cursor goes to the next byte boundary, the
    /// sections are decoded from there, and the header that they give has to
    /// pass the check.
    pub open spec fn spec_read(
        data: Seq<u8>,
        pos: nat,
        nonserialized: FrameHeaderNonserializedView,
    ) -> Decoded<FrameHeaderView> {
        Self::spec_checked(
            nonserialized,
            Self::spec_read_fields(data, next_byte_boundary(pos), nonserialized),
        )
    }

    /// The header that was decoded, if it passes the check, and else the
    /// failure of the check; the cursor stays where it is.
    pub open spec fn spec_checked(
        nonserialized: FrameHeaderNonserializedView,
        decoded: Decoded<FrameHeaderView>,
    ) -> Decoded<FrameHeaderView> {
        (
            match decoded.0 {
                Ok(header) => match header.spec_check(nonserialized) {
                    Ok(_) => Ok(header),
                    Err(e) => Err(e),
                },
                Err(e) => Err(e),
            },
            decoded.1,
        )
    }

    /// Reads the header of a frame and checks it.
    pub fn read_unconditional(
        config: &(),
        br: &mut BitReader,
        nonserialized: &FrameHeaderNonserialized,
    ) -> (r: Result<FrameHeader, Error>)
        ensures
            final(br).data() == old(br).data(),
            (viewed(r), final(br).pos()) == Self::spec_read(
                old(br).data(),
                old(br).pos(),
                nonserialized@,
            ),
            r matches Ok(header) ==> header@.wf_in(nonserialized@) && header@.wf(),
    {
        proof {
            lemma_decoded_header_is_wf(br.data(), br.pos(), nonserialized@);
        }
        br.align_to_byte();
        let header = Self::read_kind(br, nonserialized)?;
        let header = Self::read_tools(br, nonserialized, header)?;
        let header = Self::read_crop(br, nonserialized, header)?;
        let header = Self::read_animation(br, nonserialized, header)?;
        let header = Self::read_tail(br, nonserialized, header)?;
        match header.check(nonserialized) {
            Ok(_) => Ok(header),
            Err(e) => Err(e),
        }
    }

    /// Whether the subsampling modes and the group size shift are in the
    /// range of their two bits.
    pub fn is_wf(&self) -> (r: bool)
        ensures
            r == self@.wf(),
    {
        self.jpeg_upsampling[0] < 4 && self.jpeg_upsampling[1] < 4 && self.jpeg_upsampling[2] < 4
            && self.group_size_shift < 4
    }
}

impl FrameHeaderView {
    /// The subsampling modes and the group size shift are in the range of
    /// their two bits.
    pub open spec fn wf(self) -> bool {
        &&& self.jpeg_upsampling.len() == 3
        &&& forall|i: int| 0 <= i < 3 ==> self.jpeg_upsampling[i] < 4
        &&& self.group_size_shift < 4
    }

    /// The fields of the first section are in the range of their codings,
    /// and each extra channel has an upsampling.
    pub open spec fn wf_kind(self, nonserialized: FrameHeaderNonserializedView) -> bool {
        &&& self.jpeg_upsampling.len() == 3
        &&& forall|i: int| 0 <= i < 3 ==> self.jpeg_upsampling[i] < 4
        &&& is_upsampling(self.upsampling)
        &&& self.ec_upsampling.len() == nonserialized.num_extra_channels
        &&& forall|i: int|
            0 <= i < self.ec_upsampling.len() ==> is_upsampling(#[trigger] self.ec_upsampling[i])
    }

    /// The fields of the section of the coding tools are in the range of
    /// their codings.
    pub open spec fn wf_tools(self) -> bool {
        &&& self.group_size_shift < 4
        &&& self.x_qm_scale < 8
        &&& self.b_qm_scale < 8
        &&& self.passes.wf()
        &&& self.lf_level <= 4
    }

    /// The fields of the section of the rectangle and the blending are in
    /// the range of their codings, and each extra channel has its blending.
    pub open spec fn wf_crop(self, nonserialized: FrameHeaderNonserializedView) -> bool {
        &&& -0x2000_2480 <= self.x0 <= 0x2000_247f
        &&& -0x2000_2480 <= self.y0 <= 0x2000_247f
        &&& self.width <= 0x4000_48ff
        &&& self.height <= 0x4000_48ff
        &&& self.blending_info.wf()
        &&& self.ec_blending_info.len() == nonserialized.num_extra_channels
        &&& forall|i: int|
            0 <= i < self.ec_blending_info.len() ==> (#[trigger] self.ec_blending_info[i]).wf()
    }

    /// Every field is in the range of its coding, and each list is as long
    /// as the context says.
    pub open spec fn wf_in(self, nonserialized: FrameHeaderNonserializedView) -> bool {
        &&& self.wf_kind(nonserialized)
        &&& self.wf_tools()
        &&& self.wf_crop(nonserialized)
        &&& self.save_as_reference < 4
    }

    /// The header in which every field has its default. Each extra channel
    /// has an upsampling of 1 and the default blending.
    pub open spec fn spec_default(nonserialized: FrameHeaderNonserializedView) -> FrameHeaderView {
        FrameHeaderView {
            all_default: true,
            frame_type: FrameType::RegularFrame,
            encoding: Encoding::VarDCT,
            flags: 0,
            do_ycbcr: false,
            jpeg_upsampling: repeated(3, 0u32),
            upsampling: 1,
            ec_upsampling: repeated(nonserialized.num_extra_channels as nat, 1u32),
            group_size_shift: 1,
            x_qm_scale: 3,
            b_qm_scale: 2,
            passes: PassesView::spec_default(),
            lf_level: 0,
            have_crop: false,
            x0: 0,
            y0: 0,
            width: 0,
            height: 0,
            blending_info: BlendingInfo::spec_default(),
            ec_blending_info: repeated(
                nonserialized.num_extra_channels as nat,
                BlendingInfo::spec_default(),
            ),
            duration: 0,
            timecode: 0,
            is_last: true,
            save_as_reference: 0,
            save_before_ct: false,
            name: Seq::<char>::empty(),
            restoration_filter: RestorationFilterView::spec_default(),
            extensions: Extensions {  },
        }
    }
}

/// Where the first bit of a header is set, every field has its default, and
/// behind the byte boundary that bit is all that is read, whatever follows it
/// in the buffer.
pub proof fn lemma_all_default(
    data: Seq<u8>,
    pos: nat,
    nonserialized: FrameHeaderNonserializedView,
)
    requires
        spec_read_bool(data, next_byte_boundary(pos)) == (
            Ok::<bool, Error>(true),
            next_byte_boundary(pos) + 1,
        ),
    ensures
        FrameHeader::spec_read(data, pos, nonserialized) == (
            Ok::<FrameHeaderView, Error>(FrameHeaderView::spec_default(nonserialized)),
            next_byte_boundary(pos) + 1,
        ),
{
    let start = next_byte_boundary(pos);
    let kind = FrameHeader::spec_read_kind(data, start, nonserialized);
    let tools = FrameHeader::spec_read_tools(data, nonserialized, kind);
    let crop = FrameHeader::spec_read_crop(data, nonserialized, tools);
    let animation = FrameHeader::spec_read_animation(data, nonserialized, crop);
    let tail = FrameHeader::spec_read_tail(data, nonserialized, animation);
    assert(kind.1 == start + 1 && kind.0 is Ok);
    assert(tools.1 == start + 1 && tools.0 is Ok);
    assert(crop.1 == start + 1 && crop.0 is Ok);
    assert(animation.1 == start + 1 && animation.0 is Ok);
    assert(tail == (
        Ok::<FrameHeaderView, Error>(FrameHeaderView::spec_default(nonserialized)),
        start + 1,
    ));
}

/// What was decoded by a well-formed coding is admitted by that coding,
/// and a sequence of it is as long as was asked for.
proof fn lemma_codings_admit(data: Seq<u8>)
    ensures
        forall|coder: U32Coder, p: nat|
            coder.wf() && (#[trigger] coder.spec_read(data, p)).0 is Ok ==> coder.admits(
                value(coder.spec_read(data, p)),
            ),
        forall|coder: U32Coder, p: nat, count: nat|
            coder.wf() && (#[trigger] spec_read_u32s(coder, data, p, count)).0 is Ok ==> value(
                spec_read_u32s(coder, data, p, count),
            ).len() == count && forall|i: int|
                0 <= i < count ==> coder.admits(
                    #[trigger] value(spec_read_u32s(coder, data, p, count))[i],
                ),
{
    assert forall|coder: U32Coder, p: nat|
        coder.wf() && (#[trigger] coder.spec_read(data, p)).0 is Ok implies coder.admits(
        value(coder.spec_read(data, p)),
    ) by {
        lemma_read_is_admitted(coder, data, p);
    }
    assert forall|coder: U32Coder, p: nat, count: nat|
        coder.wf() && (#[trigger] spec_read_u32s(coder, data, p, count)).0 is Ok implies value(
            spec_read_u32s(coder, data, p, count),
        ).len() == count && forall|i: int|
            0 <= i < count ==> coder.admits(
                #[trigger] value(spec_read_u32s(coder, data, p, count))[i],
            ) by {
        lemma_read_u32s_are_admitted(coder, data, p, count);
    }
}

/// The first section of a header that was decoded is well formed.
pub proof fn lemma_decoded_kind_is_wf(
    data: Seq<u8>,
    pos: nat,
    nonserialized: FrameHeaderNonserializedView,
)
    ensures
        FrameHeader::spec_read_kind(data, pos, nonserialized).0 is Ok ==> value(
            FrameHeader::spec_read_kind(data, pos, nonserialized),
        ).wf_kind(nonserialized),
{
    lemma2_to64();
    lemma_codings_admit(data);
}

/// The section of the coding tools of a header that was decoded is well
/// formed, and what was well formed of the header stays so.
pub proof fn lemma_decoded_tools_are_wf(
    data: Seq<u8>,
    nonserialized: FrameHeaderNonserializedView,
    earlier: Decoded<FrameHeaderView>,
)
    ensures
        ({
            let tools = FrameHeader::spec_read_tools(data, nonserialized, earlier);
            tools.0 is Ok ==> earlier.0 is Ok && value(tools).wf_tools() && (value(
                earlier,
            ).wf_kind(nonserialized) ==> value(tools).wf_kind(nonserialized))
        }),
{
    lemma2_to64();
    lemma_codings_admit(data);
    assert forall|p: nat| (#[trigger] Passes::spec_read(data, p)).0 is Ok implies value(
        Passes::spec_read(data, p),
    ).wf() by {
        lemma_decoded_passes_are_wf(data, p);
    }
}

/// The section of the rectangle and the blending of a header that was
/// decoded is well formed, and what was well formed of the header stays so.
pub proof fn lemma_decoded_crop_is_wf(
    data: Seq<u8>,
    nonserialized: FrameHeaderNonserializedView,
    earlier: Decoded<FrameHeaderView>,
)
    ensures
        ({
            let crop = FrameHeader::spec_read_crop(data, nonserialized, earlier);
            crop.0 is Ok ==> earlier.0 is Ok && value(crop).wf_crop(nonserialized) && (value(
                earlier,
            ).wf_kind(nonserialized) ==> value(crop).wf_kind(nonserialized)) && (value(
                earlier,
            ).wf_tools() ==> value(crop).wf_tools())
        }),
{
    lemma2_to64();
    lemma_codings_admit(data);
    assert forall|p: nat, context: BlendingInfoNonserialized|
        (#[trigger] BlendingInfo::spec_read(data, p, context)).0 is Ok implies value(
            BlendingInfo::spec_read(data, p, context),
        ).wf() by {
        lemma_decoded_blending_is_wf(data, p, context);
    }
    assert forall|p: nat, context: BlendingInfoNonserialized, count: nat|
        (#[trigger] BlendingInfo::spec_read_each(data, p, context, count)).0 is Ok implies value(
            BlendingInfo::spec_read_each(data, p, context, count),
        ).len() == count && forall|i: int|
            0 <= i < count ==> (#[trigger] value(
                BlendingInfo::spec_read_each(data, p, context, count),
            )[i]).wf() by {
        lemma_decoded_blendings_are_wf(data, p, context, count);
    }
}

/// The section of the animation and the references of a header that was
/// decoded is well formed, and what was well formed of the header stays so.
pub proof fn lemma_decoded_animation_is_wf(
    data: Seq<u8>,
    nonserialized: FrameHeaderNonserializedView,
    earlier: Decoded<FrameHeaderView>,
)
    ensures
        ({
            let animation = FrameHeader::spec_read_animation(data, nonserialized, earlier);
            animation.0 is Ok ==> earlier.0 is Ok && value(animation).save_as_reference < 4 && (
            value(earlier).wf_kind(nonserialized) ==> value(animation).wf_kind(nonserialized)) && (
            value(earlier).wf_tools() ==> value(animation).wf_tools()) && (value(earlier).wf_crop(
                nonserialized,
            ) ==> value(animation).wf_crop(nonserialized))
        }),
{
    lemma2_to64();
    lemma_codings_admit(data);
}

/// What was well formed of a header stays so in its last section.
pub proof fn lemma_decoded_tail_is_wf(
    data: Seq<u8>,
    nonserialized: FrameHeaderNonserializedView,
    earlier: Decoded<FrameHeaderView>,
)
    ensures
        ({
            let tail = FrameHeader::spec_read_tail(data, nonserialized, earlier);
            tail.0 is Ok ==> earlier.0 is Ok && (value(earlier).wf_in(nonserialized) ==> value(
                tail,
            ).wf_in(nonserialized))
        }),
{
}

/// A header that was decoded is well formed: every field is in the range of
/// its coding, and each list is as long as the context says.
pub proof fn lemma_decoded_header_is_wf(
    data: Seq<u8>,
    pos: nat,
    nonserialized: FrameHeaderNonserializedView,
)
    ensures
        FrameHeader::spec_read(data, pos, nonserialized).0 matches Ok(header) ==> header.wf_in(
            nonserialized,
        ) && header.wf(),
{
    let start = next_byte_boundary(pos);
    let kind = FrameHeader::spec_read_kind(data, start, nonserialized);
    let tools = FrameHeader::spec_read_tools(data, nonserialized, kind);
    let crop = FrameHeader::spec_read_crop(data, nonserialized, tools);
    let animation = FrameHeader::spec_read_animation(data, nonserialized, crop);
    let tail = FrameHeader::spec_read_tail(data, nonserialized, animation);
    assert(tail.0 is Ok ==> value(tail).wf_in(nonserialized)) by {
        lemma_decoded_kind_is_wf(data, start, nonserialized);
        lemma_decoded_tools_are_wf(data, nonserialized, kind);
        lemma_decoded_crop_is_wf(data, nonserialized, tools);
        lemma_decoded_animation_is_wf(data, nonserialized, crop);
        lemma_decoded_tail_is_wf(data, nonserialized, animation);
    }
    assert(FrameHeader::spec_read(data, pos, nonserialized) == FrameHeader::spec_checked(
        nonserialized,
        tail,
    ));
}

/// The first section of a header moves the cursor forward, and not out of
/// the buffer.
pub proof fn lemma_kind_moves_forward(
    data: Seq<u8>,
    pos: nat,
    nonserialized: FrameHeaderNonserializedView,
)
    ensures
        forward(data, pos, FrameHeader::spec_read_kind(data, pos, nonserialized)),
{
    assert forall|coder: U32Coder, p: nat|
        forward(data, p, #[trigger] coder.spec_read(data, p)) by {
        lemma_u32_moves_forward(coder, data, p);
    }
    assert forall|coder: U32Coder, p: nat, count: nat|
        forward(data, p, #[trigger] spec_read_u32s(coder, data, p, count)) by {
        lemma_u32s_move_forward(coder, data, p, count);
    }
    assert forall|p: nat| forward(data, p, #[trigger] spec_read_u64(data, p)) by {
        lemma_u64_moves_forward(data, p);
    }
}

/// The section of the coding tools moves the cursor forward, and not out of
/// the buffer.
pub proof fn lemma_tools_move_forward(
    data: Seq<u8>,
    nonserialized: FrameHeaderNonserializedView,
    earlier: Decoded<FrameHeaderView>,
)
    ensures
        forward(data, earlier.1, FrameHeader::spec_read_tools(data, nonserialized, earlier)),
{
    assert forall|coder: U32Coder, p: nat|
        forward(data, p, #[trigger] coder.spec_read(data, p)) by {
        lemma_u32_moves_forward(coder, data, p);
    }
    assert forall|p: nat| forward(data, p, #[trigger] Passes::spec_read(data, p)) by {
        lemma_passes_move_forward(data, p);
    }
}

/// The section of the rectangle and the blending moves the cursor forward,
/// and not out of the buffer.
pub proof fn lemma_crop_moves_forward(
    data: Seq<u8>,
    nonserialized: FrameHeaderNonserializedView,
    earlier: Decoded<FrameHeaderView>,
)
    ensures
        forward(data, earlier.1, FrameHeader::spec_read_crop(data, nonserialized, earlier)),
{
    assert forall|coder: U32Coder, p: nat|
        forward(data, p, #[trigger] coder.spec_read(data, p)) && forward(
            data,
            p,
            spec_read_signed(coder, data, p),
        ) by {
        lemma_u32_moves_forward(coder, data, p);
    }
    assert forall|p: nat, context: BlendingInfoNonserialized|
        forward(data, p, #[trigger] BlendingInfo::spec_read(data, p, context)) by {
        lemma_blending_moves_forward(data, p, context);
    }
    assert forall|p: nat, context: BlendingInfoNonserialized, count: nat|
        forward(data, p, #[trigger] BlendingInfo::spec_read_each(data, p, context, count)) by {
        lemma_blendings_move_forward(data, p, context, count);
    }
}

/// The section of the animation and the references moves the cursor
/// forward, and not out of the buffer.
pub proof fn lemma_animation_moves_forward(
    data: Seq<u8>,
    nonserialized: FrameHeaderNonserializedView,
    earlier: Decoded<FrameHeaderView>,
)
    ensures
        forward(data, earlier.1, FrameHeader::spec_read_animation(data, nonserialized, earlier)),
{
    assert forall|coder: U32Coder, p: nat|
        forward(data, p, #[trigger] coder.spec_read(data, p)) by {
        lemma_u32_moves_forward(coder, data, p);
    }
}

/// The last section of a header moves the cursor forward, and not out of
/// the buffer.
pub proof fn lemma_tail_moves_forward(
    data: Seq<u8>,
    nonserialized: FrameHeaderNonserializedView,
    earlier: Decoded<FrameHeaderView>,
)
    ensures
        forward(data, earlier.1, FrameHeader::spec_read_tail(data, nonserialized, earlier)),
{
    assert forall|p: nat| forward(data, p, #[trigger] spec_read_string(data, p)) by {
        lemma_string_moves_forward(data, p);
    }
    assert forall|p: nat, context: RestorationFilterNonserialized|
        forward(data, p, #[trigger] RestorationFilter::spec_read(data, p, context)) by {
        lemma_restoration_filter_moves_forward(data, p, context);
    }
    assert forall|p: nat| forward(data, p, #[trigger] spec_read_extensions(data, p)) by {
        lemma_extensions_move_forward(data, p);
    }
}

/// The sections of a header, one behind the other, move the cursor
/// forward, and not out of the buffer.
pub proof fn lemma_fields_move_forward(
    data: Seq<u8>,
    pos: nat,
    nonserialized: FrameHeaderNonserializedView,
)
    ensures
        forward(data, pos, FrameHeader::spec_read_fields(data, pos, nonserialized)),
{
    let kind = FrameHeader::spec_read_kind(data, pos, nonserialized);
    let tools = FrameHeader::spec_read_tools(data, nonserialized, kind);
    let crop = FrameHeader::spec_read_crop(data, nonserialized, tools);
    let animation = FrameHeader::spec_read_animation(data, nonserialized, crop);
    lemma_kind_moves_forward(data, pos, nonserialized);
    lemma_tools_move_forward(data, nonserialized, kind);
    lemma_crop_moves_forward(data, nonserialized, tools);
    lemma_animation_moves_forward(data, nonserialized, crop);
    lemma_tail_moves_forward(data, nonserialized, animation);
}

/// Decoding a header moves the cursor forward, and not out of the buffer,
/// whether it succeeds or fails.
pub proof fn lemma_header_moves_forward(
    data: Seq<u8>,
    pos: nat,
    nonserialized: FrameHeaderNonserializedView,
)
    ensures
        forward(data, pos, FrameHeader::spec_read(data, pos, nonserialized)),
{
    let start = next_byte_boundary(pos);
    let fields = FrameHeader::spec_read_fields(data, start, nonserialized);
    assert(forward(data, start, fields)) by {
        lemma_fields_move_forward(data, start, nonserialized);
    }
    assert(FrameHeader::spec_read(data, pos, nonserialized).1 == fields.1);
    lemma_byte_boundary(data, pos);
}

} // verus!
