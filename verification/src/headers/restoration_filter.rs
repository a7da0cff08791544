//! The filters that are run over a decoded frame.

use crate::bit_reader::BitReader;
use crate::error::Error;
use crate::headers::binary32::{
    lemma_f16s_move_forward, read_defaulted_f16, read_defaulted_f16_array, spec_read_f16,
    spec_read_f16s, Binary32,
};
use crate::headers::encodings::{read_bool, read_defaulted_bool, spec_read_bool, U32Coder, U32};
use crate::headers::extensions::{lemma_extensions_move_forward, spec_read_extensions, Extensions};
use crate::headers::frame_header::Encoding;
use crate::headers::record::{conditional, defaulted, finish, forward, value, viewed, Decoded};
use vstd::arithmetic::power2::lemma2_to64;
use vstd::prelude::*;

verus! {

/// 0.115169525 in single precision.
pub const GAB_WEIGHT1: u32 = 0x3deb_de00;

/// 0.061248592 in single precision.
pub const GAB_WEIGHT2: u32 = 0x3d7a_dfce;

/// 0.45 in single precision.
pub const EPF_PASS1_ZEROFLUSH: u32 = 0x3ee6_6666;

/// 0.6 in single precision.
pub const EPF_PASS2_ZEROFLUSH: u32 = 0x3f19_999a;

/// 0.46 in single precision.
pub const EPF_QUANT_MUL: u32 = 0x3eeb_851f;

/// 0.9 in single precision.
pub const EPF_PASS0_SIGMA_SCALE: u32 = 0x3f66_6666;

/// 6.5 in single precision.
pub const EPF_PASS2_SIGMA_SCALE: u32 = 0x40d0_0000;

/// Two thirds in single precision.
pub const EPF_BORDER_SAD_MUL: u32 = 0x3f2a_aaab;

/// 1.0 in single precision.
pub const EPF_SIGMA_FOR_MODULAR: u32 = 0x3f80_0000;

/// The sharpness table that a frame has unless it brings its own: the
/// sevenths from zero to one, in single precision.
pub open spec fn spec_default_sharp_lut() -> Seq<Binary32> {
    seq![
        Binary32 { bits: 0 },
        Binary32 { bits: 0x3e12_4925 },
        Binary32 { bits: 0x3e92_4925 },
        Binary32 { bits: 0x3edb_6db7 },
        Binary32 { bits: 0x3f12_4925 },
        Binary32 { bits: 0x3f36_db6e },
        Binary32 { bits: 0x3f5b_6db7 },
        Binary32 { bits: 0x3f80_0000 },
    ]
}

/// The sharpness table that a frame has unless it brings its own.
pub fn default_sharp_lut() -> (lut: [Binary32; 8])
    ensures
        lut@ == spec_default_sharp_lut(),
{
    let lut = [
        Binary32 { bits: 0 },
        Binary32 { bits: 0x3e12_4925 },
        Binary32 { bits: 0x3e92_4925 },
        Binary32 { bits: 0x3edb_6db7 },
        Binary32 { bits: 0x3f12_4925 },
        Binary32 { bits: 0x3f36_db6e },
        Binary32 { bits: 0x3f5b_6db7 },
        Binary32 { bits: 0x3f80_0000 },
    ];
    assert(lut@ =~= spec_default_sharp_lut());
    lut
}

/// The weights of the three channels that a frame has unless it brings its
/// own: 40, 5 and 3.5 in single precision.
pub open spec fn spec_default_channel_scale() -> Seq<Binary32> {
    seq![
        Binary32 { bits: 0x4220_0000 },
        Binary32 { bits: 0x40a0_0000 },
        Binary32 { bits: 0x4060_0000 },
    ]
}

/// The weights of the three channels that a frame has unless it brings its
/// own.
pub fn default_channel_scale() -> (scale: [Binary32; 3])
    ensures
        scale@ == spec_default_channel_scale(),
{
    let scale = [
        Binary32 { bits: 0x4220_0000 },
        Binary32 { bits: 0x40a0_0000 },
        Binary32 { bits: 0x4060_0000 },
    ];
    assert(scale@ =~= spec_default_channel_scale());
    scale
}

/// What the restoration filter of a frame depends on: the frame's encoding.
#[derive(Clone, Copy, Debug, PartialEq, Eq, Structural)]
pub struct RestorationFilterNonserialized {
    pub encoding: Encoding,
}

/// The filters that are run over a decoded frame: the smoothing filter and
/// the edge-preserving filter, each with its parameters.
#[derive(Debug, PartialEq)]
pub struct RestorationFilter {
    pub all_default: bool,
    pub gab: bool,
    pub gab_custom: bool,
    pub gab_x_weight1: Binary32,
    pub gab_x_weight2: Binary32,
    pub gab_y_weight1: Binary32,
    pub gab_y_weight2: Binary32,
    pub gab_b_weight1: Binary32,
    pub gab_b_weight2: Binary32,
    pub epf_iters: u32,
    pub epf_sharp_custom: bool,
    pub epf_sharp_lut: [Binary32; 8],
    pub epf_weight_custom: bool,
    pub epf_channel_scale: [Binary32; 3],
    pub epf_pass1_zeroflush: Binary32,
    pub epf_pass2_zeroflush: Binary32,
    pub epf_sigma_custom: bool,
    pub epf_quant_mul: Binary32,
    pub epf_pass0_sigma_scale: Binary32,
    pub epf_pass2_sigma_scale: Binary32,
    pub epf_border_sad_mul: Binary32,
    pub epf_sigma_for_modular: Binary32,
    pub extensions: Extensions,
}

/// The restoration filter as a mathematical value.
pub struct RestorationFilterView {
    pub all_default: bool,
    pub gab: bool,
    pub gab_custom: bool,
    pub gab_x_weight1: Binary32,
    pub gab_x_weight2: Binary32,
    pub gab_y_weight1: Binary32,
    pub gab_y_weight2: Binary32,
    pub gab_b_weight1: Binary32,
    pub gab_b_weight2: Binary32,
    pub epf_iters: u32,
    pub epf_sharp_custom: bool,
    pub epf_sharp_lut: Seq<Binary32>,
    pub epf_weight_custom: bool,
    pub epf_channel_scale: Seq<Binary32>,
    pub epf_pass1_zeroflush: Binary32,
    pub epf_pass2_zeroflush: Binary32,
    pub epf_sigma_custom: bool,
    pub epf_quant_mul: Binary32,
    pub epf_pass0_sigma_scale: Binary32,
    pub epf_pass2_sigma_scale: Binary32,
    pub epf_border_sad_mul: Binary32,
    pub epf_sigma_for_modular: Binary32,
    pub extensions: Extensions,
}

impl View for RestorationFilter {
    type V = RestorationFilterView;

    open spec fn view(&self) -> RestorationFilterView {
        RestorationFilterView {
            all_default: self.all_default,
            gab: self.gab,
            gab_custom: self.gab_custom,
            gab_x_weight1: self.gab_x_weight1,
            gab_x_weight2: self.gab_x_weight2,
            gab_y_weight1: self.gab_y_weight1,
            gab_y_weight2: self.gab_y_weight2,
            gab_b_weight1: self.gab_b_weight1,
            gab_b_weight2: self.gab_b_weight2,
            epf_iters: self.epf_iters,
            epf_sharp_custom: self.epf_sharp_custom,
            epf_sharp_lut: self.epf_sharp_lut@,
            epf_weight_custom: self.epf_weight_custom,
            epf_channel_scale: self.epf_channel_scale@,
            epf_pass1_zeroflush: self.epf_pass1_zeroflush,
            epf_pass2_zeroflush: self.epf_pass2_zeroflush,
            epf_sigma_custom: self.epf_sigma_custom,
            epf_quant_mul: self.epf_quant_mul,
            epf_pass0_sigma_scale: self.epf_pass0_sigma_scale,
            epf_pass2_sigma_scale: self.epf_pass2_sigma_scale,
            epf_border_sad_mul: self.epf_border_sad_mul,
            epf_sigma_for_modular: self.epf_sigma_for_modular,
            extensions: self.extensions,
        }
    }
}

impl RestorationFilterView {
    /// The restoration filter in which every field has its default.
    pub open spec fn spec_default() -> RestorationFilterView {
        RestorationFilterView {
            all_default: true,
            gab: true,
            gab_custom: false,
            gab_x_weight1: Binary32 { bits: GAB_WEIGHT1 },
            gab_x_weight2: Binary32 { bits: GAB_WEIGHT2 },
            gab_y_weight1: Binary32 { bits: GAB_WEIGHT1 },
            gab_y_weight2: Binary32 { bits: GAB_WEIGHT2 },
            gab_b_weight1: Binary32 { bits: GAB_WEIGHT1 },
            gab_b_weight2: Binary32 { bits: GAB_WEIGHT2 },
            epf_iters: 2,
            epf_sharp_custom: false,
            epf_sharp_lut: spec_default_sharp_lut(),
            epf_weight_custom: false,
            epf_channel_scale: spec_default_channel_scale(),
            epf_pass1_zeroflush: Binary32 { bits: EPF_PASS1_ZEROFLUSH },
            epf_pass2_zeroflush: Binary32 { bits: EPF_PASS2_ZEROFLUSH },
            epf_sigma_custom: false,
            epf_quant_mul: Binary32 { bits: EPF_QUANT_MUL },
            epf_pass0_sigma_scale: Binary32 { bits: EPF_PASS0_SIGMA_SCALE },
            epf_pass2_sigma_scale: Binary32 { bits: EPF_PASS2_SIGMA_SCALE },
            epf_border_sad_mul: Binary32 { bits: EPF_BORDER_SAD_MUL },
            epf_sigma_for_modular: Binary32 { bits: EPF_SIGMA_FOR_MODULAR },
            extensions: Extensions {  },
        }
    }
}

impl Default for RestorationFilter {
    /// The restoration filter in which every field has its default.
    fn default() -> (r: Self)
        ensures
            r@ == RestorationFilterView::spec_default(),
    {
        RestorationFilter {
            all_default: true,
            gab: true,
            gab_custom: false,
            gab_x_weight1: Binary32 { bits: GAB_WEIGHT1 },
            gab_x_weight2: Binary32 { bits: GAB_WEIGHT2 },
            gab_y_weight1: Binary32 { bits: GAB_WEIGHT1 },
            gab_y_weight2: Binary32 { bits: GAB_WEIGHT2 },
            gab_b_weight1: Binary32 { bits: GAB_WEIGHT1 },
            gab_b_weight2: Binary32 { bits: GAB_WEIGHT2 },
            epf_iters: 2,
            epf_sharp_custom: false,
            epf_sharp_lut: default_sharp_lut(),
            epf_weight_custom: false,
            epf_channel_scale: default_channel_scale(),
            epf_pass1_zeroflush: Binary32 { bits: EPF_PASS1_ZEROFLUSH },
            epf_pass2_zeroflush: Binary32 { bits: EPF_PASS2_ZEROFLUSH },
            epf_sigma_custom: false,
            epf_quant_mul: Binary32 { bits: EPF_QUANT_MUL },
            epf_pass0_sigma_scale: Binary32 { bits: EPF_PASS0_SIGMA_SCALE },
            epf_pass2_sigma_scale: Binary32 { bits: EPF_PASS2_SIGMA_SCALE },
            epf_border_sad_mul: Binary32 { bits: EPF_BORDER_SAD_MUL },
            epf_sigma_for_modular: Binary32 { bits: EPF_SIGMA_FOR_MODULAR },
            extensions: Extensions {  },
        }
    }
}

impl RestorationFilter {
    /// The first section of the restoration filter at `pos`: the bit that
    /// says whether every field has its default, and the smoothing filter.
    /// The fields of the later sections stand at their defaults.
    pub open spec fn spec_read_gab(data: Seq<u8>, pos: nat) -> Decoded<RestorationFilterView> {
        let all_default = spec_read_bool(data, pos);
        let on = !value(all_default);
        let gab = conditional(
            all_default,
            on,
            true,
            spec_read_bool(data, all_default.1),
        );
        let gab_custom = conditional(
            gab,
            on && value(gab),
            false,
            spec_read_bool(data, gab.1),
        );
        let gab_x_weight1 = conditional(
            gab_custom,
            on && value(gab_custom),
            Binary32 { bits: GAB_WEIGHT1 },
            spec_read_f16(data, gab_custom.1),
        );
        let gab_x_weight2 = conditional(
            gab_x_weight1,
            on && value(gab_custom),
            Binary32 { bits: GAB_WEIGHT2 },
            spec_read_f16(data, gab_x_weight1.1),
        );
        let gab_y_weight1 = conditional(
            gab_x_weight2,
            on && value(gab_custom),
            Binary32 { bits: GAB_WEIGHT1 },
            spec_read_f16(data, gab_x_weight2.1),
        );
        let gab_y_weight2 = conditional(
            gab_y_weight1,
            on && value(gab_custom),
            Binary32 { bits: GAB_WEIGHT2 },
            spec_read_f16(data, gab_y_weight1.1),
        );
        let gab_b_weight1 = conditional(
            gab_y_weight2,
            on && value(gab_custom),
            Binary32 { bits: GAB_WEIGHT1 },
            spec_read_f16(data, gab_y_weight2.1),
        );
        let gab_b_weight2 = conditional(
            gab_b_weight1,
            on && value(gab_custom),
            Binary32 { bits: GAB_WEIGHT2 },
            spec_read_f16(data, gab_b_weight1.1),
        );
        finish(
            gab_b_weight2,
            RestorationFilterView {
                all_default: value(all_default),
                gab: value(gab),
                gab_custom: value(gab_custom),
                gab_x_weight1: value(gab_x_weight1),
                gab_x_weight2: value(gab_x_weight2),
                gab_y_weight1: value(gab_y_weight1),
                gab_y_weight2: value(gab_y_weight2),
                gab_b_weight1: value(gab_b_weight1),
                gab_b_weight2: value(gab_b_weight2),
                ..RestorationFilterView::spec_default()
            },
        )
    }

    /// The next section of the restoration filter, behind the section that
    /// gave `earlier`: the passes of the edge-preserving filter, its table
    /// of sharpness and its weights.
    pub open spec fn spec_read_epf(
        data: Seq<u8>,
        nonserialized: RestorationFilterNonserialized,
        earlier: Decoded<RestorationFilterView>,
    ) -> Decoded<RestorationFilterView> {
        let on = !value(earlier).all_default;
        let epf_iters = conditional(
            earlier,
            on,
            2,
            U32Coder::Direct(U32::Bits(2)).spec_read(data, earlier.1),
        );
        let epf_sharp_custom = conditional(
            epf_iters,
            on && value(epf_iters) > 0 && nonserialized.encoding == Encoding::VarDCT,
            false,
            spec_read_bool(data, epf_iters.1),
        );
        let epf_sharp_lut = conditional(
            epf_sharp_custom,
            on && value(epf_sharp_custom),
            spec_default_sharp_lut(),
            spec_read_f16s(data, epf_sharp_custom.1, 8),
        );
        let epf_weight_custom = conditional(
            epf_sharp_lut,
            on && value(epf_iters) > 0,
            false,
            spec_read_bool(data, epf_sharp_lut.1),
        );
        let epf_channel_scale = conditional(
            epf_weight_custom,
            on && value(epf_weight_custom),
            spec_default_channel_scale(),
            spec_read_f16s(data, epf_weight_custom.1, 3),
        );
        let epf_pass1_zeroflush = conditional(
            epf_channel_scale,
            on && value(epf_weight_custom),
            Binary32 { bits: EPF_PASS1_ZEROFLUSH },
            spec_read_f16(data, epf_channel_scale.1),
        );
        let epf_pass2_zeroflush = conditional(
            epf_pass1_zeroflush,
            on && value(epf_weight_custom),
            Binary32 { bits: EPF_PASS2_ZEROFLUSH },
            spec_read_f16(data, epf_pass1_zeroflush.1),
        );
        finish(
            epf_pass2_zeroflush,
            RestorationFilterView {
                epf_iters: value(epf_iters),
                epf_sharp_custom: value(epf_sharp_custom),
                epf_sharp_lut: value(epf_sharp_lut),
                epf_weight_custom: value(epf_weight_custom),
                epf_channel_scale: value(epf_channel_scale),
                epf_pass1_zeroflush: value(epf_pass1_zeroflush),
                epf_pass2_zeroflush: value(epf_pass2_zeroflush),
                ..value(earlier)
            },
        )
    }

    /// The last section of the restoration filter, behind the sections that
    /// gave `earlier`: the sigma of the edge-preserving filter, and the
    /// extensions.
    pub open spec fn spec_read_sigma(
        data: Seq<u8>,
        nonserialized: RestorationFilterNonserialized,
        earlier: Decoded<RestorationFilterView>,
    ) -> Decoded<RestorationFilterView> {
        let on = !value(earlier).all_default;
        let epf_sigma_custom = conditional(
            earlier,
            on && value(earlier).epf_iters > 0,
            false,
            spec_read_bool(data, earlier.1),
        );
        let epf_quant_mul = conditional(
            epf_sigma_custom,
            on && value(epf_sigma_custom) && nonserialized.encoding == Encoding::VarDCT,
            Binary32 { bits: EPF_QUANT_MUL },
            spec_read_f16(data, epf_sigma_custom.1),
        );
        let epf_pass0_sigma_scale = conditional(
            epf_quant_mul,
            on && value(epf_sigma_custom),
            Binary32 { bits: EPF_PASS0_SIGMA_SCALE },
            spec_read_f16(data, epf_quant_mul.1),
        );
        let epf_pass2_sigma_scale = conditional(
            epf_pass0_sigma_scale,
            on && value(epf_sigma_custom),
            Binary32 { bits: EPF_PASS2_SIGMA_SCALE },
            spec_read_f16(data, epf_pass0_sigma_scale.1),
        );
        let epf_border_sad_mul = conditional(
            epf_pass2_sigma_scale,
            on && value(epf_sigma_custom),
            Binary32 { bits: EPF_BORDER_SAD_MUL },
            spec_read_f16(data, epf_pass2_sigma_scale.1),
        );
        let epf_sigma_for_modular = conditional(
            epf_border_sad_mul,
            on && value(earlier).epf_iters > 0 && nonserialized.encoding == Encoding::Modular,
            Binary32 { bits: EPF_SIGMA_FOR_MODULAR },
            spec_read_f16(data, epf_border_sad_mul.1),
        );
        let extensions = conditional(
            epf_sigma_for_modular,
            on,
            Extensions {  },
            spec_read_extensions(data, epf_sigma_for_modular.1),
        );
        finish(
            extensions,
            RestorationFilterView {
                epf_sigma_custom: value(epf_sigma_custom),
                epf_quant_mul: value(epf_quant_mul),
                epf_pass0_sigma_scale: value(epf_pass0_sigma_scale),
                epf_pass2_sigma_scale: value(epf_pass2_sigma_scale),
                epf_border_sad_mul: value(epf_border_sad_mul),
                epf_sigma_for_modular: value(epf_sigma_for_modular),
                extensions: value(extensions),
                ..value(earlier)
            },
        )
    }

    /// The restoration filter at `pos`, field by field in the order of the
    /// stream. The first bit says whether every field has its default; if it
    /// does, nothing more is read. Else a field is read where the fields
    /// before it and the encoding ask for it, and has its default where they
    /// do not.
    pub open spec fn spec_read(
        data: Seq<u8>,
        pos: nat,
        nonserialized: RestorationFilterNonserialized,
    ) -> Decoded<RestorationFilterView> {
        Self::spec_read_sigma(
            data,
            nonserialized,
            Self::spec_read_epf(data, nonserialized, Self::spec_read_gab(data, pos)),
        )
    }

    /// Reads the first section of the restoration filter.
    fn read_gab(br: &mut BitReader) -> (r: Result<RestorationFilter, Error>)
        ensures
            final(br).data() == old(br).data(),
            (viewed(r), final(br).pos()) == Self::spec_read_gab(old(br).data(), old(br).pos()),
    {
        let filter = RestorationFilter::default();
        let all_default = read_bool(br)?;
        let on = !all_default;
        let gab = read_defaulted_bool(on, true, br)?;
        let gab_custom = read_defaulted_bool(on && gab, false, br)?;
        let gab_x_weight1 = read_defaulted_f16(
            on && gab_custom,
            Binary32 { bits: GAB_WEIGHT1 },
            br,
        )?;
        let gab_x_weight2 = read_defaulted_f16(
            on && gab_custom,
            Binary32 { bits: GAB_WEIGHT2 },
            br,
        )?;
        let gab_y_weight1 = read_defaulted_f16(
            on && gab_custom,
            Binary32 { bits: GAB_WEIGHT1 },
            br,
        )?;
        let gab_y_weight2 = read_defaulted_f16(
            on && gab_custom,
            Binary32 { bits: GAB_WEIGHT2 },
            br,
        )?;
        let gab_b_weight1 = read_defaulted_f16(
            on && gab_custom,
            Binary32 { bits: GAB_WEIGHT1 },
            br,
        )?;
        let gab_b_weight2 = read_defaulted_f16(
            on && gab_custom,
            Binary32 { bits: GAB_WEIGHT2 },
            br,
        )?;
        Ok(RestorationFilter {
            all_default,
            gab,
            gab_custom,
            gab_x_weight1,
            gab_x_weight2,
            gab_y_weight1,
            gab_y_weight2,
            gab_b_weight1,
            gab_b_weight2,
            ..filter
        })
    }

    /// Reads the section of the edge-preserving filter.
    fn read_epf(
        br: &mut BitReader,
        nonserialized: &RestorationFilterNonserialized,
        filter: RestorationFilter,
    ) -> (r: Result<RestorationFilter, Error>)
        ensures
            final(br).data() == old(br).data(),
            (viewed(r), final(br).pos()) == Self::spec_read_epf(
                old(br).data(),
                *nonserialized,
                (Ok(filter@), old(br).pos()),
            ),
    {
        proof {
            lemma2_to64();
        }
        let on = !filter.all_default;
        let epf_iters = U32Coder::Direct(U32::Bits(2)).read_defaulted(on, 2, br)?;
        let epf_sharp_custom = read_defaulted_bool(
            on && epf_iters > 0 && nonserialized.encoding == Encoding::VarDCT,
            false,
            br,
        )?;
        let epf_sharp_lut = read_defaulted_f16_array(
            on && epf_sharp_custom,
            default_sharp_lut(),
            br,
        )?;
        let epf_weight_custom = read_defaulted_bool(on && epf_iters > 0, false, br)?;
        let epf_channel_scale = read_defaulted_f16_array(
            on && epf_weight_custom,
            default_channel_scale(),
            br,
        )?;
        let epf_pass1_zeroflush = read_defaulted_f16(
            on && epf_weight_custom,
            Binary32 { bits: EPF_PASS1_ZEROFLUSH },
            br,
        )?;
        let epf_pass2_zeroflush = read_defaulted_f16(
            on && epf_weight_custom,
            Binary32 { bits: EPF_PASS2_ZEROFLUSH },
            br,
        )?;
        Ok(RestorationFilter {
            epf_iters,
            epf_sharp_custom,
            epf_sharp_lut,
            epf_weight_custom,
            epf_channel_scale,
            epf_pass1_zeroflush,
            epf_pass2_zeroflush,
            ..filter
        })
    }

    /// Reads the last section of the restoration filter.
    fn read_sigma(
        br: &mut BitReader,
        nonserialized: &RestorationFilterNonserialized,
        filter: RestorationFilter,
    ) -> (r: Result<RestorationFilter, Error>)
        ensures
            final(br).data() == old(br).data(),
            (viewed(r), final(br).pos()) == Self::spec_read_sigma(
                old(br).data(),
                *nonserialized,
                (Ok(filter@), old(br).pos()),
            ),
    {
        proof {
            lemma2_to64();
        }
        let on = !filter.all_default;
        let epf_sigma_custom = read_defaulted_bool(on && filter.epf_iters > 0, false, br)?;
        let epf_quant_mul = read_defaulted_f16(
            on && epf_sigma_custom && nonserialized.encoding == Encoding::VarDCT,
            Binary32 { bits: EPF_QUANT_MUL },
            br,
        )?;
        let epf_pass0_sigma_scale = read_defaulted_f16(
            on && epf_sigma_custom,
            Binary32 { bits: EPF_PASS0_SIGMA_SCALE },
            br,
        )?;
        let epf_pass2_sigma_scale = read_defaulted_f16(
            on && epf_sigma_custom,
            Binary32 { bits: EPF_PASS2_SIGMA_SCALE },
            br,
        )?;
        let epf_border_sad_mul = read_defaulted_f16(
            on && epf_sigma_custom,
            Binary32 { bits: EPF_BORDER_SAD_MUL },
            br,
        )?;
        let epf_sigma_for_modular = read_defaulted_f16(
            on && filter.epf_iters > 0 && nonserialized.encoding == Encoding::Modular,
            Binary32 { bits: EPF_SIGMA_FOR_MODULAR },
            br,
        )?;
        let extensions = Extensions::read_defaulted(on, br)?;
        Ok(RestorationFilter {
            epf_sigma_custom,
            epf_quant_mul,
            epf_pass0_sigma_scale,
            epf_pass2_sigma_scale,
            epf_border_sad_mul,
            epf_sigma_for_modular,
            extensions,
            ..filter
        })
    }

    /// Reads the restoration filter where `condition` holds, and yields the
    /// default without moving where it does not.
    pub fn read_defaulted(
        condition: bool,
        br: &mut BitReader,
        nonserialized: &RestorationFilterNonserialized,
    ) -> (r: Result<RestorationFilter, Error>)
        ensures
            final(br).data() == old(br).data(),
            (viewed(r), final(br).pos()) == defaulted(
                condition,
                RestorationFilterView::spec_default(),
                Self::spec_read(old(br).data(), old(br).pos(), *nonserialized),
                old(br).pos(),
            ),
    {
        if condition {
            Self::read_unconditional(&(), br, nonserialized)
        } else {
            Ok(RestorationFilter::default())
        }
    }

    /// Reads the restoration filter.
    pub fn read_unconditional(
        config: &(),
        br: &mut BitReader,
        nonserialized: &RestorationFilterNonserialized,
    ) -> (r: Result<RestorationFilter, Error>)
        ensures
            final(br).data() == old(br).data(),
            (viewed(r), final(br).pos()) == Self::spec_read(
                old(br).data(),
                old(br).pos(),
                *nonserialized,
            ),
    {
        let filter = Self::read_gab(br)?;
        let filter = Self::read_epf(br, nonserialized, filter)?;
        Self::read_sigma(br, nonserialized, filter)
    }

    /// Where the first bit is set, every field has its default, and that bit
    /// is all that is read, whatever follows it in the buffer.
    pub proof fn lemma_all_default(
        data: Seq<u8>,
        pos: nat,
        nonserialized: RestorationFilterNonserialized,
    )
        requires
            spec_read_bool(data, pos) == (Ok::<bool, Error>(true), pos + 1),
        ensures
            Self::spec_read(data, pos, nonserialized) == (
                Ok::<RestorationFilterView, Error>(RestorationFilterView::spec_default()),
                pos + 1,
            ),
    {
    }
}

/// The first section of the restoration filter moves the cursor forward,
/// and not out of the buffer.
pub proof fn lemma_gab_moves_forward(data: Seq<u8>, pos: nat)
    ensures
        forward(data, pos, RestorationFilter::spec_read_gab(data, pos)),
{
}

/// The section of the edge-preserving filter moves the cursor forward, and
/// not out of the buffer.
pub proof fn lemma_epf_moves_forward(
    data: Seq<u8>,
    nonserialized: RestorationFilterNonserialized,
    earlier: Decoded<RestorationFilterView>,
)
    ensures
        forward(data, earlier.1, RestorationFilter::spec_read_epf(data, nonserialized, earlier)),
{
    assert forall|p: nat, count: nat|
        forward(data, p, #[trigger] spec_read_f16s(data, p, count)) by {
        lemma_f16s_move_forward(data, p, count);
    }
}

/// The last section of the restoration filter moves the cursor forward, and
/// not out of the buffer.
pub proof fn lemma_sigma_moves_forward(
    data: Seq<u8>,
    nonserialized: RestorationFilterNonserialized,
    earlier: Decoded<RestorationFilterView>,
)
    ensures
        forward(data, earlier.1, RestorationFilter::spec_read_sigma(data, nonserialized, earlier)),
{
    assert forall|p: nat| forward(data, p, #[trigger] spec_read_extensions(data, p)) by {
        lemma_extensions_move_forward(data, p);
    }
}

/// The restoration filter moves the cursor forward, and not out of the
/// buffer.
pub proof fn lemma_restoration_filter_moves_forward(
    data: Seq<u8>,
    pos: nat,
    nonserialized: RestorationFilterNonserialized,
)
    ensures
        forward(data, pos, RestorationFilter::spec_read(data, pos, nonserialized)),
{
    let gab = RestorationFilter::spec_read_gab(data, pos);
    let epf = RestorationFilter::spec_read_epf(data, nonserialized, gab);
    lemma_gab_moves_forward(data, pos);
    lemma_epf_moves_forward(data, nonserialized, gab);
    lemma_sigma_moves_forward(data, nonserialized, epf);
}

} // verus!
