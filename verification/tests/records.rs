use jxl::bit_reader::BitReader;
use jxl::error::{Error, Tag};
use jxl::headers::binary32::Binary32;
use jxl::headers::blending::{
    is_full_frame, BlendingInfo, BlendingInfoNonserialized, BlendingMode,
};
use jxl::headers::encodings::{U32Coder, U32};
use jxl::headers::extensions::Extensions;
use jxl::headers::extra_channels::ExtraChannelInfo;
use jxl::headers::frame_header::{
    Encoding, Flags, FrameHeader, FrameHeaderNonserialized, FrameType,
};
use jxl::headers::passes::Passes;
use jxl::headers::record::Empty;
use jxl::headers::restoration_filter::{RestorationFilter, RestorationFilterNonserialized};
use jxl::headers::toc::{Permutation, Toc, TocNonserialized};

/// Writes bits in the order in which a reader takes them.
struct BitWriter {
    bytes: Vec<u8>,
    len: usize,
}

impl BitWriter {
    fn new() -> Self {
        BitWriter { bytes: Vec::new(), len: 0 }
    }

    fn put(mut self, n: usize, value: u64) -> Self {
        for i in 0..n {
            if self.len % 8 == 0 {
                self.bytes.push(0);
            }
            let bit = ((value >> i) & 1) as u8;
            *self.bytes.last_mut().unwrap() |= bit << (self.len % 8);
            self.len += 1;
        }
        self
    }

    fn halves(mut self, halves: &[u16]) -> Self {
        for half in halves {
            self = self.put(16, *half as u64);
        }
        self
    }
}

fn position(br: &BitReader) -> usize {
    br.byte_position() * 8 + br.bit_offset()
}

fn number(x: f32) -> Binary32 {
    Binary32 { bits: x.to_bits() }
}

fn read_passes(w: &BitWriter) -> (Result<Passes, Error>, usize) {
    let mut br = BitReader::new(&w.bytes);
    let r = Passes::read_unconditional(&(), &mut br, &Empty {});
    (r, position(&br))
}

#[test]
fn a_single_pass_has_nothing_more() {
    let w = BitWriter::new().put(2, 0).put(14, 0x3FFF);
    assert_eq!(read_passes(&w), (Ok(Passes::default()), 2));
    let default = Passes::default();
    assert_eq!((default.num_passes, default.num_ds), (1, 0));
    assert!(default.shift.is_empty() && default.downsample.is_empty());
    assert!(default.last_pass.is_empty());
}

#[test]
fn several_passes() {
    let w = BitWriter::new()
        .put(2, 2) // three passes
        .put(2, 1) // one of them downsampled
        .put(2, 1)
        .put(2, 2) // the shifts of the first two passes
        .put(2, 2) // downsampling by four
        .put(2, 3)
        .put(3, 5); // the last pass of that downsampling
    let expected = Passes {
        num_passes: 3,
        num_ds: 1,
        shift: vec![1, 2],
        downsample: vec![4],
        last_pass: vec![5],
    };
    assert_eq!(read_passes(&w), (Ok(expected), 15));
}

#[test]
fn the_most_passes() {
    let mut w = BitWriter::new().put(2, 3).put(3, 7).put(2, 3).put(1, 1);
    for i in 0..10 {
        w = w.put(2, i % 4);
    }
    for i in 0..4 {
        w = w.put(2, i);
    }
    for i in 0..4 {
        w = w.put(2, i);
        if i == 3 {
            w = w.put(3, 7);
        }
    }
    let expected = Passes {
        num_passes: 11,
        num_ds: 4,
        shift: vec![0, 1, 2, 3, 0, 1, 2, 3, 0, 1],
        downsample: vec![1, 2, 4, 8],
        last_pass: vec![0, 1, 2, 7],
    };
    assert_eq!(read_passes(&w), (Ok(expected), 5 + 3 + 20 + 8 + 8 + 3));
}

#[test]
fn truncated_passes() {
    // Two passes are announced, and the buffer ends.
    let w = BitWriter::new().put(6, 0).put(2, 1);
    let mut br = BitReader::new(&w.bytes);
    br.skip_bits(6).unwrap();
    assert_eq!(Passes::read_unconditional(&(), &mut br, &Empty {}), Err(Error::OutOfBounds));
    assert_eq!(position(&br), 8);
    // One downsampled pass is announced; its shift is there, its
    // downsampling is not.
    let w = BitWriter::new().put(2, 1).put(2, 1).put(2, 3).put(2, 0);
    let mut br = BitReader::new(&w.bytes);
    assert_eq!(Passes::read_unconditional(&(), &mut br, &Empty {}), Err(Error::OutOfBounds));
    assert_eq!(position(&br), 8);
    assert_eq!(Passes::read_defaulted(false, &mut br), Ok(Passes::default()));
}

fn cropped(num_extra_channels: u32) -> BlendingInfoNonserialized {
    BlendingInfoNonserialized {
        num_extra_channels,
        have_crop: true,
        x0: 1,
        y0: 0,
        width: 10,
        height: 10,
        img_width: 10,
        img_height: 10,
    }
}

fn read_blending(
    w: &BitWriter,
    context: &BlendingInfoNonserialized,
) -> (Result<BlendingInfo, Error>, usize) {
    let mut br = BitReader::new(&w.bytes);
    let r = BlendingInfo::read_unconditional(&(), &mut br, context);
    (r, position(&br))
}

#[test]
fn full_frames() {
    assert!(is_full_frame(false, 5, 5, 0, 0, 10, 10));
    assert!(is_full_frame(true, 0, 0, 10, 10, 10, 10));
    assert!(is_full_frame(true, 0, 0, 11, 12, 10, 10));
    assert!(!is_full_frame(true, 0, 0, 9, 10, 10, 10));
    assert!(!is_full_frame(true, 0, 0, 10, 9, 10, 10));
    assert!(!is_full_frame(true, 1, 0, 10, 10, 10, 10));
    assert!(!is_full_frame(true, 0, -1, 10, 10, 10, 10));
    assert!(is_full_frame(true, 0, 0, u32::MAX, u32::MAX, u32::MAX, u32::MAX));
}

#[test]
fn blending_that_replaces_reads_only_the_mode() {
    let w = BitWriter::new().put(2, 0).put(6, 0x3F);
    assert_eq!(read_blending(&w, &cropped(3)), (Ok(BlendingInfo::default()), 2));
    let default = BlendingInfo::default();
    assert_eq!(default.mode, BlendingMode::Replace);
    assert_eq!((default.alpha_channel, default.clamp, default.source), (0, false, 0));
}

#[test]
fn blending_with_alpha() {
    let w = BitWriter::new().put(2, 2).put(2, 3).put(3, 4).put(1, 1).put(2, 3);
    let expected =
        BlendingInfo { mode: BlendingMode::Blend, alpha_channel: 7, clamp: true, source: 3 };
    assert_eq!(read_blending(&w, &cropped(1)), (Ok(expected), 10));

    // Without extra channels there is no alpha channel and no clamping.
    let w = BitWriter::new().put(2, 2).put(2, 1);
    let expected =
        BlendingInfo { mode: BlendingMode::Blend, alpha_channel: 0, clamp: false, source: 1 };
    assert_eq!(read_blending(&w, &cropped(0)), (Ok(expected), 4));

    // A frame that covers the image has no source.
    let full = BlendingInfoNonserialized { x0: 0, ..cropped(1) };
    let w = BitWriter::new().put(2, 3).put(2, 0).put(2, 1).put(1, 0).put(1, 1);
    let expected = BlendingInfo {
        mode: BlendingMode::AlphaWeightedAdd,
        alpha_channel: 1,
        clamp: false,
        source: 0,
    };
    assert_eq!(read_blending(&w, &full), (Ok(expected), 7));
}

#[test]
fn blending_that_adds_or_multiplies() {
    let w = BitWriter::new().put(2, 1).put(2, 2);
    let expected =
        BlendingInfo { mode: BlendingMode::Add, alpha_channel: 0, clamp: false, source: 2 };
    assert_eq!(read_blending(&w, &cropped(2)), (Ok(expected), 4));

    let w = BitWriter::new().put(2, 3).put(2, 1).put(1, 1).put(2, 0);
    let expected =
        BlendingInfo { mode: BlendingMode::Mul, alpha_channel: 0, clamp: true, source: 0 };
    assert_eq!(read_blending(&w, &cropped(2)), (Ok(expected), 7));
}

#[test]
fn a_blending_mode_that_is_none() {
    let w = BitWriter::new().put(2, 3).put(2, 2).put(4, 0);
    assert_eq!(
        read_blending(&w, &cropped(1)),
        (Err(Error::InvalidEnum(5, Tag::BlendingMode)), 4)
    );
    let w = BitWriter::new().put(2, 3).put(2, 3).put(4, 0);
    assert_eq!(
        read_blending(&w, &cropped(1)),
        (Err(Error::InvalidEnum(6, Tag::BlendingMode)), 4)
    );
    assert_eq!(BlendingMode::from_u32(4), Some(BlendingMode::Mul));
    assert_eq!(BlendingMode::from_u32(5), None);
}

#[test]
fn blending_of_each_channel() {
    let w = BitWriter::new().put(2, 0).put(2, 1).put(2, 3).put(2, 0);
    let mut br = BitReader::new(&w.bytes);
    let full = BlendingInfoNonserialized { x0: 0, ..cropped(0) };
    let infos = BlendingInfo::read_defaulted_vec(2, true, BlendingInfo::default(), &mut br, &full);
    let add = BlendingInfo { mode: BlendingMode::Add, ..BlendingInfo::default() };
    assert_eq!(infos, Ok(vec![BlendingInfo::default(), add]));
    assert_eq!(position(&br), 4);
    let infos = BlendingInfo::read_defaulted_vec(3, false, add, &mut br, &full);
    assert_eq!(infos, Ok(vec![add, add, add]));
    assert_eq!(position(&br), 4);
    let infos = BlendingInfo::read_defaulted_vec(3, true, add, &mut br, &full);
    assert_eq!(infos, Err(Error::OutOfBounds));
    assert_eq!(BlendingInfo::read_defaulted(false, add, &mut br, &full), Ok(add));
}

fn read_filter(w: &BitWriter, encoding: Encoding) -> (Result<RestorationFilter, Error>, usize) {
    let mut br = BitReader::new(&w.bytes);
    let r = RestorationFilter::read_unconditional(
        &(),
        &mut br,
        &RestorationFilterNonserialized { encoding },
    );
    (r, position(&br))
}

#[test]
fn a_default_restoration_filter_is_one_bit() {
    for rest in [0u64, 0x7F, 0x2A] {
        let w = BitWriter::new().put(1, 1).put(7, rest).put(16, 0xFFFF);
        assert_eq!(read_filter(&w, Encoding::VarDCT), (Ok(RestorationFilter::default()), 1));
        assert_eq!(read_filter(&w, Encoding::Modular), (Ok(RestorationFilter::default()), 1));
    }
}

#[test]
fn a_restoration_filter_without_filters() {
    let w = BitWriter::new().put(1, 0).put(1, 0).put(2, 0).put(2, 0);
    let expected = RestorationFilter {
        all_default: false,
        gab: false,
        epf_iters: 0,
        ..RestorationFilter::default()
    };
    assert_eq!(read_filter(&w, Encoding::VarDCT), (Ok(expected), 6));
}

#[test]
fn a_restoration_filter_with_everything_of_its_own() {
    let w = BitWriter::new()
        .put(1, 0)
        .put(1, 1)
        .put(1, 1)
        .halves(&[0x3C00, 0x4000, 0x4200, 0x4400, 0x4500, 0x4600])
        .put(2, 3)
        .put(1, 1)
        .halves(&[0x0000, 0x3800, 0x3C00, 0x3E00, 0x4000, 0x4100, 0x4200, 0x4300])
        .put(1, 1)
        .halves(&[0x4800, 0x4880, 0x4900])
        .halves(&[0x3400, 0x3000])
        .put(1, 1)
        .halves(&[0x2C00])
        .halves(&[0xBC00, 0x7BFF, 0x0001])
        .put(2, 0);
    let expected = RestorationFilter {
        all_default: false,
        gab: true,
        gab_custom: true,
        gab_x_weight1: number(1.0),
        gab_x_weight2: number(2.0),
        gab_y_weight1: number(3.0),
        gab_y_weight2: number(4.0),
        gab_b_weight1: number(5.0),
        gab_b_weight2: number(6.0),
        epf_iters: 3,
        epf_sharp_custom: true,
        epf_sharp_lut: [0.0, 0.5, 1.0, 1.5, 2.0, 2.5, 3.0, 3.5].map(number),
        epf_weight_custom: true,
        epf_channel_scale: [8.0, 9.0, 10.0].map(number),
        epf_pass1_zeroflush: number(0.25),
        epf_pass2_zeroflush: number(0.125),
        epf_sigma_custom: true,
        epf_quant_mul: number(0.0625),
        epf_pass0_sigma_scale: number(-1.0),
        epf_pass2_sigma_scale: number(65504.0),
        epf_border_sad_mul: number(5.960464477539063e-08),
        epf_sigma_for_modular: number(1.0),
        extensions: Extensions {},
    };
    let len = 3 + 96 + 3 + 128 + 1 + 80 + 1 + 64 + 2;
    assert_eq!(read_filter(&w, Encoding::VarDCT), (Ok(expected), len));
}

#[test]
fn a_restoration_filter_of_a_modular_frame() {
    // No table of sharpness and no multiplier of the quantization, but a
    // sigma of its own.
    let w = BitWriter::new()
        .put(1, 0)
        .put(1, 1)
        .put(1, 0)
        .put(2, 1)
        .put(1, 0)
        .put(1, 1)
        .halves(&[0x4000, 0x4200, 0x4400])
        .halves(&[0x3E00])
        .put(2, 0);
    let expected = RestorationFilter {
        all_default: false,
        epf_iters: 1,
        epf_sigma_custom: true,
        epf_pass0_sigma_scale: number(2.0),
        epf_pass2_sigma_scale: number(3.0),
        epf_border_sad_mul: number(4.0),
        epf_sigma_for_modular: number(1.5),
        ..RestorationFilter::default()
    };
    assert_eq!(read_filter(&w, Encoding::Modular), (Ok(expected), 7 + 48 + 16 + 2));
}

#[test]
fn a_truncated_restoration_filter() {
    let w = BitWriter::new().put(1, 0).put(1, 1).put(1, 1).put(5, 0).put(8, 0);
    let (r, _) = read_filter(&w, Encoding::VarDCT);
    assert_eq!(r, Err(Error::OutOfBounds));
    let mut br = BitReader::new(&[]);
    let context = RestorationFilterNonserialized { encoding: Encoding::VarDCT };
    assert_eq!(
        RestorationFilter::read_defaulted(false, &mut br, &context),
        Ok(RestorationFilter::default())
    );
    assert_eq!(
        RestorationFilter::read_defaulted(true, &mut br, &context),
        Err(Error::OutOfBounds)
    );
}

fn read_toc(w: &BitWriter, num_entries: u32) -> (Result<Toc, Error>, usize) {
    let mut br = BitReader::new(&w.bytes);
    let context = TocNonserialized { permuted: true, num_entries, entries: vec![1, 2, 3] };
    let r = Toc::read_unconditional(&(), &mut br, &context);
    (r, position(&br))
}

#[test]
fn a_table_of_contents_with_entries_of_every_length() {
    let w = BitWriter::new()
        .put(1, 0)
        .put(2, 0)
        .put(10, 1023)
        .put(2, 1)
        .put(14, 0)
        .put(2, 2)
        .put(22, 1)
        .put(2, 3)
        .put(30, 0x3FFF_FFFF);
    let expected = Toc {
        permuted: false,
        permutation: Permutation {},
        entries: vec![1023, 1024, 17409, 4211712 + 0x3FFF_FFFF],
    };
    assert_eq!(read_toc(&w, 4), (Ok(expected), 1 + 12 + 16 + 24 + 32));
}

#[test]
fn the_sections_of_a_frame_together() {
    let toc = |entries: Vec<u32>| Toc { permuted: false, permutation: Permutation {}, entries };
    assert_eq!(toc(vec![]).total_size(), Some(0));
    assert_eq!(toc(vec![7]).total_size(), Some(7));
    assert_eq!(toc(vec![1023, 1024, 17409, 0]).total_size(), Some(19456));
    assert_eq!(toc(vec![u32::MAX, u32::MAX]).total_size(), (u32::MAX as usize).checked_mul(2));
    let many = vec![u32::MAX; 5];
    let sum = many.iter().try_fold(0usize, |sum, size| sum.checked_add(*size as usize));
    assert_eq!(toc(many).total_size(), sum);
}

#[test]
fn a_table_of_contents_without_entries() {
    let w = BitWriter::new().put(1, 1).put(7, 0x55);
    let expected = Toc { permuted: true, permutation: Permutation {}, entries: vec![] };
    assert_eq!(read_toc(&w, 0), (Ok(expected), 1));
    assert_eq!(read_toc(&BitWriter::new(), 0).0, Err(Error::OutOfBounds));
}

#[test]
fn a_truncated_table_of_contents() {
    let w = BitWriter::new().put(1, 0).put(2, 0).put(10, 7).put(2, 1).put(1, 0);
    assert_eq!(read_toc(&w, 2), (Err(Error::OutOfBounds), 15));
    let mut br = BitReader::new(&w.bytes);
    assert_eq!(
        Permutation::read_unconditional(&(), &mut br, &Empty {}),
        Ok(Permutation::default())
    );
    assert_eq!(position(&br), 0);
}

fn context(num_extra_channels: u32) -> FrameHeaderNonserialized {
    FrameHeaderNonserialized {
        xyb_encoded: true,
        num_extra_channels,
        extra_channel_info: vec![ExtraChannelInfo { dim_shift: 0 }; num_extra_channels as usize],
        have_animation: false,
        have_timecode: false,
        img_width: 512,
        img_height: 256,
    }
}

fn all_default(num_extra_channels: usize) -> FrameHeader {
    FrameHeader {
        all_default: true,
        frame_type: FrameType::RegularFrame,
        encoding: Encoding::VarDCT,
        flags: 0,
        do_ycbcr: false,
        jpeg_upsampling: [0, 0, 0],
        upsampling: 1,
        ec_upsampling: vec![1; num_extra_channels],
        group_size_shift: 1,
        x_qm_scale: 3,
        b_qm_scale: 2,
        passes: Passes::default(),
        lf_level: 0,
        have_crop: false,
        x0: 0,
        y0: 0,
        width: 0,
        height: 0,
        blending_info: BlendingInfo::default(),
        ec_blending_info: vec![BlendingInfo::default(); num_extra_channels],
        duration: 0,
        timecode: 0,
        is_last: true,
        save_as_reference: 0,
        save_before_ct: false,
        name: String::new(),
        restoration_filter: RestorationFilter::default(),
        extensions: Extensions {},
    }
}

fn read_header(
    w: &BitWriter,
    context: &FrameHeaderNonserialized,
) -> (Result<FrameHeader, Error>, usize) {
    let mut br = BitReader::new(&w.bytes);
    let r = FrameHeader::read_unconditional(&(), &mut br, context);
    (r, position(&br))
}

#[test]
fn a_default_header_is_one_bit_behind_the_byte_boundary() {
    for rest in [0u64, 0x7F, 0x15] {
        let w = BitWriter::new().put(8, 0xFF).put(1, 1).put(7, rest).put(32, 0xDEAD_BEEF);
        let mut br = BitReader::new(&w.bytes);
        br.skip_bits(3).unwrap();
        let header = FrameHeader::read_unconditional(&(), &mut br, &context(2));
        assert_eq!(header, Ok(all_default(2)));
        assert_eq!(position(&br), 9);
        let mut br = BitReader::new(&w.bytes);
        br.skip_bits(8).unwrap();
        let header = FrameHeader::read_unconditional(&(), &mut br, &context(0));
        assert_eq!(header, Ok(all_default(0)));
        assert_eq!(position(&br), 9);
    }
    // Nothing of the context changes what is read.
    let w = BitWriter::new().put(1, 1);
    let busy = FrameHeaderNonserialized {
        xyb_encoded: false,
        have_animation: true,
        have_timecode: true,
        ..context(1)
    };
    assert_eq!(read_header(&w, &busy), (Ok(all_default(1)), 1));
}

/// A header that uses most of what a header can hold.
fn busy_header() -> (BitWriter, FrameHeaderNonserialized, FrameHeader) {
    let w = BitWriter::new()
        .put(1, 0)
        .put(2, 2)
        .put(4, 1) // a frame that skips progressive rendering
        .put(1, 1) // modular
        .put(2, 1)
        .put(4, 0) // flags: noise
        .put(1, 1) // YCbCr
        .put(2, 1)
        .put(2, 2)
        .put(2, 3) // the subsampling of the three channels
        .put(2, 1) // upsampling by two
        .put(2, 1)
        .put(2, 2) // the upsampling of the two extra channels
        .put(2, 3) // group size shift
        .put(2, 1)
        .put(2, 1)
        .put(2, 2)
        .put(2, 0)
        .put(2, 0) // passes
        .put(1, 1) // crop
        .put(2, 0)
        .put(8, 5) // x0
        .put(2, 0)
        .put(8, 4) // y0
        .put(2, 1)
        .put(11, 100) // width
        .put(2, 0)
        .put(8, 200) // height
        .put(2, 1)
        .put(2, 2) // blending: add, from source 2
        .put(2, 0) // first extra channel: replace
        .put(2, 2)
        .put(2, 3)
        .put(3, 4)
        .put(1, 1)
        .put(2, 1) // second extra channel: blend
        .put(2, 2)
        .put(8, 77) // duration
        .put(32, 0xDEAD_BEEF) // timecode
        .put(1, 0) // not the last frame
        .put(2, 2) // saved as reference 2
        .put(1, 1) // saved before the color transform
        .put(2, 1)
        .put(4, 2)
        .put(8, b'h' as u64)
        .put(8, b'i' as u64) // name
        .put(1, 1) // restoration filter
        .put(2, 0); // extensions
    let context = FrameHeaderNonserialized {
        xyb_encoded: false,
        have_animation: true,
        have_timecode: true,
        ..context(2)
    };
    let header = FrameHeader {
        all_default: false,
        frame_type: FrameType::SkipProgressive,
        encoding: Encoding::Modular,
        flags: Flags::ENABLE_NOISE,
        do_ycbcr: true,
        jpeg_upsampling: [1, 2, 3],
        upsampling: 2,
        ec_upsampling: vec![2, 4],
        group_size_shift: 3,
        x_qm_scale: 3,
        b_qm_scale: 2,
        passes: Passes {
            num_passes: 2,
            num_ds: 1,
            shift: vec![2],
            downsample: vec![1],
            last_pass: vec![0],
        },
        lf_level: 0,
        have_crop: true,
        x0: -3,
        y0: 2,
        width: 356,
        height: 200,
        blending_info: BlendingInfo {
            mode: BlendingMode::Add,
            alpha_channel: 0,
            clamp: false,
            source: 2,
        },
        ec_blending_info: vec![
            BlendingInfo::default(),
            BlendingInfo { mode: BlendingMode::Blend, alpha_channel: 7, clamp: true, source: 1 },
        ],
        duration: 77,
        timecode: 0xDEAD_BEEF,
        is_last: false,
        save_as_reference: 2,
        save_before_ct: true,
        name: String::from("hi"),
        restoration_filter: RestorationFilter::default(),
        extensions: Extensions {},
    };
    (w, context, header)
}

#[test]
fn a_header_that_uses_most_of_what_a_header_can_hold() {
    let (w, context, header) = busy_header();
    let len = w.len;
    assert_eq!(read_header(&w, &context), (Ok(header), len));
}

#[test]
fn the_table_of_contents_follows_the_header() {
    let (w, context, _) = busy_header();
    let w = w.put(1, 0).put(2, 0).put(10, 9).put(2, 0).put(10, 8).put(2, 1).put(14, 7);
    let mut br = BitReader::new(&w.bytes);
    let header = FrameHeader::read_unconditional(&(), &mut br, &context).unwrap();
    assert_eq!(header.check(&context), Ok(()));
    let num_entries = header.num_toc_entries();
    assert_eq!(num_entries, 3);
    let toc = Toc::read_unconditional(
        &(),
        &mut br,
        &TocNonserialized { permuted: false, num_entries, entries: vec![] },
    );
    let expected =
        Toc { permuted: false, permutation: Permutation {}, entries: vec![9, 8, 1024 + 7] };
    assert_eq!(toc, Ok(expected));
    assert_eq!(position(&br), w.len);
}

#[test]
fn every_prefix_of_a_header_is_truncated() {
    let (w, context, header) = busy_header();
    for len in 0..w.bytes.len() {
        let mut br = BitReader::new(&w.bytes[..len]);
        assert_eq!(
            FrameHeader::read_unconditional(&(), &mut br, &context),
            Err(Error::OutOfBounds)
        );
    }
    let mut br = BitReader::new(&w.bytes);
    assert_eq!(FrameHeader::read_unconditional(&(), &mut br, &context), Ok(header));
}

#[test]
fn a_frame_type_that_is_none() {
    let w = BitWriter::new().put(1, 0).put(2, 2).put(4, 2).put(9, 0);
    assert_eq!(read_header(&w, &context(0)), (Err(Error::InvalidEnum(4, Tag::FrameType)), 7));
    let w = BitWriter::new().put(1, 0).put(2, 3).put(6, 0).put(7, 0);
    assert_eq!(read_header(&w, &context(0)), (Err(Error::InvalidEnum(18, Tag::FrameType)), 9));
    assert_eq!(FrameType::from_u32(3), Some(FrameType::SkipProgressive));
    assert_eq!(FrameType::from_u32(4), None);
    assert_eq!(Encoding::from_u32(1), Some(Encoding::Modular));
    assert_eq!(Encoding::from_u32(2), None);
}

#[test]
fn an_encoding_that_is_none() {
    // In a header the encoding is a single bit, and each of its values is an
    // encoding; under a wider coding a code can be none.
    let w = BitWriter::new().put(2, 2).put(6, 0);
    let mut br = BitReader::new(&w.bytes);
    let wide = U32Coder::Direct(U32::Bits(2));
    assert_eq!(
        Encoding::read_defaulted(&wide, true, Encoding::VarDCT, &mut br),
        Err(Error::InvalidEnum(2, Tag::Encoding))
    );
    assert_eq!(position(&br), 2);
    assert_eq!(
        Encoding::read_defaulted(&wide, true, Encoding::VarDCT, &mut br),
        Ok(Encoding::VarDCT)
    );
    assert_eq!(
        Encoding::read_defaulted(&wide, false, Encoding::Modular, &mut br),
        Ok(Encoding::Modular)
    );
    assert_eq!(position(&br), 4);
    assert_eq!(
        FrameType::read_defaulted(&wide, false, FrameType::LFFrame, &mut br),
        Ok(FrameType::LFFrame)
    );
}

#[test]
fn a_low_frequency_frame() {
    let w = BitWriter::new()
        .put(1, 0)
        .put(2, 1) // a low-frequency frame
        .put(1, 0) // VarDCT
        .put(2, 0) // no flags
        .put(2, 0) // no upsampling
        .put(3, 5)
        .put(3, 6) // the scales of the quantization matrices
        .put(2, 0) // one pass
        .put(2, 2) // level 3
        .put(2, 0) // no name
        .put(1, 1) // restoration filter
        .put(2, 0); // extensions
    let expected = FrameHeader {
        all_default: false,
        frame_type: FrameType::LFFrame,
        x_qm_scale: 5,
        b_qm_scale: 6,
        lf_level: 3,
        is_last: false,
        ..all_default(0)
    };
    assert_eq!(read_header(&w, &context(0)), (Ok(expected), 23));
}

#[test]
fn a_frame_that_uses_a_low_frequency_frame() {
    let w = BitWriter::new()
        .put(1, 0)
        .put(2, 0) // a regular frame
        .put(1, 1) // modular
        .put(2, 2)
        .put(8, 15) // flags: uses a low-frequency frame
        .put(1, 1) // YCbCr; the subsampling and the upsampling are not there
        .put(2, 0) // group size shift
        .put(2, 0) // one pass
        .put(1, 0) // no crop
        .put(2, 0) // blending
        .put(2, 0)
        .put(2, 0)
        .put(2, 0) // blending of the three extra channels
        .put(1, 1) // the last frame
        .put(1, 0) // not saved before the color transform
        .put(2, 0) // no name
        .put(1, 1) // restoration filter
        .put(2, 0); // extensions
    let context = FrameHeaderNonserialized { xyb_encoded: false, ..context(3) };
    let expected = FrameHeader {
        all_default: false,
        encoding: Encoding::Modular,
        flags: Flags::USE_LF_FRAME,
        do_ycbcr: true,
        group_size_shift: 0,
        ..all_default(3)
    };
    assert_eq!(read_header(&w, &context), (Ok(expected), 35));
}

#[test]
fn a_frame_that_is_only_referenced() {
    let w = BitWriter::new()
        .put(1, 0)
        .put(2, 2)
        .put(4, 0) // only referenced
        .put(1, 0) // VarDCT
        .put(2, 0) // no flags
        .put(2, 3) // upsampling by eight
        .put(3, 0)
        .put(3, 7) // the scales of the quantization matrices
        .put(1, 1) // crop: only the size is there
        .put(2, 0)
        .put(8, 16)
        .put(2, 2)
        .put(14, 0)
        .put(2, 1) // saved as reference 1
        .put(1, 0) // not saved before the color transform
        .put(2, 0) // no name
        .put(1, 1) // restoration filter
        .put(2, 0); // extensions
    let expected = FrameHeader {
        all_default: false,
        frame_type: FrameType::ReferenceOnly,
        upsampling: 8,
        x_qm_scale: 0,
        b_qm_scale: 7,
        have_crop: true,
        width: 16,
        height: 2304,
        is_last: false,
        save_as_reference: 1,
        ..all_default(0)
    };
    assert_eq!(read_header(&w, &context(0)), (Ok(expected), 53));
}

#[test]
fn a_header_that_fails_the_check_is_refused() {
    // Upsampling by four, and an extra channel whose upsampling by one,
    // shifted up once, stays below it.
    let w = BitWriter::new()
        .put(1, 0)
        .put(2, 0)
        .put(1, 0)
        .put(2, 0)
        .put(2, 2) // upsampling by four
        .put(2, 0) // extra channel: upsampling by one
        .put(3, 3)
        .put(3, 2)
        .put(2, 0) // one pass
        .put(1, 0) // no crop
        .put(2, 0)
        .put(2, 0) // blending
        .put(1, 1) // the last frame
        .put(1, 0)
        .put(2, 0)
        .put(1, 1)
        .put(2, 0);
    let mut context = context(1);
    context.extra_channel_info = vec![ExtraChannelInfo { dim_shift: 1 }];
    assert_eq!(read_header(&w, &context), (Err(Error::InvalidEcUpsampling(4, 1, 1)), 30));
    context.extra_channel_info = vec![ExtraChannelInfo { dim_shift: 2 }];
    let (header, end) = read_header(&w, &context);
    assert_eq!(end, 30);
    assert_eq!(header.unwrap().ec_upsampling, vec![1]);

    // Two passes, and two of them downsampled.
    let w = BitWriter::new()
        .put(1, 0)
        .put(2, 0)
        .put(1, 0)
        .put(2, 0)
        .put(2, 0)
        .put(3, 3)
        .put(3, 2)
        .put(2, 1)
        .put(2, 2)
        .put(2, 0)
        .put(2, 0)
        .put(2, 0)
        .put(2, 0)
        .put(2, 0) // passes
        .put(1, 0)
        .put(2, 0)
        .put(1, 1)
        .put(1, 0)
        .put(2, 0)
        .put(1, 1)
        .put(2, 0);
    assert_eq!(read_header(&w, &self::context(0)), (Err(Error::NumPassesTooLarge(2, 2)), 38));
}
