use jxl::bit_reader::BitReader;
use jxl::error::Error;
use jxl::headers::blending::BlendingInfo;
use jxl::headers::binary32::{read_f16, Binary32};
use jxl::headers::encodings::{read_bool, U32, U32Coder};
use jxl::headers::extensions::Extensions;
use jxl::headers::record::Empty;
use jxl::headers::strings::read_string;
use jxl::headers::extra_channels::ExtraChannelInfo;
use jxl::headers::frame_header::{Encoding, FrameHeader, FrameHeaderNonserialized, FrameType};
use jxl::headers::passes::Passes;
use jxl::headers::restoration_filter::RestorationFilter;
use jxl::headers::toc::{Permutation, Toc, TocNonserialized};

const BASIC: &[u8] = b"\xFF\x0A\x00\x90\x01\x00\x12\x88\x02\x00\xD4\x00\x55\x0F\x00\x00\xA8\x50\x19\x65\xDC\xE0\xE5\x5C\xCF\x97\x1F\x3A\x2C\xA6\x6D\x5C\x67\x68\xAB\x6D\x0B\x4B\x12\x45\xC6\xB1\x49\x3A\x81\x43\x92\x58\x04\x36\x2E\x98\x07\x18\x00\x86\x99\x03\x27\x33\x50\xE4\x4A\x12\x00";

const EXTRA_CHANNEL: &[u8] = b"\xFF\x0A\x41\xC0\x4A\x08\x10\x10\x00\xE4\x01\x4B\x28\x36\x56\x1F\xDC\x4B\x28\x98\x10\x01\x55\x21\xC4\x30\x06\x50\x87\x61\xAB\x2A\xB2\x17\x03\x02\xA0\x97\xCC\x08\x00\xC3\x63\x80\x49\x66\x12\x04\x78\x2C\xD6\x89\x53\xEF\xF9\x15\xFC\xD1\x6B\xC4\xF3\xC0\x0E\xA9\x8D\xB6\x16\x4E\x5C\x70\x06\xE2\x07\x12\x62\xEC\x6C\xBE\x7C\x16\xDC\x72\xCE\xF3\xC1\xA2\xE2\x0A\xC8\xF9\xA1\x8C\xDA\xCF\xE3\xE8\x27\xDA\x66\xE2\xD6\x20\x2A\x38\xC1\xF7\xD0\x66\xED\xD2\xE0\x04\x42\x3A\x2A\x99\x2C\x12\x19\x9D\x9E\x83\x28\x54\x81\x55\x83\x3D\x69\x00\x1D\x03";

fn select(d0: U32, d1: U32, d2: U32, d3: U32, br: &mut BitReader) -> u32 {
    U32Coder::Select(d0, d1, d2, d3).read(br).unwrap()
}

fn bits(n: usize) -> U32 {
    U32::Bits(n)
}

fn above(n: usize, off: u32) -> U32 {
    U32::BitsOffset { n, off }
}

fn tag(br: &mut BitReader) -> u32 {
    select(U32::Val(0), U32::Val(1), above(4, 2), above(6, 18), br)
}

fn flag(br: &mut BitReader) -> bool {
    read_bool(br).unwrap()
}

fn raw(n: usize, br: &mut BitReader) -> u32 {
    br.read_bits(n).unwrap() as u32
}

fn read_side(small: bool, br: &mut BitReader) -> u32 {
    if small {
        (raw(5, br) + 1) * 8
    } else {
        select(above(9, 1), above(13, 1), above(18, 1), above(30, 1), br)
    }
}

/// The size of the image: its width and its height.
fn read_size(br: &mut BitReader) -> (u32, u32) {
    let small = flag(br);
    let ysize = read_side(small, br);
    let ratio = raw(3, br);
    let xsize = match ratio {
        0 => read_side(small, br),
        1 => ysize,
        2 => (ysize as u64 * 12 / 10) as u32,
        3 => (ysize as u64 * 4 / 3) as u32,
        4 => (ysize as u64 * 3 / 2) as u32,
        5 => (ysize as u64 * 16 / 9) as u32,
        6 => (ysize as u64 * 5 / 4) as u32,
        _ => ysize * 2,
    };
    (xsize, ysize)
}

fn read_bit_depth(br: &mut BitReader) {
    if flag(br) {
        select(U32::Val(32), U32::Val(16), U32::Val(24), above(6, 1), br);
        raw(4, br);
    } else {
        select(U32::Val(8), U32::Val(10), U32::Val(12), above(6, 1), br);
    }
}

fn read_extra_channel(br: &mut BitReader) -> ExtraChannelInfo {
    if flag(br) {
        return ExtraChannelInfo { dim_shift: 0 };
    }
    let kind = tag(br);
    read_bit_depth(br);
    let dim_shift = select(U32::Val(0), U32::Val(3), U32::Val(4), above(3, 1), br);
    read_string(br).unwrap();
    if kind == 0 {
        flag(br);
    }
    if kind == 2 {
        for _ in 0..4 {
            read_f16(br).unwrap();
        }
    }
    if kind == 5 {
        select(U32::Val(1), bits(2), above(4, 3), above(8, 19), br);
    }
    ExtraChannelInfo { dim_shift }
}

fn read_xy(br: &mut BitReader) {
    for _ in 0..2 {
        select(bits(19), above(19, 524288), above(20, 1048576), above(21, 2097152), br);
    }
}

fn read_color_encoding(br: &mut BitReader) {
    if flag(br) {
        return;
    }
    let want_icc = flag(br);
    assert!(!want_icc);
    let color_space = tag(br);
    if color_space != 2 {
        if tag(br) == 2 {
            read_xy(br);
        }
        if color_space != 1 && tag(br) == 2 {
            for _ in 0..3 {
                read_xy(br);
            }
        }
    }
    if flag(br) {
        raw(24, br);
    } else {
        tag(br);
    }
    tag(br);
}

/// Reads the headers of the image, up to the first frame, and gives the
/// context of its frame headers.
fn read_file_headers(br: &mut BitReader) -> FrameHeaderNonserialized {
    assert_eq!(raw(16, br), 0x0AFF);
    let (img_width, img_height) = read_size(br);
    let mut context = FrameHeaderNonserialized {
        xyb_encoded: true,
        num_extra_channels: 0,
        extra_channel_info: vec![],
        have_animation: false,
        have_timecode: false,
        img_width,
        img_height,
    };
    if !flag(br) {
        let extra_fields = flag(br);
        if extra_fields {
            raw(3, br);
            if flag(br) {
                read_size(br);
            }
            let have_preview = flag(br);
            assert!(!have_preview);
            context.have_animation = flag(br);
            if context.have_animation {
                select(U32::Val(100), U32::Val(1000), above(10, 1), above(30, 1), br);
                select(U32::Val(1), U32::Val(1001), above(8, 1), above(10, 1), br);
                select(U32::Val(0), bits(3), bits(16), bits(32), br);
                context.have_timecode = flag(br);
            }
        }
        read_bit_depth(br);
        flag(br);
        context.num_extra_channels = select(U32::Val(0), U32::Val(1), above(4, 2), above(12, 1), br);
        for _ in 0..context.num_extra_channels {
            context.extra_channel_info.push(read_extra_channel(br));
        }
        context.xyb_encoded = flag(br);
        read_color_encoding(br);
        if extra_fields && !flag(br) {
            read_f16(br).unwrap();
            read_f16(br).unwrap();
            flag(br);
            read_f16(br).unwrap();
        }
        Extensions::read_unconditional(&(), br, &Empty {}).unwrap();
    }
    let default_transform = flag(br);
    assert!(default_transform);
    context
}

fn read_headers(image: &[u8]) -> Result<(FrameHeader, Toc), Error> {
    let mut br = BitReader::new(image);
    let context = read_file_headers(&mut br);
    let frame_header = FrameHeader::read_unconditional(&(), &mut br, &context).unwrap();
    let toc = Toc::read_unconditional(
        &(),
        &mut br,
        &TocNonserialized { permuted: false, num_entries: 0, entries: [].to_vec() },
    )
    .unwrap();
    Ok((frame_header, toc))
}

fn test_toc(image: &[u8], correct_toc: Toc) {
    let (_frame_header, toc) = read_headers(image).unwrap();
    assert_eq!(correct_toc, toc);
}

fn test_frame_header(image: &[u8], correct_frame_header: FrameHeader) {
    let (frame_header, _toc) = read_headers(image).unwrap();
    assert_eq!(correct_frame_header, frame_header);
}

#[test]
fn file_headers_of_the_reference_streams() {
    let mut br = BitReader::new(BASIC);
    let context = read_file_headers(&mut br);
    assert_eq!((context.img_width, context.img_height), (1, 1));
    assert!(context.xyb_encoded);
    assert_eq!(context.num_extra_channels, 0);
    assert_eq!(br.byte_position() * 8 + br.bit_offset(), 33);

    let mut br = BitReader::new(EXTRA_CHANNEL);
    let context = read_file_headers(&mut br);
    assert_eq!((context.img_width, context.img_height), (8, 8));
    assert!(!context.xyb_encoded);
    assert_eq!(context.extra_channel_info, vec![ExtraChannelInfo { dim_shift: 0 }]);
    assert_eq!(br.byte_position() * 8 + br.bit_offset(), 39);
}

#[test]
fn permutation() {
    // One bit that says that the sections are permuted, then two entries:
    // selector 0 with ten bits that hold 5, selector 1 with fourteen bits
    // that hold 3.
    let bytes = [0b0010_1001u8, 0b1010_0000, 0b0000_0001, 0b0000_0000];
    let mut br = BitReader::new(&bytes);
    let toc = Toc::read_unconditional(
        &(),
        &mut br,
        &TocNonserialized { permuted: false, num_entries: 2, entries: [].to_vec() },
    )
    .unwrap();
    assert!(toc.permuted);
    assert_eq!(toc.permutation, Permutation::default());
    assert_eq!(toc.entries, vec![5, 1024 + 3]);
    assert_eq!(br.byte_position() * 8 + br.bit_offset(), 1 + 12 + 16);
}

#[test]
fn basic_toc() {
    test_toc(
        BASIC,
        Toc { permuted: false, permutation: Permutation::default(), entries: [].to_vec() },
    );
}

#[test]
fn basic_frame_header() {
    test_frame_header(
        BASIC,
        FrameHeader {
            all_default: false,
            frame_type: FrameType::RegularFrame,
            encoding: Encoding::VarDCT,
            flags: 0,
            do_ycbcr: false,
            jpeg_upsampling: [0, 0, 0],
            upsampling: 1,
            ec_upsampling: vec![],
            group_size_shift: 1,
            x_qm_scale: 2,
            b_qm_scale: 2,
            passes: Passes::default(),
            lf_level: 0,
            have_crop: false,
            x0: 0,
            y0: 0,
            width: 0,
            height: 0,
            blending_info: BlendingInfo::default(),
            ec_blending_info: vec![],
            duration: 0,
            timecode: 0,
            is_last: true,
            save_as_reference: 0,
            save_before_ct: false,
            name: String::from(""),
            restoration_filter: RestorationFilter::default(),
            extensions: Extensions::default(),
        },
    );
}

#[test]
fn extra_channel() {
    test_frame_header(
        EXTRA_CHANNEL,
        FrameHeader {
            all_default: false,
            frame_type: FrameType::RegularFrame,
            encoding: Encoding::Modular,
            flags: 0,
            do_ycbcr: false,
            jpeg_upsampling: [0, 0, 0],
            upsampling: 1,
            ec_upsampling: vec![1],
            group_size_shift: 2,
            x_qm_scale: 3,
            b_qm_scale: 2,
            passes: Passes::default(),
            lf_level: 0,
            have_crop: false,
            x0: 0,
            y0: 0,
            width: 0,
            height: 0,
            blending_info: BlendingInfo::default(),
            ec_blending_info: vec![BlendingInfo::default()],
            duration: 0,
            timecode: 0,
            is_last: true,
            save_as_reference: 0,
            save_before_ct: false,
            name: String::from(""),
            restoration_filter: RestorationFilter {
                all_default: false,
                gab: false,
                epf_iters: 0,
                ..RestorationFilter::default()
            },
            extensions: Extensions::default(),
        },
    );
}

#[test]
fn restoration_filter_defaults_are_the_documented_numbers() {
    let filter = RestorationFilter::default();
    let number = |b: Binary32| f32::from_bits(b.bits);
    assert!(filter.all_default && filter.gab && !filter.gab_custom);
    assert_eq!(number(filter.gab_x_weight1), 0.115169525);
    assert_eq!(number(filter.gab_x_weight2), 0.061248592);
    assert_eq!(number(filter.gab_y_weight1), 0.115169525);
    assert_eq!(number(filter.gab_y_weight2), 0.061248592);
    assert_eq!(number(filter.gab_b_weight1), 0.115169525);
    assert_eq!(number(filter.gab_b_weight2), 0.061248592);
    assert_eq!(filter.epf_iters, 2);
    let lut: Vec<f32> = filter.epf_sharp_lut.iter().map(|b| number(*b)).collect();
    assert_eq!(
        lut,
        vec![0.0, 1.0 / 7.0, 2.0 / 7.0, 3.0 / 7.0, 4.0 / 7.0, 5.0 / 7.0, 6.0 / 7.0, 1.0]
    );
    let scale: Vec<f32> = filter.epf_channel_scale.iter().map(|b| number(*b)).collect();
    assert_eq!(scale, vec![40.0, 5.0, 3.5]);
    assert_eq!(number(filter.epf_pass1_zeroflush), 0.45);
    assert_eq!(number(filter.epf_pass2_zeroflush), 0.6);
    assert_eq!(number(filter.epf_quant_mul), 0.46);
    assert_eq!(number(filter.epf_pass0_sigma_scale), 0.9);
    assert_eq!(number(filter.epf_pass2_sigma_scale), 6.5);
    assert_eq!(number(filter.epf_border_sad_mul), 2.0 / 3.0);
    assert_eq!(number(filter.epf_sigma_for_modular), 1.0);
}
