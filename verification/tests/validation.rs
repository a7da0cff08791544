use jxl::error::Error;
use jxl::headers::blending::BlendingInfo;
use jxl::headers::extensions::Extensions;
use jxl::headers::extra_channels::ExtraChannelInfo;
use jxl::headers::frame_header::{Encoding, FrameHeader, FrameHeaderNonserialized, FrameType};
use jxl::headers::passes::Passes;
use jxl::headers::restoration_filter::RestorationFilter;

fn header() -> FrameHeader {
    FrameHeader {
        all_default: false,
        frame_type: FrameType::RegularFrame,
        encoding: Encoding::VarDCT,
        flags: 0,
        do_ycbcr: false,
        jpeg_upsampling: [0, 0, 0],
        upsampling: 1,
        ec_upsampling: vec![],
        group_size_shift: 1,
        x_qm_scale: 3,
        b_qm_scale: 2,
        passes: Passes::default(),
        lf_level: 0,
        have_crop: false,
        x0: 0,
        y0: 0,
        width: 0,
        height: 0,
        blending_info: BlendingInfo::default(),
        ec_blending_info: vec![],
        duration: 0,
        timecode: 0,
        is_last: true,
        save_as_reference: 0,
        save_before_ct: false,
        name: String::new(),
        restoration_filter: RestorationFilter::default(),
        extensions: Extensions {},
    }
}

fn context(dim_shifts: &[u32]) -> FrameHeaderNonserialized {
    FrameHeaderNonserialized {
        xyb_encoded: true,
        num_extra_channels: dim_shifts.len() as u32,
        extra_channel_info: dim_shifts
            .iter()
            .map(|dim_shift| ExtraChannelInfo { dim_shift: *dim_shift })
            .collect(),
        have_animation: false,
        have_timecode: false,
        img_width: 64,
        img_height: 64,
    }
}

fn with_passes(num_ds: u32, num_passes: u32) -> FrameHeader {
    let mut h = header();
    h.passes.num_ds = num_ds;
    h.passes.num_passes = num_passes;
    h
}

fn with_upsampling(upsampling: u32, ec_upsampling: &[u32]) -> FrameHeader {
    let mut h = header();
    h.upsampling = upsampling;
    h.ec_upsampling = ec_upsampling.to_vec();
    h
}

#[test]
fn fewer_passes_are_downsampled_than_there_are() {
    for num_passes in 0..12 {
        for num_ds in 0..12 {
            let expected = if num_ds >= num_passes {
                Err(Error::NumPassesTooLarge(num_ds, num_passes))
            } else {
                Ok(())
            };
            assert_eq!(with_passes(num_ds, num_passes).check(&context(&[])), expected);
        }
    }
    assert_eq!(with_passes(0, 0).check(&context(&[])), Err(Error::NumPassesTooLarge(0, 0)));
    assert_eq!(
        with_passes(u32::MAX, u32::MAX).check(&context(&[])),
        Err(Error::NumPassesTooLarge(u32::MAX, u32::MAX))
    );
    assert_eq!(with_passes(u32::MAX - 1, u32::MAX).check(&context(&[])), Ok(()));
}

#[test]
fn the_upsampling_of_each_extra_channel_fits() {
    for upsampling in [2u32, 4, 8] {
        for dim_shift in 0..5u32 {
            for ec_upsampling in [0u32, 1, 2, 4, 8, 9, 16] {
                let fails = (ec_upsampling << dim_shift) < upsampling || ec_upsampling > 8;
                let expected = if fails {
                    Err(Error::InvalidEcUpsampling(upsampling, dim_shift, ec_upsampling))
                } else {
                    Ok(())
                };
                let h = with_upsampling(upsampling, &[ec_upsampling]);
                assert_eq!(h.check(&context(&[dim_shift])), expected);
            }
        }
    }
}

#[test]
fn without_upsampling_the_extra_channels_are_not_looked_at() {
    assert_eq!(with_upsampling(1, &[16, 0, 9]).check(&context(&[0, 0, 0])), Ok(()));
    assert_eq!(with_upsampling(0, &[100]).check(&context(&[0])), Ok(()));
}

#[test]
fn the_first_extra_channel_that_does_not_fit_is_named() {
    let h = with_upsampling(4, &[4, 2, 1, 9]);
    assert_eq!(h.check(&context(&[0, 0, 1, 0])), Err(Error::InvalidEcUpsampling(4, 0, 2)));
    assert_eq!(h.check(&context(&[0, 1, 1, 0])), Err(Error::InvalidEcUpsampling(4, 1, 1)));
    assert_eq!(h.check(&context(&[0, 1, 2, 0])), Err(Error::InvalidEcUpsampling(4, 0, 9)));
    assert_eq!(h.check(&context(&[0, 1, 2, 3])), Err(Error::InvalidEcUpsampling(4, 3, 9)));
    // Only channels that have both a description and an upsampling count.
    assert_eq!(h.check(&context(&[0, 1, 2])), Ok(()));
    assert_eq!(with_upsampling(4, &[4]).check(&context(&[0, 0, 0])), Ok(()));
    assert_eq!(with_upsampling(4, &[]).check(&context(&[0])), Ok(()));
}

#[test]
fn a_large_dimension_shift_loses_nothing() {
    assert_eq!(with_upsampling(u32::MAX, &[1]).check(&context(&[32])), Ok(()));
    assert_eq!(with_upsampling(u32::MAX, &[8]).check(&context(&[29])), Ok(()));
    assert_eq!(
        with_upsampling(u32::MAX, &[1]).check(&context(&[31])),
        Err(Error::InvalidEcUpsampling(u32::MAX, 31, 1))
    );
    assert_eq!(with_upsampling(2, &[1]).check(&context(&[u32::MAX])), Ok(()));
    assert_eq!(
        with_upsampling(2, &[0]).check(&context(&[u32::MAX])),
        Err(Error::InvalidEcUpsampling(2, u32::MAX, 0))
    );
}

#[test]
fn the_extra_channels_are_checked_before_the_passes() {
    let mut h = with_upsampling(2, &[1]);
    h.passes.num_ds = 3;
    h.passes.num_passes = 2;
    assert_eq!(h.check(&context(&[0])), Err(Error::InvalidEcUpsampling(2, 0, 1)));
    assert_eq!(h.check(&context(&[1])), Err(Error::NumPassesTooLarge(3, 2)));
    let mut h = with_upsampling(2, &[1]);
    h.passes.num_passes = 2;
    // Fewer passes are downsampled than there are, and still the check fails.
    assert_eq!(h.check(&context(&[0])), Err(Error::InvalidEcUpsampling(2, 0, 1)));
}

fn sized(width: u32, height: u32, group_size_shift: u32, jpeg_upsampling: [u32; 3]) -> FrameHeader {
    let mut h = header();
    h.have_crop = true;
    h.width = width;
    h.height = height;
    h.group_size_shift = group_size_shift;
    h.jpeg_upsampling = jpeg_upsampling;
    h
}

#[test]
fn a_single_group_in_a_single_pass_is_one_entry() {
    assert_eq!(sized(256, 256, 1, [0, 0, 0]).num_toc_entries(), 1);
    assert_eq!(sized(1, 1, 1, [0, 0, 0]).num_toc_entries(), 1);
    assert_eq!(sized(128, 128, 0, [0, 0, 0]).num_toc_entries(), 1);
    assert_eq!(sized(1024, 1024, 3, [1, 2, 3]).num_toc_entries(), 1);
    let mut h = sized(256, 256, 1, [0, 0, 0]);
    h.passes.num_passes = 2;
    assert_eq!(h.num_toc_entries(), 3);
}

#[test]
fn else_two_entries_and_one_for_each_group_of_the_low_frequency_image() {
    // Two groups side by side; 33 blocks in one group of the low-frequency
    // image.
    assert_eq!(sized(257, 256, 1, [0, 0, 0]).num_toc_entries(), 3);
    assert_eq!(sized(129, 1, 0, [0, 0, 0]).num_toc_entries(), 3);
    // 8200 by 8200 pixels are 1025 by 1025 blocks, more than a group of 1024
    // blocks a side.
    assert_eq!(sized(8200, 8200, 3, [0, 0, 0]).num_toc_entries(), 2 + 4);
    assert_eq!(sized(8192, 8200, 3, [0, 0, 0]).num_toc_entries(), 2 + 2);
    assert_eq!(sized(8192, 8192, 3, [0, 0, 0]).num_toc_entries(), 2 + 1);
    // 16392 pixels are 2049 blocks: three groups of 1024, nine of 256,
    // seventeen of 128.
    assert_eq!(sized(16392, 16392, 3, [0, 0, 0]).num_toc_entries(), 2 + 9);
    assert_eq!(sized(16392, 1, 1, [0, 0, 0]).num_toc_entries(), 2 + 9);
    assert_eq!(sized(16392, 16392, 0, [0, 0, 0]).num_toc_entries(), 2 + 17 * 17);
}

#[test]
fn without_a_rectangle_there_is_no_group() {
    assert_eq!(header().num_toc_entries(), 2);
    assert_eq!(sized(0, 100, 1, [0, 0, 0]).num_toc_entries(), 2);
}

#[test]
fn subsampled_channels_count_whole_subsampled_blocks() {
    // 1025 pixels are 129 blocks of eight, in two groups of 128; counted in
    // blocks of sixteen they are 130 blocks, still in two groups.
    assert_eq!(sized(1025, 1, 0, [0, 0, 0]).num_toc_entries(), 2 + 2);
    assert_eq!(sized(1025, 1, 0, [2, 0, 0]).num_toc_entries(), 2 + 2);
    assert_eq!(sized(1024, 1, 0, [0, 0, 0]).num_toc_entries(), 2 + 1);
    assert_eq!(sized(1024, 1, 0, [0, 1, 0]).num_toc_entries(), 2 + 1);
    assert_eq!(sized(8193, 1, 3, [0, 0, 0]).num_toc_entries(), 2 + 2);
    assert_eq!(sized(16376, 1, 3, [0, 0, 0]).num_toc_entries(), 2 + 2);
    assert_eq!(sized(16377, 1, 3, [0, 0, 2]).num_toc_entries(), 2 + 2);
    assert_eq!(sized(16385, 1, 3, [0, 0, 2]).num_toc_entries(), 2 + 3);
    assert_eq!(sized(1, 16385, 3, [0, 0, 3]).num_toc_entries(), 2 + 3);
    assert_eq!(sized(16385, 16385, 3, [1, 0, 0]).num_toc_entries(), 2 + 9);
    assert_eq!(sized(8388609, 1, 3, [2, 0, 0]).num_toc_entries(), 2 + 1025);
}

#[test]
fn the_count_of_entries_where_it_can_be_had() {
    assert_eq!(sized(257, 256, 1, [0, 0, 0]).checked_num_toc_entries(), Some(3));
    assert_eq!(header().checked_num_toc_entries(), Some(2));
    assert_eq!(sized(257, 256, 4, [0, 0, 0]).checked_num_toc_entries(), None);
    assert_eq!(sized(257, 256, 1, [0, 4, 0]).checked_num_toc_entries(), None);
    assert!(sized(257, 256, 3, [3, 3, 3]).is_wf());
    assert!(!sized(257, 256, 1, [0, 0, 4]).is_wf());
    // The largest rectangle has 2^22 by 2^22 groups of the low-frequency
    // image at the smallest group size, and 2^19 by 2^19 at the largest:
    // more than 32 bits count.
    assert_eq!(sized(u32::MAX, u32::MAX, 0, [0, 0, 0]).checked_num_toc_entries(), None);
    assert_eq!(sized(u32::MAX, u32::MAX, 3, [0, 0, 0]).checked_num_toc_entries(), None);
    assert_eq!(sized(u32::MAX, 8192, 3, [0, 0, 0]).checked_num_toc_entries(), Some(2 + 524288));
    assert_eq!(sized(u32::MAX, 1, 0, [0, 0, 0]).checked_num_toc_entries(), Some(2 + 4194304));
}
