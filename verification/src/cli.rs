//! What a command-line decoder decides: how an incremental decoding goes on,
//! how the buffers of a frame are laid out, and in which format an image is
//! written.

use crate::error::Error;
use crate::image::{plane_samples, planes_from_interleaved, Image};
use vstd::prelude::*;
use vstd::string::StringSliceAdditionalSpecFns;

verus! {

/// A color profile, held in its ICC form.
#[derive(Debug, PartialEq, Eq)]
pub struct JxlColorProfile {
    pub icc: Vec<u8>,
}

/// The precision of the samples of an image.
#[derive(Clone, Copy, Debug, PartialEq, Eq, Structural)]
pub struct JxlBitDepth {
    pub bits_per_sample: u32,
}

/// The channels of one decoded frame: the color channels first, then the
/// extra channels.
pub struct ImageFrame<T> {
    pub channels: Vec<Image<T>>,
}

/// A decoded image: its frames, its color profiles and the precision it was
/// stored in.
pub struct ImageData<T> {
    pub size: (usize, usize),
    pub frames: Vec<ImageFrame<T>>,
    pub embedded_profile: JxlColorProfile,
    pub output_profile: JxlColorProfile,
    pub original_bit_depth: JxlBitDepth,
}

/// How far an incremental decoder has come: nothing is known yet, the image
/// is known, the next frame is known, or the last frame has been decoded.
#[derive(Clone, Copy, Debug, PartialEq, Eq, Structural)]
pub enum DecoderState {
    Initialized,
    HasImageInfo,
    HasFrameInfo,
    Finished,
}

/// What one run of an incremental decoder gave: it completed its step, or it
/// ran out of input before it could.
#[derive(Clone, Copy, Debug, PartialEq, Eq, Structural)]
pub enum ProcessingResult {
    Complete,
    NeedsMoreInput,
}

/// Whether a failed decode may succeed once more of the input is there: the
/// buffer ended before the record did. Any other failure says that the
/// stream is malformed.
pub fn needs_more_input(error: Error) -> (r: bool)
    ensures
        r == (error == Error::OutOfBounds),
{
    match error {
        Error::OutOfBounds => true,
        _ => false,
    }
}

/// The state that follows `state` once a run of the decoder has given
/// `result`, or `None` where the source is truncated. A decoder that needs
/// more input is run again in the same state as long as there is input, and
/// the source is truncated when there is none. A completed step leads from
/// the start to the image, from the image to a frame, and from a frame back
/// to the image while frames follow, else to the end.
pub open spec fn spec_next_state(
    state: DecoderState,
    result: ProcessingResult,
    input_is_empty: bool,
    has_more_frames: bool,
) -> Option<DecoderState> {
    match result {
        ProcessingResult::NeedsMoreInput => if input_is_empty {
            None
        } else {
            Some(state)
        },
        ProcessingResult::Complete => match state {
            DecoderState::Initialized => Some(DecoderState::HasImageInfo),
            DecoderState::HasImageInfo => Some(DecoderState::HasFrameInfo),
            DecoderState::HasFrameInfo => if has_more_frames {
                Some(DecoderState::HasImageInfo)
            } else {
                Some(DecoderState::Finished)
            },
            DecoderState::Finished => Some(DecoderState::Finished),
        },
    }
}

/// Decides how the decoding goes on after a run of the decoder.
pub fn next_state(
    state: DecoderState,
    result: ProcessingResult,
    input_is_empty: bool,
    has_more_frames: bool,
) -> (next: Option<DecoderState>)
    ensures
        next == spec_next_state(state, result, input_is_empty, has_more_frames),
{
    match result {
        ProcessingResult::NeedsMoreInput => if input_is_empty {
            None
        } else {
            Some(state)
        },
        ProcessingResult::Complete => match state {
            DecoderState::Initialized => Some(DecoderState::HasImageInfo),
            DecoderState::HasImageInfo => Some(DecoderState::HasFrameInfo),
            DecoderState::HasFrameInfo => if has_more_frames {
                Some(DecoderState::HasImageInfo)
            } else {
                Some(DecoderState::Finished)
            },
            DecoderState::Finished => Some(DecoderState::Finished),
        },
    }
}

/// A decoder that has not finished and still has input never stops: only a
/// source without input is truncated, and no state follows the end but the
/// end.
pub proof fn lemma_next_state_laws(
    state: DecoderState,
    result: ProcessingResult,
    input_is_empty: bool,
    has_more_frames: bool,
)
    ensures
        spec_next_state(state, result, input_is_empty, has_more_frames) is None <==> result
            == ProcessingResult::NeedsMoreInput && input_is_empty,
        state == DecoderState::Finished ==> spec_next_state(
            state,
            result,
            input_is_empty,
            has_more_frames,
        ) != Some(DecoderState::Initialized) && spec_next_state(
            state,
            result,
            input_is_empty,
            has_more_frames,
        ) != Some(DecoderState::HasImageInfo) && spec_next_state(
            state,
            result,
            input_is_empty,
            has_more_frames,
        ) != Some(DecoderState::HasFrameInfo),
{
}

/// The number of samples that a pixel has in the buffer of the color
/// channels: one for a grayscale image, else three.
pub open spec fn spec_samples_per_pixel(grayscale: bool) -> nat {
    if grayscale {
        1
    } else {
        3
    }
}

/// The sizes of the buffers that a frame is decoded into: one for the color
/// channels, whose rows hold every sample of a pixel, and one for each extra
/// channel.
pub open spec fn spec_output_sizes(
    size: (usize, usize),
    grayscale: bool,
    extra_channels: nat,
) -> Seq<(usize, usize)> {
    seq![((size.0 * spec_samples_per_pixel(grayscale)) as usize, size.1)] + Seq::new(
        extra_channels,
        |i: int| size,
    )
}

/// The sizes of the buffers that a frame is decoded into, or `None` where
/// the rows of the color buffer would be longer than the machine can count.
pub fn output_sizes(size: (usize, usize), grayscale: bool, extra_channels: usize) -> (sizes:
    Option<Vec<(usize, usize)>>)
    ensures
        match sizes {
            Some(sizes) => size.0 * spec_samples_per_pixel(grayscale) <= usize::MAX && sizes@
                == spec_output_sizes(size, grayscale, extra_channels as nat),
            None => size.0 * spec_samples_per_pixel(grayscale) > usize::MAX,
        },
{
    let samples_per_pixel: usize = if grayscale {
        1
    } else {
        3
    };
    match size.0.checked_mul(samples_per_pixel) {
        Some(row) => {
            let mut sizes: Vec<(usize, usize)> = Vec::new();
            sizes.push((row, size.1));
            let mut i: usize = 0;
            while i < extra_channels
                invariant
                    i <= extra_channels,
                    row == size.0 * spec_samples_per_pixel(grayscale),
                    sizes@ =~= spec_output_sizes(size, grayscale, i as nat),
                decreases extra_channels - i,
            {
                sizes.push(size);
                i = i + 1;
            }
            Some(sizes)
        },
        None => None,
    }
}

/// The channels of a frame from the buffers that it was decoded into. The
/// buffers of a grayscale frame are its channels. Else the first buffer
/// holds three color planes, sample by sample in turn; they are taken apart,
/// and the buffers of the extra channels follow them.
pub fn assemble_frame<T: Copy>(outputs: Vec<Image<T>>, grayscale: bool) -> (frame: ImageFrame<T>)
    requires
        outputs@.len() > 0,
    ensures
        grayscale ==> frame.channels@ == outputs@,
        !grayscale ==> {
            &&& frame.channels@.len() == outputs@.len() + 2
            &&& forall|plane: int|
                0 <= plane < 3 ==> (#[trigger] frame.channels@[plane]).spec_size() == (
                    outputs@[0].spec_size().0 / 3,
                    outputs@[0].spec_size().1,
                ) && frame.channels@[plane].samples() == plane_samples(
                    outputs@[0].samples(),
                    outputs@[0].spec_size(),
                    plane,
                )
            &&& forall|i: int|
                1 <= i < outputs@.len() ==> #[trigger] frame.channels@[i + 2] == outputs@[i]
        },
{
    if grayscale {
        ImageFrame { channels: outputs }
    } else {
        let mut rest = outputs;
        let interleaved = rest.remove(0);
        let mut channels = planes_from_interleaved(&interleaved);
        channels.append(&mut rest);
        ImageFrame { channels }
    }
}

/// The formats that a decoded image can be written in.
#[derive(Clone, Copy, Debug, PartialEq, Eq, Structural)]
pub enum OutputFormat {
    Exr,
    Ppm,
    Pgm,
    Npy,
    Png,
}

/// Whether a name ends with a suffix, byte by byte.
pub open spec fn ends_with(name: Seq<u8>, suffix: Seq<u8>) -> bool {
    suffix.len() <= name.len() && name.subrange(name.len() - suffix.len(), name.len() as int)
        == suffix
}

/// Whether `name` ends with `suffix`.
fn has_suffix(name: &[u8], suffix: &[u8]) -> (r: bool)
    ensures
        r == ends_with(name@, suffix@),
{
    if suffix.len() > name.len() {
        return false;
    }
    let start: usize = name.len() - suffix.len();
    let mut i: usize = 0;
    while i < suffix.len()
        invariant
            i <= suffix@.len(),
            start + suffix@.len() == name@.len() <= usize::MAX,
            forall|k: int| 0 <= k < i ==> name@[start + k] == suffix@[k],
        decreases suffix.len() - i,
    {
        if name[start + i] != suffix[i] {
            assert(name@.subrange(start as int, name@.len() as int)[i as int] != suffix@[i as int]);
            return false;
        }
        i = i + 1;
    }
    assert(name@.subrange(start as int, name@.len() as int) =~= suffix@);
    true
}

/// The bytes of `.exr`.
pub open spec fn exr_suffix() -> Seq<u8> {
    seq![0x2eu8, 0x65u8, 0x78u8, 0x72u8]
}

/// The bytes of `.ppm`.
pub open spec fn ppm_suffix() -> Seq<u8> {
    seq![0x2eu8, 0x70u8, 0x70u8, 0x6du8]
}

/// The bytes of `.pgm`.
pub open spec fn pgm_suffix() -> Seq<u8> {
    seq![0x2eu8, 0x70u8, 0x67u8, 0x6du8]
}

/// The bytes of `.npy`.
pub open spec fn npy_suffix() -> Seq<u8> {
    seq![0x2eu8, 0x6eu8, 0x70u8, 0x79u8]
}

/// The bytes of `.png`.
pub open spec fn png_suffix() -> Seq<u8> {
    seq![0x2eu8, 0x70u8, 0x6eu8, 0x67u8]
}

/// Whether an image is a single frame of exactly `channels` channels.
pub open spec fn single_frame_of<T>(frames: Seq<ImageFrame<T>>, channels: nat) -> bool {
    frames.len() == 1 && frames[0].channels@.len() == channels
}

/// The format that an image is written in to a file of the given name, if
/// any. The end of the name decides, and the first of the known endings that
/// fits: `.exr`, `.ppm`, `.pgm`, `.npy`, `.png`. A `.ppm` file takes a single
/// frame of three channels, a `.pgm` file a single frame of one channel, and
/// no other format stands in for them.
pub open spec fn spec_output_format<T>(name: Seq<u8>, frames: Seq<ImageFrame<T>>) -> Option<
    OutputFormat,
> {
    if ends_with(name, exr_suffix()) {
        Some(OutputFormat::Exr)
    } else if ends_with(name, ppm_suffix()) {
        if single_frame_of(frames, 3) {
            Some(OutputFormat::Ppm)
        } else {
            None
        }
    } else if ends_with(name, pgm_suffix()) {
        if single_frame_of(frames, 1) {
            Some(OutputFormat::Pgm)
        } else {
            None
        }
    } else if ends_with(name, npy_suffix()) {
        Some(OutputFormat::Npy)
    } else if ends_with(name, png_suffix()) {
        Some(OutputFormat::Png)
    } else {
        None
    }
}

/// Chooses the format that an image is written in to a file of the given
/// name.
pub fn output_format<T>(file_name: &str, image_data: &ImageData<T>) -> (format: Option<
    OutputFormat,
>)
    ensures
        format == spec_output_format(file_name.spec_bytes(), image_data.frames@),
{
    let name = file_name.as_bytes();
    let exr = [0x2eu8, 0x65u8, 0x78u8, 0x72u8];
    let ppm = [0x2eu8, 0x70u8, 0x70u8, 0x6du8];
    let pgm = [0x2eu8, 0x70u8, 0x67u8, 0x6du8];
    let npy = [0x2eu8, 0x6eu8, 0x70u8, 0x79u8];
    let png = [0x2eu8, 0x70u8, 0x6eu8, 0x67u8];
    assert(exr@ =~= exr_suffix());
    assert(ppm@ =~= ppm_suffix());
    assert(pgm@ =~= pgm_suffix());
    assert(npy@ =~= npy_suffix());
    assert(png@ =~= png_suffix());
    if has_suffix(name, exr.as_slice()) {
        Some(OutputFormat::Exr)
    } else if has_suffix(name, ppm.as_slice()) {
        if image_data.frames.len() == 1 && image_data.frames[0].channels.len() == 3 {
            Some(OutputFormat::Ppm)
        } else {
            None
        }
    } else if has_suffix(name, pgm.as_slice()) {
        if image_data.frames.len() == 1 && image_data.frames[0].channels.len() == 1 {
            Some(OutputFormat::Pgm)
        } else {
            None
        }
    } else if has_suffix(name, npy.as_slice()) {
        Some(OutputFormat::Npy)
    } else if has_suffix(name, png.as_slice()) {
        Some(OutputFormat::Png)
    } else {
        None
    }
}

} // verus!
