//! How many entries the table of contents of a frame has.

use crate::bit_reader::lemma_pow2_at_most;
use crate::headers::frame_header::{FrameHeader, FrameHeaderView};
use vstd::arithmetic::power2::{lemma2_to64, pow2};
use vstd::prelude::*;

verus! {

/// By how many powers of two a channel is narrower than the image under a
/// chroma subsampling mode.
pub open spec fn h_shift(mode: u32) -> nat {
    if mode == 1 || mode == 2 {
        1
    } else {
        0
    }
}

/// By how many powers of two a channel is lower than the image under a
/// chroma subsampling mode.
pub open spec fn v_shift(mode: u32) -> nat {
    if mode == 1 || mode == 3 {
        1
    } else {
        0
    }
}

/// The quotient of `a` by `b`, rounded up.
pub open spec fn div_ceil(a: nat, b: nat) -> nat {
    ((a + b - 1) / b as int) as nat
}

/// The larger of two numbers.
pub open spec fn larger(a: nat, b: nat) -> nat {
    if a >= b {
        a
    } else {
        b
    }
}

impl FrameHeaderView {
    /// The largest horizontal shift of the three color channels.
    pub open spec fn max_h_shift(self) -> nat {
        larger(
            h_shift(self.jpeg_upsampling[0]),
            larger(h_shift(self.jpeg_upsampling[1]), h_shift(self.jpeg_upsampling[2])),
        )
    }

    /// The largest vertical shift of the three color channels.
    pub open spec fn max_v_shift(self) -> nat {
        larger(
            v_shift(self.jpeg_upsampling[0]),
            larger(v_shift(self.jpeg_upsampling[1]), v_shift(self.jpeg_upsampling[2])),
        )
    }

    /// The side of a group in pixels, and of a group of the low-frequency
    /// image in blocks: 128, shifted up by the group size shift.
    pub open spec fn group_dim(self) -> nat {
        128 * pow2(self.group_size_shift as nat)
    }

    /// The number of groups that cover the frame's rectangle.
    pub open spec fn num_groups(self) -> nat {
        div_ceil(self.width as nat, self.group_dim()) * div_ceil(
            self.height as nat,
            self.group_dim(),
        )
    }

    /// The width of the frame's rectangle in blocks of eight pixels, counted
    /// in whole subsampled blocks.
    pub open spec fn xsize_blocks(self) -> nat {
        div_ceil(self.width as nat, 8 * pow2(self.max_h_shift())) * pow2(self.max_h_shift())
    }

    /// The height of the frame's rectangle in blocks of eight pixels, counted
    /// in whole subsampled blocks.
    pub open spec fn ysize_blocks(self) -> nat {
        div_ceil(self.height as nat, 8 * pow2(self.max_v_shift())) * pow2(self.max_v_shift())
    }

    /// The number of groups that cover the low-frequency image of the
    /// frame's rectangle.
    pub open spec fn num_dc_groups(self) -> nat {
        div_ceil(self.xsize_blocks(), self.group_dim()) * div_ceil(
            self.ysize_blocks(),
            self.group_dim(),
        )
    }

    /// The number of entries of the table of contents that follows the
    /// header: one where a single group is decoded in a single pass, else two
    /// and one more for each group of the low-frequency image.
    pub open spec fn spec_num_toc_entries(self) -> nat {
        if self.num_groups() == 1 && self.passes.num_passes == 1 {
            1
        } else {
            2 + self.num_dc_groups()
        }
    }
}

/// The quotient of `a` by `b`, rounded up.
fn div_ceil_u64(a: u64, b: u64, least: u64) -> (q: u64)
    requires
        1 <= least <= b,
        a + b <= u64::MAX,
    ensures
        q == div_ceil(a as nat, b as nat),
        q <= (a + b - 1) / least as int,
{
    proof {
        vstd::arithmetic::div_mod::lemma_div_is_ordered_by_denominator(
            a + b - 1,
            least as int,
            b as int,
        );
    }
    (a + b - 1) / b
}

/// The horizontal shift of a chroma subsampling mode.
fn h_shift_of(mode: u32) -> (shift: u64)
    ensures
        shift == h_shift(mode),
{
    if mode == 1 || mode == 2 {
        1
    } else {
        0
    }
}

/// The vertical shift of a chroma subsampling mode.
fn v_shift_of(mode: u32) -> (shift: u64)
    ensures
        shift == v_shift(mode),
{
    if mode == 1 || mode == 3 {
        1
    } else {
        0
    }
}

/// The larger of two numbers.
fn larger_of(a: u64, b: u64) -> (m: u64)
    ensures
        m == larger(a as nat, b as nat),
{
    if a >= b {
        a
    } else {
        b
    }
}

impl FrameHeader {
    /// The number of entries, in 64 bits, which hold it whatever the header
    /// holds.
    fn count_toc_entries(&self) -> (n: u64)
        requires
            self@.wf(),
        ensures
            n == self@.spec_num_toc_entries(),
    {
        proof {
            lemma2_to64();
            lemma_pow2_at_most(self.group_size_shift as nat, 3);
            vstd::arithmetic::power2::lemma_pow2_pos(self.group_size_shift as nat);
            vstd::bits::lemma_u64_shl_is_mul(128, self.group_size_shift as u64);
        }
        let maxhs = larger_of(
            h_shift_of(self.jpeg_upsampling[0]),
            larger_of(h_shift_of(self.jpeg_upsampling[1]), h_shift_of(self.jpeg_upsampling[2])),
        );
        let maxvs = larger_of(
            v_shift_of(self.jpeg_upsampling[0]),
            larger_of(v_shift_of(self.jpeg_upsampling[1]), v_shift_of(self.jpeg_upsampling[2])),
        );
        let h_scale: u64 = if maxhs == 1 {
            2
        } else {
            1
        };
        let v_scale: u64 = if maxvs == 1 {
            2
        } else {
            1
        };
        let group_dim: u64 = 128u64 << (self.group_size_shift as u64);
        let xsize_units = div_ceil_u64(self.width as u64, 8 * h_scale, 8);
        let ysize_units = div_ceil_u64(self.height as u64, 8 * v_scale, 8);
        assert(xsize_units * h_scale <= 0x4000_0004) by (nonlinear_arith)
            requires
                xsize_units <= 0x2000_0002,
                h_scale <= 2,
        ;
        assert(ysize_units * v_scale <= 0x4000_0004) by (nonlinear_arith)
            requires
                ysize_units <= 0x2000_0002,
                v_scale <= 2,
        ;
        let xsize_blocks = xsize_units * h_scale;
        let ysize_blocks = ysize_units * v_scale;
        let xsize_groups = div_ceil_u64(self.width as u64, group_dim, 128);
        let ysize_groups = div_ceil_u64(self.height as u64, group_dim, 128);
        let xsize_dc_groups = div_ceil_u64(xsize_blocks, group_dim, 128);
        let ysize_dc_groups = div_ceil_u64(ysize_blocks, group_dim, 128);
        assert(xsize_groups * ysize_groups <= 0x400_0000 * 0x400_0000) by (nonlinear_arith)
            requires
                xsize_groups <= 0x400_0000,
                ysize_groups <= 0x400_0000,
        ;
        assert(xsize_dc_groups * ysize_dc_groups <= 0x400_0000 * 0x400_0000) by (nonlinear_arith)
            requires
                xsize_dc_groups <= 0x400_0000,
                ysize_dc_groups <= 0x400_0000,
        ;
        let num_groups = xsize_groups * ysize_groups;
        let num_dc_groups = xsize_dc_groups * ysize_dc_groups;
        if num_groups == 1 && self.passes.num_passes == 1 {
            1
        } else {
            2 + num_dc_groups
        }
    }

    /// The number of entries of the table of contents that follows the
    /// header.
    pub fn num_toc_entries(&self) -> (n: u32)
        requires
            self@.wf(),
            self@.spec_num_toc_entries() <= u32::MAX,
        ensures
            n == self@.spec_num_toc_entries(),
    {
        self.count_toc_entries() as u32
    }

    /// The number of entries of the table of contents that follows the
    /// header, where the header is well formed and the number fits in 32
    /// bits.
    pub fn checked_num_toc_entries(&self) -> (n: Option<u32>)
        ensures
            n == if self@.wf() && self@.spec_num_toc_entries() <= u32::MAX {
                Some(self@.spec_num_toc_entries() as u32)
            } else {
                None
            },
    {
        if !self.is_wf() {
            return None;
        }
        let count = self.count_toc_entries();
        if count <= u32::MAX as u64 {
            Some(count as u32)
        } else {
            None
        }
    }
}

/// Counting blocks of eight pixels in whole subsampled blocks, and then
/// groups of `group` blocks, is counting groups of `8 * group` pixels.
proof fn lemma_groups_of_blocks(side: nat, scale: nat, group: nat)
    requires
        scale == 1 || scale == 2,
        group == 128 || group == 256 || group == 512 || group == 1024,
    ensures
        div_ceil(div_ceil(side, 8 * scale) * scale, group) == div_ceil(side, 8 * group),
{
    if scale == 1 {
        if group == 128 {
            assert((((side + 7) / 8) * 1 + 127) / 128 == (side + 1023) / 1024);
        } else if group == 256 {
            assert((((side + 7) / 8) * 1 + 255) / 256 == (side + 2047) / 2048);
        } else if group == 512 {
            assert((((side + 7) / 8) * 1 + 511) / 512 == (side + 4095) / 4096);
        } else {
            assert((((side + 7) / 8) * 1 + 1023) / 1024 == (side + 8191) / 8192);
        }
    } else {
        if group == 128 {
            assert((((side + 15) / 16) * 2 + 127) / 128 == (side + 1023) / 1024);
        } else if group == 256 {
            assert((((side + 15) / 16) * 2 + 255) / 256 == (side + 2047) / 2048);
        } else if group == 512 {
            assert((((side + 15) / 16) * 2 + 511) / 512 == (side + 4095) / 4096);
        } else {
            assert((((side + 15) / 16) * 2 + 1023) / 1024 == (side + 8191) / 8192);
        }
    }
}

/// In a well-formed header the groups of the low-frequency image are
/// squares of `8 * group_dim` pixels a side, whatever the subsampling is:
/// their number is the product of the two sides of the frame's rectangle,
/// each divided by that side and rounded up.
pub proof fn lemma_dc_groups_in_pixels(header: FrameHeaderView)
    requires
        header.wf(),
    ensures
        header.num_dc_groups() == div_ceil(header.width as nat, 8 * header.group_dim())
            * div_ceil(header.height as nat, 8 * header.group_dim()),
{
    lemma2_to64();
    lemma_groups_of_blocks(
        header.width as nat,
        pow2(header.max_h_shift()),
        header.group_dim(),
    );
    lemma_groups_of_blocks(
        header.height as nat,
        pow2(header.max_v_shift()),
        header.group_dim(),
    );
}

} // verus!
