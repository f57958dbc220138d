//! How a frame is spread over GPU textures.

use vstd::prelude::*;

use crate::video::frame::{VideoFormat, VideoFrame};

verus! {

/// Texel format of a texture.
#[derive(Clone, Copy, PartialEq, Eq, Structural, Debug)]
pub enum TexelFormat {
    /// One byte of luma.
    R8,
    /// One byte each of U and V.
    Rg8,
    /// Four bytes, gamma-encoded; the GPU makes them linear when it samples.
    Bgra8Srgb,
}

/// A texture to make.
#[derive(Clone, Copy)]
pub struct Plane {
    pub format: TexelFormat,
    pub width: u32,
    pub height: u32,
    /// Frames are copied into it.
    pub is_written: bool,
}

/// Half of `n`, but at least 1.
pub open spec fn half_plane(n: int) -> int {
    if n / 2 >= 1 {
        n / 2
    } else {
        1
    }
}

/// The textures for a video: for NV12 its luma and chroma planes, otherwise one colour texture
/// and a single texel.
pub open spec fn planes_of(width: int, height: int, is_nv12: bool) -> (Plane, Plane) {
    if is_nv12 {
        (
            Plane {
                format: TexelFormat::R8,
                width: width as u32,
                height: height as u32,
                is_written: true,
            },
            Plane {
                format: TexelFormat::Rg8,
                width: half_plane(width) as u32,
                height: half_plane(height) as u32,
                is_written: true,
            },
        )
    } else {
        (
            Plane {
                format: TexelFormat::Bgra8Srgb,
                width: width as u32,
                height: height as u32,
                is_written: true,
            },
            Plane { format: TexelFormat::Rg8, width: 1, height: 1, is_written: false },
        )
    }
}

/// The textures for a video: for NV12 its luma and chroma planes, otherwise one colour texture
/// and a single texel that fills the second slot and is never sampled.
pub fn planes(width: u32, height: u32, is_nv12: bool) -> (r: (Plane, Plane))
    ensures
        r == planes_of(width as int, height as int, is_nv12),
        r.0.width == width && r.0.height == height && r.0.is_written,
        r.1.format == TexelFormat::Rg8,
        r.1.is_written == is_nv12,
        is_nv12 ==> r.0.format == TexelFormat::R8 && r.1.width == half_plane(width as int)
            && r.1.height == half_plane(height as int),
        !is_nv12 ==> r.0.format == TexelFormat::Bgra8Srgb && r.1.width == 1 && r.1.height == 1,
{
    if is_nv12 {
        let w: u32 = if width / 2 >= 1 {
            width / 2
        } else {
            1
        };
        let h: u32 = if height / 2 >= 1 {
            height / 2
        } else {
            1
        };
        (
            Plane { format: TexelFormat::R8, width, height, is_written: true },
            Plane { format: TexelFormat::Rg8, width: w, height: h, is_written: true },
        )
    } else {
        (
            Plane { format: TexelFormat::Bgra8Srgb, width, height, is_written: true },
            Plane { format: TexelFormat::Rg8, width: 1, height: 1, is_written: false },
        )
    }
}

/// Whether memory type `i` is allowed by `type_bits` and local to the device.
pub open spec fn suits(type_bits: u32, device_local: Seq<bool>, i: int) -> bool {
    type_bits & (1u32 << (i as u32)) != 0 && device_local[i]
}

/// The first memory type that `type_bits` allows and that is local to the device.
pub fn find_memory_type(type_bits: u32, device_local: &Vec<bool>) -> (r: Option<u32>)
    requires
        device_local@.len() <= 32,
    ensures
        match r {
            Some(i) => i < device_local@.len() && suits(type_bits, device_local@, i as int)
                && forall|j: int| 0 <= j < i ==> !suits(type_bits, device_local@, j),
            None => forall|j: int|
                0 <= j < device_local@.len() ==> !suits(type_bits, device_local@, j),
        },
{
    let mut i: u32 = 0;
    while (i as usize) < device_local.len()
        invariant
            i <= device_local@.len() <= 32,
            forall|j: int| 0 <= j < i ==> !suits(type_bits, device_local@, j),
        decreases device_local@.len() - i,
    {
        if type_bits & (1u32 << i) != 0 && device_local[i as usize] {
            assert(suits(type_bits, device_local@, i as int));
            return Some(i);
        }
        assert(!suits(type_bits, device_local@, i as int));
        i = i + 1;
    }
    None
}

/// One copy of bytes `from..to` of a frame into a texture.
#[derive(Clone, Copy, PartialEq, Eq, Structural, Debug)]
pub struct Upload {
    /// Into the second texture (chroma) instead of the first.
    pub is_chroma: bool,
    pub from: usize,
    pub to: usize,
    pub bytes_per_row: u32,
    pub width: u32,
    pub height: u32,
}

/// The copies that bring a frame of the given length and format into the textures of a video.
/// Rows of chroma are as many bytes apart as rows of luma.
pub open spec fn uploads(width: int, height: int, len: int, format: VideoFormat) -> Seq<Upload> {
    match format {
        VideoFormat::GpuReady => seq![],
        VideoFormat::Bgra => seq![
            Upload {
                is_chroma: false,
                from: 0,
                to: len as usize,
                bytes_per_row: (width * 4) as u32,
                width: width as u32,
                height: height as u32,
            },
        ],
        VideoFormat::Nv12 { stride, uv_offset } => seq![
            Upload {
                is_chroma: false,
                from: 0,
                to: (height * stride) as usize,
                bytes_per_row: stride as u32,
                width: width as u32,
                height: height as u32,
            },
            Upload {
                is_chroma: true,
                from: uv_offset,
                to: len as usize,
                bytes_per_row: stride as u32,
                width: (width / 2) as u32,
                height: (height / 2) as u32,
            },
        ],
    }
}

/// The copies that bring a frame into the textures of a video.
pub fn upload(width: u32, height: u32, frame: &VideoFrame) -> (r: Vec<Upload>)
    requires
        frame.format is Bgra ==> width * 4 <= u32::MAX,
        frame.format matches VideoFormat::Nv12 { stride, uv_offset } ==> stride <= u32::MAX
            && height * stride <= u32::MAX && height * stride <= frame.data@.len() && uv_offset
            <= frame.data@.len(),
    ensures
        r@ == uploads(width as int, height as int, frame.data@.len() as int, frame.format),
        forall|i: int| 0 <= i < r@.len() ==> (#[trigger] r@[i]).from <= r@[i].to
            <= frame.data@.len(),
{
    let len: usize = frame.data.len();
    let mut out: Vec<Upload> = Vec::new();
    match frame.format {
        VideoFormat::GpuReady => {},
        VideoFormat::Bgra => {
            out.push(
                Upload { is_chroma: false, from: 0, to: len, bytes_per_row: width * 4, width, height },
            );
        },
        VideoFormat::Nv12 { stride, uv_offset } => {
            let bytes_per_row: u32 = stride as u32;
            let y_bytes: usize = (height * bytes_per_row) as usize;
            out.push(Upload { is_chroma: false, from: 0, to: y_bytes, bytes_per_row, width, height });
            out.push(
                Upload {
                    is_chroma: true,
                    from: uv_offset,
                    to: len,
                    bytes_per_row,
                    width: width / 2,
                    height: height / 2,
                },
            );
        },
    }
    out
}

// ── laws ────────────────────────────────────────────────────────────────────

/// Bytes of a texel.
pub open spec fn texel_bytes(format: TexelFormat) -> int {
    match format {
        TexelFormat::R8 => 1,
        TexelFormat::Rg8 => 2,
        TexelFormat::Bgra8Srgb => 4,
    }
}

/// The copies of a frame fill the textures of its video: of an NV12 frame both of them, the
/// second with half as many texels either way, of any other frame the first.
pub proof fn law_copies_fill_the_textures(width: u32, height: u32, len: int, format: VideoFormat)
    requires
        2 <= width,
        2 <= height,
        !(format is GpuReady),
    ensures
        ({
            let copies = uploads(width as int, height as int, len, format);
            let (first, second) = planes_of(width as int, height as int, format is Nv12);
            &&& copies.len() == if format is Nv12 {
                2int
            } else {
                1
            }
            &&& !copies[0].is_chroma
            &&& copies[0].width == width && copies[0].height == height
            &&& (first.width, first.height) == (width, height)
            &&& first.is_written
            &&& second.is_written == (format is Nv12)
            &&& format is Nv12 ==> {
                &&& copies[1].is_chroma
                &&& copies[1].width == second.width && copies[1].height == second.height
                &&& 2 * second.width <= width < 2 * second.width + 2
                &&& 2 * second.height <= height < 2 * second.height + 2
            }
        }),
{
}

/// Frames that are on the GPU already are not copied.
pub proof fn law_frames_on_the_gpu_are_not_copied(width: int, height: int, len: int)
    ensures
        uploads(width, height, len, VideoFormat::GpuReady).len() == 0,
{
}

/// Each texel is taken from its place in the frame: with rows `stride` bytes apart, luma from the
/// frame's start on, chroma from `uv_offset` on, and colours packed tightly.
pub proof fn law_texels_come_from_their_places(
    width: u32,
    height: u32,
    len: int,
    format: VideoFormat,
    x: int,
    y: int,
)
    requires
        !(format is GpuReady),
        width * 4 <= u32::MAX,
        0 <= len <= usize::MAX,
        format matches VideoFormat::Nv12 { stride, uv_offset } ==> height * stride <= len
            && stride <= u32::MAX,
        0 <= x,
        0 <= y,
    ensures
        ({
            let copies = uploads(width as int, height as int, len, format);
            let (first, second) = planes_of(width as int, height as int, format is Nv12);
            let place = copies[0].from + y * copies[0].bytes_per_row + x * texel_bytes(first.format);
            match format {
                VideoFormat::Nv12 { stride, uv_offset } => {
                    &&& place == y * stride + x
                    &&& copies[0].to == height * stride
                    &&& copies[1].from + y * copies[1].bytes_per_row + x * texel_bytes(
                        second.format,
                    ) == uv_offset + y * stride + 2 * x
                    &&& copies[1].to == len
                },
                _ => place == (y * width + x) * 4 && copies[0].to == len,
            }
        }),
{
    assert(y * (width * 4) + x * 4 == (y * width + x) * 4) by (nonlinear_arith);
}

/// A memory type suits where its bit is set, counted from the lowest, and it is on the device.
pub proof fn law_memory_types_are_bits(type_bits: u32, device_local: Seq<bool>, i: int)
    requires
        0 <= i < 32,
    ensures
        suits(type_bits, device_local, i) <==> device_local[i] && (type_bits >> (i as u32)) % 2
            == 1,
{
    let k = i as u32;
    assert(type_bits & (1u32 << k) != 0 <==> (type_bits >> k) % 2 == 1) by (bit_vector)
        requires
            k < 32,
    ;
}

/// A plane of half the size has half as many texels, rounded down, and one where that would be none.
pub proof fn law_half_planes(n: int)
    requires
        0 <= n,
    ensures
        n >= 2 ==> 2 * half_plane(n) <= n < 2 * half_plane(n) + 2,
        n < 2 ==> half_plane(n) == 1,
{
}

} // verus!
