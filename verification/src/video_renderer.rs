//! Parameters of the video shader.

use vstd::prelude::*;

use crate::ui::settings::{Projection, StereoLayout, VideoMode, VideoSettings};

verus! {

/// What the shader does to the directions it samples: 0 = flat quad, 1 = fisheye 180,
/// 2 = fisheye 360, 3 = equirect 180, 4 = equirect 360.
pub open spec fn shader_mode_of(proj: Projection, mode: VideoMode) -> int {
    if mode == VideoMode::View180 {
        if proj == Projection::Fisheye {
            1
        } else {
            3
        }
    } else if mode == VideoMode::View360 {
        if proj == Projection::Fisheye {
            2
        } else {
            4
        }
    } else {
        0
    }
}

/// The part of the texture that an eye sees, in halves of the texture's width and height.
#[derive(Clone, Copy, PartialEq, Eq, Structural, Debug)]
pub struct UvCrop {
    pub offset_u: u32,
    pub offset_v: u32,
    pub scale_u: u32,
    pub scale_v: u32,
}

/// Parameters of the video shader.
#[derive(Clone, Copy, PartialEq, Eq, Structural, Debug)]
pub struct VideoParams {
    pub crop: UvCrop,
    pub mode: u32,
    /// 0 = BGRA texture, 1 = NV12 (Y + UV planes).
    pub pixel_fmt: u32,
}

/// The part of the texture that an eye sees.
pub open spec fn crop_of(stereo: StereoLayout, eye: int) -> UvCrop {
    let second = crate::video_layer::sees_second_half(stereo, eye);
    UvCrop {
        offset_u: if crate::video_layer::is_side_by_side(stereo) && second {
            1
        } else {
            0
        },
        offset_v: if crate::video_layer::is_stacked(stereo) && second {
            1
        } else {
            0
        },
        scale_u: if crate::video_layer::is_side_by_side(stereo) {
            1
        } else {
            2
        },
        scale_v: if crate::video_layer::is_stacked(stereo) {
            1
        } else {
            2
        },
    }
}

/// The code of the texture's pixel format.
pub open spec fn pixel_format_of(is_nv12: bool) -> int {
    if is_nv12 {
        1
    } else {
        0
    }
}

impl VideoParams {
    /// The parameters for an eye.
    pub fn from_settings(settings: &VideoSettings, eye: usize, is_nv12: bool) -> (r: VideoParams)
        ensures
            r.crop == crop_of(settings.stereo, eye as int),
            r.mode == shader_mode_of(settings.proj, settings.mode),
            r.pixel_fmt == pixel_format_of(is_nv12),
            r.pixel_fmt == if is_nv12 {
                1int
            } else {
                0
            },
    {
        let mode: u32 = match (settings.proj, settings.mode) {
            (Projection::Fisheye, VideoMode::View180) => 1,
            (Projection::Fisheye, VideoMode::View360) => 2,
            (Projection::Equirect, VideoMode::View180) => 3,
            (Projection::Equirect, VideoMode::View360) => 4,
            _ => 0,
        };
        let crop = match settings.stereo {
            StereoLayout::OneView => UvCrop { offset_u: 0, offset_v: 0, scale_u: 2, scale_v: 2 },
            StereoLayout::LR => UvCrop {
                offset_u: if eye == 0 {
                    0
                } else {
                    1
                },
                offset_v: 0,
                scale_u: 1,
                scale_v: 2,
            },
            StereoLayout::RL => UvCrop {
                offset_u: if eye == 0 {
                    1
                } else {
                    0
                },
                offset_v: 0,
                scale_u: 1,
                scale_v: 2,
            },
            StereoLayout::TB => UvCrop {
                offset_u: 0,
                offset_v: if eye == 0 {
                    0
                } else {
                    1
                },
                scale_u: 2,
                scale_v: 1,
            },
            StereoLayout::BT => UvCrop {
                offset_u: 0,
                offset_v: if eye == 0 {
                    1
                } else {
                    0
                },
                scale_u: 2,
                scale_v: 1,
            },
        };
        let pixel_fmt: u32 = if is_nv12 {
            1
        } else {
            0
        };
        VideoParams { crop, mode, pixel_fmt }
    }
}

/// Whether the shader works on directions, from a triangle that fills the screen, and not on a
/// quad: in every mode that shows all directions.
pub fn uses_direction_shader(settings: &VideoSettings) -> (r: bool)
    ensures
        r == crate::ui::settings::is_immersive(settings.mode),
        r <==> shader_mode_of(settings.proj, settings.mode) != 0,
{
    match settings.mode {
        VideoMode::View180 => true,
        VideoMode::View360 => true,
        _ => false,
    }
}

/// For an image of even size, the shader and the composition layers show an eye the same part
/// of it.
pub proof fn law_shader_and_layers_agree(w: int, h: int, stereo: StereoLayout, eye: int)
    requires
        0 <= w < 0x8000_0000,
        0 <= h < 0x8000_0000,
        w % 2 == 0,
        h % 2 == 0,
    ensures
        ({
            let (x, y, ew, eh) = crate::video_layer::rect_of(w, h, stereo, eye);
            let crop = crop_of(stereo, eye);
            &&& x * 2 == crop.offset_u * w && y * 2 == crop.offset_v * h
            &&& ew * 2 == crop.scale_u * w && eh * 2 == crop.scale_v * h
        }),
{
    let crop = crop_of(stereo, eye);
    lemma_times_small(crop.offset_u as int, w);
    lemma_times_small(crop.offset_v as int, h);
    lemma_times_small(crop.scale_u as int, w);
    lemma_times_small(crop.scale_v as int, h);
}

proof fn lemma_times_small(a: int, b: int)
    requires
        0 <= a <= 2,
    ensures
        a * b == if a == 0 {
            0
        } else if a == 1 {
            b
        } else {
            b + b
        },
{
    assert(0 * b == 0 && 1 * b == b && 2 * b == b + b);
}

/// The shader's codes: flat videos are drawn as they are whatever the projection, and the two
/// projections of 180 and 360 have the codes that the shader knows. NV12 is told apart from BGRA.
pub proof fn law_shader_codes(proj: Projection, mode: VideoMode)
    ensures
        mode != VideoMode::View180 && mode != VideoMode::View360 ==> shader_mode_of(proj, mode) == 0,
        shader_mode_of(Projection::Fisheye, VideoMode::View180) == 1,
        shader_mode_of(Projection::Fisheye, VideoMode::View360) == 2,
        shader_mode_of(Projection::Equirect, VideoMode::View180) == 3,
        shader_mode_of(Projection::Equirect, VideoMode::View360) == 4,
        pixel_format_of(true) == 1 && pixel_format_of(false) == 0,
{
}

} // verus!
