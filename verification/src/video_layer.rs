//! Video as composition layers of the VR runtime.
//!
//! Fisheye modes are not handled here; they fall back to the shader.

use vstd::prelude::*;

use crate::ui::settings::{Projection, StereoLayout, VideoMode, VideoSettings};

verus! {

/// Which eyes see a layer.
#[derive(Clone, Copy, PartialEq, Eq, Structural, Debug)]
pub enum EyeVisibility {
    Both,
    Left,
    Right,
}

/// Shape of the layers that a video is shown with.
#[derive(Clone, Copy, PartialEq, Eq, Structural, Debug)]
pub enum EffectiveLayerMode {
    Quad,
    Cylinder,
    Equirect180,
    Equirect360,
}

/// Which eyes see the layer with the given index.
pub open spec fn eyes_of(stereo: StereoLayout, layer: int) -> EyeVisibility {
    if stereo == StereoLayout::OneView {
        EyeVisibility::Both
    } else if layer == 0 {
        EyeVisibility::Left
    } else {
        EyeVisibility::Right
    }
}

/// The number of layers that a layout needs.
pub open spec fn layers_needed(stereo: StereoLayout) -> int {
    if stereo == StereoLayout::OneView {
        1
    } else {
        2
    }
}

/// The number of layers to submit: 1 for mono, 2 for stereo.
pub fn layer_count(settings: &VideoSettings) -> (r: usize)
    ensures
        r == layers_needed(settings.stereo),
        r == if settings.stereo == StereoLayout::OneView {
            1int
        } else {
            2
        },
{
    if settings.stereo == StereoLayout::OneView {
        1
    } else {
        2
    }
}

/// Which eyes see the layer with the given index.
pub fn eye_visibility(settings: &VideoSettings, layer_idx: usize) -> (r: EyeVisibility)
    ensures
        r == eyes_of(settings.stereo, layer_idx as int),
        r == if settings.stereo == StereoLayout::OneView {
            EyeVisibility::Both
        } else if layer_idx == 0 {
            EyeVisibility::Left
        } else {
            EyeVisibility::Right
        },
{
    if settings.stereo == StereoLayout::OneView {
        EyeVisibility::Both
    } else if layer_idx == 0 {
        EyeVisibility::Left
    } else {
        EyeVisibility::Right
    }
}

/// The eye sees the second half of the image: the right one or the bottom one.
pub open spec fn sees_second_half(stereo: StereoLayout, eye: int) -> bool {
    match stereo {
        StereoLayout::OneView => false,
        StereoLayout::LR | StereoLayout::TB => eye != 0,
        StereoLayout::RL | StereoLayout::BT => eye == 0,
    }
}

/// The layout puts the eyes' images side by side.
pub open spec fn is_side_by_side(stereo: StereoLayout) -> bool {
    stereo == StereoLayout::LR || stereo == StereoLayout::RL
}

/// The layout puts one eye's image above the other's.
pub open spec fn is_stacked(stereo: StereoLayout) -> bool {
    stereo == StereoLayout::TB || stereo == StereoLayout::BT
}

/// `x` as a signed 32-bit number with the same bits.
pub open spec fn as_signed(x: int) -> int {
    if x < 0x8000_0000 {
        x
    } else {
        x - 0x1_0000_0000
    }
}

/// Half of `x`, rounded towards 0.
pub open spec fn half_towards_zero(x: int) -> int {
    if x >= 0 {
        x / 2
    } else {
        -((-x) / 2)
    }
}

/// Offset and extent in pixels of the part of a `w` by `h` image that an eye sees.
pub open spec fn rect_of(w: int, h: int, stereo: StereoLayout, eye: int) -> (int, int, int, int) {
    (
        if is_side_by_side(stereo) && sees_second_half(stereo, eye) {
            half_towards_zero(as_signed(w))
        } else {
            0
        },
        if is_stacked(stereo) && sees_second_half(stereo, eye) {
            half_towards_zero(as_signed(h))
        } else {
            0
        },
        if is_side_by_side(stereo) {
            w / 2
        } else {
            as_signed(w)
        },
        if is_stacked(stereo) {
            h / 2
        } else {
            as_signed(h)
        },
    )
}

fn to_signed(x: u32) -> (r: i32)
    ensures
        r == as_signed(x as int),
{
    if x <= 0x7fff_ffff {
        x as i32
    } else {
        -((u32::MAX - x) as i32) - 1
    }
}

fn signed_half(x: u32) -> (r: i32)
    ensures
        r == half_towards_zero(as_signed(x as int)),
{
    if x <= 0x7fff_ffff {
        (x / 2) as i32
    } else {
        -(((u32::MAX - x + 1) / 2) as i32)
    }
}

/// Offset and extent `(x, y, width, height)` in pixels of the part of a `w` by `h` image that an
/// eye sees (0 = left, 1 = right).
pub fn image_rect(w: u32, h: u32, stereo: StereoLayout, eye: usize) -> (r: (i32, i32, i32, i32))
    ensures
        (r.0 as int, r.1 as int, r.2 as int, r.3 as int) == rect_of(
            w as int,
            h as int,
            stereo,
            eye as int,
        ),
{
    match stereo {
        StereoLayout::OneView => (0, 0, to_signed(w), to_signed(h)),
        StereoLayout::LR => if eye == 0 {
            (0, 0, (w / 2) as i32, to_signed(h))
        } else {
            (signed_half(w), 0, (w / 2) as i32, to_signed(h))
        },
        StereoLayout::RL => if eye == 0 {
            (signed_half(w), 0, (w / 2) as i32, to_signed(h))
        } else {
            (0, 0, (w / 2) as i32, to_signed(h))
        },
        StereoLayout::TB => if eye == 0 {
            (0, 0, to_signed(w), (h / 2) as i32)
        } else {
            (0, signed_half(h), to_signed(w), (h / 2) as i32)
        },
        StereoLayout::BT => if eye == 0 {
            (0, signed_half(h), to_signed(w), (h / 2) as i32)
        } else {
            (0, 0, to_signed(w), (h / 2) as i32)
        },
    }
}

/// Width and height whose ratio is the display aspect ratio for one eye.
pub open spec fn aspect_of(w: int, h: int, stereo: StereoLayout) -> (int, int) {
    let rect = rect_of(w, h, stereo, 0);
    (
        rect.2,
        if rect.3 >= 1 {
            rect.3
        } else {
            1
        },
    )
}

/// Width and height whose ratio is the display aspect ratio for one eye; the height is at least
/// 1.
pub fn display_aspect(w: u32, h: u32, settings: &VideoSettings) -> (r: (i32, i32))
    ensures
        (r.0 as int, r.1 as int) == aspect_of(w as int, h as int, settings.stereo),
        r.0 == rect_of(w as int, h as int, settings.stereo, 0).2,
        r.1 == if rect_of(w as int, h as int, settings.stereo, 0).3 >= 1 {
            rect_of(w as int, h as int, settings.stereo, 0).3
        } else {
            1
        },
{
    let (_, _, ext_w, ext_h) = image_rect(w, h, settings.stereo, 0);
    if ext_h >= 1 {
        (ext_w, ext_h)
    } else {
        (ext_w, 1)
    }
}

/// These settings go through composition layers.
pub open spec fn goes_through_layers(settings: VideoSettings, has_equirect2: bool) -> bool {
    settings.proj != Projection::Fisheye && (crate::ui::settings::is_immersive(settings.mode)
        ==> has_equirect2)
}

/// Whether these settings go through composition layers. Fisheye never does, 180 and 360 only
/// where the runtime has equirect layers.
pub fn use_xr_layer(settings: &VideoSettings, has_equirect2: bool) -> (r: bool)
    ensures
        r == goes_through_layers(*settings, has_equirect2),
        r <==> settings.proj != Projection::Fisheye && (crate::ui::settings::is_immersive(
            settings.mode,
        ) ==> has_equirect2),
{
    if settings.proj == Projection::Fisheye {
        return false;
    }
    match settings.mode {
        VideoMode::View180 => has_equirect2,
        VideoMode::View360 => has_equirect2,
        _ => true,
    }
}

/// The shape that a mode asks for.
pub open spec fn wanted_shape(mode: VideoMode) -> EffectiveLayerMode {
    match mode {
        VideoMode::Flat2D | VideoMode::Sbs3D => EffectiveLayerMode::Quad,
        VideoMode::Curved2D => EffectiveLayerMode::Cylinder,
        VideoMode::View180 => EffectiveLayerMode::Equirect180,
        VideoMode::View360 => EffectiveLayerMode::Equirect360,
    }
}

/// The runtime has layers of the shape.
pub open spec fn is_supported(
    shape: EffectiveLayerMode,
    has_cylinder: bool,
    has_equirect2: bool,
) -> bool {
    match shape {
        EffectiveLayerMode::Quad => true,
        EffectiveLayerMode::Cylinder => has_cylinder,
        EffectiveLayerMode::Equirect180 | EffectiveLayerMode::Equirect360 => has_equirect2,
    }
}

/// The shape that a mode gets.
pub open spec fn shape_of(mode: VideoMode, has_cylinder: bool, has_equirect2: bool) -> EffectiveLayerMode {
    if is_supported(wanted_shape(mode), has_cylinder, has_equirect2) {
        wanted_shape(mode)
    } else {
        EffectiveLayerMode::Quad
    }
}

/// The shape to use: the one that the mode asks for, or a quad where the runtime lacks it.
pub fn effective_mode(settings: &VideoSettings, has_cylinder: bool, has_equirect2: bool) -> (r:
    EffectiveLayerMode)
    ensures
        r == shape_of(settings.mode, has_cylinder, has_equirect2),
        r == if is_supported(wanted_shape(settings.mode), has_cylinder, has_equirect2) {
            wanted_shape(settings.mode)
        } else {
            EffectiveLayerMode::Quad
        },
{
    match settings.mode {
        VideoMode::Flat2D => EffectiveLayerMode::Quad,
        VideoMode::Sbs3D => EffectiveLayerMode::Quad,
        VideoMode::Curved2D => if has_cylinder {
            EffectiveLayerMode::Cylinder
        } else {
            EffectiveLayerMode::Quad
        },
        VideoMode::View180 => if has_equirect2 {
            EffectiveLayerMode::Equirect180
        } else {
            EffectiveLayerMode::Quad
        },
        VideoMode::View360 => if has_equirect2 {
            EffectiveLayerMode::Equirect360
        } else {
            EffectiveLayerMode::Quad
        },
    }
}

/// A composition layer that shows a video.
#[derive(Clone, Copy, PartialEq, Eq, Debug)]
pub struct VideoLayer {
    pub shape: EffectiveLayerMode,
    pub eyes: EyeVisibility,
    /// Offset and extent `(x, y, width, height)` of the part of the image that it shows.
    pub rect: (i32, i32, i32, i32),
}

/// What a layer says, over the integers.
pub open spec fn layer_view(layer: VideoLayer) -> (
    EffectiveLayerMode,
    EyeVisibility,
    (int, int, int, int),
) {
    (
        layer.shape,
        layer.eyes,
        (
            layer.rect.0 as int,
            layer.rect.1 as int,
            layer.rect.2 as int,
            layer.rect.3 as int,
        ),
    )
}

/// The layers that show a `w` by `h` video.
pub open spec fn layers_of(
    w: int,
    h: int,
    settings: VideoSettings,
    has_cylinder: bool,
    has_equirect2: bool,
) -> Seq<(EffectiveLayerMode, EyeVisibility, (int, int, int, int))> {
    Seq::new(
        layers_needed(settings.stereo) as nat,
        |i: int|
            (
                shape_of(settings.mode, has_cylinder, has_equirect2),
                eyes_of(settings.stereo, i),
                rect_of(w, h, settings.stereo, i),
            ),
    )
}

/// The layers that show a `w` by `h` video: one for both eyes, or one for each.
pub fn plan_layers(
    w: u32,
    h: u32,
    settings: &VideoSettings,
    has_cylinder: bool,
    has_equirect2: bool,
) -> (r: Vec<VideoLayer>)
    ensures
        r@.map_values(|layer: VideoLayer| layer_view(layer)) == layers_of(
            w as int,
            h as int,
            *settings,
            has_cylinder,
            has_equirect2,
        ),
        r@.len() == if settings.stereo == StereoLayout::OneView {
            1int
        } else {
            2
        },
        forall|i: int|
            0 <= i < r@.len() ==> {
                let layer = #[trigger] r@[i];
                &&& layer.shape == if is_supported(
                    wanted_shape(settings.mode),
                    has_cylinder,
                    has_equirect2,
                ) {
                    wanted_shape(settings.mode)
                } else {
                    EffectiveLayerMode::Quad
                }
                &&& layer.eyes == if r@.len() == 1 {
                    EyeVisibility::Both
                } else if i == 0 {
                    EyeVisibility::Left
                } else {
                    EyeVisibility::Right
                }
                &&& (
                    layer.rect.0 as int,
                    layer.rect.1 as int,
                    layer.rect.2 as int,
                    layer.rect.3 as int,
                ) == rect_of(w as int, h as int, settings.stereo, i)
            },
{
    let shape = effective_mode(settings, has_cylinder, has_equirect2);
    let mut layers: Vec<VideoLayer> = Vec::new();
    layers.push(
        VideoLayer {
            shape,
            eyes: eye_visibility(settings, 0),
            rect: image_rect(w, h, settings.stereo, 0),
        },
    );
    if layer_count(settings) > 1 {
        layers.push(
            VideoLayer {
                shape,
                eyes: eye_visibility(settings, 1),
                rect: image_rect(w, h, settings.stereo, 1),
            },
        );
    }
    layers
}

/// For images of sizes that fit the signed range, what the eyes see lies inside the image.
pub proof fn law_rects_lie_in_the_image(w: int, h: int, stereo: StereoLayout, eye: int)
    requires
        0 <= w < 0x8000_0000,
        0 <= h < 0x8000_0000,
    ensures
        ({
            let (x, y, ew, eh) = rect_of(w, h, stereo, eye);
            0 <= x && 0 <= y && 0 <= ew && 0 <= eh && x + ew <= w && y + eh <= h
        }),
{
}

/// In a stereo layout the eyes see parts of the same size that do not overlap, and the opposite
/// layout swaps them.
pub proof fn law_eyes_see_different_halves(w: int, h: int, stereo: StereoLayout)
    requires
        0 <= w < 0x8000_0000,
        0 <= h < 0x8000_0000,
        stereo != StereoLayout::OneView,
    ensures
        ({
            let (lx, ly, lw, lh) = rect_of(w, h, stereo, 0);
            let (rx, ry, rw, rh) = rect_of(w, h, stereo, 1);
            &&& lw == rw && lh == rh
            &&& lx + lw <= rx || rx + rw <= lx || ly + lh <= ry || ry + rh <= ly
        }),
        rect_of(w, h, StereoLayout::LR, 0) == rect_of(w, h, StereoLayout::RL, 1),
        rect_of(w, h, StereoLayout::TB, 0) == rect_of(w, h, StereoLayout::BT, 1),
{
}

/// Where composition layers are used at all, the mode gets the shape it asks for unless it is a
/// cylinder that the runtime lacks.
pub proof fn law_layers_have_the_wanted_shape(
    settings: VideoSettings,
    has_cylinder: bool,
    has_equirect2: bool,
)
    requires
        settings.proj != Projection::Fisheye,
        crate::ui::settings::is_immersive(settings.mode) ==> has_equirect2,
    ensures
        is_supported(wanted_shape(settings.mode), has_cylinder, has_equirect2) || settings.mode
            == VideoMode::Curved2D,
{
}

/// An eye sees a layer.
pub open spec fn sees(eyes: EyeVisibility, eye: int) -> bool {
    eyes == EyeVisibility::Both || (eyes == EyeVisibility::Left && eye == 0) || (eyes
        == EyeVisibility::Right && eye == 1)
}

/// Each eye sees exactly one layer, and in it the part of the image that is its own; all layers
/// have the shape of the mode.
pub proof fn law_each_eye_sees_its_own_layer(
    w: int,
    h: int,
    settings: VideoSettings,
    has_cylinder: bool,
    has_equirect2: bool,
    eye: int,
    i: int,
)
    requires
        eye == 0 || eye == 1,
        0 <= i < layers_of(w, h, settings, has_cylinder, has_equirect2).len(),
    ensures
        ({
            let layers = layers_of(w, h, settings, has_cylinder, has_equirect2);
            let own = if layers.len() == 1 {
                0
            } else {
                eye
            };
            &&& 0 <= own < layers.len()
            &&& sees(layers[i].1, eye) <==> i == own
            &&& layers[own].2 == rect_of(w, h, settings.stereo, eye)
            &&& layers[i].0 == shape_of(settings.mode, has_cylinder, has_equirect2)
            &&& settings.stereo == StereoLayout::OneView <==> layers.len() == 1
        }),
{
}

/// One view shows the whole image to both eyes. Side by side each eye sees a half of the width
/// at full height, stacked a half of the height at full width; the halves begin at the edge and
/// at the middle. LR gives the left half to the left eye, RL to the right eye, TB the top half to
/// the left eye, and BT to the right eye.
pub proof fn law_layouts_tell_which_eye_sees_what(w: int, h: int)
    requires
        0 <= w < 0x8000_0000,
        0 <= h < 0x8000_0000,
        w % 2 == 0,
        h % 2 == 0,
    ensures
        forall|eye: int| #[trigger] rect_of(w, h, StereoLayout::OneView, eye) == (0int, 0int, w, h),
        ({
            let (x, y, ew, eh) = rect_of(w, h, StereoLayout::LR, 0);
            (x, y) == (0int, 0int) && 2 * ew == w && eh == h
        }),
        ({
            let (x, y, ew, eh) = rect_of(w, h, StereoLayout::LR, 1);
            2 * x == w && y == 0 && 2 * ew == w && eh == h
        }),
        ({
            let (x, y, ew, eh) = rect_of(w, h, StereoLayout::TB, 0);
            (x, y) == (0int, 0int) && ew == w && 2 * eh == h
        }),
        ({
            let (x, y, ew, eh) = rect_of(w, h, StereoLayout::TB, 1);
            x == 0 && 2 * y == h && ew == w && 2 * eh == h
        }),
        rect_of(w, h, StereoLayout::RL, 0) == rect_of(w, h, StereoLayout::LR, 1),
        rect_of(w, h, StereoLayout::RL, 1) == rect_of(w, h, StereoLayout::LR, 0),
        rect_of(w, h, StereoLayout::BT, 0) == rect_of(w, h, StereoLayout::TB, 1),
        rect_of(w, h, StereoLayout::BT, 1) == rect_of(w, h, StereoLayout::TB, 0),
{
}

/// Of an image with odd sides too, each eye sees all of its half but for at most one line.
pub proof fn law_halves_miss_at_most_a_line(w: int, h: int, stereo: StereoLayout, eye: int)
    requires
        0 <= w < 0x8000_0000,
        0 <= h < 0x8000_0000,
        eye == 0 || eye == 1,
    ensures
        ({
            let (x, y, ew, eh) = rect_of(w, h, stereo, eye);
            &&& is_side_by_side(stereo) ==> 2 * ew <= w < 2 * ew + 2 && eh == h && y == 0 && (x == 0
                || x == ew)
            &&& is_stacked(stereo) ==> 2 * eh <= h < 2 * eh + 2 && ew == w && x == 0 && (y == 0 || y
                == eh)
        }),
        stereo == StereoLayout::OneView || is_side_by_side(stereo) || is_stacked(stereo),
{
}

/// Flat and 3D videos are shown on a quad, curved ones on a cylinder, 180 and 360 ones on spheres,
/// and each falls back to a quad where the runtime lacks the shape.
pub proof fn law_modes_have_their_shapes(has_cylinder: bool, has_equirect2: bool)
    ensures
        shape_of(VideoMode::Flat2D, has_cylinder, has_equirect2) == EffectiveLayerMode::Quad,
        shape_of(VideoMode::Sbs3D, has_cylinder, has_equirect2) == EffectiveLayerMode::Quad,
        shape_of(VideoMode::Curved2D, true, has_equirect2) == EffectiveLayerMode::Cylinder,
        shape_of(VideoMode::Curved2D, false, has_equirect2) == EffectiveLayerMode::Quad,
        shape_of(VideoMode::View180, has_cylinder, true) == EffectiveLayerMode::Equirect180,
        shape_of(VideoMode::View360, has_cylinder, true) == EffectiveLayerMode::Equirect360,
        shape_of(VideoMode::View180, has_cylinder, false) == EffectiveLayerMode::Quad,
        shape_of(VideoMode::View360, has_cylinder, false) == EffectiveLayerMode::Quad,
{
}

/// Fisheye videos never go through layers; other videos do, 180 and 360 ones only where the
/// runtime has layers for them.
pub proof fn law_which_videos_go_through_layers(settings: VideoSettings, has_equirect2: bool)
    ensures
        settings.proj == Projection::Fisheye ==> !goes_through_layers(settings, has_equirect2),
        settings.proj == Projection::Equirect && settings.mode != VideoMode::View180
            && settings.mode != VideoMode::View360 ==> goes_through_layers(settings, has_equirect2),
        settings.proj == Projection::Equirect && (settings.mode == VideoMode::View180
            || settings.mode == VideoMode::View360) ==> goes_through_layers(settings, has_equirect2)
            == has_equirect2,
{
}

/// One eye sees half the width of a video with the images side by side, half the height of one with
/// the images above each other, and all of any other; no height is below one line.
pub proof fn law_aspect_is_that_of_one_eye(w: int, h: int)
    requires
        0 <= w < 0x8000_0000,
        2 <= h < 0x8000_0000,
    ensures
        aspect_of(w, h, StereoLayout::OneView) == (w, h),
        aspect_of(w, h, StereoLayout::LR) == (w / 2, h),
        aspect_of(w, h, StereoLayout::RL) == (w / 2, h),
        aspect_of(w, h, StereoLayout::TB) == (w, h / 2),
        aspect_of(w, h, StereoLayout::BT) == (w, h / 2),
        aspect_of(w, 0, StereoLayout::OneView) == (w, 1int),
        aspect_of(w, 1, StereoLayout::TB) == (w, 1int),
{
}

/// A size is taken as a number of 32 bits with a sign: from the middle on it goes round.
pub proof fn law_sizes_have_a_sign(x: int)
    requires
        0 <= x <= u32::MAX,
    ensures
        i32::MIN <= as_signed(x) <= i32::MAX,
        (as_signed(x) - x) % 0x1_0000_0000 == 0,
        half_towards_zero(as_signed(x)) * 2 - as_signed(x) == if as_signed(x) % 2 == 0 {
            0int
        } else if as_signed(x) > 0 {
            -1
        } else {
            1
        },
{
}

} // verus!
