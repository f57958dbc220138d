//! Settings that affect how a video is shown.

use vstd::prelude::*;

verus! {

/// Video geometry mode.
#[derive(Clone, Copy, PartialEq, Eq, Structural, Debug)]
pub enum VideoMode {
    Flat2D,
    Curved2D,
    Sbs3D,
    View180,
    View360,
}

/// Projection type (only meaningful for 180 / 360).
#[derive(Clone, Copy, PartialEq, Eq, Structural, Debug)]
pub enum Projection {
    Equirect,
    Fisheye,
}

/// Stereo layout (meaningful for 3D / 180 / 360).
#[derive(Clone, Copy, PartialEq, Eq, Structural, Debug)]
pub enum StereoLayout {
    OneView,
    LR,
    RL,
    TB,
    BT,
}

impl Default for VideoMode {
    fn default() -> (r: VideoMode)
        ensures
            r == VideoMode::Flat2D,
    {
        VideoMode::Flat2D
    }
}

impl Default for Projection {
    fn default() -> (r: Projection)
        ensures
            r == Projection::Equirect,
    {
        Projection::Equirect
    }
}

impl Default for StereoLayout {
    fn default() -> (r: StereoLayout)
        ensures
            r == StereoLayout::OneView,
    {
        StereoLayout::OneView
    }
}

/// The bit pattern of the single-precision number 1.
pub const ONE_BITS: u32 = 0x3f80_0000;

/// Persistent settings that affect how the video is rendered.
#[derive(Clone, Copy, PartialEq, Eq, Structural, Debug)]
pub struct VideoSettings {
    pub mode: VideoMode,
    pub proj: Projection,
    pub stereo: StereoLayout,
    /// The zoom, as the bit pattern of a single-precision number.
    pub zoom_bits: u32,
}

impl Default for VideoSettings {
    fn default() -> (r: VideoSettings)
        ensures
            r == (VideoSettings {
                mode: VideoMode::Flat2D,
                proj: Projection::Equirect,
                stereo: StereoLayout::OneView,
                zoom_bits: 0,
            }),
    {
        VideoSettings {
            mode: VideoMode::Flat2D,
            proj: Projection::Equirect,
            stereo: StereoLayout::OneView,
            zoom_bits: 0,
        }
    }
}

/// Actions the settings UI wants the app to perform.
#[derive(Clone, Copy, PartialEq, Eq, Structural, Debug)]
pub struct SettingsActions {
    pub close: bool,
    pub changed: bool,
}

impl Default for SettingsActions {
    fn default() -> (r: SettingsActions)
        ensures
            r == (SettingsActions { close: false, changed: false }),
    {
        SettingsActions { close: false, changed: false }
    }
}

/// A mode that shows all directions.
pub open spec fn is_immersive(mode: VideoMode) -> bool {
    mode == VideoMode::View180 || mode == VideoMode::View360
}

/// A mode with a stereo layout.
pub open spec fn has_stereo(mode: VideoMode) -> bool {
    mode == VideoMode::Sbs3D || is_immersive(mode)
}

/// The layout can be chosen in the mode: one view only makes sense for 180 / 360, not for
/// plain 3D.
pub open spec fn offers(mode: VideoMode, stereo: StereoLayout) -> bool {
    has_stereo(mode) && (stereo == StereoLayout::OneView ==> is_immersive(mode))
}

/// The zoom differs from 1 by more than a thousandth. The numbers that are nearest to 1 and do
/// so are `0x3f7f_be76` below and `0x3f80_20c5` above it; a pattern that is no number does not,
/// and a negative number does.
pub open spec fn is_zoomed(zoom_bits: u32) -> bool {
    if zoom_bits >= 0x8000_0000 {
        zoom_bits <= 0xff80_0000
    } else {
        zoom_bits <= 0x3f7f_be76 || 0x3f80_20c5 <= zoom_bits <= 0x7f80_0000
    }
}

impl VideoSettings {
    /// The settings of a video that none have been made for.
    pub fn new() -> (r: VideoSettings)
        ensures
            r == (VideoSettings {
                mode: VideoMode::Flat2D,
                proj: Projection::Equirect,
                stereo: StereoLayout::OneView,
                zoom_bits: ONE_BITS,
            }),
            r.is_consistent(),
    {
        VideoSettings { zoom_bits: ONE_BITS, ..VideoSettings::default() }
    }

    /// What has no meaning in the mode is at its default.
    pub open spec fn is_consistent(self) -> bool {
        &&& !is_immersive(self.mode) ==> self.proj == Projection::Equirect
        &&& !has_stereo(self.mode) ==> self.stereo == StereoLayout::OneView
    }

    /// The settings with another mode.
    pub open spec fn with_mode(self, mode: VideoMode) -> VideoSettings {
        VideoSettings {
            mode,
            proj: if is_immersive(mode) {
                self.proj
            } else {
                Projection::Equirect
            },
            stereo: if has_stereo(mode) {
                self.stereo
            } else {
                StereoLayout::OneView
            },
            ..self
        }
    }

    /// The settings after a choice.
    pub open spec fn after(self, choice: SettingsChoice) -> VideoSettings {
        match choice {
            SettingsChoice::Mode(mode) => if mode == self.mode {
                self
            } else {
                self.with_mode(mode)
            },
            SettingsChoice::Projection(proj) => if is_immersive(self.mode) {
                VideoSettings { proj, ..self }
            } else {
                self
            },
            SettingsChoice::Stereo(stereo) => if offers(self.mode, stereo) {
                VideoSettings { stereo, ..self }
            } else {
                self
            },
            SettingsChoice::ResetZoom => if is_zoomed(self.zoom_bits) {
                VideoSettings { zoom_bits: ONE_BITS, ..self }
            } else {
                self
            },
            SettingsChoice::Zoom(zoom_bits) => VideoSettings { zoom_bits, ..self },
        }
    }

    /// Whether the mode has a projection to choose.
    pub fn enables_projection(&self) -> (r: bool)
        ensures
            r == is_immersive(self.mode),
    {
        self.mode == VideoMode::View180 || self.mode == VideoMode::View360
    }

    /// Whether the mode has a stereo layout to choose.
    pub fn enables_stereo(&self) -> (r: bool)
        ensures
            r == has_stereo(self.mode),
    {
        self.mode == VideoMode::Sbs3D || self.enables_projection()
    }

    /// Whether the layout can be chosen in the mode.
    pub fn enables_layout(&self, stereo: StereoLayout) -> (r: bool)
        ensures
            r == offers(self.mode, stereo),
    {
        self.enables_stereo() && (stereo != StereoLayout::OneView || self.enables_projection())
    }

    /// Makes a choice. A mode resets what has no meaning in it. A projection or a layout that
    /// the mode does not offer is not taken. Whether anything changed is noted in `actions`; the
    /// zoom slider reports changes only.
    pub fn choose_setting(&mut self, choice: SettingsChoice, actions: &mut SettingsActions)
        ensures
            *final(self) == old(self).after(choice),
            old(self).is_consistent() ==> final(self).is_consistent(),
            *final(actions) == (SettingsActions {
                changed: old(actions).changed || choice is Zoom || *final(self) != *old(self),
                ..*old(actions)
            }),
    {
        match choice {
            SettingsChoice::Mode(mode) => {
                if self.mode != mode {
                    self.mode = mode;
                    let wide = mode == VideoMode::View180 || mode == VideoMode::View360;
                    if !wide {
                        self.proj = Projection::Equirect;
                    }
                    if !wide && mode != VideoMode::Sbs3D {
                        self.stereo = StereoLayout::OneView;
                    }
                    actions.changed = true;
                }
            },
            SettingsChoice::Projection(proj) => {
                if self.proj != proj && self.enables_projection() {
                    self.proj = proj;
                    actions.changed = true;
                }
            },
            SettingsChoice::Stereo(stereo) => {
                if self.stereo != stereo && self.enables_layout(stereo) {
                    self.stereo = stereo;
                    actions.changed = true;
                }
            },
            SettingsChoice::ResetZoom => {
                let zoomed = if self.zoom_bits >= 0x8000_0000 {
                    self.zoom_bits <= 0xff80_0000
                } else {
                    self.zoom_bits <= 0x3f7f_be76 || (0x3f80_20c5 <= self.zoom_bits
                        && self.zoom_bits <= 0x7f80_0000)
                };
                if zoomed {
                    self.zoom_bits = ONE_BITS;
                    actions.changed = true;
                }
            },
            SettingsChoice::Zoom(zoom_bits) => {
                self.zoom_bits = zoom_bits;
                actions.changed = true;
            },
        }
    }
}

/// A choice made in the settings panel.
#[derive(Clone, Copy, PartialEq, Eq, Structural, Debug)]
pub enum SettingsChoice {
    Mode(VideoMode),
    Projection(Projection),
    Stereo(StereoLayout),
    /// The button that sets the zoom back to 1.
    ResetZoom,
    /// The zoom slider has moved here.
    Zoom(u32),
}

/// Making a choice a second time changes nothing.
pub proof fn law_choosing_twice_is_choosing_once(settings: VideoSettings, choice: SettingsChoice)
    ensures
        settings.after(choice).after(choice) == settings.after(choice),
{
}

/// A choice never touches what it is not about: the zoom stays unless the zoom is chosen, and
/// the mode unless a mode is chosen.
pub proof fn law_choices_keep_the_rest(settings: VideoSettings, choice: SettingsChoice)
    ensures
        !(choice is Zoom) && !(choice is ResetZoom) ==> settings.after(choice).zoom_bits
            == settings.zoom_bits,
        !(choice is Mode) ==> settings.after(choice).mode == settings.mode,
{
}

/// A mode that is chosen is taken, whatever the settings were.
pub proof fn law_every_mode_can_be_chosen(settings: VideoSettings, mode: VideoMode)
    ensures
        settings.after(SettingsChoice::Mode(mode)).mode == mode,
{
}

/// In every mode with a stereo layout (3D, 180 and 360) each of the four two-eyed layouts can be
/// chosen and is taken; one view can be chosen in 180 and 360 only.
pub proof fn law_every_layout_can_be_chosen(settings: VideoSettings, stereo: StereoLayout)
    requires
        settings.mode == VideoMode::Sbs3D || settings.mode == VideoMode::View180 || settings.mode
            == VideoMode::View360,
    ensures
        stereo != StereoLayout::OneView || settings.mode != VideoMode::Sbs3D ==> offers(
            settings.mode,
            stereo,
        ) && settings.after(SettingsChoice::Stereo(stereo)) == (VideoSettings {
            stereo,
            ..settings
        }),
        settings.mode == VideoMode::Sbs3D ==> !offers(settings.mode, StereoLayout::OneView)
            && settings.after(SettingsChoice::Stereo(StereoLayout::OneView)) == settings,
{
}

/// A flat video has no stereo layout: none can be chosen.
pub proof fn law_flat_videos_have_no_layout(settings: VideoSettings, stereo: StereoLayout)
    requires
        settings.mode == VideoMode::Flat2D || settings.mode == VideoMode::Curved2D,
    ensures
        !offers(settings.mode, stereo),
        settings.after(SettingsChoice::Stereo(stereo)) == settings,
{
}

/// A projection can be chosen in 180 and 360, where it is taken, and in no other mode.
pub proof fn law_projections_are_for_all_round_videos(settings: VideoSettings, proj: Projection)
    ensures
        settings.mode == VideoMode::View180 || settings.mode == VideoMode::View360
            ==> settings.after(SettingsChoice::Projection(proj)) == (VideoSettings {
            proj,
            ..settings
        }),
        settings.mode != VideoMode::View180 && settings.mode != VideoMode::View360
            ==> settings.after(SettingsChoice::Projection(proj)) == settings,
{
}

/// A mode keeps what has a meaning in it and resets what has none: 180 and 360 keep projection
/// and layout, 3D keeps the layout, and flat modes keep neither.
pub proof fn law_modes_keep_what_has_a_meaning(settings: VideoSettings, mode: VideoMode)
    requires
        settings.is_consistent(),
    ensures
        ({
            let after = settings.after(SettingsChoice::Mode(mode));
            let round = mode == VideoMode::View180 || mode == VideoMode::View360;
            &&& after.is_consistent()
            &&& round ==> after.proj == settings.proj && after.stereo == settings.stereo
            &&& mode == VideoMode::Sbs3D ==> after.proj == Projection::Equirect && after.stereo
                == settings.stereo
            &&& !round && mode != VideoMode::Sbs3D ==> after.proj == Projection::Equirect
                && after.stereo == StereoLayout::OneView
        }),
{
}

/// The zoom slider sets the zoom, and the button beside it sets it back to 1 where it is off by
/// more than a thousandth; both leave the rest alone.
pub proof fn law_zoom_is_set_and_reset(settings: VideoSettings, zoom_bits: u32)
    ensures
        settings.after(SettingsChoice::Zoom(zoom_bits)) == (VideoSettings { zoom_bits, ..settings }),
        is_zoomed(settings.zoom_bits) ==> settings.after(SettingsChoice::ResetZoom) == (
        VideoSettings { zoom_bits: 0x3f80_0000, ..settings }),
        !is_zoomed(settings.zoom_bits) ==> settings.after(SettingsChoice::ResetZoom) == settings,
{
}

/// The zoom counts as changed where it differs from 1 by more than the single-precision number
/// nearest to a thousandth, which is 8589935 / 2^33. From 1 to 2 the bit pattern counts steps of
/// 1 / 2^23 from 1 up, from a half to 1 it counts steps of 1 / 2^24 from 1 down. Other numbers
/// differ by more, and what is no number does not count.
pub proof fn law_zoom_differs_from_one(zoom_bits: u32)
    ensures
        0x3f80_0000 <= zoom_bits < 0x4000_0000 ==> (is_zoomed(zoom_bits) <==> (zoom_bits
            - 0x3f80_0000) * 1024 > 8589935),
        0x3f00_0000 <= zoom_bits < 0x3f80_0000 ==> (is_zoomed(zoom_bits) <==> (0x3f80_0000
            - zoom_bits) * 512 > 8589935),
        zoom_bits < 0x3f00_0000 || 0x4000_0000 <= zoom_bits <= 0x7f80_0000 ==> is_zoomed(zoom_bits),
        0x8000_0000 <= zoom_bits <= 0xff80_0000 ==> is_zoomed(zoom_bits),
        0x7f80_0000 < zoom_bits < 0x8000_0000 || 0xff80_0000 < zoom_bits ==> !is_zoomed(zoom_bits),
{
}

} // verus!
