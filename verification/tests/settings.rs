use equirect::ui::settings::{
    Projection, SettingsActions, SettingsChoice, StereoLayout, VideoMode, VideoSettings, ONE_BITS,
};
use equirect::video_layer::{
    display_aspect, effective_mode, eye_visibility, image_rect, layer_count, plan_layers,
    use_xr_layer, EffectiveLayerMode, EyeVisibility,
};
use equirect::video_renderer::{uses_direction_shader, UvCrop, VideoParams};

fn with(mode: VideoMode, proj: Projection, stereo: StereoLayout) -> VideoSettings {
    VideoSettings { mode, proj, stereo, zoom_bits: ONE_BITS }
}

#[test]
fn new_settings() {
    let s = VideoSettings::new();
    assert_eq!(s, with(VideoMode::Flat2D, Projection::Equirect, StereoLayout::OneView));
    assert_eq!(f32::from_bits(s.zoom_bits), 1.0);
    assert_eq!(f32::from_bits(VideoSettings::default().zoom_bits), 0.0);
    assert_eq!(VideoMode::default(), VideoMode::Flat2D);
    assert_eq!(Projection::default(), Projection::Equirect);
    assert_eq!(StereoLayout::default(), StereoLayout::OneView);
}

fn pick(s: &mut VideoSettings, choice: SettingsChoice) -> bool {
    let mut actions = SettingsActions::default();
    s.choose_setting(choice, &mut actions);
    assert!(!actions.close);
    actions.changed
}

#[test]
fn mode_resets_what_has_no_meaning_in_it() {
    let mut s = with(VideoMode::View180, Projection::Fisheye, StereoLayout::LR);
    assert!(!pick(&mut s, SettingsChoice::Mode(VideoMode::View180)));
    assert!(pick(&mut s, SettingsChoice::Mode(VideoMode::Sbs3D)));
    assert_eq!(s, with(VideoMode::Sbs3D, Projection::Equirect, StereoLayout::LR));
    assert!(pick(&mut s, SettingsChoice::Mode(VideoMode::Flat2D)));
    assert_eq!(s, with(VideoMode::Flat2D, Projection::Equirect, StereoLayout::OneView));
}

#[test]
fn choices_that_the_mode_does_not_offer_are_not_taken() {
    let mut s = VideoSettings::new();
    assert!(!pick(&mut s, SettingsChoice::Projection(Projection::Fisheye)));
    assert!(!pick(&mut s, SettingsChoice::Stereo(StereoLayout::LR)));
    pick(&mut s, SettingsChoice::Mode(VideoMode::Sbs3D));
    assert!(pick(&mut s, SettingsChoice::Stereo(StereoLayout::TB)));
    assert!(!pick(&mut s, SettingsChoice::Stereo(StereoLayout::TB)));
    assert!(!pick(&mut s, SettingsChoice::Stereo(StereoLayout::OneView)));
    pick(&mut s, SettingsChoice::Mode(VideoMode::View360));
    assert!(pick(&mut s, SettingsChoice::Stereo(StereoLayout::OneView)));
    assert!(pick(&mut s, SettingsChoice::Projection(Projection::Fisheye)));
    assert_eq!(s, with(VideoMode::View360, Projection::Fisheye, StereoLayout::OneView));
}

#[test]
fn zoom_is_reset_when_it_is_off_by_more_than_a_thousandth() {
    let around: Vec<u32> = (0x3f7f_be70..0x3f7f_be80).chain(0x3f80_20c0..0x3f80_20d0).collect();
    let special = [0.0f32, -0.0, 0.25, 4.0, 1.0, 1.001, 0.999, -1.0, f32::INFINITY, f32::NEG_INFINITY, f32::NAN, -f32::NAN]
        .map(|z| z.to_bits());
    for bits in around.into_iter().chain(special) {
        let zoom = f32::from_bits(bits);
        let mut s = VideoSettings { zoom_bits: bits, ..VideoSettings::new() };
        let changed = pick(&mut s, SettingsChoice::ResetZoom);
        assert_eq!(changed, (zoom - 1.0).abs() > 0.001, "zoom {zoom}");
        assert_eq!(s.zoom_bits, if changed { ONE_BITS } else { bits });
    }
}

#[test]
fn zoom_slider_always_reports_a_change() {
    let mut s = VideoSettings::new();
    assert!(pick(&mut s, SettingsChoice::Zoom(2.5f32.to_bits())));
    assert_eq!(f32::from_bits(s.zoom_bits), 2.5);
    assert!(pick(&mut s, SettingsChoice::Zoom(2.5f32.to_bits())));
}

#[test]
fn choosing_twice_changes_nothing() {
    let mut s = VideoSettings::new();
    pick(&mut s, SettingsChoice::Mode(VideoMode::View180));
    let once = s;
    assert!(!pick(&mut s, SettingsChoice::Mode(VideoMode::View180)));
    assert_eq!(s, once);
}

#[test]
fn eyes_see_their_halves() {
    assert_eq!(image_rect(100, 50, StereoLayout::OneView, 1), (0, 0, 100, 50));
    assert_eq!(image_rect(100, 50, StereoLayout::LR, 0), (0, 0, 50, 50));
    assert_eq!(image_rect(100, 50, StereoLayout::LR, 1), (50, 0, 50, 50));
    assert_eq!(image_rect(100, 50, StereoLayout::RL, 0), (50, 0, 50, 50));
    assert_eq!(image_rect(100, 50, StereoLayout::TB, 1), (0, 25, 100, 25));
    assert_eq!(image_rect(100, 50, StereoLayout::BT, 0), (0, 25, 100, 25));
    assert_eq!(image_rect(101, 51, StereoLayout::LR, 1), (50, 0, 50, 51));
}

#[test]
fn huge_sizes_wrap_into_the_signed_range() {
    for w in [0x7fff_ffffu32, 0x8000_0000, 0x8000_0001, u32::MAX] {
        assert_eq!(image_rect(w, 1, StereoLayout::OneView, 0).2, w as i32);
        assert_eq!(image_rect(w, 1, StereoLayout::LR, 1), (w as i32 / 2, 0, (w / 2) as i32, 1));
    }
}

#[test]
fn aspect_of_one_eye() {
    assert_eq!(display_aspect(100, 50, &with(VideoMode::Sbs3D, Projection::Equirect, StereoLayout::LR)), (50, 50));
    assert_eq!(display_aspect(100, 1, &with(VideoMode::Sbs3D, Projection::Equirect, StereoLayout::TB)), (100, 1));
    assert_eq!(display_aspect(100, 0, &VideoSettings::new()), (100, 1));
}

#[test]
fn layers_for_eyes() {
    let mono = VideoSettings::new();
    let stereo = with(VideoMode::View180, Projection::Equirect, StereoLayout::LR);
    assert_eq!(layer_count(&mono), 1);
    assert_eq!(layer_count(&stereo), 2);
    assert_eq!(eye_visibility(&mono, 0), EyeVisibility::Both);
    assert_eq!(eye_visibility(&stereo, 0), EyeVisibility::Left);
    assert_eq!(eye_visibility(&stereo, 1), EyeVisibility::Right);
    let layers = plan_layers(200, 100, &stereo, false, true);
    assert_eq!(layers.len(), 2);
    assert_eq!(layers[1].shape, EffectiveLayerMode::Equirect180);
    assert_eq!(layers[1].eyes, EyeVisibility::Right);
    assert_eq!(layers[1].rect, (100, 0, 100, 100));
    assert_eq!(plan_layers(200, 100, &mono, true, true)[0].eyes, EyeVisibility::Both);
}

#[test]
fn shapes_fall_back_to_a_quad() {
    let of = |mode, cyl, eq| effective_mode(&with(mode, Projection::Equirect, StereoLayout::OneView), cyl, eq);
    assert_eq!(of(VideoMode::Flat2D, true, true), EffectiveLayerMode::Quad);
    assert_eq!(of(VideoMode::Sbs3D, true, true), EffectiveLayerMode::Quad);
    assert_eq!(of(VideoMode::Curved2D, true, false), EffectiveLayerMode::Cylinder);
    assert_eq!(of(VideoMode::Curved2D, false, true), EffectiveLayerMode::Quad);
    assert_eq!(of(VideoMode::View180, false, true), EffectiveLayerMode::Equirect180);
    assert_eq!(of(VideoMode::View360, true, false), EffectiveLayerMode::Quad);
    assert_eq!(of(VideoMode::View360, false, true), EffectiveLayerMode::Equirect360);
}

#[test]
fn fisheye_and_missing_layers_go_through_the_shader() {
    let uses = |mode, proj, eq| use_xr_layer(&with(mode, proj, StereoLayout::OneView), eq);
    assert!(uses(VideoMode::Flat2D, Projection::Equirect, false));
    assert!(!uses(VideoMode::View180, Projection::Fisheye, true));
    assert!(!uses(VideoMode::View360, Projection::Equirect, false));
    assert!(uses(VideoMode::View360, Projection::Equirect, true));
}

#[test]
fn shader_parameters() {
    let of = |mode, proj| VideoParams::from_settings(&with(mode, proj, StereoLayout::OneView), 0, false).mode;
    assert_eq!(of(VideoMode::View180, Projection::Fisheye), 1);
    assert_eq!(of(VideoMode::View360, Projection::Fisheye), 2);
    assert_eq!(of(VideoMode::View180, Projection::Equirect), 3);
    assert_eq!(of(VideoMode::View360, Projection::Equirect), 4);
    assert_eq!(of(VideoMode::Curved2D, Projection::Fisheye), 0);
    let p = VideoParams::from_settings(&with(VideoMode::View180, Projection::Equirect, StereoLayout::BT), 0, true);
    assert_eq!(p.crop, UvCrop { offset_u: 0, offset_v: 1, scale_u: 2, scale_v: 1 });
    assert_eq!(p.pixel_fmt, 1);
    let p = VideoParams::from_settings(&with(VideoMode::Sbs3D, Projection::Equirect, StereoLayout::LR), 1, false);
    assert_eq!(p.crop, UvCrop { offset_u: 1, offset_v: 0, scale_u: 1, scale_v: 2 });
    assert!(uses_direction_shader(&with(VideoMode::View180, Projection::Fisheye, StereoLayout::LR)));
    assert!(!uses_direction_shader(&VideoSettings::new()));
}

#[test]
fn shader_and_layers_show_the_same_part() {
    for stereo in [StereoLayout::OneView, StereoLayout::LR, StereoLayout::RL, StereoLayout::TB, StereoLayout::BT] {
        for eye in 0..2 {
            let (x, y, w, h) = image_rect(640, 480, stereo, eye);
            let s = with(VideoMode::View180, Projection::Equirect, stereo);
            let c = VideoParams::from_settings(&s, eye, false).crop;
            assert_eq!((x * 2, y * 2), ((c.offset_u * 640) as i32, (c.offset_v * 480) as i32));
            assert_eq!((w * 2, h * 2), ((c.scale_u * 640) as i32, (c.scale_v * 480) as i32));
        }
    }
}

#[test]
fn what_the_panel_offers_in_each_mode() {
    let s = |mode| with(mode, Projection::Equirect, StereoLayout::OneView);
    assert!(!s(VideoMode::Flat2D).enables_projection());
    assert!(!s(VideoMode::Flat2D).enables_stereo());
    assert!(!s(VideoMode::Curved2D).enables_layout(StereoLayout::LR));
    assert!(!s(VideoMode::Sbs3D).enables_projection());
    assert!(s(VideoMode::Sbs3D).enables_stereo());
    assert!(s(VideoMode::Sbs3D).enables_layout(StereoLayout::TB));
    assert!(!s(VideoMode::Sbs3D).enables_layout(StereoLayout::OneView));
    assert!(s(VideoMode::View180).enables_projection());
    assert!(s(VideoMode::View360).enables_layout(StereoLayout::OneView));
}
