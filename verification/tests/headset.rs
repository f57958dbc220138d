use equirect::input::{binding, is_pressed, profile_path, stick, InputAction, Profile};
use equirect::path::Platform;
use equirect::renderer::{
    compute_scale, decode_logo_png, first_size, render_outcome, resize, to_logo, to_rgba,
    Ratio, SurfaceStatus, PNG_RGB, PNG_RGBA,
};
use equirect::ui::fonts::{candidate_fonts, font_name};
use equirect::ui::panel::{PanelInput, PointerEvent, PointerTracker};
use equirect::vr::{
    inject_extensions, pick_format, required_device_extensions, vk_to_wgpu, wgpu_to_vk, Buttons,
    FrameInput, Recenter, Session, SessionCommand, SessionEvent, SwapFormat,
};

fn strings(list: &[&str]) -> Vec<String> {
    list.iter().map(|s| s.to_string()).collect()
}

#[test]
fn formats_and_their_numbers() {
    for (vk, format) in [
        (37, SwapFormat::Rgba8Unorm),
        (43, SwapFormat::Rgba8UnormSrgb),
        (44, SwapFormat::Bgra8Unorm),
        (50, SwapFormat::Bgra8UnormSrgb),
    ] {
        assert_eq!(vk_to_wgpu(vk), Some(format));
        assert_eq!(wgpu_to_vk(format), vk);
    }
    assert_eq!(vk_to_wgpu(38), None);
}

#[test]
fn desktop_format_is_preferred() {
    assert_eq!(
        pick_format(Some(SwapFormat::Bgra8Unorm), &vec![43, 44]),
        Some((44, SwapFormat::Bgra8Unorm))
    );
    assert_eq!(
        pick_format(Some(SwapFormat::Bgra8Unorm), &vec![97, 43, 37]),
        Some((43, SwapFormat::Rgba8UnormSrgb))
    );
    assert_eq!(pick_format(None, &vec![97, 50]), Some((50, SwapFormat::Bgra8UnormSrgb)));
    assert_eq!(pick_format(None, &vec![97]), None);
    assert_eq!(pick_format(Some(SwapFormat::Rgba8Unorm), &vec![]), None);
}

#[test]
fn extensions_are_words() {
    assert_eq!(required_device_extensions(" VK_a  VK_b\tVK_c\n"), vec!["VK_a", "VK_b", "VK_c"]);
    assert!(required_device_extensions("  ").is_empty());
    assert!(required_device_extensions("").is_empty());
}

#[test]
fn required_extensions_are_injected_once() {
    let all = inject_extensions(
        strings(&["base", "x"]),
        &strings(&["x", "y", "z", "y"]),
        &vec![true, true, false, true],
    );
    assert_eq!(all, vec!["base", "x", "y"]);
}

#[test]
fn session_runs_from_ready_to_stopping() {
    let mut s = Session::new();
    assert_eq!(s.on_event(SessionEvent::Ready), SessionCommand::Begin);
    assert!(s.running);
    assert_eq!(s.on_event(SessionEvent::Other), SessionCommand::Nothing);
    assert!(s.running);
    assert_eq!(s.on_event(SessionEvent::Stopping), SessionCommand::End);
    assert!(!s.running && !s.should_quit);
    assert_eq!(s.on_event(SessionEvent::Exiting), SessionCommand::Nothing);
    assert!(s.should_quit);
    for e in [SessionEvent::LossPending, SessionEvent::InstanceLossPending] {
        let mut lost = Session::new();
        lost.on_event(e);
        assert!(lost.should_quit);
    }
}

fn hand(menu: bool, grip: bool, x: f32) -> Option<Buttons> {
    Some(Buttons { menu_pressed: menu, grip_pressed: grip, stick_x_bits: x.to_bits() })
}

#[test]
fn view_is_turned_at_first_and_by_the_grip() {
    let mut f = FrameInput::new();
    assert_eq!(f.on_frame(None, None, 0).recenter, Recenter::Yaw);
    assert_eq!(f.on_frame(None, None, 0).recenter, Recenter::Keep);
    assert_eq!(f.on_frame(hand(false, true, 0.0), None, 0).recenter, Recenter::Full);
    assert_eq!(f.on_frame(None, hand(false, true, 0.0), 0).recenter, Recenter::Keep);
    assert_eq!(f.on_frame(None, None, 0).recenter, Recenter::Keep);
    assert_eq!(f.on_frame(None, hand(false, true, 0.0), 0).recenter, Recenter::Full);
    assert_eq!(FrameInput::new().on_frame(hand(false, true, 0.0), None, 0).recenter, Recenter::Full);
}

#[test]
fn menu_button_counts_once() {
    let mut f = FrameInput::new();
    assert!(f.on_frame(hand(true, false, 0.0), None, 0).menu_toggle);
    assert!(!f.on_frame(hand(true, false, 0.0), None, 0).menu_toggle);
    assert!(!f.on_frame(None, hand(true, false, 0.0), 0).menu_toggle);
    assert!(!f.on_frame(None, None, 0).menu_toggle);
    assert!(f.on_frame(None, hand(true, false, 0.0), 0).menu_toggle);
}

#[test]
fn stick_seeks_at_most_every_tenth_of_a_second() {
    let mut f = FrameInput::new();
    let bits = 0.5f32.to_bits();
    assert_eq!(f.on_frame(hand(false, false, 0.5), None, 1_000).seek_stick, Some(bits));
    assert_eq!(f.on_frame(hand(false, false, 0.5), None, 100_000_999).seek_stick, None);
    assert_eq!(f.on_frame(hand(false, false, 0.5), None, 100_001_000).seek_stick, Some(bits));
    assert_eq!(f.on_frame(hand(false, false, 0.1), None, 100_001_001).seek_stick, None);
    assert_eq!(f.on_frame(hand(false, false, 0.5), None, 100_001_002).seek_stick, Some(bits));
}

#[test]
fn stick_that_is_pushed_farther_counts() {
    for (l, r) in [(0.3f32, -0.9f32), (-0.9, 0.3), (0.5, -0.5), (0.2, 0.1), (0.200001, 0.0), (0.7, f32::NAN)] {
        let want = if l.abs() > r.abs() { l } else { r };
        let got = FrameInput::new().on_frame(hand(false, false, l), hand(false, false, r), 0).seek_stick;
        let expected = if want.abs() > 0.2 { Some(want.to_bits()) } else { None };
        assert_eq!(got, expected, "{l} and {r}");
    }
}

fn at(hit: Option<(i32, i32)>, clicking: bool) -> Option<PanelInput<(i32, i32)>> {
    Some(PanelInput { hit, clicking, stick_y_bits: 0 })
}

#[test]
fn press_and_release_make_an_interaction() {
    let mut t: PointerTracker<(i32, i32)> = PointerTracker::new();
    assert!(t.update(at(Some((1, 1)), false), None).interaction.is_none());
    let f = t.update(at(Some((2, 2)), true), None);
    assert!(matches!(f.events[..], [PointerEvent::Moved((2, 2)), PointerEvent::Pressed((2, 2))]));
    assert!(t.update(at(Some((5, 5)), true), None).interaction.is_none());
    let f = t.update(at(Some((6, 6)), false), None);
    assert_eq!(f.interaction, Some(((2, 2), (6, 6))));
    assert!(matches!(f.events[..], [PointerEvent::Moved((6, 6)), PointerEvent::Released((6, 6))]));
    assert!(t.update(at(Some((6, 6)), false), None).interaction.is_none());
}

#[test]
fn moving_off_cancels_a_press() {
    let mut t: PointerTracker<(i32, i32)> = PointerTracker::new();
    t.update(at(Some((2, 2)), true), None);
    let f = t.update(at(None, true), None);
    assert!(matches!(f.events[..], [PointerEvent::Gone]));
    t.update(at(Some((3, 3)), true), None);
    assert!(t.update(at(Some((3, 3)), false), None).interaction.is_none());
    assert!(t.update(None, None).interaction.is_none());
    assert!(t.update(None, None).events.is_empty());
}

#[test]
fn button_pressed_elsewhere_does_not_count() {
    let mut t: PointerTracker<(i32, i32)> = PointerTracker::new();
    t.update(at(None, true), None);
    t.update(at(Some((3, 3)), true), None);
    assert!(t.update(at(Some((3, 3)), false), None).interaction.is_none());
}

#[test]
fn right_controller_leads() {
    let mut t: PointerTracker<(i32, i32)> = PointerTracker::new();
    t.update(at(Some((1, 1)), false), at(Some((9, 9)), true));
    assert_eq!(t.cursor, Some((9, 9)));
    assert_eq!(t.press, Some((9, 9)));
}

#[test]
fn stick_scrolls_over_the_panel() {
    let with = |y: f32| Some(PanelInput { hit: Some((0, 0)), clicking: false, stick_y_bits: y.to_bits() });
    for (l, r) in [(0.3f32, -0.9f32), (0.5, -0.5), (0.05, 0.04), (0.0, 0.06), (f32::NAN, 0.4), (f32::NAN, f32::NAN)] {
        let mut y = 0.0f32;
        for c in [l, r] {
            if c.abs() > y.abs() {
                y = c;
            }
        }
        let f = PointerTracker::new().update(with(l), with(r));
        let scrolled = f.events.iter().find_map(|e| match e {
            PointerEvent::Scroll(bits) => Some(*bits),
            _ => None,
        });
        assert_eq!(scrolled, if y.abs() > 0.05 { Some(y.to_bits()) } else { None }, "{l} and {r}");
    }
    let mut t: PointerTracker<(i32, i32)> = PointerTracker::new();
    let away = Some(PanelInput { hit: None, clicking: false, stick_y_bits: 1.0f32.to_bits() });
    assert!(t.update(away, None).events.is_empty());
}

#[test]
fn sizes_of_the_window() {
    assert_eq!(first_size(0, 7), (1, 7));
    assert_eq!(resize((640, 428), (800, 600)), (800, 600));
    assert_eq!(resize((640, 428), (0, 600)), (640, 428));
    assert_eq!(render_outcome(SurfaceStatus::Success), (true, true));
    assert_eq!(render_outcome(SurfaceStatus::Suboptimal), (true, true));
    assert_eq!(render_outcome(SurfaceStatus::Lost), (false, false));
    assert_eq!(render_outcome(SurfaceStatus::Outdated), (false, false));
    assert_eq!(render_outcome(SurfaceStatus::Skipped), (false, true));
}

#[test]
fn logo_fits_the_window() {
    let one = Ratio { num: 1, den: 1 };
    assert_eq!(compute_scale((200, 100), (100, 100)), (Ratio { num: 10_000, den: 20_000 }, one));
    assert_eq!(compute_scale((100, 200), (100, 100)), (one, Ratio { num: 10_000, den: 20_000 }));
    assert_eq!(compute_scale((50, 50), (100, 100)), (one, Ratio { num: 5_000, den: 5_000 }));
}

fn png_file(color: png::ColorType, width: u32, height: u32, data: &[u8]) -> Vec<u8> {
    let mut out: Vec<u8> = Vec::new();
    let mut encoder = png::Encoder::new(&mut out, width, height);
    encoder.set_color(color);
    encoder.set_depth(png::BitDepth::Eight);
    let mut writer = encoder.write_header().unwrap();
    writer.write_image_data(data).unwrap();
    writer.finish().unwrap();
    out
}

/// The size and the pixels of a decoded logo.
fn decoded(data: &[u8]) -> Option<((u32, u32), Vec<u8>)> {
    decode_logo_png(data).map(|logo| (logo.size, logo.rgba))
}

#[test]
fn logo_is_decoded() {
    let rgba = [1u8, 2, 3, 4, 5, 6, 7, 8];
    assert_eq!(
        decoded(&png_file(png::ColorType::Rgba, 2, 1, &rgba)),
        Some(((2, 1), rgba.to_vec()))
    );
    let rgb = [1u8, 2, 3, 4, 5, 6];
    assert_eq!(
        decoded(&png_file(png::ColorType::Rgb, 1, 2, &rgb)),
        Some(((1, 2), vec![1, 2, 3, 255, 4, 5, 6, 255]))
    );
    assert_eq!(decoded(&png_file(png::ColorType::Grayscale, 2, 1, &[7, 8])), None);
}

#[test]
fn frames_that_hold_a_logo() {
    let logo = to_logo(Some(((1, 1), PNG_RGB, vec![7, 8, 9]))).unwrap();
    assert_eq!((logo.size, logo.rgba), ((1, 1), vec![7, 8, 9, 255]));
    assert!(to_logo(Some(((1, 1), 0, vec![7]))).is_none());
    assert!(to_logo(None).is_none());
}

#[test]
fn what_is_no_png_is_not_decoded() {
    assert_eq!(decoded(&[]), None);
    assert_eq!(decoded(&[0u8; 100]), None);
    let mut huge = png_file(png::ColorType::Rgba, 2, 1, &[0; 8]);
    for b in &mut huge[16..24] {
        *b = 0xff;
    }
    assert_eq!(decoded(&huge), None);
}

#[test]
fn pixels_are_made_opaque() {
    assert_eq!(to_rgba(PNG_RGB, vec![9, 8, 7, 6]), Some(vec![9, 8, 7, 255]));
    assert_eq!(to_rgba(PNG_RGBA, vec![9, 8, 7]), Some(vec![9, 8, 7]));
    assert_eq!(to_rgba(0, vec![9]), None);
}

#[test]
fn bindings_of_controllers() {
    assert_eq!(profile_path(Profile::Touch), "/interaction_profiles/oculus/touch_controller");
    assert_eq!(
        binding(Profile::Touch, InputAction::Menu),
        Some(("/user/hand/left/input/y/click", "/user/hand/right/input/b/click"))
    );
    assert_eq!(
        binding(Profile::Simple, InputAction::Click),
        Some(("/user/hand/left/input/select/click", "/user/hand/right/input/select/click"))
    );
    assert_eq!(binding(Profile::Simple, InputAction::Grip), None);
    assert!(is_pressed(Some((true, true))));
    assert!(!is_pressed(Some((true, false))));
    assert!(!is_pressed(None));
    assert_eq!(stick(Some(((1, 2), true))), (1, 2));
    assert_eq!(stick(Some(((1, 2), false))), (0, 0));
    assert_eq!(stick(None), (0, 0));
}

#[test]
fn fonts_on_windows() {
    let fonts = candidate_fonts(Platform::Windows);
    assert_eq!(fonts.len(), 8);
    assert_eq!(fonts[0], "C:\\Windows\\Fonts\\meiryo.ttc");
    assert_eq!(font_name(Platform::Windows, fonts[7]), "gulim");
    assert_eq!(font_name(Platform::Windows, "C:\\"), "sys_font");
    assert!(candidate_fonts(Platform::Unix).is_empty());
}
