use equirect::video::frame::{
    effective_len, extract_bgra_via_2d, extract_nv12_raw, fit_bgra, nv12_layout, pcm_words,
    yuy2_to_bgra, VideoFormat, VideoFrame,
};
use equirect::video::texture::{find_memory_type, planes, upload, TexelFormat, Upload};

#[test]
fn uv_plane_follows_the_coded_rows() {
    // 1080 visible rows of 1088 coded ones
    let l = nv12_layout(1088 * 1920 * 3 / 2, 1920, 1080);
    assert_eq!((l.stride, l.uv_offset, l.len), (1920, 1088 * 1920, 1088 * 1920 + 540 * 1920));
    // a length that is not known
    let l = nv12_layout(0, 1920, 1080);
    assert_eq!((l.uv_offset, l.len), (1080 * 1920, 1080 * 1920 + 540 * 1920));
    // rows stored bottom up
    assert_eq!(nv12_layout(0, -64, 2).stride, 64);
    let l = nv12_layout(100, 0, 2);
    assert_eq!((l.stride, l.uv_offset, l.len), (0, 0, 0));
}

#[test]
fn effective_length_leaves_out_what_precedes_the_first_row() {
    assert_eq!(effective_len(100, 1010, 1000), 90);
    assert_eq!(effective_len(5, 1010, 1000), 0);
    assert_eq!(effective_len(100, 990, 1000), 100);
}

#[test]
fn nv12_planes_are_copied_as_they_are() {
    let buffer: Vec<u8> = (0..40).collect();
    // stride 4, two visible of four coded rows: 24 bytes
    let f = extract_nv12_raw(&buffer, 24, 4, 2);
    assert_eq!(f.format, VideoFormat::Nv12 { stride: 4, uv_offset: 16 });
    assert_eq!(f.data, buffer[..20].to_vec());
}

#[test]
fn rows_are_packed() {
    let buffer: Vec<u8> = (0..24).collect();
    assert_eq!(extract_bgra_via_2d(&buffer, 0, 8, 1, 3), vec![0, 1, 2, 3, 8, 9, 10, 11, 16, 17, 18, 19]);
    assert_eq!(extract_bgra_via_2d(&buffer, 16, -8, 1, 3), vec![16, 17, 18, 19, 8, 9, 10, 11, 0, 1, 2, 3]);
    assert_eq!(extract_bgra_via_2d(&buffer, 0, 8, 2, 3), buffer);
}

#[test]
fn contiguous_bytes_are_fitted() {
    assert_eq!(fit_bgra(&[1, 2, 3, 4, 5, 6, 7, 8, 9], 1, 2), vec![1, 2, 3, 4, 5, 6, 7, 8]);
    assert_eq!(fit_bgra(&[1, 2], 1, 1), vec![1, 2, 0, 0]);
}

fn reference(y: i32, u: i32, v: i32) -> [u8; 4] {
    let c = 298 * (y - 16);
    let (d, e) = (u - 128, v - 128);
    let clamp = |x: i32| x.clamp(0, 255) as u8;
    [
        clamp((c + 516 * d + 128) >> 8),
        clamp((c - 100 * d - 208 * e + 128) >> 8),
        clamp((c + 409 * e + 128) >> 8),
        255,
    ]
}

#[test]
fn yuy2_becomes_bgra() {
    // black and white
    assert_eq!(yuy2_to_bgra(&[16, 128, 235, 128], 2, 1), vec![0, 0, 0, 255, 255, 255, 255, 255]);
    // an odd width reads the whole last group
    let src = [90u8, 30, 200, 220, 10, 128, 77, 1];
    let mut want: Vec<u8> = Vec::new();
    want.extend(reference(90, 30, 220));
    want.extend(reference(200, 30, 220));
    want.extend(reference(10, 128, 1));
    assert_eq!(yuy2_to_bgra(&src, 3, 1), want);
}

#[test]
fn yuy2_agrees_with_the_formula_everywhere() {
    for y in (0..256).step_by(5) {
        for u in (0..256).step_by(17) {
            for v in (0..256).step_by(15) {
                let got = yuy2_to_bgra(&[y as u8, u as u8, 0, v as u8], 1, 1);
                assert_eq!(got, reference(y, u, v).to_vec());
            }
        }
    }
}

#[test]
fn pcm_is_little_endian() {
    assert_eq!(pcm_words(&[1, 2, 3, 4, 0, 0, 0x80, 0x3f, 9]), vec![0x0403_0201, 1.0f32.to_bits()]);
    assert!(pcm_words(&[1, 2, 3]).is_empty());
}

#[test]
fn textures_for_a_video() {
    let (y, uv) = planes(1920, 1080, true);
    assert_eq!((y.format, y.width, y.height, y.is_written), (TexelFormat::R8, 1920, 1080, true));
    assert_eq!((uv.format, uv.width, uv.height, uv.is_written), (TexelFormat::Rg8, 960, 540, true));
    let (c, dummy) = planes(1, 1, false);
    assert_eq!((c.format, c.width, c.height), (TexelFormat::Bgra8Srgb, 1, 1));
    assert_eq!((dummy.width, dummy.height, dummy.is_written), (1, 1, false));
    assert_eq!((planes(1, 1, true).1.width, planes(1, 1, true).1.height), (1, 1));
}

#[test]
fn memory_type_is_the_first_that_suits() {
    assert_eq!(find_memory_type(0b1110, &vec![true, false, true, true]), Some(2));
    assert_eq!(find_memory_type(0b0010, &vec![true, false, true]), None);
    assert_eq!(find_memory_type(0, &vec![true]), None);
    assert_eq!(find_memory_type(0x8000_0000, &vec![true; 32]), Some(31));
}

#[test]
fn uploads_of_frames() {
    let bgra = VideoFrame { data: vec![0; 32], format: VideoFormat::Bgra };
    assert_eq!(
        upload(4, 2, &bgra),
        vec![Upload { is_chroma: false, from: 0, to: 32, bytes_per_row: 16, width: 4, height: 2 }]
    );
    let nv12 = VideoFrame { data: vec![0; 40], format: VideoFormat::Nv12 { stride: 8, uv_offset: 32 } };
    assert_eq!(
        upload(6, 2, &nv12),
        vec![
            Upload { is_chroma: false, from: 0, to: 16, bytes_per_row: 8, width: 6, height: 2 },
            Upload { is_chroma: true, from: 32, to: 40, bytes_per_row: 8, width: 3, height: 1 },
        ]
    );
    let ready = VideoFrame { data: vec![], format: VideoFormat::GpuReady };
    assert!(upload(6, 2, &ready).is_empty());
}
