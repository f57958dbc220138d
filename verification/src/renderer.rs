//! The desktop window: its size, and the logo that it shows.

use vstd::prelude::*;

verus! {

// ── size ────────────────────────────────────────────────────────────────────

/// A side of a surface that was asked to have `n` pixels.
pub open spec fn side_of(n: int) -> int {
    if n >= 1 {
        n
    } else {
        1
    }
}

/// The size of a surface after a resize.
pub open spec fn size_after(size: (u32, u32), new_size: (u32, u32)) -> (u32, u32) {
    if new_size.0 > 0 && new_size.1 > 0 {
        new_size
    } else {
        size
    }
}

/// The size of the window's surface for the size of a new window: at least 1 either way.
pub fn first_size(width: u32, height: u32) -> (r: (u32, u32))
    ensures
        r.0 == side_of(width as int) && r.1 == side_of(height as int),
        r.0 == if width >= 1 {
            width as int
        } else {
            1
        },
        r.1 == if height >= 1 {
            height as int
        } else {
            1
        },
{
    let w: u32 = if width >= 1 {
        width
    } else {
        1
    };
    let h: u32 = if height >= 1 {
        height
    } else {
        1
    };
    (w, h)
}

/// The size of the surface after a resize: a window without area keeps the one it has.
pub fn resize(size: (u32, u32), new_size: (u32, u32)) -> (r: (u32, u32))
    ensures
        r == size_after(size, new_size),
        r == if new_size.0 > 0 && new_size.1 > 0 {
            new_size
        } else {
            size
        },
{
    if new_size.0 > 0 && new_size.1 > 0 {
        new_size
    } else {
        size
    }
}

/// A fraction.
#[derive(Clone, Copy, PartialEq, Eq, Structural, Debug)]
pub struct Ratio {
    pub num: u64,
    pub den: u64,
}

/// The window is wider, for its height, than the logo.
pub open spec fn is_wider(win: (u32, u32), logo: (u32, u32)) -> bool {
    win.0 * logo.1 > logo.0 * win.1
}

/// Numerators and denominators of the parts of the window's width and height that the logo takes
/// up.
pub open spec fn scale_of(win: (u32, u32), logo: (u32, u32)) -> ((int, int), (int, int)) {
    if is_wider(win, logo) {
        ((logo.0 * win.1, logo.1 * win.0), (1, 1))
    } else {
        ((1, 1), (win.0 * logo.1, win.1 * logo.0))
    }
}

/// The parts of the window's width and height that the logo takes up. It fits inside the window
/// and keeps its shape: it fills the height of a wider window and the width of any other.
pub fn compute_scale(win: (u32, u32), logo: (u32, u32)) -> (r: (Ratio, Ratio))
    requires
        win.0 > 0,
        win.1 > 0,
        logo.0 > 0,
        logo.1 > 0,
    ensures
        ((r.0.num as int, r.0.den as int), (r.1.num as int, r.1.den as int)) == scale_of(win, logo),
        is_wider(win, logo) ==> r.0.num == logo.0 * win.1 && r.0.den == logo.1 * win.0 && r.1
            == (Ratio { num: 1, den: 1 }),
        !is_wider(win, logo) ==> r.0 == (Ratio { num: 1, den: 1 }) && r.1.num == win.0 * logo.1
            && r.1.den == win.1 * logo.0,
        0 < r.0.num <= r.0.den,
        0 < r.1.num <= r.1.den,
{
    proof {
        lemma_area(win.0, logo.1);
        lemma_area(logo.0, win.1);
        assert(win.0 * logo.1 == logo.1 * win.0) by (nonlinear_arith);
        assert(logo.0 * win.1 == win.1 * logo.0) by (nonlinear_arith);
    }
    let across: u64 = win.0 as u64 * logo.1 as u64;
    let down: u64 = logo.0 as u64 * win.1 as u64;
    if across > down {
        (Ratio { num: down, den: across }, Ratio { num: 1, den: 1 })
    } else {
        (Ratio { num: 1, den: 1 }, Ratio { num: across, den: down })
    }
}

proof fn lemma_area(a: u32, b: u32)
    requires
        a > 0,
        b > 0,
    ensures
        0 < a * b <= u64::MAX,
{
    assert(0 < a * b <= 0xffff_ffff * 0xffff_ffff) by (nonlinear_arith)
        requires
            0 < a <= 0xffff_ffff,
            0 < b <= 0xffff_ffff,
    ;
}

/// What became of the next image of the window.
#[derive(Clone, Copy, PartialEq, Eq, Structural, Debug)]
pub enum SurfaceStatus {
    Success,
    Suboptimal,
    Lost,
    Outdated,
    /// There is no image in time, or the window is hidden.
    Skipped,
}

/// The next image is drawn into.
pub open spec fn is_drawn(status: SurfaceStatus) -> bool {
    status == SurfaceStatus::Success || status == SurfaceStatus::Suboptimal
}

/// The surface has to be configured anew.
pub open spec fn is_stale(status: SurfaceStatus) -> bool {
    status == SurfaceStatus::Lost || status == SurfaceStatus::Outdated
}

/// Whether to draw into the next image, and whether the surface is still good; a surface that is
/// lost or outdated has to be configured anew.
pub fn render_outcome(status: SurfaceStatus) -> (r: (bool, bool))
    ensures
        r.0 == is_drawn(status),
        r.1 == !is_stale(status),
        r.0 <==> status == SurfaceStatus::Success || status == SurfaceStatus::Suboptimal,
        r.1 <==> status != SurfaceStatus::Lost && status != SurfaceStatus::Outdated,
{
    match status {
        SurfaceStatus::Success => (true, true),
        SurfaceStatus::Suboptimal => (true, true),
        SurfaceStatus::Lost => (false, false),
        SurfaceStatus::Outdated => (false, false),
        SurfaceStatus::Skipped => (false, true),
    }
}

// ── logo ────────────────────────────────────────────────────────────────────

/// What decoding a PNG file gives: the width and height of its first frame, the code of its colour
/// type, and its bytes. None where it cannot be decoded.
pub uninterp spec fn png_frame_of(data: Seq<u8>) -> Option<((u32, u32), u8, Seq<u8>)>;

/// The view of a decoded frame.
pub open spec fn frame_view(frame: Option<((u32, u32), u8, Vec<u8>)>) -> Option<
    ((u32, u32), u8, Seq<u8>),
> {
    match frame {
        Some((size, color, raw)) => Some((size, color, raw@)),
        None => None,
    }
}

/// The number that four bytes stand for, the highest first.
pub open spec fn big_endian(data: Seq<u8>, at: int) -> int {
    data[at] * 0x100_0000 + data[at + 1] * 0x1_0000 + data[at + 2] * 0x100 + data[at + 3]
}

/// The most bytes that a frame of the size in the header can take up: eight for each pixel.
pub open spec fn claimed_bytes(data: Seq<u8>) -> int {
    if data.len() < 24 {
        0
    } else {
        big_endian(data, 16) * big_endian(data, 20) * 8
    }
}

/// `png::Decoder`: `read_info` and `next_frame` decode the first frame of the file. What comes
/// out, or that nothing does, is a function of the file's bytes. The frame's buffer is allocated
/// by the size in the header, which therefore has to be one that can be allocated.
#[verifier::external_body]
fn read_png(data: &[u8]) -> (r: Option<((u32, u32), u8, Vec<u8>)>)
    requires
        claimed_bytes(data@) <= isize::MAX,
    ensures
        frame_view(r) == png_frame_of(data@),
{
    let mut reader = png::Decoder::new(data).read_info().ok()?;
    let mut buf = vec![0u8; reader.output_buffer_size()];
    let info = reader.next_frame(&mut buf).ok()?;
    buf.truncate(info.buffer_size());
    Some(((info.width, info.height), info.color_type as u8, buf))
}

/// Opaque RGBA pixels for RGB pixels.
pub open spec fn opaque_pixels(raw: Seq<u8>) -> Seq<u8> {
    Seq::new(
        (raw.len() / 3 * 4) as nat,
        |i: int|
            if i % 4 == 3 {
                255u8
            } else {
                raw[i / 4 * 3 + i % 4]
            },
    )
}

/// The code of the colour type RGB.
pub const PNG_RGB: u8 = 2;

/// The code of the colour type RGBA.
pub const PNG_RGBA: u8 = 6;

/// RGBA pixels for a frame: those of an RGBA frame as they are, those of an RGB frame made
/// opaque. Other colour types are not supported.
pub open spec fn rgba_pixels(color: u8, raw: Seq<u8>) -> Option<Seq<u8>> {
    if color == PNG_RGBA {
        Some(raw)
    } else if color == PNG_RGB {
        Some(opaque_pixels(raw))
    } else {
        None
    }
}

/// The view of optional bytes.
pub open spec fn bytes_view(bytes: Option<Vec<u8>>) -> Option<Seq<u8>> {
    match bytes {
        Some(bytes) => Some(bytes@),
        None => None,
    }
}

/// RGBA pixels for a frame.
pub fn to_rgba(color: u8, raw: Vec<u8>) -> (r: Option<Vec<u8>>)
    ensures
        bytes_view(r) == rgba_pixels(color, raw@),
{
    if color == PNG_RGBA {
        return Some(raw);
    }
    if color != PNG_RGB {
        return None;
    }
    let n: usize = raw.len() / 3;
    let mut out: Vec<u8> = Vec::new();
    let mut i: usize = 0;
    while i < n
        invariant
            i <= n,
            n == raw@.len() / 3,
            out@.len() == i * 4,
            forall|k: int| 0 <= k < i * 4 ==> #[trigger] out@[k] == opaque_pixels(raw@)[k],
        decreases n - i,
    {
        assert(i * 3 + 3 <= raw.len());
        out.push(raw[i * 3]);
        out.push(raw[i * 3 + 1]);
        out.push(raw[i * 3 + 2]);
        out.push(255);
        i = i + 1;
    }
    assert(out@ =~= opaque_pixels(raw@));
    Some(out)
}

/// The bytes of a frame that the header claims.
fn header_bytes(data: &[u8]) -> (r: u128)
    ensures
        r == claimed_bytes(data@),
{
    if data.len() < 24 {
        return 0;
    }
    let w: u128 = data[16] as u128 * 0x100_0000 + data[17] as u128 * 0x1_0000 + data[18] as u128
        * 0x100 + data[19] as u128;
    let h: u128 = data[20] as u128 * 0x100_0000 + data[21] as u128 * 0x1_0000 + data[22] as u128
        * 0x100 + data[23] as u128;
    assert(0 <= w * h <= 0xffff_ffff * 0xffff_ffff) by (nonlinear_arith)
        requires
            0 <= w <= 0xffff_ffff,
            0 <= h <= 0xffff_ffff,
    ;
    w * h * 8
}

/// The logo, as pixels.
pub struct Logo {
    /// Width and height in pixels.
    pub size: (u32, u32),
    /// RGBA pixels, row by row.
    pub rgba: Vec<u8>,
}

/// The logo that a decoded frame holds: its size, and its RGBA pixels.
pub open spec fn logo_of(frame: Option<((u32, u32), u8, Seq<u8>)>) -> Option<
    ((u32, u32), Seq<u8>),
> {
    match frame {
        Some((size, color, raw)) => match rgba_pixels(color, raw) {
            Some(rgba) => Some((size, rgba)),
            None => None,
        },
        None => None,
    }
}

/// The view of an optional logo.
pub open spec fn logo_view(logo: Option<Logo>) -> Option<((u32, u32), Seq<u8>)> {
    match logo {
        Some(logo) => Some((logo.size, logo.rgba@)),
        None => None,
    }
}

/// The logo that a decoded frame holds; none where its colour type is neither RGB nor RGBA.
pub fn to_logo(frame: Option<((u32, u32), u8, Vec<u8>)>) -> (r: Option<Logo>)
    ensures
        logo_view(r) == logo_of(frame_view(frame)),
{
    match frame {
        Some((size, color, raw)) => match to_rgba(color, raw) {
            Some(rgba) => Some(Logo { size, rgba }),
            None => None,
        },
        None => None,
    }
}

/// The logo in a PNG file; none where the file cannot be decoded, claims a size that cannot be
/// allocated, or has a colour type other than RGB and RGBA.
pub fn decode_logo_png(data: &[u8]) -> (r: Option<Logo>)
    ensures
        logo_view(r) == if claimed_bytes(data@) > isize::MAX {
            None
        } else {
            logo_of(png_frame_of(data@))
        },
{
    if header_bytes(data) > isize::MAX as u128 {
        return None;
    }
    to_logo(read_png(data))
}

// ── laws ────────────────────────────────────────────────────────────────────

/// However the window is shaped, the logo keeps its shape in it.
pub proof fn law_logo_keeps_its_shape(win: (u32, u32), logo: (u32, u32))
    requires
        win.0 > 0,
        win.1 > 0,
        logo.0 > 0,
        logo.1 > 0,
    ensures
        // width on screen times logo height is height on screen times logo width
        is_wider(win, logo) ==> (win.0 * (logo.0 * win.1)) * logo.1 == (win.1 * (logo.1 * win.0))
            * logo.0,
        !is_wider(win, logo) ==> (win.0 * (win.1 * logo.0)) * logo.1 == (win.1 * (win.0 * logo.1))
            * logo.0,
{
    let (a, b, c, d) = (win.0 as int, win.1 as int, logo.0 as int, logo.1 as int);
    assert((a * (c * b)) * d == (b * (d * a)) * c) by (nonlinear_arith);
    assert((a * (b * c)) * d == (b * (a * d)) * c) by (nonlinear_arith);
}

/// Making pixels opaque keeps their colours.
pub proof fn law_opaque_pixels_keep_their_colours(raw: Seq<u8>, pixel: int)
    requires
        0 <= pixel < raw.len() / 3,
    ensures
        opaque_pixels(raw)[pixel * 4] == raw[pixel * 3],
        opaque_pixels(raw)[pixel * 4 + 1] == raw[pixel * 3 + 1],
        opaque_pixels(raw)[pixel * 4 + 2] == raw[pixel * 3 + 2],
        opaque_pixels(raw)[pixel * 4 + 3] == 255,
{
}

/// The logo is shown as large as fits: it lies inside the window, touches it on two sides, and
/// keeps its shape, that is its width on the screen is to its height as its own width is to its
/// own height.
pub proof fn law_logo_fits_the_window(win: (u32, u32), logo: (u32, u32))
    requires
        win.0 > 0,
        win.1 > 0,
        logo.0 > 0,
        logo.1 > 0,
    ensures
        ({
            let ((wn, wd), (hn, hd)) = scale_of(win, logo);
            &&& 0 < wn <= wd
            &&& 0 < hn <= hd
            &&& wn == wd || hn == hd
            &&& (win.0 * wn) * hd * logo.1 == (win.1 * hn) * wd * logo.0
        }),
{
    let (a, b, c, d) = (win.0 as int, win.1 as int, logo.0 as int, logo.1 as int);
    assert(a * d > 0 && c * b > 0 && d * a == a * d && b * c == c * b) by (nonlinear_arith)
        requires
            a > 0,
            b > 0,
            c > 0,
            d > 0,
    ;
    assert((a * (c * b)) * 1 * d == (b * 1) * (d * a) * c) by (nonlinear_arith);
    assert((a * 1) * (b * c) * d == (b * (a * d)) * 1 * c) by (nonlinear_arith);
}

/// A surface is never without area: a new one has at least one pixel either way, and a window
/// without area does not change the one there is.
pub proof fn law_surfaces_have_area(width: u32, height: u32, size: (u32, u32), new_size: (u32, u32))
    requires
        size.0 > 0,
        size.1 > 0,
    ensures
        side_of(width as int) >= 1,
        width >= 1 ==> side_of(width as int) == width,
        size_after(size, new_size).0 > 0 && size_after(size, new_size).1 > 0,
        new_size.0 > 0 && new_size.1 > 0 ==> size_after(size, new_size) == new_size,
        new_size.0 == 0 || new_size.1 == 0 ==> size_after(size, new_size) == size,
{
}

/// An image that was had is drawn into; a surface that is lost or outdated is configured anew, and
/// a frame that is skipped leaves it alone.
pub proof fn law_outcomes_of_images()
    ensures
        is_drawn(SurfaceStatus::Success) && is_drawn(SurfaceStatus::Suboptimal),
        !is_drawn(SurfaceStatus::Lost) && !is_drawn(SurfaceStatus::Outdated) && !is_drawn(
            SurfaceStatus::Skipped,
        ),
        is_stale(SurfaceStatus::Lost) && is_stale(SurfaceStatus::Outdated),
        !is_stale(SurfaceStatus::Success) && !is_stale(SurfaceStatus::Suboptimal) && !is_stale(
            SurfaceStatus::Skipped,
        ),
{
}

/// Each pixel of three bytes becomes one of four.
pub proof fn law_opaque_pixels_are_as_many(raw: Seq<u8>)
    ensures
        opaque_pixels(raw).len() == raw.len() / 3 * 4,
{
}

/// An RGBA frame is taken as it is, an RGB frame is made opaque, and no other colour type is
/// shown; the size is that of the frame.
pub proof fn law_logo_of_a_frame(size: (u32, u32), color: u8, raw: Seq<u8>)
    ensures
        logo_of(Some((size, 6u8, raw))) == Some((size, raw)),
        logo_of(Some((size, 2u8, raw))) == Some((size, opaque_pixels(raw))),
        color != 2 && color != 6 ==> logo_of(Some((size, color, raw))) is None,
        logo_of(None) is None,
{
}

/// The size in a header is written with the highest byte first.
pub proof fn law_sizes_are_big_endian(data: Seq<u8>, at: int)
    ensures
        0 <= big_endian(data, at) <= u32::MAX,
        big_endian(data, at) % 256 == data[at + 3],
        big_endian(data, at) / 256 % 256 == data[at + 2],
        big_endian(data, at) / 65536 % 256 == data[at + 1],
        big_endian(data, at) / 16777216 == data[at],
{
    let size = big_endian(data, at);
    assert(size / 256 == data[at + 2] + data[at + 1] * 0x100 + data[at] * 0x1_0000);
    assert(size / 65536 == data[at + 1] + data[at] * 0x100);
}

/// A file with a header claims eight bytes for each pixel of the size in it; one that is too short
/// for a header claims none.
pub proof fn law_claims_of_a_header(data: Seq<u8>, w: int, h: int)
    requires
        data.len() >= 24 ==> w == big_endian(data, 16) && h == big_endian(data, 20),
    ensures
        data.len() >= 24 ==> claimed_bytes(data) == w * h * 8,
        data.len() < 24 ==> claimed_bytes(data) == 0,
{
}

} // verus!
