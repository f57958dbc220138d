//! Pixels of decoded frames: planes, rows and colour conversion.

use vstd::prelude::*;

verus! {

/// Pixel format carried by a `VideoFrame`.
#[derive(Clone, Copy, PartialEq, Eq, Structural, Debug)]
pub enum VideoFormat {
    /// Tightly packed BGRA, `width × height × 4` bytes.
    Bgra,
    /// Raw NV12 from the decoder: `stride` bytes per row, the UV plane from byte `uv_offset` on.
    Nv12 { stride: usize, uv_offset: usize },
    /// The frame is on the GPU already; it carries no bytes.
    GpuReady,
}

/// A decoded video frame.
pub struct VideoFrame {
    pub data: Vec<u8>,
    pub format: VideoFormat,
}

// ── NV12 ────────────────────────────────────────────────────────────────────

/// Bytes per row for a pitch, which is negative where rows are stored bottom up.
pub open spec fn stride_of(pitch: int) -> int {
    if pitch >= 0 {
        pitch
    } else {
        -pitch
    }
}

/// Where the UV plane starts in a buffer of `physical_len` bytes.
///
/// Hardware decoders pad the height to a block boundary, and the UV plane starts after the
/// padded rows. An NV12 buffer holds three rows for every two of the Y plane, so two thirds of
/// the rows that it holds are the Y plane's. Where the length is not known to cover the visible
/// rows, the height is taken to be unpadded.
pub open spec fn uv_offset_of(physical_len: int, stride: int, height: int) -> int {
    if stride > 0 && physical_len >= height * stride {
        (physical_len / stride / 3 * 2) * stride
    } else {
        height * stride
    }
}

/// Bytes of both planes, from the first byte of the Y plane to the last visible UV row.
pub open spec fn nv12_len(physical_len: int, stride: int, height: int) -> int {
    uv_offset_of(physical_len, stride, height) + (height / 2) * stride
}

/// Bytes of the buffer behind `scan0`.
pub open spec fn bytes_behind(buf_size: int, scan0: int, buf_start: int) -> int {
    let pre = if scan0 >= buf_start {
        scan0 - buf_start
    } else {
        0
    };
    if buf_size >= pre {
        buf_size - pre
    } else {
        0
    }
}

/// Bytes of the buffer behind `scan0`, where the whole buffer of `buf_size` bytes begins at
/// `buf_start`.
pub fn effective_len(buf_size: u32, scan0: usize, buf_start: usize) -> (r: usize)
    ensures
        r == bytes_behind(buf_size as int, scan0 as int, buf_start as int),
        r == {
            let pre = if scan0 >= buf_start {
                scan0 - buf_start
            } else {
                0
            };
            if buf_size >= pre {
                buf_size - pre
            } else {
                0
            }
        },
{
    let pre: usize = if scan0 >= buf_start {
        scan0 - buf_start
    } else {
        0
    };
    let size: usize = buf_size as usize;
    if size >= pre {
        size - pre
    } else {
        0
    }
}

/// How an NV12 buffer is laid out.
#[derive(Clone, Copy)]
pub struct Nv12Layout {
    pub stride: usize,
    pub uv_offset: usize,
    /// Bytes of both planes.
    pub len: usize,
}

/// The layout of an NV12 buffer of `physical_len` bytes.
pub fn nv12_layout(physical_len: usize, pitch: i32, height: usize) -> (r: Nv12Layout)
    requires
        height * stride_of(pitch as int) <= usize::MAX,
        nv12_len(physical_len as int, stride_of(pitch as int), height as int) <= usize::MAX,
    ensures
        r.stride == stride_of(pitch as int),
        r.uv_offset == uv_offset_of(physical_len as int, r.stride as int, height as int),
        r.len == nv12_len(physical_len as int, r.stride as int, height as int),
{
    let stride: usize = if pitch >= 0 {
        pitch as usize
    } else {
        (-(pitch as i64)) as usize
    };
    let visible: usize = height * stride;
    assert((height / 2) * stride <= height * stride) by (nonlinear_arith)
        requires
            height >= 0,
            stride >= 0,
    ;
    let uv_offset: usize = if stride > 0 && physical_len >= visible {
        let rows: usize = physical_len / stride;
        assert(0 <= (physical_len / stride / 3 * 2) * stride <= physical_len) by (nonlinear_arith)
            requires
                stride > 0,
                physical_len >= 0,
        ;
        assert(rows / 3 * 2 <= rows);
        (rows / 3 * 2) * stride
    } else {
        visible
    };
    Nv12Layout { stride, uv_offset, len: uv_offset + (height / 2) * stride }
}

/// Copies both planes of an NV12 buffer, which begins with the first byte of the Y plane,
/// without any colour conversion.
pub fn extract_nv12_raw(buffer: &[u8], physical_len: usize, pitch: i32, height: usize) -> (r:
    VideoFrame)
    requires
        height * stride_of(pitch as int) <= usize::MAX,
        nv12_len(physical_len as int, stride_of(pitch as int), height as int) <= buffer@.len(),
    ensures
        r.format is Nv12,
        r.format->stride == stride_of(pitch as int),
        r.format->uv_offset == uv_offset_of(
            physical_len as int,
            stride_of(pitch as int),
            height as int,
        ),
        r.data@ == buffer@.take(
            nv12_len(physical_len as int, stride_of(pitch as int), height as int),
        ),
{
    assert(buffer.len() <= usize::MAX);
    let layout = nv12_layout(physical_len, pitch, height);
    let data = vstd::slice::slice_to_vec(
        vstd::slice::slice_subrange(buffer, 0, layout.len),
    );
    assert(data@ =~= buffer@.take(layout.len as int));
    VideoFrame {
        data,
        format: VideoFormat::Nv12 { stride: layout.stride, uv_offset: layout.uv_offset },
    }
}

// ── BGRA ────────────────────────────────────────────────────────────────────

/// Where a row starts in a buffer whose first row starts at `scan0`.
pub open spec fn row_start(scan0: int, pitch: int, row: int) -> int {
    scan0 + row * pitch
}

/// Every row of `row_bytes` bytes lies inside a buffer of `len` bytes.
pub open spec fn rows_fit(len: int, scan0: int, pitch: int, row_bytes: int, height: int) -> bool {
    forall|row: int|
        0 <= row < height ==> 0 <= #[trigger] row_start(scan0, pitch, row) && row_start(
            scan0,
            pitch,
            row,
        ) + row_bytes <= len
}

/// The rows of a buffer, one after the other without padding.
pub open spec fn packed_rows(
    buffer: Seq<u8>,
    scan0: int,
    pitch: int,
    row_bytes: int,
    height: int,
) -> Seq<u8>
    decreases height,
{
    if height <= 0 {
        Seq::empty()
    } else {
        packed_rows(buffer, scan0, pitch, row_bytes, height - 1) + buffer.subrange(
            row_start(scan0, pitch, height - 1),
            row_start(scan0, pitch, height - 1) + row_bytes,
        )
    }
}

/// Copies the rows of a BGRA buffer, dropping what its pitch adds to them. The first row starts
/// at `scan0`; a negative pitch leads from each row to one before it.
pub fn extract_bgra_via_2d(
    buffer: &[u8],
    scan0: usize,
    pitch: i32,
    width: usize,
    height: usize,
) -> (r: Vec<u8>)
    requires
        width * 4 <= usize::MAX,
        rows_fit(buffer@.len() as int, scan0 as int, pitch as int, width * 4, height as int),
    ensures
        r@ == packed_rows(buffer@, scan0 as int, pitch as int, width * 4, height as int),
{
    let row_bytes: usize = width * 4;
    let mut out: Vec<u8> = Vec::new();
    let mut row: usize = 0;
    while row < height
        invariant
            row <= height,
            row_bytes == width * 4,
            rows_fit(buffer@.len() as int, scan0 as int, pitch as int, width * 4, height as int),
            out@ == packed_rows(buffer@, scan0 as int, pitch as int, width * 4, row as int),
        decreases height - row,
    {
        let ghost at = row_start(scan0 as int, pitch as int, row as int);
        assert(-0x1_0000_0000_0000_0000 * 0x8000_0000 <= row * pitch <= 0x1_0000_0000_0000_0000
            * 0x8000_0000) by (nonlinear_arith)
            requires
                0 <= row <= 0xffff_ffff_ffff_ffff,
                -0x8000_0000 <= pitch <= 0x7fff_ffff,
        ;
        assert(0 <= at && at + row_bytes <= buffer.len());
        let start: usize = (scan0 as i128 + row as i128 * pitch as i128) as usize;
        assert(start == at);
        let bytes = vstd::slice::slice_subrange(buffer, start, start + row_bytes);
        let mut bytes = vstd::slice::slice_to_vec(bytes);
        out.append(&mut bytes);
        row = row + 1;
    }
    out
}

/// The first `len` bytes of `raw`, with zeros where `raw` is shorter.
pub open spec fn fitted(raw: Seq<u8>, len: int) -> Seq<u8> {
    Seq::new(
        len as nat,
        |i: int|
            if i < raw.len() {
                raw[i]
            } else {
                0u8
            },
    )
}

/// The pixels of a BGRA buffer that has no rows of its own.
pub fn fit_bgra(raw: &[u8], width: usize, height: usize) -> (r: Vec<u8>)
    requires
        width * 4 * height <= usize::MAX,
        width * 4 <= usize::MAX,
    ensures
        r@ == fitted(raw@, width * 4 * height),
{
    let len: usize = width * 4 * height;
    let mut out: Vec<u8> = Vec::new();
    let mut i: usize = 0;
    while i < len
        invariant
            i <= len,
            out@ == fitted(raw@, i as int),
        decreases len - i,
    {
        let byte: u8 = if i < raw.len() {
            raw[i]
        } else {
            0
        };
        out.push(byte);
        i = i + 1;
    }
    out
}

// ── YUY2 ────────────────────────────────────────────────────────────────────

/// `x` held between 0 and 255.
pub open spec fn clamped(x: int) -> int {
    if x < 0 {
        0
    } else if x > 255 {
        255
    } else {
        x
    }
}

/// Blue, green, red and alpha of the video-range colour `(y, u, v)`, in BT.601 fixed point with
/// eight fractional bits.
pub open spec fn bgra_of(y: int, u: int, v: int) -> Seq<int> {
    let c = 298 * (y - 16);
    let d = u - 128;
    let e = v - 128;
    seq![
        clamped((c + 516 * d + 128) / 256),
        clamped((c - 100 * d - 208 * e + 128) / 256),
        clamped((c + 409 * e + 128) / 256),
        255,
    ]
}

/// Where the group of four bytes starts that holds a pixel: two pixels share one group.
pub open spec fn yuy2_group(w: int, row: int, col: int) -> int {
    row * w * 2 + (col - col % 2) * 2
}

/// Blue, green, red and alpha of a pixel of a YUY2 image.
pub open spec fn yuy2_pixel(src: Seq<u8>, w: int, row: int, col: int) -> Seq<int> {
    let at = yuy2_group(w, row, col);
    bgra_of(src[at + (col % 2) * 2] as int, src[at + 1] as int, src[at + 3] as int)
}

/// Bytes that the groups of a YUY2 image reach over: the last group of the last row is read
/// whole even where the width is odd.
pub open spec fn yuy2_len(w: int, h: int) -> int {
    if w <= 0 || h <= 0 {
        0
    } else {
        w * h * 2 + (w % 2) * 2
    }
}

proof fn lemma_yuy2_group_fits(w: int, h: int, row: int, col: int)
    requires
        0 <= row < h,
        0 <= col < w,
    ensures
        0 <= row * w * 2 <= h * w * 2,
        0 <= yuy2_group(w, row, col),
        yuy2_group(w, row, col) + 4 <= yuy2_len(w, h),
{
    assert(row * w + w <= h * w) by (nonlinear_arith)
        requires
            0 <= row < h,
            0 < w,
    ;
    assert(0 <= row * w) by (nonlinear_arith)
        requires
            0 <= row,
            0 < w,
    ;
    assert(h * w == w * h) by (nonlinear_arith);
}

/// `x / 256` rounded down, held between 0 and 255.
fn clamp_byte(x: i32) -> (r: u8)
    requires
        -0x100000 <= x <= 0x100000,
    ensures
        r == clamped(x as int / 256),
{
    let q: i32 = (x + 0x100000) / 256 - 4096;
    assert(q == x as int / 256);
    if q < 0 {
        0
    } else if q > 255 {
        255
    } else {
        q as u8
    }
}

/// Converts a YUY2 image to tightly packed BGRA.
pub fn yuy2_to_bgra(src: &[u8], w: usize, h: usize) -> (r: Vec<u8>)
    requires
        w * h * 4 <= usize::MAX,
        yuy2_len(w as int, h as int) <= src@.len(),
    ensures
        r@.len() == w * h * 4,
        forall|row: int, col: int, k: int|
            0 <= row < h && 0 <= col < w && 0 <= k < 4 ==> #[trigger] r@[(row * w + col) * 4 + k]
                == #[trigger] yuy2_pixel(src@, w as int, row, col)[k],
{
    let mut dst: Vec<u8> = Vec::new();
    let mut row: usize = 0;
    while row < h
        invariant
            row <= h,
            w * h * 4 <= usize::MAX,
            yuy2_len(w as int, h as int) <= src@.len(),
            dst@.len() == row * w * 4,
            forall|i: int, j: int, k: int|
                0 <= i < row && 0 <= j < w && 0 <= k < 4 ==> #[trigger] dst@[(i * w + j) * 4 + k]
                    == #[trigger] yuy2_pixel(src@, w as int, i, j)[k],
        decreases h - row,
    {
        let mut col: usize = 0;
        while col < w
            invariant
                row < h,
                col <= w,
                w * h * 4 <= usize::MAX,
                yuy2_len(w as int, h as int) <= src@.len(),
                dst@.len() == (row * w + col) * 4,
                forall|i: int, j: int, k: int|
                    0 <= i <= row && 0 <= j < w && (i < row || j < col) && 0 <= k < 4
                        ==> #[trigger] dst@[(i * w + j) * 4 + k] == #[trigger] yuy2_pixel(
                        src@,
                        w as int,
                        i,
                        j,
                    )[k],
            decreases w - col,
        {
            proof {
                lemma_yuy2_group_fits(w as int, h as int, row as int, col as int);
                assert(h * w == w * h) by (nonlinear_arith);
                assert(row * w <= h * w) by (nonlinear_arith)
                    requires
                        row < h,
                        w >= 0,
                ;
            }
            let base: usize = row * w * 2 + (col - col % 2) * 2;
            assert(base == yuy2_group(w as int, row as int, col as int));
            let y: i32 = src[base + col % 2 * 2] as i32 - 16;
            let u: i32 = src[base + 1] as i32 - 128;
            let v: i32 = src[base + 3] as i32 - 128;
            let c: i32 = 298 * y;
            let b = clamp_byte(c + 516 * u + 128);
            let g = clamp_byte(c - 100 * u - 208 * v + 128);
            let r = clamp_byte(c + 409 * v + 128);
            let ghost before = dst@;
            dst.push(b);
            dst.push(g);
            dst.push(r);
            dst.push(255);
            proof {
                let pixel = yuy2_pixel(src@, w as int, row as int, col as int);
                assert(pixel[0] == b && pixel[1] == g && pixel[2] == r && pixel[3] == 255);
                assert forall|i: int, j: int, k: int|
                    0 <= i <= row && 0 <= j < w && (i < row || j < col + 1) && 0 <= k
                        < 4 implies #[trigger] dst@[(i * w + j) * 4 + k] == #[trigger] yuy2_pixel(
                    src@,
                    w as int,
                    i,
                    j,
                )[k] by {
                    if i < row || j < col {
                        assert(i * w + j < row * w + col) by (nonlinear_arith)
                            requires
                                (i < row && j < w) || (i == row && j < col),
                                w >= 0,
                                col >= 0,
                        ;
                        assert(0 <= i * w + j) by (nonlinear_arith)
                            requires
                                0 <= i,
                                0 <= j,
                                0 <= w,
                        ;
                        assert(dst@[(i * w + j) * 4 + k] == before[(i * w + j) * 4 + k]);
                    }
                }
            }
            col = col + 1;
        }
        assert(row * w + w == (row + 1) * w) by (nonlinear_arith);
        row = row + 1;
    }
    assert(h * w == w * h) by (nonlinear_arith);
    dst
}

// ── PCM ─────────────────────────────────────────────────────────────────────

/// The little-endian 32-bit word made of four bytes.
pub open spec fn word_of(b0: u8, b1: u8, b2: u8, b3: u8) -> int {
    b0 + b1 * 0x100 + b2 * 0x1_0000 + b3 * 0x100_0000
}

/// The little-endian 32-bit words in `bytes`; what is left over behind the last whole word is
/// dropped. Each word is the bit pattern of one float sample.
pub fn pcm_words(bytes: &[u8]) -> (r: Vec<u32>)
    ensures
        r@.len() == bytes@.len() / 4,
        forall|i: int|
            0 <= i < r@.len() ==> #[trigger] r@[i] == word_of(
                bytes@[4 * i],
                bytes@[4 * i + 1],
                bytes@[4 * i + 2],
                bytes@[4 * i + 3],
            ),
{
    let n: usize = bytes.len() / 4;
    let mut out: Vec<u32> = Vec::new();
    let mut i: usize = 0;
    while i < n
        invariant
            i <= n,
            n == bytes@.len() / 4,
            out@.len() == i,
            forall|j: int|
                0 <= j < i ==> #[trigger] out@[j] == word_of(
                    bytes@[4 * j],
                    bytes@[4 * j + 1],
                    bytes@[4 * j + 2],
                    bytes@[4 * j + 3],
                ),
        decreases n - i,
    {
        assert(4 * i + 4 <= bytes.len());
        let word: u32 = bytes[4 * i] as u32 + bytes[4 * i + 1] as u32 * 0x100 + bytes[4 * i
            + 2] as u32 * 0x1_0000 + bytes[4 * i + 3] as u32 * 0x100_0000;
        out.push(word);
        i = i + 1;
    }
    out
}

// ── laws ────────────────────────────────────────────────────────────────────

/// Where a buffer holds `coded_height` rows of Y and half as many of UV, the UV plane starts
/// right behind the coded rows, however many of them are visible.
pub proof fn law_uv_plane_follows_the_coded_rows(coded_height: int, stride: int, height: int)
    requires
        0 < stride,
        0 <= height <= coded_height,
        coded_height % 2 == 0,
    ensures
        uv_offset_of(coded_height * stride * 3 / 2, stride, height) == coded_height * stride,
{
    let half = coded_height / 2;
    assert(coded_height * stride * 3 == (half * 3 * stride) * 2) by (nonlinear_arith)
        requires
            coded_height == half * 2,
    ;
    let len = coded_height * stride * 3 / 2;
    assert(len == half * 3 * stride);
    assert(len / stride == half * 3) by (nonlinear_arith)
        requires
            len == (half * 3) * stride,
            stride > 0,
    ;
    assert(len >= height * stride) by (nonlinear_arith)
        requires
            len == (half * 3) * stride,
            height <= half * 2,
            0 <= half,
            stride > 0,
    ;
}

/// Rows that are stored one after the other from the first byte on are copied as they are.
pub proof fn law_tight_rows_are_copied_as_they_are(
    buffer: Seq<u8>,
    row_bytes: int,
    height: int,
)
    requires
        0 <= row_bytes,
        0 <= height,
        row_bytes * height <= buffer.len(),
    ensures
        packed_rows(buffer, 0, row_bytes, row_bytes, height) == buffer.take(row_bytes * height),
    decreases height,
{
    if height > 0 {
        assert(row_bytes * (height - 1) + row_bytes == row_bytes * height) by (nonlinear_arith);
        assert(row_bytes * (height - 1) == (height - 1) * row_bytes) by (nonlinear_arith);
        assert(0 <= row_bytes * (height - 1)) by (nonlinear_arith)
            requires
                0 <= row_bytes,
                0 < height,
        ;
        law_tight_rows_are_copied_as_they_are(buffer, row_bytes, height - 1);
    } else {
        assert(row_bytes * height == 0) by (nonlinear_arith)
            requires
                height == 0,
        ;
    }
    assert(packed_rows(buffer, 0, row_bytes, row_bytes, height) =~= buffer.take(
        row_bytes * height,
    ));
}

/// The stride is the pitch without its sign.
pub proof fn law_stride_is_the_pitch_without_sign(pitch: int)
    ensures
        stride_of(pitch) >= 0,
        stride_of(pitch) == pitch || stride_of(pitch) == -pitch,
        stride_of(pitch) == stride_of(-pitch),
{
}

/// The Y plane takes two of every three rows that the buffer holds, where it holds the visible
/// rows at least; else the UV plane follows the visible rows.
pub proof fn law_uv_plane_starts_behind_two_thirds(physical_len: int, stride: int, height: int, k: int)
    requires
        0 <= physical_len,
        0 <= height,
        0 < stride,
        0 <= k,
        3 * k * stride <= physical_len < 3 * (k + 1) * stride,
    ensures
        physical_len >= height * stride ==> uv_offset_of(physical_len, stride, height) == 2 * k
            * stride,
        physical_len < height * stride ==> uv_offset_of(physical_len, stride, height) == height
            * stride,
{
    let rows = physical_len / stride;
    assert(3 * k <= rows < 3 * (k + 1)) by (nonlinear_arith)
        requires
            rows == physical_len / stride,
            0 < stride,
            3 * k * stride <= physical_len < 3 * (k + 1) * stride,
    ;
    assert(rows / 3 == k);
    assert((rows / 3 * 2) * stride == 2 * k * stride) by (nonlinear_arith)
        requires
            rows / 3 == k,
    ;
}

/// What is copied of an NV12 buffer reaches from its first byte to the end of the last visible
/// UV row, and no further.
pub proof fn law_visible_chroma_rows_are_copied(
    physical_len: int,
    stride: int,
    height: int,
    y: int,
    x: int,
)
    requires
        0 <= physical_len,
        0 <= height,
        0 <= x < stride,
        0 <= y,
    ensures
        2 * y + 1 < height <==> uv_offset_of(physical_len, stride, height) + y * stride + x
            < nv12_len(physical_len, stride, height),
{
    let half = height / 2;
    if y < half {
        assert(y * stride + stride <= half * stride) by (nonlinear_arith)
            requires
                y + 1 <= half,
                0 < stride,
        ;
    } else {
        assert(half * stride <= y * stride) by (nonlinear_arith)
            requires
                half <= y,
                0 < stride,
        ;
    }
}

/// Each row is copied from its place, one pitch after the row above it, and the rows follow each
/// other without padding.
pub proof fn law_rows_are_copied_from_their_places(
    buffer: Seq<u8>,
    scan0: int,
    pitch: int,
    row_bytes: int,
    height: int,
    row: int,
    x: int,
)
    requires
        0 <= row < height,
        0 <= x < row_bytes,
        forall|i: int|
            0 <= i < height ==> 0 <= scan0 + #[trigger] (i * pitch) && scan0 + i * pitch + row_bytes
                <= buffer.len(),
    ensures
        packed_rows(buffer, scan0, pitch, row_bytes, height).len() == height * row_bytes,
        packed_rows(buffer, scan0, pitch, row_bytes, height)[row * row_bytes + x] == buffer[scan0
            + row * pitch + x],
    decreases height,
{
    let last = height - 1;
    let place = last * pitch;
    assert(0 <= scan0 + place && scan0 + place + row_bytes <= buffer.len());
    assert(last * row_bytes + row_bytes == height * row_bytes) by (nonlinear_arith)
        requires
            last == height - 1,
    ;
    if height > 1 {
        let inner = if row < last {
            row
        } else {
            0
        };
        law_rows_are_copied_from_their_places(buffer, scan0, pitch, row_bytes, last, inner, x);
    } else {
        assert(packed_rows(buffer, scan0, pitch, row_bytes, last).len() == 0);
        assert(last * row_bytes == 0) by (nonlinear_arith)
            requires
                last == 0,
        ;
    }
    if row < last {
        assert(row * row_bytes + x < last * row_bytes) by (nonlinear_arith)
            requires
                row + 1 <= last,
                x < row_bytes,
                0 < row_bytes,
        ;
        assert(0 <= row * row_bytes) by (nonlinear_arith)
            requires
                0 <= row,
                0 < row_bytes,
        ;
    }
}

/// A buffer without rows of its own is cut off where it is too long and filled up with zeros
/// where it is too short.
pub proof fn law_pixels_are_cut_off_or_filled_up(raw: Seq<u8>, len: int)
    requires
        0 <= len,
    ensures
        fitted(raw, len).len() == len,
        len <= raw.len() ==> fitted(raw, len) == raw.take(len),
        len > raw.len() ==> fitted(raw, len) == raw + Seq::new(
            (len - raw.len()) as nat,
            |i: int| 0u8,
        ),
{
    if len <= raw.len() {
        assert(fitted(raw, len) =~= raw.take(len));
    } else {
        assert(fitted(raw, len) =~= raw + Seq::new((len - raw.len()) as nat, |i: int| 0u8));
    }
}

/// `n` is what is nearest to `x / 256` of the numbers from 0 to 255; halves go up.
pub open spec fn is_nearest_byte(n: int, x: int) -> bool {
    &&& 0 <= n <= 255
    &&& n > 0 ==> 256 * n - 128 <= x
    &&& n < 255 ==> x < 256 * n + 128
}

/// Colours are converted by the BT.601 matrix for video range, in 256ths, to the nearest bytes;
/// they are opaque.
pub proof fn law_colours_follow_bt601(y: int, u: int, v: int)
    ensures
        bgra_of(y, u, v).len() == 4,
        is_nearest_byte(bgra_of(y, u, v)[0], 298 * (y - 16) + 516 * (u - 128)),
        is_nearest_byte(
            bgra_of(y, u, v)[1],
            298 * (y - 16) - 100 * (u - 128) - 208 * (v - 128),
        ),
        is_nearest_byte(bgra_of(y, u, v)[2], 298 * (y - 16) + 409 * (v - 128)),
        bgra_of(y, u, v)[3] == 255,
{
}

/// Without colour difference a pixel is grey, from black at 16 to white at 235, and brighter
/// pixels are not darker.
pub proof fn law_greys_stay_grey(y: int, brighter: int)
    requires
        y <= brighter,
    ensures
        bgra_of(y, 128, 128)[0] == bgra_of(y, 128, 128)[1],
        bgra_of(y, 128, 128)[1] == bgra_of(y, 128, 128)[2],
        bgra_of(y, 128, 128)[0] <= bgra_of(brighter, 128, 128)[0],
        y <= 16 ==> bgra_of(y, 128, 128)[0] == 0,
        y >= 235 ==> bgra_of(y, 128, 128)[0] == 255,
{
}

/// A YUY2 image holds two bytes for each pixel: its luma first, then the blue difference of its
/// pair with the left pixel and the red difference with the right one.
pub proof fn law_pairs_share_their_colour(src: Seq<u8>, w: int, row: int, col: int)
    requires
        0 <= w,
        0 <= row,
        0 <= col,
    ensures
        ({
            let here = row * w + col;
            let left = here - col % 2;
            yuy2_pixel(src, w, row, col) == bgra_of(
                src[2 * here] as int,
                src[2 * left + 1] as int,
                src[2 * left + 3] as int,
            )
        }),
{
    let here = row * w + col;
    assert(row * w * 2 == 2 * (row * w)) by (nonlinear_arith);
    assert(yuy2_group(w, row, col) == 2 * (here - col % 2));
}

/// The first byte of a word counts ones, and each further one counts 256 times as much.
pub proof fn law_words_are_little_endian(b0: u8, b1: u8, b2: u8, b3: u8)
    ensures
        0 <= word_of(b0, b1, b2, b3) <= u32::MAX,
        word_of(b0, b1, b2, b3) % 256 == b0,
        word_of(b0, b1, b2, b3) / 256 % 256 == b1,
        word_of(b0, b1, b2, b3) / 65536 % 256 == b2,
        word_of(b0, b1, b2, b3) / 16777216 == b3,
{
    let word = word_of(b0, b1, b2, b3);
    assert(word / 256 == b1 + b2 * 0x100 + b3 * 0x1_0000);
    assert(word / 65536 == b2 + b3 * 0x100);
}

/// What lies behind the first row and what lies before it make up the buffer; where the first row is
/// said to lie outside, nothing lies behind it at the far end, and all of it at the near end.
pub proof fn law_bytes_behind_the_first_row(buf_size: int, scan0: int, buf_start: int)
    requires
        0 <= buf_size,
    ensures
        buf_start <= scan0 <= buf_start + buf_size ==> (scan0 - buf_start) + bytes_behind(
            buf_size,
            scan0,
            buf_start,
        ) == buf_size,
        scan0 > buf_start + buf_size ==> bytes_behind(buf_size, scan0, buf_start) == 0,
        scan0 <= buf_start ==> bytes_behind(buf_size, scan0, buf_start) == buf_size,
{
}

/// All rows lie inside the buffer where the first and the last one do.
pub proof fn law_rows_fit_where_the_outer_ones_do(
    len: int,
    scan0: int,
    pitch: int,
    row_bytes: int,
    height: int,
)
    ensures
        rows_fit(len, scan0, pitch, row_bytes, height) <==> height <= 0 || (0 <= scan0 && scan0
            + row_bytes <= len && 0 <= scan0 + (height - 1) * pitch && scan0 + (height - 1) * pitch
            + row_bytes <= len),
{
    if height > 0 {
        assert(row_start(scan0, pitch, 0) == scan0);
        assert(row_start(scan0, pitch, height - 1) == scan0 + (height - 1) * pitch);
        if 0 <= scan0 && scan0 + row_bytes <= len && 0 <= scan0 + (height - 1) * pitch && scan0 + (
        height - 1) * pitch + row_bytes <= len {
            assert forall|row: int| 0 <= row < height implies 0 <= #[trigger] row_start(
                scan0,
                pitch,
                row,
            ) && row_start(scan0, pitch, row) + row_bytes <= len by {
                if pitch >= 0 {
                    assert(0 <= row * pitch <= (height - 1) * pitch) by (nonlinear_arith)
                        requires
                            0 <= row <= height - 1,
                            0 <= pitch,
                    ;
                } else {
                    assert((height - 1) * pitch <= row * pitch <= 0) by (nonlinear_arith)
                        requires
                            0 <= row <= height - 1,
                            pitch < 0,
                    ;
                }
            }
        }
    }
}

/// An image in pairs of pixels ends with the pair of its last pixel.
pub proof fn law_image_ends_with_its_last_pair(w: int, h: int)
    requires
        0 < w,
        0 < h,
    ensures
        yuy2_len(w, h) == yuy2_group(w, h - 1, w - 1) + 4,
        w % 2 == 0 ==> yuy2_len(w, h) == w * h * 2,
{
    assert((h - 1) * w == w * h - w) by (nonlinear_arith);
}

} // verus!
