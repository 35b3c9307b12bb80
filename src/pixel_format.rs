//! Transcoding raw frames into application pixel layouts.
use vstd::prelude::*;
use crate::error::NokhwaError;
use crate::frame_format::FrameFormat;
use crate::types::Resolution;

verus! {

/// The pixel layout an application asks for.
#[derive(Copy, Clone, Debug, Hash, Ord, PartialOrd, Eq, PartialEq, Structural)]
pub enum OutputLayout {
    /// Three bytes per pixel: R, G, B.
    Rgb,
    /// Four bytes per pixel: R, G, B, A.
    RgbA,
    /// One byte per pixel.
    Luma,
    /// Two bytes per pixel: luma, alpha.
    LumaA,
    /// Planar 4:2:0: a full luma plane, then a U and a V plane at half width and height.
    I420,
}

// ---------------------------------------------------------------- the model

/// Fixed-point BT.601 expansion of one luma/chroma triple: the result of
/// `(298 (Y - 16) + k) >> 8`, clamped to a byte.
pub open spec fn clamp_shift(t: int) -> u8 {
    if t < 0 {
        0
    } else if t >= 65536 {
        255
    } else {
        (t / 256) as u8
    }
}

pub open spec fn yuv_to_rgb(y: u8, u: u8, v: u8) -> (u8, u8, u8) {
    let c = 298 * (y - 16);
    let d = u - 128;
    let e = v - 128;
    (
        clamp_shift(c + 409 * e + 128),
        clamp_shift(c - 100 * d - 208 * e + 128),
        clamp_shift(c + 516 * d + 128),
    )
}

/// Truncating average of the three color channels.
pub open spec fn channel_average(c: (u8, u8, u8)) -> u8 {
    ((c.0 + c.1 + c.2) / 3) as u8
}

/// `round(0.257 R + 0.504 G + 0.098 B + 16)`, exactly.
pub open spec fn bt601_luma(r: u8, g: u8, b: u8) -> u8 {
    ((257 * r + 504 * g + 98 * b + 16500) / 1000) as u8
}

/// `round(-0.148 R - 0.291 G + 0.439 B + 128)`, exactly.
pub open spec fn bt601_u(r: u8, g: u8, b: u8) -> u8 {
    ((-148 * r - 291 * g + 439 * b + 128500) / 1000) as u8
}

/// `round(0.439 R - 0.368 G - 0.071 B + 128)`, exactly.
pub open spec fn bt601_v(r: u8, g: u8, b: u8) -> u8 {
    ((439 * r - 368 * g - 71 * b + 128500) / 1000) as u8
}

pub open spec fn channel(c: (u8, u8, u8), k: int) -> u8 {
    if k == 0 {
        c.0
    } else if k == 1 {
        c.1
    } else {
        c.2
    }
}

/// The uncompressed source formats the engine reads byte by byte.
pub open spec fn is_raw_source(fmt: FrameFormat) -> bool {
    ||| fmt == FrameFormat::Luma8
    ||| fmt == FrameFormat::Rgb888
    ||| fmt == FrameFormat::ARgb8888
    ||| fmt == FrameFormat::Yuyv422
    ||| fmt == FrameFormat::Nv12
}

/// Bytes a raw source needs for a `w` x `h` frame.
pub open spec fn source_len(fmt: FrameFormat, w: nat, h: nat) -> nat {
    if fmt == FrameFormat::Luma8 {
        w * h
    } else if fmt == FrameFormat::Rgb888 {
        3 * (w * h)
    } else if fmt == FrameFormat::ARgb8888 {
        4 * (w * h)
    } else if fmt == FrameFormat::Yuyv422 {
        2 * (w * h)
    } else if fmt == FrameFormat::Nv12 {
        w * h + w * (h / 2)
    } else {
        0
    }
}

/// The color of pixel `p` (row-major) of a raw source frame `w` pixels wide.
pub open spec fn source_rgb(fmt: FrameFormat, w: nat, h: nat, data: Seq<u8>, p: int) -> (
    u8,
    u8,
    u8,
) {
    if fmt == FrameFormat::Luma8 {
        (data[p], data[p], data[p])
    } else if fmt == FrameFormat::Rgb888 {
        (data[3 * p], data[3 * p + 1], data[3 * p + 2])
    } else if fmt == FrameFormat::ARgb8888 {
        (data[4 * p + 2], data[4 * p + 1], data[4 * p])
    } else if fmt == FrameFormat::Yuyv422 {
        yuv_to_rgb(data[2 * p], data[4 * (p / 2) + 1], data[4 * (p / 2) + 3])
    } else {
        let x = p % (w as int);
        let y = p / (w as int);
        let uv = w * h + (y / 2) * w + (x / 2) * 2;
        yuv_to_rgb(data[p], data[uv], data[uv + 1])
    }
}

/// The alpha of pixel `p`: carried by BGRA sources, opaque otherwise.
pub open spec fn source_alpha(fmt: FrameFormat, data: Seq<u8>, p: int) -> u8 {
    if fmt == FrameFormat::ARgb8888 {
        data[4 * p + 3]
    } else {
        255
    }
}

impl OutputLayout {
    pub open spec fn channels(self) -> nat {
        match self {
            OutputLayout::Rgb => 3,
            OutputLayout::RgbA => 4,
            OutputLayout::Luma => 1,
            OutputLayout::LumaA => 2,
            OutputLayout::I420 => 0,
        }
    }

    /// The source formats this layout can be produced from.
    pub open spec fn accepts(self, fmt: FrameFormat) -> bool {
        match self {
            OutputLayout::Rgb | OutputLayout::RgbA | OutputLayout::Luma => {
                ||| fmt == FrameFormat::MJpeg
                ||| is_raw_source(fmt)
            },
            OutputLayout::LumaA => {
                ||| fmt == FrameFormat::MJpeg
                ||| (is_raw_source(fmt) && fmt != FrameFormat::Rgb888)
            },
            OutputLayout::I420 => {
                ||| fmt == FrameFormat::Yuyv422
                ||| fmt == FrameFormat::Nv12
                ||| fmt == FrameFormat::ARgb8888
            },
        }
    }

    /// Bytes of one chroma plane of a planar 4:2:0 frame.
    pub open spec fn chroma_plane_len(w: nat, h: nat) -> nat {
        (w / 2) * (h / 2)
    }

    /// Exact length of an output frame.
    pub open spec fn spec_size(self, w: nat, h: nat) -> nat {
        match self {
            OutputLayout::I420 => w * h + 2 * OutputLayout::chroma_plane_len(w, h),
            _ => self.channels() * (w * h),
        }
    }

    /// Byte `i` of a packed output frame made from a raw source.
    pub open spec fn packed_byte(self, fmt: FrameFormat, w: nat, h: nat, data: Seq<u8>, i: int) -> u8 {
        match self {
            OutputLayout::Rgb => channel(source_rgb(fmt, w, h, data, i / 3), i % 3),
            OutputLayout::RgbA => if i % 4 == 3 {
                source_alpha(fmt, data, i / 4)
            } else {
                channel(source_rgb(fmt, w, h, data, i / 4), i % 4)
            },
            OutputLayout::Luma => channel_average(source_rgb(fmt, w, h, data, i)),
            OutputLayout::LumaA => if i % 2 == 1 {
                source_alpha(fmt, data, i / 2)
            } else {
                channel_average(source_rgb(fmt, w, h, data, i / 2))
            },
            OutputLayout::I420 => 0,
        }
    }
}

/// Luma sample `i` of a planar 4:2:0 frame made from a raw source.
pub open spec fn i420_luma(fmt: FrameFormat, w: nat, h: nat, data: Seq<u8>, i: int) -> u8 {
    if fmt == FrameFormat::Yuyv422 {
        data[2 * i]
    } else if fmt == FrameFormat::Nv12 {
        data[i]
    } else {
        let c = source_rgb(fmt, w, h, data, i);
        bt601_luma(c.0, c.1, c.2)
    }
}

/// The chroma pair at half-resolution row `r`, column `c`. 4:2:2 sources keep the pair of
/// the even source row and drop the odd one; BGRA samples the even-row, even-column pixel.
pub open spec fn i420_chroma(fmt: FrameFormat, w: nat, h: nat, data: Seq<u8>, r: int, c: int) -> (
    u8,
    u8,
) {
    if fmt == FrameFormat::Yuyv422 {
        let base = 4 * (r * w) + 4 * c;
        (data[base + 1], data[base + 3])
    } else if fmt == FrameFormat::Nv12 {
        let base = w * h + r * w + 2 * c;
        (data[base], data[base + 1])
    } else {
        let px = source_rgb(fmt, w, h, data, 2 * r * w + 2 * c);
        (bt601_u(px.0, px.1, px.2), bt601_v(px.0, px.1, px.2))
    }
}

/// Byte `i` of a planar 4:2:0 frame: the Y plane, then U, then V.
pub open spec fn i420_byte(fmt: FrameFormat, w: nat, h: nat, data: Seq<u8>, i: int) -> u8 {
    let q = OutputLayout::chroma_plane_len(w, h) as int;
    let half = (w / 2) as int;
    if i < w * h {
        i420_luma(fmt, w, h, data, i)
    } else if i < w * h + q {
        let j = i - w * h;
        i420_chroma(fmt, w, h, data, j / half, j % half).0
    } else {
        let j = i - w * h - q;
        i420_chroma(fmt, w, h, data, j / half, j % half).1
    }
}

/// The frame a raw source converts to.
pub open spec fn rendered(layout: OutputLayout, fmt: FrameFormat, w: nat, h: nat, data: Seq<u8>) -> Seq<u8> {
    Seq::new(
        layout.spec_size(w, h),
        |i: int|
            if layout == OutputLayout::I420 {
                i420_byte(fmt, w, h, data, i)
            } else {
                layout.packed_byte(fmt, w, h, data, i)
            },
    )
}

// ---------------------------------------------------------------- index arithmetic

/// What the raw readers need of a frame: a readable format, a size whose every
/// byte count fits in `usize`, enough source bytes and the parity the format needs.
pub open spec fn raw_frame_ok(fmt: FrameFormat, w: nat, h: nat, len: nat) -> bool {
    &&& is_raw_source(fmt)
    &&& 4 * (w * h) <= usize::MAX
    &&& len >= source_len(fmt, w, h)
    &&& (fmt == FrameFormat::Yuyv422 ==> w % 2 == 0)
    &&& (fmt == FrameFormat::Nv12 ==> w % 2 == 0 && h % 2 == 0)
}

proof fn lemma_row_of_pixel(w: int, h: int, p: int)
    requires
        w > 0,
        h >= 0,
        0 <= p < w * h,
    ensures
        0 <= p / w < h,
        0 <= p % w < w,
        p == w * (p / w) + p % w,
{
    vstd::arithmetic::div_mod::lemma_fundamental_div_mod(p, w);
    let y = p / w;
    let x = p % w;
    assert(0 <= x < w);
    assert(y >= 0) by (nonlinear_arith)
        requires
            p >= 0,
            w > 0,
            y == p / w,
    ;
    assert(y < h) by (nonlinear_arith)
        requires
            p == w * y + x,
            x >= 0,
            p < w * h,
            w > 0,
    ;
}

proof fn lemma_nv12_chroma_index(w: int, h: int, p: int)
    requires
        w > 0,
        h >= 0,
        w % 2 == 0,
        h % 2 == 0,
        0 <= p < w * h,
    ensures
        0 <= (p / w / 2) * w + (p % w / 2) * 2,
        (p / w / 2) * w + (p % w / 2) * 2 + 1 < w * (h / 2),
        w * (h / 2) <= w * h,
{
    assert(w * (h / 2) <= w * h) by (nonlinear_arith)
        requires
            w > 0,
            h >= 0,
    ;
    lemma_row_of_pixel(w, h, p);
    let y = p / w;
    let x = p % w;
    let yy = y / 2;
    let xx = x / 2;
    assert(0 <= yy < h / 2);
    assert(0 <= xx * 2 <= w - 2);
    assert(yy * w <= (h / 2 - 1) * w) by (nonlinear_arith)
        requires
            0 <= yy <= h / 2 - 1,
            w > 0,
    ;
    assert((h / 2 - 1) * w == w * (h / 2) - w) by (nonlinear_arith);
    assert(0 <= yy * w) by (nonlinear_arith)
        requires
            yy >= 0,
            w > 0,
    ;
}

proof fn lemma_positive_width(w: int, h: int, p: int)
    requires
        w >= 0,
        h >= 0,
        0 <= p < w * h,
    ensures
        w > 0,
        h > 0,
{
    if w == 0 {
        assert(w * h == 0);
    }
    if h == 0 {
        assert(w * h == 0);
    }
}

proof fn lemma_even_product(w: int, h: int)
    requires
        w % 2 == 0,
        w >= 0,
        h >= 0,
    ensures
        (w * h) % 2 == 0,
{
    let k = w / 2;
    assert(w * h == 2 * (k * h)) by (nonlinear_arith)
        requires
            w == 2 * k,
    ;
}

proof fn lemma_u32_product(a: int, b: int)
    requires
        0 <= a <= 0xffff_ffff,
        0 <= b <= 0xffff_ffff,
    ensures
        0 <= a * b <= 0xffff_fffe_0000_0001,
{
    assert(0 <= a * b <= 0xffff_fffe_0000_0001) by (nonlinear_arith)
        requires
            0 <= a <= 0xffff_ffff,
            0 <= b <= 0xffff_ffff,
    ;
}

// ---------------------------------------------------------------- per-pixel readers

fn clamp_byte(t: i32) -> (r: u8)
    ensures
        r == clamp_shift(t as int),
{
    if t < 0 {
        0
    } else if t >= 65536 {
        255
    } else {
        (t / 256) as u8
    }
}

/// BT.601 limited-range expansion of one luma sample and its chroma pair.
pub fn yuv_pixel(y: u8, u: u8, v: u8) -> (r: (u8, u8, u8))
    ensures
        r == yuv_to_rgb(y, u, v),
{
    let c: i32 = 298 * (y as i32 - 16);
    let d: i32 = u as i32 - 128;
    let e: i32 = v as i32 - 128;
    (
        clamp_byte(c + 409 * e + 128),
        clamp_byte(c - 100 * d - 208 * e + 128),
        clamp_byte(c + 516 * d + 128),
    )
}

fn average_of(c: (u8, u8, u8)) -> (r: u8)
    ensures
        r == channel_average(c),
{
    ((c.0 as u16 + c.1 as u16 + c.2 as u16) / 3) as u8
}

/// The color of pixel `p` of a raw source frame.
fn rgb_at(fmt: FrameFormat, w: usize, h: usize, data: &[u8], p: usize) -> (r: (u8, u8, u8))
    requires
        raw_frame_ok(fmt, w as nat, h as nat, data@.len()),
        p < w * h,
    ensures
        r == source_rgb(fmt, w as nat, h as nat, data@, p as int),
{
    match fmt {
        FrameFormat::Luma8 => (data[p], data[p], data[p]),
        FrameFormat::Rgb888 => (data[3 * p], data[3 * p + 1], data[3 * p + 2]),
        FrameFormat::ARgb8888 => (data[4 * p + 2], data[4 * p + 1], data[4 * p]),
        FrameFormat::Yuyv422 => {
            proof {
                lemma_even_product(w as int, h as int);
            }
            yuv_pixel(data[2 * p], data[4 * (p / 2) + 1], data[4 * (p / 2) + 3])
        },
        _ => {
            proof {
                lemma_positive_width(w as int, h as int, p as int);
                lemma_nv12_chroma_index(w as int, h as int, p as int);
            }
            let x = p % w;
            let y = p / w;
            let uv = w * h + (y / 2) * w + (x / 2) * 2;
            yuv_pixel(data[p], data[uv], data[uv + 1])
        },
    }
}

/// The alpha of pixel `p` of a raw source frame.
fn alpha_at(fmt: FrameFormat, w: usize, h: usize, data: &[u8], p: usize) -> (r: u8)
    requires
        raw_frame_ok(fmt, w as nat, h as nat, data@.len()),
        p < w * h,
    ensures
        r == source_alpha(fmt, data@, p as int),
{
    match fmt {
        FrameFormat::ARgb8888 => data[4 * p + 3],
        _ => 255,
    }
}

proof fn lemma_half_grid(w: int, h: int, r: int, c: int)
    requires
        w % 2 == 0,
        h % 2 == 0,
        0 <= r < h / 2,
        0 <= c < w / 2,
    ensures
        0 <= r * w,
        r * w + 2 * c + 1 < w * (h / 2),
        2 * r * w + 2 * c < w * h,
        4 * (r * w) + 4 * c + 3 < 2 * (w * h),
        w * (h / 2) <= w * h,
{
    assert(r * w <= (h / 2 - 1) * w) by (nonlinear_arith)
        requires
            0 <= r <= h / 2 - 1,
            w >= 0,
    ;
    assert((h / 2 - 1) * w == w * (h / 2) - w) by (nonlinear_arith);
    assert(0 <= r * w) by (nonlinear_arith)
        requires
            r >= 0,
            w >= 0,
    ;
    assert(w * h == 2 * (w * (h / 2))) by (nonlinear_arith)
        requires
            h % 2 == 0,
    ;
    assert(2 * r * w == 2 * (r * w)) by (nonlinear_arith);
}

fn bt601_pixel(c: (u8, u8, u8)) -> (r: (u8, u8, u8))
    ensures
        r == (bt601_luma(c.0, c.1, c.2), bt601_u(c.0, c.1, c.2), bt601_v(c.0, c.1, c.2)),
{
    let (r, g, b) = (c.0 as i32, c.1 as i32, c.2 as i32);
    let y = (257 * r + 504 * g + 98 * b + 16500) / 1000;
    let u = (-148 * r - 291 * g + 439 * b + 128500) / 1000;
    let v = (439 * r - 368 * g - 71 * b + 128500) / 1000;
    (y as u8, u as u8, v as u8)
}

/// Luma sample `i` of the planar 4:2:0 frame a raw source converts to.
fn i420_luma_at(fmt: FrameFormat, w: usize, h: usize, data: &[u8], i: usize) -> (r: u8)
    requires
        raw_frame_ok(fmt, w as nat, h as nat, data@.len()),
        i < w * h,
    ensures
        r == i420_luma(fmt, w as nat, h as nat, data@, i as int),
{
    match fmt {
        FrameFormat::Yuyv422 => data[2 * i],
        FrameFormat::Nv12 => data[i],
        _ => bt601_pixel(rgb_at(fmt, w, h, data, i)).0,
    }
}

/// The chroma pair at half-resolution row `r`, column `c`.
fn i420_chroma_at(fmt: FrameFormat, w: usize, h: usize, data: &[u8], r: usize, c: usize) -> (res: (
    u8,
    u8,
))
    requires
        raw_frame_ok(fmt, w as nat, h as nat, data@.len()),
        w % 2 == 0,
        h % 2 == 0,
        r < h / 2,
        c < w / 2,
    ensures
        res == i420_chroma(fmt, w as nat, h as nat, data@, r as int, c as int),
{
    proof {
        lemma_half_grid(w as int, h as int, r as int, c as int);
    }
    match fmt {
        FrameFormat::Yuyv422 => {
            let base = 4 * (r * w) + 4 * c;
            (data[base + 1], data[base + 3])
        },
        FrameFormat::Nv12 => {
            let base = w * h + r * w + 2 * c;
            (data[base], data[base + 1])
        },
        _ => {
            let px = bt601_pixel(rgb_at(fmt, w, h, data, 2 * r * w + 2 * c));
            (px.1, px.2)
        },
    }
}

// ---------------------------------------------------------------- frame writers

/// Writes the packed frame a raw source converts to.
fn fill_packed(
    layout: OutputLayout,
    fmt: FrameFormat,
    w: usize,
    h: usize,
    data: &[u8],
    dest: &mut [u8],
)
    requires
        raw_frame_ok(fmt, w as nat, h as nat, data@.len()),
        layout != OutputLayout::I420,
        old(dest)@.len() == layout.spec_size(w as nat, h as nat),
    ensures
        final(dest)@ == rendered(layout, fmt, w as nat, h as nat, data@),
{
    let n = w * h;
    let ghost wn = w as nat;
    let ghost hn = h as nat;
    let mut p: usize = 0;
    while p < n
        invariant
            raw_frame_ok(fmt, wn, hn, data@.len()),
            layout != OutputLayout::I420,
            wn == w,
            hn == h,
            n == w * h,
            0 <= p <= n,
            dest@.len() == layout.spec_size(wn, hn),
            forall|i: int|
                0 <= i < p * layout.channels() ==> dest@[i] == layout.packed_byte(
                    fmt,
                    wn,
                    hn,
                    data@,
                    i,
                ),
        decreases n - p,
    {
        let c = rgb_at(fmt, w, h, data, p);
        match layout {
            OutputLayout::Rgb => {
                dest[3 * p] = c.0;
                dest[3 * p + 1] = c.1;
                dest[3 * p + 2] = c.2;
                assert forall|i: int| 0 <= i < (p + 1) * 3 implies dest@[i] == layout.packed_byte(
                    fmt,
                    wn,
                    hn,
                    data@,
                    i,
                ) by {
                    if i >= 3 * p {
                        assert(i / 3 == p);
                        assert(i % 3 == i - 3 * p);
                    }
                }
            },
            OutputLayout::RgbA => {
                let a = alpha_at(fmt, w, h, data, p);
                dest[4 * p] = c.0;
                dest[4 * p + 1] = c.1;
                dest[4 * p + 2] = c.2;
                dest[4 * p + 3] = a;
                assert forall|i: int| 0 <= i < (p + 1) * 4 implies dest@[i] == layout.packed_byte(
                    fmt,
                    wn,
                    hn,
                    data@,
                    i,
                ) by {
                    if i >= 4 * p {
                        assert(i / 4 == p);
                        assert(i % 4 == i - 4 * p);
                    }
                }
            },
            OutputLayout::Luma => {
                dest[p] = average_of(c);
            },
            OutputLayout::LumaA => {
                let a = alpha_at(fmt, w, h, data, p);
                dest[2 * p] = average_of(c);
                dest[2 * p + 1] = a;
                assert forall|i: int| 0 <= i < (p + 1) * 2 implies dest@[i] == layout.packed_byte(
                    fmt,
                    wn,
                    hn,
                    data@,
                    i,
                ) by {
                    if i >= 2 * p {
                        assert(i / 2 == p);
                        assert(i % 2 == i - 2 * p);
                    }
                }
            },
            OutputLayout::I420 => {},
        }
        p = p + 1;
    }
    assert(p * layout.channels() == layout.spec_size(wn, hn)) by {
        let k = layout.channels() as int;
        let m = (wn * hn) as int;
        assert(p == m);
        assert(p * k == k * m) by (nonlinear_arith)
            requires
                p == m,
        ;
    }
    assert(dest@ =~= rendered(layout, fmt, wn, hn, data@));
}

/// Writes the planar 4:2:0 frame a raw source converts to.
fn fill_i420(fmt: FrameFormat, w: usize, h: usize, data: &[u8], dest: &mut [u8])
    requires
        raw_frame_ok(fmt, w as nat, h as nat, data@.len()),
        OutputLayout::I420.accepts(fmt),
        w % 2 == 0,
        h % 2 == 0,
        old(dest)@.len() == OutputLayout::I420.spec_size(w as nat, h as nat),
    ensures
        final(dest)@ == rendered(OutputLayout::I420, fmt, w as nat, h as nat, data@),
{
    let ghost wn = w as nat;
    let ghost hn = h as nat;
    let n = w * h;
    let half = w / 2;
    assert(half * (h / 2) <= w * h) by (nonlinear_arith)
        requires
            half == w / 2,
            w >= 0,
            h >= 0,
    ;
    let q = half * (h / 2);
    let mut i: usize = 0;
    while i < n
        invariant
            raw_frame_ok(fmt, wn, hn, data@.len()),
            wn == w,
            hn == h,
            n == w * h,
            0 <= i <= n,
            dest@.len() == OutputLayout::I420.spec_size(wn, hn),
            forall|k: int| 0 <= k < i ==> dest@[k] == i420_byte(fmt, wn, hn, data@, k),
        decreases n - i,
    {
        dest[i] = i420_luma_at(fmt, w, h, data, i);
        i = i + 1;
    }
    let mut j: usize = 0;
    while j < q
        invariant
            raw_frame_ok(fmt, wn, hn, data@.len()),
            OutputLayout::I420.accepts(fmt),
            w % 2 == 0,
            h % 2 == 0,
            wn == w,
            hn == h,
            n == w * h,
            half == w / 2,
            q == half * (h / 2),
            q == OutputLayout::chroma_plane_len(wn, hn),
            q <= n,
            4 * n <= usize::MAX,
            0 <= j <= q,
            dest@.len() == n + 2 * q,
            forall|k: int| 0 <= k < n ==> dest@[k] == i420_byte(fmt, wn, hn, data@, k),
            forall|k: int| n <= k < n + j ==> dest@[k] == i420_byte(fmt, wn, hn, data@, k),
            forall|k: int| n + q <= k < n + q + j ==> dest@[k] == i420_byte(fmt, wn, hn, data@, k),
        decreases q - j,
    {
        proof {
            lemma_row_of_pixel(half as int, (h / 2) as int, j as int);
        }
        let r = j / half;
        let c = j % half;
        let (u, v) = i420_chroma_at(fmt, w, h, data, r, c);
        dest[n + j] = u;
        dest[n + q + j] = v;
        j = j + 1;
    }
    assert(dest@ =~= rendered(OutputLayout::I420, fmt, wn, hn, data@));
}

// ---------------------------------------------------------------- compressed frames

/// The R, G, B bytes, row by row, that the JPEG decoder makes of `data`; `None` when it
/// rejects the data.
pub uninterp spec fn jpeg_rgb_of(data: Seq<u8>) -> Option<Seq<u8>>;

/// The R, G, B, A bytes, row by row, that the JPEG decoder makes of `data`; `None` when
/// it rejects the data.
pub uninterp spec fn jpeg_rgba_of(data: Seq<u8>) -> Option<Seq<u8>>;

/// Relies on `image::load_from_memory_with_format` (JPEG) and `DynamicImage::to_rgb8`:
/// decodes a JPEG image into 8-bit RGB pixels.
#[verifier::external_body]
fn decode_jpeg_rgb(data: &[u8]) -> (r: Option<Vec<u8>>)
    ensures
        r is Some <==> jpeg_rgb_of(data@) is Some,
        r matches Some(v) ==> jpeg_rgb_of(data@) == Some(v@),
{
    match image::load_from_memory_with_format(data, image::ImageFormat::Jpeg) {
        Ok(img) => Some(img.to_rgb8().into_raw()),
        Err(_) => None,
    }
}

/// Relies on `image::load_from_memory_with_format` (JPEG) and `DynamicImage::to_rgba8`:
/// decodes a JPEG image into 8-bit RGBA pixels.
#[verifier::external_body]
fn decode_jpeg_rgba(data: &[u8]) -> (r: Option<Vec<u8>>)
    ensures
        r is Some <==> jpeg_rgba_of(data@) is Some,
        r matches Some(v) ==> jpeg_rgba_of(data@) == Some(v@),
{
    match image::load_from_memory_with_format(data, image::ImageFormat::Jpeg) {
        Ok(img) => Some(img.to_rgba8().into_raw()),
        Err(_) => None,
    }
}

// ---------------------------------------------------------------- the engine

/// Whether every byte count of a `w` x `h` frame, at up to four bytes a pixel, fits in
/// `usize`.
pub open spec fn addressable(w: nat, h: nat) -> bool {
    4 * (w * h) <= usize::MAX
}

impl OutputLayout {
    /// The parity the source format and this layout need.
    pub open spec fn dims_ok(self, fmt: FrameFormat, w: nat, h: nat) -> bool {
        &&& (fmt == FrameFormat::Yuyv422 ==> w % 2 == 0)
        &&& (fmt == FrameFormat::Nv12 || self == OutputLayout::I420 ==> w % 2 == 0 && h % 2
            == 0)
    }

    /// The failure found before any byte is looked at, if any.
    pub open spec fn precheck(self, fmt: FrameFormat, res: Resolution) -> Option<NokhwaError> {
        let w = res.spec_width() as nat;
        let h = res.spec_height() as nat;
        if !self.accepts(fmt) {
            Some(NokhwaError::UnsupportedFormat { src: fmt, destination: self })
        } else if !self.dims_ok(fmt, w, h) || !addressable(w, h) {
            Some(NokhwaError::InvalidDimensions { width: w as usize, height: h as usize })
        } else {
            None
        }
    }

    /// The frame made from already decoded pixels: RGBA bytes for `RgbA`, RGB bytes for
    /// the other layouts.
    pub open spec fn from_decoded(self, w: nat, h: nat, d: Seq<u8>) -> Result<Seq<u8>, NokhwaError> {
        let need: nat = if self == OutputLayout::RgbA {
            4 * (w * h)
        } else {
            3 * (w * h)
        };
        if d.len() != need {
            Err(NokhwaError::MalformedInput { required: need as usize, actual: d.len() as usize })
        } else if self == OutputLayout::RgbA {
            Ok(d)
        } else {
            Ok(rendered(self, FrameFormat::Rgb888, w, h, d))
        }
    }

    /// The frame made once the prechecks have passed.
    pub open spec fn produce(self, fmt: FrameFormat, w: nat, h: nat, data: Seq<u8>) -> Result<
        Seq<u8>,
        NokhwaError,
    > {
        if fmt == FrameFormat::MJpeg {
            let decoded = if self == OutputLayout::RgbA {
                jpeg_rgba_of(data)
            } else {
                jpeg_rgb_of(data)
            };
            match decoded {
                None => Err(NokhwaError::DecodeFailed { src: fmt }),
                Some(d) => self.from_decoded(w, h, d),
            }
        } else if data.len() < source_len(fmt, w, h) {
            Err(
                NokhwaError::MalformedInput {
                    required: source_len(fmt, w, h) as usize,
                    actual: data.len() as usize,
                },
            )
        } else {
            Ok(rendered(self, fmt, w, h, data))
        }
    }

    /// What converting `data` gives: the output frame or the error.
    pub open spec fn spec_convert(self, fmt: FrameFormat, res: Resolution, data: Seq<u8>) -> Result<
        Seq<u8>,
        NokhwaError,
    > {
        match self.precheck(fmt, res) {
            Some(e) => Err(e),
            None => self.produce(fmt, res.spec_width() as nat, res.spec_height() as nat, data),
        }
    }

    /// What converting into a buffer holding `before` gives: the result and the buffer
    /// after. On every error the buffer is left as it was.
    pub open spec fn spec_convert_into(
        self,
        fmt: FrameFormat,
        res: Resolution,
        data: Seq<u8>,
        before: Seq<u8>,
    ) -> (Result<(), NokhwaError>, Seq<u8>) {
        let size = self.spec_size(res.spec_width() as nat, res.spec_height() as nat);
        match self.precheck(fmt, res) {
            Some(e) => (Err(e), before),
            None => if before.len() != size {
                (
                    Err(
                        NokhwaError::SizeMismatch {
                            expected: size as usize,
                            actual: before.len() as usize,
                        },
                    ),
                    before,
                )
            } else {
                match self.produce(fmt, res.spec_width() as nat, res.spec_height() as nat, data) {
                    Ok(out) => (Ok(()), out),
                    Err(e) => (Err(e), before),
                }
            },
        }
    }

    /// Within an addressable frame every output length fits.
    pub proof fn lemma_size_fits(self, w: nat, h: nat)
        ensures
            self.spec_size(w, h) <= 4 * (w * h),
    {
        assert((w / 2) * (h / 2) <= w * h) by (nonlinear_arith);
    }

    /// The exact output length for a frame, or `None` when this layout cannot hold it
    /// (odd dimensions for 4:2:0, or a length that does not fit in `usize`).
    pub open spec fn spec_predicted_size(self, res: Resolution) -> Option<usize> {
        let w = res.spec_width() as nat;
        let h = res.spec_height() as nat;
        if self.spec_size(w, h) <= usize::MAX && (self == OutputLayout::I420 ==> w % 2 == 0 && h
            % 2 == 0) {
            Some(self.spec_size(w, h) as usize)
        } else {
            None
        }
    }

    /// The exact output length for a frame, or `None` when this layout cannot hold it
    /// (odd dimensions for 4:2:0, or a length that does not fit in `usize`).
    pub fn predicted_size(self, resolution: Resolution) -> (r: Option<usize>)
        ensures
            r == self.spec_predicted_size(resolution),
    {
        let w = resolution.width() as u128;
        let h = resolution.height() as u128;
        proof {
            lemma_u32_product(w as int, h as int);
        }
        let pixels = w * h;
        let size: u128 = match self {
            OutputLayout::Rgb => 3 * pixels,
            OutputLayout::RgbA => 4 * pixels,
            OutputLayout::Luma => pixels,
            OutputLayout::LumaA => 2 * pixels,
            OutputLayout::I420 => {
                if w % 2 != 0 || h % 2 != 0 {
                    return None;
                }
                assert((w / 2) * (h / 2) <= w * h) by (nonlinear_arith);
                pixels + 2 * ((w / 2) * (h / 2))
            },
        };
        if size > usize::MAX as u128 {
            None
        } else {
            Some(size as usize)
        }
    }

    /// The source formats this layout can be produced from.
    pub fn formats(self) -> (v: Vec<FrameFormat>)
        ensures
            forall|f: FrameFormat| #[trigger] v@.contains(f) <==> self.accepts(f),
    {
        let mut v: Vec<FrameFormat> = Vec::new();
        if self != OutputLayout::I420 {
            v.push(FrameFormat::MJpeg);
            v.push(FrameFormat::Luma8);
        }
        if self != OutputLayout::I420 && self != OutputLayout::LumaA {
            v.push(FrameFormat::Rgb888);
        }
        v.push(FrameFormat::ARgb8888);
        v.push(FrameFormat::Yuyv422);
        v.push(FrameFormat::Nv12);
        proof {
            assert forall|f: FrameFormat| #[trigger] v@.contains(f) <==> self.accepts(f) by {
                if self.accepts(f) {
                    if f == FrameFormat::ARgb8888 {
                        assert(v@[v@.len() - 3] == f);
                    } else if f == FrameFormat::Yuyv422 {
                        assert(v@[v@.len() - 2] == f);
                    } else if f == FrameFormat::Nv12 {
                        assert(v@[v@.len() - 1] == f);
                    } else if f == FrameFormat::MJpeg {
                        assert(v@[0] == f);
                    } else if f == FrameFormat::Luma8 {
                        assert(v@[1] == f);
                    } else {
                        assert(v@[2] == f);
                    }
                }
            }
        }
        v
    }

    /// Writes the frame made from already decoded pixels (RGBA bytes for `RgbA`, RGB
    /// bytes otherwise) into `dest`, which has the predicted length.
    pub fn write_decoded(self, resolution: Resolution, decoded: &[u8], dest: &mut [u8]) -> (r:
        Result<(), NokhwaError>)
        requires
            self != OutputLayout::I420,
            addressable(resolution.spec_width() as nat, resolution.spec_height() as nat),
            old(dest)@.len() == self.spec_size(
                resolution.spec_width() as nat,
                resolution.spec_height() as nat,
            ),
        ensures
            match self.from_decoded(
                resolution.spec_width() as nat,
                resolution.spec_height() as nat,
                decoded@,
            ) {
                Ok(out) => r == Ok::<(), NokhwaError>(()) && final(dest)@ == out,
                Err(e) => r == Err::<(), NokhwaError>(e) && final(dest)@ == old(dest)@,
            },
    {
        let w = resolution.width() as usize;
        let h = resolution.height() as usize;
        let need = if self == OutputLayout::RgbA {
            4 * (w * h)
        } else {
            3 * (w * h)
        };
        if decoded.len() != need {
            return Err(NokhwaError::MalformedInput { required: need, actual: decoded.len() });
        }
        if self == OutputLayout::RgbA {
            let mut i: usize = 0;
            while i < need
                invariant
                    0 <= i <= need,
                    need == decoded@.len(),
                    dest@.len() == need,
                    forall|k: int| 0 <= k < i ==> dest@[k] == decoded@[k],
                decreases need - i,
            {
                dest[i] = decoded[i];
                i = i + 1;
            }
            assert(dest@ =~= decoded@);
        } else {
            fill_packed(self, FrameFormat::Rgb888, w, h, decoded, dest);
        }
        Ok(())
    }

    /// Converts a raw frame into this layout, writing into `dest`. Every check is made
    /// before the first write: on any error `dest` is left as it was.
    pub fn convert_into(
        self,
        fmt: FrameFormat,
        resolution: Resolution,
        data: &[u8],
        dest: &mut [u8],
    ) -> (r: Result<(), NokhwaError>)
        ensures
            (r, final(dest)@) == self.spec_convert_into(fmt, resolution, data@, old(dest)@),
    {
        let ghost wn = resolution.spec_width() as nat;
        let ghost hn = resolution.spec_height() as nat;
        if !self.accepts_format(fmt) {
            return Err(NokhwaError::UnsupportedFormat { src: fmt, destination: self });
        }
        let w32 = resolution.width();
        let h32 = resolution.height();
        let even_w = w32 % 2 == 0;
        let even_h = h32 % 2 == 0;
        let parity_ok = (!fmt.same_as(&FrameFormat::Yuyv422) || even_w) && ((!fmt.same_as(
            &FrameFormat::Nv12,
        ) && self != OutputLayout::I420) || (even_w && even_h));
        proof {
            lemma_u32_product(w32 as int, h32 as int);
            self.lemma_size_fits(wn, hn);
        }
        if !parity_ok || (w32 as u128) * (h32 as u128) * 4 > usize::MAX as u128 {
            return Err(NokhwaError::InvalidDimensions { width: w32 as usize, height: h32 as usize });
        }
        let w = w32 as usize;
        let h = h32 as usize;
        let size = match self.predicted_size(resolution) {
            Some(n) => n,
            None => {
                return Err(NokhwaError::InvalidDimensions { width: w32 as usize, height: h32 as usize });
            },
        };
        if dest.len() != size {
            return Err(NokhwaError::SizeMismatch { expected: size, actual: dest.len() });
        }
        if fmt.same_as(&FrameFormat::MJpeg) {
            let decoded = if self == OutputLayout::RgbA {
                decode_jpeg_rgba(data)
            } else {
                decode_jpeg_rgb(data)
            };
            match decoded {
                Some(d) => {
                    let ghost dd = d@;
                    assert(self.produce(fmt, wn, hn, data@) == self.from_decoded(wn, hn, dd));
                    let r = self.write_decoded(resolution, d.as_slice(), dest);
                    return r;
                },
                None => {
                    return Err(NokhwaError::DecodeFailed { src: fmt });
                },
            }
        }
        let need = source_len_of(fmt, w, h);
        if data.len() < need {
            return Err(NokhwaError::MalformedInput { required: need, actual: data.len() });
        }
        if self == OutputLayout::I420 {
            fill_i420(fmt, w, h, data, dest);
        } else {
            fill_packed(self, fmt, w, h, data, dest);
        }
        Ok(())
    }

    /// Converts a raw frame into a newly allocated buffer of the predicted length.
    pub fn convert(self, fmt: FrameFormat, resolution: Resolution, data: &[u8]) -> (r: Result<
        Vec<u8>,
        NokhwaError,
    >)
        ensures
            match self.spec_convert(fmt, resolution, data@) {
                Ok(out) => r matches Ok(v) && v@ == out,
                Err(e) => r == Err::<Vec<u8>, NokhwaError>(e),
            },
    {
        proof {
            self.lemma_size_fits(resolution.spec_width() as nat, resolution.spec_height() as nat);
        }
        let size = match self.predicted_size(resolution) {
            Some(n) => n,
            None => 0,
        };
        let mut buf: Vec<u8> = vec![0u8; size];
        let r = self.convert_into(fmt, resolution, data, buf.as_mut_slice());
        match r {
            Ok(()) => Ok(buf),
            Err(e) => Err(e),
        }
    }

    /// Whether this layout can be produced from `fmt`.
    pub fn accepts_format(self, fmt: FrameFormat) -> (r: bool)
        ensures
            r == self.accepts(fmt),
    {
        let raw = fmt.same_as(&FrameFormat::Luma8) || fmt.same_as(&FrameFormat::Rgb888)
            || fmt.same_as(&FrameFormat::ARgb8888) || fmt.same_as(&FrameFormat::Yuyv422)
            || fmt.same_as(&FrameFormat::Nv12);
        match self {
            OutputLayout::Rgb | OutputLayout::RgbA | OutputLayout::Luma => fmt.same_as(
                &FrameFormat::MJpeg,
            ) || raw,
            OutputLayout::LumaA => fmt.same_as(&FrameFormat::MJpeg) || (raw && !fmt.same_as(
                &FrameFormat::Rgb888,
            )),
            OutputLayout::I420 => fmt.same_as(&FrameFormat::Yuyv422) || fmt.same_as(
                &FrameFormat::Nv12,
            ) || fmt.same_as(&FrameFormat::ARgb8888),
        }
    }
}

/// Bytes a raw source needs for a `w` x `h` frame.
fn source_len_of(fmt: FrameFormat, w: usize, h: usize) -> (r: usize)
    requires
        is_raw_source(fmt),
        addressable(w as nat, h as nat),
    ensures
        r == source_len(fmt, w as nat, h as nat),
{
    proof {
        assert(w * (h / 2) <= w * h) by (nonlinear_arith)
            requires
                w >= 0,
                h >= 0,
        ;
    }
    match fmt {
        FrameFormat::Luma8 => w * h,
        FrameFormat::Rgb888 => 3 * (w * h),
        FrameFormat::ARgb8888 => 4 * (w * h),
        FrameFormat::Yuyv422 => 2 * (w * h),
        _ => w * h + w * (h / 2),
    }
}

// ---------------------------------------------------------------- planar 4:2:0 from sized buffers

/// What converting a `w` x `h` raw source into a planar 4:2:0 buffer holding `before`
/// gives: the result and the buffer after.
pub open spec fn spec_i420_into(fmt: FrameFormat, w: nat, h: nat, data: Seq<u8>, before: Seq<u8>) -> (
    Result<(), NokhwaError>,
    Seq<u8>,
) {
    let size = OutputLayout::I420.spec_size(w, h);
    if w % 2 != 0 || h % 2 != 0 || !addressable(w, h) {
        (Err(NokhwaError::InvalidDimensions { width: w as usize, height: h as usize }), before)
    } else if before.len() != size {
        (Err(NokhwaError::SizeMismatch { expected: size as usize, actual: before.len() as usize }), before)
    } else if data.len() < source_len(fmt, w, h) {
        (
            Err(
                NokhwaError::MalformedInput {
                    required: source_len(fmt, w, h) as usize,
                    actual: data.len() as usize,
                },
            ),
            before,
        )
    } else {
        (Ok(()), rendered(OutputLayout::I420, fmt, w, h, data))
    }
}

fn i420_from_raw(fmt: FrameFormat, width: usize, height: usize, data: &[u8], dest: &mut [u8]) -> (r:
    Result<(), NokhwaError>)
    requires
        OutputLayout::I420.accepts(fmt),
    ensures
        (r, final(dest)@) == spec_i420_into(fmt, width as nat, height as nat, data@, old(dest)@),
{
    let pixels = match width.checked_mul(height) {
        Some(p) => p,
        None => {
            return Err(NokhwaError::InvalidDimensions { width, height });
        },
    };
    if width % 2 != 0 || height % 2 != 0 || pixels > usize::MAX / 4 {
        return Err(NokhwaError::InvalidDimensions { width, height });
    }
    proof {
        OutputLayout::I420.lemma_size_fits(width as nat, height as nat);
    }
    let size = width * height + 2 * ((width / 2) * (height / 2));
    if dest.len() != size {
        return Err(NokhwaError::SizeMismatch { expected: size, actual: dest.len() });
    }
    let need = source_len_of(fmt, width, height);
    if data.len() < need {
        return Err(NokhwaError::MalformedInput { required: need, actual: data.len() });
    }
    fill_i420(fmt, width, height, data, dest);
    Ok(())
}

/// Converts packed YUYV 4:2:2 to planar 4:2:0. Every luma sample is copied; each row
/// pair keeps the chroma of its even row and drops that of its odd row.
pub fn convert_yuyv_to_i420_direct(yuyv: &[u8], width: usize, height: usize, dest: &mut [u8]) -> (r:
    Result<(), NokhwaError>)
    ensures
        (r, final(dest)@) == spec_i420_into(
            FrameFormat::Yuyv422,
            width as nat,
            height as nat,
            yuyv@,
            old(dest)@,
        ),
{
    i420_from_raw(FrameFormat::Yuyv422, width, height, yuyv, dest)
}

/// Converts semi-planar NV12 to planar 4:2:0 by splitting the interleaved chroma plane.
pub fn nv12_to_i420(nv12: &[u8], width: usize, height: usize, i420: &mut [u8]) -> (r: Result<
    (),
    NokhwaError,
>)
    ensures
        (r, final(i420)@) == spec_i420_into(
            FrameFormat::Nv12,
            width as nat,
            height as nat,
            nv12@,
            old(i420)@,
        ),
{
    i420_from_raw(FrameFormat::Nv12, width, height, nv12, i420)
}

/// Converts packed BGRA to planar 4:2:0 with the BT.601 coefficients; chroma is taken
/// from the even-row, even-column pixels.
pub fn bgra_to_i420(bgra: &[u8], width: usize, height: usize, i420: &mut [u8]) -> (r: Result<
    (),
    NokhwaError,
>)
    ensures
        (r, final(i420)@) == spec_i420_into(
            FrameFormat::ARgb8888,
            width as nat,
            height as nat,
            bgra@,
            old(i420)@,
        ),
{
    i420_from_raw(FrameFormat::ARgb8888, width, height, bgra, i420)
}

// ---------------------------------------------------------------- output selectors

/// Output selector for 8-bit RGB, three bytes a pixel.
#[derive(Copy, Clone, Debug, Default, Hash, Ord, PartialOrd, Eq, PartialEq)]
pub struct RgbFormat;

impl RgbFormat {
    pub const LAYOUT: OutputLayout = OutputLayout::Rgb;

    /// The source formats this output can be made from.
    pub fn formats() -> (v: Vec<FrameFormat>)
        ensures
            forall|f: FrameFormat| #[trigger] v@.contains(f) <==> OutputLayout::Rgb.accepts(f),
    {
        OutputLayout::Rgb.formats()
    }

    /// Exact output length for a frame of this resolution.
    pub fn predicted_size(resolution: Resolution) -> (r: Option<usize>)
        ensures
            r == OutputLayout::Rgb.spec_predicted_size(resolution),
    {
        OutputLayout::Rgb.predicted_size(resolution)
    }

    /// Converts a raw frame into a new buffer.
    pub fn write_output(fcc: FrameFormat, resolution: Resolution, data: &[u8]) -> (r: Result<
        Vec<u8>,
        NokhwaError,
    >)
        ensures
            match OutputLayout::Rgb.spec_convert(fcc, resolution, data@) {
                Ok(out) => r matches Ok(v) && v@ == out,
                Err(e) => r == Err::<Vec<u8>, NokhwaError>(e),
            },
    {
        OutputLayout::Rgb.convert(fcc, resolution, data)
    }

    /// Converts a raw frame into `dest`, which must have exactly the predicted length;
    /// on any error `dest` is left as it was.
    pub fn write_output_buffer(
        fcc: FrameFormat,
        resolution: Resolution,
        data: &[u8],
        dest: &mut [u8],
    ) -> (r: Result<(), NokhwaError>)
        ensures
            (r, final(dest)@) == OutputLayout::Rgb.spec_convert_into(
                fcc,
                resolution,
                data@,
                old(dest)@,
            ),
    {
        OutputLayout::Rgb.convert_into(fcc, resolution, data, dest)
    }
}

/// Output selector for 8-bit RGBA, four bytes a pixel.
#[derive(Copy, Clone, Debug, Default, Hash, Ord, PartialOrd, Eq, PartialEq)]
pub struct RgbAFormat;

impl RgbAFormat {
    pub const LAYOUT: OutputLayout = OutputLayout::RgbA;

    /// The source formats this output can be made from.
    pub fn formats() -> (v: Vec<FrameFormat>)
        ensures
            forall|f: FrameFormat| #[trigger] v@.contains(f) <==> OutputLayout::RgbA.accepts(f),
    {
        OutputLayout::RgbA.formats()
    }

    /// Exact output length for a frame of this resolution.
    pub fn predicted_size(resolution: Resolution) -> (r: Option<usize>)
        ensures
            r == OutputLayout::RgbA.spec_predicted_size(resolution),
    {
        OutputLayout::RgbA.predicted_size(resolution)
    }

    /// Converts a raw frame into a new buffer.
    pub fn write_output(fcc: FrameFormat, resolution: Resolution, data: &[u8]) -> (r: Result<
        Vec<u8>,
        NokhwaError,
    >)
        ensures
            match OutputLayout::RgbA.spec_convert(fcc, resolution, data@) {
                Ok(out) => r matches Ok(v) && v@ == out,
                Err(e) => r == Err::<Vec<u8>, NokhwaError>(e),
            },
    {
        OutputLayout::RgbA.convert(fcc, resolution, data)
    }

    /// Converts a raw frame into `dest`, which must have exactly the predicted length;
    /// on any error `dest` is left as it was.
    pub fn write_output_buffer(
        fcc: FrameFormat,
        resolution: Resolution,
        data: &[u8],
        dest: &mut [u8],
    ) -> (r: Result<(), NokhwaError>)
        ensures
            (r, final(dest)@) == OutputLayout::RgbA.spec_convert_into(
                fcc,
                resolution,
                data@,
                old(dest)@,
            ),
    {
        OutputLayout::RgbA.convert_into(fcc, resolution, data, dest)
    }
}

/// Output selector for 8-bit grayscale, one byte a pixel.
#[derive(Copy, Clone, Debug, Default, Hash, Ord, PartialOrd, Eq, PartialEq)]
pub struct LumaFormat;

impl LumaFormat {
    pub const LAYOUT: OutputLayout = OutputLayout::Luma;

    /// The source formats this output can be made from.
    pub fn formats() -> (v: Vec<FrameFormat>)
        ensures
            forall|f: FrameFormat| #[trigger] v@.contains(f) <==> OutputLayout::Luma.accepts(f),
    {
        OutputLayout::Luma.formats()
    }

    /// Exact output length for a frame of this resolution.
    pub fn predicted_size(resolution: Resolution) -> (r: Option<usize>)
        ensures
            r == OutputLayout::Luma.spec_predicted_size(resolution),
    {
        OutputLayout::Luma.predicted_size(resolution)
    }

    /// Converts a raw frame into a new buffer.
    pub fn write_output(fcc: FrameFormat, resolution: Resolution, data: &[u8]) -> (r: Result<
        Vec<u8>,
        NokhwaError,
    >)
        ensures
            match OutputLayout::Luma.spec_convert(fcc, resolution, data@) {
                Ok(out) => r matches Ok(v) && v@ == out,
                Err(e) => r == Err::<Vec<u8>, NokhwaError>(e),
            },
    {
        OutputLayout::Luma.convert(fcc, resolution, data)
    }

    /// Converts a raw frame into `dest`, which must have exactly the predicted length;
    /// on any error `dest` is left as it was.
    pub fn write_output_buffer(
        fcc: FrameFormat,
        resolution: Resolution,
        data: &[u8],
        dest: &mut [u8],
    ) -> (r: Result<(), NokhwaError>)
        ensures
            (r, final(dest)@) == OutputLayout::Luma.spec_convert_into(
                fcc,
                resolution,
                data@,
                old(dest)@,
            ),
    {
        OutputLayout::Luma.convert_into(fcc, resolution, data, dest)
    }
}

/// Output selector for 8-bit grayscale with alpha, two bytes a pixel.
#[derive(Copy, Clone, Debug, Default, Hash, Ord, PartialOrd, Eq, PartialEq)]
pub struct LumaAFormat;

impl LumaAFormat {
    pub const LAYOUT: OutputLayout = OutputLayout::LumaA;

    /// The source formats this output can be made from.
    pub fn formats() -> (v: Vec<FrameFormat>)
        ensures
            forall|f: FrameFormat| #[trigger] v@.contains(f) <==> OutputLayout::LumaA.accepts(f),
    {
        OutputLayout::LumaA.formats()
    }

    /// Exact output length for a frame of this resolution.
    pub fn predicted_size(resolution: Resolution) -> (r: Option<usize>)
        ensures
            r == OutputLayout::LumaA.spec_predicted_size(resolution),
    {
        OutputLayout::LumaA.predicted_size(resolution)
    }

    /// Converts a raw frame into a new buffer.
    pub fn write_output(fcc: FrameFormat, resolution: Resolution, data: &[u8]) -> (r: Result<
        Vec<u8>,
        NokhwaError,
    >)
        ensures
            match OutputLayout::LumaA.spec_convert(fcc, resolution, data@) {
                Ok(out) => r matches Ok(v) && v@ == out,
                Err(e) => r == Err::<Vec<u8>, NokhwaError>(e),
            },
    {
        OutputLayout::LumaA.convert(fcc, resolution, data)
    }

    /// Converts a raw frame into `dest`, which must have exactly the predicted length;
    /// on any error `dest` is left as it was.
    pub fn write_output_buffer(
        fcc: FrameFormat,
        resolution: Resolution,
        data: &[u8],
        dest: &mut [u8],
    ) -> (r: Result<(), NokhwaError>)
        ensures
            (r, final(dest)@) == OutputLayout::LumaA.spec_convert_into(
                fcc,
                resolution,
                data@,
                old(dest)@,
            ),
    {
        OutputLayout::LumaA.convert_into(fcc, resolution, data, dest)
    }
}

/// Output selector for planar YUV 4:2:0: Y, then U, then V.
#[derive(Copy, Clone, Debug, Default, Hash, Ord, PartialOrd, Eq, PartialEq)]
pub struct I420Format;

impl I420Format {
    pub const LAYOUT: OutputLayout = OutputLayout::I420;

    /// The source formats this output can be made from.
    pub fn formats() -> (v: Vec<FrameFormat>)
        ensures
            forall|f: FrameFormat| #[trigger] v@.contains(f) <==> OutputLayout::I420.accepts(f),
    {
        OutputLayout::I420.formats()
    }

    /// Exact output length for a frame of this resolution.
    pub fn predicted_size(resolution: Resolution) -> (r: Option<usize>)
        ensures
            r == OutputLayout::I420.spec_predicted_size(resolution),
    {
        OutputLayout::I420.predicted_size(resolution)
    }

    /// Converts a raw frame into a new buffer.
    pub fn write_output(fcc: FrameFormat, resolution: Resolution, data: &[u8]) -> (r: Result<
        Vec<u8>,
        NokhwaError,
    >)
        ensures
            match OutputLayout::I420.spec_convert(fcc, resolution, data@) {
                Ok(out) => r matches Ok(v) && v@ == out,
                Err(e) => r == Err::<Vec<u8>, NokhwaError>(e),
            },
    {
        OutputLayout::I420.convert(fcc, resolution, data)
    }

    /// Converts a raw frame into `dest`, which must have exactly the predicted length;
    /// on any error `dest` is left as it was.
    pub fn write_output_buffer(
        fcc: FrameFormat,
        resolution: Resolution,
        data: &[u8],
        dest: &mut [u8],
    ) -> (r: Result<(), NokhwaError>)
        ensures
            (r, final(dest)@) == OutputLayout::I420.spec_convert_into(
                fcc,
                resolution,
                data@,
                old(dest)@,
            ),
    {
        OutputLayout::I420.convert_into(fcc, resolution, data, dest)
    }
}

/// Converting a grayscale frame to RGBA turns each luma byte `v` into the pixel
/// `(v, v, v, 255)`.
pub proof fn lemma_gray_to_rgba(res: Resolution, data: Seq<u8>, p: int)
    requires
        OutputLayout::RgbA.spec_convert(FrameFormat::Luma8, res, data) is Ok,
        0 <= p < res.spec_width() * res.spec_height(),
    ensures
        OutputLayout::RgbA.spec_convert(FrameFormat::Luma8, res, data) matches Ok(out) && out[4 * p]
            == data[p] && out[4 * p + 1] == data[p] && out[4 * p + 2] == data[p] && out[4 * p + 3]
            == 255,
{
    let w = res.spec_width() as nat;
    let h = res.spec_height() as nat;
    let out = rendered(OutputLayout::RgbA, FrameFormat::Luma8, w, h, data);
    assert(OutputLayout::RgbA.spec_convert(FrameFormat::Luma8, res, data) == Ok::<
        Seq<u8>,
        NokhwaError,
    >(out));
    assert(4 * p + 3 < 4 * (w * h));
    let i0 = 4 * p;
    assert(i0 / 4 == p && i0 % 4 == 0);
    assert((i0 + 1) / 4 == p && (i0 + 1) % 4 == 1);
    assert((i0 + 2) / 4 == p && (i0 + 2) % 4 == 2);
    assert((i0 + 3) / 4 == p && (i0 + 3) % 4 == 3);
}

} // verus!
