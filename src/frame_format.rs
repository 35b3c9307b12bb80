//! Wire formats: the closed set of pixel encodings a device can deliver, and the
//! two-way mapping between them and raw four-byte codes.
use vstd::prelude::*;

verus! {

/// How the bytes of a captured frame are encoded. Often called a FourCC.
#[derive(Copy, Clone, Debug, Hash, Ord, PartialOrd, Eq)]
#[non_exhaustive]
pub enum FrameFormat {
    // Compressed formats
    H265,
    H264,
    Avc1,
    H263,
    Av1,
    Mpeg1,
    Mpeg2,
    Mpeg4,
    MJpeg,
    XVid,
    VP8,
    VP9,
    // YCbCr 4:4:4 with alpha
    Ayuv444,
    // YCbCr 4:2:2 (packed, two luma samples share one chroma pair)
    Yuyv422,
    Uyvy422,
    Yvyu422,
    // YCbCr 4:2:0
    Yv12,
    Nv12,
    Nv21,
    I420,
    // YCbCr 16:1:1
    Yvu9,
    // Grayscale
    Luma8,
    Luma16,
    // Depth
    Depth16,
    // RGB
    Rgb332,
    Rgb555,
    Rgb565,
    Rgb888,
    RgbA8888,
    /// 32-bit ARGB words stored little-endian: bytes B, G, R, A in memory.
    ARgb8888,
    // Bayer
    Bayer8,
    Bayer16,
    /// A code that is not in the table, zero-padded to eight bytes.
    Custom([u8; 8]),
}

/// The little-endian word that a four-byte code spells.
pub open spec fn fourcc_word(code: [u8; 4]) -> u32 {
    (code[0] + code[1] * 256 + code[2] * 65536 + code[3] * 16777216) as u32
}

/// The named format whose code spells the word `w`, if there is one.
pub open spec fn named_format_of(w: u32) -> Option<FrameFormat> {
    match w {
            0x43564548 => Some(FrameFormat::H265),
            0x34363248 => Some(FrameFormat::H264),
            0x33363248 => Some(FrameFormat::H263),
            0x46315641 => Some(FrameFormat::Av1),
            0x31435641 => Some(FrameFormat::Avc1),
            0x3147504d => Some(FrameFormat::Mpeg1),
            0x3247504d => Some(FrameFormat::Mpeg2),
            0x3447504d => Some(FrameFormat::Mpeg4),
            0x47504a4d => Some(FrameFormat::MJpeg),
            0x44495658 => Some(FrameFormat::XVid),
            0x30385056 => Some(FrameFormat::VP8),
            0x30395056 => Some(FrameFormat::VP9),
            0x56555941 => Some(FrameFormat::Ayuv444),
            0x56595559 => Some(FrameFormat::Yuyv422),
            0x59565955 => Some(FrameFormat::Uyvy422),
            0x55595659 => Some(FrameFormat::Yvyu422),
            0x3231564e => Some(FrameFormat::Nv12),
            0x3132564e => Some(FrameFormat::Nv21),
            0x32315659 => Some(FrameFormat::Yv12),
            0x32315559 => Some(FrameFormat::I420),
            0x39555659 => Some(FrameFormat::Yvu9),
            0x59455247 => Some(FrameFormat::Luma8),
            0x20363159 => Some(FrameFormat::Luma16),
            0x2036315a => Some(FrameFormat::Depth16),
            0x31424752 => Some(FrameFormat::Rgb332),
            0x33424752 => Some(FrameFormat::Rgb888),
            0x34324241 => Some(FrameFormat::RgbA8888),
            0x34324142 => Some(FrameFormat::ARgb8888),
            0x35315852 => Some(FrameFormat::Rgb555),
            0x50424752 => Some(FrameFormat::Rgb565),
            0x31384142 => Some(FrameFormat::Bayer8),
            0x32525942 => Some(FrameFormat::Bayer16),
        _ => None,
    }
}

/// What a raw code decodes to: its named format, or the escape variant carrying the
/// code padded with zeros.
pub open spec fn spec_from_fourcc(code: [u8; 4]) -> FrameFormat {
    match named_format_of(fourcc_word(code)) {
        Some(f) => f,
        None => FrameFormat::Custom([code[0], code[1], code[2], code[3], 0, 0, 0, 0]),
    }
}

impl FrameFormat {
    /// The raw code of a format: fixed for each named format, the first four carried
    /// bytes for the escape variant.
    pub open spec fn spec_fourcc(self) -> [u8; 4] {
        match self {
            FrameFormat::H265 => [72u8, 69, 86, 67],  // HEVC
            FrameFormat::H264 => [72u8, 50, 54, 52],  // H264
            FrameFormat::H263 => [72u8, 50, 54, 51],  // H263
            FrameFormat::Av1 => [65u8, 86, 49, 70],  // AV1F
            FrameFormat::Avc1 => [65u8, 86, 67, 49],  // AVC1
            FrameFormat::Mpeg1 => [77u8, 80, 71, 49],  // MPG1
            FrameFormat::Mpeg2 => [77u8, 80, 71, 50],  // MPG2
            FrameFormat::Mpeg4 => [77u8, 80, 71, 52],  // MPG4
            FrameFormat::MJpeg => [77u8, 74, 80, 71],  // MJPG
            FrameFormat::XVid => [88u8, 86, 73, 68],  // XVID
            FrameFormat::VP8 => [86u8, 80, 56, 48],  // VP80
            FrameFormat::VP9 => [86u8, 80, 57, 48],  // VP90
            FrameFormat::Ayuv444 => [65u8, 89, 85, 86],  // AYUV
            FrameFormat::Yuyv422 => [89u8, 85, 89, 86],  // YUYV
            FrameFormat::Uyvy422 => [85u8, 89, 86, 89],  // UYVY
            FrameFormat::Yvyu422 => [89u8, 86, 89, 85],  // YVYU
            FrameFormat::Nv12 => [78u8, 86, 49, 50],  // NV12
            FrameFormat::Nv21 => [78u8, 86, 50, 49],  // NV21
            FrameFormat::Yv12 => [89u8, 86, 49, 50],  // YV12
            FrameFormat::I420 => [89u8, 85, 49, 50],  // YU12
            FrameFormat::Yvu9 => [89u8, 86, 85, 57],  // YVU9
            FrameFormat::Luma8 => [71u8, 82, 69, 89],  // GREY
            FrameFormat::Luma16 => [89u8, 49, 54, 32],  // Y16 
            FrameFormat::Depth16 => [90u8, 49, 54, 32],  // Z16 
            FrameFormat::Rgb332 => [82u8, 71, 66, 49],  // RGB1
            FrameFormat::Rgb888 => [82u8, 71, 66, 51],  // RGB3
            FrameFormat::RgbA8888 => [65u8, 66, 50, 52],  // AB24
            FrameFormat::ARgb8888 => [66u8, 65, 50, 52],  // BA24
            FrameFormat::Rgb555 => [82u8, 88, 49, 53],  // RX15
            FrameFormat::Rgb565 => [82u8, 71, 66, 80],  // RGBP
            FrameFormat::Bayer8 => [66u8, 65, 56, 49],  // BA81
            FrameFormat::Bayer16 => [66u8, 89, 82, 50],  // BYR2
            FrameFormat::Custom(cv) => [cv[0], cv[1], cv[2], cv[3]],
        }
    }

    /// Position of the variant in declaration order.
    pub open spec fn spec_variant_index(self) -> u8 {
        match self {
            FrameFormat::H265 => 0,
            FrameFormat::H264 => 1,
            FrameFormat::Avc1 => 2,
            FrameFormat::H263 => 3,
            FrameFormat::Av1 => 4,
            FrameFormat::Mpeg1 => 5,
            FrameFormat::Mpeg2 => 6,
            FrameFormat::Mpeg4 => 7,
            FrameFormat::MJpeg => 8,
            FrameFormat::XVid => 9,
            FrameFormat::VP8 => 10,
            FrameFormat::VP9 => 11,
            FrameFormat::Ayuv444 => 12,
            FrameFormat::Yuyv422 => 13,
            FrameFormat::Uyvy422 => 14,
            FrameFormat::Yvyu422 => 15,
            FrameFormat::Yv12 => 16,
            FrameFormat::Nv12 => 17,
            FrameFormat::Nv21 => 18,
            FrameFormat::I420 => 19,
            FrameFormat::Yvu9 => 20,
            FrameFormat::Luma8 => 21,
            FrameFormat::Luma16 => 22,
            FrameFormat::Depth16 => 23,
            FrameFormat::Rgb332 => 24,
            FrameFormat::Rgb555 => 25,
            FrameFormat::Rgb565 => 26,
            FrameFormat::Rgb888 => 27,
            FrameFormat::RgbA8888 => 28,
            FrameFormat::ARgb8888 => 29,
            FrameFormat::Bayer8 => 30,
            FrameFormat::Bayer16 => 31,
            FrameFormat::Custom(_) => 32,
        }
    }

    /// Position of the variant in declaration order.
    pub fn variant_index(&self) -> (r: u8)
        ensures
            r == self.spec_variant_index(),
    {
        match *self {
            FrameFormat::H265 => 0,
            FrameFormat::H264 => 1,
            FrameFormat::Avc1 => 2,
            FrameFormat::H263 => 3,
            FrameFormat::Av1 => 4,
            FrameFormat::Mpeg1 => 5,
            FrameFormat::Mpeg2 => 6,
            FrameFormat::Mpeg4 => 7,
            FrameFormat::MJpeg => 8,
            FrameFormat::XVid => 9,
            FrameFormat::VP8 => 10,
            FrameFormat::VP9 => 11,
            FrameFormat::Ayuv444 => 12,
            FrameFormat::Yuyv422 => 13,
            FrameFormat::Uyvy422 => 14,
            FrameFormat::Yvyu422 => 15,
            FrameFormat::Yv12 => 16,
            FrameFormat::Nv12 => 17,
            FrameFormat::Nv21 => 18,
            FrameFormat::I420 => 19,
            FrameFormat::Yvu9 => 20,
            FrameFormat::Luma8 => 21,
            FrameFormat::Luma16 => 22,
            FrameFormat::Depth16 => 23,
            FrameFormat::Rgb332 => 24,
            FrameFormat::Rgb555 => 25,
            FrameFormat::Rgb565 => 26,
            FrameFormat::Rgb888 => 27,
            FrameFormat::RgbA8888 => 28,
            FrameFormat::ARgb8888 => 29,
            FrameFormat::Bayer8 => 30,
            FrameFormat::Bayer16 => 31,
            FrameFormat::Custom(_) => 32,
        }
    }

    /// Whether two formats are the same variant with the same carried bytes.
    pub fn same_as(&self, other: &FrameFormat) -> (r: bool)
        ensures
            r == (*self == *other),
    {
        match *self {
            FrameFormat::H265 => matches!(*other, FrameFormat::H265),
            FrameFormat::H264 => matches!(*other, FrameFormat::H264),
            FrameFormat::Avc1 => matches!(*other, FrameFormat::Avc1),
            FrameFormat::H263 => matches!(*other, FrameFormat::H263),
            FrameFormat::Av1 => matches!(*other, FrameFormat::Av1),
            FrameFormat::Mpeg1 => matches!(*other, FrameFormat::Mpeg1),
            FrameFormat::Mpeg2 => matches!(*other, FrameFormat::Mpeg2),
            FrameFormat::Mpeg4 => matches!(*other, FrameFormat::Mpeg4),
            FrameFormat::MJpeg => matches!(*other, FrameFormat::MJpeg),
            FrameFormat::XVid => matches!(*other, FrameFormat::XVid),
            FrameFormat::VP8 => matches!(*other, FrameFormat::VP8),
            FrameFormat::VP9 => matches!(*other, FrameFormat::VP9),
            FrameFormat::Ayuv444 => matches!(*other, FrameFormat::Ayuv444),
            FrameFormat::Yuyv422 => matches!(*other, FrameFormat::Yuyv422),
            FrameFormat::Uyvy422 => matches!(*other, FrameFormat::Uyvy422),
            FrameFormat::Yvyu422 => matches!(*other, FrameFormat::Yvyu422),
            FrameFormat::Yv12 => matches!(*other, FrameFormat::Yv12),
            FrameFormat::Nv12 => matches!(*other, FrameFormat::Nv12),
            FrameFormat::Nv21 => matches!(*other, FrameFormat::Nv21),
            FrameFormat::I420 => matches!(*other, FrameFormat::I420),
            FrameFormat::Yvu9 => matches!(*other, FrameFormat::Yvu9),
            FrameFormat::Luma8 => matches!(*other, FrameFormat::Luma8),
            FrameFormat::Luma16 => matches!(*other, FrameFormat::Luma16),
            FrameFormat::Depth16 => matches!(*other, FrameFormat::Depth16),
            FrameFormat::Rgb332 => matches!(*other, FrameFormat::Rgb332),
            FrameFormat::Rgb555 => matches!(*other, FrameFormat::Rgb555),
            FrameFormat::Rgb565 => matches!(*other, FrameFormat::Rgb565),
            FrameFormat::Rgb888 => matches!(*other, FrameFormat::Rgb888),
            FrameFormat::RgbA8888 => matches!(*other, FrameFormat::RgbA8888),
            FrameFormat::ARgb8888 => matches!(*other, FrameFormat::ARgb8888),
            FrameFormat::Bayer8 => matches!(*other, FrameFormat::Bayer8),
            FrameFormat::Bayer16 => matches!(*other, FrameFormat::Bayer16),
            FrameFormat::Custom(a) => match *other {
                FrameFormat::Custom(b) => {
                    let mut i: usize = 0;
                    while i < 8
                        invariant
                            0 <= i <= 8,
                            *self == FrameFormat::Custom(a),
                            *other == FrameFormat::Custom(b),
                            forall|j: int| 0 <= j < i ==> a[j] == b[j],
                        decreases 8 - i,
                    {
                        if a[i] != b[i] {
                            return false;
                        }
                        i = i + 1;
                    }
                    assert(a@ =~= b@);
                    proof {
                        broadcast use vstd::array::axiom_array_ext_equal;
                    }
                    assert(a == b);
                    true
                },
                _ => false,
            },
        }
    }

    /// The carried bytes of the escape variant read as a big-endian number; zero for
    /// named formats.
    pub open spec fn custom_value(self) -> int {
        match self {
            FrameFormat::Custom(cv) => cv[0] * 0x0100_0000_0000_0000 + cv[1] * 0x0001_0000_0000_0000
                + cv[2] * 0x0000_0100_0000_0000 + cv[3] * 0x0000_0001_0000_0000 + cv[4]
                * 0x0000_0000_0100_0000 + cv[5] * 0x0000_0000_0001_0000 + cv[6] * 0x0000_0000_0000_0100
                + cv[7],
            _ => 0,
        }
    }

    /// Position in the total order on formats: declaration order, and escape codes
    /// after every named format, ordered by their bytes.
    pub open spec fn order_key(self) -> int {
        self.spec_variant_index() * 0x1_0000_0000_0000_0000 + self.custom_value()
    }

    /// Whether `self` comes strictly before `other` in the total order on formats.
    pub fn precedes(&self, other: &FrameFormat) -> (r: bool)
        ensures
            r == (self.order_key() < other.order_key()),
    {
        let a = self.variant_index();
        let b = other.variant_index();
        a < b || (a == b && self.custom_number() < other.custom_number())
    }

    fn custom_number(&self) -> (r: u64)
        ensures
            r == self.custom_value(),
    {
        match *self {
            FrameFormat::Custom(cv) => (cv[0] as u64) * 0x0100_0000_0000_0000 + (cv[1] as u64)
                * 0x0001_0000_0000_0000 + (cv[2] as u64) * 0x0000_0100_0000_0000 + (cv[3] as u64)
                * 0x0000_0001_0000_0000 + (cv[4] as u64) * 0x0000_0000_0100_0000 + (cv[5] as u64)
                * 0x0000_0000_0001_0000 + (cv[6] as u64) * 0x0000_0000_0000_0100 + (cv[7] as u64),
            _ => 0,
        }
    }

    /// A compressed codec.
    pub open spec fn spec_is_compressed(self) -> bool {
        match self {
            FrameFormat::H265 | FrameFormat::H264 | FrameFormat::Avc1 | FrameFormat::H263 | FrameFormat::Av1 | FrameFormat::Mpeg1 | FrameFormat::Mpeg2 | FrameFormat::Mpeg4 | FrameFormat::MJpeg | FrameFormat::XVid | FrameFormat::VP8 | FrameFormat::VP9 => true,
            _ => false,
        }
    }

    /// A compressed codec.
    pub fn is_compressed(&self) -> (r: bool)
        ensures
            r == self.spec_is_compressed(),
    {
        match *self {
            FrameFormat::H265 | FrameFormat::H264 | FrameFormat::Avc1 | FrameFormat::H263 | FrameFormat::Av1 | FrameFormat::Mpeg1 | FrameFormat::Mpeg2 | FrameFormat::Mpeg4 | FrameFormat::MJpeg | FrameFormat::XVid | FrameFormat::VP8 | FrameFormat::VP9 => true,
            _ => false,
        }
    }

    /// YCbCr with chroma stored at lower resolution than luma.
    pub open spec fn spec_is_chroma_subsampled(self) -> bool {
        match self {
            FrameFormat::Yuyv422 | FrameFormat::Uyvy422 | FrameFormat::Yvyu422 | FrameFormat::Yv12 | FrameFormat::Nv12 | FrameFormat::Nv21 | FrameFormat::I420 | FrameFormat::Yvu9 => true,
            _ => false,
        }
    }

    /// YCbCr with chroma stored at lower resolution than luma.
    pub fn is_chroma_subsampled(&self) -> (r: bool)
        ensures
            r == self.spec_is_chroma_subsampled(),
    {
        match *self {
            FrameFormat::Yuyv422 | FrameFormat::Uyvy422 | FrameFormat::Yvyu422 | FrameFormat::Yv12 | FrameFormat::Nv12 | FrameFormat::Nv21 | FrameFormat::I420 | FrameFormat::Yvu9 => true,
            _ => false,
        }
    }

    /// Luma samples only.
    pub open spec fn spec_is_luma(self) -> bool {
        match self {
            FrameFormat::Luma8 | FrameFormat::Luma16 => true,
            _ => false,
        }
    }

    /// Luma samples only.
    pub fn is_luma(&self) -> (r: bool)
        ensures
            r == self.spec_is_luma(),
    {
        match *self {
            FrameFormat::Luma8 | FrameFormat::Luma16 => true,
            _ => false,
        }
    }

    /// A packed RGB variant.
    pub open spec fn spec_is_rgb(self) -> bool {
        match self {
            FrameFormat::Rgb332 | FrameFormat::Rgb555 | FrameFormat::Rgb565 | FrameFormat::Rgb888 | FrameFormat::RgbA8888 | FrameFormat::ARgb8888 => true,
            _ => false,
        }
    }

    /// A packed RGB variant.
    pub fn is_rgb(&self) -> (r: bool)
        ensures
            r == self.spec_is_rgb(),
    {
        match *self {
            FrameFormat::Rgb332 | FrameFormat::Rgb555 | FrameFormat::Rgb565 | FrameFormat::Rgb888 | FrameFormat::RgbA8888 | FrameFormat::ARgb8888 => true,
            _ => false,
        }
    }

    /// A grayscale image.
    pub open spec fn spec_is_grayscale(self) -> bool {
        match self {
            FrameFormat::Luma8 | FrameFormat::Luma16 => true,
            _ => false,
        }
    }

    /// A grayscale image.
    pub fn is_grayscale(&self) -> (r: bool)
        ensures
            r == self.spec_is_grayscale(),
    {
        match *self {
            FrameFormat::Luma8 | FrameFormat::Luma16 => true,
            _ => false,
        }
    }

    /// A color image: compressed, YCbCr, RGB or Bayer.
    pub open spec fn spec_is_color(self) -> bool {
        ||| self.spec_is_compressed()
        ||| self.spec_is_chroma_subsampled()
        ||| self.spec_is_rgb()
        ||| self == FrameFormat::Ayuv444
        ||| self == FrameFormat::Bayer8
        ||| self == FrameFormat::Bayer16
    }

    /// A color image: compressed, YCbCr, RGB or Bayer.
    pub fn is_color(&self) -> (r: bool)
        ensures
            r == self.spec_is_color(),
    {
        self.is_compressed() || self.is_chroma_subsampled() || self.is_rgb() || matches!(
            *self,
            FrameFormat::Ayuv444 | FrameFormat::Bayer8 | FrameFormat::Bayer16
        )
    }

    pub open spec fn is_named(self) -> bool {
        !(self is Custom)
    }

    /// The raw code of this format.
    pub fn to_fourcc(&self) -> (r: Option<[u8; 4]>)
        ensures
            r == Some(self.spec_fourcc()),
    {
        let code: [u8; 4] = match *self {
            FrameFormat::H265 => [72, 69, 86, 67],
            FrameFormat::H264 => [72, 50, 54, 52],
            FrameFormat::H263 => [72, 50, 54, 51],
            FrameFormat::Av1 => [65, 86, 49, 70],
            FrameFormat::Avc1 => [65, 86, 67, 49],
            FrameFormat::Mpeg1 => [77, 80, 71, 49],
            FrameFormat::Mpeg2 => [77, 80, 71, 50],
            FrameFormat::Mpeg4 => [77, 80, 71, 52],
            FrameFormat::MJpeg => [77, 74, 80, 71],
            FrameFormat::XVid => [88, 86, 73, 68],
            FrameFormat::VP8 => [86, 80, 56, 48],
            FrameFormat::VP9 => [86, 80, 57, 48],
            FrameFormat::Ayuv444 => [65, 89, 85, 86],
            FrameFormat::Yuyv422 => [89, 85, 89, 86],
            FrameFormat::Uyvy422 => [85, 89, 86, 89],
            FrameFormat::Yvyu422 => [89, 86, 89, 85],
            FrameFormat::Nv12 => [78, 86, 49, 50],
            FrameFormat::Nv21 => [78, 86, 50, 49],
            FrameFormat::Yv12 => [89, 86, 49, 50],
            FrameFormat::I420 => [89, 85, 49, 50],
            FrameFormat::Yvu9 => [89, 86, 85, 57],
            FrameFormat::Luma8 => [71, 82, 69, 89],
            FrameFormat::Luma16 => [89, 49, 54, 32],
            FrameFormat::Depth16 => [90, 49, 54, 32],
            FrameFormat::Rgb332 => [82, 71, 66, 49],
            FrameFormat::Rgb888 => [82, 71, 66, 51],
            FrameFormat::RgbA8888 => [65, 66, 50, 52],
            FrameFormat::ARgb8888 => [66, 65, 50, 52],
            FrameFormat::Rgb555 => [82, 88, 49, 53],
            FrameFormat::Rgb565 => [82, 71, 66, 80],
            FrameFormat::Bayer8 => [66, 65, 56, 49],
            FrameFormat::Bayer16 => [66, 89, 82, 50],
            FrameFormat::Custom(cv) => [cv[0], cv[1], cv[2], cv[3]],
        };
        Some(code)
    }

    /// The format that a raw code stands for; codes outside the table give the escape
    /// variant.
    pub fn from_fourcc(code: [u8; 4]) -> (r: FrameFormat)
        ensures
            r == spec_from_fourcc(code),
    {
        let w: u32 = code[0] as u32 + (code[1] as u32) * 256 + (code[2] as u32) * 65536 + (code[3]
            as u32) * 16777216;
        match w {
            0x43564548 => FrameFormat::H265,
            0x34363248 => FrameFormat::H264,
            0x33363248 => FrameFormat::H263,
            0x46315641 => FrameFormat::Av1,
            0x31435641 => FrameFormat::Avc1,
            0x3147504d => FrameFormat::Mpeg1,
            0x3247504d => FrameFormat::Mpeg2,
            0x3447504d => FrameFormat::Mpeg4,
            0x47504a4d => FrameFormat::MJpeg,
            0x44495658 => FrameFormat::XVid,
            0x30385056 => FrameFormat::VP8,
            0x30395056 => FrameFormat::VP9,
            0x56555941 => FrameFormat::Ayuv444,
            0x56595559 => FrameFormat::Yuyv422,
            0x59565955 => FrameFormat::Uyvy422,
            0x55595659 => FrameFormat::Yvyu422,
            0x3231564e => FrameFormat::Nv12,
            0x3132564e => FrameFormat::Nv21,
            0x32315659 => FrameFormat::Yv12,
            0x32315559 => FrameFormat::I420,
            0x39555659 => FrameFormat::Yvu9,
            0x59455247 => FrameFormat::Luma8,
            0x20363159 => FrameFormat::Luma16,
            0x2036315a => FrameFormat::Depth16,
            0x31424752 => FrameFormat::Rgb332,
            0x33424752 => FrameFormat::Rgb888,
            0x34324241 => FrameFormat::RgbA8888,
            0x34324142 => FrameFormat::ARgb8888,
            0x35315852 => FrameFormat::Rgb555,
            0x50424752 => FrameFormat::Rgb565,
            0x31384142 => FrameFormat::Bayer8,
            0x32525942 => FrameFormat::Bayer16,
            _ => FrameFormat::Custom([code[0], code[1], code[2], code[3], 0, 0, 0, 0]),
        }
    }

    /// Every named format, in declaration order.
    pub fn all_named() -> (v: Vec<FrameFormat>)
        ensures
            forall|i: int| 0 <= i < v@.len() ==> (#[trigger] v@[i]).is_named(),
            v@.len() == 32,
    {
        let mut v: Vec<FrameFormat> = Vec::new();
        v.push(FrameFormat::H265);
        v.push(FrameFormat::H264);
        v.push(FrameFormat::Avc1);
        v.push(FrameFormat::H263);
        v.push(FrameFormat::Av1);
        v.push(FrameFormat::Mpeg1);
        v.push(FrameFormat::Mpeg2);
        v.push(FrameFormat::Mpeg4);
        v.push(FrameFormat::MJpeg);
        v.push(FrameFormat::XVid);
        v.push(FrameFormat::VP8);
        v.push(FrameFormat::VP9);
        v.push(FrameFormat::Ayuv444);
        v.push(FrameFormat::Yuyv422);
        v.push(FrameFormat::Uyvy422);
        v.push(FrameFormat::Yvyu422);
        v.push(FrameFormat::Yv12);
        v.push(FrameFormat::Nv12);
        v.push(FrameFormat::Nv21);
        v.push(FrameFormat::I420);
        v.push(FrameFormat::Yvu9);
        v.push(FrameFormat::Luma8);
        v.push(FrameFormat::Luma16);
        v.push(FrameFormat::Depth16);
        v.push(FrameFormat::Rgb332);
        v.push(FrameFormat::Rgb555);
        v.push(FrameFormat::Rgb565);
        v.push(FrameFormat::Rgb888);
        v.push(FrameFormat::RgbA8888);
        v.push(FrameFormat::ARgb8888);
        v.push(FrameFormat::Bayer8);
        v.push(FrameFormat::Bayer16);
        v
    }
}

impl PartialEq for FrameFormat {
    fn eq(&self, other: &FrameFormat) -> (r: bool) {
        self.same_as(other)
    }
}

impl vstd::std_specs::cmp::PartialEqSpecImpl for FrameFormat {
    open spec fn obeys_eq_spec() -> bool {
        true
    }

    open spec fn eq_spec(&self, other: &FrameFormat) -> bool {
        *self == *other
    }
}

/// Decoding the code of a named format gives that format back.
pub proof fn lemma_named_round_trip(f: FrameFormat)
    requires
        f.is_named(),
    ensures
        spec_from_fourcc(f.spec_fourcc()) == f,
{
}

/// A code outside the table survives decoding and encoding unchanged.
pub proof fn lemma_unknown_round_trip(code: [u8; 4])
    requires
        named_format_of(fourcc_word(code)) is None,
    ensures
        spec_from_fourcc(code).spec_fourcc() == code,
{
    let back = spec_from_fourcc(code).spec_fourcc();
    assert(back@ =~= code@);
}

} // verus!
