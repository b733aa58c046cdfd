//! Decoded source images and the Bayer mosaic sampler.

use vstd::prelude::*;

verus! {

use crate::error::Error;
use crate::pattern::BayerPattern;

/// The channel layout of a decoded source image.
#[derive(Clone, Copy, Debug, PartialEq, Eq, Structural)]
pub enum ColorType {
    RGB,
    RGBA,
}

/// The per-sample bit depth of a decoded source image.
#[derive(Clone, Copy, Debug, PartialEq, Eq, Structural)]
pub enum BitDepth {
    Eight,
    Sixteen,
}

impl ColorType {
    /// The number of interleaved channels per pixel.
    pub open spec fn spec_channels(self) -> nat {
        match self {
            ColorType::RGB => 3,
            ColorType::RGBA => 4,
        }
    }

    /// The number of interleaved channels per pixel.
    pub fn channels(&self) -> (n: u32)
        ensures
            n == self.spec_channels(),
    {
        match self {
            ColorType::RGB => 3,
            ColorType::RGBA => 4,
        }
    }
}

impl BitDepth {
    /// How many bytes one sample occupies in the decoded buffer.
    pub open spec fn spec_bytes_per_sample(self) -> nat {
        match self {
            BitDepth::Eight => 1,
            BitDepth::Sixteen => 2,
        }
    }

    /// How many bytes one sample occupies in the decoded buffer.
    pub fn bytes_per_sample(&self) -> (n: u32)
        ensures
            n == self.spec_bytes_per_sample(),
    {
        match self {
            BitDepth::Eight => 1,
            BitDepth::Sixteen => 2,
        }
    }
}

/// `n` rounded down to an even number.
pub open spec fn even_floor(n: int) -> int {
    if n % 2 == 0 {
        n
    } else {
        n - 1
    }
}

/// The position of pixel `(x, y)` inside its 2x2 block, numbered
/// top-left 0, top-right 1, bottom-left 2, bottom-right 3.
pub open spec fn block_position(x: int, y: int) -> int {
    2 * (y % 2) + x % 2
}

/// A fully decoded RGB or RGBA image: row-major interleaved samples,
/// 16-bit samples stored big-endian as the PNG stream carries them.
pub struct RgbImage {
    pub width: u32,
    pub height: u32,
    pub data: Vec<u8>,
    pub color_type: ColorType,
    pub bit_depth: BitDepth,
}

/// A single-channel raw sensor grid: one 16-bit sample per pixel
/// position, produced by sampling an `RgbImage` through a Bayer pattern.
pub struct RawImage {
    pub width: u32,
    pub height: u32,
    pub data: Vec<u16>,
    pub bayer_pattern: BayerPattern,
}

impl RawImage {
    /// The dimensions are even and the sample count matches them.
    pub open spec fn wf(self) -> bool {
        &&& self.width % 2 == 0
        &&& self.height % 2 == 0
        &&& self.data@.len() == self.width * self.height
    }
}

impl RgbImage {
    /// The buffer length matches the declared geometry.
    pub open spec fn wf(self) -> bool {
        self.data@.len() == self.width * self.height * self.color_type.spec_channels()
            * self.bit_depth.spec_bytes_per_sample()
    }

    /// The 16-bit value of channel `c` of the pixel at `(x, y)`:
    /// an 8-bit sample is scaled into the high byte, a 16-bit sample is
    /// read big-endian and passed through.
    pub open spec fn spec_sample(self, x: int, y: int, c: int) -> int
        recommends
            0 <= x < self.width,
            0 <= y < self.height,
            0 <= c < self.color_type.spec_channels(),
    {
        let base = (y * self.width + x) * self.color_type.spec_channels() + c;
        match self.bit_depth {
            BitDepth::Eight => self.data@[base] * 256,
            BitDepth::Sixteen => self.data@[2 * base] * 256 + self.data@[2 * base + 1],
        }
    }

    /// Classifies a decoded image by the PNG-defined color type and bit
    /// depth codes and checks that the buffer matches the geometry.
    /// Color type 2 is truecolor (RGB), 6 is truecolor with alpha.
    pub fn from_decoded(
        width: u32,
        height: u32,
        color_type_code: u8,
        bit_depth_code: u8,
        data: Vec<u8>,
    ) -> (r: Result<RgbImage, Error>)
        ensures
            color_type_code != 2 && color_type_code != 6 ==> r == Err::<RgbImage, Error>(
                Error::UnsupportedColorType,
            ),
            (color_type_code == 2 || color_type_code == 6) && bit_depth_code != 8
                && bit_depth_code != 16 ==> r == Err::<RgbImage, Error>(
                Error::UnsupportedBitDepth,
            ),
            r matches Ok(img) ==> {
                &&& img.wf()
                &&& img.width == width
                &&& img.height == height
                &&& img.data@ == data@
                &&& img.color_type == (if color_type_code == 2 {
                    ColorType::RGB
                } else {
                    ColorType::RGBA
                })
                &&& img.bit_depth == (if bit_depth_code == 8 {
                    BitDepth::Eight
                } else {
                    BitDepth::Sixteen
                })
            },
            r is Ok <==> {
                &&& (color_type_code == 2 || color_type_code == 6)
                &&& (bit_depth_code == 8 || bit_depth_code == 16)
                &&& data@.len() == width * height * (if color_type_code == 2 {
                    3nat
                } else {
                    4nat
                }) * (if bit_depth_code == 8 {
                    1nat
                } else {
                    2nat
                })
            },
            r is Err ==> (r == Err::<RgbImage, Error>(Error::UnsupportedColorType) || r
                == Err::<RgbImage, Error>(Error::UnsupportedBitDepth) || r == Err::<
                RgbImage,
                Error,
            >(Error::FrameDecodeError)),
    {
        let color_type = if color_type_code == 2 {
            ColorType::RGB
        } else if color_type_code == 6 {
            ColorType::RGBA
        } else {
            return Err(Error::UnsupportedColorType);
        };
        let bit_depth = if bit_depth_code == 8 {
            BitDepth::Eight
        } else if bit_depth_code == 16 {
            BitDepth::Sixteen
        } else {
            return Err(Error::UnsupportedBitDepth);
        };
        let channels = color_type.channels() as u128;
        let bytes_per_sample = bit_depth.bytes_per_sample() as u128;
        proof {
            let w = width as int;
            let h = height as int;
            let ch = channels as int;
            let bps = bytes_per_sample as int;
            assert(w * h <= 0xFFFF_FFFF * 0xFFFF_FFFF) by (nonlinear_arith)
                requires
                    0 <= w <= 0xFFFF_FFFF,
                    0 <= h <= 0xFFFF_FFFF,
            ;
            assert(w * h * ch <= (w * h) * 4) by (nonlinear_arith)
                requires
                    0 <= w * h,
                    0 <= ch <= 4,
            ;
            assert(w * h * ch * bps <= (w * h * ch) * 2) by (nonlinear_arith)
                requires
                    0 <= w * h * ch,
                    0 <= bps <= 2,
            ;
        }
        let expected: u128 = (width as u128) * (height as u128) * channels * bytes_per_sample;
        if (data.len() as u128) != expected {
            return Err(Error::FrameDecodeError);
        }
        Ok(RgbImage { width, height, data, color_type, bit_depth })
    }

    /// The width with any odd trailing column dropped.
    pub fn even_width(&self) -> (r: u32)
        ensures
            r == even_floor(self.width as int),
    {
        if self.width % 2 == 0 {
            self.width
        } else {
            self.width - 1
        }
    }

    /// The height with any odd trailing row dropped.
    pub fn even_height(&self) -> (r: u32)
        ensures
            r == even_floor(self.height as int),
    {
        if self.height % 2 == 0 {
            self.height
        } else {
            self.height - 1
        }
    }

    /// The number of samples of the raw grid this image yields.
    pub fn even_size(&self) -> (r: u32)
        requires
            even_floor(self.width as int) * even_floor(self.height as int) <= u32::MAX,
        ensures
            r == even_floor(self.width as int) * even_floor(self.height as int),
    {
        self.even_width() * self.even_height()
    }

    /// Samples this image through `bayer_pattern` into a raw sensor grid.
    ///
    /// The grid has the even-truncated dimensions of the source; the
    /// sample at grid position `(x, y)` is the source pixel `(x, y)`
    /// restricted to the channel the pattern assigns to that position of
    /// its 2x2 block, normalized to 16 bits.
    pub fn to_raw(self, bayer_pattern: BayerPattern) -> (r: RawImage)
        requires
            self.wf(),
        ensures
            r.wf(),
            r.width == even_floor(self.width as int),
            r.height == even_floor(self.height as int),
            r.bayer_pattern == bayer_pattern,
            forall|x: int, y: int|
                0 <= x < r.width && 0 <= y < r.height ==> r.data@[y * r.width + x]
                    == self.spec_sample(
                    x,
                    y,
                    bayer_pattern.spec_offsets()[block_position(x, y)] as int,
                ),
    {
        let ew: u32 = self.even_width();
        let eh: u32 = self.even_height();
        let offsets = bayer_pattern.color_offsets();
        let mult: u32 = self.color_type.channels();
        let ghost w = self.width as int;
        let ghost h = self.height as int;
        let ghost ch = self.color_type.spec_channels() as int;
        let ghost bps = self.bit_depth.spec_bytes_per_sample() as int;
        proof {
            lemma_offsets_in_range(bayer_pattern);
            assert(w * h * ch <= w * h * ch * bps) by (nonlinear_arith)
                requires
                    w >= 0,
                    h >= 0,
                    ch >= 0,
                    bps >= 1,
            ;
        }
        let data_len: usize = self.data.len();
        let mut raw: Vec<u16> = Vec::new();
        let mut y: u32 = 0;
        while y < eh
            invariant
                self.wf(),
                ew == even_floor(self.width as int),
                eh == even_floor(self.height as int),
                mult == self.color_type.spec_channels(),
                offsets@ == bayer_pattern.spec_offsets(),
                forall|i: int| 0 <= i < 4 ==> 0 <= #[trigger] offsets@[i] <= 2,
                w == self.width as int,
                h == self.height as int,
                ch == self.color_type.spec_channels() as int,
                bps == self.bit_depth.spec_bytes_per_sample() as int,
                w * h * ch <= self.data@.len(),
                data_len == self.data@.len(),
                0 <= y <= eh,
                raw@.len() == y * ew,
                forall|xx: int, yy: int|
                    0 <= xx < ew && 0 <= yy < y ==> raw@[yy * ew + xx] == self.spec_sample(
                        xx,
                        yy,
                        bayer_pattern.spec_offsets()[block_position(xx, yy)] as int,
                    ),
            decreases eh - y,
        {
            let mut x: u32 = 0;
            while x < ew
                invariant
                    self.wf(),
                    ew == even_floor(self.width as int),
                    eh == even_floor(self.height as int),
                    mult == self.color_type.spec_channels(),
                    offsets@ == bayer_pattern.spec_offsets(),
                    forall|i: int| 0 <= i < 4 ==> 0 <= #[trigger] offsets@[i] <= 2,
                    w == self.width as int,
                    h == self.height as int,
                    ch == self.color_type.spec_channels() as int,
                    bps == self.bit_depth.spec_bytes_per_sample() as int,
                    w * h * ch <= self.data@.len(),
                    data_len == self.data@.len(),
                    0 <= y < eh,
                    0 <= x <= ew,
                    raw@.len() == y * ew + x,
                    forall|xx: int, yy: int|
                        0 <= xx < ew && 0 <= yy < y ==> raw@[yy * ew + xx] == self.spec_sample(
                            xx,
                            yy,
                            bayer_pattern.spec_offsets()[block_position(xx, yy)] as int,
                        ),
                    forall|xx: int|
                        0 <= xx < x ==> raw@[y * ew + xx] == self.spec_sample(
                            xx,
                            y as int,
                            bayer_pattern.spec_offsets()[block_position(xx, y as int)] as int,
                        ),
                decreases ew - x,
            {
                let pos: usize = ((y % 2) * 2 + x % 2) as usize;
                let c: u8 = offsets[pos];
                proof {
                    assert(y * w + x < h * w) by (nonlinear_arith)
                        requires
                            0 <= y,
                            y < h,
                            0 <= x,
                            x < w,
                    ;
                    assert((y * w + x) * ch + c < h * w * ch) by (nonlinear_arith)
                        requires
                            0 <= y * w + x,
                            y * w + x < h * w,
                            0 <= c,
                            c < ch,
                            3 <= ch,
                    ;
                    assert(h * w * ch == w * h * ch) by (nonlinear_arith);
                    assert(h * w <= h * w * ch) by (nonlinear_arith)
                        requires
                            0 <= h * w,
                            1 <= ch,
                    ;
                }
                let pix: usize = (y as usize) * (self.width as usize) + (x as usize);
                let base: usize = pix * (mult as usize) + (c as usize);
                let v: u16 = match self.bit_depth {
                    BitDepth::Eight => (self.data[base] as u16) * 256,
                    BitDepth::Sixteen => {
                        proof {
                            assert(2 * base + 1 < 2 * (w * h * ch)) by (nonlinear_arith)
                                requires
                                    base < w * h * ch,
                            ;
                        }
                        (self.data[2 * base] as u16) * 256 + (self.data[2 * base + 1] as u16)
                    },
                };
                proof {
                    assert(v == self.spec_sample(
                        x as int,
                        y as int,
                        bayer_pattern.spec_offsets()[block_position(x as int, y as int)] as int,
                    ));
                }
                let ghost prev = raw@;
                raw.push(v);
                proof {
                    assert forall|xx: int, yy: int| 0 <= xx < ew && 0 <= yy < y implies raw@[yy * ew
                        + xx] == self.spec_sample(
                        xx,
                        yy,
                        bayer_pattern.spec_offsets()[block_position(xx, yy)] as int,
                    ) by {
                        assert(0 <= yy * ew + xx && yy * ew + xx < y * ew) by (nonlinear_arith)
                            requires
                                0 <= xx,
                                xx < ew,
                                0 <= yy,
                                yy < y,
                        ;
                        assert(raw@[yy * ew + xx] == prev[yy * ew + xx]);
                    }
                    assert forall|xx: int| 0 <= xx < x + 1 implies raw@[y * ew + xx]
                        == self.spec_sample(
                        xx,
                        y as int,
                        bayer_pattern.spec_offsets()[block_position(xx, y as int)] as int,
                    ) by {
                        if xx < x {
                            assert(raw@[y * ew + xx] == prev[y * ew + xx]);
                        } else {
                            assert(y * ew + xx == prev.len());
                        }
                    }
                }
                x = x + 1;
            }
            proof {
                assert(y * ew + ew == (y + 1) * ew) by (nonlinear_arith);
            }
            y = y + 1;
        }
        proof {
            assert(raw@.len() == ew * eh) by (nonlinear_arith)
                requires
                    raw@.len() == eh * ew,
            ;
        }
        RawImage { width: ew, height: eh, data: raw, bayer_pattern }
    }
}

/// The grid dimensions are always even and at most one row and one
/// column below the source dimensions.
pub proof fn lemma_even_floor_bounds(n: int)
    requires
        n >= 0,
    ensures
        even_floor(n) % 2 == 0,
        n - 1 <= even_floor(n) <= n,
{
}

/// Every channel offset the pattern table assigns is a valid RGB channel
/// index.
pub proof fn lemma_offsets_in_range(p: BayerPattern)
    ensures
        forall|i: int| 0 <= i < 4 ==> 0 <= #[trigger] p.spec_offsets()[i] <= 2,
{
    let s = p.spec_offsets();
    match p {
        BayerPattern::RGGB => {
            assert(s[0] <= 2 && s[1] <= 2 && s[2] <= 2 && s[3] <= 2);
        },
        BayerPattern::BGGR => {
            assert(s[0] <= 2 && s[1] <= 2 && s[2] <= 2 && s[3] <= 2);
        },
        BayerPattern::GRBG => {
            assert(s[0] <= 2 && s[1] <= 2 && s[2] <= 2 && s[3] <= 2);
        },
        BayerPattern::GBRG => {
            assert(s[0] <= 2 && s[1] <= 2 && s[2] <= 2 && s[3] <= 2);
        },
    }
}

} // verus!
