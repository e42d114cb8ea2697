//! Pixel-vector representation of images and the four supported edits.
//!
//! An image is held as three channel vectors (R, G, B) in row-major order,
//! the format that the edit circuits consume.

use vstd::prelude::*;
use image::ImageEncoder;
use vstd::string::*;
use crate::support::{decimal, usize_to_decimal};
use vstd::arithmetic::div_mod::lemma_fundamental_div_mod_converse;

verus! {

/// RGB pixel vectors: one byte per pixel and channel, rows stored one after another.
pub struct PixelVectors {
    pub r: Vec<u8>,
    pub g: Vec<u8>,
    pub b: Vec<u8>,
    pub width: u32,
    pub height: u32,
}

/// Errors raised by the pixel operations.
#[derive(Debug, PartialEq, Eq, Structural)]
pub enum ImageError {
    /// The crop region reaches past the image.
    CropOutOfBounds { x: u32, y: u32, width: u32, height: u32, image_width: u32, image_height: u32 },
    /// The blur region reaches past the image.
    BlurOutOfBounds { x: u32, y: u32, width: u32, height: u32, image_width: u32, image_height: u32 },
    /// A channel does not hold `width * height` bytes.
    LengthMismatch { expected: u32, r: usize, g: usize, b: usize },
    /// The bytes are not an image in a supported format.
    Decode,
    /// The image could not be encoded as PNG.
    Encode,
}

/// The text of a region error: `"<kind> region (x,y wxh) exceeds image bounds (WxH)"`.
pub open spec fn region_error_text(kind: Seq<char>, x: u32, y: u32, w: u32, h: u32, iw: u32, ih: u32) -> Seq<char> {
    kind + " region ("@ + decimal(x as nat) + ","@ + decimal(y as nat) + " "@ + decimal(w as nat) + "x"@
        + decimal(h as nat) + ") exceeds image bounds ("@ + decimal(iw as nat) + "x"@ + decimal(ih as nat) + ")"@
}

/// The message that reports an image error.
pub open spec fn image_error_text(e: ImageError) -> Seq<char> {
    match e {
        ImageError::CropOutOfBounds { x, y, width, height, image_width, image_height } =>
            region_error_text("Crop"@, x, y, width, height, image_width, image_height),
        ImageError::BlurOutOfBounds { x, y, width, height, image_width, image_height } =>
            region_error_text("Blur"@, x, y, width, height, image_width, image_height),
        ImageError::LengthMismatch { expected, r, g, b } => "Pixel vector length mismatch: expected "@
            + decimal(expected as nat) + ", got r="@ + decimal(r as nat) + ", g="@ + decimal(g as nat) + ", b="@
            + decimal(b as nat),
        ImageError::Decode => "Failed to load image. Supported formats: PNG, JPEG, WebP, GIF. HEIC/HEIF is NOT supported."@,
        ImageError::Encode => "Failed to encode image to PNG"@,
    }
}

/// The text of a region error.
fn region_error_message(kind: &str, x: u32, y: u32, w: u32, h: u32, iw: u32, ih: u32) -> (m: String)
    ensures
        m@ == region_error_text(kind@, x, y, w, h, iw, ih),
{
    String::from_str(kind).concat(" region (").concat(usize_to_decimal(x as usize).as_str()).concat(",")
        .concat(usize_to_decimal(y as usize).as_str()).concat(" ").concat(usize_to_decimal(w as usize).as_str())
        .concat("x").concat(usize_to_decimal(h as usize).as_str()).concat(") exceeds image bounds (")
        .concat(usize_to_decimal(iw as usize).as_str()).concat("x").concat(usize_to_decimal(ih as usize).as_str())
        .concat(")")
}

impl ImageError {
    /// The message that reports this error.
    pub fn message(&self) -> (m: String)
        ensures
            m@ == image_error_text(*self),
    {
        match self {
            ImageError::CropOutOfBounds { x, y, width, height, image_width, image_height } =>
                region_error_message("Crop", *x, *y, *width, *height, *image_width, *image_height),
            ImageError::BlurOutOfBounds { x, y, width, height, image_width, image_height } =>
                region_error_message("Blur", *x, *y, *width, *height, *image_width, *image_height),
            ImageError::LengthMismatch { expected, r, g, b } => String::from_str("Pixel vector length mismatch: expected ")
                .concat(usize_to_decimal(*expected as usize).as_str()).concat(", got r=")
                .concat(usize_to_decimal(*r).as_str()).concat(", g=").concat(usize_to_decimal(*g).as_str())
                .concat(", b=").concat(usize_to_decimal(*b).as_str()),
            ImageError::Decode => String::from_str(
                "Failed to load image. Supported formats: PNG, JPEG, WebP, GIF. HEIC/HEIF is NOT supported.",
            ),
            ImageError::Encode => String::from_str("Failed to encode image to PNG"),
        }
    }
}

impl PixelVectors {
    /// Each channel holds exactly one byte per pixel, and the pixel count fits in `u32`.
    pub open spec fn wf(&self) -> bool {
        &&& self.width * self.height <= u32::MAX
        &&& self.r@.len() == self.width * self.height
        &&& self.g@.len() == self.width * self.height
        &&& self.b@.len() == self.width * self.height
    }

    /// Total number of pixels
    pub fn pixel_count(&self) -> (n: usize)
        ensures
            n == self.r@.len(),
    {
        self.r.len()
    }
}

/// Position of pixel (`col`, `row`) in a row-major channel of width `w`.
pub open spec fn pixel_index(w: int, col: int, row: int) -> int {
    row * w + col
}

/// Row-major bounds: a pixel inside a `w` x `h` grid has an index below `w * h`.
pub proof fn lemma_pixel_index_bounds(w: int, h: int, col: int, row: int)
    requires
        0 <= col < w,
        0 <= row < h,
    ensures
        0 <= pixel_index(w, col, row) < w * h,
        pixel_index(w, col, row) + 1 <= (row + 1) * w,
{
    assert(0 <= row * w) by (nonlinear_arith)
        requires
            0 <= row,
            0 <= w,
    ;
    assert(row * w + col < w * h) by (nonlinear_arith)
        requires
            0 <= col < w,
            0 <= row < h,
    ;
    assert((row + 1) * w == row * w + w) by (nonlinear_arith);
}

/// Index `row * w + col` splits back into `row` and `col`.
pub proof fn lemma_pixel_index_split(w: int, col: int, row: int)
    requires
        0 <= col < w,
    ensures
        pixel_index(w, col, row) / w == row,
        pixel_index(w, col, row) % w == col,
{
    lemma_fundamental_div_mod_converse(row * w + col, w, row, col);
}

/// The `cw` x `chh` rectangle of channel `ch` (of width `w`) whose top-left pixel is (`x`, `y`).
pub open spec fn crop_channel(ch: Seq<u8>, w: int, x: int, y: int, cw: int, chh: int) -> Seq<u8> {
    Seq::new(
        (cw * chh) as nat,
        |k: int| ch[pixel_index(w, x + k % cw, y + k / cw)],
    )
}

/// Element (`col`, `row`) of a cropped channel is pixel (`x + col`, `y + row`) of the source.
pub proof fn lemma_crop_channel_at(
    ch: Seq<u8>,
    w: int,
    x: int,
    y: int,
    cw: int,
    chh: int,
    col: int,
    row: int,
)
    requires
        0 <= col < cw,
        0 <= row < chh,
    ensures
        pixel_index(cw, col, row) < crop_channel(ch, w, x, y, cw, chh).len(),
        crop_channel(ch, w, x, y, cw, chh)[pixel_index(cw, col, row)] == ch[pixel_index(
            w,
            x + col,
            y + row,
        )],
{
    lemma_pixel_index_bounds(cw, chh, col, row);
    lemma_pixel_index_split(cw, col, row);
}

/// Copies the rectangle of one channel, row by row.
fn crop_one_channel(ch: &Vec<u8>, w: u32, h: u32, x: u32, y: u32, cw: u32, chh: u32) -> (out: Vec<u8>)
    requires
        w * h <= u32::MAX,
        ch@.len() == w * h,
        x + cw <= w,
        y + chh <= h,
    ensures
        out@ == crop_channel(ch@, w as int, x as int, y as int, cw as int, chh as int),
{
    let ghost spec_out = crop_channel(ch@, w as int, x as int, y as int, cw as int, chh as int);
    let mut out: Vec<u8> = Vec::new();
    let mut row: u32 = 0;
    while row < chh
        invariant
            w * h <= u32::MAX,
            ch@.len() == w * h,
            x + cw <= w,
            y + chh <= h,
            row <= chh,
            spec_out == crop_channel(ch@, w as int, x as int, y as int, cw as int, chh as int),
            out@.len() == row * cw,
            out@ =~= spec_out.subrange(0, row * cw),
        decreases chh - row,
    {
        let mut col: u32 = 0;
        proof {
            assert(row * cw + cw == (row + 1) * cw) by (nonlinear_arith);
            assert((row + 1) * cw <= chh * cw) by (nonlinear_arith)
                requires
                    row < chh,
                    0 <= cw,
            ;
            assert(chh * cw == cw * chh) by (nonlinear_arith);
        }
        while col < cw
            invariant
                w * h <= u32::MAX,
                ch@.len() == w * h,
                x + cw <= w,
                y + chh <= h,
                row < chh,
                col <= cw,
                spec_out == crop_channel(ch@, w as int, x as int, y as int, cw as int, chh as int),
                spec_out.len() == cw * chh,
                row * cw + cw <= cw * chh,
                out@.len() == row * cw + col,
                out@ =~= spec_out.subrange(0, row * cw + col),
            decreases cw - col,
        {
            proof {
                lemma_pixel_index_bounds(w as int, h as int, (x + col) as int, (y + row) as int);
                lemma_crop_channel_at(ch@, w as int, x as int, y as int, cw as int, chh as int, col as int, row as int);
            }
            let idx = (y + row) * w + (x + col);
            out.push(ch[idx as usize]);
            col = col + 1;
        }
        row = row + 1;
    }
    proof {
        assert(chh * cw == cw * chh) by (nonlinear_arith);
    }
    out
}

/// Apply cropping to pixel vectors
pub fn crop_pixels(pixels: &PixelVectors, x: u32, y: u32, width: u32, height: u32) -> (res: Result<PixelVectors, ImageError>)
    requires
        pixels.wf(),
        x + width <= u32::MAX,
        y + height <= u32::MAX,
    ensures
        match res {
            Ok(out) => {
                &&& x + width <= pixels.width
                &&& y + height <= pixels.height
                &&& out.wf()
                &&& out.width == width
                &&& out.height == height
                &&& out.r@ == crop_channel(pixels.r@, pixels.width as int, x as int, y as int, width as int, height as int)
                &&& out.g@ == crop_channel(pixels.g@, pixels.width as int, x as int, y as int, width as int, height as int)
                &&& out.b@ == crop_channel(pixels.b@, pixels.width as int, x as int, y as int, width as int, height as int)
            },
            Err(e) => {
                &&& (x + width > pixels.width || y + height > pixels.height)
                &&& e == (ImageError::CropOutOfBounds {
                    x, y, width, height, image_width: pixels.width, image_height: pixels.height,
                })
            },
        },
{
    if x + width > pixels.width || y + height > pixels.height {
        return Err(ImageError::CropOutOfBounds {
            x, y, width, height, image_width: pixels.width, image_height: pixels.height,
        });
    }
    proof {
        assert(width * height <= pixels.width * pixels.height) by (nonlinear_arith)
            requires
                width <= pixels.width,
                height <= pixels.height,
        ;
    }
    let r = crop_one_channel(&pixels.r, pixels.width, pixels.height, x, y, width, height);
    let g = crop_one_channel(&pixels.g, pixels.width, pixels.height, x, y, width, height);
    let b = crop_one_channel(&pixels.b, pixels.width, pixels.height, x, y, width, height);
    Ok(PixelVectors { r, g, b, width, height })
}


/// Grayscale value by the Photoshop weights, rounded half up:
/// `round(0.30 * r + 0.59 * g + 0.11 * b)` computed exactly.
pub open spec fn gray_value(r: u8, g: u8, b: u8) -> u8 {
    ((30 * r + 59 * g + 11 * b + 50) / 100) as u8
}

/// The gray value is the integer nearest to `0.30 r + 0.59 g + 0.11 b`, halves
/// rounded up: `100 * gray` differs from `30 r + 59 g + 11 b` by more than `-50`
/// and at most `50`.
pub proof fn lemma_gray_value_nearest(r: u8, g: u8, b: u8)
    ensures
        -50 < 100 * gray_value(r, g, b) - (30 * r + 59 * g + 11 * b) <= 50,
{
    let s = 30 * r + 59 * g + 11 * b + 50;
    vstd::arithmetic::div_mod::lemma_fundamental_div_mod(s, 100);
    assert(0 <= s / 100 <= 255);
}

/// The grayscale channel of three equally long channels.
pub open spec fn gray_channel(r: Seq<u8>, g: Seq<u8>, b: Seq<u8>) -> Seq<u8> {
    Seq::new(r.len(), |i: int| gray_value(r[i], g[i], b[i]))
}

/// Apply grayscale conversion using Photoshop formula
/// gray = round(0.30*R + 0.59*G + 0.11*B)
pub fn grayscale_pixels(pixels: &PixelVectors) -> (out: PixelVectors)
    requires
        pixels.g@.len() >= pixels.r@.len(),
        pixels.b@.len() >= pixels.r@.len(),
    ensures
        out.r@ == gray_channel(pixels.r@, pixels.g@, pixels.b@),
        out.g@ == out.r@,
        out.b@ == out.r@,
        out.width == pixels.width,
        out.height == pixels.height,
        pixels.wf() ==> out.wf(),
{
    let len = pixels.r.len();
    let mut gray: Vec<u8> = Vec::with_capacity(len);
    let mut i: usize = 0;
    while i < len
        invariant
            len == pixels.r@.len(),
            pixels.g@.len() >= len,
            pixels.b@.len() >= len,
            i <= len,
            gray@ =~= gray_channel(pixels.r@, pixels.g@, pixels.b@).subrange(0, i as int),
        decreases len - i,
    {
        let r = pixels.r[i] as u32;
        let g = pixels.g[i] as u32;
        let b = pixels.b[i] as u32;
        let val = ((30 * r + 59 * g + 11 * b + 50) / 100) as u8;
        gray.push(val);
        i = i + 1;
    }
    let gray_r = gray.clone();
    let gray_g = gray.clone();
    proof {
        assert(gray_r@ =~= gray@);
        assert(gray_g@ =~= gray@);
    }
    PixelVectors { r: gray_r, g: gray_g, b: gray, width: pixels.width, height: pixels.height }
}

/// Pixel (`col`, `row`) lies strictly inside the blur region, so that its whole
/// 3x3 neighbourhood lies in the region.
pub open spec fn in_blur_interior(bx: int, by: int, bw: int, bh: int, col: int, row: int) -> bool {
    &&& bx + 1 <= col < bx + bw - 1
    &&& by + 1 <= row < by + bh - 1
}

/// Sum of the 3x3 neighbourhood centred on (`col`, `row`).
pub open spec fn box_sum(ch: Seq<u8>, w: int, col: int, row: int) -> int {
    ch[pixel_index(w, col - 1, row - 1)] + ch[pixel_index(w, col, row - 1)] + ch[pixel_index(w, col + 1, row - 1)]
        + ch[pixel_index(w, col - 1, row)] + ch[pixel_index(w, col, row)] + ch[pixel_index(w, col + 1, row)]
        + ch[pixel_index(w, col - 1, row + 1)] + ch[pixel_index(w, col, row + 1)] + ch[pixel_index(w, col + 1, row + 1)]
}

/// The blurred value of a pixel: the 3x3 mean, rounded down.
pub open spec fn box_mean(ch: Seq<u8>, w: int, col: int, row: int) -> u8 {
    (box_sum(ch, w, col, row) / 9) as u8
}

/// Channel `ch` (of width `w`) after a 3x3 box blur of the interior of the region.
pub open spec fn blur_channel(ch: Seq<u8>, w: int, bx: int, by: int, bw: int, bh: int) -> Seq<u8> {
    Seq::new(
        ch.len(),
        |k: int|
            if in_blur_interior(bx, by, bw, bh, k % w, k / w) {
                box_mean(ch, w, k % w, k / w)
            } else {
                ch[k]
            },
    )
}

/// Pixels of the blur interior that a row-major sweep has reached before (`xx`, `yy`).
pub open spec fn blur_done(bx: int, by: int, bw: int, bh: int, col: int, row: int, xx: int, yy: int) -> bool {
    &&& in_blur_interior(bx, by, bw, bh, col, row)
    &&& (row < yy || (row == yy && col < xx))
}

/// Distinct pixels have distinct indices.
pub proof fn lemma_pixel_index_injective(w: int, c1: int, r1: int, c2: int, r2: int)
    requires
        0 <= c1 < w,
        0 <= c2 < w,
        pixel_index(w, c1, r1) == pixel_index(w, c2, r2),
    ensures
        c1 == c2,
        r1 == r2,
{
    lemma_pixel_index_split(w, c1, r1);
    lemma_pixel_index_split(w, c2, r2);
}

/// The 3x3 mean around an interior pixel.
fn box_mean_exec(ch: &Vec<u8>, w: u32, h: u32, col: u32, row: u32) -> (m: u8)
    requires
        w * h <= u32::MAX,
        ch@.len() == w * h,
        1 <= col,
        col + 1 < w,
        1 <= row,
        row + 1 < h,
    ensures
        m == box_mean(ch@, w as int, col as int, row as int),
{
    proof {
        lemma_pixel_index_bounds(w as int, h as int, (col + 1) as int, (row + 1) as int);
        lemma_pixel_index_bounds(w as int, h as int, (col - 1) as int, (row - 1) as int);
        assert((row - 1) * w + w == row * w) by (nonlinear_arith);
        assert(row * w + w == (row + 1) * w) by (nonlinear_arith);
    }
    let up = (row - 1) * w;
    let mid = row * w;
    let down = (row + 1) * w;
    let sum: u32 = ch[(up + col - 1) as usize] as u32 + ch[(up + col) as usize] as u32
        + ch[(up + col + 1) as usize] as u32 + ch[(mid + col - 1) as usize] as u32
        + ch[(mid + col) as usize] as u32 + ch[(mid + col + 1) as usize] as u32
        + ch[(down + col - 1) as usize] as u32 + ch[(down + col) as usize] as u32
        + ch[(down + col + 1) as usize] as u32;
    (sum / 9) as u8
}

/// Blurs the interior of the region in one channel, row by row.
fn blur_one_channel(ch: &Vec<u8>, w: u32, h: u32, bx: u32, by: u32, bw: u32, bh: u32) -> (out: Vec<u8>)
    requires
        w * h <= u32::MAX,
        ch@.len() == w * h,
        bx + bw <= w,
        by + bh <= h,
        by + bh >= 1,
        by < u32::MAX,
        bh >= 3 ==> bx + bw >= 1,
    ensures
        out@ == blur_channel(ch@, w as int, bx as int, by as int, bw as int, bh as int),
{
    let ghost (bxi, byi, bwi, bhi, wi) = (bx as int, by as int, bw as int, bh as int, w as int);
    let mut out = ch.clone();
    proof {
        assert(out@ =~= ch@);
    }
    let y_end = by + bh - 1;
    let mut yy = by + 1;
    while yy < y_end
        invariant
            w * h <= u32::MAX,
            ch@.len() == w * h,
            bx + bw <= w,
            by + bh <= h,
            y_end == by + bh - 1,
            by + 1 <= yy,
            yy < y_end ==> bx + bw >= 1,
            wi == w as int,
            bxi == bx as int,
            byi == by as int,
            bwi == bw as int,
            bhi == bh as int,
            out@.len() == ch@.len(),
            forall|col: int, row: int|
                0 <= col < w && 0 <= row < h ==> #[trigger] out@[pixel_index(wi, col, row)] == if blur_done(bxi, byi, bwi, bhi, col, row, 0, yy as int) {
                    box_mean(ch@, wi, col, row)
                } else {
                    ch@[pixel_index(wi, col, row)]
                },
        decreases y_end - yy,
    {
        proof {
            assert(w < u32::MAX) by (nonlinear_arith)
                requires
                    w * h <= u32::MAX,
                    h >= 3,
            ;
            assert forall|col: int, row: int|
                0 <= col < w && 0 <= row < h implies #[trigger] out@[pixel_index(wi, col, row)] == if blur_done(bxi, byi, bwi, bhi, col, row, bx + 1, yy as int) {
                    box_mean(ch@, wi, col, row)
                } else {
                    ch@[pixel_index(wi, col, row)]
                } by {
                assert(blur_done(bxi, byi, bwi, bhi, col, row, bx + 1, yy as int) == blur_done(bxi, byi, bwi, bhi, col, row, 0, yy as int));
            }
        }
        let x_end = bx + bw - 1;
        let mut xx = bx + 1;
        while xx < x_end
            invariant
                w * h <= u32::MAX,
                ch@.len() == w * h,
                bx + bw <= w,
                by + bh <= h,
                y_end == by + bh - 1,
                by + 1 <= yy < y_end,
                x_end == bx + bw - 1,
                bx + 1 <= xx,
                wi == w as int,
                bxi == bx as int,
                byi == by as int,
                bwi == bw as int,
                bhi == bh as int,
                out@.len() == ch@.len(),
                forall|col: int, row: int|
                    0 <= col < w && 0 <= row < h ==> #[trigger] out@[pixel_index(wi, col, row)] == if blur_done(bxi, byi, bwi, bhi, col, row, xx as int, yy as int) {
                        box_mean(ch@, wi, col, row)
                    } else {
                        ch@[pixel_index(wi, col, row)]
                    },
            decreases x_end - xx,
        {
            let m = box_mean_exec(ch, w, h, xx, yy);
            proof {
                lemma_pixel_index_bounds(wi, h as int, xx as int, yy as int);
            }
            let idx = yy * w + xx;
            out.set(idx as usize, m);
            proof {
                assert forall|col: int, row: int|
                    0 <= col < w && 0 <= row < h implies #[trigger] out@[pixel_index(wi, col, row)] == if blur_done(bxi, byi, bwi, bhi, col, row, xx + 1, yy as int) {
                        box_mean(ch@, wi, col, row)
                    } else {
                        ch@[pixel_index(wi, col, row)]
                    } by {
                    lemma_pixel_index_bounds(wi, h as int, col, row);
                    if pixel_index(wi, col, row) == idx {
                        lemma_pixel_index_injective(wi, col, row, xx as int, yy as int);
                    }
                }
            }
            xx = xx + 1;
        }
        proof {
            assert forall|col: int, row: int|
                0 <= col < w && 0 <= row < h implies #[trigger] out@[pixel_index(wi, col, row)] == if blur_done(bxi, byi, bwi, bhi, col, row, 0, yy + 1) {
                    box_mean(ch@, wi, col, row)
                } else {
                    ch@[pixel_index(wi, col, row)]
                } by {
                assert(blur_done(bxi, byi, bwi, bhi, col, row, 0, yy + 1) == blur_done(bxi, byi, bwi, bhi, col, row, xx as int, yy as int));
            }
        }
        yy = yy + 1;
    }
    proof {
        assert forall|k: int| 0 <= k < out@.len() implies out@[k] == blur_channel(ch@, wi, bxi, byi, bwi, bhi)[k] by {
            let col = k % wi;
            let row = k / wi;
            assert(w > 0) by (nonlinear_arith)
                requires
                    0 <= k < w * h,
            ;
            vstd::arithmetic::div_mod::lemma_fundamental_div_mod(k, wi);
            vstd::arithmetic::div_mod::lemma_mod_bound(k, wi);
            assert(pixel_index(wi, col, row) == k) by (nonlinear_arith)
                requires
                    k == wi * (k / wi) + k % wi,
                    col == k % wi,
                    row == k / wi,
            ;
            assert(0 <= row < h) by (nonlinear_arith)
                requires
                    0 <= k < wi * h,
                    row == k / wi,
                    wi > 0,
            {
                vstd::arithmetic::div_mod::lemma_div_pos_is_pos(k, wi);
                vstd::arithmetic::div_mod::lemma_div_is_ordered(k, wi * h - 1, wi);
                vstd::arithmetic::div_mod::lemma_div_multiples_vanish(h as int, wi);
            }
        }
        assert(out@ =~= blur_channel(ch@, wi, bxi, byi, bwi, bhi));
    }
    out
}

/// Apply box blur to a region
pub fn blur_pixels(pixels: &PixelVectors, bx: u32, by: u32, bw: u32, bh: u32) -> (res: Result<PixelVectors, ImageError>)
    requires
        pixels.wf(),
        bx + bw <= u32::MAX,
        by + bh <= u32::MAX,
        by + bh >= 1,
        by + bh <= pixels.height ==> by < u32::MAX,
        bh >= 3 ==> bx + bw >= 1,
    ensures
        match res {
            Ok(out) => {
                &&& bx + bw <= pixels.width
                &&& by + bh <= pixels.height
                &&& out.wf()
                &&& out.width == pixels.width
                &&& out.height == pixels.height
                &&& out.r@ == blur_channel(pixels.r@, pixels.width as int, bx as int, by as int, bw as int, bh as int)
                &&& out.g@ == blur_channel(pixels.g@, pixels.width as int, bx as int, by as int, bw as int, bh as int)
                &&& out.b@ == blur_channel(pixels.b@, pixels.width as int, bx as int, by as int, bw as int, bh as int)
            },
            Err(e) => {
                &&& (bx + bw > pixels.width || by + bh > pixels.height)
                &&& e == (ImageError::BlurOutOfBounds {
                    x: bx, y: by, width: bw, height: bh, image_width: pixels.width, image_height: pixels.height,
                })
            },
        },
{
    if bx + bw > pixels.width || by + bh > pixels.height {
        return Err(ImageError::BlurOutOfBounds {
            x: bx, y: by, width: bw, height: bh, image_width: pixels.width, image_height: pixels.height,
        });
    }
    let r = blur_one_channel(&pixels.r, pixels.width, pixels.height, bx, by, bw, bh);
    let g = blur_one_channel(&pixels.g, pixels.width, pixels.height, bx, by, bw, bh);
    let b = blur_one_channel(&pixels.b, pixels.width, pixels.height, bx, by, bw, bh);
    Ok(PixelVectors { r, g, b, width: pixels.width, height: pixels.height })
}

/// An interior pixel of the blur region becomes the mean, rounded down, of its
/// 3x3 neighbourhood: each of the nine pixels around it, itself included, counts
/// exactly once, with weight 1/9.
pub proof fn lemma_blur_interior_is_mean_of_neighbours(
    ch: Seq<u8>,
    w: int,
    bx: int,
    by: int,
    bw: int,
    bh: int,
    col: int,
    row: int,
)
    requires
        1 <= col,
        col + 1 < w,
        1 <= row,
        (row + 1) * w + col + 1 < ch.len(),
        in_blur_interior(bx, by, bw, bh, col, row),
    ensures
        blur_channel(ch, w, bx, by, bw, bh)[row * w + col] as int == (
            ch[(row - 1) * w + col - 1] + ch[(row - 1) * w + col] + ch[(row - 1) * w + col + 1]
            + ch[row * w + col - 1] + ch[row * w + col] + ch[row * w + col + 1]
            + ch[(row + 1) * w + col - 1] + ch[(row + 1) * w + col] + ch[(row + 1) * w + col + 1]
        ) / 9,
{
    lemma_pixel_index_split(w, col, row);
    assert((row + 1) * w == row * w + w) by (nonlinear_arith);
    assert(0 <= (row - 1) * w) by (nonlinear_arith)
        requires
            1 <= row,
            0 <= w,
    ;
    let k = row * w + col;
    assert(0 <= k < ch.len());
    let sum = box_sum(ch, w, col, row);
    assert(0 <= sum <= 9 * 255);
    assert(0 <= sum / 9 <= 255);
}

/// A pixel outside the interior of the blur region keeps its value.
pub proof fn lemma_blur_keeps_pixels_outside_interior(
    ch: Seq<u8>,
    w: int,
    bx: int,
    by: int,
    bw: int,
    bh: int,
    col: int,
    row: int,
)
    requires
        0 <= col < w,
        0 <= row,
        row * w + col < ch.len(),
        !in_blur_interior(bx, by, bw, bh, col, row),
    ensures
        blur_channel(ch, w, bx, by, bw, bh)[row * w + col] == ch[row * w + col],
{
    lemma_pixel_index_split(w, col, row);
    assert(0 <= row * w) by (nonlinear_arith)
        requires
            0 <= row,
            0 <= w,
    ;
}


/// Denominator of the source-coordinate ratio `(n_src - 1) / max(n_new - 1, 1)`.
pub open spec fn resize_den(n_new: int) -> int {
    if n_new - 1 >= 1 { n_new - 1 } else { 1 }
}

/// Lower source coordinate of output coordinate `i`: `floor(i * (n_src - 1) / den)`.
pub open spec fn src_low(i: int, n_src: int, n_new: int) -> int {
    (i * (n_src - 1)) / resize_den(n_new)
}

/// Fractional part of the source coordinate, in units of `1 / den`.
pub open spec fn src_frac(i: int, n_src: int, n_new: int) -> int {
    (i * (n_src - 1)) % resize_den(n_new)
}

/// Upper source coordinate, clamped to the last row or column.
pub open spec fn src_high(i: int, n_src: int, n_new: int) -> int {
    if src_low(i, n_src, n_new) + 1 <= n_src - 1 { src_low(i, n_src, n_new) + 1 } else { n_src - 1 }
}

/// `round(num / den)`, halves rounded up, for non-negative `num` and positive `den`.
pub open spec fn round_div(num: int, den: int) -> int {
    (2 * num + den) / (2 * den)
}

/// `round_div` rounds to the nearest integer, halves up: `num / den` lies in
/// `[r - 1/2, r + 1/2)` for the result `r`.
pub proof fn lemma_round_div_nearest(num: int, den: int)
    requires
        0 <= num,
        1 <= den,
    ensures
        den * (2 * round_div(num, den) - 1) <= 2 * num < den * (2 * round_div(num, den) + 1),
{
    let r = round_div(num, den);
    vstd::arithmetic::div_mod::lemma_fundamental_div_mod(2 * num + den, 2 * den);
    let m = (2 * num + den) % (2 * den);
    assert(0 <= m < 2 * den);
    assert(2 * num + den == (2 * den) * r + m);
    assert(den * (2 * r - 1) == (2 * den) * r - den) by (nonlinear_arith);
    assert(den * (2 * r + 1) == (2 * den) * r + den) by (nonlinear_arith);
}

/// Bilinear interpolation of the four neighbours `tl`, `tr`, `bl`, `br`, with the
/// fractional offsets `xw / dw` and `yw / dh`, scaled by `dw * dh`.
pub open spec fn bilinear_num(tl: int, tr: int, bl: int, br: int, xw: int, yw: int, dw: int, dh: int) -> int {
    (dw - xw) * (dh - yw) * tl + xw * (dh - yw) * tr + (dw - xw) * yw * bl + xw * yw * br
}

/// Output pixel (`col`, `row`) of channel `ch` (a `w` x `h` grid) resized to `nw` x `nh`.
pub open spec fn resize_value(ch: Seq<u8>, w: int, h: int, nw: int, nh: int, col: int, row: int) -> u8 {
    let dw = resize_den(nw);
    let dh = resize_den(nh);
    let xl = src_low(col, w, nw);
    let xh = src_high(col, w, nw);
    let yl = src_low(row, h, nh);
    let yh = src_high(row, h, nh);
    let num = bilinear_num(
        ch[pixel_index(w, xl, yl)] as int,
        ch[pixel_index(w, xh, yl)] as int,
        ch[pixel_index(w, xl, yh)] as int,
        ch[pixel_index(w, xh, yh)] as int,
        src_frac(col, w, nw),
        src_frac(row, h, nh),
        dw,
        dh,
    );
    round_div(num, dw * dh) as u8
}

/// Channel `ch` (a `w` x `h` grid) resized to `nw` x `nh` by bilinear interpolation.
pub open spec fn resize_channel(ch: Seq<u8>, w: int, h: int, nw: int, nh: int) -> Seq<u8> {
    Seq::new((nw * nh) as nat, |k: int| resize_value(ch, w, h, nw, nh, k % nw, k / nw))
}

/// Source coordinates of an output coordinate stay inside the source grid.
pub proof fn lemma_src_coords(i: int, n_src: int, n_new: int)
    requires
        0 <= i < n_new,
        n_src >= 1,
    ensures
        0 <= src_low(i, n_src, n_new) <= src_high(i, n_src, n_new) <= n_src - 1,
        0 <= src_frac(i, n_src, n_new) < resize_den(n_new),
        resize_den(n_new) >= 1,
{
    let d = resize_den(n_new);
    let p = i * (n_src - 1);
    assert(0 <= p) by (nonlinear_arith)
        requires
            p == i * (n_src - 1),
            0 <= i,
            n_src >= 1,
    ;
    assert(p <= d * (n_src - 1)) by (nonlinear_arith)
        requires
            p == i * (n_src - 1),
            0 <= i,
            i <= d,
            n_src >= 1,
    ;
    vstd::arithmetic::div_mod::lemma_div_pos_is_pos(p, d);
    vstd::arithmetic::div_mod::lemma_div_is_ordered(p, d * (n_src - 1), d);
    vstd::arithmetic::div_mod::lemma_div_multiples_vanish(n_src - 1, d);
    vstd::arithmetic::div_mod::lemma_mod_bound(p, d);
}

/// The interpolated numerator is at most `255 * dw * dh`, so the rounded mean fits in a byte.
pub proof fn lemma_bilinear_bound(tl: int, tr: int, bl: int, br: int, xw: int, yw: int, dw: int, dh: int)
    requires
        0 <= tl <= 255,
        0 <= tr <= 255,
        0 <= bl <= 255,
        0 <= br <= 255,
        0 <= xw < dw,
        0 <= yw < dh,
    ensures
        0 <= bilinear_num(tl, tr, bl, br, xw, yw, dw, dh) <= 255 * (dw * dh),
        0 <= round_div(bilinear_num(tl, tr, bl, br, xw, yw, dw, dh), dw * dh) <= 255,
{
    let a = (dw - xw) * (dh - yw);
    let b = xw * (dh - yw);
    let c = (dw - xw) * yw;
    let d = xw * yw;
    assert(0 <= a && 0 <= b && 0 <= c && 0 <= d) by (nonlinear_arith)
        requires
            0 <= xw < dw,
            0 <= yw < dh,
            a == (dw - xw) * (dh - yw),
            b == xw * (dh - yw),
            c == (dw - xw) * yw,
            d == xw * yw,
    ;
    assert(a + b + c + d == dw * dh) by (nonlinear_arith)
        requires
            a == (dw - xw) * (dh - yw),
            b == xw * (dh - yw),
            c == (dw - xw) * yw,
            d == xw * yw,
    ;
    let num = bilinear_num(tl, tr, bl, br, xw, yw, dw, dh);
    assert(num == a * tl + b * tr + c * bl + d * br) by (nonlinear_arith)
        requires
            num == bilinear_num(tl, tr, bl, br, xw, yw, dw, dh),
            a == (dw - xw) * (dh - yw),
            b == xw * (dh - yw),
            c == (dw - xw) * yw,
            d == xw * yw,
    ;
    assert(0 <= num <= 255 * (a + b + c + d)) by (nonlinear_arith)
        requires
            num == a * tl + b * tr + c * bl + d * br,
            0 <= a,
            0 <= b,
            0 <= c,
            0 <= d,
            0 <= tl <= 255,
            0 <= tr <= 255,
            0 <= bl <= 255,
            0 <= br <= 255,
    ;
    let den = dw * dh;
    assert(den >= 1) by (nonlinear_arith)
        requires
            dw >= 1,
            dh >= 1,
            den == dw * dh,
    ;
    assert(0 <= (2 * num + den) / (2 * den) <= 255) by (nonlinear_arith)
        requires
            0 <= num <= 255 * den,
            den >= 1,
    {
        vstd::arithmetic::div_mod::lemma_div_pos_is_pos(2 * num + den, 2 * den);
        vstd::arithmetic::div_mod::lemma_div_is_ordered(2 * num + den, 511 * den, 2 * den);
        assert(511 * den == 2 * den * 255 + den);
        vstd::arithmetic::div_mod::lemma_fundamental_div_mod_converse(511 * den, 2 * den, 255, den);
    }
}

/// Bilinear interpolation is linear interpolation along the top row and along
/// the bottom row (weights `dw - xw` and `xw`), then between the two rows
/// (weights `dh - yw` and `yw`).
pub proof fn lemma_bilinear_separable(tl: int, tr: int, bl: int, br: int, xw: int, yw: int, dw: int, dh: int)
    ensures
        bilinear_num(tl, tr, bl, br, xw, yw, dw, dh)
            == (dh - yw) * ((dw - xw) * tl + xw * tr) + yw * ((dw - xw) * bl + xw * br),
{
    let a = dw - xw;
    let b = dh - yw;
    vstd::arithmetic::mul::lemma_mul_is_distributive_add(b, a * tl, xw * tr);
    vstd::arithmetic::mul::lemma_mul_is_distributive_add(yw, a * bl, xw * br);
    assert(b * (a * tl) == a * b * tl) by (nonlinear_arith);
    assert(b * (xw * tr) == xw * b * tr) by (nonlinear_arith);
    assert(yw * (a * bl) == a * yw * bl) by (nonlinear_arith);
    assert(yw * (xw * br) == xw * yw * br) by (nonlinear_arith);
}

/// `round(dw * x / (dw * d)) == round(x / d)`.
proof fn lemma_round_div_cancel(x: int, d: int, dw: int)
    requires
        0 <= x,
        1 <= d,
        1 <= dw,
    ensures
        round_div(dw * x, dw * d) == round_div(x, d),
{
    let n = 2 * x + d;
    assert(2 * (dw * x) + dw * d == dw * n) by (nonlinear_arith)
        requires
            n == 2 * x + d,
    ;
    assert(2 * (dw * d) == dw * (2 * d)) by (nonlinear_arith);
    assert(0 <= dw * n) by (nonlinear_arith)
        requires
            0 <= n,
            1 <= dw,
    ;
    vstd::arithmetic::div_mod::lemma_div_denominator(dw * n, dw, 2 * d);
    vstd::arithmetic::div_mod::lemma_div_multiples_vanish(n, dw);
}

/// An output pixel whose column falls on a source column (`xw == 0`) is the
/// vertical interpolation, rounded half up, of that column: `tl` with weight
/// `dh - yw` and `bl` with weight `yw`. Likewise an output pixel on a source row
/// (`yw == 0`) is the horizontal interpolation of `tl` and `tr`.
pub proof fn lemma_bilinear_on_source_lines(tl: u8, tr: u8, bl: u8, br: u8, xw: int, yw: int, dw: int, dh: int)
    requires
        0 <= xw < dw,
        0 <= yw < dh,
    ensures
        xw == 0 ==> round_div(bilinear_num(tl as int, tr as int, bl as int, br as int, xw, yw, dw, dh), dw * dh)
            == round_div((dh - yw) * tl + yw * bl, dh),
        yw == 0 ==> round_div(bilinear_num(tl as int, tr as int, bl as int, br as int, xw, yw, dw, dh), dw * dh)
            == round_div((dw - xw) * tl + xw * tr, dw),
{
    lemma_bilinear_separable(tl as int, tr as int, bl as int, br as int, xw, yw, dw, dh);
    assert(0 <= (dh - yw) * tl + yw * bl) by (nonlinear_arith)
        requires
            0 <= yw < dh,
            0 <= tl,
            0 <= bl,
    ;
    assert(0 <= (dw - xw) * tl + xw * tr) by (nonlinear_arith)
        requires
            0 <= xw < dw,
            0 <= tl,
            0 <= tr,
    ;
    if xw == 0 {
        assert((dh - yw) * ((dw - xw) * tl + xw * tr) + yw * ((dw - xw) * bl + xw * br)
            == dw * ((dh - yw) * tl + yw * bl)) by (nonlinear_arith)
            requires
                xw == 0,
        ;
        lemma_round_div_cancel((dh - yw) * tl + yw * bl, dh, dw);
    }
    if yw == 0 {
        assert((dh - yw) * ((dw - xw) * tl + xw * tr) + yw * ((dw - xw) * bl + xw * br)
            == dh * ((dw - xw) * tl + xw * tr)) by (nonlinear_arith)
            requires
                yw == 0,
        ;
        assert(dw * dh == dh * dw) by (nonlinear_arith);
        lemma_round_div_cancel((dw - xw) * tl + xw * tr, dw, dh);
    }
}

/// Source coordinates of output pixel (`col`, `row`) of a resize from `w` x `h`
/// to `nw` x `nh`: the low and high column, the column fraction (in units of
/// `1 / dw`), the same for rows, and the denominators `dw`, `dh`.
pub struct SourceCorners {
    pub xl: u64,
    pub xh: u64,
    pub xw: u64,
    pub yl: u64,
    pub yh: u64,
    pub yw: u64,
    pub dw: u64,
    pub dh: u64,
}

/// Computes the source coordinates of output pixel (`col`, `row`).
pub fn source_corners(w: u32, h: u32, nw: u32, nh: u32, col: u32, row: u32) -> (c: SourceCorners)
    requires
        w >= 1,
        h >= 1,
        col < nw,
        row < nh,
    ensures
        c.xl == src_low(col as int, w as int, nw as int),
        c.xh == src_high(col as int, w as int, nw as int),
        c.xw == src_frac(col as int, w as int, nw as int),
        c.yl == src_low(row as int, h as int, nh as int),
        c.yh == src_high(row as int, h as int, nh as int),
        c.yw == src_frac(row as int, h as int, nh as int),
        c.dw == resize_den(nw as int),
        c.dh == resize_den(nh as int),
        c.xl <= c.xh < w,
        c.yl <= c.yh < h,
        c.xw < c.dw,
        c.yw < c.dh,
        1 <= c.dw <= u32::MAX,
        1 <= c.dh <= u32::MAX,
{
    proof {
        lemma_src_coords(col as int, w as int, nw as int);
        lemma_src_coords(row as int, h as int, nh as int);
        assert(col as u64 * (w as u64 - 1) <= u32::MAX as u64 * u32::MAX as u64) by (nonlinear_arith)
            requires
                col <= u32::MAX,
                w <= u32::MAX,
                w >= 1,
        ;
        assert(row as u64 * (h as u64 - 1) <= u32::MAX as u64 * u32::MAX as u64) by (nonlinear_arith)
            requires
                row <= u32::MAX,
                h <= u32::MAX,
                h >= 1,
        ;
    }
    let dw: u64 = if nw - 1 >= 1 { (nw - 1) as u64 } else { 1 };
    let dh: u64 = if nh - 1 >= 1 { (nh - 1) as u64 } else { 1 };
    let px = col as u64 * (w as u64 - 1);
    let py = row as u64 * (h as u64 - 1);
    let xl = px / dw;
    let yl = py / dh;
    let xh = if xl + 1 <= w as u64 - 1 { xl + 1 } else { w as u64 - 1 };
    let yh = if yl + 1 <= h as u64 - 1 { yl + 1 } else { h as u64 - 1 };
    SourceCorners { xl, xh, xw: px % dw, yl, yh, yw: py % dh, dw, dh }
}


/// The bilinear interpolation of four neighbours, rounded half up.
pub fn interpolate(tl: u8, tr: u8, bl: u8, br: u8, xw: u64, yw: u64, dw: u64, dh: u64) -> (v: u8)
    requires
        xw < dw,
        yw < dh,
        1 <= dw <= u32::MAX,
        1 <= dh <= u32::MAX,
    ensures
        v == round_div(bilinear_num(tl as int, tr as int, bl as int, br as int, xw as int, yw as int, dw as int, dh as int),
            dw * dh) as u8,
{
    let tl = tl as u128;
    let tr = tr as u128;
    let bl = bl as u128;
    let br = br as u128;
    let dw = dw as u128;
    let dh = dh as u128;
    let xw = xw as u128;
    let yw = yw as u128;
    proof {
        lemma_bilinear_bound(tl as int, tr as int, bl as int, br as int, xw as int, yw as int, dw as int, dh as int);
        assert(dw * dh >= 1) by (nonlinear_arith)
            requires
                dw >= 1,
                dh >= 1,
        ;
        assert(dw * dh <= 0x1_0000_0000_0000_0000) by (nonlinear_arith)
            requires
                1 <= dw <= 0x1_0000_0000,
                1 <= dh <= 0x1_0000_0000,
        ;
        assert((dw - xw) * (dh - yw) <= dw * dh && xw * (dh - yw) <= dw * dh && (dw - xw) * yw <= dw * dh && xw * yw <= dw * dh) by (nonlinear_arith)
            requires
                0 <= xw < dw,
                0 <= yw < dh,
        ;
        assert((dw - xw) * (dh - yw) * tl <= dw * dh * 255 && xw * (dh - yw) * tr <= dw * dh * 255
            && (dw - xw) * yw * bl <= dw * dh * 255 && xw * yw * br <= dw * dh * 255) by (nonlinear_arith)
            requires
                (dw - xw) * (dh - yw) <= dw * dh,
                xw * (dh - yw) <= dw * dh,
                (dw - xw) * yw <= dw * dh,
                xw * yw <= dw * dh,
                0 <= xw < dw,
                0 <= yw < dh,
                tl <= 255,
                tr <= 255,
                bl <= 255,
                br <= 255,
        ;
    }
    let num = (dw - xw) * (dh - yw) * tl + xw * (dh - yw) * tr + (dw - xw) * yw * bl + xw * yw * br;
    let den = dw * dh;
    ((2 * num + den) / (2 * den)) as u8
}

/// One output pixel of a resized channel.
fn resize_value_exec(ch: &Vec<u8>, w: u32, h: u32, nw: u32, nh: u32, col: u32, row: u32) -> (v: u8)
    requires
        w * h <= u32::MAX,
        ch@.len() == w * h,
        w >= 1,
        h >= 1,
        col < nw,
        row < nh,
    ensures
        v == resize_value(ch@, w as int, h as int, nw as int, nh as int, col as int, row as int),
{
    let c = source_corners(w, h, nw, nh, col, row);
    proof {
        lemma_pixel_index_bounds(w as int, h as int, c.xl as int, c.yl as int);
        lemma_pixel_index_bounds(w as int, h as int, c.xh as int, c.yl as int);
        lemma_pixel_index_bounds(w as int, h as int, c.xl as int, c.yh as int);
        lemma_pixel_index_bounds(w as int, h as int, c.xh as int, c.yh as int);
    }
    let tl = ch[(c.yl * w as u64 + c.xl) as usize];
    let tr = ch[(c.yl * w as u64 + c.xh) as usize];
    let bl = ch[(c.yh * w as u64 + c.xl) as usize];
    let br = ch[(c.yh * w as u64 + c.xh) as usize];
    interpolate(tl, tr, bl, br, c.xw, c.yw, c.dw, c.dh)
}

/// Resizes one channel, row by row.
fn resize_one_channel(ch: &Vec<u8>, w: u32, h: u32, nw: u32, nh: u32) -> (out: Vec<u8>)
    requires
        w * h <= u32::MAX,
        ch@.len() == w * h,
        nw * nh <= u32::MAX,
        nw >= 1 && nh >= 1 ==> w >= 1 && h >= 1,
    ensures
        out@ == resize_channel(ch@, w as int, h as int, nw as int, nh as int),
{
    let ghost spec_out = resize_channel(ch@, w as int, h as int, nw as int, nh as int);
    let mut out: Vec<u8> = Vec::new();
    let mut row: u32 = 0;
    while row < nh
        invariant
            w * h <= u32::MAX,
            ch@.len() == w * h,
            nw * nh <= u32::MAX,
            nw >= 1 && nh >= 1 ==> w >= 1 && h >= 1,
            row <= nh,
            spec_out == resize_channel(ch@, w as int, h as int, nw as int, nh as int),
            out@.len() == row * nw,
            out@ =~= spec_out.subrange(0, row * nw),
        decreases nh - row,
    {
        let mut col: u32 = 0;
        proof {
            assert(row * nw + nw == (row + 1) * nw) by (nonlinear_arith);
            assert((row + 1) * nw <= nh * nw) by (nonlinear_arith)
                requires
                    row < nh,
                    0 <= nw,
            ;
            assert(nh * nw == nw * nh) by (nonlinear_arith);
        }
        while col < nw
            invariant
                w * h <= u32::MAX,
                ch@.len() == w * h,
                nw * nh <= u32::MAX,
                nw >= 1 && nh >= 1 ==> w >= 1 && h >= 1,
                row < nh,
                col <= nw,
                spec_out == resize_channel(ch@, w as int, h as int, nw as int, nh as int),
                spec_out.len() == nw * nh,
                row * nw + nw <= nw * nh,
                out@.len() == row * nw + col,
                out@ =~= spec_out.subrange(0, row * nw + col),
            decreases nw - col,
        {
            let v = resize_value_exec(ch, w, h, nw, nh, col, row);
            proof {
                lemma_pixel_index_bounds(nw as int, nh as int, col as int, row as int);
                lemma_pixel_index_split(nw as int, col as int, row as int);
            }
            out.push(v);
            col = col + 1;
        }
        row = row + 1;
    }
    proof {
        assert(nh * nw == nw * nh) by (nonlinear_arith);
    }
    out
}

/// Apply bilinear resize
pub fn resize_pixels(pixels: &PixelVectors, new_width: u32, new_height: u32) -> (out: PixelVectors)
    requires
        pixels.wf(),
        new_width * new_height <= u32::MAX,
        new_width >= 1 && new_height >= 1 ==> pixels.width >= 1 && pixels.height >= 1,
    ensures
        out.wf(),
        out.width == new_width,
        out.height == new_height,
        out.r@ == resize_channel(pixels.r@, pixels.width as int, pixels.height as int, new_width as int, new_height as int),
        out.g@ == resize_channel(pixels.g@, pixels.width as int, pixels.height as int, new_width as int, new_height as int),
        out.b@ == resize_channel(pixels.b@, pixels.width as int, pixels.height as int, new_width as int, new_height as int),
{
    let r = resize_one_channel(&pixels.r, pixels.width, pixels.height, new_width, new_height);
    let g = resize_one_channel(&pixels.g, pixels.width, pixels.height, new_width, new_height);
    let b = resize_one_channel(&pixels.b, pixels.width, pixels.height, new_width, new_height);
    PixelVectors { r, g, b, width: new_width, height: new_height }
}


/// An 8-bit RGB image: `raw` holds the pixels row by row, three bytes (R, G, B) each.
pub struct RgbBuffer {
    pub width: u32,
    pub height: u32,
    pub raw: Vec<u8>,
}

impl RgbBuffer {
    /// Three bytes per pixel, and the pixel count fits in `u32`.
    pub open spec fn wf(&self) -> bool {
        &&& self.width * self.height <= u32::MAX
        &&& self.raw@.len() == 3 * (self.width * self.height)
    }
}

/// Channel `c` (0 = R, 1 = G, 2 = B) of interleaved RGB bytes.
pub open spec fn channel_of(raw: Seq<u8>, c: int) -> Seq<u8> {
    Seq::new(raw.len() / 3, |i: int| raw[3 * i + c])
}

/// The three channels interleaved pixel by pixel.
pub open spec fn interleave(r: Seq<u8>, g: Seq<u8>, b: Seq<u8>) -> Seq<u8> {
    Seq::new(
        3 * r.len(),
        |k: int|
            if k % 3 == 0 {
                r[k / 3]
            } else if k % 3 == 1 {
                g[k / 3]
            } else {
                b[k / 3]
            },
    )
}

/// Interleaving the three channels of interleaved RGB bytes gives the bytes back.
pub proof fn lemma_interleave_channels(raw: Seq<u8>)
    requires
        raw.len() % 3 == 0,
    ensures
        interleave(channel_of(raw, 0), channel_of(raw, 1), channel_of(raw, 2)) == raw,
{
    let n = raw.len() / 3;
    assert(raw.len() == 3 * n);
    let il = interleave(channel_of(raw, 0), channel_of(raw, 1), channel_of(raw, 2));
    assert forall|k: int| 0 <= k < raw.len() implies il[k] == raw[k] by {
        vstd::arithmetic::div_mod::lemma_fundamental_div_mod(k, 3);
        vstd::arithmetic::div_mod::lemma_mod_bound(k, 3);
    }
    assert(il =~= raw);
}

/// Splits one channel out of interleaved RGB bytes.
fn extract_channel(raw: &Vec<u8>, n: usize, c: usize) -> (out: Vec<u8>)
    requires
        raw@.len() == 3 * n,
        c < 3,
    ensures
        out@ == channel_of(raw@, c as int),
{
    let mut out: Vec<u8> = Vec::with_capacity(n);
    let len = raw.len();
    let mut i: usize = 0;
    while i < n
        invariant
            len == raw@.len(),
            raw@.len() == 3 * n,
            c < 3,
            i <= n,
            out@ =~= channel_of(raw@, c as int).subrange(0, i as int),
        decreases n - i,
    {
        out.push(raw[3 * i + c]);
        i = i + 1;
    }
    out
}

/// Convert an image to separate R, G, B vectors
pub fn image_to_pixel_vectors(img: &RgbBuffer) -> (out: PixelVectors)
    requires
        img.wf(),
    ensures
        out.wf(),
        out.width == img.width,
        out.height == img.height,
        out.r@ == channel_of(img.raw@, 0),
        out.g@ == channel_of(img.raw@, 1),
        out.b@ == channel_of(img.raw@, 2),
{
    let n = (img.width * img.height) as usize;
    let r = extract_channel(&img.raw, n, 0);
    let g = extract_channel(&img.raw, n, 1);
    let b = extract_channel(&img.raw, n, 2);
    PixelVectors { r, g, b, width: img.width, height: img.height }
}

/// Convert R, G, B vectors back to an image
pub fn pixel_vectors_to_image(pixels: &PixelVectors) -> (res: Result<RgbBuffer, ImageError>)
    requires
        pixels.width * pixels.height <= u32::MAX,
    ensures
        match res {
            Ok(img) => {
                &&& pixels.wf()
                &&& img.wf()
                &&& img.width == pixels.width
                &&& img.height == pixels.height
                &&& img.raw@ == interleave(pixels.r@, pixels.g@, pixels.b@)
            },
            Err(e) => {
                &&& !pixels.wf()
                &&& e == (ImageError::LengthMismatch {
                    expected: (pixels.width * pixels.height) as u32,
                    r: pixels.r@.len() as usize,
                    g: pixels.g@.len() as usize,
                    b: pixels.b@.len() as usize,
                })
            },
        },
{
    let expected_len = pixels.width * pixels.height;
    if pixels.r.len() != expected_len as usize || pixels.g.len() != expected_len as usize
        || pixels.b.len() != expected_len as usize {
        return Err(ImageError::LengthMismatch {
            expected: expected_len,
            r: pixels.r.len(),
            g: pixels.g.len(),
            b: pixels.b.len(),
        });
    }
    let n = expected_len as usize;
    let mut raw: Vec<u8> = Vec::new();
    let mut i: usize = 0;
    while i < n
        invariant
            n == pixels.r@.len(),
            n == pixels.g@.len(),
            n == pixels.b@.len(),
            n <= u32::MAX,
            i <= n,
            raw@ =~= interleave(pixels.r@, pixels.g@, pixels.b@).subrange(0, 3 * i),
        decreases n - i,
    {
        proof {
            let k = 3 * i as int;
            vstd::arithmetic::div_mod::lemma_fundamental_div_mod_converse(k, 3, i as int, 0);
            vstd::arithmetic::div_mod::lemma_fundamental_div_mod_converse(k + 1, 3, i as int, 1);
            vstd::arithmetic::div_mod::lemma_fundamental_div_mod_converse(k + 2, 3, i as int, 2);
        }
        raw.push(pixels.r[i]);
        raw.push(pixels.g[i]);
        raw.push(pixels.b[i]);
        i = i + 1;
    }
    Ok(RgbBuffer { width: pixels.width, height: pixels.height, raw })
}

/// What decoding `bytes` and converting the image to 8-bit RGB yields: width,
/// height and interleaved pixels, or nothing where the bytes are no supported image.
pub uninterp spec fn decoded_rgb8(bytes: Seq<u8>) -> Option<(u32, u32, Seq<u8>)>;

/// The PNG file that encodes a `width` x `height` 8-bit RGB image, or nothing where encoding fails.
pub uninterp spec fn png_encoding(width: u32, height: u32, raw: Seq<u8>) -> Option<Seq<u8>>;

/// Trusted: calls `image::load_from_memory`, then `DynamicImage::to_rgb8` on the
/// decoded image. Claimed: the result is `decoded_rgb8(bytes)`, and an RGB8 buffer
/// made by `to_rgb8` holds three bytes for each of its `width * height` pixels.
#[verifier::external_body]
fn decode_rgb8(bytes: &[u8]) -> (res: Option<RgbBuffer>)
    ensures
        match res {
            Some(img) => {
                &&& decoded_rgb8(bytes@) == Some((img.width, img.height, img.raw@))
                &&& img.raw@.len() == 3 * (img.width * img.height)
            },
            None => decoded_rgb8(bytes@) is None,
        },
{
    match image::load_from_memory(bytes) {
        Ok(img) => {
            let rgb = img.to_rgb8();
            Some(RgbBuffer { width: rgb.width(), height: rgb.height(), raw: rgb.into_raw() })
        },
        Err(_) => None,
    }
}

/// Trusted: calls `ImageEncoder::write_image` of `image::codecs::png::PngEncoder` on an
/// in-memory buffer with `ColorType::Rgb8`. Claimed: the bytes written are
/// `png_encoding(width, height, raw)`; `write_image` asserts that `raw` holds
/// exactly three bytes per pixel, hence the `requires`. PNG is lossless, so
/// `image::load_from_memory` followed by `to_rgb8` gives the pixels back, for
/// images within the decoder's default allocation limit of 512 MiB (the claim is
/// made up to 256 MiB of pixels).
#[verifier::external_body]
fn encode_png(width: u32, height: u32, raw: &[u8]) -> (res: Option<Vec<u8>>)
    requires
        raw@.len() == 3 * (width * height),
    ensures
        match res {
            Some(png) => png_encoding(width, height, raw@) == Some(png@),
            None => png_encoding(width, height, raw@) is None,
        },
        raw@.len() <= 0x1000_0000 ==> (res matches Some(png) ==> decoded_rgb8(png@) == Some((width, height, raw@))),
{
    let mut bytes: Vec<u8> = Vec::new();
    let encoder = image::codecs::png::PngEncoder::new(&mut bytes);
    match encoder.write_image(raw, width, height, image::ColorType::Rgb8) {
        Ok(()) => Some(bytes),
        Err(_) => None,
    }
}

/// Load an image from bytes
pub fn load_image_from_bytes(bytes: &[u8]) -> (res: Result<RgbBuffer, ImageError>)
    ensures
        match res {
            Ok(img) => {
                &&& decoded_rgb8(bytes@) == Some((img.width, img.height, img.raw@))
                &&& img.raw@.len() == 3 * (img.width * img.height)
            },
            Err(e) => decoded_rgb8(bytes@) is None && e == ImageError::Decode,
        },
{
    match decode_rgb8(bytes) {
        Some(img) => Ok(img),
        None => Err(ImageError::Decode),
    }
}

/// Encode an image to PNG bytes
pub fn image_to_png_bytes(img: &RgbBuffer) -> (res: Result<Vec<u8>, ImageError>)
    requires
        img.raw@.len() == 3 * (img.width * img.height),
    ensures
        match res {
            Ok(png) => png_encoding(img.width, img.height, img.raw@) == Some(png@),
            Err(e) => png_encoding(img.width, img.height, img.raw@) is None && e == ImageError::Encode,
        },
        img.raw@.len() <= 0x1000_0000 ==> (res matches Ok(png) ==> decoded_rgb8(png@) == Some(
            (img.width, img.height, img.raw@),
        )),
{
    match encode_png(img.width, img.height, img.raw.as_slice()) {
        Some(png) => Ok(png),
        None => Err(ImageError::Encode),
    }
}


/// Grayscale conversion is idempotent: a pixel whose three channels are equal
/// keeps its value, so converting a grayscale image again changes nothing.
pub proof fn lemma_grayscale_idempotent(v: Seq<u8>)
    ensures
        gray_channel(v, v, v) == v,
{
    assert forall|i: int| 0 <= i < v.len() implies gray_channel(v, v, v)[i] == v[i] by {
        let x = v[i] as int;
        vstd::arithmetic::div_mod::lemma_fundamental_div_mod_converse(30 * x + 59 * x + 11 * x + 50, 100, x, 50);
    }
    assert(gray_channel(v, v, v) =~= v);
}

/// Index `k` of a `w`-wide grid is pixel (`k % w`, `k / w`).
proof fn lemma_index_decompose(k: int, w: int, h: int)
    requires
        0 <= w,
        0 <= h,
        0 <= k < w * h,
    ensures
        w > 0,
        0 <= k % w < w,
        0 <= k / w < h,
        pixel_index(w, k % w, k / w) == k,
{
    assert(w > 0) by (nonlinear_arith)
        requires
            0 <= w,
            0 <= h,
            0 <= k < w * h,
    ;
    vstd::arithmetic::div_mod::lemma_fundamental_div_mod(k, w);
    vstd::arithmetic::div_mod::lemma_mod_bound(k, w);
    vstd::arithmetic::div_mod::lemma_div_pos_is_pos(k, w);
    let q = k / w;
    let r = k % w;
    assert(q < h) by (nonlinear_arith)
        requires
            k == w * q + r,
            0 <= r,
            k < w * h,
            w > 0,
    ;
    assert(pixel_index(w, r, q) == k) by (nonlinear_arith)
        requires
            k == w * q + r,
    ;
}

/// Cropping the whole image gives the image back.
pub proof fn lemma_crop_whole_image(ch: Seq<u8>, w: int, h: int)
    requires
        0 <= w,
        0 <= h,
        ch.len() == w * h,
    ensures
        crop_channel(ch, w, 0, 0, w, h) == ch,
{
    assert forall|k: int| 0 <= k < ch.len() implies crop_channel(ch, w, 0, 0, w, h)[k] == ch[k] by {
        lemma_index_decompose(k, w, h);
    }
    assert(crop_channel(ch, w, 0, 0, w, h) =~= ch);
}

/// Resizing to the same size gives the image back.
pub proof fn lemma_resize_same_size(ch: Seq<u8>, w: int, h: int)
    requires
        1 <= w,
        1 <= h,
        ch.len() == w * h,
    ensures
        resize_channel(ch, w, h, w, h) == ch,
{
    assert forall|k: int| 0 <= k < ch.len() implies resize_channel(ch, w, h, w, h)[k] == ch[k] by {
        lemma_index_decompose(k, w, h);
        let col = k % w;
        let row = k / w;
        let dw = resize_den(w);
        let dh = resize_den(h);
        assert(src_low(col, w, w) == col && src_frac(col, w, w) == 0) by {
            if w >= 2 {
                vstd::arithmetic::div_mod::lemma_fundamental_div_mod_converse(col * (w - 1), w - 1, col, 0);
            } else {
                assert(col == 0);
                assert(col * (w - 1) == 0);
            }
        }
        assert(src_low(row, h, h) == row && src_frac(row, h, h) == 0) by {
            if h >= 2 {
                vstd::arithmetic::div_mod::lemma_fundamental_div_mod_converse(row * (h - 1), h - 1, row, 0);
            } else {
                assert(row == 0);
                assert(row * (h - 1) == 0);
            }
        }
        let v = ch[pixel_index(w, col, row)] as int;
        let num = bilinear_num(
            v,
            ch[pixel_index(w, src_high(col, w, w), row)] as int,
            ch[pixel_index(w, col, src_high(row, h, h))] as int,
            ch[pixel_index(w, src_high(col, w, w), src_high(row, h, h))] as int,
            0, 0, dw, dh,
        );
        assert(num == dw * dh * v) by (nonlinear_arith)
            requires
                num == bilinear_num(
                    v,
                    ch[pixel_index(w, src_high(col, w, w), row)] as int,
                    ch[pixel_index(w, col, src_high(row, h, h))] as int,
                    ch[pixel_index(w, src_high(col, w, w), src_high(row, h, h))] as int,
                    0, 0, dw, dh,
                ),
        ;
        let d = dw * dh;
        assert(d >= 1) by (nonlinear_arith)
            requires
                dw >= 1,
                dh >= 1,
                d == dw * dh,
        ;
        assert(2 * (d * v) + d == v * (2 * d) + d) by (nonlinear_arith);
        vstd::arithmetic::div_mod::lemma_fundamental_div_mod_converse(2 * (d * v) + d, 2 * d, v, d);
    }
    assert(resize_channel(ch, w, h, w, h) =~= ch);
}

/// Output coordinate `i` that falls exactly on a source coordinate (no fraction):
/// the first one, and the last one where the output has at least two.
proof fn lemma_src_exact_ends(i: int, n_src: int, n_new: int)
    requires
        n_src >= 1,
        n_new >= 1,
        i == 0 || (i == n_new - 1 && n_new >= 2),
    ensures
        src_frac(i, n_src, n_new) == 0,
        i == 0 ==> src_low(i, n_src, n_new) == 0,
        i == n_new - 1 && n_new >= 2 ==> src_low(i, n_src, n_new) == n_src - 1,
{
    let d = resize_den(n_new);
    if i == 0 {
        assert(i * (n_src - 1) == 0);
        vstd::arithmetic::div_mod::lemma_fundamental_div_mod_converse(0, d, 0, 0);
    } else {
        assert(d == i);
        assert(i * (n_src - 1) == (n_src - 1) * d) by (nonlinear_arith)
            requires
                d == i,
        ;
        vstd::arithmetic::div_mod::lemma_fundamental_div_mod_converse(i * (n_src - 1), d, n_src - 1, 0);
    }
}

/// An output pixel whose source position has no fraction is the source pixel there.
proof fn lemma_resize_exact_source(ch: Seq<u8>, w: int, h: int, nw: int, nh: int, col: int, row: int)
    requires
        1 <= w,
        1 <= h,
        0 <= col < nw,
        0 <= row < nh,
        src_frac(col, w, nw) == 0,
        src_frac(row, h, nh) == 0,
    ensures
        resize_value(ch, w, h, nw, nh, col, row) == ch[pixel_index(w, src_low(col, w, nw), src_low(row, h, nh))],
{
    lemma_src_coords(col, w, nw);
    lemma_src_coords(row, h, nh);
    let dw = resize_den(nw);
    let dh = resize_den(nh);
    let v = ch[pixel_index(w, src_low(col, w, nw), src_low(row, h, nh))];
    lemma_bilinear_on_source_lines(
        v,
        ch[pixel_index(w, src_high(col, w, nw), src_low(row, h, nh))],
        ch[pixel_index(w, src_low(col, w, nw), src_high(row, h, nh))],
        ch[pixel_index(w, src_high(col, w, nw), src_high(row, h, nh))],
        0, 0, dw, dh,
    );
    assert((dw - 0) * v + 0 * ch[pixel_index(w, src_high(col, w, nw), src_low(row, h, nh))] == dw * v);
    assert(2 * (dw * v) + dw == v * (2 * dw) + dw) by (nonlinear_arith);
    vstd::arithmetic::div_mod::lemma_fundamental_div_mod_converse(2 * (dw * v) + dw, 2 * dw, v as int, dw);
}

/// Resizing keeps the corners: the top-left output pixel is the top-left source
/// pixel, and where the output has at least two columns (rows) its last column
/// (row) takes the source's last column (row), so the other three corners are
/// kept too.
pub proof fn lemma_resize_keeps_corners(ch: Seq<u8>, w: int, h: int, nw: int, nh: int)
    requires
        1 <= w,
        1 <= h,
        1 <= nw,
        1 <= nh,
        ch.len() == w * h,
    ensures
        resize_channel(ch, w, h, nw, nh)[0] == ch[0],
        nw >= 2 ==> resize_channel(ch, w, h, nw, nh)[nw - 1] == ch[w - 1],
        nh >= 2 ==> resize_channel(ch, w, h, nw, nh)[(nh - 1) * nw] == ch[(h - 1) * w],
        nw >= 2 && nh >= 2 ==> resize_channel(ch, w, h, nw, nh)[nw * nh - 1] == ch[w * h - 1],
{
    assert(nw <= nw * nh && w <= w * h) by (nonlinear_arith)
        requires
            1 <= nh,
            1 <= h,
            1 <= nw,
            1 <= w,
    ;
    lemma_src_exact_ends(0, w, nw);
    lemma_src_exact_ends(0, h, nh);
    lemma_pixel_index_split(nw, 0, 0);
    lemma_resize_exact_source(ch, w, h, nw, nh, 0, 0);
    if nw >= 2 {
        lemma_src_exact_ends(nw - 1, w, nw);
        lemma_pixel_index_split(nw, nw - 1, 0);
        lemma_resize_exact_source(ch, w, h, nw, nh, nw - 1, 0);
    }
    if nh >= 2 {
        lemma_src_exact_ends(nh - 1, h, nh);
        lemma_pixel_index_split(nw, 0, nh - 1);
        assert((nh - 1) * nw < nw * nh) by (nonlinear_arith)
            requires
                1 <= nw,
                2 <= nh,
        ;
        lemma_resize_exact_source(ch, w, h, nw, nh, 0, nh - 1);
    }
    if nw >= 2 && nh >= 2 {
        lemma_pixel_index_split(nw, nw - 1, nh - 1);
        assert((nh - 1) * nw + nw - 1 == nw * nh - 1) by (nonlinear_arith);
        assert((h - 1) * w + w - 1 == w * h - 1) by (nonlinear_arith);
        lemma_resize_exact_source(ch, w, h, nw, nh, nw - 1, nh - 1);
    }
}

/// A blur region less than three pixels wide or high has no interior, so the
/// blur leaves the image unchanged.
pub proof fn lemma_blur_thin_region(ch: Seq<u8>, w: int, bx: int, by: int, bw: int, bh: int)
    requires
        bw < 3 || bh < 3,
    ensures
        blur_channel(ch, w, bx, by, bw, bh) == ch,
{
    assert(blur_channel(ch, w, bx, by, bw, bh) =~= ch);
}

/// Splitting an image into channels and interleaving them again gives the
/// image back, and interleaving channels and splitting them gives the channels back.
pub proof fn lemma_channels_roundtrip(r: Seq<u8>, g: Seq<u8>, b: Seq<u8>)
    requires
        g.len() == r.len(),
        b.len() == r.len(),
    ensures
        channel_of(interleave(r, g, b), 0) == r,
        channel_of(interleave(r, g, b), 1) == g,
        channel_of(interleave(r, g, b), 2) == b,
{
    let il = interleave(r, g, b);
    assert forall|i: int| 0 <= i < r.len() implies channel_of(il, 0)[i] == r[i] && channel_of(il, 1)[i] == g[i]
        && channel_of(il, 2)[i] == b[i] by {
        vstd::arithmetic::div_mod::lemma_fundamental_div_mod_converse(3 * i, 3, i, 0);
        vstd::arithmetic::div_mod::lemma_fundamental_div_mod_converse(3 * i + 1, 3, i, 1);
        vstd::arithmetic::div_mod::lemma_fundamental_div_mod_converse(3 * i + 2, 3, i, 2);
    }
    vstd::arithmetic::div_mod::lemma_fundamental_div_mod_converse(3 * r.len() as int, 3, r.len() as int, 0);
    assert(channel_of(il, 0) =~= r);
    assert(channel_of(il, 1) =~= g);
    assert(channel_of(il, 2) =~= b);
}

} // verus!
