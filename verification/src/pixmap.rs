//! Decoded pixel buffers and the trusted codec boundary.
//!
//! A `Pixmap` holds a packed 8-bit RGB image, row-major, three bytes per
//! pixel. Decoding, resampling, quarter-turn rotation and PNG encoding are
//! done by the `image` crate behind the trusted wrappers below; everything
//! stated of them is what that crate's source shows. Decoding, resampling
//! and encoding are deterministic functions of their arguments, so their
//! results carry names (`decoded_of`, `resampled_of`, `png_encoding_of`)
//! that the pipeline's contracts speak of.
use vstd::prelude::*;

use crate::geometry::oriented_dims;
use crate::png_text::chunk_len_at;
use crate::png_text::png_can_embed;
use crate::png_text::png_dims_of;
use crate::ThumbError;

verus! {

/// A packed 8-bit RGB image: `data` holds the rows top to bottom, three
/// bytes per pixel.
pub struct Pixmap {
    pub width: u32,
    pub height: u32,
    pub data: Vec<u8>,
}

impl Pixmap {
    /// The buffer holds exactly its dimensions' worth of pixels.
    pub open spec fn wf(&self) -> bool {
        self.data@.len() == self.width as nat * self.height as nat * 3
    }

    /// Channel `c` of the pixel at column `x`, row `y`.
    pub open spec fn pixel(&self, x: int, y: int, c: int) -> u8 {
        self.data@[3 * (y * self.width as int + x) + c]
    }
}

/// What decoding a byte string yields when it decodes at all: the width,
/// height and packed 8-bit RGB pixels, a function of the bytes alone.
pub uninterp spec fn decoded_of(bytes: Seq<u8>) -> Option<(u32, u32, Seq<u8>)>;

/// Whether a byte string decodes as an image with at least one pixel on
/// each side — what the derivation pipeline can work from.
pub open spec fn decodable(bytes: Seq<u8>) -> bool {
    match decoded_of(bytes) {
        Some(d) => d.0 >= 1 && d.1 >= 1,
        None => false,
    }
}

/// What resampling a packed RGB buffer of `w` by `h` pixels to `nw` by
/// `nh` pixels yields, a function of its arguments alone.
pub uninterp spec fn resampled_of(w: u32, h: u32, data: Seq<u8>, nw: u32, nh: u32) -> Seq<u8>;

/// The PNG stream that encodes a packed RGB buffer of `w` by `h` pixels,
/// a function of its arguments alone.
pub uninterp spec fn png_encoding_of(w: u32, h: u32, data: Seq<u8>) -> Seq<u8>;

/// Relies on `image::load_from_memory` and `DynamicImage::to_rgb8`:
/// decoding is a function of the bytes alone; it succeeds exactly when
/// the bytes hold a supported image, and yields a packed RGB buffer of
/// exactly the decoded dimensions.
#[verifier::external_body]
fn decode_pixmap(bytes: &Vec<u8>) -> (r: Result<Pixmap, ThumbError>)
    ensures
        r is Ok <==> decoded_of(bytes@) is Some,
        r matches Ok(p) ==> p.wf() && decoded_of(bytes@) == Some((p.width, p.height, p.data@)),
        r matches Err(e) ==> e == ThumbError::DecodeFailed,
{
    match image::load_from_memory(bytes) {
        Ok(img) => {
            let rgb = img.to_rgb8();
            let (w, h) = rgb.dimensions();
            Ok(Pixmap { width: w, height: h, data: rgb.into_raw() })
        },
        Err(_) => Err(ThumbError::DecodeFailed),
    }
}

/// Decodes an encoded image into a packed RGB buffer, succeeding exactly
/// when the bytes decode with at least one pixel on each side.
pub fn decode_image(bytes: &Vec<u8>) -> (r: Result<Pixmap, ThumbError>)
    ensures
        r is Ok <==> decodable(bytes@),
        r matches Ok(p) ==> p.wf() && p.width >= 1 && p.height >= 1 && decoded_of(bytes@) == Some(
            (p.width, p.height, p.data@),
        ),
        r matches Err(e) ==> e == ThumbError::DecodeFailed,
{
    match decode_pixmap(bytes) {
        Ok(p) => {
            if p.width == 0 || p.height == 0 {
                Err(ThumbError::DecodeFailed)
            } else {
                Ok(p)
            }
        },
        Err(e) => Err(e),
    }
}

/// Relies on `image::imageops::resize` with the triangle filter: the
/// result has exactly the requested dimensions, and resampling is a
/// function of the buffer and the dimensions alone.
#[verifier::external_body]
pub fn resize_pixmap(p: &Pixmap, w: u32, h: u32) -> (r: Pixmap)
    requires
        p.wf(),
        w >= 1,
        h >= 1,
    ensures
        r.wf(),
        r.width == w,
        r.height == h,
        r.data@ == resampled_of(p.width, p.height, p.data@, w, h),
{
    let img = match image::RgbImage::from_raw(p.width, p.height, p.data.clone()) {
        Some(i) => i,
        None => image::RgbImage::new(p.width, p.height),
    };
    let out = image::imageops::resize(&img, w, h, image::imageops::FilterType::Triangle);
    Pixmap { width: w, height: h, data: out.into_raw() }
}

/// Relies on `image::imageops::rotate90` (a quarter turn clockwise): the
/// dimensions swap and each output pixel at (x, y) is the input pixel at
/// (y, height - 1 - x).
#[verifier::external_body]
fn rotate90_pixmap(p: &Pixmap) -> (r: Pixmap)
    requires
        p.wf(),
    ensures
        r.wf(),
        r.width == p.height,
        r.height == p.width,
        forall|x: int, y: int, c: int|
            0 <= x < r.width && 0 <= y < r.height && 0 <= c < 3 ==> #[trigger] r.pixel(x, y, c)
                == p.pixel(y, p.height - 1 - x, c),
{
    let img = match image::RgbImage::from_raw(p.width, p.height, p.data.clone()) {
        Some(i) => i,
        None => image::RgbImage::new(p.width, p.height),
    };
    let out = image::imageops::rotate90(&img);
    Pixmap { width: p.height, height: p.width, data: out.into_raw() }
}

/// Relies on `image::imageops::rotate180`: the dimensions are kept and
/// each output pixel at (x, y) is the input pixel at
/// (width - 1 - x, height - 1 - y).
#[verifier::external_body]
fn rotate180_pixmap(p: &Pixmap) -> (r: Pixmap)
    requires
        p.wf(),
    ensures
        r.wf(),
        r.width == p.width,
        r.height == p.height,
        forall|x: int, y: int, c: int|
            0 <= x < r.width && 0 <= y < r.height && 0 <= c < 3 ==> #[trigger] r.pixel(x, y, c)
                == p.pixel(p.width - 1 - x, p.height - 1 - y, c),
{
    let img = match image::RgbImage::from_raw(p.width, p.height, p.data.clone()) {
        Some(i) => i,
        None => image::RgbImage::new(p.width, p.height),
    };
    let out = image::imageops::rotate180(&img);
    Pixmap { width: p.width, height: p.height, data: out.into_raw() }
}

/// Relies on `image::imageops::rotate270` (a quarter turn counter-
/// clockwise): the dimensions swap and each output pixel at (x, y) is the
/// input pixel at (width - 1 - y, x).
#[verifier::external_body]
fn rotate270_pixmap(p: &Pixmap) -> (r: Pixmap)
    requires
        p.wf(),
    ensures
        r.wf(),
        r.width == p.height,
        r.height == p.width,
        forall|x: int, y: int, c: int|
            0 <= x < r.width && 0 <= y < r.height && 0 <= c < 3 ==> #[trigger] r.pixel(x, y, c)
                == p.pixel(p.width - 1 - y, x, c),
{
    let img = match image::RgbImage::from_raw(p.width, p.height, p.data.clone()) {
        Some(i) => i,
        None => image::RgbImage::new(p.width, p.height),
    };
    let out = image::imageops::rotate270(&img);
    Pixmap { width: p.height, height: p.width, data: out.into_raw() }
}

/// Relies on `image::DynamicImage::write_to` with the PNG format, whose
/// writer is the png crate's: encoding is a function of the buffer and
/// dimensions alone; it fails only on a zero dimension (the sink is an
/// in-memory buffer), and a produced stream opens with the PNG signature
/// and a whole thirteen-byte header chunk carrying the buffer's width and
/// height as its first two words.
#[verifier::external_body]
pub fn encode_png_pixmap(p: &Pixmap) -> (r: Result<Vec<u8>, ThumbError>)
    requires
        p.wf(),
    ensures
        p.width >= 1 && p.height >= 1 ==> r is Ok,
        r matches Ok(out) ==> {
            &&& out@ == png_encoding_of(p.width, p.height, p.data@)
            &&& png_can_embed(out@)
            &&& chunk_len_at(out@, 8) == 13
            &&& png_dims_of(out@) == (p.width as int, p.height as int)
        },
        r matches Err(e) ==> e == ThumbError::EncodeFailed,
{
    let img = match image::RgbImage::from_raw(p.width, p.height, p.data.clone()) {
        Some(i) => i,
        None => return Err(ThumbError::EncodeFailed),
    };
    let mut cur = std::io::Cursor::new(Vec::new());
    match image::DynamicImage::ImageRgb8(img).write_to(&mut cur, image::ImageFormat::Png) {
        Ok(()) => Ok(cur.into_inner()),
        Err(_) => Err(ThumbError::EncodeFailed),
    }
}

/// Applies the orientation correction: a recognized quarter or half turn
/// rotates the pixels exactly as the trusted rotations do; zero, the
/// unknown-orientation sentinel and every other value leave the frame
/// untouched.
pub fn orient_pixmap(p: Pixmap, rotation: i32) -> (r: Pixmap)
    requires
        p.wf(),
    ensures
        r.wf(),
        (r.width as nat, r.height as nat) == oriented_dims(
            p.width as nat,
            p.height as nat,
            rotation,
        ),
        rotation == 90 ==> forall|x: int, y: int, c: int|
            0 <= x < r.width && 0 <= y < r.height && 0 <= c < 3 ==> #[trigger] r.pixel(x, y, c)
                == p.pixel(y, p.height - 1 - x, c),
        rotation == 180 ==> forall|x: int, y: int, c: int|
            0 <= x < r.width && 0 <= y < r.height && 0 <= c < 3 ==> #[trigger] r.pixel(x, y, c)
                == p.pixel(p.width - 1 - x, p.height - 1 - y, c),
        rotation == 270 ==> forall|x: int, y: int, c: int|
            0 <= x < r.width && 0 <= y < r.height && 0 <= c < 3 ==> #[trigger] r.pixel(x, y, c)
                == p.pixel(p.width - 1 - y, x, c),
        !(rotation == 90 || rotation == 180 || rotation == 270) ==> r == p,
{
    if rotation == 90 {
        rotate90_pixmap(&p)
    } else if rotation == 180 {
        rotate180_pixmap(&p)
    } else if rotation == 270 {
        rotate270_pixmap(&p)
    } else {
        p
    }
}

} // verus!
