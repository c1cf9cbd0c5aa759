//! The computational half of the video pipeline: packing a decoded frame's
//! strided pixel rows into a contiguous RGB buffer, reading the intended
//! display rotation from a display-matrix side channel or a textual rotate
//! tag, and classifying transient decode conditions.
//!
//! Opening the container, choosing the stream and decoding packets are
//! outside work; the caller hands the first decoded frame here as plain
//! values.
use vstd::prelude::*;

use vstd::bytes::spec_u32_from_le_bytes;
use vstd::bytes::u32_from_le_bytes;
use vstd::slice::slice_subrange;

use crate::geometry::oriented_dims;
use crate::pixmap::Pixmap;
use crate::png_text::opt_bytes_view;

verus! {

/// One decoded video frame: packed RGB rows, each `stride` bytes apart,
/// top to bottom.
pub struct VideoFrame {
    pub width: u32,
    pub height: u32,
    pub stride: usize,
    pub data: Vec<u8>,
}

impl VideoFrame {
    /// Every row lies within the buffer and holds at least `width` pixels.
    pub open spec fn wf(&self) -> bool {
        &&& self.stride as nat >= 3 * self.width as nat
        &&& self.data@.len() >= self.height as nat * self.stride as nat
    }

    /// Channel `c` of the frame's pixel at column `x`, row `y`.
    pub open spec fn sample(&self, x: int, y: int, c: int) -> u8 {
        self.data@[y * self.stride as int + 3 * x + c]
    }
}

/// Packs a strided frame into a contiguous pixel buffer of the same
/// dimensions, pixel for pixel.
pub fn pack_frame(frame: &VideoFrame) -> (r: Pixmap)
    requires
        frame.wf(),
    ensures
        r.wf(),
        r.width == frame.width,
        r.height == frame.height,
        forall|x: int, y: int, c: int|
            0 <= x < frame.width && 0 <= y < frame.height && 0 <= c < 3 ==> #[trigger] r.pixel(
                x,
                y,
                c,
            ) == frame.sample(x, y, c),
{
    let w = frame.width;
    let h = frame.height;
    let stride = frame.stride;
    let dlen = frame.data.len();
    let mut data: Vec<u8> = Vec::new();
    let mut y: u32 = 0;
    while y < h
        invariant
            frame.wf(),
            w == frame.width,
            h == frame.height,
            stride == frame.stride,
            dlen == frame.data@.len(),
            y <= h,
            data@.len() == 3 * ((y as int) * (w as int)),
            forall|xx: int, yy: int, c: int|
                0 <= xx < w && 0 <= yy < y && 0 <= c < 3 ==> data@[3 * (yy * w as int + xx) + c]
                    == #[trigger] frame.sample(xx, yy, c),
        decreases h - y,
    {
        let mut x: u32 = 0;
        proof {
            assert((y as int) * (w as int) + (w as int) == (y + 1) as int * (w as int))
                by (nonlinear_arith);
            assert((y + 1) as int * (w as int) <= (h as int) * (w as int)) by (nonlinear_arith)
                requires
                    y + 1 <= h,
                    w >= 0,
            ;
            assert((y as int) * (stride as int) + (stride as int) == (y + 1) as int * (stride
                as int)) by (nonlinear_arith);
            assert((y + 1) as int * (stride as int) <= (h as int) * (stride as int))
                by (nonlinear_arith)
                requires
                    y + 1 <= h,
                    stride >= 0,
            ;
        }
        while x < w
            invariant
                frame.wf(),
                w == frame.width,
                h == frame.height,
                stride == frame.stride,
                dlen == frame.data@.len(),
                y < h,
                x <= w,
                (y as int) * (stride as int) + (stride as int) <= (h as int) * (stride as int),
                data@.len() == 3 * ((y as int) * (w as int) + x as int),
                forall|xx: int, yy: int, c: int|
                    0 <= xx < w && 0 <= yy < y && 0 <= c < 3 ==> data@[3 * (yy * w as int + xx)
                        + c] == #[trigger] frame.sample(xx, yy, c),
                forall|xx: int, c: int|
                    0 <= xx < x && 0 <= c < 3 ==> data@[3 * (y as int * w as int + xx) + c]
                        == #[trigger] frame.sample(xx, y as int, c),
            decreases w - x,
        {
            proof {
                assert((y as int) * (stride as int) >= 0) by (nonlinear_arith)
                    requires
                        y >= 0,
                        stride >= 0,
                ;
            }
            let ghost prev = data@;
            let off = (y as usize) * stride + 3 * (x as usize);
            assert(off + 3 <= (y as int) * (stride as int) + (stride as int));
            data.push(frame.data[off]);
            data.push(frame.data[off + 1]);
            data.push(frame.data[off + 2]);
            proof {
                assert(forall|i: int| 0 <= i < prev.len() ==> #[trigger] data@[i] == prev[i]);
                assert forall|xx: int, yy: int, c: int|
                    0 <= xx < w && 0 <= yy < y && 0 <= c < 3 implies data@[3 * (yy * w as int + xx)
                    + c] == #[trigger] frame.sample(xx, yy, c) by {
                    assert(yy * (w as int) + xx < (y as int) * (w as int)) by (nonlinear_arith)
                        requires
                            0 <= xx < w,
                            0 <= yy <= y - 1,
                    ;
                    assert(3 * (yy * w as int + xx) + c < prev.len());
                }
                assert forall|xx: int, c: int|
                    0 <= xx < x + 1 && 0 <= c < 3 implies data@[3 * (y as int * w as int + xx) + c]
                    == #[trigger] frame.sample(xx, y as int, c) by {
                    if xx < x {
                        assert(3 * (y as int * w as int + xx) + c < prev.len());
                    } else {
                        assert(3 * (y as int * w as int + xx) + c == prev.len() as int + c);
                        assert(data@[prev.len() as int + 0] == frame.data@[off as int]);
                        assert(data@[prev.len() as int + 1] == frame.data@[off + 1]);
                        assert(data@[prev.len() as int + 2] == frame.data@[off + 2]);
                    }
                }
            }
            x = x + 1;
        }
        y = y + 1;
    }
    proof {
        assert(3 * ((h as int) * (w as int)) == (w as nat) * (h as nat) * 3) by (nonlinear_arith);
    }
    let r = Pixmap { width: w, height: h, data };
    assert forall|x: int, yy: int, c: int|
        0 <= x < frame.width && 0 <= yy < frame.height && 0 <= c < 3 implies #[trigger] r.pixel(
        x,
        yy,
        c,
    ) == frame.sample(x, yy, c) by {
        assert(r.pixel(x, yy, c) == r.data@[3 * (yy * w as int + x) + c]);
    }
    r
}

/// Channel `c` of the orientation-corrected frame's pixel at (x, y): a
/// quarter or half turn permutes the frame's pixels; zero, the unknown
/// sentinel and every other value read them in place.
pub open spec fn frame_pixel(f: VideoFrame, rotation: i32, x: int, y: int, c: int) -> u8 {
    if rotation == 90 {
        f.sample(y, f.height - 1 - x, c)
    } else if rotation == 180 {
        f.sample(f.width - 1 - x, f.height - 1 - y, c)
    } else if rotation == 270 {
        f.sample(f.width - 1 - y, x, c)
    } else {
        f.sample(x, y, c)
    }
}

/// The packed, orientation-corrected pixels of a decoded frame: rows top
/// to bottom at the oriented dimensions, three bytes per pixel.
pub open spec fn oriented_frame_data(f: VideoFrame, rotation: i32) -> Seq<u8> {
    let dims = oriented_dims(f.width as nat, f.height as nat, rotation);
    Seq::new(
        dims.0 * dims.1 * 3,
        |i: int|
            frame_pixel(
                f,
                rotation,
                (i / 3) % (dims.0 as int),
                (i / 3) / (dims.0 as int),
                i % 3,
            ),
    )
}

/// A well-formed pixmap of the oriented dimensions whose pixels are the
/// orientation-corrected frame's pixels holds exactly the oriented frame
/// data.
pub proof fn lemma_oriented_data(p: Pixmap, f: VideoFrame, rotation: i32)
    requires
        p.wf(),
        (p.width as nat, p.height as nat) == oriented_dims(
            f.width as nat,
            f.height as nat,
            rotation,
        ),
        forall|x: int, y: int, c: int|
            0 <= x < p.width && 0 <= y < p.height && 0 <= c < 3 ==> #[trigger] p.pixel(x, y, c)
                == frame_pixel(f, rotation, x, y, c),
    ensures
        p.data@ == oriented_frame_data(f, rotation),
{
    let w = p.width as int;
    let h = p.height as int;
    let od = oriented_frame_data(f, rotation);
    assert(od.len() == w * h * 3);
    assert(p.data@.len() == od.len());
    assert forall|i: int| 0 <= i < od.len() implies p.data@[i] == od[i] by {
        assert(w >= 1) by (nonlinear_arith)
            requires
                0 <= i < w * h * 3,
                w >= 0,
                h >= 0,
        ;
        let x = (i / 3) % w;
        let y = (i / 3) / w;
        let c = i % 3;
        vstd::arithmetic::div_mod::lemma_fundamental_div_mod(i, 3);
        vstd::arithmetic::div_mod::lemma_fundamental_div_mod(i / 3, w);
        vstd::arithmetic::div_mod::lemma_mod_bound(i, 3);
        vstd::arithmetic::div_mod::lemma_mod_bound(i / 3, w);
        vstd::arithmetic::div_mod::lemma_div_pos_is_pos(i, 3);
        vstd::arithmetic::div_mod::lemma_div_pos_is_pos(i / 3, w);
        assert(i / 3 < w * h) by {
            vstd::arithmetic::div_mod::lemma_div_is_ordered(i, w * h * 3 - 1, 3);
            vstd::arithmetic::div_mod::lemma_div_multiples_vanish_fancy(w * h - 1, 2, 3);
            assert(3 * (w * h - 1) + 2 == w * h * 3 - 1) by (nonlinear_arith);
        }
        assert(y < h) by {
            if y >= h {
                vstd::arithmetic::mul::lemma_mul_inequality(h, y, w);
                assert(w * y == y * w) by (nonlinear_arith);
                assert(w * h == h * w) by (nonlinear_arith);
            }
        }
        assert(3 * (y * w + x) + c == i) by {
            assert(w * y == y * w) by (nonlinear_arith);
        }
        assert(p.pixel(x, y, c) == p.data@[i]);
        assert(od[i] == frame_pixel(f, rotation, x, y, c));
    }
    assert(p.data@ =~= od);
}

/// The display-matrix entry at index `i`, nine little-endian 32-bit words
/// forming a fixed-point 3 by 3 matrix.
pub open spec fn matrix_entry(data: Seq<u8>, i: int) -> u32
    recommends
        0 <= i,
        4 * i + 4 <= data.len(),
{
    spec_u32_from_le_bytes(data.subrange(4 * i, 4 * i + 4))
}

/// The rotation a display matrix encodes: one of the four axis-aligned
/// fixed-point rotations, or `-1` when the matrix is none of them, which
/// callers must treat as no correction.
pub open spec fn rotation_of_matrix(data: Seq<u8>) -> i32 {
    let a = matrix_entry(data, 0);
    let b = matrix_entry(data, 1);
    let c = matrix_entry(data, 3);
    let d = matrix_entry(data, 4);
    if a == 0 && b == 0x1_0000 && c == 0xFFFF_0000u32 && d == 0 {
        90
    } else if a == 0 && b == 0xFFFF_0000u32 && c == 0x1_0000 && d == 0 {
        270
    } else if a == 0xFFFF_0000u32 && b == 0 && c == 0 && d == 0xFFFF_0000u32 {
        180
    } else if a == 0x1_0000 && b == 0 && c == 0 && d == 0x1_0000 {
        0
    } else {
        -1i32
    }
}

/// Reads the rotation out of a display-matrix side channel.
pub fn parse_display_matrix(data: &Vec<u8>) -> (r: i32)
    requires
        data@.len() >= 36,
    ensures
        r == rotation_of_matrix(data@),
{
    let s = data.as_slice();
    let a = u32_from_le_bytes(slice_subrange(s, 0, 4));
    let b = u32_from_le_bytes(slice_subrange(s, 4, 8));
    let c = u32_from_le_bytes(slice_subrange(s, 12, 16));
    let d = u32_from_le_bytes(slice_subrange(s, 16, 20));
    if a == 0 && b == 0x1_0000 && c == 0xFFFF_0000 && d == 0 {
        90
    } else if a == 0 && b == 0xFFFF_0000 && c == 0x1_0000 && d == 0 {
        270
    } else if a == 0xFFFF_0000 && b == 0 && c == 0 && d == 0xFFFF_0000 {
        180
    } else if a == 0x1_0000 && b == 0 && c == 0 && d == 0x1_0000 {
        0
    } else {
        -1i32
    }
}

/// Whether a byte string is one or more ASCII decimal digits.
pub open spec fn is_ascii_digits(s: Seq<u8>) -> bool {
    s.len() > 0 && forall|i: int| 0 <= i < s.len() ==> 48 <= #[trigger] s[i] <= 57
}

/// The number a string of ASCII decimal digits denotes.
pub open spec fn digits_value(s: Seq<u8>) -> nat
    recommends
        is_ascii_digits(s),
    decreases s.len(),
{
    if s.len() == 0 {
        0
    } else {
        (digits_value(s.drop_last()) * 10 + (s.last() - 48)) as nat
    }
}

/// The rotation a textual `rotate` tag denotes: its value when the tag is
/// a plain decimal number, and zero for anything else.
pub open spec fn tag_rotation(s: Seq<u8>) -> i32 {
    if is_ascii_digits(s) && digits_value(s) <= 0x7FFF_FFFF {
        digits_value(s) as i32
    } else {
        0
    }
}

/// Parses a textual `rotate` tag, reading anything but a plain decimal
/// number as no rotation.
pub fn parse_rotate_tag(t: &Vec<u8>) -> (r: i32)
    ensures
        r == tag_rotation(t@),
{
    let n = t.len();
    if n == 0 {
        return 0;
    }
    let mut acc: u64 = 0;
    let mut over = false;
    let mut i: usize = 0;
    while i < n
        invariant
            n == t@.len(),
            0 < n,
            i <= n,
            forall|j: int| 0 <= j < i ==> 48 <= #[trigger] t@[j] <= 57,
            !over ==> acc == digits_value(t@.subrange(0, i as int)) && acc <= 0x7FFF_FFFF,
            over ==> digits_value(t@.subrange(0, i as int)) > 0x7FFF_FFFF,
        decreases n - i,
    {
        let b = t[i];
        if b < 48 || b > 57 {
            assert(!is_ascii_digits(t@));
            return 0;
        }
        proof {
            assert(t@.subrange(0, i + 1).drop_last() =~= t@.subrange(0, i as int));
            assert(t@.subrange(0, i + 1).last() == t@[i as int]);
        }
        let d = (b - 48) as u64;
        if over {
            proof {
                let v = digits_value(t@.subrange(0, i as int));
                assert(digits_value(t@.subrange(0, i + 1)) == (v * 10 + (b - 48)) as nat);
                assert(v * 10 >= v) by (nonlinear_arith)
                    requires
                        v >= 0,
                ;
            }
        } else {
            let next = acc * 10 + d;
            if next > 0x7FFF_FFFF {
                over = true;
            }
            acc = next;
        }
        i = i + 1;
    }
    proof {
        assert(t@.subrange(0, n as int) =~= t@);
        assert(is_ascii_digits(t@));
    }
    if over {
        0
    } else {
        acc as i32
    }
}

/// The rotation of a video stream: an explicit display matrix wins, a
/// textual rotate tag is read next, and with neither the stream is
/// upright.
pub open spec fn video_rotation_spec(matrix: Option<Seq<u8>>, tag: Option<Seq<u8>>) -> i32 {
    match matrix {
        Some(m) => rotation_of_matrix(m),
        None => match tag {
            Some(t) => tag_rotation(t),
            None => 0,
        },
    }
}

/// Decides the display rotation from the stream's side channels.
pub fn video_rotation(display_matrix: Option<&Vec<u8>>, rotate_tag: Option<&Vec<u8>>) -> (r: i32)
    requires
        display_matrix matches Some(m) ==> m@.len() >= 36,
    ensures
        r == video_rotation_spec(opt_bytes_view(display_matrix), opt_bytes_view(rotate_tag)),
{
    match display_matrix {
        Some(m) => parse_display_matrix(m),
        None => match rotate_tag {
            Some(t) => parse_rotate_tag(t),
            None => 0,
        },
    }
}

/// Whether a packet decode error is the transient needs-more-input
/// condition, which the decode loop recovers from by feeding the next
/// packet rather than failing the request.
pub fn transient_decode_errno(errno: i64) -> (r: bool)
    ensures
        r == (errno == 11),
{
    errno == 11
}

} // verus!
