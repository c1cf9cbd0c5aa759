//! The per-request derivation pipeline behind the two entry points.
//!
//! A request works on plain values: the source's bytes (or its first
//! decoded video frame), the caller's access check, the source's
//! modification time, its file URI, the optional software tag, and the
//! bytes of whatever cache entries exist. Per tier, the staleness
//! validator decides whether to regenerate; a regenerated tier comes back
//! as fresh PNG bytes carrying the new metadata, a fresh tier comes back
//! empty, meaning the entry on disk is untouched. The caller performs all
//! I/O: it reads the inputs beforehand and writes the non-empty results
//! back under the paths of the cache plan.
//!
//! The contracts fix each outcome completely: a request fails exactly on
//! an unreadable source or an undecodable one that needs regeneration,
//! and every regenerated tier's bytes are pinned, through the named codec
//! results, to the decoded source (or oriented frame), the tier's fitted
//! dimensions, and the embedded metadata.
use vstd::prelude::*;

use crate::geometry::fit_dims;
use crate::geometry::fit_dimensions;
use crate::geometry::half_dim;
use crate::geometry::half_dimensions;
use crate::geometry::oriented_dims;
use crate::geometry::Tier;
use crate::numeric::decimal_bytes;
use crate::numeric::decimal_digits;
use crate::numeric::lemma_decimal_digits_bound;
use crate::pixmap::decodable;
use crate::pixmap::decode_image;
use crate::pixmap::decoded_of;
use crate::pixmap::encode_png_pixmap;
use crate::pixmap::orient_pixmap;
use crate::pixmap::png_encoding_of;
use crate::pixmap::resampled_of;
use crate::pixmap::resize_pixmap;
use crate::pixmap::Pixmap;
use crate::png_text::embed_thumb_fields;
use crate::png_text::embedded_bytes;
use crate::png_text::opt_bytes_view;
use crate::png_text::png_dims_of;
use crate::png_text::png_text_value_spec;
use crate::png_text::software_kw;
use crate::png_text::thumb_uri_kw;
use crate::staleness::entry_fresh;
use crate::staleness::must_recreate;
use crate::staleness::must_recreate_spec;
use crate::video::frame_pixel;
use crate::video::lemma_oriented_data;
use crate::video::oriented_frame_data;
use crate::video::pack_frame;
use crate::video::VideoFrame;
use crate::ThumbError;

verus! {

/// What a freshly regenerated tier's bytes promise: a non-empty PNG
/// stream whose first metadata fields name the source URI, the current
/// modification time, and the software tag when one was given. Carrying
/// the current modification time makes the entry fresh, so validating it
/// again without a source change skips regeneration.
pub open spec fn tier_output_ok(
    out: Seq<u8>,
    uri: Seq<u8>,
    m: Seq<u8>,
    software: Option<Seq<u8>>,
) -> bool {
    &&& out.len() > 0
    &&& entry_fresh(out, m)
    &&& png_text_value_spec(out, thumb_uri_kw()) == Some(uri)
    &&& match software {
        Some(sw) => png_text_value_spec(out, software_kw()) == Some(sw),
        None => true,
    }
}

/// One tier's finished bytes: the `w` by `h` pixels resampled to the
/// tier's target dimensions, encoded as PNG, with the thumbnail metadata
/// spliced in.
pub open spec fn tier_bytes(
    w: u32,
    h: u32,
    data: Seq<u8>,
    tw: u32,
    th: u32,
    uri: Seq<u8>,
    m: Seq<u8>,
    software: Option<Seq<u8>>,
) -> Seq<u8> {
    embedded_bytes(png_encoding_of(tw, th, resampled_of(w, h, data, tw, th)), uri, m, software)
}

/// `fit_dims` at machine width.
pub open spec fn fit_u32(w: u32, h: u32, target: u32) -> (u32, u32) {
    let d = fit_dims(w as nat, h as nat, target as nat);
    (d.0 as u32, d.1 as u32)
}

/// `half_dims` at machine width.
pub open spec fn half_u32(w: u32, h: u32) -> (u32, u32) {
    (half_dim(w as nat) as u32, half_dim(h as nat) as u32)
}

/// Encodes finished tier pixels as PNG and embeds the thumbnail
/// metadata. With at least one pixel on each side this cannot fail: the
/// encoder succeeds on such a buffer and its stream always takes the
/// splice.
fn encode_tier(
    p: &Pixmap,
    uri: &Vec<u8>,
    mtime_dec: &Vec<u8>,
    software: Option<&Vec<u8>>,
) -> (out: Vec<u8>)
    requires
        p.wf(),
        p.width >= 1,
        p.height >= 1,
        uri@.len() <= 0x0FFF_FFFF,
        mtime_dec@.len() <= 0x0FFF_FFFF,
        software matches Some(sw) ==> sw@.len() <= 0x0FFF_FFFF,
    ensures
        out@ == embedded_bytes(
            png_encoding_of(p.width, p.height, p.data@),
            uri@,
            mtime_dec@,
            opt_bytes_view(software),
        ),
        tier_output_ok(out@, uri@, mtime_dec@, opt_bytes_view(software)),
        png_dims_of(out@) == (p.width as int, p.height as int),
{
    let png = match encode_png_pixmap(p) {
        Ok(png) => png,
        Err(_) => {
            // The encoder succeeds on any buffer with nonzero dimensions.
            proof {
                assert(false);
            }
            Vec::new()
        },
    };
    match embed_thumb_fields(&png, uri, mtime_dec, software) {
        Some(out) => out,
        None => {
            // The encoder's stream always opens with a whole header chunk.
            proof {
                assert(false);
            }
            Vec::new()
        },
    }
}

/// Scales a decoded image to the given dimensions, encodes it as PNG and
/// embeds the thumbnail metadata.
fn finish_tier(
    p: &Pixmap,
    w: u32,
    h: u32,
    uri: &Vec<u8>,
    mtime_dec: &Vec<u8>,
    software: Option<&Vec<u8>>,
) -> (out: Vec<u8>)
    requires
        p.wf(),
        w >= 1,
        h >= 1,
        uri@.len() <= 0x0FFF_FFFF,
        mtime_dec@.len() <= 0x0FFF_FFFF,
        software matches Some(sw) ==> sw@.len() <= 0x0FFF_FFFF,
    ensures
        out@ == tier_bytes(
            p.width,
            p.height,
            p.data@,
            w,
            h,
            uri@,
            mtime_dec@,
            opt_bytes_view(software),
        ),
        tier_output_ok(out@, uri@, mtime_dec@, opt_bytes_view(software)),
        png_dims_of(out@) == (w as int, h as int),
{
    let scaled = resize_pixmap(p, w, h);
    encode_tier(&scaled, uri, mtime_dec, software)
}

/// Derives the normal tier's pixels from a freshly regenerated large
/// tier: the dimensions are exactly half of the large tier's, rounded per
/// the halving rule, so the two tiers keep their fixed two-to-one
/// relationship; the pixels are the large tier's resampled to that size.
pub fn derive_normal_pixmap(large: &Pixmap) -> (r: Pixmap)
    requires
        large.wf(),
    ensures
        r.wf(),
        (r.width as nat, r.height as nat) == crate::geometry::half_dims(
            large.width as nat,
            large.height as nat,
        ),
        r.data@ == resampled_of(large.width, large.height, large.data@, r.width, r.height),
{
    let dims = half_dimensions(large.width, large.height);
    resize_pixmap(large, dims.0, dims.1)
}

/// The contract both entry points share, per tier: the request fails with
/// `SourceNotReadable` exactly when the caller's access check failed;
/// when both cached tiers are fresh the request succeeds without decoding
/// anything; and on success each tier is either empty because its cache
/// entry was fresh, or a regenerated entry carrying the new metadata.
pub open spec fn thumbnail_post(
    r: Result<(Vec<u8>, Vec<u8>), ThumbError>,
    readable: bool,
    mtime: u64,
    uri: Seq<u8>,
    software: Option<Seq<u8>>,
    cached_normal: Option<Seq<u8>>,
    cached_large: Option<Seq<u8>>,
) -> bool {
    let m = decimal_digits(mtime as nat);
    let need_l = must_recreate_spec(cached_large, m);
    let need_n = must_recreate_spec(cached_normal, m);
    &&& (r == Err::<(Vec<u8>, Vec<u8>), ThumbError>(ThumbError::SourceNotReadable) <==> !readable)
    &&& (readable && !need_l && !need_n ==> r is Ok)
    &&& match r {
        Ok(t) => {
            &&& (need_l ==> tier_output_ok(t.1@, uri, m, software))
            &&& (!need_l ==> t.1@.len() == 0)
            &&& (need_n ==> tier_output_ok(t.0@, uri, m, software))
            &&& (!need_n ==> t.0@.len() == 0)
        },
        Err(_) => true,
    }
}

/// The still-image entry point's whole contract: the shared per-tier
/// clauses, success owed exactly when nothing is due or the source
/// decodes with at least one pixel on each side, a decode error exactly
/// otherwise, and each regenerated tier's bytes pinned to the decoded
/// source at the tier's fitted dimensions — the normal tier derived from
/// the large tier's pixels at half scale when both regenerate.
pub open spec fn image_thumbnail_post(
    r: Result<(Vec<u8>, Vec<u8>), ThumbError>,
    source: Seq<u8>,
    readable: bool,
    mtime: u64,
    uri: Seq<u8>,
    software: Option<Seq<u8>>,
    cached_normal: Option<Seq<u8>>,
    cached_large: Option<Seq<u8>>,
) -> bool {
    let m = decimal_digits(mtime as nat);
    let need_l = must_recreate_spec(cached_large, m);
    let need_n = must_recreate_spec(cached_normal, m);
    &&& thumbnail_post(r, readable, mtime, uri, software, cached_normal, cached_large)
    &&& (readable ==> (r is Ok <==> ((!need_l && !need_n) || decodable(source))))
    &&& (r == Err::<(Vec<u8>, Vec<u8>), ThumbError>(ThumbError::DecodeFailed) <==> (readable && (
    need_l || need_n) && !decodable(source)))
    &&& match r {
        Ok(t) => (need_l || need_n) ==> {
            let d = decoded_of(source)->0;
            let ld = fit_u32(d.0, d.1, 256);
            let nd_direct = fit_u32(d.0, d.1, 128);
            let nd_half = half_u32(ld.0, ld.1);
            let large_data = resampled_of(d.0, d.1, d.2, ld.0, ld.1);
            &&& (need_l ==> t.1@ == tier_bytes(d.0, d.1, d.2, ld.0, ld.1, uri, m, software)
                && png_dims_of(t.1@) == (ld.0 as int, ld.1 as int))
            &&& (need_n && need_l ==> t.0@ == tier_bytes(
                ld.0,
                ld.1,
                large_data,
                nd_half.0,
                nd_half.1,
                uri,
                m,
                software,
            ) && png_dims_of(t.0@) == (nd_half.0 as int, nd_half.1 as int))
            &&& (need_n && !need_l ==> t.0@ == tier_bytes(
                d.0,
                d.1,
                d.2,
                nd_direct.0,
                nd_direct.1,
                uri,
                m,
                software,
            ) && png_dims_of(t.0@) == (nd_direct.0 as int, nd_direct.1 as int))
        },
        Err(_) => true,
    }
}

/// Idempotence of the entry points: after a successful first request on a
/// never-thumbnailed source, both written tiers validate as fresh, so any
/// second outcome that meets the entry points' contract for the unchanged
/// source returns two empty buffers — nothing is regenerated and the
/// entries on disk stay as the first call wrote them.
pub proof fn lemma_second_call_returns_empty(
    normal1: Vec<u8>,
    large1: Vec<u8>,
    r2: Result<(Vec<u8>, Vec<u8>), ThumbError>,
    mtime: u64,
    uri: Seq<u8>,
    software: Option<Seq<u8>>,
)
    requires
        thumbnail_post(Ok((normal1, large1)), true, mtime, uri, software, None, None),
        thumbnail_post(r2, true, mtime, uri, software, Some(normal1@), Some(large1@)),
    ensures
        (r2 matches Ok(t) && t.0@.len() == 0 && t.1@.len() == 0),
{
}

/// Invalidation: entries written under one modification time validate as
/// stale under any other, so a request after the source changed must
/// regenerate both tiers, and on success both returned buffers are fresh
/// entries carrying the new modification time.
pub proof fn lemma_changed_mtime_regenerates(
    normal1: Vec<u8>,
    large1: Vec<u8>,
    r2: Result<(Vec<u8>, Vec<u8>), ThumbError>,
    old_mtime: u64,
    new_mtime: u64,
    uri: Seq<u8>,
    software: Option<Seq<u8>>,
)
    requires
        thumbnail_post(Ok((normal1, large1)), true, old_mtime, uri, software, None, None),
        old_mtime != new_mtime,
        thumbnail_post(r2, true, new_mtime, uri, software, Some(normal1@), Some(large1@)),
    ensures
        must_recreate_spec(Some(normal1@), decimal_digits(new_mtime as nat)),
        must_recreate_spec(Some(large1@), decimal_digits(new_mtime as nat)),
        r2 matches Ok(t) ==> tier_output_ok(t.0@, uri, decimal_digits(new_mtime as nat), software)
            && tier_output_ok(t.1@, uri, decimal_digits(new_mtime as nat), software),
{
    let m1 = decimal_digits(old_mtime as nat);
    let m2 = decimal_digits(new_mtime as nat);
    if m1 == m2 {
        crate::numeric::lemma_decimal_digits_injective(old_mtime as nat, new_mtime as nat);
    }
}

/// Produces the normal and large thumbnails of a still image, in that
/// order, from plain values: the source file's bytes, the caller's access
/// check, the source's modification time, its file URI, the optional
/// software tag, and the bytes of the existing cache entries per tier.
/// An empty buffer means the tier's entry is fresh and untouched. The
/// normal tier of a freshly regenerated large tier is derived from the
/// large tier's pixels at half scale instead of decoding the source
/// again.
pub fn image_thumbnail(
    source: &Vec<u8>,
    readable: bool,
    mtime: u64,
    uri: &Vec<u8>,
    software: Option<&Vec<u8>>,
    cached_normal: Option<&Vec<u8>>,
    cached_large: Option<&Vec<u8>>,
) -> (r: Result<(Vec<u8>, Vec<u8>), ThumbError>)
    requires
        uri@.len() <= 0x0FFF_FFFF,
        software matches Some(sw) ==> sw@.len() <= 0x0FFF_FFFF,
    ensures
        image_thumbnail_post(
            r,
            source@,
            readable,
            mtime,
            uri@,
            opt_bytes_view(software),
            opt_bytes_view(cached_normal),
            opt_bytes_view(cached_large),
        ),
{
    if !readable {
        return Err(ThumbError::SourceNotReadable);
    }
    let mtime_dec = decimal_bytes(mtime);
    proof {
        lemma_decimal_digits_bound(mtime);
    }
    let regen_large = must_recreate(cached_large, &mtime_dec);
    let regen_normal = must_recreate(cached_normal, &mtime_dec);
    if !regen_large && !regen_normal {
        return Ok((Vec::new(), Vec::new()));
    }
    let p = match decode_image(source) {
        Ok(p) => p,
        Err(e) => {
            return Err(e);
        },
    };
    if regen_large {
        let dims = fit_dimensions(p.width, p.height, Tier::Large.edge());
        let large_pixmap = resize_pixmap(&p, dims.0, dims.1);
        let large_out = encode_tier(&large_pixmap, uri, &mtime_dec, software);
        let normal_out = if regen_normal {
            let np = derive_normal_pixmap(&large_pixmap);
            encode_tier(&np, uri, &mtime_dec, software)
        } else {
            Vec::new()
        };
        Ok((normal_out, large_out))
    } else {
        let dims = fit_dimensions(p.width, p.height, Tier::Normal.edge());
        let normal_out = finish_tier(&p, dims.0, dims.1, uri, &mtime_dec, software);
        Ok((normal_out, Vec::new()))
    }
}

/// The view of an optional borrowed frame.
pub open spec fn opt_frame_view(o: Option<&VideoFrame>) -> Option<VideoFrame> {
    match o {
        Some(f) => Some(*f),
        None => None,
    }
}

/// The video entry point's whole contract: a missing frame yields an
/// empty result, success is owed exactly when nothing is due or the
/// frame has at least one pixel on each side, a decode error exactly
/// otherwise, and each regenerated tier's bytes are pinned to the
/// orientation-corrected frame at the tier's fitted dimensions.
pub open spec fn video_thumbnail_post(
    r: Result<(Vec<u8>, Vec<u8>), ThumbError>,
    frame: Option<VideoFrame>,
    rotation: i32,
    readable: bool,
    mtime: u64,
    uri: Seq<u8>,
    software: Option<Seq<u8>>,
    cached_normal: Option<Seq<u8>>,
    cached_large: Option<Seq<u8>>,
) -> bool {
    let m = decimal_digits(mtime as nat);
    let need_l = must_recreate_spec(cached_large, m);
    let need_n = must_recreate_spec(cached_normal, m);
    &&& (frame is None && readable ==> (r matches Ok(t) && t.0@.len() == 0 && t.1@.len() == 0))
    &&& (r == Err::<(Vec<u8>, Vec<u8>), ThumbError>(ThumbError::SourceNotReadable) <==> !readable)
    &&& match frame {
        Some(f) => {
            let frame_ok = f.width >= 1 && f.height >= 1;
            let odims = oriented_dims(f.width as nat, f.height as nat, rotation);
            let ow = odims.0 as u32;
            let oh = odims.1 as u32;
            let odata = oriented_frame_data(f, rotation);
            let ld = fit_u32(ow, oh, 256);
            let nd_direct = fit_u32(ow, oh, 128);
            let nd_half = half_u32(ld.0, ld.1);
            let large_data = resampled_of(ow, oh, odata, ld.0, ld.1);
            &&& thumbnail_post(r, readable, mtime, uri, software, cached_normal, cached_large)
            &&& (readable ==> (r is Ok <==> ((!need_l && !need_n) || frame_ok)))
            &&& (r == Err::<(Vec<u8>, Vec<u8>), ThumbError>(ThumbError::DecodeFailed) <==> (
            readable && (need_l || need_n) && !frame_ok))
            &&& match r {
                Ok(t) => (need_l || need_n) ==> {
                    &&& (need_l ==> t.1@ == tier_bytes(ow, oh, odata, ld.0, ld.1, uri, m, software)
                        && png_dims_of(t.1@) == (ld.0 as int, ld.1 as int))
                    &&& (need_n && need_l ==> t.0@ == tier_bytes(
                        ld.0,
                        ld.1,
                        large_data,
                        nd_half.0,
                        nd_half.1,
                        uri,
                        m,
                        software,
                    ) && png_dims_of(t.0@) == (nd_half.0 as int, nd_half.1 as int))
                    &&& (need_n && !need_l ==> t.0@ == tier_bytes(
                        ow,
                        oh,
                        odata,
                        nd_direct.0,
                        nd_direct.1,
                        uri,
                        m,
                        software,
                    ) && png_dims_of(t.0@) == (nd_direct.0 as int, nd_direct.1 as int))
                },
                Err(_) => true,
            }
        },
        None => true,
    }
}

/// Produces the normal and large thumbnails of a video, in that order,
/// from its first decoded frame and the display rotation the stream's
/// side channels gave. A stream with no decodable frame yields two empty
/// buffers rather than an error; otherwise the tiers behave as for a
/// still image, with the frame, oriented by the rotation, in place of the
/// decoded source.
pub fn video_thumbnail(
    frame: Option<&VideoFrame>,
    rotation: i32,
    readable: bool,
    mtime: u64,
    uri: &Vec<u8>,
    software: Option<&Vec<u8>>,
    cached_normal: Option<&Vec<u8>>,
    cached_large: Option<&Vec<u8>>,
) -> (r: Result<(Vec<u8>, Vec<u8>), ThumbError>)
    requires
        uri@.len() <= 0x0FFF_FFFF,
        software matches Some(sw) ==> sw@.len() <= 0x0FFF_FFFF,
        frame matches Some(f) ==> f.wf(),
    ensures
        video_thumbnail_post(
            r,
            opt_frame_view(frame),
            rotation,
            readable,
            mtime,
            uri@,
            opt_bytes_view(software),
            opt_bytes_view(cached_normal),
            opt_bytes_view(cached_large),
        ),
{
    if !readable {
        return Err(ThumbError::SourceNotReadable);
    }
    let f = match frame {
        Some(f) => f,
        None => {
            return Ok((Vec::new(), Vec::new()));
        },
    };
    let mtime_dec = decimal_bytes(mtime);
    proof {
        lemma_decimal_digits_bound(mtime);
    }
    let regen_large = must_recreate(cached_large, &mtime_dec);
    let regen_normal = must_recreate(cached_normal, &mtime_dec);
    if !regen_large && !regen_normal {
        return Ok((Vec::new(), Vec::new()));
    }
    if f.width == 0 || f.height == 0 {
        return Err(ThumbError::DecodeFailed);
    }
    let packed = pack_frame(f);
    let ghost packed_g = packed;
    let oriented = orient_pixmap(packed, rotation);
    proof {
        assert forall|x: int, y: int, c: int|
            0 <= x < oriented.width && 0 <= y < oriented.height && 0 <= c
                < 3 implies #[trigger] oriented.pixel(x, y, c) == frame_pixel(
            *f,
            rotation,
            x,
            y,
            c,
        ) by {
            if !(rotation == 90 || rotation == 180 || rotation == 270) {
                assert(oriented == packed_g);
            }
        }
        lemma_oriented_data(oriented, *f, rotation);
    }
    if regen_large {
        let dims = fit_dimensions(oriented.width, oriented.height, Tier::Large.edge());
        let large_pixmap = resize_pixmap(&oriented, dims.0, dims.1);
        let large_out = encode_tier(&large_pixmap, uri, &mtime_dec, software);
        let normal_out = if regen_normal {
            let np = derive_normal_pixmap(&large_pixmap);
            encode_tier(&np, uri, &mtime_dec, software)
        } else {
            Vec::new()
        };
        Ok((normal_out, large_out))
    } else {
        let dims = fit_dimensions(oriented.width, oriented.height, Tier::Normal.edge());
        let normal_out = finish_tier(&oriented, dims.0, dims.1, uri, &mtime_dec, software);
        Ok((normal_out, Vec::new()))
    }
}

} // verus!
