//! The PNG textual-metadata layer of the cache.
//!
//! A cache entry is a PNG stream whose `tEXt` chunks carry the source URI,
//! the source's modification time and an optional software tag, under the
//! shared desktop thumbnail keywords `Thumb::URI`, `Thumb::MTime` and
//! `Software`. This module models the chunk structure of a PNG stream,
//! reads the first `tEXt` chunk with a given keyword, and splices freshly
//! built `tEXt` chunks into an encoded stream directly after its header
//! chunk.
use vstd::prelude::*;

use crate::crc::crc32_bytes;
use crate::crc::crc32_of;
use crate::numeric::append_bytes;
use crate::numeric::append_range;
use crate::numeric::be32_append;
use crate::numeric::be32_bytes;
use crate::numeric::be32_read;
use crate::numeric::be32_val;

verus! {

/// The eight fixed bytes that open every PNG stream.
pub open spec fn png_sig() -> Seq<u8> {
    seq![137u8, 80u8, 78u8, 71u8, 13u8, 10u8, 26u8, 10u8]
}

/// The chunk type of a textual metadata chunk, `tEXt`.
pub open spec fn type_text() -> Seq<u8> {
    seq![116u8, 69u8, 88u8, 116u8]
}

/// The chunk type that closes a PNG stream, `IEND`.
pub open spec fn type_iend() -> Seq<u8> {
    seq![73u8, 69u8, 78u8, 68u8]
}

/// The chunk type of the mandatory first chunk, `IHDR`.
pub open spec fn type_ihdr() -> Seq<u8> {
    seq![73u8, 72u8, 68u8, 82u8]
}

/// The keyword under which a thumbnail names its source URI.
pub open spec fn thumb_uri_kw() -> Seq<u8> {
    seq![84u8, 104u8, 117u8, 109u8, 98u8, 58u8, 58u8, 85u8, 82u8, 73u8]
}

/// The keyword under which a thumbnail records the source's
/// modification time.
pub open spec fn thumb_mtime_kw() -> Seq<u8> {
    seq![84u8, 104u8, 117u8, 109u8, 98u8, 58u8, 58u8, 77u8, 84u8, 105u8, 109u8, 101u8]
}

/// The keyword under which a thumbnail names the software that wrote it.
pub open spec fn software_kw() -> Seq<u8> {
    seq![83u8, 111u8, 102u8, 116u8, 119u8, 97u8, 114u8, 101u8]
}

/// The keyword `Thumb::URI` as runtime bytes.
pub fn thumb_uri_keyword() -> (r: Vec<u8>)
    ensures
        r@ == thumb_uri_kw(),
{
    let r: Vec<u8> = vec![84, 104, 117, 109, 98, 58, 58, 85, 82, 73];
    assert(r@ =~= thumb_uri_kw());
    r
}

/// The keyword `Thumb::MTime` as runtime bytes.
pub fn thumb_mtime_keyword() -> (r: Vec<u8>)
    ensures
        r@ == thumb_mtime_kw(),
{
    let r: Vec<u8> = vec![84, 104, 117, 109, 98, 58, 58, 77, 84, 105, 109, 101];
    assert(r@ =~= thumb_mtime_kw());
    r
}

/// The keyword `Software` as runtime bytes.
pub fn software_keyword() -> (r: Vec<u8>)
    ensures
        r@ == software_kw(),
{
    let r: Vec<u8> = vec![83, 111, 102, 116, 119, 97, 114, 101];
    assert(r@ =~= software_kw());
    r
}

/// The declared data length of the chunk starting at `pos`.
pub open spec fn chunk_len_at(s: Seq<u8>, pos: int) -> int {
    be32_val(s.subrange(pos, pos + 4))
}

/// The four type bytes of the chunk starting at `pos`.
pub open spec fn chunk_type_at(s: Seq<u8>, pos: int) -> Seq<u8> {
    s.subrange(pos + 4, pos + 8)
}

/// The data bytes of the chunk starting at `pos`.
pub open spec fn chunk_data_at(s: Seq<u8>, pos: int) -> Seq<u8> {
    s.subrange(pos + 8, pos + 8 + chunk_len_at(s, pos))
}

/// Whether a whole chunk (length, type, data, checksum) lies within `s`
/// at `pos`.
pub open spec fn chunk_fits(s: Seq<u8>, pos: int) -> bool {
    &&& 0 <= pos
    &&& pos + 8 <= s.len()
    &&& pos + 12 + chunk_len_at(s, pos) <= s.len()
}

/// The position just past the chunk starting at `pos`.
pub open spec fn next_chunk(s: Seq<u8>, pos: int) -> int {
    pos + 12 + chunk_len_at(s, pos)
}

/// The data bytes of a `tEXt` chunk: keyword, NUL separator, value.
pub open spec fn text_payload(kw: Seq<u8>, val: Seq<u8>) -> Seq<u8> {
    kw + seq![0u8] + val
}

/// Whether `tEXt` data opens with the given keyword and its separator.
pub open spec fn text_starts_with(data: Seq<u8>, kw: Seq<u8>) -> bool {
    &&& data.len() > kw.len()
    &&& data.subrange(0, kw.len() as int) == kw
    &&& data[kw.len() as int] == 0
}

/// The value of the first `tEXt` chunk with keyword `kw` at or after
/// `pos`, scanning chunk by chunk and stopping at `IEND`, at a chunk that
/// does not lie within the stream, or at the first match.
pub open spec fn scan_text_value(s: Seq<u8>, pos: int, kw: Seq<u8>) -> Option<Seq<u8>>
    decreases s.len() - pos,
{
    if !chunk_fits(s, pos) {
        None
    } else if chunk_type_at(s, pos) == type_iend() {
        None
    } else if chunk_type_at(s, pos) == type_text() && text_starts_with(chunk_data_at(s, pos), kw) {
        Some(chunk_data_at(s, pos).subrange(kw.len() + 1 as int, chunk_len_at(s, pos)))
    } else {
        scan_text_value(s, next_chunk(s, pos), kw)
    }
}

/// The value of the first `tEXt` chunk with keyword `kw` in the stream,
/// or `None` when the stream does not open with the PNG signature or
/// holds no such chunk.
pub open spec fn png_text_value_spec(s: Seq<u8>, kw: Seq<u8>) -> Option<Seq<u8>> {
    if s.len() >= 8 && s.subrange(0, 8) == png_sig() {
        scan_text_value(s, 8, kw)
    } else {
        None
    }
}

/// A whole `tEXt` chunk for one keyword and value: big-endian data length,
/// chunk type, keyword, NUL separator, value, and the checksum over type
/// and data.
pub open spec fn text_chunk(kw: Seq<u8>, val: Seq<u8>) -> Seq<u8> {
    be32_bytes((kw.len() + 1 + val.len()) as u32) + type_text() + text_payload(kw, val)
        + be32_bytes(crc32_of(type_text() + text_payload(kw, val)))
}

/// Whether metadata chunks can be spliced into `s`: it must open with the
/// PNG signature followed by a whole `IHDR` chunk.
pub open spec fn png_can_embed(s: Seq<u8>) -> bool {
    &&& s.len() >= 8
    &&& s.subrange(0, 8) == png_sig()
    &&& chunk_fits(s, 8)
    &&& chunk_type_at(s, 8) == type_ihdr()
}

/// The position just past the `IHDR` chunk, where metadata is spliced in.
pub open spec fn ihdr_end(s: Seq<u8>) -> int {
    next_chunk(s, 8)
}

/// The width and height words of the stream's header chunk, whose data
/// opens with the image's dimensions as big-endian words.
pub open spec fn png_dims_of(s: Seq<u8>) -> (int, int)
    recommends
        png_can_embed(s),
        chunk_len_at(s, 8) >= 8,
{
    (be32_val(s.subrange(16, 20)), be32_val(s.subrange(20, 24)))
}

/// The `tEXt` chunks a thumbnail carries: source URI, source modification
/// time, and optionally the writing software.
pub open spec fn thumb_chunks(uri: Seq<u8>, mtime: Seq<u8>, software: Option<Seq<u8>>) -> Seq<u8> {
    text_chunk(thumb_uri_kw(), uri) + text_chunk(thumb_mtime_kw(), mtime) + (match software {
        Some(sw) => text_chunk(software_kw(), sw),
        None => Seq::<u8>::empty(),
    })
}

/// The view of an optional byte string.
pub open spec fn opt_bytes_view(o: Option<&Vec<u8>>) -> Option<Seq<u8>> {
    match o {
        Some(v) => Some(v@),
        None => None,
    }
}

/// A PNG stream with the thumbnail's metadata chunks spliced in directly
/// after its header chunk.
pub open spec fn embedded_bytes(
    png: Seq<u8>,
    uri: Seq<u8>,
    mtime: Seq<u8>,
    software: Option<Seq<u8>>,
) -> Seq<u8> {
    png.subrange(0, ihdr_end(png)) + thumb_chunks(uri, mtime, software) + png.subrange(
        ihdr_end(png),
        png.len() as int,
    )
}

/// Whether the bytes of `s` from `off` on equal `pat`.
fn slice_eq_at(s: &Vec<u8>, off: usize, pat: &Vec<u8>) -> (r: bool)
    requires
        off + pat@.len() <= s@.len(),
    ensures
        r == (s@.subrange(off as int, off + pat@.len()) == pat@),
{
    let slen = s.len();
    let mut i: usize = 0;
    while i < pat.len()
        invariant
            i <= pat@.len(),
            off + pat@.len() <= s@.len(),
            slen == s@.len(),
            forall|j: int| 0 <= j < i ==> s@[off + j] == pat@[j],
        decreases pat@.len() - i,
    {
        if s[off + i] != pat[i] {
            assert(s@.subrange(off as int, off + pat@.len())[i as int] != pat@[i as int]);
            return false;
        }
        i = i + 1;
    }
    assert(s@.subrange(off as int, off + pat@.len()) =~= pat@);
    true
}

/// Reads the value of the first `tEXt` chunk with keyword `kw`, as
/// `png_text_value_spec` defines it.
pub fn png_text_value(s: &Vec<u8>, kw: &Vec<u8>) -> (r: Option<Vec<u8>>)
    ensures
        match r {
            Some(v) => png_text_value_spec(s@, kw@) == Some(v@),
            None => png_text_value_spec(s@, kw@) is None,
        },
{
    let n = s.len();
    if n < 8 {
        return None;
    }
    if !(s[0] == 137 && s[1] == 80 && s[2] == 78 && s[3] == 71 && s[4] == 13 && s[5] == 10 && s[6]
        == 26 && s[7] == 10) {
        assert(s@.subrange(0, 8) != png_sig()) by {
            if s@.subrange(0, 8) == png_sig() {
                assert(forall|j: int| 0 <= j < 8 ==> s@[j] == png_sig()[j]);
            }
        }
        return None;
    }
    assert(s@.subrange(0, 8) =~= png_sig());
    let mut pos: usize = 8;
    loop
        invariant
            8 <= pos <= n,
            n == s@.len(),
            scan_text_value(s@, pos as int, kw@) == scan_text_value(s@, 8, kw@),
            s@.subrange(0, 8) == png_sig(),
        decreases n - pos,
    {
        let rem = n - pos;
        if rem < 8 {
            assert(!chunk_fits(s@, pos as int));
            return None;
        }
        let clen32 = be32_read(s[pos], s[pos + 1], s[pos + 2], s[pos + 3]);
        let clen = clen32 as usize;
        proof {
            assert(s@.subrange(pos as int, pos + 4) =~= seq![
                s@[pos as int],
                s@[pos + 1],
                s@[pos + 2],
                s@[pos + 3],
            ]);
            assert(chunk_len_at(s@, pos as int) == clen);
        }
        if rem < 12 || rem - 12 < clen {
            assert(!chunk_fits(s@, pos as int));
            return None;
        }
        assert(chunk_fits(s@, pos as int));
        let t0 = s[pos + 4];
        let t1 = s[pos + 5];
        let t2 = s[pos + 6];
        let t3 = s[pos + 7];
        proof {
            assert(chunk_type_at(s@, pos as int) =~= seq![t0, t1, t2, t3]);
        }
        if t0 == 73 && t1 == 69 && t2 == 78 && t3 == 68 {
            assert(chunk_type_at(s@, pos as int) =~= type_iend());
            return None;
        }
        assert(chunk_type_at(s@, pos as int) != type_iend()) by {
            if chunk_type_at(s@, pos as int) == type_iend() {
                assert(seq![t0, t1, t2, t3][0] == type_iend()[0]);
                assert(seq![t0, t1, t2, t3][1] == type_iend()[1]);
                assert(seq![t0, t1, t2, t3][2] == type_iend()[2]);
                assert(seq![t0, t1, t2, t3][3] == type_iend()[3]);
            }
        }
        let is_text = t0 == 116 && t1 == 69 && t2 == 88 && t3 == 116;
        let ghost data = chunk_data_at(s@, pos as int);
        if is_text {
            assert(chunk_type_at(s@, pos as int) =~= type_text());
            if clen > kw.len() && slice_eq_at(s, pos + 8, kw) && s[pos + 8 + kw.len()] == 0 {
                proof {
                    assert(data.len() == clen);
                    assert(data.subrange(0, kw@.len() as int) =~= s@.subrange(
                        pos + 8,
                        pos + 8 + kw@.len(),
                    ));
                    assert(data[kw@.len() as int] == s@[pos + 8 + kw@.len()]);
                    assert(text_starts_with(data, kw@));
                }
                let vstart = pos + 8 + kw.len() + 1;
                let vend = pos + 8 + clen;
                let mut val: Vec<u8> = Vec::new();
                let mut i: usize = vstart;
                while i < vend
                    invariant
                        vstart <= i <= vend,
                        vend <= s@.len(),
                        val@ =~= s@.subrange(vstart as int, i as int),
                    decreases vend - i,
                {
                    val.push(s[i]);
                    assert(val@ =~= s@.subrange(vstart as int, i + 1));
                    i = i + 1;
                }
                proof {
                    assert(data.subrange(kw@.len() + 1 as int, clen as int) =~= s@.subrange(
                        vstart as int,
                        vend as int,
                    ));
                    assert(scan_text_value(s@, pos as int, kw@) == Some(val@));
                }
                return Some(val);
            } else {
                proof {
                    if clen <= kw@.len() {
                        assert(!text_starts_with(data, kw@));
                    } else if s@.subrange(pos + 8, pos + 8 + kw@.len()) != kw@ {
                        assert(data.subrange(0, kw@.len() as int) =~= s@.subrange(
                            pos + 8,
                            pos + 8 + kw@.len(),
                        ));
                        assert(!text_starts_with(data, kw@));
                    } else {
                        assert(data[kw@.len() as int] == s@[pos + 8 + kw@.len()]);
                        assert(!text_starts_with(data, kw@));
                    }
                }
            }
        } else {
            assert(chunk_type_at(s@, pos as int) != type_text()) by {
                if chunk_type_at(s@, pos as int) == type_text() {
                    assert(seq![t0, t1, t2, t3][0] == type_text()[0]);
                    assert(seq![t0, t1, t2, t3][1] == type_text()[1]);
                    assert(seq![t0, t1, t2, t3][2] == type_text()[2]);
                    assert(seq![t0, t1, t2, t3][3] == type_text()[3]);
                }
            }
        }
        assert(scan_text_value(s@, pos as int, kw@) == scan_text_value(
            s@,
            next_chunk(s@, pos as int),
            kw@,
        ));
        pos = pos + 12 + clen;
    }
}

/// Builds one `tEXt` chunk with a correct length word and checksum.
fn build_text_chunk(kw: &Vec<u8>, val: &Vec<u8>) -> (r: Vec<u8>)
    requires
        kw@.len() + 1 + val@.len() <= 0x7FFF_FFFF,
    ensures
        r@ == text_chunk(kw@, val@),
{
    let mut body: Vec<u8> = Vec::new();
    body.push(116);
    body.push(69);
    body.push(88);
    body.push(116);
    assert(body@ =~= type_text());
    append_bytes(&mut body, kw);
    body.push(0);
    append_bytes(&mut body, val);
    assert(body@ =~= type_text() + text_payload(kw@, val@));
    let crc = crc32_bytes(body.as_slice());
    let dlen: u32 = (kw.len() as u32) + 1 + (val.len() as u32);
    let mut out: Vec<u8> = Vec::new();
    be32_append(&mut out, dlen);
    append_bytes(&mut out, &body);
    be32_append(&mut out, crc);
    assert(out@ =~= text_chunk(kw@, val@));
    out
}

/// A byte string that equals a whole `tEXt` chunk at `pos` is that
/// position's chunk, and scanning steps over it to the following chunk.
proof fn lemma_text_chunk_at(s: Seq<u8>, pos: int, kw: Seq<u8>, val: Seq<u8>)
    requires
        kw.len() + 1 + val.len() <= 0x7FFF_FFFF,
        0 <= pos,
        pos + text_chunk(kw, val).len() <= s.len(),
        s.subrange(pos, pos + text_chunk(kw, val).len()) == text_chunk(kw, val),
    ensures
        chunk_fits(s, pos),
        chunk_type_at(s, pos) == type_text(),
        chunk_data_at(s, pos) == text_payload(kw, val),
        chunk_len_at(s, pos) == kw.len() + 1 + val.len(),
        next_chunk(s, pos) == pos + text_chunk(kw, val).len(),
{
    let tc = text_chunk(kw, val);
    let dlen = kw.len() + 1 + val.len();
    assert(tc.len() == 12 + dlen);
    assert(forall|i: int| 0 <= i < tc.len() ==> #[trigger] s[pos + i] == tc[i]) by {
        assert(forall|i: int|
            0 <= i < tc.len() ==> s.subrange(pos, pos + tc.len())[i] == #[trigger] tc[i]);
        assert(forall|i: int|
            0 <= i < tc.len() ==> #[trigger] s[pos + i] == s.subrange(pos, pos + tc.len())[i]);
    }
    let a = be32_bytes(dlen as u32);
    let b = type_text();
    let c = text_payload(kw, val);
    let d = be32_bytes(crc32_of(b + c));
    assert(a.len() == 4 && b.len() == 4 && c.len() == dlen && d.len() == 4);
    assert(tc == a + b + c + d);
    assert(forall|i: int| 0 <= i < 4 ==> #[trigger] tc[i] == a[i]);
    assert(forall|i: int| 0 <= i < 4 ==> #[trigger] tc[4 + i] == b[i]);
    assert(forall|i: int| 0 <= i < dlen ==> #[trigger] tc[8 + i] == c[i]);
    assert(s.subrange(pos, pos + 4) =~= a) by {
        assert(forall|i: int| 0 <= i < 4 ==> #[trigger] s.subrange(pos, pos + 4)[i] == s[pos + i]);
    }
    crate::numeric::lemma_be32_roundtrip(dlen as u32);
    assert(chunk_len_at(s, pos) == dlen);
    assert(chunk_type_at(s, pos) =~= b) by {
        assert(forall|i: int|
            0 <= i < 4 ==> #[trigger] s.subrange(pos + 4, pos + 8)[i] == s[pos + (4 + i)]);
    }
    assert(chunk_data_at(s, pos) =~= c) by {
        assert(forall|i: int|
            0 <= i < dlen ==> #[trigger] s.subrange(pos + 8, pos + 8 + dlen)[i] == s[pos + (8
                + i)]);
    }
}

/// A `tEXt` chunk whose data opens with the sought keyword ends the scan
/// with its value.
proof fn lemma_scan_match(s: Seq<u8>, pos: int, kw: Seq<u8>, val: Seq<u8>)
    requires
        chunk_fits(s, pos),
        chunk_type_at(s, pos) == type_text(),
        chunk_data_at(s, pos) == text_payload(kw, val),
    ensures
        scan_text_value(s, pos, kw) == Some(val),
{
    let data = chunk_data_at(s, pos);
    assert(data.len() == chunk_len_at(s, pos));
    assert(chunk_type_at(s, pos) != type_iend()) by {
        assert(type_text()[0] != type_iend()[0]);
    }
    assert(text_starts_with(data, kw)) by {
        assert(data.subrange(0, kw.len() as int) =~= kw);
        assert(data[kw.len() as int] == 0);
    }
    assert(data.subrange(kw.len() + 1 as int, chunk_len_at(s, pos)) =~= val);
}

/// A chunk that is neither `IEND` nor a `tEXt` match is stepped over.
proof fn lemma_scan_skip(s: Seq<u8>, pos: int, kw: Seq<u8>)
    requires
        chunk_fits(s, pos),
        chunk_type_at(s, pos) != type_iend(),
        chunk_type_at(s, pos) != type_text() || !text_starts_with(chunk_data_at(s, pos), kw),
    ensures
        scan_text_value(s, pos, kw) == scan_text_value(s, next_chunk(s, pos), kw),
{
}

/// No `tEXt` data written under one thumbnail keyword opens with another:
/// the three keywords pairwise differ within their common length.
proof fn lemma_keywords_disjoint(val: Seq<u8>)
    ensures
        !text_starts_with(text_payload(thumb_uri_kw(), val), thumb_mtime_kw()),
        !text_starts_with(text_payload(thumb_uri_kw(), val), software_kw()),
        !text_starts_with(text_payload(thumb_mtime_kw(), val), software_kw()),
        !text_starts_with(text_payload(thumb_mtime_kw(), val), thumb_uri_kw()),
{
    let pu = text_payload(thumb_uri_kw(), val);
    let pm = text_payload(thumb_mtime_kw(), val);
    if text_starts_with(pu, thumb_mtime_kw()) {
        assert(pu.subrange(0, 12)[7] == thumb_mtime_kw()[7]);
        assert(pu[7] == thumb_uri_kw()[7]);
    }
    if text_starts_with(pu, software_kw()) {
        assert(pu.subrange(0, 8)[0] == software_kw()[0]);
        assert(pu[0] == thumb_uri_kw()[0]);
    }
    if text_starts_with(pm, software_kw()) {
        assert(pm.subrange(0, 8)[0] == software_kw()[0]);
        assert(pm[0] == thumb_mtime_kw()[0]);
    }
    if text_starts_with(pm, thumb_uri_kw()) {
        assert(pm.subrange(0, 10)[7] == thumb_uri_kw()[7]);
        assert(pm[7] == thumb_mtime_kw()[7]);
    }
}

/// Splices the thumbnail's metadata into an encoded PNG stream, directly
/// after the header chunk, so that the result's first `tEXt` chunks carry
/// the source URI, the modification time, and optionally the software tag.
/// Returns `None` exactly when the bytes do not open with a PNG signature
/// and a whole header chunk.
pub fn embed_thumb_fields(
    png: &Vec<u8>,
    uri: &Vec<u8>,
    mtime: &Vec<u8>,
    software: Option<&Vec<u8>>,
) -> (r: Option<Vec<u8>>)
    requires
        uri@.len() <= 0x0FFF_FFFF,
        mtime@.len() <= 0x0FFF_FFFF,
        match software {
            Some(sw) => sw@.len() <= 0x0FFF_FFFF,
            None => true,
        },
    ensures
        match r {
            Some(out) => {
                &&& png_can_embed(png@)
                &&& out@ == embedded_bytes(png@, uri@, mtime@, opt_bytes_view(software))
                &&& png_text_value_spec(out@, thumb_uri_kw()) == Some(uri@)
                &&& png_text_value_spec(out@, thumb_mtime_kw()) == Some(mtime@)
                &&& match software {
                    Some(sw) => png_text_value_spec(out@, software_kw()) == Some(sw@),
                    None => true,
                }
                &&& out@.len() > png@.len()
                &&& (chunk_len_at(png@, 8) >= 8 ==> png_dims_of(out@) == png_dims_of(png@))
            },
            None => !png_can_embed(png@),
        },
{
    let n = png.len();
    if n < 8 {
        return None;
    }
    if !(png[0] == 137 && png[1] == 80 && png[2] == 78 && png[3] == 71 && png[4] == 13 && png[5]
        == 10 && png[6] == 26 && png[7] == 10) {
        assert(png@.subrange(0, 8) != png_sig()) by {
            if png@.subrange(0, 8) == png_sig() {
                assert(forall|j: int| 0 <= j < 8 ==> png@[j] == png_sig()[j]);
            }
        }
        return None;
    }
    assert(png@.subrange(0, 8) =~= png_sig());
    let rem = n - 8;
    if rem < 8 {
        assert(!chunk_fits(png@, 8));
        return None;
    }
    let l32 = be32_read(png[8], png[9], png[10], png[11]);
    let hlen = l32 as usize;
    proof {
        assert(png@.subrange(8, 12) =~= seq![png@[8], png@[9], png@[10], png@[11]]);
        assert(chunk_len_at(png@, 8) == hlen);
    }
    if rem < 12 || rem - 12 < hlen {
        assert(!chunk_fits(png@, 8));
        return None;
    }
    assert(chunk_fits(png@, 8));
    let t0 = png[12];
    let t1 = png[13];
    let t2 = png[14];
    let t3 = png[15];
    proof {
        assert(chunk_type_at(png@, 8) =~= seq![t0, t1, t2, t3]);
    }
    if !(t0 == 73 && t1 == 72 && t2 == 68 && t3 == 82) {
        assert(chunk_type_at(png@, 8) != type_ihdr()) by {
            if chunk_type_at(png@, 8) == type_ihdr() {
                assert(seq![t0, t1, t2, t3][0] == type_ihdr()[0]);
                assert(seq![t0, t1, t2, t3][1] == type_ihdr()[1]);
                assert(seq![t0, t1, t2, t3][2] == type_ihdr()[2]);
                assert(seq![t0, t1, t2, t3][3] == type_ihdr()[3]);
            }
        }
        return None;
    }
    assert(chunk_type_at(png@, 8) =~= type_ihdr());
    assert(png_can_embed(png@));
    let k = 8 + 12 + hlen;
    assert(k == ihdr_end(png@));
    let kwu = thumb_uri_keyword();
    let kwm = thumb_mtime_keyword();
    let c1 = build_text_chunk(&kwu, uri);
    let c2 = build_text_chunk(&kwm, mtime);
    let mut chunks: Vec<u8> = Vec::new();
    append_bytes(&mut chunks, &c1);
    append_bytes(&mut chunks, &c2);
    match software {
        Some(sw) => {
            let kws = software_keyword();
            let c3 = build_text_chunk(&kws, sw);
            append_bytes(&mut chunks, &c3);
        },
        None => {},
    }
    assert(chunks@ =~= thumb_chunks(uri@, mtime@, opt_bytes_view(software)));
    let mut out: Vec<u8> = Vec::new();
    append_range(&mut out, png, 0, k);
    append_bytes(&mut out, &chunks);
    append_range(&mut out, png, k, n);
    proof {
        lemma_embedded_scan(png@, uri@, mtime@, opt_bytes_view(software), out@);
        if chunk_len_at(png@, 8) >= 8 {
            assert(forall|i: int| 0 <= i < k ==> #[trigger] out@[i] == png@.subrange(0, k as int)[i]);
            assert(forall|i: int| 0 <= i < k ==> #[trigger] out@[i] == png@[i]);
            assert(out@.subrange(16, 20) =~= png@.subrange(16, 20));
            assert(out@.subrange(20, 24) =~= png@.subrange(20, 24));
        }
    }
    Some(out)
}

/// In a stream built by splicing the thumbnail chunks after the header
/// of an embeddable PNG, the first `tEXt` chunk under each thumbnail
/// keyword is the spliced one.
#[verifier::rlimit(80)]
#[verifier::spinoff_prover]
pub proof fn lemma_embedded_scan(
    p: Seq<u8>,
    uri: Seq<u8>,
    mtime: Seq<u8>,
    software: Option<Seq<u8>>,
    o: Seq<u8>,
)
    requires
        png_can_embed(p),
        uri.len() <= 0x0FFF_FFFF,
        mtime.len() <= 0x0FFF_FFFF,
        match software {
            Some(sw) => sw.len() <= 0x0FFF_FFFF,
            None => true,
        },
        o == embedded_bytes(p, uri, mtime, software),
    ensures
        png_text_value_spec(o, thumb_uri_kw()) == Some(uri),
        png_text_value_spec(o, thumb_mtime_kw()) == Some(mtime),
        match software {
            Some(sw) => png_text_value_spec(o, software_kw()) == Some(sw),
            None => true,
        },
        o.len() > p.len(),
{
    let k = ihdr_end(p);
    let pre = p.subrange(0, k);
    let ch = thumb_chunks(uri, mtime, software);
    let tail = p.subrange(k, p.len() as int);
    let tc1 = text_chunk(thumb_uri_kw(), uri);
    let tc2 = text_chunk(thumb_mtime_kw(), mtime);
    assert(o == pre + ch + tail);
    assert(pre.len() == k);
    assert(ch.len() > 0) by {
        assert(tc1.len() == 12 + thumb_uri_kw().len() + 1 + uri.len());
    }
    assert(o.len() == p.len() + ch.len());
    // The prefix up to the splice point is untouched.
    assert(forall|i: int| 0 <= i < k ==> #[trigger] o[i] == p[i]);
    assert(o.subrange(0, 8) =~= png_sig()) by {
        assert(forall|i: int| 0 <= i < 8 ==> #[trigger] o.subrange(0, 8)[i] == o[i]);
        assert(forall|i: int| 0 <= i < 8 ==> #[trigger] p.subrange(0, 8)[i] == p[i]);
    }
    assert(o.subrange(8, 12) =~= p.subrange(8, 12)) by {
        assert(forall|i: int| 0 <= i < 4 ==> #[trigger] o.subrange(8, 12)[i] == o[8 + i]);
        assert(forall|i: int| 0 <= i < 4 ==> #[trigger] p.subrange(8, 12)[i] == p[8 + i]);
    }
    assert(chunk_len_at(o, 8) == chunk_len_at(p, 8));
    assert(chunk_type_at(o, 8) =~= chunk_type_at(p, 8)) by {
        assert(forall|i: int| 0 <= i < 4 ==> #[trigger] o.subrange(12, 16)[i] == o[12 + i]);
        assert(forall|i: int| 0 <= i < 4 ==> #[trigger] p.subrange(12, 16)[i] == p[12 + i]);
    }
    assert(chunk_fits(o, 8));
    assert(next_chunk(o, 8) == k);
    assert(chunk_type_at(o, 8) != type_iend()) by {
        assert(type_ihdr()[1] != type_iend()[1]);
    }
    assert(chunk_type_at(o, 8) != type_text()) by {
        assert(type_ihdr()[0] != type_text()[0]);
    }
    // The spliced bytes sit at the splice point.
    assert(forall|i: int| 0 <= i < ch.len() ==> #[trigger] o[k + i] == ch[i]) by {
        assert(forall|i: int|
            0 <= i < ch.len() ==> #[trigger] (pre + ch + tail)[k + i] == ch[i]);
    }
    assert(forall|i: int| 0 <= i < tc1.len() ==> #[trigger] ch[i] == tc1[i]);
    assert(forall|i: int|
        0 <= i < tc2.len() ==> #[trigger] ch[tc1.len() + i] == tc2[i]);
    let k2 = k + tc1.len();
    assert(o.subrange(k, k + tc1.len()) =~= tc1) by {
        assert(forall|i: int|
            0 <= i < tc1.len() ==> #[trigger] o.subrange(k, k + tc1.len())[i] == o[k + i]);
    }
    assert(k + tc1.len() <= o.len());
    lemma_text_chunk_at(o, k, thumb_uri_kw(), uri);
    assert(o.subrange(k2, k2 + tc2.len()) =~= tc2) by {
        assert(forall|i: int|
            0 <= i < tc2.len() ==> #[trigger] o.subrange(k2, k2 + tc2.len())[i] == o[k + (tc1.len()
                + i)]);
        assert(forall|i: int| 0 <= i < tc2.len() ==> #[trigger] o[k + (tc1.len() + i)] == ch[tc1.len() + i]);
    }
    lemma_text_chunk_at(o, k2, thumb_mtime_kw(), mtime);
    assert(next_chunk(o, k) == k2);
    lemma_keywords_disjoint(uri);
    lemma_keywords_disjoint(mtime);
    assert(chunk_type_at(o, k) != type_iend()) by {
        assert(type_text()[0] != type_iend()[0]);
    }
    assert(chunk_type_at(o, k2) != type_iend()) by {
        assert(type_text()[0] != type_iend()[0]);
    }
    // Source URI: skip the header, match the first spliced chunk.
    lemma_scan_match(o, k, thumb_uri_kw(), uri);
    lemma_scan_skip(o, 8, thumb_uri_kw());
    assert(png_text_value_spec(o, thumb_uri_kw()) == Some(uri));
    // Modification time: skip the header and the URI chunk.
    lemma_scan_skip(o, 8, thumb_mtime_kw());
    lemma_scan_skip(o, k, thumb_mtime_kw());
    lemma_scan_match(o, k2, thumb_mtime_kw(), mtime);
    assert(png_text_value_spec(o, thumb_mtime_kw()) == Some(mtime));
    // Software tag: skip the header and both spliced chunks.
    match software {
        Some(sw) => {
            let tc3 = text_chunk(software_kw(), sw);
            let k3 = k2 + tc2.len();
            assert(forall|i: int|
                0 <= i < tc3.len() ==> #[trigger] ch[tc1.len() + tc2.len() + i] == tc3[i]);
            assert(o.subrange(k3, k3 + tc3.len()) =~= tc3) by {
                assert(forall|i: int|
                    0 <= i < tc3.len() ==> #[trigger] o.subrange(k3, k3 + tc3.len())[i] == o[k + (
                    tc1.len() + tc2.len() + i)]);
                assert(forall|i: int|
                    0 <= i < tc3.len() ==> #[trigger] o[k + (tc1.len() + tc2.len() + i)]
                        == ch[tc1.len() + tc2.len() + i]);
            }
            lemma_text_chunk_at(o, k3, software_kw(), sw);
            assert(next_chunk(o, k2) == k3);
            lemma_scan_skip(o, 8, software_kw());
            lemma_scan_skip(o, k, software_kw());
            lemma_scan_skip(o, k2, software_kw());
            lemma_scan_match(o, k3, software_kw(), sw);
            assert(png_text_value_spec(o, software_kw()) == Some(sw));
        },
        None => {},
    }
}

} // verus!
