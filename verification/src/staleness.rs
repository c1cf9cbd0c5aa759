//! The staleness validator: whether an existing cache entry may be served
//! or the thumbnail must be regenerated.
//!
//! An entry is fresh exactly when the first `Thumb::MTime` text field of
//! the cached PNG equals, byte for byte, the decimal rendering of the
//! source's current modification time. A missing entry, an unreadable
//! stream and a mismatching or absent field all demand regeneration: the
//! validator fails open toward regenerating, never toward serving a
//! questionable entry.
use vstd::prelude::*;

use crate::numeric::bytes_equal;
use crate::numeric::decimal_digits;
use crate::numeric::lemma_decimal_digits_injective;
use crate::png_text::embedded_bytes;
use crate::png_text::lemma_embedded_scan;
use crate::png_text::opt_bytes_view;
use crate::png_text::png_can_embed;
use crate::png_text::png_text_value;
use crate::png_text::png_text_value_spec;
use crate::png_text::thumb_mtime_keyword;
use crate::png_text::thumb_mtime_kw;

verus! {

/// Whether a cached entry is still valid for the given modification time.
pub open spec fn entry_fresh(entry: Seq<u8>, mtime: Seq<u8>) -> bool {
    png_text_value_spec(entry, thumb_mtime_kw()) == Some(mtime)
}

/// Whether a tier must be regenerated: always when no entry exists, and
/// otherwise exactly when the existing entry is not fresh.
pub open spec fn must_recreate_spec(entry: Option<Seq<u8>>, mtime: Seq<u8>) -> bool {
    match entry {
        None => true,
        Some(e) => !entry_fresh(e, mtime),
    }
}

/// Decides whether a tier must be regenerated, from the cached entry's
/// bytes (`None` when no entry exists) and the decimal rendering of the
/// source's current modification time.
pub fn must_recreate(entry: Option<&Vec<u8>>, current_mtime: &Vec<u8>) -> (r: bool)
    ensures
        r == must_recreate_spec(opt_bytes_view(entry), current_mtime@),
{
    match entry {
        None => true,
        Some(e) => {
            let kw = thumb_mtime_keyword();
            match png_text_value(e, &kw) {
                Some(stored) => !bytes_equal(&stored, current_mtime),
                None => true,
            }
        },
    }
}

/// An entry written by embedding the source's current modification time
/// is fresh for that time: validating it right after writing demands no
/// regeneration, so an unchanged source never regenerates twice.
pub proof fn lemma_embedded_entry_is_fresh(
    png: Seq<u8>,
    uri: Seq<u8>,
    mtime: Seq<u8>,
    software: Option<Seq<u8>>,
)
    requires
        png_can_embed(png),
        uri.len() <= 0x0FFF_FFFF,
        mtime.len() <= 0x0FFF_FFFF,
        match software {
            Some(sw) => sw.len() <= 0x0FFF_FFFF,
            None => true,
        },
    ensures
        !must_recreate_spec(Some(embedded_bytes(png, uri, mtime, software)), mtime),
{
    lemma_embedded_scan(png, uri, mtime, software, embedded_bytes(png, uri, mtime, software));
}

/// Changing the source's modification time invalidates an entry written
/// under the old one: re-validating against the new time demands
/// regeneration.
pub proof fn lemma_mtime_change_invalidates(
    png: Seq<u8>,
    uri: Seq<u8>,
    old_mtime: u64,
    new_mtime: u64,
    software: Option<Seq<u8>>,
)
    requires
        png_can_embed(png),
        uri.len() <= 0x0FFF_FFFF,
        old_mtime != new_mtime,
        match software {
            Some(sw) => sw.len() <= 0x0FFF_FFFF,
            None => true,
        },
    ensures
        must_recreate_spec(
            Some(embedded_bytes(png, uri, decimal_digits(old_mtime as nat), software)),
            decimal_digits(new_mtime as nat),
        ),
{
    let d_old = decimal_digits(old_mtime as nat);
    let d_new = decimal_digits(new_mtime as nat);
    crate::numeric::lemma_decimal_digits_len(old_mtime as nat);
    assert(d_old.len() <= 0x0FFF_FFFF) by {
        crate::numeric::lemma_decimal_digits_bound(old_mtime);
    }
    lemma_embedded_scan(png, uri, d_old, software, embedded_bytes(png, uri, d_old, software));
    if d_old == d_new {
        lemma_decimal_digits_injective(old_mtime as nat, new_mtime as nat);
    }
}

} // verus!
