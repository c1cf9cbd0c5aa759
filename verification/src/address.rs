//! Cache addressing: from a source path to its file URI, from the URI to
//! the cache key, and from the key to the root, tier directories and entry
//! paths of the on-disk cache.
use vstd::prelude::*;

use md5::Digest;

use crate::numeric::append_bytes;
use crate::numeric::hex_lower;
use crate::numeric::hex_lower_bytes;
use crate::ThumbError;

verus! {

/// The MD5 digest of a byte string, as the md-5 crate computes it.
pub uninterp spec fn md5_of(s: Seq<u8>) -> Seq<u8>;

/// Relies on the md-5 crate's `Digest::digest`: the MD5 digest of the
/// input, sixteen bytes, a function of the input alone.
#[verifier::external_body]
fn md5_digest(bytes: &Vec<u8>) -> (r: Vec<u8>)
    ensures
        r@ == md5_of(bytes@),
        r@.len() == 16,
{
    md5::Md5::digest(bytes.as_slice()).to_vec()
}

/// The file URI of a path, as `url::Url::from_file_path` renders it.
pub uninterp spec fn uri_of(path: Seq<char>) -> Seq<u8>;

/// Relies on `url::Url::from_file_path`: the file URI of an absolute path,
/// a function of the path alone; the call fails exactly on paths that do
/// not start at the root. The serialization is the fixed scheme prefix
/// plus one slash and at most three percent-encoded bytes per path
/// character, so its length is bounded by the path's.
#[verifier::external_body]
fn file_uri_bytes(path: &str) -> (r: Option<Vec<u8>>)
    requires
        path@.len() <= 0x0FFF_FFFF,
    ensures
        r is Some ==> r->0@ == uri_of(path@) && path@.len() > 0 && path@[0] == '/'
            && r->0@.len() <= 8 + 12 * path@.len(),
        path@.len() > 0 && path@[0] == '/' ==> r is Some,
{
    match url::Url::from_file_path(std::path::Path::new(path)) {
        Ok(u) => Some(u.as_str().as_bytes().to_vec()),
        Err(()) => None,
    }
}

/// The cache key of a URI: the lowercase hexadecimal MD5 digest.
pub open spec fn thumb_key_of(uri: Seq<u8>) -> Seq<u8> {
    hex_lower(md5_of(uri))
}

/// The fixed suffix of every cache entry, `.png`.
pub open spec fn png_suffix() -> Seq<u8> {
    seq![46u8, 112u8, 110u8, 103u8]
}

/// The base name of a URI's cache entries: the key plus the suffix.
pub open spec fn thumb_file_name_of(uri: Seq<u8>) -> Seq<u8> {
    thumb_key_of(uri) + png_suffix()
}

/// Computes the cache key: thirty-two lowercase hexadecimal digits.
pub fn cache_key(uri: &Vec<u8>) -> (r: Vec<u8>)
    ensures
        r@ == thumb_key_of(uri@),
        r@.len() == 32,
{
    let d = md5_digest(uri);
    hex_lower_bytes(&d)
}

/// The cache key is a pure function of the file URI: equal URIs yield
/// equal keys, across invocations and across processes.
pub proof fn lemma_cache_key_deterministic(u1: Seq<u8>, u2: Seq<u8>)
    requires
        u1 == u2,
    ensures
        thumb_key_of(u1) == thumb_key_of(u2),
{
}

/// The `/thumbnails` path segment.
pub open spec fn seg_thumbnails() -> Seq<u8> {
    seq![47u8, 116u8, 104u8, 117u8, 109u8, 98u8, 110u8, 97u8, 105u8, 108u8, 115u8]
}

/// The `/.cache` path segment.
pub open spec fn seg_dot_cache() -> Seq<u8> {
    seq![47u8, 46u8, 99u8, 97u8, 99u8, 104u8, 101u8]
}

/// The `/normal` path segment.
pub open spec fn seg_normal() -> Seq<u8> {
    seq![47u8, 110u8, 111u8, 114u8, 109u8, 97u8, 108u8]
}

/// The `/large` path segment.
pub open spec fn seg_large() -> Seq<u8> {
    seq![47u8, 108u8, 97u8, 114u8, 103u8, 101u8]
}

/// What the environment offers as cache locations: the OS cache-home
/// variable and the home directory, each if set.
pub struct CacheEnv {
    pub xdg_cache_home: Option<Vec<u8>>,
    pub home: Option<Vec<u8>>,
}

impl CacheEnv {
    /// The cache root this environment yields: the cache home's
    /// `thumbnails` directory, else the home's `.cache/thumbnails`
    /// directory, else nothing.
    pub open spec fn root_view(&self) -> Option<Seq<u8>> {
        match self.xdg_cache_home {
            Some(x) => Some(x@ + seg_thumbnails()),
            None => match self.home {
                Some(hm) => Some(hm@ + seg_dot_cache() + seg_thumbnails()),
                None => None,
            },
        }
    }
}

/// Where one source's thumbnails live: its URI, the entries' base name,
/// and the directories and paths of both tiers.
pub struct CachePlan {
    pub uri: Vec<u8>,
    pub file_name: Vec<u8>,
    pub root_dir: Vec<u8>,
    pub normal_dir: Vec<u8>,
    pub large_dir: Vec<u8>,
    pub normal_path: Vec<u8>,
    pub large_path: Vec<u8>,
}

impl CachePlan {
    /// Every field is what the URI and the cache root determine.
    pub open spec fn consistent_with(&self, uri: Seq<u8>, root: Seq<u8>) -> bool {
        &&& self.uri@ == uri
        &&& self.file_name@ == thumb_file_name_of(uri)
        &&& self.root_dir@ == root
        &&& self.normal_dir@ == root + seg_normal()
        &&& self.large_dir@ == root + seg_large()
        &&& self.normal_path@ == root + seg_normal() + seq![47u8] + thumb_file_name_of(uri)
        &&& self.large_path@ == root + seg_large() + seq![47u8] + thumb_file_name_of(uri)
    }
}

/// Computes the cache addressing of one source path: its file URI, cache
/// key and the tier directories and entry paths under the environment's
/// cache root. Fails with `InvalidSourcePath` exactly when the path has no
/// usable file-URI form, and with `CacheDirUnavailable` exactly when the
/// environment offers no cache location.
pub fn cache_plan(path: &str, env: &CacheEnv) -> (r: Result<CachePlan, ThumbError>)
    requires
        path@.len() <= 0x00FF_FFFF,
    ensures
        ({
            let absolute = path@.len() > 0 && path@[0] == '/';
            match r {
                Ok(c) => absolute && env.root_view() is Some && c.consistent_with(
                    uri_of(path@),
                    env.root_view()->0,
                ) && c.uri@.len() <= 0x0FFF_FFFF,
                Err(e) => {
                    &&& (e == ThumbError::InvalidSourcePath <==> !absolute)
                    &&& (e == ThumbError::CacheDirUnavailable <==> absolute && env.root_view()
                        is None)
                    &&& (e == ThumbError::InvalidSourcePath || e == ThumbError::CacheDirUnavailable)
                },
            }
        }),
{
    let uri = match file_uri_bytes(path) {
        Some(u) => u,
        None => {
            return Err(ThumbError::InvalidSourcePath);
        },
    };
    assert(uri@.len() <= 0x0FFF_FFFF);
    let mut root: Vec<u8> = Vec::new();
    match &env.xdg_cache_home {
        Some(x) => {
            append_bytes(&mut root, x);
            let mut seg: Vec<u8> = vec![47, 116, 104, 117, 109, 98, 110, 97, 105, 108, 115];
            assert(seg@ =~= seg_thumbnails());
            append_bytes(&mut root, &seg);
        },
        None => {
            match &env.home {
                Some(hm) => {
                    append_bytes(&mut root, hm);
                    let mut seg: Vec<u8> = vec![47, 46, 99, 97, 99, 104, 101];
                    assert(seg@ =~= seg_dot_cache());
                    append_bytes(&mut root, &seg);
                    let mut seg2: Vec<u8> = vec![
                        47,
                        116,
                        104,
                        117,
                        109,
                        98,
                        110,
                        97,
                        105,
                        108,
                        115,
                    ];
                    assert(seg2@ =~= seg_thumbnails());
                    append_bytes(&mut root, &seg2);
                },
                None => {
                    return Err(ThumbError::CacheDirUnavailable);
                },
            }
        },
    }
    assert(Some(root@) == env.root_view());
    let key = cache_key(&uri);
    let mut file_name = key;
    let mut suffix: Vec<u8> = vec![46, 112, 110, 103];
    assert(suffix@ =~= png_suffix());
    append_bytes(&mut file_name, &suffix);
    let mut normal_dir: Vec<u8> = Vec::new();
    append_bytes(&mut normal_dir, &root);
    let mut segn: Vec<u8> = vec![47, 110, 111, 114, 109, 97, 108];
    assert(segn@ =~= seg_normal());
    append_bytes(&mut normal_dir, &segn);
    let mut large_dir: Vec<u8> = Vec::new();
    append_bytes(&mut large_dir, &root);
    let mut segl: Vec<u8> = vec![47, 108, 97, 114, 103, 101];
    assert(segl@ =~= seg_large());
    append_bytes(&mut large_dir, &segl);
    let mut normal_path: Vec<u8> = Vec::new();
    append_bytes(&mut normal_path, &normal_dir);
    normal_path.push(47);
    append_bytes(&mut normal_path, &file_name);
    let mut large_path: Vec<u8> = Vec::new();
    append_bytes(&mut large_path, &large_dir);
    large_path.push(47);
    append_bytes(&mut large_path, &file_name);
    proof {
        assert(normal_path@ =~= root@ + seg_normal() + seq![47u8] + thumb_file_name_of(uri@));
        assert(large_path@ =~= root@ + seg_large() + seq![47u8] + thumb_file_name_of(uri@));
    }
    Ok(
        CachePlan {
            uri,
            file_name,
            root_dir: root,
            normal_dir,
            large_dir,
            normal_path,
            large_path,
        },
    )
}

} // verus!
