use thumbcache::address::cache_key;
use thumbcache::address::cache_plan;
use thumbcache::address::CacheEnv;
use thumbcache::ThumbError;

#[test]
fn cache_key_matches_known_digest() {
    let key = cache_key(&b"abc".to_vec());
    assert_eq!(key, b"900150983cd24fb0d6963f7d28e17f72".to_vec());
    let key = cache_key(&Vec::new());
    assert_eq!(key, b"d41d8cd98f00b204e9800998ecf8427e".to_vec());
}

#[test]
fn cache_key_is_deterministic() {
    let uri = b"file:///tmp/a.png".to_vec();
    assert_eq!(cache_key(&uri), cache_key(&uri));
    assert_eq!(cache_key(&uri), b"a04bfd79b77efaccf5f6adb271b86f1e".to_vec());
    assert_ne!(cache_key(&uri), cache_key(&b"file:///tmp/b.png".to_vec()));
}

#[test]
fn cache_plan_under_cache_home() {
    let env = CacheEnv {
        xdg_cache_home: Some(b"/c".to_vec()),
        home: Some(b"/home/u".to_vec()),
    };
    let plan = cache_plan("/tmp/a.png", &env).unwrap();
    assert_eq!(plan.uri, b"file:///tmp/a.png".to_vec());
    assert_eq!(
        plan.file_name,
        b"a04bfd79b77efaccf5f6adb271b86f1e.png".to_vec()
    );
    assert_eq!(plan.root_dir, b"/c/thumbnails".to_vec());
    assert_eq!(plan.normal_dir, b"/c/thumbnails/normal".to_vec());
    assert_eq!(plan.large_dir, b"/c/thumbnails/large".to_vec());
    assert_eq!(
        plan.normal_path,
        b"/c/thumbnails/normal/a04bfd79b77efaccf5f6adb271b86f1e.png".to_vec()
    );
    assert_eq!(
        plan.large_path,
        b"/c/thumbnails/large/a04bfd79b77efaccf5f6adb271b86f1e.png".to_vec()
    );
}

#[test]
fn cache_plan_falls_back_to_home() {
    let env = CacheEnv {
        xdg_cache_home: None,
        home: Some(b"/home/u".to_vec()),
    };
    let plan = cache_plan("/tmp/a.png", &env).unwrap();
    assert_eq!(plan.root_dir, b"/home/u/.cache/thumbnails".to_vec());
}

#[test]
fn cache_plan_without_cache_location_fails() {
    let env = CacheEnv {
        xdg_cache_home: None,
        home: None,
    };
    assert!(matches!(
        cache_plan("/tmp/a.png", &env),
        Err(ThumbError::CacheDirUnavailable)
    ));
}

#[test]
fn cache_plan_rejects_relative_path() {
    let env = CacheEnv {
        xdg_cache_home: Some(b"/c".to_vec()),
        home: None,
    };
    assert!(matches!(
        cache_plan("tmp/a.png", &env),
        Err(ThumbError::InvalidSourcePath)
    ));
    assert!(matches!(cache_plan("", &env), Err(ThumbError::InvalidSourcePath)));
}

#[test]
fn percent_encoding_reaches_the_uri() {
    let env = CacheEnv {
        xdg_cache_home: Some(b"/c".to_vec()),
        home: None,
    };
    let plan = cache_plan("/tmp/a b.png", &env).unwrap();
    assert_eq!(plan.uri, b"file:///tmp/a%20b.png".to_vec());
}
