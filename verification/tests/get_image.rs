use image_rs::error::DomainError;
use image_rs::get_image::{
    cache_key_for, get_image_step, normalize_dsl, GetImageAction, GetImageEvent,
};
use image_rs::ports::CacheKey;

#[test]
fn etag_is_stable_for_same_inputs() {
    let k1 = CacheKey { content_hash: [1; 32], dsl_hash: [2; 32] };
    let k2 = CacheKey { content_hash: [1; 32], dsl_hash: [2; 32] };
    assert_eq!(k1.etag(), k2.etag());
    assert_eq!(k1.etag().len(), 130);
}

#[test]
fn etag_changes_with_dsl() {
    let k1 = CacheKey { content_hash: [1; 32], dsl_hash: [2; 32] };
    let k2 = CacheKey { content_hash: [1; 32], dsl_hash: [3; 32] };
    assert_ne!(k1.etag(), k2.etag());
}

#[test]
fn etag_is_quoted_lowercase_hex() {
    let k = CacheKey { content_hash: [0xAB; 32], dsl_hash: [0x0F; 32] };
    let e = k.etag();
    assert!(e.starts_with("\"abab"));
    assert!(e.ends_with("0f0f\""));
}

#[test]
fn dsl_is_normalized_before_hashing() {
    assert_eq!(normalize_dsl("  /resize,w_10/  "), "resize,w_10");
    let a = cache_key_for(b"image", "resize,w_10");
    let b = cache_key_for(b"image", " /resize,w_10/ ");
    assert_eq!(a, b);
}

#[test]
fn cache_key_hashes_source_with_sha256() {
    let k = cache_key_for(b"abc", "");
    // SHA-256("abc")
    let expected: [u8; 32] = [
        0xba, 0x78, 0x16, 0xbf, 0x8f, 0x01, 0xcf, 0xea, 0x41, 0x41, 0x40, 0xde, 0x5d, 0xae, 0x22,
        0x23, 0xb0, 0x03, 0x61, 0xa3, 0x96, 0x17, 0x7a, 0x9c, 0xb4, 0x10, 0xff, 0x61, 0xf2, 0x00,
        0x15, 0xad,
    ];
    assert_eq!(k.content_hash, expected);
    // SHA-256("")
    assert_eq!(k.dsl_hash[0], 0xe3);
    assert_eq!(k.dsl_hash[31], 0x55);
}

#[test]
fn different_dsl_gives_different_key() {
    let a = cache_key_for(b"image", "resize,w_10");
    let b = cache_key_for(b"image", "resize,w_20");
    assert_ne!(a.etag(), b.etag());
}

#[test]
fn get_request_steps() {
    let k = CacheKey { content_hash: [3; 32], dsl_hash: [4; 32] };

    match get_image_step::<&str>(GetImageEvent::SourceRead(Ok(k))) {
        GetImageAction::LookUp(x) => assert_eq!(x, k),
        _ => panic!("expected a cache lookup"),
    }
    match get_image_step::<&str>(GetImageEvent::SourceRead(Err(DomainError::invalid("no such key".to_string())))) {
        GetImageAction::Reply(Err(DomainError::InvalidArgument(m))) => assert_eq!(m, "no such key"),
        _ => panic!("expected the store error"),
    }
    match get_image_step(GetImageEvent::CacheLookedUp(k, Some("cached bytes"))) {
        GetImageAction::Reply(Ok(o)) => {
            assert_eq!(o.cache_key, k);
            assert!(o.cached);
            assert_eq!(o.elapsed_ms, 0);
            assert_eq!(o.result, "cached bytes");
        }
        _ => panic!("expected a cached reply"),
    }
    match get_image_step::<&str>(GetImageEvent::CacheLookedUp(k, None)) {
        GetImageAction::Process(x) => assert_eq!(x, k),
        _ => panic!("expected processing"),
    }
    match get_image_step(GetImageEvent::Processed(k, Ok(("fresh bytes", 42)))) {
        GetImageAction::StoreAndReply(o) => {
            assert_eq!(o.cache_key, k);
            assert!(!o.cached);
            assert_eq!(o.elapsed_ms, 42);
            assert_eq!(o.result, "fresh bytes");
        }
        _ => panic!("expected store and reply"),
    }
    match get_image_step::<&str>(GetImageEvent::Processed(k, Err(DomainError::Overloaded))) {
        GetImageAction::Reply(Err(DomainError::Overloaded)) => {}
        _ => panic!("expected the processing error"),
    }
}
