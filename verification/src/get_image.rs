//! The pure part of `GET /v1/img/{key}?p=...`: the command, DSL
//! normalization, and the cache key `(sha256(source), sha256(normalized dsl))`.

use vstd::prelude::*;
use sha2::{Digest, Sha256};
use crate::error::DomainError;
use crate::ports::{CacheKey, etag_text};
use crate::text::{trim_chars, trim_both, owned, is_white_space, trimmed_char, lemma_trim_both_padding};
use crate::url_dsl::{dsl_model, dsl_ignores_outer_slashes};
use vstd::utf8::encode_utf8;

verus! {

pub struct GetImageCommand {
    pub key: String,
    pub dsl: String,
}

/// The SHA-256 digest of a byte string.
pub uninterp spec fn sha256_digest(data: Seq<u8>) -> Seq<u8>;

/// Calls `sha2::Sha256` (`new`, `update`, `finalize`). The contract claims
/// only that the 32 bytes returned are a function of the input, named
/// `sha256_digest`; the digest algorithm itself is not specified here.
#[verifier::external_body]
fn sha256(bytes: &[u8]) -> (r: [u8; 32])
    ensures
        r@ == sha256_digest(bytes@),
{
    let mut h = Sha256::new();
    h.update(bytes);
    h.finalize().into()
}

/// Whitespace trimmed, then leading and trailing slashes.
pub open spec fn normalized_dsl(s: Seq<char>) -> Seq<char> {
    trim_both(trim_both(s, false), true)
}

/// Trim whitespace and any leading/trailing slashes so cosmetically
/// different DSL strings hash to the same key.
pub fn normalize_dsl(s: &str) -> (r: String)
    ensures
        r@ == normalized_dsl(s@),
{
    owned(trim_chars(trim_chars(s, false), true))
}

/// The cache key of a source image and a DSL string.
pub open spec fn cache_key_of(source: Seq<u8>, dsl: Seq<char>) -> (Seq<u8>, Seq<u8>) {
    (sha256_digest(source), sha256_digest(encode_utf8(normalized_dsl(dsl))))
}

/// Hashes the source bytes and the normalized DSL.
pub fn cache_key_for(source: &[u8], dsl: &str) -> (k: CacheKey)
    ensures
        (k.content_hash@, k.dsl_hash@) == cache_key_of(source@, dsl@),
{
    let content_hash = sha256(source);
    let normalized = normalize_dsl(dsl);
    let dsl_hash = sha256(normalized.as_str().as_bytes());
    CacheKey { content_hash, dsl_hash }
}

// ─── the request, step by step ───────────────────────────────────────────────

/// The answer to a GET request: the cache key, whether the result came from
/// the cache, how long processing took, and the result.
pub struct GetImageOutcome<R> {
    pub cache_key: CacheKey,
    pub cached: bool,
    pub elapsed_ms: u64,
    pub result: R,
}

/// What a GET request has learnt so far.
pub enum GetImageEvent<R> {
    /// The source image was read and its cache key computed, or reading it
    /// failed.
    SourceRead(Result<CacheKey, DomainError>),
    /// The cache was asked for the key: `Some` on a hit.
    CacheLookedUp(CacheKey, Option<R>),
    /// On a miss, the DSL was parsed and the source processed: the result
    /// and the milliseconds it took, or the error that stopped it.
    Processed(CacheKey, Result<(R, u64), DomainError>),
}

/// What a GET request does next.
pub enum GetImageAction<R> {
    /// Ask the cache for this key.
    LookUp(CacheKey),
    /// Parse the DSL and process the source.
    Process(CacheKey),
    /// Put `result` into the cache under `cache_key`, then answer with the
    /// outcome.
    StoreAndReply(GetImageOutcome<R>),
    /// Answer with this, storing nothing.
    Reply(Result<GetImageOutcome<R>, DomainError>),
}

/// The next step of a GET request: once the source is read, look its key
/// up; a hit is answered from the cache at once (0 ms); a miss is processed,
/// and what processing gives is stored and answered; an error of the store,
/// the DSL or processing is answered unchanged.
pub fn get_image_step<R>(event: GetImageEvent<R>) -> (a: GetImageAction<R>)
    ensures
        match event {
            GetImageEvent::SourceRead(Ok(k)) => a == GetImageAction::<R>::LookUp(k),
            GetImageEvent::SourceRead(Err(e)) => a == GetImageAction::<R>::Reply(Err(e)),
            GetImageEvent::CacheLookedUp(k, Some(hit)) => a == GetImageAction::Reply(
                Ok((GetImageOutcome { cache_key: k, cached: true, elapsed_ms: 0, result: hit })),
            ),
            GetImageEvent::CacheLookedUp(k, None) => a == GetImageAction::<R>::Process(k),
            GetImageEvent::Processed(k, Ok((res, ms))) => a == GetImageAction::StoreAndReply(
                (GetImageOutcome { cache_key: k, cached: false, elapsed_ms: ms, result: res }),
            ),
            GetImageEvent::Processed(_, Err(e)) => a == GetImageAction::<R>::Reply(Err(e)),
        },
{
    match event {
        GetImageEvent::SourceRead(Ok(k)) => GetImageAction::LookUp(k),
        GetImageEvent::SourceRead(Err(e)) => GetImageAction::Reply(Err(e)),
        GetImageEvent::CacheLookedUp(k, Some(hit)) => GetImageAction::Reply(
            Ok(GetImageOutcome { cache_key: k, cached: true, elapsed_ms: 0, result: hit }),
        ),
        GetImageEvent::CacheLookedUp(k, None) => GetImageAction::Process(k),
        GetImageEvent::Processed(k, Ok((res, ms))) => GetImageAction::StoreAndReply(
            GetImageOutcome { cache_key: k, cached: false, elapsed_ms: ms, result: res },
        ),
        GetImageEvent::Processed(_, Err(e)) => GetImageAction::Reply(Err(e)),
    }
}

proof fn lemma_trim_ws_identity(s: Seq<char>)
    requires
        s.len() == 0 || (!is_white_space(s[0]) && !is_white_space(s.last())),
    ensures
        trim_both(s, false) == s,
{
    assert(crate::text::trim_start(s, false) == s);
    assert(crate::text::trim_end(s, false) == s);
}

/// Normalizing a DSL for its cache key keeps its meaning, when it has no
/// whitespace at either end: the normalized text parses as the original.
/// (With outer whitespace the two differ: the parser reads ` resize,w_10`
/// as the unknown op ` resize`, while its normalized form is a resize.)
pub proof fn normalized_dsl_keeps_meaning(s: Seq<char>)
    requires
        s.len() == 0 || (!is_white_space(s[0]) && !is_white_space(s.last())),
    ensures
        dsl_model(normalized_dsl(s)) == dsl_model(s),
{
    lemma_trim_ws_identity(s);
    dsl_ignores_outer_slashes(s);
}

/// Two DSL texts without outer whitespace that share a cache key's DSL
/// part (the same normalized text) ask for the same result.
pub proof fn same_normalized_dsl_same_meaning(s1: Seq<char>, s2: Seq<char>)
    requires
        s1.len() == 0 || (!is_white_space(s1[0]) && !is_white_space(s1.last())),
        s2.len() == 0 || (!is_white_space(s2[0]) && !is_white_space(s2.last())),
        normalized_dsl(s1) == normalized_dsl(s2),
    ensures
        dsl_model(s1) == dsl_model(s2),
{
    normalized_dsl_keeps_meaning(s1);
    normalized_dsl_keeps_meaning(s2);
}

/// Whitespace around a DSL text does not change the cache key.
pub proof fn cache_key_ignores_outer_whitespace(
    source: Seq<u8>,
    w1: Seq<char>,
    s: Seq<char>,
    w2: Seq<char>,
)
    requires
        forall|i: int| 0 <= i < w1.len() ==> is_white_space(#[trigger] w1[i]),
        forall|i: int| 0 <= i < w2.len() ==> is_white_space(#[trigger] w2[i]),
    ensures
        cache_key_of(source, w1 + s + w2) == cache_key_of(source, s),
{
    assert forall|i: int| 0 <= i < w1.len() implies trimmed_char(false, #[trigger] w1[i]) by {
        assert(is_white_space(w1[i]));
    }
    assert forall|i: int| 0 <= i < w2.len() implies trimmed_char(false, #[trigger] w2[i]) by {
        assert(is_white_space(w2[i]));
    }
    lemma_trim_both_padding(w1, s, w2, false);
}

/// Slashes around a DSL text without outer whitespace do not change the
/// cache key.
pub proof fn cache_key_ignores_outer_slashes(
    source: Seq<u8>,
    p1: Seq<char>,
    s: Seq<char>,
    p2: Seq<char>,
)
    requires
        forall|i: int| 0 <= i < p1.len() ==> #[trigger] p1[i] == '/',
        forall|i: int| 0 <= i < p2.len() ==> #[trigger] p2[i] == '/',
        s.len() == 0 || (!is_white_space(s[0]) && !is_white_space(s.last())),
    ensures
        cache_key_of(source, p1 + s + p2) == cache_key_of(source, s),
{
    let x = p1 + s + p2;
    assert(!is_white_space('/'));
    if x.len() > 0 {
        if p1.len() > 0 {
            assert(x[0] == p1[0]);
        } else if s.len() > 0 {
            assert(x[0] == s[0]);
        } else {
            assert(x[0] == p2[0]);
        }
        if p2.len() > 0 {
            assert(x.last() == p2.last());
        } else if s.len() > 0 {
            assert(x.last() == s.last());
        } else {
            assert(x.last() == p1.last());
        }
    }
    lemma_trim_ws_identity(x);
    lemma_trim_ws_identity(s);
    assert forall|i: int| 0 <= i < p1.len() implies trimmed_char(true, #[trigger] p1[i]) by {
        assert(p1[i] == '/');
    }
    assert forall|i: int| 0 <= i < p2.len() implies trimmed_char(true, #[trigger] p2[i]) by {
        assert(p2[i] == '/');
    }
    lemma_trim_both_padding(p1, s, p2, true);
}

/// The ETag of a cached result is stable: requests for the same source
/// bytes and the same normalized DSL text get the same ETag, in any
/// process.
pub proof fn etag_stable_for_same_request(
    k1: CacheKey,
    k2: CacheKey,
    source: Seq<u8>,
    dsl1: Seq<char>,
    dsl2: Seq<char>,
)
    requires
        (k1.content_hash@, k1.dsl_hash@) == cache_key_of(source, dsl1),
        (k2.content_hash@, k2.dsl_hash@) == cache_key_of(source, dsl2),
        normalized_dsl(dsl1) == normalized_dsl(dsl2),
    ensures
        etag_text(k1) == etag_text(k2),
{
}

} // verus!
