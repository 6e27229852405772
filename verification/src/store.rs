//! The local-filesystem source of `GET /v1/img/{key}`: which file a key
//! names, with the guard that keeps keys inside the store's root.
//!
//! Resolving links (`canonicalize`) reads the filesystem and is done by the
//! caller; [`FsImageStore::safe_join`] takes its results.

use vstd::prelude::*;
use crate::error::{DomainError, fails_invalid};
use crate::text::{trim_leading_slashes, trim_start};

verus! {

/// `Path::new(base).join(rel)`, as text.
pub uninterp spec fn joined_path(base: Seq<char>, rel: Seq<char>) -> Seq<char>;

/// `Path::new(path).starts_with(base)`: `base` is a prefix of `path`,
/// component by component.
pub uninterp spec fn path_has_prefix(path: Seq<char>, base: Seq<char>) -> bool;

/// `Path::new(path).components().count()`.
pub uninterp spec fn component_count(path: Seq<char>) -> usize;

/// Calls `Path::join` on UTF-8 paths. The contract claims only that the
/// joined path is a function of the two paths, named `joined_path`.
#[verifier::external_body]
fn join_path(base: &str, rel: &str) -> (r: String)
    ensures
        r@ == joined_path(base@, rel@),
{
    std::path::Path::new(base).join(rel).to_string_lossy().into_owned()
}

/// Calls `Path::starts_with`. The contract claims only that the answer is
/// a function of the two paths, named `path_has_prefix`.
#[verifier::external_body]
fn path_starts_with(path: &str, base: &str) -> (r: bool)
    ensures
        r == path_has_prefix(path@, base@),
{
    std::path::Path::new(path).starts_with(base)
}

/// Calls `Path::components` and counts them. The contract claims only that
/// the count is a function of the path, named `component_count`.
#[verifier::external_body]
fn count_components(path: &str) -> (r: usize)
    ensures
        r == component_count(path@),
{
    std::path::Path::new(path).components().count()
}

/// The text contains two consecutive dots.
pub open spec fn has_dot_dot(s: Seq<char>) -> bool {
    exists|k: int| 1 <= k < s.len() && s[k - 1] == '.' && #[trigger] s[k] == '.'
}

/// The text contains a NUL character.
pub open spec fn has_nul(s: Seq<char>) -> bool {
    exists|i: int| 0 <= i < s.len() && #[trigger] s[i] == '\0'
}

fn scan_key(key: &str) -> (r: (bool, bool))
    ensures
        r.0 == has_dot_dot(key@),
        r.1 == has_nul(key@),
{
    let n = key.unicode_len();
    let mut dots = false;
    let mut nul = false;
    let mut i: usize = 0;
    while i < n
        invariant
            n == key@.len(),
            i <= n,
            dots == exists|k: int| 1 <= k < i && key@[k - 1] == '.' && #[trigger] key@[k] == '.',
            nul == exists|j: int| 0 <= j < i && #[trigger] key@[j] == '\0',
        decreases n - i,
    {
        let c = key.get_char(i);
        if c == '\0' {
            nul = true;
        }
        if i > 0 && c == '.' && key.get_char(i - 1) == '.' {
            dots = true;
        }
        i = i + 1;
    }
    (dots, nul)
}

/// A path lies inside a root when it has at least as many components and
/// starts with the root.
pub open spec fn inside(path: Seq<char>, root: Seq<char>) -> bool {
    component_count(path) >= component_count(root) && path_has_prefix(path, root)
}

/// The path a key names under a root, or the message of the error that
/// refuses it: an empty key, a key holding `..` or NUL.
pub open spec fn candidate_model(root: Seq<char>, key: Seq<char>) -> Result<Seq<char>, Seq<char>> {
    if key.len() == 0 {
        Err("empty key"@)
    } else if has_dot_dot(key) || has_nul(key) {
        Err("invalid characters in key"@)
    } else {
        Ok(joined_path(root, trim_start(key, true)))
    }
}

/// Which file a key names, given what resolving links made of the root
/// and of the candidate path (`None` when it failed, as it does for a file
/// that does not exist): the resolved file when it lies under the resolved
/// root, else the candidate when it lies lexically inside the root.
pub open spec fn join_model(
    root: Seq<char>,
    key: Seq<char>,
    canonical_root: Option<Seq<char>>,
    canonical_candidate: Option<Seq<char>>,
) -> Result<Seq<char>, Seq<char>> {
    match candidate_model(root, key) {
        Err(m) => Err(m),
        Ok(cand) => {
            let root_real = match canonical_root {
                Some(r) => r,
                None => root,
            };
            match canonical_candidate {
                Some(resolved) => if path_has_prefix(resolved, root_real) {
                    Ok(resolved)
                } else {
                    Err("key escapes store root"@)
                },
                None => if inside(cand, root_real) {
                    Ok(cand)
                } else {
                    Err("key escapes store root"@)
                },
            }
        },
    }
}

pub open spec fn path_result(r: Result<String, DomainError>, m: Result<Seq<char>, Seq<char>>) -> bool {
    match m {
        Ok(p) => r matches Ok(s) && s@ == p,
        Err(msg) => fails_invalid(r, msg),
    }
}

/// Source images stored as files under a root directory.
pub struct FsImageStore {
    root: String,
}

impl FsImageStore {
    pub closed spec fn root_path(self) -> Seq<char> {
        self.root@
    }

    pub fn new(root: String) -> (s: Self)
        ensures
            s.root_path() == root@,
    {
        Self { root }
    }

    pub fn root(&self) -> (r: &str)
        ensures
            r@ == self.root_path(),
    {
        self.root.as_str()
    }

    /// The path a key names, before links are resolved. Keys are refused
    /// when they could escape the root: empty, or holding `..` or NUL;
    /// leading `/` are dropped.
    pub fn candidate(&self, key: &str) -> (r: Result<String, DomainError>)
        ensures
            path_result(r, candidate_model(self.root_path(), key@)),
    {
        if key.unicode_len() == 0 {
            return Err(DomainError::invalid(String::from_str("empty key")));
        }
        let (dots, nul) = scan_key(key);
        if dots || nul {
            return Err(DomainError::invalid(String::from_str("invalid characters in key")));
        }
        let trimmed = trim_leading_slashes(key);
        Ok(join_path(self.root.as_str(), trimmed))
    }

    /// The file a key names, given the resolved root and the resolved
    /// candidate path (see [`FsImageStore::candidate`]).
    pub fn safe_join(
        &self,
        key: &str,
        canonical_root: Option<String>,
        canonical_candidate: Option<String>,
    ) -> (r: Result<String, DomainError>)
        ensures
            path_result(
                r,
                join_model(
                    self.root_path(),
                    key@,
                    crate::dto::opt_view(canonical_root),
                    crate::dto::opt_view(canonical_candidate),
                ),
            ),
    {
        let cand = match self.candidate(key) {
            Ok(c) => c,
            Err(e) => {
                return Err(e);
            },
        };
        let root_real = match canonical_root {
            Some(r) => r,
            None => self.root.clone(),
        };
        match canonical_candidate {
            Some(resolved) => {
                if path_starts_with(resolved.as_str(), root_real.as_str()) {
                    Ok(resolved)
                } else {
                    Err(DomainError::invalid(String::from_str("key escapes store root")))
                }
            },
            None => {
                if Self::is_inside(cand.as_str(), root_real.as_str()) {
                    Ok(cand)
                } else {
                    Err(DomainError::invalid(String::from_str("key escapes store root")))
                }
            },
        }
    }

    /// Lexical containment: at least as many components, and starts with
    /// the root.
    pub fn is_inside(path: &str, root: &str) -> (b: bool)
        ensures
            b == inside(path@, root@),
    {
        count_components(path) >= count_components(root) && path_starts_with(path, root)
    }
}

/// What reading the file gave.
pub enum ReadOutcome {
    Found(Vec<u8>),
    NotFound,
    /// Another failure, with its description.
    Failed(String),
}

/// The answer of the store for a key: the file's bytes; a missing file is
/// a missing asset named by the key; any other failure is internal.
pub fn read_result(key: &str, outcome: ReadOutcome) -> (r: Result<Vec<u8>, DomainError>)
    ensures
        outcome matches ReadOutcome::Found(b) ==> (r matches Ok(v) && v@ == b@),
        outcome is NotFound ==> (r matches Err(e) && e matches DomainError::MissingAsset(m) && m@
            == key@),
        outcome matches ReadOutcome::Failed(d) ==> (r matches Err(e) && e matches DomainError::Internal(
            m,
        ) && m@ == "fs read "@ + key@ + ": "@ + d@),
{
    match outcome {
        ReadOutcome::Found(b) => Ok(b),
        ReadOutcome::NotFound => Err(DomainError::MissingAsset(String::from_str(key))),
        ReadOutcome::Failed(d) => {
            let a = crate::text::join2("fs read ", key);
            let b = crate::text::join2(a.as_str(), ": ");
            let m = crate::text::join2(b.as_str(), d.as_str());
            Err(DomainError::Internal(m))
        },
    }
}

/// A key is only ever answered with a path that starts with the (resolved)
/// root, and keys that are empty or hold `..` or NUL are refused.
pub proof fn resolved_paths_stay_under_root(
    root: Seq<char>,
    key: Seq<char>,
    canonical_root: Option<Seq<char>>,
    canonical_candidate: Option<Seq<char>>,
)
    ensures
        join_model(root, key, canonical_root, canonical_candidate) matches Ok(p) ==> {
            &&& path_has_prefix(
                p,
                match canonical_root {
                    Some(r) => r,
                    None => root,
                },
            )
            &&& key.len() > 0 && !has_dot_dot(key) && !has_nul(key)
        },
{
}

} // verus!
