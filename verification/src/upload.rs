//! The parts of a multipart upload and the assets handed to the ops.
//!
//! * `file`   — the primary image
//! * `ops`    — JSON for the unified `/v1/process` pipeline
//! * `output` — JSON output spec for `/v1/process`
//! * any other named field is a binary asset (e.g. a watermark) keyed by
//!   its field name; a later field of the same name replaces an earlier one.
//!
//! The type parameter `B` is the byte buffer of a part.

use vstd::prelude::*;
use crate::error::{DomainError, fails_invalid};
use crate::names::NameMap;
use crate::text::str_eq;

verus! {

/// The parts of an upload, sorted by field name.
pub struct ImageUpload<B> {
    /// The `file` field, when one was sent.
    pub primary: Option<B>,
    pub assets: NameMap<B>,
    pub ops_json: Option<B>,
    pub output_json: Option<B>,
}

impl<B> ImageUpload<B> {
    pub fn new() -> (u: Self)
        ensures
            u.primary is None,
            u.ops_json is None,
            u.output_json is None,
            u.assets.map() == Map::<Seq<char>, B>::empty(),
    {
        Self { primary: None, assets: NameMap::new(), ops_json: None, output_json: None }
    }

    /// Files one field of the multipart body; a field without a name is
    /// dropped.
    pub fn add_field(&mut self, name: Option<String>, bytes: B)
        ensures
            name is None ==> *final(self) == *old(self),
            name matches Some(n) ==> final(self).primary == (if n@ == "file"@ {
                Some(bytes)
            } else {
                old(self).primary
            }),
            name matches Some(n) ==> final(self).ops_json == (if n@ == "ops"@ {
                Some(bytes)
            } else {
                old(self).ops_json
            }),
            name matches Some(n) ==> final(self).output_json == (if n@ == "output"@ {
                Some(bytes)
            } else {
                old(self).output_json
            }),
            name matches Some(n) ==> final(self).assets.map() == (if n@ == "file"@ || n@ == "ops"@
                || n@ == "output"@ {
                old(self).assets.map()
            } else {
                old(self).assets.map().insert(n@, bytes)
            }),
    {
        proof {
            reveal_strlit("file");
            reveal_strlit("ops");
            reveal_strlit("output");
            assert("file"@.len() == 4 && "ops"@.len() == 3 && "output"@.len() == 6);
        }
        match name {
            None => {},
            Some(n) => {
                if str_eq(n.as_str(), "file") {
                    self.primary = Some(bytes);
                } else if str_eq(n.as_str(), "ops") {
                    self.ops_json = Some(bytes);
                } else if str_eq(n.as_str(), "output") {
                    self.output_json = Some(bytes);
                } else {
                    self.assets.insert(n, bytes);
                }
            },
        }
    }

    /// The primary image, which most endpoints require.
    pub fn primary_required(&self) -> (r: Result<&B, DomainError>)
        ensures
            self.primary matches Some(p) ==> (r matches Ok(b) && *b == p),
            self.primary is None ==> fails_invalid(r, "missing 'file' field"@),
    {
        match &self.primary {
            Some(p) => Ok(p),
            None => Err(DomainError::invalid(String::from_str("missing 'file' field"))),
        }
    }

    /// Takes a named field out of the assets, for endpoints that take
    /// several named images.
    pub fn take_named(&mut self, name: &str) -> (r: Option<B>)
        ensures
            old(self).assets.map().dom().contains(name@) ==> r == Some(
                old(self).assets.map()[name@],
            ),
            !old(self).assets.map().dom().contains(name@) ==> r is None,
            final(self).assets.map() == old(self).assets.map().remove(name@),
            final(self).primary == old(self).primary,
            final(self).ops_json == old(self).ops_json,
            final(self).output_json == old(self).output_json,
    {
        self.assets.remove(name)
    }
}

/// Why the two images of a diff cannot be had: the message of the error,
/// `None` when both are there.
pub open spec fn diff_inputs_missing<B>(assets: Map<Seq<char>, B>, primary: Option<B>) -> Option<
    Seq<char>,
> {
    if !assets.dom().contains("before"@) && primary is None {
        Some("missing 'before' field"@)
    } else if !assets.dom().contains("after"@) {
        Some("missing 'after' field"@)
    } else {
        None
    }
}

impl<B: Clone> ImageUpload<B> {
    /// Takes the two images of a diff out of the upload: the `before`
    /// field, or else a copy of the primary image, and the `after` field.
    pub fn take_diff_inputs(&mut self) -> (r: Result<(B, B), DomainError>)
        ensures
            diff_inputs_missing(old(self).assets.map(), old(self).primary) matches Some(m)
                ==> fails_invalid(r, m),
            diff_inputs_missing(old(self).assets.map(), old(self).primary) is None ==> (r matches Ok(
                q,
            ) && q.1 == old(self).assets.map()["after"@] && (if old(
                self,
            ).assets.map().dom().contains("before"@) {
                q.0 == old(self).assets.map()["before"@]
            } else {
                cloned::<B>(old(self).primary.unwrap(), q.0)
            })),
            r is Ok ==> final(self).assets.map() == old(self).assets.map().remove("before"@).remove(
                "after"@,
            ),
            r is Err ==> final(self).assets.map() == old(self).assets.map().remove("before"@),
            final(self).primary == old(self).primary,
    {
        proof {
            reveal_strlit("before");
            reveal_strlit("after");
            assert("before"@.len() == 6 && "after"@.len() == 5);
        }
        let before = match self.take_named("before") {
            Some(b) => b,
            None => match &self.primary {
                Some(p) => p.clone(),
                None => {
                    return Err(DomainError::invalid(String::from_str("missing 'before' field")));
                },
            },
        };
        let after = match self.take_named("after") {
            Some(a) => a,
            None => {
                return Err(DomainError::invalid(String::from_str("missing 'after' field")));
            },
        };
        Ok((before, after))
    }
}

/// What each op may read besides the image: the assets of the upload.
pub struct OpContext<B> {
    pub assets: NameMap<B>,
}

impl<B> OpContext<B> {
    pub fn new(assets: NameMap<B>) -> (c: Self)
        ensures
            c.assets.map() == assets.map(),
    {
        Self { assets }
    }

    /// An empty context.
    pub fn empty() -> (c: Self)
        ensures
            c.assets.map() == Map::<Seq<char>, B>::empty(),
    {
        Self { assets: NameMap::new() }
    }

    /// The asset an op names; a missing one is reported by name.
    pub fn asset(&self, name: &str) -> (r: Result<&B, DomainError>)
        ensures
            self.assets.map().dom().contains(name@) ==> (r matches Ok(b) && *b
                == self.assets.map()[name@]),
            !self.assets.map().dom().contains(name@) ==> (r matches Err(e) && e matches DomainError::MissingAsset(
                m,
            ) && m@ == name@),
    {
        match self.assets.get(name) {
            Some(b) => Ok(b),
            None => Err(DomainError::MissingAsset(String::from_str(name))),
        }
    }
}

} // verus!
