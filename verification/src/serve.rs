//! The retrieval front-end's decisions. The HTTP layer outside the
//! library routes requests, streams files and renders status codes; it
//! asks these functions what a lookup's outcome means.

use vstd::prelude::*;

verus! {

/// What to do after a cache lookup.
#[derive(Debug, PartialEq)]
pub enum FileStep {
    /// The cache knows a path: realize it, then serve it.
    Realise(String),
    /// The cache knows nothing under this build-id.
    Refuse,
}

/// What a request is answered with.
#[derive(Debug, PartialEq)]
pub enum HttpReply {
    /// Serve the bytes of this file.
    FileAt(String),
    /// The artifact is not known, or cannot be produced any more.
    NotFound,
    /// The endpoint is deliberately not offered.
    NotImplemented,
}

/// A found path must be realized before it is trusted; a miss is final.
pub fn lookup_step(found: Option<String>) -> (r: FileStep)
    ensures
        (match found {
            Some(p) => r == FileStep::Realise(p),
            None => r == FileStep::Refuse,
        }),
{
    match found {
        Some(p) => FileStep::Realise(p),
        None => FileStep::Refuse,
    }
}

/// After realizing: a path the store produced is served; one it can no
/// longer produce is, for a debugger's purposes, not found.
pub fn realise_reply(path: String, realised: bool) -> (r: HttpReply)
    ensures
        r == if realised {
            HttpReply::FileAt(path)
        } else {
            HttpReply::NotFound
        },
{
    if realised {
        HttpReply::FileAt(path)
    } else {
        HttpReply::NotFound
    }
}

/// A miss, a realize failure, or a file absent from a source tree.
pub fn refuse_reply() -> (r: HttpReply)
    ensures
        r == HttpReply::NotFound,
{
    HttpReply::NotFound
}

/// The section endpoint is deliberately not offered.
pub fn section_reply() -> (r: HttpReply)
    ensures
        r == HttpReply::NotImplemented,
{
    HttpReply::NotImplemented
}

} // verus!
