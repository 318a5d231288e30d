//! The shared state's plain parts: how far the embedding model has come, and
//! the page the browser extension last reported.

use vstd::prelude::*;

verus! {

/// Where the embedding model stands.
#[derive(Debug, Clone, Copy, PartialEq, Eq, Structural)]
pub enum EmbeddingStatus {
    Deferred,
    Loading,
    Ready,
    Unavailable,
}

/// The name the shell is given for a status.
pub open spec fn status_label(s: EmbeddingStatus) -> Seq<char> {
    match s {
        EmbeddingStatus::Deferred => "deferred"@,
        EmbeddingStatus::Loading => "loading"@,
        EmbeddingStatus::Ready => "ready"@,
        EmbeddingStatus::Unavailable => "unavailable"@,
    }
}

impl EmbeddingStatus {
    pub fn label(self) -> (r: &'static str)
        ensures
            r@ == status_label(self),
    {
        match self {
            EmbeddingStatus::Deferred => "deferred",
            EmbeddingStatus::Loading => "loading",
            EmbeddingStatus::Ready => "ready",
            EmbeddingStatus::Unavailable => "unavailable",
        }
    }
}

/// The page the browser extension last reported, with the time it arrived
/// (milliseconds since the epoch).
#[derive(Debug, Clone)]
pub struct BrowserContext {
    pub url: String,
    pub title: String,
    pub timestamp: i64,
}

} // verus!
