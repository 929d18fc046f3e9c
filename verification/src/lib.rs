//! Render-stabilization and content-selection engine.
//!
//! The library decides when a remotely rendered page has settled (the
//! stabilization poller), picks the subtree most likely to hold the primary
//! content (the content selector), recognizes social status-page URLs that
//! take a fixed-selector fast path, and normalizes the winning fragment to
//! clean plain text.  All network and session I/O stays with the caller: the
//! poller is a pure state machine fed one snapshot event per round.
use vstd::prelude::*;

pub mod fastpath;
pub mod normalize;
pub mod poller;
pub mod selector;

verus! {

/// Fatal conditions of an extraction, closed so that callers can branch on
/// the kind.  A missing element during polling is not an error: the poller
/// absorbs it as a miss.  Exhausting the retry budget is not an error either:
/// it yields a degraded result, not a failure.
pub enum ExtractError {
    /// The rendering session failed to load the target URL.
    Navigation(String),
    /// The rendering session could not be released after extraction.
    SessionClose(String),
}

impl ExtractError {
    /// The detail message carried by the error.
    pub fn detail(&self) -> (r: &String)
        ensures
            r@ == match self {
                ExtractError::Navigation(m) => m@,
                ExtractError::SessionClose(m) => m@,
            },
    {
        match self {
            ExtractError::Navigation(m) => m,
            ExtractError::SessionClose(m) => m,
        }
    }

    /// Whether the error is fatal to the extraction result.  A close failure
    /// must not override content already obtained; a navigation failure must.
    pub fn overrides_result(&self) -> (r: bool)
        ensures
            r == (self matches ExtractError::Navigation(_)),
    {
        match self {
            ExtractError::Navigation(_) => true,
            ExtractError::SessionClose(_) => false,
        }
    }
}

} // verus!
