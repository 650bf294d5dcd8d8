//! The unified error taxonomy of the pipeline.
//!
//! Platform-specific failures are turned into these variants at the
//! paginator and source boundaries; platform errors never cross into the
//! platform-agnostic code.

use vstd::prelude::*;

verus! {

/// Every way a scrape can fail.
///
/// Only an HTTP response with a 5xx status is transient; everything else
/// is fatal and is never retried.
#[derive(Clone, Copy, Debug, PartialEq, Eq, Structural)]
pub enum ScrapeError {
    /// The remote answered with an HTTP error status (4xx or 5xx).
    HttpStatus { status: u16 },
    /// The remote could not be reached, or the transport failed
    /// before any status was seen.
    Network,
    /// A response body, or a field inside one (a date, a number),
    /// could not be parsed.
    MalformedResponse,
    /// A paginated response lacked the header that declares the total
    /// number of items.
    MissingTotalHeader,
    /// A paginated response lacked the header that declares the total
    /// number of pages.
    MissingTotalPagesHeader,
    /// A stream ended with a different number of items than the
    /// platform declared.
    CountMismatch { expected: usize, seen: usize },
    /// A post referenced an author id absent from the resolved author map.
    UnknownAuthor { id: u64 },
    /// A listed post belonged to a different publication than the one
    /// being scraped.
    PublicationMismatch { wanted: u64, found: u64 },
    /// The publication search did not return the publication that the
    /// queried domain belongs to.
    PublicationNotFound,
    /// The retry cap was configured as zero, so no attempt was allowed.
    NoAttemptsAllowed,
    /// No platform probe succeeded for the given URL.
    UnknownBlogType,
}

impl ScrapeError {
    /// A failure is retryable exactly when it is an HTTP response with a
    /// 5xx status.
    pub open spec fn spec_is_transient(self) -> bool {
        match self {
            ScrapeError::HttpStatus { status } => 500 <= status < 600,
            _ => false,
        }
    }

    pub fn is_transient(&self) -> (r: bool)
        ensures
            r == self.spec_is_transient(),
    {
        match *self {
            ScrapeError::HttpStatus { status } => 500 <= status && status < 600,
            _ => false,
        }
    }
}

} // verus!
