//! The configuration surface that the pipeline consumes.

use vstd::prelude::*;

verus! {

/// Settings handed to the pipeline: platform API key, the base URL under
/// which feed ids are minted, the output directory for rendered feeds,
/// the retry attempt cap, and the optional bound on rendered entries.
pub struct Config {
    pub blogger_api_key: String,
    pub feed_url_base: String,
    pub feed_path: String,
    pub max_retries: usize,
    pub max_entries: Option<usize>,
}

impl core::default::Default for Config {
    /// Empty strings, five retry attempts, and no bound on the rendered
    /// feed length.
    fn default() -> (c: Config)
        ensures
            c.blogger_api_key@ == Seq::<char>::empty(),
            c.feed_url_base@ == Seq::<char>::empty(),
            c.feed_path@ == Seq::<char>::empty(),
            c.max_retries == 5usize,
            c.max_entries is None,
    {
        Config {
            blogger_api_key: String::new(),
            feed_url_base: String::new(),
            feed_path: String::new(),
            max_retries: 5,
            max_entries: None,
        }
    }
}

} // verus!
