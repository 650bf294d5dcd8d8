//! The polymorphic blog source and the platform detector.
//!
//! A blog lives on exactly one of the supported platforms. The
//! detector probes each platform's discovery endpoint in a fixed
//! priority order and picks the first that answers; the source then
//! carries the platform's metadata and derives the feed identity
//! without further network work.

use vstd::prelude::*;

use crate::blogger::BloggerMeta;
use crate::config::Config;
use crate::errors::ScrapeError;
use crate::keys::spec_sanitize;
use crate::model::make_feed_identity;
use crate::model::FeedData;
use crate::substack::SubstackMeta;

verus! {

/// The closed set of supported platforms.
#[derive(Clone, Copy, Debug, PartialEq, Eq, Structural)]
pub enum BlogType {
    Blogger,
    Wordpress,
    Substack,
}

/// Picks the platform for a URL from the probe outcomes, in the fixed
/// priority order WordPress, then Blogger, then Substack; a URL no
/// probe recognizes has no determinable blog type.
pub fn detect_blog_type(wordpress_ok: bool, blogger_ok: bool, substack_ok: bool) -> (r: Result<
    BlogType,
    ScrapeError,
>)
    ensures
        wordpress_ok ==> r == Ok::<BlogType, ScrapeError>(BlogType::Wordpress),
        !wordpress_ok && blogger_ok ==> r == Ok::<BlogType, ScrapeError>(BlogType::Blogger),
        !wordpress_ok && !blogger_ok && substack_ok ==> r == Ok::<BlogType, ScrapeError>(
            BlogType::Substack,
        ),
        !wordpress_ok && !blogger_ok && !substack_ok ==> r == Err::<BlogType, ScrapeError>(
            ScrapeError::UnknownBlogType,
        ),
{
    if wordpress_ok {
        Ok(BlogType::Wordpress)
    } else if blogger_ok {
        Ok(BlogType::Blogger)
    } else if substack_ok {
        Ok(BlogType::Substack)
    } else {
        Err(ScrapeError::UnknownBlogType)
    }
}

/// One detected blog: the platform's own metadata, as its discovery
/// endpoint answered it.
pub enum BlogSource {
    Blogger { meta: BloggerMeta },
    Wordpress { name: String, home: String },
    Substack { meta: SubstackMeta, url: String },
}

impl BlogSource {
    pub fn blog_type(&self) -> (r: BlogType)
        ensures
            r == (match *self {
                BlogSource::Blogger { .. } => BlogType::Blogger,
                BlogSource::Wordpress { .. } => BlogType::Wordpress,
                BlogSource::Substack { .. } => BlogType::Substack,
            }),
    {
        match self {
            BlogSource::Blogger { .. } => BlogType::Blogger,
            BlogSource::Wordpress { .. } => BlogType::Wordpress,
            BlogSource::Substack { .. } => BlogType::Substack,
        }
    }

    /// Derives the feed's public identity from the platform metadata:
    /// pure derivation, no network work. On every platform the key is
    /// the sanitized slug of the human title, and the id is minted
    /// under the configured base URL.
    pub fn feed_data(&self, config: &Config) -> (r: FeedData)
        ensures
            match *self {
                BlogSource::Blogger { meta } => {
                    &&& r.key@ == spec_sanitize(meta.name@)
                    &&& r.id@ == config.feed_url_base@ + "/"@ + spec_sanitize(meta.name@)
                    &&& r.title@ == meta.name@
                    &&& r.url@ == meta.url@
                },
                BlogSource::Wordpress { name, home } => {
                    &&& r.key@ == spec_sanitize(name@)
                    &&& r.id@ == config.feed_url_base@ + "/"@ + spec_sanitize(name@)
                    &&& r.title@ == name@
                    &&& r.url@ == home@
                },
                BlogSource::Substack { meta, url } => {
                    &&& r.key@ == spec_sanitize(meta.name@)
                    &&& r.id@ == config.feed_url_base@ + "/"@ + spec_sanitize(meta.name@)
                    &&& r.title@ == meta.name@
                    &&& r.url@ == url@
                },
            },
    {
        match self {
            BlogSource::Blogger { meta } => make_feed_identity(
                meta.name.as_str(),
                meta.url.as_str(),
                config.feed_url_base.as_str(),
            ),
            BlogSource::Wordpress { name, home } => make_feed_identity(
                name.as_str(),
                home.as_str(),
                config.feed_url_base.as_str(),
            ),
            BlogSource::Substack { meta, url } => make_feed_identity(
                meta.name.as_str(),
                url.as_str(),
                config.feed_url_base.as_str(),
            ),
        }
    }
}

} // verus!
