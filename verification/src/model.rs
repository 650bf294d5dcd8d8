//! The normalized data model: feed identity and normalized entries.

use vstd::prelude::*;
use vstd::string::StringExecFns;

verus! {

/// The public identity of a feed, created once per blog at first scrape.
///
/// `key` is the sanitized slug of the human title and `id` is
/// `base_url/key`; both stay stable once computed.
pub struct FeedData {
    pub id: String,
    pub key: String,
    pub title: String,
    pub url: String,
}

impl Clone for FeedData {
    fn clone(&self) -> (r: Self)
        ensures
            r == *self,
    {
        FeedData {
            id: self.id.clone(),
            key: self.key.clone(),
            title: self.title.clone(),
            url: self.url.clone(),
        }
    }
}

/// One author credited on an entry.
pub struct AuthorRef {
    pub name: String,
    pub uri: Option<String>,
}

impl Clone for AuthorRef {
    fn clone(&self) -> (r: Self)
        ensures
            r == *self,
    {
        AuthorRef {
            name: self.name.clone(),
            uri: match &self.uri {
                Some(u) => Some(u.clone()),
                None => None,
            },
        }
    }
}

/// One post or page, normalized across platforms and ready for feed
/// rendering. `id` is `feed_id/source_post_id`, unique within a feed.
/// `published` keys the pending queue; `updated` is rewritten to the
/// materialization time when the entry reaches the rendered feed.
pub struct NormalizedEntry {
    pub id: String,
    pub title: String,
    pub published: i64,
    pub updated: i64,
    pub authors: Vec<AuthorRef>,
    pub content_html: Option<String>,
    pub link: String,
}

impl Clone for NormalizedEntry {
    fn clone(&self) -> (r: Self)
        ensures
            r.id == self.id,
            r.title == self.title,
            r.published == self.published,
            r.updated == self.updated,
            r.authors@ == self.authors@,
            r.content_html == self.content_html,
            r.link == self.link,
    {
        let mut authors: Vec<AuthorRef> = Vec::new();
        let mut i: usize = 0;
        while i < self.authors.len()
            invariant
                i <= self.authors.len(),
                authors@ == self.authors@.take(i as int),
            decreases self.authors.len() - i,
        {
            authors.push(self.authors[i].clone());
            proof {
                assert(authors@ =~= self.authors@.take(i + 1));
            }
            i = i + 1;
        }
        proof {
            assert(self.authors@.take(self.authors@.len() as int) =~= self.authors@);
        }
        NormalizedEntry {
            id: self.id.clone(),
            title: self.title.clone(),
            published: self.published,
            updated: self.updated,
            authors,
            content_html: match &self.content_html {
                Some(c) => Some(c.clone()),
                None => None,
            },
            link: self.link.clone(),
        }
    }
}

/// Builds the stable identity of a feed from the remote title and URL
/// and the configured base under which feed ids are minted.
pub fn make_feed_identity(title: &str, url: &str, base: &str) -> (r: FeedData)
    ensures
        r.key@ == crate::keys::spec_sanitize(title@),
        r.id@ == base@ + "/"@ + crate::keys::spec_sanitize(title@),
        r.title@ == title@,
        r.url@ == url@,
{
    let key = crate::keys::sanitize_blog_key(title);
    let mut id = base.to_owned();
    id.append("/");
    id.append(key.as_str());
    FeedData { id, key, title: title.to_owned(), url: url.to_owned() }
}

/// The path of the rendered Atom file for a feed: the configured output
/// directory, the feed key, and the `atom` extension.
pub fn path_from_feed_data(config: &crate::config::Config, f: &FeedData) -> (r: String)
    ensures
        r@ == config.feed_path@ + "/"@ + f.key@ + ".atom"@,
{
    let mut p = config.feed_path.clone();
    p.append("/");
    p.append(f.key.as_str());
    p.append(".atom");
    p
}

} // verus!
