//! The Blogger paginator.
//!
//! Blogger pagination is driven by an opaque `nextPageToken`: a batch
//! without one ends the stream. Posts and pages are two separate
//! endpoints, queried as two sequential sub-streams, and the expected
//! totals come from the one-time blog-metadata lookup.

use vstd::prelude::*;
use vstd::string::StringExecFns;

use crate::errors::ScrapeError;
use crate::model::AuthorRef;
use crate::model::NormalizedEntry;
use crate::time::parse_datetime;
use crate::time::rfc3339_timestamp;

verus! {

/// One post or page as the Blogger API lists it, reduced to plain
/// values.
pub struct BloggerRawPost {
    pub id: String,
    pub url: String,
    pub title: String,
    pub content: Option<String>,
    pub author_name: String,
    pub author_url: String,
    pub published: String,
}

/// One response of a Blogger listing endpoint: the listed items and
/// the continuation token, absent on the last page.
pub struct BloggerBatch {
    pub items: Vec<BloggerRawPost>,
    pub next_page_token: Option<String>,
}

/// The blog-metadata record: identity fields and the declared totals
/// of the two sub-streams.
pub struct BloggerMeta {
    pub id: String,
    pub name: String,
    pub url: String,
    pub posts_total: u32,
    pub pages_total: u32,
}

/// The pull cursor over one token-paginated Blogger endpoint.
///
/// The stream is exhausted when a batch arrives without a continuation
/// token; at that point the item count must equal the total that the
/// metadata lookup declared.
pub struct TokenStream {
    pub expected_total: usize,
    pub collected: Vec<BloggerRawPost>,
    pub done: bool,
}

impl TokenStream {
    pub fn new(expected_total: usize) -> (s: Self)
        ensures
            !s.done,
            s.expected_total == expected_total,
            s.collected@ == Seq::<BloggerRawPost>::empty(),
    {
        TokenStream { expected_total, collected: Vec::new(), done: false }
    }

    /// Applies one fetched batch. `Ok(true)` means the stream is
    /// exhausted and consistent; `Ok(false)` asks for the next batch
    /// under the token the batch carried.
    pub fn apply_batch(&mut self, batch: BloggerBatch) -> (r: Result<bool, ScrapeError>)
        requires
            !old(self).done,
        ensures
            final(self).expected_total == old(self).expected_total,
            final(self).collected@ == old(self).collected@ + batch.items@,
            match r {
                Ok(done_now) => {
                    &&& done_now == (batch.next_page_token is None)
                    &&& final(self).done == done_now
                    &&& done_now ==> final(self).collected@.len() == old(self).expected_total
                },
                Err(e) => {
                    &&& batch.next_page_token is None
                    &&& final(self).done
                    &&& final(self).collected@.len() != old(self).expected_total
                    &&& e == (ScrapeError::CountMismatch {
                        expected: old(self).expected_total,
                        seen: (old(self).collected@.len() + batch.items@.len()) as usize,
                    })
                },
            },
    {
        let mut items = batch.items;
        self.collected.append(&mut items);
        if batch.next_page_token.is_none() {
            self.done = true;
            if self.collected.len() != self.expected_total {
                return Err(
                    ScrapeError::CountMismatch {
                        expected: self.expected_total,
                        seen: self.collected.len(),
                    },
                );
            }
            Ok(true)
        } else {
            Ok(false)
        }
    }
}

/// The whole run of one token-paginated endpoint over the batches the
/// remote answers with, in order: every listed item up to the batch
/// without a continuation token, which must bring the count to the
/// declared total. Running out of batches while a token is still
/// pending is a count mismatch.
pub open spec fn spec_token_run(
    batches: Seq<BloggerBatch>,
    seen: Seq<BloggerRawPost>,
    expected: usize,
) -> Result<Seq<BloggerRawPost>, ScrapeError>
    decreases batches.len(),
{
    if batches.len() == 0 {
        Err(ScrapeError::CountMismatch { expected, seen: seen.len() as usize })
    } else {
        let seen2 = seen + batches[0].items@;
        if batches[0].next_page_token is None {
            if seen2.len() == expected {
                Ok(seen2)
            } else {
                Err(ScrapeError::CountMismatch { expected, seen: seen2.len() as usize })
            }
        } else {
            spec_token_run(batches.drop_first(), seen2, expected)
        }
    }
}

/// At exhaustion a Blogger stream has yielded exactly as many items as
/// the metadata lookup declared, or it has ended in an error: a run
/// never comes up short silently.
pub proof fn lemma_token_run_count(
    batches: Seq<BloggerBatch>,
    seen: Seq<BloggerRawPost>,
    expected: usize,
)
    ensures
        spec_token_run(batches, seen, expected) is Ok ==> spec_token_run(
            batches,
            seen,
            expected,
        )->Ok_0.len() == expected,
    decreases batches.len(),
{
    if batches.len() > 0 && batches[0].next_page_token is Some {
        lemma_token_run_count(batches.drop_first(), seen + batches[0].items@, expected);
    }
}

/// Drives one endpoint's stream over the batches it was answered with.
pub fn blogger_collect_stream(batches: Vec<BloggerBatch>, expected_total: usize) -> (r: Result<
    Vec<BloggerRawPost>,
    ScrapeError,
>)
    ensures
        ({
            let model = spec_token_run(batches@, Seq::<BloggerRawPost>::empty(), expected_total);
            match r {
                Ok(got) => model is Ok && got@ == model->Ok_0,
                Err(e) => model is Err && e == model->Err_0,
            }
        }),
{
    let mut stream = TokenStream::new(expected_total);
    let mut rest = batches;
    loop
        invariant
            !stream.done,
            stream.expected_total == expected_total,
            spec_token_run(batches@, Seq::<BloggerRawPost>::empty(), expected_total)
                == spec_token_run(rest@, stream.collected@, expected_total),
        decreases rest@.len(),
    {
        if rest.len() == 0 {
            return Err(
                ScrapeError::CountMismatch {
                    expected: expected_total,
                    seen: stream.collected.len(),
                },
            );
        }
        let ghost prev_rest = rest@;
        let batch = rest.remove(0);
        proof {
            assert(prev_rest.remove(0) =~= prev_rest.drop_first());
            assert(prev_rest.drop_first() =~= rest@);
        }
        match stream.apply_batch(batch) {
            Err(e) => {
                return Err(e);
            },
            Ok(true) => {
                let TokenStream { collected, .. } = stream;
                return Ok(collected);
            },
            Ok(false) => {},
        }
    }
}

/// How a normalized entry relates to the raw Blogger post it came
/// from: the id is `feed_id/post_id`, the instant is the post's RFC
/// 3339 publication date, and the single author carries the display
/// name and profile URL.
pub open spec fn blogger_entry_matches(
    e: NormalizedEntry,
    p: BloggerRawPost,
    feed_id: Seq<char>,
) -> bool {
    &&& e.id@ == feed_id + "/"@ + p.id@
    &&& e.title@ == p.title@
    &&& Some(e.published) == rfc3339_timestamp(p.published@)
    &&& e.updated == e.published
    &&& e.authors@.len() == 1
    &&& e.authors@[0].name@ == p.author_name@
    &&& e.authors@[0].uri matches Some(u) && u@ == p.author_url@
    &&& match p.content {
        Some(c) => e.content_html matches Some(h) && h@ == c@,
        None => e.content_html is None,
    }
    &&& e.link@ == p.url@
}

/// The error normalizing a raw Blogger post raises, if any: an
/// unparseable publication date.
pub open spec fn spec_blogger_entry_err(p: BloggerRawPost) -> Option<ScrapeError> {
    if rfc3339_timestamp(p.published@) is None {
        Some(ScrapeError::MalformedResponse)
    } else {
        None
    }
}

/// The first error normalizing a batch of raw Blogger posts raises.
pub open spec fn spec_blogger_first_err(raw: Seq<BloggerRawPost>) -> Option<ScrapeError>
    decreases raw.len(),
{
    if raw.len() == 0 {
        None
    } else if spec_blogger_entry_err(raw[0]) is Some {
        spec_blogger_entry_err(raw[0])
    } else {
        spec_blogger_first_err(raw.drop_first())
    }
}

/// Normalizes one listed Blogger post.
pub fn blogger_post_to_entry(post: &BloggerRawPost, feed_id: &str) -> (r: Result<
    NormalizedEntry,
    ScrapeError,
>)
    ensures
        r is Ok <==> spec_blogger_entry_err(*post) is None,
        r is Ok ==> blogger_entry_matches(r->Ok_0, *post, feed_id@),
        r is Err ==> Some(r->Err_0) == spec_blogger_entry_err(*post),
{
    let published = match parse_datetime(post.published.as_str()) {
        None => {
            return Err(ScrapeError::MalformedResponse);
        },
        Some(ts) => ts,
    };
    let mut id = feed_id.to_owned();
    id.append("/");
    id.append(post.id.as_str());
    let mut authors: Vec<AuthorRef> = Vec::new();
    authors.push(AuthorRef { name: post.author_name.clone(), uri: Some(post.author_url.clone()) });
    Ok(
        NormalizedEntry {
            id,
            title: post.title.clone(),
            published,
            updated: published,
            authors,
            content_html: match &post.content {
                Some(c) => Some(c.clone()),
                None => None,
            },
            link: post.url.clone(),
        },
    )
}

/// Scrapes a whole Blogger blog from the answered responses: the posts
/// sub-stream, then the pages sub-stream, each skipped entirely when
/// its declared total is zero, each checked against its total, and
/// every listed item normalized.
#[verifier::loop_isolation(false)]
pub fn blogger_entries(
    posts_total: u32,
    pages_total: u32,
    feed_id: &str,
    posts_batches: Vec<BloggerBatch>,
    pages_batches: Vec<BloggerBatch>,
) -> (r: Result<Vec<NormalizedEntry>, ScrapeError>)
    ensures
        ({
            let run_posts = spec_token_run(
                posts_batches@,
                Seq::<BloggerRawPost>::empty(),
                posts_total as usize,
            );
            let run_pages = spec_token_run(
                pages_batches@,
                Seq::<BloggerRawPost>::empty(),
                pages_total as usize,
            );
            let posts_raw = if posts_total == 0 {
                Seq::<BloggerRawPost>::empty()
            } else {
                run_posts->Ok_0
            };
            let pages_raw = if pages_total == 0 {
                Seq::<BloggerRawPost>::empty()
            } else {
                run_pages->Ok_0
            };
            match r {
                Err(e) => {
                    ||| (posts_total != 0 && run_posts is Err && e == run_posts->Err_0)
                    ||| ((posts_total == 0 || run_posts is Ok) && pages_total != 0 && run_pages
                        is Err && e == run_pages->Err_0)
                    ||| ((posts_total == 0 || run_posts is Ok) && (pages_total == 0 || run_pages
                        is Ok) && Some(e) == spec_blogger_first_err(posts_raw + pages_raw))
                },
                Ok(entries) => {
                    &&& posts_total != 0 ==> run_posts is Ok
                    &&& pages_total != 0 ==> run_pages is Ok
                    &&& spec_blogger_first_err(posts_raw + pages_raw) is None
                    &&& entries@.len() == posts_total + pages_total
                    &&& forall|i: int|
                        0 <= i < entries@.len() ==> blogger_entry_matches(
                            entries@[i],
                            (posts_raw + pages_raw)[i],
                            feed_id@,
                        )
                },
            }
        }),
{
    proof {
        lemma_token_run_count(posts_batches@, Seq::<BloggerRawPost>::empty(), posts_total as usize);
        lemma_token_run_count(pages_batches@, Seq::<BloggerRawPost>::empty(), pages_total as usize);
    }
    let mut raw: Vec<BloggerRawPost> = Vec::new();
    if posts_total != 0 {
        let mut got = match blogger_collect_stream(posts_batches, posts_total as usize) {
            Err(e) => {
                return Err(e);
            },
            Ok(g) => g,
        };
        raw.append(&mut got);
    }
    if pages_total != 0 {
        let mut got = match blogger_collect_stream(pages_batches, pages_total as usize) {
            Err(e) => {
                return Err(e);
            },
            Ok(g) => g,
        };
        raw.append(&mut got);
    }
    let ghost all = raw@;
    let mut entries: Vec<NormalizedEntry> = Vec::new();
    let mut i: usize = 0;
    proof {
        assert(all.skip(0) =~= all);
    }
    while i < raw.len()
        invariant
            raw@ == all,
            i <= all.len(),
            entries@.len() == i,
            forall|j: int|
                0 <= j < i ==> blogger_entry_matches(#[trigger] entries@[j], all[j], feed_id@),
            spec_blogger_first_err(all) == spec_blogger_first_err(all.skip(i as int)),
        decreases all.len() - i,
    {
        proof {
            assert(all.skip(i as int)[0] == all[i as int]);
            assert(all.skip(i as int).drop_first() =~= all.skip(i + 1));
        }
        match blogger_post_to_entry(&raw[i], feed_id) {
            Err(e) => {
                return Err(e);
            },
            Ok(en) => {
                entries.push(en);
            },
        }
        i = i + 1;
    }
    proof {
        assert(all.skip(all.len() as int) =~= Seq::<BloggerRawPost>::empty());
    }
    Ok(entries)
}

} // verus!
