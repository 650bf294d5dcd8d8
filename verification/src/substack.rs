//! The Substack paginator.
//!
//! The archive endpoint is driven by a numeric offset advanced by the
//! number of items each call returns; an empty batch ends the stream.
//! Posts are filtered to public visibility, and every listed post needs
//! a second per-post detail fetch for its body and bylines.

use vstd::prelude::*;
use vstd::string::StrSliceExecFns;
use vstd::string::StringExecFns;

use crate::errors::ScrapeError;
use crate::keys::spec_u64_digits;
use crate::keys::u64_to_string;
use crate::model::AuthorRef;
use crate::model::NormalizedEntry;
use crate::time::parse_datetime;
use crate::time::rfc3339_timestamp;

verus! {

/// One post as the archive endpoint lists it, reduced to plain values.
pub struct SubRawPost {
    pub id: u64,
    pub title: String,
    pub slug: String,
    pub post_date: String,
    pub canonical_url: String,
    pub is_public: bool,
    pub publication_id: u64,
}

impl Clone for SubRawPost {
    fn clone(&self) -> (r: Self)
        ensures
            r == *self,
    {
        SubRawPost {
            id: self.id,
            title: self.title.clone(),
            slug: self.slug.clone(),
            post_date: self.post_date.clone(),
            canonical_url: self.canonical_url.clone(),
            is_public: self.is_public,
            publication_id: self.publication_id,
        }
    }
}

/// One credited byline of a post's detail record.
pub struct SubByline {
    pub name: String,
    pub handle: String,
}

/// The per-post detail record: the full HTML body and the bylines.
pub struct SubPostDetail {
    pub body_html: String,
    pub bylines: Vec<SubByline>,
}

/// The publication record the search endpoint returns.
pub struct SubstackMeta {
    pub id: u64,
    pub name: String,
    pub subdomain: String,
    pub custom_domain: Option<String>,
}

/// The index of the first `.` in a domain, or the length when there is
/// none.
pub open spec fn spec_first_dot(s: Seq<char>) -> int
    decreases s.len(),
{
    if s.len() == 0 {
        0
    } else if s[0] == '.' {
        0
    } else {
        1 + spec_first_dot(s.drop_first())
    }
}

/// The index of the last `.` in a domain, or `-1` when there is none.
pub open spec fn spec_last_dot(s: Seq<char>) -> int
    decreases s.len(),
{
    if s.len() == 0 {
        -1
    } else if s.last() == '.' {
        s.len() - 1
    } else {
        spec_last_dot(s.drop_last())
    }
}

pub open spec fn substack_suffix() -> Seq<char> {
    seq!['s', 'u', 'b', 's', 't', 'a', 'c', 'k', '.', 'c', 'o', 'm']
}

/// Whether a domain is hosted directly under the platform's own domain.
pub open spec fn spec_is_substack_domain(s: Seq<char>) -> bool {
    s.len() >= 12 && s.subrange(s.len() - 12, s.len() as int) == substack_suffix()
}

/// The publication subdomain that a blog domain implies: for a
/// platform-hosted domain, everything before the first `.` (or the
/// whole domain without one); for a custom domain, the label just left
/// of the last `.`. A custom domain without any `.` has no subdomain.
pub open spec fn spec_subdomain(s: Seq<char>) -> Option<Seq<char>> {
    if spec_is_substack_domain(s) {
        Some(s.take(spec_first_dot(s)))
    } else if spec_last_dot(s) >= 0 {
        Some(s.subrange(spec_last_dot(s.take(spec_last_dot(s))) + 1, spec_last_dot(s)))
    } else {
        None
    }
}

proof fn lemma_first_dot_bounds(s: Seq<char>)
    ensures
        0 <= spec_first_dot(s) <= s.len(),
    decreases s.len(),
{
    if s.len() > 0 && s[0] != '.' {
        lemma_first_dot_bounds(s.drop_first());
    }
}

proof fn lemma_last_dot_bounds(s: Seq<char>)
    ensures
        -1 <= spec_last_dot(s) < s.len(),
        spec_last_dot(s) >= 0 ==> s[spec_last_dot(s)] == '.',
    decreases s.len(),
{
    if s.len() > 0 && s.last() != '.' {
        lemma_last_dot_bounds(s.drop_last());
    }
}

fn first_dot(s: &str) -> (r: usize)
    ensures
        r == spec_first_dot(s@),
{
    let n = s.unicode_len();
    let mut i: usize = 0;
    proof {
        assert(s@.skip(0) =~= s@);
    }
    while i < n
        invariant
            n == s@.len(),
            i <= n,
            spec_first_dot(s@) == i + spec_first_dot(s@.skip(i as int)),
        decreases n - i,
    {
        proof {
            assert(s@.skip(i as int)[0] == s@[i as int]);
            assert(s@.skip(i as int).drop_first() =~= s@.skip(i + 1));
            lemma_first_dot_bounds(s@.skip(i + 1));
        }
        if s.get_char(i) == '.' {
            return i;
        }
        i = i + 1;
    }
    proof {
        assert(s@.skip(n as int) =~= Seq::<char>::empty());
    }
    n
}

/// The last `.` at an index below `upto`, or `None`.
fn last_dot_below(s: &str, upto: usize) -> (r: Option<usize>)
    requires
        upto <= s@.len(),
    ensures
        match r {
            Some(i) => i == spec_last_dot(s@.take(upto as int)) && i < upto,
            None => spec_last_dot(s@.take(upto as int)) == -1,
        },
{
    let mut k: usize = upto;
    while k > 0
        invariant
            upto <= s@.len(),
            k <= upto,
            spec_last_dot(s@.take(upto as int)) == spec_last_dot(s@.take(k as int)),
        decreases k,
    {
        proof {
            assert(s@.take(k as int).drop_last() =~= s@.take(k - 1));
            assert(s@.take(k as int).last() == s@[k - 1]);
        }
        if s.get_char(k - 1) == '.' {
            return Some(k - 1);
        }
        k = k - 1;
    }
    proof {
        assert(s@.take(0) =~= Seq::<char>::empty());
    }
    None
}

fn is_substack_domain(s: &str) -> (r: bool)
    ensures
        r == spec_is_substack_domain(s@),
{
    let n = s.unicode_len();
    if n < 12 {
        return false;
    }
    let r = s.get_char(n - 12) == 's' && s.get_char(n - 11) == 'u' && s.get_char(n - 10) == 'b'
        && s.get_char(n - 9) == 's' && s.get_char(n - 8) == 't' && s.get_char(n - 7) == 'a'
        && s.get_char(n - 6) == 'c' && s.get_char(n - 5) == 'k' && s.get_char(n - 4) == '.'
        && s.get_char(n - 3) == 'c' && s.get_char(n - 2) == 'o' && s.get_char(n - 1) == 'm';
    proof {
        if r {
            assert(s@.subrange(n - 12, n as int) =~= substack_suffix());
        } else {
            if s@.subrange(n - 12, n as int) == substack_suffix() {
                assert(s@[n - 12] == substack_suffix()[0]);
                assert(s@[n - 11] == substack_suffix()[1]);
                assert(s@[n - 10] == substack_suffix()[2]);
                assert(s@[n - 9] == substack_suffix()[3]);
                assert(s@[n - 8] == substack_suffix()[4]);
                assert(s@[n - 7] == substack_suffix()[5]);
                assert(s@[n - 6] == substack_suffix()[6]);
                assert(s@[n - 5] == substack_suffix()[7]);
                assert(s@[n - 4] == substack_suffix()[8]);
                assert(s@[n - 3] == substack_suffix()[9]);
                assert(s@[n - 2] == substack_suffix()[10]);
                assert(s@[n - 1] == substack_suffix()[11]);
            }
        }
    }
    r
}

/// Extracts the publication subdomain from a blog's domain; a custom
/// domain from which no subdomain can be read leaves the blog
/// undetectable.
pub fn subdomain_of(domain: &str) -> (r: Result<String, ScrapeError>)
    ensures
        match r {
            Ok(sub) => Some(sub@) == spec_subdomain(domain@),
            Err(e) => spec_subdomain(domain@) is None && e == ScrapeError::UnknownBlogType,
        },
{
    let n = domain.unicode_len();
    if is_substack_domain(domain) {
        let cut = first_dot(domain);
        proof {
            lemma_first_dot_bounds(domain@);
        }
        let sub = domain.substring_char(0, cut);
        proof {
            assert(domain@.subrange(0, cut as int) =~= domain@.take(cut as int));
        }
        return Ok(sub.to_owned());
    }
    let last = match last_dot_below(domain, n) {
        None => {
            proof {
                assert(domain@.take(n as int) =~= domain@);
            }
            return Err(ScrapeError::UnknownBlogType);
        },
        Some(i) => i,
    };
    proof {
        assert(domain@.take(n as int) =~= domain@);
    }
    let prev = match last_dot_below(domain, last) {
        None => 0,
        Some(i) => i + 1,
    };
    proof {
        assert(domain@.take(last as int) =~= domain@.subrange(0, last as int));
        lemma_last_dot_bounds(domain@.take(last as int));
    }
    let sub = domain.substring_char(prev, last);
    Ok(sub.to_owned())
}

/// Whether a search result is the publication the queried domain
/// belongs to: its subdomain matches, or its custom domain is the
/// queried domain itself.
pub open spec fn pub_matches(m: SubstackMeta, subdomain: Seq<char>, domain: Seq<char>) -> bool {
    ||| m.subdomain@ == subdomain
    ||| (m.custom_domain matches Some(d) && d@ == domain)
}

/// The first matching publication of the search results.
pub open spec fn spec_select_pub(
    results: Seq<SubstackMeta>,
    subdomain: Seq<char>,
    domain: Seq<char>,
) -> Option<SubstackMeta>
    decreases results.len(),
{
    if results.len() == 0 {
        None
    } else if pub_matches(results[0], subdomain, domain) {
        Some(results[0])
    } else {
        spec_select_pub(results.drop_first(), subdomain, domain)
    }
}

/// Picks the publication the queried domain belongs to out of the
/// search results; none matching leaves the blog undetectable.
pub fn select_publication(
    results: Vec<SubstackMeta>,
    subdomain: &String,
    domain: &String,
) -> (r: Result<SubstackMeta, ScrapeError>)
    ensures
        match r {
            Ok(m) => Some(m) == spec_select_pub(results@, subdomain@, domain@),
            Err(e) => spec_select_pub(results@, subdomain@, domain@) is None && e
                == ScrapeError::PublicationNotFound,
        },
{
    let mut rest = results;
    loop
        invariant
            spec_select_pub(results@, subdomain@, domain@) == spec_select_pub(
                rest@,
                subdomain@,
                domain@,
            ),
        decreases rest@.len(),
    {
        if rest.len() == 0 {
            return Err(ScrapeError::PublicationNotFound);
        }
        let ghost prev_rest = rest@;
        let m = rest.remove(0);
        proof {
            assert(prev_rest.remove(0) =~= prev_rest.drop_first());
            assert(prev_rest.drop_first() =~= rest@);
        }
        let matched = m.subdomain == *subdomain || (match &m.custom_domain {
            Some(d) => *d == *domain,
            None => false,
        });
        if matched {
            return Ok(m);
        }
    }
}

/// The public posts of one listed batch, in listing order.
pub open spec fn spec_public_posts(s: Seq<SubRawPost>) -> Seq<SubRawPost>
    decreases s.len(),
{
    if s.len() == 0 {
        Seq::<SubRawPost>::empty()
    } else {
        let rest = spec_public_posts(s.drop_last());
        if s.last().is_public {
            rest.push(s.last())
        } else {
            rest
        }
    }
}

/// The pull cursor over the archive endpoint.
///
/// `offset` is where the next fetch starts; it advances by the full
/// batch size, while only public posts enter `pending`. An empty batch
/// ends the stream.
pub struct SubstackStream {
    pub publication_id: u64,
    pub offset: usize,
    pub done: bool,
    pub pending: Vec<SubRawPost>,
}

impl SubstackStream {
    pub fn new(publication_id: u64) -> (s: Self)
        ensures
            s.publication_id == publication_id,
            s.offset == 0,
            !s.done,
            s.pending@ == Seq::<SubRawPost>::empty(),
    {
        SubstackStream { publication_id, offset: 0, done: false, pending: Vec::new() }
    }

    /// Applies one archive batch: the offset advances by the whole
    /// batch, the public posts join the pending buffer, and an empty
    /// batch exhausts the stream.
    pub fn apply_archive_batch(&mut self, batch: Vec<SubRawPost>) -> (done_now: bool)
        requires
            !old(self).done,
            old(self).offset + batch@.len() <= usize::MAX,
        ensures
            final(self).publication_id == old(self).publication_id,
            final(self).offset == old(self).offset + batch@.len(),
            final(self).done == (batch@.len() == 0),
            done_now == final(self).done,
            final(self).pending@ == old(self).pending@ + spec_public_posts(batch@),
    {
        if batch.len() == 0 {
            self.done = true;
            proof {
                assert(self.pending@ =~= self.pending@ + spec_public_posts(batch@));
            }
            return true;
        }
        self.offset = self.offset + batch.len();
        let ghost target = batch@;
        let mut i: usize = 0;
        while i < batch.len()
            invariant
                batch@ == target,
                i <= target.len(),
                self.pending@ == old(self).pending@ + spec_public_posts(target.take(i as int)),
                self.publication_id == old(self).publication_id,
                self.offset == old(self).offset + target.len(),
                self.done == old(self).done,
            decreases target.len() - i,
        {
            proof {
                assert(target.take(i + 1).drop_last() =~= target.take(i as int));
                assert(target.take(i + 1).last() == target[i as int]);
            }
            if batch[i].is_public {
                let p = batch[i].clone();
                self.pending.push(p);
            }
            i = i + 1;
        }
        proof {
            assert(target.take(target.len() as int) =~= target);
        }
        false
    }

    /// Hands out the oldest pending post, or nothing when the buffer
    /// is drained.
    pub fn next_pending(&mut self) -> (r: Option<SubRawPost>)
        ensures
            final(self).publication_id == old(self).publication_id,
            final(self).offset == old(self).offset,
            final(self).done == old(self).done,
            match r {
                Some(p) => {
                    &&& old(self).pending@.len() > 0
                    &&& p == old(self).pending@[0]
                    &&& final(self).pending@ == old(self).pending@.drop_first()
                },
                None => {
                    &&& old(self).pending@.len() == 0
                    &&& final(self).pending@ == old(self).pending@
                },
            },
    {
        if self.pending.len() == 0 {
            return None;
        }
        let p = self.pending.remove(0);
        proof {
            assert(old(self).pending@.remove(0) =~= old(self).pending@.drop_first());
        }
        Some(p)
    }
}


/// How a normalized entry relates to a listed post and its detail
/// record: the id is `feed_id/post_id`, the instant is the post's RFC
/// 3339 date, the authors are the detail's bylines with their profile
/// URLs, and the content is the detail's full HTML body.
pub open spec fn sub_entry_matches(
    e: NormalizedEntry,
    p: SubRawPost,
    d: SubPostDetail,
    feed_id: Seq<char>,
) -> bool {
    &&& e.id@ == feed_id + "/"@ + spec_u64_digits(p.id as nat)
    &&& e.title@ == p.title@
    &&& Some(e.published) == rfc3339_timestamp(p.post_date@)
    &&& e.updated == e.published
    &&& e.authors@.len() == d.bylines@.len()
    &&& forall|j: int|
        0 <= j < d.bylines@.len() ==> {
            &&& (#[trigger] e.authors@[j]).name@ == d.bylines@[j].name@
            &&& e.authors@[j].uri matches Some(u) && u@ == "https://substack.com/@"@
                + d.bylines@[j].handle@
        }
    &&& e.content_html matches Some(h) && h@ == d.body_html@
    &&& e.link@ == p.canonical_url@
}

/// The error normalizing a listed post raises, if any: a post of a
/// foreign publication, or an unparseable date.
pub open spec fn spec_sub_entry_err(p: SubRawPost, expected_publication: u64) -> Option<
    ScrapeError,
> {
    if p.publication_id != expected_publication {
        Some(
            ScrapeError::PublicationMismatch {
                wanted: expected_publication,
                found: p.publication_id,
            },
        )
    } else if rfc3339_timestamp(p.post_date@) is None {
        Some(ScrapeError::MalformedResponse)
    } else {
        None
    }
}

/// The first error normalizing a run of listed posts raises.
pub open spec fn spec_sub_first_err(posts: Seq<SubRawPost>, expected_publication: u64) -> Option<
    ScrapeError,
>
    decreases posts.len(),
{
    if posts.len() == 0 {
        None
    } else if spec_sub_entry_err(posts[0], expected_publication) is Some {
        spec_sub_entry_err(posts[0], expected_publication)
    } else {
        spec_sub_first_err(posts.drop_first(), expected_publication)
    }
}

/// Merges one listed post with its detail record into a normalized
/// entry.
pub fn substack_post_to_entry(
    post: &SubRawPost,
    detail: SubPostDetail,
    feed_id: &str,
    expected_publication: u64,
) -> (r: Result<NormalizedEntry, ScrapeError>)
    ensures
        r is Ok <==> spec_sub_entry_err(*post, expected_publication) is None,
        r is Ok ==> sub_entry_matches(r->Ok_0, *post, detail, feed_id@),
        r is Err ==> Some(r->Err_0) == spec_sub_entry_err(*post, expected_publication),
{
    if post.publication_id != expected_publication {
        return Err(
            ScrapeError::PublicationMismatch {
                wanted: expected_publication,
                found: post.publication_id,
            },
        );
    }
    let published = match parse_datetime(post.post_date.as_str()) {
        None => {
            return Err(ScrapeError::MalformedResponse);
        },
        Some(ts) => ts,
    };
    let mut id = feed_id.to_owned();
    id.append("/");
    let digits = u64_to_string(post.id);
    id.append(digits.as_str());
    let SubPostDetail { body_html, bylines } = detail;
    let ghost target = bylines@;
    let mut rest = bylines;
    let mut authors: Vec<AuthorRef> = Vec::new();
    while rest.len() > 0
        invariant
            authors@.len() + rest@.len() == target.len(),
            rest@ == target.skip(authors@.len() as int),
            forall|j: int|
                0 <= j < authors@.len() ==> {
                    &&& (#[trigger] authors@[j]).name@ == target[j].name@
                    &&& authors@[j].uri matches Some(u) && u@ == "https://substack.com/@"@
                        + target[j].handle@
                },
        decreases rest@.len(),
    {
        let ghost k = authors@.len() as int;
        let b = rest.remove(0);
        proof {
            assert(target.skip(k)[0] == target[k]);
            assert(target.skip(k).remove(0) =~= target.skip(k).drop_first());
            assert(target.skip(k).drop_first() =~= target.skip(k + 1));
        }
        let mut uri = "https://substack.com/@".to_owned();
        uri.append(b.handle.as_str());
        authors.push(AuthorRef { name: b.name, uri: Some(uri) });
    }
    Ok(
        NormalizedEntry {
            id,
            title: post.title.clone(),
            published,
            updated: published,
            authors,
            content_html: Some(body_html),
            link: post.canonical_url.clone(),
        },
    )
}

/// The public posts of a whole archive listing: the batches up to the
/// first empty one, each filtered to public visibility, or nothing
/// when the listing never ends with an empty batch.
pub open spec fn spec_sub_run(batches: Seq<Vec<SubRawPost>>) -> Option<Seq<SubRawPost>>
    decreases batches.len(),
{
    if batches.len() == 0 {
        None
    } else if batches[0]@.len() == 0 {
        Some(Seq::<SubRawPost>::empty())
    } else {
        match spec_sub_run(batches.drop_first()) {
            None => None,
            Some(rest) => Some(spec_public_posts(batches[0]@) + rest),
        }
    }
}

/// How many posts a listing lists in all, public or not.
pub open spec fn spec_listed_total(batches: Seq<Vec<SubRawPost>>) -> int
    decreases batches.len(),
{
    if batches.len() == 0 {
        0
    } else {
        batches[0]@.len() + spec_listed_total(batches.drop_first())
    }
}

proof fn lemma_listed_total_nonneg(batches: Seq<Vec<SubRawPost>>)
    ensures
        spec_listed_total(batches) >= 0,
    decreases batches.len(),
{
    if batches.len() > 0 {
        lemma_listed_total_nonneg(batches.drop_first());
    }
}

/// Scrapes a whole Substack publication from the answered responses:
/// the archive batches in order until the empty one, filtered to
/// public posts, each merged with its detail record in order. Exactly
/// the public listed posts are yielded; non-public posts are dropped
/// silently and never counted.
#[verifier::loop_isolation(false)]
pub fn substack_entries(
    publication_id: u64,
    feed_id: &str,
    batches: Vec<Vec<SubRawPost>>,
    details: Vec<SubPostDetail>,
) -> (r: Result<Vec<NormalizedEntry>, ScrapeError>)
    requires
        spec_listed_total(batches@) <= usize::MAX,
        spec_sub_run(batches@) matches Some(posts) ==> details@.len() >= posts.len(),
    ensures
        ({
            let run = spec_sub_run(batches@);
            match r {
                Ok(entries) => {
                    &&& run matches Some(posts)
                    &&& spec_sub_first_err(run->0, publication_id) is None
                    &&& entries@.len() == run->0.len()
                    &&& forall|k: int|
                        0 <= k < entries@.len() ==> sub_entry_matches(
                            entries@[k],
                            run->0[k],
                            details@[k],
                            feed_id@,
                        )
                },
                Err(e) => {
                    ||| (run is None && e == ScrapeError::MalformedResponse)
                    ||| (run is Some && Some(e) == spec_sub_first_err(run->0, publication_id))
                },
            }
        }),
{
    let mut stream = SubstackStream::new(publication_id);
    let mut rest = batches;
    loop
        invariant
            !stream.done,
            stream.publication_id == publication_id,
            stream.offset + spec_listed_total(rest@) <= usize::MAX,
            spec_sub_run(batches@) is Some <==> spec_sub_run(rest@) is Some,
            spec_sub_run(batches@) is Some ==> spec_sub_run(batches@)->0 == stream.pending@
                + spec_sub_run(rest@)->0,
        decreases rest@.len(),
    {
        if rest.len() == 0 {
            return Err(ScrapeError::MalformedResponse);
        }
        let ghost prev_rest = rest@;
        let ghost prev_pending = stream.pending@;
        let batch = rest.remove(0);
        proof {
            assert(prev_rest.remove(0) =~= prev_rest.drop_first());
            assert(prev_rest.drop_first() =~= rest@);
            lemma_listed_total_nonneg(rest@);
        }
        let done_now = stream.apply_archive_batch(batch);
        if done_now {
            break;
        }
        proof {
            if spec_sub_run(prev_rest) is Some {
                assert(spec_sub_run(prev_rest)->0 == spec_public_posts(prev_rest[0]@)
                    + spec_sub_run(rest@)->0);
                assert(prev_pending + spec_sub_run(prev_rest)->0 =~= stream.pending@
                    + spec_sub_run(rest@)->0);
            }
        }
    }
    let ghost all = stream.pending@;
    proof {
        assert(spec_sub_run(batches@) is Some && spec_sub_run(batches@)->0 == all);
    }
    let mut entries: Vec<NormalizedEntry> = Vec::new();
    let mut dets = details;
    proof {
        assert(all.skip(0) =~= all);
        assert(dets@.skip(0) =~= dets@);
    }
    loop
        invariant
            stream.pending@ == all.skip(entries@.len() as int),
            entries@.len() <= all.len(),
            dets@ == details@.skip(entries@.len() as int),
            forall|k: int|
                0 <= k < entries@.len() ==> sub_entry_matches(
                    #[trigger] entries@[k],
                    all[k],
                    details@[k],
                    feed_id@,
                ),
            spec_sub_first_err(all, publication_id) == spec_sub_first_err(
                all.skip(entries@.len() as int),
                publication_id,
            ),
        decreases stream.pending@.len(),
    {
        let ghost k = entries@.len() as int;
        let p = match stream.next_pending() {
            None => {
                break;
            },
            Some(p) => p,
        };
        proof {
            assert(all.skip(k)[0] == all[k]);
            assert(all.skip(k).drop_first() =~= all.skip(k + 1));
            assert(details@.skip(k)[0] == details@[k]);
            assert(details@.skip(k).remove(0) =~= details@.skip(k).drop_first());
            assert(details@.skip(k).drop_first() =~= details@.skip(k + 1));
        }
        let d = dets.remove(0);
        match substack_post_to_entry(&p, d, feed_id, publication_id) {
            Err(e) => {
                return Err(e);
            },
            Ok(en) => {
                entries.push(en);
            },
        }
    }
    proof {
        assert(all.skip(all.len() as int) =~= Seq::<SubRawPost>::empty());
    }
    Ok(entries)
}

} // verus!
