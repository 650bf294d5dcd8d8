//! The WordPress paginator.
//!
//! WordPress pages are numbered from 1; the totals come from the
//! `X-WP-Total` and `X-WP-TotalPages` response headers, and the stream
//! is exhausted once the page counter reaches the declared page count.
//! Author identities are resolved through a separately fetched user
//! list keyed by numeric author id.

use vstd::prelude::*;
use vstd::string::StrSliceExecFns;
use vstd::string::StringExecFns;

use crate::errors::ScrapeError;
use crate::keys::spec_u64_digits;
use crate::keys::u64_to_string;
use crate::model::AuthorRef;
use crate::model::NormalizedEntry;
use crate::time::naive_utc_timestamp;
use crate::time::parse_assuming_utc;

verus! {

/// One post as the WordPress API lists it, already reduced to plain
/// values.
pub struct WpRawPost {
    pub id: u64,
    pub date_gmt: String,
    pub link: String,
    pub title: String,
    pub content_html: String,
    pub author: u64,
}

/// One page of the posts or pages endpoint: the two pagination headers
/// as they arrived (absent when the response lacked them) and the
/// listed posts.
pub struct WpPage {
    pub total: Option<String>,
    pub total_pages: Option<String>,
    pub posts: Vec<WpRawPost>,
}

/// One row of the users endpoint.
pub struct WpUser {
    pub id: u64,
    pub name: String,
}

pub open spec fn is_digit(c: char) -> bool {
    '0' <= c && c <= '9'
}

/// The numeric value of a decimal digit.
pub open spec fn digit_value(c: char) -> int {
    match c {
        '0' => 0,
        '1' => 1,
        '2' => 2,
        '3' => 3,
        '4' => 4,
        '5' => 5,
        '6' => 6,
        '7' => 7,
        '8' => 8,
        '9' => 9,
        _ => 0,
    }
}

pub open spec fn all_digits(s: Seq<char>) -> bool {
    forall|i: int| 0 <= i < s.len() ==> is_digit(#[trigger] s[i])
}

/// The value of a decimal digit string, most significant digit first.
pub open spec fn spec_dec_value(s: Seq<char>) -> int
    decreases s.len(),
{
    if s.len() == 0 {
        0
    } else {
        spec_dec_value(s.drop_last()) * 10 + digit_value(s.last())
    }
}

/// Whether a header string is a well-formed decimal number that fits
/// in `usize`.
pub open spec fn spec_parses_as_usize(s: Seq<char>) -> bool {
    s.len() > 0 && all_digits(s) && spec_dec_value(s) <= usize::MAX
}

proof fn lemma_dec_value_nonneg(s: Seq<char>)
    ensures
        spec_dec_value(s) >= 0,
    decreases s.len(),
{
    if s.len() > 0 {
        lemma_dec_value_nonneg(s.drop_last());
    }
}

proof fn lemma_dec_value_prefix_le(s: Seq<char>, i: int)
    requires
        0 <= i <= s.len(),
    ensures
        spec_dec_value(s.take(i)) <= spec_dec_value(s),
    decreases s.len() - i,
{
    if i < s.len() {
        lemma_dec_value_nonneg(s.take(i));
        assert(s.take(i + 1).drop_last() =~= s.take(i));
        assert(s.take(i + 1).last() == s[i]);
        assert(spec_dec_value(s.take(i + 1)) == spec_dec_value(s.take(i)) * 10 + digit_value(
            s[i],
        ));
        lemma_dec_value_prefix_le(s, i + 1);
    } else {
        assert(s.take(i) =~= s);
    }
}

fn digit_value_exec(c: char) -> (r: Option<usize>)
    ensures
        r is Some <==> is_digit(c),
        r is Some ==> r->0 == digit_value(c),
{
    match c {
        '0' => Some(0),
        '1' => Some(1),
        '2' => Some(2),
        '3' => Some(3),
        '4' => Some(4),
        '5' => Some(5),
        '6' => Some(6),
        '7' => Some(7),
        '8' => Some(8),
        '9' => Some(9),
        _ => None,
    }
}

/// Parses a decimal number, exactly when the string is nonempty, all
/// digits, and the value fits in `usize`.
pub fn parse_usize(s: &str) -> (r: Option<usize>)
    ensures
        r is Some <==> spec_parses_as_usize(s@),
        r is Some ==> r->0 == spec_dec_value(s@),
{
    let n = s.unicode_len();
    if n == 0 {
        return None;
    }
    let mut acc: usize = 0;
    let mut i: usize = 0;
    while i < n
        invariant
            n == s@.len(),
            0 < n,
            i <= n,
            all_digits(s@.take(i as int)),
            acc == spec_dec_value(s@.take(i as int)),
        decreases n - i,
    {
        let c = s.get_char(i);
        proof {
            assert(s@.take(i + 1).drop_last() =~= s@.take(i as int));
            assert(s@.take(i + 1).last() == s@[i as int]);
        }
        match digit_value_exec(c) {
            None => {
                return None;
            },
            Some(d) => {
                match acc.checked_mul(10) {
                    None => {
                        proof {
                            lemma_dec_value_prefix_le(s@, i + 1);
                            lemma_dec_value_nonneg(s@.take(i + 1));
                        }
                        return None;
                    },
                    Some(m) => {
                        match m.checked_add(d) {
                            None => {
                                proof {
                                    lemma_dec_value_prefix_le(s@, i + 1);
                                }
                                return None;
                            },
                            Some(v) => {
                                acc = v;
                            },
                        }
                    },
                }
            },
        }
        i = i + 1;
    }
    proof {
        assert(s@.take(n as int) =~= s@);
    }
    Some(acc)
}

/// The pagination totals a page declares, or the error that reading
/// them raises: a missing `X-WP-Total` or `X-WP-TotalPages` header is
/// fatal, and so is a header that is not a number.
pub open spec fn spec_wp_totals(total: Option<Seq<char>>, total_pages: Option<Seq<char>>) -> Result<
    (usize, usize),
    ScrapeError,
> {
    match total {
        None => Err(ScrapeError::MissingTotalHeader),
        Some(t) => if !spec_parses_as_usize(t) {
            Err(ScrapeError::MalformedResponse)
        } else {
            match total_pages {
                None => Err(ScrapeError::MissingTotalPagesHeader),
                Some(p) => if !spec_parses_as_usize(p) {
                    Err(ScrapeError::MalformedResponse)
                } else {
                    Ok((spec_dec_value(t) as usize, spec_dec_value(p) as usize))
                },
            }
        },
    }
}

pub open spec fn spec_page_totals(page: WpPage) -> Result<(usize, usize), ScrapeError> {
    spec_wp_totals(
        match page.total {
            Some(t) => Some(t@),
            None => None,
        },
        match page.total_pages {
            Some(p) => Some(p@),
            None => None,
        },
    )
}

/// Reads the declared item and page totals out of a page's headers.
pub fn wp_page_totals(page: &WpPage) -> (r: Result<(usize, usize), ScrapeError>)
    ensures
        r == spec_page_totals(*page),
{
    let total = match &page.total {
        None => {
            return Err(ScrapeError::MissingTotalHeader);
        },
        Some(t) => match parse_usize(t.as_str()) {
            None => {
                return Err(ScrapeError::MalformedResponse);
            },
            Some(v) => v,
        },
    };
    let total_pages = match &page.total_pages {
        None => {
            return Err(ScrapeError::MissingTotalPagesHeader);
        },
        Some(p) => match parse_usize(p.as_str()) {
            None => {
                return Err(ScrapeError::MalformedResponse);
            },
            Some(v) => v,
        },
    };
    Ok((total, total_pages))
}

/// The pull cursor over one WordPress endpoint (posts or pages).
///
/// `next_page` is the page to fetch next, starting at 1. The declared
/// totals are re-read from every page's headers; the stream is
/// exhausted once the applied page's number reaches the declared page
/// count, and at that point the item count must equal the declared
/// total.
pub struct WpStream {
    pub next_page: usize,
    pub expected_total: usize,
    pub total_pages: usize,
    pub seen: usize,
    pub collected: Vec<WpRawPost>,
    pub done: bool,
}

impl WpStream {
    pub open spec fn wf(self) -> bool {
        &&& self.seen == self.collected@.len()
        &&& self.next_page >= 1
    }

    pub fn new() -> (s: Self)
        ensures
            s.wf(),
            !s.done,
            s.next_page == 1,
            s.expected_total == 0,
            s.collected@ == Seq::<WpRawPost>::empty(),
    {
        WpStream {
            next_page: 1,
            expected_total: 0,
            total_pages: 0,
            seen: 0,
            collected: Vec::new(),
            done: false,
        }
    }

    /// Applies one fetched page. `Ok(true)` means the stream is
    /// exhausted and consistent; `Ok(false)` asks for `next_page`.
    /// Errors: the header errors of `spec_page_totals`, which leave the
    /// cursor untouched, and the final count mismatch, which ends the
    /// stream.
    pub fn apply_page(&mut self, page: WpPage) -> (r: Result<bool, ScrapeError>)
        requires
            !old(self).done,
            old(self).wf(),
        ensures
            final(self).wf(),
            match r {
                Ok(done_now) => {
                    &&& spec_page_totals(page) is Ok
                    &&& final(self).expected_total == spec_page_totals(page)->Ok_0.0
                    &&& final(self).total_pages == spec_page_totals(page)->Ok_0.1
                    &&& final(self).collected@ == old(self).collected@ + page.posts@
                    &&& done_now == (old(self).next_page >= spec_page_totals(page)->Ok_0.1)
                    &&& final(self).done == done_now
                    &&& !done_now ==> final(self).next_page == old(self).next_page + 1
                    &&& done_now ==> final(self).collected@.len() == final(self).expected_total
                },
                Err(e) => match spec_page_totals(page) {
                    Err(te) => e == te && *final(self) == *old(self),
                    Ok((t, tp)) => {
                        &&& old(self).next_page >= tp
                        &&& old(self).collected@.len() + page.posts@.len() != t
                        &&& e == (ScrapeError::CountMismatch {
                            expected: t,
                            seen: (old(self).collected@.len() + page.posts@.len()) as usize,
                        })
                        &&& final(self).done
                    },
                },
            },
    {
        let (total, total_pages) = match wp_page_totals(&page) {
            Err(e) => {
                return Err(e);
            },
            Ok(t) => t,
        };
        let mut posts = page.posts;
        self.collected.append(&mut posts);
        self.seen = self.collected.len();
        self.expected_total = total;
        self.total_pages = total_pages;
        if self.next_page >= total_pages {
            self.done = true;
            if self.seen != total {
                return Err(ScrapeError::CountMismatch { expected: total, seen: self.seen });
            }
            Ok(true)
        } else {
            self.next_page = self.next_page + 1;
            Ok(false)
        }
    }
}

/// The whole run of one WordPress endpoint over the pages the remote
/// answers with, in order: the items of every page up to the declared
/// page count, together with the declared total, or the first error.
/// Running out of responses before the declared page count is a count
/// mismatch.
pub open spec fn spec_wp_run(
    pages: Seq<WpPage>,
    page_no: int,
    seen: Seq<WpRawPost>,
    expected: usize,
) -> Result<(Seq<WpRawPost>, usize), ScrapeError>
    decreases pages.len(),
{
    if pages.len() == 0 {
        Err(ScrapeError::CountMismatch { expected, seen: seen.len() as usize })
    } else {
        match spec_page_totals(pages[0]) {
            Err(e) => Err(e),
            Ok((t, tp)) => {
                let seen2 = seen + pages[0].posts@;
                if page_no >= tp {
                    if seen2.len() == t {
                        Ok((seen2, t))
                    } else {
                        Err(ScrapeError::CountMismatch { expected: t, seen: seen2.len() as usize })
                    }
                } else {
                    spec_wp_run(pages.drop_first(), page_no + 1, seen2, t)
                }
            },
        }
    }
}

/// At exhaustion a WordPress stream has yielded exactly as many items
/// as the platform declared, or it has ended in an error: a run never
/// comes up short silently.
pub proof fn lemma_wp_run_count(
    pages: Seq<WpPage>,
    page_no: int,
    seen: Seq<WpRawPost>,
    expected: usize,
)
    ensures
        spec_wp_run(pages, page_no, seen, expected) is Ok ==> spec_wp_run(
            pages,
            page_no,
            seen,
            expected,
        )->Ok_0.0.len() == spec_wp_run(pages, page_no, seen, expected)->Ok_0.1,
    decreases pages.len(),
{
    if pages.len() > 0 {
        match spec_page_totals(pages[0]) {
            Err(_) => {},
            Ok((t, tp)) => {
                if !(page_no >= tp) {
                    lemma_wp_run_count(pages.drop_first(), page_no + 1, seen + pages[0].posts@, t);
                }
            },
        }
    }
}

/// Drives one endpoint's stream over the responses it was answered
/// with, returning the raw items and the declared total.
pub fn wp_collect_stream(pages: Vec<WpPage>) -> (r: Result<(Vec<WpRawPost>, usize), ScrapeError>)
    ensures
        ({
            let model = spec_wp_run(pages@, 1, Seq::<WpRawPost>::empty(), 0);
            match r {
                Ok(got) => model is Ok && got.0@ == model->Ok_0.0 && got.1 == model->Ok_0.1,
                Err(e) => model is Err && e == model->Err_0,
            }
        }),
{
    let mut stream = WpStream::new();
    let mut rest = pages;
    loop
        invariant
            stream.wf(),
            !stream.done,
            spec_wp_run(pages@, 1, Seq::<WpRawPost>::empty(), 0) == spec_wp_run(
                rest@,
                stream.next_page as int,
                stream.collected@,
                stream.expected_total,
            ),
        decreases rest@.len(),
    {
        if rest.len() == 0 {
            return Err(
                ScrapeError::CountMismatch { expected: stream.expected_total, seen: stream.seen },
            );
        }
        let ghost prev_rest = rest@;
        let page = rest.remove(0);
        proof {
            assert(prev_rest.remove(0) =~= prev_rest.drop_first());
            assert(prev_rest.drop_first() =~= rest@);
        }
        match stream.apply_page(page) {
            Err(e) => {
                return Err(e);
            },
            Ok(true) => {
                let WpStream { collected, expected_total, .. } = stream;
                return Ok((collected, expected_total));
            },
            Ok(false) => {},
        }
    }
}

/// The name the user list gives for an author id: the first row with
/// that id, or nothing when no row carries it.
pub open spec fn spec_author_name(users: Seq<WpUser>, id: u64) -> Option<Seq<char>>
    decreases users.len(),
{
    if users.len() == 0 {
        None
    } else if users[0].id == id {
        Some(users[0].name@)
    } else {
        spec_author_name(users.drop_first(), id)
    }
}

/// Resolves an author id against the fetched user list; an id absent
/// from the list is a fatal consistency error.
pub fn author_name(users: &Vec<WpUser>, id: u64) -> (r: Result<String, ScrapeError>)
    ensures
        r is Ok <==> spec_author_name(users@, id) is Some,
        r is Ok ==> Some(r->Ok_0@) == spec_author_name(users@, id),
        r is Err ==> r->Err_0 == (ScrapeError::UnknownAuthor { id }),
{
    let mut i: usize = 0;
    proof {
        assert(users@.skip(0) =~= users@);
    }
    while i < users.len()
        invariant
            i <= users@.len(),
            spec_author_name(users@, id) == spec_author_name(users@.skip(i as int), id),
        decreases users@.len() - i,
    {
        proof {
            assert(users@.skip(i as int).drop_first() =~= users@.skip(i + 1));
            assert(users@.skip(i as int)[0] == users@[i as int]);
        }
        if users[i].id == id {
            return Ok(users[i].name.clone());
        }
        i = i + 1;
    }
    proof {
        assert(users@.skip(users@.len() as int) =~= Seq::<WpUser>::empty());
    }
    Err(ScrapeError::UnknownAuthor { id })
}

/// How a normalized entry relates to the raw post it came from: the id
/// is `feed_id/post_id`, the instant is the post's GMT date read as
/// UTC, the single author is the resolved name, and the content is the
/// rendered HTML.
pub open spec fn wp_entry_matches(
    e: NormalizedEntry,
    p: WpRawPost,
    feed_id: Seq<char>,
    users: Seq<WpUser>,
) -> bool {
    &&& e.id@ == feed_id + "/"@ + spec_u64_digits(p.id as nat)
    &&& e.title@ == p.title@
    &&& Some(e.published) == naive_utc_timestamp(p.date_gmt@)
    &&& e.updated == e.published
    &&& e.authors@.len() == 1
    &&& Some(e.authors@[0].name@) == spec_author_name(users, p.author)
    &&& e.authors@[0].uri is None
    &&& e.content_html matches Some(c) && c@ == p.content_html@
    &&& e.link@ == p.link@
}

/// The error normalizing a raw post raises, if any: an unparseable
/// date, or an author id the user list does not resolve.
pub open spec fn spec_wp_entry_err(p: WpRawPost, users: Seq<WpUser>) -> Option<ScrapeError> {
    if naive_utc_timestamp(p.date_gmt@) is None {
        Some(ScrapeError::MalformedResponse)
    } else if spec_author_name(users, p.author) is None {
        Some(ScrapeError::UnknownAuthor { id: p.author })
    } else {
        None
    }
}

/// The first error normalizing a batch of raw posts raises, if any.
pub open spec fn spec_first_entry_err(raw: Seq<WpRawPost>, users: Seq<WpUser>) -> Option<
    ScrapeError,
>
    decreases raw.len(),
{
    if raw.len() == 0 {
        None
    } else if spec_wp_entry_err(raw[0], users) is Some {
        spec_wp_entry_err(raw[0], users)
    } else {
        spec_first_entry_err(raw.drop_first(), users)
    }
}

/// Normalizes one listed WordPress post.
pub fn wp_post_to_entry(post: &WpRawPost, feed_id: &str, users: &Vec<WpUser>) -> (r: Result<
    NormalizedEntry,
    ScrapeError,
>)
    ensures
        r is Ok <==> spec_wp_entry_err(*post, users@) is None,
        r is Ok ==> wp_entry_matches(r->Ok_0, *post, feed_id@, users@),
        r is Err ==> Some(r->Err_0) == spec_wp_entry_err(*post, users@),
{
    let published = match parse_assuming_utc(post.date_gmt.as_str()) {
        None => {
            return Err(ScrapeError::MalformedResponse);
        },
        Some(ts) => ts,
    };
    let name = match author_name(users, post.author) {
        Err(e) => {
            return Err(e);
        },
        Ok(n) => n,
    };
    let mut id = feed_id.to_owned();
    id.append("/");
    let digits = u64_to_string(post.id);
    id.append(digits.as_str());
    let mut authors: Vec<AuthorRef> = Vec::new();
    authors.push(AuthorRef { name, uri: None });
    Ok(
        NormalizedEntry {
            id,
            title: post.title.clone(),
            published,
            updated: published,
            authors,
            content_html: Some(post.content_html.clone()),
            link: post.link.clone(),
        },
    )
}


/// Scrapes a whole WordPress blog from the answered responses: the
/// posts endpoint's pages, then the pages endpoint's pages, each
/// stream checked against its declared total, and every listed item
/// normalized through the author map.
#[verifier::loop_isolation(false)]
pub fn wp_entries(
    feed_id: &str,
    users: &Vec<WpUser>,
    posts_pages: Vec<WpPage>,
    pages_pages: Vec<WpPage>,
) -> (r: Result<Vec<NormalizedEntry>, ScrapeError>)
    ensures
        ({
            let run_posts = spec_wp_run(posts_pages@, 1, Seq::<WpRawPost>::empty(), 0);
            let run_pages = spec_wp_run(pages_pages@, 1, Seq::<WpRawPost>::empty(), 0);
            match r {
                Err(e) => {
                    ||| (run_posts is Err && e == run_posts->Err_0)
                    ||| (run_posts is Ok && run_pages is Err && e == run_pages->Err_0)
                    ||| (run_posts is Ok && run_pages is Ok && Some(e) == spec_first_entry_err(
                        run_posts->Ok_0.0 + run_pages->Ok_0.0,
                        users@,
                    ))
                },
                Ok(entries) => {
                    &&& run_posts is Ok
                    &&& run_pages is Ok
                    &&& spec_first_entry_err(run_posts->Ok_0.0 + run_pages->Ok_0.0, users@)
                        is None
                    &&& entries@.len() == run_posts->Ok_0.1 + run_pages->Ok_0.1
                    &&& forall|i: int|
                        0 <= i < entries@.len() ==> wp_entry_matches(
                            entries@[i],
                            (run_posts->Ok_0.0 + run_pages->Ok_0.0)[i],
                            feed_id@,
                            users@,
                        )
                },
            }
        }),
{
    proof {
        lemma_wp_run_count(posts_pages@, 1, Seq::<WpRawPost>::empty(), 0);
        lemma_wp_run_count(pages_pages@, 1, Seq::<WpRawPost>::empty(), 0);
    }
    let (mut raw, posts_total) = match wp_collect_stream(posts_pages) {
        Err(e) => {
            return Err(e);
        },
        Ok(got) => got,
    };
    let (mut raw2, pages_total) = match wp_collect_stream(pages_pages) {
        Err(e) => {
            return Err(e);
        },
        Ok(got) => got,
    };
    raw.append(&mut raw2);
    let ghost all = raw@;
    let mut entries: Vec<NormalizedEntry> = Vec::new();
    let mut i: usize = 0;
    proof {
        assert(all.skip(0) =~= all);
    }
    while i < raw.len()
        invariant
            raw@ == all,
            i <= all.len(),
            entries@.len() == i,
            forall|j: int|
                0 <= j < i ==> wp_entry_matches(#[trigger] entries@[j], all[j], feed_id@, users@),
            spec_first_entry_err(all, users@) == spec_first_entry_err(
                all.skip(i as int),
                users@,
            ),
        decreases all.len() - i,
    {
        proof {
            assert(all.skip(i as int)[0] == all[i as int]);
            assert(all.skip(i as int).drop_first() =~= all.skip(i + 1));
        }
        match wp_post_to_entry(&raw[i], feed_id, users) {
            Err(e) => {
                return Err(e);
            },
            Ok(en) => {
                entries.push(en);
            },
        }
        i = i + 1;
    }
    proof {
        assert(all.skip(all.len() as int) =~= Seq::<WpRawPost>::empty());
    }
    Ok(entries)
}

} // verus!
