//! The durable store: feed metadata and the per-feed pending queues.
//!
//! Each feed holds an ordered queue of scraped entries that have not
//! yet reached the rendered feed, keyed by their publication instant.
//! Two entries with the same instant overwrite: the last write wins.
//! Ingest is all-or-nothing: a failure anywhere in the scraped
//! sequence leaves the store exactly as it was.

use vstd::prelude::*;

use crate::errors::ScrapeError;
use crate::keys::str_eq;
use crate::model::FeedData;
use crate::model::NormalizedEntry;

verus! {

/// One feed's persisted state: its identity and its pending queue.
pub struct FeedRecord {
    pub data: FeedData,
    pub queue: Vec<NormalizedEntry>,
}

/// The store: every known feed, each with its pending queue.
pub struct DurableStore {
    pub feeds: Vec<FeedRecord>,
}

/// A pending queue is strictly ordered by publication instant; equal
/// instants never coexist because inserts overwrite.
pub open spec fn queue_sorted(q: Seq<NormalizedEntry>) -> bool {
    forall|i: int, j: int| 0 <= i < j < q.len() ==> q[i].published < q[j].published
}

/// The position of the feed a key names, first match.
pub open spec fn spec_find_feed(feeds: Seq<FeedRecord>, key: Seq<char>) -> Option<int>
    decreases feeds.len(),
{
    if feeds.len() == 0 {
        None
    } else if feeds[0].data.key@ == key {
        Some(0int)
    } else {
        match spec_find_feed(feeds.drop_first(), key) {
            None => None,
            Some(i) => Some(i + 1),
        }
    }
}

proof fn lemma_find_feed_some(feeds: Seq<FeedRecord>, key: Seq<char>)
    ensures
        spec_find_feed(feeds, key) matches Some(i) ==> 0 <= i < feeds.len()
            && feeds[i].data.key@ == key,
    decreases feeds.len(),
{
    if feeds.len() > 0 {
        lemma_find_feed_some(feeds.drop_first(), key);
    }
}

proof fn lemma_find_feed_none(feeds: Seq<FeedRecord>, key: Seq<char>)
    ensures
        spec_find_feed(feeds, key) is None ==> forall|j: int|
            0 <= j < feeds.len() ==> (#[trigger] feeds[j]).data.key@ != key,
    decreases feeds.len(),
{
    if feeds.len() > 0 {
        lemma_find_feed_none(feeds.drop_first(), key);
        if spec_find_feed(feeds, key) is None {
            assert(forall|j: int|
                1 <= j < feeds.len() ==> (#[trigger] feeds[j]).data.key@
                    == feeds.drop_first()[j - 1].data.key@);
        }
    }
}

/// Replacing a record with one of the same key moves no feed: every
/// key still finds the same position.
proof fn lemma_find_feed_update(feeds: Seq<FeedRecord>, i: int, r2: FeedRecord, key: Seq<char>)
    requires
        0 <= i < feeds.len(),
        r2.data.key@ == feeds[i].data.key@,
    ensures
        spec_find_feed(feeds.update(i, r2), key) == spec_find_feed(feeds, key),
    decreases feeds.len(),
{
    let upd = feeds.update(i, r2);
    if i == 0 {
        assert(upd[0] == r2);
        if feeds[0].data.key@ != key {
            assert(upd.drop_first() =~= feeds.drop_first());
        }
    } else {
        assert(upd[0] == feeds[0]);
        if feeds[0].data.key@ != key {
            assert(upd.drop_first() =~= feeds.drop_first().update(i - 1, r2));
            lemma_find_feed_update(feeds.drop_first(), i - 1, r2, key);
        }
    }
}

/// Appending a record of a fresh key leaves every other key's position
/// alone, and gives the fresh key the last position.
proof fn lemma_find_feed_push(feeds: Seq<FeedRecord>, rec: FeedRecord, key: Seq<char>)
    ensures
        spec_find_feed(feeds, key) matches Some(i) ==> spec_find_feed(feeds.push(rec), key)
            == Some(i),
        spec_find_feed(feeds, key) is None && rec.data.key@ == key ==> spec_find_feed(
            feeds.push(rec),
            key,
        ) == Some(feeds.len() as int),
        spec_find_feed(feeds, key) is None && rec.data.key@ != key ==> spec_find_feed(
            feeds.push(rec),
            key,
        ) is None,
    decreases feeds.len(),
{
    if feeds.len() == 0 {
        assert(feeds.push(rec)[0] == rec);
        assert(feeds.push(rec).drop_first() =~= Seq::<FeedRecord>::empty());
        assert(spec_find_feed(Seq::<FeedRecord>::empty(), key) is None);
    } else {
        assert(feeds.push(rec)[0] == feeds[0]);
        assert(feeds.push(rec).drop_first() =~= feeds.drop_first().push(rec));
        lemma_find_feed_push(feeds.drop_first(), rec, key);
    }
}

/// Inserting an entry into an ordered queue: it lands before the first
/// entry with a later instant, and an entry with the same instant is
/// overwritten.
pub open spec fn spec_queue_insert(q: Seq<NormalizedEntry>, e: NormalizedEntry) -> Seq<
    NormalizedEntry,
>
    decreases q.len(),
{
    if q.len() == 0 {
        seq![e]
    } else if e.published < q[0].published {
        seq![e] + q
    } else if e.published == q[0].published {
        seq![e] + q.drop_first()
    } else {
        seq![q[0]] + spec_queue_insert(q.drop_first(), e)
    }
}

/// Inserting a sequence of entries, in order.
pub open spec fn spec_queue_insert_all(
    q: Seq<NormalizedEntry>,
    items: Seq<NormalizedEntry>,
) -> Seq<NormalizedEntry>
    decreases items.len(),
{
    if items.len() == 0 {
        q
    } else {
        spec_queue_insert_all(spec_queue_insert(q, items[0]), items.drop_first())
    }
}

/// Every entry of an insertion's result is the inserted entry or one
/// of the queue's own, and insertion keeps the order strict.
proof fn lemma_queue_insert_sorted(q: Seq<NormalizedEntry>, e: NormalizedEntry)
    requires
        queue_sorted(q),
    ensures
        queue_sorted(spec_queue_insert(q, e)),
        forall|k: int|
            0 <= k < spec_queue_insert(q, e).len() ==> (#[trigger] spec_queue_insert(q, e)[k]
                == e || exists|j: int| 0 <= j < q.len() && spec_queue_insert(q, e)[k] == q[j]),
        forall|k: int|
            0 <= k < spec_queue_insert(q, e).len() ==> (#[trigger] spec_queue_insert(
                q,
                e,
            )[k]).published >= if q.len() == 0 || e.published <= q[0].published {
                e.published
            } else {
                q[0].published
            },
    decreases q.len(),
{
    let res = spec_queue_insert(q, e);
    if q.len() == 0 {
    } else if e.published < q[0].published {
        assert(forall|k: int| 0 <= k < q.len() ==> res[k + 1] == q[k]);
    } else if e.published == q[0].published {
        assert(forall|k: int| 1 <= k < res.len() ==> res[k] == q[k]);
    } else {
        let rest = q.drop_first();
        assert(queue_sorted(rest));
        lemma_queue_insert_sorted(rest, e);
        let sub = spec_queue_insert(rest, e);
        assert(forall|k: int| 1 <= k < res.len() ==> res[k] == sub[k - 1]);
        assert(res[0] == q[0]);
        assert(forall|j: int| 0 <= j < rest.len() ==> rest[j] == q[j + 1]);
    }
}

/// Inserting a whole sequence keeps the queue strictly ordered.
proof fn lemma_queue_insert_all_sorted(q: Seq<NormalizedEntry>, items: Seq<NormalizedEntry>)
    requires
        queue_sorted(q),
    ensures
        queue_sorted(spec_queue_insert_all(q, items)),
    decreases items.len(),
{
    if items.len() > 0 {
        lemma_queue_insert_sorted(q, items[0]);
        lemma_queue_insert_all_sorted(spec_queue_insert(q, items[0]), items.drop_first());
    }
}

/// Inserts one entry into an ordered queue, overwriting on an equal
/// instant.
fn queue_insert(q: &mut Vec<NormalizedEntry>, e: NormalizedEntry)
    requires
        queue_sorted(old(q)@),
    ensures
        final(q)@ == spec_queue_insert(old(q)@, e),
        queue_sorted(final(q)@),
    decreases old(q)@.len(),
{
    proof {
        lemma_queue_insert_sorted(old(q)@, e);
    }
    if q.len() == 0 {
        q.push(e);
        proof {
            assert(q@ =~= spec_queue_insert(old(q)@, e));
        }
        return ;
    }
    if e.published < q[0].published {
        q.insert(0, e);
        proof {
            assert(q@ =~= seq![e] + old(q)@);
        }
        return ;
    }
    if e.published == q[0].published {
        q.set(0, e);
        proof {
            assert(q@ =~= seq![e] + old(q)@.drop_first());
        }
        return ;
    }
    let head = q.remove(0);
    proof {
        assert(old(q)@.remove(0) =~= old(q)@.drop_first());
    }
    queue_insert(q, e);
    q.insert(0, head);
    proof {
        assert(q@ =~= seq![head] + spec_queue_insert(old(q)@.drop_first(), e));
    }
}


/// The first failure in a scraped sequence, if any: the error that
/// aborts the whole ingest.
pub open spec fn spec_first_err_item(items: Seq<Result<NormalizedEntry, ScrapeError>>) -> Option<
    ScrapeError,
>
    decreases items.len(),
{
    if items.len() == 0 {
        None
    } else {
        match items[0] {
            Err(e) => Some(e),
            Ok(_) => spec_first_err_item(items.drop_first()),
        }
    }
}

/// The entries of a scraped sequence, in order.
pub open spec fn spec_ok_entries(items: Seq<Result<NormalizedEntry, ScrapeError>>) -> Seq<
    NormalizedEntry,
>
    decreases items.len(),
{
    if items.len() == 0 {
        Seq::<NormalizedEntry>::empty()
    } else {
        let rest = spec_ok_entries(items.drop_first());
        match items[0] {
            Ok(e) => seq![e] + rest,
            Err(_) => rest,
        }
    }
}

impl DurableStore {
    /// Feed keys are unique and every queue is strictly ordered.
    pub open spec fn wf(self) -> bool {
        &&& forall|i: int, j: int|
            0 <= i < j < self.feeds@.len() ==> (#[trigger] self.feeds@[i]).data.key@ != (
            #[trigger] self.feeds@[j]).data.key@
        &&& forall|i: int|
            0 <= i < self.feeds@.len() ==> queue_sorted((#[trigger] self.feeds@[i]).queue@)
    }

    /// The pending queue of the feed a key names; empty when the key
    /// is unknown.
    pub open spec fn spec_feed_queue(self, key: Seq<char>) -> Seq<NormalizedEntry> {
        match spec_find_feed(self.feeds@, key) {
            None => Seq::<NormalizedEntry>::empty(),
            Some(i) => self.feeds@[i].queue@,
        }
    }

    /// The identity record of the feed a key names.
    pub open spec fn spec_feed_meta(self, key: Seq<char>) -> Option<FeedData> {
        match spec_find_feed(self.feeds@, key) {
            None => None,
            Some(i) => Some(self.feeds@[i].data),
        }
    }

    /// An empty store: no feeds, no queues.
    pub fn new() -> (s: Self)
        ensures
            s.wf(),
            s.feeds@.len() == 0,
            forall|k: Seq<char>| (#[trigger] s.spec_feed_queue(k)).len() == 0,
            forall|k: Seq<char>| (#[trigger] s.spec_feed_meta(k)) is None,
    {
        DurableStore { feeds: Vec::new() }
    }

    fn find_feed(&self, key: &str) -> (r: Option<usize>)
        ensures
            match r {
                Some(i) => spec_find_feed(self.feeds@, key@) == Some(i as int),
                None => spec_find_feed(self.feeds@, key@) is None,
            },
    {
        let mut i: usize = 0;
        proof {
            assert(self.feeds@.skip(0) =~= self.feeds@);
        }
        while i < self.feeds.len()
            invariant
                i <= self.feeds@.len(),
                spec_find_feed(self.feeds@, key@) == match spec_find_feed(
                    self.feeds@.skip(i as int),
                    key@,
                ) {
                    None => None::<int>,
                    Some(j) => Some(j + i),
                },
            decreases self.feeds@.len() - i,
        {
            proof {
                assert(self.feeds@.skip(i as int)[0] == self.feeds@[i as int]);
                assert(self.feeds@.skip(i as int).drop_first() =~= self.feeds@.skip(i + 1));
            }
            if str_eq(self.feeds[i].data.key.as_str(), key) {
                return Some(i);
            }
            i = i + 1;
        }
        proof {
            assert(self.feeds@.skip(self.feeds@.len() as int) =~= Seq::<FeedRecord>::empty());
        }
        None
    }

    /// One atomic ingest: upserts the feed's identity and inserts
    /// every scraped entry into its queue, keyed by publication
    /// instant, the last write winning on an equal instant — or, when
    /// the scraped sequence holds a failure anywhere, changes nothing
    /// at all and surfaces the first failure.
    #[verifier::loop_isolation(false)]
    #[verifier::rlimit(60)]
    pub fn ingest(&mut self, data: &FeedData, items: Vec<Result<NormalizedEntry, ScrapeError>>)
        -> (r: Result<usize, ScrapeError>)
        requires
            old(self).wf(),
        ensures
            final(self).wf(),
            r is Err ==> *final(self) == *old(self) && Some(r->Err_0) == spec_first_err_item(
                items@,
            ),
            r is Ok ==> spec_first_err_item(items@) is None,
            r is Ok ==> r->Ok_0 == items@.len(),
            r is Ok ==> final(self).spec_feed_meta(data.key@) == Some(*data),
            r is Ok ==> final(self).spec_feed_queue(data.key@) == spec_queue_insert_all(
                old(self).spec_feed_queue(data.key@),
                spec_ok_entries(items@),
            ),
            r is Ok ==> forall|k: Seq<char>|
                k != data.key@ ==> #[trigger] final(self).spec_feed_queue(k) == old(
                    self,
                ).spec_feed_queue(k),
            r is Ok ==> forall|k: Seq<char>|
                k != data.key@ ==> #[trigger] final(self).spec_feed_meta(k) == old(
                    self,
                ).spec_feed_meta(k),
    {
        let ghost all_items = items@;
        let mut i: usize = 0;
        proof {
            assert(all_items.skip(0) =~= all_items);
        }
        while i < items.len()
            invariant
                i <= all_items.len(),
                spec_first_err_item(all_items) == spec_first_err_item(
                    all_items.skip(i as int),
                ),
                forall|j: int| 0 <= j < i ==> (#[trigger] all_items[j]) is Ok,
            decreases all_items.len() - i,
        {
            proof {
                assert(all_items.skip(i as int)[0] == all_items[i as int]);
                assert(all_items.skip(i as int).drop_first() =~= all_items.skip(i + 1));
            }
            match &items[i] {
                Err(e) => {
                    return Err(*e);
                },
                Ok(_) => {},
            }
            i = i + 1;
        }
        proof {
            assert(all_items.skip(all_items.len() as int) =~= Seq::<
                Result<NormalizedEntry, ScrapeError>,
            >::empty());
        }
        let ghost feeds0 = self.feeds@;
        let found = self.find_feed(data.key.as_str());
        proof {
            lemma_find_feed_some(feeds0, data.key@);
            lemma_find_feed_none(feeds0, data.key@);
        }
        let mut rec = match found {
            Some(at) => {
                let prev = self.feeds.remove(at);
                FeedRecord { data: data.clone(), queue: prev.queue }
            },
            None => FeedRecord { data: data.clone(), queue: Vec::new() },
        };
        let ghost q0 = rec.queue@;
        proof {
            if found is Some {
                assert(q0 == old(self).spec_feed_queue(data.key@));
            } else {
                assert(q0 =~= old(self).spec_feed_queue(data.key@));
            }
        }
        let mut rest = items;
        let mut n: usize = 0;
        while rest.len() > 0
            invariant
                rest@ == all_items.skip(n as int),
                n <= all_items.len(),
                queue_sorted(rec.queue@),
                rec.data == *data,
                spec_queue_insert_all(q0, spec_ok_entries(all_items)) == spec_queue_insert_all(
                    rec.queue@,
                    spec_ok_entries(rest@),
                ),
            decreases rest@.len(),
        {
            let ghost k = n as int;
            proof {
                assert(all_items.skip(k)[0] == all_items[k]);
                assert(all_items.skip(k).remove(0) =~= all_items.skip(k).drop_first());
                assert(all_items.skip(k).drop_first() =~= all_items.skip(k + 1));
            }
            match rest.remove(0) {
                Ok(e) => {
                    proof {
                        assert((seq![e] + spec_ok_entries(all_items.skip(k + 1))).drop_first()
                            =~= spec_ok_entries(all_items.skip(k + 1)));
                    }
                    queue_insert(&mut rec.queue, e);
                    n = n + 1;
                },
                Err(_) => {
                    proof {
                        assert(false);
                    }
                },
            }
        }
        proof {
            assert(spec_ok_entries(rest@).len() == 0);
            assert(spec_queue_insert_all(rec.queue@, spec_ok_entries(rest@)) == rec.queue@);
        }
        let ghost rec_final = rec;
        match found {
            Some(at) => {
                self.feeds.insert(at, rec);
                proof {
                    assert(self.feeds@ =~= feeds0.update(at as int, rec_final));
                }
            },
            None => {
                self.feeds.push(rec);
            },
        }
        proof {
            match found {
                Some(at) => {
                    assert(self.feeds@[at as int] == rec_final);
                    lemma_find_feed_update(feeds0, at as int, rec_final, data.key@);
                    assert forall|k: Seq<char>| k != data.key@ implies #[trigger] self.spec_feed_queue(k)
                        == old(self).spec_feed_queue(k) by {
                        lemma_find_feed_update(feeds0, at as int, rec_final, k);
                        lemma_find_feed_some(feeds0, k);
                        lemma_find_feed_some(feeds0, data.key@);
                    }
                    assert forall|k: Seq<char>| k != data.key@ implies #[trigger] self.spec_feed_meta(k)
                        == old(self).spec_feed_meta(k) by {
                        lemma_find_feed_update(feeds0, at as int, rec_final, k);
                        lemma_find_feed_some(feeds0, k);
                        lemma_find_feed_some(feeds0, data.key@);
                    }
                    assert forall|i2: int, j2: int|
                        0 <= i2 < j2 < self.feeds@.len() implies (
                    #[trigger] self.feeds@[i2]).data.key@ != (
                    #[trigger] self.feeds@[j2]).data.key@ by {
                        assert(self.feeds@[i2].data.key@ == feeds0[i2].data.key@);
                        assert(self.feeds@[j2].data.key@ == feeds0[j2].data.key@);
                    }
                },
                None => {
                    lemma_find_feed_push(feeds0, rec_final, data.key@);
                    assert(self.feeds@[feeds0.len() as int] == rec_final);
                    assert forall|k: Seq<char>| k != data.key@ implies #[trigger] self.spec_feed_queue(k)
                        == old(self).spec_feed_queue(k) by {
                        lemma_find_feed_push(feeds0, rec_final, k);
                        lemma_find_feed_some(feeds0, k);
                    }
                    assert forall|k: Seq<char>| k != data.key@ implies #[trigger] self.spec_feed_meta(k)
                        == old(self).spec_feed_meta(k) by {
                        lemma_find_feed_push(feeds0, rec_final, k);
                        lemma_find_feed_some(feeds0, k);
                    }
                    assert forall|i2: int, j2: int|
                        0 <= i2 < j2 < self.feeds@.len() implies (
                    #[trigger] self.feeds@[i2]).data.key@ != (
                    #[trigger] self.feeds@[j2]).data.key@ by {
                        if j2 < feeds0.len() {
                            assert(self.feeds@[i2].data.key@ == feeds0[i2].data.key@);
                            assert(self.feeds@[j2].data.key@ == feeds0[j2].data.key@);
                        } else {
                            assert(self.feeds@[i2].data.key@ == feeds0[i2].data.key@);
                            assert(self.feeds@[j2] == rec_final);
                        }
                    }
                },
            }
        }
        Ok(n)
    }

    /// Pops the oldest pending entry of a feed, or nothing when its
    /// queue is empty or the key is unknown. The only mutating read.
    pub fn drain_one(&mut self, feed_key: &str) -> (r: Option<NormalizedEntry>)
        requires
            old(self).wf(),
        ensures
            final(self).wf(),
            r is None ==> *final(self) == *old(self) && old(self).spec_feed_queue(
                feed_key@,
            ).len() == 0,
            r is Some ==> old(self).spec_feed_queue(feed_key@).len() > 0 && r->0 == old(
                self,
            ).spec_feed_queue(feed_key@)[0],
            r is Some ==> final(self).spec_feed_queue(feed_key@) == old(self).spec_feed_queue(
                feed_key@,
            ).drop_first(),
            r is Some ==> final(self).spec_feed_meta(feed_key@) == old(self).spec_feed_meta(
                feed_key@,
            ),
            r is Some ==> forall|k: Seq<char>|
                k != feed_key@ ==> #[trigger] final(self).spec_feed_queue(k) == old(
                    self,
                ).spec_feed_queue(k),
            r is Some ==> forall|k: Seq<char>|
                k != feed_key@ ==> #[trigger] final(self).spec_feed_meta(k) == old(
                    self,
                ).spec_feed_meta(k),
            r is Some ==> ({
                let q2 = final(self).spec_feed_queue(feed_key@);
                forall|j: int| 0 <= j < q2.len() ==> (r->0).published < q2[j].published
            }),
    {
        let ghost feeds0 = self.feeds@;
        let at = match self.find_feed(feed_key) {
            None => {
                return None;
            },
            Some(i) => i,
        };
        proof {
            lemma_find_feed_some(feeds0, feed_key@);
        }
        if self.feeds[at].queue.len() == 0 {
            return None;
        }
        let mut rec = self.feeds.remove(at);
        let e = rec.queue.remove(0);
        proof {
            assert(feeds0[at as int].queue@.remove(0) =~= feeds0[at as int].queue@.drop_first());
        }
        let ghost rec_final = rec;
        self.feeds.insert(at, rec);
        proof {
            assert(self.feeds@ =~= feeds0.update(at as int, rec_final));
            lemma_find_feed_some(feeds0, feed_key@);
            assert(self.feeds@[at as int] == rec_final);
            assert forall|k: Seq<char>| k != feed_key@ implies #[trigger] self.spec_feed_queue(k)
                == old(self).spec_feed_queue(k) by {
                lemma_find_feed_update(feeds0, at as int, rec_final, k);
                lemma_find_feed_some(feeds0, k);
            }
            assert forall|k: Seq<char>| k != feed_key@ implies #[trigger] self.spec_feed_meta(k)
                == old(self).spec_feed_meta(k) by {
                lemma_find_feed_update(feeds0, at as int, rec_final, k);
                lemma_find_feed_some(feeds0, k);
            }
            assert(spec_find_feed(self.feeds@, feed_key@) == spec_find_feed(feeds0, feed_key@))
                by {
                lemma_find_feed_update(feeds0, at as int, rec_final, feed_key@);
            }
            assert forall|i2: int, j2: int|
                0 <= i2 < j2 < self.feeds@.len() implies (
            #[trigger] self.feeds@[i2]).data.key@ != (#[trigger] self.feeds@[j2]).data.key@ by {
                assert(self.feeds@[i2].data.key@ == feeds0[i2].data.key@);
                assert(self.feeds@[j2].data.key@ == feeds0[j2].data.key@);
            }
        }
        Some(e)
    }

    /// How many entries wait in a feed's queue; zero for an unknown
    /// key.
    pub fn count_pending(&self, feed_key: &str) -> (r: usize)
        ensures
            r == self.spec_feed_queue(feed_key@).len(),
    {
        match self.find_feed(feed_key) {
            None => 0,
            Some(i) => {
                proof {
                    lemma_find_feed_some(self.feeds@, feed_key@);
                }
                self.feeds[i].queue.len()
            },
        }
    }

    /// Every known feed's key and identity, in store order.
    pub fn list_feeds(&self) -> (r: Vec<(String, FeedData)>)
        ensures
            r@.len() == self.feeds@.len(),
            forall|i: int|
                0 <= i < r@.len() ==> (#[trigger] r@[i]).0@ == self.feeds@[i].data.key@
                    && r@[i].1 == self.feeds@[i].data,
    {
        let mut out: Vec<(String, FeedData)> = Vec::new();
        let mut i: usize = 0;
        while i < self.feeds.len()
            invariant
                i <= self.feeds@.len(),
                out@.len() == i,
                forall|j: int|
                    0 <= j < i ==> (#[trigger] out@[j]).0@ == self.feeds@[j].data.key@
                        && out@[j].1 == self.feeds@[j].data,
            decreases self.feeds@.len() - i,
        {
            out.push((self.feeds[i].data.key.clone(), self.feeds[i].data.clone()));
            i = i + 1;
        }
        out
    }
}

} // verus!
