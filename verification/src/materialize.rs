//! The feed materializer.
//!
//! One invocation moves at most one entry from a feed's pending queue
//! into the rendered feed: the oldest queued entry is popped, stamped
//! with the current time (replay semantics), and appended; when a
//! retention cap is configured, the oldest rendered entries are
//! evicted so that at most `max_entries` remain.

use vstd::prelude::*;
use vstd::string::StringExecFns;

use crate::model::FeedData;
use crate::model::NormalizedEntry;
use crate::store::DurableStore;

verus! {

/// The on-disk Atom document, modeled: identity fields, the top-level
/// update instant, and the ordered list of published entries.
pub struct RenderedFeed {
    pub id: String,
    pub key: String,
    pub title: String,
    pub url: String,
    pub updated: i64,
    pub entries: Vec<NormalizedEntry>,
}

/// The newest `m` entries of a list, or the whole list when it is not
/// longer than `m`.
pub open spec fn spec_last_up_to(s: Seq<NormalizedEntry>, m: usize) -> Seq<NormalizedEntry> {
    if s.len() > m {
        s.skip(s.len() - m)
    } else {
        s
    }
}

/// Appending one entry under the retention policy: the entry always
/// lands at the end, and under a cap the oldest entries are evicted
/// down to the cap.
pub open spec fn spec_cap_push(
    s: Seq<NormalizedEntry>,
    e: NormalizedEntry,
    max_entries: Option<usize>,
) -> Seq<NormalizedEntry> {
    match max_entries {
        None => s.push(e),
        Some(m) => spec_last_up_to(s.push(e), m),
    }
}

/// Repeated materialization: appending each drained entry in turn
/// under the cap.
pub open spec fn spec_drain_fold(
    s0: Seq<NormalizedEntry>,
    ds: Seq<NormalizedEntry>,
    m: usize,
) -> Seq<NormalizedEntry>
    decreases ds.len(),
{
    if ds.len() == 0 {
        s0
    } else {
        spec_drain_fold(spec_cap_push(s0, ds[0], Some(m)), ds.drop_first(), m)
    }
}

proof fn lemma_drain_fold_window(s0: Seq<NormalizedEntry>, ds: Seq<NormalizedEntry>, m: usize)
    requires
        ds.len() >= 1,
    ensures
        spec_drain_fold(s0, ds, m) == spec_last_up_to(s0 + ds, m),
    decreases ds.len(),
{
    if ds.len() == 1 {
        assert(s0.push(ds[0]) =~= s0 + ds);
        assert(spec_drain_fold(spec_cap_push(s0, ds[0], Some(m)), ds.drop_first(), m)
            == spec_cap_push(s0, ds[0], Some(m)));
    } else {
        let s1 = spec_cap_push(s0, ds[0], Some(m));
        lemma_drain_fold_window(s1, ds.drop_first(), m);
        assert(spec_last_up_to(s1 + ds.drop_first(), m) =~= spec_last_up_to(s0 + ds, m));
    }
}

/// Draining `K` entries one at a time with a retention cap `M < K`
/// leaves exactly the `M` most recently drained entries in the
/// rendered feed, in drain order: the older ones were evicted first,
/// whatever the feed held before.
pub proof fn lemma_materialize_retention(
    s0: Seq<NormalizedEntry>,
    ds: Seq<NormalizedEntry>,
    m: usize,
)
    requires
        m < ds.len(),
    ensures
        spec_drain_fold(s0, ds, m) == ds.skip(ds.len() - m),
        spec_drain_fold(s0, ds, m).len() == m,
    decreases ds.len(),
{
    lemma_drain_fold_window(s0, ds, m);
    assert(spec_last_up_to(s0 + ds, m) =~= ds.skip(ds.len() - m));
}

/// Synthesizes an empty rendered feed from a feed's identity, naming
/// the generator in the title.
pub fn feed_from_identity(data: &FeedData, generator_name: &str, now: i64) -> (f: RenderedFeed)
    ensures
        f.id@ == data.id@,
        f.key@ == data.key@,
        f.title@ == data.title@ + " ("@ + generator_name@ + ")"@,
        f.url@ == data.url@,
        f.updated == now,
        f.entries@ == Seq::<NormalizedEntry>::empty(),
{
    let mut title = data.title.clone();
    title.append(" (");
    title.append(generator_name);
    title.append(")");
    RenderedFeed {
        id: data.id.clone(),
        key: data.key.clone(),
        title,
        url: data.url.clone(),
        updated: now,
        entries: Vec::new(),
    }
}

/// One materialization step for a feed: pops the oldest pending entry,
/// stamps it with the current time, appends it to the rendered feed,
/// enforces the retention cap, and refreshes the feed's own update
/// instant. With nothing queued, nothing changes at all.
#[verifier::loop_isolation(false)]
pub fn materialize_one(
    feed: &mut RenderedFeed,
    store: &mut DurableStore,
    now: i64,
    max_entries: Option<usize>,
) -> (took: bool)
    requires
        old(store).wf(),
    ensures
        final(store).wf(),
        !took ==> *final(feed) == *old(feed) && *final(store) == *old(store) && old(
            store,
        ).spec_feed_queue(old(feed).key@).len() == 0,
        took ==> old(store).spec_feed_queue(old(feed).key@).len() > 0,
        took ==> final(feed).entries@ == spec_cap_push(
            old(feed).entries@,
            NormalizedEntry {
                updated: now,
                ..old(store).spec_feed_queue(old(feed).key@)[0]
            },
            max_entries,
        ),
        took ==> final(feed).updated == now && final(feed).id == old(feed).id && final(feed).key
            == old(feed).key && final(feed).title == old(feed).title && final(feed).url == old(
            feed,
        ).url,
        took ==> final(store).spec_feed_queue(old(feed).key@) == old(store).spec_feed_queue(
            old(feed).key@,
        ).drop_first(),
        took ==> final(store).spec_feed_meta(old(feed).key@) == old(store).spec_feed_meta(
            old(feed).key@,
        ),
        took ==> forall|k: Seq<char>|
            k != old(feed).key@ ==> #[trigger] final(store).spec_feed_queue(k) == old(
                store,
            ).spec_feed_queue(k) && final(store).spec_feed_meta(k) == old(store).spec_feed_meta(
                k,
            ),
{
    let e = match store.drain_one(feed.key.as_str()) {
        None => {
            return false;
        },
        Some(e) => e,
    };
    let mut stamped = e;
    stamped.updated = now;
    let ghost target = old(feed).entries@.push(stamped);
    feed.entries.push(stamped);
    proof {
        assert(feed.entries@ =~= target.skip(0));
    }
    if let Some(m) = max_entries {
        while feed.entries.len() > m
            invariant
                feed.entries@ == target.skip(target.len() - feed.entries@.len()),
                feed.entries@.len() <= target.len(),
                feed.entries@.len() >= m || feed.entries@ == target,
                feed.id == old(feed).id,
                feed.key == old(feed).key,
                feed.title == old(feed).title,
                feed.url == old(feed).url,
            decreases feed.entries@.len(),
        {
            let ghost before = feed.entries@;
            feed.entries.remove(0);
            proof {
                assert(before.remove(0) =~= before.drop_first());
                assert(target.skip(target.len() - before.len()).drop_first() =~= target.skip(
                    target.len() - before.len() + 1,
                ));
            }
        }
        proof {
            assert(target.skip(0) =~= target);
            assert(feed.entries@ =~= spec_cap_push(old(feed).entries@, stamped, max_entries));
        }
    } else {
        proof {
            assert(target.skip(0) =~= target);
        }
    }
    feed.updated = now;
    true
}

} // verus!
