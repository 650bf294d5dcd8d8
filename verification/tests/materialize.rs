use blog_replay::errors::ScrapeError;
use blog_replay::materialize::feed_from_identity;
use blog_replay::materialize::materialize_one;
use blog_replay::model::FeedData;
use blog_replay::model::NormalizedEntry;
use blog_replay::store::DurableStore;

fn data() -> FeedData {
    FeedData {
        id: "https://feeds.example.org/blog".to_string(),
        key: "blog".to_string(),
        title: "Blog".to_string(),
        url: "https://blog.example.org".to_string(),
    }
}

fn entry(ts: i64, title: &str) -> NormalizedEntry {
    NormalizedEntry {
        id: format!("https://feeds.example.org/blog/{title}"),
        title: title.to_string(),
        published: ts,
        updated: ts,
        authors: Vec::new(),
        content_html: None,
        link: format!("https://blog.example.org/{title}"),
    }
}

fn filled_store(count: i64) -> DurableStore {
    let mut store = DurableStore::new();
    let items: Vec<Result<NormalizedEntry, ScrapeError>> =
        (1..=count).map(|ts| Ok(entry(ts, &format!("e{ts}")))).collect();
    store.ingest(&data(), items).expect("ingest succeeds");
    store
}

#[test]
fn empty_feed_synthesis_names_the_generator() {
    let feed = feed_from_identity(&data(), "replayer", 1000);
    assert_eq!(feed.id, "https://feeds.example.org/blog");
    assert_eq!(feed.key, "blog");
    assert_eq!(feed.title, "Blog (replayer)");
    assert_eq!(feed.url, "https://blog.example.org");
    assert_eq!(feed.updated, 1000);
    assert!(feed.entries.is_empty());
}

#[test]
fn one_materialization_moves_the_single_oldest_entry() {
    // Five entries queued, no retention cap: one invocation renders
    // exactly the oldest and leaves the other four queued.
    let mut store = filled_store(5);
    let mut feed = feed_from_identity(&data(), "replayer", 0);
    let took = materialize_one(&mut feed, &mut store, 9000, None);
    assert!(took);
    assert_eq!(feed.entries.len(), 1);
    assert_eq!(feed.entries[0].title, "e1");
    assert_eq!(feed.entries[0].published, 1);
    assert_eq!(feed.entries[0].updated, 9000);
    assert_eq!(feed.updated, 9000);
    assert_eq!(store.count_pending("blog"), 4);
}

#[test]
fn retention_cap_keeps_the_most_recently_drained() {
    // Five entries drained one at a time under a cap of two: exactly
    // the two most recently drained remain, the older evicted first.
    let mut store = filled_store(5);
    let mut feed = feed_from_identity(&data(), "replayer", 0);
    for step in 0..5i64 {
        let took = materialize_one(&mut feed, &mut store, 9000 + step, Some(2));
        assert!(took);
        assert!(feed.entries.len() <= 2);
    }
    assert_eq!(store.count_pending("blog"), 0);
    assert_eq!(feed.entries.len(), 2);
    assert_eq!(feed.entries[0].title, "e4");
    assert_eq!(feed.entries[0].updated, 9003);
    assert_eq!(feed.entries[1].title, "e5");
    assert_eq!(feed.entries[1].updated, 9004);
}

#[test]
fn empty_queue_is_a_no_op() {
    let mut store = DurableStore::new();
    store.ingest(&data(), Vec::new()).expect("ingest");
    let mut feed = feed_from_identity(&data(), "replayer", 123);
    let took = materialize_one(&mut feed, &mut store, 9000, Some(2));
    assert!(!took);
    assert!(feed.entries.is_empty());
    assert_eq!(feed.updated, 123);
}

#[test]
fn cap_of_zero_renders_nothing_durable() {
    let mut store = filled_store(2);
    let mut feed = feed_from_identity(&data(), "replayer", 0);
    let took = materialize_one(&mut feed, &mut store, 9000, Some(0));
    assert!(took);
    assert!(feed.entries.is_empty());
    assert_eq!(store.count_pending("blog"), 1);
}
