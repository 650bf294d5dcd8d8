use blog_replay::errors::ScrapeError;
use blog_replay::model::FeedData;
use blog_replay::model::NormalizedEntry;
use blog_replay::store::DurableStore;

fn data(key: &str) -> FeedData {
    FeedData {
        id: format!("https://feeds.example.org/{key}"),
        key: key.to_string(),
        title: format!("Blog {key}"),
        url: format!("https://{key}.example.org"),
    }
}

fn entry(ts: i64, title: &str) -> NormalizedEntry {
    NormalizedEntry {
        id: format!("https://feeds.example.org/blog/{title}"),
        title: title.to_string(),
        published: ts,
        updated: ts,
        authors: Vec::new(),
        content_html: None,
        link: format!("https://blog.example.org/{title}"),
    }
}

fn ok_items(entries: Vec<NormalizedEntry>) -> Vec<Result<NormalizedEntry, ScrapeError>> {
    entries.into_iter().map(Ok).collect()
}

#[test]
fn ingest_orders_the_queue_by_instant() {
    let mut store = DurableStore::new();
    let n = store
        .ingest(&data("blog"), ok_items(vec![entry(30, "c"), entry(10, "a"), entry(20, "b")]))
        .expect("ingest succeeds");
    assert_eq!(n, 3);
    assert_eq!(store.count_pending("blog"), 3);
    assert_eq!(store.drain_one("blog").unwrap().title, "a");
    assert_eq!(store.drain_one("blog").unwrap().title, "b");
    assert_eq!(store.drain_one("blog").unwrap().title, "c");
    assert!(store.drain_one("blog").is_none());
}

#[test]
fn equal_instants_overwrite_last_write_wins() {
    let mut store = DurableStore::new();
    store
        .ingest(&data("blog"), ok_items(vec![entry(10, "first"), entry(10, "second")]))
        .expect("ingest succeeds");
    assert_eq!(store.count_pending("blog"), 1);
    assert_eq!(store.drain_one("blog").unwrap().title, "second");
}

#[test]
fn reingest_is_idempotent_for_unchanged_entries() {
    let mut store = DurableStore::new();
    let items = vec![entry(10, "a"), entry(20, "b")];
    store.ingest(&data("blog"), ok_items(items.clone())).expect("first ingest");
    store.ingest(&data("blog"), ok_items(items)).expect("second ingest");
    assert_eq!(store.count_pending("blog"), 2);
}

#[test]
fn failed_stream_leaves_no_trace() {
    // Three entries stream fine, then the paginator fails: afterwards
    // neither entries nor a metadata record are visible.
    let mut store = DurableStore::new();
    let mut items = ok_items(vec![entry(10, "a"), entry(20, "b"), entry(30, "c")]);
    items.push(Err(ScrapeError::HttpStatus { status: 502 }));
    items.push(Ok(entry(40, "d")));
    match store.ingest(&data("blog"), items) {
        Err(e) => assert_eq!(e, ScrapeError::HttpStatus { status: 502 }),
        Ok(_) => panic!("a failed stream must abort the ingest"),
    }
    assert_eq!(store.count_pending("blog"), 0);
    assert!(store.list_feeds().is_empty());
    assert!(store.drain_one("blog").is_none());
}

#[test]
fn feeds_are_isolated_from_each_other() {
    let mut store = DurableStore::new();
    store.ingest(&data("one"), ok_items(vec![entry(10, "a")])).expect("ingest");
    store.ingest(&data("two"), ok_items(vec![entry(20, "b"), entry(30, "c")])).expect("ingest");
    assert_eq!(store.count_pending("one"), 1);
    assert_eq!(store.count_pending("two"), 2);
    assert_eq!(store.drain_one("two").unwrap().title, "b");
    assert_eq!(store.count_pending("one"), 1);
    assert_eq!(store.count_pending("two"), 1);
}

#[test]
fn listing_shows_every_feed_once() {
    let mut store = DurableStore::new();
    store.ingest(&data("one"), ok_items(vec![entry(10, "a")])).expect("ingest");
    store.ingest(&data("two"), Vec::new()).expect("ingest");
    store.ingest(&data("one"), ok_items(vec![entry(20, "b")])).expect("reingest");
    let feeds = store.list_feeds();
    assert_eq!(feeds.len(), 2);
    assert_eq!(feeds[0].0, "one");
    assert_eq!(feeds[0].1.title, "Blog one");
    assert_eq!(feeds[1].0, "two");
}

#[test]
fn unknown_feed_reads_as_empty() {
    let mut store = DurableStore::new();
    assert_eq!(store.count_pending("nobody"), 0);
    assert!(store.drain_one("nobody").is_none());
}
