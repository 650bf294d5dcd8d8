use blog_replay::blogger::blogger_collect_stream;
use blog_replay::blogger::blogger_entries;
use blog_replay::blogger::blogger_post_to_entry;
use blog_replay::blogger::BloggerBatch;
use blog_replay::blogger::BloggerRawPost;
use blog_replay::errors::ScrapeError;

fn post(id: &str, content: Option<&str>) -> BloggerRawPost {
    BloggerRawPost {
        id: id.to_string(),
        url: format!("https://blog.example.org/{id}"),
        title: format!("Post {id}"),
        content: content.map(str::to_string),
        author_name: "Alice".to_string(),
        author_url: "https://profiles.example.org/alice".to_string(),
        published: "1970-01-01T00:00:05+00:00".to_string(),
    }
}

fn batch(posts: Vec<BloggerRawPost>, token: Option<&str>) -> BloggerBatch {
    BloggerBatch { items: posts, next_page_token: token.map(str::to_string) }
}

#[test]
fn token_stream_collects_until_token_runs_out() {
    let batches = vec![
        batch(vec![post("a", None), post("b", None)], Some("t1")),
        batch(vec![post("c", None)], None),
    ];
    let items = blogger_collect_stream(batches, 3).expect("consistent stream");
    assert_eq!(items.len(), 3);
    assert_eq!(items[0].id, "a");
    assert_eq!(items[1].id, "b");
    assert_eq!(items[2].id, "c");
}

#[test]
fn token_stream_checks_the_declared_total() {
    let batches = vec![batch(vec![post("a", None)], None)];
    match blogger_collect_stream(batches, 4) {
        Err(e) => assert_eq!(e, ScrapeError::CountMismatch { expected: 4, seen: 1 }),
        Ok(_) => panic!("a short stream must not pass"),
    }
}

#[test]
fn blogger_normalization_is_exact() {
    let entry = blogger_post_to_entry(&post("a1", Some("<p>hi</p>")), "https://feeds.example.org/blog")
        .expect("normalizes");
    assert_eq!(entry.id, "https://feeds.example.org/blog/a1");
    assert_eq!(entry.title, "Post a1");
    assert_eq!(entry.published, 5);
    assert_eq!(entry.updated, 5);
    assert_eq!(entry.authors.len(), 1);
    assert_eq!(entry.authors[0].name, "Alice");
    assert_eq!(entry.authors[0].uri.as_deref(), Some("https://profiles.example.org/alice"));
    assert_eq!(entry.content_html.as_deref(), Some("<p>hi</p>"));
    assert_eq!(entry.link, "https://blog.example.org/a1");
}

#[test]
fn blogger_entry_without_body_keeps_no_content() {
    let entry = blogger_post_to_entry(&post("a2", None), "f").expect("normalizes");
    assert!(entry.content_html.is_none());
}

#[test]
fn blogger_bad_date_is_fatal() {
    let mut p = post("a3", None);
    p.published = "soon".to_string();
    match blogger_post_to_entry(&p, "f") {
        Err(e) => assert_eq!(e, ScrapeError::MalformedResponse),
        Ok(_) => panic!("an unparseable date must abort"),
    }
}

#[test]
fn whole_blogger_scrape_spans_posts_and_pages() {
    let posts_batches = vec![
        batch(vec![post("alpha", None)], Some("t")),
        batch(vec![post("beta", None)], None),
    ];
    let pages_batches = vec![batch(vec![post("about", None)], None)];
    let entries = blogger_entries(2, 1, "https://feeds.example.org/blog", posts_batches, pages_batches)
        .expect("scrape succeeds");
    assert_eq!(entries.len(), 3);
    assert_eq!(entries[0].id, "https://feeds.example.org/blog/alpha");
    assert_eq!(entries[1].id, "https://feeds.example.org/blog/beta");
    assert_eq!(entries[2].id, "https://feeds.example.org/blog/about");
}

#[test]
fn zero_totals_skip_the_streams_entirely() {
    let entries = blogger_entries(0, 0, "f", Vec::new(), Vec::new()).expect("nothing to fetch");
    assert!(entries.is_empty());
}
