use blog_replay::errors::ScrapeError;
use blog_replay::wordpress::author_name;
use blog_replay::wordpress::parse_usize;
use blog_replay::wordpress::wp_collect_stream;
use blog_replay::wordpress::wp_entries;
use blog_replay::wordpress::wp_page_totals;
use blog_replay::wordpress::wp_post_to_entry;
use blog_replay::wordpress::WpPage;
use blog_replay::wordpress::WpRawPost;
use blog_replay::wordpress::WpUser;

fn post(id: u64, author: u64, date: &str) -> WpRawPost {
    WpRawPost {
        id,
        date_gmt: date.to_string(),
        link: format!("https://blog.example.org/?p={id}"),
        title: format!("Post {id}"),
        content_html: format!("<p>body {id}</p>"),
        author,
    }
}

fn page(total: &str, pages: &str, posts: Vec<WpRawPost>) -> WpPage {
    WpPage {
        total: Some(total.to_string()),
        total_pages: Some(pages.to_string()),
        posts,
    }
}

fn users() -> Vec<WpUser> {
    vec![
        WpUser { id: 7, name: "Alice".to_string() },
        WpUser { id: 9, name: "Bob".to_string() },
    ]
}

fn empty_stream_page() -> WpPage {
    page("0", "0", Vec::new())
}

#[test]
fn number_parsing_is_exact() {
    assert_eq!(parse_usize("0"), Some(0));
    assert_eq!(parse_usize("123"), Some(123));
    assert_eq!(parse_usize(""), None);
    assert_eq!(parse_usize("12a"), None);
    assert_eq!(parse_usize("+12"), None);
    assert_eq!(parse_usize("99999999999999999999999999"), None);
}

#[test]
fn missing_headers_are_fatal() {
    let no_total = WpPage { total: None, total_pages: Some("1".to_string()), posts: Vec::new() };
    assert_eq!(wp_page_totals(&no_total), Err(ScrapeError::MissingTotalHeader));
    let no_pages = WpPage { total: Some("1".to_string()), total_pages: None, posts: Vec::new() };
    assert_eq!(wp_page_totals(&no_pages), Err(ScrapeError::MissingTotalPagesHeader));
    let bad = WpPage {
        total: Some("many".to_string()),
        total_pages: Some("1".to_string()),
        posts: Vec::new(),
    };
    assert_eq!(wp_page_totals(&bad), Err(ScrapeError::MalformedResponse));
    assert_eq!(wp_page_totals(&page("3", "2", Vec::new())), Ok((3, 2)));
}

#[test]
fn author_resolution() {
    let users = users();
    assert_eq!(author_name(&users, 7), Ok("Alice".to_string()));
    assert_eq!(author_name(&users, 9), Ok("Bob".to_string()));
    assert_eq!(author_name(&users, 12), Err(ScrapeError::UnknownAuthor { id: 12 }));
}

#[test]
fn post_normalization_is_exact() {
    let users = users();
    let entry = wp_post_to_entry(&post(5, 7, "2020-01-02T03:04:05"), "https://feeds.example.org/blog", &users)
        .expect("normalizes");
    assert_eq!(entry.id, "https://feeds.example.org/blog/5");
    assert_eq!(entry.title, "Post 5");
    assert_eq!(entry.published, 1_577_934_245);
    assert_eq!(entry.updated, 1_577_934_245);
    assert_eq!(entry.authors.len(), 1);
    assert_eq!(entry.authors[0].name, "Alice");
    assert!(entry.authors[0].uri.is_none());
    assert_eq!(entry.content_html.as_deref(), Some("<p>body 5</p>"));
    assert_eq!(entry.link, "https://blog.example.org/?p=5");
}

#[test]
fn bad_date_and_unknown_author_are_fatal() {
    let users = users();
    assert!(matches!(
        wp_post_to_entry(&post(5, 7, "yesterday"), "f", &users),
        Err(ScrapeError::MalformedResponse)
    ));
    assert!(matches!(
        wp_post_to_entry(&post(5, 42, "2020-01-02T03:04:05"), "f", &users),
        Err(ScrapeError::UnknownAuthor { id: 42 })
    ));
}

#[test]
fn two_pages_yield_declared_total() {
    // A blog declaring three items over two pages of sizes two and one.
    let pages = vec![
        page("3", "2", vec![post(1, 7, "2020-01-02T03:04:05"), post(2, 7, "2020-01-03T00:00:00")]),
        page("3", "2", vec![post(3, 9, "2020-01-04T00:00:00")]),
    ];
    let (items, total) = wp_collect_stream(pages).expect("consistent stream");
    assert_eq!(total, 3);
    assert_eq!(items.len(), 3);
    assert_eq!(items[0].id, 1);
    assert_eq!(items[1].id, 2);
    assert_eq!(items[2].id, 3);
}

#[test]
fn short_stream_is_a_count_mismatch() {
    let pages = vec![page("3", "1", vec![post(1, 7, "2020-01-02T03:04:05"), post(2, 7, "2020-01-03T00:00:00")])];
    match wp_collect_stream(pages) {
        Err(e) => assert_eq!(e, ScrapeError::CountMismatch { expected: 3, seen: 2 }),
        Ok(_) => panic!("a short stream must not pass"),
    }
}

#[test]
fn whole_scrape_attributes_and_counts() {
    let feed_id = "https://feeds.example.org/blog";
    let posts_pages = vec![
        page("3", "2", vec![post(1, 7, "2020-01-02T03:04:05"), post(2, 9, "2020-01-03T00:00:00")]),
        page("3", "2", vec![post(3, 7, "2020-01-04T00:00:00")]),
    ];
    let entries = wp_entries(feed_id, &users(), posts_pages, vec![empty_stream_page()])
        .expect("scrape succeeds");
    assert_eq!(entries.len(), 3);
    assert_eq!(entries[0].id, "https://feeds.example.org/blog/1");
    assert_eq!(entries[1].id, "https://feeds.example.org/blog/2");
    assert_eq!(entries[2].id, "https://feeds.example.org/blog/3");
    assert_eq!(entries[0].authors[0].name, "Alice");
    assert_eq!(entries[1].authors[0].name, "Bob");
    assert_eq!(entries[2].authors[0].name, "Alice");
}

#[test]
fn scrape_surfaces_the_first_normalization_error() {
    let feed_id = "f";
    let posts_pages = vec![page("1", "1", vec![post(1, 42, "2020-01-02T03:04:05")])];
    match wp_entries(feed_id, &users(), posts_pages, vec![empty_stream_page()]) {
        Err(e) => assert_eq!(e, ScrapeError::UnknownAuthor { id: 42 }),
        Ok(_) => panic!("an unknown author must abort the scrape"),
    }
}
