use blog_replay::errors::ScrapeError;
use blog_replay::substack::select_publication;
use blog_replay::substack::subdomain_of;
use blog_replay::substack::substack_entries;
use blog_replay::substack::substack_post_to_entry;
use blog_replay::substack::SubByline;
use blog_replay::substack::SubPostDetail;
use blog_replay::substack::SubRawPost;
use blog_replay::substack::SubstackMeta;

fn post(id: u64, public: bool, publication: u64) -> SubRawPost {
    SubRawPost {
        id,
        title: format!("Post {id}"),
        slug: format!("post-{id}"),
        post_date: "1970-01-01T00:00:05+00:00".to_string(),
        canonical_url: format!("https://myblog.example.org/p/post-{id}"),
        is_public: public,
        publication_id: publication,
    }
}

fn detail(body: &str, bylines: Vec<(&str, &str)>) -> SubPostDetail {
    SubPostDetail {
        body_html: body.to_string(),
        bylines: bylines
            .into_iter()
            .map(|(name, handle)| SubByline { name: name.to_string(), handle: handle.to_string() })
            .collect(),
    }
}

#[test]
fn subdomains_from_hosted_and_custom_domains() {
    assert_eq!(subdomain_of("myblog.substack.com").unwrap(), "myblog");
    assert_eq!(subdomain_of("blog.example.com").unwrap(), "example");
    assert_eq!(subdomain_of("example.com").unwrap(), "example");
    match subdomain_of("localhost") {
        Err(e) => assert_eq!(e, ScrapeError::UnknownBlogType),
        Ok(_) => panic!("a dotless custom domain has no subdomain"),
    }
}

fn meta(id: u64, subdomain: &str, custom: Option<&str>) -> SubstackMeta {
    SubstackMeta {
        id,
        name: format!("Publication {id}"),
        subdomain: subdomain.to_string(),
        custom_domain: custom.map(str::to_string),
    }
}

#[test]
fn publication_selection_prefers_the_first_match() {
    let results = vec![
        meta(1, "other", None),
        meta(2, "myblog", None),
        meta(3, "myblog", None),
    ];
    let sub = "myblog".to_string();
    let dom = "myblog.substack.com".to_string();
    let m = select_publication(results, &sub, &dom).expect("found");
    assert_eq!(m.id, 2);
}

#[test]
fn publication_selection_matches_custom_domains() {
    let results = vec![meta(1, "other", Some("blog.example.com"))];
    let sub = "example".to_string();
    let dom = "blog.example.com".to_string();
    let m = select_publication(results, &sub, &dom).expect("found");
    assert_eq!(m.id, 1);
}

#[test]
fn missing_publication_is_an_error() {
    let results = vec![meta(1, "other", None)];
    let sub = "myblog".to_string();
    let dom = "myblog.substack.com".to_string();
    match select_publication(results, &sub, &dom) {
        Err(e) => assert_eq!(e, ScrapeError::PublicationNotFound),
        Ok(_) => panic!("nothing should match"),
    }
}

#[test]
fn detail_merge_is_exact() {
    let entry = substack_post_to_entry(
        &post(9, true, 42),
        detail("<p>full body</p>", vec![("Alice", "alice"), ("Bob", "bob")]),
        "https://feeds.example.org/myblog",
        42,
    )
    .expect("merges");
    assert_eq!(entry.id, "https://feeds.example.org/myblog/9");
    assert_eq!(entry.title, "Post 9");
    assert_eq!(entry.published, 5);
    assert_eq!(entry.authors.len(), 2);
    assert_eq!(entry.authors[0].name, "Alice");
    assert_eq!(entry.authors[0].uri.as_deref(), Some("https://substack.com/@alice"));
    assert_eq!(entry.authors[1].uri.as_deref(), Some("https://substack.com/@bob"));
    assert_eq!(entry.content_html.as_deref(), Some("<p>full body</p>"));
    assert_eq!(entry.link, "https://myblog.example.org/p/post-9");
}

#[test]
fn foreign_publication_is_fatal() {
    match substack_post_to_entry(&post(9, true, 99), detail("b", Vec::new()), "f", 42) {
        Err(e) => assert_eq!(e, ScrapeError::PublicationMismatch { wanted: 42, found: 99 }),
        Ok(_) => panic!("a foreign post must abort"),
    }
}

#[test]
fn archive_run_keeps_only_public_posts() {
    // Two listed batches; the middle post is subscriber-only and is
    // dropped without counting.
    let batches = vec![
        vec![post(1, true, 42), post(2, false, 42), post(3, true, 42)],
        Vec::new(),
    ];
    let details = vec![detail("<p>one</p>", vec![("Alice", "alice")]), detail("<p>three</p>", Vec::new())];
    let entries = substack_entries(42, "https://feeds.example.org/myblog", batches, details)
        .expect("scrape succeeds");
    assert_eq!(entries.len(), 2);
    assert_eq!(entries[0].id, "https://feeds.example.org/myblog/1");
    assert_eq!(entries[1].id, "https://feeds.example.org/myblog/3");
    assert_eq!(entries[0].content_html.as_deref(), Some("<p>one</p>"));
    assert_eq!(entries[1].content_html.as_deref(), Some("<p>three</p>"));
}

#[test]
fn archive_run_surfaces_a_foreign_post() {
    let batches = vec![vec![post(1, true, 7)], Vec::new()];
    let details = vec![detail("b", Vec::new())];
    match substack_entries(42, "f", batches, details) {
        Err(e) => assert_eq!(e, ScrapeError::PublicationMismatch { wanted: 42, found: 7 }),
        Ok(_) => panic!("a foreign post must abort"),
    }
}
