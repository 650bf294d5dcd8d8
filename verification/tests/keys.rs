use blog_replay::config::Config;
use blog_replay::keys::sanitize_blog_key;
use blog_replay::keys::u64_to_string;
use blog_replay::model::path_from_feed_data;
use blog_replay::model::make_feed_identity;
use blog_replay::model::FeedData;

#[test]
fn sanitize_lowercases_and_collapses_runs() {
    assert_eq!(sanitize_blog_key("My Cool Blog!"), "my_cool_blog_");
    assert_eq!(sanitize_blog_key("Blog2000"), "blog2000");
    assert_eq!(sanitize_blog_key(""), "");
    assert_eq!(sanitize_blog_key("  --  "), "_");
}

#[test]
fn sanitize_separates_words_at_case_boundaries() {
    assert_eq!(sanitize_blog_key("MyBlog"), "my_blog");
    assert_eq!(sanitize_blog_key("aBcD"), "a_bc_d");
    assert_eq!(sanitize_blog_key("ALLCAPS"), "allcaps");
}

#[test]
fn sanitize_is_idempotent() {
    for title in ["My Cool Blog!", "A--B__C", "ALL CAPS", "MyBlog", "ünïcödé", ""] {
        let once = sanitize_blog_key(title);
        let twice = sanitize_blog_key(&once);
        assert_eq!(once, twice);
    }
}

#[test]
fn sanitize_collides_by_design() {
    assert_eq!(sanitize_blog_key("My Blog"), sanitize_blog_key("my-blog"));
    assert_eq!(sanitize_blog_key("My Blog"), "my_blog");
}

#[test]
fn decimal_rendering() {
    assert_eq!(u64_to_string(0), "0");
    assert_eq!(u64_to_string(7), "7");
    assert_eq!(u64_to_string(1234567890), "1234567890");
    assert_eq!(u64_to_string(u64::MAX), "18446744073709551615");
}

#[test]
fn feed_identity_derivation() {
    let data = make_feed_identity("My Cool Blog!", "https://blog.example.org", "https://feeds.example.org");
    assert_eq!(data.key, "my_cool_blog_");
    assert_eq!(data.id, "https://feeds.example.org/my_cool_blog_");
    assert_eq!(data.title, "My Cool Blog!");
    assert_eq!(data.url, "https://blog.example.org");
}

#[test]
fn path_from_key_and_output_dir() {
    let config = Config {
        blogger_api_key: String::new(),
        feed_url_base: "https://feeds.example.org".to_string(),
        feed_path: "/var/feeds".to_string(),
        max_retries: 5,
        max_entries: None,
    };
    let data = FeedData {
        id: "https://feeds.example.org/my_blog".to_string(),
        key: "my_blog".to_string(),
        title: "My Blog".to_string(),
        url: "https://blog.example.org".to_string(),
    };
    assert_eq!(path_from_feed_data(&config, &data), "/var/feeds/my_blog.atom");
}

#[test]
fn default_config() {
    let config = Config::default();
    assert_eq!(config.blogger_api_key, "");
    assert_eq!(config.feed_url_base, "");
    assert_eq!(config.feed_path, "");
    assert_eq!(config.max_retries, 5);
    assert!(config.max_entries.is_none());
}
