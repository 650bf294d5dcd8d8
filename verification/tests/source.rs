use blog_replay::blogger::BloggerMeta;
use blog_replay::config::Config;
use blog_replay::errors::ScrapeError;
use blog_replay::source::detect_blog_type;
use blog_replay::source::BlogSource;
use blog_replay::source::BlogType;
use blog_replay::substack::SubstackMeta;

fn config() -> Config {
    Config {
        blogger_api_key: String::new(),
        feed_url_base: "https://feeds.example.org".to_string(),
        feed_path: "/var/feeds".to_string(),
        max_retries: 5,
        max_entries: None,
    }
}

#[test]
fn detection_order_is_wordpress_blogger_substack() {
    assert_eq!(detect_blog_type(true, true, true), Ok(BlogType::Wordpress));
    assert_eq!(detect_blog_type(false, true, true), Ok(BlogType::Blogger));
    assert_eq!(detect_blog_type(false, false, true), Ok(BlogType::Substack));
    assert_eq!(detect_blog_type(false, false, false), Err(ScrapeError::UnknownBlogType));
}

#[test]
fn wordpress_identity_is_derived_from_the_title() {
    let source = BlogSource::Wordpress {
        name: "My Cool Blog!".to_string(),
        home: "https://blog.example.org".to_string(),
    };
    assert_eq!(source.blog_type(), BlogType::Wordpress);
    let data = source.feed_data(&config());
    assert_eq!(data.key, "my_cool_blog_");
    assert_eq!(data.id, "https://feeds.example.org/my_cool_blog_");
    assert_eq!(data.title, "My Cool Blog!");
    assert_eq!(data.url, "https://blog.example.org");
}

#[test]
fn blogger_identity_is_derived_from_the_metadata() {
    let source = BlogSource::Blogger {
        meta: BloggerMeta {
            id: "1234".to_string(),
            name: "Old Blog".to_string(),
            url: "https://old.example.org".to_string(),
            posts_total: 10,
            pages_total: 2,
        },
    };
    assert_eq!(source.blog_type(), BlogType::Blogger);
    let data = source.feed_data(&config());
    assert_eq!(data.key, "old_blog");
    assert_eq!(data.id, "https://feeds.example.org/old_blog");
    assert_eq!(data.title, "Old Blog");
    assert_eq!(data.url, "https://old.example.org");
}

#[test]
fn substack_identity_is_derived_from_the_title() {
    let source = BlogSource::Substack {
        meta: SubstackMeta {
            id: 42,
            name: "My Letter".to_string(),
            subdomain: "myletter".to_string(),
            custom_domain: None,
        },
        url: "https://myletter.substack.com".to_string(),
    };
    assert_eq!(source.blog_type(), BlogType::Substack);
    let data = source.feed_data(&config());
    assert_eq!(data.key, "my_letter");
    assert_eq!(data.id, "https://feeds.example.org/my_letter");
    assert_eq!(data.title, "My Letter");
    assert_eq!(data.url, "https://myletter.substack.com");
}
