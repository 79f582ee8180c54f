use appkit::postkit::bluesky::{guess_mime, Bluesky};
use appkit::postkit::model::{
    ComposeError, Facet, Facets, MediaRef, ProviderKind, SourcePost, SourcePostOverride, Step,
};
use appkit::postkit::providers::{FacebookPage, Instagram, X};

fn post(text: &str, media: Vec<MediaRef>, hashtags: Vec<&str>) -> SourcePost {
    SourcePost {
        text: text.into(),
        media,
        hashtags: hashtags.into_iter().map(String::from).collect(),
        platforms: Vec::new(),
    }
}

fn src(text: &str) -> SourcePost {
    post(text, vec![], vec![])
}

fn media(path: &str, alt: Option<&str>, url: Option<&str>) -> MediaRef {
    MediaRef { path: path.into(), alt: alt.map(String::from), url: url.map(String::from) }
}

fn bsky() -> Bluesky {
    Bluesky::new("test".into(), "test.bsky.social".into(), "pw".into())
}

fn x() -> X {
    X::new("test".into(), "key".into(), "secret".into(), "token".into(), "tsecret".into())
}

fn fb() -> FacebookPage {
    FacebookPage::new("test".into(), "123".into(), "TOKEN".into())
}

fn ig() -> Instagram {
    Instagram::new("test".into(), "456".into(), "TOKEN".into())
}

const FB_MAX_GRAPHEMES: usize = 63_206;
const FB_MAX_IMAGES: usize = 10;
const IG_MAX_GRAPHEMES: usize = 2_200;
const IG_MAX_IMAGES: usize = 10;

fn create_text(step: &Step) -> &str {
    match step {
        Step::CreatePost { text, .. } => text,
        _ => panic!("expected CreatePost"),
    }
}

fn rich(step: &Step) -> &Vec<Facet> {
    match step {
        Step::CreatePost { facets: Facets::Rich(f), .. } => f,
        _ => panic!("expected CreatePost with facets"),
    }
}

// ── Source posts ────────────────────────────────────────────────────────────

#[test]
fn resolve_returns_base_when_no_override() {
    let p = post("hello", vec![], vec!["rust"]);
    let resolved = p.resolve(ProviderKind::Bluesky);
    assert_eq!(resolved.text, "hello");
    assert_eq!(resolved.hashtags, vec!["rust"]);
    assert!(resolved.platforms.is_empty());
}

#[test]
fn resolve_applies_text_override() {
    let mut p = src("long default text");
    p.platforms.push((
        "x".into(),
        SourcePostOverride { text: Some("short for X".into()), media: None, hashtags: None },
    ));
    let resolved = p.resolve(ProviderKind::X);
    assert_eq!(resolved.text, "short for X");
    assert!(resolved.platforms.is_empty());
}

#[test]
fn resolve_twice_changes_nothing() {
    let mut p = post("base", vec![media("a.png", Some("alt"), None)], vec!["one"]);
    p.platforms.push((
        "x".into(),
        SourcePostOverride { text: Some("short".into()), media: None, hashtags: Some(vec!["two".into()]) },
    ));
    let once = p.resolve(ProviderKind::X);
    let twice = once.resolve(ProviderKind::X);
    assert_eq!(twice.text, "short");
    assert_eq!(twice.text, once.text);
    assert_eq!(twice.hashtags, once.hashtags);
    assert_eq!(twice.media.len(), 1);
    assert_eq!(twice.media[0].path, "a.png");
    assert!(twice.platforms.is_empty());
}

#[test]
fn resolve_keeps_base_text_for_other_platforms() {
    let mut p = src("default text");
    p.platforms.push((
        "x".into(),
        SourcePostOverride { text: Some("short for X".into()), media: None, hashtags: None },
    ));
    let resolved = p.resolve(ProviderKind::Bluesky);
    assert_eq!(resolved.text, "default text");
}

#[test]
fn resolve_override_replaces_hashtags_only_when_given() {
    let mut p = post("base", vec![media("a.png", None, None)], vec!["one"]);
    p.platforms.push((
        "bluesky".into(),
        SourcePostOverride { text: None, media: Some(vec![]), hashtags: Some(vec!["two".into()]) },
    ));
    let r = p.resolve(ProviderKind::Bluesky);
    assert_eq!(r.text, "base");
    assert!(r.media.is_empty());
    assert_eq!(r.hashtags, vec!["two"]);
    assert_eq!(ProviderKind::MetaInstagram.config_key(), "meta_instagram");
}

// ── Bluesky ─────────────────────────────────────────────────────────────────

#[test]
fn compose_basic_post() {
    let result = bsky().compose(&src("Hello world")).unwrap();
    assert!(result.warnings.is_empty());
    match &result.steps[0] {
        Step::CreatePost { text, media_refs, .. } => {
            assert_eq!(text, "Hello world");
            assert!(media_refs.is_empty());
        }
        _ => panic!("expected CreatePost"),
    }
}

#[test]
fn compose_appends_hashtags() {
    let result = bsky().compose(&post("Hello", vec![], vec!["rust", "dev"])).unwrap();
    assert_eq!(create_text(&result.steps[0]), "Hello\n\n#rust #dev");
}

#[test]
fn compose_allows_exactly_300_graphemes() {
    assert!(bsky().compose(&src(&"a".repeat(300))).is_ok());
}

#[test]
fn compose_counts_emoji_as_one_grapheme() {
    let text = format!("{}{}", "a".repeat(299), "🦀");
    let result = bsky().compose(&src(&text)).unwrap();
    assert_eq!(result.steps.len(), 1);
    assert!(matches!(result.steps[0], Step::CreatePost { .. }));
}

#[test]
fn compose_splits_long_text_into_thread() {
    let result = bsky().compose(&src(&"a".repeat(450))).unwrap();
    assert_eq!(result.steps.len(), 2);
    assert!(matches!(result.steps[0], Step::CreatePost { .. }));
    assert!(matches!(result.steps[1], Step::ThreadContinue { .. }));
    assert_eq!(create_text(&result.steps[0]).chars().count(), 300);
    match &result.steps[1] {
        Step::ThreadContinue { text, .. } => assert_eq!(text.chars().count(), 150),
        _ => panic!(),
    }
}

#[test]
fn compose_splits_at_word_boundary() {
    let text = format!("{} {}", "a".repeat(280), "b".repeat(100));
    let result = bsky().compose(&src(&text)).unwrap();
    assert_eq!(result.steps.len(), 2);
    assert_eq!(create_text(&result.steps[0]), "a".repeat(280));
    match &result.steps[1] {
        Step::ThreadContinue { text, .. } => assert_eq!(text, &"b".repeat(100)),
        _ => panic!(),
    }
}

#[test]
fn compose_rejects_more_than_4_images() {
    let m = (0..5).map(|i| media(&format!("img{i}.png"), None, None)).collect();
    assert_eq!(
        bsky().compose(&post("test", m, vec![])).unwrap_err(),
        ComposeError::TooManyImages { max: 4, got: 5 }
    );
}

#[test]
fn compose_warns_on_missing_alt() {
    let result = bsky().compose(&post("test", vec![media("img.png", None, None)], vec![])).unwrap();
    assert!(!result.warnings.is_empty());
}

#[test]
fn compose_no_warning_with_alt() {
    let result =
        bsky().compose(&post("test", vec![media("img.png", Some("desc"), None)], vec![])).unwrap();
    assert!(result.warnings.is_empty());
}

#[test]
fn compose_detects_url_facet() {
    let result = bsky().compose(&src("Visit https://rust-lang.org please")).unwrap();
    let f = rich(&result.steps[0]);
    assert_eq!(f.len(), 1);
    match &f[0] {
        Facet::Link { uri, .. } => assert_eq!(uri, "https://rust-lang.org"),
        other => panic!("expected a link, got {other:?}"),
    }
}

#[test]
fn compose_detects_hashtag_facet() {
    let result = bsky().compose(&src("Hello #rust world")).unwrap();
    let f = rich(&result.steps[0]);
    assert_eq!(f.len(), 1);
    match &f[0] {
        Facet::Tag { tag, .. } => assert_eq!(tag, "rust"),
        other => panic!("expected a tag, got {other:?}"),
    }
}

#[test]
fn compose_detects_mention_facet() {
    let result = bsky().compose(&src("Hello @alice.bsky.social!")).unwrap();
    let f = rich(&result.steps[0]);
    assert_eq!(f.len(), 1);
    match &f[0] {
        Facet::Mention { handle, .. } => assert_eq!(handle, "alice.bsky.social"),
        other => panic!("expected a mention, got {other:?}"),
    }
}

#[test]
fn compose_facet_byte_offsets_are_correct() {
    let result = bsky().compose(&src("Visit https://rust-lang.org end")).unwrap();
    match &rich(&result.steps[0])[0] {
        Facet::Link { byte_start, byte_end, .. } => {
            assert_eq!(*byte_start, 6);
            assert_eq!(*byte_end, 27);
        }
        other => panic!("expected a link, got {other:?}"),
    }
}

#[test]
fn compose_generates_upload_steps_for_media() {
    let m = vec![media("a.png", Some("A"), None), media("b.png", Some("B"), None)];
    let result = bsky().compose(&post("test", m, vec![])).unwrap();
    assert_eq!(result.steps.len(), 3);
    assert!(matches!(result.steps[0], Step::UploadMedia { .. }));
    assert!(matches!(result.steps[1], Step::UploadMedia { .. }));
    assert!(matches!(result.steps[2], Step::CreatePost { .. }));
}

#[test]
fn bluesky_blank_text_has_nothing_to_post() {
    assert_eq!(bsky().compose(&src(&" ".repeat(301))).unwrap_err(), ComposeError::NoText);
    assert_eq!(create_text(&bsky().compose(&src("   ")).unwrap().steps[0]), "   ");
}

#[test]
fn mime_types_by_extension() {
    assert_eq!(guess_mime("photo.JPG"), "image/jpeg");
    assert_eq!(guess_mime("a.jpeg"), "image/jpeg");
    assert_eq!(guess_mime("a.png"), "image/png");
    assert_eq!(guess_mime("a.gif"), "image/gif");
    assert_eq!(guess_mime("a.webp"), "image/webp");
    assert_eq!(guess_mime("noext"), "application/octet-stream");
}

// ── X ───────────────────────────────────────────────────────────────────────

#[test]
fn lib_compose_basic_post() {
    let result = x().compose(&src("Hello X")).unwrap();
    assert!(result.warnings.is_empty());
    match &result.steps[0] {
        Step::CreatePost { text, media_refs, .. } => {
            assert_eq!(text, "Hello X");
            assert!(media_refs.is_empty());
        }
        _ => panic!("expected CreatePost"),
    }
}

#[test]
fn lib_compose_appends_hashtags() {
    let result = x().compose(&post("Hello", vec![], vec!["rust", "opensource"])).unwrap();
    assert_eq!(create_text(&result.steps[0]), "Hello\n\n#rust #opensource");
}

#[test]
fn compose_rejects_over_280_graphemes() {
    assert!(x().compose(&src(&"a".repeat(281))).is_err());
}

#[test]
fn compose_allows_exactly_280_graphemes() {
    assert!(x().compose(&src(&"a".repeat(280))).is_ok());
}

#[test]
fn lib_compose_counts_emoji_as_one_grapheme() {
    let text = format!("{}{}", "a".repeat(279), "🦀");
    assert!(x().compose(&src(&text)).is_ok());
}

#[test]
fn lib_compose_rejects_more_than_4_images() {
    let m = (0..5).map(|i| media(&format!("img{i}.png"), None, None)).collect();
    assert!(x().compose(&post("test", m, vec![])).is_err());
}

#[test]
fn lib_compose_warns_on_missing_alt() {
    let result = x().compose(&post("test", vec![media("img.png", None, None)], vec![])).unwrap();
    assert!(!result.warnings.is_empty());
    assert_eq!(result.warnings[0], "Imagen 0 sin alt text");
}

#[test]
fn compose_no_facets_in_steps() {
    let result = x().compose(&src("Visit https://example.com")).unwrap();
    assert!(rich(&result.steps[0]).is_empty());
}

#[test]
fn lib_compose_generates_upload_steps_for_media() {
    let result = x().compose(&post("test", vec![media("a.jpg", Some("desc"), None)], vec![])).unwrap();
    assert_eq!(result.steps.len(), 2);
    assert!(matches!(result.steps[0], Step::UploadMedia { .. }));
    assert!(matches!(result.steps[1], Step::CreatePost { .. }));
}

// ── Facebook ────────────────────────────────────────────────────────────────

#[test]
fn fb_compose_basic_post() {
    let result = fb().compose(&src("Hello")).unwrap();
    assert!(result.warnings.is_empty());
    match &result.steps[0] {
        Step::CreatePost { text, media_refs, .. } => {
            assert_eq!(text, "Hello");
            assert!(media_refs.is_empty());
        }
        _ => panic!("expected CreatePost"),
    }
}

#[test]
fn fb_compose_appends_hashtags() {
    let result = fb().compose(&post("Hi", vec![], vec!["rust"])).unwrap();
    assert_eq!(create_text(&result.steps[0]), "Hi\n\n#rust");
}

#[test]
fn fb_compose_allows_exactly_limit() {
    assert!(fb().compose(&src(&"a".repeat(FB_MAX_GRAPHEMES))).is_ok());
}

#[test]
fn fb_compose_rejects_over_limit() {
    assert!(fb().compose(&src(&"a".repeat(FB_MAX_GRAPHEMES + 1))).is_err());
}

#[test]
fn fb_compose_counts_emoji_as_one_grapheme() {
    let text = format!("{}{}", "a".repeat(FB_MAX_GRAPHEMES - 1), "🦀");
    assert!(fb().compose(&src(&text)).is_ok());
}

#[test]
fn fb_compose_rejects_more_than_max_images() {
    let m = (0..=FB_MAX_IMAGES).map(|i| media(&format!("img{i}.png"), None, None)).collect();
    assert!(fb().compose(&post("test", m, vec![])).is_err());
}

#[test]
fn fb_compose_warns_on_missing_alt() {
    let result = fb().compose(&post("test", vec![media("img.png", None, None)], vec![])).unwrap();
    assert!(!result.warnings.is_empty());
}

#[test]
fn fb_compose_no_warning_with_alt() {
    let result = fb().compose(&post("test", vec![media("img.png", Some("desc"), None)], vec![])).unwrap();
    assert!(result.warnings.is_empty());
}

#[test]
fn fb_compose_generates_upload_steps_for_media() {
    let m = vec![media("a.png", Some("A"), None), media("b.png", Some("B"), None)];
    let result = fb().compose(&post("test", m, vec![])).unwrap();
    assert_eq!(result.steps.len(), 3);
    assert!(matches!(result.steps[0], Step::UploadMedia { .. }));
    assert!(matches!(result.steps[1], Step::UploadMedia { .. }));
    assert!(matches!(result.steps[2], Step::CreatePost { .. }));
}

// ── Instagram ───────────────────────────────────────────────────────────────

fn with_url(url: &str) -> MediaRef {
    media("img.jpg", None, Some(url))
}

#[test]
fn ig_compose_basic_post_with_image() {
    let p = post("Hello", vec![media("img.jpg", Some("photo"), Some("https://example.com/img.jpg"))], vec![]);
    let result = ig().compose(&p).unwrap();
    assert!(result.warnings.is_empty());
    assert_eq!(result.steps.len(), 1);
    match &result.steps[0] {
        Step::CreatePost { text, media_refs, facets } => {
            assert_eq!(text, "Hello");
            assert_eq!(media_refs.len(), 1);
            assert!(matches!(facets, Facets::MediaUrls(_)));
        }
        _ => panic!(),
    }
}

#[test]
fn ig_compose_appends_hashtags() {
    let result = ig().compose(&post("Hi", vec![with_url("https://example.com/img.jpg")], vec!["rust"])).unwrap();
    assert_eq!(create_text(&result.steps[0]), "Hi\n\n#rust");
}

#[test]
fn ig_compose_allows_exactly_limit() {
    let p = post(&"a".repeat(IG_MAX_GRAPHEMES), vec![with_url("https://example.com/img.jpg")], vec![]);
    assert!(ig().compose(&p).is_ok());
}

#[test]
fn ig_compose_rejects_over_limit() {
    let p = post(&"a".repeat(IG_MAX_GRAPHEMES + 1), vec![with_url("https://example.com/img.jpg")], vec![]);
    assert!(ig().compose(&p).is_err());
}

#[test]
fn ig_compose_counts_emoji_as_one_grapheme() {
    let text = format!("{}{}", "a".repeat(IG_MAX_GRAPHEMES - 1), "🦀");
    let p = post(&text, vec![with_url("https://example.com/img.jpg")], vec![]);
    assert!(ig().compose(&p).is_ok());
}

#[test]
fn ig_compose_rejects_without_media() {
    assert_eq!(ig().compose(&src("Hello")).unwrap_err(), ComposeError::NoMedia);
}

#[test]
fn ig_compose_rejects_more_than_max_images() {
    let m = (0..=IG_MAX_IMAGES)
        .map(|i| media(&format!("img{i}.png"), None, Some(&format!("https://example.com/img{i}.png"))))
        .collect();
    assert!(ig().compose(&post("test", m, vec![])).is_err());
}

#[test]
fn ig_compose_rejects_media_without_url() {
    let result = ig().compose(&post("test", vec![media("img.jpg", None, None)], vec![]));
    assert_eq!(result.unwrap_err(), ComposeError::MissingMediaUrl { index: 0 });
}

#[test]
fn ig_compose_warns_on_missing_alt() {
    let result = ig().compose(&post("test", vec![with_url("https://example.com/img.jpg")], vec![])).unwrap();
    assert!(!result.warnings.is_empty());
}

#[test]
fn ig_compose_no_warning_with_alt() {
    let p = post("test", vec![media("img.jpg", Some("desc"), Some("https://example.com/img.jpg"))], vec![]);
    assert!(ig().compose(&p).unwrap().warnings.is_empty());
}

#[test]
fn ig_compose_carousel_has_multiple_refs() {
    let p = post(
        "test",
        vec![with_url("https://example.com/a.jpg"), with_url("https://example.com/b.jpg")],
        vec![],
    );
    let result = ig().compose(&p).unwrap();
    match &result.steps[0] {
        Step::CreatePost { media_refs, facets: Facets::MediaUrls(urls), .. } => {
            assert_eq!(media_refs.len(), 2);
            assert_eq!(urls.len(), 2);
        }
        _ => panic!(),
    }
}

#[test]
fn fb_compose_counts_hashtags_in_limit() {
    let p = post(&"a".repeat(FB_MAX_GRAPHEMES), vec![], vec!["rust"]);
    match fb().compose(&p) {
        Err(ComposeError::TextTooLong { graphemes, max }) => {
            assert_eq!(graphemes, FB_MAX_GRAPHEMES + 7);
            assert_eq!(max, FB_MAX_GRAPHEMES);
        }
        other => panic!("expected TextTooLong, got {other:?}"),
    }
    let fits = post(&"a".repeat(FB_MAX_GRAPHEMES - 7), vec![], vec!["rust"]);
    assert!(fb().compose(&fits).is_ok());
}

#[test]
fn ig_compose_counts_hashtags_in_limit() {
    let p = post(&"a".repeat(IG_MAX_GRAPHEMES), vec![with_url("https://example.com/img.jpg")], vec!["rust"]);
    match ig().compose(&p) {
        Err(ComposeError::TextTooLong { graphemes, max }) => {
            assert_eq!(graphemes, IG_MAX_GRAPHEMES + 7);
            assert_eq!(max, IG_MAX_GRAPHEMES);
        }
        other => panic!("expected TextTooLong, got {other:?}"),
    }
    let fits = post(&"a".repeat(IG_MAX_GRAPHEMES - 7), vec![with_url("https://example.com/img.jpg")], vec!["rust"]);
    assert!(ig().compose(&fits).is_ok());
}
