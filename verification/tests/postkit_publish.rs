use appkit::postkit::compose::build_post_text;
use appkit::postkit::model::{Facet, Facets, MediaUrl, PreparedPost, ProviderKind, PublishResult, Step};
use appkit::postkit::providers::X;
use appkit::postkit::publish::{
    attach_indices, bsky_images, bsky_post_url, facebook_post_url, feed_post, instagram_publish,
    mention_handles, plan_requests, record_facets, tweet, x_post_url, FacetFeature, IgPublish, IgPublishError,
    RecordFacet, ThreadState,
};
use appkit::postkit::richtext::detect_facets;
use appkit::postkit::session::{
    session_tokens, session_tokens_now, Session, SessionAction, SessionEvent, SessionFlow, SessionResponse,
};
use appkit::postkit::thread::split_into_chunks;
use unicode_segmentation::UnicodeSegmentation;
use appkit::postkit::verify::{facebook_account, instagram_account, x_account, GraphReply};

fn upload(path: &str, r: &str) -> Step {
    Step::UploadMedia { path: path.into(), alt: None, ref_id: r.into() }
}

fn create(text: &str, refs: &[&str]) -> Step {
    Step::CreatePost { text: text.into(), facets: Facets::Null, media_refs: refs.iter().map(|s| s.to_string()).collect() }
}

fn plan(steps: Vec<Step>) -> PreparedPost {
    PreparedPost { account_id: "a".into(), provider: ProviderKind::X, steps, warnings: vec![] }
}

// ── requests from plans ─────────────────────────────────────────────────────

#[test]
fn plan_requests_collects_uploads_and_last_post() {
    let p = plan(vec![upload("a.png", "img0"), create("first", &["img0"]), upload("b.png", "img1"), create("second", &["img1"])]);
    let r = plan_requests(&p);
    assert_eq!(r.uploads, vec![("a.png".to_string(), "img0".to_string()), ("b.png".to_string(), "img1".to_string())]);
    assert_eq!(r.text, "second");
    assert_eq!(r.media_refs, vec!["img1".to_string()]);
    let empty = plan_requests(&plan(vec![]));
    assert_eq!(empty.text, "");
}

#[test]
fn tweet_attaches_uploaded_media_in_reference_order() {
    let uploaded = vec![("img0".to_string(), "100".to_string()), ("img1".to_string(), "200".to_string())];
    let refs = vec!["img1".to_string(), "missing".to_string(), "img0".to_string()];
    let t = tweet("hi".into(), &refs, &uploaded);
    assert_eq!(t.text, "hi");
    assert_eq!(t.media_ids, Some(vec!["200".to_string(), "100".to_string()]));
    assert_eq!(tweet("hi".into(), &vec![], &uploaded).media_ids, None);
    assert_eq!(x_post_url("123"), "https://x.com/i/web/status/123");
    assert_eq!(attach_indices(&vec!["a".into(), "a".into()], &vec!["a".into(), "b".into(), "a".into()]), vec![2, 2]);
}

#[test]
fn facebook_post_and_link() {
    let f = feed_post("msg".into(), "tok".into(), true, vec!["1".into(), "2".into()]);
    assert_eq!(f.attached_media, Some(vec!["1".to_string(), "2".to_string()]));
    assert_eq!(feed_post("m".into(), "t".into(), false, vec!["1".into()]).attached_media, None);
    assert_eq!(facebook_post_url("123_456").as_deref(), Some("https://www.facebook.com/123/posts/456"));
    assert_eq!(facebook_post_url("123_456_7").as_deref(), Some("https://www.facebook.com/123/posts/456_7"));
    assert_eq!(facebook_post_url("123"), None);
    assert_eq!(facebook_post_url(""), None);
}

fn ig_plan(refs: &[&str], urls: Vec<(&str, Option<&str>)>) -> PreparedPost {
    let entries = urls.into_iter().map(|(r, u)| MediaUrl { ref_id: r.into(), url: u.map(String::from) }).collect();
    plan(vec![Step::CreatePost {
        text: "caption".into(),
        facets: Facets::MediaUrls(entries),
        media_refs: refs.iter().map(|s| s.to_string()).collect(),
    }])
}

#[test]
fn instagram_single_and_carousel() {
    match instagram_publish(&ig_plan(&["img0"], vec![("img0", Some("https://e/a.jpg"))])).unwrap() {
        IgPublish::Single { image_url, caption } => {
            assert_eq!(image_url, "https://e/a.jpg");
            assert_eq!(caption, "caption");
        }
        other => panic!("unexpected {other:?}"),
    }
    match instagram_publish(&ig_plan(&["img0", "img1"], vec![("img0", Some("a")), ("img1", Some("b"))])).unwrap() {
        IgPublish::Carousel { image_urls, .. } => assert_eq!(image_urls, vec!["a".to_string(), "b".to_string()]),
        other => panic!("unexpected {other:?}"),
    }
}

#[test]
fn instagram_missing_urls() {
    let e = instagram_publish(&ig_plan(&["img0"], vec![("img0", None)])).unwrap_err();
    assert_eq!(e, IgPublishError::SingleUrlMissing);
    assert_eq!(e.message(), "Instagram: URL no encontrada para img0");
    let e = instagram_publish(&ig_plan(&["img0", "img1"], vec![("img0", Some("a"))])).unwrap_err();
    assert_eq!(e.message(), "Instagram: URL no encontrada para img1");
    let e = instagram_publish(&plan(vec![upload("a", "b")])).unwrap_err();
    assert_eq!(e, IgPublishError::NoCreatePost);
}

// ── Bluesky threads ─────────────────────────────────────────────────────────

#[test]
fn thread_replies_point_to_root_and_previous() {
    let mut t = ThreadState::new();
    assert!(t.reply().is_none());
    t.root_posted("at://r".into(), "c0".into(), PublishResult { post_url: Some("u".into()), platform_id: "at://r".into(), raw: "{}".into() });
    let r = t.reply().unwrap();
    assert_eq!(r.root, ("at://r".to_string(), "c0".to_string()));
    assert_eq!(r.parent, ("at://r".to_string(), "c0".to_string()));
    t.reply_posted("at://p1".into(), "c1".into());
    let r = t.reply().unwrap();
    assert_eq!(r.root.0, "at://r");
    assert_eq!(r.parent.0, "at://p1");
    assert_eq!(t.finish().unwrap().platform_id, "at://r");
    assert!(ThreadState::new().finish().is_none());
}

#[test]
fn bluesky_links_and_images() {
    assert_eq!(
        bsky_post_url("alice.bsky.social", "at://did:plc:x/app.bsky.feed.post/3k2"),
        "https://bsky.app/profile/alice.bsky.social/post/3k2"
    );
    assert_eq!(bsky_post_url("h", "noslash"), "https://bsky.app/profile/h/post/noslash");
    let uploaded = vec![("img0".to_string(), Some("alt0".to_string())), ("img1".to_string(), None)];
    assert_eq!(
        bsky_images(&vec!["img1".into(), "img0".into(), "x".into()], &uploaded),
        vec![(1, String::new()), (0, "alt0".to_string())]
    );
}

// ── sessions ────────────────────────────────────────────────────────────────

fn response(tag: &str) -> SessionResponse {
    SessionResponse { access_jwt: format!("a-{tag}"), refresh_jwt: format!("r-{tag}"), did: "did:x".into(), handle: "h".into() }
}

#[test]
fn session_login_without_store() {
    let mut f = SessionFlow::new("h".into(), "pw".into(), false);
    match f.step(SessionEvent::Begin { now_ms: 0 }) {
        SessionAction::Create { identifier, password } => assert_eq!((identifier.as_str(), password.as_str()), ("h", "pw")),
        other => panic!("unexpected {other:?}"),
    }
    match f.step(SessionEvent::Created { response: Ok(response("1")), now_ms: 10 }) {
        SessionAction::Established { session, persist } => {
            assert_eq!(session.access_jwt, "a-1");
            assert!(!persist);
        }
        other => panic!("unexpected {other:?}"),
    }
    assert!(matches!(f.step(SessionEvent::Begin { now_ms: 1_000 }), SessionAction::Ready(ref s) if s.access_jwt == "a-1"));
    match f.step(SessionEvent::Begin { now_ms: 10 + 2_700_000 }) {
        SessionAction::Refresh(t) => assert_eq!(t, "r-1"),
        other => panic!("unexpected {other:?}"),
    }
    assert!(matches!(
        f.step(SessionEvent::Refreshed { response: Err("boom".into()), now_ms: 0 }),
        SessionAction::Failed(ref m) if m == "boom"
    ));
}

#[test]
fn session_request_abandoned_midway_does_not_block() {
    let mut f = SessionFlow::new("h".into(), "pw".into(), false);
    assert!(matches!(f.step(SessionEvent::Begin { now_ms: 0 }), SessionAction::Create { .. }));
    // The login call never answers; the next request starts over.
    assert!(matches!(f.step(SessionEvent::Begin { now_ms: 5 }), SessionAction::Create { .. }));
    assert!(matches!(
        f.step(SessionEvent::Created { response: Ok(response("3")), now_ms: 6 }),
        SessionAction::Established { persist: false, .. }
    ));
    assert!(matches!(f.step(SessionEvent::Begin { now_ms: 7 }), SessionAction::Ready(ref s) if s.access_jwt == "a-3"));
}

#[test]
fn session_stored_token_then_login() {
    let mut f = SessionFlow::new("h".into(), "pw".into(), true);
    assert!(matches!(f.step(SessionEvent::Begin { now_ms: 0 }), SessionAction::LoadStored));
    assert!(matches!(f.step(SessionEvent::Stored { refresh_token: Some("old".into()) }), SessionAction::Refresh(ref t) if t == "old"));
    assert!(matches!(f.step(SessionEvent::Refreshed { response: Err("expired".into()), now_ms: 0 }), SessionAction::Create { .. }));
    assert!(matches!(
        f.step(SessionEvent::Created { response: Ok(response("2")), now_ms: 5 }),
        SessionAction::Established { persist: true, .. }
    ));
    assert!(matches!(f.step(SessionEvent::Stored { refresh_token: None }), SessionAction::Failed(_)));
}

#[test]
fn session_tokens_expire_in_eighty_days() {
    let s = Session { access_jwt: "a".into(), refresh_jwt: "r".into(), did: "d".into(), handle: "h".into(), created_ms: 0 };
    let t = session_tokens(&s, 1_000);
    assert_eq!(t.access_token, "a");
    assert_eq!(t.refresh_token.as_deref(), Some("r"));
    assert_eq!(t.expires_at, Some(1_000 + 80 * 24 * 3600));
}

#[test]
fn session_tokens_now_expire_eighty_days_from_now() {
    let s = Session { access_jwt: "a".into(), refresh_jwt: "r".into(), did: "d".into(), handle: "h".into(), created_ms: 0 };
    let before = chrono::Utc::now().timestamp();
    let t = session_tokens_now(&s);
    let after = chrono::Utc::now().timestamp();
    assert_eq!(t.access_token, s.access_jwt);
    assert_eq!(t.refresh_token.as_deref(), Some(s.refresh_jwt.as_str()));
    let exp = t.expires_at.unwrap();
    assert!(exp >= before + 6_912_000 && exp <= after + 6_912_000);
}

// ── account checks ──────────────────────────────────────────────────────────

#[test]
fn graph_replies() {
    let ok = GraphReply { error: None, name: Some("Page".into()), username: None, raw: "{}".into() };
    let a = facebook_account("acc", "123", &ok).unwrap();
    assert_eq!((a.handle.as_str(), a.display_name.as_deref()), ("123", Some("Page")));
    let err = GraphReply { error: Some("{\"code\":190}".into()), name: None, username: None, raw: "{}".into() };
    assert_eq!(facebook_account("acc", "123", &err).unwrap_err(), "Meta API error: {\"code\":190}");
    let odd = GraphReply { error: None, name: None, username: None, raw: "{\"x\":1}".into() };
    assert_eq!(instagram_account("acc", &odd).unwrap_err(), "respuesta inesperada: {\"x\":1}");
    let ig = GraphReply { error: None, name: Some("Name".into()), username: None, raw: "{}".into() };
    assert_eq!(instagram_account("acc", &ig).unwrap().handle, "Name");
    assert_eq!(x_account("acc", "jack".into(), "Jack".into()).provider, ProviderKind::X);
}

// ── text, facets and threads ────────────────────────────────────────────────

#[test]
fn post_text_with_hashtags() {
    assert_eq!(build_post_text("Hello", &["a".to_string(), "b".to_string()]), "Hello\n\n#a #b");
    assert_eq!(build_post_text("", &["a".to_string()]), "#a");
    assert_eq!(build_post_text("Hi", &[]), "Hi");
}

#[test]
fn facets_for_links_tags_and_mentions() {
    let f = detect_facets("see https://a.org #tag @bob.bsky.social");
    assert_eq!(f.len(), 3);
    assert!(matches!(&f[0], Facet::Link { byte_start: 4, byte_end: 17, uri } if uri == "https://a.org"));
    assert!(matches!(&f[1], Facet::Tag { tag, .. } if tag == "tag"));
    assert!(matches!(&f[2], Facet::Mention { handle, .. } if handle == "bob.bsky.social"));
}

#[test]
fn chunks_split_at_spaces() {
    assert_eq!(split_into_chunks("aaa bbb ccc", 7), vec!["aaa".to_string(), "bbb ccc".to_string()]);
    assert_eq!(split_into_chunks("abcdefgh", 3), vec!["abc".to_string(), "def".to_string(), "gh".to_string()]);
    assert_eq!(split_into_chunks("   ", 3), vec!["   ".to_string()]);
    assert!(split_into_chunks("   ", 2).is_empty());
}

// ── OAuth ───────────────────────────────────────────────────────────────────

#[test]
fn oauth_header_is_deterministic_for_fixed_time_and_nonce() {
    let x = X::new("t".into(), "key".into(), "secret".into(), "token".into(), "tsecret".into());
    let h = x.oauth_header_at("post", "https://api.twitter.com/2/tweets", &vec![], 1_700_000_000, "abc");
    assert!(h.starts_with("OAuth oauth_consumer_key=\"key\", oauth_nonce=\"abc\", oauth_signature=\""));
    assert!(h.ends_with("oauth_signature_method=\"HMAC-SHA1\", oauth_timestamp=\"1700000000\", oauth_token=\"token\", oauth_version=\"1.0\""));
    assert_eq!(h, x.oauth_header_at("POST", "https://api.twitter.com/2/tweets", &vec![], 1_700_000_000, "abc"));
    assert_ne!(h, x.oauth_header_at("POST", "https://api.twitter.com/2/tweets", &vec![], 1_700_000_001, "abc"));
    let live = x.oauth_header("GET", "https://api.twitter.com/1.1/account/verify_credentials.json", &vec![]);
    assert!(live.starts_with("OAuth oauth_consumer_key=\"key\""));
}

#[test]
fn oauth_signature_matches_the_twitter_reference_example() {
    // The worked example of Twitter's "Creating a signature" guide.
    let x = X::new(
        "t".into(),
        "xvz1evFS4wEEPTGEFPHBog".into(),
        "kAcSOqF21Fu85e7zjz7ZN2U4ZRhfV3WpwPAoE3Z7kBw".into(),
        "370773112-GmHxMAgYyLbNEtIKZeRNFsMKPR9EyMZeS9weJAEb".into(),
        "LswwdoUaIvS8ltyTt5jkRh4J50vUPVVHtR2YPi5kE".into(),
    );
    let extra = vec![
        ("status".to_string(), "Hello Ladies + Gentlemen, a signed OAuth request!".to_string()),
        ("include_entities".to_string(), "true".to_string()),
    ];
    let h = x.oauth_header_at(
        "post",
        "https://api.twitter.com/1.1/statuses/update.json",
        &extra,
        1318622958,
        "kYjzVBB8Y0ZFabxSWbWovY3uYSQ2pTgmZeNu2VS4cg",
    );
    assert!(h.contains("oauth_signature=\"hCtSmYh%2BiHYCEqBWrE7C7hYmtUk%3D\""), "{h}");
}

#[test]
fn thread_parts_fit_the_limit() {
    let text = "🦀 crab ".repeat(40) + "end";
    let parts = split_into_chunks(&text, 25);
    assert!(parts.len() > 1);
    for p in &parts {
        assert!(!p.is_empty());
        assert!(p.graphemes(true).count() <= 25);
        assert!(text.contains(p.as_str()));
    }
    assert_eq!(split_into_chunks("short", 25), vec!["short".to_string()]);
}

#[test]
fn record_facets_drop_unresolved_mentions() {
    let facets = Facets::Rich(vec![
        Facet::Mention { byte_start: 0, byte_end: 6, handle: "alice".into() },
        Facet::Link { byte_start: 7, byte_end: 20, uri: "https://x.io".into() },
        Facet::Mention { byte_start: 21, byte_end: 25, handle: "bob".into() },
        Facet::Tag { byte_start: 26, byte_end: 31, tag: "rust".into() },
    ]);
    assert_eq!(mention_handles(&facets), vec!["alice".to_string(), "bob".to_string()]);
    let r = record_facets(&facets, &vec![None, Some("did:plc:bob".into())]);
    assert_eq!(
        r,
        vec![
            RecordFacet { byte_start: 7, byte_end: 20, feature: FacetFeature::Link("https://x.io".into()) },
            RecordFacet { byte_start: 21, byte_end: 25, feature: FacetFeature::Mention("did:plc:bob".into()) },
            RecordFacet { byte_start: 26, byte_end: 31, feature: FacetFeature::Tag("rust".into()) },
        ]
    );
    assert!(record_facets(&Facets::Null, &vec![]).is_empty());
    assert!(mention_handles(&Facets::Null).is_empty());
}
