//! Types shared by the publishing providers: the platform-agnostic source
//! post, the declarative plan a provider composes from it, and accounts.

use vstd::prelude::*;

verus! {

/// The platforms a post can go to.
#[derive(Debug, Clone, Copy, PartialEq, Eq, Structural, Hash)]
pub enum ProviderKind {
    Bluesky,
    X,
    MetaPage,
    MetaInstagram,
    YouTube,
    TikTok,
}

/// The key under which a platform's overrides are stored.
pub open spec fn config_key_of(k: ProviderKind) -> Seq<char> {
    match k {
        ProviderKind::Bluesky => "bluesky"@,
        ProviderKind::X => "x"@,
        ProviderKind::MetaPage => "meta_page"@,
        ProviderKind::MetaInstagram => "meta_instagram"@,
        ProviderKind::YouTube => "youtube"@,
        ProviderKind::TikTok => "tiktok"@,
    }
}

impl ProviderKind {
    /// The key under which this platform's overrides are stored in a post.
    pub fn config_key(&self) -> (r: &'static str)
        ensures
            r@ == config_key_of(*self),
    {
        match self {
            ProviderKind::Bluesky => "bluesky",
            ProviderKind::X => "x",
            ProviderKind::MetaPage => "meta_page",
            ProviderKind::MetaInstagram => "meta_instagram",
            ProviderKind::YouTube => "youtube",
            ProviderKind::TikTok => "tiktok",
        }
    }
}

/// What a platform accepts.
#[derive(Debug, Clone, Copy, PartialEq, Eq, Structural)]
pub struct Capabilities {
    pub max_text_graphemes: usize,
    pub max_media: usize,
    pub supports_threads: bool,
    pub supports_alt_text: bool,
}

/// An account as the platform reports it after verification.
#[derive(Debug)]
pub struct AccountInfo {
    pub id: String,
    pub provider: ProviderKind,
    pub handle: String,
    pub display_name: Option<String>,
}

/// An image attached to a post.
#[derive(Debug)]
pub struct MediaRef {
    /// Local file to upload.
    pub path: String,
    pub alt: Option<String>,
    /// Public URL, for platforms that take media by URL.
    pub url: Option<String>,
}

impl Clone for MediaRef {
    fn clone(&self) -> (r: MediaRef)
        ensures
            r == *self,
    {
        MediaRef { path: self.path.clone(), alt: self.alt.clone(), url: self.url.clone() }
    }
}

/// Per-platform replacements for parts of a post.
#[derive(Debug, Default)]
pub struct SourcePostOverride {
    pub text: Option<String>,
    pub media: Option<Vec<MediaRef>>,
    pub hashtags: Option<Vec<String>>,
}

/// A post as the author writes it, for any platform.
#[derive(Debug, Default)]
pub struct SourcePost {
    pub text: String,
    pub media: Vec<MediaRef>,
    pub hashtags: Vec<String>,
    /// Per-platform overrides, keyed by [`ProviderKind::config_key`]. The
    /// first entry with a key counts.
    pub platforms: Vec<(String, SourcePostOverride)>,
}

/// The index of the first override entry with key `key`, if any.
pub open spec fn override_index(platforms: Seq<(String, SourcePostOverride)>, key: Seq<char>) -> Option<int> {
    if exists|i: int| 0 <= i < platforms.len() && platforms[i].0@ == key && forall|j: int|
        0 <= j < i ==> (#[trigger] platforms[j]).0@ != key {
        Some(
            choose|i: int|
                0 <= i < platforms.len() && platforms[i].0@ == key && forall|j: int|
                    0 <= j < i ==> (#[trigger] platforms[j]).0@ != key,
        )
    } else {
        None
    }
}

/// The override stored for platform `kind`, if any.
pub open spec fn override_for(p: SourcePost, kind: ProviderKind) -> Option<SourcePostOverride> {
    match override_index(p.platforms@, config_key_of(kind)) {
        Some(i) => Some(p.platforms@[i].1),
        None => None,
    }
}

/// Resolving a resolved post again keeps it as it is: with no overrides
/// left, none applies to any platform, so [`SourcePost::resolve`] keeps the
/// text, media and hashtags.
pub proof fn law_resolve_is_idempotent(p: SourcePost, kind: ProviderKind)
    requires
        p.platforms@.len() == 0,
    ensures
        override_for(p, kind) is None,
{
}

fn clone_strings(v: &Vec<String>) -> (r: Vec<String>)
    ensures
        r@ == v@,
{
    let mut r: Vec<String> = Vec::new();
    let mut i: usize = 0;
    while i < v.len()
        invariant
            i <= v@.len(),
            r@ == v@.subrange(0, i as int),
        decreases v@.len() - i,
    {
        r.push(v[i].clone());
        i = i + 1;
        assert(r@ =~= v@.subrange(0, i as int));
    }
    assert(v@.subrange(0, v@.len() as int) =~= v@);
    r
}

fn clone_media(v: &Vec<MediaRef>) -> (r: Vec<MediaRef>)
    ensures
        r@ == v@,
{
    let mut r: Vec<MediaRef> = Vec::new();
    let mut i: usize = 0;
    while i < v.len()
        invariant
            i <= v@.len(),
            r@ == v@.subrange(0, i as int),
        decreases v@.len() - i,
    {
        r.push(v[i].clone());
        i = i + 1;
        assert(r@ =~= v@.subrange(0, i as int));
    }
    assert(v@.subrange(0, v@.len() as int) =~= v@);
    r
}

impl SourcePost {
    /// The post for platform `kind`: each part replaced by that platform's
    /// override when it gives one, and no overrides left.
    pub fn resolve(&self, kind: ProviderKind) -> (r: SourcePost)
        ensures
            r.platforms@.len() == 0,
            match override_for(*self, kind) {
                Some(ov) => {
                    &&& r.text == (match ov.text {
                        Some(t) => t,
                        None => self.text,
                    })
                    &&& r.media@ == (match ov.media {
                        Some(m) => m@,
                        None => self.media@,
                    })
                    &&& r.hashtags@ == (match ov.hashtags {
                        Some(h) => h@,
                        None => self.hashtags@,
                    })
                },
                None => r.text == self.text && r.media@ == self.media@ && r.hashtags@
                    == self.hashtags@,
            },
    {
        let key = kind.config_key();
        let mut i: usize = 0;
        let mut found: Option<usize> = None;
        while i < self.platforms.len()
            invariant
                i <= self.platforms@.len(),
                key@ == config_key_of(kind),
                found is None ==> forall|j: int| 0 <= j < i ==> (#[trigger] self.platforms@[j]).0@ != key@,
                found is Some ==> {
                    let f = found.unwrap() as int;
                    &&& 0 <= f < self.platforms@.len()
                    &&& self.platforms@[f].0@ == key@
                    &&& forall|j: int| 0 <= j < f ==> (#[trigger] self.platforms@[j]).0@ != key@
                },
            decreases self.platforms@.len() - i,
        {
            if found.is_none() && crate::text::str_eq(self.platforms[i].0.as_str(), key) {
                found = Some(i);
            }
            i = i + 1;
        }
        proof {
            let ps = self.platforms@;
            let k = config_key_of(kind);
            match found {
                Some(f) => {
                    assert(0 <= f < ps.len() && ps[f as int].0@ == k && forall|j: int|
                        0 <= j < f ==> (#[trigger] ps[j]).0@ != k);
                    let c = choose|c: int|
                        0 <= c < ps.len() && ps[c].0@ == k && forall|j: int|
                            0 <= j < c ==> (#[trigger] ps[j]).0@ != k;
                    if c < f {
                        assert(ps[c].0@ != k);
                    }
                    if c > f {
                        assert(ps[f as int].0@ != k);
                    }
                    assert(override_index(ps, k) == Some(f as int));
                },
                None => {
                    assert(override_index(ps, k) is None);
                },
            }
        }
        let (text, media, hashtags) = match found {
            Some(f) => {
                let ov = &self.platforms[f].1;
                (
                    match &ov.text {
                        Some(t) => t.clone(),
                        None => self.text.clone(),
                    },
                    match &ov.media {
                        Some(m) => clone_media(m),
                        None => clone_media(&self.media),
                    },
                    match &ov.hashtags {
                        Some(h) => clone_strings(h),
                        None => clone_strings(&self.hashtags),
                    },
                )
            },
            None => (self.text.clone(), clone_media(&self.media), clone_strings(&self.hashtags)),
        };
        SourcePost { text, media, hashtags, platforms: Vec::new() }
    }
}

/// A detected rich-text range, with byte offsets into the post text.
#[derive(Debug)]
pub enum Facet {
    /// A link to `uri`.
    Link { byte_start: usize, byte_end: usize, uri: String },
    /// A hashtag `tag` (the range covers the `#`).
    Tag { byte_start: usize, byte_end: usize, tag: String },
    /// A mention of `handle` still to be resolved (the range covers the `@`).
    Mention { byte_start: usize, byte_end: usize, handle: String },
}

/// Where an image to attach by URL is found.
#[derive(Debug)]
pub struct MediaUrl {
    pub ref_id: String,
    pub url: Option<String>,
}

/// Platform-specific data attached to a post step.
#[derive(Debug)]
pub enum Facets {
    /// Nothing attached.
    Null,
    /// Rich-text ranges (possibly none).
    Rich(Vec<Facet>),
    /// Images to attach by URL.
    MediaUrls(Vec<MediaUrl>),
}

/// One step of a publishing plan.
#[derive(Debug)]
pub enum Step {
    /// Upload a file and remember it under `ref_id`.
    UploadMedia { path: String, alt: Option<String>, ref_id: String },
    /// Create the post, attaching uploaded media by `ref_id`.
    CreatePost { text: String, facets: Facets, media_refs: Vec<String> },
    /// Reply to the previous post of a thread.
    ThreadContinue { text: String, facets: Facets, media_refs: Vec<String> },
}

/// The plan a provider composes for a post.
#[derive(Debug)]
pub struct PreparedPost {
    pub account_id: String,
    pub provider: ProviderKind,
    pub steps: Vec<Step>,
    pub warnings: Vec<String>,
}

/// The outcome of publishing.
#[derive(Debug)]
pub struct PublishResult {
    pub post_url: Option<String>,
    pub platform_id: String,
    /// The platform's answer to the final request, as JSON text.
    pub raw: String,
}

/// Tokens a provider refreshed and wants kept across restarts.
#[derive(Debug)]
pub struct TokenSet {
    pub access_token: String,
    pub refresh_token: Option<String>,
    /// Expiry of the access token as Unix seconds; `None` when unknown.
    pub expires_at: Option<i64>,
}

// ─── Views of plans ──────────────────────────────────────────────────────────

pub enum FacetView {
    Link { byte_start: usize, byte_end: usize, uri: Seq<char> },
    Tag { byte_start: usize, byte_end: usize, tag: Seq<char> },
    Mention { byte_start: usize, byte_end: usize, handle: Seq<char> },
}

pub enum FacetsView {
    Null,
    Rich(Seq<FacetView>),
    MediaUrls(Seq<(Seq<char>, Option<Seq<char>>)>),
}

pub enum StepView {
    UploadMedia { path: Seq<char>, alt: Option<Seq<char>>, ref_id: Seq<char> },
    CreatePost { text: Seq<char>, facets: FacetsView, media_refs: Seq<Seq<char>> },
    ThreadContinue { text: Seq<char>, facets: FacetsView, media_refs: Seq<Seq<char>> },
}

pub struct PreparedView {
    pub account_id: Seq<char>,
    pub provider: ProviderKind,
    pub steps: Seq<StepView>,
    pub warnings: Seq<Seq<char>>,
}

/// The characters of an optional string.
pub open spec fn opt_view(o: Option<String>) -> Option<Seq<char>> {
    match o {
        Some(s) => Some(s@),
        None => None,
    }
}

/// The views of a sequence of strings.
pub open spec fn strs_view(v: Seq<String>) -> Seq<Seq<char>> {
    v.map_values(|s: String| s@)
}

impl View for Facet {
    type V = FacetView;

    open spec fn view(&self) -> FacetView {
        match self {
            Facet::Link { byte_start, byte_end, uri } => FacetView::Link {
                byte_start: *byte_start,
                byte_end: *byte_end,
                uri: uri@,
            },
            Facet::Tag { byte_start, byte_end, tag } => FacetView::Tag {
                byte_start: *byte_start,
                byte_end: *byte_end,
                tag: tag@,
            },
            Facet::Mention { byte_start, byte_end, handle } => FacetView::Mention {
                byte_start: *byte_start,
                byte_end: *byte_end,
                handle: handle@,
            },
        }
    }
}

/// The view of a list of image URL entries.
pub open spec fn media_urls_view(v: Seq<MediaUrl>) -> Seq<(Seq<char>, Option<Seq<char>>)> {
    v.map_values(|u: MediaUrl| (u.ref_id@, opt_view(u.url)))
}

/// The views of a sequence of facets.
pub open spec fn facets_view(v: Seq<Facet>) -> Seq<FacetView> {
    v.map_values(|f: Facet| f@)
}

impl View for Facets {
    type V = FacetsView;

    open spec fn view(&self) -> FacetsView {
        match self {
            Facets::Null => FacetsView::Null,
            Facets::Rich(v) => FacetsView::Rich(facets_view(v@)),
            Facets::MediaUrls(v) => FacetsView::MediaUrls(media_urls_view(v@)),
        }
    }
}

impl View for Step {
    type V = StepView;

    open spec fn view(&self) -> StepView {
        match self {
            Step::UploadMedia { path, alt, ref_id } => StepView::UploadMedia {
                path: path@,
                alt: opt_view(*alt),
                ref_id: ref_id@,
            },
            Step::CreatePost { text, facets, media_refs } => StepView::CreatePost {
                text: text@,
                facets: facets@,
                media_refs: strs_view(media_refs@),
            },
            Step::ThreadContinue { text, facets, media_refs } => StepView::ThreadContinue {
                text: text@,
                facets: facets@,
                media_refs: strs_view(media_refs@),
            },
        }
    }
}

/// The views of a sequence of steps.
pub open spec fn steps_view(v: Seq<Step>) -> Seq<StepView> {
    v.map_values(|s: Step| s@)
}

impl View for PreparedPost {
    type V = PreparedView;

    open spec fn view(&self) -> PreparedView {
        PreparedView {
            account_id: self.account_id@,
            provider: self.provider,
            steps: steps_view(self.steps@),
            warnings: strs_view(self.warnings@),
        }
    }
}

/// Why a post cannot be composed for a platform.
#[derive(Debug, PartialEq, Eq, Structural)]
pub enum ComposeError {
    /// More images than the platform takes.
    TooManyImages { max: usize, got: usize },
    /// Text longer than the platform takes, in grapheme clusters.
    TextTooLong { graphemes: usize, max: usize },
    /// The platform needs at least one image.
    NoMedia,
    /// Image `index` has no public URL.
    MissingMediaUrl { index: usize },
    /// The text splits into no non-blank part to post.
    NoText,
}

} // verus!
