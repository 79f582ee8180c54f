//! The providers' pure stage: from a source post to a publishing plan.
//! Credentials are kept here; the network stages run outside the library.

use crate::postkit::compose::{
    alt_warnings, build_post_text, media_steps, post_text, ref_ids, upload_steps,
};
use crate::postkit::model::{
    media_urls_view, opt_view, steps_view, strs_view, Capabilities, ComposeError, Facets, FacetsView, MediaRef,
    MediaUrl, PreparedPost, PreparedView, ProviderKind, SourcePost, Step, StepView,
};
use crate::unicode::{grapheme_clusters, graphemes};
use vstd::prelude::*;

verus! {

/// The view of a composition result.
pub open spec fn plan_view(r: Result<PreparedPost, ComposeError>) -> Result<PreparedView, ComposeError> {
    match r {
        Ok(p) => Ok(p@),
        Err(e) => Err(e),
    }
}

/// Number of grapheme clusters in `s`.
pub open spec fn grapheme_len(s: Seq<char>) -> nat {
    grapheme_clusters(s).len()
}

fn count_graphemes(s: &str) -> (n: usize)
    ensures
        n == grapheme_len(s@),
{
    let g = graphemes(s);
    assert(crate::unicode::strings_view(g@).len() == g@.len());
    g.len()
}

fn clone_string(s: &String) -> (r: String)
    ensures
        r == *s,
{
    s.clone()
}

// ─── X ───────────────────────────────────────────────────────────────────────

/// Longest X post, in grapheme clusters.
pub const X_MAX_CHARS: usize = 280;

/// Most images on one X post.
pub const X_MAX_IMAGES: usize = 4;

/// An X (Twitter) account with OAuth 1.0a credentials.
#[derive(Debug)]
pub struct X {
    pub account_id: String,
    pub api_key: String,
    pub api_secret: String,
    pub access_token: String,
    pub access_token_secret: String,
}

/// The plan for an X post: the text with hashtags, at most 280 grapheme
/// clusters and 4 images; one upload per image, then the post.
pub open spec fn x_plan(account_id: Seq<char>, post: SourcePost) -> Result<PreparedView, ComposeError> {
    let text = post_text(post.text@, strs_view(post.hashtags@));
    let g = grapheme_len(text);
    let n = post.media@.len();
    if g > 280 {
        Err(ComposeError::TextTooLong { graphemes: g as usize, max: 280 })
    } else if n > 4 {
        Err(ComposeError::TooManyImages { max: 4, got: n as usize })
    } else {
        Ok(
            PreparedView {
                account_id,
                provider: ProviderKind::X,
                steps: upload_steps(post.media@).push(
                    StepView::CreatePost {
                        text,
                        facets: FacetsView::Rich(Seq::empty()),
                        media_refs: ref_ids(n),
                    },
                ),
                warnings: alt_warnings(post.media@, "Imagen "@, " sin alt text"@),
            },
        )
    }
}

impl X {
    pub fn new(
        account_id: String,
        api_key: String,
        api_secret: String,
        access_token: String,
        access_token_secret: String,
    ) -> (x: X)
        ensures
            x.account_id == account_id,
            x.api_key == api_key,
            x.api_secret == api_secret,
            x.access_token == access_token,
            x.access_token_secret == access_token_secret,
    {
        X { account_id, api_key, api_secret, access_token, access_token_secret }
    }

    pub fn kind(&self) -> (k: ProviderKind)
        ensures
            k == ProviderKind::X,
    {
        ProviderKind::X
    }

    pub fn capabilities(&self) -> (c: Capabilities)
        ensures
            c == (Capabilities {
                max_text_graphemes: 280,
                max_media: 4,
                supports_threads: false,
                supports_alt_text: true,
            }),
    {
        Capabilities {
            max_text_graphemes: X_MAX_CHARS,
            max_media: X_MAX_IMAGES,
            supports_threads: false,
            supports_alt_text: true,
        }
    }

    /// The plan for `post` (see [`x_plan`]).
    pub fn compose(&self, post: &SourcePost) -> (r: Result<PreparedPost, ComposeError>)
        ensures
            plan_view(r) == x_plan(self.account_id@, *post),
    {
        let text = build_post_text(post.text.as_str(), post.hashtags.as_slice());
        let g = count_graphemes(text.as_str());
        if g > X_MAX_CHARS {
            return Err(ComposeError::TextTooLong { graphemes: g, max: X_MAX_CHARS });
        }
        if post.media.len() > X_MAX_IMAGES {
            return Err(ComposeError::TooManyImages { max: X_MAX_IMAGES, got: post.media.len() });
        }
        let (mut steps, media_refs, warnings) = media_steps(
            post.media.as_slice(),
            "Imagen ",
            " sin alt text",
        );
        let ghost before = steps@;
        steps.push(Step::CreatePost { text, facets: Facets::Rich(Vec::new()), media_refs });
        let p = PreparedPost {
            account_id: clone_string(&self.account_id),
            provider: ProviderKind::X,
            steps,
            warnings,
        };
        proof {
            assert(steps_view(p.steps@) =~= steps_view(before).push(p.steps@.last()@));
            assert(crate::postkit::model::facets_view(Seq::<crate::postkit::model::Facet>::empty())
                =~= Seq::empty());
        }
        Ok(p)
    }
}

// ─── Facebook Page ───────────────────────────────────────────────────────────

/// Longest Facebook post, in grapheme clusters.
pub const FB_MAX_GRAPHEMES: usize = 63_206;

/// Most images on one Facebook post.
pub const FB_MAX_IMAGES: usize = 10;

/// A Facebook Page with its page access token.
#[derive(Debug)]
pub struct FacebookPage {
    pub account_id: String,
    pub page_id: String,
    pub page_access_token: String,
}

/// The plan for a Facebook Page post: the text with hashtags, at most
/// 63,206 grapheme clusters, at most 10 images; one upload per image, then
/// the post.
pub open spec fn facebook_plan(account_id: Seq<char>, post: SourcePost) -> Result<
    PreparedView,
    ComposeError,
> {
    let text = post_text(post.text@, strs_view(post.hashtags@));
    let g = grapheme_len(text);
    let n = post.media@.len();
    if g > 63_206 {
        Err(ComposeError::TextTooLong { graphemes: g as usize, max: 63_206 })
    } else if n > 10 {
        Err(ComposeError::TooManyImages { max: 10, got: n as usize })
    } else {
        Ok(
            PreparedView {
                account_id,
                provider: ProviderKind::MetaPage,
                steps: upload_steps(post.media@).push(
                    StepView::CreatePost {
                        text,
                        facets: FacetsView::Null,
                        media_refs: ref_ids(n),
                    },
                ),
                warnings: alt_warnings(post.media@, "Image "@, " missing alt text"@),
            },
        )
    }
}

impl FacebookPage {
    pub fn new(account_id: String, page_id: String, page_access_token: String) -> (p: FacebookPage)
        ensures
            p.account_id == account_id,
            p.page_id == page_id,
            p.page_access_token == page_access_token,
    {
        FacebookPage { account_id, page_id, page_access_token }
    }

    pub fn kind(&self) -> (k: ProviderKind)
        ensures
            k == ProviderKind::MetaPage,
    {
        ProviderKind::MetaPage
    }

    pub fn capabilities(&self) -> (c: Capabilities)
        ensures
            c == (Capabilities {
                max_text_graphemes: 63_206,
                max_media: 10,
                supports_threads: false,
                supports_alt_text: false,
            }),
    {
        Capabilities {
            max_text_graphemes: FB_MAX_GRAPHEMES,
            max_media: FB_MAX_IMAGES,
            supports_threads: false,
            supports_alt_text: false,
        }
    }

    /// The plan for `post` (see [`facebook_plan`]).
    pub fn compose(&self, post: &SourcePost) -> (r: Result<PreparedPost, ComposeError>)
        ensures
            plan_view(r) == facebook_plan(self.account_id@, *post),
    {
        let text = build_post_text(post.text.as_str(), post.hashtags.as_slice());
        let g = count_graphemes(text.as_str());
        if g > FB_MAX_GRAPHEMES {
            return Err(ComposeError::TextTooLong { graphemes: g, max: FB_MAX_GRAPHEMES });
        }
        if post.media.len() > FB_MAX_IMAGES {
            return Err(ComposeError::TooManyImages { max: FB_MAX_IMAGES, got: post.media.len() });
        }
        let (mut steps, media_refs, warnings) = media_steps(
            post.media.as_slice(),
            "Image ",
            " missing alt text",
        );
        let ghost before = steps@;
        steps.push(Step::CreatePost { text, facets: Facets::Null, media_refs });
        let p = PreparedPost {
            account_id: clone_string(&self.account_id),
            provider: ProviderKind::MetaPage,
            steps,
            warnings,
        };
        proof {
            assert(steps_view(p.steps@) =~= steps_view(before).push(p.steps@.last()@));
        }
        Ok(p)
    }
}

// ─── Instagram ───────────────────────────────────────────────────────────────

/// Longest Instagram caption, in grapheme clusters.
pub const IG_MAX_GRAPHEMES: usize = 2_200;

/// Most images in one Instagram carousel.
pub const IG_MAX_IMAGES: usize = 10;

/// An Instagram business or creator account with its user access token.
#[derive(Debug)]
pub struct Instagram {
    pub account_id: String,
    pub ig_user_id: String,
    pub access_token: String,
}

/// Whether image `i` is the first one without a public URL.
pub open spec fn first_missing_url(media: Seq<MediaRef>, i: int) -> bool {
    &&& 0 <= i < media.len()
    &&& media[i].url is None
    &&& forall|j: int| 0 <= j < i ==> (#[trigger] media[j]).url is Some
}

/// The image URL entries of an Instagram post.
pub open spec fn media_url_entries(media: Seq<MediaRef>) -> Seq<(Seq<char>, Option<Seq<char>>)> {
    Seq::new(media.len(), |i: int| (crate::postkit::compose::ref_id(i as nat), opt_view(media[i].url)))
}

/// The plan for an Instagram post: a caption with hashtags of at most 2,200
/// grapheme clusters, one to 10 images each with a public URL; a single
/// post step carrying the image URLs.
pub open spec fn instagram_plan(account_id: Seq<char>, post: SourcePost) -> Result<
    PreparedView,
    ComposeError,
> {
    let text = post_text(post.text@, strs_view(post.hashtags@));
    let g = grapheme_len(text);
    let n = post.media@.len();
    if g > 2_200 {
        Err(ComposeError::TextTooLong { graphemes: g as usize, max: 2_200 })
    } else if n == 0 {
        Err(ComposeError::NoMedia)
    } else if n > 10 {
        Err(ComposeError::TooManyImages { max: 10, got: n as usize })
    } else if exists|i: int| first_missing_url(post.media@, i) {
        Err(
            ComposeError::MissingMediaUrl {
                index: (choose|i: int| first_missing_url(post.media@, i)) as usize,
            },
        )
    } else {
        Ok(
            PreparedView {
                account_id,
                provider: ProviderKind::MetaInstagram,
                steps: seq![
                    StepView::CreatePost {
                        text,
                        facets: FacetsView::MediaUrls(media_url_entries(post.media@)),
                        media_refs: ref_ids(n),
                    },
                ],
                warnings: alt_warnings(post.media@, "Image "@, " missing alt text"@),
            },
        )
    }
}

impl Instagram {
    pub fn new(account_id: String, ig_user_id: String, access_token: String) -> (p: Instagram)
        ensures
            p.account_id == account_id,
            p.ig_user_id == ig_user_id,
            p.access_token == access_token,
    {
        Instagram { account_id, ig_user_id, access_token }
    }

    pub fn kind(&self) -> (k: ProviderKind)
        ensures
            k == ProviderKind::MetaInstagram,
    {
        ProviderKind::MetaInstagram
    }

    pub fn capabilities(&self) -> (c: Capabilities)
        ensures
            c == (Capabilities {
                max_text_graphemes: 2_200,
                max_media: 10,
                supports_threads: false,
                supports_alt_text: false,
            }),
    {
        Capabilities {
            max_text_graphemes: IG_MAX_GRAPHEMES,
            max_media: IG_MAX_IMAGES,
            supports_threads: false,
            supports_alt_text: false,
        }
    }

    /// The plan for `post` (see [`instagram_plan`]).
    pub fn compose(&self, post: &SourcePost) -> (r: Result<PreparedPost, ComposeError>)
        ensures
            plan_view(r) == instagram_plan(self.account_id@, *post),
    {
        let text = build_post_text(post.text.as_str(), post.hashtags.as_slice());
        let g = count_graphemes(text.as_str());
        if g > IG_MAX_GRAPHEMES {
            return Err(ComposeError::TextTooLong { graphemes: g, max: IG_MAX_GRAPHEMES });
        }
        let n = post.media.len();
        if n == 0 {
            return Err(ComposeError::NoMedia);
        }
        if n > IG_MAX_IMAGES {
            return Err(ComposeError::TooManyImages { max: IG_MAX_IMAGES, got: n });
        }
        let mut i: usize = 0;
        while i < n
            invariant
                n == post.media@.len(),
                text@ == post_text(post.text@, strs_view(post.hashtags@)),
                g == grapheme_len(text@),
                g <= 2_200,
                0 < n <= 10,
                i <= n,
                forall|j: int| 0 <= j < i ==> (#[trigger] post.media@[j]).url is Some,
            decreases n - i,
        {
            if post.media[i].url.is_none() {
                proof {
                    let m = post.media@;
                    assert(first_missing_url(m, i as int));
                    assert(exists|c: int| first_missing_url(m, c));
                    let c = choose|c: int| first_missing_url(m, c);
                    if c < i {
                        assert(m[c].url is Some);
                    }
                    if c > i {
                        assert(m[i as int].url is Some);
                    }
                    assert(c == i);
                }
                return Err(ComposeError::MissingMediaUrl { index: i });
            }
            i = i + 1;
        }
        assert(!exists|c: int| first_missing_url(post.media@, c));
        let (_uploads, media_refs, warnings) = media_steps(
            post.media.as_slice(),
            "Image ",
            " missing alt text",
        );
        let mut urls: Vec<MediaUrl> = Vec::new();
        let mut k: usize = 0;
        while k < n
            invariant
                n == post.media@.len(),
                k <= n,
                urls@.len() == k,
                media_urls_view(urls@) == media_url_entries(
                    post.media@,
                ).subrange(0, k as int),
            decreases n - k,
        {
            let ghost before = urls@;
            let url = post.media[k].url.clone();
            let r = crate::postkit::compose::ref_name_of(k);
            urls.push(MediaUrl { ref_id: r, url });
            proof {
                assert(urls@ == before.push(urls@[k as int]));
                assert forall|j: int| 0 <= j < k + 1 implies #[trigger] media_urls_view(urls@)[j]
                    == media_url_entries(post.media@).subrange(0, k + 1)[j] by {
                    if j < k {
                        assert(urls@[j] == before[j]);
                        assert(media_urls_view(before)[j] == media_url_entries(
                            post.media@,
                        ).subrange(0, k as int)[j]);
                    }
                }
                assert(media_urls_view(urls@) =~= media_url_entries(post.media@).subrange(
                    0,
                    k + 1,
                ));
            }
            k = k + 1;
        }
        assert(media_url_entries(post.media@).subrange(0, n as int) =~= media_url_entries(post.media@));
        let mut steps: Vec<Step> = Vec::new();
        steps.push(Step::CreatePost { text, facets: Facets::MediaUrls(urls), media_refs });
        let p = PreparedPost {
            account_id: clone_string(&self.account_id),
            provider: ProviderKind::MetaInstagram,
            steps,
            warnings,
        };
        proof {
            assert(steps_view(p.steps@) =~= seq![p.steps@[0]@]);
        }
        Ok(p)
    }
}

} // verus!
