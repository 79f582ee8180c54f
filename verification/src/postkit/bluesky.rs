//! The Bluesky provider's pure stage: long texts become threads, links,
//! hashtags and mentions become facets.

use crate::postkit::compose::{
    alt_warnings, build_post_text, media_steps, post_text, ref_ids, upload_steps,
};
use crate::postkit::model::{
    steps_view, strs_view, Capabilities, ComposeError, Facets, FacetsView,
    MediaRef, PreparedPost, PreparedView, ProviderKind, SourcePost, Step, StepView,
};
use crate::postkit::providers::plan_view;
use crate::postkit::richtext::{detect_facets, facets_of};
use crate::postkit::thread::{split_chunks, split_into_chunks};
use crate::unicode::strings_view;
use vstd::prelude::*;

verus! {

/// Longest Bluesky post, in grapheme clusters.
pub const MAX_GRAPHEMES: usize = 300;

/// Most images on one Bluesky post.
pub const MAX_IMAGES: usize = 4;

/// A Bluesky account with an app password.
#[derive(Debug)]
pub struct Bluesky {
    pub account_id: String,
    pub handle: String,
    pub app_password: String,
}

/// The post steps for the thread parts of `text`: the first part creates the
/// post with the uploaded images, each further part replies to the previous
/// one; `None` when `text` has no non-blank part.
pub open spec fn text_steps(text: Seq<char>, max: nat, refs: Seq<Seq<char>>) -> Option<Seq<StepView>> {
    let cs = split_chunks(text, max);
    if cs.len() == 0 {
        None
    } else {
        Some(
            Seq::new(
                cs.len(),
                |i: int|
                    if i == 0 {
                        StepView::CreatePost {
                            text: cs[0],
                            facets: FacetsView::Rich(facets_of(cs[0])),
                            media_refs: refs,
                        }
                    } else {
                        StepView::ThreadContinue {
                            text: cs[i],
                            facets: FacetsView::Rich(facets_of(cs[i])),
                            media_refs: Seq::empty(),
                        }
                    },
            ),
        )
    }
}

/// The post steps for `text` split into parts of at most `max` grapheme
/// clusters (see [`text_steps`]).
pub fn build_text_steps(text: &str, max: usize, media_refs: Vec<String>) -> (r: Result<
    Vec<Step>,
    ComposeError,
>)
    requires
        max > 0,
    ensures
        match text_steps(text@, max as nat, strs_view(media_refs@)) {
            Some(s) => r is Ok && steps_view(r.unwrap()@) == s,
            None => r == Err::<Vec<Step>, ComposeError>(ComposeError::NoText),
        },
{
    let chunks = split_into_chunks(text, max);
    let ghost cs = strings_view(chunks@);
    if chunks.len() == 0 {
        return Err(ComposeError::NoText);
    }
    let ghost refs_v = strs_view(media_refs@);
    let ghost spec_steps = text_steps(text@, max as nat, refs_v).unwrap();
    let n = chunks.len();
    let mut steps: Vec<Step> = Vec::new();
    let first = chunks[0].clone();
    let facets = detect_facets(first.as_str());
    steps.push(Step::CreatePost { text: first, facets: Facets::Rich(facets), media_refs });
    let mut i: usize = 1;
    while i < n
        invariant
            n == chunks@.len(),
            cs == strings_view(chunks@),
            cs == split_chunks(text@, max as nat),
            n > 0,
            1 <= i <= n,
            spec_steps == text_steps(text@, max as nat, refs_v).unwrap(),
            text_steps(text@, max as nat, refs_v) is Some,
            spec_steps.len() == n,
            steps@.len() == i,
            forall|j: int| 0 <= j < i ==> (#[trigger] steps@[j])@ == spec_steps[j],
        decreases n - i,
    {
        let c = chunks[i].clone();
        let f = detect_facets(c.as_str());
        steps.push(Step::ThreadContinue { text: c, facets: Facets::Rich(f), media_refs: Vec::new() });
        proof {
            assert(strs_view(Seq::<String>::empty()) =~= Seq::empty());
            assert(c@ == cs[i as int]);
            assert(steps@[i as int]@ == spec_steps[i as int]);
        }
        i = i + 1;
    }
    assert(steps_view(steps@) =~= spec_steps);
    Ok(steps)
}

/// Upload steps, upload names and warnings for at most `max` images.
pub fn prepare_media_steps(media: &[MediaRef], max: usize) -> (r: Result<
    (Vec<Step>, Vec<String>, Vec<String>),
    ComposeError,
>)
    ensures
        media@.len() > max ==> r == Err::<(Vec<Step>, Vec<String>, Vec<String>), ComposeError>(
            ComposeError::TooManyImages { max, got: media@.len() as usize },
        ),
        media@.len() <= max ==> r is Ok && steps_view(r.unwrap().0@) == upload_steps(media@)
            && strs_view(r.unwrap().1@) == ref_ids(media@.len()) && strs_view(r.unwrap().2@)
            == alt_warnings(media@, "Image "@, " missing alt text (accessibility)"@),
{
    if media.len() > max {
        return Err(ComposeError::TooManyImages { max, got: media.len() });
    }
    Ok(media_steps(media, "Image ", " missing alt text (accessibility)"))
}

/// The plan for a Bluesky post: the text with hashtags split into a thread
/// of posts of at most 300 grapheme clusters, at most 4 images uploaded
/// first and attached to the first post.
pub open spec fn bluesky_plan(account_id: Seq<char>, post: SourcePost) -> Result<
    PreparedView,
    ComposeError,
> {
    let text = post_text(post.text@, strs_view(post.hashtags@));
    let n = post.media@.len();
    if n > 4 {
        Err(ComposeError::TooManyImages { max: 4, got: n as usize })
    } else {
        match text_steps(text, 300, ref_ids(n)) {
            None => Err(ComposeError::NoText),
            Some(ts) => Ok(
                PreparedView {
                    account_id,
                    provider: ProviderKind::Bluesky,
                    steps: upload_steps(post.media@) + ts,
                    warnings: alt_warnings(
                        post.media@,
                        "Image "@,
                        " missing alt text (accessibility)"@,
                    ),
                },
            ),
        }
    }
}

impl Bluesky {
    pub fn new(account_id: String, handle: String, app_password: String) -> (b: Bluesky)
        ensures
            b.account_id == account_id,
            b.handle == handle,
            b.app_password == app_password,
    {
        Bluesky { account_id, handle, app_password }
    }

    pub fn kind(&self) -> (k: ProviderKind)
        ensures
            k == ProviderKind::Bluesky,
    {
        ProviderKind::Bluesky
    }

    pub fn capabilities(&self) -> (c: Capabilities)
        ensures
            c == (Capabilities {
                max_text_graphemes: 300,
                max_media: 4,
                supports_threads: true,
                supports_alt_text: true,
            }),
    {
        Capabilities {
            max_text_graphemes: MAX_GRAPHEMES,
            max_media: MAX_IMAGES,
            supports_threads: true,
            supports_alt_text: true,
        }
    }

    /// The plan for `post` (see [`bluesky_plan`]).
    pub fn compose(&self, post: &SourcePost) -> (r: Result<PreparedPost, ComposeError>)
        ensures
            plan_view(r) == bluesky_plan(self.account_id@, *post),
    {
        let text = build_post_text(post.text.as_str(), post.hashtags.as_slice());
        let (mut steps, media_refs, warnings) = match prepare_media_steps(
            post.media.as_slice(),
            MAX_IMAGES,
        ) {
            Ok(parts) => parts,
            Err(e) => {
                return Err(e);
            },
        };
        let mut text_part = match build_text_steps(text.as_str(), MAX_GRAPHEMES, media_refs) {
            Ok(s) => s,
            Err(e) => {
                return Err(e);
            },
        };
        let ghost a = steps@;
        let ghost b = text_part@;
        steps.append(&mut text_part);
        assert(steps_view(steps@) =~= steps_view(a) + steps_view(b));
        Ok(
            PreparedPost {
                account_id: self.account_id.clone(),
                provider: ProviderKind::Bluesky,
                steps,
                warnings,
            },
        )
    }
}

// ─── Media types ─────────────────────────────────────────────────────────────

/// The extension of `path` as `Path::extension` gives it (after the last
/// `.` of the file name, unless the name starts with that dot). What counts
/// as the file name follows the platform's path rules, so the name stands
/// for the rules of the target the crate is built for.
pub uninterp spec fn path_extension(path: Seq<char>) -> Option<Seq<char>>;

/// `Path::extension` of `path`, as text.
#[verifier::external_body]
fn extension_of(path: &str) -> (r: Option<String>)
    ensures
        match r {
            Some(e) => path_extension(path@) == Some(e@),
            None => path_extension(path@) is None,
        },
{
    std::path::Path::new(path).extension().and_then(|s| s.to_str()).map(|s| s.to_string())
}

/// `c` with ASCII capitals made small (`char::to_ascii_lowercase`).
pub open spec fn ascii_lower(c: char) -> char {
    if 'A' <= c && c <= 'Z' {
        ((c as u32) + 32) as char
    } else {
        c
    }
}

/// The MIME type guessed from a path's extension, compared without regard to
/// ASCII case.
pub open spec fn mime_for(path: Seq<char>) -> Seq<char> {
    match path_extension(path) {
        Some(e) => {
            let l = e.map_values(|c: char| ascii_lower(c));
            if l == "jpg"@ || l == "jpeg"@ {
                "image/jpeg"@
            } else if l == "png"@ {
                "image/png"@
            } else if l == "webp"@ {
                "image/webp"@
            } else if l == "gif"@ {
                "image/gif"@
            } else {
                "application/octet-stream"@
            }
        },
        None => "application/octet-stream"@,
    }
}

/// The MIME type of an image file, by extension (see [`mime_for`]).
pub fn guess_mime(path: &str) -> (r: &'static str)
    ensures
        r@ == mime_for(path@),
{
    let ext = match extension_of(path) {
        Some(e) => e,
        None => {
            return "application/octet-stream";
        },
    };
    let v = crate::text::chars_of(ext.as_str());
    let mut l: Vec<char> = Vec::new();
    let mut i: usize = 0;
    while i < v.len()
        invariant
            i <= v@.len(),
            l@ == v@.subrange(0, i as int).map_values(|c: char| ascii_lower(c)),
        decreases v@.len() - i,
    {
        let c = v[i];
        let lc = if 'A' <= c && c <= 'Z' {
            ((c as u32) + 32) as u8 as char
        } else {
            c
        };
        l.push(lc);
        i = i + 1;
        assert(l@ =~= v@.subrange(0, i as int).map_values(|c: char| ascii_lower(c)));
    }
    assert(v@.subrange(0, v@.len() as int) =~= v@);
    let s = l.as_slice();
    if crate::text::chars_eq(s, crate::text::chars_of("jpg").as_slice()) || crate::text::chars_eq(
        s,
        crate::text::chars_of("jpeg").as_slice(),
    ) {
        "image/jpeg"
    } else if crate::text::chars_eq(s, crate::text::chars_of("png").as_slice()) {
        "image/png"
    } else if crate::text::chars_eq(s, crate::text::chars_of("webp").as_slice()) {
        "image/webp"
    } else if crate::text::chars_eq(s, crate::text::chars_of("gif").as_slice()) {
        "image/gif"
    } else {
        "application/octet-stream"
    }
}

} // verus!
