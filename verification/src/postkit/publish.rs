//! Carrying out a plan: what each platform is sent, built from the plan's
//! steps and from what earlier calls returned. The calls themselves (file
//! reads, uploads, posts) are made by the caller, step by step.

use crate::lines::{last_index_of, rfind_char, find_char};
use crate::postkit::model::{
    facets_view, media_urls_view, opt_view, steps_view, strs_view, Facet, FacetView, Facets, FacetsView,
    PreparedPost, PublishResult, Step, StepView,
};
use crate::text::{chars_of, push_str, slice_chars, str_eq, string_of};
use vstd::prelude::*;

verus! {

// ─── Uploads and attachments ─────────────────────────────────────────────────

/// The uploads a plan asks for, in order: `(path, ref_id)`.
pub open spec fn uploads_in(steps: Seq<StepView>) -> Seq<(Seq<char>, Seq<char>)>
    decreases steps.len(),
{
    if steps.len() == 0 {
        Seq::empty()
    } else {
        let rest = uploads_in(steps.drop_last());
        match steps.last() {
            StepView::UploadMedia { path, ref_id, .. } => rest.push((path, ref_id)),
            _ => rest,
        }
    }
}

/// The text and media references of the last `CreatePost` step; empty
/// when there is none.
pub open spec fn last_post_in(steps: Seq<StepView>) -> (Seq<char>, Seq<Seq<char>>)
    decreases steps.len(),
{
    if steps.len() == 0 {
        (Seq::empty(), Seq::empty())
    } else {
        match steps.last() {
            StepView::CreatePost { text, media_refs, .. } => (text, media_refs),
            _ => last_post_in(steps.drop_last()),
        }
    }
}

/// Index of the last key equal to `key`, or -1.
pub open spec fn last_key(keys: Seq<Seq<char>>, key: Seq<char>) -> int
    decreases keys.len(),
{
    if keys.len() == 0 {
        -1
    } else if keys.last() == key {
        keys.len() - 1
    } else {
        last_key(keys.drop_last(), key)
    }
}

/// For each reference with an upload, in order, the index of its (last)
/// upload; references without one are skipped.
pub open spec fn attached(refs: Seq<Seq<char>>, keys: Seq<Seq<char>>) -> Seq<int>
    decreases refs.len(),
{
    if refs.len() == 0 {
        Seq::empty()
    } else {
        let rest = attached(refs.drop_last(), keys);
        let k = last_key(keys, refs.last());
        if k >= 0 {
            rest.push(k)
        } else {
            rest
        }
    }
}

proof fn lemma_last_key(keys: Seq<Seq<char>>, key: Seq<char>, k: int)
    requires
        -1 <= k < keys.len(),
        forall|j: int| k < j < keys.len() ==> keys[j] != key,
        k == -1 || keys[k] == key,
    ensures
        last_key(keys, key) == k,
    decreases keys.len(),
{
    if keys.len() > 0 && k < keys.len() - 1 {
        lemma_last_key(keys.drop_last(), key, k);
    }
}

fn find_last_key(keys: &Vec<String>, key: &str) -> (r: Option<usize>)
    ensures
        match r {
            Some(k) => last_key(strs_view(keys@), key@) == k && k < keys@.len(),
            None => last_key(strs_view(keys@), key@) == -1,
        },
{
    let ghost ks = strs_view(keys@);
    let mut k: usize = keys.len();
    while k > 0 && !str_eq(keys[k - 1].as_str(), key)
        invariant
            ks == strs_view(keys@),
            k <= keys@.len(),
            forall|j: int| k <= j < keys@.len() ==> ks[j] != key@,
        decreases k,
    {
        k = k - 1;
    }
    proof {
        lemma_last_key(ks, key@, k - 1);
    }
    if k == 0 {
        None
    } else {
        Some(k - 1)
    }
}

/// The uploads attached to a post (see [`attached`]).
pub fn attach_indices(refs: &Vec<String>, keys: &Vec<String>) -> (r: Vec<usize>)
    ensures
        r@.map_values(|i: usize| i as int) == attached(strs_view(refs@), strs_view(keys@)),
        forall|j: int| 0 <= j < r@.len() ==> r@[j] < keys@.len(),
{
    let ghost rs = strs_view(refs@);
    let ghost ks = strs_view(keys@);
    let mut out: Vec<usize> = Vec::new();
    let mut i: usize = 0;
    while i < refs.len()
        invariant
            rs == strs_view(refs@),
            ks == strs_view(keys@),
            i <= refs@.len(),
            out@.map_values(|i: usize| i as int) == attached(rs.subrange(0, i as int), ks),
            forall|j: int| 0 <= j < out@.len() ==> out@[j] < keys@.len(),
        decreases refs@.len() - i,
    {
        let ghost pre = rs.subrange(0, i + 1);
        assert(pre.drop_last() =~= rs.subrange(0, i as int));
        assert(pre.last() == refs@[i as int]@);
        let ghost before = out@;
        match find_last_key(keys, refs[i].as_str()) {
            Some(k) => {
                out.push(k);
                assert(out@.map_values(|i: usize| i as int) =~= before.map_values(
                    |i: usize| i as int,
                ).push(k as int));
            },
            None => {},
        }
        i = i + 1;
    }
    assert(rs.subrange(0, i as int) =~= rs);
    out
}

fn clone_strings(v: &Vec<String>) -> (r: Vec<String>)
    ensures
        strs_view(r@) == strs_view(v@),
{
    let mut out: Vec<String> = Vec::new();
    let mut i: usize = 0;
    while i < v.len()
        invariant
            i <= v@.len(),
            out@.len() == i,
            forall|j: int| 0 <= j < i ==> out@[j]@ == v@[j]@,
        decreases v@.len() - i,
    {
        out.push(v[i].clone());
        i = i + 1;
    }
    assert(strs_view(out@) =~= strs_view(v@));
    out
}

/// The reference of each upload, in order.
fn upload_keys<T>(uploaded: &Vec<(String, T)>) -> (keys: Vec<String>)
    ensures
        keys@.len() == uploaded@.len(),
        forall|j: int| 0 <= j < uploaded@.len() ==> keys@[j]@ == uploaded@[j].0@,
{
    let mut keys: Vec<String> = Vec::new();
    let mut i: usize = 0;
    while i < uploaded.len()
        invariant
            i <= uploaded@.len(),
            keys@.len() == i,
            forall|j: int| 0 <= j < i ==> keys@[j]@ == uploaded@[j].0@,
        decreases uploaded@.len() - i,
    {
        keys.push(uploaded[i].0.clone());
        i = i + 1;
    }
    keys
}

/// What a plan's steps ask for: the uploads `(path, ref_id)` in order, and
/// the text and media references of the last post step.
pub struct PlanRequests {
    pub uploads: Vec<(String, String)>,
    pub text: String,
    pub media_refs: Vec<String>,
}

pub open spec fn pairs_view(v: Seq<(String, String)>) -> Seq<(Seq<char>, Seq<char>)> {
    v.map_values(|p: (String, String)| (p.0@, p.1@))
}

/// The uploads and the post a plan asks for (see [`uploads_in`] and
/// [`last_post_in`]).
pub fn plan_requests(prepared: &PreparedPost) -> (r: PlanRequests)
    ensures
        pairs_view(r.uploads@) == uploads_in(steps_view(prepared.steps@)),
        (r.text@, strs_view(r.media_refs@)) == last_post_in(steps_view(prepared.steps@)),
{
    let steps = &prepared.steps;
    let ghost sv = steps_view(steps@);
    let mut uploads: Vec<(String, String)> = Vec::new();
    let mut text = String::new();
    let mut refs: Vec<String> = Vec::new();
    let mut i: usize = 0;
    while i < steps.len()
        invariant
            sv == steps_view(steps@),
            i <= steps@.len(),
            pairs_view(uploads@) == uploads_in(sv.subrange(0, i as int)),
            (text@, strs_view(refs@)) == last_post_in(sv.subrange(0, i as int)),
        decreases steps@.len() - i,
    {
        let ghost pre = sv.subrange(0, i + 1);
        assert(pre.drop_last() =~= sv.subrange(0, i as int));
        assert(pre.last() == steps@[i as int]@);
        match &steps[i] {
            Step::UploadMedia { path, ref_id, .. } => {
                let ghost before = uploads@;
                uploads.push((path.clone(), ref_id.clone()));
                assert(pairs_view(uploads@) =~= pairs_view(before).push((path@, ref_id@)));
            },
            Step::CreatePost { text: t, media_refs, .. } => {
                text = t.clone();
                refs = clone_strings(media_refs);
            },
            Step::ThreadContinue { .. } => {},
        }
        i = i + 1;
    }
    assert(sv.subrange(0, i as int) =~= sv);
    PlanRequests { uploads, text, media_refs: refs }
}

// ─── X ───────────────────────────────────────────────────────────────────────

/// The tweet to create: its text, and the media ids when the post refers to
/// media.
pub struct Tweet {
    pub text: String,
    pub media_ids: Option<Vec<String>>,
}

/// The media ids attached to a tweet: for each reference, in order, the id
/// its upload returned; references never uploaded are skipped.
pub open spec fn tweet_media(refs: Seq<Seq<char>>, uploaded: Seq<(Seq<char>, Seq<char>)>) -> Seq<Seq<char>> {
    let keys = uploaded.map_values(|p: (Seq<char>, Seq<char>)| p.0);
    attached(refs, keys).map_values(|k: int| uploaded[k].1)
}

/// The tweet for a post's text and media references, given the media id
/// each upload returned as `(ref_id, media_id)`.
pub fn tweet(text: String, media_refs: &Vec<String>, uploaded: &Vec<(String, String)>) -> (t: Tweet)
    ensures
        t.text@ == text@,
        media_refs@.len() == 0 ==> t.media_ids is None,
        media_refs@.len() > 0 ==> t.media_ids is Some && strs_view(t.media_ids.unwrap()@) == tweet_media(
            strs_view(media_refs@),
            pairs_view(uploaded@),
        ),
{
    if media_refs.len() == 0 {
        return Tweet { text, media_ids: None };
    }
    let keys = upload_keys(uploaded);
    let ghost up = pairs_view(uploaded@);
    assert(strs_view(keys@) =~= up.map_values(|p: (Seq<char>, Seq<char>)| p.0));
    let idx = attach_indices(media_refs, &keys);
    let ghost att = attached(strs_view(media_refs@), strs_view(keys@));
    let mut ids: Vec<String> = Vec::new();
    let mut j: usize = 0;
    while j < idx.len()
        invariant
            j <= idx@.len(),
            idx@.map_values(|i: usize| i as int) == att,
            forall|m: int| 0 <= m < idx@.len() ==> idx@[m] < uploaded@.len(),
            up == pairs_view(uploaded@),
            ids@.len() == j,
            forall|m: int| 0 <= m < j ==> ids@[m]@ == up[att[m]].1,
        decreases idx@.len() - j,
    {
        let k = idx[j];
        proof {
            assert(att[j as int] == k as int);
        }
        ids.push(uploaded[k].1.clone());
        j = j + 1;
    }
    assert(strs_view(ids@) =~= att.map_values(|k: int| up[k].1));
    Tweet { text, media_ids: Some(ids) }
}

/// Link to a tweet that needs no handle: `https://x.com/i/web/status/<id>`.
pub fn x_post_url(tweet_id: &str) -> (u: String)
    ensures
        u@ == "https://x.com/i/web/status/"@ + tweet_id@,
{
    let mut v = chars_of("https://x.com/i/web/status/");
    push_str(&mut v, tweet_id);
    string_of(v.as_slice())
}

// ─── Facebook ────────────────────────────────────────────────────────────────

/// The feed post to create on a Page.
pub struct FeedPost {
    pub message: String,
    pub access_token: String,
    /// The uploaded photo ids, when the post refers to media.
    pub attached_media: Option<Vec<String>>,
}

/// The feed post: every uploaded photo is attached when the post refers to
/// media.
pub fn feed_post(message: String, access_token: String, has_media_refs: bool, photo_ids: Vec<String>) -> (p: FeedPost)
    ensures
        p.message@ == message@,
        p.access_token@ == access_token@,
        has_media_refs ==> p.attached_media == Some(photo_ids),
        !has_media_refs ==> p.attached_media is None,
{
    if has_media_refs {
        FeedPost { message, access_token, attached_media: Some(photo_ids) }
    } else {
        FeedPost { message, access_token, attached_media: None }
    }
}

/// Link to a Page post from its id `<page>_<post>`; none when the id holds
/// no `_`.
pub open spec fn facebook_url_for(id: Seq<char>) -> Option<Seq<char>> {
    let k = crate::lines::next_char(id, 0, '_');
    if k < id.len() {
        Some("https://www.facebook.com/"@ + id.take(k) + "/posts/"@ + id.skip(k + 1))
    } else {
        None
    }
}

/// Link to a Page post (see [`facebook_url_for`]).
pub fn facebook_post_url(id: &str) -> (u: Option<String>)
    ensures
        opt_view(u) == facebook_url_for(id@),
{
    let cs = chars_of(id);
    let k = find_char(cs.as_slice(), 0, '_');
    if k < cs.len() {
        let page = slice_chars(cs.as_slice(), 0, k);
        let n = cs.len();
        let post = slice_chars(cs.as_slice(), k + 1, n);
        let mut v = chars_of("https://www.facebook.com/");
        crate::text::push_chars(&mut v, page.as_slice());
        push_str(&mut v, "/posts/");
        crate::text::push_chars(&mut v, post.as_slice());
        assert(page@ =~= id@.take(k as int));
        assert(post@ =~= id@.skip(k + 1));
        Some(string_of(v.as_slice()))
    } else {
        None
    }
}

// ─── Instagram ───────────────────────────────────────────────────────────────

/// What an Instagram plan publishes: one image, or a carousel.
#[derive(Debug)]
pub enum IgPublish {
    Single { image_url: String, caption: String },
    Carousel { image_urls: Vec<String>, caption: String },
}

/// Why an Instagram plan cannot be published.
#[derive(Debug, PartialEq, Eq)]
pub enum IgPublishError {
    /// The plan has no post step.
    NoCreatePost,
    /// The single image has no URL.
    SingleUrlMissing,
    /// A carousel image has no URL.
    UrlMissing { ref_id: String },
}

impl IgPublishError {
    /// The error as reported.
    pub fn message(&self) -> (m: String)
        ensures
            m@ == match self {
                IgPublishError::NoCreatePost => "Instagram execute: no CreatePost step"@,
                IgPublishError::SingleUrlMissing => "Instagram: URL no encontrada para img0"@,
                IgPublishError::UrlMissing { ref_id } => "Instagram: URL no encontrada para "@ + ref_id@,
            },
    {
        match self {
            IgPublishError::NoCreatePost => "Instagram execute: no CreatePost step".to_owned(),
            IgPublishError::SingleUrlMissing => "Instagram: URL no encontrada para img0".to_owned(),
            IgPublishError::UrlMissing { ref_id } => {
                let mut v = chars_of("Instagram: URL no encontrada para ");
                push_str(&mut v, ref_id.as_str());
                string_of(v.as_slice())
            },
        }
    }
}

/// An Instagram publishing error as plain data.
pub enum IgErrorView {
    NoCreatePost,
    SingleUrlMissing,
    UrlMissing(Seq<char>),
}

pub open spec fn ig_error_view(e: IgPublishError) -> IgErrorView {
    match e {
        IgPublishError::NoCreatePost => IgErrorView::NoCreatePost,
        IgPublishError::SingleUrlMissing => IgErrorView::SingleUrlMissing,
        IgPublishError::UrlMissing { ref_id } => IgErrorView::UrlMissing(ref_id@),
    }
}

/// `(true, [url], caption)` for a single image, `(false, urls, caption)`
/// for a carousel.
pub open spec fn ig_publish_view(p: IgPublish) -> (bool, Seq<Seq<char>>, Seq<char>) {
    match p {
        IgPublish::Single { image_url, caption } => (true, seq![image_url@], caption@),
        IgPublish::Carousel { image_urls, caption } => (false, strs_view(image_urls@), caption@),
    }
}

/// Index of the first post step at or after `from`, or -1.
pub open spec fn first_post_from(steps: Seq<StepView>, from: int) -> int
    decreases steps.len() - from,
{
    if from < 0 || from >= steps.len() {
        -1
    } else if steps[from] is CreatePost {
        from
    } else {
        first_post_from(steps, from + 1)
    }
}

/// The image URL entries of a post's platform data that carry a URL.
pub open spec fn url_entries(f: FacetsView) -> Seq<(Seq<char>, Option<Seq<char>>)> {
    match f {
        FacetsView::MediaUrls(es) => es,
        _ => Seq::empty(),
    }
}

/// The URL for `ref_id`: that of the last entry for it that has one.
pub open spec fn url_for(es: Seq<(Seq<char>, Option<Seq<char>>)>, ref_id: Seq<char>) -> Option<Seq<char>>
    decreases es.len(),
{
    if es.len() == 0 {
        None
    } else if es.last().0 == ref_id && es.last().1 is Some {
        es.last().1
    } else {
        url_for(es.drop_last(), ref_id)
    }
}

/// The URLs of all references, or the first reference without one.
pub open spec fn urls_for(es: Seq<(Seq<char>, Option<Seq<char>>)>, refs: Seq<Seq<char>>) -> Result<Seq<Seq<char>>, Seq<char>>
    decreases refs.len(),
{
    if refs.len() == 0 {
        Ok(Seq::empty())
    } else {
        match urls_for(es, refs.drop_last()) {
            Err(r) => Err(r),
            Ok(us) => match url_for(es, refs.last()) {
                Some(u) => Ok(us.push(u)),
                None => Err(refs.last()),
            },
        }
    }
}

/// The publication for an Instagram plan, from its first post step: one
/// reference gives a single image, any other number a carousel; each
/// reference needs a URL in the step's platform data.
pub open spec fn ig_publish_for(steps: Seq<StepView>) -> Result<(bool, Seq<Seq<char>>, Seq<char>), IgErrorView> {
    let k = first_post_from(steps, 0);
    if k < 0 {
        Err(IgErrorView::NoCreatePost)
    } else {
        match steps[k] {
            StepView::CreatePost { text, facets, media_refs } => {
                let es = url_entries(facets);
                if media_refs.len() == 1 {
                    match url_for(es, media_refs[0]) {
                        Some(u) => Ok((true, seq![u], text)),
                        None => Err(IgErrorView::SingleUrlMissing),
                    }
                } else {
                    match urls_for(es, media_refs) {
                        Ok(us) => Ok((false, us, text)),
                        Err(r) => Err(IgErrorView::UrlMissing(r)),
                    }
                }
            },
            _ => Err(IgErrorView::NoCreatePost),
        }
    }
}

proof fn lemma_url_for(es: Seq<(Seq<char>, Option<Seq<char>>)>, r: Seq<char>, k: int)
    requires
        -1 <= k < es.len(),
        forall|j: int| k < j < es.len() ==> !(es[j].0 == r && es[j].1 is Some),
        k == -1 || (es[k].0 == r && es[k].1 is Some),
    ensures
        url_for(es, r) == (if k >= 0 {
            es[k].1
        } else {
            None::<Seq<char>>
        }),
    decreases es.len(),
{
    if es.len() > 0 && k < es.len() - 1 {
        lemma_url_for(es.drop_last(), r, k);
    }
}

fn find_url(entries: &Vec<crate::postkit::model::MediaUrl>, ref_id: &str) -> (u: Option<String>)
    ensures
        opt_view(u) == url_for(
            media_urls_view(entries@),
            ref_id@,
        ),
{
    let ghost es = media_urls_view(entries@);
    let mut k: usize = entries.len();
    while k > 0 && !(str_eq(entries[k - 1].ref_id.as_str(), ref_id) && entries[k - 1].url.is_some())
        invariant
            es == media_urls_view(entries@),
            k <= entries@.len(),
            forall|j: int| k <= j < es.len() ==> !(es[j].0 == ref_id@ && es[j].1 is Some),
        decreases k,
    {
        k = k - 1;
    }
    proof {
        lemma_url_for(es, ref_id@, k - 1);
    }
    if k == 0 {
        None
    } else {
        match &entries[k - 1].url {
            Some(u) => Some(u.clone()),
            None => None,
        }
    }
}

fn no_entries() -> (v: Vec<crate::postkit::model::MediaUrl>)
    ensures
        v@.len() == 0,
{
    Vec::new()
}

/// The Instagram publication for a plan (see [`ig_publish_for`]).
pub fn instagram_publish(prepared: &PreparedPost) -> (r: Result<IgPublish, IgPublishError>)
    ensures
        match r {
            Ok(p) => ig_publish_for(steps_view(prepared.steps@)) == Ok::<(bool, Seq<Seq<char>>, Seq<char>), IgErrorView>(ig_publish_view(p)),
            Err(e) => ig_publish_for(steps_view(prepared.steps@)) == Err::<(bool, Seq<Seq<char>>, Seq<char>), IgErrorView>(ig_error_view(e)),
        },
{
    let steps = &prepared.steps;
    let ghost sv = steps_view(steps@);
    let mut i: usize = 0;
    while i < steps.len()
        invariant
            sv == steps_view(steps@),
            steps == &prepared.steps,
            i <= steps@.len(),
            first_post_from(sv, 0) == first_post_from(sv, i as int),
        decreases steps@.len() - i,
    {
        assert(sv[i as int] == steps@[i as int]@);
        match &steps[i] {
            Step::CreatePost { text, facets, media_refs } => {
                assert(first_post_from(sv, i as int) == i);
                assert(sv[i as int] == (StepView::CreatePost {
                    text: text@,
                    facets: facets@,
                    media_refs: strs_view(media_refs@),
                }));
                let empty = no_entries();
                let entries = match facets {
                    Facets::MediaUrls(es) => es,
                    _ => &empty,
                };
                let ghost es = url_entries(facets@);
                assert(es =~= media_urls_view(entries@));
                if media_refs.len() == 1 {
                    assert(strs_view(media_refs@)[0] == media_refs@[0]@);
                    match find_url(entries, media_refs[0].as_str()) {
                        Some(u) => return Ok(IgPublish::Single { image_url: u, caption: text.clone() }),
                        None => return Err(IgPublishError::SingleUrlMissing),
                    }
                }
                let ghost rs = strs_view(media_refs@);
                let mut urls: Vec<String> = Vec::new();
                assert(strs_view(urls@) =~= Seq::<Seq<char>>::empty());
                let mut j: usize = 0;
                while j < media_refs.len()
                    invariant
                        steps == &prepared.steps,
                        sv == steps_view(steps@),
                        i < steps@.len(),
                        first_post_from(sv, 0) == i,
                        sv[i as int] == (StepView::CreatePost { text: text@, facets: facets@, media_refs: rs }),
                        es == url_entries(facets@),
                        media_refs@.len() != 1,
                        j <= media_refs@.len(),
                        rs == strs_view(media_refs@),
                        es == media_urls_view(entries@),
                        urls_for(es, rs.subrange(0, j as int)) == Ok::<Seq<Seq<char>>, Seq<char>>(strs_view(urls@)),
                    decreases media_refs@.len() - j,
                {
                    let ghost pre = rs.subrange(0, j + 1);
                    assert(pre.drop_last() =~= rs.subrange(0, j as int));
                    assert(pre.last() == media_refs@[j as int]@);
                    match find_url(entries, media_refs[j].as_str()) {
                        Some(u) => {
                            let ghost before = urls@;
                            urls.push(u);
                            assert(strs_view(urls@) =~= strs_view(before).push(urls@.last()@));
                        },
                        None => {
                            proof {
                                lemma_urls_err_extends(es, rs, j + 1);
                            }
                            return Err(IgPublishError::UrlMissing { ref_id: media_refs[j].clone() });
                        },
                    }
                    j = j + 1;
                }
                assert(rs.subrange(0, j as int) =~= rs);
                return Ok(IgPublish::Carousel { image_urls: urls, caption: text.clone() });
            },
            _ => {},
        }
        i = i + 1;
    }
    Err(IgPublishError::NoCreatePost)
}

proof fn lemma_urls_err_extends(es: Seq<(Seq<char>, Option<Seq<char>>)>, refs: Seq<Seq<char>>, k: int)
    requires
        0 <= k <= refs.len(),
        urls_for(es, refs.subrange(0, k)) is Err,
    ensures
        urls_for(es, refs) == urls_for(es, refs.subrange(0, k)),
    decreases refs.len() - k,
{
    if k < refs.len() {
        assert(refs.subrange(0, k + 1).drop_last() =~= refs.subrange(0, k));
        lemma_urls_err_extends(es, refs, k + 1);
    } else {
        assert(refs.subrange(0, k) =~= refs);
    }
}

// ─── Bluesky threads ─────────────────────────────────────────────────────────

/// A post's address: `(uri, cid)`.
pub type PostRef = (String, String);

/// Where a thread stands while its posts are created: the root post, the
/// last post, and the result of the root post.
pub struct ThreadState {
    root: Option<(String, String)>,
    parent: Option<(String, String)>,
    first: Option<PublishResult>,
}

/// A thread's state as plain data.
pub struct ThreadView {
    pub root: Option<(Seq<char>, Seq<char>)>,
    pub parent: Option<(Seq<char>, Seq<char>)>,
    pub first: Option<(Option<Seq<char>>, Seq<char>, Seq<char>)>,
}

pub open spec fn ref_view(r: Option<(String, String)>) -> Option<(Seq<char>, Seq<char>)> {
    match r {
        Some((a, b)) => Some((a@, b@)),
        None => None,
    }
}

pub open spec fn result_view(r: PublishResult) -> (Option<Seq<char>>, Seq<char>, Seq<char>) {
    (opt_view(r.post_url), r.platform_id@, r.raw@)
}

impl View for ThreadState {
    type V = ThreadView;

    closed spec fn view(&self) -> ThreadView {
        ThreadView {
            root: ref_view(self.root),
            parent: ref_view(self.parent),
            first: match self.first {
                Some(r) => Some(result_view(r)),
                None => None,
            },
        }
    }
}

/// The thread after its root post `(uri, cid)` was created.
pub open spec fn after_root(t: ThreadView, p: (Seq<char>, Seq<char>), result: (Option<Seq<char>>, Seq<char>, Seq<char>)) -> ThreadView {
    ThreadView { root: Some(p), parent: Some(p), first: Some(result) }
}

/// The thread after a reply `(uri, cid)` was created.
pub open spec fn after_reply(t: ThreadView, p: (Seq<char>, Seq<char>)) -> ThreadView {
    ThreadView { root: t.root, parent: Some(p), first: t.first }
}

/// What a reply points to: the root and the last post, when both are known.
pub open spec fn reply_of(t: ThreadView) -> Option<((Seq<char>, Seq<char>), (Seq<char>, Seq<char>))> {
    match (t.root, t.parent) {
        (Some(r), Some(p)) => Some((r, p)),
        _ => None,
    }
}

/// A reply reference: the thread's root and the post replied to.
pub struct ReplyRef {
    pub root: (String, String),
    pub parent: (String, String),
}

fn clone_ref(r: &(String, String)) -> (c: (String, String))
    ensures
        c.0@ == r.0@,
        c.1@ == r.1@,
{
    (r.0.clone(), r.1.clone())
}

impl ThreadState {
    /// A thread with no post yet.
    pub fn new() -> (t: ThreadState)
        ensures
            t@ == (ThreadView { root: None, parent: None, first: None }),
    {
        ThreadState { root: None, parent: None, first: None }
    }

    /// What the next reply points to (see [`reply_of`]).
    pub fn reply(&self) -> (r: Option<ReplyRef>)
        ensures
            match r {
                Some(rr) => reply_of(self@) == Some(((rr.root.0@, rr.root.1@), (rr.parent.0@, rr.parent.1@))),
                None => reply_of(self@) is None,
            },
    {
        match (&self.root, &self.parent) {
            (Some(r), Some(p)) => Some(ReplyRef { root: clone_ref(r), parent: clone_ref(p) }),
            _ => None,
        }
    }

    /// Records the root post and its result.
    pub fn root_posted(&mut self, uri: String, cid: String, result: PublishResult)
        ensures
            final(self)@ == after_root(old(self)@, (uri@, cid@), result_view(result)),
    {
        self.root = Some((uri.clone(), cid.clone()));
        self.parent = Some((uri, cid));
        self.first = Some(result);
    }

    /// Records a reply.
    pub fn reply_posted(&mut self, uri: String, cid: String)
        ensures
            final(self)@ == after_reply(old(self)@, (uri@, cid@)),
    {
        self.parent = Some((uri, cid));
    }

    /// The result of the root post; `None` when the plan had no post step.
    pub fn finish(self) -> (r: Option<PublishResult>)
        ensures
            match r {
                Some(p) => self@.first == Some(result_view(p)),
                None => self@.first is None,
            },
    {
        self.first
    }
}

/// The thread after a run of replies.
pub open spec fn after_replies(t: ThreadView, ps: Seq<(Seq<char>, Seq<char>)>) -> ThreadView
    decreases ps.len(),
{
    if ps.len() == 0 {
        t
    } else {
        after_reply(after_replies(t, ps.drop_last()), ps.last())
    }
}

/// In a thread, every reply points to the root post as root and to the post
/// just before it as parent, and the thread's result stays the root's.
pub proof fn law_thread_replies(
    t: ThreadView,
    root: (Seq<char>, Seq<char>),
    result: (Option<Seq<char>>, Seq<char>, Seq<char>),
    replies: Seq<(Seq<char>, Seq<char>)>,
)
    ensures
        reply_of(after_replies(after_root(t, root, result), replies)) == Some(
            (root, if replies.len() == 0 {
                root
            } else {
                replies.last()
            }),
        ),
        after_replies(after_root(t, root, result), replies).first == Some(result),
    decreases replies.len(),
{
    if replies.len() > 0 {
        law_thread_replies(t, root, result, replies.drop_last());
    }
}

/// Link to a Bluesky post: the record key is the last `/` segment of its
/// AT URI.
pub open spec fn bsky_url_for(handle: Seq<char>, uri: Seq<char>) -> Seq<char> {
    "https://bsky.app/profile/"@ + handle + "/post/"@ + uri.skip(last_index_of(uri, '/') + 1)
}

/// Link to a Bluesky post (see [`bsky_url_for`]).
pub fn bsky_post_url(handle: &str, uri: &str) -> (u: String)
    ensures
        u@ == bsky_url_for(handle@, uri@),
{
    let cs = chars_of(uri);
    let n = cs.len();
    let start = match rfind_char(cs.as_slice(), '/') {
        Some(k) => k + 1,
        None => 0,
    };
    let rkey = slice_chars(cs.as_slice(), start, n);
    assert(rkey@ =~= uri@.skip(last_index_of(uri@, '/') + 1));
    let mut v = chars_of("https://bsky.app/profile/");
    push_str(&mut v, handle);
    push_str(&mut v, "/post/");
    crate::text::push_chars(&mut v, rkey.as_slice());
    string_of(v.as_slice())
}

/// The images embedded in a Bluesky post: for each reference with an
/// upload, the upload's index and its alt text (empty when none).
pub open spec fn images_for(refs: Seq<Seq<char>>, uploaded: Seq<(Seq<char>, Option<Seq<char>>)>) -> Seq<(int, Seq<char>)> {
    let keys = uploaded.map_values(|p: (Seq<char>, Option<Seq<char>>)| p.0);
    attached(refs, keys).map_values(|k: int| (k, match uploaded[k].1 { Some(a) => a, None => Seq::empty() }))
}

/// The images embedded in a Bluesky post (see [`images_for`]); `uploaded`
/// holds each upload's reference and alt text.
pub fn bsky_images(media_refs: &Vec<String>, uploaded: &Vec<(String, Option<String>)>) -> (r: Vec<(usize, String)>)
    ensures
        r@.map_values(|p: (usize, String)| (p.0 as int, p.1@)) == images_for(
            strs_view(media_refs@),
            uploaded@.map_values(|p: (String, Option<String>)| (p.0@, opt_view(p.1))),
        ),
{
    let ghost up = uploaded@.map_values(|p: (String, Option<String>)| (p.0@, opt_view(p.1)));
    let keys = upload_keys(uploaded);
    assert(strs_view(keys@) =~= up.map_values(|p: (Seq<char>, Option<Seq<char>>)| p.0));
    let idx = attach_indices(media_refs, &keys);
    let ghost att = attached(strs_view(media_refs@), strs_view(keys@));
    let ghost want = images_for(strs_view(media_refs@), up);
    let mut out: Vec<(usize, String)> = Vec::new();
    let mut j: usize = 0;
    while j < idx.len()
        invariant
            j <= idx@.len(),
            idx@.map_values(|i: usize| i as int) == att,
            forall|m: int| 0 <= m < idx@.len() ==> idx@[m] < uploaded@.len(),
            up == uploaded@.map_values(|p: (String, Option<String>)| (p.0@, opt_view(p.1))),
            want == att.map_values(|k: int| (k, match up[k].1 { Some(a) => a, None => Seq::<char>::empty() })),
            out@.len() == j,
            forall|m: int| 0 <= m < j ==> (out@[m].0 as int, out@[m].1@) == want[m],
        decreases idx@.len() - j,
    {
        let k = idx[j];
        proof {
            assert(att[j as int] == k as int);
        }
        let alt = match &uploaded[k].1 {
            Some(a) => a.clone(),
            None => String::new(),
        };
        out.push((k, alt));
        j = j + 1;
    }
    assert(out@.map_values(|p: (usize, String)| (p.0 as int, p.1@)) =~= want);
    out
}

// ─── Bluesky rich text ───────────────────────────────────────────────────────

/// What a facet of a Bluesky record points to.
#[derive(Debug, PartialEq, Eq)]
pub enum FacetFeature {
    Link(String),
    Tag(String),
    /// A mentioned account, by its DID.
    Mention(String),
}

/// A facet as a Bluesky record carries it: a byte range and its feature.
#[derive(Debug, PartialEq, Eq)]
pub struct RecordFacet {
    pub byte_start: usize,
    pub byte_end: usize,
    pub feature: FacetFeature,
}

/// A record facet as plain data; the feature is 0 for a link, 1 for a tag
/// and 2 for a mention, with its text.
pub open spec fn record_facet_view(f: RecordFacet) -> (usize, usize, int, Seq<char>) {
    match f.feature {
        FacetFeature::Link(u) => (f.byte_start, f.byte_end, 0, u@),
        FacetFeature::Tag(t) => (f.byte_start, f.byte_end, 1, t@),
        FacetFeature::Mention(d) => (f.byte_start, f.byte_end, 2, d@),
    }
}

pub open spec fn record_facets_view(v: Seq<RecordFacet>) -> Seq<(usize, usize, int, Seq<char>)> {
    v.map_values(|f: RecordFacet| record_facet_view(f))
}

/// The handles of the mentions among `fs`, in order.
pub open spec fn mentions_of(fs: Seq<FacetView>) -> Seq<Seq<char>>
    decreases fs.len(),
{
    if fs.len() == 0 {
        Seq::empty()
    } else {
        let r = mentions_of(fs.drop_last());
        match fs.last() {
            FacetView::Mention { handle, .. } => r.push(handle),
            _ => r,
        }
    }
}

/// The record facets for `fs`, given the DID each mention resolved to, in
/// mention order (`None` when it did not resolve): links and tags as they
/// are, resolved mentions by DID, unresolved mentions left out.
pub open spec fn record_facets_for(fs: Seq<FacetView>, dids: Seq<Option<Seq<char>>>) -> Seq<
    (usize, usize, int, Seq<char>),
>
    decreases fs.len(),
{
    if fs.len() == 0 {
        Seq::empty()
    } else {
        let k = mentions_of(fs.drop_last()).len() as int;
        let r = record_facets_for(fs.drop_last(), dids);
        match fs.last() {
            FacetView::Link { byte_start, byte_end, uri } => r.push((byte_start, byte_end, 0, uri)),
            FacetView::Tag { byte_start, byte_end, tag } => r.push((byte_start, byte_end, 1, tag)),
            FacetView::Mention { byte_start, byte_end, .. } => if 0 <= k < dids.len() && dids[k] is Some {
                r.push((byte_start, byte_end, 2, dids[k].unwrap()))
            } else {
                r
            },
        }
    }
}

/// The handles to resolve before a post with these facets is sent (see
/// [`mentions_of`]); none unless the facets are rich text.
pub fn mention_handles(facets: &Facets) -> (r: Vec<String>)
    ensures
        strs_view(r@) == match facets@ {
            FacetsView::Rich(fs) => mentions_of(fs),
            _ => Seq::empty(),
        },
{
    let mut out: Vec<String> = Vec::new();
    match facets {
        Facets::Rich(fs) => {
            let mut i: usize = 0;
            while i < fs.len()
                invariant
                    i <= fs@.len(),
                    strs_view(out@) == mentions_of(facets_view(fs@).subrange(0, i as int)),
                decreases fs@.len() - i,
            {
                let ghost before = out@;
                let ghost t = facets_view(fs@).subrange(0, i + 1);
                proof {
                    assert(t.drop_last() =~= facets_view(fs@).subrange(0, i as int));
                    assert(t.last() == fs@[i as int]@);
                }
                match &fs[i] {
                    Facet::Mention { handle, .. } => {
                        out.push(handle.clone());
                        assert(strs_view(out@) =~= strs_view(before).push(handle@));
                    },
                    _ => {},
                }
                i = i + 1;
            }
            assert(facets_view(fs@).subrange(0, fs@.len() as int) =~= facets_view(fs@));
        },
        _ => {
            assert(strs_view(out@) =~= Seq::<Seq<char>>::empty());
        },
    }
    out
}

/// The facets a Bluesky record carries (see [`record_facets_for`]); none
/// unless the facets are rich text.
pub fn record_facets(facets: &Facets, dids: &Vec<Option<String>>) -> (r: Vec<RecordFacet>)
    ensures
        record_facets_view(r@) == match facets@ {
            FacetsView::Rich(fs) => record_facets_for(fs, dids@.map_values(|d: Option<String>| opt_view(d))),
            _ => Seq::empty(),
        },
{
    let ghost dv = dids@.map_values(|d: Option<String>| opt_view(d));
    let mut out: Vec<RecordFacet> = Vec::new();
    match facets {
        Facets::Rich(fs) => {
            let mut i: usize = 0;
            let mut k: usize = 0;
            while i < fs.len()
                invariant
                    i <= fs@.len(),
                    k as int == mentions_of(facets_view(fs@).subrange(0, i as int)).len(),
                    k <= i,
                    dv == dids@.map_values(|d: Option<String>| opt_view(d)),
                    record_facets_view(out@) == record_facets_for(facets_view(fs@).subrange(0, i as int), dv),
                decreases fs@.len() - i,
            {
                let ghost before = out@;
                let ghost t = facets_view(fs@).subrange(0, i + 1);
                proof {
                    assert(t.drop_last() =~= facets_view(fs@).subrange(0, i as int));
                    assert(t.last() == fs@[i as int]@);
                }
                match &fs[i] {
                    Facet::Link { byte_start, byte_end, uri } => {
                        out.push(RecordFacet { byte_start: *byte_start, byte_end: *byte_end, feature: FacetFeature::Link(uri.clone()) });
                        assert(record_facets_view(out@) =~= record_facets_view(before).push(record_facet_view(out@.last())));
                    },
                    Facet::Tag { byte_start, byte_end, tag } => {
                        out.push(RecordFacet { byte_start: *byte_start, byte_end: *byte_end, feature: FacetFeature::Tag(tag.clone()) });
                        assert(record_facets_view(out@) =~= record_facets_view(before).push(record_facet_view(out@.last())));
                    },
                    Facet::Mention { byte_start, byte_end, .. } => {
                        if k < dids.len() {
                            match &dids[k] {
                                Some(d) => {
                                    out.push(RecordFacet { byte_start: *byte_start, byte_end: *byte_end, feature: FacetFeature::Mention(d.clone()) });
                                    assert(record_facets_view(out@) =~= record_facets_view(before).push(record_facet_view(out@.last())));
                                },
                                None => {},
                            }
                        }
                        k = k + 1;
                    },
                }
                i = i + 1;
            }
            assert(facets_view(fs@).subrange(0, fs@.len() as int) =~= facets_view(fs@));
        },
        _ => {
            assert(record_facets_view(out@) =~= Seq::<(usize, usize, int, Seq<char>)>::empty());
        },
    }
    out
}

} // verus!
