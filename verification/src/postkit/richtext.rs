//! Rich-text ranges of a Bluesky post: links, hashtags and mentions, found
//! with the `regex` crate.

use crate::postkit::model::{facets_view, Facet, FacetView};
use regex::Regex;
use vstd::prelude::*;

verus! {

/// A regex match: byte offsets into the searched text and the matched text.
#[derive(Debug)]
pub struct RegexMatch {
    pub start: usize,
    pub end: usize,
    pub text: String,
}

pub open spec fn match_view(m: RegexMatch) -> (usize, usize, Seq<char>) {
    (m.start, m.end, m.text@)
}

/// The matches of `pattern` in `text` as `Regex::new(pattern)` and
/// `Regex::find_iter(text)` give them; `None` when the pattern does not compile.
pub uninterp spec fn regex_find_all(pattern: Seq<char>, text: Seq<char>) -> Option<
    Seq<(usize, usize, Seq<char>)>,
>;

/// For each match of `pattern` in `text` (`Regex::captures_iter`), capture
/// group `group` when it took part; `None` when the pattern does not compile.
pub uninterp spec fn regex_capture_all(pattern: Seq<char>, text: Seq<char>, group: nat) -> Option<
    Seq<Option<(usize, usize, Seq<char>)>>,
>;

/// `Regex::new(pattern)` and `Regex::find_iter(text)`: every successive
/// non-overlapping match, with byte offsets; `None` when `Regex::new` fails.
#[verifier::external_body]
fn find_all(pattern: &str, text: &str) -> (r: Option<Vec<RegexMatch>>)
    ensures
        match r {
            Some(v) => regex_find_all(pattern@, text@) == Some(
                v@.map_values(|m: RegexMatch| match_view(m)),
            ),
            None => regex_find_all(pattern@, text@) is None,
        },
{
    let re = match Regex::new(pattern) { Ok(re) => re, Err(_) => return None };
    Some(re.find_iter(text).map(|m| RegexMatch { start: m.start(), end: m.end(), text: m.as_str().to_string() }).collect())
}

/// `Regex::new(pattern)` and `Regex::captures_iter(text)`, keeping capture
/// group `group` of each match; `None` when `Regex::new` fails.
#[verifier::external_body]
fn capture_all(pattern: &str, text: &str, group: usize) -> (r: Option<Vec<Option<RegexMatch>>>)
    ensures
        match r {
            Some(v) => regex_capture_all(pattern@, text@, group as nat) == Some(
                v@.map_values(
                    |c: Option<RegexMatch>|
                        match c {
                            Some(m) => Some(match_view(m)),
                            None => None,
                        },
                ),
            ),
            None => regex_capture_all(pattern@, text@, group as nat) is None,
        },
{
    let re = match Regex::new(pattern) { Ok(re) => re, Err(_) => return None };
    let one = |m: regex::Match| RegexMatch { start: m.start(), end: m.end(), text: m.as_str().to_string() };
    Some(re.captures_iter(text).map(|c| c.get(group).map(one)).collect())
}

/// Links: `http://` or `https://` followed by non-space characters.
pub const URL_PATTERN: &'static str = r"https?://[^\s]+";

/// Hashtags: `#word` at the start or after whitespace.
pub const TAG_PATTERN: &'static str = r"(?:^|\s)#(\w+)";

/// Mentions: `@handle` at the start or after whitespace.
pub const MENTION_PATTERN: &'static str = r"(?:^|\s)@([a-zA-Z0-9][a-zA-Z0-9._-]*)";

/// The start of a `#` or `@` range: one byte before the captured word.
pub open spec fn marker_start(start: usize) -> usize {
    if start > 0 {
        (start - 1) as usize
    } else {
        0
    }
}

/// One link facet per match.
pub open spec fn link_facets(ms: Seq<(usize, usize, Seq<char>)>) -> Seq<FacetView> {
    ms.map_values(
        |m: (usize, usize, Seq<char>)| FacetView::Link { byte_start: m.0, byte_end: m.1, uri: m.2 },
    )
}

/// One tag (`is_tag`) or mention facet per captured word.
pub open spec fn word_facets(cs: Seq<Option<(usize, usize, Seq<char>)>>, is_tag: bool) -> Seq<
    FacetView,
>
    decreases cs.len(),
{
    if cs.len() == 0 {
        Seq::empty()
    } else {
        let r = word_facets(cs.drop_last(), is_tag);
        match cs.last() {
            Some(m) => r.push(
                if is_tag {
                    FacetView::Tag { byte_start: marker_start(m.0), byte_end: m.1, tag: m.2 }
                } else {
                    FacetView::Mention { byte_start: marker_start(m.0), byte_end: m.1, handle: m.2 }
                },
            ),
            None => r,
        }
    }
}

/// The rich-text ranges of `text`: links, then hashtags, then mentions, each
/// in text order.
pub open spec fn facets_of(text: Seq<char>) -> Seq<FacetView> {
    let links = match regex_find_all(URL_PATTERN@, text) {
        Some(ms) => link_facets(ms),
        None => Seq::empty(),
    };
    let tags = match regex_capture_all(TAG_PATTERN@, text, 1) {
        Some(cs) => word_facets(cs, true),
        None => Seq::empty(),
    };
    let mentions = match regex_capture_all(MENTION_PATTERN@, text, 1) {
        Some(cs) => word_facets(cs, false),
        None => Seq::empty(),
    };
    links + tags + mentions
}

// ─── What the facets are ─────────────────────────────────────────────────────

/// The link ranges among `fs`, in order: start, end, URI.
pub open spec fn links_in(fs: Seq<FacetView>) -> Seq<(usize, usize, Seq<char>)>
    decreases fs.len(),
{
    if fs.len() == 0 {
        Seq::empty()
    } else {
        match fs.last() {
            FacetView::Link { byte_start, byte_end, uri } => links_in(fs.drop_last()).push((byte_start, byte_end, uri)),
            _ => links_in(fs.drop_last()),
        }
    }
}

/// The hashtag ranges among `fs`, in order: start, end, tag.
pub open spec fn tags_in(fs: Seq<FacetView>) -> Seq<(usize, usize, Seq<char>)>
    decreases fs.len(),
{
    if fs.len() == 0 {
        Seq::empty()
    } else {
        match fs.last() {
            FacetView::Tag { byte_start, byte_end, tag } => tags_in(fs.drop_last()).push((byte_start, byte_end, tag)),
            _ => tags_in(fs.drop_last()),
        }
    }
}

/// The mention ranges among `fs`, in order: start, end, handle.
pub open spec fn mentions_in(fs: Seq<FacetView>) -> Seq<(usize, usize, Seq<char>)>
    decreases fs.len(),
{
    if fs.len() == 0 {
        Seq::empty()
    } else {
        match fs.last() {
            FacetView::Mention { byte_start, byte_end, handle } => mentions_in(fs.drop_last()).push(
                (byte_start, byte_end, handle),
            ),
            _ => mentions_in(fs.drop_last()),
        }
    }
}

/// The captured words, in order, leaving out matches where the group took
/// no part.
pub open spec fn captured(cs: Seq<Option<(usize, usize, Seq<char>)>>) -> Seq<(usize, usize, Seq<char>)>
    decreases cs.len(),
{
    if cs.len() == 0 {
        Seq::empty()
    } else {
        match cs.last() {
            Some(m) => captured(cs.drop_last()).push(m),
            None => captured(cs.drop_last()),
        }
    }
}

/// A captured word's range widened to take in the `#` or `@` just before
/// it.
pub open spec fn with_marker(m: (usize, usize, Seq<char>)) -> (usize, usize, Seq<char>) {
    (if m.0 > 0 { (m.0 - 1) as usize } else { 0 }, m.1, m.2)
}

proof fn lemma_projections_add(a: Seq<FacetView>, b: Seq<FacetView>)
    ensures
        links_in(a + b) == links_in(a) + links_in(b),
        tags_in(a + b) == tags_in(a) + tags_in(b),
        mentions_in(a + b) == mentions_in(a) + mentions_in(b),
    decreases b.len(),
{
    if b.len() == 0 {
        assert(a + b =~= a);
        assert(links_in(a) + links_in(b) =~= links_in(a));
        assert(tags_in(a) + tags_in(b) =~= tags_in(a));
        assert(mentions_in(a) + mentions_in(b) =~= mentions_in(a));
    } else {
        lemma_projections_add(a, b.drop_last());
        assert((a + b).drop_last() =~= a + b.drop_last());
        assert((a + b).last() == b.last());
        match b.last() {
            FacetView::Link { byte_start, byte_end, uri } => {
                assert(links_in(a) + links_in(b) =~= (links_in(a) + links_in(b.drop_last())).push((byte_start, byte_end, uri)));
            },
            FacetView::Tag { byte_start, byte_end, tag } => {
                assert(tags_in(a) + tags_in(b) =~= (tags_in(a) + tags_in(b.drop_last())).push((byte_start, byte_end, tag)));
            },
            FacetView::Mention { byte_start, byte_end, handle } => {
                assert(mentions_in(a) + mentions_in(b) =~= (mentions_in(a) + mentions_in(b.drop_last())).push(
                    (byte_start, byte_end, handle),
                ));
            },
        }
    }
}

proof fn lemma_link_facets(ms: Seq<(usize, usize, Seq<char>)>)
    ensures
        links_in(link_facets(ms)) == ms,
        tags_in(link_facets(ms)) == Seq::<(usize, usize, Seq<char>)>::empty(),
        mentions_in(link_facets(ms)) == Seq::<(usize, usize, Seq<char>)>::empty(),
    decreases ms.len(),
{
    let lf = link_facets(ms);
    if ms.len() > 0 {
        let d = ms.drop_last();
        lemma_link_facets(d);
        let m = ms.last();
        assert(lf.drop_last() =~= link_facets(d));
        assert(lf.last() == FacetView::Link { byte_start: m.0, byte_end: m.1, uri: m.2 });
        assert(links_in(lf) == links_in(link_facets(d)).push((m.0, m.1, m.2)));
        assert(ms =~= d.push(m));
    } else {
        assert(lf =~= Seq::<FacetView>::empty());
    }
}

proof fn lemma_word_facets(cs: Seq<Option<(usize, usize, Seq<char>)>>, is_tag: bool)
    ensures
        links_in(word_facets(cs, is_tag)) == Seq::<(usize, usize, Seq<char>)>::empty(),
        is_tag ==> tags_in(word_facets(cs, is_tag)) == captured(cs).map_values(
            |m: (usize, usize, Seq<char>)| with_marker(m),
        ),
        is_tag ==> mentions_in(word_facets(cs, is_tag)) == Seq::<(usize, usize, Seq<char>)>::empty(),
        !is_tag ==> mentions_in(word_facets(cs, is_tag)) == captured(cs).map_values(
            |m: (usize, usize, Seq<char>)| with_marker(m),
        ),
        !is_tag ==> tags_in(word_facets(cs, is_tag)) == Seq::<(usize, usize, Seq<char>)>::empty(),
    decreases cs.len(),
{
    if cs.len() > 0 {
        let d = cs.drop_last();
        lemma_word_facets(d, is_tag);
        let r = word_facets(d, is_tag);
        let wf = word_facets(cs, is_tag);
        let c = captured(d).map_values(|m: (usize, usize, Seq<char>)| with_marker(m));
        match cs.last() {
            Some(m) => {
                let f = if is_tag {
                    FacetView::Tag { byte_start: marker_start(m.0), byte_end: m.1, tag: m.2 }
                } else {
                    FacetView::Mention { byte_start: marker_start(m.0), byte_end: m.1, handle: m.2 }
                };
                assert(wf == r.push(f));
                assert(wf.drop_last() =~= r);
                assert(wf.last() == f);
                assert(captured(cs) == captured(d).push(m));
                assert(captured(cs).map_values(|m: (usize, usize, Seq<char>)| with_marker(m)) =~= c.push(with_marker(m)));
                if is_tag {
                    assert(tags_in(wf) == tags_in(r).push(with_marker(m)));
                } else {
                    assert(mentions_in(wf) == mentions_in(r).push(with_marker(m)));
                }
            },
            None => {
                assert(wf == r);
                assert(captured(cs) == captured(d));
            },
        }
    } else {
        assert(captured(cs).map_values(|m: (usize, usize, Seq<char>)| with_marker(m)) =~= Seq::<(usize, usize, Seq<char>)>::empty());
    }
}

/// Every match of each pattern becomes a range, and nothing else does:
/// the links are exactly the URL matches, in order; the hashtags exactly
/// the words captured after `#` at the start or after whitespace, each
/// range taking in its `#`; the mentions likewise for `@`. A pattern that
/// does not compile contributes nothing.
pub proof fn law_facets_are_the_matches(text: Seq<char>)
    ensures
        links_in(facets_of(text)) == (match regex_find_all(URL_PATTERN@, text) {
            Some(ms) => ms,
            None => Seq::empty(),
        }),
        tags_in(facets_of(text)) == (match regex_capture_all(TAG_PATTERN@, text, 1) {
            Some(cs) => captured(cs).map_values(|m: (usize, usize, Seq<char>)| with_marker(m)),
            None => Seq::empty(),
        }),
        mentions_in(facets_of(text)) == (match regex_capture_all(MENTION_PATTERN@, text, 1) {
            Some(cs) => captured(cs).map_values(|m: (usize, usize, Seq<char>)| with_marker(m)),
            None => Seq::empty(),
        }),
        facets_of(text).len() == links_in(facets_of(text)).len() + tags_in(facets_of(text)).len()
            + mentions_in(facets_of(text)).len(),
{
    let links = match regex_find_all(URL_PATTERN@, text) {
        Some(ms) => link_facets(ms),
        None => Seq::empty(),
    };
    let tags = match regex_capture_all(TAG_PATTERN@, text, 1) {
        Some(cs) => word_facets(cs, true),
        None => Seq::empty(),
    };
    let mentions = match regex_capture_all(MENTION_PATTERN@, text, 1) {
        Some(cs) => word_facets(cs, false),
        None => Seq::empty(),
    };
    match regex_find_all(URL_PATTERN@, text) {
        Some(ms) => lemma_link_facets(ms),
        None => {},
    }
    match regex_capture_all(TAG_PATTERN@, text, 1) {
        Some(cs) => lemma_word_facets(cs, true),
        None => {},
    }
    match regex_capture_all(MENTION_PATTERN@, text, 1) {
        Some(cs) => lemma_word_facets(cs, false),
        None => {},
    }
    lemma_projections_add(links, tags);
    lemma_projections_add(links + tags, mentions);
    lemma_projection_count(links + tags + mentions);
}

proof fn lemma_projection_count(fs: Seq<FacetView>)
    ensures
        fs.len() == links_in(fs).len() + tags_in(fs).len() + mentions_in(fs).len(),
    decreases fs.len(),
{
    if fs.len() > 0 {
        lemma_projection_count(fs.drop_last());
    }
}

fn push_words(out: &mut Vec<Facet>, caps: Vec<Option<RegexMatch>>, is_tag: bool)
    ensures
        facets_view(final(out)@) == facets_view(old(out)@) + word_facets(
            caps@.map_values(
                |c: Option<RegexMatch>|
                    match c {
                        Some(m) => Some(match_view(m)),
                        None => None,
                    },
            ),
            is_tag,
        ),
{
    let ghost cv = caps@.map_values(
        |c: Option<RegexMatch>|
            match c {
                Some(m) => Some(match_view(m)),
                None => None,
            },
    );
    let n = caps.len();
    let mut rest = caps;
    let mut k: usize = 0;
    while k < n
        invariant
            n == cv.len(),
            k <= n,
            rest@.len() == n - k,
            forall|j: int|
                0 <= j < n - k ==> (match #[trigger] rest@[j] {
                    Some(m) => Some(match_view(m)),
                    None => None,
                }) == cv[k + j],
            facets_view(out@) == facets_view(old(out)@) + word_facets(cv.subrange(0, k as int), is_tag),
        decreases n - k,
    {
        let ghost before = out@;
        let c = rest.remove(0);
        proof {
            let t = cv.subrange(0, k + 1);
            assert(t.drop_last() =~= cv.subrange(0, k as int));
        }
        match c {
            Some(m) => {
                let start = if m.start > 0 {
                    m.start - 1
                } else {
                    0
                };
                let f = if is_tag {
                    Facet::Tag { byte_start: start, byte_end: m.end, tag: m.text }
                } else {
                    Facet::Mention { byte_start: start, byte_end: m.end, handle: m.text }
                };
                out.push(f);
                assert(facets_view(out@) =~= facets_view(before).push(out@.last()@));
            },
            None => {},
        }
        k = k + 1;
    }
    assert(cv.subrange(0, n as int) =~= cv);
}

/// The rich-text ranges of `text` (see [`facets_of`]).
pub fn detect_facets(text: &str) -> (r: Vec<Facet>)
    ensures
        facets_view(r@) == facets_of(text@),
{
    let mut out: Vec<Facet> = Vec::new();
    match find_all(URL_PATTERN, text) {
        Some(ms) => {
            let ghost mv = ms@.map_values(|m: RegexMatch| match_view(m));
            let n = ms.len();
            let mut rest = ms;
            let mut k: usize = 0;
            while k < n
                invariant
                    n == mv.len(),
                    k <= n,
                    rest@.len() == n - k,
                    forall|j: int| 0 <= j < n - k ==> match_view(#[trigger] rest@[j]) == mv[k + j],
                    facets_view(out@) == link_facets(mv.subrange(0, k as int)),
                decreases n - k,
            {
                let ghost before = out@;
                let m = rest.remove(0);
                out.push(Facet::Link { byte_start: m.start, byte_end: m.end, uri: m.text });
                proof {
                    assert(facets_view(out@) =~= facets_view(before).push(out@.last()@));
                    assert(link_facets(mv.subrange(0, k + 1)) =~= link_facets(
                        mv.subrange(0, k as int),
                    ).push(out@.last()@));
                }
                k = k + 1;
            }
            assert(mv.subrange(0, n as int) =~= mv);
        },
        None => {},
    }
    let ghost links = facets_view(out@);
    match capture_all(TAG_PATTERN, text, 1) {
        Some(cs) => push_words(&mut out, cs, true),
        None => {},
    }
    let ghost tags = facets_view(out@);
    match capture_all(MENTION_PATTERN, text, 1) {
        Some(cs) => push_words(&mut out, cs, false),
        None => {},
    }
    proof {
        assert(facets_view(out@) =~= facets_of(text@));
    }
    out
}

} // verus!
