//! Pieces of a publishing plan shared by the providers: the post text with
//! its hashtags, upload steps for the images and their warnings.

use crate::postkit::model::{opt_view, steps_view, strs_view, MediaRef, Step, StepView};
use crate::text::{chars_of, dec, decimal, push_chars, push_str, string_of};
use vstd::prelude::*;

verus! {

/// `#tag1 #tag2 …` for the given tags.
pub open spec fn hashtag_line(tags: Seq<Seq<char>>) -> Seq<char>
    decreases tags.len(),
{
    if tags.len() == 0 {
        Seq::empty()
    } else if tags.len() == 1 {
        seq!['#'] + tags[0]
    } else {
        hashtag_line(tags.drop_last()) + seq![' ', '#'] + tags.last()
    }
}

/// The text of a post with its hashtags appended after a blank line (or
/// alone when the text is empty).
pub open spec fn post_text(text: Seq<char>, tags: Seq<Seq<char>>) -> Seq<char> {
    if tags.len() == 0 {
        text
    } else if text.len() == 0 {
        hashtag_line(tags)
    } else {
        text + seq!['\n', '\n'] + hashtag_line(tags)
    }
}

/// Appends `#tag1 #tag2 …` to `v`.
fn push_hashtags(v: &mut Vec<char>, tags: &[String])
    ensures
        final(v)@ == old(v)@ + hashtag_line(strs_view(tags@)),
{
    let mut i: usize = 0;
    while i < tags.len()
        invariant
            i <= tags@.len(),
            v@ == old(v)@ + hashtag_line(strs_view(tags@.subrange(0, i as int))),
        decreases tags@.len() - i,
    {
        let ghost before = v@;
        if i > 0 {
            v.push(' ');
        }
        v.push('#');
        push_str(v, tags[i].as_str());
        proof {
            let t = strs_view(tags@.subrange(0, i + 1));
            let p = strs_view(tags@.subrange(0, i as int));
            assert(t.drop_last() =~= p);
            assert(t.last() == tags@[i as int]@);
            if i == 0 {
                assert(t.len() == 1);
                assert(hashtag_line(p) =~= Seq::<char>::empty());
                assert(v@ =~= old(v)@ + hashtag_line(t));
            } else {
                assert(v@ =~= old(v)@ + hashtag_line(t));
            }
        }
        i = i + 1;
    }
    assert(tags@.subrange(0, tags@.len() as int) =~= tags@);
}

/// The text of a post with its hashtags (see [`post_text`]).
pub fn build_post_text(text: &str, hashtags: &[String]) -> (r: String)
    ensures
        r@ == post_text(text@, strs_view(hashtags@)),
{
    let mut v = chars_of(text);
    if hashtags.len() == 0 {
        return string_of(v.as_slice());
    }
    if v.len() > 0 {
        v.push('\n');
        v.push('\n');
    }
    let ghost before = v@;
    push_hashtags(&mut v, hashtags);
    proof {
        if text@.len() == 0 {
            assert(v@ =~= hashtag_line(strs_view(hashtags@)));
        } else {
            assert(v@ =~= text@ + seq!['\n', '\n'] + hashtag_line(strs_view(hashtags@)));
        }
    }
    string_of(v.as_slice())
}

/// The name under which image `i` is uploaded: `img<i>`.
pub open spec fn ref_id(i: nat) -> Seq<char> {
    seq!['i', 'm', 'g'] + dec(i)
}

/// The upload names of the first `n` images.
pub open spec fn ref_ids(n: nat) -> Seq<Seq<char>> {
    Seq::new(n, |i: int| ref_id(i as nat))
}

/// One upload step per image, in order.
pub open spec fn upload_steps(media: Seq<MediaRef>) -> Seq<StepView> {
    Seq::new(
        media.len(),
        |i: int|
            StepView::UploadMedia {
                path: media[i].path@,
                alt: opt_view(media[i].alt),
                ref_id: ref_id(i as nat),
            },
    )
}

/// `prefix<i>suffix` for each image `i` without alt text, in order.
pub open spec fn alt_warnings(media: Seq<MediaRef>, prefix: Seq<char>, suffix: Seq<char>) -> Seq<
    Seq<char>,
>
    decreases media.len(),
{
    if media.len() == 0 {
        Seq::empty()
    } else {
        let r = alt_warnings(media.drop_last(), prefix, suffix);
        if media.last().alt is None {
            r.push(prefix + dec((media.len() - 1) as nat) + suffix)
        } else {
            r
        }
    }
}

/// The upload name of image `i` (see [`ref_id`]).
pub fn ref_name_of(i: usize) -> (r: String)
    ensures
        r@ == ref_id(i as nat),
{
    let mut v: Vec<char> = Vec::new();
    v.push('i');
    v.push('m');
    v.push('g');
    let d = decimal(i as u64);
    push_chars(&mut v, d.as_slice());
    assert(v@ =~= seq!['i', 'm', 'g'] + dec(i as nat));
    string_of(v.as_slice())
}

/// Upload steps, their names and the missing-alt warnings for `media`.
pub fn media_steps(media: &[MediaRef], prefix: &str, suffix: &str) -> (r: (
    Vec<Step>,
    Vec<String>,
    Vec<String>,
))
    ensures
        steps_view(r.0@) == upload_steps(media@),
        strs_view(r.1@) == ref_ids(media@.len()),
        strs_view(r.2@) == alt_warnings(media@, prefix@, suffix@),
{
    let mut steps: Vec<Step> = Vec::new();
    let mut refs: Vec<String> = Vec::new();
    let mut warnings: Vec<String> = Vec::new();
    let mut i: usize = 0;
    while i < media.len()
        invariant
            i <= media@.len(),
            steps@.len() == i,
            refs@.len() == i,
            steps_view(steps@) == upload_steps(media@.subrange(0, i as int)),
            strs_view(refs@) == ref_ids(i as nat),
            strs_view(warnings@) == alt_warnings(media@.subrange(0, i as int), prefix@, suffix@),
        decreases media@.len() - i,
    {
        let ghost s0 = steps@;
        let ghost r0 = refs@;
        let ghost w0 = warnings@;
        let m = &media[i];
        if m.alt.is_none() {
            let mut v = chars_of(prefix);
            let d = decimal(i as u64);
            push_chars(&mut v, d.as_slice());
            push_str(&mut v, suffix);
            warnings.push(string_of(v.as_slice()));
        }
        steps.push(
            Step::UploadMedia { path: m.path.clone(), alt: m.alt.clone(), ref_id: ref_name_of(i) },
        );
        refs.push(ref_name_of(i));
        proof {
            let t = media@.subrange(0, i + 1);
            assert(t.drop_last() =~= media@.subrange(0, i as int));
            assert(t.last() == media@[i as int]);
            assert forall|j: int| 0 <= j < i + 1 implies #[trigger] steps_view(steps@)[j] == upload_steps(t)[j] by {
                if j < i {
                    assert(steps@[j] == s0[j]);
                    assert(steps_view(s0)[j] == upload_steps(
                        media@.subrange(0, i as int),
                    )[j]);
                }
            }
            assert(steps_view(steps@) =~= upload_steps(t));
            assert forall|j: int| 0 <= j < i + 1 implies #[trigger] strs_view(refs@)[j]
                == ref_ids((i + 1) as nat)[j] by {
                if j < i {
                    assert(refs@[j] == r0[j]);
                    assert(strs_view(r0)[j] == ref_ids(i as nat)[j]);
                }
            }
            assert(strs_view(refs@) =~= ref_ids((i + 1) as nat));
            if media@[i as int].alt is None {
                assert(strs_view(warnings@) =~= strs_view(w0).push(
                    prefix@ + dec(i as nat) + suffix@,
                ));
            } else {
                assert(warnings@ == w0);
            }
        }
        i = i + 1;
    }
    assert(media@.subrange(0, media@.len() as int) =~= media@);
    (steps, refs, warnings)
}

} // verus!
