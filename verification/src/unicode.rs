//! Grapheme clusters, as the `unicode-segmentation` crate computes them.

use unicode_segmentation::UnicodeSegmentation;
use vstd::prelude::*;

verus! {

/// The extended grapheme clusters of `s`, in order, as
/// `UnicodeSegmentation::graphemes(s, true)` yields them.
pub uninterp spec fn grapheme_clusters(s: Seq<char>) -> Seq<Seq<char>>;

/// The characters of `parts`, joined in order.
pub open spec fn concat_all(parts: Seq<Seq<char>>) -> Seq<char>
    decreases parts.len(),
{
    if parts.len() == 0 {
        Seq::empty()
    } else {
        concat_all(parts.drop_last()) + parts.last()
    }
}

/// The views of a sequence of strings.
pub open spec fn strings_view(v: Seq<String>) -> Seq<Seq<char>> {
    v.map_values(|s: String| s@)
}

/// An ASCII character other than carriage return: under the rules of
/// Unicode Standard Annex #29 it never joins its neighbours in a cluster
/// (only CR followed by LF does among ASCII characters).
pub open spec fn is_lone_ascii(c: char) -> bool {
    (c as u32) < 128 && c != '\r'
}

/// `UnicodeSegmentation::graphemes(s, true)`: the extended grapheme clusters
/// of `s`. The crate documents them as the segments between the grapheme
/// boundaries of Unicode Standard Annex #29, so they are non-empty and
/// together spell `s`; in text of ASCII characters without CR every
/// character is a cluster of its own.
#[verifier::external_body]
pub(crate) fn graphemes(s: &str) -> (g: Vec<String>)
    ensures
        strings_view(g@) == grapheme_clusters(s@),
        concat_all(strings_view(g@)) == s@,
        forall|i: int| 0 <= i < g@.len() ==> (#[trigger] g@[i])@.len() > 0,
        (forall|i: int| 0 <= i < s@.len() ==> is_lone_ascii(#[trigger] s@[i])) ==> strings_view(g@)
            == s@.map_values(|c: char| seq![c]),
{
    s.graphemes(true).map(|x| x.to_string()).collect()
}

} // verus!
