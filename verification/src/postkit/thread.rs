//! Splitting a long text into thread posts of bounded grapheme length,
//! preferring to break at whitespace.

use crate::text::{chars_of, is_whitespace, is_ws, push_str, string_of, trim_end, trim_end_seq};
use crate::unicode::{grapheme_clusters, graphemes, strings_view};
use vstd::prelude::*;

verus! {

/// Whether a grapheme cluster is made of whitespace only.
pub open spec fn blank_cluster(c: Seq<char>) -> bool {
    forall|k: int| 0 <= k < c.len() ==> is_ws(#[trigger] c[k])
}

/// The clusters `g[a..b]` joined.
pub open spec fn join_range(g: Seq<Seq<char>>, a: int, b: int) -> Seq<char>
    decreases b - a,
{
    if b <= a {
        Seq::empty()
    } else {
        join_range(g, a, b - 1) + g[b - 1]
    }
}

/// The last index `i` with `start < i < j` whose cluster is blank, if any.
pub open spec fn break_before(g: Seq<Seq<char>>, start: int, j: int) -> Option<int>
    decreases j - start,
{
    if j <= start + 1 {
        None
    } else if blank_cluster(g[j - 1]) {
        Some(j - 1)
    } else {
        break_before(g, start, j - 1)
    }
}

/// The first index at or after `i` whose cluster is not blank (or the end).
pub open spec fn skip_blank(g: Seq<Seq<char>>, i: int) -> int
    decreases g.len() - i,
{
    if i >= 0 && i < g.len() && blank_cluster(g[i]) {
        skip_blank(g, i + 1)
    } else {
        i
    }
}

/// Where the chunk starting at `start` ends: `max` clusters on, or earlier
/// at the last blank cluster before that point when the text goes on.
pub open spec fn chunk_end(g: Seq<Seq<char>>, start: int, max: int) -> int {
    let end = if start + max < g.len() {
        start + max
    } else {
        g.len() as int
    };
    if end < g.len() {
        match break_before(g, start, end) {
            Some(i) => i,
            None => end,
        }
    } else {
        end
    }
}

pub proof fn lemma_break_before_bounds(g: Seq<Seq<char>>, start: int, j: int)
    ensures
        break_before(g, start, j) matches Some(i) ==> start < i < j,
    decreases j - start,
{
    if j > start + 1 && !blank_cluster(g[j - 1]) {
        lemma_break_before_bounds(g, start, j - 1);
    }
}

pub proof fn lemma_skip_blank_ge(g: Seq<Seq<char>>, i: int)
    ensures
        skip_blank(g, i) >= i,
        i <= g.len() ==> skip_blank(g, i) <= g.len(),
    decreases g.len() - i,
{
    if i >= 0 && i < g.len() && blank_cluster(g[i]) {
        lemma_skip_blank_ge(g, i + 1);
    }
}

/// The chunks from cluster `start` on, each trimmed at its end, before
/// blank chunks are dropped.
pub open spec fn chunks_from(g: Seq<Seq<char>>, start: int, max: int) -> Seq<Seq<char>>
    decreases g.len() - start,
    when 0 <= start && max > 0
{
    if start >= g.len() {
        Seq::empty()
    } else {
        let b = chunk_end(g, start, max);
        proof {
            lemma_break_before_bounds(g, start, if start + max < g.len() {
                start + max
            } else {
                g.len() as int
            });
            lemma_skip_blank_ge(g, b);
        }
        proof {
            assert(b > start);
            assert(b <= g.len());
            assert(skip_blank(g, b) <= g.len());
        }
        seq![trim_end_seq(join_range(g, start, b))] + chunks_from(g, skip_blank(g, b), max)
    }
}

/// `s` without its empty elements.
pub open spec fn drop_empty(s: Seq<Seq<char>>) -> Seq<Seq<char>>
    decreases s.len(),
{
    if s.len() == 0 {
        s
    } else {
        let r = drop_empty(s.drop_last());
        if s.last().len() == 0 {
            r
        } else {
            r.push(s.last())
        }
    }
}

/// The thread parts of `text` for posts of at most `max` grapheme clusters:
/// the text itself when it fits; otherwise chunks of at most `max` clusters,
/// broken at the last whitespace cluster where possible, trimmed at the end,
/// with the whitespace between them dropped and blank chunks left out.
pub open spec fn split_chunks(text: Seq<char>, max: nat) -> Seq<Seq<char>> {
    let g = grapheme_clusters(text);
    if g.len() <= max {
        seq![text]
    } else {
        drop_empty(chunks_from(g, 0, max as int))
    }
}

/// `c` is made of at most `max` consecutive clusters of `g`, trimmed at the
/// end.
pub open spec fn within_clusters(g: Seq<Seq<char>>, c: Seq<char>, max: int) -> bool {
    exists|a: int, b: int| 0 <= a < b <= g.len() && b - a <= max && c == trim_end_seq(#[trigger] join_range(g, a, b))
}

proof fn lemma_chunk_end_bounds(g: Seq<Seq<char>>, start: int, max: int)
    requires
        0 <= start < g.len(),
        max > 0,
    ensures
        start < chunk_end(g, start, max) <= g.len(),
        chunk_end(g, start, max) - start <= max,
{
    let end = if start + max < g.len() {
        start + max
    } else {
        g.len() as int
    };
    lemma_break_before_bounds(g, start, end);
}

proof fn lemma_chunks_within(g: Seq<Seq<char>>, start: int, max: int)
    requires
        0 <= start,
        max > 0,
    ensures
        forall|i: int|
            0 <= i < chunks_from(g, start, max).len() ==> within_clusters(g, #[trigger] chunks_from(g, start, max)[i], max),
    decreases g.len() - start,
{
    if start < g.len() {
        let b = chunk_end(g, start, max);
        lemma_chunk_end_bounds(g, start, max);
        lemma_skip_blank_ge(g, b);
        let next = skip_blank(g, b);
        lemma_chunks_within(g, next, max);
        let head = trim_end_seq(join_range(g, start, b));
        let all = chunks_from(g, start, max);
        assert(all == seq![head] + chunks_from(g, next, max));
        assert forall|i: int| 0 <= i < all.len() implies within_clusters(g, #[trigger] all[i], max) by {
            if i == 0 {
                assert(all[0] == trim_end_seq(join_range(g, start, b)));
            } else {
                assert(all[i] == chunks_from(g, next, max)[i - 1]);
            }
        }
    }
}

proof fn lemma_drop_empty_keeps(s: Seq<Seq<char>>, g: Seq<Seq<char>>, max: int)
    requires
        forall|i: int| 0 <= i < s.len() ==> within_clusters(g, #[trigger] s[i], max),
    ensures
        forall|i: int| 0 <= i < drop_empty(s).len() ==> within_clusters(g, #[trigger] drop_empty(s)[i], max),
        forall|i: int| 0 <= i < drop_empty(s).len() ==> (#[trigger] drop_empty(s)[i]).len() > 0,
    decreases s.len(),
{
    if s.len() > 0 {
        let t = s.drop_last();
        assert forall|i: int| 0 <= i < t.len() implies within_clusters(g, #[trigger] t[i], max) by {
            assert(t[i] == s[i]);
        }
        lemma_drop_empty_keeps(t, g, max);
        let r = drop_empty(t);
        assert(within_clusters(g, s[s.len() - 1], max));
        if s.last().len() == 0 {
            assert(drop_empty(s) == r);
        } else {
            assert(drop_empty(s) == r.push(s.last()));
            assert forall|i: int| 0 <= i < drop_empty(s).len() implies within_clusters(
                g,
                #[trigger] drop_empty(s)[i],
                max,
            ) && drop_empty(s)[i].len() > 0 by {
                if i < r.len() {
                    assert(drop_empty(s)[i] == r[i]);
                } else {
                    assert(drop_empty(s)[i] == s.last());
                }
            }
        }
    }
}

/// The part starting at cluster `s` ends at `e` as late as the limit
/// allows: when the text goes on past `max` clusters from `s`, the part
/// ends at the last blank cluster after `s` within those `max` clusters
/// (the blank itself left out), or, with no such blank, after exactly `max`
/// clusters; otherwise it runs to the end of the text.
pub open spec fn late_break(g: Seq<Seq<char>>, s: int, e: int, max: int) -> bool {
    if s + max < g.len() {
        ||| (e == s + max && forall|k: int| s < k < s + max ==> !blank_cluster(#[trigger] g[k]))
        ||| (s < e < s + max && blank_cluster(g[e]) && forall|k: int| e < k < s + max ==> !blank_cluster(#[trigger] g[k]))
    } else {
        e == g.len()
    }
}

/// Clusters `a..b` are blank, and the one at `b` (if any) is not.
pub open spec fn blank_gap(g: Seq<Seq<char>>, a: int, b: int) -> bool {
    &&& 0 <= a <= b <= g.len()
    &&& forall|k: int| a <= k < b ==> blank_cluster(#[trigger] g[k])
    &&& b < g.len() ==> !blank_cluster(g[b])
}

/// How a text of clusters `g` is cut into parts: part `i` is clusters
/// `starts[i]..ends[i]`, each broken as late as the limit allows, the next
/// part starting after the blank clusters that follow, and only blanks
/// after the last part.
pub open spec fn thread_cut(g: Seq<Seq<char>>, max: int, from: int, starts: Seq<int>, ends: Seq<int>) -> bool {
    &&& starts.len() == ends.len()
    &&& from < g.len() ==> starts.len() > 0 && starts[0] == from
    &&& from >= g.len() ==> starts.len() == 0
    &&& forall|i: int| 0 <= i < starts.len() ==> from <= #[trigger] starts[i] < ends[i] <= g.len()
    &&& forall|i: int| 0 <= i < starts.len() ==> late_break(g, #[trigger] starts[i], ends[i], max)
    &&& forall|i: int| 0 <= i < starts.len() - 1 ==> blank_gap(g, #[trigger] ends[i], starts[i + 1])
    &&& starts.len() > 0 ==> blank_gap(g, ends.last(), g.len() as int)
}

/// The parts cut out of `g`, each trimmed at its end.
pub open spec fn cut_parts(g: Seq<Seq<char>>, starts: Seq<int>, ends: Seq<int>) -> Seq<Seq<char>> {
    Seq::new(starts.len(), |i: int| trim_end_seq(join_range(g, starts[i], ends[i])))
}

proof fn lemma_break_before_last(g: Seq<Seq<char>>, start: int, j: int)
    ensures
        break_before(g, start, j) matches Some(i) ==> blank_cluster(g[i]) && forall|k: int|
            i < k < j ==> !blank_cluster(#[trigger] g[k]),
        break_before(g, start, j) is None ==> forall|k: int| start < k < j ==> !blank_cluster(#[trigger] g[k]),
    decreases j - start,
{
    if j > start + 1 && !blank_cluster(g[j - 1]) {
        lemma_break_before_last(g, start, j - 1);
        assert forall|k: int| start < k < j && k != j - 1 implies !blank_cluster(#[trigger] g[k]) || break_before(g, start, j) is Some by {}
    }
}

proof fn lemma_chunk_end_late(g: Seq<Seq<char>>, start: int, max: int)
    requires
        0 <= start < g.len(),
        max > 0,
    ensures
        late_break(g, start, chunk_end(g, start, max), max),
{
    let end = if start + max < g.len() {
        start + max
    } else {
        g.len() as int
    };
    lemma_break_before_bounds(g, start, end);
    lemma_break_before_last(g, start, end);
}

proof fn lemma_skip_blank_gap(g: Seq<Seq<char>>, i: int)
    requires
        0 <= i <= g.len(),
    ensures
        blank_gap(g, i, skip_blank(g, i)),
    decreases g.len() - i,
{
    if i < g.len() && blank_cluster(g[i]) {
        lemma_skip_blank_gap(g, i + 1);
    }
}

/// The cut behind [`chunks_from`], from cluster `start` on.
proof fn lemma_cut_from(g: Seq<Seq<char>>, start: int, max: int) -> (r: (Seq<int>, Seq<int>))
    requires
        0 <= start <= g.len(),
        max > 0,
    ensures
        thread_cut(g, max, start, r.0, r.1),
        chunks_from(g, start, max) == cut_parts(g, r.0, r.1),
    decreases g.len() - start,
{
    if start >= g.len() {
        let r = (Seq::<int>::empty(), Seq::<int>::empty());
        assert(cut_parts(g, r.0, r.1) =~= Seq::<Seq<char>>::empty());
        r
    } else {
        let b = chunk_end(g, start, max);
        lemma_chunk_end_bounds(g, start, max);
        lemma_chunk_end_late(g, start, max);
        lemma_skip_blank_ge(g, b);
        lemma_skip_blank_gap(g, b);
        let next = skip_blank(g, b);
        let (ss, es) = lemma_cut_from(g, next, max);
        let starts = seq![start] + ss;
        let ends = seq![b] + es;
        assert(chunks_from(g, start, max) == seq![trim_end_seq(join_range(g, start, b))] + chunks_from(g, next, max));
        assert(cut_parts(g, starts, ends) =~= seq![trim_end_seq(join_range(g, start, b))] + cut_parts(g, ss, es));
        assert forall|i: int| 0 <= i < starts.len() implies start <= #[trigger] starts[i] < ends[i] <= g.len() by {
            if i > 0 {
                assert(starts[i] == ss[i - 1] && ends[i] == es[i - 1]);
            }
        }
        assert forall|i: int| 0 <= i < starts.len() implies late_break(g, #[trigger] starts[i], ends[i], max) by {
            if i > 0 {
                assert(starts[i] == ss[i - 1] && ends[i] == es[i - 1]);
            }
        }
        assert forall|i: int| 0 <= i < starts.len() - 1 implies blank_gap(g, #[trigger] ends[i], starts[i + 1]) by {
            if i == 0 {
                assert(ends[0] == b);
                if next < g.len() {
                    assert(starts[1] == ss[0]);
                } else {
                    assert(ss.len() == 0);
                }
            } else {
                assert(ends[i] == es[i - 1] && starts[i + 1] == ss[i]);
            }
        }
        if ss.len() == 0 {
            assert(next >= g.len());
            assert(ends.last() == b);
        } else {
            assert(ends.last() == es.last());
        }
        (starts, ends)
    }
}

/// A long text is cut as late as possible: there is a cut of its clusters
/// into parts, each ending at the last blank cluster within `max` clusters
/// of its start (or after exactly `max` clusters when there is none, or at
/// the end of the text), the next starting at the first non-blank cluster
/// after it, and the thread is those parts trimmed at their ends, blank
/// ones left out.
pub proof fn law_thread_breaks_late(text: Seq<char>, max: nat)
    requires
        max > 0,
        grapheme_clusters(text).len() > max,
    ensures
        exists|starts: Seq<int>, ends: Seq<int>|
            thread_cut(grapheme_clusters(text), max as int, 0, starts, ends) && split_chunks(text, max)
                == drop_empty(#[trigger] cut_parts(grapheme_clusters(text), starts, ends)),
{
    let g = grapheme_clusters(text);
    let (starts, ends) = lemma_cut_from(g, 0, max as int);
    assert(split_chunks(text, max) == drop_empty(cut_parts(g, starts, ends)));
}

/// Every part of a thread fits a post: a text of at most `max` clusters is
/// kept whole; a longer one is cut into non-empty parts, each made of at
/// most `max` consecutive clusters of the text.
pub proof fn law_thread_parts_fit(text: Seq<char>, max: nat)
    requires
        max > 0,
    ensures
        grapheme_clusters(text).len() <= max ==> split_chunks(text, max) == seq![text],
        grapheme_clusters(text).len() > max ==> forall|i: int|
            0 <= i < split_chunks(text, max).len() ==> {
                &&& within_clusters(grapheme_clusters(text), #[trigger] split_chunks(text, max)[i], max as int)
                &&& split_chunks(text, max)[i].len() > 0
            },
{
    let g = grapheme_clusters(text);
    if g.len() > max {
        lemma_chunks_within(g, 0, max as int);
        lemma_drop_empty_keeps(chunks_from(g, 0, max as int), g, max as int);
    }
}

fn cluster_blank(c: &String) -> (r: bool)
    ensures
        r == blank_cluster(c@),
{
    let v = chars_of(c.as_str());
    let mut k: usize = 0;
    while k < v.len()
        invariant
            v@ == c@,
            k <= v@.len(),
            forall|m: int| 0 <= m < k ==> is_ws(#[trigger] v@[m]),
        decreases v@.len() - k,
    {
        if !is_whitespace(v[k]) {
            return false;
        }
        k = k + 1;
    }
    true
}

/// The thread parts as strings, with the facts of [`law_thread_parts_fit`].
proof fn lemma_parts_of(text: Seq<char>, max: nat, r: Seq<String>)
    requires
        max > 0,
        strings_view(r) == split_chunks(text, max),
    ensures
        grapheme_clusters(text).len() <= max ==> strings_view(r) == seq![text],
        grapheme_clusters(text).len() > max ==> forall|i: int|
            0 <= i < r.len() ==> {
                &&& within_clusters(grapheme_clusters(text), (#[trigger] r[i])@, max as int)
                &&& r[i]@.len() > 0
            },
{
    law_thread_parts_fit(text, max);
    assert forall|i: int| 0 <= i < r.len() implies strings_view(r)[i] == (#[trigger] r[i])@ by {}
    if grapheme_clusters(text).len() > max {
        assert forall|i: int| 0 <= i < r.len() implies {
            &&& within_clusters(grapheme_clusters(text), (#[trigger] r[i])@, max as int)
            &&& r[i]@.len() > 0
        } by {
            assert(strings_view(r)[i] == r[i]@);
            assert(split_chunks(text, max)[i] == r[i]@);
        }
    }
}

/// Splits `text` into thread parts (see [`split_chunks`]).
pub fn split_into_chunks(text: &str, max: usize) -> (r: Vec<String>)
    requires
        max > 0,
    ensures
        strings_view(r@) == split_chunks(text@, max as nat),
        grapheme_clusters(text@).len() <= max ==> strings_view(r@) == seq![text@],
        grapheme_clusters(text@).len() > max ==> forall|i: int|
            0 <= i < r@.len() ==> {
                &&& within_clusters(grapheme_clusters(text@), (#[trigger] r@[i])@, max as int)
                &&& r@[i]@.len() > 0
            },
{
    let g = graphemes(text);
    let ghost gv = strings_view(g@);
    let n = g.len();
    if n <= max {
        let mut r = Vec::new();
        r.push(string_of(chars_of(text).as_slice()));
        assert(strings_view(r@) =~= seq![text@]);
        proof {
            lemma_parts_of(text@, max as nat, r@);
        }
        return r;
    }
    let mut chunks: Vec<String> = Vec::new();
    let mut start: usize = 0;
    assert(chunks_from(gv, 0, max as int) == strings_view(chunks@) + chunks_from(gv, 0, max as int));
    while start < n
        invariant
            n == g@.len(),
            gv == strings_view(g@),
            gv == grapheme_clusters(text@),
            max > 0,
            start <= n,
            chunks_from(gv, 0, max as int) == strings_view(chunks@) + chunks_from(
                gv,
                start as int,
                max as int,
            ),
        decreases n - start,
    {
        let end = if max < n - start {
            start + max
        } else {
            n
        };
        let mut b = end;
        if end < n {
            let mut j = end;
            while j > start + 1 && !cluster_blank(&g[j - 1])
                invariant
                    gv == strings_view(g@),
                    start < j <= end,
                    end <= n,
                    n == g@.len(),
                    break_before(gv, start as int, end as int) == break_before(
                        gv,
                        start as int,
                        j as int,
                    ),
                decreases j,
            {
                j = j - 1;
            }
            if j > start + 1 {
                b = j - 1;
            }
        }
        assert(b as int == chunk_end(gv, start as int, max as int));
        proof {
            lemma_break_before_bounds(gv, start as int, end as int);
        }
        let mut piece: Vec<char> = Vec::new();
        let mut k = start;
        while k < b
            invariant
                gv == strings_view(g@),
                start <= k <= b,
                b <= n,
                n == g@.len(),
                piece@ == join_range(gv, start as int, k as int),
            decreases b - k,
        {
            push_str(&mut piece, g[k].as_str());
            k = k + 1;
        }
        let trimmed = trim_end(piece.as_slice());
        let ghost before = chunks@;
        chunks.push(string_of(trimmed.as_slice()));
        let mut next = b;
        while next < n && cluster_blank(&g[next])
            invariant
                gv == strings_view(g@),
                b <= next <= n,
                n == g@.len(),
                skip_blank(gv, b as int) == skip_blank(gv, next as int),
            decreases n - next,
        {
            next = next + 1;
        }
        proof {
            assert(strings_view(chunks@) =~= strings_view(before).push(
                trim_end_seq(join_range(gv, start as int, b as int)),
            ));
            lemma_skip_blank_ge(gv, b as int);
            assert(chunks_from(gv, start as int, max as int) == seq![
                trim_end_seq(join_range(gv, start as int, b as int)),
            ] + chunks_from(gv, next as int, max as int));
            assert(strings_view(chunks@) + chunks_from(gv, next as int, max as int)
                =~= strings_view(before) + chunks_from(gv, start as int, max as int));
        }
        assert(next > start);
        start = next;
    }
    let ghost all = strings_view(chunks@);
    assert(all =~= chunks_from(gv, 0, max as int));
    let m = chunks.len();
    let mut rest = chunks;
    let mut out: Vec<String> = Vec::new();
    let mut i: usize = 0;
    while i < m
        invariant
            m == all.len(),
            i <= m,
            rest@.len() == m - i,
            forall|j: int| 0 <= j < m - i ==> (#[trigger] rest@[j])@ == all[i + j],
            strings_view(out@) == drop_empty(all.subrange(0, i as int)),
        decreases m - i,
    {
        let ghost before = out@;
        let c = rest.remove(0);
        proof {
            let t = all.subrange(0, i + 1);
            assert(t.drop_last() =~= all.subrange(0, i as int));
            assert(t.last() == c@);
        }
        if !c.as_str().is_empty() {
            out.push(c);
            assert(strings_view(out@) =~= strings_view(before).push(out@.last()@));
        }
        i = i + 1;
    }
    assert(all.subrange(0, m as int) =~= all);
    proof {
        lemma_parts_of(text@, max as nat, out@);
    }
    out
}

} // verus!
