//! Splitting text into lines and fields: exact meanings for `str::lines`,
//! the first occurrence of a character and the last one.

use crate::text::{chars_of, slice_chars, string_of};
use vstd::prelude::*;

verus! {

/// Index of the first `c` in `s` at or after `from`, or `s.len()` if none.
pub open spec fn next_char(s: Seq<char>, from: int, c: char) -> int
    decreases s.len() - from,
{
    if from >= s.len() {
        s.len() as int
    } else if from < 0 {
        next_char(s, 0, c)
    } else if s[from] == c {
        from
    } else {
        next_char(s, from + 1, c)
    }
}

/// Where the first `c` at or after `from` stands, as a fact about the text.
pub proof fn lemma_next_char(s: Seq<char>, from: int, c: char, i: int)
    requires
        0 <= from <= i <= s.len(),
        forall|j: int| from <= j < i ==> s[j] != c,
        i == s.len() || s[i] == c,
    ensures
        next_char(s, from, c) == i,
    decreases i - from,
{
    if from < i {
        lemma_next_char(s, from + 1, c, i);
    }
}

/// `next_char` lies between `from` and the end, and nothing before it is `c`.
pub proof fn lemma_next_char_bounds(s: Seq<char>, from: int, c: char)
    requires
        0 <= from <= s.len(),
    ensures
        from <= next_char(s, from, c) <= s.len(),
        forall|j: int| from <= j < next_char(s, from, c) ==> s[j] != c,
        next_char(s, from, c) == s.len() || s[next_char(s, from, c)] == c,
    decreases s.len() - from,
{
    if from < s.len() && s[from] != c {
        lemma_next_char_bounds(s, from + 1, c);
    }
}

/// A line as `str::lines` yields it: the piece before a `\n`, without a
/// `\r` right before that `\n`.
pub open spec fn line_body(piece: Seq<char>, ended_by_newline: bool) -> Seq<char> {
    if ended_by_newline && piece.len() > 0 && piece.last() == '\r' {
        piece.drop_last()
    } else {
        piece
    }
}

/// The lines of `s[from..]`, as `str::lines` yields them: split after each
/// `\n`, no empty line after a final `\n`, and a `\r\n` ending removed.
pub open spec fn lines_from(s: Seq<char>, from: int) -> Seq<Seq<char>>
    decreases s.len() - from,
{
    if from < 0 || from >= s.len() {
        Seq::empty()
    } else {
        let j = next_char(s, from, '\n');
        if j < from || j > s.len() {
            Seq::empty()
        } else if j == s.len() {
            seq![line_body(s.subrange(from, j), false)]
        } else {
            seq![line_body(s.subrange(from, j), true)] + lines_from(s, j + 1)
        }
    }
}

/// The lines of `s` (`str::lines`).
pub open spec fn text_lines(s: Seq<char>) -> Seq<Seq<char>> {
    lines_from(s, 0)
}

fn line_of(s: &[char], from: usize, to: usize) -> (r: String)
    requires
        from <= to <= s@.len(),
    ensures
        r@ == line_body(s@.subrange(from as int, to as int), to < s@.len()),
{
    let end = if to < s.len() && to > from && s[to - 1] == '\r' {
        to - 1
    } else {
        to
    };
    let v = slice_chars(s, from, end);
    proof {
        let piece = s@.subrange(from as int, to as int);
        if to < s@.len() && piece.len() > 0 && piece.last() == '\r' {
            assert(piece.drop_last() =~= s@.subrange(from as int, end as int));
        } else {
            assert(end == to);
        }
    }
    string_of(v.as_slice())
}

/// The lines of `text` (`str::lines`).
pub fn lines(text: &str) -> (r: Vec<String>)
    ensures
        r@.map_values(|l: String| l@) == text_lines(text@),
{
    let s = chars_of(text);
    let mut out: Vec<String> = Vec::new();
    let mut start: usize = 0;
    let mut i: usize = 0;
    while i < s.len()
        invariant
            s@ == text@,
            start <= i <= s@.len(),
            forall|j: int| start <= j < i ==> s@[j] != '\n',
            out@.map_values(|l: String| l@) + lines_from(s@, start as int) == text_lines(s@),
        decreases s@.len() - i,
    {
        if s[i] == '\n' {
            let line = line_of(s.as_slice(), start, i);
            proof {
                lemma_next_char(s@, start as int, '\n', i as int);
                assert(lines_from(s@, start as int) =~= seq![line@] + lines_from(s@, i + 1));
            }
            let ghost before = out@;
            out.push(line);
            proof {
                assert(out@.map_values(|l: String| l@) =~= before.map_values(|l: String| l@).push(
                    line@,
                ));
            }
            start = i + 1;
        }
        i = i + 1;
    }
    if start < s.len() {
        let line = line_of(s.as_slice(), start, s.len());
        proof {
            lemma_next_char(s@, start as int, '\n', s@.len() as int);
            assert(lines_from(s@, start as int) =~= seq![line@]);
        }
        let ghost before = out@;
        out.push(line);
        proof {
            assert(out@.map_values(|l: String| l@) =~= before.map_values(|l: String| l@).push(
                line@,
            ));
        }
    } else {
        assert(lines_from(s@, start as int) =~= Seq::<Seq<char>>::empty());
        assert(out@.map_values(|l: String| l@) =~= out@.map_values(|l: String| l@) + Seq::<
            Seq<char>,
        >::empty());
    }
    out
}

/// Index of the last `c` in `s`, or -1 if none.
pub open spec fn last_index_of(s: Seq<char>, c: char) -> int
    decreases s.len(),
{
    if s.len() == 0 {
        -1
    } else if s.last() == c {
        s.len() - 1
    } else {
        last_index_of(s.drop_last(), c)
    }
}

proof fn lemma_last_index_of(s: Seq<char>, c: char, k: int)
    requires
        -1 <= k < s.len(),
        forall|j: int| k < j < s.len() ==> s[j] != c,
        k == -1 || s[k] == c,
    ensures
        last_index_of(s, c) == k,
    decreases s.len(),
{
    if s.len() > 0 && k < s.len() - 1 {
        lemma_last_index_of(s.drop_last(), c, k);
    }
}

/// Index of the first `c` in `s` at or after `from` (see [`next_char`]).
pub fn find_char(s: &[char], from: usize, c: char) -> (r: usize)
    requires
        from <= s@.len(),
    ensures
        r == next_char(s@, from as int, c),
        from <= r <= s@.len(),
{
    let mut i = from;
    while i < s.len() && s[i] != c
        invariant
            from <= i <= s@.len(),
            forall|j: int| from <= j < i ==> s@[j] != c,
        decreases s@.len() - i,
    {
        i = i + 1;
    }
    proof {
        lemma_next_char(s@, from as int, c, i as int);
    }
    i
}

/// Index of the last `c` in `s` (see [`last_index_of`]).
pub fn rfind_char(s: &[char], c: char) -> (r: Option<usize>)
    ensures
        match r {
            Some(k) => k == last_index_of(s@, c) && k < s@.len(),
            None => last_index_of(s@, c) == -1,
        },
{
    let mut k: usize = s.len();
    while k > 0 && s[k - 1] != c
        invariant
            k <= s@.len(),
            forall|j: int| k <= j < s@.len() ==> s@[j] != c,
        decreases k,
    {
        k = k - 1;
    }
    proof {
        lemma_last_index_of(s@, c, k - 1);
    }
    if k == 0 {
        None
    } else {
        Some(k - 1)
    }
}


/// The pieces of `s[from..]` between occurrences of `c` (`str::split`):
/// always at least one, possibly empty.
pub open spec fn pieces_from(s: Seq<char>, from: int, c: char) -> Seq<Seq<char>>
    decreases s.len() - from,
{
    if from < 0 || from > s.len() {
        Seq::empty()
    } else {
        let j = next_char(s, from, c);
        if j < from || j >= s.len() {
            seq![s.subrange(from, s.len() as int)]
        } else {
            seq![s.subrange(from, j)] + pieces_from(s, j + 1, c)
        }
    }
}

/// The pieces of `s` between occurrences of `c` (`str::split`).
pub open spec fn split_on(s: Seq<char>, c: char) -> Seq<Seq<char>> {
    pieces_from(s, 0, c)
}

/// The pieces of `text` between occurrences of `c` (`str::split`).
pub fn split_char(text: &str, c: char) -> (r: Vec<String>)
    ensures
        r@.map_values(|p: String| p@) == split_on(text@, c),
{
    let s = chars_of(text);
    let mut out: Vec<String> = Vec::new();
    let mut start: usize = 0;
    let mut i: usize = 0;
    while i < s.len()
        invariant
            s@ == text@,
            start <= i <= s@.len(),
            forall|j: int| start <= j < i ==> s@[j] != c,
            out@.map_values(|p: String| p@) + pieces_from(s@, start as int, c) == split_on(s@, c),
        decreases s@.len() - i,
    {
        if s[i] == c {
            let piece = string_of(slice_chars(s.as_slice(), start, i).as_slice());
            proof {
                lemma_next_char(s@, start as int, c, i as int);
                assert(pieces_from(s@, start as int, c) =~= seq![piece@] + pieces_from(s@, i + 1, c));
            }
            let ghost before = out@;
            out.push(piece);
            proof {
                assert(out@.map_values(|p: String| p@) =~= before.map_values(|p: String| p@).push(
                    piece@,
                ));
            }
            start = i + 1;
        }
        i = i + 1;
    }
    let piece = string_of(slice_chars(s.as_slice(), start, s.len()).as_slice());
    proof {
        lemma_next_char(s@, start as int, c, s@.len() as int);
        assert(pieces_from(s@, start as int, c) =~= seq![piece@]);
    }
    let ghost before = out@;
    out.push(piece);
    proof {
        assert(out@.map_values(|p: String| p@) =~= before.map_values(|p: String| p@).push(piece@));
    }
    out
}


/// Number of leading `c`s in `s`.
pub open spec fn lead_run(s: Seq<char>, c: char) -> nat
    decreases s.len(),
{
    if s.len() == 0 {
        0
    } else if s[0] == c {
        1 + lead_run(s.drop_first(), c)
    } else {
        0
    }
}

/// Number of trailing `c`s in `s`.
pub open spec fn trail_run(s: Seq<char>, c: char) -> nat
    decreases s.len(),
{
    if s.len() == 0 {
        0
    } else if s.last() == c {
        1 + trail_run(s.drop_last(), c)
    } else {
        0
    }
}

/// `s` without trailing `c`s (`str::trim_end_matches(c)`).
pub open spec fn trim_end_char(s: Seq<char>, c: char) -> Seq<char> {
    s.take(s.len() - trail_run(s, c))
}

/// `s` without leading and trailing `c`s (`str::trim_matches(c)`).
pub open spec fn trim_char(s: Seq<char>, c: char) -> Seq<char> {
    trim_end_char(s.skip(lead_run(s, c) as int), c)
}

proof fn lemma_lead_run(s: Seq<char>, c: char, k: int)
    requires
        0 <= k <= s.len(),
        forall|j: int| 0 <= j < k ==> s[j] == c,
        k == s.len() || s[k] != c,
    ensures
        lead_run(s, c) == k,
    decreases k,
{
    if k > 0 {
        lemma_lead_run(s.drop_first(), c, k - 1);
    }
}

proof fn lemma_trail_run(s: Seq<char>, c: char, k: int)
    requires
        0 <= k <= s.len(),
        forall|j: int| s.len() - k <= j < s.len() ==> s[j] == c,
        k == s.len() || s[s.len() - k - 1] != c,
    ensures
        trail_run(s, c) == k,
    decreases k,
{
    if k > 0 {
        lemma_trail_run(s.drop_last(), c, k - 1);
    }
}

/// `text` without trailing `c`s.
pub fn trim_end_matches(text: &str, c: char) -> (r: String)
    ensures
        r@ == trim_end_char(text@, c),
{
    let s = chars_of(text);
    let mut k: usize = 0;
    while k < s.len() && s[s.len() - k - 1] == c
        invariant
            k <= s@.len(),
            forall|j: int| s@.len() - k <= j < s@.len() ==> s@[j] == c,
        decreases s@.len() - k,
    {
        k = k + 1;
    }
    proof {
        lemma_trail_run(s@, c, k as int);
    }
    let v = slice_chars(s.as_slice(), 0, s.len() - k);
    assert(v@ =~= text@.take(text@.len() - trail_run(text@, c)));
    string_of(v.as_slice())
}

/// `text` without leading and trailing `c`s.
pub fn trim_matches(text: &str, c: char) -> (r: String)
    ensures
        r@ == trim_char(text@, c),
{
    let s = chars_of(text);
    let mut a: usize = 0;
    while a < s.len() && s[a] == c
        invariant
            a <= s@.len(),
            forall|j: int| 0 <= j < a ==> s@[j] == c,
        decreases s@.len() - a,
    {
        a = a + 1;
    }
    proof {
        lemma_lead_run(s@, c, a as int);
    }
    let n = s.len();
    let rest = slice_chars(s.as_slice(), a, n);
    assert(rest@ =~= text@.skip(a as int));
    trim_end_matches(string_of(rest.as_slice()).as_str(), c)
}

} // verus!
