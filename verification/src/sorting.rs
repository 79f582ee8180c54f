//! Stable insertion sort over a type's own ordering, and lexicographic
//! ordering of character sequences.

use vstd::prelude::*;

verus! {

/// A type with a "comes no later than" relation used for sorting.
pub trait Ordered: Sized {
    spec fn ord_le(self, other: Self) -> bool;

    fn le(&self, other: &Self) -> (r: bool)
        ensures
            r == self.ord_le(*other),
    ;
}

/// `s` with `x` inserted after the last element that comes no later than it
/// (for a sorted `s`: after every element not greater than `x`).
pub open spec fn insert_sorted<T: Ordered>(s: Seq<T>, x: T) -> Seq<T>
    decreases s.len(),
{
    if s.len() == 0 {
        seq![x]
    } else if s.last().ord_le(x) {
        s.push(x)
    } else {
        insert_sorted(s.drop_last(), x).push(s.last())
    }
}

/// The stable sort of `s`: each element inserted in turn, in input order,
/// after the elements that come no later than it.
pub open spec fn stable_sort<T: Ordered>(s: Seq<T>) -> Seq<T>
    decreases s.len(),
{
    if s.len() == 0 {
        s
    } else {
        insert_sorted(stable_sort(s.drop_last()), s.last())
    }
}

proof fn lemma_insert_at<T: Ordered>(s: Seq<T>, x: T, p: int)
    requires
        0 <= p <= s.len(),
        forall|j: int| p <= j < s.len() ==> !(#[trigger] s[j]).ord_le(x),
        p == 0 || s[p - 1].ord_le(x),
    ensures
        insert_sorted(s, x) == s.subrange(0, p).push(x) + s.subrange(p, s.len() as int),
    decreases s.len(),
{
    if s.len() == 0 {
        assert(s.subrange(0, p).push(x) + s.subrange(p, s.len() as int) =~= seq![x]);
    } else if p == s.len() {
        assert(s.subrange(0, p) =~= s);
        assert(s.subrange(0, p).push(x) + s.subrange(p, s.len() as int) =~= s.push(x));
    } else {
        let d = s.drop_last();
        assert(!s[s.len() - 1].ord_le(x));
        lemma_insert_at(d, x, p);
        assert(d.subrange(0, p) =~= s.subrange(0, p));
        assert((d.subrange(0, p).push(x) + d.subrange(p, d.len() as int)).push(s.last())
            =~= s.subrange(0, p).push(x) + s.subrange(p, s.len() as int));
    }
}

/// The order is total: of any two values one comes no later than the
/// other.
pub open spec fn ord_total<T: Ordered>() -> bool {
    forall|a: T, b: T| #[trigger] a.ord_le(b) || #[trigger] b.ord_le(a)
}

/// The order is transitive.
pub open spec fn ord_transitive<T: Ordered>() -> bool {
    forall|a: T, b: T, c: T| #[trigger] a.ord_le(b) && #[trigger] b.ord_le(c) ==> a.ord_le(c)
}

/// Every element comes no later than every element after it.
pub open spec fn is_sorted<T: Ordered>(s: Seq<T>) -> bool {
    forall|i: int, j: int| 0 <= i < j < s.len() ==> (#[trigger] s[i]).ord_le(#[trigger] s[j])
}

proof fn lemma_insert_sorted<T: Ordered>(s: Seq<T>, x: T)
    requires
        ord_total::<T>(),
        ord_transitive::<T>(),
        is_sorted(s),
    ensures
        is_sorted(insert_sorted(s, x)),
        insert_sorted(s, x).to_multiset() =~= s.to_multiset().insert(x),
    decreases s.len(),
{
    broadcast use vstd::seq_lib::group_to_multiset_ensures;

    if s.len() == 0 {
        assert(seq![x] =~= Seq::<T>::empty().push(x));
    } else if s.last().ord_le(x) {
        let t = s.push(x);
        assert forall|i: int, j: int| 0 <= i < j < t.len() implies (#[trigger] t[i]).ord_le(
            #[trigger] t[j],
        ) by {
            if j == t.len() - 1 {
                if i < s.len() - 1 {
                    assert(s[i].ord_le(s[s.len() - 1]));
                }
            } else {
                assert(t[i] == s[i] && t[j] == s[j]);
            }
        }
    } else {
        let d = s.drop_last();
        let l = s.last();
        assert(is_sorted(d)) by {
            assert forall|i: int, j: int| 0 <= i < j < d.len() implies (#[trigger] d[i]).ord_le(
                #[trigger] d[j],
            ) by {
                assert(d[i] == s[i] && d[j] == s[j]);
            }
        }
        lemma_insert_sorted(d, x);
        let m = insert_sorted(d, x);
        assert(x.ord_le(l) || l.ord_le(x));
        assert forall|k: int| 0 <= k < m.len() implies (#[trigger] m[k]).ord_le(l) by {
            assert(m.contains(m[k]));
            assert(m.to_multiset().count(m[k]) > 0);
            if m[k] != x {
                assert(d.to_multiset().count(m[k]) > 0);
                assert(d.contains(m[k]));
                let i = choose|i: int| 0 <= i < d.len() && d[i] == m[k];
                assert(s[i] == d[i]);
                assert(s[i].ord_le(s[s.len() - 1]));
            }
        }
        let t = m.push(l);
        assert forall|i: int, j: int| 0 <= i < j < t.len() implies (#[trigger] t[i]).ord_le(
            #[trigger] t[j],
        ) by {
            if j == t.len() - 1 {
                assert(t[i] == m[i]);
            } else {
                assert(t[i] == m[i] && t[j] == m[j]);
            }
        }
        assert(s =~= d.push(l));
    }
}

/// A stable sort under a total, transitive order sorts, and keeps the same
/// elements, each as often as before.
pub proof fn law_stable_sort<T: Ordered>(s: Seq<T>)
    requires
        ord_total::<T>(),
        ord_transitive::<T>(),
    ensures
        is_sorted(stable_sort(s)),
        stable_sort(s).to_multiset() =~= s.to_multiset(),
    decreases s.len(),
{
    broadcast use vstd::seq_lib::group_to_multiset_ensures;

    if s.len() > 0 {
        law_stable_sort(s.drop_last());
        lemma_insert_sorted(stable_sort(s.drop_last()), s.last());
        assert(s =~= s.drop_last().push(s.last()));
    }
}

/// Inserts `x` into `v` as [`insert_sorted`] says.
pub fn insert_ordered<T: Ordered>(v: &mut Vec<T>, x: T)
    ensures
        final(v)@ == insert_sorted(old(v)@, x),
{
    let mut p = v.len();
    while p > 0 && !v[p - 1].le(&x)
        invariant
            p <= v@.len(),
            v@ == old(v)@,
            forall|j: int| p <= j < v@.len() ==> !(#[trigger] v@[j]).ord_le(x),
        decreases p,
    {
        p = p - 1;
    }
    proof {
        lemma_insert_at(v@, x, p as int);
        assert(v@.insert(p as int, x) =~= v@.subrange(0, p as int).push(x) + v@.subrange(
            p as int,
            v@.len() as int,
        ));
    }
    v.insert(p, x);
}

/// The stable sort of `v` (see [`stable_sort`]).
pub fn sort_stable<T: Ordered>(v: Vec<T>) -> (r: Vec<T>)
    ensures
        r@ == stable_sort(v@),
{
    let ghost orig = v@;
    let mut rest = v;
    let mut out: Vec<T> = Vec::new();
    let n = rest.len();
    let mut k: usize = 0;
    assert(orig.subrange(0, 0) =~= Seq::<T>::empty());
    while k < n
        invariant
            n == orig.len(),
            k <= n,
            rest@ == orig.subrange(k as int, n as int),
            out@ == stable_sort(orig.subrange(0, k as int)),
        decreases n - k,
    {
        let x = rest.remove(0);
        proof {
            let t = orig.subrange(0, k + 1);
            assert(t.drop_last() =~= orig.subrange(0, k as int));
            assert(t.last() == x);
        }
        insert_ordered(&mut out, x);
        k = k + 1;
        proof {
            assert(rest@ =~= orig.subrange(k as int, n as int));
        }
    }
    assert(orig.subrange(0, n as int) =~= orig);
    out
}

// ─── Lexicographic order on characters ───────────────────────────────────────

/// `a` comes no later than `b` in lexicographic order of code points
/// (the order of `String`'s `Ord`).
pub open spec fn seq_le(a: Seq<char>, b: Seq<char>) -> bool
    decreases a.len(),
{
    if a.len() == 0 {
        true
    } else if b.len() == 0 {
        false
    } else if a[0] != b[0] {
        (a[0] as u32) < (b[0] as u32)
    } else {
        seq_le(a.drop_first(), b.drop_first())
    }
}

/// Lexicographic order is total.
pub proof fn lemma_seq_le_total(a: Seq<char>, b: Seq<char>)
    ensures
        seq_le(a, b) || seq_le(b, a),
    decreases a.len(),
{
    if a.len() > 0 && b.len() > 0 {
        if a[0] == b[0] {
            lemma_seq_le_total(a.drop_first(), b.drop_first());
        } else {
            vstd::utf8::char_u32_cast(a[0], a[0] as u32);
            vstd::utf8::char_u32_cast(b[0], b[0] as u32);
        }
    }
}

/// Lexicographic order is transitive.
pub proof fn lemma_seq_le_transitive(a: Seq<char>, b: Seq<char>, c: Seq<char>)
    requires
        seq_le(a, b),
        seq_le(b, c),
    ensures
        seq_le(a, c),
    decreases a.len(),
{
    if a.len() > 0 && b.len() > 0 && c.len() > 0 && a[0] == b[0] && b[0] == c[0] {
        lemma_seq_le_transitive(a.drop_first(), b.drop_first(), c.drop_first());
    }
}

/// Lexicographic order is antisymmetric.
pub proof fn lemma_seq_le_antisymmetric(a: Seq<char>, b: Seq<char>)
    requires
        seq_le(a, b),
        seq_le(b, a),
    ensures
        a == b,
    decreases a.len(),
{
    if a.len() > 0 && b.len() > 0 {
        if a[0] == b[0] {
            lemma_seq_le_antisymmetric(a.drop_first(), b.drop_first());
            assert(a =~= seq![a[0]] + a.drop_first());
            assert(b =~= seq![b[0]] + b.drop_first());
        }
    } else {
        assert(a =~= b);
    }
}

proof fn lemma_seq_le_prefix(a: Seq<char>, b: Seq<char>, k: int)
    requires
        0 <= k <= a.len(),
        k <= b.len(),
        forall|j: int| 0 <= j < k ==> a[j] == b[j],
    ensures
        seq_le(a, b) == seq_le(a.subrange(k, a.len() as int), b.subrange(k, b.len() as int)),
    decreases k,
{
    if k > 0 {
        lemma_seq_le_prefix(a.drop_first(), b.drop_first(), k - 1);
        assert(a.drop_first().subrange(k - 1, a.len() - 1) =~= a.subrange(k, a.len() as int));
        assert(b.drop_first().subrange(k - 1, b.len() - 1) =~= b.subrange(k, b.len() as int));
    } else {
        assert(a.subrange(0, a.len() as int) =~= a);
        assert(b.subrange(0, b.len() as int) =~= b);
    }
}

/// Whether `a` comes no later than `b` (see [`seq_le`]).
pub fn chars_le(a: &[char], b: &[char]) -> (r: bool)
    ensures
        r == seq_le(a@, b@),
{
    let mut i: usize = 0;
    while i < a.len() && i < b.len() && a[i] == b[i]
        invariant
            i <= a@.len(),
            i <= b@.len(),
            forall|j: int| 0 <= j < i ==> a@[j] == b@[j],
        decreases a@.len() - i,
    {
        i = i + 1;
    }
    proof {
        lemma_seq_le_prefix(a@, b@, i as int);
    }
    let ghost ra = a@.subrange(i as int, a@.len() as int);
    let ghost rb = b@.subrange(i as int, b@.len() as int);
    if i == a.len() {
        assert(ra.len() == 0);
        true
    } else if i == b.len() {
        assert(rb.len() == 0);
        false
    } else {
        assert(ra[0] == a@[i as int] && rb[0] == b@[i as int]);
        (a[i] as u32) < (b[i] as u32)
    }
}

} // verus!
