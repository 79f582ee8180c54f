//! The in-process job queue: post ids waiting for their publication time,
//! handed out earliest first.
//!
//! The queue holds `(scheduled_at, post_id)` entries in increasing order of
//! time, then id, with each post id at most once.

use crate::text::{chars_of, parse_i64, parse_signed};
use crate::postkit::clock::unix_now;
use vstd::prelude::*;

verus! {

/// The order of entries: by time, then by post id.
pub open spec fn entry_lt(a: (i64, i64), b: (i64, i64)) -> bool {
    a.0 < b.0 || (a.0 == b.0 && a.1 < b.1)
}

/// Entries strictly increasing, each post id at most once.
pub open spec fn queue_wf(q: Seq<(i64, i64)>) -> bool {
    &&& forall|i: int, j: int| 0 <= i < j < q.len() ==> entry_lt(q[i], q[j])
    &&& forall|i: int, j: int|
        0 <= i < q.len() && 0 <= j < q.len() && i != j ==> q[i].1 != q[j].1
}

/// Position of the entry for `id`, or -1.
pub open spec fn index_of_id(q: Seq<(i64, i64)>, id: i64) -> int
    decreases q.len(),
{
    if q.len() == 0 {
        -1
    } else if q.last().1 == id {
        q.len() - 1
    } else {
        index_of_id(q.drop_last(), id)
    }
}

/// The queue without the entry for `id`.
pub open spec fn without_id(q: Seq<(i64, i64)>, id: i64) -> Seq<(i64, i64)> {
    let i = index_of_id(q, id);
    if i >= 0 {
        q.remove(i)
    } else {
        q
    }
}

/// Number of leading entries ordered before `x`.
pub open spec fn count_below(q: Seq<(i64, i64)>, x: (i64, i64)) -> nat
    decreases q.len(),
{
    if q.len() == 0 {
        0
    } else if entry_lt(q[0], x) {
        1 + count_below(q.drop_first(), x)
    } else {
        0
    }
}

/// The queue after `push(id, at)`: any earlier entry for `id` replaced by
/// `(at, id)` in its place in the order.
pub open spec fn queue_push(q: Seq<(i64, i64)>, id: i64, at: i64) -> Seq<(i64, i64)> {
    let r = without_id(q, id);
    r.insert(count_below(r, (at, id)) as int, (at, id))
}

/// Number of leading entries due at `now` (scheduled at or before it).
pub open spec fn due_count(q: Seq<(i64, i64)>, now: i64) -> nat
    decreases q.len(),
{
    if q.len() == 0 {
        0
    } else if q[0].0 <= now {
        1 + due_count(q.drop_first(), now)
    } else {
        0
    }
}

/// How many entries a `pop_due(limit)` at `now` takes: the due ones, at
/// most `limit`.
pub open spec fn popped_count(q: Seq<(i64, i64)>, now: i64, limit: usize) -> nat {
    if limit < due_count(q, now) {
        limit as nat
    } else {
        due_count(q, now)
    }
}

/// The post ids of entries, in order.
pub open spec fn ids_of(q: Seq<(i64, i64)>) -> Seq<i64> {
    q.map_values(|e: (i64, i64)| e.1)
}

/// Seconds from `now` until the first entry, 0 when it is already due;
/// `None` for an empty queue.
pub open spec fn next_due_for(q: Seq<(i64, i64)>, now: i64) -> Option<u64> {
    if q.len() == 0 {
        None
    } else if q[0].0 - now > 0 {
        Some((q[0].0 - now) as u64)
    } else {
        Some(0u64)
    }
}

// ─── Facts about the order ───────────────────────────────────────────────────

proof fn lemma_index_of_id(q: Seq<(i64, i64)>, id: i64, k: int)
    requires
        -1 <= k < q.len(),
        forall|j: int| k < j < q.len() ==> q[j].1 != id,
        k == -1 || q[k].1 == id,
    ensures
        index_of_id(q, id) == k,
    decreases q.len(),
{
    if q.len() > 0 && k < q.len() - 1 {
        lemma_index_of_id(q.drop_last(), id, k);
    }
}

proof fn lemma_index_of_id_bounds(q: Seq<(i64, i64)>, id: i64)
    ensures
        -1 <= index_of_id(q, id) < q.len(),
        index_of_id(q, id) >= 0 ==> q[index_of_id(q, id)].1 == id,
        index_of_id(q, id) == -1 ==> forall|j: int| 0 <= j < q.len() ==> q[j].1 != id,
    decreases q.len(),
{
    if q.len() > 0 {
        lemma_index_of_id_bounds(q.drop_last(), id);
        if index_of_id(q, id) == -1 {
            assert forall|j: int| 0 <= j < q.len() implies q[j].1 != id by {
                if j < q.len() - 1 {
                    assert(q.drop_last()[j] == q[j]);
                }
            }
        }
    }
}

proof fn lemma_count_below(q: Seq<(i64, i64)>, x: (i64, i64), k: int)
    requires
        0 <= k <= q.len(),
        forall|j: int| 0 <= j < k ==> entry_lt(q[j], x),
        k == q.len() || !entry_lt(q[k], x),
    ensures
        count_below(q, x) == k,
    decreases k,
{
    if k > 0 {
        lemma_count_below(q.drop_first(), x, k - 1);
    }
}

proof fn lemma_due_count(q: Seq<(i64, i64)>, now: i64, k: int)
    requires
        0 <= k <= q.len(),
        forall|j: int| 0 <= j < k ==> q[j].0 <= now,
        k == q.len() || q[k].0 > now,
    ensures
        due_count(q, now) == k,
    decreases k,
{
    if k > 0 {
        lemma_due_count(q.drop_first(), now, k - 1);
    }
}

proof fn lemma_due_prefix(q: Seq<(i64, i64)>, now: i64)
    requires
        queue_wf(q),
    ensures
        due_count(q, now) <= q.len(),
        forall|j: int| 0 <= j < due_count(q, now) ==> q[j].0 <= now,
        forall|j: int| due_count(q, now) <= j < q.len() ==> q[j].0 > now,
    decreases q.len(),
{
    if q.len() > 0 {
        let t = q.drop_first();
        assert(queue_wf(t)) by {
            assert forall|i: int, j: int| 0 <= i < j < t.len() implies entry_lt(t[i], t[j]) by {
                assert(t[i] == q[i + 1] && t[j] == q[j + 1]);
            }
            assert forall|i: int, j: int|
                0 <= i < t.len() && 0 <= j < t.len() && i != j implies t[i].1 != t[j].1 by {
                assert(t[i] == q[i + 1] && t[j] == q[j + 1]);
            }
        }
        lemma_due_prefix(t, now);
        if q[0].0 > now {
            assert forall|j: int| 0 <= j < q.len() implies q[j].0 > now by {
                if j > 0 {
                    assert(entry_lt(q[0], q[j]));
                }
            }
        } else {
            assert forall|j: int| 1 <= j < q.len() && due_count(q, now) <= j implies q[j].0 > now by {
                assert(t[j - 1] == q[j]);
            }
            assert forall|j: int| 1 <= j < due_count(q, now) implies q[j].0 <= now by {
                assert(t[j - 1] == q[j]);
            }
        }
    }
}

proof fn lemma_remove_wf(q: Seq<(i64, i64)>, i: int)
    requires
        queue_wf(q),
        0 <= i < q.len(),
    ensures
        queue_wf(q.remove(i)),
        forall|j: int| 0 <= j < q.remove(i).len() ==> q.remove(i)[j].1 != q[i].1,
{
    let r = q.remove(i);
    q.remove_ensures(i);
    assert forall|a: int, b: int| 0 <= a < b < r.len() implies entry_lt(r[a], r[b]) by {
        let a2 = if a < i {
            a
        } else {
            a + 1
        };
        let b2 = if b < i {
            b
        } else {
            b + 1
        };
        assert(r[a] == q[a2] && r[b] == q[b2]);
    }
    assert forall|a: int, b: int| 0 <= a < r.len() && 0 <= b < r.len() && a != b implies r[a].1
        != r[b].1 by {
        let a2 = if a < i {
            a
        } else {
            a + 1
        };
        let b2 = if b < i {
            b
        } else {
            b + 1
        };
        assert(r[a] == q[a2] && r[b] == q[b2]);
    }
    assert forall|j: int| 0 <= j < r.len() implies r[j].1 != q[i].1 by {
        let j2 = if j < i {
            j
        } else {
            j + 1
        };
        assert(r[j] == q[j2]);
    }
}

proof fn lemma_without_id(q: Seq<(i64, i64)>, id: i64)
    requires
        queue_wf(q),
    ensures
        queue_wf(without_id(q, id)),
        forall|j: int| 0 <= j < without_id(q, id).len() ==> without_id(q, id)[j].1 != id,
        forall|e: (i64, i64)| e.1 != id ==> (q.contains(e) <==> without_id(q, id).contains(e)),
{
    lemma_index_of_id_bounds(q, id);
    let i = index_of_id(q, id);
    if i >= 0 {
        lemma_remove_wf(q, i);
        let r = q.remove(i);
        q.remove_ensures(i);
        assert forall|e: (i64, i64)| e.1 != id implies (q.contains(e) <==> r.contains(e)) by {
            if q.contains(e) {
                let k = choose|k: int| 0 <= k < q.len() && q[k] == e;
                if k < i {
                    assert(r[k] == e);
                } else {
                    assert(k != i);
                    assert(r[k - 1] == e);
                }
            }
            if r.contains(e) {
                let k = choose|k: int| 0 <= k < r.len() && r[k] == e;
                if k < i {
                    assert(q[k] == e);
                } else {
                    assert(q[k + 1] == e);
                }
            }
        }
    }
}

proof fn lemma_insert_wf(q: Seq<(i64, i64)>, x: (i64, i64), k: int)
    requires
        queue_wf(q),
        0 <= k <= q.len(),
        forall|j: int| 0 <= j < k ==> entry_lt(q[j], x),
        forall|j: int| k <= j < q.len() ==> !entry_lt(q[j], x),
        forall|j: int| 0 <= j < q.len() ==> q[j].1 != x.1,
    ensures
        queue_wf(q.insert(k, x)),
        q.insert(k, x)[k] == x,
{
    let r = q.insert(k, x);
    q.insert_ensures(k, x);
    assert forall|j: int| k <= j < q.len() implies entry_lt(x, q[j]) by {
        assert(q[j].1 != x.1);
    }
    assert forall|a: int, b: int| 0 <= a < b < r.len() implies entry_lt(r[a], r[b]) by {
        if a < k && b < k {
            assert(r[a] == q[a] && r[b] == q[b]);
        } else if a < k && b == k {
            assert(r[a] == q[a]);
        } else if a < k {
            assert(r[a] == q[a] && r[b] == q[b - 1]);
            assert(entry_lt(q[a], x) && entry_lt(x, q[b - 1]));
        } else if a == k {
            assert(r[b] == q[b - 1]);
        } else {
            assert(r[a] == q[a - 1] && r[b] == q[b - 1]);
        }
    }
    assert forall|a: int, b: int| 0 <= a < r.len() && 0 <= b < r.len() && a != b implies r[a].1
        != r[b].1 by {
        let a2 = if a < k {
            a
        } else {
            a - 1
        };
        let b2 = if b < k {
            b
        } else {
            b - 1
        };
        if a != k && b != k {
            assert(r[a] == q[a2] && r[b] == q[b2]);
        } else if a == k {
            assert(r[b] == q[b2]);
        } else {
            assert(r[a] == q[a2]);
        }
    }
}

proof fn lemma_count_below_split(q: Seq<(i64, i64)>, x: (i64, i64))
    requires
        queue_wf(q),
    ensures
        count_below(q, x) <= q.len(),
        forall|j: int| 0 <= j < count_below(q, x) ==> entry_lt(q[j], x),
        forall|j: int| count_below(q, x) <= j < q.len() ==> !entry_lt(q[j], x),
    decreases q.len(),
{
    if q.len() > 0 {
        let t = q.drop_first();
        assert(queue_wf(t)) by {
            assert forall|i: int, j: int| 0 <= i < j < t.len() implies entry_lt(t[i], t[j]) by {
                assert(t[i] == q[i + 1] && t[j] == q[j + 1]);
            }
            assert forall|i: int, j: int|
                0 <= i < t.len() && 0 <= j < t.len() && i != j implies t[i].1 != t[j].1 by {
                assert(t[i] == q[i + 1] && t[j] == q[j + 1]);
            }
        }
        lemma_count_below_split(t, x);
        if !entry_lt(q[0], x) {
            assert forall|j: int| 0 <= j < q.len() implies !entry_lt(q[j], x) by {
                if j > 0 {
                    assert(entry_lt(q[0], q[j]));
                }
            }
        } else {
            assert forall|j: int| 1 <= j < q.len() && count_below(q, x) <= j implies !entry_lt(q[j], x) by {
                assert(t[j - 1] == q[j]);
            }
            assert forall|j: int| 1 <= j < count_below(q, x) implies entry_lt(q[j], x) by {
                assert(t[j - 1] == q[j]);
            }
        }
    }
}

/// A push keeps the queue ordered, holds `(at, id)` and no other entry for
/// `id`, and keeps every entry of other posts.
pub proof fn lemma_push(q: Seq<(i64, i64)>, id: i64, at: i64)
    requires
        queue_wf(q),
    ensures
        queue_wf(queue_push(q, id, at)),
        queue_push(q, id, at).contains((at, id)),
        forall|e: (i64, i64)| #[trigger] queue_push(q, id, at).contains(e) && e.1 == id ==> e.0 == at,
        forall|e: (i64, i64)|
            e.1 != id ==> (q.contains(e) <==> #[trigger] queue_push(q, id, at).contains(e)),
{
    let r = without_id(q, id);
    lemma_without_id(q, id);
    lemma_count_below_split(r, (at, id));
    let k = count_below(r, (at, id)) as int;
    lemma_insert_wf(r, (at, id), k);
    let p = r.insert(k, (at, id));
    r.insert_ensures(k, (at, id));
    assert(p[k] == (at, id));
    assert forall|e: (i64, i64)| #[trigger] p.contains(e) && e.1 == id implies e.0 == at by {
        let j = choose|j: int| 0 <= j < p.len() && p[j] == e;
        if j < k {
            assert(p[j] == r[j]);
        } else if j > k {
            assert(p[j] == r[j - 1]);
        }
    }
    assert forall|e: (i64, i64)| e.1 != id implies (q.contains(e) <==> #[trigger] p.contains(e)) by {
        if r.contains(e) {
            let j = choose|j: int| 0 <= j < r.len() && r[j] == e;
            if j < k {
                assert(p[j] == e);
            } else {
                assert(p[j + 1] == e);
            }
        }
        if p.contains(e) {
            let j = choose|j: int| 0 <= j < p.len() && p[j] == e;
            if j < k {
                assert(r[j] == e);
            } else if j > k {
                assert(r[j - 1] == e);
            }
        }
    }
}

// ─── The queue ───────────────────────────────────────────────────────────────

/// The in-process queue.
#[derive(Debug)]
pub struct MemoryQueue {
    entries: Vec<(i64, i64)>,
}

impl View for MemoryQueue {
    type V = Seq<(i64, i64)>;

    closed spec fn view(&self) -> Seq<(i64, i64)> {
        self.entries@
    }
}


impl MemoryQueue {
    /// The entries are kept in order, one per post.
    #[verifier::type_invariant]
    spec fn well_formed(&self) -> bool {
        queue_wf(self.entries@)
    }

    /// An empty queue.
    pub fn new() -> (q: MemoryQueue)
        ensures
            q@ == Seq::<(i64, i64)>::empty(),
            queue_wf(q@),
    {
        MemoryQueue { entries: Vec::new() }
    }

    /// Number of queued posts; the queue is always well formed.
    pub fn len(&self) -> (n: usize)
        ensures
            n == self@.len(),
            queue_wf(self@),
    {
        proof {
            use_type_invariant(self);
        }
        self.entries.len()
    }

    /// Queues `post_id` for `scheduled_at`, replacing an earlier entry for
    /// the same post (see [`queue_push`]).
    pub fn push(&mut self, post_id: i64, scheduled_at: i64)
        ensures
            final(self)@ == queue_push(old(self)@, post_id, scheduled_at),
            queue_wf(final(self)@),
    {
        proof {
            use_type_invariant(&*self);
            lemma_push(self@, post_id, scheduled_at);
        }
        self.remove(post_id);
        proof {
            use_type_invariant(&*self);
        }
        let mut e: Vec<(i64, i64)> = Vec::new();
        std::mem::swap(&mut e, &mut self.entries);
        let ghost r = e@;
        let x = (scheduled_at, post_id);
        let mut k: usize = 0;
        while k < e.len() && (e[k].0 < x.0 || (e[k].0 == x.0 && e[k].1 < x.1))
            invariant
                e@ == r,
                k <= r.len(),
                forall|j: int| 0 <= j < k ==> entry_lt(r[j], x),
            decreases r.len() - k,
        {
            k = k + 1;
        }
        proof {
            lemma_count_below(r, x, k as int);
        }
        e.insert(k, x);
        self.entries = e;
    }

    /// Drops the entry for `post_id`, if any (see [`without_id`]).
    pub fn remove(&mut self, post_id: i64)
        ensures
            final(self)@ == without_id(old(self)@, post_id),
            queue_wf(final(self)@),
    {
        proof {
            use_type_invariant(&*self);
            lemma_without_id(self@, post_id);
        }
        let mut e: Vec<(i64, i64)> = Vec::new();
        std::mem::swap(&mut e, &mut self.entries);
        let mut k: usize = e.len();
        while k > 0 && e[k - 1].1 != post_id
            invariant
                k <= e@.len(),
                forall|j: int| k <= j < e@.len() ==> e@[j].1 != post_id,
            decreases k,
        {
            k = k - 1;
        }
        proof {
            lemma_index_of_id(e@, post_id, k - 1);
        }
        if k > 0 {
            e.remove(k - 1);
        }
        self.entries = e;
    }

    /// Takes the due entries at `now`, earliest first and at most `limit`,
    /// and returns their post ids.
    pub fn pop_due_at(&mut self, now: i64, limit: usize) -> (ids: Vec<i64>)
        ensures
            ids@ == ids_of(old(self)@.take(popped_count(old(self)@, now, limit) as int)),
            final(self)@ == old(self)@.skip(popped_count(old(self)@, now, limit) as int),
            queue_wf(final(self)@),
    {
        proof {
            use_type_invariant(&*self);
            lemma_due_prefix(self@, now);
        }
        let ghost q = self@;
        let mut ids: Vec<i64> = Vec::new();
        let mut k: usize = 0;
        while k < self.entries.len() && k < limit && self.entries[k].0 <= now
            invariant
                self.entries@ == q,
                k <= q.len(),
                k <= limit,
                forall|j: int| 0 <= j < k ==> q[j].0 <= now,
                ids@ == ids_of(q.take(k as int)),
            decreases q.len() - k,
        {
            ids.push(self.entries[k].1);
            proof {
                assert(ids_of(q.take(k + 1)) =~= ids_of(q.take(k as int)).push(q[k as int].1));
            }
            k = k + 1;
        }
        proof {
            if k < limit {
                lemma_due_count(q, now, k as int);
            } else {
                assert(popped_count(q, now, limit) == limit) by {
                    if due_count(q, now) < limit {
                        assert(q[due_count(q, now) as int].0 > now);
                    }
                }
            }
        }
        let mut e: Vec<(i64, i64)> = Vec::new();
        std::mem::swap(&mut e, &mut self.entries);
        let rest = e.split_off(k);
        proof {
            assert(rest@ =~= q.skip(k as int));
            assert forall|i: int, j: int| 0 <= i < j < rest@.len() implies entry_lt(
                rest@[i],
                rest@[j],
            ) by {
                assert(rest@[i] == q[i + k] && rest@[j] == q[j + k]);
            }
            assert forall|i: int, j: int|
                0 <= i < rest@.len() && 0 <= j < rest@.len() && i != j implies rest@[i].1
                != rest@[j].1 by {
                assert(rest@[i] == q[i + k] && rest@[j] == q[j + k]);
            }
        }
        self.entries = rest;
        ids
    }

    /// Takes the entries due now (see [`MemoryQueue::pop_due_at`]). The time
    /// comes from the clock, so the result is stated for some time.
    pub fn pop_due(&mut self, limit: usize) -> (ids: Vec<i64>)
        ensures
            exists|now: i64|
                ids@ == ids_of(old(self)@.take(popped_count(old(self)@, now, limit) as int))
                    && final(self)@ == old(self)@.skip(popped_count(old(self)@, now, limit) as int),
            queue_wf(final(self)@),
    {
        let now = unix_now();
        self.pop_due_at(now, limit)
    }

    /// Seconds until the first entry, as seen at the current time (see
    /// [`next_due_for`]). The time comes from the clock, so the result is
    /// stated for some time; the difference is taken in 128-bit arithmetic,
    /// so no time overflows it.
    pub fn next_due_in_secs(&self) -> (r: Option<u64>)
        ensures
            exists|now: i64| r == next_due_for(self@, now),
    {
        let now = unix_now();
        if self.entries.len() == 0 {
            None
        } else {
            let d: i128 = self.entries[0].0 as i128 - now as i128;
            let r = if d > 0 {
                Some(d as u64)
            } else {
                Some(0u64)
            };
            assert(r == next_due_for(self@, now));
            r
        }
    }

    /// Seconds from `now` until the first entry (see [`next_due_for`]).
    pub fn next_due_in_secs_at(&self, now: i64) -> (r: Option<u64>)
        requires
            self@.len() > 0 ==> i64::MIN <= self@[0].0 - now <= i64::MAX,
        ensures
            r == next_due_for(self@, now),
    {
        if self.entries.len() == 0 {
            None
        } else {
            let d: i64 = self.entries[0].0 - now;
            if d > 0 {
                Some(d as u64)
            } else {
                Some(0)
            }
        }
    }
}


/// The post ids among the members a shared queue handed out, in order;
/// members that are not decimal `i64`s are skipped.
pub open spec fn member_ids(members: Seq<Seq<char>>) -> Seq<i64>
    decreases members.len(),
{
    if members.len() == 0 {
        Seq::empty()
    } else {
        let rest = member_ids(members.drop_last());
        match parse_signed(members.last()) {
            Some(v) => rest.push(v as i64),
            None => rest,
        }
    }
}

/// The post ids among queue members (see [`member_ids`]).
pub fn parse_member_ids(members: &Vec<String>) -> (ids: Vec<i64>)
    ensures
        ids@ == member_ids(members@.map_values(|m: String| m@)),
{
    let ghost ms = members@.map_values(|m: String| m@);
    let mut out: Vec<i64> = Vec::new();
    let mut i: usize = 0;
    while i < members.len()
        invariant
            i <= members@.len(),
            ms == members@.map_values(|m: String| m@),
            out@ == member_ids(ms.subrange(0, i as int)),
        decreases members@.len() - i,
    {
        let ghost pre = ms.subrange(0, i + 1);
        assert(pre.drop_last() =~= ms.subrange(0, i as int));
        assert(pre.last() == members@[i as int]@);
        let cs = chars_of(members[i].as_str());
        match parse_i64(cs.as_slice()) {
            Some(v) => out.push(v),
            None => {},
        }
        i = i + 1;
    }
    assert(ms.subrange(0, i as int) =~= ms);
    out
}

// ─── Laws ────────────────────────────────────────────────────────────────────

/// A post pushed for a time at or before `now` is handed out by the next
/// `pop_due` at `now` whose limit covers the whole queue.
pub proof fn law_pushed_due_post_is_popped(
    q: Seq<(i64, i64)>,
    id: i64,
    at: i64,
    now: i64,
    limit: usize,
)
    requires
        queue_wf(q),
        at <= now,
        limit >= q.len() + 1,
    ensures
        ids_of(queue_push(q, id, at).take(popped_count(queue_push(q, id, at), now, limit) as int)).contains(id),
{
    lemma_push(q, id, at);
    let p = queue_push(q, id, at);
    lemma_due_prefix(p, now);
    let j = choose|j: int| 0 <= j < p.len() && p[j] == (at, id);
    let n = popped_count(p, now, limit);
    assert(p.len() <= q.len() + 1) by {
        lemma_without_id(q, id);
        lemma_index_of_id_bounds(q, id);
        let i = index_of_id(q, id);
        if i >= 0 {
            q.remove_ensures(i);
        }
        let r = without_id(q, id);
        lemma_count_below_split(r, (at, id));
        r.insert_ensures(count_below(r, (at, id)) as int, (at, id));
    }
    assert(n == due_count(p, now));
    assert(j < due_count(p, now));
    let t = p.take(n as int);
    assert(ids_of(t)[j] == id);
}

/// A removed post is never handed out by a `pop_due`.
pub proof fn law_removed_post_is_not_popped(q: Seq<(i64, i64)>, id: i64, now: i64, limit: usize)
    requires
        queue_wf(q),
    ensures
        !ids_of(without_id(q, id).take(popped_count(without_id(q, id), now, limit) as int)).contains(id),
{
    lemma_without_id(q, id);
    let r = without_id(q, id);
    lemma_due_prefix(r, now);
    let t = r.take(popped_count(r, now, limit) as int);
    if ids_of(t).contains(id) {
        let j = choose|j: int| 0 <= j < ids_of(t).len() && ids_of(t)[j] == id;
        assert(r[j].1 == id);
    }
}

/// Pushing a post again moves it: the queue then holds it at the latest
/// time given and no longer at the earlier one.
pub proof fn law_push_replaces(q: Seq<(i64, i64)>, id: i64, first: i64, second: i64)
    requires
        queue_wf(q),
    ensures
        queue_push(queue_push(q, id, first), id, second).contains((second, id)),
        !queue_push(queue_push(q, id, first), id, second).contains((first, id)) || first == second,
{
    lemma_push(q, id, first);
    lemma_push(queue_push(q, id, first), id, second);
}

/// A `pop_due` never hands out more than `limit` posts nor any post that is
/// not yet due, hands them out earliest first, and leaves no due post
/// behind unless it stopped at the limit.
pub proof fn law_pop_due(q: Seq<(i64, i64)>, now: i64, limit: usize)
    requires
        queue_wf(q),
    ensures
        popped_count(q, now, limit) <= limit,
        forall|j: int| 0 <= j < popped_count(q, now, limit) ==> q[j].0 <= now,
        forall|i: int, j: int|
            0 <= i < j < popped_count(q, now, limit) ==> entry_lt(q[i], q[j]),
        popped_count(q, now, limit) < limit ==> forall|j: int|
            0 <= j < q.skip(popped_count(q, now, limit) as int).len() ==> q.skip(
                popped_count(q, now, limit) as int,
            )[j].0 > now,
{
    lemma_due_prefix(q, now);
    let n = popped_count(q, now, limit) as int;
    if n < limit {
        assert forall|j: int| 0 <= j < q.skip(n).len() implies q.skip(n)[j].0 > now by {
            assert(q.skip(n)[j] == q[j + n]);
        }
    }
}

} // verus!
