//! Rules of the scheduled-post store: the lifecycle of a post, the listing
//! query, the retry policy with exponential backoff, and the database
//! location. The database itself is driven by the caller.


use crate::postkit::clock::unix_now;
use crate::text::{chars_of, push_str, str_eq, string_of};
use vstd::prelude::*;

verus! {

/// The database URL for a path: the in-memory database for `:memory:`,
/// else the file, created when missing.
pub open spec fn sqlite_url_for(path: Seq<char>) -> Seq<char> {
    if path == ":memory:"@ {
        "sqlite::memory:"@
    } else {
        "sqlite:"@ + path + "?mode=rwc"@
    }
}

/// The database URL for a path (see [`sqlite_url_for`]).
pub fn sqlite_url(path: &str) -> (u: String)
    ensures
        u@ == sqlite_url_for(path@),
{
    if str_eq(path, ":memory:") {
        "sqlite::memory:".to_owned()
    } else {
        let mut v = chars_of("sqlite:");
        push_str(&mut v, path);
        push_str(&mut v, "?mode=rwc");
        string_of(v.as_slice())
    }
}

// ─── Lifecycle ───────────────────────────────────────────────────────────────

/// Where a scheduled post stands.
#[derive(Debug, Clone, Copy, PartialEq, Eq, Structural)]
pub enum PostStatus {
    Draft,
    Pending,
    Running,
    Published,
    Failed,
    Cancelled,
}

/// The name under which a status is stored.
pub open spec fn status_text(s: PostStatus) -> Seq<char> {
    match s {
        PostStatus::Draft => "draft"@,
        PostStatus::Pending => "pending"@,
        PostStatus::Running => "running"@,
        PostStatus::Published => "published"@,
        PostStatus::Failed => "failed"@,
        PostStatus::Cancelled => "cancelled"@,
    }
}

impl PostStatus {
    /// The stored name (see [`status_text`]).
    pub fn as_str(&self) -> (r: &'static str)
        ensures
            r@ == status_text(*self),
    {
        match self {
            PostStatus::Draft => "draft",
            PostStatus::Pending => "pending",
            PostStatus::Running => "running",
            PostStatus::Published => "published",
            PostStatus::Failed => "failed",
            PostStatus::Cancelled => "cancelled",
        }
    }

    /// The status stored under `name`, if any.
    pub fn parse(name: &str) -> (r: Option<PostStatus>)
        ensures
            match r {
                Some(st) => status_text(st) == name@,
                None => forall|st: PostStatus| status_text(st) != name@,
            },
    {
        let all = [
            PostStatus::Draft,
            PostStatus::Pending,
            PostStatus::Running,
            PostStatus::Published,
            PostStatus::Failed,
            PostStatus::Cancelled,
        ];
        let mut i: usize = 0;
        while i < 6
            invariant
                all@ == seq![
                    PostStatus::Draft,
                    PostStatus::Pending,
                    PostStatus::Running,
                    PostStatus::Published,
                    PostStatus::Failed,
                    PostStatus::Cancelled,
                ],
                i <= 6,
                forall|j: int| 0 <= j < i ==> status_text(#[trigger] all@[j]) != name@,
            decreases 6 - i,
        {
            let st = all[i];
            if str_eq(st.as_str(), name) {
                return Some(st);
            }
            i = i + 1;
        }
        proof {
            assert forall|st: PostStatus| status_text(st) != name@ by {
                match st {
                    PostStatus::Draft => assert(status_text(all@[0]) != name@),
                    PostStatus::Pending => assert(status_text(all@[1]) != name@),
                    PostStatus::Running => assert(status_text(all@[2]) != name@),
                    PostStatus::Published => assert(status_text(all@[3]) != name@),
                    PostStatus::Failed => assert(status_text(all@[4]) != name@),
                    PostStatus::Cancelled => assert(status_text(all@[5]) != name@),
                }
            }
        }
        None
    }
}

/// What happens to a stored post.
#[derive(Debug, Clone, Copy, PartialEq, Eq, Structural)]
pub enum Change {
    /// The worker takes a due post.
    Claim,
    /// The post went out.
    Publish,
    /// Publishing failed; `retry` when attempts are left.
    AttemptFailed { retry: bool },
    /// A failed post is queued again.
    Retry,
    /// A pending post is called off.
    Cancel,
    /// New content or a new time; `rescheduled` when a time was given.
    Update { rescheduled: bool },
}

/// The status a change leads to from `s`, or `None` when it does not apply
/// there: a due post is claimed (`pending → running`); a publishing report
/// marks a post published and a failed attempt makes it pending again while
/// attempts are left, else failed, whatever the post's status (the worker
/// reports on the posts it claimed); a failed post may be retried; a pending
/// one may be cancelled; drafts and pending posts may be edited, and a new
/// time makes a draft pending.
pub open spec fn next_status_of(c: Change, s: PostStatus) -> Option<PostStatus> {
    match c {
        Change::Claim => if s == PostStatus::Pending {
            Some(PostStatus::Running)
        } else {
            None
        },
        Change::Publish => Some(PostStatus::Published),
        Change::AttemptFailed { retry } => Some(
            if retry {
                PostStatus::Pending
            } else {
                PostStatus::Failed
            },
        ),
        Change::Retry => if s == PostStatus::Failed {
            Some(PostStatus::Pending)
        } else {
            None
        },
        Change::Cancel => if s == PostStatus::Pending {
            Some(PostStatus::Cancelled)
        } else {
            None
        },
        Change::Update { rescheduled } => if s == PostStatus::Pending || s == PostStatus::Draft {
            Some(
                if rescheduled {
                    PostStatus::Pending
                } else {
                    s
                },
            )
        } else {
            None
        },
    }
}

/// The status a change leads to (see [`next_status_of`]).
pub fn next_status(c: Change, s: PostStatus) -> (r: Option<PostStatus>)
    ensures
        r == next_status_of(c, s),
{
    match c {
        Change::Claim => if s == PostStatus::Pending {
            Some(PostStatus::Running)
        } else {
            None
        },
        Change::Publish => Some(PostStatus::Published),
        Change::AttemptFailed { retry } => Some(
            if retry {
                PostStatus::Pending
            } else {
                PostStatus::Failed
            },
        ),
        Change::Retry => if s == PostStatus::Failed {
            Some(PostStatus::Pending)
        } else {
            None
        },
        Change::Cancel => if s == PostStatus::Pending {
            Some(PostStatus::Cancelled)
        } else {
            None
        },
        Change::Update { rescheduled } => if s == PostStatus::Pending || s == PostStatus::Draft {
            Some(
                if rescheduled {
                    PostStatus::Pending
                } else {
                    s
                },
            )
        } else {
            None
        },
    }
}

/// The arrows of the lifecycle `draft → pending → running → published /
/// failed`, with the ways back to `pending` (a retry, a failed attempt
/// with attempts left), cancellation of a pending post and edits that keep
/// the status.
pub open spec fn lifecycle_edge(from: PostStatus, to: PostStatus) -> bool {
    ||| from == PostStatus::Draft && (to == PostStatus::Draft || to == PostStatus::Pending)
    ||| from == PostStatus::Pending && (to == PostStatus::Pending || to == PostStatus::Running || to
        == PostStatus::Cancelled)
    ||| from == PostStatus::Running && (to == PostStatus::Published || to == PostStatus::Failed || to
        == PostStatus::Pending)
    ||| from == PostStatus::Failed && to == PostStatus::Pending
}

/// The worker's reports on a post it publishes: published, or a failed
/// attempt.
pub open spec fn is_report(c: Change) -> bool {
    c == Change::Publish || c is AttemptFailed
}

/// Every change to a post follows an arrow of the lifecycle, and a
/// published or cancelled post is final, except for the worker's reports,
/// which set the outcome of a publication whatever the stored status; on a
/// running post, which is where the worker reports, they follow the arrows
/// too.
pub proof fn law_lifecycle(c: Change, s: PostStatus)
    ensures
        !is_report(c) ==> (next_status_of(c, s) matches Some(t) ==> lifecycle_edge(s, t)),
        !is_report(c) && s == PostStatus::Published ==> next_status_of(c, s) is None,
        !is_report(c) && s == PostStatus::Cancelled ==> next_status_of(c, s) is None,
        is_report(c) && s == PostStatus::Running ==> (next_status_of(c, s) matches Some(t)
            && lifecycle_edge(s, t)),
{
}

/// Apart from the worker's reports, a draft only leaves the draft state by
/// getting a time, and then it is pending.
pub proof fn law_draft_needs_time(c: Change)
    ensures
        !is_report(c) ==> (next_status_of(c, PostStatus::Draft) matches Some(t) ==> (t
            == PostStatus::Pending <==> c == (Change::Update { rescheduled: true }))),
{
}

// ─── Listing ─────────────────────────────────────────────────────────────────

/// Which scheduled posts to list; times are Unix seconds.
#[derive(Debug, Default)]
pub struct ListFilters {
    pub account_id: Option<String>,
    pub provider: Option<String>,
    pub status: Option<String>,
    pub from: Option<i64>,
    pub to: Option<i64>,
    pub limit: Option<i64>,
    pub offset: Option<i64>,
}

/// A value bound to a `?` of a query.
#[derive(Debug, PartialEq, Eq)]
pub enum Bind {
    Text(String),
    Int(i64),
}

/// A bound value as plain data.
pub enum BindView {
    Text(Seq<char>),
    Int(i64),
}

pub open spec fn bind_view(b: Bind) -> BindView {
    match b {
        Bind::Text(s) => BindView::Text(s@),
        Bind::Int(i) => BindView::Int(i),
    }
}

pub open spec fn binds_view(bs: Seq<Bind>) -> Seq<BindView> {
    bs.map_values(|b: Bind| bind_view(b))
}

/// The columns of a scheduled post, as every query returns them.
pub open spec fn select_all() -> Seq<char> {
    "SELECT id, account_id, provider, source_post, scheduled_at, status, attempts, published_at, post_url, error, created_at FROM scheduled_posts WHERE 1=1"@
}

/// A condition with one bound value, or nothing when the filter is unset.
pub open spec fn clause<T>(f: Option<T>, sql: Seq<char>) -> Seq<char> {
    if f is Some {
        sql
    } else {
        Seq::empty()
    }
}

pub open spec fn text_bind(f: Option<String>) -> Seq<BindView> {
    match f {
        Some(s) => seq![BindView::Text(s@)],
        None => Seq::empty(),
    }
}

pub open spec fn int_bind(f: Option<i64>) -> Seq<BindView> {
    match f {
        Some(i) => seq![BindView::Int(i)],
        None => Seq::empty(),
    }
}

/// The listing query: every set filter adds its condition, in the order
/// account, provider, status, from, to; rows come by scheduled time; limit
/// and offset follow when set.
pub open spec fn list_sql(f: ListFilters) -> Seq<char> {
    select_all() + clause(f.account_id, " AND account_id = ?"@) + clause(
        f.provider,
        " AND provider = ?"@,
    ) + clause(f.status, " AND status = ?"@) + clause(f.from, " AND scheduled_at >= ?"@)
        + clause(f.to, " AND scheduled_at <= ?"@) + " ORDER BY scheduled_at ASC"@ + clause(
        f.limit,
        " LIMIT ?"@,
    ) + clause(f.offset, " OFFSET ?"@)
}

/// The values bound to the listing query, in the order of its `?`s.
pub open spec fn list_binds(f: ListFilters) -> Seq<BindView> {
    text_bind(f.account_id) + text_bind(f.provider) + text_bind(f.status) + int_bind(f.from)
        + int_bind(f.to) + int_bind(f.limit) + int_bind(f.offset)
}

fn add_text(sql: &mut Vec<char>, binds: &mut Vec<Bind>, f: &Option<String>, cond: &str)
    ensures
        final(sql)@ == old(sql)@ + clause(*f, cond@),
        binds_view(final(binds)@) == binds_view(old(binds)@) + text_bind(*f),
{
    match f {
        Some(v) => {
            push_str(sql, cond);
            let ghost before = binds@;
            binds.push(Bind::Text(v.clone()));
            assert(binds_view(binds@) =~= binds_view(before) + text_bind(*f));
        },
        None => {
            assert(sql@ =~= sql@ + clause(*f, cond@));
            assert(binds_view(binds@) =~= binds_view(binds@) + text_bind(*f));
        },
    }
}

fn add_int(sql: &mut Vec<char>, binds: &mut Vec<Bind>, f: Option<i64>, cond: &str)
    ensures
        final(sql)@ == old(sql)@ + clause(f, cond@),
        binds_view(final(binds)@) == binds_view(old(binds)@) + int_bind(f),
{
    match f {
        Some(v) => {
            push_str(sql, cond);
            let ghost before = binds@;
            binds.push(Bind::Int(v));
            assert(binds_view(binds@) =~= binds_view(before) + int_bind(f));
        },
        None => {
            assert(sql@ =~= sql@ + clause(f, cond@));
            assert(binds_view(binds@) =~= binds_view(binds@) + int_bind(f));
        },
    }
}

/// The listing query and its bound values (see [`list_sql`] and
/// [`list_binds`]).
pub fn list_query(f: &ListFilters) -> (r: (String, Vec<Bind>))
    ensures
        r.0@ == list_sql(*f),
        binds_view(r.1@) == list_binds(*f),
{
    let mut sql = chars_of(
        "SELECT id, account_id, provider, source_post, scheduled_at, status, attempts, published_at, post_url, error, created_at FROM scheduled_posts WHERE 1=1",
    );
    let mut binds: Vec<Bind> = Vec::new();
    assert(binds_view(binds@) =~= Seq::<BindView>::empty());
    add_text(&mut sql, &mut binds, &f.account_id, " AND account_id = ?");
    add_text(&mut sql, &mut binds, &f.provider, " AND provider = ?");
    add_text(&mut sql, &mut binds, &f.status, " AND status = ?");
    add_int(&mut sql, &mut binds, f.from, " AND scheduled_at >= ?");
    add_int(&mut sql, &mut binds, f.to, " AND scheduled_at <= ?");
    push_str(&mut sql, " ORDER BY scheduled_at ASC");
    add_int(&mut sql, &mut binds, f.limit, " LIMIT ?");
    add_int(&mut sql, &mut binds, f.offset, " OFFSET ?");
    assert(binds_view(binds@) =~= list_binds(*f));
    (string_of(sql.as_slice()), binds)
}

// ─── What the listing query selects ──────────────────────────────────────────

/// The number of `?` placeholders in `s`.
pub open spec fn placeholders(s: Seq<char>) -> nat
    decreases s.len(),
{
    if s.len() == 0 {
        0
    } else {
        placeholders(s.drop_last()) + if s.last() == '?' {
            1nat
        } else {
            0nat
        }
    }
}

/// `cond` occurs in `sql`, and the value bound to its placeholder (the
/// first `?` at or after where it starts, counting placeholders from the
/// start of the query) is `value`.
pub open spec fn binds_condition(sql: Seq<char>, binds: Seq<BindView>, cond: Seq<char>, value: BindView) -> bool {
    exists|p: int|
        0 <= p && p + cond.len() <= sql.len() && #[trigger] sql.subrange(p, p + cond.len()) == cond
            && placeholders(sql.take(p)) < binds.len() && binds[placeholders(sql.take(p)) as int] == value
}

proof fn lemma_placeholders_add(a: Seq<char>, b: Seq<char>)
    ensures
        placeholders(a + b) == placeholders(a) + placeholders(b),
    decreases b.len(),
{
    if b.len() > 0 {
        lemma_placeholders_add(a, b.drop_last());
        assert((a + b).drop_last() =~= a + b.drop_last());
    } else {
        assert(a + b =~= a);
    }
}

proof fn lemma_no_placeholders(s: Seq<char>)
    requires
        forall|i: int| 0 <= i < s.len() ==> s[i] != '?',
    ensures
        placeholders(s) == 0,
    decreases s.len(),
{
    if s.len() > 0 {
        lemma_no_placeholders(s.drop_last());
    }
}

/// A condition with its one placeholder at its end.
proof fn lemma_one_placeholder(c: Seq<char>)
    requires
        c.len() > 0,
        c.last() == '?',
        forall|i: int| 0 <= i < c.len() - 1 ==> c[i] != '?',
    ensures
        placeholders(c) == 1,
{
    lemma_no_placeholders(c.drop_last());
}

proof fn lemma_condition_at(pre: Seq<char>, cond: Seq<char>, post: Seq<char>, bpre: Seq<BindView>, b: BindView, bpost: Seq<BindView>)
    requires
        placeholders(pre) == bpre.len(),
    ensures
        binds_condition(pre + cond + post, bpre + seq![b] + bpost, cond, b),
{
    let sql = pre + cond + post;
    let p = pre.len() as int;
    assert(sql.subrange(p, p + cond.len()) =~= cond);
    assert(sql.take(p) =~= pre);
    assert((bpre + seq![b] + bpost)[bpre.len() as int] == b);
}

proof fn lemma_select_all_placeholders()
    ensures
        placeholders(select_all()) == 0,
{
    reveal_strlit(
        "SELECT id, account_id, provider, source_post, scheduled_at, status, attempts, published_at, post_url, error, created_at FROM scheduled_posts WHERE 1=1",
    );
    let s = select_all();
    assert forall|i: int| 0 <= i < s.len() implies s[i] != '?' by {}
    lemma_no_placeholders(s);
}

/// The `k`-th piece of the listing query, in order: the selection, the five
/// conditions, the ordering, the limit and the offset.
spec fn sql_piece(f: ListFilters, k: int) -> Seq<char> {
    if k == 0 {
        select_all()
    } else if k == 1 {
        clause(f.account_id, " AND account_id = ?"@)
    } else if k == 2 {
        clause(f.provider, " AND provider = ?"@)
    } else if k == 3 {
        clause(f.status, " AND status = ?"@)
    } else if k == 4 {
        clause(f.from, " AND scheduled_at >= ?"@)
    } else if k == 5 {
        clause(f.to, " AND scheduled_at <= ?"@)
    } else if k == 6 {
        " ORDER BY scheduled_at ASC"@
    } else if k == 7 {
        clause(f.limit, " LIMIT ?"@)
    } else if k == 8 {
        clause(f.offset, " OFFSET ?"@)
    } else {
        Seq::empty()
    }
}

/// The values bound by the `k`-th piece.
spec fn bind_piece(f: ListFilters, k: int) -> Seq<BindView> {
    if k == 1 {
        text_bind(f.account_id)
    } else if k == 2 {
        text_bind(f.provider)
    } else if k == 3 {
        text_bind(f.status)
    } else if k == 4 {
        int_bind(f.from)
    } else if k == 5 {
        int_bind(f.to)
    } else if k == 7 {
        int_bind(f.limit)
    } else if k == 8 {
        int_bind(f.offset)
    } else {
        Seq::empty()
    }
}

spec fn sql_before(f: ListFilters, k: int) -> Seq<char>
    decreases k,
{
    if k <= 0 {
        Seq::empty()
    } else {
        sql_before(f, k - 1) + sql_piece(f, k - 1)
    }
}

spec fn sql_after(f: ListFilters, k: int) -> Seq<char>
    decreases 9 - k,
{
    if k >= 9 {
        Seq::empty()
    } else {
        sql_piece(f, k) + sql_after(f, k + 1)
    }
}

spec fn binds_before(f: ListFilters, k: int) -> Seq<BindView>
    decreases k,
{
    if k <= 0 {
        Seq::empty()
    } else {
        binds_before(f, k - 1) + bind_piece(f, k - 1)
    }
}

spec fn binds_after(f: ListFilters, k: int) -> Seq<BindView>
    decreases 9 - k,
{
    if k >= 9 {
        Seq::empty()
    } else {
        bind_piece(f, k) + binds_after(f, k + 1)
    }
}

proof fn lemma_piece_placeholders(f: ListFilters, k: int)
    ensures
        placeholders(sql_piece(f, k)) == bind_piece(f, k).len(),
{
    lemma_select_all_placeholders();
    reveal_strlit(" AND account_id = ?");
    reveal_strlit(" AND provider = ?");
    reveal_strlit(" AND status = ?");
    reveal_strlit(" AND scheduled_at >= ?");
    reveal_strlit(" AND scheduled_at <= ?");
    reveal_strlit(" LIMIT ?");
    reveal_strlit(" OFFSET ?");
    reveal_strlit(" ORDER BY scheduled_at ASC");
    if k == 1 {
        lemma_one_placeholder(" AND account_id = ?"@);
    } else if k == 2 {
        lemma_one_placeholder(" AND provider = ?"@);
    } else if k == 3 {
        lemma_one_placeholder(" AND status = ?"@);
    } else if k == 4 {
        lemma_one_placeholder(" AND scheduled_at >= ?"@);
    } else if k == 5 {
        lemma_one_placeholder(" AND scheduled_at <= ?"@);
    } else if k == 6 {
        let o = " ORDER BY scheduled_at ASC"@;
        assert forall|i: int| 0 <= i < o.len() implies o[i] != '?' by {}
        lemma_no_placeholders(o);
    } else if k == 7 {
        lemma_one_placeholder(" LIMIT ?"@);
    } else if k == 8 {
        lemma_one_placeholder(" OFFSET ?"@);
    }
}

proof fn lemma_before_placeholders(f: ListFilters, k: int)
    ensures
        placeholders(sql_before(f, k)) == binds_before(f, k).len(),
    decreases k,
{
    if k > 0 {
        lemma_before_placeholders(f, k - 1);
        lemma_piece_placeholders(f, k - 1);
        lemma_placeholders_add(sql_before(f, k - 1), sql_piece(f, k - 1));
    }
}

proof fn lemma_split_at(f: ListFilters, k: int)
    requires
        0 <= k <= 9,
    ensures
        sql_before(f, k) + sql_after(f, k) == sql_before(f, 9),
        binds_before(f, k) + binds_after(f, k) == binds_before(f, 9),
    decreases 9 - k,
{
    if k < 9 {
        lemma_split_at(f, k + 1);
        assert(sql_before(f, k) + sql_after(f, k) =~= sql_before(f, k + 1) + sql_after(f, k + 1));
        assert(binds_before(f, k) + binds_after(f, k) =~= binds_before(f, k + 1) + binds_after(f, k + 1));
    } else {
        assert(sql_before(f, k) + sql_after(f, k) =~= sql_before(f, k));
        assert(binds_before(f, k) + binds_after(f, k) =~= binds_before(f, k));
    }
}

proof fn lemma_whole_query(f: ListFilters)
    ensures
        sql_before(f, 9) == list_sql(f),
        binds_before(f, 9) == list_binds(f),
{
    reveal_with_fuel(sql_before, 10);
    reveal_with_fuel(binds_before, 10);
    assert(sql_before(f, 9) =~= list_sql(f));
    assert(binds_before(f, 9) =~= list_binds(f));
}

/// The condition of piece `k`, when its filter is set, binds that filter's
/// value.
proof fn lemma_piece_condition(f: ListFilters, k: int, cond: Seq<char>, value: BindView)
    requires
        1 <= k <= 8,
        sql_piece(f, k) == cond,
        bind_piece(f, k) == seq![value],
    ensures
        binds_condition(list_sql(f), list_binds(f), cond, value),
{
    lemma_whole_query(f);
    lemma_split_at(f, k);
    lemma_before_placeholders(f, k);
    lemma_condition_at(sql_before(f, k), cond, sql_after(f, k + 1), binds_before(f, k), value, binds_after(f, k + 1));
    assert(sql_after(f, k) == cond + sql_after(f, k + 1));
    assert(binds_after(f, k) == seq![value] + binds_after(f, k + 1));
    assert(sql_before(f, k) + cond + sql_after(f, k + 1) =~= sql_before(f, k) + sql_after(f, k));
    assert(binds_before(f, k) + seq![value] + binds_after(f, k + 1) =~= binds_before(f, k) + binds_after(f, k));
}

/// Every filter that is set narrows the listing as its name says, with its
/// own value bound to its condition: the account, provider and status must
/// equal theirs; `from` is a lower and `to` an upper bound on the scheduled
/// time; `limit` and `offset` page the rows. The query has one placeholder
/// per bound value.
pub proof fn law_list_filters(f: ListFilters)
    ensures
        f.account_id matches Some(a) ==> binds_condition(list_sql(f), list_binds(f), " AND account_id = ?"@, BindView::Text(a@)),
        f.provider matches Some(v) ==> binds_condition(list_sql(f), list_binds(f), " AND provider = ?"@, BindView::Text(v@)),
        f.status matches Some(v) ==> binds_condition(list_sql(f), list_binds(f), " AND status = ?"@, BindView::Text(v@)),
        f.from matches Some(t) ==> binds_condition(list_sql(f), list_binds(f), " AND scheduled_at >= ?"@, BindView::Int(t)),
        f.to matches Some(t) ==> binds_condition(list_sql(f), list_binds(f), " AND scheduled_at <= ?"@, BindView::Int(t)),
        f.limit matches Some(n) ==> binds_condition(list_sql(f), list_binds(f), " LIMIT ?"@, BindView::Int(n)),
        f.offset matches Some(n) ==> binds_condition(list_sql(f), list_binds(f), " OFFSET ?"@, BindView::Int(n)),
        placeholders(list_sql(f)) == list_binds(f).len(),
{
    lemma_whole_query(f);
    lemma_before_placeholders(f, 9);
    if let Some(a) = f.account_id {
        lemma_piece_condition(f, 1, " AND account_id = ?"@, BindView::Text(a@));
    }
    if let Some(v) = f.provider {
        lemma_piece_condition(f, 2, " AND provider = ?"@, BindView::Text(v@));
    }
    if let Some(v) = f.status {
        lemma_piece_condition(f, 3, " AND status = ?"@, BindView::Text(v@));
    }
    if let Some(t) = f.from {
        lemma_piece_condition(f, 4, " AND scheduled_at >= ?"@, BindView::Int(t));
    }
    if let Some(t) = f.to {
        lemma_piece_condition(f, 5, " AND scheduled_at <= ?"@, BindView::Int(t));
    }
    if let Some(n) = f.limit {
        lemma_piece_condition(f, 7, " LIMIT ?"@, BindView::Int(n));
    }
    if let Some(n) = f.offset {
        lemma_piece_condition(f, 8, " OFFSET ?"@, BindView::Int(n));
    }
}

// ─── Retries ─────────────────────────────────────────────────────────────────

/// `2^n`.
pub open spec fn two_pow(n: nat) -> nat
    decreases n,
{
    if n == 0 {
        1
    } else {
        2 * two_pow((n - 1) as nat)
    }
}

/// The retry delay after `attempts` earlier failures: `base * 2^attempts`,
/// saturating at `u64::MAX`.
pub open spec fn backoff_delay(base: u64, attempts: nat) -> u64 {
    if base * two_pow(attempts) > u64::MAX {
        u64::MAX
    } else {
        (base * two_pow(attempts)) as u64
    }
}

/// What a failed attempt leads to.
#[derive(Debug, PartialEq, Eq)]
pub enum AttemptOutcome {
    /// No attempts left: the post fails with this attempt count.
    Failed { attempts: i64 },
    /// The post is pending again at `retry_at` with this attempt count.
    Retry { attempts: i64, retry_at: i64 },
}

fn pow_of_two(n: u32) -> (p: u64)
    requires
        n < 64,
    ensures
        p == two_pow(n as nat),
{
    let mut p: u64 = 1;
    let mut i: u32 = 0;
    while i < n
        invariant
            i <= n < 64,
            p == two_pow(i as nat),
            two_pow(i as nat) <= 0x8000_0000_0000_0000,
        decreases n - i,
    {
        proof {
            lemma_two_pow_le(i as nat + 1, 63);
        }
        p = p * 2;
        i = i + 1;
    }
    p
}

proof fn lemma_two_pow_le(a: nat, b: nat)
    requires
        a <= b,
        b <= 63,
    ensures
        two_pow(a) <= two_pow(b),
        two_pow(b) <= 0x8000_0000_0000_0000,
    decreases b,
{
    lemma_two_pow_mono(a, b);
    lemma_two_pow_mono(b, 63);
    assert(two_pow(8) == 256) by {
        reveal_with_fuel(two_pow, 9);
    }
    assert(two_pow(7) == 128) by {
        reveal_with_fuel(two_pow, 8);
    }
    lemma_two_pow_add(8, 8);
    assert(two_pow(16) == 65536);
    lemma_two_pow_add(16, 16);
    assert(two_pow(32) == 0x1_0000_0000);
    lemma_two_pow_add(32, 16);
    assert(two_pow(48) == 0x1_0000_0000_0000);
    lemma_two_pow_add(48, 8);
    assert(two_pow(56) == 0x100_0000_0000_0000);
    lemma_two_pow_add(56, 7);
    assert(two_pow(63) == 0x8000_0000_0000_0000);
}

proof fn lemma_two_pow_add(a: nat, b: nat)
    ensures
        two_pow(a + b) == two_pow(a) * two_pow(b),
    decreases b,
{
    if b > 0 {
        let c = (b - 1) as nat;
        lemma_two_pow_add(a, c);
        assert(((a + b) - 1) as nat == a + c);
        assert(two_pow(a + b) == 2 * two_pow(a + c));
        assert(two_pow(b) == 2 * two_pow(c));
        let x = two_pow(a);
        let y = two_pow(c);
        assert(2 * (x * y) == x * (2 * y)) by (nonlinear_arith);
        assert(two_pow(a + b) == x * two_pow(b));
    } else {
        assert(a + b == a);
        assert(two_pow(0) == 1);
        let x = two_pow(a);
        assert(x * 1 == x) by (nonlinear_arith);
    }
}

proof fn lemma_two_pow_mono(a: nat, b: nat)
    requires
        a <= b,
    ensures
        two_pow(a) <= two_pow(b),
    decreases b,
{
    if a < b {
        lemma_two_pow_mono(a, (b - 1) as nat);
    }
}

/// `base * 2^n` with 2^n from vstd's `pow2`, saturating at `u64::MAX`.
pub open spec fn saturating_scaled(base: u64, n: nat) -> u64 {
    if base * vstd::arithmetic::power2::pow2(n) > u64::MAX {
        u64::MAX
    } else {
        (base * vstd::arithmetic::power2::pow2(n)) as u64
    }
}

proof fn lemma_two_pow_is_pow2(n: nat)
    ensures
        two_pow(n) == vstd::arithmetic::power2::pow2(n),
    decreases n,
{
    if n == 0 {
        vstd::arithmetic::power2::lemma2_to64();
    } else {
        lemma_two_pow_is_pow2((n - 1) as nat);
        vstd::arithmetic::power2::lemma_pow2_unfold(n);
    }
}

/// Exponential backoff: the first retry waits the base delay and every
/// further failure doubles the wait, until it saturates at `u64::MAX`; so
/// after `n` earlier failures the wait is `base * 2^n`.
pub proof fn law_backoff_doubles(base: u64, n: nat)
    ensures
        backoff_delay(base, 0) == base,
        backoff_delay(base, n + 1) == (if 2 * backoff_delay(base, n) > u64::MAX {
            u64::MAX
        } else {
            (2 * backoff_delay(base, n)) as u64
        }),
        backoff_delay(base, n) == saturating_scaled(base, n),
{
    lemma_two_pow_is_pow2(n);
    let p = two_pow(n);
    assert(two_pow(n + 1) == 2 * p);
    assert(base * (2 * p) == 2 * (base * p)) by (nonlinear_arith);
    assert(two_pow(0) == 1);
    assert(base * two_pow(0) == base) by (nonlinear_arith)
        requires
            two_pow(0) == 1,
    ;
    assert(p >= 1) by {
        vstd::arithmetic::power2::lemma_pow2_pos(n);
    }
}

/// A failed attempt with attempts left is retried after `base * 2^n`
/// seconds (saturating), `n` being the number of earlier failures; with
/// none left, the post fails. Either way the attempt is counted.
pub proof fn law_retry_outcome(attempts: i64, max_attempts: u32, base: u64, now: i64)
    requires
        attempts >= 0,
    ensures
        attempts + 1 >= max_attempts ==> attempt_outcome_for(attempts, max_attempts, base, now)
            == (AttemptOutcome::Failed { attempts: (attempts + 1) as i64 }),
        attempts + 1 < max_attempts ==> attempt_outcome_for(attempts, max_attempts, base, now)
            == (AttemptOutcome::Retry {
            attempts: (attempts + 1) as i64,
            retry_at: (now + (saturating_scaled(base, attempts as nat) as i64)) as i64,
        }),
{
    law_backoff_doubles(base, attempts as nat);
}

/// The outcome of a failed attempt on a post that had failed `attempts`
/// times: with `attempts + 1` reaching `max_attempts` the post fails;
/// otherwise it is retried `backoff_delay` seconds after `now`.
pub open spec fn attempt_outcome_for(attempts: i64, max_attempts: u32, base: u64, now: i64) -> AttemptOutcome {
    if attempts + 1 >= max_attempts {
        AttemptOutcome::Failed { attempts: (attempts + 1) as i64 }
    } else {
        AttemptOutcome::Retry {
            attempts: (attempts + 1) as i64,
            retry_at: (now + (backoff_delay(base, attempts as nat) as i64)) as i64,
        }
    }
}

/// What a failed attempt leads to (see [`attempt_outcome_for`]). The delay
/// is shifted and added in 64-bit arithmetic, so a retried post needs fewer
/// than 64 earlier attempts and a retry time that fits.
pub fn attempt_or_fail(attempts: i64, max_attempts: u32, base_delay_secs: u64, now: i64) -> (r: AttemptOutcome)
    requires
        attempts < i64::MAX,
        attempts + 1 < max_attempts ==> 0 <= attempts < 64,
        attempts + 1 < max_attempts ==> i64::MIN <= now + (backoff_delay(base_delay_secs, attempts as nat) as i64) <= i64::MAX,
    ensures
        r == attempt_outcome_for(attempts, max_attempts, base_delay_secs, now),
{
    let new_attempts = attempts + 1;
    if new_attempts >= max_attempts as i64 {
        AttemptOutcome::Failed { attempts: new_attempts }
    } else {
        let p = pow_of_two(attempts as u32);
        let delay: u64 = match base_delay_secs.checked_mul(p) {
            Some(d) => d,
            None => u64::MAX,
        };
        AttemptOutcome::Retry { attempts: new_attempts, retry_at: now + delay as i64 }
    }
}

/// The outcome of a failed attempt as [`attempt_outcome_for`] gives it,
/// except that the retry time is the 64-bit wrapping sum of `now` and the
/// delay. Where that sum fits, the two agree.
pub open spec fn attempt_outcome_wrapping(attempts: i64, max_attempts: u32, base: u64, now: i64) -> AttemptOutcome {
    if attempts + 1 >= max_attempts {
        AttemptOutcome::Failed { attempts: (attempts + 1) as i64 }
    } else {
        AttemptOutcome::Retry {
            attempts: (attempts + 1) as i64,
            retry_at: vstd::wrapping::i64_specs::wrapping_add(now, backoff_delay(base, attempts as nat) as i64),
        }
    }
}

/// Where the retry time fits in 64 bits, the wrapping outcome is the plain
/// one.
pub proof fn lemma_wrapping_outcome_agrees(attempts: i64, max_attempts: u32, base: u64, now: i64)
    requires
        attempts + 1 < max_attempts ==> i64::MIN <= now + (backoff_delay(base, attempts as nat) as i64) <= i64::MAX,
    ensures
        attempt_outcome_wrapping(attempts, max_attempts, base, now) == attempt_outcome_for(
            attempts,
            max_attempts,
            base,
            now,
        ),
{
}

/// What a failed attempt leads to at the current time (see
/// [`attempt_outcome_wrapping`]). The time comes from the clock, so the
/// result is stated for some time.
pub fn attempt_or_fail_now(attempts: i64, max_attempts: u32, base_delay_secs: u64) -> (r: AttemptOutcome)
    requires
        attempts < i64::MAX,
        attempts + 1 < max_attempts ==> 0 <= attempts < 64,
    ensures
        exists|now: i64| r == attempt_outcome_wrapping(attempts, max_attempts, base_delay_secs, now),
{
    let now = unix_now();
    let new_attempts = attempts + 1;
    if new_attempts >= max_attempts as i64 {
        let r = AttemptOutcome::Failed { attempts: new_attempts };
        assert(r == attempt_outcome_wrapping(attempts, max_attempts, base_delay_secs, now));
        r
    } else {
        let p = pow_of_two(attempts as u32);
        let delay: u64 = match base_delay_secs.checked_mul(p) {
            Some(d) => d,
            None => u64::MAX,
        };
        let r = AttemptOutcome::Retry { attempts: new_attempts, retry_at: now.wrapping_add(delay as i64) };
        assert(r == attempt_outcome_wrapping(attempts, max_attempts, base_delay_secs, now));
        r
    }
}

} // verus!
