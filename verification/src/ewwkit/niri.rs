//! Desktop layout from the compositor's workspace and window lists, and the
//! choice of the compositor's socket.

use crate::ewwkit::domain::{
    opt_str_view, outputs_view, DesktopState, Output, OutputView, Window, WindowView, Workspace,
    WorkspaceView,
};
use crate::ewwkit::icon_resolver::{missing_icon, step_for, step_view, IconResolver, IconStep};
use crate::sorting::{
    chars_le, is_sorted, law_stable_sort, lemma_seq_le_antisymmetric, lemma_seq_le_total,
    lemma_seq_le_transitive, ord_total, ord_transitive, seq_le, sort_stable, stable_sort, Ordered,
};
use crate::text::{chars_of, has_prefix, has_suffix, push_str, string_of, str_ends_with, str_starts_with};
use vstd::prelude::*;

verus! {

/// A window as listed by the compositor, with where it sits.
#[derive(Debug)]
pub struct WindowInfo {
    pub window: Window,
    pub workspace_id: u64,
    /// Column and row in the scrolling layout, for tiled windows.
    pub scroll_pos: Option<(i64, i64)>,
    /// Rank of the window's position on the workspace view among all
    /// positioned windows, for windows outside the scrolling layout.
    pub tile_rank: Option<u64>,
}

/// A workspace as listed by the compositor.
#[derive(Debug)]
pub struct WorkspaceInfo {
    pub id: u64,
    pub idx: u32,
    pub name: Option<String>,
    pub active: bool,
    /// Name of the output showing the workspace.
    pub output: String,
}

/// Layout order key of a window: tiled windows first by column and row, then
/// windows with a view position by its rank, then the rest.
pub open spec fn layout_key(w: WindowInfo) -> (int, int, int) {
    match w.scroll_pos {
        Some((a, b)) => (0, a as int, b as int),
        None => match w.tile_rank {
            Some(r) => (1, r as int, 0),
            None => (2, 0, 0),
        },
    }
}

/// Lexicographic order on layout keys.
pub open spec fn key_le(a: (int, int, int), b: (int, int, int)) -> bool {
    a.0 < b.0 || (a.0 == b.0 && (a.1 < b.1 || (a.1 == b.1 && a.2 <= b.2)))
}

impl Ordered for WindowInfo {
    open spec fn ord_le(self, other: Self) -> bool {
        key_le(layout_key(self), layout_key(other))
    }

    fn le(&self, other: &Self) -> (r: bool) {
        match (self.scroll_pos, other.scroll_pos) {
            (Some((a0, a1)), Some((b0, b1))) => a0 < b0 || (a0 == b0 && a1 <= b1),
            (Some(_), None) => true,
            (None, Some(_)) => false,
            (None, None) => match (self.tile_rank, other.tile_rank) {
                (Some(a), Some(b)) => a <= b,
                (Some(_), None) => true,
                (None, Some(_)) => false,
                (None, None) => true,
            },
        }
    }
}

impl Ordered for WorkspaceInfo {
    /// By output name, then by index on the output.
    open spec fn ord_le(self, other: Self) -> bool {
        if self.output@ == other.output@ {
            self.idx <= other.idx
        } else {
            seq_le(self.output@, other.output@)
        }
    }

    fn le(&self, other: &Self) -> (r: bool) {
        if self.output == other.output {
            self.idx <= other.idx
        } else {
            let a = chars_of(self.output.as_str());
            let b = chars_of(other.output.as_str());
            chars_le(a.as_slice(), b.as_slice())
        }
    }
}

/// The windows of workspace `id`, in the order of `wins`.
pub open spec fn windows_in(wins: Seq<WindowInfo>, id: u64) -> Seq<WindowView>
    decreases wins.len(),
{
    if wins.len() == 0 {
        Seq::empty()
    } else {
        let r = windows_in(wins.drop_last(), id);
        if wins.last().workspace_id == id {
            r.push(wins.last().window@)
        } else {
            r
        }
    }
}

/// The displayed workspace for `w`, holding its windows from `wins`.
pub open spec fn workspace_of(w: WorkspaceInfo, wins: Seq<WindowInfo>) -> WorkspaceView {
    WorkspaceView {
        id: w.id,
        idx: w.idx,
        name: opt_str_view(w.name),
        active: w.active,
        windows: windows_in(wins, w.id),
    }
}

/// Consecutive workspaces of `ws` that share an output, gathered into outputs.
pub open spec fn group_outputs(ws: Seq<WorkspaceInfo>, wins: Seq<WindowInfo>) -> Seq<OutputView>
    decreases ws.len(),
{
    if ws.len() == 0 {
        Seq::empty()
    } else {
        let rest = group_outputs(ws.drop_last(), wins);
        let w = ws.last();
        if rest.len() > 0 && rest.last().name == w.output@ {
            rest.update(
                rest.len() - 1,
                OutputView {
                    name: w.output@,
                    workspaces: rest.last().workspaces.push(workspace_of(w, wins)),
                },
            )
        } else {
            rest.push(OutputView { name: w.output@, workspaces: seq![workspace_of(w, wins)] })
        }
    }
}

/// The desktop for the compositor's lists: windows in layout order, each on
/// its workspace; workspaces grouped by output, outputs by name, workspaces
/// by index.
pub open spec fn desktop_of(workspaces: Seq<WorkspaceInfo>, windows: Seq<WindowInfo>) -> Seq<
    OutputView,
> {
    group_outputs(stable_sort(workspaces), stable_sort(windows))
}

fn collect_windows(wins: &Vec<WindowInfo>, id: u64) -> (r: Vec<Window>)
    ensures
        r@.map_values(|w: Window| w@) == windows_in(wins@, id),
{
    let mut r: Vec<Window> = Vec::new();
    let mut i: usize = 0;
    while i < wins.len()
        invariant
            i <= wins@.len(),
            r@.map_values(|w: Window| w@) == windows_in(wins@.subrange(0, i as int), id),
        decreases wins@.len() - i,
    {
        let ghost before = r@;
        if wins[i].workspace_id == id {
            r.push(wins[i].window.copy());
        }
        proof {
            let t = wins@.subrange(0, i + 1);
            assert(t.drop_last() =~= wins@.subrange(0, i as int));
            if wins@[i as int].workspace_id == id {
                assert(r@.map_values(|w: Window| w@) =~= before.map_values(|w: Window| w@).push(
                    wins@[i as int].window@,
                ));
            } else {
                assert(r@ == before);
            }
        }
        i = i + 1;
    }
    assert(wins@.subrange(0, wins@.len() as int) =~= wins@);
    r
}

/// The desktop for the compositor's workspace and window lists
/// (see [`desktop_of`]).
pub fn build_desktop(workspaces: Vec<WorkspaceInfo>, windows: Vec<WindowInfo>) -> (d: DesktopState)
    ensures
        d@ == desktop_of(workspaces@, windows@),
{
    let wins = sort_stable(windows);
    let mut wss = sort_stable(workspaces);
    let ghost sorted = wss@;
    let n = wss.len();
    let mut outputs: Vec<Output> = Vec::new();
    let mut current: Option<Output> = None;
    let mut k: usize = 0;
    while k < n
        invariant
            n == sorted.len(),
            k <= n,
            wss@ == sorted.subrange(k as int, n as int),
            current is Some <==> k > 0,
            ({
                let g = group_outputs(sorted.subrange(0, k as int), wins@);
                match current {
                    Some(c) => g == outputs_view(outputs@).push(c@),
                    None => g == outputs_view(outputs@),
                }
            }),
        decreases n - k,
    {
        let info = wss.remove(0);
        let ghost t = sorted.subrange(0, k + 1);
        proof {
            assert(t.drop_last() =~= sorted.subrange(0, k as int));
            assert(t.last() == info);
            assert(wss@ =~= sorted.subrange(k + 1, n as int));
        }
        let ws = Workspace {
            id: info.id,
            idx: info.idx,
            name: info.name,
            active: info.active,
            windows: collect_windows(&wins, info.id),
        };
        assert(ws@ == workspace_of(info, wins@));
        let ghost rest = group_outputs(sorted.subrange(0, k as int), wins@);
        let ghost old_outputs = outputs@;
        match current {
            Some(mut c) => {
                if c.name == info.output {
                    let ghost cv = c@;
                    let ghost old_ws = c.workspaces@;
                    c.workspaces.push(ws);
                    proof {
                        assert(rest.last() == cv);
                        assert(crate::ewwkit::domain::workspaces_view(c.workspaces@)
                            =~= crate::ewwkit::domain::workspaces_view(old_ws).push(ws@));
                        assert(c@ == (OutputView {
                            name: info.output@,
                            workspaces: cv.workspaces.push(workspace_of(info, wins@)),
                        }));
                        assert(group_outputs(t, wins@) =~= outputs_view(outputs@).push(c@));
                    }
                    current = Some(c);
                } else {
                    let ghost cv = c@;
                    outputs.push(c);
                    let o = Output { name: info.output, workspaces: vec![ws] };
                    proof {
                        assert(outputs_view(outputs@) =~= outputs_view(old_outputs).push(cv));
                        assert(o@.workspaces =~= seq![workspace_of(info, wins@)]);
                        assert(group_outputs(t, wins@) =~= outputs_view(outputs@).push(o@));
                    }
                    current = Some(o);
                }
            },
            None => {
                let o = Output { name: info.output, workspaces: vec![ws] };
                proof {
                    assert(o@.workspaces =~= seq![workspace_of(info, wins@)]);
                    assert(group_outputs(t, wins@) =~= outputs_view(outputs@).push(o@));
                }
                current = Some(o);
            },
        }
        k = k + 1;
    }
    match current {
        Some(c) => {
            let ghost before = outputs@;
            outputs.push(c);
            assert(outputs_view(outputs@) =~= outputs_view(before).push(c@));
        },
        None => {},
    }
    assert(sorted.subrange(0, n as int) =~= sorted);
    DesktopState { outputs }
}

// ─── Layout laws ─────────────────────────────────────────────────────────────

proof fn lemma_workspace_order()
    ensures
        ord_total::<WorkspaceInfo>(),
        ord_transitive::<WorkspaceInfo>(),
{
    assert forall|a: WorkspaceInfo, b: WorkspaceInfo| #[trigger] a.ord_le(b) || #[trigger] b.ord_le(a) by {
        lemma_seq_le_total(a.output@, b.output@);
    }
    assert forall|a: WorkspaceInfo, b: WorkspaceInfo, c: WorkspaceInfo|
        #[trigger] a.ord_le(b) && #[trigger] b.ord_le(c) implies a.ord_le(c) by {
        if a.output@ != b.output@ && b.output@ != c.output@ {
            lemma_seq_le_transitive(a.output@, b.output@, c.output@);
            if a.output@ == c.output@ {
                lemma_seq_le_antisymmetric(a.output@, b.output@);
            }
        }
    }
}

/// Some workspace of `ws` is on output `name` with index `idx`.
pub open spec fn shown_by(ws: Seq<WorkspaceInfo>, name: Seq<char>, idx: u32) -> bool {
    exists|k: int| 0 <= k < ws.len() && (#[trigger] ws[k]).output@ == name && ws[k].idx == idx
}

/// The outputs in `d` have distinct names in increasing order, and the
/// workspaces of each are in increasing index order.
pub open spec fn layout_ordered(d: Seq<OutputView>) -> bool {
    &&& forall|i: int, j: int|
        0 <= i < j < d.len() ==> (#[trigger] d[i]).name != (#[trigger] d[j]).name && seq_le(
            d[i].name,
            d[j].name,
        )
    &&& forall|i: int, a: int, b: int|
        0 <= i < d.len() && 0 <= a < b < d[i].workspaces.len() ==> (
        #[trigger] d[i].workspaces[a]).idx <= (#[trigger] d[i].workspaces[b]).idx
}

proof fn lemma_group_sorted(ws: Seq<WorkspaceInfo>, wins: Seq<WindowInfo>)
    requires
        is_sorted(ws),
        ord_total::<WorkspaceInfo>(),
        ord_transitive::<WorkspaceInfo>(),
    ensures
        layout_ordered(group_outputs(ws, wins)),
        forall|i: int, a: int|
            0 <= i < group_outputs(ws, wins).len() && 0 <= a < group_outputs(ws, wins)[i].workspaces.len()
                ==> shown_by(ws, group_outputs(ws, wins)[i].name, #[trigger] group_outputs(ws, wins)[i].workspaces[a].idx),
        forall|i: int| 0 <= i < group_outputs(ws, wins).len() ==> (#[trigger] group_outputs(ws, wins)[i]).workspaces.len() > 0,
        ws.len() > 0 ==> group_outputs(ws, wins).len() > 0 && group_outputs(ws, wins).last().name == ws.last().output@
            && group_outputs(ws, wins).last().workspaces.last().idx == ws.last().idx,
        ws.len() == 0 ==> group_outputs(ws, wins).len() == 0,
    decreases ws.len(),
{
    if ws.len() > 0 {
        let p = ws.drop_last();
        let w = ws.last();
        assert(is_sorted(p)) by {
            assert forall|i: int, j: int| 0 <= i < j < p.len() implies (#[trigger] p[i]).ord_le(#[trigger] p[j]) by {
                assert(p[i] == ws[i] && p[j] == ws[j]);
            }
        }
        lemma_group_sorted(p, wins);
        let rest = group_outputs(p, wins);
        let d = group_outputs(ws, wins);
        // Every workspace of `p` comes no later than `w`.
        assert forall|k: int| 0 <= k < p.len() implies (#[trigger] p[k]).ord_le(w) by {
            assert(p[k] == ws[k]);
            assert(ws[k].ord_le(ws[ws.len() - 1]));
        }
        // What shows in `rest` shows in `ws`.
        assert forall|name: Seq<char>, idx: u32| shown_by(p, name, idx) implies shown_by(ws, name, idx) by {
            let k = choose|k: int| 0 <= k < p.len() && (#[trigger] p[k]).output@ == name && p[k].idx == idx;
            assert(ws[k] == p[k]);
        }
        let nw = workspace_of(w, wins);
        if rest.len() > 0 && rest.last().name == w.output@ {
            let l = rest.len() - 1;
            let lo = OutputView { name: w.output@, workspaces: rest.last().workspaces.push(nw) };
            assert(d == rest.update(l, lo));
            assert forall|a: int| 0 <= a < rest[l].workspaces.len() implies (#[trigger] rest[l].workspaces[a]).idx <= w.idx by {
                assert(shown_by(p, rest[l].name, rest[l].workspaces[a].idx));
                let k = choose|k: int| 0 <= k < p.len() && (#[trigger] p[k]).output@ == rest[l].name && p[k].idx == rest[l].workspaces[a].idx;
                assert(p[k].ord_le(w));
            }
            assert forall|i: int, a: int, b: int|
                0 <= i < d.len() && 0 <= a < b < d[i].workspaces.len() implies (
                #[trigger] d[i].workspaces[a]).idx <= (#[trigger] d[i].workspaces[b]).idx by {
                if i == l {
                    if b == d[i].workspaces.len() - 1 {
                        assert(d[i].workspaces[a] == rest[l].workspaces[a]);
                    } else {
                        assert(d[i].workspaces[a] == rest[l].workspaces[a]);
                        assert(d[i].workspaces[b] == rest[l].workspaces[b]);
                    }
                } else {
                    assert(d[i] == rest[i]);
                }
            }
            assert forall|i: int, j: int| 0 <= i < j < d.len() implies (#[trigger] d[i]).name != (
            #[trigger] d[j]).name && seq_le(d[i].name, d[j].name) by {
                assert(d[i].name == rest[i].name && d[j].name == rest[j].name);
            }
            assert forall|i: int, a: int|
                0 <= i < d.len() && 0 <= a < d[i].workspaces.len() implies shown_by(
                ws,
                d[i].name,
                #[trigger] d[i].workspaces[a].idx,
            ) by {
                if i == l && a == d[i].workspaces.len() - 1 {
                    assert(ws[ws.len() - 1] == w);
                } else if i == l {
                    assert(d[i].workspaces[a] == rest[l].workspaces[a]);
                    assert(shown_by(p, rest[l].name, rest[l].workspaces[a].idx));
                } else {
                    assert(d[i] == rest[i]);
                    assert(shown_by(p, rest[i].name, rest[i].workspaces[a].idx));
                }
            }
            assert forall|i: int| 0 <= i < d.len() implies (#[trigger] d[i]).workspaces.len() > 0 by {
                if i != l {
                    assert(d[i] == rest[i]);
                }
            }
        } else {
            let no = OutputView { name: w.output@, workspaces: seq![nw] };
            assert(d == rest.push(no));
            // Every earlier output comes before `w`'s.
            assert forall|i: int| 0 <= i < rest.len() implies (#[trigger] rest[i]).name != w.output@ && seq_le(
                rest[i].name,
                w.output@,
            ) by {
                assert(rest[i].workspaces.len() > 0);
                assert(shown_by(p, rest[i].name, rest[i].workspaces[0].idx));
                let k = choose|k: int| 0 <= k < p.len() && (#[trigger] p[k]).output@ == rest[i].name && p[k].idx == rest[i].workspaces[0].idx;
                assert(p[k].ord_le(w));
                let last = p[p.len() - 1];
                assert(last.output@ == rest.last().name);
                assert(last.output@ != w.output@);
                if rest[i].name == w.output@ {
                    assert(last.ord_le(w));
                    assert(seq_le(last.output@, w.output@));
                    if k < p.len() - 1 {
                        assert(ws[k].ord_le(ws[p.len() - 1]));
                        assert(p[k].ord_le(last));
                        assert(seq_le(w.output@, last.output@));
                    } else {
                        assert(p[k] == last);
                    }
                    lemma_seq_le_antisymmetric(last.output@, w.output@);
                }
            }
            assert forall|i: int, j: int| 0 <= i < j < d.len() implies (#[trigger] d[i]).name != (
            #[trigger] d[j]).name && seq_le(d[i].name, d[j].name) by {
                if j == d.len() - 1 {
                    assert(d[i] == rest[i]);
                } else {
                    assert(d[i] == rest[i] && d[j] == rest[j]);
                }
            }
            assert forall|i: int, a: int, b: int|
                0 <= i < d.len() && 0 <= a < b < d[i].workspaces.len() implies (
                #[trigger] d[i].workspaces[a]).idx <= (#[trigger] d[i].workspaces[b]).idx by {
                if i < rest.len() {
                    assert(d[i] == rest[i]);
                }
            }
            assert forall|i: int, a: int|
                0 <= i < d.len() && 0 <= a < d[i].workspaces.len() implies shown_by(
                ws,
                d[i].name,
                #[trigger] d[i].workspaces[a].idx,
            ) by {
                if i == d.len() - 1 {
                    assert(ws[ws.len() - 1] == w);
                } else {
                    assert(d[i] == rest[i]);
                    assert(shown_by(p, rest[i].name, rest[i].workspaces[a].idx));
                }
            }
            assert forall|i: int| 0 <= i < d.len() implies (#[trigger] d[i]).workspaces.len() > 0 by {
                if i < rest.len() {
                    assert(d[i] == rest[i]);
                }
            }
        }
    }
}

/// The desktop shows each output once, outputs in order of name and each
/// output's workspaces in order of index; every workspace shown is one of
/// the compositor's, on the output it names.
pub proof fn law_desktop_layout(workspaces: Seq<WorkspaceInfo>, windows: Seq<WindowInfo>)
    ensures
        layout_ordered(desktop_of(workspaces, windows)),
        forall|i: int, a: int|
            0 <= i < desktop_of(workspaces, windows).len() && 0 <= a < desktop_of(workspaces, windows)[i].workspaces.len()
                ==> shown_by(workspaces, desktop_of(workspaces, windows)[i].name, #[trigger] desktop_of(workspaces, windows)[i].workspaces[a].idx),
{
    lemma_workspace_order();
    law_stable_sort(workspaces);
    let sorted = stable_sort(workspaces);
    lemma_group_sorted(sorted, stable_sort(windows));
    assert forall|name: Seq<char>, idx: u32| shown_by(sorted, name, idx) implies shown_by(workspaces, name, idx) by {
        broadcast use vstd::seq_lib::group_to_multiset_ensures;
        let k = choose|k: int| 0 <= k < sorted.len() && (#[trigger] sorted[k]).output@ == name && sorted[k].idx == idx;
        assert(sorted.contains(sorted[k]));
        assert(sorted.to_multiset().count(sorted[k]) > 0);
        assert(workspaces.contains(sorted[k]));
    }
}

// ─── Socket ──────────────────────────────────────────────────────────────────

/// Whether a file name looks like the compositor's socket.
pub open spec fn is_niri_socket_name(name: Seq<char>) -> bool {
    has_prefix(name, "niri"@) && has_suffix(name, ".sock"@)
}

/// The runtime directory: `XDG_RUNTIME_DIR` when set, else `/run/user/1000`.
pub open spec fn runtime_dir(xdg_runtime: Option<Seq<char>>) -> Seq<char> {
    match xdg_runtime {
        Some(d) => d,
        None => "/run/user/1000"@,
    }
}

/// Whether `i` is the first entry that looks like the compositor's socket.
pub open spec fn first_socket_entry(entries: Seq<String>, i: int) -> bool {
    &&& 0 <= i < entries.len()
    &&& is_niri_socket_name(entries[i]@)
    &&& forall|j: int| 0 <= j < i ==> !is_niri_socket_name(#[trigger] entries[j]@)
}

/// The compositor socket path: the configured one; else `NIRI_SOCKET`; else
/// the first `niri*.sock` entry of the runtime directory; else
/// `<runtime dir>/niri-0`.
pub open spec fn socket_path_for(
    configured: Option<Seq<char>>,
    niri_env: Option<Seq<char>>,
    xdg_runtime: Option<Seq<char>>,
    entries: Seq<String>,
) -> Seq<char> {
    if configured is Some {
        configured.unwrap()
    } else if niri_env is Some {
        niri_env.unwrap()
    } else if exists|i: int| first_socket_entry(entries, i) {
        runtime_dir(xdg_runtime) + "/"@ + entries[choose|i: int| first_socket_entry(entries, i)]@
    } else {
        runtime_dir(xdg_runtime) + "/niri-0"@
    }
}

/// Chooses the compositor socket path from the configuration, the
/// `NIRI_SOCKET` and `XDG_RUNTIME_DIR` variables and the file names found in
/// the runtime directory (see [`socket_path_for`]).
pub fn choose_socket_path(
    configured: &Option<String>,
    niri_env: Option<String>,
    xdg_runtime: Option<String>,
    entries: &Vec<String>,
) -> (p: String)
    ensures
        p@ == socket_path_for(
            opt_str_view(*configured),
            opt_str_view(niri_env),
            opt_str_view(xdg_runtime),
            entries@,
        ),
{
    if let Some(c) = configured {
        return c.clone();
    }
    if let Some(e) = niri_env {
        return e;
    }
    let dir = match xdg_runtime {
        Some(d) => d,
        None => "/run/user/1000".to_owned(),
    };
    let mut i: usize = 0;
    while i < entries.len()
        invariant
            configured is None,
            niri_env is None,
            dir@ == runtime_dir(opt_str_view(xdg_runtime)),
            i <= entries@.len(),
            forall|j: int| 0 <= j < i ==> !is_niri_socket_name(#[trigger] entries@[j]@),
        decreases entries@.len() - i,
    {
        let name = entries[i].as_str();
        if str_starts_with(name, "niri") && str_ends_with(name, ".sock") {
            proof {
                assert(first_socket_entry(entries@, i as int));
                assert(exists|c: int| first_socket_entry(entries@, c));
                let c = choose|c: int| first_socket_entry(entries@, c);
                if c < i {
                    assert(!is_niri_socket_name(entries@[c]@));
                }
                if c > i {
                    assert(!is_niri_socket_name(entries@[i as int]@));
                }
                assert(c == i);
            }
            let mut v = chars_of(dir.as_str());
            push_str(&mut v, "/");
            push_str(&mut v, name);
            return string_of(v.as_slice());
        }
        i = i + 1;
    }
    let mut v = chars_of(dir.as_str());
    push_str(&mut v, "/niri-0");
    string_of(v.as_slice())
}

// ─── Adapter ─────────────────────────────────────────────────────────────────

/// Talks to the compositor over its socket and names window icons.
pub struct NiriAdapter {
    socket_path: String,
    icon_resolver: IconResolver,
}

/// A request as the compositor reads it: the command name as a JSON string,
/// then a newline.
pub open spec fn request_line(request: Seq<char>) -> Seq<char> {
    "\""@ + request + "\"\n"@
}

impl NiriAdapter {
    /// An adapter on the socket chosen by [`choose_socket_path`], with a
    /// fresh icon resolver.
    pub fn new(
        config_socket_path: &Option<String>,
        niri_env: Option<String>,
        xdg_runtime: Option<String>,
        entries: &Vec<String>,
        icon_dir: &str,
    ) -> (a: NiriAdapter)
        ensures
            a.socket_path()@ == socket_path_for(
                opt_str_view(*config_socket_path),
                opt_str_view(niri_env),
                opt_str_view(xdg_runtime),
                entries@,
            ),
            a.icons()@.cache == Map::<Seq<char>, Seq<char>>::empty(),
            a.icons()@.default_icon == missing_icon(),
    {
        let socket_path = choose_socket_path(config_socket_path, niri_env, xdg_runtime, entries);
        NiriAdapter { socket_path, icon_resolver: IconResolver::new(icon_dir) }
    }

    pub closed spec fn socket_path(&self) -> String {
        self.socket_path
    }

    pub closed spec fn icons(&self) -> IconResolver {
        self.icon_resolver
    }

    /// The compositor's socket.
    pub fn socket(&self) -> (p: &str)
        ensures
            p@ == self.socket_path()@,
    {
        self.socket_path.as_str()
    }

    /// The line sent for a request (see [`request_line`]).
    pub fn request_payload(request: &str) -> (r: String)
        ensures
            r@ == request_line(request@),
    {
        let mut v = chars_of("\"");
        push_str(&mut v, request);
        push_str(&mut v, "\"\n");
        string_of(v.as_slice())
    }

    /// What to do to name the icon of a window with this application id.
    pub fn begin_icon(&self, app_id: &Option<String>) -> (s: IconStep)
        ensures
            step_view(s) == step_for(self.icons()@, opt_str_view(*app_id)),
    {
        self.icon_resolver.begin(app_id)
    }

    /// Ends an icon search for `app_id` (see [`IconResolver::finish`]).
    pub fn finish_icon(&mut self, app_id: &str, found: Option<String>) -> (p: String)
        ensures
            p@ == match found {
                Some(f) => f@,
                None => old(self).icons()@.default_icon,
            },
            final(self).socket_path() == old(self).socket_path(),
            final(self).icons()@.default_icon == old(self).icons()@.default_icon,
            final(self).icons()@.cache == old(self).icons()@.cache.insert(app_id@, p@),
    {
        self.icon_resolver.finish(app_id, found)
    }
}

} // verus!
