//! The desktop as text, for debugging from the command line.

use crate::ewwkit::domain::{
    outputs_view, windows_view, workspaces_view, DesktopState, Output, OutputView, Window,
    WindowView, Workspace, WorkspaceView,
};
use crate::text::{dec, decimal, push_chars, push_str, string_of};
use vstd::prelude::*;

verus! {

/// `x` when set, a space otherwise.
pub open spec fn mark(b: bool) -> Seq<char> {
    if b {
        "x"@
    } else {
        " "@
    }
}

/// A window's lines: focus mark, id and application id (`None` when
/// unknown), then the title and the icon, each indented.
pub open spec fn window_text(w: WindowView) -> Seq<char> {
    "    ["@ + mark(w.is_focused) + "] "@ + dec(w.id as nat) + " "@ + match w.app_id {
        Some(a) => a,
        None => "None"@,
    } + "\n      "@ + w.title + "\n      "@ + w.app_icon + "\n"@
}

pub open spec fn windows_text(ws: Seq<WindowView>) -> Seq<char>
    decreases ws.len(),
{
    if ws.len() == 0 {
        Seq::empty()
    } else {
        windows_text(ws.drop_last()) + window_text(ws.last())
    }
}

/// A workspace's line (active mark, id, name) and its windows.
pub open spec fn workspace_text(w: WorkspaceView) -> Seq<char> {
    "  ["@ + mark(w.active) + "] "@ + dec(w.id as nat) + " "@ + match w.name {
        Some(n) => n,
        None => Seq::empty(),
    } + ":\n"@ + windows_text(w.windows)
}

pub open spec fn workspaces_text(ws: Seq<WorkspaceView>) -> Seq<char>
    decreases ws.len(),
{
    if ws.len() == 0 {
        Seq::empty()
    } else {
        workspaces_text(ws.drop_last()) + workspace_text(ws.last())
    }
}

/// An output's line and its workspaces.
pub open spec fn output_text(o: OutputView) -> Seq<char> {
    "Output: "@ + o.name + "\n"@ + workspaces_text(o.workspaces)
}

/// The whole desktop, output by output.
pub open spec fn desktop_text(os: Seq<OutputView>) -> Seq<char>
    decreases os.len(),
{
    if os.len() == 0 {
        Seq::empty()
    } else {
        desktop_text(os.drop_last()) + output_text(os.last())
    }
}

fn push_mark(v: &mut Vec<char>, b: bool)
    ensures
        final(v)@ == old(v)@ + mark(b),
{
    if b {
        push_str(v, "x");
    } else {
        push_str(v, " ");
    }
}

fn push_window(v: &mut Vec<char>, w: &Window)
    ensures
        final(v)@ == old(v)@ + window_text(w@),
{
    let ghost start = v@;
    push_str(v, "    [");
    push_mark(v, w.is_focused);
    push_str(v, "] ");
    let d = decimal(w.id);
    push_chars(v, d.as_slice());
    push_str(v, " ");
    match &w.app_id {
        Some(a) => push_str(v, a.as_str()),
        None => push_str(v, "None"),
    }
    push_str(v, "\n      ");
    push_str(v, w.title.as_str());
    push_str(v, "\n      ");
    push_str(v, w.app_icon.as_str());
    push_str(v, "\n");
    assert(v@ =~= start + window_text(w@));
}

fn push_workspace(v: &mut Vec<char>, w: &Workspace)
    ensures
        final(v)@ == old(v)@ + workspace_text(w@),
{
    let ghost start = v@;
    push_str(v, "  [");
    push_mark(v, w.active);
    push_str(v, "] ");
    let d = decimal(w.id);
    push_chars(v, d.as_slice());
    push_str(v, " ");
    match &w.name {
        Some(n) => push_str(v, n.as_str()),
        None => {},
    }
    push_str(v, ":\n");
    let ghost head = v@;
    let ghost wv = windows_view(w.windows@);
    let mut i: usize = 0;
    while i < w.windows.len()
        invariant
            i <= w.windows@.len(),
            wv == windows_view(w.windows@),
            v@ == head + windows_text(wv.subrange(0, i as int)),
        decreases w.windows@.len() - i,
    {
        push_window(v, &w.windows[i]);
        proof {
            assert(wv.subrange(0, i + 1).drop_last() =~= wv.subrange(0, i as int));
            assert(wv[i as int] == w.windows@[i as int]@);
        }
        i = i + 1;
    }
    assert(wv.subrange(0, i as int) =~= wv);
    assert(v@ =~= start + workspace_text(w@));
}

fn push_output(v: &mut Vec<char>, o: &Output)
    ensures
        final(v)@ == old(v)@ + output_text(o@),
{
    let ghost start = v@;
    push_str(v, "Output: ");
    push_str(v, o.name.as_str());
    push_str(v, "\n");
    let ghost head = v@;
    let ghost wv = workspaces_view(o.workspaces@);
    let mut i: usize = 0;
    while i < o.workspaces.len()
        invariant
            i <= o.workspaces@.len(),
            wv == workspaces_view(o.workspaces@),
            v@ == head + workspaces_text(wv.subrange(0, i as int)),
        decreases o.workspaces@.len() - i,
    {
        push_workspace(v, &o.workspaces[i]);
        proof {
            assert(wv.subrange(0, i + 1).drop_last() =~= wv.subrange(0, i as int));
            assert(wv[i as int] == o.workspaces@[i as int]@);
        }
        i = i + 1;
    }
    assert(wv.subrange(0, i as int) =~= wv);
    assert(v@ =~= start + output_text(o@));
}

/// The desktop as the `desktop` command prints it (see [`desktop_text`]).
pub fn desktop_report(d: &DesktopState) -> (s: String)
    ensures
        s@ == desktop_text(outputs_view(d.outputs@)),
{
    let mut v: Vec<char> = Vec::new();
    let ghost ov = outputs_view(d.outputs@);
    let mut i: usize = 0;
    while i < d.outputs.len()
        invariant
            i <= d.outputs@.len(),
            ov == outputs_view(d.outputs@),
            v@ == desktop_text(ov.subrange(0, i as int)),
        decreases d.outputs@.len() - i,
    {
        push_output(&mut v, &d.outputs[i]);
        proof {
            assert(ov.subrange(0, i + 1).drop_last() =~= ov.subrange(0, i as int));
            assert(ov[i as int] == d.outputs@[i as int]@);
        }
        i = i + 1;
    }
    assert(ov.subrange(0, i as int) =~= ov);
    string_of(v.as_slice())
}

} // verus!
