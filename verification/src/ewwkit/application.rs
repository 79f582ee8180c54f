//! The daemon's event handling: one event at a time updates the displayed
//! state and the popup, and names the outside work to do next.

use crate::ewwkit::domain::{
    opt_str_view, outputs_eq, popup_opt_eq, popup_opt_view, AudioState, BatteryState,
    BrightnessState, DesktopState, NetworkState, Output, PopupView, SystemState, Workspace,
};
use crate::ewwkit::ipc::{AppConfig, BrightnessAction, IpcMessage, VolumeAction};
use crate::ewwkit::popup::{PopupAction, PopupManager};
use vstd::prelude::*;

verus! {

/// All events the daemon can receive, from any source.
#[derive(Debug)]
pub enum AppEvent {
    BatteryChanged(BatteryState),
    NetworkChanged(NetworkState),
    AudioChanged(AudioState),
    BrightnessChanged(BrightnessState),
    /// The compositor signalled a desktop change; the desktop must be fetched.
    NiriEvent,
    /// Popup timeout check tick.
    PopupTick,
    Ipc(IpcMessage),
}

/// Outside work the daemon must perform after handling an event.
#[derive(Debug, PartialEq, Eq, Structural)]
pub enum Effect {
    Nothing,
    /// Fetch the desktop state and hand it to [`apply_desktop`].
    FetchDesktop,
    /// Run the volume control; the audio watcher reports the result.
    Volume(VolumeAction),
    /// Run the brightness control; the brightness watcher reports the result.
    Brightness(BrightnessAction),
}

// ─── Focused output ──────────────────────────────────────────────────────────

/// Whether some window of `w` has focus.
pub open spec fn workspace_has_focus(w: Workspace) -> bool {
    exists|k: int| 0 <= k < w.windows@.len() && #[trigger] w.windows@[k].is_focused
}

/// Whether some window on output `o` has focus.
pub open spec fn output_has_focus(o: Output) -> bool {
    exists|j: int| 0 <= j < o.workspaces@.len() && workspace_has_focus(#[trigger] o.workspaces@[j])
}

/// Whether `i` is the first output holding the focused window.
pub open spec fn first_focused(outs: Seq<Output>, i: int) -> bool {
    &&& 0 <= i < outs.len()
    &&& output_has_focus(outs[i])
    &&& forall|j: int| 0 <= j < i ==> !output_has_focus(#[trigger] outs[j])
}

/// The output a popup opens on: the first one holding a focused window,
/// else the first output, else none.
pub open spec fn focused_output_name(outs: Seq<Output>) -> Option<Seq<char>> {
    if exists|i: int| first_focused(outs, i) {
        Some(outs[choose|i: int| first_focused(outs, i)].name@)
    } else if outs.len() > 0 {
        Some(outs[0].name@)
    } else {
        None
    }
}

fn workspace_focused(w: &Workspace) -> (r: bool)
    ensures
        r == workspace_has_focus(*w),
{
    let mut k: usize = 0;
    while k < w.windows.len()
        invariant
            k <= w.windows@.len(),
            forall|m: int| 0 <= m < k ==> !(#[trigger] w.windows@[m].is_focused),
        decreases w.windows@.len() - k,
    {
        if w.windows[k].is_focused {
            return true;
        }
        k = k + 1;
    }
    false
}

fn output_focused(o: &Output) -> (r: bool)
    ensures
        r == output_has_focus(*o),
{
    let mut j: usize = 0;
    while j < o.workspaces.len()
        invariant
            j <= o.workspaces@.len(),
            forall|m: int| 0 <= m < j ==> !workspace_has_focus(#[trigger] o.workspaces@[m]),
        decreases o.workspaces@.len() - j,
    {
        if workspace_focused(&o.workspaces[j]) {
            return true;
        }
        j = j + 1;
    }
    false
}

/// The name of the output to open a popup on (see [`focused_output_name`]).
pub fn focused_output(state: &SystemState) -> (r: Option<String>)
    ensures
        opt_str_view(r) == focused_output_name(state.desktop.outputs@),
{
    let outs = &state.desktop.outputs;
    let mut i: usize = 0;
    while i < outs.len()
        invariant
            outs@ == state.desktop.outputs@,
            i <= outs@.len(),
            forall|j: int| 0 <= j < i ==> !output_has_focus(#[trigger] outs@[j]),
        decreases outs@.len() - i,
    {
        if output_focused(&outs[i]) {
            proof {
                assert(first_focused(outs@, i as int));
                assert(exists|c: int| first_focused(outs@, c));
                let c = choose|c: int| first_focused(outs@, c);
                if c < i {
                    assert(!output_has_focus(outs@[c]));
                }
                if c > i {
                    assert(!output_has_focus(outs@[i as int]));
                }
                assert(c == i);
            }
            return Some(outs[i].name.clone());
        }
        i = i + 1;
    }
    proof {
        assert(!exists|c: int| first_focused(outs@, c));
    }
    if outs.len() > 0 {
        Some(outs[0].name.clone())
    } else {
        None
    }
}

// ─── State updates ───────────────────────────────────────────────────────────

/// Whether `pm` shows popup `name` on `output` with the given timeout.
pub open spec fn popup_shown(
    pm: Option<PopupView>,
    name: Seq<char>,
    output: Seq<char>,
    timeout_ms: Option<u64>,
) -> bool {
    &&& pm is Some
    &&& pm.unwrap().name == name
    &&& pm.unwrap().output == output
    &&& pm.unwrap().timeout_ms == timeout_ms
}

/// `s` and `t` agree on everything but the popup.
pub open spec fn same_but_popup(s: SystemState, t: SystemState) -> bool {
    s.system == t.system && s.desktop == t.desktop
}

/// After a change of `metric`, the auto-dismissing popup named `name` was
/// opened on the focused output, or nothing was opened when there is no output.
pub open spec fn popup_triggered(
    before: SystemState,
    after: SystemState,
    pm_before: Option<PopupView>,
    pm_after: Option<PopupView>,
    name: Seq<char>,
    timeout_ms: u64,
) -> bool {
    match focused_output_name(before.desktop.outputs@) {
        Some(o) => {
            &&& popup_shown(pm_after, name, o, Some(timeout_ms))
            &&& popup_opt_view(after.ui.popup) == pm_after
        },
        None => pm_after == pm_before && after.ui == before.ui,
    }
}

/// Opens the auto-dismissing popup `name` on the focused output and mirrors
/// it into the state; does nothing when there is no output.
fn trigger_popup(name: &str, state: &mut SystemState, popups: &mut PopupManager, config: &AppConfig)
    ensures
        same_but_popup(*final(state), *old(state)),
        popup_triggered(
            *old(state),
            *final(state),
            old(popups)@,
            final(popups)@,
            name@,
            config.popups.timeout_ms,
        ),
{
    let output = match focused_output(state) {
        Some(o) => o,
        None => {
            return ;
        },
    };
    popups.handle_action(
        PopupAction::Open {
            name: name.to_owned(),
            output,
            timeout_ms: Some(config.popups.timeout_ms),
        },
    );
    state.ui.popup = popups.get_state();
}

/// Replaces the displayed desktop. Returns whether it differed from the
/// previous one (by view); when it did not, the state is left untouched.
pub fn apply_desktop(state: &mut SystemState, desktop: DesktopState) -> (changed: bool)
    ensures
        changed == (old(state).desktop@ != desktop@),
        changed ==> final(state).desktop == desktop && final(state).system == old(state).system
            && final(state).ui == old(state).ui,
        !changed ==> *final(state) == *old(state),
{
    if !outputs_eq(&state.desktop.outputs, &desktop.outputs) {
        state.desktop = desktop;
        true
    } else {
        false
    }
}

/// Handles one event. Returns whether the displayed state changed and the
/// outside work to perform next.
///
/// Metric events replace the metric when it differs; volume and brightness
/// changes also open their popup on the focused output. A compositor event
/// asks for the desktop to be fetched. A timer tick closes an expired popup.
/// IPC messages open or close popups, or name a control to run.
pub fn handle_event(
    event: AppEvent,
    state: &mut SystemState,
    popups: &mut PopupManager,
    config: &AppConfig,
) -> (r: (bool, Effect))
    ensures
        match event {
            AppEvent::BatteryChanged(bat) => {
                &&& r.1 == Effect::Nothing
                &&& r.0 == (old(state).system.battery@ != bat@)
                &&& final(popups)@ == old(popups)@
                &&& r.0 ==> final(state).system.battery == bat && final(state).system.network
                    == old(state).system.network && final(state).system.audio == old(state).system.audio && final(state).system.brightness == old(state).system.brightness
                    && final(state).desktop == old(state).desktop && final(state).ui == old(state).ui
                &&& !r.0 ==> *final(state) == *old(state)
            },
            AppEvent::NetworkChanged(net) => {
                &&& r.1 == Effect::Nothing
                &&& r.0 == (old(state).system.network@ != net@)
                &&& final(popups)@ == old(popups)@
                &&& r.0 ==> final(state).system.network == net && final(state).system.battery
                    == old(state).system.battery && final(state).system.audio == old(state).system.audio && final(state).system.brightness == old(state).system.brightness
                    && final(state).desktop == old(state).desktop && final(state).ui == old(state).ui
                &&& !r.0 ==> *final(state) == *old(state)
            },
            AppEvent::AudioChanged(audio) => {
                &&& r.1 == Effect::Nothing
                &&& r.0 == (old(state).system.audio != audio)
                &&& r.0 ==> final(state).system.audio == audio && final(state).system.battery
                    == old(state).system.battery && final(state).system.network == old(state).system.network && final(state).system.brightness == old(state).system.brightness && final(state).desktop == old(state).desktop
                    && popup_triggered(
                    *old(state),
                    *final(state),
                    old(popups)@,
                    final(popups)@,
                    "volume"@,
                    config.popups.timeout_ms,
                )
                &&& !r.0 ==> *final(state) == *old(state) && final(popups)@ == old(popups)@
            },
            AppEvent::BrightnessChanged(b) => {
                &&& r.1 == Effect::Nothing
                &&& r.0 == (old(state).system.brightness@ != b@)
                &&& r.0 ==> final(state).system.brightness == b && final(state).system.battery
                    == old(state).system.battery && final(state).system.network == old(state).system.network && final(state).system.audio == old(state).system.audio
                    && final(state).desktop == old(state).desktop && popup_triggered(
                    *old(state),
                    *final(state),
                    old(popups)@,
                    final(popups)@,
                    "brightness"@,
                    config.popups.timeout_ms,
                )
                &&& !r.0 ==> *final(state) == *old(state) && final(popups)@ == old(popups)@
            },
            AppEvent::NiriEvent => {
                &&& r == (false, Effect::FetchDesktop)
                &&& *final(state) == *old(state)
                &&& final(popups)@ == old(popups)@
            },
            AppEvent::PopupTick => {
                &&& r.1 == Effect::Nothing
                &&& final(popups)@ == old(popups)@ || (final(popups)@ is None && old(popups)@ is Some && old(popups)@.unwrap().timeout_ms is Some)
                &&& r.0 == (final(popups)@ != old(popups)@)
                &&& r.0 ==> same_but_popup(*final(state), *old(state)) && final(state).ui.popup is None
                &&& !r.0 ==> *final(state) == *old(state)
            },
            AppEvent::Ipc(msg) => match msg {
                IpcMessage::Popup { name, output, keep } => {
                    let target = match output {
                        Some(o) => Some(o@),
                        None => focused_output_name(old(state).desktop.outputs@),
                    };
                    &&& r.1 == Effect::Nothing
                    &&& r.0 == target is Some
                    &&& same_but_popup(*final(state), *old(state))
                    &&& target is Some ==> popup_shown(
                        final(popups)@,
                        name@,
                        target.unwrap(),
                        if keep {
                            None
                        } else {
                            Some(config.popups.timeout_ms)
                        },
                    ) && popup_opt_view(final(state).ui.popup) == final(popups)@
                    &&& target is None ==> *final(state) == *old(state) && final(popups)@ == old(popups)@
                },
                IpcMessage::ClosePopup => {
                    &&& r == (true, Effect::Nothing)
                    &&& final(popups)@ is None
                    &&& final(state).ui.popup is None
                    &&& same_but_popup(*final(state), *old(state))
                },
                IpcMessage::GetState => {
                    &&& r == (false, Effect::Nothing)
                    &&& *final(state) == *old(state)
                    &&& final(popups)@ == old(popups)@
                },
                IpcMessage::Volume(a) => {
                    &&& r == (false, Effect::Volume(a))
                    &&& *final(state) == *old(state)
                    &&& final(popups)@ == old(popups)@
                },
                IpcMessage::Brightness(a) => {
                    &&& r == (false, Effect::Brightness(a))
                    &&& *final(state) == *old(state)
                    &&& final(popups)@ == old(popups)@
                },
            },
        },
{
    match event {
        AppEvent::BatteryChanged(bat) => {
            if !state.system.battery.same_as(&bat) {
                state.system.battery = bat;
                return (true, Effect::Nothing);
            }
        },
        AppEvent::NetworkChanged(net) => {
            if !state.system.network.same_as(&net) {
                state.system.network = net;
                return (true, Effect::Nothing);
            }
        },
        AppEvent::AudioChanged(audio) => {
            if state.system.audio != audio {
                state.system.audio = audio;
                trigger_popup("volume", state, popups, config);
                return (true, Effect::Nothing);
            }
        },
        AppEvent::BrightnessChanged(b) => {
            if !state.system.brightness.same_as(&b) {
                state.system.brightness = b;
                trigger_popup("brightness", state, popups, config);
                return (true, Effect::Nothing);
            }
        },
        AppEvent::NiriEvent => {
            return (false, Effect::FetchDesktop);
        },
        AppEvent::PopupTick => {
            let before = popups.get_state();
            popups.check_timeouts();
            let after = popups.get_state();
            if !popup_opt_eq(&before, &after) {
                state.ui.popup = after;
                return (true, Effect::Nothing);
            }
        },
        AppEvent::Ipc(msg) => match msg {
            IpcMessage::Popup { name, output, keep } => {
                let target = match output {
                    Some(o) => Some(o),
                    None => focused_output(state),
                };
                let output = match target {
                    Some(o) => o,
                    None => {
                        return (false, Effect::Nothing);
                    },
                };
                let timeout_ms = if keep {
                    None
                } else {
                    Some(config.popups.timeout_ms)
                };
                popups.handle_action(PopupAction::Open { name, output, timeout_ms });
                state.ui.popup = popups.get_state();
                return (true, Effect::Nothing);
            },
            IpcMessage::ClosePopup => {
                popups.handle_action(PopupAction::Close);
                state.ui.popup = popups.get_state();
                return (true, Effect::Nothing);
            },
            IpcMessage::Volume(action) => {
                return (false, Effect::Volume(action));
            },
            IpcMessage::Brightness(action) => {
                return (false, Effect::Brightness(action));
            },
            IpcMessage::GetState => {},
        },
    }
    (false, Effect::Nothing)
}

} // verus!
