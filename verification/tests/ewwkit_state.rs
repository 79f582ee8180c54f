use appkit::ewwkit::application::{apply_desktop, focused_output, handle_event, AppEvent, Effect};
use appkit::ewwkit::domain::{
    focused_window, output_with, unfocused_window, workspace_with, AudioState, BatteryState,
    DesktopState, Output, SystemState, Window, Workspace,
};
use appkit::ewwkit::icon_resolver::{desktop_entry_icon, desktop_files, DesktopIcon, IconResolver, IconStep};
use appkit::ewwkit::ipc::{
    action_message, config_files, ActionCommands, AppConfig, BrightnessAction, BrightnessCommands,
    IpcMessage, VolumeAction, VolumeCommands,
};
use appkit::ewwkit::niri::{build_desktop, choose_socket_path, NiriAdapter, WindowInfo, WorkspaceInfo};
use appkit::ewwkit::popup::{PopupAction, PopupManager};
use appkit::ewwkit::report::desktop_report;

fn open(name: &str, output: &str, timeout_ms: Option<u64>) -> PopupAction {
    PopupAction::Open { name: name.to_string(), output: output.to_string(), timeout_ms }
}

// ── popups ──────────────────────────────────────────────────────────────────

#[test]
fn new_manager_has_no_state() {
    assert!(PopupManager::new().get_state().is_none());
}

#[test]
fn open_sets_name_output_and_timeout() {
    let mut pm = PopupManager::new();
    pm.handle_action(open("volume", "HDMI-1", Some(3000)));
    let s = pm.get_state().expect("popup must be set");
    assert_eq!(s.name, "volume");
    assert_eq!(s.output, "HDMI-1");
    assert_eq!(s.timeout_ms, Some(3000));
}

#[test]
fn open_without_timeout_has_no_timeout_ms() {
    let mut pm = PopupManager::new();
    pm.handle_action(open("dashboard", "DP-1", None));
    assert_eq!(pm.get_state().unwrap().timeout_ms, None);
}

#[test]
fn open_replaces_existing_popup() {
    let mut pm = PopupManager::new();
    pm.handle_action(open("volume", "HDMI-1", None));
    pm.handle_action(open("brightness", "DP-1", None));
    let s = pm.get_state().unwrap();
    assert_eq!(s.name, "brightness");
    assert_eq!(s.output, "DP-1");
}

#[test]
fn close_clears_state() {
    let mut pm = PopupManager::new();
    pm.handle_action(open("volume", "HDMI-1", None));
    pm.handle_action(PopupAction::Close);
    assert!(pm.get_state().is_none());
}

#[test]
fn close_on_empty_manager_is_a_noop() {
    let mut pm = PopupManager::new();
    pm.handle_action(PopupAction::Close);
    assert!(pm.get_state().is_none());
}

#[test]
fn check_timeouts_closes_expired_popup() {
    let mut pm = PopupManager::new();
    pm.handle_action(open("volume", "HDMI-1", Some(0)));
    pm.check_timeouts();
    assert!(pm.get_state().is_none());
}

#[test]
fn check_timeouts_keeps_non_expired_popup() {
    let mut pm = PopupManager::new();
    pm.handle_action(open("volume", "HDMI-1", Some(60_000)));
    pm.check_timeouts();
    assert!(pm.get_state().is_some());
}

#[test]
fn check_timeouts_never_closes_infinite_popup() {
    let mut pm = PopupManager::new();
    pm.handle_action(open("dashboard", "HDMI-1", None));
    pm.check_timeouts();
    assert!(pm.get_state().is_some());
}

#[test]
fn expire_after_uses_elapsed_time() {
    let mut pm = PopupManager::new();
    pm.handle_action(open("volume", "HDMI-1", Some(3000)));
    pm.expire_after(2999);
    assert!(pm.get_state().is_some());
    pm.expire_after(3000);
    assert!(pm.get_state().is_none());
}

// ── focused output and events ───────────────────────────────────────────────

fn named_output(name: &str, workspaces: Vec<Workspace>) -> Output {
    let mut o = output_with(workspaces);
    o.name = name.to_string();
    o
}

fn state_with(outputs: Vec<Output>) -> SystemState {
    let mut s = SystemState::default();
    s.desktop = DesktopState { outputs };
    s
}

#[test]
fn focused_output_is_the_one_with_focus() {
    let s = state_with(vec![
        named_output("DP-1", vec![workspace_with(vec![unfocused_window()])]),
        named_output("HDMI-1", vec![workspace_with(vec![focused_window()])]),
    ]);
    assert_eq!(focused_output(&s).as_deref(), Some("HDMI-1"));
}

#[test]
fn focused_output_falls_back_to_first() {
    let s = state_with(vec![named_output("DP-1", vec![]), named_output("HDMI-1", vec![])]);
    assert_eq!(focused_output(&s).as_deref(), Some("DP-1"));
    assert_eq!(focused_output(&state_with(vec![])), None);
}

#[test]
fn audio_change_opens_volume_popup() {
    let mut s = state_with(vec![named_output("DP-1", vec![workspace_with(vec![focused_window()])])]);
    let mut pm = PopupManager::new();
    let cfg = AppConfig::defaults();
    let (changed, effect) = handle_event(AppEvent::AudioChanged(AudioState { volume: 40, muted: false }), &mut s, &mut pm, &cfg);
    assert!(changed);
    assert_eq!(effect, Effect::Nothing);
    let p = s.ui.popup.as_ref().unwrap();
    assert_eq!(p.name, "volume");
    assert_eq!(p.output, "DP-1");
    assert_eq!(p.timeout_ms, Some(3000));
    // The same reading again changes nothing.
    let (changed, _) = handle_event(AppEvent::AudioChanged(AudioState { volume: 40, muted: false }), &mut s, &mut pm, &cfg);
    assert!(!changed);
}

#[test]
fn battery_change_reports_change_once() {
    let mut s = SystemState::default();
    let mut pm = PopupManager::new();
    let cfg = AppConfig::defaults();
    let bat = || BatteryState { level: 50, status: "Discharging".into(), icon: String::new() };
    assert!(handle_event(AppEvent::BatteryChanged(bat()), &mut s, &mut pm, &cfg).0);
    assert!(!handle_event(AppEvent::BatteryChanged(bat()), &mut s, &mut pm, &cfg).0);
    assert!(s.ui.popup.is_none());
}

#[test]
fn ipc_requests_map_to_effects() {
    let mut s = SystemState::default();
    let mut pm = PopupManager::new();
    let cfg = AppConfig::defaults();
    let (changed, effect) = handle_event(AppEvent::Ipc(IpcMessage::Volume(VolumeAction::Mute)), &mut s, &mut pm, &cfg);
    assert!(!changed);
    assert_eq!(effect, Effect::Volume(VolumeAction::Mute));
    let (_, effect) = handle_event(AppEvent::NiriEvent, &mut s, &mut pm, &cfg);
    assert_eq!(effect, Effect::FetchDesktop);
    let (changed, _) = handle_event(
        AppEvent::Ipc(IpcMessage::Popup { name: "dash".into(), output: Some("DP-2".into()), keep: true }),
        &mut s,
        &mut pm,
        &cfg,
    );
    assert!(changed);
    assert_eq!(s.ui.popup.as_ref().unwrap().timeout_ms, None);
    let (changed, _) = handle_event(AppEvent::Ipc(IpcMessage::ClosePopup), &mut s, &mut pm, &cfg);
    assert!(changed);
    assert!(s.ui.popup.is_none());
}

#[test]
fn popup_request_without_output_needs_one() {
    let mut s = SystemState::default();
    let mut pm = PopupManager::new();
    let cfg = AppConfig::defaults();
    let (changed, _) = handle_event(
        AppEvent::Ipc(IpcMessage::Popup { name: "dash".into(), output: None, keep: false }),
        &mut s,
        &mut pm,
        &cfg,
    );
    assert!(!changed);
    assert!(pm.get_state().is_none());
}

#[test]
fn apply_desktop_reports_changes_only() {
    let mut s = SystemState::default();
    let d = || DesktopState { outputs: vec![named_output("DP-1", vec![])] };
    assert!(apply_desktop(&mut s, d()));
    assert!(!apply_desktop(&mut s, d()));
}

// ── IPC messages ────────────────────────────────────────────────────────────

#[test]
fn action_messages_fill_default_steps() {
    let cfg = AppConfig::defaults();
    match action_message(&cfg, ActionCommands::Volume { action: VolumeCommands::Up { step: None } }) {
        IpcMessage::Volume(VolumeAction::Up { step }) => assert_eq!(step, 5),
        other => panic!("unexpected {other:?}"),
    }
    match action_message(&cfg, ActionCommands::Brightness { action: BrightnessCommands::Down { step: Some(12) } }) {
        IpcMessage::Brightness(BrightnessAction::Down { step }) => assert_eq!(step, 12),
        other => panic!("unexpected {other:?}"),
    }
    assert!(matches!(action_message(&cfg, ActionCommands::ClosePopup), IpcMessage::ClosePopup));
    assert_eq!(config_files(None), vec!["config/default".to_string(), "config/development".to_string()]);
    assert_eq!(config_files(Some("prod".into()))[1], "config/prod");
}

// ── compositor ──────────────────────────────────────────────────────────────

fn win(id: u64, ws: u64, scroll: Option<(i64, i64)>, focused: bool) -> WindowInfo {
    let mut w = if focused { focused_window() } else { unfocused_window() };
    w.id = id;
    WindowInfo { window: w, workspace_id: ws, scroll_pos: scroll, tile_rank: None }
}

fn ws(id: u64, idx: u32, output: &str) -> WorkspaceInfo {
    WorkspaceInfo { id, idx, name: None, active: idx == 1, output: output.into() }
}

#[test]
fn desktop_groups_by_output_and_orders_windows() {
    let d = build_desktop(
        vec![ws(7, 2, "DP-1"), ws(3, 1, "DP-1"), ws(9, 1, "HDMI-1")],
        vec![win(1, 3, Some((2, 1)), false), win(2, 3, Some((1, 1)), true), win(3, 9, None, false)],
    );
    assert_eq!(d.outputs.len(), 2);
    assert_eq!(d.outputs[0].name, "DP-1");
    assert_eq!(d.outputs[1].name, "HDMI-1");
    let ids: Vec<u64> = d.outputs[0].workspaces.iter().map(|w| w.id).collect();
    assert_eq!(ids, vec![3, 7]);
    let wins: Vec<u64> = d.outputs[0].workspaces[0].windows.iter().map(|w| w.id).collect();
    assert_eq!(wins, vec![2, 1]);
    assert_eq!(d.outputs[1].workspaces[0].windows[0].id, 3);
}

#[test]
fn socket_path_choice() {
    let entries = vec!["wayland-1".to_string(), "niri.wayland-1.123.sock".to_string()];
    assert_eq!(choose_socket_path(&Some("/x.sock".into()), Some("/env.sock".into()), None, &entries), "/x.sock");
    assert_eq!(choose_socket_path(&None, Some("/env.sock".into()), None, &entries), "/env.sock");
    assert_eq!(
        choose_socket_path(&None, None, Some("/run/user/42".into()), &entries),
        "/run/user/42/niri.wayland-1.123.sock"
    );
    assert_eq!(choose_socket_path(&None, None, None, &vec![]), "/run/user/1000/niri-0");
    assert_eq!(NiriAdapter::request_payload("Windows"), "\"Windows\"\n");
}

#[test]
fn niri_adapter_remembers_icons() {
    let mut a = NiriAdapter::new(&None, None, None, &vec![], "ui/images/icons");
    assert_eq!(a.socket(), "/run/user/1000/niri-0");
    assert!(matches!(a.begin_icon(&Some("firefox".into())), IconStep::Search(ref id) if id == "firefox"));
    assert_eq!(a.finish_icon("firefox", Some("/icons/firefox.png".into())), "/icons/firefox.png");
    assert!(matches!(a.begin_icon(&Some("firefox".into())), IconStep::Ready(ref p) if p == "/icons/firefox.png"));
}

// ── icons ───────────────────────────────────────────────────────────────────

const MISSING: &str = "/usr/share/icons/hicolor/48x48/apps/icon-missing.png";

#[test]
fn icon_resolver_defaults_and_cache() {
    let mut r = IconResolver::new("ignored");
    assert!(matches!(r.begin(&None), IconStep::Ready(ref p) if p == MISSING));
    assert!(matches!(r.begin(&Some(String::new())), IconStep::Ready(ref p) if p == MISSING));
    assert!(matches!(r.begin(&Some("foot".into())), IconStep::Search(_)));
    assert_eq!(r.finish("foot", None), MISSING);
    assert!(matches!(r.begin(&Some("foot".into())), IconStep::Ready(ref p) if p == MISSING));
    assert_eq!(r.cached("foot").as_deref(), Some(MISSING));
    assert_eq!(r.cached("bar"), None);
}

#[test]
fn desktop_entries_and_icon_lines() {
    assert_eq!(
        desktop_files("/home/u", "org.gnome.Foo"),
        vec![
            "/usr/share/applications/org.gnome.Foo.desktop".to_string(),
            "/home/u/.local/share/applications/org.gnome.Foo.desktop".to_string()
        ]
    );
    let entry = "[Desktop Entry]\nName=Foo\nIcon= foo-icon \nIcon=second\n";
    assert!(matches!(desktop_entry_icon(entry), DesktopIcon::Name(ref n) if n == "foo-icon"));
    assert!(matches!(desktop_entry_icon("Icon=/opt/foo.png\n"), DesktopIcon::Path(ref p) if p == "/opt/foo.png"));
    assert!(matches!(desktop_entry_icon("Icon=a=b"), DesktopIcon::Name(ref n) if n == "a"));
    assert!(matches!(desktop_entry_icon("Name=Foo\n"), DesktopIcon::Absent));
}

// ── report ──────────────────────────────────────────────────────────────────

#[test]
fn desktop_report_format() {
    let mut w = Window::default();
    w.id = 12;
    w.title = "Terminal".into();
    w.app_id = Some("foot".into());
    w.is_focused = true;
    w.app_icon = "/i/foot.png".into();
    let mut space = workspace_with(vec![w, unfocused_window()]);
    space.id = 3;
    space.active = true;
    space.name = Some("web".into());
    let d = DesktopState { outputs: vec![named_output("DP-1", vec![space])] };
    assert_eq!(
        desktop_report(&d),
        "Output: DP-1\n  [x] 3 web:\n    [x] 12 foot\n      Terminal\n      /i/foot.png\n    [ ] 0 None\n      \n      \n"
    );
}

#[test]
fn desktop_shows_each_output_once_in_order() {
    let d = build_desktop(
        vec![ws(1, 2, "HDMI-A-1"), ws(2, 1, "eDP-1"), ws(3, 1, "HDMI-A-1"), ws(4, 3, "eDP-1"), ws(5, 2, "eDP-1")],
        vec![],
    );
    let names: Vec<&str> = d.outputs.iter().map(|o| o.name.as_str()).collect();
    assert_eq!(names, vec!["HDMI-A-1", "eDP-1"]);
    let idx: Vec<Vec<u32>> = d.outputs.iter().map(|o| o.workspaces.iter().map(|w| w.idx).collect()).collect();
    assert_eq!(idx, vec![vec![1, 2], vec![1, 2, 3]]);
    let ids: Vec<Vec<u64>> = d.outputs.iter().map(|o| o.workspaces.iter().map(|w| w.id).collect()).collect();
    assert_eq!(ids, vec![vec![3, 1], vec![2, 5, 4]]);
}
