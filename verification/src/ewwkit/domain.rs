//! The state the bar displays, with an abstract view of each type and
//! equality tests that compare values by those views.

use vstd::prelude::*;

verus! {

/// Battery level, charging status and the glyph that shows it.
#[derive(Debug, Default, PartialEq)]
pub struct BatteryState {
    pub level: u8,
    pub status: String,
    pub icon: String,
}

/// The Wi-Fi network in use, its signal strength and glyph.
#[derive(Debug, Default, PartialEq)]
pub struct NetworkState {
    pub wifi_ssid: String,
    pub signal: u8,
    pub icon: String,
}

/// Output volume in percent and the mute switch.
#[derive(Debug, Clone, Copy, Default, PartialEq, Eq, Structural)]
pub struct AudioState {
    pub volume: u8,
    pub muted: bool,
}

/// Screen brightness in percent and its glyph.
#[derive(Debug, Default, PartialEq)]
pub struct BrightnessState {
    pub level: u8,
    pub icon: String,
}

/// Everything the bar shows about the machine.
#[derive(Debug, Default, PartialEq)]
pub struct SystemMetrics {
    pub battery: BatteryState,
    pub network: NetworkState,
    pub audio: AudioState,
    pub brightness: BrightnessState,
}

/// A window as the compositor reports it.
#[derive(Debug, Default, PartialEq)]
pub struct Window {
    pub id: u64,
    pub title: String,
    pub app_id: Option<String>,
    pub is_focused: bool,
    pub app_icon: String,
}

/// A workspace, its position on its output, and its windows in layout order.
#[derive(Debug, Default, PartialEq)]
pub struct Workspace {
    pub id: u64,
    pub idx: u32,
    pub name: Option<String>,
    pub active: bool,
    pub windows: Vec<Window>,
}

/// A monitor and its workspaces.
#[derive(Debug, Default, PartialEq)]
pub struct Output {
    pub name: String,
    pub workspaces: Vec<Workspace>,
}

/// All outputs of the desktop.
#[derive(Debug, Default, PartialEq)]
pub struct DesktopState {
    pub outputs: Vec<Output>,
}

/// A request to the bar's widgets about one window.
#[derive(Debug, Clone, PartialEq)]
pub enum PresentationAction {
    Open(String),
    Close(String),
    Toggle(String),
}

/// The popup currently shown, as the bar's widgets read it.
#[derive(Debug, Default, PartialEq)]
pub struct PopupState {
    pub name: String,
    pub output: String,
    /// Milliseconds since the Unix epoch when the popup opened.
    pub opened_at: u64,
    /// Auto-dismiss delay in milliseconds; `None` keeps the popup open.
    pub timeout_ms: Option<u64>,
}

/// State of the bar's own widgets.
#[derive(Debug, Default, PartialEq)]
pub struct UiState {
    pub popup: Option<PopupState>,
}

/// The whole state the bar renders.
#[derive(Debug, Default, PartialEq)]
pub struct SystemState {
    pub system: SystemMetrics,
    pub desktop: DesktopState,
    pub ui: UiState,
}

// ─── Views ───────────────────────────────────────────────────────────────────

pub struct BatteryView {
    pub level: u8,
    pub status: Seq<char>,
    pub icon: Seq<char>,
}

pub struct NetworkView {
    pub wifi_ssid: Seq<char>,
    pub signal: u8,
    pub icon: Seq<char>,
}

pub struct BrightnessView {
    pub level: u8,
    pub icon: Seq<char>,
}

pub struct WindowView {
    pub id: u64,
    pub title: Seq<char>,
    pub app_id: Option<Seq<char>>,
    pub is_focused: bool,
    pub app_icon: Seq<char>,
}

pub struct WorkspaceView {
    pub id: u64,
    pub idx: u32,
    pub name: Option<Seq<char>>,
    pub active: bool,
    pub windows: Seq<WindowView>,
}

pub struct OutputView {
    pub name: Seq<char>,
    pub workspaces: Seq<WorkspaceView>,
}

pub struct PopupView {
    pub name: Seq<char>,
    pub output: Seq<char>,
    pub opened_at: u64,
    pub timeout_ms: Option<u64>,
}

/// The characters of an optional string.
pub open spec fn opt_str_view(o: Option<String>) -> Option<Seq<char>> {
    match o {
        Some(s) => Some(s@),
        None => None,
    }
}

impl View for BatteryState {
    type V = BatteryView;

    open spec fn view(&self) -> BatteryView {
        BatteryView { level: self.level, status: self.status@, icon: self.icon@ }
    }
}

impl View for NetworkState {
    type V = NetworkView;

    open spec fn view(&self) -> NetworkView {
        NetworkView { wifi_ssid: self.wifi_ssid@, signal: self.signal, icon: self.icon@ }
    }
}

impl View for BrightnessState {
    type V = BrightnessView;

    open spec fn view(&self) -> BrightnessView {
        BrightnessView { level: self.level, icon: self.icon@ }
    }
}

impl View for Window {
    type V = WindowView;

    open spec fn view(&self) -> WindowView {
        WindowView {
            id: self.id,
            title: self.title@,
            app_id: opt_str_view(self.app_id),
            is_focused: self.is_focused,
            app_icon: self.app_icon@,
        }
    }
}

/// The views of a sequence of windows.
pub open spec fn windows_view(ws: Seq<Window>) -> Seq<WindowView> {
    ws.map_values(|w: Window| w@)
}

impl View for Workspace {
    type V = WorkspaceView;

    open spec fn view(&self) -> WorkspaceView {
        WorkspaceView {
            id: self.id,
            idx: self.idx,
            name: opt_str_view(self.name),
            active: self.active,
            windows: windows_view(self.windows@),
        }
    }
}

/// The views of a sequence of workspaces.
pub open spec fn workspaces_view(ws: Seq<Workspace>) -> Seq<WorkspaceView> {
    ws.map_values(|w: Workspace| w@)
}

impl View for Output {
    type V = OutputView;

    open spec fn view(&self) -> OutputView {
        OutputView { name: self.name@, workspaces: workspaces_view(self.workspaces@) }
    }
}

/// The views of a sequence of outputs.
pub open spec fn outputs_view(os: Seq<Output>) -> Seq<OutputView> {
    os.map_values(|o: Output| o@)
}

impl View for DesktopState {
    type V = Seq<OutputView>;

    open spec fn view(&self) -> Seq<OutputView> {
        outputs_view(self.outputs@)
    }
}

impl View for PopupState {
    type V = PopupView;

    open spec fn view(&self) -> PopupView {
        PopupView {
            name: self.name@,
            output: self.output@,
            opened_at: self.opened_at,
            timeout_ms: self.timeout_ms,
        }
    }
}

/// The view of an optional popup.
pub open spec fn popup_opt_view(p: Option<PopupState>) -> Option<PopupView> {
    match p {
        Some(p) => Some(p@),
        None => None,
    }
}

// ─── Equality by view ────────────────────────────────────────────────────────

fn string_eq(a: &String, b: &String) -> (r: bool)
    ensures
        r == (a@ == b@),
{
    *a == *b
}

fn opt_string_eq(a: &Option<String>, b: &Option<String>) -> (r: bool)
    ensures
        r == (opt_str_view(*a) == opt_str_view(*b)),
{
    match (a, b) {
        (Some(x), Some(y)) => string_eq(x, y),
        (None, None) => true,
        _ => false,
    }
}

impl BatteryState {
    /// Whether two battery states show the same thing.
    pub fn same_as(&self, other: &BatteryState) -> (r: bool)
        ensures
            r == (self@ == other@),
    {
        self.level == other.level && string_eq(&self.status, &other.status) && string_eq(
            &self.icon,
            &other.icon,
        )
    }

    /// A copy with the same contents.
    pub fn copy(&self) -> (r: BatteryState)
        ensures
            r@ == self@,
    {
        BatteryState { level: self.level, status: self.status.clone(), icon: self.icon.clone() }
    }
}

impl NetworkState {
    /// Whether two network states show the same thing.
    pub fn same_as(&self, other: &NetworkState) -> (r: bool)
        ensures
            r == (self@ == other@),
    {
        self.signal == other.signal && string_eq(&self.wifi_ssid, &other.wifi_ssid) && string_eq(
            &self.icon,
            &other.icon,
        )
    }
}

impl BrightnessState {
    /// Whether two brightness states show the same thing.
    pub fn same_as(&self, other: &BrightnessState) -> (r: bool)
        ensures
            r == (self@ == other@),
    {
        self.level == other.level && string_eq(&self.icon, &other.icon)
    }
}

impl Window {
    /// Whether two windows are described identically.
    pub fn same_as(&self, other: &Window) -> (r: bool)
        ensures
            r == (self@ == other@),
    {
        self.id == other.id && string_eq(&self.title, &other.title) && opt_string_eq(
            &self.app_id,
            &other.app_id,
        ) && self.is_focused == other.is_focused && string_eq(&self.app_icon, &other.app_icon)
    }

    /// A copy with the same contents.
    pub fn copy(&self) -> (r: Window)
        ensures
            r@ == self@,
    {
        let app_id = match &self.app_id {
            Some(s) => Some(s.clone()),
            None => None,
        };
        Window {
            id: self.id,
            title: self.title.clone(),
            app_id,
            is_focused: self.is_focused,
            app_icon: self.app_icon.clone(),
        }
    }
}

fn windows_eq(a: &Vec<Window>, b: &Vec<Window>) -> (r: bool)
    ensures
        r == (windows_view(a@) == windows_view(b@)),
{
    if a.len() != b.len() {
        assert(windows_view(a@).len() != windows_view(b@).len());
        return false;
    }
    let mut i: usize = 0;
    while i < a.len()
        invariant
            a@.len() == b@.len(),
            i <= a@.len(),
            forall|j: int| 0 <= j < i ==> a@[j]@ == b@[j]@,
        decreases a@.len() - i,
    {
        if !a[i].same_as(&b[i]) {
            assert(windows_view(a@)[i as int] != windows_view(b@)[i as int]);
            return false;
        }
        i = i + 1;
    }
    assert(windows_view(a@) =~= windows_view(b@));
    true
}

impl Workspace {
    /// Whether two workspaces are described identically.
    pub fn same_as(&self, other: &Workspace) -> (r: bool)
        ensures
            r == (self@ == other@),
    {
        self.id == other.id && self.idx == other.idx && opt_string_eq(&self.name, &other.name)
            && self.active == other.active && windows_eq(&self.windows, &other.windows)
    }
}

fn workspaces_eq(a: &Vec<Workspace>, b: &Vec<Workspace>) -> (r: bool)
    ensures
        r == (workspaces_view(a@) == workspaces_view(b@)),
{
    if a.len() != b.len() {
        assert(workspaces_view(a@).len() != workspaces_view(b@).len());
        return false;
    }
    let mut i: usize = 0;
    while i < a.len()
        invariant
            a@.len() == b@.len(),
            i <= a@.len(),
            forall|j: int| 0 <= j < i ==> a@[j]@ == b@[j]@,
        decreases a@.len() - i,
    {
        if !a[i].same_as(&b[i]) {
            assert(workspaces_view(a@)[i as int] != workspaces_view(b@)[i as int]);
            return false;
        }
        i = i + 1;
    }
    assert(workspaces_view(a@) =~= workspaces_view(b@));
    true
}

impl Output {
    /// Whether two outputs are described identically.
    pub fn same_as(&self, other: &Output) -> (r: bool)
        ensures
            r == (self@ == other@),
    {
        string_eq(&self.name, &other.name) && workspaces_eq(&self.workspaces, &other.workspaces)
    }
}

/// Whether two lists of outputs are described identically.
pub fn outputs_eq(a: &Vec<Output>, b: &Vec<Output>) -> (r: bool)
    ensures
        r == (outputs_view(a@) == outputs_view(b@)),
{
    if a.len() != b.len() {
        assert(outputs_view(a@).len() != outputs_view(b@).len());
        return false;
    }
    let mut i: usize = 0;
    while i < a.len()
        invariant
            a@.len() == b@.len(),
            i <= a@.len(),
            forall|j: int| 0 <= j < i ==> a@[j]@ == b@[j]@,
        decreases a@.len() - i,
    {
        if !a[i].same_as(&b[i]) {
            assert(outputs_view(a@)[i as int] != outputs_view(b@)[i as int]);
            return false;
        }
        i = i + 1;
    }
    assert(outputs_view(a@) =~= outputs_view(b@));
    true
}

/// Whether two optional popups are described identically.
pub fn popup_opt_eq(a: &Option<PopupState>, b: &Option<PopupState>) -> (r: bool)
    ensures
        r == (popup_opt_view(*a) == popup_opt_view(*b)),
{
    match (a, b) {
        (Some(x), Some(y)) => string_eq(&x.name, &y.name) && string_eq(&x.output, &y.output)
            && x.opened_at == y.opened_at && x.timeout_ms == y.timeout_ms,
        (None, None) => true,
        _ => false,
    }
}

// ─── Builders for fixtures ───────────────────────────────────────────────────

/// A window with focus and every other field empty.
pub fn focused_window() -> (w: Window)
    ensures
        w.is_focused,
        w.id == 0,
        w.title@ == Seq::<char>::empty(),
        w.app_id is None,
        w.app_icon@ == Seq::<char>::empty(),
{
    Window {
        id: 0,
        title: String::new(),
        app_id: None,
        is_focused: true,
        app_icon: String::new(),
    }
}

/// A window without focus and every other field empty.
pub fn unfocused_window() -> (w: Window)
    ensures
        !w.is_focused,
        w.id == 0,
        w.title@ == Seq::<char>::empty(),
        w.app_id is None,
        w.app_icon@ == Seq::<char>::empty(),
{
    Window {
        id: 0,
        title: String::new(),
        app_id: None,
        is_focused: false,
        app_icon: String::new(),
    }
}

/// A workspace holding `windows` with every other field at its default.
pub fn workspace_with(windows: Vec<Window>) -> (w: Workspace)
    ensures
        w.windows == windows,
        w.id == 0,
        w.idx == 0,
        w.name is None,
        !w.active,
{
    Workspace { id: 0, idx: 0, name: None, active: false, windows }
}

/// An output holding `workspaces`, with an empty name.
pub fn output_with(workspaces: Vec<Workspace>) -> (o: Output)
    ensures
        o.workspaces == workspaces,
        o.name@ == Seq::<char>::empty(),
{
    Output { name: String::new(), workspaces }
}

} // verus!
