use vstd::prelude::*;
use vstd::string::*;
use crate::i18n::{CopyDestination, InputMode};
use crate::render_status::{
    active_tab, first_active, lemma_first_active_bound, permission_pending_text, render_permission_pending,
    render_status_bar, status_bar, StatusNotice,
};
use crate::render_tab::{render_tab_bar, tab_bar, TabView};
use crate::strings::same_text;
use crate::style::{opaque_line, LineView};

verus! {

/// Which bar a plugin instance draws.
#[derive(Debug, Clone, Copy, PartialEq, Eq, Structural)]
pub enum BarKind {
    Tab,
    Status,
}

impl Default for BarKind {
    fn default() -> (r: Self)
        ensures
            r == BarKind::Status,
    {
        BarKind::Status
    }
}

/// What the plugin keeps of Zellij's mode information.
#[derive(Debug, Clone)]
pub struct ModeSnapshot {
    pub mode: InputMode,
    pub session_name: Option<String>,
}

/// What the plugin reads of one of Zellij's tabs.
#[derive(Debug, Clone)]
pub struct TabSnapshot {
    pub position: usize,
    pub name: String,
    pub active: bool,
    pub selectable_tiled_panes_count: usize,
    pub selectable_floating_panes_count: usize,
}

/// The host events that the plugin subscribes to; `Other` stands for any other one.
#[derive(Debug, Clone)]
pub enum PluginEvent {
    PermissionGranted,
    PermissionDenied,
    ModeUpdate(ModeSnapshot),
    TabUpdate(Vec<TabSnapshot>),
    CopyToClipboard(CopyDestination),
    SystemClipboardFailure,
    InputReceived,
    PaneUpdate,
    Other,
}

/// The plugin's state between events.
#[derive(Debug, Clone)]
pub struct PluginState {
    pub bar: BarKind,
    pub mode_info: Option<ModeSnapshot>,
    pub tabs: Vec<TabView>,
    pub notice: Option<StatusNotice>,
    pub permission_granted: bool,
}

/// The bar that the `bar` setting asks for: the tab bar for `"tab"`, else the status bar.
pub open spec fn bar_for_setting(setting: Option<Seq<char>>) -> BarKind {
    if setting == Some("tab"@) {
        BarKind::Tab
    } else {
        BarKind::Status
    }
}

/// A tab as the bars show it: its panes are its tiled and floating selectable panes.
pub open spec fn tab_from_snapshot(v: TabView, s: TabSnapshot) -> bool {
    &&& v.position == s.position
    &&& v.name@ == s.name@
    &&& v.active == s.active
    &&& v.pane_count == s.selectable_tiled_panes_count + s.selectable_floating_panes_count
}

/// The pane counts of every tab fit a `usize`.
pub open spec fn pane_counts_fit(tabs: Seq<TabSnapshot>) -> bool {
    forall|i: int|
        0 <= i < tabs.len() ==> (#[trigger] tabs[i]).selectable_tiled_panes_count
            + tabs[i].selectable_floating_panes_count <= usize::MAX
}

pub open spec fn session_of(mode_info: Option<ModeSnapshot>) -> Option<Seq<char>> {
    match mode_info {
        Some(m) => match m.session_name {
            Some(s) => Some(s@),
            None => None,
        },
        None => None,
    }
}

pub open spec fn mode_of(mode_info: Option<ModeSnapshot>) -> InputMode {
    match mode_info {
        Some(m) => m.mode,
        None => InputMode::Normal,
    }
}

pub open spec fn active_tab_of(tabs: Seq<TabView>) -> Option<TabView> {
    if first_active(tabs) < tabs.len() {
        Some(tabs[first_active(tabs) as int])
    } else {
        None
    }
}

/// What the plugin draws in `rows` rows of `cols` columns.
pub open spec fn plugin_view(
    bar: BarKind,
    mode_info: Option<ModeSnapshot>,
    tabs: Seq<TabView>,
    notice: Option<StatusNotice>,
    permission_granted: bool,
    rows: usize,
    cols: usize,
) -> Seq<char> {
    match bar {
        BarKind::Tab => tab_bar(session_of(mode_info), tabs, cols),
        BarKind::Status => if !permission_granted && mode_info is None {
            opaque_line(LineView { content: permission_pending_text(), ranges: Seq::empty() }, cols, 0)
        } else {
            status_bar(mode_of(mode_info), active_tab_of(tabs), notice, rows, cols)
        },
    }
}

/// Whether the plugin may read the application state after `event`.
pub open spec fn permission_after(granted: bool, event: PluginEvent) -> bool {
    match event {
        PluginEvent::PermissionGranted => true,
        PluginEvent::PermissionDenied => false,
        _ => granted,
    }
}

/// The mode information after `event`.
pub open spec fn mode_after(mode_info: Option<ModeSnapshot>, event: PluginEvent) -> Option<ModeSnapshot> {
    match event {
        PluginEvent::ModeUpdate(m) => Some(m),
        _ => mode_info,
    }
}

/// The notice after `event`: a copy or a clipboard failure sets it, the next input
/// clears it.
pub open spec fn notice_after(notice: Option<StatusNotice>, event: PluginEvent) -> Option<StatusNotice> {
    match event {
        PluginEvent::CopyToClipboard(destination) => Some(StatusNotice::Copied(destination)),
        PluginEvent::SystemClipboardFailure => Some(StatusNotice::ClipboardError),
        PluginEvent::InputReceived => None,
        _ => notice,
    }
}

/// Whether `event` asks for a redraw: every handled event does, except an input that
/// finds no notice to clear.
pub open spec fn redraws(notice: Option<StatusNotice>, event: PluginEvent) -> bool {
    match event {
        PluginEvent::InputReceived => notice is Some,
        PluginEvent::Other => false,
        _ => true,
    }
}

/// Notice law: a notice lasts until the next input, which clears it and asks for a
/// redraw; a second input then finds nothing to clear and asks for none.
pub proof fn law_input_clears_notice(notice: Option<StatusNotice>, event: PluginEvent)
    ensures
        notice_after(notice, PluginEvent::InputReceived) is None,
        redraws(notice_after(notice, PluginEvent::InputReceived), PluginEvent::InputReceived)
            == false,
        (event is CopyToClipboard || event is SystemClipboardFailure) ==> {
            &&& notice_after(notice, event) is Some
            &&& redraws(notice_after(notice, event), PluginEvent::InputReceived)
        },
{
}

/// Permission law: only the permission answers change the permission, and the latest
/// answer wins.
pub proof fn law_latest_permission_answer_wins(granted: bool, event: PluginEvent)
    ensures
        permission_after(permission_after(granted, event), PluginEvent::PermissionGranted),
        !permission_after(permission_after(granted, event), PluginEvent::PermissionDenied),
        !(event is PermissionGranted || event is PermissionDenied) ==> permission_after(
            granted,
            event,
        ) == granted,
{
}

/// The bar that the `bar` setting asks for.
pub fn bar_kind_from_setting(setting: Option<&str>) -> (bar: BarKind)
    ensures
        bar == bar_for_setting(
            match setting {
                Some(s) => Some(s@),
                None => None,
            },
        ),
{
    match setting {
        Some(value) => {
            proof {
                reveal_strlit("tab");
            }
            if same_text(value, "tab") {
                BarKind::Tab
            } else {
                BarKind::Status
            }
        },
        None => BarKind::Status,
    }
}

/// The tabs as the bars show them.
pub fn tabs_from_snapshots(snapshots: Vec<TabSnapshot>) -> (tabs: Vec<TabView>)
    requires
        pane_counts_fit(snapshots@),
    ensures
        tabs@.len() == snapshots@.len(),
        forall|i: int| 0 <= i < tabs@.len() ==> tab_from_snapshot(#[trigger] tabs@[i], snapshots@[i]),
{
    let mut tabs: Vec<TabView> = Vec::new();
    let n = snapshots.len();
    let mut i: usize = 0;
    while i < n
        invariant
            n == snapshots@.len(),
            i <= n,
            tabs@.len() == i,
            pane_counts_fit(snapshots@),
            forall|k: int| 0 <= k < i ==> tab_from_snapshot(#[trigger] tabs@[k], snapshots@[k]),
        decreases n - i,
    {
        let snapshot = &snapshots[i];
        let pane_count = snapshot.selectable_tiled_panes_count
            + snapshot.selectable_floating_panes_count;
        tabs.push(
            TabView {
                position: snapshot.position,
                name: snapshot.name.clone(),
                active: snapshot.active,
                pane_count,
            },
        );
        i = i + 1;
    }
    tabs
}

impl PluginState {
    /// The state before any event: status bar, nothing known, no permission.
    pub fn new() -> (s: Self)
        ensures
            s.bar == BarKind::Status,
            s.mode_info is None,
            s.tabs@.len() == 0,
            s.notice is None,
            !s.permission_granted,
    {
        PluginState {
            bar: BarKind::Status,
            mode_info: None,
            tabs: Vec::new(),
            notice: None,
            permission_granted: false,
        }
    }

    /// Applies the plugin's `bar` setting.
    pub fn load(&mut self, bar_setting: Option<&str>)
        ensures
            final(self).bar == bar_for_setting(
                match bar_setting {
                    Some(s) => Some(s@),
                    None => None,
                },
            ),
            final(self).mode_info == old(self).mode_info,
            final(self).tabs@ == old(self).tabs@,
            final(self).notice == old(self).notice,
            final(self).permission_granted == old(self).permission_granted,
    {
        self.bar = bar_kind_from_setting(bar_setting);
    }

    /// Takes in a host event; returns whether the bar must be drawn again.
    pub fn update(&mut self, event: PluginEvent) -> (redraw: bool)
        requires
            event matches PluginEvent::TabUpdate(tabs) ==> pane_counts_fit(tabs@),
        ensures
            final(self).bar == old(self).bar,
            final(self).permission_granted == permission_after(
                old(self).permission_granted,
                event,
            ),
            final(self).mode_info == mode_after(old(self).mode_info, event),
            final(self).notice == notice_after(old(self).notice, event),
            match event {
                PluginEvent::TabUpdate(tabs) => {
                    &&& final(self).tabs@.len() == tabs@.len()
                    &&& forall|i: int|
                        0 <= i < tabs@.len() ==> tab_from_snapshot(
                            #[trigger] final(self).tabs@[i],
                            tabs@[i],
                        )
                },
                _ => final(self).tabs@ == old(self).tabs@,
            },
            redraw == redraws(old(self).notice, event),
    {
        match event {
            PluginEvent::PermissionGranted => {
                self.permission_granted = true;
                true
            },
            PluginEvent::PermissionDenied => {
                self.permission_granted = false;
                true
            },
            PluginEvent::ModeUpdate(mode_info) => {
                self.mode_info = Some(mode_info);
                true
            },
            PluginEvent::TabUpdate(tabs) => {
                self.tabs = tabs_from_snapshots(tabs);
                true
            },
            PluginEvent::CopyToClipboard(destination) => {
                self.notice = Some(StatusNotice::Copied(destination));
                true
            },
            PluginEvent::SystemClipboardFailure => {
                self.notice = Some(StatusNotice::ClipboardError);
                true
            },
            PluginEvent::InputReceived => {
                if self.notice.is_some() {
                    self.notice = None;
                    return true;
                }
                false
            },
            PluginEvent::PaneUpdate => true,
            PluginEvent::Other => false,
        }
    }

    /// What the plugin draws in `rows` rows of `cols` columns.
    pub fn render(&self, rows: usize, cols: usize) -> (out: String)
        ensures
            out@ == plugin_view(
                self.bar,
                self.mode_info,
                self.tabs@,
                self.notice,
                self.permission_granted,
                rows,
                cols,
            ),
    {
        match self.bar {
            BarKind::Tab => {
                let session_name: Option<&str> = match &self.mode_info {
                    Some(mode_info) => match &mode_info.session_name {
                        Some(name) => Some(name.as_str()),
                        None => None,
                    },
                    None => None,
                };
                render_tab_bar(session_name, self.tabs.as_slice(), cols)
            },
            BarKind::Status => {
                if !self.permission_granted && self.mode_info.is_none() {
                    return render_permission_pending(cols);
                }
                let mode = match &self.mode_info {
                    Some(mode_info) => mode_info.mode,
                    None => InputMode::Normal,
                };
                render_status_bar(mode, active_tab(self.tabs.as_slice()), self.notice, rows, cols)
            },
        }
    }
}

/// Redraw law: an event for which the plugin asks no redraw changes nothing that a bar
/// shows (permission, mode, tabs, notice); so every event that changes one of them, a
/// mode update among them, asks for a redraw.
pub proof fn law_unseen_events_change_nothing(
    granted: bool,
    mode_info: Option<ModeSnapshot>,
    notice: Option<StatusNotice>,
    event: PluginEvent,
)
    ensures
        !redraws(notice, event) ==> {
            &&& permission_after(granted, event) == granted
            &&& mode_after(mode_info, event) == mode_info
            &&& notice_after(notice, event) == notice
            &&& !(event is TabUpdate)
        },
        event is ModeUpdate || event is TabUpdate || event is PermissionGranted
            || event is PermissionDenied || event is CopyToClipboard
            || event is SystemClipboardFailure ==> redraws(notice, event),
{
    match event {
        PluginEvent::ModeUpdate(m) => {
            assert(mode_after(mode_info, event) == Some(m));
        },
        _ => {},
    }
}

/// Status-view law: once the status bar is drawn (permission granted or mode known), it
/// is the status bar of the known mode (`普通` when none) for the first active tab, or
/// for no tab when none is active.
pub proof fn law_status_view_shows_first_active_tab(
    mode_info: Option<ModeSnapshot>,
    tabs: Seq<TabView>,
    notice: Option<StatusNotice>,
    granted: bool,
    rows: usize,
    cols: usize,
)
    requires
        granted || mode_info is Some,
    ensures
        ({
            let mode = match mode_info {
                Some(m) => m.mode,
                None => InputMode::Normal,
            };
            let view = plugin_view(BarKind::Status, mode_info, tabs, notice, granted, rows, cols);
            &&& forall|i: int|
                0 <= i < tabs.len() && (#[trigger] tabs[i]).active && (forall|j: int|
                    0 <= j < i ==> !tabs[j].active) ==> view == status_bar(
                    mode,
                    Some(tabs[i]),
                    notice,
                    rows,
                    cols,
                )
            &&& (forall|j: int| 0 <= j < tabs.len() ==> !(#[trigger] tabs[j]).active) ==> view
                == status_bar(mode, None, notice, rows, cols)
        }),
{
    lemma_first_active_bound(tabs);
    let f = first_active(tabs);
    assert forall|i: int|
        0 <= i < tabs.len() && (#[trigger] tabs[i]).active && (forall|j: int|
            0 <= j < i ==> !tabs[j].active) implies f == i by {
        if f < i {
            assert(!tabs[f as int].active);
        }
    }
    if forall|j: int| 0 <= j < tabs.len() ==> !(#[trigger] tabs[j]).active {
        if f < tabs.len() {
            assert(tabs[f as int].active);
        }
    }
}

} // verus!
