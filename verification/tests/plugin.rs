use zellij_cn_ui::i18n::{CopyDestination, InputMode};
use zellij_cn_ui::plugin::{
    bar_kind_from_setting, BarKind, ModeSnapshot, PluginEvent, PluginState, TabSnapshot,
};
use zellij_cn_ui::render_status::StatusNotice;
use zellij_cn_ui::style::extract_ui_components_plain;

fn snapshot(position: usize, name: &str, active: bool) -> TabSnapshot {
    TabSnapshot {
        position,
        name: name.to_string(),
        active,
        selectable_tiled_panes_count: 2,
        selectable_floating_panes_count: 1,
    }
}

#[test]
fn bar_setting_selects_tab_bar() {
    assert_eq!(bar_kind_from_setting(Some("tab")), BarKind::Tab);
    assert_eq!(bar_kind_from_setting(Some("status")), BarKind::Status);
    assert_eq!(bar_kind_from_setting(None), BarKind::Status);
    assert_eq!(BarKind::default(), BarKind::Status);
}

#[test]
fn events_update_state() {
    let mut state = PluginState::new();
    state.load(Some("status"));
    assert!(state.update(PluginEvent::PermissionGranted));
    assert!(state.permission_granted);
    assert!(state.update(PluginEvent::TabUpdate(vec![snapshot(0, "编辑", true)])));
    assert_eq!(state.tabs[0].pane_count, 3);
    assert!(state.update(PluginEvent::CopyToClipboard(CopyDestination::Primary)));
    assert_eq!(state.notice, Some(StatusNotice::Copied(CopyDestination::Primary)));
    assert!(state.update(PluginEvent::InputReceived));
    assert_eq!(state.notice, None);
    assert!(!state.update(PluginEvent::InputReceived));
    assert!(state.update(PluginEvent::PaneUpdate));
    assert!(!state.update(PluginEvent::Other));
    assert!(state.update(PluginEvent::SystemClipboardFailure));
    assert_eq!(state.notice, Some(StatusNotice::ClipboardError));
    assert!(state.update(PluginEvent::PermissionDenied));
    assert!(!state.permission_granted);
}

#[test]
fn status_waits_for_permission() {
    let state = PluginState::new();
    let out = state.render(2, 80);
    assert!(extract_ui_components_plain(&out).contains("等待授权"));
}

#[test]
fn renders_selected_bar() {
    let mut state = PluginState::new();
    state.load(Some("tab"));
    state.update(PluginEvent::ModeUpdate(ModeSnapshot {
        mode: InputMode::Normal,
        session_name: Some("项目".to_string()),
    }));
    state.update(PluginEvent::TabUpdate(vec![snapshot(0, "编辑", true)]));
    let plain = extract_ui_components_plain(&state.render(1, 80));
    assert!(plain.contains("会话 项目"));
    assert!(plain.contains("● 1 编辑 · 3窗格"));

    let mut status = PluginState::new();
    status.update(PluginEvent::ModeUpdate(ModeSnapshot {
        mode: InputMode::Locked,
        session_name: None,
    }));
    let plain = extract_ui_components_plain(&status.render(2, 80));
    assert!(plain.contains("◆ 锁定"));
}
