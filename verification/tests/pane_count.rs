use zellij_cn_ui::pane_count::{content_pane_count, PaneInfo};

fn terminal_pane() -> PaneInfo {
    PaneInfo {
        is_plugin: false,
        is_suppressed: false,
    }
}

fn plugin_pane() -> PaneInfo {
    PaneInfo {
        is_plugin: true,
        is_suppressed: false,
    }
}

#[test]
fn excludes_plugin_panes() {
    let panes = vec![plugin_pane(), terminal_pane(), plugin_pane()];
    assert_eq!(content_pane_count(&panes), 1);
}

#[test]
fn counts_multiple_terminals() {
    let panes = vec![terminal_pane(), terminal_pane()];
    assert_eq!(content_pane_count(&panes), 2);
}

#[test]
fn ignores_suppressed_panes() {
    let mut suppressed = terminal_pane();
    suppressed.is_suppressed = true;
    let panes = vec![terminal_pane(), suppressed];
    assert_eq!(content_pane_count(&panes), 1);
}

#[test]
fn empty_pane_list_counts_zero() {
    assert_eq!(content_pane_count(&[]), 0);
}
