use zellij_cn_ui::i18n::{CopyDestination, InputMode};
use zellij_cn_ui::render_status::{
    active_tab, build_hint_line, build_hint_line_with_priority, render_permission_pending, render_status_bar, StatusNotice,
};
use zellij_cn_ui::render_tab::TabView;
use zellij_cn_ui::style::{extract_ui_components_plain, extract_ui_plain};
use zellij_cn_ui::width::display_width;

fn status_rows(status: &str) -> Vec<String> {
    let mut rows = Vec::new();
    let mut search = 0;
    while let Some(pos) = status[search..]
        .find("Pzribbon;")
        .map(|p| search + p)
    {
        let y = status[pos..]
            .strip_prefix("Pzribbon;")
            .and_then(|s| s.split('/').nth(1))
            .and_then(|y| y.parse::<usize>().ok())
            .unwrap_or(rows.len());
        while rows.len() <= y {
            rows.push(String::new());
        }
        let chunk_end = status[pos..]
            .find("\u{1b}P")
            .map(|i| pos + i)
            .unwrap_or(status.len());
        rows[y].push_str(&extract_ui_components_plain(&status[pos..chunk_end]));
        search = chunk_end;
    }
    rows
}

#[test]
fn renders_two_line_status_for_normal_mode() {
    let tab = TabView {
        position: 0,
        name: "开发".into(),
        active: true,
        pane_count: 2,
    };
    let status = render_status_bar(InputMode::Normal, Some(&tab), None, 2, 80);
    assert!(status.contains("Pzribbon"));
    let rows = status_rows(&status);
    assert!(rows.len() >= 2, "expected two ribbon rows: {rows:?}");
    assert!(rows[0].contains("◆ 普通"));
    assert!(rows[1].contains("⌃ Ctrl  p 窗格"));
}

#[test]
fn renders_compact_status_for_one_row() {
    let status = render_status_bar(InputMode::Tab, None, None, 1, 80);
    assert!(status.contains("Pzribbon"));
    let plain = extract_ui_components_plain(&status);
    assert!(plain.contains("标签"));
}

#[test]
fn renders_search_hint_in_chinese() {
    let status = render_status_bar(InputMode::Search, None, None, 2, 80);
    let rows = status_rows(&status);
    assert!(rows[1].contains("搜索"));
    assert!(rows[1].contains("关键词"));
}

#[test]
fn status_bar_respects_common_terminal_widths() {
    let tab = TabView {
        position: 0,
        name: "很长的中文开发标签".into(),
        active: true,
        pane_count: 3,
    };

    for cols in [40, 80, 120] {
        let status = render_status_bar(InputMode::Pane, Some(&tab), None, 2, cols);
        for row in status_rows(&status) {
            assert!(
                display_width(&row) <= cols,
                "row exceeded {cols}: {row}"
            );
        }
    }
}

#[test]
fn status_bar_uses_compact_professional_grouping() {
    let tab = TabView {
        position: 0,
        name: "开发".into(),
        active: true,
        pane_count: 2,
    };
    let status = render_status_bar(InputMode::Pane, Some(&tab), None, 2, 100);
    let rows = status_rows(&status);
    assert!(rows[0].contains("◆ 窗格"));
    assert!(rows[1].contains("窗格  d 下分屏"));
    assert!(rows[1].contains("r 右分屏"));
}

#[test]
fn normal_status_uses_ctrl_prefix_and_colored_output() {
    let status = render_status_bar(InputMode::Normal, None, None, 2, 120);
    let rows = status_rows(&status);
    assert!(status.contains("Pzribbon"));
    assert!(rows[1].contains("⌃ Ctrl  p 窗格"));
    assert!(rows[1].contains("h 移动"));
    assert!(rows[1].contains("q 退出"));
    assert!(rows[1].contains("⌥ Alt  n 新窗格"));
}

#[test]
fn locked_mode_shows_lock_label_and_unlock_hint() {
    let status = render_status_bar(InputMode::Locked, None, None, 2, 80);
    let rows = status_rows(&status);
    assert!(rows[0].contains("◆ 锁定"));
    assert!(rows[1].contains("解锁"));
    assert!(rows[1].contains('g'));
}

#[test]
fn status_bar_uses_ribbon_background() {
    let status = render_status_bar(InputMode::Normal, None, None, 2, 80);
    assert!(status.matches("Pzribbon").count() >= 2);
    assert!(status.contains(";x") || status.contains(";z"));
}

#[test]
fn empty_status_bar_without_room() {
    assert_eq!(render_status_bar(InputMode::Normal, None, None, 0, 80), "");
    assert_eq!(render_status_bar(InputMode::Normal, None, None, 2, 0), "");
}

#[test]
fn notices_and_inactive_tab_summary() {
    let status = render_status_bar(
        InputMode::Pane,
        None,
        Some(StatusNotice::Copied(CopyDestination::System)),
        2,
        120,
    );
    let rows = status_rows(&status);
    assert!(rows[0].contains("无活动标签"));
    assert!(rows[0].contains("已复制到系统剪贴板"));
    let status = render_status_bar(InputMode::Pane, None, Some(StatusNotice::ClipboardError), 2, 120);
    assert!(status_rows(&status)[0].contains("系统剪贴板不可用"));
}

#[test]
fn active_tab_summary_and_pane_count() {
    let tab = TabView {
        position: 2,
        name: "构建".into(),
        active: true,
        pane_count: 4,
    };
    let rows = status_rows(&render_status_bar(InputMode::Tab, Some(&tab), None, 2, 120));
    assert!(rows[0].contains("◉ 标签 3 构建"));
    assert!(rows[0].contains("4窗格"));
}

#[test]
fn locked_mode_ribbon_is_error_colored() {
    let status = render_status_bar(InputMode::Locked, None, None, 1, 80);
    // Level 6 holds the error color; its list follows six other level lists.
    assert!(status.contains("1$$$$$0,1,2,"));
}

#[test]
fn hint_line_shows_every_hint_when_it_fits() {
    let wide = status_rows(&render_status_bar(InputMode::Normal, None, None, 2, 200));
    assert!(wide[1].contains("q 退出"));
    assert!(wide[1].contains("s 滚动"));
    assert!(wide[1].contains("i/o 移标签"));
    let narrow = status_rows(&render_status_bar(InputMode::Normal, None, None, 2, 20));
    assert!(narrow[1].contains('…'));
}

#[test]
fn first_active_tab_is_found() {
    let tabs = vec![
        TabView { position: 0, name: "a".into(), active: false, pane_count: 1 },
        TabView { position: 1, name: "b".into(), active: true, pane_count: 1 },
        TabView { position: 2, name: "c".into(), active: true, pane_count: 1 },
    ];
    assert_eq!(active_tab(&tabs).map(|t| t.position), Some(1));
    assert!(active_tab(&tabs[..1]).is_none());
}

#[test]
fn permission_pending_fills_row() {
    let out = render_permission_pending(80);
    let plain = extract_ui_plain(&out);
    assert!(plain.contains("等待授权"));
    assert_eq!(display_width(&plain), 80);
}

#[test]
fn wider_bars_never_show_fewer_hints() {
    let hints = ["p 窗格", "s 滚动", "o 会话", "q 退出", "i/o 移标签"];
    let mut shown_before: Vec<&str> = Vec::new();
    for cols in [60, 90, 120, 160, 240] {
        let rows = status_rows(&render_status_bar(InputMode::Normal, None, None, 2, cols));
        let shown: Vec<&str> = hints.iter().copied().filter(|h| rows[1].contains(h)).collect();
        for h in &shown_before {
            assert!(shown.contains(h), "{} lost at {} columns", h, cols);
        }
        assert!(display_width(&rows[1]) <= cols);
        shown_before = shown;
    }
}

#[test]
fn hint_row_picks_a_line_that_fits_the_ribbon_uncut() {
    for cols in [60, 90, 120, 121, 160] {
        let rows = status_rows(&render_status_bar(InputMode::Pane, None, None, 2, cols));
        assert!(!rows[1].contains('…'), "hint line cut at {} columns", cols);
        assert!(display_width(&rows[1]) <= cols);
    }
    let compact = extract_ui_components_plain(&render_status_bar(InputMode::Normal, None, None, 1, 120));
    assert!(!compact.contains('…'));
}

#[test]
fn chooser_keeps_every_hint_when_the_full_line_fits() {
    let full = build_hint_line_with_priority(InputMode::Normal, 3);
    let chosen = build_hint_line(InputMode::Normal, 120);
    assert_eq!(chosen.plain(), full.plain());
    for hint in ["s 滚动", "o 会话", "f 浮动", "i/o 移标签"] {
        assert!(chosen.plain().contains(hint), "{} missing", hint);
    }
    let short = build_hint_line_with_priority(InputMode::Normal, 1);
    assert!(display_width(short.plain()) <= display_width(full.plain()));
    let narrow = build_hint_line(InputMode::Normal, 10);
    assert!(display_width(narrow.plain()) <= 10);
}
