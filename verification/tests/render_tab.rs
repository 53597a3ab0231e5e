use zellij_cn_ui::render_tab::{render_tab_bar, tab_ribbon_label, TabView};
use zellij_cn_ui::style::extract_tab_bar_plain;
use zellij_cn_ui::width::{display_width, visible_width};

#[test]
fn renders_session_and_active_tab() {
    let tabs = vec![
        TabView {
            position: 0,
            name: "编辑".into(),
            active: true,
            pane_count: 2,
        },
        TabView {
            position: 1,
            name: "测试".into(),
            active: false,
            pane_count: 1,
        },
    ];
    let line = render_tab_bar(Some("项目"), &tabs, 80);
    let plain = extract_tab_bar_plain(&line);
    assert!(plain.contains("会话 项目"));
    assert!(plain.contains("● 1 编辑 · 2窗格"));
    assert!(plain.contains("○ 2 测试"));
}

#[test]
fn truncates_long_tab_names_to_terminal_width() {
    let tabs = vec![TabView {
        position: 0,
        name: "非常非常长的中文标签名称".into(),
        active: true,
        pane_count: 3,
    }];
    let line = render_tab_bar(Some("项目"), &tabs, 20);
    assert!(visible_width(&extract_tab_bar_plain(&line)) <= 20);
}

#[test]
fn renders_ribbon_tab_bar() {
    let tabs = vec![
        TabView {
            position: 0,
            name: "编辑".into(),
            active: true,
            pane_count: 2,
        },
        TabView {
            position: 1,
            name: "测试".into(),
            active: false,
            pane_count: 1,
        },
    ];

    let line = render_tab_bar(Some("项目"), &tabs, 80);
    assert!(line.contains("Pztext") && line.contains(";z"));
    assert!(line.contains("Pzribbon"));
    assert!(line.contains(";x"), "active tab ribbon should be selected");
    let plain = extract_tab_bar_plain(&line);
    assert!(plain.contains("会话 项目"));
    assert!(plain.contains("● 1 编辑 · 2窗格"));
    assert!(plain.contains("○ 2 测试"));
}

#[test]
fn tab_ribbon_reserves_space_for_chevron() {
    let tab = TabView {
        position: 0,
        name: "编辑".into(),
        active: true,
        pane_count: 2,
    };

    let (label, width) = tab_ribbon_label(&tab, 80);
    assert!(width > display_width(&label));
}

#[test]
fn unnamed_session_and_tab_get_placeholders() {
    let tabs = vec![TabView {
        position: 4,
        name: String::new(),
        active: false,
        pane_count: 1,
    }];
    let plain = extract_tab_bar_plain(&render_tab_bar(Some(""), &tabs, 80));
    assert!(plain.contains("会话 未命名会话"));
    assert!(plain.contains("○ 5 未命名"));
    let plain = extract_tab_bar_plain(&render_tab_bar(None, &tabs, 80));
    assert!(plain.contains("未命名会话"));
}

#[test]
fn tab_label_exact_text_and_width() {
    let tab = TabView {
        position: 0,
        name: "ab".into(),
        active: true,
        pane_count: 2,
    };
    let (label, width) = tab_ribbon_label(&tab, 80);
    assert_eq!(label, "● 1 ab · 2窗格   ");
    assert_eq!(width, display_width(&label) + 4);
    assert_eq!(tab_ribbon_label(&tab, 6), (String::new(), 0));
    assert_eq!(tab_ribbon_label(&tab, 0), (String::new(), 0));
}

#[test]
fn last_position_is_numbered_without_overflow() {
    let tab = TabView {
        position: usize::MAX,
        name: "x".into(),
        active: false,
        pane_count: 0,
    };
    let (label, _) = tab_ribbon_label(&tab, 200);
    assert!(label.starts_with(&format!("○ {} x", (usize::MAX as u128) + 1)));
}

#[test]
fn empty_bar_for_zero_columns() {
    assert_eq!(render_tab_bar(Some("s"), &[], 0), "");
}

#[test]
fn active_tab_marker_and_number_are_highlighted() {
    let tabs = vec![TabView {
        position: 0,
        name: "a1".into(),
        active: true,
        pane_count: 2,
    }];
    let line = render_tab_bar(Some("s"), &tabs, 80);
    assert!(line.contains(";x0,2,5$"));
    let inactive = vec![TabView {
        position: 0,
        name: "a1".into(),
        active: false,
        pane_count: 2,
    }];
    let line = render_tab_bar(Some("s"), &inactive, 80);
    assert!(!line.contains(";x"));
    assert!(extract_tab_bar_plain(&line).contains("○ 1 a1"));
}

#[test]
fn active_tab_highlights_marker_and_every_copy_of_its_number() {
    let tabs = vec![TabView { position: 0, name: "a".into(), active: true, pane_count: 1 }];
    let line = render_tab_bar(None, &tabs, 80);
    assert!(line.contains("Pzribbon;"));
    assert!(line.contains(";x0,2,8$"));
}

#[test]
fn tab_ribbon_width_is_text_width_plus_six() {
    let tab = TabView { position: 2, name: "编辑".into(), active: false, pane_count: 1 };
    let (label, width) = tab_ribbon_label(&tab, 80);
    assert_eq!(label, "○ 3 编辑   ");
    assert_eq!(width, display_width("○ 3 编辑 ") + 6);
}

#[test]
fn bar_shows_session_then_blanks_then_tab_labels() {
    let tabs = vec![TabView { position: 0, name: "a".into(), active: true, pane_count: 1 }];
    let line = render_tab_bar(Some("s"), &tabs, 40);
    let plain = extract_tab_bar_plain(&line);
    let expected = format!(" 会话 s │ {}● 1 a · 1窗格   ", " ".repeat(10));
    assert_eq!(plain, expected);
    assert!(display_width(&plain) <= 40);
}
