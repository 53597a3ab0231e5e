use zellij_cn_ui::i18n::{
    clipboard_error, copy_hint, hint_groups, mode_hint, mode_name, CopyDestination, InputMode,
};

#[test]
fn translates_major_input_modes() {
    assert_eq!(mode_name(InputMode::Normal), "普通");
    assert_eq!(mode_name(InputMode::Locked), "锁定");
    assert_eq!(mode_name(InputMode::Pane), "窗格");
    assert_eq!(mode_name(InputMode::Tab), "标签");
    assert_eq!(mode_name(InputMode::Resize), "调整");
    assert_eq!(mode_name(InputMode::Search), "搜索");
}

#[test]
fn returns_chinese_hint_for_common_modes() {
    assert!(mode_hint(InputMode::Normal).contains("窗格"));
    assert!(mode_hint(InputMode::Tab).contains("n 新建"));
}

#[test]
fn pane_mode_hint_includes_split_and_layout_shortcuts() {
    let hint = mode_hint(InputMode::Pane);
    assert!(hint.contains("d 下分屏"));
    assert!(hint.contains("r 右分屏"));
    assert!(hint.contains("n 自动窗格"));
}

#[test]
fn tab_mode_hint_includes_navigation_and_split_shortcuts() {
    let hint = mode_hint(InputMode::Tab);
    assert!(hint.contains("1-9 跳转"));
    assert!(hint.contains("s 同步"));
    assert!(hint.contains("[/] 拆分"));
}

#[test]
fn normal_mode_hint_includes_global_shortcuts() {
    let hint = mode_hint(InputMode::Normal);
    assert!(hint.contains("Ctrl+p 窗格"));
    assert!(hint.contains("Ctrl+h 移动"));
    assert!(hint.contains("Alt+n 新窗格"));
    assert!(hint.contains("Ctrl+q 退出"));
}

#[test]
fn normal_hint_groups_use_ctrl_prefix_and_include_move() {
    let groups = hint_groups(InputMode::Normal);
    assert_eq!(groups[0].prefix, Some("Ctrl"));
    assert!(groups[0]
        .items
        .iter()
        .any(|item| item.key == "h" && item.label == "移动"));
}

#[test]
fn every_mode_has_a_name_and_hint_groups() {
    let modes = [
        InputMode::Normal,
        InputMode::Locked,
        InputMode::Resize,
        InputMode::Pane,
        InputMode::Tab,
        InputMode::Scroll,
        InputMode::EnterSearch,
        InputMode::Search,
        InputMode::RenameTab,
        InputMode::RenamePane,
        InputMode::Session,
        InputMode::Move,
        InputMode::Prompt,
        InputMode::Tmux,
    ];
    for mode in modes {
        assert!(!mode_name(mode).is_empty());
        assert!(!mode_hint(mode).is_empty());
        let groups = hint_groups(mode);
        assert!(!groups.is_empty());
        assert!(groups.iter().all(|g| !g.items.is_empty()));
    }
    assert_eq!(mode_name(InputMode::EnterSearch), "输入搜索");
    assert_eq!(hint_groups(InputMode::EnterSearch), hint_groups(InputMode::Search));
}

#[test]
fn copy_notices_are_translated() {
    assert_eq!(copy_hint(CopyDestination::Command), "已复制到命令");
    assert_eq!(copy_hint(CopyDestination::Primary), "已复制到主选择区");
    assert_eq!(copy_hint(CopyDestination::System), "已复制到系统剪贴板");
    assert_eq!(clipboard_error(), "系统剪贴板不可用");
}

#[test]
fn tmux_group_keeps_quote_key() {
    let groups = hint_groups(InputMode::Tmux);
    assert!(groups[0].items.iter().any(|item| item.key == "\"" && item.label == "下分屏"));
}

#[test]
fn search_hints_name_the_match_keys() {
    let groups = hint_groups(InputMode::Search);
    let items: Vec<(&str, &str)> = groups
        .iter()
        .flat_map(|g| g.items.iter().map(|i| (i.key, i.label)))
        .collect();
    assert!(items.contains(&("n/p", "上下匹配")));
    assert!(!items.iter().any(|(_, label)| *label == "下/上一个"));
}
