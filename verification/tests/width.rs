use zellij_cn_ui::width::{display_width, pad_to_width, strip_ansi, truncate_to_width, visible_width};

#[test]
fn counts_chinese_as_double_width() {
    assert_eq!(display_width("普通"), 4);
    assert_eq!(display_width("Tab 标签"), 8);
}

#[test]
fn truncates_mixed_text_without_exceeding_width() {
    let truncated = truncate_to_width("标签-开发环境-main", 10);
    assert!(display_width(&truncated) <= 10);
    assert!(truncated.ends_with('…'));
}

#[test]
fn pads_text_to_display_width() {
    assert_eq!(display_width(&pad_to_width("普通", 6)), 6);
}

#[test]
fn strips_ansi_before_measuring_visible_width() {
    let colored = "\x1b[36mCtrl\x1b[0m  p 窗格";
    assert_eq!(strip_ansi(colored), "Ctrl  p 窗格");
    assert_eq!(visible_width(colored), display_width("Ctrl  p 窗格"));
}

#[test]
fn truncation_keeps_fitting_text() {
    assert_eq!(truncate_to_width("标签", 4), "标签");
    assert_eq!(truncate_to_width("abc", 3), "abc");
}

#[test]
fn truncation_edge_widths() {
    assert_eq!(truncate_to_width("标签", 0), "");
    assert_eq!(truncate_to_width("标签", 1), "…");
    assert_eq!(truncate_to_width("abcdef", 4), "abc…");
    // A wide character that does not fit whole is dropped.
    assert_eq!(truncate_to_width("a标签", 3), "a…");
}

#[test]
fn truncated_prefix_is_longest_fitting() {
    let cut = truncate_to_width("标签-开发环境-main", 10);
    assert_eq!(cut, "标签-开发…");
}

#[test]
fn padding_appends_exact_spaces() {
    assert_eq!(pad_to_width("ab", 5), "ab   ");
    assert_eq!(pad_to_width("abcdef", 3), "abcdef");
    assert_eq!(pad_to_width("", 2), "  ");
}

#[test]
fn strip_keeps_text_without_escapes() {
    assert_eq!(strip_ansi("普通 text"), "普通 text");
    assert_eq!(strip_ansi(""), "");
}

#[test]
fn strip_handles_lone_and_unterminated_escapes() {
    assert_eq!(strip_ansi("a\x1bb"), "a\x1bb");
    assert_eq!(strip_ansi("a\x1b[12"), "a");
    assert_eq!(strip_ansi("\x1b"), "\x1b");
    assert!(strip_ansi("x\x1b[1;31mred\x1b[0m").len() <= "x\x1b[1;31mred\x1b[0m".len());
}

#[test]
fn padding_reaches_exactly_the_target_width() {
    let padded = pad_to_width("普通", 7);
    assert_eq!(padded, "普通   ");
    assert_eq!(display_width(&padded), 7);
    assert_eq!(pad_to_width("abcdef", 3), "abcdef");
    assert_eq!(display_width(""), 0);
}

#[test]
fn truncating_twice_changes_nothing_more() {
    let once = truncate_to_width("标签-开发环境-main", 10);
    assert_eq!(truncate_to_width(&once, 10), once);
}

#[test]
fn truncated_text_never_exceeds_its_width() {
    for w in 0..16 {
        let cut = truncate_to_width("标签-开发环境-main", w);
        assert!(display_width(&cut) <= w);
        assert_eq!(truncate_to_width(&cut, w), cut);
    }
}
