use zellij_cn_ui::style::{
    extract_ui_components_plain, extract_ui_plain, opaque_filler, opaque_plain_line,
    render_ribbon_row, StyledLine, EMPHASIS_ACCENT, EMPHASIS_CYAN,
};
use zellij_cn_ui::ui_decode::decode_ui_payload;
use zellij_cn_ui::width::display_width;

#[test]
fn styled_line_renders_opaque_ui() {
    let mut line = StyledLine::new();
    line.push_styled(" 会话", Some(EMPHASIS_CYAN));
    line.push(" test");
    let out = line.into_opaque_line(20, 0);
    assert!(out.contains("Pztext"));
    assert!(out.contains(";z"));
    assert_eq!(display_width(&extract_ui_plain(&out)), 20);
}

#[test]
fn opaque_plain_line_fills_width() {
    let out = opaque_plain_line("普通", 10, 0);
    assert!(out.contains("Pztext"));
    assert_eq!(display_width(&extract_ui_plain(&out)), 10);
}

#[test]
fn render_ribbon_row_outputs_ribbons() {
    let mut mode = StyledLine::new();
    mode.push_styled(" ◆ 普通 ", Some(EMPHASIS_CYAN));
    let out = render_ribbon_row(&[(mode, true)], 20, 0);
    assert!(out.contains("Pzribbon"));
    assert!(out.contains(";x"));
}

#[test]
fn push_styled_records_character_ranges() {
    let mut line = StyledLine::new();
    line.push("ab");
    line.push_styled("标签", Some(EMPHASIS_ACCENT));
    assert_eq!(line.plain(), "ab标签");
    assert_eq!(line.char_len(), 4);
    assert_eq!(line.visible_width(), 6);
    let out = line.into_opaque_line(10, 0);
    // The colored range 2..4 at level 0 is serialized before the bytes.
    assert!(out.contains(";z2,3$"));
}

#[test]
fn append_styled_line_shifts_ranges() {
    let mut first = StyledLine::new();
    first.push("abc");
    let mut second = StyledLine::new();
    second.push_styled("de", Some(EMPHASIS_CYAN));
    second.push_range(EMPHASIS_ACCENT, 1, 1);
    first.append_styled_line(&second);
    assert_eq!(first.plain(), "abcde");
    let out = first.into_opaque_line(5, 0);
    assert!(out.contains(";z$3,4$"));
}

#[test]
fn opaque_line_with_zero_columns_is_empty() {
    assert_eq!(StyledLine::new().into_opaque_line(0, 0), "");
    assert_eq!(opaque_plain_line("x", 0, 0), "");
    assert_eq!(opaque_filler(3, 0, 0), "");
}

#[test]
fn filler_covers_requested_columns() {
    let out = opaque_filler(4, 3, 1);
    assert!(out.starts_with("\u{1b}Pztext;4/1/3/1;z"));
    assert_eq!(extract_ui_plain(&out), "   ");
}

#[test]
fn ribbon_width_counts_chevron_and_trail() {
    let mut line = StyledLine::new();
    line.push("abcd");
    let (_, width) = line.clone().into_ribbon(false, 80);
    assert_eq!(width, 4 + 2 + 4);
    let (_, narrow) = line.clone().into_ribbon(false, 7);
    assert_eq!(narrow, 7);
    let (_, min) = line.into_ribbon_min(false, 80, 12);
    assert_eq!(min, 12);
}

#[test]
fn ribbon_row_stays_within_columns() {
    let mut a = StyledLine::new();
    a.push("很长很长很长的片段");
    let mut b = StyledLine::new();
    b.push("第二段");
    let out = render_ribbon_row(&[(a, false), (b, true)], 12, 0);
    assert!(display_width(&extract_ui_components_plain(&out)) <= 12);
    assert_eq!(render_ribbon_row(&[], 0, 0), "");
}

#[test]
fn decodes_payload_bytes() {
    assert_eq!(decode_ui_payload("z104,105\u{1b}\\"), "hi");
    assert_eq!(decode_ui_payload("x0,1$ 104 ,+105,xx,300"), "hi");
    assert_eq!(decode_ui_payload("255"), "");
}

#[test]
fn opaque_line_reads_back_as_cut_and_padded_text() {
    let mut line = StyledLine::new();
    line.push("abc");
    assert_eq!(extract_ui_plain(&line.clone().into_opaque_line(6, 0)), "abc   ");
    let mut long = StyledLine::new();
    long.push("标签-开发环境");
    let plain = extract_ui_plain(&long.into_opaque_line(7, 3));
    assert_eq!(plain, "标签-… ");
    assert_eq!(display_width(&plain), 7);
}

#[test]
fn opaque_line_serializes_place_flags_and_bytes() {
    let mut line = StyledLine::new();
    line.push("ab");
    assert_eq!(line.into_opaque_line(3, 1), "\u{1b}Pztext;0/1/3/1;z97,98,32\u{1b}\\");
}

#[test]
fn color_level_beyond_255_is_kept() {
    let mut line = StyledLine::new();
    line.push_styled("ab", Some(300));
    let out = line.into_opaque_line(4, 0);
    assert_eq!(out.matches('$').count(), 301);
    assert!(out.contains("$0,1$97,98,32,32"));
    assert_eq!(extract_ui_plain(&out), "ab  ");
}

#[test]
fn ribbon_takes_label_width_plus_six_when_it_fits() {
    let mut line = StyledLine::new();
    line.push("普通");
    let (_, width) = line.clone().into_ribbon(true, 80);
    assert_eq!(width, display_width("普通") + 6);
    let (_, empty_width) = StyledLine::new().into_ribbon(false, 80);
    assert_eq!(empty_width, 6);
}

#[test]
fn empty_line_has_no_width() {
    let line = StyledLine::new();
    assert_eq!(line.visible_width(), 0);
    assert_eq!(line.plain(), "");
}

#[test]
fn serialized_ribbon_reads_back_as_its_text() {
    let mut line = StyledLine::new();
    line.push("普通");
    let out = render_ribbon_row(&[(line, true)], 10, 0);
    let first = out.split("\u{1b}Pztext").next().unwrap_or("");
    assert_eq!(extract_ui_plain(first), "普通  ");
}

#[test]
fn ribbon_row_shows_end_blanks_then_ribbon_texts() {
    let mut a = StyledLine::new();
    a.push("ab");
    let mut b = StyledLine::new();
    b.push("普通");
    let out = render_ribbon_row(&[(a, false), (b, true)], 30, 0);
    let expected = format!("{}ab  普通  ", " ".repeat(12));
    assert_eq!(extract_ui_components_plain(&out), expected);
}

#[test]
fn ribbon_given_one_column_still_carries_its_blanks() {
    let mut a = StyledLine::new();
    a.push("ab");
    let out = render_ribbon_row(&[(a, false)], 1, 0);
    assert!(out.contains("Pzribbon;0/0/1/1;"));
    assert_eq!(extract_ui_components_plain(&out), "  ");
}
