use vstd::prelude::*;
use vstd::string::*;
use crate::i18n::{
    clipboard_error, copy_hint, group_specs, hint_groups, mode_name, spec_clipboard_error,
    spec_copy_hint, spec_hint_groups, spec_mode_name, CopyDestination, HintGroupSpec,
    HintItem, InputMode,
};
use crate::render_tab::TabView;
use crate::strings::{decimal, decimal_string, decimal_string_succ, same_text};
use crate::style::{
    end_blanks, lemma_filler_plain, ribbon_text, ribbon_text_fits, ribbon_width,
    saturating_sub, RIBBON_CHEVRON_PAD, RIBBON_TEXT_TRAIL, fits_columns, layout_end, lemma_layout_cons, line_push, line_push_styled,
    opaque_filler, opaque_line, opaque_plain_line, ribbon_min_width, ribbon_model, row_end_filler,
    LineView, StyledLine, EMPHASIS_ACCENT, EMPHASIS_CYAN, EMPHASIS_GREEN, EMPHASIS_VIOLET,
    RIBBON_MODE_MIN_WIDTH,
};
use crate::ui_text::{
    color_range_indices, serialize_ribbon_at, serialized_component, serialized_ribbon,
    text_error_color_all, TextModel,
};
use crate::ui_decode::{components_plain, lemma_component_tagged, ribbon_tag, starts_component, tagged_plain, text_tag};
use crate::width::{
    columns, lemma_columns_concat, prefixes_add_up, str_width, truncate_to_width, truncated,
};
use crate::strings::spaces;

verus! {

/// A short-lived notice in the status bar.
#[derive(Debug, Clone, Copy, PartialEq, Eq, Structural)]
pub enum StatusNotice {
    Copied(CopyDestination),
    ClipboardError,
}

/// A status bar segment: the line, whether its ribbon is selected, and the mode when
/// it is a mode ribbon (which keeps a minimum width and turns red when locked or
/// prompting).
pub type StatusRibbonSegment = (StyledLine, bool, Option<InputMode>);

pub open spec fn empty_line() -> LineView {
    LineView { content: Seq::empty(), ranges: Seq::empty() }
}

/// The emphasis level of a mode's name.
pub open spec fn spec_mode_emphasis(mode: InputMode) -> usize {
    match mode {
        InputMode::Normal => EMPHASIS_ACCENT,
        InputMode::Pane | InputMode::Tab | InputMode::Move | InputMode::Resize => EMPHASIS_GREEN,
        InputMode::Scroll | InputMode::Search | InputMode::EnterSearch => EMPHASIS_CYAN,
        InputMode::Locked | InputMode::Prompt => EMPHASIS_ACCENT,
        _ => EMPHASIS_VIOLET,
    }
}

/// The mode ribbon's line: ` ◆ 普通 `, `◆` in cyan, the name in the mode's emphasis.
pub open spec fn mode_segment(mode: InputMode) -> LineView {
    line_push(
        line_push_styled(
            line_push(line_push_styled(line_push(empty_line(), " "@), "◆"@, Some(EMPHASIS_CYAN)), " "@),
            spec_mode_name(mode),
            Some(spec_mode_emphasis(mode)),
        ),
        " "@,
    )
}

/// The symbol shown in front of a modifier prefix.
pub open spec fn spec_prefix_symbol(prefix: Seq<char>) -> Seq<char> {
    if prefix == "Ctrl"@ {
        "⌃"@
    } else if prefix == "Alt"@ {
        "⌥"@
    } else {
        "•"@
    }
}

/// The items of priority at most `max_priority`, in order.
pub open spec fn kept_items(items: Seq<HintItem>, max_priority: u8) -> Seq<HintItem>
    decreases items.len(),
{
    if items.len() == 0 {
        Seq::empty()
    } else {
        let before = kept_items(items.drop_last(), max_priority);
        if items.last().priority <= max_priority {
            before.push(items.last())
        } else {
            before
        }
    }
}

/// `v` with a hint appended: the key highlighted, then a blank and the label.
pub open spec fn hint_item_line(v: LineView, item: HintItem) -> LineView {
    line_push(line_push_styled(v, item.key@, Some(EMPHASIS_ACCENT)), " "@ + item.label@)
}

/// `v` with the hints appended, two blanks between hints.
pub open spec fn items_line(v: LineView, items: Seq<HintItem>) -> LineView
    decreases items.len(),
{
    if items.len() == 0 {
        v
    } else {
        let before = items_line(v, items.drop_last());
        let spaced = if items.len() > 1 {
            line_push(before, "  "@)
        } else {
            before
        };
        hint_item_line(spaced, items.last())
    }
}

/// `v` with the head of a hint group appended: ` │` when `v` holds something, then the
/// prefix symbol and prefix (or the title), in cyan, and two blanks.
pub open spec fn group_headed(v: LineView, group: HintGroupSpec) -> LineView {
    let separated = if v.content.len() > 0 {
        line_push(v, " │"@)
    } else {
        v
    };
    match group.prefix {
        Some(p) => line_push(
            line_push_styled(
                line_push(line_push(line_push(separated, " "@), spec_prefix_symbol(p@)), " "@),
                p@,
                Some(EMPHASIS_CYAN),
            ),
            "  "@,
        ),
        None => line_push(
            line_push_styled(line_push(separated, " "@), group.title@, Some(EMPHASIS_CYAN)),
            "  "@,
        ),
    }
}

/// `v` with a hint group appended: its head, then the group's hints of priority at most
/// `max_priority`. A group with no such hint adds nothing.
pub open spec fn group_line(v: LineView, group: HintGroupSpec, max_priority: u8) -> LineView {
    let items = kept_items(group.items, max_priority);
    if items.len() == 0 {
        v
    } else {
        items_line(group_headed(v, group), items)
    }
}

/// The hint line of some groups with the hints of priority at most `max_priority`.
pub open spec fn groups_line(groups: Seq<HintGroupSpec>, max_priority: u8) -> LineView
    decreases groups.len(),
{
    if groups.len() == 0 {
        empty_line()
    } else {
        group_line(groups_line(groups.drop_last(), max_priority), groups.last(), max_priority)
    }
}

pub open spec fn hint_line_with_priority(mode: InputMode, max_priority: u8) -> LineView {
    groups_line(spec_hint_groups(mode), max_priority)
}

/// The hint line for `cols` columns: the fullest of the lines with priorities up to 3,
/// 2 and 1 that fits, so that every hint shows when there is room and the
/// low-priority ones go first when there is not; when even the shortest line does not
/// fit, that line cut to fit, without colors.
pub open spec fn hint_line(mode: InputMode, cols: usize) -> LineView {
    if cols == 0 {
        empty_line()
    } else if str_width(hint_line_with_priority(mode, 3).content) <= cols {
        hint_line_with_priority(mode, 3)
    } else if str_width(hint_line_with_priority(mode, 2).content) <= cols {
        hint_line_with_priority(mode, 2)
    } else if str_width(hint_line_with_priority(mode, 1).content) <= cols {
        hint_line_with_priority(mode, 1)
    } else {
        LineView {
            content: truncated(hint_line_with_priority(mode, 1).content, cols),
            ranges: Seq::empty(),
        }
    }
}

pub open spec fn is_alert_mode(mode: Option<InputMode>) -> bool {
    mode == Some(InputMode::Locked) || mode == Some(InputMode::Prompt)
}

/// The ribbon text of a status segment in at most `max_width` columns.
pub open spec fn status_ribbon_model(
    v: LineView,
    selected: bool,
    accent: Option<InputMode>,
    max_width: usize,
) -> TextModel {
    let m = ribbon_model(v, selected, max_width);
    if is_alert_mode(accent) {
        TextModel {
            content: m.content,
            flags: m.flags,
            indices: color_range_indices(m.indices, 6, 0, m.content.len() as usize),
        }
    } else {
        m
    }
}

/// Columns that a status segment takes in at most `max_width` columns.
pub open spec fn status_ribbon_width(v: LineView, accent: Option<InputMode>, max_width: usize) -> usize {
    ribbon_min_width(
        v.content,
        max_width,
        if accent is Some {
            RIBBON_MODE_MIN_WIDTH
        } else {
            0
        },
    )
}

/// The status ribbons of `segs` from column `x` on, then the filler up to `cols`.
pub open spec fn status_row_from(
    segs: Seq<(LineView, bool, Option<InputMode>)>,
    cols: usize,
    y: usize,
    x: nat,
) -> Seq<char>
    decreases segs.len(),
{
    if segs.len() == 0 || x >= cols {
        row_end_filler(x, cols, y)
    } else {
        let remaining = (cols - x) as usize;
        let (v, selected, accent) = segs[0];
        let w = status_ribbon_width(v, accent, remaining);
        if w == 0 {
            row_end_filler(x, cols, y)
        } else {
            let m = status_ribbon_model(v, selected, accent, remaining);
            serialized_ribbon(m.content, m.flags, m.indices, x as usize, y, Some(w), Some(1))
                + status_row_from(segs.drop_first(), cols, y, (x + w) as nat)
        }
    }
}

/// A status row of ribbons across `cols` columns.
pub open spec fn status_row(segs: Seq<(LineView, bool, Option<InputMode>)>, cols: usize, y: usize) -> Seq<
    char,
> {
    if cols == 0 {
        Seq::empty()
    } else {
        status_row_from(segs, cols, y, 0)
    }
}

/// The columns `(x, width)` that the ribbons of a status row take from column `x` on.
pub open spec fn status_row_layout(
    segs: Seq<(LineView, bool, Option<InputMode>)>,
    cols: usize,
    x: nat,
) -> Seq<(nat, nat)>
    decreases segs.len(),
{
    if segs.len() == 0 || x >= cols {
        Seq::empty()
    } else {
        let w = status_ribbon_width(segs[0].0, segs[0].2, (cols - x) as usize);
        if w == 0 {
            Seq::empty()
        } else {
            seq![(x, w as nat)] + status_row_layout(segs.drop_first(), cols, (x + w) as nat)
        }
    }
}

/// The serialized ribbons of `segs` at the places `layout` gives them.
pub open spec fn placed_status_ribbons(
    segs: Seq<(LineView, bool, Option<InputMode>)>,
    layout: Seq<(nat, nat)>,
    cols: usize,
    y: usize,
) -> Seq<char>
    decreases layout.len(),
{
    if layout.len() == 0 || segs.len() == 0 {
        Seq::empty()
    } else {
        let (x, w) = layout[0];
        let m = status_ribbon_model(segs[0].0, segs[0].1, segs[0].2, (cols - x) as usize);
        serialized_ribbon(m.content, m.flags, m.indices, x as usize, y, Some(w as usize), Some(1))
            + placed_status_ribbons(segs.drop_first(), layout.drop_first(), cols, y)
    }
}

/// Width law of a status ribbon: it never takes more than the room it is given, and a
/// mode ribbon takes at least `RIBBON_MODE_MIN_WIDTH` columns when the room allows.
pub proof fn law_status_ribbon_width(v: LineView, accent: Option<InputMode>, max_width: usize)
    ensures
        status_ribbon_width(v, accent, max_width) <= max_width,
        accent is Some ==> status_ribbon_width(v, accent, max_width) >= if RIBBON_MODE_MIN_WIDTH
            <= max_width {
            RIBBON_MODE_MIN_WIDTH
        } else {
            max_width
        },
{
}

/// Layout law of a status row: its ribbons stand side by side from column `x`, none
/// past column `cols`, at most one per segment, and the row is the ribbons at those
/// places followed by blank cells from where they end up to `cols`.
#[verifier::spinoff_prover]
#[verifier::rlimit(100)]
pub proof fn law_status_row_fits(
    segs: Seq<(LineView, bool, Option<InputMode>)>,
    cols: usize,
    y: usize,
    x: nat,
)
    requires
        x <= cols,
    ensures
        ({
            let layout = status_row_layout(segs, cols, x);
            &&& layout.len() <= segs.len()
            &&& fits_columns(layout, x, cols)
            &&& status_row_from(segs, cols, y, x) == placed_status_ribbons(segs, layout, cols, y)
                + row_end_filler(layout_end(layout, x), cols, y)
        }),
    decreases segs.len(),
{
    let layout = status_row_layout(segs, cols, x);
    if segs.len() == 0 || x >= cols {
    } else {
        let w = status_ribbon_width(segs[0].0, segs[0].2, (cols - x) as usize);
        if w > 0 {
            law_status_ribbon_width(segs[0].0, segs[0].2, (cols - x) as usize);
            let next = (x + w) as nat;
            law_status_row_fits(segs.drop_first(), cols, y, next);
            let rest = status_row_layout(segs.drop_first(), cols, next);
            assert(layout == seq![(x, w as nat)] + rest);
            lemma_layout_cons(x, w as nat, rest, cols);
            let m = status_ribbon_model(segs[0].0, segs[0].1, segs[0].2, (cols - x) as usize);
            let part = serialized_ribbon(m.content, m.flags, m.indices, x as usize, y, Some(w), Some(1));
            assert(status_row_from(segs, cols, y, x) == part + status_row_from(
                segs.drop_first(),
                cols,
                y,
                next,
            ));
            assert(placed_status_ribbons(segs, layout, cols, y) == part + placed_status_ribbons(
                segs.drop_first(),
                rest,
                cols,
                y,
            ));
        }
    }
}

pub open spec fn status_segment_views(segs: Seq<StatusRibbonSegment>) -> Seq<
    (LineView, bool, Option<InputMode>),
> {
    segs.map_values(|s: StatusRibbonSegment| (s.0@, s.1, s.2))
}

/// What the tab ribbon says of the active tab.
pub open spec fn tab_summary(tab: Option<TabView>) -> Seq<char> {
    match tab {
        Some(t) => "标签 "@ + decimal(t.position as nat + 1) + " "@ + t.name@,
        None => "无活动标签"@,
    }
}

pub open spec fn tab_segment(tab: Option<TabView>) -> LineView {
    line_push(
        line_push_styled(line_push(empty_line(), " "@), "◉"@, Some(EMPHASIS_ACCENT)),
        " "@ + tab_summary(tab) + " "@,
    )
}

pub open spec fn pane_segment(t: TabView) -> LineView {
    line_push(empty_line(), " "@ + decimal(t.pane_count as nat) + "窗格 "@)
}

pub open spec fn notice_text(notice: StatusNotice) -> Seq<char> {
    match notice {
        StatusNotice::Copied(destination) => spec_copy_hint(destination),
        StatusNotice::ClipboardError => spec_clipboard_error(),
    }
}

pub open spec fn notice_segment(notice: StatusNotice) -> LineView {
    line_push(line_push(empty_line(), " "@), notice_text(notice) + " "@)
}

/// The segments of the first status row: mode, active tab, its panes, notice.
pub open spec fn info_segments(
    mode: InputMode,
    tab: Option<TabView>,
    notice: Option<StatusNotice>,
) -> Seq<(LineView, bool, Option<InputMode>)> {
    let base = seq![
        (mode_segment(mode), true, Some(mode)),
        (tab_segment(tab), mode == InputMode::Normal, None),
    ];
    let with_panes = match tab {
        Some(t) => base.push((pane_segment(t), false, None)),
        None => base,
    };
    match notice {
        Some(n) => with_panes.push((notice_segment(n), false, None)),
        None => with_panes,
    }
}

/// The one-row status bar: the mode ribbon, then the hints if any.
/// The columns that a ribbon of at most `max_width` columns leaves for its text.
pub open spec fn ribbon_text_room(max_width: usize) -> usize {
    saturating_sub(max_width, (RIBBON_CHEVRON_PAD + RIBBON_TEXT_TRAIL) as usize)
}

/// The columns left for the hints of a single-row bar, after the mode ribbon.
pub open spec fn compact_hint_room(mode: InputMode, cols: usize) -> usize {
    ribbon_text_room(
        (cols - status_ribbon_width(mode_segment(mode), Some(mode), cols)) as usize,
    )
}

/// The segments of a single-row bar: the mode, then the hints when there are any.
pub open spec fn compact_segments(mode: InputMode, cols: usize) -> Seq<(LineView, bool, Option<InputMode>)> {
    let hint = hint_line(mode, compact_hint_room(mode, cols));
    let mode_seg = (mode_segment(mode), true, Some(mode));
    if hint.content.len() > 0 {
        seq![mode_seg, (hint, false, None)]
    } else {
        seq![mode_seg]
    }
}

/// The segment of the hint row: the hint line in one ribbon.
pub open spec fn hint_row_segments(mode: InputMode, cols: usize) -> Seq<(LineView, bool, Option<InputMode>)> {
    seq![(hint_line(mode, ribbon_text_room(cols)), false, None)]
}

pub open spec fn compact_status_bar(mode: InputMode, cols: usize) -> Seq<char> {
    status_row(compact_segments(mode, cols), cols, 0)
}

pub open spec fn tab_value(tab: Option<&TabView>) -> Option<TabView> {
    match tab {
        Some(t) => Some(*t),
        None => None,
    }
}

/// The status bar in `rows` rows of `cols` columns.
pub open spec fn status_bar(
    mode: InputMode,
    tab: Option<TabView>,
    notice: Option<StatusNotice>,
    rows: usize,
    cols: usize,
) -> Seq<char> {
    if cols == 0 || rows == 0 {
        Seq::empty()
    } else if rows == 1 {
        compact_status_bar(mode, cols)
    } else {
        status_row(info_segments(mode, tab, notice), cols, 0) + status_row(
            hint_row_segments(mode, cols),
            cols,
            1,
        )
    }
}

/// Index of the first active tab (the number of tabs when none is active).
pub open spec fn first_active(tabs: Seq<TabView>) -> nat
    decreases tabs.len(),
{
    if tabs.len() == 0 {
        0
    } else if tabs[0].active {
        0
    } else {
        1 + first_active(tabs.drop_first())
    }
}

pub open spec fn permission_pending_text() -> Seq<char> {
    " 等待授权读取 Zellij 状态，按 y 授权后显示中文界面"@
}

/// The emphasis level of a mode's name.
fn mode_emphasis(mode: InputMode) -> (level: usize)
    ensures
        level == spec_mode_emphasis(mode),
{
    match mode {
        InputMode::Normal => EMPHASIS_ACCENT,
        InputMode::Pane | InputMode::Tab | InputMode::Move | InputMode::Resize => EMPHASIS_GREEN,
        InputMode::Scroll | InputMode::Search | InputMode::EnterSearch => EMPHASIS_CYAN,
        InputMode::Locked | InputMode::Prompt => EMPHASIS_ACCENT,
        _ => EMPHASIS_VIOLET,
    }
}

/// The tab ribbon is selected in normal mode only.
fn tab_ribbon_selected(mode: InputMode) -> (r: bool)
    ensures
        r == (mode == InputMode::Normal),
{
    match mode {
        InputMode::Normal => true,
        _ => false,
    }
}

/// The symbol shown in front of a modifier prefix: `⌃` for Ctrl, `⌥` for Alt, `•` else.
fn prefix_symbol(prefix: &str) -> (r: &'static str)
    ensures
        r@ == spec_prefix_symbol(prefix@),
{
    if same_text(prefix, "Ctrl") {
        "⌃"
    } else if same_text(prefix, "Alt") {
        "⌥"
    } else {
        "•"
    }
}

/// The line of the mode ribbon.
fn mode_status_segment(mode: InputMode) -> (seg: StyledLine)
    ensures
        seg@ == mode_segment(mode),
{
    let mut seg = StyledLine::new();
    seg.push(" ");
    seg.push_styled("◆", Some(EMPHASIS_CYAN));
    seg.push(" ");
    seg.push_styled(mode_name(mode), Some(mode_emphasis(mode)));
    seg.push(" ");
    seg
}

/// Appends one hint: the key highlighted, then a blank and the label.
fn append_hint_item(line: &mut StyledLine, item: &HintItem)
    ensures
        final(line)@ == hint_item_line(old(line)@, *item),
{
    line.push_styled(item.key, Some(EMPHASIS_ACCENT));
    let mut label = String::from_str(" ");
    label.append(item.label);
    line.push(label.as_str());
}

/// The hints of `items` of priority at most `max_priority`, in order.
fn kept_hint_items(items: &Vec<HintItem>, max_priority: u8) -> (kept: Vec<HintItem>)
    ensures
        kept@ == kept_items(items@, max_priority),
{
    let mut kept: Vec<HintItem> = Vec::new();
    let n = items.len();
    let mut k: usize = 0;
    while k < n
        invariant
            n == items@.len(),
            k <= n,
            kept@ == kept_items(items@.take(k as int), max_priority),
        decreases n - k,
    {
        proof {
            assert(items@.take(k + 1).drop_last() =~= items@.take(k as int));
            assert(items@.take(k + 1).last() == items@[k as int]);
        }
        let item = items[k];
        if item.priority <= max_priority {
            kept.push(item);
        }
        k = k + 1;
    }
    assert(items@.take(n as int) =~= items@);
    kept
}

/// The hint line of a mode with the hints of priority at most `max_priority`.
pub fn build_hint_line_with_priority(mode: InputMode, max_priority: u8) -> (line: StyledLine)
    ensures
        line@ == hint_line_with_priority(mode, max_priority),
{
    let groups = hint_groups(mode);
    let ghost gs = group_specs(groups@);
    let mut line = StyledLine::new();
    let n = groups.len();
    let mut gi: usize = 0;
    assert(gs.take(0) =~= Seq::<HintGroupSpec>::empty());
    while gi < n
        invariant
            n == groups@.len(),
            gs == group_specs(groups@),
            gs == spec_hint_groups(mode),
            gi <= n,
            line@ == groups_line(gs.take(gi as int), max_priority),
        decreases n - gi,
    {
        proof {
            assert(gs.take(gi + 1).drop_last() =~= gs.take(gi as int));
            assert(gs.take(gi + 1).last() == gs[gi as int]);
        }
        let group = &groups[gi];
        let items = kept_hint_items(&group.items, max_priority);
        let ghost before = line@;
        assert(gs[gi as int] == crate::i18n::group_spec(groups@[gi as int]));
        assert(items@ == kept_items(gs[gi as int].items, max_priority));
        if items.len() > 0 {
            if !line.plain().is_empty() {
                line.push(" │");
            }
            let ghost separated = line@;
            match group.prefix {
                Some(prefix) => {
                    line.push(" ");
                    line.push(prefix_symbol(prefix));
                    line.push(" ");
                    line.push_styled(prefix, Some(EMPHASIS_CYAN));
                    line.push("  ");
                },
                None => {
                    line.push(" ");
                    line.push_styled(group.title, Some(EMPHASIS_CYAN));
                    line.push("  ");
                },
            }
            let ghost headed = line@;
            let m = items.len();
            let mut j: usize = 0;
            assert(items@.take(0) =~= Seq::<HintItem>::empty());
            while j < m
                invariant
                    m == items@.len(),
                    j <= m,
                    line@ == items_line(headed, items@.take(j as int)),
                decreases m - j,
            {
                proof {
                    assert(items@.take(j + 1).drop_last() =~= items@.take(j as int));
                    assert(items@.take(j + 1).last() == items@[j as int]);
                }
                if j > 0 {
                    line.push("  ");
                }
                append_hint_item(&mut line, &items[j]);
                j = j + 1;
            }
            assert(items@.take(m as int) =~= items@);
        }
        gi = gi + 1;
    }
    assert(gs.take(n as int) =~= gs);
    line
}

/// The hint line that fits `cols` columns best.
pub fn build_hint_line(mode: InputMode, cols: usize) -> (line: StyledLine)
    ensures
        line@ == hint_line(mode, cols),
        prefixes_add_up(hint_line_with_priority(mode, 1).content) ==> str_width(line@.content)
            <= cols,
{
    if cols == 0 {
        proof {
            let p1 = hint_line_with_priority(mode, 1).content;
            assert(p1.take(0) =~= Seq::<char>::empty());
            assert(columns(Seq::<char>::empty()) == 0);
        }
        return StyledLine::new();
    }
    let line = build_hint_line_with_priority(mode, 3);
    if line.visible_width() <= cols {
        return line;
    }
    let line = build_hint_line_with_priority(mode, 2);
    if line.visible_width() <= cols {
        return line;
    }
    let line = build_hint_line_with_priority(mode, 1);
    if line.visible_width() <= cols {
        return line;
    }
    let plain = truncate_to_width(line.plain(), cols);
    StyledLine::from_plain(plain)
}

/// Lays status ribbons side by side on row `y` and fills the rest of the `cols` columns.
fn render_status_ribbon_row(segments: &[StatusRibbonSegment], cols: usize, y: usize) -> (r: String)
    ensures
        r@ == status_row(status_segment_views(segments@), cols, y),
        status_contents_add_up(status_segment_views(segments@)) ==> status_texts_fit(
            status_segment_views(segments@),
            cols,
            0,
        ),
{
    let ghost segs = status_segment_views(segments@);
    if cols == 0 {
        return String::new();
    }
    let mut output = String::new();
    let mut x: usize = 0;
    let n = segments.len();
    let mut i: usize = 0;
    assert(segs.skip(0) =~= segs);
    assert(output@ =~= Seq::<char>::empty());
    while i < n
        invariant_except_break
            status_row(segs, cols, y) == output@ + status_row_from(
                segs.skip(i as int),
                cols,
                y,
                x as nat,
            ),
        invariant
            n == segments@.len(),
            segs == status_segment_views(segments@),
            cols > 0,
            i <= n,
            x <= cols,
            status_contents_add_up(segs) ==> (status_texts_fit(segs.skip(i as int), cols, x as nat)
                ==> status_texts_fit(segs, cols, 0)),
        ensures
            status_row(segs, cols, y) == output@ + row_end_filler(x as nat, cols, y),
            status_contents_add_up(segs) ==> status_texts_fit(segs, cols, 0),
        decreases n - i,
    {
        let ghost rest = segs.skip(i as int);
        assert(rest[0] == (segments@[i as int].0@, segments@[i as int].1, segments@[i as int].2));
        assert(rest.drop_first() =~= segs.skip(i + 1));
        if x >= cols {
            break;
        }
        let remaining = cols - x;
        let (line, selected, accent_mode) = &segments[i];
        let min_width = if accent_mode.is_some() {
            RIBBON_MODE_MIN_WIDTH
        } else {
            0
        };
        let (text, render_width) = line.ribbon_parts_min(*selected, remaining, min_width);
        let alert = match accent_mode {
            Some(InputMode::Locked) | Some(InputMode::Prompt) => true,
            _ => false,
        };
        let text = if alert {
            text_error_color_all(text)
        } else {
            text
        };
        if render_width == 0 {
            break;
        }
        proof {
            if status_contents_add_up(segs) {
                assert(segs[i as int] == rest[0]);
            }
        }
        let part = serialize_ribbon_at(&text, x, y, Some(render_width), Some(1));
        output.append(part.as_str());
        x = x + render_width;
        i = i + 1;
    }
    proof {
        if i == n {
            assert(segs.skip(i as int).len() == 0);
        }
    }
    if x < cols {
        let fill = opaque_filler(x, cols - x, y);
        output.append(fill.as_str());
    }
    assert(output@ =~= status_row(segs, cols, y));
    output
}

/// The first status row: mode, active tab, its panes and the notice, as ribbons.
fn render_status_info_row(
    mode: InputMode,
    active_tab: Option<&TabView>,
    notice: Option<StatusNotice>,
    cols: usize,
    y: usize,
) -> (r: String)
    ensures
        r@ == status_row(info_segments(mode, tab_value(active_tab), notice), cols, y),
        status_contents_add_up(info_segments(mode, tab_value(active_tab), notice)) ==> status_texts_fit(
            info_segments(mode, tab_value(active_tab), notice),
            cols,
            0,
        ),
{
    let mut segments: Vec<StatusRibbonSegment> = Vec::new();
    let mode_seg = mode_status_segment(mode);
    segments.push((mode_seg, true, Some(mode)));

    let mut summary = String::new();
    match active_tab {
        Some(tab) => {
            summary.append("标签 ");
            let number = decimal_string_succ(tab.position);
            summary.append(number.as_str());
            summary.append(" ");
            summary.append(tab.name.as_str());
        },
        None => {
            summary.append("无活动标签");
        },
    }
    assert(summary@ =~= tab_summary(tab_value(active_tab)));
    let mut tab_seg = StyledLine::new();
    tab_seg.push(" ");
    tab_seg.push_styled("◉", Some(EMPHASIS_ACCENT));
    let mut tab_text = String::from_str(" ");
    tab_text.append(summary.as_str());
    tab_text.append(" ");
    tab_seg.push(tab_text.as_str());
    proof {
        assert(tab_text@ =~= " "@ + tab_summary(tab_value(active_tab)) + " "@);
    }
    segments.push((tab_seg, tab_ribbon_selected(mode), None));

    if let Some(tab) = active_tab {
        let mut pane_text = String::from_str(" ");
        let count = decimal_string(tab.pane_count);
        pane_text.append(count.as_str());
        pane_text.append("窗格 ");
        let mut pane_seg = StyledLine::new();
        pane_seg.push(pane_text.as_str());
        proof {
            assert(pane_text@ =~= " "@ + decimal(tab.pane_count as nat) + "窗格 "@);
        }
        segments.push((pane_seg, false, None));
    }

    if let Some(notice) = notice {
        let mut notice_seg = StyledLine::new();
        notice_seg.push(" ");
        let mut notice_str = String::new();
        match notice {
            StatusNotice::Copied(destination) => {
                notice_str.append(copy_hint(destination));
            },
            StatusNotice::ClipboardError => {
                notice_str.append(clipboard_error());
            },
        }
        notice_str.append(" ");
        notice_seg.push(notice_str.as_str());
        proof {
            assert(notice_str@ =~= notice_text(notice) + " "@);
        }
        segments.push((notice_seg, false, None));
    }
    proof {
        let views = status_segment_views(segments@);
        let expected = info_segments(mode, tab_value(active_tab), notice);
        assert(views.len() == expected.len());
        assert forall|k: int| 0 <= k < views.len() implies views[k] == expected[k] by {}
        assert(views =~= expected);
    }
    render_status_ribbon_row(segments.as_slice(), cols, y)
}

/// The second status row: the hint line as one ribbon.
fn render_status_hint_row(mode: InputMode, cols: usize, y: usize) -> (r: String)
    ensures
        r@ == status_row(hint_row_segments(mode, cols), cols, y),
        status_contents_add_up(hint_row_segments(mode, cols)) ==> status_texts_fit(
            hint_row_segments(mode, cols),
            cols,
            0,
        ),
{
    let room = cols.saturating_sub(RIBBON_CHEVRON_PAD + RIBBON_TEXT_TRAIL);
    let line = build_hint_line(mode, room);
    let segments: Vec<StatusRibbonSegment> = vec![(line, false, None)];
    proof {
        assert(status_segment_views(segments@) =~= seq![(hint_line(mode, ribbon_text_room(cols)), false, None)]);
    }
    render_status_ribbon_row(segments.as_slice(), cols, y)
}

/// The status bar in a single row: the mode ribbon, then the hints.
fn render_compact_status_bar(mode: InputMode, cols: usize) -> (r: String)
    ensures
        r@ == compact_status_bar(mode, cols),
        status_contents_add_up(compact_segments(mode, cols)) ==> status_texts_fit(
            compact_segments(mode, cols),
            cols,
            0,
        ),
{
    let mode_seg = mode_status_segment(mode);
    let (_, mode_width) = mode_seg.ribbon_parts_min(true, cols, RIBBON_MODE_MIN_WIDTH);
    proof {
        law_status_ribbon_width(mode_segment(mode), Some(mode), cols);
    }
    let room = (cols - mode_width).saturating_sub(RIBBON_CHEVRON_PAD + RIBBON_TEXT_TRAIL);
    let mut segments: Vec<StatusRibbonSegment> = vec![(mode_seg, true, Some(mode))];
    let hint = build_hint_line(mode, room);
    let ghost hint_view = hint@;
    if !hint.plain().is_empty() {
        segments.push((hint, false, None));
    }
    proof {
        let mode_seg = (mode_segment(mode), true, Some(mode));
        let expected = if hint_view.content.len() > 0 {
            seq![mode_seg, (hint_view, false, None)]
        } else {
            seq![mode_seg]
        };
        assert(status_segment_views(segments@) =~= expected);
    }
    render_status_ribbon_row(segments.as_slice(), cols, 0)
}

/// Renders the status bar in `rows` rows of `cols` columns: one row gives the mode and
/// the hints; more rows give the mode, active tab and notice on the first and the hints
/// on the second.
pub fn render_status_bar(
    mode: InputMode,
    active_tab: Option<&TabView>,
    notice: Option<StatusNotice>,
    rows: usize,
    cols: usize,
) -> (r: String)
    ensures
        r@ == status_bar(mode, tab_value(active_tab), notice, rows, cols),
        cols > 0 && rows == 1 && status_contents_add_up(compact_segments(mode, cols))
            ==> status_texts_fit(compact_segments(mode, cols), cols, 0),
        cols > 0 && rows >= 2 && status_contents_add_up(info_segments(mode, tab_value(active_tab), notice))
            ==> status_texts_fit(info_segments(mode, tab_value(active_tab), notice), cols, 0),
        cols > 0 && rows >= 2 && status_contents_add_up(hint_row_segments(mode, cols))
            ==> status_texts_fit(hint_row_segments(mode, cols), cols, 0),
{
    if cols == 0 || rows == 0 {
        return String::new();
    }
    if rows == 1 {
        return render_compact_status_bar(mode, cols);
    }
    let mut out = render_status_info_row(mode, active_tab, notice, cols, 0);
    let hints = render_status_hint_row(mode, cols, 1);
    out.append(hints.as_str());
    out
}

/// The row shown while the plugin waits for its permission.
pub fn render_permission_pending(cols: usize) -> (r: String)
    ensures
        r@ == opaque_line(LineView { content: permission_pending_text(), ranges: Seq::empty() }, cols, 0),
{
    opaque_plain_line(" 等待授权读取 Zellij 状态，按 y 授权后显示中文界面", cols, 0)
}

proof fn lemma_kept_items_monotone(items: Seq<HintItem>, low: u8, high: u8)
    requires
        low <= high,
    ensures
        kept_items(items, low).len() <= kept_items(items, high).len(),
        forall|i: int|
            0 <= i < kept_items(items, low).len() ==> kept_items(items, high).contains(
                #[trigger] kept_items(items, low)[i],
            ),
        forall|i: int|
            0 <= i < kept_items(items, high).len() ==> (#[trigger] kept_items(items, high)[i]).priority
                <= high,
    decreases items.len(),
{
    if items.len() > 0 {
        lemma_kept_items_monotone(items.drop_last(), low, high);
        let lo = kept_items(items, low);
        let hi = kept_items(items, high);
        let lo0 = kept_items(items.drop_last(), low);
        let hi0 = kept_items(items.drop_last(), high);
        assert forall|i: int| 0 <= i < lo.len() implies hi.contains(#[trigger] lo[i]) by {
            if i < lo0.len() {
                assert(lo[i] == lo0[i]);
                let j = choose|j: int| 0 <= j < hi0.len() && hi0[j] == lo0[i];
                assert(hi[j] == hi0[j]);
            } else {
                assert(hi[hi.len() - 1] == items.last());
            }
        }
        assert forall|i: int| 0 <= i < hi.len() implies (#[trigger] hi[i]).priority <= high by {
            if i < hi0.len() {
                assert(hi[i] == hi0[i]);
            }
        }
    }
}

/// Priority law: the hints kept for a narrow bar are among those kept for a wider
/// one, and every kept hint has at most the priority asked for; the hint line for
/// `cols` columns is the fullest of the lines with priorities up to 3, 2, 1 that fits,
/// and only when none fits the shortest one, cut to fit.
pub proof fn law_hint_priorities(items: Seq<HintItem>, mode: InputMode, cols: usize, low: u8, high: u8)
    requires
        low <= high,
    ensures
        kept_items(items, low).len() <= kept_items(items, high).len(),
        forall|i: int|
            0 <= i < kept_items(items, low).len() ==> kept_items(items, high).contains(
                #[trigger] kept_items(items, low)[i],
            ),
        forall|i: int|
            0 <= i < kept_items(items, high).len() ==> (#[trigger] kept_items(items, high)[i]).priority
                <= high,
        cols > 0 ==> {
            ||| (hint_line(mode, cols) == hint_line_with_priority(mode, 3) && str_width(
                hint_line_with_priority(mode, 3).content,
            ) <= cols)
            ||| (hint_line(mode, cols) == hint_line_with_priority(mode, 2) && str_width(
                hint_line_with_priority(mode, 3).content,
            ) > cols && str_width(hint_line_with_priority(mode, 2).content) <= cols)
            ||| (hint_line(mode, cols) == hint_line_with_priority(mode, 1) && str_width(
                hint_line_with_priority(mode, 2).content,
            ) > cols && str_width(hint_line_with_priority(mode, 1).content) <= cols)
            ||| (str_width(hint_line_with_priority(mode, 1).content) > cols && hint_line(
                mode,
                cols,
            ).content == truncated(hint_line_with_priority(mode, 1).content, cols) && hint_line(
                mode,
                cols,
            ).ranges.len() == 0)
        },
{
    lemma_kept_items_monotone(items, low, high);
}

pub proof fn lemma_first_active_bound(tabs: Seq<TabView>)
    ensures
        first_active(tabs) <= tabs.len(),
        first_active(tabs) < tabs.len() ==> tabs[first_active(tabs) as int].active,
        forall|k: int| 0 <= k < first_active(tabs) ==> !(#[trigger] tabs[k]).active,
    decreases tabs.len(),
{
    if tabs.len() > 0 && !tabs[0].active {
        lemma_first_active_bound(tabs.drop_first());
        assert forall|k: int| 0 <= k < first_active(tabs) implies !(#[trigger] tabs[k]).active by {
            if k > 0 {
                assert(tabs[k] == tabs.drop_first()[k - 1]);
            }
        }
    }
}

/// The first active tab, if any.
pub fn active_tab(tabs: &[TabView]) -> (r: Option<&TabView>)
    ensures
        first_active(tabs@) <= tabs@.len(),
        r is None <==> first_active(tabs@) == tabs@.len(),
        r matches Some(t) ==> *t == tabs@[first_active(tabs@) as int] && t.active,
        forall|k: int| 0 <= k < first_active(tabs@) ==> !(#[trigger] tabs@[k]).active,
{
    let n = tabs.len();
    let mut i: usize = 0;
    assert(tabs@.skip(0) =~= tabs@);
    proof {
        lemma_first_active_bound(tabs@);
    }
    while i < n
        invariant
            n == tabs@.len(),
            i <= n,
            first_active(tabs@) == i + first_active(tabs@.skip(i as int)),
            first_active(tabs@.skip(i as int)) <= n - i,
            forall|k: int| 0 <= k < first_active(tabs@) ==> !(#[trigger] tabs@[k]).active,
        decreases n - i,
    {
        let ghost rest = tabs@.skip(i as int);
        assert(rest[0] == tabs@[i as int]);
        assert(rest.drop_first() =~= tabs@.skip(i + 1));
        proof {
            lemma_first_active_bound(rest.drop_first());
        }
        if tabs[i].active {
            return Some(&tabs[i]);
        }
        i = i + 1;
    }
    None
}

/// Columns of a hint: its key, a blank and its label.
pub open spec fn item_columns(item: HintItem) -> nat {
    columns(item.key@) + columns(" "@) + columns(item.label@)
}

/// Columns of hints side by side, two blanks between them.
pub open spec fn items_columns(items: Seq<HintItem>) -> nat
    decreases items.len(),
{
    if items.len() == 0 {
        0
    } else {
        items_columns(items.drop_last()) + item_columns(items.last()) + if items.len() > 1 {
            columns("  "@)
        } else {
            0nat
        }
    }
}

/// The text that a hint group puts in front of its hints, after ` │` when the line
/// already holds something.
pub open spec fn group_head(separated: bool, group: HintGroupSpec) -> Seq<char> {
    (if separated {
        " │"@
    } else {
        Seq::empty()
    }) + match group.prefix {
        Some(p) => " "@ + spec_prefix_symbol(p@) + " "@ + p@ + "  "@,
        None => " "@ + group.title@ + "  "@,
    }
}

proof fn lemma_items_line_columns(v: LineView, items: Seq<HintItem>)
    ensures
        columns(items_line(v, items).content) == columns(v.content) + items_columns(items),
        items_line(v, items).content.len() >= v.content.len(),
    decreases items.len(),
{
    if items.len() > 0 {
        lemma_items_line_columns(v, items.drop_last());
        let before = items_line(v, items.drop_last());
        let last = items.last();
        lemma_columns_concat(before.content, "  "@);
        let spaced = if items.len() > 1 {
            line_push(before, "  "@)
        } else {
            before
        };
        lemma_columns_concat(spaced.content, last.key@);
        lemma_columns_concat(" "@, last.label@);
        lemma_columns_concat(spaced.content + last.key@, " "@ + last.label@);
        assert(items_line(v, items).content == spaced.content + last.key@ + (" "@ + last.label@));
    }
}

proof fn lemma_kept_columns(items: Seq<HintItem>, low: u8, high: u8)
    requires
        low <= high,
    ensures
        items_columns(kept_items(items, low)) <= items_columns(kept_items(items, high)),
        kept_items(items, low).len() > 0 ==> kept_items(items, high).len() > 0,
    decreases items.len(),
{
    if items.len() > 0 {
        lemma_kept_columns(items.drop_last(), low, high);
        let kl = kept_items(items.drop_last(), low);
        let kh = kept_items(items.drop_last(), high);
        let last = items.last();
        assert(kl.push(last).drop_last() =~= kl);
        assert(kh.push(last).drop_last() =~= kh);
    }
}

proof fn lemma_group_head(v: LineView, group: HintGroupSpec)
    ensures
        group_headed(v, group).content == v.content + group_head(v.content.len() > 0, group),
        group_head(v.content.len() > 0, group).len() > 0,
{
    reveal_strlit(" ");
    let h = group_head(v.content.len() > 0, group);
    assert(group_headed(v, group).content =~= v.content + h);
}

proof fn lemma_group_columns(vl: LineView, vh: LineView, group: HintGroupSpec, low: u8, high: u8)
    requires
        low <= high,
        columns(vl.content) <= columns(vh.content),
        vl.content.len() > 0 ==> vh.content.len() > 0,
    ensures
        columns(group_line(vl, group, low).content) <= columns(group_line(vh, group, high).content),
        group_line(vl, group, low).content.len() > 0 ==> group_line(vh, group, high).content.len() > 0,
{
    lemma_kept_columns(group.items, low, high);
    let kl = kept_items(group.items, low);
    let kh = kept_items(group.items, high);
    lemma_group_head(vl, group);
    lemma_group_head(vh, group);
    lemma_items_line_columns(group_headed(vl, group), kl);
    lemma_items_line_columns(group_headed(vh, group), kh);
    lemma_columns_concat(vl.content, group_head(vl.content.len() > 0, group));
    lemma_columns_concat(vh.content, group_head(vh.content.len() > 0, group));
    let plain_head = group_head(false, group);
    assert(group_head(true, group) == " │"@ + plain_head);
    assert(group_head(false, group) =~= plain_head);
    lemma_columns_concat(" │"@, plain_head);
}

proof fn lemma_groups_columns(groups: Seq<HintGroupSpec>, low: u8, high: u8)
    requires
        low <= high,
    ensures
        columns(groups_line(groups, low).content) <= columns(groups_line(groups, high).content),
        groups_line(groups, low).content.len() > 0 ==> groups_line(groups, high).content.len() > 0,
    decreases groups.len(),
{
    if groups.len() > 0 {
        lemma_groups_columns(groups.drop_last(), low, high);
        lemma_group_columns(
            groups_line(groups.drop_last(), low),
            groups_line(groups.drop_last(), high),
            groups.last(),
            low,
            high,
        );
    }
}

/// Width law of the hint line: the line with hints of priorities up to `high` is never
/// narrower than the one with priorities up to `low`, where the display widths of both
/// lines add up character by character.
pub proof fn law_hint_widths(mode: InputMode, low: u8, high: u8)
    requires
        low <= high,
        prefixes_add_up(hint_line_with_priority(mode, low).content),
        prefixes_add_up(hint_line_with_priority(mode, high).content),
    ensures
        str_width(hint_line_with_priority(mode, low).content) <= str_width(
            hint_line_with_priority(mode, high).content,
        ),
{
    lemma_groups_columns(spec_hint_groups(mode), low, high);
    let lo = hint_line_with_priority(mode, low).content;
    let hi = hint_line_with_priority(mode, high).content;
    assert(lo.take(lo.len() as int) =~= lo);
    assert(hi.take(hi.len() as int) =~= hi);
}

/// The texts of the status ribbons from column `x` on, one after another.
pub open spec fn status_texts_from(
    segs: Seq<(LineView, bool, Option<InputMode>)>,
    cols: usize,
    x: nat,
) -> Seq<char>
    decreases segs.len(),
{
    if segs.len() == 0 || x >= cols {
        Seq::empty()
    } else {
        let rem = (cols - x) as usize;
        let w = status_ribbon_width(segs[0].0, segs[0].2, rem);
        if w == 0 {
            Seq::empty()
        } else {
            ribbon_text(segs[0].0.content, rem) + status_texts_from(segs.drop_first(), cols, (x + w) as nat)
        }
    }
}

/// The column where the status ribbons from column `x` on end.
pub open spec fn status_end_from(segs: Seq<(LineView, bool, Option<InputMode>)>, cols: usize, x: nat) -> nat
    decreases segs.len(),
{
    if segs.len() == 0 || x >= cols {
        x
    } else {
        let w = status_ribbon_width(segs[0].0, segs[0].2, (cols - x) as usize);
        if w == 0 {
            x
        } else {
            status_end_from(segs.drop_first(), cols, (x + w) as nat)
        }
    }
}

/// What a status row shows: the blanks at its end (its only text component), then the
/// texts of its ribbons (its ribbon components).
#[verifier::spinoff_prover]
pub proof fn law_status_row_plain(segs: Seq<(LineView, bool, Option<InputMode>)>, cols: usize, y: usize, x: nat)
    requires
        x <= cols,
    ensures
        starts_component(status_row_from(segs, cols, y, x)),
        tagged_plain(status_row_from(segs, cols, y, x), text_tag(), 0) == end_blanks(
            status_end_from(segs, cols, x),
            cols,
        ),
        tagged_plain(status_row_from(segs, cols, y, x), ribbon_tag(), 0) == status_texts_from(
            segs,
            cols,
            x,
        ),
        components_plain(status_row_from(segs, cols, y, x)) == end_blanks(
            status_end_from(segs, cols, x),
            cols,
        ) + status_texts_from(segs, cols, x),
    decreases segs.len(),
{
    let empty = Seq::<char>::empty();
    let ribbon_name = seq!['r', 'i', 'b', 'b', 'o', 'n'];
    assert(ribbon_tag() == seq!['P', 'z'] + ribbon_name + seq![';']);
    assert(text_tag() != ribbon_tag()) by {
        assert(text_tag()[2] != ribbon_tag()[2]);
    }
    let stop = segs.len() == 0 || x >= cols || status_ribbon_width(segs[0].0, segs[0].2, (cols - x) as usize) == 0;
    if stop {
        lemma_filler_plain(x, cols, y, text_tag());
        lemma_filler_plain(x, cols, y, ribbon_tag());
        assert(status_row_from(segs, cols, y, x) == row_end_filler(x, cols, y));
        assert(end_blanks(x, cols) + empty =~= end_blanks(x, cols));
    } else {
        let rem = (cols - x) as usize;
        let w = status_ribbon_width(segs[0].0, segs[0].2, rem);
        law_status_ribbon_width(segs[0].0, segs[0].2, rem);
        let next = (x + w) as nat;
        law_status_row_plain(segs.drop_first(), cols, y, next);
        let rest = status_row_from(segs.drop_first(), cols, y, next);
        let m = status_ribbon_model(segs[0].0, segs[0].1, segs[0].2, rem);
        assert(m.flags =~= Set::<char>::empty().insert('x') || m.flags =~= Set::<char>::empty());
        assert(status_row_from(segs, cols, y, x) == serialized_component(
            ribbon_name,
            m.content,
            m.flags,
            m.indices,
            x as usize,
            y,
            Some(w),
            Some(1),
        ) + rest);
        lemma_component_tagged(ribbon_name, m.content, m.flags, m.indices, x as usize, y, Some(w), Some(1), rest, text_tag());
        lemma_component_tagged(ribbon_name, m.content, m.flags, m.indices, x as usize, y, Some(w), Some(1), rest, ribbon_tag());
        assert(empty + tagged_plain(rest, text_tag(), 0) =~= tagged_plain(rest, text_tag(), 0));
    }
}

/// What a hint shows: its key, a blank and its label.
pub open spec fn hint_text(item: HintItem) -> Seq<char> {
    item.key@ + " "@ + item.label@
}

/// The text of every status segment adds up character by character.
pub open spec fn status_contents_add_up(segs: Seq<(LineView, bool, Option<InputMode>)>) -> bool {
    forall|i: int| 0 <= i < segs.len() ==> prefixes_add_up(#[trigger] segs[i].0.content)
}

/// Each status ribbon from column `x` on that is given two or more columns shows a text
/// no wider than them.
pub open spec fn status_texts_fit(segs: Seq<(LineView, bool, Option<InputMode>)>, cols: usize, x: nat) -> bool
    decreases segs.len(),
{
    if segs.len() == 0 || x >= cols {
        true
    } else {
        let rem = (cols - x) as usize;
        let w = status_ribbon_width(segs[0].0, segs[0].2, rem);
        if w == 0 {
            true
        } else {
            ribbon_text_fits(segs[0].0.content, rem, w) && status_texts_fit(
                segs.drop_first(),
                cols,
                (x + w) as nat,
            )
        }
    }
}

/// The display widths of the texts of the status ribbons from column `x` on, added up.
pub open spec fn status_texts_width(segs: Seq<(LineView, bool, Option<InputMode>)>, cols: usize, x: nat) -> nat
    decreases segs.len(),
{
    if segs.len() == 0 || x >= cols {
        0
    } else {
        let rem = (cols - x) as usize;
        let w = status_ribbon_width(segs[0].0, segs[0].2, rem);
        if w == 0 {
            0
        } else {
            str_width(ribbon_text(segs[0].0.content, rem)) as nat + status_texts_width(
                segs.drop_first(),
                cols,
                (x + w) as nat,
            )
        }
    }
}

/// Width law of a status row: when each ribbon's text fits the columns it is given (as
/// `render_status_bar` ensures where the texts add up) and no ribbon is given a single
/// column, the ribbon texts and the blanks that end the row take at most `cols - x`
/// columns together.
#[verifier::spinoff_prover]
pub proof fn law_status_row_visible_fits(segs: Seq<(LineView, bool, Option<InputMode>)>, cols: usize, x: nat)
    requires
        x <= cols,
        status_texts_fit(segs, cols, x),
        forall|i: int|
            0 <= i < status_row_layout(segs, cols, x).len() ==> (#[trigger] status_row_layout(
                segs,
                cols,
                x,
            )[i]).1 >= 2,
    ensures
        status_texts_width(segs, cols, x) + x <= status_end_from(segs, cols, x),
        status_end_from(segs, cols, x) <= cols,
        status_texts_width(segs, cols, x) + (cols - status_end_from(segs, cols, x)) + x <= cols,
    decreases segs.len(),
{
    if !(segs.len() == 0 || x >= cols) {
        let rem = (cols - x) as usize;
        let w = status_ribbon_width(segs[0].0, segs[0].2, rem);
        if w > 0 {
            law_status_ribbon_width(segs[0].0, segs[0].2, rem);
            let next = (x + w) as nat;
            let layout = status_row_layout(segs, cols, x);
            let rest_layout = status_row_layout(segs.drop_first(), cols, next);
            assert(layout == seq![(x, w as nat)] + rest_layout);
            assert(layout[0].1 >= 2);
            assert forall|i: int| 0 <= i < rest_layout.len() implies (#[trigger] rest_layout[i]).1 >= 2 by {
                assert(rest_layout[i] == layout[i + 1]);
            }
            law_status_row_visible_fits(segs.drop_first(), cols, next);
        }
    }
}

/// The texts of some hints, in order.
pub open spec fn hint_texts(items: Seq<HintItem>) -> Seq<Seq<char>> {
    items.map_values(|item: HintItem| hint_text(item))
}

/// The texts of the hints of priority at most `max_priority` of some groups, in table
/// order.
pub open spec fn groups_hint_texts(groups: Seq<HintGroupSpec>, max_priority: u8) -> Seq<Seq<char>>
    decreases groups.len(),
{
    if groups.len() == 0 {
        Seq::empty()
    } else {
        groups_hint_texts(groups.drop_last(), max_priority) + hint_texts(
            kept_items(groups.last().items, max_priority),
        )
    }
}

/// `pats` occur in `s` at the indices `pos`, one after another and none overlapping.
pub open spec fn placed_in_order(s: Seq<char>, pats: Seq<Seq<char>>, pos: Seq<int>) -> bool {
    &&& pos.len() == pats.len()
    &&& forall|k: int|
        0 <= k < pats.len() ==> 0 <= #[trigger] pos[k] && pos[k] + pats[k].len() <= s.len()
            && s.subrange(pos[k], pos[k] + pats[k].len()) == pats[k]
    &&& forall|a: int, b: int| 0 <= a < b < pats.len() ==> #[trigger] pos[a] + pats[a].len() <= #[trigger] pos[b]
}

/// `pats` occur in `s` one after another, none overlapping.
pub open spec fn occur_in_order(s: Seq<char>, pats: Seq<Seq<char>>) -> bool {
    exists|pos: Seq<int>| placed_in_order(s, pats, pos)
}

proof fn lemma_placed_extend(s: Seq<char>, t: Seq<char>, pats: Seq<Seq<char>>, pos: Seq<int>)
    requires
        placed_in_order(s, pats, pos),
    ensures
        placed_in_order(s + t, pats, pos),
{
    assert forall|k: int| 0 <= k < pats.len() implies 0 <= #[trigger] pos[k] && pos[k] + pats[k].len() <= (s
        + t).len() && (s + t).subrange(pos[k], pos[k] + pats[k].len()) == pats[k] by {
        assert((s + t).subrange(pos[k], pos[k] + pats[k].len()) =~= s.subrange(pos[k], pos[k] + pats[k].len()));
    }
}

proof fn lemma_placed_push(s: Seq<char>, pats: Seq<Seq<char>>, pos: Seq<int>, q: Seq<char>, at: int)
    requires
        placed_in_order(s, pats, pos),
        forall|k: int| 0 <= k < pats.len() ==> #[trigger] pos[k] + pats[k].len() <= at,
        0 <= at,
        at + q.len() <= s.len(),
        s.subrange(at, at + q.len()) == q,
    ensures
        placed_in_order(s, pats.push(q), pos.push(at)),
{
    let p2 = pats.push(q);
    let o2 = pos.push(at);
    assert forall|k: int| 0 <= k < p2.len() implies 0 <= #[trigger] o2[k] && o2[k] + p2[k].len() <= s.len()
        && s.subrange(o2[k], o2[k] + p2[k].len()) == p2[k] by {
        if k < pats.len() {
            assert(o2[k] == pos[k] && p2[k] == pats[k]);
        }
    }
    assert forall|a: int, b: int| 0 <= a < b < p2.len() implies #[trigger] o2[a] + p2[a].len() <= #[trigger] o2[b] by {
        assert(o2[a] == pos[a] && p2[a] == pats[a]);
        if b < pats.len() {
            assert(o2[b] == pos[b]);
        }
    }
}

/// The hints of `items` kept up to `low` show, in order, in the line of those kept up to
/// `high`, after what `v` held.
proof fn lemma_items_in_order(v: LineView, items: Seq<HintItem>, low: u8, high: u8) -> (pos: Seq<int>)
    requires
        low <= high,
    ensures
        placed_in_order(items_line(v, kept_items(items, high)).content, hint_texts(kept_items(items, low)), pos),
        forall|k: int| 0 <= k < pos.len() ==> #[trigger] pos[k] >= v.content.len(),
        exists|suffix: Seq<char>| items_line(v, kept_items(items, high)).content == v.content + suffix,
    decreases items.len(),
{
    if items.len() == 0 {
        assert(v.content + Seq::<char>::empty() =~= v.content);
        assert(hint_texts(kept_items(items, low)) =~= Seq::<Seq<char>>::empty());
        Seq::<int>::empty()
    } else {
        let dl = items.drop_last();
        let last = items.last();
        let pos0 = lemma_items_in_order(v, dl, low, high);
        let kh0 = kept_items(dl, high);
        let kl0 = kept_items(dl, low);
        let before = items_line(v, kh0);
        let suffix0 = choose|suffix: Seq<char>| before.content == v.content + suffix;
        if last.priority <= high {
            let kh = kh0.push(last);
            assert(kh.drop_last() =~= kh0);
            assert(kh.last() == last);
            let spaced = if kh.len() > 1 {
                line_push(before, "  "@)
            } else {
                before
            };
            let tail = (if kh.len() > 1 {
                "  "@
            } else {
                Seq::<char>::empty()
            }) + hint_text(last);
            let content = items_line(v, kh).content;
            assert(content =~= before.content + tail);
            assert(content =~= v.content + (suffix0 + tail));
            lemma_placed_extend(before.content, tail, hint_texts(kl0), pos0);
            if last.priority <= low {
                let kl = kl0.push(last);
                assert(hint_texts(kl) =~= hint_texts(kl0).push(hint_text(last)));
                let at = spaced.content.len() as int;
                assert(content =~= spaced.content + hint_text(last));
                assert(content.subrange(at, at + hint_text(last).len()) =~= hint_text(last));
                lemma_placed_push(content, hint_texts(kl0), pos0, hint_text(last), at);
                let pos = pos0.push(at);
                assert forall|k: int| 0 <= k < pos.len() implies #[trigger] pos[k] >= v.content.len() by {
                    if k < pos0.len() {
                        assert(pos[k] == pos0[k]);
                    }
                }
                pos
            } else {
                pos0
            }
        } else {
            pos0
        }
    }
}

/// The hints of a group kept up to `low` show, in order, in its line with those kept up
/// to `high`, after what `v` held.
proof fn lemma_group_in_order(v: LineView, group: HintGroupSpec, low: u8, high: u8) -> (pos: Seq<int>)
    requires
        low <= high,
    ensures
        placed_in_order(group_line(v, group, high).content, hint_texts(kept_items(group.items, low)), pos),
        forall|k: int| 0 <= k < pos.len() ==> #[trigger] pos[k] >= v.content.len(),
        exists|suffix: Seq<char>| group_line(v, group, high).content == v.content + suffix,
{
    lemma_kept_columns(group.items, low, high);
    let kh = kept_items(group.items, high);
    let kl = kept_items(group.items, low);
    if kh.len() == 0 {
        assert(v.content + Seq::<char>::empty() =~= v.content);
        assert(hint_texts(kl) =~= Seq::<Seq<char>>::empty());
        Seq::<int>::empty()
    } else {
        lemma_group_head(v, group);
        let headed = group_headed(v, group);
        let pos = lemma_items_in_order(headed, group.items, low, high);
        let suffix0 = choose|suffix: Seq<char>| items_line(headed, kh).content == headed.content + suffix;
        assert(items_line(headed, kh).content =~= v.content + (group_head(v.content.len() > 0, group)
            + suffix0));
        pos
    }
}

/// The hints of the groups kept up to `low` show, in table order, in the line of those
/// kept up to `high`.
proof fn lemma_groups_in_order(groups: Seq<HintGroupSpec>, low: u8, high: u8) -> (pos: Seq<int>)
    requires
        low <= high,
    ensures
        placed_in_order(groups_line(groups, high).content, groups_hint_texts(groups, low), pos),
    decreases groups.len(),
{
    if groups.len() == 0 {
        assert(groups_hint_texts(groups, low) =~= Seq::<Seq<char>>::empty());
        Seq::<int>::empty()
    } else {
        let rest = groups.drop_last();
        let pos0 = lemma_groups_in_order(rest, low, high);
        let before = groups_line(rest, high);
        let pos1 = lemma_group_in_order(before, groups.last(), low, high);
        let content = groups_line(groups, high).content;
        let suffix0 = choose|suffix: Seq<char>| content == before.content + suffix;
        lemma_placed_extend(before.content, suffix0, groups_hint_texts(rest, low), pos0);
        let p0 = groups_hint_texts(rest, low);
        let p1 = hint_texts(kept_items(groups.last().items, low));
        let pats = p0 + p1;
        let pos = pos0 + pos1;
        assert(pats =~= groups_hint_texts(groups, low));
        assert forall|k: int| 0 <= k < pats.len() implies 0 <= #[trigger] pos[k] && pos[k] + pats[k].len()
            <= content.len() && content.subrange(pos[k], pos[k] + pats[k].len()) == pats[k] by {
            if k < p0.len() {
                assert(pos[k] == pos0[k] && pats[k] == p0[k]);
            } else {
                assert(pos[k] == pos1[k - p0.len()] && pats[k] == p1[k - p0.len()]);
            }
        }
        assert forall|a: int, b: int| 0 <= a < b < pats.len() implies #[trigger] pos[a] + pats[a].len()
            <= #[trigger] pos[b] by {
            if b < p0.len() {
                assert(pos[a] == pos0[a] && pos[b] == pos0[b] && pats[a] == p0[a]);
            } else if a >= p0.len() {
                assert(pos[a] == pos1[a - p0.len()] && pos[b] == pos1[b - p0.len()] && pats[a] == p1[a
                    - p0.len()]);
            } else {
                assert(pos[a] == pos0[a] && pats[a] == p0[a]);
                assert(pos[b] == pos1[b - p0.len()]);
            }
        }
        pos
    }
}

/// Order law of the hint line: the hints kept up to priority `low` show, each as its key,
/// a blank and its label, in the order of the hint table, in the line with priorities up
/// to `low` and in the line with priorities up to any `high` above it.
pub proof fn law_hint_order(mode: InputMode, low: u8, high: u8)
    requires
        low <= high,
    ensures
        occur_in_order(
            hint_line_with_priority(mode, low).content,
            groups_hint_texts(spec_hint_groups(mode), low),
        ),
        occur_in_order(
            hint_line_with_priority(mode, high).content,
            groups_hint_texts(spec_hint_groups(mode), low),
        ),
{
    let groups = spec_hint_groups(mode);
    let pl = lemma_groups_in_order(groups, low, low);
    let ph = lemma_groups_in_order(groups, low, high);
    assert(placed_in_order(hint_line_with_priority(mode, low).content, groups_hint_texts(groups, low), pl));
    assert(placed_in_order(hint_line_with_priority(mode, high).content, groups_hint_texts(groups, low), ph));
}

/// Info-row law: the first status row shows the mode, then the active tab as
/// ` ◉ 标签 <number> <name> `, then, whenever a tab is active and whatever the notice,
/// its pane count as ` <count>窗格 `, then the notice last when there is one; with no
/// active tab it shows ` ◉ 无活动标签 ` and no pane count. A notice only adds its own
/// ribbon at the end.
pub proof fn law_info_row_segments(mode: InputMode, tab: Option<TabView>, notice: Option<StatusNotice>)
    ensures
        ({
            let segs = info_segments(mode, tab, notice);
            let n_tab: int = if tab is Some { 1 } else { 0 };
            let n_notice: int = if notice is Some { 1 } else { 0 };
            &&& segs.len() == 2 + n_tab + n_notice
            &&& segs[0].2 == Some(mode) && segs[0].1
            &&& segs[1].2 is None
            &&& tab matches Some(t) ==> {
                &&& segs[1].0.content == " ◉ "@ + "标签 "@ + decimal(t.position as nat + 1) + " "@ + t.name@
                    + " "@
                &&& segs[2].0.content == " "@ + decimal(t.pane_count as nat) + "窗格 "@
                &&& segs[2].2 is None && !segs[2].1
            }
            &&& tab is None ==> segs[1].0.content == " ◉ "@ + "无活动标签"@ + " "@
            &&& notice matches Some(n) ==> segs.last().0.content == " "@ + notice_text(n) + " "@
            &&& notice is Some ==> segs.drop_last() == info_segments(mode, tab, None)
        }),
{
    let segs = info_segments(mode, tab, notice);
    reveal_strlit(" ");
    reveal_strlit("◉");
    reveal_strlit(" ◉ ");
    assert(" ◉ "@ =~= " "@ + "◉"@ + " "@);
    match tab {
        Some(t) => {
            assert(segs[1].0.content =~= " ◉ "@ + "标签 "@ + decimal(t.position as nat + 1) + " "@
                + t.name@ + " "@);
            assert(segs[2].0.content =~= " "@ + decimal(t.pane_count as nat) + "窗格 "@);
        },
        None => {
            assert(segs[1].0.content =~= " ◉ "@ + "无活动标签"@ + " "@);
        },
    }
    match notice {
        Some(n) => {
            assert(segs.last().0.content =~= " "@ + notice_text(n) + " "@);
            assert(segs.drop_last() =~= info_segments(mode, tab, None));
        },
        None => {},
    }
}

} // verus!
