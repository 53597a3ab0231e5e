use vstd::prelude::*;
use vstd::string::*;
use zellij_tile::ui_components::Text;
use crate::strings::{decimal, decimal_string, decimal_string_succ, push_spaces, spaces};
use crate::style::{
    clipped_colors, end_blanks, fits_columns, layout_end, lemma_layout_cons, line_push, line_push_styled, opaque_filler,
    opaque_line, row_end_filler, saturating_sub, LineView, StyledLine, EMPHASIS_ACCENT, EMPHASIS_CYAN, RIBBON_CHEVRON_PAD, RIBBON_TEXT_TRAIL,
};
use crate::ui_text::{
    serialized_component, colored_substring_indices, serialize_ribbon_at, serialized_ribbon, text_color_substring,
    text_model, text_new, text_selected, TextModel,
};
use crate::width::{
    columns, display_width, lemma_columns_concat, padded, prefixes_add_up, str_width,
    truncate_to_width, truncated,
};
use crate::ui_decode::{components_plain, lemma_component_tagged, ribbon_tag, starts_component, tagged_plain, text_tag};

verus! {

/// What the tab bar shows of one tab.
#[derive(Debug, Clone, PartialEq, Eq)]
pub struct TabView {
    pub position: usize,
    pub name: String,
    pub active: bool,
    pub pane_count: usize,
}

/// The tab's name, or `未命名` for an unnamed tab.
pub open spec fn tab_name_shown(t: TabView) -> Seq<char> {
    if t.name@.len() == 0 {
        "未命名"@
    } else {
        t.name@
    }
}

/// The tab's number as shown: its position counted from 1.
pub open spec fn tab_number(t: TabView) -> Seq<char> {
    decimal(t.position as nat + 1)
}

/// The full label of a tab: `● 1 name · 2窗格 ` when active, `○ 2 name ` otherwise.
pub open spec fn tab_full_label(t: TabView) -> Seq<char> {
    if t.active {
        "● "@ + tab_number(t) + " "@ + tab_name_shown(t) + " · "@ + decimal(t.pane_count as nat)
            + "窗格 "@
    } else {
        "○ "@ + tab_number(t) + " "@ + tab_name_shown(t) + " "@
    }
}

/// The columns that a tab ribbon of at most `max_width` columns leaves for its text.
pub open spec fn tab_text_budget(max_width: usize) -> usize {
    saturating_sub(max_width, (RIBBON_CHEVRON_PAD + RIBBON_TEXT_TRAIL) as usize)
}

/// The text of a tab ribbon of at most `max_width` columns: the full label cut to fit.
pub open spec fn tab_label_text(t: TabView, max_width: usize) -> Seq<char> {
    truncated(tab_full_label(t), tab_text_budget(max_width))
}

/// The label of a tab ribbon of at most `max_width` columns, and the columns it takes:
/// the text, its trailing blanks and the arrows, at most `max_width`.
pub open spec fn tab_label(t: TabView, max_width: usize) -> (Seq<char>, usize) {
    if max_width == 0 || tab_text_budget(max_width) == 0 {
        (Seq::empty(), 0)
    } else {
        let text = tab_label_text(t, max_width);
        let w = str_width(text) + RIBBON_TEXT_TRAIL + RIBBON_CHEVRON_PAD;
        (text + spaces(RIBBON_TEXT_TRAIL as nat), if w <= max_width { w as usize } else { max_width })
    }
}

/// The ribbon text of a tab: an active tab is selected, with its `●` and its number
/// highlighted.
pub open spec fn tab_ribbon_model(t: TabView, label: Seq<char>) -> TextModel {
    if t.active {
        TextModel {
            content: label,
            flags: Set::empty().insert('x'),
            indices: colored_substring_indices(
                label,
                colored_substring_indices(label, Seq::empty(), EMPHASIS_ACCENT, "●"@),
                EMPHASIS_ACCENT,
                tab_number(t),
            ),
        }
    } else {
        TextModel { content: label, flags: Set::empty(), indices: Seq::empty() }
    }
}

/// The session name shown, `未命名会话` when there is none or it is empty.
pub open spec fn session_shown(session_name: Option<Seq<char>>) -> Seq<char> {
    match session_name {
        Some(s) => if s.len() > 0 {
            s
        } else {
            "未命名会话"@
        },
        None => "未命名会话"@,
    }
}

/// The opaque part in front of the tabs: ` 会话 name │ `, `会话` in cyan.
pub open spec fn tab_bar_prefix(session: Seq<char>) -> LineView {
    line_push(
        line_push_styled(
            line_push(LineView { content: Seq::empty(), ranges: Seq::empty() }, " "@),
            "会话"@,
            Some(EMPHASIS_CYAN),
        ),
        " "@ + session + " │ "@,
    )
}

/// The tab ribbons from column `x` on, then the filler up to `cols`.
pub open spec fn tab_bar_from(tabs: Seq<TabView>, cols: usize, x: nat) -> Seq<char>
    decreases tabs.len(),
{
    if tabs.len() == 0 || x >= cols {
        row_end_filler(x, cols, 0)
    } else {
        let (label, w) = tab_label(tabs[0], (cols - x) as usize);
        if w == 0 {
            row_end_filler(x, cols, 0)
        } else {
            let m = tab_ribbon_model(tabs[0], label);
            serialized_ribbon(m.content, m.flags, m.indices, x as usize, 0, Some(w), Some(1))
                + tab_bar_from(tabs.drop_first(), cols, (x + w) as nat)
        }
    }
}

/// Columns that the prefix takes in a bar of `cols` columns.
pub open spec fn tab_bar_prefix_width(session: Seq<char>, cols: usize) -> usize {
    let w = str_width(tab_bar_prefix(session).content);
    if w <= cols {
        w
    } else {
        cols
    }
}

/// The whole tab bar in `cols` columns.
/// The session name as a sequence of characters.
pub open spec fn session_view(session_name: Option<&str>) -> Option<Seq<char>> {
    match session_name {
        Some(s) => Some(s@),
        None => None,
    }
}

pub open spec fn tab_bar(session_name: Option<Seq<char>>, tabs: Seq<TabView>, cols: usize) -> Seq<char> {
    if cols == 0 {
        Seq::empty()
    } else {
        let session = session_shown(session_name);
        let pw = tab_bar_prefix_width(session, cols);
        opaque_line(tab_bar_prefix(session), pw, 0) + tab_bar_from(tabs, cols, pw as nat)
    }
}

/// Renders the tab bar: the session name, then one ribbon per tab as long as room
/// remains, then blank cells up to `cols`.
pub fn render_tab_bar(session_name: Option<&str>, tabs: &[TabView], cols: usize) -> (r: String)
    ensures
        r@ == tab_bar(session_view(session_name), tabs@, cols),
        cols > 0 && prefixes_add_up(tab_bar_prefix(session_shown(session_view(session_name))).content)
            ==> str_width(
            prefix_plain(
                session_shown(session_view(session_name)),
                tab_bar_prefix_width(session_shown(session_view(session_name)), cols),
            ),
        ) == tab_bar_prefix_width(session_shown(session_view(session_name)), cols),
        cols > 0 && tab_labels_add_up(tabs@) ==> tab_texts_fit(
            tabs@,
            cols,
            tab_bar_prefix_width(session_shown(session_view(session_name)), cols) as nat,
        ),
{
    if cols == 0 {
        return String::new();
    }
    let session: &str = match session_name {
        Some(name) => if name.is_empty() {
            "未命名会话"
        } else {
            name
        },
        None => "未命名会话",
    };
    let mut prefix = StyledLine::new();
    prefix.push(" ");
    prefix.push_styled("会话", Some(EMPHASIS_CYAN));
    let mut session_part = String::from_str(" ");
    session_part.append(session);
    session_part.append(" │ ");
    prefix.push(session_part.as_str());
    let full_w = prefix.visible_width();
    let prefix_w = if full_w <= cols {
        full_w
    } else {
        cols
    };
    proof {
        assert(prefix@.content =~= tab_bar_prefix(session@).content);
        assert(prefix@.ranges =~= tab_bar_prefix(session@).ranges);
        assert(prefix@ == tab_bar_prefix(session@));
    }
    let mut output = prefix.into_opaque_line(prefix_w, 0);
    proof {
        let name = session_shown(session_view(session_name));
        if prefixes_add_up(tab_bar_prefix(name).content) {
            if prefix_w == 0 {
                assert(tab_bar_prefix(name).content.take(0) =~= Seq::<char>::empty());
                assert(crate::width::columns(Seq::<char>::empty()) == 0);
            }
            assert(str_width(prefix_plain(name, prefix_w)) == prefix_w);
        }
    }
    let mut x: usize = prefix_w;
    let n = tabs.len();
    let mut i: usize = 0;
    assert(tabs@.skip(0) =~= tabs@);
    assert(session@ == session_shown(session_view(session_name)));
    while i < n
        invariant_except_break
            tab_bar(session_view(session_name), tabs@, cols) == output@ + tab_bar_from(
                tabs@.skip(i as int),
                cols,
                x as nat,
            ),
        invariant
            n == tabs@.len(),
            i <= n,
            x <= cols,
            cols > 0,
            tab_labels_add_up(tabs@) ==> (tab_texts_fit(tabs@.skip(i as int), cols, x as nat)
                ==> tab_texts_fit(tabs@, cols, prefix_w as nat)),
        ensures
            tab_bar(session_view(session_name), tabs@, cols) == output@ + row_end_filler(x as nat, cols, 0),
            tab_labels_add_up(tabs@) ==> tab_texts_fit(tabs@, cols, prefix_w as nat),
        decreases n - i,
    {
        let ghost rest = tabs@.skip(i as int);
        assert(rest[0] == tabs@[i as int]);
        assert(rest.drop_first() =~= tabs@.skip(i + 1));
        if x >= cols {
            break;
        }
        let remaining = cols - x;
        let tab = &tabs[i];
        let (label, width) = tab_ribbon_label(tab, remaining);
        if width == 0 {
            break;
        }
        proof {
            if tab_labels_add_up(tabs@) {
                assert(prefixes_add_up(tab_full_label(tabs@[i as int])));
            }
        }
        let ribbon = tab_ribbon_text(tab, label.as_str());
        let part = serialize_ribbon_at(&ribbon, x, 0, Some(width), Some(1));
        output.append(part.as_str());
        x = x + width;
        i = i + 1;
    }
    proof {
        if i == n {
            assert(tabs@.skip(i as int).len() == 0);
        }
    }
    if x < cols {
        let fill = opaque_filler(x, cols - x, 0);
        output.append(fill.as_str());
    }
    assert(output@ =~= tab_bar(session_view(session_name), tabs@, cols));
    output
}

/// The label of a tab ribbon of at most `max_width` columns, cut to fit and followed by
/// the trailing blanks, and the columns that the ribbon takes.
pub fn tab_ribbon_label(tab: &TabView, max_width: usize) -> (r: (String, usize))
    ensures
        (r.0@, r.1) == tab_label(*tab, max_width),
        r.1 > 0 && str_width(tab_label_text(*tab, max_width)) + RIBBON_TEXT_TRAIL <= usize::MAX
            ==> str_width(r.0@) == str_width(tab_label_text(*tab, max_width)) + RIBBON_TEXT_TRAIL,
        r.1 > 0 && prefixes_add_up(tab_full_label(*tab)) ==> str_width(r.0@) + RIBBON_CHEVRON_PAD
            <= r.1,
{
    if max_width == 0 {
        return (String::new(), 0);
    }
    let tab_name: &str = if tab.name.as_str().is_empty() {
        "未命名"
    } else {
        tab.name.as_str()
    };
    let index = decimal_string_succ(tab.position);
    let mut full = String::new();
    if tab.active {
        full.append("● ");
        full.append(index.as_str());
        full.append(" ");
        full.append(tab_name);
        full.append(" · ");
        let count = decimal_string(tab.pane_count);
        full.append(count.as_str());
        full.append("窗格 ");
    } else {
        full.append("○ ");
        full.append(index.as_str());
        full.append(" ");
        full.append(tab_name);
        full.append(" ");
    }
    assert(full@ =~= tab_full_label(*tab));
    let text_budget = max_width.saturating_sub(RIBBON_CHEVRON_PAD + RIBBON_TEXT_TRAIL);
    if text_budget == 0 {
        return (String::new(), 0);
    }
    let mut label = truncate_to_width(full.as_str(), text_budget);
    let text_w = display_width(label.as_str());
    let ghost text = label@;
    push_spaces(&mut label, RIBBON_TEXT_TRAIL);
    let extra = RIBBON_TEXT_TRAIL + RIBBON_CHEVRON_PAD;
    let width = if max_width >= extra && text_w <= max_width - extra {
        text_w + extra
    } else {
        max_width
    };
    proof {
        if str_width(text) + RIBBON_TEXT_TRAIL <= usize::MAX {
            assert(str_width(text + spaces(RIBBON_TEXT_TRAIL as nat)) == str_width(text) + RIBBON_TEXT_TRAIL);
        }
    }
    (label, width)
}

/// The ribbon text of a tab; an active tab is selected and its `●` and number are
/// highlighted.
fn tab_ribbon_text(tab: &TabView, label: &str) -> (t: Text)
    ensures
        text_model(t) == tab_ribbon_model(*tab, label@),
{
    let index = decimal_string_succ(tab.position);
    let mut text = text_new(String::from_str(label));
    if tab.active {
        text = text_selected(text);
        proof {
            reveal_strlit("●");
            assert(Set::<char>::empty().insert('x') == crate::ui_text::text_flags(text));
        }
        text = text_color_substring(text, EMPHASIS_ACCENT, "●");
        proof {
            crate::strings::lemma_decimal_nonempty(tab.position as nat + 1);
        }
        text = text_color_substring(text, EMPHASIS_ACCENT, index.as_str());
    }
    text
}

/// The columns `(x, width)` that the tab ribbons take from column `x` on.
pub open spec fn tab_bar_layout(tabs: Seq<TabView>, cols: usize, x: nat) -> Seq<(nat, nat)>
    decreases tabs.len(),
{
    if tabs.len() == 0 || x >= cols {
        Seq::empty()
    } else {
        let w = tab_label(tabs[0], (cols - x) as usize).1;
        if w == 0 {
            Seq::empty()
        } else {
            seq![(x, w as nat)] + tab_bar_layout(tabs.drop_first(), cols, (x + w) as nat)
        }
    }
}

/// The serialized tab ribbons at the places `layout` gives them.
pub open spec fn placed_tabs(tabs: Seq<TabView>, layout: Seq<(nat, nat)>, cols: usize) -> Seq<char>
    decreases layout.len(),
{
    if layout.len() == 0 || tabs.len() == 0 {
        Seq::empty()
    } else {
        let (x, w) = layout[0];
        let m = tab_ribbon_model(tabs[0], tab_label(tabs[0], (cols - x) as usize).0);
        serialized_ribbon(m.content, m.flags, m.indices, x as usize, 0, Some(w as usize), Some(1))
            + placed_tabs(tabs.drop_first(), layout.drop_first(), cols)
    }
}

proof fn lemma_tab_label_width_bounded(t: TabView, max_width: usize)
    ensures
        tab_label(t, max_width).1 <= max_width,
{
}

/// Layout law of the tab bar: after the session prefix, which takes at most `cols`
/// columns, the tab ribbons stand side by side, none past column `cols`, at most one
/// per tab; blank cells fill the row from where they end up to `cols`.
#[verifier::spinoff_prover]
#[verifier::rlimit(40)]
pub proof fn law_tab_bar_fits(session: Option<Seq<char>>, tabs: Seq<TabView>, cols: usize)
    requires
        cols > 0,
    ensures
        ({
            let pw = tab_bar_prefix_width(session_shown(session), cols);
            let layout = tab_bar_layout(tabs, cols, pw as nat);
            &&& pw <= cols
            &&& layout.len() <= tabs.len()
            &&& fits_columns(layout, pw as nat, cols)
            &&& tab_bar(session, tabs, cols) == opaque_line(
                tab_bar_prefix(session_shown(session)),
                pw,
                0,
            ) + placed_tabs(tabs, layout, cols) + row_end_filler(
                layout_end(layout, pw as nat),
                cols,
                0,
            )
        }),
{
    let pw = tab_bar_prefix_width(session_shown(session), cols);
    lemma_tabs_fit(tabs, cols, pw as nat);
}

#[verifier::spinoff_prover]
#[verifier::rlimit(40)]
proof fn lemma_tabs_fit(tabs: Seq<TabView>, cols: usize, x: nat)
    requires
        x <= cols,
    ensures
        ({
            let layout = tab_bar_layout(tabs, cols, x);
            &&& layout.len() <= tabs.len()
            &&& fits_columns(layout, x, cols)
            &&& tab_bar_from(tabs, cols, x) == placed_tabs(tabs, layout, cols) + row_end_filler(
                layout_end(layout, x),
                cols,
                0,
            )
        }),
    decreases tabs.len(),
{
    let layout = tab_bar_layout(tabs, cols, x);
    if tabs.len() == 0 || x >= cols {
    } else {
        let w = tab_label(tabs[0], (cols - x) as usize).1;
        if w > 0 {
            lemma_tab_label_width_bounded(tabs[0], (cols - x) as usize);
            let next = (x + w) as nat;
            lemma_tabs_fit(tabs.drop_first(), cols, next);
            let rest = tab_bar_layout(tabs.drop_first(), cols, next);
            assert(layout == seq![(x, w as nat)] + rest);
            lemma_layout_cons(x, w as nat, rest, cols);
            let m = tab_ribbon_model(tabs[0], tab_label(tabs[0], (cols - x) as usize).0);
            let part = serialized_ribbon(m.content, m.flags, m.indices, x as usize, 0, Some(w), Some(1));
            assert(tab_bar_from(tabs, cols, x) == part + tab_bar_from(tabs.drop_first(), cols, next));
            assert(placed_tabs(tabs, layout, cols) == part + placed_tabs(tabs.drop_first(), rest, cols));
        }
    }
}

/// Marker law: a tab's label starts with `●` when the tab is active and with `○`
/// otherwise, followed by a blank and the tab's number counted from 1.
pub proof fn law_tab_marker(t: TabView)
    ensures
        tab_full_label(t)[0] == if t.active {
            '●'
        } else {
            '○'
        },
        tab_full_label(t)[1] == ' ',
        tab_full_label(t).subrange(2, 2 + tab_number(t).len() as int) == tab_number(t),
{
    reveal_strlit("● ");
    reveal_strlit("○ ");
    let label = tab_full_label(t);
    let head: Seq<char> = if t.active {
        "● "@
    } else {
        "○ "@
    };
    assert(head.len() == 2);
    assert(label.subrange(0, 2 + tab_number(t).len() as int) =~= head + tab_number(t));
    assert(label[0] == (head + tab_number(t))[0]);
    assert(label[1] == (head + tab_number(t))[1]);
    assert(label.subrange(2, 2 + tab_number(t).len() as int) =~= tab_number(t));
}

/// The full label of every tab adds up character by character.
pub open spec fn tab_labels_add_up(tabs: Seq<TabView>) -> bool {
    forall|i: int| 0 <= i < tabs.len() ==> prefixes_add_up(tab_full_label(#[trigger] tabs[i]))
}

/// Each tab ribbon from column `x` on shows a label no wider than its columns without
/// the arrows.
pub open spec fn tab_texts_fit(tabs: Seq<TabView>, cols: usize, x: nat) -> bool
    decreases tabs.len(),
{
    if tabs.len() == 0 || x >= cols {
        true
    } else {
        let (label, w) = tab_label(tabs[0], (cols - x) as usize);
        if w == 0 {
            true
        } else {
            str_width(label) + RIBBON_CHEVRON_PAD <= w && tab_texts_fit(tabs.drop_first(), cols, (x + w) as nat)
        }
    }
}

/// The display widths of the tab labels from column `x` on, added up.
pub open spec fn tab_texts_width(tabs: Seq<TabView>, cols: usize, x: nat) -> nat
    decreases tabs.len(),
{
    if tabs.len() == 0 || x >= cols {
        0
    } else {
        let (label, w) = tab_label(tabs[0], (cols - x) as usize);
        if w == 0 {
            0
        } else {
            str_width(label) as nat + tab_texts_width(tabs.drop_first(), cols, (x + w) as nat)
        }
    }
}

/// The texts of the tab ribbons from column `x` on, one after another.
pub open spec fn tab_texts_from(tabs: Seq<TabView>, cols: usize, x: nat) -> Seq<char>
    decreases tabs.len(),
{
    if tabs.len() == 0 || x >= cols {
        Seq::empty()
    } else {
        let (label, w) = tab_label(tabs[0], (cols - x) as usize);
        if w == 0 {
            Seq::empty()
        } else {
            label + tab_texts_from(tabs.drop_first(), cols, (x + w) as nat)
        }
    }
}

/// The column where the tab ribbons from column `x` on end.
pub open spec fn tab_end_from(tabs: Seq<TabView>, cols: usize, x: nat) -> nat
    decreases tabs.len(),
{
    if tabs.len() == 0 || x >= cols {
        x
    } else {
        let w = tab_label(tabs[0], (cols - x) as usize).1;
        if w == 0 {
            x
        } else {
            tab_end_from(tabs.drop_first(), cols, (x + w) as nat)
        }
    }
}

/// The visible text of the session part of a bar whose prefix takes `pw` columns.
pub open spec fn prefix_plain(session: Seq<char>, pw: usize) -> Seq<char> {
    if pw == 0 {
        Seq::empty()
    } else {
        padded(truncated(tab_bar_prefix(session).content, pw), pw)
    }
}

/// What the text and the ribbon components of the tab ribbons and filler from column `x`
/// on show.
#[verifier::spinoff_prover]
proof fn lemma_tabs_plain(tabs: Seq<TabView>, cols: usize, x: nat)
    requires
        x <= cols,
    ensures
        starts_component(tab_bar_from(tabs, cols, x)),
        tagged_plain(tab_bar_from(tabs, cols, x), text_tag(), 0) == end_blanks(
            tab_end_from(tabs, cols, x),
            cols,
        ),
        tagged_plain(tab_bar_from(tabs, cols, x), ribbon_tag(), 0) == tab_texts_from(tabs, cols, x),
        x <= tab_end_from(tabs, cols, x) <= cols,
    decreases tabs.len(),
{
    let empty = Seq::<char>::empty();
    let text_name = seq!['t', 'e', 'x', 't'];
    let ribbon_name = seq!['r', 'i', 'b', 'b', 'o', 'n'];
    assert(text_tag() == seq!['P', 'z'] + text_name + seq![';']);
    assert(ribbon_tag() == seq!['P', 'z'] + ribbon_name + seq![';']);
    assert(text_tag() != ribbon_tag()) by {
        assert(text_tag()[2] != ribbon_tag()[2]);
    }
    assert(tagged_plain(empty, text_tag(), 0) == empty);
    assert(tagged_plain(empty, ribbon_tag(), 0) == empty);
    let stop = tabs.len() == 0 || x >= cols || tab_label(tabs[0], (cols - x) as usize).1 == 0;
    if stop {
        if x < cols {
            let fw = (cols - x) as usize;
            let f = serialized_component(
                text_name,
                spaces(fw as nat),
                Set::empty().insert('z'),
                Seq::empty(),
                x as usize,
                0,
                Some(fw),
                Some(1),
            );
            assert(tab_bar_from(tabs, cols, x) == f);
            assert(f + empty =~= f);
            lemma_component_tagged(
                text_name,
                spaces(fw as nat),
                Set::empty().insert('z'),
                Seq::empty(),
                x as usize,
                0,
                Some(fw),
                Some(1),
                empty,
                text_tag(),
            );
            lemma_component_tagged(
                text_name,
                spaces(fw as nat),
                Set::empty().insert('z'),
                Seq::empty(),
                x as usize,
                0,
                Some(fw),
                Some(1),
                empty,
                ribbon_tag(),
            );
            assert(spaces(fw as nat) + empty =~= spaces(fw as nat));
            assert(empty + empty =~= empty);
        } else {
            assert(tab_bar_from(tabs, cols, x) == empty);
        }
    } else {
        let rem = (cols - x) as usize;
        let (label, w) = tab_label(tabs[0], rem);
        lemma_tab_label_width_bounded(tabs[0], rem);
        let next = (x + w) as nat;
        lemma_tabs_plain(tabs.drop_first(), cols, next);
        let rest = tab_bar_from(tabs.drop_first(), cols, next);
        let m = tab_ribbon_model(tabs[0], label);
        assert(m.flags =~= Set::<char>::empty().insert('x') || m.flags =~= Set::<char>::empty());
        let r = serialized_component(ribbon_name, m.content, m.flags, m.indices, x as usize, 0, Some(w), Some(1));
        assert(tab_bar_from(tabs, cols, x) == r + rest);
        lemma_component_tagged(
            ribbon_name,
            m.content,
            m.flags,
            m.indices,
            x as usize,
            0,
            Some(w),
            Some(1),
            rest,
            text_tag(),
        );
        lemma_component_tagged(
            ribbon_name,
            m.content,
            m.flags,
            m.indices,
            x as usize,
            0,
            Some(w),
            Some(1),
            rest,
            ribbon_tag(),
        );
        assert(empty + tagged_plain(rest, text_tag(), 0) =~= tagged_plain(rest, text_tag(), 0));
    }
}

/// What the text and ribbon components of a tab bar show: the session part and the
/// blanks at the end of the row (the texts), then the tab labels (the ribbons).
pub proof fn law_tab_bar_plain(session: Option<Seq<char>>, tabs: Seq<TabView>, cols: usize)
    requires
        cols > 0,
    ensures
        ({
            let pw = tab_bar_prefix_width(session_shown(session), cols);
            components_plain(tab_bar(session, tabs, cols)) == prefix_plain(session_shown(session), pw)
                + end_blanks(tab_end_from(tabs, cols, pw as nat), cols) + tab_texts_from(
                tabs,
                cols,
                pw as nat,
            )
        }),
{
    let name = session_shown(session);
    let pw = tab_bar_prefix_width(name, cols);
    let v = tab_bar_prefix(name);
    lemma_tabs_plain(tabs, cols, pw as nat);
    let rest = tab_bar_from(tabs, cols, pw as nat);
    let text_name = seq!['t', 'e', 'x', 't'];
    assert(text_tag() == seq!['P', 'z'] + text_name + seq![';']);
    assert(text_tag() != ribbon_tag()) by {
        assert(text_tag()[2] != ribbon_tag()[2]);
    }
    if pw > 0 {
        let cut = truncated(v.content, pw);
        let content = padded(cut, pw);
        let flags = Set::<char>::empty().insert('z');
        let indices = clipped_colors(v.ranges, cut.len());
        assert(tab_bar(session, tabs, cols) == serialized_component(
            text_name,
            content,
            flags,
            indices,
            0,
            0,
            Some(pw),
            Some(1),
        ) + rest);
        lemma_component_tagged(text_name, content, flags, indices, 0, 0, Some(pw), Some(1), rest, text_tag());
        lemma_component_tagged(text_name, content, flags, indices, 0, 0, Some(pw), Some(1), rest, ribbon_tag());
        assert(Seq::<char>::empty() + tagged_plain(rest, ribbon_tag(), 0) =~= tagged_plain(rest, ribbon_tag(), 0));
    } else {
        assert(tab_bar(session, tabs, cols) =~= rest);
        assert(prefix_plain(name, pw) + end_blanks(tab_end_from(tabs, cols, pw as nat), cols)
            =~= end_blanks(tab_end_from(tabs, cols, pw as nat), cols));
    }
}

#[verifier::spinoff_prover]
proof fn lemma_tab_texts_width(tabs: Seq<TabView>, cols: usize, x: nat)
    requires
        x <= cols,
        tab_texts_fit(tabs, cols, x),
    ensures
        tab_texts_width(tabs, cols, x) + x <= tab_end_from(tabs, cols, x),
        tab_end_from(tabs, cols, x) <= cols,
    decreases tabs.len(),
{
    if !(tabs.len() == 0 || x >= cols) {
        let rem = (cols - x) as usize;
        let w = tab_label(tabs[0], rem).1;
        if w > 0 {
            lemma_tab_label_width_bounded(tabs[0], rem);
            lemma_tab_texts_width(tabs.drop_first(), cols, (x + w) as nat);
        }
    }
}

/// Width law of the tab bar: when the session part is as wide as the columns it is
/// given and each tab's label fits its ribbon without the arrows (as `render_tab_bar`
/// ensures where the texts add up), the session part, the tab labels and the blanks
/// that end the bar take at most `cols` columns together.
pub proof fn law_tab_bar_visible_fits(session: Option<Seq<char>>, tabs: Seq<TabView>, cols: usize)
    requires
        cols > 0,
        str_width(
            prefix_plain(session_shown(session), tab_bar_prefix_width(session_shown(session), cols)),
        ) == tab_bar_prefix_width(session_shown(session), cols),
        tab_texts_fit(tabs, cols, tab_bar_prefix_width(session_shown(session), cols) as nat),
    ensures
        ({
            let pw = tab_bar_prefix_width(session_shown(session), cols);
            let end = tab_end_from(tabs, cols, pw as nat);
            &&& end <= cols
            &&& str_width(prefix_plain(session_shown(session), pw)) + tab_texts_width(tabs, cols, pw as nat)
                + (cols - end) <= cols
        }),
{
    let pw = tab_bar_prefix_width(session_shown(session), cols);
    lemma_tab_texts_width(tabs, cols, pw as nat);
}

/// Tab-label law: a tab given more columns than the arrows and trailing blanks take
/// always gets a ribbon, at most as wide as its room; its label is its full label cut to
/// the rest of the room (with `…` when it does not fit whole), followed by two blanks. A
/// tab given no more than that gets no ribbon.
pub proof fn law_tab_label_cut(t: TabView, max_width: usize)
    ensures
        max_width > RIBBON_CHEVRON_PAD + RIBBON_TEXT_TRAIL ==> {
            &&& tab_label(t, max_width).1 > 0
            &&& tab_label(t, max_width).1 <= max_width
            &&& tab_label(t, max_width).0 == truncated(
                tab_full_label(t),
                (max_width - RIBBON_CHEVRON_PAD - RIBBON_TEXT_TRAIL) as usize,
            ) + seq![' ', ' ']
        },
        max_width <= RIBBON_CHEVRON_PAD + RIBBON_TEXT_TRAIL ==> tab_label(t, max_width).1 == 0,
{
    assert(spaces(RIBBON_TEXT_TRAIL as nat) =~= seq![' ', ' ']);
}

} // verus!
