use vstd::prelude::*;
use vstd::string::*;
use zellij_tile::ui_components::Text;
use crate::strings::{push_spaces, spaces};
use crate::ui_text::{
    serialized_component,
    color_range_indices, serialize_ribbon_at, serialize_text_at, serialized_ribbon,
    serialized_text, text_color_range, text_content, text_flags, text_indices, text_model,
    text_new, text_opaque, text_selected, TextModel,
};
use crate::width::{
    columns, display_width, lemma_columns_concat, padded, prefixes_add_up, str_width,
    truncate_to_width, truncated,
};
use crate::ui_decode::{
    components_plain, law_text_plain, lemma_component_tagged, ribbon_tag, starts_component,
    tagged_plain, text_tag, ui_plain,
};
pub use crate::ui_decode::{
    decode_ui_payload, extract_tab_bar_plain, extract_ui_components_plain, extract_ui_plain,
};

verus! {

/// Theme emphasis 0: highlight (keys, active markers).
pub const EMPHASIS_ACCENT: usize = 0;

/// Theme emphasis 1: cyan labels (Ctrl, session, ◆).
pub const EMPHASIS_CYAN: usize = 1;

/// Theme emphasis 2: green (mode names).
pub const EMPHASIS_GREEN: usize = 2;

/// Theme emphasis 3: violet.
pub const EMPHASIS_VIOLET: usize = 3;

/// Theme emphasis 4: dim (inactive tabs).
pub const EMPHASIS_DIM: usize = 4;

/// Extra columns that a ribbon's arrows take.
pub const RIBBON_CHEVRON_PAD: usize = 4;

/// Blank columns at the end of a ribbon text, so that the arrow hides no character.
pub const RIBBON_TEXT_TRAIL: usize = 2;

/// Columns that a mode ribbon keeps at least.
pub const RIBBON_MODE_MIN_WIDTH: usize = 12;

/// A line of text with colored character ranges `(level, start, end)`.
#[derive(Debug, Clone)]
pub struct StyledLine {
    pub(crate) content: String,
    pub(crate) ranges: Vec<(usize, usize, usize)>,
}

/// The characters of a styled line and its colored ranges, in the order they were added.
pub struct LineView {
    pub content: Seq<char>,
    pub ranges: Seq<(usize, usize, usize)>,
}

impl View for StyledLine {
    type V = LineView;

    closed spec fn view(&self) -> LineView {
        LineView { content: self.content@, ranges: self.ranges@ }
    }
}

/// The line `v` with `text` appended.
pub open spec fn line_push(v: LineView, text: Seq<char>) -> LineView {
    LineView { content: v.content + text, ranges: v.ranges }
}

/// The line `v` with `text` appended and, for a level, its characters colored.
pub open spec fn line_push_styled(v: LineView, text: Seq<char>, level: Option<usize>) -> LineView {
    LineView {
        content: v.content + text,
        ranges: match level {
            Some(l) => v.ranges.push(
                (l, v.content.len() as usize, (v.content.len() + text.len()) as usize),
            ),
            None => v.ranges,
        },
    }
}

/// `ranges` moved right by `offset`, without the empty ones.
pub open spec fn shifted_ranges(ranges: Seq<(usize, usize, usize)>, offset: nat) -> Seq<
    (usize, usize, usize),
>
    decreases ranges.len(),
{
    if ranges.len() == 0 {
        Seq::empty()
    } else {
        let r = ranges.last();
        let before = shifted_ranges(ranges.drop_last(), offset);
        if r.1 < r.2 {
            before.push((r.0, (offset + r.1) as usize, (offset + r.2) as usize))
        } else {
            before
        }
    }
}

/// The index lists after coloring `ranges`, in order, on a text of `len` characters:
/// ranges that start at or after `len` are dropped, the others end at `len` at most.
pub open spec fn clipped_colors(ranges: Seq<(usize, usize, usize)>, len: nat) -> Seq<Seq<usize>>
    decreases ranges.len(),
{
    if ranges.len() == 0 {
        Seq::empty()
    } else {
        let before = clipped_colors(ranges.drop_last(), len);
        let (level, start, end) = ranges.last();
        let end_clipped: usize = if end < len { end } else { len as usize };
        if start >= len || start >= end_clipped {
            before
        } else {
            color_range_indices(before, level, start, end_clipped)
        }
    }
}

pub open spec fn saturating_sub(a: usize, b: usize) -> usize {
    if a >= b {
        (a - b) as usize
    } else {
        0
    }
}

/// The text that fits a ribbon of at most `max_width` columns, before its trailing blanks.
pub open spec fn ribbon_label(content: Seq<char>, max_width: usize) -> Seq<char> {
    truncated(content, saturating_sub(saturating_sub(max_width, RIBBON_CHEVRON_PAD), RIBBON_TEXT_TRAIL))
}

/// The text of a ribbon of at most `max_width` columns.
pub open spec fn ribbon_text(content: Seq<char>, max_width: usize) -> Seq<char> {
    ribbon_label(content, max_width) + spaces(RIBBON_TEXT_TRAIL as nat)
}

/// The columns that a ribbon of at most `max_width` columns takes: its label, the
/// trailing blanks and the arrows, at most `max_width`.
pub open spec fn ribbon_width(content: Seq<char>, max_width: usize) -> usize {
    let w = str_width(ribbon_label(content, max_width)) + RIBBON_TEXT_TRAIL + RIBBON_CHEVRON_PAD;
    if w <= max_width {
        w as usize
    } else {
        max_width
    }
}

/// The text of a ribbon is as wide as its label and its trailing blanks together.
pub open spec fn ribbon_text_widens(content: Seq<char>, max_width: usize) -> bool {
    str_width(ribbon_label(content, max_width)) + RIBBON_TEXT_TRAIL <= usize::MAX ==> str_width(
        ribbon_text(content, max_width),
    ) == str_width(ribbon_label(content, max_width)) + RIBBON_TEXT_TRAIL
}

/// The text of a ribbon of at most `max_width` columns is no wider than the `w` columns
/// it is given, when it is given two or more.
pub open spec fn ribbon_text_fits(content: Seq<char>, max_width: usize, w: usize) -> bool {
    w >= 2 ==> str_width(ribbon_text(content, max_width)) <= w
}

pub open spec fn selected_flags(selected: bool) -> Set<char> {
    if selected {
        Set::empty().insert('x')
    } else {
        Set::empty()
    }
}

/// The text that `into_ribbon` builds from a line.
pub open spec fn ribbon_model(v: LineView, selected: bool, max_width: usize) -> TextModel {
    TextModel {
        content: ribbon_text(v.content, max_width),
        flags: selected_flags(selected),
        indices: clipped_colors(v.ranges, ribbon_label(v.content, max_width).len()),
    }
}

/// The columns that `into_ribbon_min` gives a ribbon.
pub open spec fn ribbon_min_width(content: Seq<char>, max_width: usize, min_width: usize) -> usize {
    let w = ribbon_width(content, max_width);
    let floor: usize = if min_width <= max_width { min_width } else { max_width };
    if w >= floor { w } else { floor }
}

/// A full row: `content` cut and padded to exactly `cols` columns, opaque, colored.
pub open spec fn opaque_line(v: LineView, cols: usize, y: usize) -> Seq<char> {
    if cols == 0 {
        Seq::empty()
    } else {
        let cut = truncated(v.content, cols);
        serialized_text(
            padded(cut, cols),
            Set::empty().insert('z'),
            clipped_colors(v.ranges, cut.len()),
            0,
            y,
            Some(cols),
            Some(1),
        )
    }
}

/// The visible text of a full row is the line's text cut to `cols` columns and padded
/// with blanks up to `cols`.
pub proof fn law_opaque_line_plain(v: LineView, cols: usize, y: usize)
    requires
        cols > 0,
    ensures
        ui_plain(opaque_line(v, cols, y)) == padded(truncated(v.content, cols), cols),
{
    let cut = truncated(v.content, cols);
    law_text_plain(
        padded(cut, cols),
        Set::empty().insert('z'),
        clipped_colors(v.ranges, cut.len()),
        0,
        y,
        Some(cols),
        Some(1),
    );
}

/// Opaque blank cells from column `x` over `width` columns of row `y`.
pub open spec fn filler(x: usize, width: usize, y: usize) -> Seq<char> {
    if width == 0 {
        Seq::empty()
    } else {
        serialized_text(
            spaces(width as nat),
            Set::empty().insert('z'),
            Seq::empty(),
            x,
            y,
            Some(width),
            Some(1),
        )
    }
}

/// The filler that completes a row whose ribbons end at column `x`.
pub open spec fn row_end_filler(x: nat, cols: usize, y: usize) -> Seq<char> {
    if x < cols {
        filler(x as usize, (cols - x) as usize, y)
    } else {
        Seq::empty()
    }
}

/// Where the last ribbon of `layout` ends (`x` when there is none).
pub open spec fn layout_end(layout: Seq<(nat, nat)>, x: nat) -> nat {
    if layout.len() == 0 {
        x
    } else {
        layout.last().0 + layout.last().1
    }
}

/// The places side by side from `x`, each non-empty and within `cols` columns.
pub open spec fn fits_columns(layout: Seq<(nat, nat)>, x: nat, cols: usize) -> bool {
    &&& layout.len() > 0 ==> layout[0].0 == x
    &&& forall|i: int| 0 <= i < layout.len() ==> (#[trigger] layout[i]).1 > 0 && layout[i].0
        + layout[i].1 <= cols
    &&& forall|i: int| 0 <= i < layout.len() - 1 ==> (#[trigger] layout[i + 1]).0 == layout[i].0
        + layout[i].1
    &&& layout_end(layout, x) <= cols
}

/// Places put in front of a fitting layout still fit.
pub proof fn lemma_layout_cons(x: nat, w: nat, rest: Seq<(nat, nat)>, cols: usize)
    requires
        w > 0,
        x + w <= cols,
        fits_columns(rest, x + w, cols),
    ensures
        fits_columns(seq![(x, w)] + rest, x, cols),
        (seq![(x, w)] + rest).drop_first() == rest,
        layout_end(seq![(x, w)] + rest, x) == layout_end(rest, x + w),
{
    let layout = seq![(x, w)] + rest;
    assert(layout.drop_first() =~= rest);
    assert forall|i: int| 0 <= i < layout.len() implies (#[trigger] layout[i]).1 > 0 && layout[i].0
        + layout[i].1 <= cols by {
        if i > 0 {
            assert(layout[i] == rest[i - 1]);
        }
    }
    assert forall|i: int| 0 <= i < layout.len() - 1 implies (#[trigger] layout[i + 1]).0
        == layout[i].0 + layout[i].1 by {
        assert(layout[i + 1] == rest[i]);
        if i > 0 {
            assert(layout[i] == rest[i - 1]);
        }
    }
    if rest.len() > 0 {
        assert(layout.last() == rest.last());
    }
}

/// Every colored range of `v` ends within its text.
pub open spec fn ranges_within(v: LineView) -> bool {
    forall|i: int| 0 <= i < v.ranges.len() ==> (#[trigger] v.ranges[i]).2 <= v.content.len()
}

proof fn lemma_shifted_within(ranges: Seq<(usize, usize, usize)>, offset: nat, len: nat)
    requires
        forall|i: int| 0 <= i < ranges.len() ==> (#[trigger] ranges[i]).2 <= len,
        forall|i: int| 0 <= i < ranges.len() ==> offset + (#[trigger] ranges[i]).2 <= usize::MAX,
    ensures
        forall|i: int|
            0 <= i < shifted_ranges(ranges, offset).len() ==> (#[trigger] shifted_ranges(
                ranges,
                offset,
            )[i]).2 <= offset + len,
    decreases ranges.len(),
{
    if ranges.len() > 0 {
        lemma_shifted_within(ranges.drop_last(), offset, len);
        let before = shifted_ranges(ranges.drop_last(), offset);
        let all = shifted_ranges(ranges, offset);
        assert forall|i: int| 0 <= i < all.len() implies (#[trigger] all[i]).2 <= offset + len by {
            if i < before.len() {
                assert(all[i] == before[i]);
            } else {
                assert(ranges.last() == ranges[ranges.len() - 1]);
            }
        }
    }
}

/// Range law: appending text, styled text or another line whose ranges lie within its
/// own text keeps every colored range within the line's text; a styled push colors
/// exactly the characters it appends.
pub proof fn law_ranges_stay_within(
    v: LineView,
    other: LineView,
    text: Seq<char>,
    level: Option<usize>,
)
    requires
        ranges_within(v),
        ranges_within(other),
        v.content.len() + text.len() <= usize::MAX,
        forall|i: int|
            0 <= i < other.ranges.len() ==> v.content.len() + (#[trigger] other.ranges[i]).2
                <= usize::MAX,
    ensures
        ranges_within(line_push(v, text)),
        ranges_within(line_push_styled(v, text, level)),
        level matches Some(l) ==> line_push_styled(v, text, level).ranges.last() == (
            l,
            v.content.len() as usize,
            (v.content.len() + text.len()) as usize,
        ),
        ranges_within(
            LineView {
                content: v.content + other.content,
                ranges: v.ranges + shifted_ranges(other.ranges, v.content.len()),
            },
        ),
{
    let pushed = line_push_styled(v, text, level);
    assert forall|i: int| 0 <= i < pushed.ranges.len() implies (#[trigger] pushed.ranges[i]).2
        <= pushed.content.len() by {
        if i < v.ranges.len() {
            assert(pushed.ranges[i] == v.ranges[i]);
        }
    }
    lemma_shifted_within(other.ranges, v.content.len(), other.content.len());
    let joined = LineView {
        content: v.content + other.content,
        ranges: v.ranges + shifted_ranges(other.ranges, v.content.len()),
    };
    assert forall|i: int| 0 <= i < joined.ranges.len() implies (#[trigger] joined.ranges[i]).2
        <= joined.content.len() by {
        if i >= v.ranges.len() {
            assert(joined.ranges[i] == shifted_ranges(other.ranges, v.content.len())[i
                - v.ranges.len()]);
        }
    }
}

impl Default for StyledLine {
    /// An empty line.
    fn default() -> (r: Self)
        ensures
            r@.content == Seq::<char>::empty(),
            r@.ranges == Seq::<(usize, usize, usize)>::empty(),
    {
        StyledLine::new()
    }
}

impl StyledLine {
    /// An empty line.
    pub fn new() -> (r: Self)
        ensures
            r@.content == Seq::<char>::empty(),
            r@.ranges == Seq::<(usize, usize, usize)>::empty(),
    {
        StyledLine { content: String::new(), ranges: Vec::new() }
    }

    /// A line holding `content`, with no colored range.
    pub fn from_plain(content: String) -> (r: Self)
        ensures
            r@.content == content@,
            r@.ranges == Seq::<(usize, usize, usize)>::empty(),
    {
        StyledLine { content, ranges: Vec::new() }
    }

    /// Appends uncolored text.
    pub fn push(&mut self, text: &str)
        ensures
            final(self)@ == line_push(old(self)@, text@),
    {
        self.push_styled(text, None);
    }

    /// Appends text and, when `level` is given, colors it at that level.
    pub fn push_styled(&mut self, text: &str, level: Option<usize>)
        ensures
            final(self)@ == line_push_styled(old(self)@, text@, level),
    {
        let start = self.char_len();
        self.content.append(text);
        let end = self.char_len();
        if let Some(level) = level {
            self.ranges.push((level, start, end));
        }
    }

    /// Display width of the line's text.
    pub fn visible_width(&self) -> (w: usize)
        ensures
            w == str_width(self@.content),
            self@.content.len() == 0 ==> w == 0,
    {
        display_width(self.content.as_str())
    }

    /// The line's text without colors.
    pub fn plain(&self) -> (s: &str)
        ensures
            s@ == self@.content,
    {
        self.content.as_str()
    }

    /// Number of characters of the line's text.
    pub fn char_len(&self) -> (n: usize)
        ensures
            n == self@.content.len(),
    {
        self.content.as_str().unicode_len()
    }

    /// Colors the characters `start..end` at `level`; an empty range is ignored.
    pub fn push_range(&mut self, level: usize, start: usize, end: usize)
        ensures
            final(self)@.content == old(self)@.content,
            final(self)@.ranges == if start < end {
                old(self)@.ranges.push((level, start, end))
            } else {
                old(self)@.ranges
            },
    {
        if start < end {
            self.ranges.push((level, start, end));
        }
    }

    /// Appends `other`, text and colors, its ranges moved past the current text.
    pub fn append_styled_line(&mut self, other: &StyledLine)
        requires
            forall|i: int|
                0 <= i < other@.ranges.len() ==> old(self)@.content.len() + (
                #[trigger] other@.ranges[i]).1 <= usize::MAX && old(self)@.content.len()
                    + other@.ranges[i].2 <= usize::MAX,
        ensures
            final(self)@.content == old(self)@.content + other@.content,
            final(self)@.ranges == old(self)@.ranges + shifted_ranges(
                other@.ranges,
                old(self)@.content.len(),
            ),
    {
        let offset = self.char_len();
        self.content.append(other.plain());
        let n = other.ranges.len();
        let mut i: usize = 0;
        while i < n
            invariant
                n == other@.ranges.len(),
                i <= n,
                offset == old(self)@.content.len(),
                self@.content == old(self)@.content + other@.content,
                self@.ranges == old(self)@.ranges + shifted_ranges(
                    other@.ranges.take(i as int),
                    offset as nat,
                ),
                forall|k: int|
                    0 <= k < other@.ranges.len() ==> offset + (#[trigger] other@.ranges[k]).1
                        <= usize::MAX && offset + other@.ranges[k].2 <= usize::MAX,
            decreases n - i,
        {
            let (level, start, end) = other.ranges[i];
            proof {
                assert(other@.ranges.take(i + 1).drop_last() =~= other@.ranges.take(i as int));
                assert(other@.ranges.take(i + 1).last() == other@.ranges[i as int]);
            }
            self.push_range(level, offset + start, offset + end);
            i = i + 1;
        }
        assert(other@.ranges.take(n as int) =~= other@.ranges);
    }

    /// The text with this line's colored ranges, clipped to its first `char_len` characters.
    fn colored_text(&self, t: Text, char_len: usize) -> (r: Text)
        requires
            text_indices(t) == Seq::<Seq<usize>>::empty(),
        ensures
            text_content(r) == text_content(t),
            text_flags(r) == text_flags(t),
            text_indices(r) == clipped_colors(self@.ranges, char_len as nat),
    {
        let mut text = t;
        let n = self.ranges.len();
        let mut i: usize = 0;
        assert(self@.ranges.take(0) =~= Seq::<(usize, usize, usize)>::empty());
        while i < n
            invariant
                n == self@.ranges.len(),
                i <= n,
                text_content(text) == text_content(t),
                text_flags(text) == text_flags(t),
                text_indices(text) == clipped_colors(self@.ranges.take(i as int), char_len as nat),
            decreases n - i,
        {
            let (level, start, end) = self.ranges[i];
            proof {
                assert(self@.ranges.take(i + 1).drop_last() =~= self@.ranges.take(i as int));
                assert(self@.ranges.take(i + 1).last() == self@.ranges[i as int]);
            }
            if start < char_len {
                let end_clipped = if end < char_len {
                    end
                } else {
                    char_len
                };
                if start < end_clipped {
                    text = text_color_range(text, level, start, end_clipped);
                }
            }
            i = i + 1;
        }
        assert(self@.ranges.take(n as int) =~= self@.ranges);
        text
    }

    /// Renders the line as a full opaque row of `cols` columns at row `y`: cut to fit,
    /// padded with blanks, colored.
    pub fn into_opaque_line(self, cols: usize, y: usize) -> (r: String)
        ensures
            r@ == opaque_line(self@, cols, y),
            cols > 0 ==> ui_plain(r@) == padded(truncated(self@.content, cols), cols),
            cols > 0 && str_width(truncated(self@.content, cols)) <= cols ==> str_width(
                ui_plain(r@),
            ) == cols,
            cols > 0 && prefixes_add_up(self@.content) ==> str_width(ui_plain(r@)) == cols,
    {
        if cols == 0 {
            return String::new();
        }
        let content = truncate_to_width(self.content.as_str(), cols);
        let char_len = content.as_str().unicode_len();
        let padded_content = if display_width(content.as_str()) < cols {
            pad_plain_to_width(content.as_str(), cols)
        } else {
            content
        };
        let text = text_opaque(text_new(padded_content));
        let text = self.colored_text(text, char_len);
        proof {
            assert(Set::<char>::empty().insert('z') == text_flags(text));
            law_opaque_line_plain(self@, cols, y);
        }
        serialize_text_at(&text, 0, y, Some(cols), Some(1))
    }

    /// The ribbon of this line in at most `max_width` columns, and the columns it takes.
    fn ribbon_parts(&self, selected: bool, max_width: usize) -> (r: (Text, usize))
        ensures
            text_model(r.0) == ribbon_model(self@, selected, max_width),
            r.1 == ribbon_width(self@.content, max_width),
            ribbon_text_widens(self@.content, max_width),
            prefixes_add_up(self@.content) ==> ribbon_text_fits(self@.content, max_width, r.1),
    {
        let text_budget = max_width.saturating_sub(RIBBON_CHEVRON_PAD);
        let content = truncate_to_width(
            self.content.as_str(),
            text_budget.saturating_sub(RIBBON_TEXT_TRAIL),
        );
        let char_len = content.as_str().unicode_len();
        let label_width = display_width(content.as_str());
        let mut padded_content = content;
        push_spaces(&mut padded_content, RIBBON_TEXT_TRAIL);
        let mut text = text_new(padded_content);
        if selected {
            text = text_selected(text);
        }
        let text = self.colored_text(text, char_len);
        let extra = RIBBON_TEXT_TRAIL + RIBBON_CHEVRON_PAD;
        let render_width = if max_width >= extra && label_width <= max_width - extra {
            label_width + extra
        } else {
            max_width
        };
        proof {
            assert(text_flags(text) == selected_flags(selected));
            assert(content@ + spaces(RIBBON_TEXT_TRAIL as nat) == ribbon_text(self@.content, max_width));
            if str_width(content@) + RIBBON_TEXT_TRAIL <= usize::MAX {
                assert(str_width(content@ + spaces(RIBBON_TEXT_TRAIL as nat)) == str_width(content@)
                    + RIBBON_TEXT_TRAIL);
            }
        }
        (text, render_width)
    }

    /// As `ribbon_parts`, with at least `min(min_width, max_width)` columns.
    pub(crate) fn ribbon_parts_min(&self, selected: bool, max_width: usize, min_width: usize) -> (r: (
        Text,
        usize,
    ))
        ensures
            text_model(r.0) == ribbon_model(self@, selected, max_width),
            r.1 == ribbon_min_width(self@.content, max_width, min_width),
            ribbon_text_widens(self@.content, max_width),
            prefixes_add_up(self@.content) ==> ribbon_text_fits(self@.content, max_width, r.1),
    {
        let (text, width) = self.ribbon_parts(selected, max_width);
        let floor = if min_width <= max_width {
            min_width
        } else {
            max_width
        };
        let width = if width >= floor {
            width
        } else {
            floor
        };
        (text, width)
    }

    /// Turns the line into a ribbon of at most `max_width` columns; returns it with the
    /// columns it takes, its arrows included.
    pub fn into_ribbon(self, selected: bool, max_width: usize) -> (r: (Text, usize))
        ensures
            text_model(r.0) == ribbon_model(self@, selected, max_width),
            r.1 == ribbon_width(self@.content, max_width),
            ribbon_text_widens(self@.content, max_width),
            prefixes_add_up(self@.content) ==> ribbon_text_fits(self@.content, max_width, r.1),
            str_width(self@.content) + RIBBON_TEXT_TRAIL + RIBBON_CHEVRON_PAD <= max_width ==> {
                &&& ribbon_label(self@.content, max_width) == self@.content
                &&& r.1 == str_width(self@.content) + RIBBON_TEXT_TRAIL + RIBBON_CHEVRON_PAD
            },
    {
        self.ribbon_parts(selected, max_width)
    }

    /// As `into_ribbon`, with at least `min(min_width, max_width)` columns.
    pub fn into_ribbon_min(self, selected: bool, max_width: usize, min_width: usize) -> (r: (
        Text,
        usize,
    ))
        ensures
            text_model(r.0) == ribbon_model(self@, selected, max_width),
            r.1 == ribbon_min_width(self@.content, max_width, min_width),
            ribbon_text_widens(self@.content, max_width),
            prefixes_add_up(self@.content) ==> ribbon_text_fits(self@.content, max_width, r.1),
    {
        self.ribbon_parts_min(selected, max_width, min_width)
    }
}

/// The views of the segments of a ribbon row.
pub open spec fn segment_views(segments: Seq<(StyledLine, bool)>) -> Seq<(LineView, bool)> {
    segments.map_values(|s: (StyledLine, bool)| (s.0@, s.1))
}

/// The ribbons of `segs` laid out from column `x` on, then the filler to column `cols`.
pub open spec fn ribbon_row_from(segs: Seq<(LineView, bool)>, cols: usize, y: usize, x: nat) -> Seq<
    char,
>
    decreases segs.len(),
{
    if segs.len() == 0 || x >= cols {
        row_end_filler(x, cols, y)
    } else {
        let remaining = (cols - x) as usize;
        let m = ribbon_model(segs[0].0, segs[0].1, remaining);
        let w = ribbon_width(segs[0].0.content, remaining);
        if w == 0 {
            row_end_filler(x, cols, y)
        } else {
            serialized_ribbon(m.content, m.flags, m.indices, x as usize, y, Some(w), Some(1))
                + ribbon_row_from(segs.drop_first(), cols, y, (x + w) as nat)
        }
    }
}

/// The text of every segment adds up character by character.
pub open spec fn contents_add_up(segs: Seq<(LineView, bool)>) -> bool {
    forall|i: int| 0 <= i < segs.len() ==> prefixes_add_up(#[trigger] segs[i].0.content)
}

/// Each ribbon of a row from column `x` on that is given two or more columns shows a
/// text no wider than them.
pub open spec fn ribbon_texts_fit(segs: Seq<(LineView, bool)>, cols: usize, x: nat) -> bool
    decreases segs.len(),
{
    if segs.len() == 0 || x >= cols {
        true
    } else {
        let rem = (cols - x) as usize;
        let w = ribbon_width(segs[0].0.content, rem);
        if w == 0 {
            true
        } else {
            ribbon_text_fits(segs[0].0.content, rem, w) && ribbon_texts_fit(
                segs.drop_first(),
                cols,
                (x + w) as nat,
            )
        }
    }
}

/// A row of ribbons across `cols` columns.
pub open spec fn ribbon_row(segs: Seq<(LineView, bool)>, cols: usize, y: usize) -> Seq<char> {
    if cols == 0 {
        Seq::empty()
    } else {
        ribbon_row_from(segs, cols, y, 0)
    }
}

/// Lays ribbons side by side on row `y` and fills the rest of the `cols` columns.
pub fn render_ribbon_row(segments: &[(StyledLine, bool)], cols: usize, y: usize) -> (r: String)
    ensures
        r@ == ribbon_row(segment_views(segments@), cols, y),
        contents_add_up(segment_views(segments@)) ==> ribbon_texts_fit(
            segment_views(segments@),
            cols,
            0,
        ),
{
    let ghost segs = segment_views(segments@);
    if cols == 0 {
        return String::new();
    }
    let mut output = String::new();
    let mut x: usize = 0;
    let n = segments.len();
    let mut i: usize = 0;
    assert(segs.skip(0) =~= segs);
    assert(output@ =~= Seq::<char>::empty());
    while i < n
        invariant_except_break
            ribbon_row(segs, cols, y) == output@ + ribbon_row_from(segs.skip(i as int), cols, y, x as nat),
        invariant
            n == segments@.len(),
            segs == segment_views(segments@),
            cols > 0,
            i <= n,
            x <= cols,
            contents_add_up(segs) ==> (ribbon_texts_fit(segs.skip(i as int), cols, x as nat)
                ==> ribbon_texts_fit(segs, cols, 0)),
        ensures
            ribbon_row(segs, cols, y) == output@ + row_end_filler(x as nat, cols, y),
            contents_add_up(segs) ==> ribbon_texts_fit(segs, cols, 0),
        decreases n - i,
    {
        let ghost rest = segs.skip(i as int);
        assert(rest[0] == (segments@[i as int].0@, segments@[i as int].1));
        assert(rest.drop_first() =~= segs.skip(i + 1));
        if x >= cols {
            break;
        }
        let remaining = cols - x;
        let (segment, selected) = &segments[i];
        let (ribbon, width) = segment.ribbon_parts(*selected, remaining);
        if width == 0 {
            break;
        }
        proof {
            if contents_add_up(segs) {
                assert(segs[i as int] == rest[0]);
            }
        }
        let part = serialize_ribbon_at(&ribbon, x, y, Some(width), Some(1));
        output.append(part.as_str());
        x = x + width;
        i = i + 1;
    }
    proof {
        if i == n {
            assert(segs.skip(i as int).len() == 0);
        }
    }
    if x < cols {
        let fill = opaque_filler(x, cols - x, y);
        output.append(fill.as_str());
    }
    assert(output@ =~= ribbon_row(segs, cols, y));
    output
}

fn pad_plain_to_width(text: &str, target_width: usize) -> (r: String)
    ensures
        r@ == padded(text@, target_width),
        str_width(text@) < target_width ==> str_width(r@) == target_width,
{
    let width = display_width(text);
    if width >= target_width {
        return text.to_owned();
    }
    let mut out = text.to_owned();
    push_spaces(&mut out, target_width - width);
    assert(str_width(text@ + spaces((target_width - width) as nat)) == target_width);
    out
}

/// Opaque blank cells at column `x` of row `y`, `width` columns wide.
pub fn opaque_filler(x: usize, width: usize, y: usize) -> (r: String)
    ensures
        r@ == filler(x, width, y),
{
    if width == 0 {
        return String::new();
    }
    let mut blanks = String::new();
    push_spaces(&mut blanks, width);
    let text = text_opaque(text_new(blanks));
    proof {
        assert(Set::<char>::empty().insert('z') == text_flags(text));
        assert(blanks@ =~= spaces(width as nat));
    }
    serialize_text_at(&text, x, y, Some(width), Some(1))
}

/// Renders plain text as a full opaque row of `cols` columns at row `y`.
pub fn opaque_plain_line(line: &str, cols: usize, y: usize) -> (r: String)
    ensures
        r@ == opaque_line(LineView { content: line@, ranges: Seq::empty() }, cols, y),
{
    if cols == 0 {
        return String::new();
    }
    let truncated_line = truncate_to_width(line, cols);
    let padded_line = if display_width(truncated_line.as_str()) < cols {
        pad_plain_to_width(truncated_line.as_str(), cols)
    } else {
        truncated_line
    };
    let text = text_opaque(text_new(padded_line));
    proof {
        assert(Set::<char>::empty().insert('z') == text_flags(text));
        assert(clipped_colors(Seq::empty(), truncated(line@, cols).len()) == Seq::<Seq<usize>>::empty());
    }
    serialize_text_at(&text, 0, y, Some(cols), Some(1))
}

/// The columns `(x, width)` that the ribbons of a ribbon row take from column `x` on.
pub open spec fn ribbon_row_layout(segs: Seq<(LineView, bool)>, cols: usize, x: nat) -> Seq<
    (nat, nat),
>
    decreases segs.len(),
{
    if segs.len() == 0 || x >= cols {
        Seq::empty()
    } else {
        let w = ribbon_width(segs[0].0.content, (cols - x) as usize);
        if w == 0 {
            Seq::empty()
        } else {
            seq![(x, w as nat)] + ribbon_row_layout(segs.drop_first(), cols, (x + w) as nat)
        }
    }
}

/// The serialized ribbons of `segs` at the places `layout` gives them.
pub open spec fn placed_ribbons(
    segs: Seq<(LineView, bool)>,
    layout: Seq<(nat, nat)>,
    cols: usize,
    y: usize,
) -> Seq<char>
    decreases layout.len(),
{
    if layout.len() == 0 || segs.len() == 0 {
        Seq::empty()
    } else {
        let (x, w) = layout[0];
        let m = ribbon_model(segs[0].0, segs[0].1, (cols - x) as usize);
        serialized_ribbon(m.content, m.flags, m.indices, x as usize, y, Some(w as usize), Some(1))
            + placed_ribbons(segs.drop_first(), layout.drop_first(), cols, y)
    }
}

proof fn lemma_ribbon_width_bounded(content: Seq<char>, max_width: usize)
    ensures
        ribbon_width(content, max_width) <= max_width,
{
}

/// Layout law of a ribbon row: its ribbons stand side by side from column `x`, none
/// past column `cols`, at most one per segment, and the row is the ribbons at those
/// places followed by blank cells from where they end up to `cols`.
#[verifier::spinoff_prover]
#[verifier::rlimit(100)]
pub proof fn law_ribbon_row_fits(segs: Seq<(LineView, bool)>, cols: usize, y: usize, x: nat)
    requires
        x <= cols,
    ensures
        ({
            let layout = ribbon_row_layout(segs, cols, x);
            &&& layout.len() <= segs.len()
            &&& fits_columns(layout, x, cols)
            &&& ribbon_row_from(segs, cols, y, x) == placed_ribbons(segs, layout, cols, y)
                + row_end_filler(layout_end(layout, x), cols, y)
        }),
    decreases segs.len(),
{
    let layout = ribbon_row_layout(segs, cols, x);
    if segs.len() == 0 || x >= cols {
    } else {
        let w = ribbon_width(segs[0].0.content, (cols - x) as usize);
        if w > 0 {
            let rem = (cols - x) as usize;
            lemma_ribbon_width_bounded(segs[0].0.content, rem);
            let next = (x + w) as nat;
            law_ribbon_row_fits(segs.drop_first(), cols, y, next);
            let rest = ribbon_row_layout(segs.drop_first(), cols, next);
            assert(layout == seq![(x, w as nat)] + rest);
            lemma_layout_cons(x, w as nat, rest, cols);
            let m = ribbon_model(segs[0].0, segs[0].1, rem);
            let part = serialized_ribbon(m.content, m.flags, m.indices, x as usize, y, Some(w), Some(1));
            assert(ribbon_row_from(segs, cols, y, x) == part + ribbon_row_from(
                segs.drop_first(),
                cols,
                y,
                next,
            ));
            assert(placed_ribbons(segs, layout, cols, y) == part + placed_ribbons(
                segs.drop_first(),
                rest,
                cols,
                y,
            ));
        }
    }
}

/// The blanks that fill a row from column `x` to `cols`.
pub open spec fn end_blanks(x: nat, cols: usize) -> Seq<char> {
    if x < cols {
        spaces((cols - x) as nat)
    } else {
        Seq::empty()
    }
}

/// The texts of the ribbons of a row from column `x` on, one after another.
pub open spec fn ribbon_texts_from(segs: Seq<(LineView, bool)>, cols: usize, x: nat) -> Seq<char>
    decreases segs.len(),
{
    if segs.len() == 0 || x >= cols {
        Seq::empty()
    } else {
        let rem = (cols - x) as usize;
        let w = ribbon_width(segs[0].0.content, rem);
        if w == 0 {
            Seq::empty()
        } else {
            ribbon_text(segs[0].0.content, rem) + ribbon_texts_from(segs.drop_first(), cols, (x + w) as nat)
        }
    }
}

/// The column where the ribbons of a row from column `x` on end.
pub open spec fn ribbon_end_from(segs: Seq<(LineView, bool)>, cols: usize, x: nat) -> nat
    decreases segs.len(),
{
    if segs.len() == 0 || x >= cols {
        x
    } else {
        let w = ribbon_width(segs[0].0.content, (cols - x) as usize);
        if w == 0 {
            x
        } else {
            ribbon_end_from(segs.drop_first(), cols, (x + w) as nat)
        }
    }
}

/// The filler that ends a row: no text component, or one of blanks.
pub proof fn lemma_filler_plain(x: nat, cols: usize, y: usize, tag: Seq<char>)
    requires
        tag == text_tag() || tag == ribbon_tag(),
    ensures
        starts_component(row_end_filler(x, cols, y)),
        tagged_plain(row_end_filler(x, cols, y), tag, 0) == if tag == text_tag() {
            end_blanks(x, cols)
        } else {
            Seq::empty()
        },
{
    let empty = Seq::<char>::empty();
    let text_name = seq!['t', 'e', 'x', 't'];
    assert(text_tag() == seq!['P', 'z'] + text_name + seq![';']);
    assert(text_tag() != ribbon_tag()) by {
        assert(text_tag()[2] != ribbon_tag()[2]);
    }
    assert(tagged_plain(empty, tag, 0) == empty);
    if x < cols {
        let fw = (cols - x) as usize;
        let flags = Set::<char>::empty().insert('z');
        let f = serialized_component(text_name, spaces(fw as nat), flags, Seq::empty(), x as usize, y, Some(fw), Some(1));
        assert(row_end_filler(x, cols, y) == f);
        assert(f + empty =~= f);
        lemma_component_tagged(text_name, spaces(fw as nat), flags, Seq::empty(), x as usize, y, Some(fw), Some(1), empty, tag);
        assert(spaces(fw as nat) + empty =~= spaces(fw as nat));
        assert(empty + empty =~= empty);
    }
}

/// What a ribbon row shows: the blanks at its end (its only text component), then the
/// texts of its ribbons (its ribbon components).
#[verifier::spinoff_prover]
pub proof fn law_ribbon_row_plain(segs: Seq<(LineView, bool)>, cols: usize, y: usize, x: nat)
    requires
        x <= cols,
    ensures
        starts_component(ribbon_row_from(segs, cols, y, x)),
        tagged_plain(ribbon_row_from(segs, cols, y, x), text_tag(), 0) == end_blanks(
            ribbon_end_from(segs, cols, x),
            cols,
        ),
        tagged_plain(ribbon_row_from(segs, cols, y, x), ribbon_tag(), 0) == ribbon_texts_from(
            segs,
            cols,
            x,
        ),
        components_plain(ribbon_row_from(segs, cols, y, x)) == end_blanks(
            ribbon_end_from(segs, cols, x),
            cols,
        ) + ribbon_texts_from(segs, cols, x),
    decreases segs.len(),
{
    let empty = Seq::<char>::empty();
    let ribbon_name = seq!['r', 'i', 'b', 'b', 'o', 'n'];
    assert(ribbon_tag() == seq!['P', 'z'] + ribbon_name + seq![';']);
    assert(text_tag() != ribbon_tag()) by {
        assert(text_tag()[2] != ribbon_tag()[2]);
    }
    let stop = segs.len() == 0 || x >= cols || ribbon_width(segs[0].0.content, (cols - x) as usize) == 0;
    if stop {
        lemma_filler_plain(x, cols, y, text_tag());
        lemma_filler_plain(x, cols, y, ribbon_tag());
        assert(ribbon_row_from(segs, cols, y, x) == row_end_filler(x, cols, y));
        assert(end_blanks(x, cols) + empty =~= end_blanks(x, cols));
    } else {
        let rem = (cols - x) as usize;
        let w = ribbon_width(segs[0].0.content, rem);
        lemma_ribbon_width_bounded(segs[0].0.content, rem);
        let next = (x + w) as nat;
        law_ribbon_row_plain(segs.drop_first(), cols, y, next);
        let rest = ribbon_row_from(segs.drop_first(), cols, y, next);
        let m = ribbon_model(segs[0].0, segs[0].1, rem);
        assert(m.flags =~= Set::<char>::empty().insert('x') || m.flags =~= Set::<char>::empty());
        assert(ribbon_row_from(segs, cols, y, x) == serialized_component(
            ribbon_name,
            m.content,
            m.flags,
            m.indices,
            x as usize,
            y,
            Some(w),
            Some(1),
        ) + rest);
        lemma_component_tagged(ribbon_name, m.content, m.flags, m.indices, x as usize, y, Some(w), Some(1), rest, text_tag());
        lemma_component_tagged(ribbon_name, m.content, m.flags, m.indices, x as usize, y, Some(w), Some(1), rest, ribbon_tag());
        assert(empty + tagged_plain(rest, text_tag(), 0) =~= tagged_plain(rest, text_tag(), 0));
    }
}

/// The display widths of the texts of the ribbons of a row from column `x` on, added up.
pub open spec fn ribbon_texts_width(segs: Seq<(LineView, bool)>, cols: usize, x: nat) -> nat
    decreases segs.len(),
{
    if segs.len() == 0 || x >= cols {
        0
    } else {
        let rem = (cols - x) as usize;
        let w = ribbon_width(segs[0].0.content, rem);
        if w == 0 {
            0
        } else {
            str_width(ribbon_text(segs[0].0.content, rem)) as nat + ribbon_texts_width(
                segs.drop_first(),
                cols,
                (x + w) as nat,
            )
        }
    }
}

/// Width law of a ribbon row: when each ribbon's text fits the columns it is given (as
/// `render_ribbon_row` ensures where the texts add up) and no ribbon is given a single
/// column, the ribbon texts and the blanks that end the row take at most `cols - x`
/// columns together.
#[verifier::spinoff_prover]
pub proof fn law_ribbon_row_visible_fits(segs: Seq<(LineView, bool)>, cols: usize, x: nat)
    requires
        x <= cols,
        ribbon_texts_fit(segs, cols, x),
        forall|i: int|
            0 <= i < ribbon_row_layout(segs, cols, x).len() ==> (#[trigger] ribbon_row_layout(
                segs,
                cols,
                x,
            )[i]).1 >= 2,
    ensures
        ribbon_texts_width(segs, cols, x) + x <= ribbon_end_from(segs, cols, x),
        ribbon_end_from(segs, cols, x) <= cols,
        ribbon_texts_width(segs, cols, x) + (cols - ribbon_end_from(segs, cols, x)) + x <= cols,
    decreases segs.len(),
{
    if !(segs.len() == 0 || x >= cols) {
        let rem = (cols - x) as usize;
        let w = ribbon_width(segs[0].0.content, rem);
        if w > 0 {
            lemma_ribbon_width_bounded(segs[0].0.content, rem);
            let next = (x + w) as nat;
            let layout = ribbon_row_layout(segs, cols, x);
            let rest_layout = ribbon_row_layout(segs.drop_first(), cols, next);
            assert(layout == seq![(x, w as nat)] + rest_layout);
            assert(layout[0].1 >= 2);
            assert forall|i: int| 0 <= i < rest_layout.len() implies (#[trigger] rest_layout[i]).1 >= 2 by {
                assert(rest_layout[i] == layout[i + 1]);
            }
            law_ribbon_row_visible_fits(segs.drop_first(), cols, next);
        }
    }
}

} // verus!
