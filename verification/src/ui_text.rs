use vstd::prelude::*;
use vstd::utf8::encode_utf8;
use crate::strings::decimal;
use crate::ui_decode::{find_from, lemma_find_from_bounds};
use zellij_tile::ui_components::{
    serialize_ribbon_with_coordinates, serialize_text_with_coordinates, Text,
};

verus! {

#[verifier::external_type_specification]
#[verifier::external_body]
pub struct ExText(Text);

/// The characters that a `Text` holds.
pub uninterp spec fn text_content(text: Text) -> Seq<char>;

/// The flag letters that `Text::serialize` writes in front of the color indices:
/// `'x'` for a selected text, `'z'` for an opaque one, `'d'` for a disabled one.
pub uninterp spec fn text_flags(text: Text) -> Set<char>;

/// The character indices that a `Text` colors, one list per emphasis level.
pub uninterp spec fn text_indices(text: Text) -> Seq<Seq<usize>>;

/// The numbers of `s` in decimal, separated by commas (`join(",")`).
pub open spec fn comma_joined(s: Seq<nat>) -> Seq<char>
    decreases s.len(),
{
    if s.len() == 0 {
        Seq::empty()
    } else if s.len() == 1 {
        decimal(s[0])
    } else {
        decimal(s[0]) + seq![','] + comma_joined(s.drop_first())
    }
}

/// The bytes of `bytes` in decimal, separated by commas.
pub open spec fn byte_list(bytes: Seq<u8>) -> Seq<char> {
    comma_joined(bytes.map_values(|b: u8| b as nat))
}

/// Each index list in decimal, separated by commas and ended by `$`.
pub open spec fn index_lists(indices: Seq<Seq<usize>>) -> Seq<char>
    decreases indices.len(),
{
    if indices.len() == 0 {
        Seq::empty()
    } else {
        comma_joined(indices[0].map_values(|i: usize| i as nat)) + seq!['$'] + index_lists(
            indices.drop_first(),
        )
    }
}

/// The flag letters in the order `Text::serialize` writes them: `x`, `z`, `d`.
pub open spec fn flag_prefix(flags: Set<char>) -> Seq<char> {
    (if flags.contains('x') {
        seq!['x']
    } else {
        Seq::empty()
    }) + (if flags.contains('z') {
        seq!['z']
    } else {
        Seq::empty()
    }) + (if flags.contains('d') {
        seq!['d']
    } else {
        Seq::empty()
    })
}

/// What `Text::serialize` writes: the flags, the index lists, then the UTF-8 bytes of
/// the content in decimal, separated by commas.
pub open spec fn serialized_body(content: Seq<char>, flags: Set<char>, indices: Seq<Seq<usize>>) -> Seq<
    char,
> {
    flag_prefix(flags) + index_lists(indices) + byte_list(encode_utf8(content))
}

/// A number in decimal, or nothing for `None`.
pub open spec fn optional_decimal(v: Option<usize>) -> Seq<char> {
    match v {
        Some(n) => decimal(n as nat),
        None => Seq::empty(),
    }
}

/// `ESC P z`, the tag, `;x/y/width/height;`, the serialized text, then `ESC \`.
#[verifier::opaque]
pub open spec fn serialized_component(
    tag: Seq<char>,
    content: Seq<char>,
    flags: Set<char>,
    indices: Seq<Seq<usize>>,
    x: usize,
    y: usize,
    width: Option<usize>,
    height: Option<usize>,
) -> Seq<char> {
    seq!['\u{1b}', 'P', 'z'] + tag + seq![';'] + decimal(x as nat) + seq!['/'] + decimal(y as nat)
        + seq!['/'] + optional_decimal(width) + seq!['/'] + optional_decimal(height) + seq![';']
        + serialized_body(content, flags, indices) + seq!['\u{1b}', '\\']
}

/// What `zellij_tile::ui_components::serialize_text_with_coordinates` writes for a
/// text with the given content, flags and indices at the given place.
pub open spec fn serialized_text(
    content: Seq<char>,
    flags: Set<char>,
    indices: Seq<Seq<usize>>,
    x: usize,
    y: usize,
    width: Option<usize>,
    height: Option<usize>,
) -> Seq<char> {
    serialized_component(seq!['t', 'e', 'x', 't'], content, flags, indices, x, y, width, height)
}

/// What `zellij_tile::ui_components::serialize_ribbon_with_coordinates` writes for a
/// text with the given content, flags and indices at the given place.
pub open spec fn serialized_ribbon(
    content: Seq<char>,
    flags: Set<char>,
    indices: Seq<Seq<usize>>,
    x: usize,
    y: usize,
    width: Option<usize>,
    height: Option<usize>,
) -> Seq<char> {
    serialized_component(
        seq!['r', 'i', 'b', 'b', 'o', 'n'],
        content,
        flags,
        indices,
        x,
        y,
        width,
        height,
    )
}

/// The index lists after coloring, at `level`, each occurrence of `substring` in
/// `content` that starts at or after character `from`, from left to right, each search
/// going on after the end of the occurrence it found.
pub open spec fn substring_colors_from(
    content: Seq<char>,
    indices: Seq<Seq<usize>>,
    level: usize,
    substring: Seq<char>,
    from: nat,
) -> Seq<Seq<usize>>
    decreases content.len() - from,
{
    match find_from(content, substring, from) {
        Some(p) => {
            proof {
                lemma_find_from_bounds(content, substring, from);
            }
            substring_colors_from(
                content,
                color_range_indices(indices, level, p as usize, (p + substring.len()) as usize),
                level,
                substring,
                p + substring.len(),
            )
        },
        None => indices,
    }
}

/// The index lists after `Text::color_substring(level, substring)` on a text with
/// the given content and index lists: every occurrence, none overlapping, by character
/// index.
pub open spec fn colored_substring_indices(
    content: Seq<char>,
    indices: Seq<Seq<usize>>,
    level: usize,
    substring: Seq<char>,
) -> Seq<Seq<usize>> {
    substring_colors_from(content, indices, level, substring, 0)
}

/// Everything of a `Text` that its serialization reads.
pub struct TextModel {
    pub content: Seq<char>,
    pub flags: Set<char>,
    pub indices: Seq<Seq<usize>>,
}

pub open spec fn text_model(text: Text) -> TextModel {
    TextModel {
        content: text_content(text),
        flags: text_flags(text),
        indices: text_indices(text),
    }
}

/// The index lists padded with empty lists so that `level` has one.
pub open spec fn levels_up_to(indices: Seq<Seq<usize>>, level: usize) -> Seq<Seq<usize>> {
    if level < indices.len() {
        indices
    } else {
        indices + Seq::new((level + 1 - indices.len()) as nat, |_i: int| Seq::<usize>::empty())
    }
}

/// The indices `start`, `start + 1`, ..., `end - 1`.
pub open spec fn index_range(start: usize, end: usize) -> Seq<usize> {
    if start < end {
        Seq::new((end - start) as nat, |i: int| (start + i) as usize)
    } else {
        Seq::empty()
    }
}

/// The index lists after `Text::color_range(level, start..end)`.
pub open spec fn color_range_indices(
    indices: Seq<Seq<usize>>,
    level: usize,
    start: usize,
    end: usize,
) -> Seq<Seq<usize>> {
    let padded = levels_up_to(indices, level);
    padded.update(level as int, padded[level as int] + index_range(start, end))
}

/// Calls `Text::new`: the text holds `content`, no flag and no color index.
#[verifier::external_body]
pub(crate) fn text_new(content: String) -> (t: Text)
    ensures
        text_content(t) == content@,
        text_flags(t) == Set::<char>::empty(),
        text_indices(t) == Seq::<Seq<usize>>::empty(),
{
    Text::new(content)
}

/// Calls `Text::selected`, which sets the selected flag and changes nothing else.
#[verifier::external_body]
pub(crate) fn text_selected(t: Text) -> (r: Text)
    ensures
        text_content(r) == text_content(t),
        text_flags(r) == text_flags(t).insert('x'),
        text_indices(r) == text_indices(t),
{
    t.selected()
}

/// Calls `Text::opaque`, which sets the opaque flag and changes nothing else.
#[verifier::external_body]
pub(crate) fn text_opaque(t: Text) -> (r: Text)
    ensures
        text_content(r) == text_content(t),
        text_flags(r) == text_flags(t).insert('z'),
        text_indices(r) == text_indices(t),
{
    t.opaque()
}

/// Calls `Text::color_range(level, start..end)`: pads the index lists up to `level`
/// and appends `start..end` to the list of `level`.
#[verifier::external_body]
pub(crate) fn text_color_range(t: Text, level: usize, start: usize, end: usize) -> (r: Text)
    ensures
        text_content(r) == text_content(t),
        text_flags(r) == text_flags(t),
        text_indices(r) == color_range_indices(text_indices(t), level, start, end),
{
    t.color_range(level, start..end)
}

/// Calls `Text::error_color_all`, which is `color_range(6, ..)`: all characters at the
/// error level.
#[verifier::external_body]
pub(crate) fn text_error_color_all(t: Text) -> (r: Text)
    ensures
        text_content(r) == text_content(t),
        text_flags(r) == text_flags(t),
        text_indices(r) == color_range_indices(
            text_indices(t),
            6,
            0,
            text_content(t).len() as usize,
        ),
{
    t.error_color_all()
}

/// Calls `Text::color_substring(level, substring)`, which searches the text for the
/// substring (`str::find` on the bytes, from where the last occurrence ended) and colors
/// each occurrence found with `color_range`, at its character indices. A match of one
/// UTF-8 text in another starts and ends on character boundaries, so the search is
/// stated over characters. An empty substring would make its search loop forever,
/// hence the `requires`.
#[verifier::external_body]
pub(crate) fn text_color_substring(t: Text, level: usize, substring: &str) -> (r: Text)
    requires
        substring@.len() > 0,
    ensures
        text_content(r) == text_content(t),
        text_flags(r) == text_flags(t),
        text_indices(r) == colored_substring_indices(
            text_content(t),
            text_indices(t),
            level,
            substring@,
        ),
{
    t.color_substring(level, substring)
}

/// Calls `serialize_text_with_coordinates`, which writes `ESC Pztext;`, the place as
/// `x/y/width/height` (an absent size left empty), `;`, what `Text::serialize` writes
/// (the flags `x`, `z`, `d` in that order, each index list joined by `,` and ended by
/// `$`, then the content's UTF-8 bytes in decimal joined by `,`) and `ESC \`.
#[verifier::external_body]
pub(crate) fn serialize_text_at(
    t: &Text,
    x: usize,
    y: usize,
    width: Option<usize>,
    height: Option<usize>,
) -> (s: String)
    ensures
        s@ == serialized_text(
            text_content(*t),
            text_flags(*t),
            text_indices(*t),
            x,
            y,
            width,
            height,
        ),
{
    serialize_text_with_coordinates(t, x, y, width, height)
}

/// Calls `serialize_ribbon_with_coordinates`, which writes as `serialize_text_at`
/// does with the tag `ribbon` in place of `text`.
#[verifier::external_body]
pub(crate) fn serialize_ribbon_at(
    t: &Text,
    x: usize,
    y: usize,
    width: Option<usize>,
    height: Option<usize>,
) -> (s: String)
    ensures
        s@ == serialized_ribbon(
            text_content(*t),
            text_flags(*t),
            text_indices(*t),
            x,
            y,
            width,
            height,
        ),
{
    serialize_ribbon_with_coordinates(t, x, y, width, height)
}

} // verus!
