use vstd::prelude::*;
use vstd::string::*;
use unicode_width::{UnicodeWidthChar, UnicodeWidthStr};
use crate::strings::{push_char, push_spaces, spaces};

verus! {

/// The display width that `unicode_width::UnicodeWidthStr::width` gives a string.
pub uninterp spec fn str_width(s: Seq<char>) -> usize;

/// The display width that `unicode_width::UnicodeWidthChar::width` gives a character
/// (`None` for a control character).
pub uninterp spec fn char_width(c: char) -> Option<usize>;

/// Calls `UnicodeWidthStr::width`. Its result is named by `str_width`. The crate's
/// source (`lookup::str_width`, a fold from the end that starts at 0 with the default
/// state) also shows the facts stated here, each as long as the sum does not wrap: an
/// empty string has width 0; each space appended to `text` adds one column (a space
/// weighs 1 and leaves the fold in its starting state); and `…` is one column wide and
/// adds one column to whatever it ends (its entry in the width tables is 1, with the
/// default state). Nothing else is stated of the width.
#[verifier::external_body]
fn unicode_str_width(text: &str) -> (w: usize)
    ensures
        w == str_width(text@),
        text@.len() == 0 ==> w == 0,
        forall|k: nat| w + k <= usize::MAX ==> #[trigger] str_width(text@ + spaces(k)) == w + k,
        text@ == ellipsis() ==> w == 1 && forall|a: Seq<char>|
            str_width(a) + w <= usize::MAX ==> #[trigger] str_width(a + ellipsis()) == str_width(a) + w,
{
    UnicodeWidthStr::width(text)
}

/// Calls `UnicodeWidthChar::width`. Its result is named by `char_width`.
#[verifier::external_body]
fn unicode_char_width(c: char) -> (w: Option<usize>)
    ensures
        w == char_width(c),
{
    UnicodeWidthChar::width(c)
}

/// Width that truncation counts for one character: its display width, 0 for a
/// control character.
pub open spec fn column_width(c: char) -> nat {
    match char_width(c) {
        Some(w) => w as nat,
        None => 0,
    }
}

/// Number of leading characters of `s` whose column widths add up to at most `budget`.
pub open spec fn fit_len(s: Seq<char>, budget: int) -> nat
    decreases s.len(),
{
    if s.len() == 0 {
        0
    } else if column_width(s[0]) > budget {
        0
    } else {
        1 + fit_len(s.drop_first(), budget - column_width(s[0]))
    }
}

/// Sum of the column widths of the characters of `s`.
pub open spec fn columns(s: Seq<char>) -> nat
    decreases s.len(),
{
    if s.len() == 0 {
        0
    } else {
        column_width(s[0]) + columns(s.drop_first())
    }
}

/// The marker that ends a truncated text.
pub open spec fn ellipsis() -> Seq<char> {
    seq!['\u{2026}']
}

/// `text` cut down to fit `max_width` columns, as `truncate_to_width` returns it.
pub open spec fn truncated(text: Seq<char>, max_width: usize) -> Seq<char> {
    if str_width(text) <= max_width {
        text
    } else if max_width == 0 {
        Seq::empty()
    } else if max_width <= str_width(ellipsis()) {
        ellipsis()
    } else {
        text.take(fit_len(text, max_width - str_width(ellipsis())) as int) + ellipsis()
    }
}

/// `text` followed by the spaces that bring its display width up to `target_width`.
pub open spec fn padded(text: Seq<char>, target_width: usize) -> Seq<char> {
    if str_width(text) >= target_width {
        text
    } else {
        text + spaces((target_width - str_width(text)) as nat)
    }
}

pub open spec fn is_csi_final(c: char) -> bool {
    '@' <= c && c <= '~'
}

/// Number of characters up to and including the first final byte of a control
/// sequence (all of `s` when it has none).
pub open spec fn csi_len(s: Seq<char>) -> nat
    decreases s.len(),
{
    if s.len() == 0 {
        0
    } else if is_csi_final(s[0]) {
        1
    } else {
        1 + csi_len(s.drop_first())
    }
}

pub proof fn lemma_csi_len_bound(s: Seq<char>)
    ensures
        csi_len(s) <= s.len(),
    decreases s.len(),
{
    if s.len() > 0 {
        lemma_csi_len_bound(s.drop_first());
    }
}

/// `s` without its ANSI control sequences (`ESC [` up to a final character in `@..=~`).
pub open spec fn ansi_stripped(s: Seq<char>) -> Seq<char>
    decreases s.len(),
{
    if s.len() == 0 {
        s
    } else if s[0] == '\u{1b}' && s.len() > 1 && s[1] == '[' {
        proof {
            lemma_csi_len_bound(s.skip(2));
        }
        ansi_stripped(s.skip(2).skip(csi_len(s.skip(2)) as int))
    } else {
        seq![s[0]] + ansi_stripped(s.drop_first())
    }
}

/// Display width of `text` in terminal columns.
pub fn display_width(text: &str) -> (w: usize)
    ensures
        w == str_width(text@),
        text@.len() == 0 ==> w == 0,
        forall|k: nat| w + k <= usize::MAX ==> #[trigger] str_width(text@ + spaces(k)) == w + k,
        text@ == ellipsis() ==> w == 1 && forall|a: Seq<char>|
            str_width(a) + w <= usize::MAX ==> #[trigger] str_width(a + ellipsis()) == str_width(a) + w,
{
    unicode_str_width(text)
}

fn ellipsis_str() -> (s: &'static str)
    ensures
        s@ == ellipsis(),
{
    let s = "\u{2026}";
    proof {
        reveal_strlit("\u{2026}");
    }
    s
}

proof fn lemma_skip_step(s: Seq<char>, i: int)
    requires
        0 <= i < s.len(),
    ensures
        s.skip(i)[0] == s[i],
        s.skip(i).drop_first() =~= s.skip(i + 1),
        s.skip(i).len() > 0,
{
}

/// Cuts `text` to at most `max_width` columns; a cut text ends with `…`.
pub fn truncate_to_width(text: &str, max_width: usize) -> (r: String)
    ensures
        r@ == truncated(text@, max_width),
        prefixes_add_up(text@) ==> str_width(r@) <= max_width,
        prefixes_add_up(text@) ==> truncated(r@, max_width) == r@,
{
    if display_width(text) <= max_width {
        return text.to_owned();
    }
    if max_width == 0 {
        proof {
            assert(text@.take(0) =~= Seq::<char>::empty());
            assert(columns(Seq::<char>::empty()) == 0);
        }
        return String::new();
    }
    let ellipsis = ellipsis_str();
    let ellipsis_width = display_width(ellipsis);
    if max_width <= ellipsis_width {
        return ellipsis.to_owned();
    }
    let target = max_width - ellipsis_width;
    let mut width: usize = 0;
    let mut output = String::new();
    let n = text.unicode_len();
    let mut i: usize = 0;
    assert(text@.skip(0) =~= text@);
    while i < n
        invariant_except_break
            fit_len(text@, target as int) == i + fit_len(text@.skip(i as int), target - width),
        invariant
            n == text@.len(),
            i <= n,
            width <= target,
            output@ == text@.take(i as int),
        ensures
            output@ == text@.take(fit_len(text@, target as int) as int),
        decreases n - i,
    {
        let ch = text.get_char(i);
        proof {
            lemma_skip_step(text@, i as int);
        }
        let ch_width: usize = match unicode_char_width(ch) {
            Some(w) => w,
            None => 0,
        };
        if ch_width > target - width {
            break;
        }
        push_char(&mut output, ch);
        width = width + ch_width;
        i = i + 1;
        assert(output@ =~= text@.take(i as int));
    }
    proof {
        if i == n {
            assert(text@.skip(i as int).len() == 0);
        }
    }
    proof {
        let k = fit_len(text@, target as int);
        lemma_fit_len_fits(text@, target as int);
        if prefixes_add_up(text@) {
            assert(str_width(text@.take(k as int)) == columns(text@.take(k as int)));
            assert(str_width(text@.take(k as int) + ellipsis@) == str_width(text@.take(k as int)) + 1);
        }
    }
    let mut result = output;
    result.append(ellipsis);
    result
}

/// Appends spaces to `text` up to a display width of `target_width`.
pub fn pad_to_width(text: &str, target_width: usize) -> (r: String)
    ensures
        r@ == padded(text@, target_width),
        str_width(text@) < target_width ==> str_width(r@) == target_width,
{
    let width = display_width(text);
    if width >= target_width {
        return text.to_owned();
    }
    let mut out = text.to_owned();
    push_spaces(&mut out, target_width - width);
    assert(str_width(text@ + spaces((target_width - width) as nat)) == target_width);
    out
}

/// Removes the ANSI control sequences (`ESC [ … final`) from `text`.
pub fn strip_ansi(text: &str) -> (r: String)
    ensures
        r@ == ansi_stripped(text@),
{
    let mut output = String::new();
    let n = text.unicode_len();
    let mut i: usize = 0;
    assert(text@.skip(0) =~= text@);
    assert(output@ =~= Seq::<char>::empty());
    while i < n
        invariant
            n == text@.len(),
            i <= n,
            ansi_stripped(text@) == output@ + ansi_stripped(text@.skip(i as int)),
        decreases n - i,
    {
        let ch = text.get_char(i);
        proof {
            lemma_skip_step(text@, i as int);
        }
        if ch == '\u{1b}' && i + 1 < n && text.get_char(i + 1) == '[' {
            let ghost rest = text@.skip(i as int);
            proof {
                lemma_skip_step(text@, i as int + 1);
                assert(rest[1] == '[');
                assert(rest.skip(2) =~= text@.skip(i + 2));
            }
            let mut j: usize = i + 2;
            while j < n
                invariant_except_break
                    csi_len(text@.skip(i + 2)) == (j - (i + 2)) + csi_len(text@.skip(j as int)),
                invariant
                    n == text@.len(),
                    i + 2 <= j <= n,
                ensures
                    i + 2 + csi_len(text@.skip(i + 2)) == j,
                decreases n - j,
            {
                let next = text.get_char(j);
                proof {
                    lemma_skip_step(text@, j as int);
                }
                j = j + 1;
                if '@' <= next && next <= '~' {
                    break;
                }
            }
            proof {
                if j == n {
                    assert(text@.skip(j as int).len() == 0);
                }
                assert(rest.skip(2).skip(csi_len(rest.skip(2)) as int) =~= text@.skip(j as int));
            }
            i = j;
        } else {
            proof {
                let rest = text@.skip(i as int);
                if rest[0] == '\u{1b}' && rest.len() > 1 {
                    lemma_skip_step(text@, i as int + 1);
                }
            }
            push_char(&mut output, ch);
            i = i + 1;
            assert(output@ + ansi_stripped(text@.skip(i as int)) =~= ansi_stripped(text@));
        }
    }
    proof {
        assert(text@.skip(i as int).len() == 0);
    }
    assert(output@ =~= ansi_stripped(text@));
    output
}

/// Display width of `text` once its ANSI control sequences are removed.
pub fn visible_width(text: &str) -> (w: usize)
    ensures
        w == str_width(ansi_stripped(text@)),
{
    let stripped = strip_ansi(text);
    display_width(stripped.as_str())
}

proof fn lemma_fit_len_fits(s: Seq<char>, budget: int)
    requires
        budget >= 0,
    ensures
        fit_len(s, budget) <= s.len(),
        columns(s.take(fit_len(s, budget) as int)) <= budget,
        fit_len(s, budget) < s.len() ==> columns(s.take(fit_len(s, budget) + 1int)) > budget,
    decreases s.len(),
{
    if s.len() > 0 {
        let c = column_width(s[0]);
        let k = fit_len(s, budget);
        if c > budget {
            assert(s.take(1).drop_first() =~= Seq::<char>::empty());
            assert(s.take(0) =~= Seq::<char>::empty());
        } else {
            let t = s.drop_first();
            lemma_fit_len_fits(t, budget - c);
            assert(s.take(k as int).drop_first() =~= t.take(k - 1));
            if k < s.len() {
                assert(s.take(k + 1int).drop_first() =~= t.take(k as int));
            }
        }
    }
}

/// Truncation law: a text that fits `max_width` comes back unchanged; a text that does
/// not fit comes back empty (no room), as the bare `…` (room for the marker only), or as
/// its longest prefix whose columns fit next to the `…` that ends it: one more character
/// would not fit.
pub proof fn law_truncation_fits(text: Seq<char>, max_width: usize)
    ensures
        str_width(text) <= max_width ==> truncated(text, max_width) == text,
        str_width(text) > max_width && max_width > str_width(ellipsis()) ==> {
            let k = fit_len(text, max_width - str_width(ellipsis()));
            &&& truncated(text, max_width) == text.take(k as int) + ellipsis()
            &&& k <= text.len()
            &&& columns(text.take(k as int)) + str_width(ellipsis()) <= max_width
            &&& k < text.len() ==> columns(text.take(k + 1int)) + str_width(ellipsis()) > max_width
        },
        str_width(text) > max_width && max_width > 0 ==> truncated(text, max_width).last()
            == '\u{2026}',
{
    if str_width(text) > max_width && max_width > str_width(ellipsis()) {
        lemma_fit_len_fits(text, max_width - str_width(ellipsis()));
    }
}

/// Every prefix of `s` is as wide as the columns of its characters, as for text without
/// control characters, emoji sequences or other clusters whose width depends on their
/// neighbours.
pub open spec fn prefixes_add_up(s: Seq<char>) -> bool {
    forall|k: int| 0 <= k <= s.len() ==> #[trigger] str_width(s.take(k)) == columns(s.take(k))
}

pub proof fn lemma_columns_concat(a: Seq<char>, b: Seq<char>)
    ensures
        columns(a + b) == columns(a) + columns(b),
    decreases a.len(),
{
    if a.len() == 0 {
        assert(a + b =~= b);
    } else {
        assert((a + b).drop_first() =~= a.drop_first() + b);
        lemma_columns_concat(a.drop_first(), b);
    }
}

proof fn lemma_stripped_len(s: Seq<char>)
    ensures
        ansi_stripped(s).len() <= s.len(),
        (forall|i: int| 0 <= i < s.len() ==> s[i] != '\u{1b}') ==> ansi_stripped(s) == s,
    decreases s.len(),
{
    if s.len() > 0 {
        if s[0] == '\u{1b}' && s.len() > 1 && s[1] == '[' {
            lemma_csi_len_bound(s.skip(2));
            lemma_stripped_len(s.skip(2).skip(csi_len(s.skip(2)) as int));
        } else {
            lemma_stripped_len(s.drop_first());
            if forall|i: int| 0 <= i < s.len() ==> s[i] != '\u{1b}' {
                assert forall|i: int| 0 <= i < s.drop_first().len() implies s.drop_first()[i]
                    != '\u{1b}' by {
                    assert(s.drop_first()[i] == s[i + 1]);
                }
                assert(seq![s[0]] + s.drop_first() =~= s);
            }
        }
    }
}

/// Stripping law: removing control sequences never lengthens a text, and a text with no
/// escape character is left as it is.
pub proof fn law_strip_ansi_shrinks(s: Seq<char>)
    ensures
        ansi_stripped(s).len() <= s.len(),
        (forall|i: int| 0 <= i < s.len() ==> s[i] != '\u{1b}') ==> ansi_stripped(s) == s,
{
    lemma_stripped_len(s);
}

} // verus!
