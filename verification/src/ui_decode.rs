use vstd::prelude::*;
use vstd::string::*;
use vstd::utf8::{decode_utf8, encode_utf8, encode_utf8_decode_utf8, encode_utf8_valid_utf8, valid_utf8};
use crate::strings::{decimal, digit_char};
use crate::ui_text::{
    byte_list, comma_joined, flag_prefix, index_lists, optional_decimal, serialized_body,
    serialized_component, serialized_ribbon, serialized_text,
};

verus! {

/// The first index of `c` in `s`.
pub open spec fn first_index(s: Seq<char>, c: char) -> Option<nat>
    decreases s.len(),
{
    if s.len() == 0 {
        None
    } else if s[0] == c {
        Some(0)
    } else {
        match first_index(s.drop_first(), c) {
            Some(i) => Some(i + 1),
            None => None,
        }
    }
}

/// The pieces of `s` between the separators `c`, as `str::split` gives them.
pub open spec fn split_on(s: Seq<char>, c: char) -> Seq<Seq<char>>
    decreases s.len(),
{
    match first_index(s, c) {
        Some(i) => if i < s.len() {
            seq![s.take(i as int)] + split_on(s.skip(i as int + 1), c)
        } else {
            seq![s]
        },
        None => seq![s],
    }
}

/// `s` without the `ESC \` terminators at its end (`trim_end_matches("\u{1b}\\")`).
pub open spec fn without_terminators(s: Seq<char>) -> Seq<char>
    decreases s.len(),
{
    if s.len() >= 2 && s[s.len() - 2] == '\u{1b}' && s[s.len() - 1] == '\\' {
        without_terminators(s.take(s.len() - 2))
    } else {
        s
    }
}

/// `s` without its first character when that is `c` (`strip_prefix(c)`, else `s`).
pub open spec fn drop_leading(s: Seq<char>, c: char) -> Seq<char> {
    if s.len() > 0 && s[0] == c {
        s.drop_first()
    } else {
        s
    }
}

/// The part of `s` after its last `c` (all of `s` without one), as
/// `rsplit(c).next()` gives it.
pub open spec fn after_last(s: Seq<char>, c: char) -> Seq<char>
    decreases s.len(),
{
    if s.len() == 0 {
        s
    } else if s.last() == c {
        Seq::empty()
    } else {
        after_last(s.drop_last(), c).push(s.last())
    }
}

/// The characters with the Unicode White_Space property, which `str::trim` removes.
pub open spec fn is_white_space(c: char) -> bool {
    ('\u{9}' <= c && c <= '\u{d}') || c == ' ' || c == '\u{85}' || c == '\u{a0}' || c
        == '\u{1680}' || ('\u{2000}' <= c && c <= '\u{200a}') || c == '\u{2028}' || c
        == '\u{2029}' || c == '\u{202f}' || c == '\u{205f}' || c == '\u{3000}'
}

pub open spec fn trim_start(s: Seq<char>) -> Seq<char>
    decreases s.len(),
{
    if s.len() > 0 && is_white_space(s[0]) {
        trim_start(s.drop_first())
    } else {
        s
    }
}

pub open spec fn trim_end(s: Seq<char>) -> Seq<char>
    decreases s.len(),
{
    if s.len() > 0 && is_white_space(s.last()) {
        trim_end(s.drop_last())
    } else {
        s
    }
}

/// `s` without white space at either end, as `str::trim` gives it.
pub open spec fn trimmed(s: Seq<char>) -> Seq<char> {
    trim_end(trim_start(s))
}

pub open spec fn is_digit(c: char) -> bool {
    '0' <= c && c <= '9'
}

pub open spec fn all_digits(s: Seq<char>) -> bool {
    forall|i: int| 0 <= i < s.len() ==> is_digit(#[trigger] s[i])
}

/// The value of a string of decimal digits.
pub open spec fn digits_value(s: Seq<char>) -> nat
    decreases s.len(),
{
    if s.len() == 0 {
        0
    } else {
        digits_value(s.drop_last()) * 10 + (s.last() as nat - '0' as nat) as nat
    }
}

/// What `str::parse::<u8>` gives: an optional `+` then at least one decimal digit,
/// of value at most 255.
pub open spec fn parsed_u8(s: Seq<char>) -> Option<u8> {
    let digits = if s.len() > 0 && s[0] == '+' {
        s.drop_first()
    } else {
        s
    };
    if digits.len() > 0 && all_digits(digits) && digits_value(digits) <= 255 {
        Some(digits_value(digits) as u8)
    } else {
        None
    }
}

/// The bytes of the comma-separated decimal numbers among `pieces`; pieces that do not
/// parse are skipped.
pub open spec fn parsed_bytes(pieces: Seq<Seq<char>>) -> Seq<u8>
    decreases pieces.len(),
{
    if pieces.len() == 0 {
        Seq::empty()
    } else {
        match parsed_u8(trimmed(pieces[0])) {
            Some(b) => seq![b] + parsed_bytes(pieces.drop_first()),
            None => parsed_bytes(pieces.drop_first()),
        }
    }
}

/// The text that a serialized UI payload carries: the bytes after its last `$`, as
/// UTF-8 (empty when they are not valid UTF-8).
pub open spec fn decoded_payload(payload: Seq<char>) -> Seq<char> {
    let body = drop_leading(drop_leading(without_terminators(payload), 'z'), 'x');
    let bytes = parsed_bytes(split_on(after_last(body, '$'), ','));
    if valid_utf8(bytes) {
        decode_utf8(bytes)
    } else {
        Seq::empty()
    }
}

/// Calls `String::from_utf8`: `Some` exactly for valid UTF-8, holding the decoded text.
#[verifier::external_body]
fn string_from_utf8(bytes: Vec<u8>) -> (r: Option<String>)
    ensures
        r is Some <==> valid_utf8(bytes@),
        r matches Some(s) ==> s@ == decode_utf8(bytes@),
{
    String::from_utf8(bytes).ok()
}

/// The characters of `s`.
fn chars_of(s: &str) -> (v: Vec<char>)
    ensures
        v@ == s@,
{
    let n = s.unicode_len();
    let mut v: Vec<char> = Vec::new();
    let mut i: usize = 0;
    while i < n
        invariant
            n == s@.len(),
            i <= n,
            v@ == s@.take(i as int),
        decreases n - i,
    {
        v.push(s.get_char(i));
        i = i + 1;
        assert(v@ =~= s@.take(i as int));
    }
    assert(s@.take(n as int) =~= s@);
    v
}

proof fn lemma_first_index(s: Seq<char>, c: char, m: int)
    requires
        0 <= m <= s.len(),
        forall|i: int| 0 <= i < m ==> s[i] != c,
        m < s.len() ==> s[m] == c,
    ensures
        first_index(s, c) == if m < s.len() {
            Some(m as nat)
        } else {
            None
        },
    decreases s.len(),
{
    if s.len() > 0 && m > 0 {
        assert forall|i: int| 0 <= i < m - 1 implies s.drop_first()[i] != c by {
            assert(s.drop_first()[i] == s[i + 1]);
        }
        lemma_first_index(s.drop_first(), c, m - 1);
    }
}

/// The first index of `c` in `v[start..end]`, or `end`.
fn find_char(v: &Vec<char>, start: usize, end: usize, c: char) -> (k: usize)
    requires
        start <= end <= v@.len(),
    ensures
        start <= k <= end,
        forall|i: int| start <= i < k ==> v@[i] != c,
        k < end ==> v@[k as int] == c,
        first_index(v@.subrange(start as int, end as int), c) == if k < end {
            Some((k - start) as nat)
        } else {
            None
        },
{
    let mut k = start;
    while k < end && v[k] != c
        invariant
            start <= k <= end <= v@.len(),
            forall|i: int| start <= i < k ==> v@[i] != c,
        decreases end - k,
    {
        k = k + 1;
    }
    proof {
        let sub = v@.subrange(start as int, end as int);
        assert forall|i: int| 0 <= i < k - start implies sub[i] != c by {
            assert(sub[i] == v@[start + i]);
        }
        lemma_first_index(sub, c, k - start);
    }
    k
}

proof fn lemma_split_step(s: Seq<char>, c: char, m: int)
    requires
        0 <= m < s.len(),
        first_index(s, c) == Some(m as nat),
    ensures
        split_on(s, c) == seq![s.take(m)] + split_on(s.skip(m + 1), c),
        split_on(s, c).len() >= 1,
        split_on(s, c)[0] == s.take(m),
        split_on(s, c).drop_first() == split_on(s.skip(m + 1), c),
{
    assert((seq![s.take(m)] + split_on(s.skip(m + 1), c)).drop_first() =~= split_on(s.skip(m + 1), c));
}

proof fn lemma_split_last(s: Seq<char>, c: char)
    requires
        first_index(s, c) is None,
    ensures
        split_on(s, c) == seq![s],
{
}

proof fn lemma_split_nonempty(s: Seq<char>, c: char)
    ensures
        split_on(s, c).len() >= 1,
    decreases s.len(),
{
    match first_index(s, c) {
        Some(i) => if i < s.len() {
            lemma_split_nonempty(s.skip(i as int + 1), c);
        },
        None => {},
    }
}

/// The value of the digits `v[start..end]` (all digits), capped at 256.
fn capped_digits_value(v: &Vec<char>, start: usize, end: usize) -> (r: (bool, u32))
    requires
        start <= end <= v@.len(),
    ensures
        r.0 == (forall|i: int| start <= i < end ==> is_digit(#[trigger] v@[i])),
        r.0 ==> (r.1 < 256 && r.1 == digits_value(v@.subrange(start as int, end as int))) || (
        r.1 == 256 && digits_value(v@.subrange(start as int, end as int)) >= 256),
{
    let mut value: u32 = 0;
    let mut i = start;
    assert(v@.subrange(start as int, start as int).len() == 0);
    while i < end
        invariant
            start <= i <= end <= v@.len(),
            forall|k: int| start <= k < i ==> is_digit(#[trigger] v@[k]),
            (value < 256 && value == digits_value(v@.subrange(start as int, i as int))) || (value
                == 256 && digits_value(v@.subrange(start as int, i as int)) >= 256),
        decreases end - i,
    {
        let c = v[i];
        if !('0' <= c && c <= '9') {
            return (false, 0);
        }
        proof {
            let next = v@.subrange(start as int, i + 1);
            assert(next.drop_last() =~= v@.subrange(start as int, i as int));
            assert(next.last() == c);
        }
        let d: u32 = (c as u32) - ('0' as u32);
        if value >= 256 {
            value = 256;
        } else {
            let next = value * 10 + d;
            value = if next >= 256 {
                256
            } else {
                next
            };
        }
        i = i + 1;
    }
    (true, value)
}

/// `str::parse::<u8>` of `v[start..end]` with white space trimmed first.
fn parse_trimmed_u8(v: &Vec<char>, start: usize, end: usize) -> (r: Option<u8>)
    requires
        start <= end <= v@.len(),
    ensures
        r == parsed_u8(trimmed(v@.subrange(start as int, end as int))),
{
    let mut a = start;
    while a < end && is_white_space_char(v[a])
        invariant
            start <= a <= end <= v@.len(),
            trim_start(v@.subrange(start as int, end as int)) == trim_start(
                v@.subrange(a as int, end as int),
            ),
        decreases end - a,
    {
        assert(v@.subrange(a as int, end as int).drop_first() =~= v@.subrange(a + 1, end as int));
        a = a + 1;
    }
    let mut b = end;
    assert(trim_start(v@.subrange(start as int, end as int)) == v@.subrange(a as int, end as int));
    while b > a && is_white_space_char(v[b - 1])
        invariant
            start <= a <= b <= end <= v@.len(),
            trimmed(v@.subrange(start as int, end as int)) == trim_end(
                v@.subrange(a as int, b as int),
            ),
        decreases b - a,
    {
        assert(v@.subrange(a as int, b as int).drop_last() =~= v@.subrange(a as int, b - 1));
        b = b - 1;
    }
    let ghost t = v@.subrange(a as int, b as int);
    assert(trimmed(v@.subrange(start as int, end as int)) == t);
    let mut d = a;
    if d < b && v[d] == '+' {
        d = d + 1;
        assert(t[0] == '+');
        assert(t.drop_first() =~= v@.subrange(d as int, b as int));
    } else {
        assert(t.len() > 0 ==> t[0] == v@[a as int]);
        assert(t =~= v@.subrange(d as int, b as int));
    }
    let ghost digits = v@.subrange(d as int, b as int);
    assert(digits == if t.len() > 0 && t[0] == '+' {
        t.drop_first()
    } else {
        t
    });
    if d == b {
        return None;
    }
    let (digits_only, value) = capped_digits_value(v, d, b);
    proof {
        if digits_only {
            assert forall|i: int| 0 <= i < digits.len() implies is_digit(#[trigger] digits[i]) by {
                assert(digits[i] == v@[d + i]);
            }
        } else {
            let k = choose|k: int| d <= k < b && !is_digit(#[trigger] v@[k]);
            assert(digits[k - d] == v@[k]);
        }
    }
    if digits_only && value < 256 {
        Some(value as u8)
    } else {
        assert(!digits_only ==> !all_digits(digits));
        None
    }
}

/// Whether `c` has the Unicode White_Space property.
fn is_white_space_char(c: char) -> (r: bool)
    ensures
        r == is_white_space(c),
{
    ('\u{9}' <= c && c <= '\u{d}') || c == ' ' || c == '\u{85}' || c == '\u{a0}' || c
        == '\u{1680}' || ('\u{2000}' <= c && c <= '\u{200a}') || c == '\u{2028}' || c
        == '\u{2029}' || c == '\u{202f}' || c == '\u{205f}' || c == '\u{3000}'
}

/// The bytes of the comma-separated numbers of `v[start..end]`.
fn parse_byte_list(v: &Vec<char>, start: usize, end: usize) -> (bytes: Vec<u8>)
    requires
        start <= end <= v@.len(),
    ensures
        bytes@ == parsed_bytes(split_on(v@.subrange(start as int, end as int), ',')),
{
    let mut bytes: Vec<u8> = Vec::new();
    let mut piece_start = start;
    loop
        invariant
            start <= piece_start <= end <= v@.len(),
            parsed_bytes(split_on(v@.subrange(start as int, end as int), ',')) == bytes@
                + parsed_bytes(split_on(v@.subrange(piece_start as int, end as int), ',')),
        decreases end - piece_start,
    {
        let k = find_char(v, piece_start, end, ',');
        let ghost rest = v@.subrange(piece_start as int, end as int);
        let parsed = parse_trimmed_u8(v, piece_start, k);
        if k < end {
            proof {
                lemma_split_step(rest, ',', k - piece_start);
                assert(rest.take(k - piece_start) =~= v@.subrange(piece_start as int, k as int));
                assert(rest.skip(k - piece_start + 1) =~= v@.subrange(k + 1, end as int));
                lemma_split_nonempty(v@.subrange(k + 1, end as int), ',');
            }
            match parsed {
                Some(b) => {
                    bytes.push(b);
                },
                None => {},
            }
            piece_start = k + 1;
        } else {
            proof {
                lemma_split_last(rest, ',');
                assert(rest =~= v@.subrange(piece_start as int, k as int));
                assert(seq![rest].drop_first() =~= Seq::<Seq<char>>::empty());
                assert(parsed_bytes(Seq::<Seq<char>>::empty()) == Seq::<u8>::empty());
                assert(seq![rest][0] == rest);
            }
            let ghost before = bytes@;
            match parsed {
                Some(b) => {
                    bytes.push(b);
                    assert(parsed_bytes(seq![rest]) == seq![b] + Seq::<u8>::empty());
                    assert(bytes@ =~= before + seq![b]);
                },
                None => {
                    assert(parsed_bytes(seq![rest]) == Seq::<u8>::empty());
                    assert(bytes@ =~= before + Seq::<u8>::empty());
                },
            }
            return bytes;
        }
    }
}

/// The text that the payload `v[start..end]` carries.
fn decode_range(v: &Vec<char>, start: usize, end: usize) -> (r: String)
    requires
        start <= end <= v@.len(),
    ensures
        r@ == decoded_payload(v@.subrange(start as int, end as int)),
{
    let mut e = end;
    while e - start >= 2 && v[e - 2] == '\u{1b}' && v[e - 1] == '\\'
        invariant
            start <= e <= end <= v@.len(),
            without_terminators(v@.subrange(start as int, end as int)) == without_terminators(
                v@.subrange(start as int, e as int),
            ),
        decreases e,
    {
        assert(v@.subrange(start as int, e as int).take(e - start - 2) =~= v@.subrange(
            start as int,
            e - 2,
        ));
        e = e - 2;
    }
    let mut s = start;
    if s < e && v[s] == 'z' {
        assert(v@.subrange(start as int, e as int).drop_first() =~= v@.subrange(s + 1, e as int));
        s = s + 1;
    }
    let s1 = s;
    if s < e && v[s] == 'x' {
        assert(v@.subrange(s1 as int, e as int).drop_first() =~= v@.subrange(s + 1, e as int));
        s = s + 1;
    }
    let ghost body = v@.subrange(s as int, e as int);
    assert(body == drop_leading(
        drop_leading(without_terminators(v@.subrange(start as int, end as int)), 'z'),
        'x',
    ));
    let mut k = e;
    assert(v@.subrange(k as int, e as int) =~= Seq::<char>::empty());
    assert(body =~= v@.subrange(s as int, k as int));
    while k > s && v[k - 1] != '$'
        invariant
            s <= k <= e <= v@.len(),
            body == v@.subrange(s as int, e as int),
            after_last(body, '$') == after_last(v@.subrange(s as int, k as int), '$')
                + v@.subrange(k as int, e as int),
        decreases k,
    {
        let ghost front = v@.subrange(s as int, k as int);
        assert(front.drop_last() =~= v@.subrange(s as int, k - 1));
        assert(front.last() == v@[k - 1]);
        assert(v@.subrange(k - 1, e as int) =~= seq![v@[k - 1]] + v@.subrange(k as int, e as int));
        k = k - 1;
    }
    proof {
        let front = v@.subrange(s as int, k as int);
        if k > s {
            assert(front.last() == v@[k - 1]);
        }
        assert(after_last(front, '$') =~= Seq::<char>::empty());
        assert(after_last(body, '$') =~= v@.subrange(k as int, e as int));
    }
    let bytes = parse_byte_list(v, k, e);
    match string_from_utf8(bytes) {
        Some(text) => text,
        None => String::new(),
    }
}

/// The text that a serialized UI payload carries (the comma-separated bytes after its
/// last `$`, read as UTF-8).
pub fn decode_ui_payload(payload: &str) -> (r: String)
    ensures
        r@ == decoded_payload(payload@),
{
    let chars = chars_of(payload);
    assert(chars@.subrange(0, chars@.len() as int) =~= chars@);
    decode_range(&chars, 0, chars.len())
}

/// `pat` occurs in `s` at index `i`.
pub open spec fn matches_at(s: Seq<char>, pat: Seq<char>, i: nat) -> bool {
    i + pat.len() <= s.len() && s.subrange(i as int, (i + pat.len()) as int) == pat
}

/// The first index at or after `from` where the non-empty `pat` occurs in `s`.
pub open spec fn find_from(s: Seq<char>, pat: Seq<char>, from: nat) -> Option<nat>
    decreases s.len() - from,
{
    if pat.len() == 0 || from + pat.len() > s.len() {
        None
    } else if matches_at(s, pat, from) {
        Some(from)
    } else {
        find_from(s, pat, from + 1)
    }
}

pub proof fn lemma_find_from_bounds(s: Seq<char>, pat: Seq<char>, from: nat)
    ensures
        find_from(s, pat, from) matches Some(i) ==> from <= i && i + pat.len() <= s.len()
            && pat.len() > 0 && matches_at(s, pat, i),
    decreases s.len() - from,
{
    if !(pat.len() == 0 || from + pat.len() > s.len()) && !matches_at(s, pat, from) {
        lemma_find_from_bounds(s, pat, from + 1);
    }
}

/// `p` up to the first occurrence of `pat` (all of `p` without one), as
/// `split(pat).next()` gives it.
pub open spec fn before_pattern(p: Seq<char>, pat: Seq<char>) -> Seq<char> {
    match find_from(p, pat, 0) {
        Some(i) => p.take(i as int),
        None => p,
    }
}

pub open spec fn esc_p() -> Seq<char> {
    seq!['\u{1b}', 'P']
}

/// The text of the third `;`-separated piece of `s`, as `extract_ui_plain` decodes it.
pub open spec fn ui_plain(s: Seq<char>) -> Seq<char> {
    let pieces = split_on(s, ';');
    if pieces.len() > 2 {
        decoded_payload(pieces[2])
    } else {
        Seq::empty()
    }
}

/// The text of the UI component that starts a string (its payload ends at `ESC P`).
pub open spec fn component_plain(s: Seq<char>) -> Seq<char> {
    let pieces = split_on(s, ';');
    if pieces.len() > 2 {
        decoded_payload(before_pattern(pieces[2], esc_p()))
    } else {
        Seq::empty()
    }
}

/// The texts of the components tagged `tag` in `s` from index `from` on.
pub open spec fn tagged_plain(s: Seq<char>, tag: Seq<char>, from: nat) -> Seq<char>
    decreases s.len() - from,
{
    match find_from(s, tag, from) {
        Some(i) => {
            proof {
                lemma_find_from_bounds(s, tag, from);
            }
            component_plain(s.skip(i as int)) + tagged_plain(s, tag, i + tag.len())
        },
        None => Seq::empty(),
    }
}

pub open spec fn text_tag() -> Seq<char> {
    seq!['P', 'z', 't', 'e', 'x', 't', ';']
}

pub open spec fn ribbon_tag() -> Seq<char> {
    seq!['P', 'z', 'r', 'i', 'b', 'b', 'o', 'n', ';']
}

/// The visible text of all text and ribbon components in `s`: texts first, then ribbons.
pub open spec fn components_plain(s: Seq<char>) -> Seq<char> {
    tagged_plain(s, text_tag(), 0) + tagged_plain(s, ribbon_tag(), 0)
}

/// The bounds of the third `;`-separated piece of `v[start..end]`, when there is one.
fn third_piece(v: &Vec<char>, start: usize, end: usize) -> (r: Option<(usize, usize)>)
    requires
        start <= end <= v@.len(),
    ensures
        r is Some <==> split_on(v@.subrange(start as int, end as int), ';').len() > 2,
        r matches Some(bounds) ==> start <= bounds.0 <= bounds.1 <= end && v@.subrange(
            bounds.0 as int,
            bounds.1 as int,
        ) == split_on(v@.subrange(start as int, end as int), ';')[2],
{
    let ghost s0 = v@.subrange(start as int, end as int);
    let f0 = find_char(v, start, end, ';');
    if f0 == end {
        proof {
            lemma_split_last(s0, ';');
        }
        return None;
    }
    let ghost s1 = v@.subrange(f0 + 1, end as int);
    proof {
        lemma_split_step(s0, ';', f0 - start);
        assert(s0.skip(f0 - start + 1) =~= s1);
    }
    let f1 = find_char(v, f0 + 1, end, ';');
    if f1 == end {
        proof {
            lemma_split_last(s1, ';');
        }
        return None;
    }
    let ghost s2 = v@.subrange(f1 + 1, end as int);
    proof {
        lemma_split_step(s1, ';', f1 - f0 - 1);
        assert(s1.skip(f1 - f0 - 1 + 1) =~= s2);
        lemma_split_nonempty(s2, ';');
    }
    let f2 = find_char(v, f1 + 1, end, ';');
    proof {
        if f2 < end {
            lemma_split_step(s2, ';', f2 - f1 - 1);
            assert(s2.take(f2 - f1 - 1) =~= v@.subrange(f1 + 1, f2 as int));
        } else {
            lemma_split_last(s2, ';');
            assert(s2 =~= v@.subrange(f1 + 1, f2 as int));
        }
        assert(split_on(s0, ';')[2] == split_on(s1, ';')[1]);
        assert(split_on(s1, ';')[1] == split_on(s2, ';')[0]);
    }
    Some((f1 + 1, f2))
}

/// Whether `pat` occurs in `v[lo..hi]` at relative index `i`.
fn pattern_at(v: &Vec<char>, lo: usize, hi: usize, pat: &Vec<char>, i: usize) -> (r: bool)
    requires
        lo <= hi <= v@.len(),
    ensures
        r == matches_at(v@.subrange(lo as int, hi as int), pat@, i as nat),
{
    let ghost s = v@.subrange(lo as int, hi as int);
    if i > hi - lo || pat.len() > hi - lo - i {
        return false;
    }
    let mut k: usize = 0;
    while k < pat.len()
        invariant
            lo <= hi <= v@.len(),
            s == v@.subrange(lo as int, hi as int),
            i + pat@.len() <= hi - lo,
            k <= pat@.len(),
            forall|j: int| 0 <= j < k ==> s[i + j] == pat@[j],
        decreases pat@.len() - k,
    {
        if v[lo + i + k] != pat[k] {
            assert(s.subrange(i as int, i + pat@.len())[k as int] != pat@[k as int]);
            return false;
        }
        k = k + 1;
    }
    assert(s.subrange(i as int, i + pat@.len()) =~= pat@);
    true
}

/// The first relative index at or after `from` where the non-empty `pat` occurs in
/// `v[lo..hi]`.
fn find_pattern(v: &Vec<char>, lo: usize, hi: usize, pat: &Vec<char>, from: usize) -> (r: Option<
    usize,
>)
    requires
        lo <= hi <= v@.len(),
        pat@.len() > 0,
        from <= hi - lo,
    ensures
        match r {
            Some(i) => find_from(v@.subrange(lo as int, hi as int), pat@, from as nat) == Some(
                i as nat,
            ),
            None => find_from(v@.subrange(lo as int, hi as int), pat@, from as nat) is None,
        },
{
    let ghost s = v@.subrange(lo as int, hi as int);
    let mut i = from;
    while i <= hi - lo
        invariant
            lo <= hi <= v@.len(),
            s == v@.subrange(lo as int, hi as int),
            pat@.len() > 0,
            from <= i,
            find_from(s, pat@, from as nat) == find_from(s, pat@, i as nat),
        decreases hi - lo + 1 - i,
    {
        if pat.len() > hi - lo - i {
            return None;
        }
        if pattern_at(v, lo, hi, pat, i) {
            return Some(i);
        }
        i = i + 1;
    }
    None
}

/// The visible text of a single UI component serialization: the third `;`-separated
/// piece, decoded.
pub fn extract_ui_plain(serialized: &str) -> (r: String)
    ensures
        r@ == ui_plain(serialized@),
{
    let v = chars_of(serialized);
    assert(v@.subrange(0, v@.len() as int) =~= v@);
    match third_piece(&v, 0, v.len()) {
        Some((a, b)) => decode_range(&v, a, b),
        None => String::new(),
    }
}

/// Appends the texts of the components of `v` tagged `tag`.
fn append_tagged_plain(v: &Vec<char>, tag: &Vec<char>, out: &mut String)
    requires
        tag@.len() > 0,
    ensures
        final(out)@ == old(out)@ + tagged_plain(v@, tag@, 0),
{
    let n = v.len();
    let mut search: usize = 0;
    assert(v@.subrange(0, n as int) =~= v@);
    while search <= n
        invariant
            n == v@.len(),
            v@.subrange(0, n as int) == v@,
            tag@.len() > 0,
            old(out)@ + tagged_plain(v@, tag@, 0) == out@ + tagged_plain(v@, tag@, search as nat),
        decreases n + 1 - search,
    {
        match find_pattern(v, 0, n, tag, search) {
            None => {
                return;
            },
            Some(abs) => {
                proof {
                    lemma_find_from_bounds(v@, tag@, search as nat);
                }
                let ghost rest = v@.subrange(abs as int, n as int);
                assert(rest =~= v@.skip(abs as int));
                match third_piece(v, abs, n) {
                    Some((a, b)) => {
                        let esc = vec!['\u{1b}', 'P'];
                        assert(esc@ =~= esc_p());
                        match find_pattern(v, a, b, &esc, 0) {
                            Some(cut) => {
                                proof {
                                    lemma_find_from_bounds(v@.subrange(a as int, b as int), esc@, 0);
                                }
                                assert(v@.subrange(a as int, b as int).take(cut as int) =~= v@.subrange(
                                    a as int,
                                    (a + cut) as int,
                                ));
                                let text = decode_range(v, a, a + cut);
                                out.append(text.as_str());
                            },
                            None => {
                                let text = decode_range(v, a, b);
                                out.append(text.as_str());
                            },
                        }
                    },
                    None => {},
                }
                search = abs + tag.len();
            },
        }
    }
}

/// The visible text of every text and ribbon component in a UI serialization: the
/// texts first, then the ribbons.
pub fn extract_ui_components_plain(serialized: &str) -> (r: String)
    ensures
        r@ == components_plain(serialized@),
{
    let v = chars_of(serialized);
    let mut plain = String::new();
    let text_tag_chars = vec!['P', 'z', 't', 'e', 'x', 't', ';'];
    assert(text_tag_chars@ =~= text_tag());
    append_tagged_plain(&v, &text_tag_chars, &mut plain);
    let ribbon_tag_chars = vec!['P', 'z', 'r', 'i', 'b', 'b', 'o', 'n', ';'];
    assert(ribbon_tag_chars@ =~= ribbon_tag());
    append_tagged_plain(&v, &ribbon_tag_chars, &mut plain);
    assert(plain@ =~= components_plain(serialized@));
    plain
}

/// The visible text of a rendered tab bar.
pub fn extract_tab_bar_plain(serialized: &str) -> (r: String)
    ensures
        r@ == components_plain(serialized@),
{
    extract_ui_components_plain(serialized)
}

/// No character of `s` is `c`.
pub open spec fn free_of(s: Seq<char>, c: char) -> bool {
    forall|i: int| 0 <= i < s.len() ==> s[i] != c
}

/// A character that `Text::serialize` writes in front of the content bytes or between them.
pub open spec fn list_char(c: char) -> bool {
    is_digit(c) || c == ',' || c == '$'
}

pub open spec fn all_list_chars(s: Seq<char>) -> bool {
    forall|i: int| 0 <= i < s.len() ==> list_char(#[trigger] s[i])
}

proof fn lemma_decimal_digits(n: nat)
    ensures
        all_digits(decimal(n)),
        decimal(n).len() > 0,
        digits_value(decimal(n)) == n,
    decreases n,
{
    assert('0' as nat == 48);
    if n < 10 {
        assert(digit_char(n) as nat == 48 + n);
        assert(decimal(n).drop_last() =~= Seq::<char>::empty());
        assert(decimal(n).last() == digit_char(n));
        assert(digits_value(Seq::<char>::empty()) == 0);
        assert(digits_value(decimal(n)) == 0 * 10 + (digit_char(n) as nat - '0' as nat) as nat);
    } else {
        lemma_decimal_digits(n / 10);
        let d = digit_char(n % 10);
        assert(d as nat == 48 + n % 10);
        assert(decimal(n).drop_last() =~= decimal(n / 10));
        assert(decimal(n).last() == d);
        assert(digits_value(decimal(n)) == (n / 10) * 10 + n % 10);
        assert forall|i: int| 0 <= i < decimal(n).len() implies is_digit(#[trigger] decimal(n)[i]) by {
            if i < decimal(n / 10).len() {
                assert(decimal(n)[i] == decimal(n / 10)[i]);
            }
        }
    }
}

proof fn lemma_comma_joined_chars(s: Seq<nat>)
    ensures
        all_list_chars(comma_joined(s)),
        free_of(comma_joined(s), '$'),
        free_of(comma_joined(s), ';'),
        s.len() > 0 ==> comma_joined(s).len() > 0 && is_digit(comma_joined(s)[0]),
    decreases s.len(),
{
    if s.len() > 0 {
        lemma_decimal_digits(s[0]);
        if s.len() > 1 {
            lemma_comma_joined_chars(s.drop_first());
        }
    }
}

proof fn lemma_index_lists_chars(indices: Seq<Seq<usize>>)
    ensures
        all_list_chars(index_lists(indices)),
        free_of(index_lists(indices), ';'),
        index_lists(indices).len() > 0 ==> index_lists(indices).last() == '$',
    decreases indices.len(),
{
    if indices.len() > 0 {
        lemma_comma_joined_chars(indices[0].map_values(|i: usize| i as nat));
        lemma_index_lists_chars(indices.drop_first());
    }
}

proof fn lemma_split_after(a: Seq<char>, b: Seq<char>, c: char)
    requires
        free_of(a, c),
    ensures
        split_on(a + seq![c] + b, c) == seq![a] + split_on(b, c),
{
    let s = a + seq![c] + b;
    lemma_first_index(s, c, a.len() as int);
    lemma_split_step(s, c, a.len() as int);
    assert(s.take(a.len() as int) =~= a);
    assert(s.skip(a.len() as int + 1) =~= b);
}

proof fn lemma_split_none(a: Seq<char>, c: char)
    requires
        free_of(a, c),
    ensures
        split_on(a, c) == seq![a],
{
    lemma_first_index(a, c, a.len() as int);
}

proof fn lemma_after_last_concat(a: Seq<char>, b: Seq<char>, c: char)
    requires
        free_of(b, c),
    ensures
        after_last(a + b, c) == after_last(a, c) + b,
    decreases b.len(),
{
    if b.len() == 0 {
        assert(a + b =~= a);
        assert(after_last(a, c) + b =~= after_last(a, c));
    } else {
        assert((a + b).drop_last() =~= a + b.drop_last());
        assert((a + b).last() == b.last());
        lemma_after_last_concat(a, b.drop_last(), c);
        assert(after_last(a, c) + b =~= (after_last(a, c) + b.drop_last()).push(b.last()));
    }
}

proof fn lemma_trimmed_digits(s: Seq<char>)
    requires
        s.len() > 0,
        all_digits(s),
    ensures
        trimmed(s) == s,
{
    assert(is_digit(s[0]));
    assert(is_digit(s.last()));
}

/// The comma-separated decimal bytes parse back to the bytes.
proof fn lemma_byte_list_parse(bytes: Seq<u8>)
    ensures
        parsed_bytes(split_on(byte_list(bytes), ',')) == bytes,
    decreases bytes.len(),
{
    let ns = bytes.map_values(|b: u8| b as nat);
    if bytes.len() == 0 {
        assert(byte_list(bytes) =~= Seq::<char>::empty());
        lemma_split_none(Seq::<char>::empty(), ',');
        assert(split_on(Seq::<char>::empty(), ',') =~= seq![Seq::<char>::empty()]);
        assert(trimmed(Seq::<char>::empty()) =~= Seq::<char>::empty());
        let e = Seq::<char>::empty();
        let pieces = seq![e];
        assert(pieces.len() == 1 && pieces[0] == e);
        assert(trimmed(pieces[0]) =~= e);
        assert(parsed_u8(trimmed(pieces[0])) is None);
        assert(pieces.drop_first() =~= Seq::<Seq<char>>::empty());
        assert(parsed_bytes(pieces.drop_first()).len() == 0);
        assert(parsed_bytes(pieces).len() == 0);
    } else {
        let b = bytes[0];
        let head = decimal(b as nat);
        lemma_decimal_digits(b as nat);
        lemma_trimmed_digits(head);
        assert(head[0] != '+');
        assert(parsed_u8(head) == Some(b));
        let rest = bytes.drop_first();
        assert(rest.map_values(|x: u8| x as nat) =~= ns.drop_first());
        assert(free_of(head, ','));
        if bytes.len() == 1 {
            assert(byte_list(bytes) == head);
            lemma_split_none(head, ',');
            assert(parsed_bytes(seq![head]) == seq![b] + parsed_bytes(seq![head].drop_first()));
            assert(seq![head].drop_first() =~= Seq::<Seq<char>>::empty());
            assert(bytes =~= seq![b]);
        } else {
            assert(byte_list(bytes) == head + seq![','] + byte_list(rest));
            lemma_split_after(head, byte_list(rest), ',');
            let pieces = seq![head] + split_on(byte_list(rest), ',');
            assert(pieces[0] == head);
            assert(pieces.drop_first() =~= split_on(byte_list(rest), ','));
            lemma_byte_list_parse(rest);
            assert(bytes =~= seq![b] + rest);
        }
    }
}

/// Flags that the decoder reads past: none, or only one of `x` and `z`.
pub open spec fn plain_flags(flags: Set<char>) -> bool {
    !flags.contains('d') && !(flags.contains('x') && flags.contains('z'))
}

proof fn lemma_body_plain(content: Seq<char>, flags: Set<char>, indices: Seq<Seq<usize>>)
    requires
        plain_flags(flags),
    ensures
        decoded_payload(serialized_body(content, flags, indices) + seq!['\u{1b}', '\\'])
            == content,
        free_of(serialized_body(content, flags, indices) + seq!['\u{1b}', '\\'], ';'),
        free_of(serialized_body(content, flags, indices), '\u{1b}'),
{
    broadcast use encode_utf8_valid_utf8, encode_utf8_decode_utf8;

    let f = flag_prefix(flags);
    let l = index_lists(indices);
    let bytes = encode_utf8(content);
    let j = byte_list(bytes);
    let body = serialized_body(content, flags, indices);
    let t = seq!['\u{1b}', '\\'];
    lemma_index_lists_chars(indices);
    lemma_comma_joined_chars(bytes.map_values(|b: u8| b as nat));
    let lj = l + j;
    assert(all_list_chars(lj));
    assert(body == f + lj);
    assert(f.len() <= 1);
    assert(forall|i: int| 0 <= i < f.len() ==> f[i] == 'x' || f[i] == 'z');
    assert(forall|i: int| 0 <= i < body.len() ==> body[i] != '\\' && body[i] != ';' && body[i] != '\u{1b}')
        by {
        assert forall|i: int| 0 <= i < body.len() implies body[i] != '\\' && body[i] != ';'
            && body[i] != '\u{1b}' by {
            if i >= f.len() {
                assert(body[i] == lj[i - f.len()]);
                assert(list_char(lj[i - f.len()]));
            }
        }
    }
    // the terminator goes
    let bt = body + t;
    assert(bt.take(bt.len() - 2) =~= body);
    assert(without_terminators(body) == body);
    assert(without_terminators(bt) == body);
    // the flag letters go
    if lj.len() > 0 {
        assert(list_char(lj[0]));
    }
    assert(drop_leading(drop_leading(body, 'z'), 'x') =~= lj);
    // the index lists go
    assert(free_of(j, '$'));
    lemma_after_last_concat(l, j, '$');
    if l.len() > 0 {
        assert(l.drop_last().push(l.last()) =~= l);
    }
    assert(after_last(l, '$') =~= Seq::<char>::empty());
    assert(after_last(lj, '$') =~= j);
    lemma_byte_list_parse(bytes);
}

/// The visible text that `extract_ui_plain` reads back from a serialized text or ribbon is
/// its content, whatever its place and its colors, unless it has both the selected and
/// the opaque flag, or the disabled one.
pub proof fn law_component_plain(
    tag: Seq<char>,
    content: Seq<char>,
    flags: Set<char>,
    indices: Seq<Seq<usize>>,
    x: usize,
    y: usize,
    width: Option<usize>,
    height: Option<usize>,
)
    requires
        free_of(tag, ';'),
        plain_flags(flags),
    ensures
        ui_plain(serialized_component(tag, content, flags, indices, x, y, width, height)) == content,
{
    reveal(serialized_component);
    let head = seq!['\u{1b}', 'P', 'z'] + tag;
    let place = decimal(x as nat) + seq!['/'] + decimal(y as nat) + seq!['/'] + optional_decimal(width)
        + seq!['/'] + optional_decimal(height);
    let rest = serialized_body(content, flags, indices) + seq!['\u{1b}', '\\'];
    let s = serialized_component(tag, content, flags, indices, x, y, width, height);
    assert(s =~= head + seq![';'] + (place + seq![';'] + rest));
    lemma_decimal_digits(x as nat);
    lemma_decimal_digits(y as nat);
    match width {
        Some(w) => lemma_decimal_digits(w as nat),
        None => {},
    }
    match height {
        Some(h) => lemma_decimal_digits(h as nat),
        None => {},
    }
    assert(free_of(head, ';'));
    assert(free_of(place, ';'));
    lemma_body_plain(content, flags, indices);
    lemma_split_after(head, place + seq![';'] + rest, ';');
    lemma_split_after(place, rest, ';');
    lemma_split_none(rest, ';');
    assert(split_on(s, ';') =~= seq![head, place, rest]);
}

/// `extract_ui_plain` gives back the content of a serialized text without the selected
/// and opaque flags together or the disabled flag.
pub proof fn law_text_plain(
    content: Seq<char>,
    flags: Set<char>,
    indices: Seq<Seq<usize>>,
    x: usize,
    y: usize,
    width: Option<usize>,
    height: Option<usize>,
)
    requires
        plain_flags(flags),
    ensures
        ui_plain(serialized_text(content, flags, indices, x, y, width, height)) == content,
{
    law_component_plain(seq!['t', 'e', 'x', 't'], content, flags, indices, x, y, width, height);
}

/// `extract_ui_plain` gives back the content of a serialized ribbon without the selected
/// and opaque flags together or the disabled flag.
pub proof fn law_ribbon_plain(
    content: Seq<char>,
    flags: Set<char>,
    indices: Seq<Seq<usize>>,
    x: usize,
    y: usize,
    width: Option<usize>,
    height: Option<usize>,
)
    requires
        plain_flags(flags),
    ensures
        ui_plain(serialized_ribbon(content, flags, indices, x, y, width, height)) == content,
{
    law_component_plain(
        seq!['r', 'i', 'b', 'b', 'o', 'n'],
        content,
        flags,
        indices,
        x,
        y,
        width,
        height,
    );
}

/// `s` is empty or starts a new UI component (`ESC P`).
pub open spec fn starts_component(s: Seq<char>) -> bool {
    s.len() == 0 || (s.len() >= 2 && s[0] == '\u{1b}' && s[1] == 'P')
}

/// `pat` does not occur in `s` at any index from `from` up to `to`.
pub open spec fn no_match_between(s: Seq<char>, pat: Seq<char>, from: nat, to: nat) -> bool {
    forall|k: nat| from <= k < to ==> !#[trigger] matches_at(s, pat, k)
}

proof fn lemma_find_skip(s: Seq<char>, pat: Seq<char>, from: nat, to: nat)
    requires
        from <= to,
        no_match_between(s, pat, from, to),
    ensures
        find_from(s, pat, from) == find_from(s, pat, to),
    decreases to - from,
{
    if from < to && !(pat.len() == 0 || from + pat.len() > s.len()) {
        assert(!matches_at(s, pat, from));
        lemma_find_skip(s, pat, from + 1, to);
    }
}

proof fn lemma_find_shift(a: Seq<char>, b: Seq<char>, pat: Seq<char>, j: nat)
    ensures
        find_from(a + b, pat, a.len() + j) == match find_from(b, pat, j) {
            Some(i) => Some(i + a.len()),
            None => None,
        },
    decreases b.len() - j,
{
    let s = a + b;
    if !(pat.len() == 0 || j + pat.len() > b.len()) {
        assert(s.subrange((a.len() + j) as int, (a.len() + j + pat.len()) as int) =~= b.subrange(
            j as int,
            (j + pat.len()) as int,
        ));
        if !matches_at(b, pat, j) {
            lemma_find_shift(a, b, pat, j + 1);
        }
    }
}

proof fn lemma_tagged_shift(a: Seq<char>, b: Seq<char>, tag: Seq<char>, j: nat)
    ensures
        tagged_plain(a + b, tag, a.len() + j) == tagged_plain(b, tag, j),
    decreases b.len() - j,
{
    lemma_find_shift(a, b, tag, j);
    lemma_find_from_bounds(b, tag, j);
    match find_from(b, tag, j) {
        Some(i) => {
            assert((a + b).skip((i + a.len()) as int) =~= b.skip(i as int));
            lemma_tagged_shift(a, b, tag, i + tag.len());
            assert(a.len() + (i + tag.len()) == i + a.len() + tag.len());
        },
        None => {},
    }
}

proof fn lemma_tagged_same_find(s: Seq<char>, tag: Seq<char>, f1: nat, f2: nat)
    requires
        find_from(s, tag, f1) == find_from(s, tag, f2),
    ensures
        tagged_plain(s, tag, f1) == tagged_plain(s, tag, f2),
{
}

/// The first piece of `s` split at `c` is a prefix of `s` free of `c`, all of `s` or
/// followed by `c`.
proof fn lemma_split_head(s: Seq<char>, c: char) -> (m: nat)
    ensures
        m <= s.len(),
        split_on(s, c).len() >= 1,
        split_on(s, c)[0] == s.take(m as int),
        free_of(s.take(m as int), c),
        m < s.len() ==> s[m as int] == c,
    decreases s.len(),
{
    match first_index(s, c) {
        Some(i) => {
            if i < s.len() {
                lemma_first_index_found(s, c);
                lemma_split_step(s, c, i as int);
                i
            } else {
                lemma_first_index_found(s, c);
                s.len()
            }
        },
        None => {
            lemma_first_index_found(s, c);
            lemma_split_last(s, c);
            assert(s.take(s.len() as int) =~= s);
            s.len()
        },
    }
}

proof fn lemma_first_index_found(s: Seq<char>, c: char)
    ensures
        match first_index(s, c) {
            Some(i) => i < s.len() && s[i as int] == c && free_of(s.take(i as int), c),
            None => free_of(s, c),
        },
    decreases s.len(),
{
    if s.len() > 0 && s[0] != c {
        lemma_first_index_found(s.drop_first(), c);
        match first_index(s.drop_first(), c) {
            Some(i) => {
                assert forall|k: int| 0 <= k < i + 1 implies #[trigger] s.take(i as int + 1)[k] != c by {
                    if k > 0 {
                        assert(s.take(i as int + 1)[k] == s.drop_first().take(i as int)[k - 1]);
                    }
                }
            },
            None => {
                assert forall|k: int| 0 <= k < s.len() implies s[k] != c by {
                    if k > 0 {
                        assert(s[k] == s.drop_first()[k - 1]);
                    }
                }
            },
        }
    }
}

/// The place part `x/y/width/height` of a serialized component.
pub open spec fn place_text(x: usize, y: usize, width: Option<usize>, height: Option<usize>) -> Seq<char> {
    decimal(x as nat) + seq!['/'] + decimal(y as nat) + seq!['/'] + optional_decimal(width) + seq!['/']
        + optional_decimal(height)
}

proof fn lemma_place_chars(x: usize, y: usize, width: Option<usize>, height: Option<usize>)
    ensures
        forall|k: int|
            0 <= k < place_text(x, y, width, height).len() ==> is_digit(
                #[trigger] place_text(x, y, width, height)[k],
            ) || place_text(x, y, width, height)[k] == '/',
{
    lemma_decimal_digits(x as nat);
    lemma_decimal_digits(y as nat);
    match width {
        Some(w) => lemma_decimal_digits(w as nat),
        None => {},
    }
    match height {
        Some(h) => lemma_decimal_digits(h as nat),
        None => {},
    }
}

/// How a serialized component is laid out, and that its only `P` is its second character.
#[verifier::spinoff_prover]
proof fn lemma_component_shape(
    t: Seq<char>,
    content: Seq<char>,
    flags: Set<char>,
    indices: Seq<Seq<usize>>,
    x: usize,
    y: usize,
    width: Option<usize>,
    height: Option<usize>,
)
    requires
        t == seq!['t', 'e', 'x', 't'] || t == seq!['r', 'i', 'b', 'b', 'o', 'n'],
        plain_flags(flags),
    ensures
        ({
            let c = serialized_component(t, content, flags, indices, x, y, width, height);
            let place = place_text(x, y, width, height);
            let body = serialized_body(content, flags, indices);
            &&& c == seq!['\u{1b}'] + (seq!['P', 'z'] + t) + seq![';'] + (place + seq![';'] + (body
                + seq!['\u{1b}', '\\']))
            &&& free_of(place, ';')
            &&& free_of(seq!['P', 'z'] + t, ';')
            &&& forall|k: int| 2 <= k < c.len() ==> #[trigger] c[k] != 'P'
        }),
{
    reveal(serialized_component);
    let c = serialized_component(t, content, flags, indices, x, y, width, height);
    let head = seq!['\u{1b}', 'P', 'z'] + t;
    let place = place_text(x, y, width, height);
    let body = serialized_body(content, flags, indices);
    let term = seq!['\u{1b}', '\\'];
    assert(c =~= seq!['\u{1b}'] + (seq!['P', 'z'] + t) + seq![';'] + (place + seq![';'] + (body
        + term)));
    lemma_place_chars(x, y, width, height);
    lemma_index_lists_chars(indices);
    lemma_comma_joined_chars(encode_utf8(content).map_values(|b: u8| b as nat));
    let h = head.len();
    let pl = place.len();
    let at_body = h + 1 + pl + 1;
    let f = flag_prefix(flags);
    let lj = index_lists(indices) + byte_list(encode_utf8(content));
    assert(body =~= f + lj);
    assert(c =~= head + seq![';'] + place + seq![';'] + body + term);
    assert forall|k: int| 2 <= k < c.len() implies #[trigger] c[k] != 'P' by {
        if k < h {
            assert(c[k] == head[k]);
            if k >= 3 {
                assert(head[k] == t[k - 3]);
            }
        } else if k > h && k < h + 1 + pl {
            assert(c[k] == place[k - h - 1]);
        } else if k >= at_body && k < at_body + body.len() {
            assert(c[k] == body[k - at_body]);
            if k - at_body >= f.len() {
                assert(body[k - at_body] == lj[k - at_body - f.len()]);
                assert(list_char(lj[k - at_body - f.len()]));
            }
        } else if k >= at_body + body.len() {
            assert(c[k] == term[k - at_body - body.len()]);
        }
    }
}

/// The text of the component that starts `(c + rest).skip(1)`, `c` a serialized component
/// and `rest` empty or another component, is `c`'s content.
#[verifier::spinoff_prover]
proof fn lemma_component_own_text(
    t: Seq<char>,
    content: Seq<char>,
    flags: Set<char>,
    indices: Seq<Seq<usize>>,
    x: usize,
    y: usize,
    width: Option<usize>,
    height: Option<usize>,
    rest: Seq<char>,
)
    requires
        t == seq!['t', 'e', 'x', 't'] || t == seq!['r', 'i', 'b', 'b', 'o', 'n'],
        plain_flags(flags),
        starts_component(rest),
    ensures
        component_plain(
            (serialized_component(t, content, flags, indices, x, y, width, height) + rest).skip(1),
        ) == content,
{
    lemma_component_shape(t, content, flags, indices, x, y, width, height);
    lemma_body_plain(content, flags, indices);
    let c = serialized_component(t, content, flags, indices, x, y, width, height);
    let place = place_text(x, y, width, height);
    let body = serialized_body(content, flags, indices);
    let term = seq!['\u{1b}', '\\'];
    let bt = body + term;
    let u = (c + rest).skip(1);
    let after_head = place + seq![';'] + (bt + rest);
    assert(u =~= (seq!['P', 'z'] + t) + seq![';'] + after_head);
    lemma_split_after(seq!['P', 'z'] + t, after_head, ';');
    lemma_split_after(place, bt + rest, ';');
    let s3 = bt + rest;
    let m = lemma_split_head(s3, ';');
    let p = s3.take(m as int);
    assert(split_on(u, ';') =~= seq![seq!['P', 'z'] + t, place] + split_on(s3, ';'));
    assert(split_on(u, ';')[2] == p);
    let esc = esc_p();
    assert(forall|k: int| 0 <= k < bt.len() ==> bt[k] != ';');
    assert(m >= bt.len());
    assert forall|k: nat| k < bt.len() implies !#[trigger] matches_at(p, esc, k) by {
        if matches_at(p, esc, k) {
            assert(p.subrange(k as int, k as int + 2)[0] == '\u{1b}');
            assert(p.subrange(k as int, k as int + 2)[1] == 'P');
            assert(p[k as int] == bt[k as int]);
            if k + 1 < bt.len() {
                assert(p[k as int + 1] == bt[k as int + 1]);
            }
        }
    }
    lemma_find_skip(p, esc, 0, bt.len() as nat);
    if rest.len() == 0 {
        assert(s3 =~= bt);
        assert(p =~= bt);
        assert(find_from(p, esc, bt.len() as nat) is None);
        assert(before_pattern(p, esc) == bt);
    } else {
        assert(s3[bt.len() as int] == '\u{1b}');
        assert(s3[bt.len() as int + 1] == 'P');
        assert(m >= bt.len() + 2);
        assert(p.subrange(bt.len() as int, bt.len() as int + 2) =~= esc);
        assert(find_from(p, esc, bt.len() as nat) == Some(bt.len() as nat));
        assert(p.take(bt.len() as int) =~= bt);
        assert(before_pattern(p, esc) == bt);
    }
}

/// The start of a serialized component: `ESC`, then `P`, `z` and the tag name, then `;`;
/// it has no other `P`.
#[verifier::spinoff_prover]
proof fn lemma_component_head(
    t: Seq<char>,
    content: Seq<char>,
    flags: Set<char>,
    indices: Seq<Seq<usize>>,
    x: usize,
    y: usize,
    width: Option<usize>,
    height: Option<usize>,
)
    requires
        t == seq!['t', 'e', 'x', 't'] || t == seq!['r', 'i', 'b', 'b', 'o', 'n'],
        plain_flags(flags),
    ensures
        ({
            let c = serialized_component(t, content, flags, indices, x, y, width, height);
            &&& c.len() >= 4 + t.len()
            &&& c[0] == '\u{1b}'
            &&& c.subrange(1, 4 + t.len() as int) == seq!['P', 'z'] + t + seq![';']
            &&& forall|k: int| 2 <= k < c.len() ==> #[trigger] c[k] != 'P'
        }),
{
    lemma_component_shape(t, content, flags, indices, x, y, width, height);
    let c = serialized_component(t, content, flags, indices, x, y, width, height);
    assert(c.subrange(1, 4 + t.len() as int) =~= seq!['P', 'z'] + t + seq![';']);
}

/// Where the search for `tag` in a serialized component followed by `rest` lands: on the
/// component's own tag when it is `tag`, else past the component.
#[verifier::spinoff_prover]
proof fn lemma_component_find(
    t: Seq<char>,
    content: Seq<char>,
    flags: Set<char>,
    indices: Seq<Seq<usize>>,
    x: usize,
    y: usize,
    width: Option<usize>,
    height: Option<usize>,
    rest: Seq<char>,
    tag: Seq<char>,
)
    requires
        t == seq!['t', 'e', 'x', 't'] || t == seq!['r', 'i', 'b', 'b', 'o', 'n'],
        tag == text_tag() || tag == ribbon_tag(),
        plain_flags(flags),
    ensures
        ({
            let c = serialized_component(t, content, flags, indices, x, y, width, height);
            let s = c + rest;
            &&& tag == seq!['P', 'z'] + t + seq![';'] ==> find_from(s, tag, 0) == Some(1nat)
                && find_from(s, tag, 1 + tag.len()) == find_from(s, tag, c.len())
                && 1 + tag.len() <= c.len()
            &&& tag != seq!['P', 'z'] + t + seq![';'] ==> find_from(s, tag, 0) == find_from(
                s,
                tag,
                c.len(),
            )
        }),
{
    lemma_component_head(t, content, flags, indices, x, y, width, height);
    let c = serialized_component(t, content, flags, indices, x, y, width, height);
    let s = c + rest;
    assert(tag[0] == 'P');
    assert forall|k: nat| 2 <= k < c.len() implies !#[trigger] matches_at(s, tag, k) by {
        if matches_at(s, tag, k) {
            assert(s.subrange(k as int, (k + tag.len()) as int)[0] == tag[0]);
            assert(s[k as int] == c[k as int]);
        }
    }
    assert(!matches_at(s, tag, 0)) by {
        if matches_at(s, tag, 0) {
            assert(s.subrange(0, tag.len() as int)[0] == tag[0]);
            assert(s[0] == c[0]);
        }
    }
    let full = seq!['P', 'z'] + t + seq![';'];
    if tag == full {
        assert(s.subrange(1, 1 + tag.len() as int) =~= c.subrange(1, 4 + t.len() as int));
        assert(matches_at(s, tag, 1));
        assert(find_from(s, tag, 1) == Some(1nat));
        assert(find_from(s, tag, 0) == Some(1nat));
        lemma_find_skip(s, tag, 1 + tag.len(), c.len());
    } else {
        assert(!matches_at(s, tag, 1)) by {
            if matches_at(s, tag, 1) {
                let sub = s.subrange(1, 1 + tag.len() as int);
                assert(sub[0] == 'P' && sub[1] == 'z');
                assert(sub[2] == tag[2]);
                assert(s[3] == c[3]);
                assert(c[3] == c.subrange(1, 4 + t.len() as int)[2]);
                assert(tag.len() == full.len());
                assert(sub =~= full);
            }
        }
        lemma_find_skip(s, tag, 0, c.len());
    }
}

/// What the components tagged `tag` in a serialized component followed by `rest` show:
/// the component's content when it carries that tag, then what `rest` shows.
#[verifier::spinoff_prover]
pub proof fn lemma_component_tagged(
    t: Seq<char>,
    content: Seq<char>,
    flags: Set<char>,
    indices: Seq<Seq<usize>>,
    x: usize,
    y: usize,
    width: Option<usize>,
    height: Option<usize>,
    rest: Seq<char>,
    tag: Seq<char>,
)
    requires
        t == seq!['t', 'e', 'x', 't'] || t == seq!['r', 'i', 'b', 'b', 'o', 'n'],
        tag == text_tag() || tag == ribbon_tag(),
        plain_flags(flags),
        starts_component(rest),
    ensures
        tagged_plain(serialized_component(t, content, flags, indices, x, y, width, height) + rest, tag, 0)
            == (if tag == seq!['P', 'z'] + t + seq![';'] {
            content
        } else {
            Seq::empty()
        }) + tagged_plain(rest, tag, 0),
        starts_component(serialized_component(t, content, flags, indices, x, y, width, height) + rest),
{
    let c = serialized_component(t, content, flags, indices, x, y, width, height);
    let s = c + rest;
    lemma_component_head(t, content, flags, indices, x, y, width, height);
    assert(c.subrange(1, 4 + t.len() as int)[0] == c[1]);
    lemma_component_find(t, content, flags, indices, x, y, width, height, rest, tag);
    lemma_tagged_shift(c, rest, tag, 0);
    assert(c.len() + 0 == c.len());
    if tag == seq!['P', 'z'] + t + seq![';'] {
        lemma_tagged_same_find(s, tag, 1 + tag.len(), c.len());
        lemma_component_own_text(t, content, flags, indices, x, y, width, height, rest);
        assert(tagged_plain(s, tag, 0) == component_plain(s.skip(1)) + tagged_plain(
            s,
            tag,
            1 + tag.len(),
        ));
    } else {
        lemma_tagged_same_find(s, tag, 0, c.len());
        assert(Seq::<char>::empty() + tagged_plain(rest, tag, 0) =~= tagged_plain(rest, tag, 0));
    }
}

} // verus!
