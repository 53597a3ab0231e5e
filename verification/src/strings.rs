use vstd::prelude::*;
use vstd::string::*;

verus! {

/// `n` space characters.
pub open spec fn spaces(n: nat) -> Seq<char> {
    Seq::new(n, |_i: int| ' ')
}

/// The ASCII digit for `d` (which is below 10).
pub open spec fn digit_char(d: nat) -> char {
    (48 + d) as char
}

/// Decimal notation of `n`, without sign or leading zeros.
pub open spec fn decimal(n: nat) -> Seq<char>
    decreases n,
{
    if n < 10 {
        seq![digit_char(n)]
    } else {
        decimal(n / 10).push(digit_char(n % 10))
    }
}

/// Calls `String::push`: appends one character.
#[verifier::external_body]
pub(crate) fn push_char(s: &mut String, c: char)
    ensures
        final(s)@ == old(s)@.push(c),
{
    s.push(c)
}

/// Appends `n` spaces to `s`.
pub(crate) fn push_spaces(s: &mut String, n: usize)
    ensures
        final(s)@ == old(s)@ + spaces(n as nat),
{
    let mut i: usize = 0;
    while i < n
        invariant
            i <= n,
            s@ == old(s)@ + spaces(i as nat),
        decreases n - i,
    {
        push_char(s, ' ');
        i = i + 1;
        assert(s@ =~= old(s)@ + spaces(i as nat));
    }
}

/// Decimal notation of `n`, as `n.to_string()` writes it.
pub fn decimal_string(n: usize) -> (r: String)
    ensures
        r@ == decimal(n as nat),
    decreases n,
{
    let d: u8 = (n % 10) as u8;
    let c: char = (48u8 + d) as char;
    if n < 10 {
        let mut s = String::new();
        push_char(&mut s, c);
        assert(s@ =~= decimal(n as nat));
        s
    } else {
        let mut s = decimal_string(n / 10);
        push_char(&mut s, c);
        s
    }
}

/// Decimal notation of `n + 1`, for every `n` (also `usize::MAX`).
pub fn decimal_string_succ(n: usize) -> (r: String)
    ensures
        r@ == decimal(n as nat + 1),
    decreases n,
{
    let last: u8 = (n % 10) as u8;
    if last != 9 {
        let c: char = (48u8 + last + 1) as char;
        if n < 10 {
            let mut s = String::new();
            push_char(&mut s, c);
            assert(s@ =~= decimal(n as nat + 1));
            s
        } else {
            let mut s = decimal_string(n / 10);
            push_char(&mut s, c);
            assert((n as nat + 1) / 10 == n as nat / 10);
            assert((n as nat + 1) % 10 == n as nat % 10 + 1);
            s
        }
    } else {
        let mut s = if n < 10 {
            let mut one = String::new();
            push_char(&mut one, '1');
            assert(one@ =~= decimal(1));
            one
        } else {
            decimal_string_succ(n / 10)
        };
        push_char(&mut s, '0');
        assert((n as nat + 1) / 10 == n as nat / 10 + 1);
        assert((n as nat + 1) % 10 == 0);
        s
    }
}

/// Whether `a` and `b` hold the same characters.
pub fn same_text(a: &str, b: &str) -> (r: bool)
    ensures
        r == (a@ == b@),
{
    let n = a.unicode_len();
    if n != b.unicode_len() {
        return false;
    }
    let mut i: usize = 0;
    while i < n
        invariant
            n == a@.len(),
            n == b@.len(),
            i <= n,
            forall|k: int| 0 <= k < i ==> a@[k] == b@[k],
        decreases n - i,
    {
        if a.get_char(i) != b.get_char(i) {
            return false;
        }
        i = i + 1;
    }
    assert(a@ =~= b@);
    true
}

pub proof fn lemma_decimal_nonempty(n: nat)
    ensures
        decimal(n).len() > 0,
    decreases n,
{
    if n >= 10 {
        lemma_decimal_nonempty(n / 10);
    }
}

} // verus!
