//! Writing integers as text: fixed-width hexadecimal, decimal, signed and
//! padded decimal.

use vstd::prelude::*;

verus! {

/// The lower-case hexadecimal digit of a value below sixteen.
pub open spec fn digit_char(d: nat) -> char {
    if d == 0 { '0' }
    else if d == 1 { '1' }
    else if d == 2 { '2' }
    else if d == 3 { '3' }
    else if d == 4 { '4' }
    else if d == 5 { '5' }
    else if d == 6 { '6' }
    else if d == 7 { '7' }
    else if d == 8 { '8' }
    else if d == 9 { '9' }
    else if d == 10 { 'a' }
    else if d == 11 { 'b' }
    else if d == 12 { 'c' }
    else if d == 13 { 'd' }
    else if d == 14 { 'e' }
    else { 'f' }
}

/// The low `width` hexadecimal digits of `n`, most significant first.
pub open spec fn hex_text(n: nat, width: nat) -> Seq<char>
    decreases width,
{
    if width == 0 {
        Seq::empty()
    } else {
        hex_text(n / 16, (width - 1) as nat).push(digit_char(n % 16))
    }
}

/// The hexadecimal text has exactly `width` digits.
pub proof fn lemma_hex_text_len(n: nat, width: nat)
    ensures
        hex_text(n, width).len() == width,
    decreases width,
{
    if width > 0 {
        lemma_hex_text_len(n / 16, (width - 1) as nat);
    }
}

/// The decimal digits of `n`, without leading zeros.
pub open spec fn dec_text(n: nat) -> Seq<char>
    decreases n,
{
    if n < 10 {
        seq![digit_char(n)]
    } else {
        dec_text(n / 10).push(digit_char(n % 10))
    }
}

/// Decimal text of a signed value, with a minus sign when it is negative.
pub open spec fn signed_text(i: int) -> Seq<char> {
    if i < 0 {
        seq!['-'] + dec_text((-i) as nat)
    } else {
        dec_text(i as nat)
    }
}

/// Decimal text of a signed value that always carries its sign.
pub open spec fn plus_text(i: int) -> Seq<char> {
    if i < 0 {
        seq!['-'] + dec_text((-i) as nat)
    } else {
        seq!['+'] + dec_text(i as nat)
    }
}

/// `s` preceded by as many `c` as it takes to reach `width` characters.
pub open spec fn pad_left(s: Seq<char>, width: nat, c: char) -> Seq<char> {
    if s.len() >= width {
        s
    } else {
        Seq::new((width - s.len()) as nat, |_i: int| c) + s
    }
}

/// What `{:?}` writes for a text: the text in double quotes, with quotes,
/// backslashes and unprintable characters escaped.
pub uninterp spec fn debug_text(s: Seq<char>) -> Seq<char>;

/// Relies on the `Debug` formatting of `str` (`format!("{:?}", s)`): the
/// quoted, escaped text, which depends on the text alone.
#[verifier::external_body]
pub(crate) fn quoted(s: &str) -> (r: String)
    ensures
        r@ == debug_text(s@),
{
    format!("{:?}", s)
}

/// Relies on `String::push`: appends one character.
#[verifier::external_body]
pub(crate) fn push_char(s: &mut String, c: char)
    ensures
        final(s)@ == old(s)@.push(c),
{
    s.push(c);
}

/// Appends the hexadecimal digit of `d`.
pub fn push_digit(s: &mut String, d: u64)
    requires
        d < 16,
    ensures
        final(s)@ == old(s)@.push(digit_char(d as nat)),
{
    let c: char = match d {
        0 => '0',
        1 => '1',
        2 => '2',
        3 => '3',
        4 => '4',
        5 => '5',
        6 => '6',
        7 => '7',
        8 => '8',
        9 => '9',
        10 => 'a',
        11 => 'b',
        12 => 'c',
        13 => 'd',
        14 => 'e',
        _ => 'f',
    };
    push_char(s, c);
}

/// Appends the low `width` hexadecimal digits of `n`.
pub fn push_hex(s: &mut String, n: u64, width: usize)
    ensures
        final(s)@ == old(s)@ + hex_text(n as nat, width as nat),
    decreases width,
{
    if width > 0 {
        push_hex(s, n / 16, width - 1);
        push_digit(s, n % 16);
        proof {
            assert(s@ =~= old(s)@ + hex_text(n as nat, width as nat));
        }
    } else {
        proof {
            assert(s@ =~= old(s)@ + hex_text(n as nat, width as nat));
        }
    }
}

/// Appends the decimal digits of `n`.
pub fn push_dec(s: &mut String, n: u64)
    ensures
        final(s)@ == old(s)@ + dec_text(n as nat),
    decreases n,
{
    if n >= 10 {
        push_dec(s, n / 10);
    }
    push_digit(s, n % 10);
    proof {
        assert(s@ =~= old(s)@ + dec_text(n as nat));
    }
}

/// The magnitude of a signed value.
pub(crate) fn magnitude(i: i64) -> (r: u64)
    ensures
        r as int == if i < 0 { -i } else { i as int },
{
    if i < 0 {
        (-(i as i128)) as u64
    } else {
        i as u64
    }
}

/// Appends the decimal text of a signed value.
pub fn push_signed(s: &mut String, i: i64)
    ensures
        final(s)@ == old(s)@ + signed_text(i as int),
{
    if i < 0 {
        push_char(s, '-');
    }
    push_dec(s, magnitude(i));
    proof {
        assert(s@ =~= old(s)@ + signed_text(i as int));
    }
}

/// Appends the decimal text of a signed value, with its sign always written.
pub fn push_plus(s: &mut String, i: i64)
    ensures
        final(s)@ == old(s)@ + plus_text(i as int),
{
    if i < 0 {
        push_char(s, '-');
    } else {
        push_char(s, '+');
    }
    push_dec(s, magnitude(i));
    proof {
        assert(s@ =~= old(s)@ + plus_text(i as int));
    }
}

/// Appends `t`, preceded by as many `c` as it takes to reach `width`
/// characters.
pub fn push_padded(s: &mut String, t: &String, width: usize, c: char)
    ensures
        final(s)@ == old(s)@ + pad_left(t@, width as nat, c),
{
    let len = t.as_str().unicode_len();
    let ghost s0 = s@;
    if len < width {
        let mut k: usize = len;
        while k < width
            invariant
                len <= k <= width,
                len == t@.len(),
                s@ == s0 + Seq::new((k - len) as nat, |_i: int| c),
            decreases width - k,
        {
            push_char(s, c);
            k = k + 1;
            proof {
                assert(s@ =~= s0 + Seq::new((k - len) as nat, |_i: int| c));
            }
        }
    }
    s.append(t.as_str());
    proof {
        assert(s@ =~= s0 + pad_left(t@, width as nat, c));
    }
}

/// The decimal text of a signed value.
pub fn signed_string(i: i64) -> (r: String)
    ensures
        r@ == signed_text(i as int),
{
    let mut s = String::new();
    push_signed(&mut s, i);
    proof {
        assert(s@ =~= signed_text(i as int));
    }
    s
}

} // verus!
