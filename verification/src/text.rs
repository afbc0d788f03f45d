//! Building text in verified code: character pushes and number formatting.

use vstd::prelude::*;

verus! {

/// Appends `c` to `s`.
///
/// Calls `String::push`, which std documents as appending the character to the end of
/// the string; the contract states exactly that over the character sequence.
#[verifier::external_body]
pub(crate) fn push_char(s: &mut String, c: char)
    ensures
        final(s)@ == old(s)@.push(c),
{
    s.push(c);
}

/// Appends all of `t` to `s`.
pub fn push_str(s: &mut String, t: &str)
    ensures
        final(s)@ == old(s)@ + t@,
{
    s.append(t);
}

/// The ASCII digit character for `d` (0–9).
pub open spec fn digit_char(d: int) -> char {
    (48 + d) as char
}

/// The lowercase hexadecimal digit character for `d` (0–15).
pub open spec fn hex_digit_char(d: int) -> char {
    if d < 10 {
        (48 + d) as char
    } else {
        (87 + d) as char
    }
}

/// Decimal text of `n`, without sign or leading zeros (`0` is `"0"`).
pub open spec fn decimal(n: nat) -> Seq<char>
    decreases n,
{
    if n < 10 {
        seq![digit_char(n as int)]
    } else {
        decimal(n / 10).push(digit_char((n % 10) as int))
    }
}

/// Lowercase hexadecimal digits of `n` without leading zeros (`0` is `"0"`).
pub open spec fn hex(n: nat) -> Seq<char>
    decreases n,
{
    if n < 16 {
        seq![hex_digit_char(n as int)]
    } else {
        hex(n / 16).push(hex_digit_char((n % 16) as int))
    }
}

/// The lowest `width` lowercase hexadecimal digits of `n`, most significant first.
pub open spec fn hex_fixed(n: nat, width: nat) -> Seq<char>
    decreases width,
{
    if width == 0 {
        seq![]
    } else {
        hex_fixed(n / 16, (width - 1) as nat).push(hex_digit_char((n % 16) as int))
    }
}

fn digit(d: u64) -> (c: char)
    requires
        d < 10,
    ensures
        c == digit_char(d as int),
{
    let b: u8 = 48u8 + (d as u8);
    b as char
}

fn hex_digit(d: u64) -> (c: char)
    requires
        d < 16,
    ensures
        c == hex_digit_char(d as int),
{
    if d < 10 {
        let b: u8 = 48u8 + (d as u8);
        b as char
    } else {
        let b: u8 = 87u8 + (d as u8);
        b as char
    }
}

/// Appends the decimal text of `n` to `s` (as `format!("{n}")` renders it).
pub fn push_decimal(s: &mut String, n: u64)
    ensures
        final(s)@ == old(s)@ + decimal(n as nat),
    decreases n,
{
    if n < 10 {
        push_char(s, digit(n));
        assert(decimal(n as nat) =~= seq![digit_char(n as int)]);
    } else {
        push_decimal(s, n / 10);
        push_char(s, digit(n % 10));
        assert(old(s)@ + decimal(n as nat) =~= old(s)@ + decimal((n / 10) as nat) + seq![
            digit_char((n % 10) as int),
        ]);
    }
}

/// Appends the lowercase hexadecimal digits of `n` to `s`, without prefix or padding.
pub fn push_hex(s: &mut String, n: u64)
    ensures
        final(s)@ == old(s)@ + hex(n as nat),
    decreases n,
{
    if n < 16 {
        push_char(s, hex_digit(n));
        assert(hex(n as nat) =~= seq![hex_digit_char(n as int)]);
    } else {
        push_hex(s, n / 16);
        push_char(s, hex_digit(n % 16));
        assert(old(s)@ + hex(n as nat) =~= old(s)@ + hex((n / 16) as nat) + seq![
            hex_digit_char((n % 16) as int),
        ]);
    }
}

/// Appends exactly `width` lowercase hexadecimal digits of `n` (its lowest `width`
/// digits, zero-padded), as used for `{:#010x}`-style rendering.
pub fn push_hex_fixed(s: &mut String, n: u64, width: u64)
    ensures
        final(s)@ == old(s)@ + hex_fixed(n as nat, width as nat),
    decreases width,
{
    if width > 0 {
        push_hex_fixed(s, n / 16, width - 1);
        push_char(s, hex_digit(n % 16));
        assert(old(s)@ + hex_fixed(n as nat, width as nat) =~= old(s)@ + hex_fixed(
            (n / 16) as nat,
            (width - 1) as nat,
        ) + seq![hex_digit_char((n % 16) as int)]);
    } else {
        assert(old(s)@ + hex_fixed(n as nat, width as nat) =~= old(s)@);
    }
}

/// Whether `s` is printable ASCII with no quote or backslash: the text `Debug` renders
/// without escapes.
pub open spec fn plain_ascii(s: Seq<char>) -> bool {
    forall|i: int|
        0 <= i < s.len() ==> ' ' <= #[trigger] s[i] <= '~' && s[i] != '"' && s[i] != '\\' && s[i] != '\''
}

/// The text `format!("{s:?}")` renders for a string: quoted, with escapes.
pub uninterp spec fn str_debug(s: Seq<char>) -> Seq<char>;

/// The `Debug` rendering of `s` (quoted, with escapes).
///
/// Calls `<str as Debug>::fmt` through `format!`; its escaping rules take pages to state
/// and depend on the text alone, so the result is named [`str_debug`] rather than spelled
/// out. What std documents for the plain case is stated: text made only of printable
/// ASCII other than quotes and backslashes renders unescaped between double quotes.
#[verifier::external_body]
pub(crate) fn debug_quoted(s: &str) -> (r: String)
    ensures
        r@ == str_debug(s@),
        plain_ascii(s@) ==> r@ == seq!['"'] + s@ + seq!['"'],
{
    format!("{s:?}")
}

} // verus!
