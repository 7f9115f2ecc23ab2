//! Plain-text helpers: decimal and hexadecimal rendering of numbers,
//! ASCII case handling, and hexadecimal parsing. These replace formatting
//! machinery with verified character building.

use vstd::prelude::*;
use vstd::string::StringExecFns;

verus! {

/// The decimal digits of `n`, most significant first.
pub open spec fn dec_chars(n: nat) -> Seq<char>
    decreases n,
{
    if n < 10 {
        seq![digit_char(n)]
    } else {
        dec_chars(n / 10) + seq![digit_char(n % 10)]
    }
}

/// The character for one digit value below sixteen, lower case.
pub open spec fn digit_char(d: nat) -> char {
    if d == 0 { '0' }
    else if d == 1 { '1' }
    else if d == 2 { '2' }
    else if d == 3 { '3' }
    else if d == 4 { '4' }
    else if d == 5 { '5' }
    else if d == 6 { '6' }
    else if d == 7 { '7' }
    else if d == 8 { '8' }
    else if d == 9 { '9' }
    else if d == 10 { 'a' }
    else if d == 11 { 'b' }
    else if d == 12 { 'c' }
    else if d == 13 { 'd' }
    else if d == 14 { 'e' }
    else { 'f' }
}

/// The character for one digit value below sixteen, upper case.
pub open spec fn digit_char_upper(d: nat) -> char {
    if d == 0 { '0' }
    else if d == 1 { '1' }
    else if d == 2 { '2' }
    else if d == 3 { '3' }
    else if d == 4 { '4' }
    else if d == 5 { '5' }
    else if d == 6 { '6' }
    else if d == 7 { '7' }
    else if d == 8 { '8' }
    else if d == 9 { '9' }
    else if d == 10 { 'A' }
    else if d == 11 { 'B' }
    else if d == 12 { 'C' }
    else if d == 13 { 'D' }
    else if d == 14 { 'E' }
    else { 'F' }
}

/// The upper-case hexadecimal digits of `n`, most significant first,
/// left-padded with zeros to at least `width` digits.
pub open spec fn hex_chars_upper(n: nat, width: nat) -> Seq<char>
    decreases n / 16 + width,
{
    if n < 16 && width <= 1 {
        seq![digit_char_upper(n)]
    } else {
        hex_chars_upper(n / 16, (if width <= 1 { 0 } else { width - 1 }) as nat)
            + seq![digit_char_upper(n % 16)]
    }
}

fn digit_to_char(d: u32) -> (c: char)
    requires
        d < 16,
    ensures
        c == digit_char(d as nat),
{
    if d == 0 { '0' }
    else if d == 1 { '1' }
    else if d == 2 { '2' }
    else if d == 3 { '3' }
    else if d == 4 { '4' }
    else if d == 5 { '5' }
    else if d == 6 { '6' }
    else if d == 7 { '7' }
    else if d == 8 { '8' }
    else if d == 9 { '9' }
    else if d == 10 { 'a' }
    else if d == 11 { 'b' }
    else if d == 12 { 'c' }
    else if d == 13 { 'd' }
    else if d == 14 { 'e' }
    else { 'f' }
}

fn digit_to_char_upper(d: u32) -> (c: char)
    requires
        d < 16,
    ensures
        c == digit_char_upper(d as nat),
{
    if d == 0 { '0' }
    else if d == 1 { '1' }
    else if d == 2 { '2' }
    else if d == 3 { '3' }
    else if d == 4 { '4' }
    else if d == 5 { '5' }
    else if d == 6 { '6' }
    else if d == 7 { '7' }
    else if d == 8 { '8' }
    else if d == 9 { '9' }
    else if d == 10 { 'A' }
    else if d == 11 { 'B' }
    else if d == 12 { 'C' }
    else if d == 13 { 'D' }
    else if d == 14 { 'E' }
    else { 'F' }
}

/// Relies on String::push: it appends exactly the one character.
#[verifier::external_body]
pub fn string_push_char(s: &mut String, c: char)
    ensures
        final(s)@ == old(s)@ + seq![c],
{
    s.push(c);
}

/// Append the decimal rendering of `n` to `out`.
pub fn push_dec_u32(out: &mut String, n: u32)
    ensures
        final(out)@ == old(out)@ + dec_chars(n as nat),
    decreases n,
{
    if n < 10 {
        string_push_char(out, digit_to_char(n));
        assert(dec_chars(n as nat) =~= seq![digit_char(n as nat)]);
    } else {
        push_dec_u32(out, n / 10);
        string_push_char(out, digit_to_char(n % 10));
        assert(old(out)@ + dec_chars(n as nat / 10) + seq![digit_char((n % 10) as nat)]
            =~= old(out)@ + dec_chars(n as nat));
    }
}

/// Append the upper-case hexadecimal rendering of `n`, zero-padded to at
/// least `width` digits, to `out`.
pub fn push_hex_u32_upper(out: &mut String, n: u32, width: u32)
    ensures
        final(out)@ == old(out)@ + hex_chars_upper(n as nat, width as nat),
    decreases n / 16 + width,
{
    if n < 16 && width <= 1 {
        string_push_char(out, digit_to_char_upper(n));
        assert(hex_chars_upper(n as nat, width as nat) =~= seq![digit_char_upper(n as nat)]);
    } else {
        let w2: u32 = if width <= 1 { 0 } else { width - 1 };
        push_hex_u32_upper(out, n / 16, w2);
        string_push_char(out, digit_to_char_upper(n % 16));
        assert(old(out)@ + hex_chars_upper(n as nat / 16, w2 as nat)
            + seq![digit_char_upper((n % 16) as nat)]
            =~= old(out)@ + hex_chars_upper(n as nat, width as nat));
    }
}

/// The value of one hexadecimal digit character, in either case.
pub open spec fn hex_digit_value(c: char) -> Option<u32> {
    if c == '0' { Some(0u32) }
    else if c == '1' { Some(1u32) }
    else if c == '2' { Some(2u32) }
    else if c == '3' { Some(3u32) }
    else if c == '4' { Some(4u32) }
    else if c == '5' { Some(5u32) }
    else if c == '6' { Some(6u32) }
    else if c == '7' { Some(7u32) }
    else if c == '8' { Some(8u32) }
    else if c == '9' { Some(9u32) }
    else if c == 'a' || c == 'A' { Some(10u32) }
    else if c == 'b' || c == 'B' { Some(11u32) }
    else if c == 'c' || c == 'C' { Some(12u32) }
    else if c == 'd' || c == 'D' { Some(13u32) }
    else if c == 'e' || c == 'E' { Some(14u32) }
    else if c == 'f' || c == 'F' { Some(15u32) }
    else { None }
}

fn hex_digit(c: char) -> (r: Option<u32>)
    ensures
        r == hex_digit_value(c),
{
    if c == '0' { Some(0) }
    else if c == '1' { Some(1) }
    else if c == '2' { Some(2) }
    else if c == '3' { Some(3) }
    else if c == '4' { Some(4) }
    else if c == '5' { Some(5) }
    else if c == '6' { Some(6) }
    else if c == '7' { Some(7) }
    else if c == '8' { Some(8) }
    else if c == '9' { Some(9) }
    else if c == 'a' || c == 'A' { Some(10) }
    else if c == 'b' || c == 'B' { Some(11) }
    else if c == 'c' || c == 'C' { Some(12) }
    else if c == 'd' || c == 'D' { Some(13) }
    else if c == 'e' || c == 'E' { Some(14) }
    else if c == 'f' || c == 'F' { Some(15) }
    else { None }
}

/// The unsigned 32-bit value of a hexadecimal digit string: one optional
/// leading plus sign, then at least one digit of either case, rejecting
/// anything else or a value past the 32-bit range. This is the behavior
/// of parsing an unsigned integer with radix sixteen.
pub open spec fn hex_u32_value(s: Seq<char>) -> Option<u32> {
    let digits = if s.len() > 0 && s[0] == '+' { s.skip(1) } else { s };
    if digits.len() == 0 {
        None
    } else {
        hex_digits_value(digits, 0)
    }
}

/// Fold hexadecimal digits left to right onto `acc`, failing on a
/// non-digit or on 32-bit overflow.
pub open spec fn hex_digits_value(s: Seq<char>, acc: nat) -> Option<u32>
    decreases s.len(),
{
    if s.len() == 0 {
        if acc <= u32::MAX {
            Some(acc as u32)
        } else {
            None
        }
    } else {
        match hex_digit_value(s[0]) {
            None => None,
            Some(d) => {
                let acc2 = acc * 16 + d;
                if acc2 > u32::MAX {
                    None
                } else {
                    hex_digits_value(s.skip(1), acc2 as nat)
                }
            },
        }
    }
}

/// Parse a hexadecimal digit string as an unsigned 32-bit value.
pub fn parse_hex_u32(s: &str) -> (r: Option<u32>)
    ensures
        r == hex_u32_value(s@),
{
    let len = s.unicode_len();
    let mut i: usize = 0;
    if len > 0 && s.get_char(0) == '+' {
        i = 1;
    }
    if i >= len {
        proof {
            if s@.len() > 0 && s@[0] == '+' {
                assert(s@.skip(1).len() == 0);
            }
        }
        return None;
    }
    let ghost digits = if s@.len() > 0 && s@[0] == '+' { s@.skip(1) } else { s@ };
    let ghost start = i as int;
    let mut acc: u32 = 0;
    while i < len
        invariant
            0 <= start <= i <= len,
            len == s@.len(),
            start == (if s@.len() > 0 && s@[0] == '+' { 1int } else { 0int }),
            digits == s@.skip(start),
            digits.len() > 0,
            hex_digits_value(digits, 0) == hex_digits_value(
                s@.skip(i as int),
                acc as nat,
            ),
        decreases len - i,
    {
        let c = s.get_char(i);
        proof {
            assert(s@.skip(i as int)[0] == s@[i as int]);
        }
        let d = match hex_digit(c) {
            Some(d) => d,
            None => {
                proof {
                    assert(s@.skip(0) =~= s@);
                    assert(hex_digits_value(s@.skip(i as int), acc as nat) is None);
                }
                return None;
            },
        };
        if acc >= 0x1000_0000 {
            // the next digit would overflow the 32-bit range
            proof {
                assert(acc as nat * 16 + d as nat > u32::MAX) by (nonlinear_arith)
                    requires
                        acc >= 0x1000_0000,
                        d >= 0,
                ;
                assert(s@.skip(0) =~= s@);
                assert(hex_digits_value(s@.skip(i as int), acc as nat) is None);
            }
            return None;
        }
        proof {
            assert(acc as nat * 16 + d as nat <= u32::MAX) by (nonlinear_arith)
                requires
                    acc < 0x1000_0000,
                    d < 16,
            ;
        }
        let acc2: u32 = acc * 16 + d;
        proof {
            assert(s@.skip(i as int).skip(1) =~= s@.skip(i + 1));
        }
        acc = acc2;
        i = i + 1;
    }
    proof {
        assert(s@.skip(len as int).len() == 0);
    }
    Some(acc)
}

/// The character with ASCII upper-case letters lowered; anything else is
/// itself.
pub open spec fn lower_char(c: char) -> char {
    if c == 'A' { 'a' } else if c == 'B' { 'b' } else if c == 'C' { 'c' }
    else if c == 'D' { 'd' } else if c == 'E' { 'e' } else if c == 'F' { 'f' }
    else if c == 'G' { 'g' } else if c == 'H' { 'h' } else if c == 'I' { 'i' }
    else if c == 'J' { 'j' } else if c == 'K' { 'k' } else if c == 'L' { 'l' }
    else if c == 'M' { 'm' } else if c == 'N' { 'n' } else if c == 'O' { 'o' }
    else if c == 'P' { 'p' } else if c == 'Q' { 'q' } else if c == 'R' { 'r' }
    else if c == 'S' { 's' } else if c == 'T' { 't' } else if c == 'U' { 'u' }
    else if c == 'V' { 'v' } else if c == 'W' { 'w' } else if c == 'X' { 'x' }
    else if c == 'Y' { 'y' } else if c == 'Z' { 'z' } else { c }
}

/// A string with its ASCII letters lowered, character by character.
pub open spec fn lower_chars(s: Seq<char>) -> Seq<char> {
    s.map_values(|c: char| lower_char(c))
}

fn lower_one(c: char) -> (r: char)
    ensures
        r == lower_char(c),
{
    if c == 'A' { 'a' } else if c == 'B' { 'b' } else if c == 'C' { 'c' }
    else if c == 'D' { 'd' } else if c == 'E' { 'e' } else if c == 'F' { 'f' }
    else if c == 'G' { 'g' } else if c == 'H' { 'h' } else if c == 'I' { 'i' }
    else if c == 'J' { 'j' } else if c == 'K' { 'k' } else if c == 'L' { 'l' }
    else if c == 'M' { 'm' } else if c == 'N' { 'n' } else if c == 'O' { 'o' }
    else if c == 'P' { 'p' } else if c == 'Q' { 'q' } else if c == 'R' { 'r' }
    else if c == 'S' { 's' } else if c == 'T' { 't' } else if c == 'U' { 'u' }
    else if c == 'V' { 'v' } else if c == 'W' { 'w' } else if c == 'X' { 'x' }
    else if c == 'Y' { 'y' } else if c == 'Z' { 'z' } else { c }
}

/// The string with its ASCII letters lowered.
pub fn to_ascii_lower(s: &str) -> (r: String)
    ensures
        r@ == lower_chars(s@),
{
    let len = s.unicode_len();
    let mut out = String::new();
    let mut i: usize = 0;
    while i < len
        invariant
            0 <= i <= len,
            len == s@.len(),
            out@ =~= lower_chars(s@).take(i as int),
        decreases len - i,
    {
        string_push_char(&mut out, lower_one(s.get_char(i)));
        proof {
            assert(lower_chars(s@).take(i + 1)
                =~= lower_chars(s@).take(i as int) + seq![lower_char(s@[i as int])]);
        }
        i = i + 1;
    }
    proof {
        assert(lower_chars(s@).take(len as int) =~= lower_chars(s@));
    }
    out
}

/// Whether two strings are equal after ASCII case folding.
pub fn eq_ignore_ascii_case(a: &str, b: &str) -> (r: bool)
    ensures
        r == (lower_chars(a@) == lower_chars(b@)),
{
    let la = a.unicode_len();
    let lb = b.unicode_len();
    if la != lb {
        proof {
            assert(lower_chars(a@).len() == a@.len());
            assert(lower_chars(b@).len() == b@.len());
        }
        return false;
    }
    let mut i: usize = 0;
    while i < la
        invariant
            0 <= i <= la,
            la == a@.len(),
            la == b@.len(),
            forall|j: int| 0 <= j < i ==> lower_char(a@[j]) == lower_char(b@[j]),
        decreases la - i,
    {
        if lower_one(a.get_char(i)) != lower_one(b.get_char(i)) {
            proof {
                assert(lower_chars(a@)[i as int] != lower_chars(b@)[i as int]);
            }
            return false;
        }
        i = i + 1;
    }
    proof {
        assert(lower_chars(a@) =~= lower_chars(b@));
    }
    true
}

} // verus!
