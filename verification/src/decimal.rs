//! Numbers from 0 to 255 in decimal notation, read and written.

use vstd::prelude::*;
use vstd::string::*;

verus! {

/// Whether `c` is one of `0`-`9`.
pub open spec fn is_decimal_digit(c: char) -> bool {
    '0' <= c <= '9'
}

/// The number that a decimal digit stands for; 0 for any other character.
pub open spec fn digit_value(c: char) -> nat {
    if is_decimal_digit(c) {
        (c as int - '0' as int) as nat
    } else {
        0
    }
}

/// Whether every character of `s` is a decimal digit.
pub open spec fn all_decimal(s: Seq<char>) -> bool {
    forall|i: int| 0 <= i < s.len() ==> is_decimal_digit(#[trigger] s[i])
}

/// The number that the digits `s` write, the most significant first.
pub open spec fn decimal_value(s: Seq<char>) -> nat
    decreases s.len(),
{
    if s.len() == 0 {
        0
    } else {
        10 * decimal_value(s.drop_last()) + digit_value(s.last())
    }
}

/// `s` without one leading `+`, where it has one.
pub open spec fn strip_plus(s: Seq<char>) -> Seq<char> {
    if s.len() > 0 && s[0] == '+' {
        s.skip(1)
    } else {
        s
    }
}

/// The number from 0 to 255 that `s` writes, if it writes one: an optional
/// `+`, then one or more decimal digits and nothing else. Leading zeros are
/// accepted.
pub open spec fn byte_of_text(s: Seq<char>) -> Option<u8> {
    let digits = strip_plus(s);
    if digits.len() > 0 && all_decimal(digits) && decimal_value(digits) <= 255 {
        Some(decimal_value(digits) as u8)
    } else {
        None
    }
}

/// The number written by the first digits of `s` is no larger than the one
/// written by all of them.
pub proof fn lemma_prefix_value(s: Seq<char>, n: int)
    requires
        0 <= n <= s.len(),
    ensures
        decimal_value(s.take(n)) <= decimal_value(s),
    decreases s.len() - n,
{
    if n == s.len() {
        assert(s.take(n) =~= s);
    } else {
        lemma_prefix_value(s, n + 1);
        assert(s.take(n + 1).drop_last() =~= s.take(n));
    }
}

/// Reads a number from 0 to 255.
pub fn parse_byte(s: &[char]) -> (r: Option<u8>)
    ensures
        r == byte_of_text(s@),
{
    let start: usize = if s.len() > 0 && s[0] == '+' { 1 } else { 0 };
    let ghost digits = strip_plus(s@);
    if start == s.len() {
        return None;
    }
    let mut value: u16 = 0;
    let mut i: usize = start;
    assert(digits.take(0) =~= Seq::<char>::empty());
    while i < s.len()
        invariant
            start <= i <= s@.len(),
            start <= 1,
            digits == s@.skip(start as int),
            digits == strip_plus(s@),
            all_decimal(digits.take(i - start)),
            value == decimal_value(digits.take(i - start)),
            value <= 255,
        decreases s@.len() - i,
    {
        let c = s[i];
        let ghost next = digits.take(i - start + 1);
        assert(next.drop_last() =~= digits.take(i - start));
        assert(next.last() == c);
        if !('0' <= c && c <= '9') {
            assert(!is_decimal_digit(digits[i - start]));
            return None;
        }
        let digit: u16 = (c as u32 - '0' as u32) as u16;
        if value * 10 + digit > 255 {
            proof {
                lemma_prefix_value(digits, i - start + 1);
            }
            return None;
        }
        value = value * 10 + digit;
        i += 1;
    }
    assert(digits.take(i - start) =~= digits);
    Some(value as u8)
}

/// The character that writes the digit `d`.
pub open spec fn digit_char(d: nat) -> char
    recommends
        d < 10,
{
    ('0' as int + d) as char
}

/// `n` in decimal notation, without leading zeros.
pub open spec fn decimal_text(n: nat) -> Seq<char>
    decreases n,
{
    if n < 10 {
        seq![digit_char(n)]
    } else {
        decimal_text(n / 10).push(digit_char(n % 10))
    }
}

/// The text of one digit.
fn digit_text(d: u8) -> (t: &'static str)
    requires
        d < 10,
    ensures
        t@ == seq![digit_char(d as nat)],
{
    proof {
        reveal_strlit("0");
        reveal_strlit("1");
        reveal_strlit("2");
        reveal_strlit("3");
        reveal_strlit("4");
        reveal_strlit("5");
        reveal_strlit("6");
        reveal_strlit("7");
        reveal_strlit("8");
        reveal_strlit("9");
    }
    let t = match d {
        0 => "0",
        1 => "1",
        2 => "2",
        3 => "3",
        4 => "4",
        5 => "5",
        6 => "6",
        7 => "7",
        8 => "8",
        _ => "9",
    };
    assert(t@ =~= seq![digit_char(d as nat)]);
    t
}

/// Appends `b` in decimal notation to `out`.
pub fn push_byte(out: &mut String, b: u8)
    ensures
        final(out)@ == old(out)@ + decimal_text(b as nat),
{
    reveal_with_fuel(decimal_text, 3);
    let ghost before = out@;
    if b >= 100 {
        out.append(digit_text(b / 100));
    }
    if b >= 10 {
        out.append(digit_text((b / 10) % 10));
    }
    out.append(digit_text(b % 10));
    assert(out@ =~= before + decimal_text(b as nat));
}

/// What `decimal_text` writes, `byte_of_text` reads back.
pub proof fn lemma_text_reads_back(n: nat)
    ensures
        decimal_text(n).len() > 0,
        all_decimal(decimal_text(n)),
        decimal_value(decimal_text(n)) == n,
        n <= 255 ==> byte_of_text(decimal_text(n)) == Some(n as u8),
    decreases n,
{
    let t = decimal_text(n);
    if n >= 10 {
        lemma_text_reads_back(n / 10);
        assert(t.drop_last() =~= decimal_text(n / 10));
    } else {
        assert(t.drop_last() =~= Seq::<char>::empty());
        assert(decimal_value(t.drop_last()) == 0);
    }
    assert(is_decimal_digit(t[0]));
    assert(strip_plus(t) == t);
}

} // verus!
