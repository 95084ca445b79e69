//! The written forms of the scalar values that attributes carry: white
//! space, decimal integers and booleans. Each form has a reading
//! (`.._value`) and a writing (`.._text`), and what is written reads back.

use vstd::prelude::*;
use vstd::slice::slice_subrange;

use crate::text::{
    chars_of, first_position, last_position, lemma_first_position_is, lemma_first_position_none,
    lemma_last_position_is, same_chars,
};

verus! {

/// XML's white space: blank, tab, carriage return, line feed.
pub open spec fn is_space(c: char) -> bool {
    c == ' ' || c == '\t' || c == '\r' || c == '\n'
}

/// Holds of the characters that are no white space.
pub open spec fn non_space() -> spec_fn(char) -> bool {
    |c: char| !is_space(c)
}

/// `s` without the white space at its two ends.
pub open spec fn trimmed(s: Seq<char>) -> Seq<char> {
    match first_position(s, non_space(), 0) {
        None => Seq::empty(),
        Some(a) => match last_position(s, non_space(), s.len() as int) {
            Some(b) => s.subrange(a, b + 1),
            None => Seq::empty(),
        },
    }
}

/// The ten decimal digits.
pub open spec fn is_digit(c: char) -> bool {
    '0' <= c && c <= '9'
}

/// The number that a digit stands for.
pub open spec fn digit_value(c: char) -> nat {
    (c as int - '0' as int) as nat
}

/// The number that a non-empty run of decimal digits spells.
pub open spec fn decimal_value(s: Seq<char>) -> Option<nat>
    decreases s.len(),
{
    if s.len() == 0 {
        None
    } else if !is_digit(s.last()) {
        None
    } else if s.len() == 1 {
        Some(digit_value(s.last()))
    } else {
        match decimal_value(s.drop_last()) {
            Some(v) => Some(v * 10 + digit_value(s.last())),
            None => None,
        }
    }
}

/// A number with an optional `+` before its digits.
pub open spec fn unsigned_value(s: Seq<char>) -> Option<nat> {
    if s.len() > 0 && s[0] == '+' {
        decimal_value(s.skip(1))
    } else {
        decimal_value(s)
    }
}

/// A number with an optional `+` or `-` before its digits.
pub open spec fn signed_value(s: Seq<char>) -> Option<int> {
    if s.len() > 0 && s[0] == '-' {
        match decimal_value(s.skip(1)) {
            Some(n) => Some(-(n as int)),
            None => None,
        }
    } else {
        match unsigned_value(s) {
            Some(n) => Some(n as int),
            None => None,
        }
    }
}

/// An unsigned number, white space around it allowed, that is at most `max`.
pub open spec fn unsigned_up_to(s: Seq<char>, max: nat) -> Option<nat> {
    match unsigned_value(trimmed(s)) {
        Some(n) => if n <= max {
            Some(n)
        } else {
            None
        },
        None => None,
    }
}

/// The number of eight bits that `s` spells, white space around it allowed.
pub open spec fn u8_value(s: Seq<char>) -> Option<u8> {
    match unsigned_up_to(s, u8::MAX as nat) {
        Some(n) => Some(n as u8),
        None => None,
    }
}

/// The number of thirty-two bits that `s` spells, white space around it allowed.
pub open spec fn u32_value(s: Seq<char>) -> Option<u32> {
    match unsigned_up_to(s, u32::MAX as nat) {
        Some(n) => Some(n as u32),
        None => None,
    }
}

/// The number of sixty-four bits that `s` spells, white space around it allowed.
pub open spec fn u64_value(s: Seq<char>) -> Option<u64> {
    match unsigned_up_to(s, u64::MAX as nat) {
        Some(n) => Some(n as u64),
        None => None,
    }
}

/// The signed number of sixteen bits that `s` spells, white space around it allowed.
pub open spec fn i16_value(s: Seq<char>) -> Option<i16> {
    match signed_value(trimmed(s)) {
        Some(n) => if i16::MIN <= n <= i16::MAX {
            Some(n as i16)
        } else {
            None
        },
        None => None,
    }
}

/// `true` and `1` stand for true, `false` and `0` for false; white space
/// around them is allowed.
pub open spec fn bool_value(s: Seq<char>) -> Option<bool> {
    let t = trimmed(s);
    if t == "true"@ || t == "1"@ {
        Some(true)
    } else if t == "false"@ || t == "0"@ {
        Some(false)
    } else {
        None
    }
}

/// The digit that stands for a number below ten.
pub open spec fn digit_char(d: nat) -> char {
    ('0' as int + d) as char
}

/// `n` in decimal digits, without leading zeros.
pub open spec fn decimal_text(n: nat) -> Seq<char>
    decreases n,
{
    if n < 10 {
        seq![digit_char(n)]
    } else {
        decimal_text(n / 10).push(digit_char(n % 10))
    }
}

/// `n` in decimal digits, with `-` before them where it is negative.
pub open spec fn signed_text(n: int) -> Seq<char> {
    if n < 0 {
        seq!['-'] + decimal_text((-n) as nat)
    } else {
        decimal_text(n as nat)
    }
}

/// A boolean as it is written: `true` or `false`.
pub open spec fn bool_text(b: bool) -> Seq<char> {
    if b {
        "true"@
    } else {
        "false"@
    }
}

/// A run of characters spells a number exactly when it is not empty and
/// holds digits only.
pub proof fn lemma_decimal_digits(s: Seq<char>)
    ensures
        decimal_value(s) is Some <==> (s.len() > 0 && forall|i: int|
            0 <= i < s.len() ==> is_digit(#[trigger] s[i])),
    decreases s.len(),
{
    if s.len() > 1 {
        lemma_decimal_digits(s.drop_last());
        if decimal_value(s) is Some {
            assert forall|i: int| 0 <= i < s.len() implies is_digit(#[trigger] s[i]) by {
                if i < s.len() - 1 {
                    assert(s[i] == s.drop_last()[i]);
                }
            }
        } else if is_digit(s.last()) {
            let i = choose|i: int|
                0 <= i < s.drop_last().len() && !is_digit(#[trigger] s.drop_last()[i]);
            assert(s[i] == s.drop_last()[i]);
        }
    }
}

/// The number that the first `i` digits spell is no greater than the whole.
pub proof fn lemma_decimal_prefix(s: Seq<char>, i: int)
    requires
        0 < i <= s.len(),
        decimal_value(s) is Some,
    ensures
        decimal_value(s.take(i)) is Some,
        decimal_value(s.take(i))->0 <= decimal_value(s)->0,
    decreases s.len(),
{
    if i == s.len() {
        assert(s.take(i) =~= s);
    } else {
        lemma_decimal_prefix(s.drop_last(), i);
        assert(s.drop_last().take(i) =~= s.take(i));
    }
}

/// One more digit behind a number: ten times the number, plus the digit.
pub proof fn lemma_decimal_step(s: Seq<char>, i: int)
    requires
        0 <= i < s.len(),
        is_digit(s[i]),
        i > 0 ==> decimal_value(s.take(i)) is Some,
    ensures
        decimal_value(s.take(i + 1)) == Some(
            if i == 0 {
                digit_value(s[i])
            } else {
                decimal_value(s.take(i))->0 * 10 + digit_value(s[i])
            },
        ),
{
    assert(s.take(i + 1).drop_last() =~= s.take(i));
    assert(s.take(i + 1).last() == s[i]);
}

/// What is written for a number holds digits only, and reads back as the number.
pub proof fn lemma_decimal_text(n: nat)
    ensures
        decimal_text(n).len() > 0,
        forall|i: int| 0 <= i < decimal_text(n).len() ==> is_digit(#[trigger] decimal_text(n)[i]),
        decimal_value(decimal_text(n)) == Some(n),
    decreases n,
{
    if n >= 10 {
        lemma_decimal_text(n / 10);
        let shorter = decimal_text(n / 10);
        let whole = decimal_text(n);
        assert(whole.drop_last() =~= shorter);
        assert(whole.last() == digit_char(n % 10));
        assert forall|i: int| 0 <= i < whole.len() implies is_digit(#[trigger] whole[i]) by {
            if i < shorter.len() {
                assert(whole[i] == shorter[i]);
            }
        }
    }
}

/// Text that neither begins nor ends with white space has nothing to trim.
pub proof fn lemma_trimmed_whole(s: Seq<char>)
    requires
        s.len() > 0,
        !is_space(s[0]),
        !is_space(s.last()),
    ensures
        trimmed(s) == s,
{
    lemma_first_position_is(s, non_space(), 0, 0);
    lemma_last_position_is(s, non_space(), s.len() as int, s.len() - 1);
    assert(s.subrange(0, s.len() as int) =~= s);
}

/// An unsigned number that is written reads back.
pub proof fn lemma_unsigned_round_trip(n: nat, max: nat)
    requires
        n <= max,
    ensures
        unsigned_up_to(decimal_text(n), max) == Some(n),
{
    lemma_decimal_text(n);
    let s = decimal_text(n);
    assert(is_digit(s[0]));
    assert(is_digit(s.last()));
    lemma_trimmed_whole(s);
}

/// A signed number that is written reads back.
pub proof fn lemma_signed_round_trip(n: int)
    ensures
        signed_value(trimmed(signed_text(n))) == Some(n),
{
    let s = signed_text(n);
    if n < 0 {
        let digits = decimal_text((-n) as nat);
        lemma_decimal_text((-n) as nat);
        assert(s.last() == digits.last());
        assert(is_digit(digits.last()));
        lemma_trimmed_whole(s);
        assert(s.skip(1) =~= digits);
    } else {
        lemma_decimal_text(n as nat);
        assert(is_digit(s[0]));
        assert(is_digit(s.last()));
        lemma_trimmed_whole(s);
    }
}

fn is_space_char(c: char) -> (r: bool)
    ensures
        r == is_space(c),
{
    c == ' ' || c == '\t' || c == '\r' || c == '\n'
}

/// Where the part of `s` between the white space at its two ends begins and ends.
pub fn trim_bounds(s: &[char]) -> (r: (usize, usize))
    ensures
        r.0 <= r.1 <= s.len(),
        s@.subrange(r.0 as int, r.1 as int) == trimmed(s@),
{
    let mut a: usize = 0;
    while a < s.len() && is_space_char(s[a])
        invariant
            a <= s.len(),
            forall|j: int| 0 <= j < a ==> is_space(#[trigger] s@[j]),
        decreases s.len() - a,
    {
        a += 1;
    }
    if a == s.len() {
        proof {
            lemma_first_position_none(s@, non_space(), 0);
            assert(s@.subrange(0, 0) =~= Seq::<char>::empty());
        }
        return (0, 0);
    }
    let mut b: usize = s.len();
    while b > a + 1 && is_space_char(s[b - 1])
        invariant
            a < b <= s.len(),
            !is_space(s@[a as int]),
            forall|j: int| b <= j < s.len() ==> is_space(#[trigger] s@[j]),
        decreases b,
    {
        b -= 1;
    }
    proof {
        lemma_first_position_is(s@, non_space(), 0, a as int);
        lemma_last_position_is(s@, non_space(), s.len() as int, b - 1);
    }
    (a, b)
}

/// The part of `s` between the white space at its two ends.
pub fn trim(s: &[char]) -> (r: &[char])
    ensures
        r@ == trimmed(s@),
{
    let (a, b) = trim_bounds(s);
    slice_subrange(s, a, b)
}

/// The number that the digits `s` spell, where it is at most `max`.
fn parse_decimal(s: &[char], max: u64) -> (r: Option<u64>)
    requires
        max >= 9,
    ensures
        r == match decimal_value(s@) {
            Some(n) => if n <= max {
                Some(n as u64)
            } else {
                None
            },
            None => None,
        },
{
    if s.len() == 0 {
        return None;
    }
    let mut acc: u64 = 0;
    let mut i: usize = 0;
    while i < s.len()
        invariant
            i <= s.len(),
            max >= 9,
            acc <= max,
            i == 0 ==> acc == 0,
            i > 0 ==> decimal_value(s@.take(i as int)) == Some(acc as nat),
        decreases s.len() - i,
    {
        let c = s[i];
        if !(c >= '0' && c <= '9') {
            proof {
                lemma_decimal_digits(s@);
            }
            return None;
        }
        let d: u64 = (c as u32 - '0' as u32) as u64;
        proof {
            lemma_decimal_step(s@, i as int);
        }
        if acc > (max - d) / 10 {
            proof {
                if decimal_value(s@) is Some {
                    lemma_decimal_prefix(s@, i + 1);
                }
            }
            return None;
        }
        acc = acc * 10 + d;
        i += 1;
    }
    assert(s@.take(s.len() as int) =~= s@);
    Some(acc)
}

/// An unsigned number with white space around it, where it is at most `max`.
pub fn parse_unsigned(s: &[char], max: u64) -> (r: Option<u64>)
    requires
        max >= 9,
    ensures
        r == match unsigned_up_to(s@, max as nat) {
            Some(n) => Some(n as u64),
            None => None,
        },
{
    let t = trim(s);
    if t.len() > 0 && t[0] == '+' {
        let digits = slice_subrange(t, 1, t.len());
        assert(digits@ =~= t@.skip(1));
        parse_decimal(digits, max)
    } else {
        parse_decimal(t, max)
    }
}

/// Reads a number of eight bits.
pub fn parse_u8(text: &str) -> (r: Option<u8>)
    ensures
        r == u8_value(text@),
{
    let chars = chars_of(text);
    match parse_unsigned(chars.as_slice(), 255) {
        Some(n) => Some(n as u8),
        None => None,
    }
}

/// Reads a number of thirty-two bits.
pub fn parse_u32(text: &str) -> (r: Option<u32>)
    ensures
        r == u32_value(text@),
{
    let chars = chars_of(text);
    match parse_unsigned(chars.as_slice(), 0xffff_ffff) {
        Some(n) => Some(n as u32),
        None => None,
    }
}

/// Reads a signed number of sixteen bits.
pub fn parse_i16(text: &str) -> (r: Option<i16>)
    ensures
        r == i16_value(text@),
{
    let chars = chars_of(text);
    let t = trim(chars.as_slice());
    if t.len() > 0 && t[0] == '-' {
        let digits = slice_subrange(t, 1, t.len());
        assert(digits@ =~= t@.skip(1));
        match parse_decimal(digits, 32768) {
            Some(n) => Some((0 - n as i32) as i16),
            None => None,
        }
    } else if t.len() > 0 && t[0] == '+' {
        let digits = slice_subrange(t, 1, t.len());
        assert(digits@ =~= t@.skip(1));
        match parse_decimal(digits, 32767) {
            Some(n) => Some(n as i16),
            None => None,
        }
    } else {
        match parse_decimal(t, 32767) {
            Some(n) => Some(n as i16),
            None => None,
        }
    }
}

/// Reads a boolean.
pub fn parse_bool(text: &str) -> (r: Option<bool>)
    ensures
        r == bool_value(text@),
{
    let chars = chars_of(text);
    let t = trim(chars.as_slice());
    if same_chars(t, chars_of("true").as_slice()) || same_chars(t, chars_of("1").as_slice()) {
        Some(true)
    } else if same_chars(t, chars_of("false").as_slice()) || same_chars(
        t,
        chars_of("0").as_slice(),
    ) {
        Some(false)
    } else {
        None
    }
}

/// The digit `d` as text.
fn digit_str(d: u64) -> (r: &'static str)
    requires
        d < 10,
    ensures
        r@ == seq![digit_char(d as nat)],
{
    proof {
        reveal_strlit("0");
        reveal_strlit("1");
        reveal_strlit("2");
        reveal_strlit("3");
        reveal_strlit("4");
        reveal_strlit("5");
        reveal_strlit("6");
        reveal_strlit("7");
        reveal_strlit("8");
        reveal_strlit("9");
    }
    let r = if d == 0 {
        "0"
    } else if d == 1 {
        "1"
    } else if d == 2 {
        "2"
    } else if d == 3 {
        "3"
    } else if d == 4 {
        "4"
    } else if d == 5 {
        "5"
    } else if d == 6 {
        "6"
    } else if d == 7 {
        "7"
    } else if d == 8 {
        "8"
    } else {
        "9"
    };
    assert(r@ =~= seq![digit_char(d as nat)]);
    r
}

/// Writes `n` in decimal digits behind what `out` holds.
pub fn push_decimal(out: &mut String, n: u64)
    ensures
        final(out)@ == old(out)@ + decimal_text(n as nat),
    decreases n,
{
    if n >= 10 {
        push_decimal(out, n / 10);
    }
    out.append(digit_str(n % 10));
    assert(out@ =~= old(out)@ + decimal_text(n as nat));
}

/// Writes a number in decimal digits.
pub fn format_u64(n: u64) -> (r: String)
    ensures
        r@ == decimal_text(n as nat),
{
    let mut out = String::new();
    push_decimal(&mut out, n);
    assert(out@ =~= decimal_text(n as nat));
    out
}

/// Writes a signed number in decimal digits.
pub fn format_i16(n: i16) -> (r: String)
    ensures
        r@ == signed_text(n as int),
{
    let mut out = String::new();
    if n < 0 {
        proof {
            reveal_strlit("-");
        }
        out.append("-");
        push_decimal(&mut out, (0 - n as i32) as u64);
        assert(out@ =~= signed_text(n as int));
    } else {
        push_decimal(&mut out, n as u64);
        assert(out@ =~= signed_text(n as int));
    }
    out
}

/// Writes a boolean.
pub fn format_bool(b: bool) -> (r: String)
    ensures
        r@ == bool_text(b),
{
    if b {
        String::from_str("true")
    } else {
        String::from_str("false")
    }
}

/// A boolean that is written reads back.
pub proof fn lemma_bool_round_trip(b: bool)
    ensures
        bool_value(bool_text(b)) == Some(b),
{
    reveal_strlit("true");
    reveal_strlit("false");
    reveal_strlit("1");
    reveal_strlit("0");
    lemma_trimmed_whole(bool_text(b));
    assert("true"@[0] != "false"@[0]);
}

} // verus!
