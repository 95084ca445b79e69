//! Decimal fractions as they are written. A `Decimal` or `Double` default is
//! kept in its written form, checked against the grammar of such numbers:
//!
//! ```text
//! Literal  ::= Sign? ( 'inf' | 'infinity' | 'nan' | Number )
//! Number   ::= ( Digit+ | Digit+ '.' Digit* | Digit* '.' Digit+ ) Exponent?
//! Exponent ::= 'e' Sign? Digit+
//! ```
//!
//! Letters may be of either case.

use vstd::prelude::*;
use vstd::slice::slice_subrange;

use crate::lexical::{is_digit, is_space, lemma_trimmed_whole, trim_bounds, trimmed};
use crate::text::{chars_of, first_position, lemma_first_position, lemma_first_position_is, lemma_first_position_none};

verus! {

/// A decimal fraction in its written form.
#[derive(Debug, Clone, PartialEq, Eq)]
pub struct FloatLiteral {
    pub text: String,
}

impl DeepView for FloatLiteral {
    type V = Seq<char>;

    open spec fn deep_view(&self) -> Seq<char> {
        self.text@
    }
}

/// Holds of the characters `a` and `b`.
pub open spec fn one_of(a: char, b: char) -> spec_fn(char) -> bool {
    |c: char| c == a || c == b
}

/// Whether `s` holds decimal digits only.
pub open spec fn all_digits(s: Seq<char>) -> bool {
    forall|i: int| 0 <= i < s.len() ==> is_digit(#[trigger] s[i])
}

/// `s` without the sign that it may begin with.
pub open spec fn without_sign(s: Seq<char>) -> Seq<char> {
    if s.len() > 0 && (s[0] == '+' || s[0] == '-') {
        s.skip(1)
    } else {
        s
    }
}

/// `s` is `lower` or `upper`, or mixes the two letter by letter.
pub open spec fn spells(s: Seq<char>, lower: Seq<char>, upper: Seq<char>) -> bool {
    s.len() == lower.len() && forall|i: int|
        0 <= i < s.len() ==> (#[trigger] s[i] == lower[i] || s[i] == upper[i])
}

/// One of the words for what is no finite number, in any mixture of cases.
pub open spec fn is_special(s: Seq<char>) -> bool {
    spells(s, "inf"@, "INF"@) || spells(s, "infinity"@, "INFINITY"@) || spells(s, "nan"@, "NAN"@)
}

/// Digits with at most one point among them, and at least one digit.
pub open spec fn is_mantissa(m: Seq<char>) -> bool {
    match first_position(m, one_of('.', '.'), 0) {
        None => m.len() > 0 && all_digits(m),
        Some(p) => m.len() > 1 && all_digits(m.take(p)) && all_digits(m.skip(p + 1)),
    }
}

/// Digits, with a sign before them or none.
pub open spec fn is_exponent(x: Seq<char>) -> bool {
    without_sign(x).len() > 0 && all_digits(without_sign(x))
}

/// A mantissa, and behind it an exponent or none.
pub open spec fn is_number(s: Seq<char>) -> bool {
    match first_position(s, one_of('e', 'E'), 0) {
        None => is_mantissa(s),
        Some(e) => is_mantissa(s.take(e)) && is_exponent(s.skip(e + 1)),
    }
}

/// Whether `s` is a decimal fraction as the grammar has it.
pub open spec fn is_float_literal(s: Seq<char>) -> bool {
    is_special(without_sign(s)) || is_number(without_sign(s))
}

/// The literal that `s` holds between the white space at its ends, if it holds one.
pub open spec fn float_literal_value(s: Seq<char>) -> Option<Seq<char>> {
    if is_float_literal(trimmed(s)) {
        Some(trimmed(s))
    } else {
        None
    }
}

proof fn lemma_mantissa_chars(m: Seq<char>)
    requires
        is_mantissa(m),
    ensures
        m.len() > 0,
        forall|i: int| 0 <= i < m.len() ==> !is_space(#[trigger] m[i]),
{
    lemma_first_position(m, one_of('.', '.'), 0);
    match first_position(m, one_of('.', '.'), 0) {
        None => {},
        Some(p) => {
            assert forall|i: int| 0 <= i < m.len() implies !is_space(#[trigger] m[i]) by {
                if i < p {
                    assert(m.take(p)[i] == m[i]);
                } else if i > p {
                    assert(m.skip(p + 1)[i - p - 1] == m[i]);
                }
            }
        },
    }
}

proof fn lemma_number_chars(s: Seq<char>)
    requires
        is_number(s),
    ensures
        s.len() > 0,
        forall|i: int| 0 <= i < s.len() ==> !is_space(#[trigger] s[i]),
{
    lemma_first_position(s, one_of('e', 'E'), 0);
    match first_position(s, one_of('e', 'E'), 0) {
        None => {
            lemma_mantissa_chars(s);
        },
        Some(e) => {
            lemma_mantissa_chars(s.take(e));
            let x = s.skip(e + 1);
            let d = without_sign(x);
            assert forall|i: int| 0 <= i < s.len() implies !is_space(#[trigger] s[i]) by {
                if i < e {
                    assert(s.take(e)[i] == s[i]);
                } else if i > e {
                    assert(x[i - e - 1] == s[i]);
                    if d.len() == x.len() {
                        assert(is_digit(d[i - e - 1]));
                    } else if i > e + 1 {
                        assert(d[i - e - 2] == x[i - e - 1]);
                        assert(is_digit(d[i - e - 2]));
                    }
                }
            }
        },
    }
}

/// A literal is not empty and holds no white space.
pub proof fn lemma_float_literal_chars(s: Seq<char>)
    requires
        is_float_literal(s),
    ensures
        s.len() > 0,
        forall|i: int| 0 <= i < s.len() ==> !is_space(#[trigger] s[i]),
{
    let body = without_sign(s);
    reveal_strlit("inf");
    reveal_strlit("INF");
    reveal_strlit("infinity");
    reveal_strlit("INFINITY");
    reveal_strlit("nan");
    reveal_strlit("NAN");
    if !is_special(body) {
        lemma_number_chars(body);
    }
    assert forall|i: int| 0 <= i < s.len() implies !is_space(#[trigger] s[i]) by {
        if body.len() == s.len() {
            assert(!is_space(body[i]));
        } else if i > 0 {
            assert(body[i - 1] == s[i]);
            assert(!is_space(body[i - 1]));
        }
    }
}

/// A literal reads as itself.
pub proof fn lemma_float_literal_round_trip(s: Seq<char>)
    requires
        is_float_literal(s),
    ensures
        float_literal_value(s) == Some(s),
{
    lemma_float_literal_chars(s);
    assert(!is_space(s[0]));
    assert(!is_space(s.last()));
    lemma_trimmed_whole(s);
}

/// Where the first `a` or `b` of `s` stands.
fn position_of(s: &[char], a: char, b: char) -> (r: Option<usize>)
    ensures
        match first_position(s@, one_of(a, b), 0) {
            Some(i) => r == Some(i as usize) && 0 <= i < s.len(),
            None => r is None,
        },
{
    let mut i: usize = 0;
    while i < s.len()
        invariant
            i <= s.len(),
            forall|j: int| 0 <= j < i ==> !one_of(a, b)(#[trigger] s@[j]),
        decreases s.len() - i,
    {
        if s[i] == a || s[i] == b {
            proof {
                lemma_first_position_is(s@, one_of(a, b), 0, i as int);
            }
            return Some(i);
        }
        i += 1;
    }
    proof {
        lemma_first_position_none(s@, one_of(a, b), 0);
    }
    None
}

fn only_digits(s: &[char]) -> (r: bool)
    ensures
        r == all_digits(s@),
{
    let mut i: usize = 0;
    while i < s.len()
        invariant
            i <= s.len(),
            forall|j: int| 0 <= j < i ==> is_digit(#[trigger] s@[j]),
        decreases s.len() - i,
    {
        if !(s[i] >= '0' && s[i] <= '9') {
            return false;
        }
        i += 1;
    }
    true
}

fn spells_word(s: &[char], lower: &str, upper: &str) -> (r: bool)
    requires
        lower@.len() == upper@.len(),
    ensures
        r == spells(s@, lower@, upper@),
{
    let small = chars_of(lower);
    let capital = chars_of(upper);
    if s.len() != small.len() {
        return false;
    }
    let mut i: usize = 0;
    while i < s.len()
        invariant
            i <= s.len(),
            s.len() == small.len(),
            small@ == lower@,
            capital@ == upper@,
            lower@.len() == upper@.len(),
            forall|j: int| 0 <= j < i ==> (#[trigger] s@[j] == lower@[j] || s@[j] == upper@[j]),
        decreases s.len() - i,
    {
        if s[i] != small[i] && s[i] != capital[i] {
            assert(!(s@[i as int] == lower@[i as int] || s@[i as int] == upper@[i as int]));
            return false;
        }
        i += 1;
    }
    true
}

fn without_sign_chars(s: &[char]) -> (r: &[char])
    ensures
        r@ == without_sign(s@),
{
    if s.len() > 0 && (s[0] == '+' || s[0] == '-') {
        let r = slice_subrange(s, 1, s.len());
        assert(r@ =~= s@.skip(1));
        r
    } else {
        s
    }
}

fn is_mantissa_chars(m: &[char]) -> (r: bool)
    ensures
        r == is_mantissa(m@),
{
    match position_of(m, '.', '.') {
        None => m.len() > 0 && only_digits(m),
        Some(p) => {
            let before = slice_subrange(m, 0, p);
            let after = slice_subrange(m, p + 1, m.len());
            assert(before@ =~= m@.take(p as int));
            assert(after@ =~= m@.skip(p + 1));
            m.len() > 1 && only_digits(before) && only_digits(after)
        },
    }
}

fn is_number_chars(s: &[char]) -> (r: bool)
    ensures
        r == is_number(s@),
{
    match position_of(s, 'e', 'E') {
        None => is_mantissa_chars(s),
        Some(e) => {
            let mantissa = slice_subrange(s, 0, e);
            let exponent = slice_subrange(s, e + 1, s.len());
            assert(mantissa@ =~= s@.take(e as int));
            assert(exponent@ =~= s@.skip(e + 1));
            let digits = without_sign_chars(exponent);
            is_mantissa_chars(mantissa) && digits.len() > 0 && only_digits(digits)
        },
    }
}

/// Whether `s` is a decimal fraction as the grammar has it.
pub fn is_float_literal_chars(s: &[char]) -> (r: bool)
    ensures
        r == is_float_literal(s@),
{
    let body = without_sign_chars(s);
    proof {
        reveal_strlit("inf");
        reveal_strlit("INF");
        reveal_strlit("infinity");
        reveal_strlit("INFINITY");
        reveal_strlit("nan");
        reveal_strlit("NAN");
    }
    spells_word(body, "inf", "INF") || spells_word(body, "infinity", "INFINITY") || spells_word(
        body,
        "nan",
        "NAN",
    ) || is_number_chars(body)
}

/// Reads a decimal fraction, white space around it allowed.
pub fn parse_float_literal(text: &str) -> (r: Option<FloatLiteral>)
    ensures
        r.deep_view() == float_literal_value(text@),
{
    let chars = chars_of(text);
    let (a, b) = trim_bounds(chars.as_slice());
    if is_float_literal_chars(slice_subrange(chars.as_slice(), a, b)) {
        Some(FloatLiteral { text: text.substring_char(a, b).to_owned() })
    } else {
        None
    }
}

} // verus!
