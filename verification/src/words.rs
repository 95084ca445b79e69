//! Lists in attributes: words parted by blanks, and the two values that are
//! written as such lists, a run of bytes and an offset in time.

use vstd::prelude::*;
use vstd::slice::slice_subrange;

use crate::lexical::{
    decimal_text, is_digit, lemma_decimal_text, lemma_unsigned_round_trip, parse_unsigned,
    push_decimal, u32_value, u64_value, u8_value,
};
use crate::text::{
    chars_of, first_position, lemma_first_position, lemma_first_position_is,
    lemma_first_position_none,
};

verus! {

/// Holds of the blank.
pub open spec fn blank() -> spec_fn(char) -> bool {
    |c: char| c == ' '
}

/// Holds of every character but the blank.
pub open spec fn non_blank() -> spec_fn(char) -> bool {
    |c: char| c != ' '
}

/// Where the word that begins at `a` ends: at the next blank, or with `s`.
pub open spec fn word_end(s: Seq<char>, a: int) -> int {
    match first_position(s, blank(), a) {
        Some(e) => e,
        None => s.len() as int,
    }
}

/// The words of `s` from `start` on: its longest runs of characters other
/// than the blank.
pub open spec fn words_from(s: Seq<char>, start: int) -> Seq<Seq<char>>
    decreases s.len() - start,
{
    match first_position(s, non_blank(), start) {
        None => Seq::empty(),
        Some(a) => {
            let e = word_end(s, a);
            if start <= a && a < e && e <= s.len() {
                seq![s.subrange(a, e)] + words_from(s, e)
            } else {
                Seq::empty()
            }
        },
    }
}

/// The words of `s`.
pub open spec fn words(s: Seq<char>) -> Seq<Seq<char>> {
    words_from(s, 0)
}

/// A word: not empty, no blank in it.
pub open spec fn is_word(w: Seq<char>) -> bool {
    w.len() > 0 && forall|i: int| 0 <= i < w.len() ==> #[trigger] w[i] != ' '
}

/// The bytes that `items` spell, one number each; `None` if one of them is no byte.
pub open spec fn all_u8(items: Seq<Seq<char>>) -> Option<Seq<u8>>
    decreases items.len(),
{
    if items.len() == 0 {
        Some(Seq::empty())
    } else {
        match all_u8(items.drop_last()) {
            None => None,
            Some(bytes) => match u8_value(items.last()) {
                None => None,
                Some(b) => Some(bytes.push(b)),
            },
        }
    }
}

/// A run of bytes, each a decimal number, parted by blanks.
pub open spec fn byte_list_value(s: Seq<char>) -> Option<Seq<u8>> {
    all_u8(words(s))
}

/// A run of bytes as it is written: each in decimal digits, a blank between two.
pub open spec fn byte_list_text(bytes: Seq<u8>) -> Seq<char>
    decreases bytes.len(),
{
    if bytes.len() == 0 {
        Seq::empty()
    } else if bytes.len() == 1 {
        decimal_text(bytes[0] as nat)
    } else {
        byte_list_text(bytes.drop_last()) + seq![' '] + decimal_text(bytes.last() as nat)
    }
}

/// A span of time: whole seconds, and the nanoseconds of the second begun.
#[derive(Debug, Clone, Copy, PartialEq, Eq, Structural)]
pub struct Offset {
    pub seconds: u64,
    pub nanoseconds: u32,
}

/// How many nanoseconds make a second.
pub const NANOS_PER_SECOND: u32 = 1_000_000_000;

impl Offset {
    /// Less than a second's worth of nanoseconds.
    pub open spec fn is_normal(self) -> bool {
        self.nanoseconds < NANOS_PER_SECOND
    }
}

impl DeepView for Offset {
    type V = Offset;

    open spec fn deep_view(&self) -> Offset {
        *self
    }
}

/// An offset is written as two numbers, seconds and nanoseconds. A second's
/// worth of nanoseconds or more is carried over to the seconds.
pub open spec fn offset_value(s: Seq<char>) -> Option<Offset> {
    let items = words(s);
    if items.len() != 2 {
        None
    } else {
        match (u64_value(items[0]), u32_value(items[1])) {
            (Some(seconds), Some(nanos)) => {
                let total = seconds + nanos / NANOS_PER_SECOND;
                if total <= u64::MAX {
                    Some(
                        Offset {
                            seconds: total as u64,
                            nanoseconds: (nanos % NANOS_PER_SECOND) as u32,
                        },
                    )
                } else {
                    None
                }
            },
            _ => None,
        }
    }
}

/// An offset as it is written: seconds, a blank, nanoseconds.
pub open spec fn offset_text(offset: Offset) -> Seq<char> {
    decimal_text(offset.seconds as nat) + seq![' '] + decimal_text(offset.nanoseconds as nat)
}

/// A word that stands at `start`, with a blank or the end behind it, is the
/// first of the words from there.
proof fn lemma_words_first(s: Seq<char>, start: int, end: int)
    requires
        0 <= start < end <= s.len(),
        is_word(s.subrange(start, end)),
        end < s.len() ==> s[end] == ' ',
    ensures
        words_from(s, start) == seq![s.subrange(start, end)] + words_from(s, end),
{
    let w = s.subrange(start, end);
    assert(w[0] == s[start]);
    lemma_first_position_is(s, non_blank(), start, start);
    assert forall|j: int| start <= j < end implies !blank()(#[trigger] s[j]) by {
        assert(w[j - start] == s[j]);
    }
    if end < s.len() {
        lemma_first_position_is(s, blank(), start, end);
    } else {
        lemma_first_position_none(s, blank(), start);
    }
}

/// Behind the last character there are no words.
proof fn lemma_words_at_end(s: Seq<char>)
    ensures
        words_from(s, s.len() as int) == Seq::<Seq<char>>::empty(),
{
}

/// A word behind a blank behind `t` is one more word behind those of `t`.
proof fn lemma_words_push(t: Seq<char>, w: Seq<char>, start: int)
    requires
        is_word(w),
        0 <= start <= t.len(),
    ensures
        words_from(t + seq![' '] + w, start) == words_from(t, start).push(w),
    decreases t.len() - start,
{
    let s = t + seq![' '] + w;
    let n = t.len() as int;
    lemma_first_position(t, non_blank(), start);
    match first_position(t, non_blank(), start) {
        Some(a) => {
            assert forall|j: int| start <= j < a implies !non_blank()(#[trigger] s[j]) by {
                assert(s[j] == t[j]);
            }
            assert(s[a] == t[a]);
            lemma_first_position_is(s, non_blank(), start, a);
            lemma_first_position(t, blank(), a);
            let e = word_end(t, a);
            assert(a < e <= n);
            assert forall|j: int| a <= j < e implies !blank()(#[trigger] s[j]) by {
                assert(s[j] == t[j]);
            }
            assert(s[n] == ' ');
            if e < n {
                assert(s[e] == t[e]);
            }
            lemma_first_position_is(s, blank(), a, e);
            assert(s.subrange(a, e) =~= t.subrange(a, e));
            lemma_words_push(t, w, e);
            assert(words_from(s, start) =~= words_from(t, start).push(w));
        },
        None => {
            assert forall|j: int| start <= j < n + 1 implies !non_blank()(#[trigger] s[j]) by {
                if j < n {
                    assert(s[j] == t[j]);
                }
            }
            assert(s[n + 1] == w[0]);
            lemma_first_position_is(s, non_blank(), start, n + 1);
            assert(s.subrange(n + 1, s.len() as int) =~= w);
            lemma_words_first(s, n + 1, s.len() as int);
            lemma_words_at_end(s);
            assert(words_from(s, start) =~= words_from(t, start).push(w));
        },
    }
}

/// A word alone is the one word of its text.
proof fn lemma_words_single(w: Seq<char>)
    requires
        is_word(w),
    ensures
        words(w) == seq![w],
{
    assert(w.subrange(0, w.len() as int) =~= w);
    lemma_words_first(w, 0, w.len() as int);
    lemma_words_at_end(w);
}

/// A number in decimal digits is a word.
proof fn lemma_decimal_text_is_word(n: nat)
    ensures
        is_word(decimal_text(n)),
{
    lemma_decimal_text(n);
    let w = decimal_text(n);
    assert forall|i: int| 0 <= i < w.len() implies #[trigger] w[i] != ' ' by {
        assert(is_digit(w[i]));
    }
}

/// The words of a written run of bytes are the bytes' numbers, one by one.
proof fn lemma_byte_list_words(bytes: Seq<u8>)
    ensures
        words(byte_list_text(bytes)) == Seq::new(
            bytes.len(),
            |i: int| decimal_text(bytes[i] as nat),
        ),
    decreases bytes.len(),
{
    let expected = Seq::new(bytes.len(), |i: int| decimal_text(bytes[i] as nat));
    if bytes.len() == 0 {
        assert(words(byte_list_text(bytes)) =~= expected);
    } else if bytes.len() == 1 {
        lemma_decimal_text_is_word(bytes[0] as nat);
        lemma_words_single(decimal_text(bytes[0] as nat));
        assert(words(byte_list_text(bytes)) =~= expected);
    } else {
        lemma_byte_list_words(bytes.drop_last());
        lemma_decimal_text_is_word(bytes.last() as nat);
        lemma_words_push(byte_list_text(bytes.drop_last()), decimal_text(bytes.last() as nat), 0);
        assert(words(byte_list_text(bytes)) =~= expected);
    }
}

/// A run of bytes that is written reads back.
pub proof fn lemma_byte_list_round_trip(bytes: Seq<u8>)
    ensures
        byte_list_value(byte_list_text(bytes)) == Some(bytes),
{
    lemma_byte_list_words(bytes);
    lemma_all_u8_of_texts(bytes);
}

proof fn lemma_all_u8_of_texts(bytes: Seq<u8>)
    ensures
        all_u8(Seq::new(bytes.len(), |i: int| decimal_text(bytes[i] as nat))) == Some(bytes),
    decreases bytes.len(),
{
    let items = Seq::new(bytes.len(), |i: int| decimal_text(bytes[i] as nat));
    if bytes.len() == 0 {
        assert(bytes =~= Seq::<u8>::empty());
    } else {
        let shorter = bytes.drop_last();
        lemma_all_u8_of_texts(shorter);
        assert(items.drop_last() =~= Seq::new(shorter.len(), |i: int| decimal_text(shorter[i] as nat)));
        lemma_unsigned_round_trip(bytes.last() as nat, u8::MAX as nat);
        assert(shorter.push(bytes.last()) =~= bytes);
    }
}

/// An offset with less than a second's worth of nanoseconds, once written, reads back.
pub proof fn lemma_offset_round_trip(offset: Offset)
    requires
        offset.is_normal(),
    ensures
        offset_value(offset_text(offset)) == Some(offset),
{
    let a = decimal_text(offset.seconds as nat);
    let b = decimal_text(offset.nanoseconds as nat);
    lemma_decimal_text_is_word(offset.seconds as nat);
    lemma_decimal_text_is_word(offset.nanoseconds as nat);
    lemma_words_single(a);
    lemma_words_push(a, b, 0);
    assert(words(offset_text(offset)) =~= seq![a, b]);
    lemma_unsigned_round_trip(offset.seconds as nat, u64::MAX as nat);
    lemma_unsigned_round_trip(offset.nanoseconds as nat, u32::MAX as nat);
}

/// If the first `i` items do not all spell bytes, the whole does not.
proof fn lemma_all_u8_prefix(items: Seq<Seq<char>>, i: int)
    requires
        0 <= i <= items.len(),
        all_u8(items.take(i)) is None,
    ensures
        all_u8(items) is None,
    decreases items.len(),
{
    if i < items.len() {
        assert(items.drop_last().take(i) =~= items.take(i));
        lemma_all_u8_prefix(items.drop_last(), i);
    } else {
        assert(items.take(i) =~= items);
    }
}

/// The texts that the spans `ranges` cut out of `s`.
pub open spec fn spans(s: Seq<char>, ranges: Seq<(usize, usize)>) -> Seq<Seq<char>> {
    Seq::new(ranges.len(), |i: int| s.subrange(ranges[i].0 as int, ranges[i].1 as int))
}

/// Where each word of `s` begins and ends.
pub fn split_words(s: &[char]) -> (ranges: Vec<(usize, usize)>)
    ensures
        forall|i: int| 0 <= i < ranges.len() ==> (#[trigger] ranges[i]).0 <= ranges[i].1 <= s.len(),
        spans(s@, ranges@) == words(s@),
{
    let mut ranges: Vec<(usize, usize)> = Vec::new();
    let mut pos: usize = 0;
    loop
        invariant
            pos <= s.len(),
            forall|i: int| 0 <= i < ranges.len() ==> (#[trigger] ranges[i]).0 <= ranges[i].1 <= s.len(),
            words(s@) == spans(s@, ranges@) + words_from(s@, pos as int),
        ensures
            forall|i: int| 0 <= i < ranges.len() ==> (#[trigger] ranges[i]).0 <= ranges[i].1 <= s.len(),
            spans(s@, ranges@) == words(s@),
        decreases s.len() - pos,
    {
        let mut a: usize = pos;
        while a < s.len() && s[a] == ' '
            invariant
                pos <= a <= s.len(),
                forall|j: int| pos <= j < a ==> #[trigger] s@[j] == ' ',
            decreases s.len() - a,
        {
            a += 1;
        }
        if a == s.len() {
            proof {
                lemma_first_position_none(s@, non_blank(), pos as int);
                assert(spans(s@, ranges@) + Seq::<Seq<char>>::empty() =~= spans(s@, ranges@));
            }
            break;
        }
        let mut e: usize = a + 1;
        while e < s.len() && s[e] != ' '
            invariant
                a < e <= s.len(),
                forall|j: int| a <= j < e ==> #[trigger] s@[j] != ' ',
            decreases s.len() - e,
        {
            e += 1;
        }
        proof {
            lemma_first_position_is(s@, non_blank(), pos as int, a as int);
            if e < s.len() {
                lemma_first_position_is(s@, blank(), a as int, e as int);
            } else {
                lemma_first_position_none(s@, blank(), a as int);
            }
            assert(spans(s@, ranges@.push((a, e))) =~= spans(s@, ranges@) + seq![
                s@.subrange(a as int, e as int),
            ]);
        }
        ranges.push((a, e));
        pos = e;
    }
    ranges
}

/// Reads a run of bytes.
pub fn parse_byte_list(text: &str) -> (r: Option<Vec<u8>>)
    ensures
        r.deep_view() == byte_list_value(text@),
{
    let chars = chars_of(text);
    let s = chars.as_slice();
    let ranges = split_words(s);
    let mut bytes: Vec<u8> = Vec::new();
    let mut i: usize = 0;
    while i < ranges.len()
        invariant
            i <= ranges.len(),
            s@ == text@,
            forall|k: int| 0 <= k < ranges.len() ==> (#[trigger] ranges[k]).0 <= ranges[k].1 <= s.len(),
            spans(s@, ranges@) == words(s@),
            all_u8(words(s@).take(i as int)) == Some(bytes@),
        decreases ranges.len() - i,
    {
        let (a, e) = ranges[i];
        let item = slice_subrange(s, a, e);
        proof {
            let items = words(s@);
            assert(items[i as int] == item@);
            assert(items.take(i + 1).drop_last() =~= items.take(i as int));
            assert(items.take(i + 1).last() == item@);
        }
        match parse_unsigned(item, 255) {
            Some(b) => {
                bytes.push(b as u8);
            },
            None => {
                proof {
                    lemma_all_u8_prefix(words(s@), i + 1);
                }
                return None;
            },
        }
        i += 1;
    }
    proof {
        assert(words(s@).take(i as int) =~= words(s@));
        assert(bytes.deep_view() =~= bytes@);
    }
    Some(bytes)
}

/// Writes a run of bytes.
pub fn format_byte_list(bytes: &Vec<u8>) -> (r: String)
    ensures
        r@ == byte_list_text(bytes@),
{
    let mut out = String::new();
    let mut i: usize = 0;
    while i < bytes.len()
        invariant
            i <= bytes.len(),
            out@ == byte_list_text(bytes@.take(i as int)),
        decreases bytes.len() - i,
    {
        proof {
            reveal_strlit(" ");
            assert(bytes@.take(i + 1).drop_last() =~= bytes@.take(i as int));
        }
        if i > 0 {
            out.append(" ");
        }
        push_decimal(&mut out, bytes[i] as u64);
        assert(out@ =~= byte_list_text(bytes@.take(i + 1)));
        i += 1;
    }
    assert(bytes@.take(i as int) =~= bytes@);
    out
}

/// Reads an offset.
pub fn parse_offset(text: &str) -> (r: Option<Offset>)
    ensures
        r == offset_value(text@),
{
    let chars = chars_of(text);
    let s = chars.as_slice();
    let ranges = split_words(s);
    if ranges.len() != 2 {
        return None;
    }
    let (a0, e0) = ranges[0];
    let (a1, e1) = ranges[1];
    let first = slice_subrange(s, a0, e0);
    let second = slice_subrange(s, a1, e1);
    proof {
        assert(words(s@)[0] == first@);
        assert(words(s@)[1] == second@);
    }
    match parse_unsigned(first, u64::MAX) {
        None => None,
        Some(seconds) => match parse_unsigned(second, 0xffff_ffff) {
            None => None,
            Some(nanos) => {
                let carry = nanos / (NANOS_PER_SECOND as u64);
                if seconds > u64::MAX - carry {
                    None
                } else {
                    Some(
                        Offset {
                            seconds: seconds + carry,
                            nanoseconds: (nanos % (NANOS_PER_SECOND as u64)) as u32,
                        },
                    )
                }
            },
        },
    }
}

/// Writes an offset.
pub fn format_offset(offset: Offset) -> (r: String)
    ensures
        r@ == offset_text(offset),
{
    let mut out = String::new();
    push_decimal(&mut out, offset.seconds);
    proof {
        reveal_strlit(" ");
    }
    out.append(" ");
    push_decimal(&mut out, offset.nanoseconds as u64);
    assert(out@ =~= offset_text(offset));
    out
}

} // verus!
