//! Small tools on characters and strings that the other modules share.

use vstd::prelude::*;

verus! {

/// The position of the first item of `items`, from `start` on, of which
/// `wanted` holds.
pub open spec fn first_position<T>(items: Seq<T>, wanted: spec_fn(T) -> bool, start: int) -> Option<
    int,
>
    decreases items.len() - start,
{
    if start < 0 || start >= items.len() {
        None
    } else if wanted(items[start]) {
        Some(start)
    } else {
        first_position(items, wanted, start + 1)
    }
}

/// The position of the last item of `items`, before `end`, of which
/// `wanted` holds.
pub open spec fn last_position<T>(items: Seq<T>, wanted: spec_fn(T) -> bool, end: int) -> Option<
    int,
>
    decreases end,
{
    if end <= 0 || end > items.len() {
        None
    } else if wanted(items[end - 1]) {
        Some(end - 1)
    } else {
        last_position(items, wanted, end - 1)
    }
}

/// What `first_position` finds is the first match, and it finds one if there is any.
pub proof fn lemma_first_position<T>(items: Seq<T>, wanted: spec_fn(T) -> bool, start: int)
    requires
        0 <= start,
    ensures
        match first_position(items, wanted, start) {
            Some(i) => start <= i < items.len() && wanted(items[i]) && forall|j: int|
                start <= j < i ==> !wanted(#[trigger] items[j]),
            None => forall|j: int| start <= j < items.len() ==> !wanted(#[trigger] items[j]),
        },
    decreases items.len() - start,
{
    if start < items.len() && !wanted(items[start]) {
        lemma_first_position(items, wanted, start + 1);
    }
}

/// A position that matches, with none before it, is what `first_position` finds.
pub proof fn lemma_first_position_is<T>(
    items: Seq<T>,
    wanted: spec_fn(T) -> bool,
    start: int,
    at: int,
)
    requires
        0 <= start <= at < items.len(),
        wanted(items[at]),
        forall|j: int| start <= j < at ==> !wanted(#[trigger] items[j]),
    ensures
        first_position(items, wanted, start) == Some(at),
    decreases at - start,
{
    if start < at {
        lemma_first_position_is(items, wanted, start + 1, at);
    }
}

/// Where nothing matches from `start` on, `first_position` finds nothing.
pub proof fn lemma_first_position_none<T>(items: Seq<T>, wanted: spec_fn(T) -> bool, start: int)
    requires
        0 <= start,
        forall|j: int| start <= j < items.len() ==> !wanted(#[trigger] items[j]),
    ensures
        first_position(items, wanted, start) is None,
    decreases items.len() - start,
{
    if start < items.len() {
        lemma_first_position_none(items, wanted, start + 1);
    }
}

/// A position that matches, with none behind it, is what `last_position` finds.
pub proof fn lemma_last_position_is<T>(items: Seq<T>, wanted: spec_fn(T) -> bool, end: int, at: int)
    requires
        0 <= at < end <= items.len(),
        wanted(items[at]),
        forall|j: int| at < j < end ==> !wanted(#[trigger] items[j]),
    ensures
        last_position(items, wanted, end) == Some(at),
    decreases end - at,
{
    if at < end - 1 {
        lemma_last_position_is(items, wanted, end - 1, at);
    }
}

/// `==` on string slices: true exactly when both hold the same characters.
#[verifier::external_body]
pub(crate) fn same_text(a: &str, b: &str) -> (r: bool)
    ensures
        r == (a@ == b@),
{
    a == b
}

/// The characters of `text`, one by one.
pub fn chars_of(text: &str) -> (chars: Vec<char>)
    ensures
        chars@ == text@,
{
    let mut chars: Vec<char> = Vec::new();
    for c in it: text.chars()
        invariant
            chars@ == it.seq().take(it.index() as int),
            it.seq() == text@,
    {
        chars.push(c);
    }
    chars
}

/// Whether two runs of characters are the same.
pub fn same_chars(a: &[char], b: &[char]) -> (r: bool)
    ensures
        r == (a@ == b@),
{
    if a.len() != b.len() {
        return false;
    }
    let mut i: usize = 0;
    while i < a.len()
        invariant
            i <= a.len(),
            a.len() == b.len(),
            forall|j: int| 0 <= j < i ==> a@[j] == b@[j],
        decreases a.len() - i,
    {
        if a[i] != b[i] {
            return false;
        }
        i += 1;
    }
    assert(a@ =~= b@);
    true
}

} // verus!
