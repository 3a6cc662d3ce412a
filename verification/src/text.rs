//! Texts as sequences of characters.

use vstd::prelude::*;

verus! {

/// All characters of `text`, in order.
pub(crate) fn chars_of(text: &str) -> (chars: Vec<char>)
    ensures
        chars@ == text@,
{
    let mut chars: Vec<char> = Vec::new();
    for c in it: text.chars()
        invariant
            chars@ == it.seq().take(it.index() as int),
            it.seq() == text@,
    {
        chars.push(c);
    }
    chars
}

/// Where `needle` first stands among `chars`, if it stands there at all.
pub(crate) fn find_first(chars: &Vec<char>, needle: char) -> (found: Option<usize>)
    ensures
        match found {
            Some(at) => at < chars.len() && chars@.index_of_first(needle) == Some(at as int),
            None => chars@.index_of_first(needle) is None,
        },
{
    let mut at: usize = 0;
    while at < chars.len() && chars[at] != needle
        invariant
            at <= chars.len(),
            forall|i: int| 0 <= i < at ==> chars@[i] != needle,
        decreases chars.len() - at,
    {
        at = at + 1;
    }
    proof {
        chars@.index_of_first_ensures(needle);
    }
    if at < chars.len() {
        Some(at)
    } else {
        None
    }
}

/// A text made of two parts with a mark between them is split at the mark
/// into these parts again, where the mark does not stand in the first part.
pub(crate) proof fn lemma_split_at_mark(head: Seq<char>, mark: char, tail: Seq<char>)
    requires
        !head.contains(mark),
    ensures
        (head + seq![mark] + tail).index_of_first(mark) == Some(head.len() as int),
        (head + seq![mark] + tail).subrange(0, head.len() as int) == head,
        (head + seq![mark] + tail).subrange(
            head.len() as int + 1,
            (head + seq![mark] + tail).len() as int,
        ) == tail,
{
    let text = head + seq![mark] + tail;
    text.index_of_first_ensures(mark);
    assert(text[head.len() as int] == mark);
    assert forall|i: int| 0 <= i < head.len() implies text[i] != mark by {
        assert(text[i] == head[i]);
    }
}

/// Whether `chars[from..to]` spells `text`.
pub(crate) fn spells(chars: &Vec<char>, from: usize, to: usize, text: &str) -> (same: bool)
    requires
        from <= to <= chars.len(),
    ensures
        same == (chars@.subrange(from as int, to as int) == text@),
{
    let other = chars_of(text);
    if other.len() != to - from {
        return false;
    }
    let mut i: usize = 0;
    while i < other.len()
        invariant
            from <= to <= chars.len(),
            other.len() == to - from,
            i <= other.len(),
            other@ == text@,
            forall|j: int| 0 <= j < i ==> chars@[from + j] == other@[j],
        decreases other.len() - i,
    {
        if chars[from + i] != other[i] {
            assert(chars@.subrange(from as int, to as int)[i as int] != text@[i as int]);
            return false;
        }
        i = i + 1;
    }
    assert(chars@.subrange(from as int, to as int) =~= text@);
    true
}

/// Whether two texts hold the same characters.
pub(crate) fn same_text(a: &str, b: &str) -> (same: bool)
    ensures
        same == (a@ == b@),
{
    let chars = chars_of(a);
    let n: usize = chars.len();
    assert(chars@.subrange(0, n as int) =~= a@);
    spells(&chars, 0, n, b)
}

} // verus!
