//! Named bookmarks: a lowercase letter stands for a place in the document,
//! for as long as the session lasts.

use std::collections::BTreeMap;
use vstd::prelude::*;
use vstd::set_lib::*;

verus! {

/// `name` can name a mark: it is a lowercase letter.
pub open spec fn is_mark_name(name: char) -> bool {
    'a' <= name <= 'z'
}

/// The marks after `name` is set to the place `(page, block)`. A name that
/// is no lowercase letter sets nothing.
pub open spec fn after_set(
    marks: Map<char, (usize, usize)>,
    name: char,
    page: usize,
    block: usize,
) -> Map<char, (usize, usize)> {
    if is_mark_name(name) {
        marks.insert(name, (page, block))
    } else {
        marks
    }
}

/// The place that `name` stands for, if the mark is set.
pub open spec fn followed(marks: Map<char, (usize, usize)>, name: char) -> Option<(usize, usize)> {
    if marks.contains_key(name) {
        Some(marks[name])
    } else {
        None
    }
}

/// Every mark in `marks` is named by a lowercase letter.
pub open spec fn names_are_letters(marks: Map<char, (usize, usize)>) -> bool {
    forall|name: char| #[trigger] marks.contains_key(name) ==> is_mark_name(name)
}

/// Following a mark that was just set gives the place it was set to.
pub proof fn lemma_set_then_follow(
    marks: Map<char, (usize, usize)>,
    name: char,
    page: usize,
    block: usize,
)
    requires
        is_mark_name(name),
    ensures
        followed(after_set(marks, name, page, block), name) == Some((page, block)),
{
}

/// Setting a mark leaves every other mark as it was.
pub proof fn lemma_set_keeps_others(
    marks: Map<char, (usize, usize)>,
    name: char,
    page: usize,
    block: usize,
    other: char,
)
    requires
        other != name,
    ensures
        followed(after_set(marks, name, page, block), other) == followed(marks, other),
{
}

/// A mark that was never set stands for nothing.
pub proof fn lemma_unset_follows_nothing(name: char)
    ensures
        followed(Map::<char, (usize, usize)>::empty(), name) is None,
{
}

/// There are never more marks than letters: at most 26.
pub proof fn lemma_capacity(marks: Map<char, (usize, usize)>)
    requires
        names_are_letters(marks),
    ensures
        marks.dom().finite(),
        marks.dom().len() <= 26,
{
    let codes = set_int_range('a' as int, 'z' as int + 1);
    let letter = |code: int| code as char;
    let letters = codes.map(letter);
    lemma_int_range('a' as int, 'z' as int + 1);
    lemma_map_size_bound(codes, letters, letter);
    assert forall|name: char| marks.dom().contains(name) implies letters.contains(name) by {
        assert(marks.contains_key(name));
        assert(codes.contains(name as int));
    }
    lemma_len_subset(marks.dom(), letters);
}

/// The bookmarks of a session.
pub struct Marks {
    entries: BTreeMap<u8, (usize, usize)>,
}

impl View for Marks {
    type V = Map<char, (usize, usize)>;

    closed spec fn view(&self) -> Map<char, (usize, usize)> {
        Map::new(
            |name: char| is_mark_name(name) && self.entries@.contains_key(name as u8),
            |name: char| self.entries@[name as u8],
        )
    }
}

impl Marks {
    /// No marks.
    pub fn new() -> (marks: Self)
        ensures
            marks@ == Map::<char, (usize, usize)>::empty(),
    {
        let marks = Self { entries: BTreeMap::new() };
        marks
    }

    /// Lets `name` stand for the place `(page, block)`, in place of what it
    /// stood for before. A name that is no lowercase letter sets nothing.
    pub fn set_mark(&mut self, name: char, page: usize, block: usize)
        ensures
            final(self)@ == after_set(old(self)@, name, page, block),
    {
        if name >= 'a' && name <= 'z' {
            self.entries.insert(name as u8, (page, block));
        }
    }

    /// The place that `name` stands for, if the mark is set.
    pub fn follow_mark(&self, name: char) -> (place: Option<(usize, usize)>)
        ensures
            place == followed(self@, name),
    {
        if name >= 'a' && name <= 'z' {
            match self.entries.get(&(name as u8)) {
                Some(place) => Some(*place),
                None => None,
            }
        } else {
            None
        }
    }

    /// Every mark is named by a lowercase letter, so there are at most 26.
    pub proof fn lemma_names(&self)
        ensures
            names_are_letters(self@),
            self@.dom().finite(),
            self@.dom().len() <= 26,
    {
        lemma_capacity(self@);
    }
}

} // verus!
