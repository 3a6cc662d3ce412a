//! Which blocks of the current page are in the viewport, and which of them
//! comes first in reading order.

use std::collections::BTreeSet;
use vstd::prelude::*;
use vstd::std_specs::cmp::OrdSpec;

verus! {

/// `block` is in `visible`, and no block of `visible` comes before it.
pub open spec fn is_first(visible: Set<usize>, block: usize) -> bool {
    visible.contains(block) && forall|other: usize| visible.contains(other) ==> block <= other
}

/// The first block of `visible` in reading order; none if no block is visible.
pub open spec fn first_of(visible: Set<usize>) -> Option<usize> {
    if exists|block: usize| is_first(visible, block) {
        Some(choose|block: usize| is_first(visible, block))
    } else {
        None
    }
}

/// The visible blocks after one intersection event: the block has entered
/// the viewport, or has left it.
pub open spec fn after_event(visible: Set<usize>, block: usize, is_intersecting: bool) -> Set<
    usize,
> {
    if is_intersecting {
        visible.insert(block)
    } else {
        visible.remove(block)
    }
}

/// The visible blocks after a run of intersection events on a page on which
/// nothing was visible before.
pub open spec fn after_events(events: Seq<(usize, bool)>) -> Set<usize>
    decreases events.len(),
{
    if events.len() == 0 {
        Set::empty()
    } else {
        after_event(after_events(events.drop_last()), events.last().0, events.last().1)
    }
}

/// The latest event about `block` in `events` says that it is in the viewport.
pub open spec fn currently_visible(events: Seq<(usize, bool)>, block: usize) -> bool {
    exists|i: int|
        0 <= i < events.len() && #[trigger] events[i] == (block, true) && forall|j: int|
            i < j < events.len() ==> (#[trigger] events[j]).0 != block
}

/// A set with a block in it has a first block.
proof fn lemma_first_exists(visible: Set<usize>, block: usize)
    requires
        visible.contains(block),
    ensures
        exists|first: usize| is_first(visible, first),
    decreases block,
{
    if !is_first(visible, block) {
        let other = choose|other: usize| visible.contains(other) && !(block <= other);
        lemma_first_exists(visible, other);
    }
}

/// What `first_of` gives: the one block that is first, and nothing exactly
/// when no block is visible.
pub proof fn lemma_first_of(visible: Set<usize>)
    ensures
        first_of(visible) matches Some(first) ==> is_first(visible, first),
        first_of(visible) is None <==> visible =~= Set::<usize>::empty(),
        forall|block: usize| is_first(visible, block) ==> first_of(visible) == Some(block),
{
    if first_of(visible) is None {
        assert forall|block: usize| !visible.contains(block) by {
            if visible.contains(block) {
                lemma_first_exists(visible, block);
            }
        }
    }
}

/// A repeated event changes nothing: entering twice is entering once, and
/// so is leaving.
pub proof fn lemma_event_idempotent(visible: Set<usize>, block: usize, is_intersecting: bool)
    ensures
        after_event(after_event(visible, block, is_intersecting), block, is_intersecting)
            == after_event(visible, block, is_intersecting),
{
    assert(after_event(after_event(visible, block, is_intersecting), block, is_intersecting)
        =~= after_event(visible, block, is_intersecting));
}

/// After any run of events, the visible blocks are those whose latest event
/// says so.
pub proof fn lemma_visible_blocks(events: Seq<(usize, bool)>, block: usize)
    ensures
        after_events(events).contains(block) <==> currently_visible(events, block),
    decreases events.len(),
{
    if events.len() > 0 {
        let before = events.drop_last();
        let n = events.len() - 1;
        lemma_visible_blocks(before, block);
        if events.last().0 == block {
            if events.last().1 {
                assert(events[n] == (block, true));
            } else if currently_visible(events, block) {
                let i = choose|i: int|
                    0 <= i < events.len() && #[trigger] events[i] == (block, true) && forall|j: int|
                        i < j < events.len() ==> (#[trigger] events[j]).0 != block;
                assert(events[n].0 == block);
            }
        } else {
            if currently_visible(before, block) {
                let i = choose|i: int|
                    0 <= i < before.len() && #[trigger] before[i] == (block, true) && forall|j: int|
                        i < j < before.len() ==> (#[trigger] before[j]).0 != block;
                assert(events[i] == (block, true));
                assert forall|j: int| i < j < events.len() implies (#[trigger] events[j]).0
                    != block by {
                    if j < n {
                        assert(before[j].0 != block);
                    }
                }
            }
            if currently_visible(events, block) {
                let i = choose|i: int|
                    0 <= i < events.len() && #[trigger] events[i] == (block, true) && forall|j: int|
                        i < j < events.len() ==> (#[trigger] events[j]).0 != block;
                assert(before[i] == (block, true));
                assert forall|j: int| i < j < before.len() implies (#[trigger] before[j]).0
                    != block by {
                    assert(events[j].0 != block);
                }
            }
        }
    }
}

/// After any run of events, the first visible block is the least block whose
/// latest event says that it is in the viewport, and there is none exactly
/// when there is no such block.
pub proof fn lemma_first_visible_after(events: Seq<(usize, bool)>)
    ensures
        match first_of(after_events(events)) {
            Some(first) => currently_visible(events, first) && forall|other: usize|
                currently_visible(events, other) ==> first <= other,
            None => forall|other: usize| !currently_visible(events, other),
        },
{
    let visible = after_events(events);
    lemma_first_of(visible);
    assert forall|other: usize| visible.contains(other) <==> currently_visible(
        events,
        other,
    ) by {
        lemma_visible_blocks(events, other);
    }
}

/// The blocks of the current page that are in the viewport.
pub struct VisibleSet {
    blocks: BTreeSet<usize>,
}

impl View for VisibleSet {
    type V = Set<usize>;

    closed spec fn view(&self) -> Set<usize> {
        self.blocks@
    }
}

impl VisibleSet {
    /// A set for a page of which nothing has been seen yet.
    pub fn new() -> (visible: Self)
        ensures
            visible@ == Set::<usize>::empty(),
    {
        Self { blocks: BTreeSet::new() }
    }

    /// Takes one intersection event: `block` has entered the viewport, or
    /// has left it.
    pub fn on_intersect(&mut self, block: usize, is_intersecting: bool)
        ensures
            final(self)@ == after_event(old(self)@, block, is_intersecting),
    {
        if is_intersecting {
            self.blocks.insert(block);
        } else {
            self.blocks.remove(&block);
        }
    }

    /// Forgets every block: the reader has turned to `new_page`, whose
    /// blocks have not been seen yet.
    pub fn on_page_changed(&mut self, new_page: usize)
        ensures
            final(self)@ == Set::<usize>::empty(),
            first_of(final(self)@) is None,
    {
        self.blocks.clear();
        proof {
            lemma_first_of(self@);
        }
    }

    /// Whether `block` is in the viewport.
    pub fn contains(&self, block: usize) -> (visible: bool)
        ensures
            visible == self@.contains(block),
    {
        self.blocks.contains(&block)
    }

    /// The first block in the viewport, in reading order.
    pub fn first_visible(&self) -> (first: Option<usize>)
        ensures
            first == first_of(self@),
            first matches Some(block) ==> is_first(self@, block),
            first is None <==> self@ =~= Set::<usize>::empty(),
    {
        broadcast use vstd::laws_cmp::group_laws_cmp;

        proof {
            lemma_first_of(self@);
        }
        // The set is walked in increasing order: the block it starts with is
        // the first one.
        for block in it: self.blocks.iter()
            invariant
                it.index() == 0,
                it.seq().unref().to_set() == self.blocks@,
                vstd::std_specs::btree::increasing_seq(it.seq()),
        {
            proof {
                let all = it.seq();
                vstd::std_specs::btree::axiom_increasing_seq_meaning::<&usize>(all);
                assert forall|other: usize| self@.contains(other) implies *block <= other by {
                    let j = choose|j: int| 0 <= j < all.unref().len() && all.unref()[j] == other;
                    if j > 0 {
                        assert(OrdSpec::cmp_spec(&all[0], &all[j]) is Less);
                    }
                }
                assert(is_first(self@, *block));
                lemma_first_of(self@);
            }
            return Some(*block);
        }
        None
    }
}

} // verus!
