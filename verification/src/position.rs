//! The reading position: where on each page the reader was last, kept while
//! the document is open and handed out for keeping between sessions.

use crate::record::{format_record, lemma_record_reads_back, parse_record, record_of, record_text};
use std::collections::BTreeMap;
use vstd::prelude::*;

verus! {

/// No page is recorded at its top: a recorded block is never the first block.
pub open spec fn past_top(positions: Map<usize, usize>) -> bool {
    forall|page: usize| #[trigger] positions.contains_key(page) ==> positions[page] > 0
}

/// The positions after the reader was seen at `block` of `page`: past the
/// top of the page the block is recorded, at the top the page's entry goes.
pub open spec fn after_record(positions: Map<usize, usize>, page: usize, block: usize) -> Map<
    usize,
    usize,
> {
    if block > 0 {
        positions.insert(page, block)
    } else {
        positions.remove(page)
    }
}

/// The place to take up when a document of `page_count` pages is opened and
/// `record` is what was kept for it. There is none where keeping positions
/// is switched off, where nothing was kept, where what was kept is no
/// record, and where the record's page is not in the document.
pub open spec fn restored_place(
    record: Option<&str>,
    page_count: usize,
    save_position: bool,
) -> Option<(usize, usize)> {
    match record {
        Some(text) if save_position => match record_of(text@) {
            Some((page, block)) if page < page_count => Some((page, block)),
            _ => None,
        },
        _ => None,
    }
}

/// Being seen at the top of a page removes the page's entry, and never puts
/// one in its place.
pub proof fn lemma_top_removes(positions: Map<usize, usize>, page: usize)
    ensures
        !after_record(positions, page, 0).contains_key(page),
        after_record(positions, page, 0) == positions.remove(page),
{
}

/// A position that was kept is taken up again: the record that a new first
/// visible block gives to keep is, when the document is opened again, read
/// as that page and that block.
pub proof fn lemma_kept_position_restored(text: &str, page: usize, block: usize, page_count: usize)
    requires
        text@ == record_text(page as nat, block as nat),
        page < page_count,
    ensures
        restored_place(Some(text), page_count, true) == Some((page, block)),
{
    lemma_record_reads_back(page, block);
}

/// The last reading position on each page of the open document.
pub struct Positions {
    entries: BTreeMap<usize, usize>,
}

impl View for Positions {
    type V = Map<usize, usize>;

    closed spec fn view(&self) -> Map<usize, usize> {
        self.entries@
    }
}

impl Positions {
    /// No page has a position.
    pub fn new() -> (positions: Self)
        ensures
            positions@ == Map::<usize, usize>::empty(),
    {
        Self { entries: BTreeMap::new() }
    }

    /// The block recorded for `page`, if one is.
    pub fn get(&self, page: usize) -> (block: Option<usize>)
        ensures
            block == (if self@.contains_key(page) {
                Some(self@[page])
            } else {
                None
            }),
    {
        match self.entries.get(&page) {
            Some(block) => Some(*block),
            None => None,
        }
    }

    /// Records that the reader is at `block` of `page`. Every change of the
    /// positions goes through here.
    pub fn record(&mut self, page: usize, block: usize)
        ensures
            final(self)@ == after_record(old(self)@, page, block),
            past_top(old(self)@) ==> past_top(final(self)@),
    {
        if block > 0 {
            self.entries.insert(page, block);
        } else {
            self.entries.remove(&page);
        }
    }

    /// Takes a new first visible block of `page`: records it, and gives the
    /// record to keep for the document where keeping positions is switched on.
    pub fn on_first_visible_changed(&mut self, page: usize, block: usize, save_position: bool) -> (saved:
        Option<String>)
        ensures
            final(self)@ == after_record(old(self)@, page, block),
            past_top(old(self)@) ==> past_top(final(self)@),
            match saved {
                Some(text) => save_position && text@ == record_text(page as nat, block as nat),
                None => !save_position,
            },
    {
        self.record(page, block);
        if save_position {
            Some(format_record(page, block))
        } else {
            None
        }
    }

    /// Starts over for a document of `page_count` pages, from what was kept
    /// for it, and gives the page to open it at. The place that was kept is
    /// recorded as any other place is: kept at the top of a page, it opens
    /// that page and leaves the page without an entry.
    pub fn on_document_opened(
        &mut self,
        record: Option<&str>,
        page_count: usize,
        save_position: bool,
    ) -> (page: usize)
        ensures
            match restored_place(record, page_count, save_position) {
                Some((at, block)) => page == at && final(self)@ == after_record(
                    Map::empty(),
                    at,
                    block,
                ),
                None => page == 0 && final(self)@ == Map::<usize, usize>::empty(),
            },
            past_top(final(self)@),
    {
        self.entries.clear();
        if !save_position {
            return 0;
        }
        match record {
            Some(text) => match parse_record(text) {
                Some((page, block)) => {
                    if page < page_count {
                        self.record(page, block);
                        page
                    } else {
                        0
                    }
                },
                None => 0,
            },
            None => 0,
        }
    }

    /// Forgets every position: the document is closed.
    pub fn on_document_closed(&mut self)
        ensures
            final(self)@ == Map::<usize, usize>::empty(),
    {
        self.entries.clear();
    }
}

} // verus!
