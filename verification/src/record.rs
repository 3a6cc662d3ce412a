//! The stored form of a reading position: the page, a colon, the block.

use crate::number::{decimal, in_usize, lemma_decimal_digits, lemma_decimal_reads_back, number_of};
use crate::number::{read_number, write_decimal};
use crate::text::{chars_of, find_first, lemma_split_at_mark};
use vstd::prelude::*;
use vstd::string::*;

verus! {

/// The record of the place `(page, block)`.
pub open spec fn record_text(page: nat, block: nat) -> Seq<char> {
    decimal(page) + seq![':'] + decimal(block)
}

/// The place that a record holds. The text is split at its first colon;
/// it is a record where both parts denote numbers that fit a machine word.
pub open spec fn record_of(text: Seq<char>) -> Option<(usize, usize)> {
    match text.index_of_first(':') {
        Some(colon) => match (
            in_usize(number_of(text.subrange(0, colon))),
            in_usize(number_of(text.subrange(colon + 1, text.len() as int))),
        ) {
            (Some(page), Some(block)) => Some((page, block)),
            _ => None,
        },
        None => None,
    }
}

/// A place that was written as a record is read back from it unchanged.
pub proof fn lemma_record_reads_back(page: usize, block: usize)
    ensures
        record_of(record_text(page as nat, block as nat)) == Some((page, block)),
{
    let head = decimal(page as nat);
    lemma_decimal_digits(page as nat);
    lemma_decimal_reads_back(page as nat);
    lemma_decimal_reads_back(block as nat);
    lemma_split_at_mark(head, ':', decimal(block as nat));
}

/// Reads a record. Gives nothing for a text that is no record.
pub fn parse_record(text: &str) -> (place: Option<(usize, usize)>)
    ensures
        place == record_of(text@),
{
    let chars = chars_of(text);
    match find_first(&chars, ':') {
        Some(colon) => {
            let page = read_number(&chars, 0, colon);
            let block = read_number(&chars, colon + 1, chars.len());
            match (page, block) {
                (Some(page), Some(block)) => Some((page, block)),
                _ => None,
            }
        },
        None => None,
    }
}

/// Writes the record of the place `(page, block)`.
pub fn format_record(page: usize, block: usize) -> (text: String)
    ensures
        text@ == record_text(page as nat, block as nat),
{
    let mut text = String::new();
    write_decimal(page, &mut text);
    proof {
        reveal_strlit(":");
    }
    text.append(":");
    write_decimal(block, &mut text);
    text
}

} // verus!
