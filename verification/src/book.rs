//! The open document, as far as the reader's logic needs to know it.

use crate::encoding::{base64_bytes, base64_len, base64_text, decode, encode, encoded_len};
use vstd::prelude::*;
use vstd::string::*;

verus! {

/// What the reader knows of a document: the name it is known by from one
/// session to the next, its title, and how many pages it has.
#[derive(Debug, PartialEq, Eq)]
pub struct Book {
    pub identifier: String,
    pub title: String,
    pub page_count: usize,
}

/// A document is kept between sessions only while its base64 text is
/// shorter than this.
pub const CACHE_LIMIT: usize = 3_000_000;

/// What to do with the document that the durable store keeps.
#[derive(Debug, PartialEq, Eq)]
pub enum CacheUpdate {
    /// Leave the store as it is.
    Keep,
    /// Keep this text in place of what was kept.
    Store(String),
    /// Keep no document.
    Remove,
}

/// The name of the reader, as window titles end in it.
pub open spec fn reader_name() -> Seq<char> {
    "wepu"@
}

/// The window's title while a document with the title `title` is open.
pub open spec fn window_title_text(title: Seq<char>) -> Seq<char> {
    if title.len() > 0 {
        title + " | "@ + reader_name()
    } else {
        reader_name()
    }
}

/// The window's title while a document with the title `title` is open: the
/// document's title and the reader's name, or the reader's name alone for a
/// document without a title.
pub fn window_title(title: &str) -> (text: String)
    ensures
        text@ == window_title_text(title@),
{
    let mut text = String::new();
    if !title.is_empty() {
        text.append(title);
        text.append(" | ");
    }
    text.append("wepu");
    text
}

/// What to do with the kept document when the document `bytes` has been
/// opened: nothing where keeping documents is switched off; else its base64
/// text takes the place of what was kept, unless that text reaches the
/// limit, in which case nothing is kept any longer.
pub fn cache_update(bytes: &[u8], cache_book: bool) -> (update: CacheUpdate)
    ensures
        match update {
            CacheUpdate::Keep => !cache_book,
            CacheUpdate::Store(text) => cache_book && base64_len(bytes@.len()) < CACHE_LIMIT
                && text@ == base64_text(bytes@),
            CacheUpdate::Remove => cache_book && base64_len(bytes@.len()) >= CACHE_LIMIT,
        },
{
    if !cache_book {
        return CacheUpdate::Keep;
    }
    match encoded_len(bytes.len()) {
        Some(len) => {
            if len < CACHE_LIMIT {
                CacheUpdate::Store(encode(bytes))
            } else {
                CacheUpdate::Remove
            }
        },
        None => CacheUpdate::Remove,
    }
}

/// The bytes of the kept document, `stored` being what the durable store
/// holds: none where keeping documents is switched off, where nothing is
/// kept, and where what is kept is no base64 text.
pub open spec fn cached_bytes(stored: Option<&str>, cache_book: bool) -> Option<Seq<u8>> {
    match stored {
        Some(text) if cache_book => base64_bytes(text@),
        _ => None,
    }
}

/// The bytes of the kept document, to open it when a session starts.
pub fn cached_book(stored: Option<&str>, cache_book: bool) -> (bytes: Option<Vec<u8>>)
    ensures
        match bytes {
            Some(bytes) => cached_bytes(stored, cache_book) == Some(bytes@),
            None => cached_bytes(stored, cache_book) is None,
        },
{
    if !cache_book {
        return None;
    }
    match stored {
        Some(text) => match decode(text) {
            Ok(bytes) => Some(bytes),
            Err(_) => None,
        },
        None => None,
    }
}

} // verus!
