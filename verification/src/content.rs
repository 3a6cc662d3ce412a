//! What a page's blocks are made of, as far as it is computed from plain
//! values.

use crate::encoding::{base64_len, base64_text, encode, encoded_len};
use crate::text::chars_of;
use vstd::prelude::*;
use vstd::string::*;

verus! {

/// The address of an image that carries the image itself: its media type
/// and the base64 text of its bytes.
pub open spec fn image_source_text(mime: Seq<char>, data: Seq<u8>) -> Seq<char> {
    "data:"@ + mime + ";base64,"@ + base64_text(data)
}

/// The address that carries the image `data` of media type `mime`. There is
/// none only where the base64 text would be longer than a machine word
/// counts.
pub fn image_source(mime: &str, data: &[u8]) -> (source: Option<String>)
    ensures
        match source {
            Some(text) => base64_len(data@.len()) <= usize::MAX && text@ == image_source_text(
                mime@,
                data@,
            ),
            None => base64_len(data@.len()) > usize::MAX,
        },
{
    match encoded_len(data.len()) {
        Some(_) => {
            let mut text = String::new();
            text.append("data:");
            text.append(mime);
            text.append(";base64,");
            let encoded = encode(data);
            text.append(encoded.as_str());
            Some(text)
        },
        None => None,
    }
}

/// A piece of a run of text as it is put on screen.
#[derive(Debug, PartialEq, Eq)]
pub enum Piece {
    /// A line break.
    Break,
    /// Text without a line break in it, and not empty.
    Text(String),
}

/// A piece, with its text as characters.
pub enum PieceView {
    Break,
    Text(Seq<char>),
}

impl View for Piece {
    type V = PieceView;

    open spec fn view(&self) -> PieceView {
        match self {
            Piece::Break => PieceView::Break,
            Piece::Text(text) => PieceView::Text(text@),
        }
    }
}

/// The pieces of a line: the line itself, unless it is empty.
pub open spec fn line_of(line: Seq<char>) -> Seq<PieceView> {
    if line.len() > 0 {
        seq![PieceView::Text(line)]
    } else {
        Seq::empty()
    }
}

/// The pieces of a run of text: its lines, a break before every line but
/// the first, and no piece for an empty line.
pub open spec fn pieces_of(text: Seq<char>) -> Seq<PieceView>
    decreases text.len(),
    via pieces_of_decreases
{
    match text.index_of_first('\n') {
        Some(at) => line_of(text.subrange(0, at)) + seq![PieceView::Break] + pieces_of(
            text.subrange(at + 1, text.len() as int),
        ),
        None => line_of(text),
    }
}

#[via_fn]
proof fn pieces_of_decreases(text: Seq<char>) {
    text.index_of_first_ensures('\n');
}

/// `piece` is a line break, or text that is not empty and has no line break
/// in it.
pub open spec fn is_line(piece: PieceView) -> bool {
    match piece {
        PieceView::Break => true,
        PieceView::Text(line) => line.len() > 0 && !line.contains('\n'),
    }
}

/// The text that pieces stand for: their texts, and a line break for every
/// break.
pub open spec fn text_of(pieces: Seq<PieceView>) -> Seq<char>
    decreases pieces.len(),
{
    if pieces.len() == 0 {
        Seq::empty()
    } else {
        text_of(pieces.drop_last()) + match pieces.last() {
            PieceView::Break => seq!['\n'],
            PieceView::Text(line) => line,
        }
    }
}

/// A line stands for itself.
proof fn lemma_text_of_line(line: Seq<char>)
    ensures
        text_of(line_of(line)) == line,
{
    if line.len() > 0 {
        let one = line_of(line);
        assert(one.drop_last() =~= Seq::<PieceView>::empty());
        assert(text_of(one.drop_last()) =~= Seq::<char>::empty());
        assert(text_of(one) =~= line);
    } else {
        assert(line =~= Seq::<char>::empty());
    }
}

/// The text of pieces put one after the other is their texts put one after
/// the other.
proof fn lemma_text_of_joined(left: Seq<PieceView>, right: Seq<PieceView>)
    ensures
        text_of(left + right) == text_of(left) + text_of(right),
    decreases right.len(),
{
    if right.len() == 0 {
        assert(left + right =~= left);
        assert(text_of(left) + text_of(right) =~= text_of(left));
    } else {
        lemma_text_of_joined(left, right.drop_last());
        assert((left + right).drop_last() =~= left + right.drop_last());
        assert((left + right).last() == right.last());
        let last = match right.last() {
            PieceView::Break => seq!['\n'],
            PieceView::Text(line) => line,
        };
        assert((text_of(left) + text_of(right.drop_last())) + last =~= text_of(left) + (text_of(
            right.drop_last(),
        ) + last));
    }
}

/// Cutting a text into pieces makes only breaks and lines, and loses nothing:
/// the pieces stand for the text they were cut from.
pub proof fn lemma_pieces_keep_text(text: Seq<char>)
    ensures
        forall|i: int| 0 <= i < pieces_of(text).len() ==> is_line(#[trigger] pieces_of(text)[i]),
        text_of(pieces_of(text)) == text,
    decreases text.len(),
{
    text.index_of_first_ensures('\n');
    match text.index_of_first('\n') {
        Some(at) => {
            let head = text.subrange(0, at);
            let tail = text.subrange(at + 1, text.len() as int);
            let first = line_of(head) + seq![PieceView::Break];
            lemma_pieces_keep_text(tail);
            assert(!head.contains('\n')) by {
                if head.contains('\n') {
                    let j = choose|j: int| 0 <= j < head.len() && head[j] == '\n';
                    assert(text[j] == '\n');
                }
            }
            assert forall|i: int| 0 <= i < pieces_of(text).len() implies is_line(
                #[trigger] pieces_of(text)[i],
            ) by {
                if i >= first.len() {
                    assert(pieces_of(text)[i] == pieces_of(tail)[i - first.len()]);
                }
            }
            lemma_text_of_joined(first, pieces_of(tail));
            assert(text_of(first) =~= head + seq!['\n']) by {
                assert(first.drop_last() =~= line_of(head));
                lemma_text_of_line(head);
            }
            assert(head + seq!['\n'] + tail =~= text);
        },
        None => {
            lemma_text_of_line(text);
        },
    }
}

/// The pieces as they are viewed.
pub open spec fn piece_views(pieces: Seq<Piece>) -> Seq<PieceView> {
    pieces.map_values(|piece: Piece| piece@)
}

/// Cuts a run of text into the pieces that are put on screen.
pub fn line_pieces(text: &str) -> (pieces: Vec<Piece>)
    ensures
        piece_views(pieces@) == pieces_of(text@),
{
    let chars = chars_of(text);
    let n: usize = chars.len();
    let mut pieces: Vec<Piece> = Vec::new();
    let mut start: usize = 0;
    let mut i: usize = 0;
    assert(chars@.subrange(0, n as int) =~= text@);
    while i < n
        invariant
            start <= i <= n == chars.len(),
            chars@ == text@,
            forall|j: int| start <= j < i ==> chars@[j] != '\n',
            piece_views(pieces@) + pieces_of(chars@.subrange(start as int, n as int)) == pieces_of(
                text@,
            ),
        decreases n - i,
    {
        if chars[i] == '\n' {
            let ghost rest = chars@.subrange(start as int, n as int);
            let ghost done = piece_views(pieces@);
            proof {
                rest.index_of_first_ensures('\n');
                assert(rest[i - start] == '\n');
                assert forall|j: int| 0 <= j < i - start implies rest[j] != '\n' by {
                    assert(rest[j] == chars@[start + j]);
                }
                assert(rest.index_of_first('\n') == Some(i - start));
                assert(rest.subrange(0, i - start) =~= chars@.subrange(start as int, i as int));
                assert(rest.subrange(i - start + 1, rest.len() as int) =~= chars@.subrange(
                    i + 1,
                    n as int,
                ));
            }
            if i > start {
                let line = text.substring_char(start, i);
                pieces.push(Piece::Text(String::from_str(line)));
            }
            pieces.push(Piece::Break);
            proof {
                assert(piece_views(pieces@) =~= done + line_of(rest.subrange(0, i - start))
                    + seq![PieceView::Break]);
                assert((done + line_of(rest.subrange(0, i - start)) + seq![PieceView::Break])
                    + pieces_of(rest.subrange(i - start + 1, rest.len() as int)) =~= done
                    + pieces_of(rest));
            }
            start = i + 1;
        }
        i = i + 1;
    }
    let ghost rest = chars@.subrange(start as int, n as int);
    let ghost done = piece_views(pieces@);
    proof {
        rest.index_of_first_ensures('\n');
        assert(rest.index_of_first('\n') is None) by {
            if rest.contains('\n') {
                let j = choose|j: int| 0 <= j < rest.len() && rest[j] == '\n';
                assert(chars@[start + j] == '\n');
            }
        }
    }
    if n > start {
        let line = text.substring_char(start, n);
        pieces.push(Piece::Text(String::from_str(line)));
    }
    assert(piece_views(pieces@) =~= done + line_of(rest));
    pieces
}

} // verus!
