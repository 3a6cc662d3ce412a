use wepu::content::{image_source, line_pieces, Piece};

#[test]
fn lines_are_cut_at_breaks() {
    assert_eq!(
        line_pieces("one\ntwo"),
        vec![Piece::Text("one".to_string()), Piece::Break, Piece::Text("two".to_string())]
    );
}

#[test]
fn empty_lines_leave_only_their_breaks() {
    assert_eq!(line_pieces(""), vec![]);
    assert_eq!(line_pieces("\n"), vec![Piece::Break]);
    assert_eq!(
        line_pieces("\n\nend\n"),
        vec![Piece::Break, Piece::Break, Piece::Text("end".to_string()), Piece::Break]
    );
    assert_eq!(line_pieces("só"), vec![Piece::Text("só".to_string())]);
}

#[test]
fn image_source_carries_the_image() {
    assert_eq!(
        image_source("image/png", b"hello world~"),
        Some("data:image/png;base64,aGVsbG8gd29ybGR+".to_string())
    );
    assert_eq!(image_source("image/gif", b""), Some("data:image/gif;base64,".to_string()));
    assert_eq!(image_source("", b"a"), Some("data:;base64,YQ==".to_string()));
}
