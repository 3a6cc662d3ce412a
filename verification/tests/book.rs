use wepu::book::{cache_update, cached_book, window_title, CacheUpdate, CACHE_LIMIT};
use wepu::encoding::encoded_len;

#[test]
fn the_window_title_names_the_document_and_the_reader() {
    assert_eq!(window_title("Moby Dick"), "Moby Dick | wepu");
    assert_eq!(window_title(" "), "  | wepu");
}

#[test]
fn without_a_document_title_the_window_title_is_the_reader() {
    assert_eq!(window_title(""), "wepu");
}

#[test]
fn the_encoded_length_is_four_for_every_three() {
    assert_eq!(encoded_len(0), Some(0));
    assert_eq!(encoded_len(1), Some(4));
    assert_eq!(encoded_len(2), Some(4));
    assert_eq!(encoded_len(3), Some(4));
    assert_eq!(encoded_len(4), Some(8));
    assert_eq!(encoded_len(12), Some(16));
    assert_eq!(encoded_len(usize::MAX), None);
    assert_eq!(encoded_len(usize::MAX / 4 * 3), Some(usize::MAX / 4 * 4));
    assert_eq!(encoded_len(usize::MAX / 4 * 3 + 1), None);
}

#[test]
fn a_document_is_kept_as_base64_text() {
    assert_eq!(cache_update(b"hello", true), CacheUpdate::Store("aGVsbG8=".to_string()));
    assert_eq!(cache_update(b"", true), CacheUpdate::Store(String::new()));
    assert_eq!(
        cache_update(&[0xfb, 0xff, 0xfe], true),
        CacheUpdate::Store("+//+".to_string())
    );
}

#[test]
fn nothing_is_kept_when_keeping_documents_is_off() {
    assert_eq!(cache_update(b"hello", false), CacheUpdate::Keep);
    assert_eq!(cache_update(&vec![0; 3_000_000], false), CacheUpdate::Keep);
}

#[test]
fn a_document_at_the_limit_is_not_kept() {
    assert_eq!(CACHE_LIMIT, 3_000_000);
    let fits = vec![7u8; 2_249_997];
    match cache_update(&fits, true) {
        CacheUpdate::Store(text) => assert_eq!(text.len(), 2_999_996),
        other => panic!("{:?}", other),
    }
    let too_long = vec![7u8; 2_249_998];
    assert_eq!(cache_update(&too_long, true), CacheUpdate::Remove);
    assert_eq!(cache_update(&vec![0; 4_000_000], true), CacheUpdate::Remove);
}

#[test]
fn a_kept_document_is_read_back() {
    assert_eq!(cached_book(Some("aGVsbG8="), true), Some(b"hello".to_vec()));
    assert_eq!(cached_book(Some(""), true), Some(Vec::new()));
    match cache_update(b"any bytes \x00\xff", true) {
        CacheUpdate::Store(text) => {
            assert_eq!(cached_book(Some(&text), true), Some(b"any bytes \x00\xff".to_vec()))
        }
        other => panic!("{:?}", other),
    }
}

#[test]
fn what_is_no_base64_text_is_no_kept_document() {
    assert_eq!(cached_book(Some("not base64!"), true), None);
    assert_eq!(cached_book(Some("aGVsbG8"), true), None);
    assert_eq!(cached_book(None, true), None);
}

#[test]
fn a_kept_document_is_ignored_when_keeping_documents_is_off() {
    assert_eq!(cached_book(Some("aGVsbG8="), false), None);
    assert_eq!(cached_book(None, false), None);
}
