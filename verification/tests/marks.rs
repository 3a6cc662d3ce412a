use wepu::marks::Marks;

#[test]
fn a_mark_that_was_set_is_followed() {
    let mut marks = Marks::new();
    marks.set_mark('a', 3, 7);
    assert_eq!(marks.follow_mark('a'), Some((3, 7)));
}

#[test]
fn a_mark_that_was_never_set_is_not_followed() {
    let mut marks = Marks::new();
    assert_eq!(marks.follow_mark('z'), None);
    marks.set_mark('a', 3, 7);
    assert_eq!(marks.follow_mark('z'), None);
}

#[test]
fn setting_a_mark_again_overwrites_it() {
    let mut marks = Marks::new();
    marks.set_mark('k', 1, 2);
    marks.set_mark('k', 4, 0);
    assert_eq!(marks.follow_mark('k'), Some((4, 0)));
}

#[test]
fn marks_do_not_disturb_each_other() {
    let mut marks = Marks::new();
    marks.set_mark('a', 0, 1);
    marks.set_mark('b', 2, 3);
    marks.set_mark('z', usize::MAX, usize::MAX);
    assert_eq!(marks.follow_mark('a'), Some((0, 1)));
    assert_eq!(marks.follow_mark('b'), Some((2, 3)));
    assert_eq!(marks.follow_mark('z'), Some((usize::MAX, usize::MAX)));
    assert_eq!(marks.follow_mark('c'), None);
}

#[test]
fn only_lowercase_letters_name_marks() {
    let mut marks = Marks::new();
    for name in ['A', 'Z', '1', '`', '{', ' ', 'é', 'š', '\u{161}', '\u{1F600}'] {
        marks.set_mark(name, 5, 6);
        assert_eq!(marks.follow_mark(name), None);
    }
    for name in 'a'..='z' {
        assert_eq!(marks.follow_mark(name), None);
    }
}

#[test]
fn all_twenty_six_marks_can_be_set() {
    let mut marks = Marks::new();
    for (page, name) in ('a'..='z').enumerate() {
        marks.set_mark(name, page, page + 100);
    }
    for (page, name) in ('a'..='z').enumerate() {
        assert_eq!(marks.follow_mark(name), Some((page, page + 100)));
    }
}
