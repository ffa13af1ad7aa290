use textbuf::grapheme::{append_span, clusters_of, index_at_offset, insert_before, locate, remove_at};
use textbuf::SearchDirection;

#[test]
fn clusters_of_cuts_text_into_grapheme_clusters() {
    assert_eq!(clusters_of("abc"), vec!["a", "b", "c"]);
    assert_eq!(
        clusters_of("a\u{310}e\u{301}o\u{308}\u{332}"),
        vec!["a\u{310}", "e\u{301}", "o\u{308}\u{332}"]
    );
    assert_eq!(clusters_of("a\r\nb"), vec!["a", "\r\n", "b"]);
    assert_eq!(clusters_of(""), Vec::<&str>::new());
}

#[test]
fn clusters_make_up_the_text() {
    for text in ["", "abc", "e\u{301}x", "\u{1100}\u{1161}\u{11a8}z", "\u{1f1f7}\u{1f1fa}\u{1f1f8}"] {
        let parts = clusters_of(text);
        assert_eq!(parts.concat(), text);
        assert!(parts.iter().all(|part| !part.is_empty()));
    }
}

#[test]
fn append_span_takes_a_window() {
    let parts = ["ab", "c", "de", "f"];
    let mut out = String::from(">");
    append_span(&mut out, &parts, 1, 3);
    assert_eq!(out, ">cde");
    append_span(&mut out, &parts, 3, 100);
    assert_eq!(out, ">cdef");
    append_span(&mut out, &parts, 2, 2);
    assert_eq!(out, ">cdef");
    append_span(&mut out, &parts, 3, 1);
    assert_eq!(out, ">cdef");
    append_span(&mut out, &parts, 4, 9);
    assert_eq!(out, ">cdef");
    append_span(&mut out, &parts, 0, 4);
    assert_eq!(out, ">cdefabcdef");
}

#[test]
fn insert_before_a_piece() {
    let parts = ["ab", "c", "de"];
    assert_eq!(insert_before(&parts, 0, 'x'), "xabcde");
    assert_eq!(insert_before(&parts, 1, 'x'), "abxcde");
    assert_eq!(insert_before(&parts, 2, 'x'), "abcxde");
    assert_eq!(insert_before(&parts, 3, 'x'), "abcde");
    assert_eq!(insert_before(&[], 0, 'x'), "");
}

#[test]
fn remove_at_takes_out_a_piece() {
    let parts = ["ab", "c", "de"];
    assert_eq!(remove_at(&parts, 0), "cde");
    assert_eq!(remove_at(&parts, 1), "abde");
    assert_eq!(remove_at(&parts, 2), "abc");
    assert_eq!(remove_at(&parts, 3), "abcde");
}

#[test]
fn index_at_offset_maps_scalar_offsets_to_pieces() {
    let parts = ["ab", "c", "\u{e9}\u{301}", "f"];
    assert_eq!(index_at_offset(&parts, 0, 4, 0), Some(0));
    assert_eq!(index_at_offset(&parts, 0, 4, 1), None);
    assert_eq!(index_at_offset(&parts, 0, 4, 2), Some(1));
    assert_eq!(index_at_offset(&parts, 0, 4, 3), Some(2));
    assert_eq!(index_at_offset(&parts, 0, 4, 4), None);
    assert_eq!(index_at_offset(&parts, 0, 4, 5), Some(3));
    assert_eq!(index_at_offset(&parts, 0, 4, 6), None);
    assert_eq!(index_at_offset(&parts, 1, 4, 0), Some(1));
    assert_eq!(index_at_offset(&parts, 1, 4, 1), Some(2));
    assert_eq!(index_at_offset(&parts, 1, 3, 3), None);
    assert_eq!(index_at_offset(&parts, 2, 2, 0), None);
    assert_eq!(index_at_offset(&parts, 9, 12, 0), None);
}

#[test]
fn locate_searches_a_window_of_pieces() {
    let parts = ["a", "b", "c", "a", "b", "c"];
    assert_eq!(locate(&parts, "abc", 0, 6, SearchDirection::Forward), Some(0));
    assert_eq!(locate(&parts, "abc", 0, 6, SearchDirection::Backward), Some(3));
    assert_eq!(locate(&parts, "abc", 1, 6, SearchDirection::Forward), Some(3));
    assert_eq!(locate(&parts, "abc", 0, 5, SearchDirection::Backward), Some(0));
    assert_eq!(locate(&parts, "abc", 1, 5, SearchDirection::Forward), None);
    assert_eq!(locate(&parts, "ca", 0, 6, SearchDirection::Forward), Some(2));
    assert_eq!(locate(&parts, "abc", 4, 2, SearchDirection::Forward), None);
}

#[test]
fn locate_needs_the_hit_to_start_a_piece() {
    let parts = ["ab", "cd"];
    assert_eq!(locate(&parts, "cd", 0, 2, SearchDirection::Forward), Some(1));
    assert_eq!(locate(&parts, "bc", 0, 2, SearchDirection::Forward), None);
    assert_eq!(locate(&parts, "b", 0, 2, SearchDirection::Backward), None);
    assert_eq!(locate(&parts, "abcd", 0, 2, SearchDirection::Forward), Some(0));
}
