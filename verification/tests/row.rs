use textbuf::{FileType, HighlightingOptions, Palette, Row, SearchDirection, Type};

fn rust() -> FileType {
    FileType::from("main.rs")
}

fn palette() -> Palette {
    Palette {
        plain: String::from("<p>"),
        number: String::from("<n>"),
        string: String::from("<s>"),
        character: String::from("<c>"),
        comment: String::from("<k>"),
        primary_keywords: String::from("<1>"),
        secondary_keywords: String::from("<2>"),
        search_match: String::from("<m>"),
        reset: String::from("<r>"),
    }
}

#[test]
fn from_counts_grapheme_clusters() {
    assert_eq!(Row::from("hello").len(), 5);
    assert_eq!(Row::from("h\u{e9}llo").len(), 5);
    assert_eq!(Row::from("e\u{301}").len(), 1);
    assert_eq!(Row::from("a\u{310}e\u{301}o\u{308}\u{332}").len(), 3);
    assert_eq!(Row::from("").len(), 0);
    assert!(Row::from("").is_empty());
    assert!(!Row::from("x").is_empty());
}

#[test]
fn from_keeps_text_and_has_no_classes() {
    let row = Row::from("let x");
    assert_eq!(row.text(), "let x");
    assert_eq!(row.as_bytes(), "let x".as_bytes());
    assert!(row.highlighting().is_empty());
}

#[test]
fn default_row_is_empty() {
    let row = Row::default();
    assert_eq!(row.len(), 0);
    assert_eq!(row.text(), "");
}

#[test]
fn insert_before_cluster() {
    let mut row = Row::from("abc");
    row.insert(1, 'x');
    assert_eq!(row.text(), "axbc");
    assert_eq!(row.len(), 4);
    row.insert(0, 'y');
    assert_eq!(row.text(), "yaxbc");
    assert_eq!(row.len(), 5);
}

#[test]
fn insert_at_or_behind_end_appends() {
    let mut row = Row::from("abc");
    row.insert(3, 'x');
    assert_eq!(row.text(), "abcx");
    assert_eq!(row.len(), 4);
    row.insert(100, 'y');
    assert_eq!(row.text(), "abcxy");
    assert_eq!(row.len(), 5);
}

#[test]
fn insert_does_not_cut_a_cluster() {
    let mut row = Row::from("e\u{301}z");
    row.insert(1, 'x');
    assert_eq!(row.text(), "e\u{301}xz");
    assert_eq!(row.len(), 3);
}

#[test]
fn insert_counts_one_more_even_for_a_combining_mark() {
    let mut row = Row::from("e");
    row.insert(1, '\u{301}');
    assert_eq!(row.text(), "e\u{301}");
    assert_eq!(row.len(), 2);
    row.delete(1);
    assert_eq!(row.text(), "e\u{301}");
    assert_eq!(row.len(), 1);
}

#[test]
fn delete_removes_one_cluster() {
    let mut row = Row::from("abc");
    row.delete(1);
    assert_eq!(row.text(), "ac");
    assert_eq!(row.len(), 2);
    let mut row = Row::from("ae\u{301}c");
    row.delete(1);
    assert_eq!(row.text(), "ac");
    assert_eq!(row.len(), 2);
}

#[test]
fn delete_behind_end_does_nothing() {
    let mut row = Row::from("abc");
    row.delete(3);
    assert_eq!(row.text(), "abc");
    assert_eq!(row.len(), 3);
    row.delete(usize::MAX);
    assert_eq!(row.text(), "abc");
}

#[test]
fn delete_then_insert_restores() {
    for at in 0..5 {
        let mut row = Row::from("hello");
        let c = "hello".chars().nth(at).unwrap();
        row.delete(at);
        row.insert(at, c);
        assert_eq!(row.text(), "hello");
        assert_eq!(row.len(), 5);
    }
}

#[test]
fn delete_then_insert_fails_where_clusters_merge() {
    let mut row = Row::from("\u{1100}x\u{1161}");
    assert_eq!(row.len(), 3);
    row.delete(1);
    assert_eq!(row.text(), "\u{1100}\u{1161}");
    assert_eq!(row.len(), 2);
    row.insert(1, 'x');
    assert_eq!(row.text(), "\u{1100}\u{1161}");
    assert_eq!(row.len(), 1);
}

#[test]
fn split_cuts_between_clusters() {
    let mut row = Row::from("hello");
    let rest = row.split(2);
    assert_eq!(row.text(), "he");
    assert_eq!(row.len(), 2);
    assert_eq!(rest.text(), "llo");
    assert_eq!(rest.len(), 3);
    assert!(rest.highlighting().is_empty());
}

#[test]
fn split_at_the_ends() {
    let mut row = Row::from("abc");
    let rest = row.split(0);
    assert_eq!(row.text(), "");
    assert_eq!(row.len(), 0);
    assert_eq!(rest.text(), "abc");
    assert_eq!(rest.len(), 3);
    let mut row = Row::from("abc");
    let rest = row.split(7);
    assert_eq!(row.text(), "abc");
    assert_eq!(row.len(), 3);
    assert_eq!(rest.text(), "");
    assert_eq!(rest.len(), 0);
}

#[test]
fn append_joins_text_and_adds_counts() {
    let mut row = Row::from("foo");
    row.append(&Row::from("ba\u{308}r"));
    assert_eq!(row.text(), "fooba\u{308}r");
    assert_eq!(row.len(), 6);
}

#[test]
fn split_then_append_restores() {
    for at in 0..=6 {
        let mut row = Row::from("he\u{301}llo");
        let rest = row.split(at);
        row.append(&rest);
        assert_eq!(row.text(), "he\u{301}llo");
        assert_eq!(row.len(), 5);
    }
}

#[test]
fn find_in_both_directions() {
    let row = Row::from("abcabc");
    assert_eq!(row.find("abc", 0, SearchDirection::Forward), Some(0));
    assert_eq!(row.find("abc", 6, SearchDirection::Backward), Some(3));
    assert_eq!(row.find("abc", 1, SearchDirection::Forward), Some(3));
    assert_eq!(row.find("abc", 3, SearchDirection::Forward), Some(3));
    assert_eq!(row.find("abc", 4, SearchDirection::Forward), None);
    assert_eq!(row.find("abc", 5, SearchDirection::Backward), Some(0));
    assert_eq!(row.find("abc", 3, SearchDirection::Backward), Some(0));
    assert_eq!(row.find("abc", 2, SearchDirection::Backward), None);
}

#[test]
fn find_nothing_for_empty_query_or_start_behind_end() {
    let row = Row::from("abc");
    assert_eq!(row.find("", 0, SearchDirection::Forward), None);
    assert_eq!(row.find("", 3, SearchDirection::Backward), None);
    assert_eq!(row.find("a", 4, SearchDirection::Forward), None);
    assert_eq!(row.find("a", 4, SearchDirection::Backward), None);
    assert_eq!(row.find("a", 3, SearchDirection::Forward), None);
    assert_eq!(row.find("c", 3, SearchDirection::Backward), Some(2));
    assert_eq!(row.find("zz", 0, SearchDirection::Forward), None);
}

#[test]
fn find_gives_cluster_index_for_wide_text() {
    let row = Row::from("\u{e9}ab");
    assert_eq!(row.find("b", 0, SearchDirection::Forward), Some(2));
    assert_eq!(row.find("b", 1, SearchDirection::Forward), Some(2));
    assert_eq!(row.find("a", 3, SearchDirection::Backward), Some(1));
    let row = Row::from("e\u{301}e\u{301}x");
    assert_eq!(row.find("x", 0, SearchDirection::Forward), Some(2));
    assert_eq!(row.find("x", 2, SearchDirection::Forward), Some(2));
    assert_eq!(row.find("e\u{301}", 1, SearchDirection::Forward), Some(1));
}

#[test]
fn find_fails_where_the_query_starts_inside_a_cluster() {
    let row = Row::from("ae\u{301}x");
    assert_eq!(row.find("\u{301}", 0, SearchDirection::Forward), None);
    assert_eq!(row.find("\u{301}x", 0, SearchDirection::Forward), None);
    assert_eq!(row.find("e", 0, SearchDirection::Forward), Some(1));
}

#[test]
fn highlight_numbers_and_strings_by_priority() {
    let file_type = rust();
    let mut row = Row::from("12");
    row.highlight(file_type.highlighting_options(), None);
    assert_eq!(row.highlighting(), &[Type::Number, Type::Number]);
    let mut row = Row::from("\"12\"");
    row.highlight(file_type.highlighting_options(), None);
    assert_eq!(row.highlighting(), &[Type::String; 4]);
}

#[test]
fn highlight_keywords_need_separators() {
    let file_type = rust();
    let mut row = Row::from("ifx");
    row.highlight(file_type.highlighting_options(), None);
    assert_eq!(row.highlighting(), &[Type::Plain; 3]);
    let mut row = Row::from("if ");
    row.highlight(file_type.highlighting_options(), None);
    assert_eq!(
        row.highlighting(),
        &[Type::PrimaryKeywords, Type::PrimaryKeywords, Type::Plain]
    );
    let mut row = Row::from("xif ");
    row.highlight(file_type.highlighting_options(), None);
    assert_eq!(row.highlighting(), &[Type::Plain; 4]);
    let mut row = Row::from("u8");
    row.highlight(file_type.highlighting_options(), None);
    assert_eq!(row.highlighting(), &[Type::SecondaryKeywords; 2]);
}

#[test]
fn highlight_without_rules_is_plain() {
    let mut row = Row::from("if 12 \"s\" // c");
    row.highlight(&HighlightingOptions::default(), None);
    assert_eq!(row.highlighting(), &[Type::Plain; 14]);
}

#[test]
fn highlight_replaces_the_classes() {
    let file_type = rust();
    let mut row = Row::from("12");
    row.highlight(file_type.highlighting_options(), None);
    row.insert(0, 'x');
    assert_eq!(row.highlighting().len(), 2);
    row.highlight(file_type.highlighting_options(), None);
    assert_eq!(row.highlighting(), &[Type::Plain; 3]);
}

#[test]
fn highlight_has_one_class_for_each_scalar_value() {
    let file_type = rust();
    for text in ["\"open", "\"", "'", "'a", "e\u{301}", "fn f() { 1 } // x", ""] {
        let mut row = Row::from(text);
        row.highlight(file_type.highlighting_options(), None);
        assert_eq!(row.highlighting().len(), text.chars().count());
    }
}

#[test]
fn highlight_marks_every_hit_of_the_search_term() {
    let mut row = Row::from("abcabc");
    row.highlight(&HighlightingOptions::default(), Some("abc"));
    assert_eq!(row.highlighting(), &[Type::Match; 6]);
    let mut row = Row::from("xabyab");
    row.highlight(&HighlightingOptions::default(), Some("ab"));
    assert_eq!(
        row.highlighting(),
        &[Type::Plain, Type::Match, Type::Match, Type::Plain, Type::Match, Type::Match]
    );
}

#[test]
fn highlight_match_overwrites_other_classes() {
    let file_type = rust();
    let mut row = Row::from("let 12");
    row.highlight(file_type.highlighting_options(), Some("t 1"));
    assert_eq!(
        row.highlighting(),
        &[
            Type::PrimaryKeywords,
            Type::PrimaryKeywords,
            Type::Match,
            Type::Match,
            Type::Match,
            Type::Number
        ]
    );
}

#[test]
fn highlight_with_empty_or_absent_term_marks_nothing() {
    let mut row = Row::from("abc");
    row.highlight(&HighlightingOptions::default(), Some(""));
    assert_eq!(row.highlighting(), &[Type::Plain; 3]);
    row.highlight(&HighlightingOptions::default(), Some("zz"));
    assert_eq!(row.highlighting(), &[Type::Plain; 3]);
}

#[test]
fn render_switches_colour_at_class_changes_only() {
    let file_type = rust();
    let mut row = Row::from("12 if x");
    row.highlight(file_type.highlighting_options(), None);
    assert_eq!(row.render_with(0, 100, &palette()), "<n>12<p> <1>if<p> x<r>");
}

#[test]
fn render_shows_tab_as_space() {
    let mut row = Row::from("a\tb");
    row.highlight(&HighlightingOptions::default(), None);
    assert_eq!(row.render_with(0, 3, &palette()), "a b<r>");
}

#[test]
fn render_clamps_window() {
    let row = Row::from("hello");
    assert_eq!(row.render_with(1, 3, &palette()), "el<r>");
    assert_eq!(row.render_with(3, 1, &palette()), "<r>");
    assert_eq!(row.render_with(2, 100, &palette()), "llo<r>");
    assert_eq!(row.render_with(5, 9, &palette()), "<r>");
    assert_eq!(row.render_with(0, 0, &palette()), "<r>");
}

#[test]
fn render_starts_from_plain_inside_a_window() {
    let file_type = rust();
    let mut row = Row::from("a 12");
    row.highlight(file_type.highlighting_options(), None);
    assert_eq!(row.render_with(2, 4, &palette()), "<n>12<r>");
    assert_eq!(row.render_with(3, 4, &palette()), "<n>2<r>");
}

#[test]
fn render_prints_first_scalar_of_each_cluster() {
    let row = Row::from("e\u{301}x");
    assert_eq!(row.render_with(0, 2, &palette()), "ex<r>");
}

#[test]
fn render_uses_terminal_sequences() {
    let file_type = rust();
    let mut row = Row::from("1a");
    row.highlight(file_type.highlighting_options(), None);
    let terminal = Palette::terminal();
    let expected = format!("{}1{}a{}", terminal.number, terminal.plain, terminal.reset);
    assert_eq!(row.render(0, 2), expected);
}

#[test]
fn row_find_agrees_with_std_on_ascii() {
    let text = "the cat sat on the mat at that";
    let row = Row::from(text);
    for query in ["the", "at", "t", " ", "that", "cat sat", "dog", "the cat sat on the mat at that"] {
        for at in 0..=text.len() {
            let forward = text[at..].find(query).map(|offset| offset + at);
            let backward = text[..at].rfind(query);
            assert_eq!(row.find(query, at, SearchDirection::Forward), forward);
            assert_eq!(row.find(query, at, SearchDirection::Backward), backward);
        }
    }
}

#[test]
fn edits_agree_with_std_on_ascii() {
    let text = "hello world";
    for at in 0..=text.len() + 2 {
        let mut row = Row::from(text);
        row.insert(at, '!');
        let mut expected = String::from(text);
        expected.insert(at.min(text.len()), '!');
        assert_eq!(row.text(), expected);
        assert_eq!(row.len(), text.len() + 1);

        let mut row = Row::from(text);
        row.delete(at);
        let mut expected = String::from(text);
        if at < text.len() {
            expected.remove(at);
        }
        assert_eq!(row.text(), expected);
        assert_eq!(row.len(), expected.len());

        let mut row = Row::from(text);
        let rest = row.split(at);
        let cut = at.min(text.len());
        assert_eq!(row.text(), &text[..cut]);
        assert_eq!(rest.text(), &text[cut..]);
        assert_eq!(row.len() + rest.len(), text.len());
    }
}

#[test]
fn clusters_of_flags_and_syllables() {
    let row = Row::from("\u{1f1f7}\u{1f1fa}\u{1f1f8}\u{1f1f9}\u{d55c}");
    assert_eq!(row.len(), 3);
    let mut row = row;
    row.delete(1);
    assert_eq!(row.text(), "\u{1f1f7}\u{1f1fa}\u{d55c}");
    assert_eq!(row.len(), 2);
    assert_eq!(row.find("\u{d55c}", 0, SearchDirection::Forward), Some(1));
    assert_eq!(row.find("\u{1f1fa}", 0, SearchDirection::Forward), None);
}
