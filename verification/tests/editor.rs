use textbuf::cursor::{move_cursor, scroll};
use textbuf::editor::current_mode;
use textbuf::prompt::{is_yes, prompt_key};
use textbuf::status::{decimal_of, lay_out_status, truncated};
use textbuf::{Command, Document, Editor, Key, Palette, Position, Size, TerminalMode, Type};

fn at(x: usize, y: usize) -> Position {
    Position { x, y }
}

fn sample() -> Document {
    Document::from_contents("sample.txt", "ab\ncdef\n\nxyz")
}

fn session(text: &str) -> Editor {
    Editor::new(Document::from_contents("main.rs", text), Size { width: 10, height: 3 })
}

fn texts(document: &Document) -> Vec<String> {
    (0..document.len()).map(|y| String::from(document.row(y).unwrap().text())).collect()
}

fn palette() -> Palette {
    Palette {
        plain: String::from("<p>"),
        number: String::from("<n>"),
        string: String::from("<s>"),
        character: String::from("<c>"),
        comment: String::from("<k>"),
        primary_keywords: String::from("<1>"),
        secondary_keywords: String::from("<2>"),
        search_match: String::from("<m>"),
        reset: String::from("<r>"),
    }
}

#[test]
fn mode_names() {
    assert_eq!(current_mode(TerminalMode::Normal), "Normal");
    assert_eq!(current_mode(TerminalMode::Insert), "Insert");
}

#[test]
fn scroll_keeps_offset_while_cursor_is_shown() {
    let size = Size { width: 80, height: 20 };
    assert_eq!(scroll(&at(5, 10), &at(0, 0), &size), at(0, 0));
    assert_eq!(scroll(&at(79, 19), &at(0, 0), &size), at(0, 0));
    assert_eq!(scroll(&at(12, 14), &at(10, 10), &size), at(10, 10));
}

#[test]
fn scroll_follows_cursor_down_and_right() {
    let size = Size { width: 80, height: 20 };
    assert_eq!(scroll(&at(0, 20), &at(0, 0), &size), at(0, 1));
    assert_eq!(scroll(&at(0, 25), &at(0, 0), &size), at(0, 6));
    assert_eq!(scroll(&at(80, 0), &at(0, 0), &size), at(1, 0));
    assert_eq!(scroll(&at(100, 30), &at(5, 5), &size), at(21, 11));
}

#[test]
fn scroll_follows_cursor_up_and_left() {
    let size = Size { width: 80, height: 20 };
    assert_eq!(scroll(&at(3, 4), &at(10, 10), &size), at(3, 4));
    assert_eq!(scroll(&at(10, 4), &at(10, 10), &size), at(10, 4));
}

#[test]
fn scroll_at_the_limits() {
    let none = Size { width: 0, height: 0 };
    assert_eq!(scroll(&at(4, 7), &at(0, 0), &none), at(5, 8));
    assert_eq!(
        scroll(&at(usize::MAX, usize::MAX), &at(0, 0), &none),
        at(usize::MAX, usize::MAX)
    );
    let size = Size { width: 10, height: 10 };
    assert_eq!(
        scroll(&at(usize::MAX, 0), &at(usize::MAX - 3, 0), &size),
        at(usize::MAX - 9, 0)
    );
}

#[test]
fn move_up_and_down() {
    let document = sample();
    assert_eq!(move_cursor(&document, &at(1, 1), Key::Up, 3), at(1, 0));
    assert_eq!(move_cursor(&document, &at(4, 1), Key::Up, 3), at(2, 0));
    assert_eq!(move_cursor(&document, &at(1, 0), Key::Up, 3), at(1, 0));
    assert_eq!(move_cursor(&document, &at(1, 0), Key::Down, 3), at(1, 1));
    assert_eq!(move_cursor(&document, &at(3, 1), Key::Down, 3), at(0, 2));
    assert_eq!(move_cursor(&document, &at(2, 3), Key::Down, 3), at(0, 4));
    assert_eq!(move_cursor(&document, &at(0, 4), Key::Down, 3), at(0, 4));
}

#[test]
fn move_left_and_right() {
    let document = sample();
    assert_eq!(move_cursor(&document, &at(1, 1), Key::Left, 3), at(0, 1));
    assert_eq!(move_cursor(&document, &at(0, 1), Key::Left, 3), at(2, 0));
    assert_eq!(move_cursor(&document, &at(0, 0), Key::Left, 3), at(0, 0));
    assert_eq!(move_cursor(&document, &at(1, 1), Key::Right, 3), at(2, 1));
    assert_eq!(move_cursor(&document, &at(4, 1), Key::Right, 3), at(0, 2));
    assert_eq!(move_cursor(&document, &at(0, 2), Key::Right, 3), at(0, 3));
    assert_eq!(move_cursor(&document, &at(3, 3), Key::Right, 3), at(0, 4));
    assert_eq!(move_cursor(&document, &at(0, 4), Key::Right, 3), at(0, 4));
}

#[test]
fn move_by_pages() {
    let document = sample();
    assert_eq!(move_cursor(&document, &at(1, 3), Key::PageUp, 2), at(1, 1));
    assert_eq!(move_cursor(&document, &at(1, 1), Key::PageUp, 2), at(1, 0));
    assert_eq!(move_cursor(&document, &at(1, 0), Key::PageDown, 2), at(0, 2));
    assert_eq!(move_cursor(&document, &at(1, 0), Key::PageDown, 3), at(1, 3));
    assert_eq!(move_cursor(&document, &at(1, 1), Key::PageDown, 30), at(0, 4));
    assert_eq!(move_cursor(&document, &at(1, 1), Key::PageDown, usize::MAX), at(0, 4));
}

#[test]
fn move_home_and_end() {
    let document = sample();
    assert_eq!(move_cursor(&document, &at(3, 1), Key::Home, 3), at(0, 1));
    assert_eq!(move_cursor(&document, &at(0, 1), Key::Home, 3), at(0, 0));
    assert_eq!(move_cursor(&document, &at(0, 0), Key::Home, 3), at(0, 0));
    assert_eq!(move_cursor(&document, &at(1, 1), Key::End, 3), at(4, 1));
    assert_eq!(move_cursor(&document, &at(4, 1), Key::End, 3), at(0, 2));
    assert_eq!(move_cursor(&document, &at(0, 2), Key::End, 3), at(3, 3));
    assert_eq!(move_cursor(&document, &at(3, 3), Key::End, 3), at(0, 4));
}

#[test]
fn other_keys_only_clamp_the_cursor() {
    let document = sample();
    assert_eq!(move_cursor(&document, &at(1, 1), Key::Enter, 3), at(1, 1));
    assert_eq!(move_cursor(&document, &at(9, 1), Key::Char('x'), 3), at(4, 1));
    assert_eq!(move_cursor(&document, &at(9, 9), Key::Other, 3), at(0, 9));
}

#[test]
fn new_session_starts_at_the_top_in_normal_mode() {
    let editor = session("ab");
    assert!(!editor.should_quit);
    assert_eq!(editor.cursor_position, at(0, 0));
    assert_eq!(editor.offset, at(0, 0));
    assert_eq!(editor.terminal_mode, TerminalMode::Normal);
    assert_eq!(editor.size, Size { width: 10, height: 3 });
    assert_eq!(editor.document.len(), 1);
}

#[test]
fn normal_mode_moves_with_letters() {
    let mut editor = session("ab\ncd");
    assert_eq!(editor.process_key(Key::Char('l'), false), Command::Done);
    assert_eq!(editor.cursor_position, at(1, 0));
    editor.process_key(Key::Char('j'), false);
    assert_eq!(editor.cursor_position, at(1, 1));
    editor.process_key(Key::Char('h'), false);
    assert_eq!(editor.cursor_position, at(0, 1));
    editor.process_key(Key::Char('k'), false);
    assert_eq!(editor.cursor_position, at(0, 0));
    editor.process_key(Key::Char('x'), false);
    editor.process_key(Key::Enter, false);
    editor.process_key(Key::Delete, false);
    editor.process_key(Key::Backspace, false);
    assert_eq!(texts(&editor.document), vec!["ab", "cd"]);
    assert!(!editor.document.is_dirty());
    assert_eq!(editor.cursor_position, at(0, 0));
}

#[test]
fn insert_mode_types_text() {
    let mut editor = session("");
    editor.process_key(Key::Char('i'), false);
    assert_eq!(editor.terminal_mode, TerminalMode::Insert);
    for c in "if 1".chars() {
        assert_eq!(editor.process_key(Key::Char(c), false), Command::Done);
    }
    assert_eq!(texts(&editor.document), vec!["if 1"]);
    assert_eq!(editor.cursor_position, at(4, 0));
    assert!(editor.document.is_dirty());
    assert_eq!(
        editor.document.row(0).unwrap().highlighting(),
        &[Type::PrimaryKeywords, Type::PrimaryKeywords, Type::Plain, Type::Number]
    );
    editor.process_key(Key::Enter, false);
    assert_eq!(texts(&editor.document), vec!["if 1", ""]);
    assert_eq!(editor.cursor_position, at(0, 1));
    editor.process_key(Key::Char('x'), true);
    assert_eq!(texts(&editor.document), vec!["if 1", "x"]);
    editor.process_key(Key::Esc, false);
    assert_eq!(editor.terminal_mode, TerminalMode::Normal);
}

#[test]
fn insert_mode_deletes() {
    let mut editor = session("ab\ncd");
    editor.process_key(Key::Char('i'), false);
    editor.process_key(Key::Delete, false);
    assert_eq!(texts(&editor.document), vec!["b", "cd"]);
    editor.process_key(Key::Backspace, false);
    assert_eq!(texts(&editor.document), vec!["b", "cd"]);
    editor.process_key(Key::Down, false);
    assert_eq!(editor.cursor_position, at(0, 1));
    editor.process_key(Key::Backspace, false);
    assert_eq!(texts(&editor.document), vec!["bcd"]);
    assert_eq!(editor.cursor_position, at(1, 0));
    editor.process_key(Key::Backspace, false);
    assert_eq!(texts(&editor.document), vec!["cd"]);
    assert_eq!(editor.cursor_position, at(0, 0));
}

#[test]
fn keys_scroll_the_view() {
    let mut editor = session("a\nb\nc\nd\ne");
    for _ in 0..4 {
        editor.process_key(Key::Down, false);
    }
    assert_eq!(editor.cursor_position, at(0, 4));
    assert_eq!(editor.offset, at(0, 2));
    editor.process_key(Key::PageUp, false);
    assert_eq!(editor.cursor_position, at(0, 1));
    assert_eq!(editor.offset, at(0, 1));
    assert_eq!(editor.cursor_on_screen(), at(0, 0));
}

#[test]
fn control_keys_give_commands() {
    let mut editor = session("ab");
    assert_eq!(editor.process_key(Key::Char('s'), true), Command::Save);
    assert_eq!(editor.process_key(Key::Char('f'), true), Command::Search);
    assert_eq!(editor.process_key(Key::Char('q'), true), Command::Done);
    assert!(editor.should_quit);
}

#[test]
fn quitting_with_changes_needs_an_answer() {
    let mut editor = session("ab");
    editor.process_key(Key::Char('i'), false);
    editor.process_key(Key::Char('x'), false);
    assert_eq!(editor.process_key(Key::Char('q'), true), Command::ConfirmQuit);
    assert!(!editor.should_quit);
    assert!(!editor.answer_quit(None));
    assert!(!editor.answer_quit(Some("n")));
    assert!(!editor.answer_quit(Some("yes please")));
    assert!(!editor.should_quit);
    assert!(editor.answer_quit(Some("Yes")));
    assert!(editor.should_quit);
}

#[test]
fn yes_in_any_case() {
    for answer in ["y", "Y", "yes", "YES", "Yes", "yEs"] {
        assert!(is_yes(answer));
        let lower = answer.to_ascii_lowercase();
        assert!(lower == "y" || lower == "yes");
    }
    for answer in ["", "n", "no", "ye", "yess", "yy", " y", "\u{ff59}"] {
        assert!(!is_yes(answer));
    }
}

#[test]
fn search_moves_to_hits() {
    let mut editor = session("foo\nbar foo\nfoo");
    editor.search_key(Key::Char('o'), "foo");
    assert_eq!(editor.cursor_position, at(0, 0));
    assert_eq!(editor.document.row(0).unwrap().highlighting(), &[Type::Match; 3]);
    editor.search_key(Key::Right, "foo");
    assert_eq!(editor.cursor_position, at(4, 1));
    editor.search_key(Key::Right, "foo");
    assert_eq!(editor.cursor_position, at(0, 2));
    editor.search_key(Key::Right, "foo");
    assert_eq!(editor.cursor_position, at(0, 2));
    editor.search_key(Key::Left, "foo");
    assert_eq!(editor.cursor_position, at(4, 1));
    editor.search_key(Key::Left, "foo");
    assert_eq!(editor.cursor_position, at(0, 0));
    editor.search_key(Key::Left, "foo");
    assert_eq!(editor.cursor_position, at(0, 0));
    editor.search_key(Key::Backspace, "");
    assert_eq!(editor.cursor_position, at(0, 0));
    assert_eq!(editor.document.row(0).unwrap().highlighting(), &[Type::Plain; 3]);
}

#[test]
fn search_ends_with_or_without_a_term() {
    let mut editor = session("12 foo");
    editor.search_key(Key::Char('o'), "foo");
    assert_eq!(editor.cursor_position, at(3, 0));
    editor.end_search(at(0, 0), true);
    assert_eq!(editor.cursor_position, at(3, 0));
    assert_eq!(
        editor.document.row(0).unwrap().highlighting(),
        &[Type::Number, Type::Number, Type::Plain, Type::Plain, Type::Plain, Type::Plain]
    );
    editor.search_key(Key::Char('o'), "foo");
    editor.end_search(at(1, 0), false);
    assert_eq!(editor.cursor_position, at(1, 0));
    assert_eq!(editor.document.row(0).unwrap().highlighting()[3], Type::Plain);
}

#[test]
fn prompt_keys_edit_the_text() {
    let mut text = String::new();
    assert!(!prompt_key(&mut text, Key::Char('a')));
    assert!(!prompt_key(&mut text, Key::Char('\u{e9}')));
    assert!(!prompt_key(&mut text, Key::Char('\u{7}')));
    assert!(!prompt_key(&mut text, Key::Char('\u{85}')));
    assert!(!prompt_key(&mut text, Key::Up));
    assert_eq!(text, "a\u{e9}");
    assert!(!prompt_key(&mut text, Key::Backspace));
    assert_eq!(text, "a");
    assert!(prompt_key(&mut text, Key::Enter));
    assert_eq!(text, "a");
    assert!(!prompt_key(&mut text, Key::Backspace));
    assert!(!prompt_key(&mut text, Key::Backspace));
    assert_eq!(text, "");
    text.push_str("abc");
    assert!(prompt_key(&mut text, Key::Esc));
    assert_eq!(text, "");
}

#[test]
fn prompt_refuses_control_characters_as_std_knows_them() {
    for code in 0u32..0x120 {
        let c = char::from_u32(code).unwrap();
        let mut text = String::new();
        prompt_key(&mut text, Key::Char(c));
        assert_eq!(text.is_empty(), c.is_control());
    }
}

#[test]
fn decimal_digits() {
    assert_eq!(decimal_of(0), "0");
    assert_eq!(decimal_of(7), "7");
    assert_eq!(decimal_of(10), "10");
    assert_eq!(decimal_of(1234567890), "1234567890");
    assert_eq!(decimal_of(usize::MAX), usize::MAX.to_string());
}

#[test]
fn truncated_counts_scalar_values() {
    assert_eq!(truncated("hello", 2), "he");
    assert_eq!(truncated("hello", 5), "hello");
    assert_eq!(truncated("hello", 9), "hello");
    assert_eq!(truncated("hello", 0), "");
    assert_eq!(truncated("h\u{e9}llo", 2), "h\u{e9}");
}

#[test]
fn status_layout() {
    assert_eq!(lay_out_status("ab", "cd", 8), "ab    cd");
    assert_eq!(lay_out_status("ab", "cd", 4), "abcd");
    assert_eq!(lay_out_status("ab", "cd", 3), "abc");
    assert_eq!(lay_out_status("ab", "cd", 0), "");
    assert_eq!(lay_out_status("", "", 3), "   ");
}

#[test]
fn status_bar_of_a_session() {
    let mut editor = Editor::new(
        Document::from_contents("main.rs", "ab"),
        Size { width: 40, height: 10 },
    );
    assert_eq!(editor.status_bar(), "main.rs:1:1                Rust | Normal");
    editor.process_key(Key::Char('i'), false);
    editor.process_key(Key::Char('x'), false);
    assert_eq!(editor.status_bar(), "main.rs:1:2 [modified]     Rust | Insert");
    let mut editor = Editor::new(Document::default(), Size { width: 20, height: 10 });
    assert_eq!(editor.status_bar(), "[unnamed]:1:1No file");
    editor.document.filename = Some(String::from("a-very-long-file-name-indeed.txt"));
    editor.size.width = 60;
    assert_eq!(
        editor.status_bar(),
        "a-very-long-file-nam:1:1                No filetype | Normal"
    );
}

#[test]
fn shown_rows_follow_the_offset() {
    let mut editor = Editor::new(
        Document::from_contents("main.rs", "let x = 1;\nab"),
        Size { width: 4, height: 2 },
    );
    let palette = palette();
    assert_eq!(editor.shown_row(0, &palette), Some(String::from("<1>let<p> <r>")));
    assert_eq!(editor.shown_row(1, &palette), Some(String::from("ab<r>")));
    assert_eq!(editor.shown_row(2, &palette), None);
    editor.offset = at(4, 1);
    assert_eq!(editor.shown_row(0, &palette), Some(String::from("<r>")));
    editor.offset = at(6, 0);
    assert_eq!(editor.shown_row(0, &palette), Some(String::from("= <n>1<p>;<r>")));
    editor.offset = at(0, usize::MAX);
    assert_eq!(editor.shown_row(1, &palette), None);
}

#[test]
fn file_name_accessors() {
    let mut document = Document::default();
    assert_eq!(document.file_name(), None);
    document.set_file_name("a.rs");
    assert_eq!(document.file_name(), Some("a.rs"));
    assert_eq!(document.filename.as_deref(), Some("a.rs"));
    assert_eq!(document.file_type(), "No filetype");
    assert!(!document.is_dirty());
}

#[test]
fn size_leaves_two_lines_for_the_bars() {
    assert_eq!(Size::of_terminal(80, 24), Size { width: 80, height: 22 });
    assert_eq!(Size::of_terminal(80, 2), Size { width: 80, height: 0 });
    assert_eq!(Size::of_terminal(0, 1), Size { width: 0, height: 0 });
    assert_eq!(Size::of_terminal(u16::MAX, u16::MAX), Size { width: u16::MAX, height: u16::MAX - 2 });
}
