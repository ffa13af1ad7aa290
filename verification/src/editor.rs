use crate::cursor::{move_cursor, moved, scroll, scrolled};
use crate::document::{Document, DocumentView};
use crate::prompt::{is_yes, says_yes};
use crate::render::{Palette, PaletteView};
use crate::status::{cut, decimal, decimal_of, lay_out_status, status_line, truncated};
use vstd::prelude::*;

verus! {

/// A place in a document: `y` is the index of a row, `x` an offset into that
/// row, counted in grapheme clusters.
#[derive(Default, Clone, Copy, Debug, PartialEq, Eq, Structural)]
pub struct Position {
    pub x: usize,
    pub y: usize,
}

/// The way a search walks from where it starts.
#[derive(PartialEq, Eq, Structural, Clone, Copy, Debug)]
pub enum SearchDirection {
    Forward,
    Backward,
}

/// The part of the terminal in which rows are drawn, in character cells.
#[derive(Clone, Copy, Debug, PartialEq, Eq, Structural)]
pub struct Size {
    pub width: u16,
    pub height: u16,
}

impl Size {
    /// The part in which rows are drawn of a terminal that is `width` cells
    /// wide and `height` lines high: its last two lines are kept for the
    /// status bar and the message bar.
    pub fn of_terminal(width: u16, height: u16) -> (size: Size)
        ensures
            size.width == width,
            size.height == (if height >= 2 { height - 2 } else { 0 }),
    {
        Size { width, height: height.saturating_sub(2) }
    }
}

/// Whether keys move the cursor or type text.
#[derive(PartialEq, Eq, Structural, Clone, Copy, Debug)]
pub enum TerminalMode {
    Normal,
    Insert,
}

/// A key as the editor tells keys apart.
#[derive(PartialEq, Eq, Structural, Clone, Copy, Debug)]
pub enum Key {
    Char(char),
    Enter,
    Delete,
    Backspace,
    Esc,
    Up,
    Down,
    Left,
    Right,
    PageUp,
    PageDown,
    Home,
    End,
    Other,
}

/// What is left to the caller once a key has been handled.
#[derive(PartialEq, Eq, Structural, Clone, Copy, Debug)]
pub enum Command {
    /// Nothing.
    Done,
    /// The document has changes: ask whether to quit without saving, and
    /// hand the answer to `answer_quit`.
    ConfirmQuit,
    /// Save the document.
    Save,
    /// Ask for a search term, handing every key to `search_key`.
    Search,
}

/// The name of a mode as the status bar shows it.
pub fn current_mode(mode: TerminalMode) -> (name: String)
    ensures
        name@ == (match mode {
            TerminalMode::Normal => "Normal"@,
            TerminalMode::Insert => "Insert"@,
        }),
{
    match mode {
        TerminalMode::Normal => String::from_str("Normal"),
        TerminalMode::Insert => String::from_str("Insert"),
    }
}

/// The state of an editing session: the document, where the cursor stands
/// in it, which part of it is shown and how keys are read.
pub struct Editor {
    pub should_quit: bool,
    pub size: Size,
    pub cursor_position: Position,
    pub offset: Position,
    pub document: Document,
    pub terminal_mode: TerminalMode,
}

/// The state of an editing session as plain mathematical values.
pub struct EditorView {
    pub should_quit: bool,
    pub size: Size,
    pub cursor_position: Position,
    pub offset: Position,
    pub document: DocumentView,
    pub terminal_mode: TerminalMode,
}

impl View for Editor {
    type V = EditorView;

    open spec fn view(&self) -> EditorView {
        EditorView {
            should_quit: self.should_quit,
            size: self.size,
            cursor_position: self.cursor_position,
            offset: self.offset,
            document: self.document@,
            terminal_mode: self.terminal_mode,
        }
    }
}

impl EditorView {
    /// The session with the cursor moved by `key`.
    pub open spec fn move_cursor(self, key: Key) -> EditorView {
        EditorView {
            cursor_position: moved(
                self.document,
                self.cursor_position,
                key,
                self.size.height as usize,
            ),
            ..self
        }
    }

    /// The session with what is shown following the cursor.
    pub open spec fn scroll(self) -> EditorView {
        EditorView { offset: scrolled(self.cursor_position, self.offset, self.size), ..self }
    }

    /// The session with `c` typed at the cursor.
    pub open spec fn typed(self, c: char) -> EditorView {
        (EditorView { document: self.document.insert(self.cursor_position, c), ..self }).move_cursor(
            Key::Right,
        )
    }

    /// What is left to the caller once `key` has been handled.
    pub open spec fn command(self, key: Key, control: bool) -> Command {
        if control && key == Key::Char('q') && self.document.dirty {
            Command::ConfirmQuit
        } else if control && key == Key::Char('s') {
            Command::Save
        } else if control && key == Key::Char('f') {
            Command::Search
        } else {
            Command::Done
        }
    }

    /// The session after `key`, before what is shown follows the cursor.
    /// `control` says that the control key, and no other modifier, was held.
    pub open spec fn handled(self, key: Key, control: bool) -> EditorView {
        match key {
            Key::Char(c) => if control && c == 'q' {
                EditorView { should_quit: true, ..self }
            } else if self.terminal_mode == TerminalMode::Normal {
                if c == 'h' {
                    self.move_cursor(Key::Left)
                } else if c == 'j' {
                    self.move_cursor(Key::Down)
                } else if c == 'k' {
                    self.move_cursor(Key::Up)
                } else if c == 'l' {
                    self.move_cursor(Key::Right)
                } else if c == 'i' {
                    EditorView { terminal_mode: TerminalMode::Insert, ..self }
                } else {
                    self
                }
            } else {
                self.typed(c)
            },
            Key::Enter => if self.terminal_mode == TerminalMode::Insert {
                self.typed('\n')
            } else {
                self
            },
            Key::Delete => if self.terminal_mode == TerminalMode::Insert {
                EditorView { document: self.document.delete(self.cursor_position), ..self }
            } else {
                self
            },
            Key::Backspace => if self.terminal_mode == TerminalMode::Insert && (
            self.cursor_position.x > 0 || self.cursor_position.y > 0) {
                let back = self.move_cursor(Key::Left);
                EditorView { document: back.document.delete(back.cursor_position), ..back }
            } else {
                self
            },
            Key::Esc => EditorView { terminal_mode: TerminalMode::Normal, ..self },
            Key::Other => self,
            _ => self.move_cursor(key),
        }
    }

    /// The session after `key`. Where something is left to the caller,
    /// nothing has changed yet.
    pub open spec fn process_key(self, key: Key, control: bool) -> EditorView {
        if self.command(key, control) == Command::Done {
            self.handled(key, control).scroll()
        } else {
            self
        }
    }

    /// What stands at the start of the status bar: the first 20 scalar values
    /// of the file name, the number of the cursor's row and that of its
    /// column, both counted from 1, and a note where there are unsaved changes.
    pub open spec fn status(self) -> Seq<char> {
        let name = match self.document.filename {
            Some(name) => cut(name, 20),
            None => "[unnamed]"@,
        };
        let row = self.cursor_position.y.saturating_add(1) as nat;
        let column = self.cursor_position.x.saturating_add(1) as nat;
        let note = if self.document.dirty { " [modified]"@ } else { Seq::empty() };
        name + seq![':'] + decimal(row) + seq![':'] + decimal(column) + note
    }

    /// What stands at the end of the status bar: the name of the language
    /// profile and that of the mode.
    pub open spec fn file_indicator(self) -> Seq<char> {
        let mode = match self.terminal_mode {
            TerminalMode::Normal => "Normal"@,
            TerminalMode::Insert => "Insert"@,
        };
        self.document.file_type.name + " | "@ + mode
    }

    /// The text of the status bar, as wide as the terminal at most.
    pub open spec fn status_bar(self) -> Seq<char> {
        status_line(self.status(), self.file_indicator(), self.size.width as int)
    }

    /// What is printed in line `line` of the terminal: the row that is that
    /// many rows below the first one shown, from the first column shown on,
    /// as wide as the terminal; nothing where the document has no such row.
    pub open spec fn shown_row(self, line: u16, palette: PaletteView) -> Option<Seq<char>> {
        let y = self.offset.y.saturating_add(line as usize);
        if y < self.document.rows.len() {
            Some(
                self.document.rows[y as int].render(
                    self.offset.x as int,
                    self.offset.x.saturating_add(self.size.width as usize) as int,
                    palette,
                ),
            )
        } else {
            None
        }
    }

    /// Where the cursor stands in the terminal: as far from the first row
    /// and the first column shown as it is in the document.
    pub open spec fn cursor_on_screen(self) -> Position {
        Position {
            x: self.cursor_position.x.saturating_sub(self.offset.x),
            y: self.cursor_position.y.saturating_sub(self.offset.y),
        }
    }

    /// The session after the answer to whether to quit without saving.
    pub open spec fn answer_quit(self, answer: Option<Seq<char>>) -> EditorView {
        match answer {
            Some(text) => EditorView { should_quit: self.should_quit || says_yes(text), ..self },
            None => self,
        }
    }

    /// The session after `key` was pressed while the search term, now
    /// `query`, is asked for: the right key searches forward from behind the
    /// cursor, the left key backward, any other key forward from the cursor.
    /// The cursor goes to the hit; every hit in the document is marked.
    pub open spec fn search_key(self, key: Key, query: Seq<char>) -> EditorView {
        let from = if key == Key::Right { self.move_cursor(Key::Right) } else { self };
        let direction = if key == Key::Left {
            SearchDirection::Backward
        } else {
            SearchDirection::Forward
        };
        let at = match from.document.find(query, from.cursor_position, direction) {
            Some(position) => (EditorView { cursor_position: position, ..from }).scroll(),
            None => if key == Key::Right { from.move_cursor(Key::Left) } else { from },
        };
        EditorView { document: at.document.highlight(Some(query)), ..at }
    }

    /// The session after a search has ended: the cursor is back at `start`
    /// unless a term was accepted, and no hit is marked any more.
    pub open spec fn end_search(self, start: Position, accepted: bool) -> EditorView {
        let at = if accepted {
            self
        } else {
            (EditorView { cursor_position: start, ..self }).scroll()
        };
        EditorView { document: at.document.highlight(None), ..at }
    }
}

impl Editor {
    /// A session on `document` in a terminal of the size `size`.
    pub fn new(document: Document, size: Size) -> (editor: Editor)
        ensures
            editor@ == (EditorView {
                should_quit: false,
                size,
                cursor_position: Position { x: 0, y: 0 },
                offset: Position { x: 0, y: 0 },
                document: document@,
                terminal_mode: TerminalMode::Normal,
            }),
    {
        Editor {
            should_quit: false,
            size,
            cursor_position: Position { x: 0, y: 0 },
            offset: Position { x: 0, y: 0 },
            document,
            terminal_mode: TerminalMode::Normal,
        }
    }

    /// Moves the cursor by `key`.
    pub fn move_cursor(&mut self, key: Key)
        ensures
            final(self)@ == old(self)@.move_cursor(key),
    {
        self.cursor_position = move_cursor(
            &self.document,
            &self.cursor_position,
            key,
            self.size.height as usize,
        );
    }

    /// Lets what is shown follow the cursor.
    pub fn scroll(&mut self)
        ensures
            final(self)@ == old(self)@.scroll(),
    {
        self.offset = scroll(&self.cursor_position, &self.offset, &self.size);
    }

    fn type_char(&mut self, c: char)
        ensures
            final(self)@ == old(self)@.typed(c),
            old(self)@.document.wf() ==> final(self)@.document.wf(),
    {
        self.document.insert(&self.cursor_position, c);
        self.move_cursor(Key::Right);
    }

    /// Handles `key` and says what is left to the caller. `control` says
    /// that the control key, and no other modifier, was held.
    pub fn process_key(&mut self, key: Key, control: bool) -> (command: Command)
        ensures
            command == old(self)@.command(key, control),
            final(self)@ == old(self)@.process_key(key, control),
            old(self)@.document.wf() ==> final(self)@.document.wf(),
    {
        match key {
            Key::Char(c) => {
                if control && c == 'q' {
                    if self.document.is_dirty() {
                        return Command::ConfirmQuit;
                    }
                    self.should_quit = true;
                } else if control && c == 's' {
                    return Command::Save;
                } else if control && c == 'f' {
                    return Command::Search;
                } else if self.terminal_mode == TerminalMode::Normal {
                    if c == 'h' {
                        self.move_cursor(Key::Left);
                    } else if c == 'j' {
                        self.move_cursor(Key::Down);
                    } else if c == 'k' {
                        self.move_cursor(Key::Up);
                    } else if c == 'l' {
                        self.move_cursor(Key::Right);
                    } else if c == 'i' {
                        self.terminal_mode = TerminalMode::Insert;
                    }
                } else {
                    self.type_char(c);
                }
            },
            Key::Enter => {
                if self.terminal_mode == TerminalMode::Insert {
                    self.type_char('\n');
                }
            },
            Key::Delete => {
                if self.terminal_mode == TerminalMode::Insert {
                    self.document.delete(&self.cursor_position);
                }
            },
            Key::Backspace => {
                if self.terminal_mode == TerminalMode::Insert && (self.cursor_position.x > 0
                    || self.cursor_position.y > 0) {
                    self.move_cursor(Key::Left);
                    self.document.delete(&self.cursor_position);
                }
            },
            Key::Esc => {
                self.terminal_mode = TerminalMode::Normal;
            },
            Key::Other => {},
            _ => {
                self.move_cursor(key);
            },
        }
        self.scroll();
        Command::Done
    }

    /// What is printed in line `line` of the terminal with the control
    /// sequences of `palette`, if the document has a row for that line.
    pub fn shown_row(&self, line: u16, palette: &Palette) -> (text: Option<String>)
        ensures
            match text {
                Some(text) => self@.shown_row(line, palette@) == Some(text@),
                None => self@.shown_row(line, palette@).is_none(),
            },
    {
        let start = self.offset.x;
        let end = start.saturating_add(self.size.width as usize);
        match self.document.row(self.offset.y.saturating_add(line as usize)) {
            Some(row) => Some(row.render_with(start, end, palette)),
            None => None,
        }
    }

    /// Where the cursor stands in the terminal.
    pub fn cursor_on_screen(&self) -> (at: Position)
        ensures
            at == self@.cursor_on_screen(),
    {
        Position {
            x: self.cursor_position.x.saturating_sub(self.offset.x),
            y: self.cursor_position.y.saturating_sub(self.offset.y),
        }
    }

    /// The text of the status bar.
    pub fn status_bar(&self) -> (line: String)
        ensures
            line@ == self@.status_bar(),
    {
        let mut status = match self.document.file_name() {
            Some(name) => truncated(name, 20),
            None => String::from_str("[unnamed]"),
        };
        status.push(':');
        status.append(decimal_of(self.cursor_position.y.saturating_add(1)).as_str());
        status.push(':');
        status.append(decimal_of(self.cursor_position.x.saturating_add(1)).as_str());
        if self.document.is_dirty() {
            status.append(" [modified]");
        }
        let mut indicator = self.document.file_type();
        indicator.append(" | ");
        indicator.append(current_mode(self.terminal_mode).as_str());
        proof {
            let view = self@;
            assert(status@ =~= view.status());
            assert(indicator@ =~= view.file_indicator());
        }
        lay_out_status(status.as_str(), indicator.as_str(), self.size.width as usize)
    }

    /// Takes the answer to whether to quit without saving; `None` stands for
    /// no answer. Says whether the session ends.
    pub fn answer_quit(&mut self, answer: Option<&str>) -> (quit: bool)
        ensures
            final(self)@ == old(self)@.answer_quit(
                match answer {
                    Some(text) => Some(text@),
                    None => None,
                },
            ),
            quit == final(self)@.should_quit,
    {
        if let Some(text) = answer {
            if is_yes(text) {
                self.should_quit = true;
            }
        }
        self.should_quit
    }

    /// Handles `key`, pressed while the search term, now `query`, is asked for.
    pub fn search_key(&mut self, key: Key, query: &str)
        ensures
            final(self)@ == old(self)@.search_key(key, query@),
            old(self)@.document.wf() ==> final(self)@.document.wf(),
    {
        let mut moved = false;
        let direction = match key {
            Key::Right => {
                moved = true;
                self.move_cursor(Key::Right);
                SearchDirection::Forward
            },
            Key::Left => SearchDirection::Backward,
            _ => SearchDirection::Forward,
        };
        match self.document.find(query, &self.cursor_position, direction) {
            Some(position) => {
                self.cursor_position = position;
                self.scroll();
            },
            None => {
                if moved {
                    self.move_cursor(Key::Left);
                }
            },
        }
        self.document.highlight(Some(query));
    }

    /// Ends a search that began with the cursor at `start`; `accepted` says
    /// whether a search term was accepted.
    pub fn end_search(&mut self, start: Position, accepted: bool)
        ensures
            final(self)@ == old(self)@.end_search(start, accepted),
            old(self)@.document.wf() ==> final(self)@.document.wf(),
    {
        if !accepted {
            self.cursor_position = start;
            self.scroll();
        }
        self.document.highlight(None);
    }
}

} // verus!
