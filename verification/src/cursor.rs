use crate::document::{Document, DocumentView};
use crate::editor::{Key, Position, Size};
use vstd::prelude::*;

verus! {

/// The kept count of the row at index `y`; 0 where the document has no such row.
pub open spec fn row_len(document: DocumentView, y: int) -> int {
    if 0 <= y < document.rows.len() {
        document.rows[y].len as int
    } else {
        0
    }
}

/// The smaller of two numbers.
pub open spec fn least(a: int, b: int) -> int {
    if a < b {
        a
    } else {
        b
    }
}

/// Where the cursor stands after `key`, before its offset is held to the
/// length of its row. The rows of the document count as one more than it has:
/// the cursor may stand in the row after the last. `terminal_height` is the
/// number of rows that a page key moves by.
pub open spec fn stepped(
    document: DocumentView,
    cursor: Position,
    key: Key,
    terminal_height: usize,
) -> (int, int) {
    let x = cursor.x as int;
    let y = cursor.y as int;
    let height = document.rows.len() as int;
    let width = row_len(document, y);
    match key {
        Key::Up => (x, if y > 0 { y - 1 } else { 0 }),
        Key::Down => (x, if y < height { y + 1 } else { y }),
        Key::Left => if x > 0 {
            (x - 1, y)
        } else if y > 0 {
            (row_len(document, y - 1), y - 1)
        } else {
            (x, y)
        },
        Key::Right => if x < width {
            (x + 1, y)
        } else {
            (0, if y < height { y + 1 } else { y })
        },
        Key::PageUp => (x, if y > terminal_height { y - terminal_height } else { 0 }),
        Key::PageDown => (x, least(least(y + terminal_height, usize::MAX as int), height)),
        Key::Home => (0, if x == 0 && y > 0 { y - 1 } else { y }),
        Key::End => {
            let row = if x == width && y < height { y + 1 } else { y };
            (row_len(document, row), row)
        },
        _ => (x, y),
    }
}

/// Where the cursor stands after `key`: where the key takes it, with its
/// offset no greater than the length of the row that it is in.
pub open spec fn moved(
    document: DocumentView,
    cursor: Position,
    key: Key,
    terminal_height: usize,
) -> Position {
    let (x, y) = stepped(document, cursor, key, terminal_height);
    Position { x: least(x, row_len(document, y)) as usize, y: y as usize }
}

/// The first row or column shown, given the one shown so far, so that the
/// cursor's row or column `at` is among the `extent` shown: `at` itself where
/// the cursor is before what is shown, and the one that puts it last where it
/// is behind.
pub open spec fn scrolled_offset(at: usize, offset: usize, extent: usize) -> usize {
    if at < offset {
        at
    } else if at >= offset.saturating_add(extent) {
        at.saturating_sub(extent).saturating_add(1)
    } else {
        offset
    }
}

/// The offset of what is shown after it has followed the cursor.
pub open spec fn scrolled(cursor: Position, offset: Position, size: Size) -> Position {
    Position {
        x: scrolled_offset(cursor.x, offset.x, size.width as usize),
        y: scrolled_offset(cursor.y, offset.y, size.height as usize),
    }
}

/// The offset of what is shown once it has followed the cursor.
pub fn scroll(cursor: &Position, offset: &Position, size: &Size) -> (shown: Position)
    ensures
        shown == scrolled(*cursor, *offset, *size),
{
    let width = size.width as usize;
    let height = size.height as usize;
    let mut shown = Position { x: offset.x, y: offset.y };
    if cursor.y < offset.y {
        shown.y = cursor.y;
    } else if cursor.y >= offset.y.saturating_add(height) {
        shown.y = cursor.y.saturating_sub(height).saturating_add(1);
    }
    if cursor.x < offset.x {
        shown.x = cursor.x;
    } else if cursor.x >= offset.x.saturating_add(width) {
        shown.x = cursor.x.saturating_sub(width).saturating_add(1);
    }
    shown
}

fn width_of(document: &Document, y: usize) -> (width: usize)
    ensures
        width == row_len(document@, y as int),
{
    match document.row(y) {
        Some(row) => row.len(),
        None => 0,
    }
}

/// Where the cursor stands after `key`.
pub fn move_cursor(document: &Document, cursor: &Position, key: Key, terminal_height: usize) -> (after: Position)
    ensures
        after == moved(document@, *cursor, key, terminal_height),
{
    let mut x = cursor.x;
    let mut y = cursor.y;
    let height = document.len();
    let width = width_of(document, y);
    match key {
        Key::Up => {
            y = y.saturating_sub(1);
        },
        Key::Down => {
            if y < height {
                y = y + 1;
            }
        },
        Key::Left => {
            if x > 0 {
                x = x - 1;
            } else if y > 0 {
                y = y - 1;
                x = width_of(document, y);
            }
        },
        Key::Right => {
            if x < width {
                x = x + 1;
            } else {
                if y < height {
                    y = y + 1;
                }
                x = 0;
            }
        },
        Key::PageUp => {
            y = y.saturating_sub(terminal_height);
        },
        Key::PageDown => {
            let below = y.saturating_add(terminal_height);
            y = if below < height { below } else { height };
        },
        Key::Home => {
            if x == 0 {
                y = y.saturating_sub(1);
            }
            x = 0;
        },
        Key::End => {
            if x == width && y < height {
                y = y + 1;
            }
            x = width_of(document, y);
        },
        _ => {},
    }
    let width = width_of(document, y);
    if x > width {
        x = width;
    }
    Position { x, y }
}

} // verus!
