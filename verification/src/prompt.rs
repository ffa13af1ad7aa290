use crate::editor::Key;
use crate::text::{chars_of, string_of};
use vstd::prelude::*;

verus! {

/// `answer` says yes: it is `y` or `yes`, in capitals or small letters.
pub open spec fn says_yes(answer: Seq<char>) -> bool {
    ||| answer.len() == 1 && (answer[0] == 'y' || answer[0] == 'Y')
    ||| answer.len() == 3 && (answer[0] == 'y' || answer[0] == 'Y') && (answer[1] == 'e'
        || answer[1] == 'E') && (answer[2] == 's' || answer[2] == 'S')
}

/// Whether `answer` says yes.
pub fn is_yes(answer: &str) -> (yes: bool)
    ensures
        yes == says_yes(answer@),
{
    let chars = chars_of(answer);
    if chars.len() == 1 {
        chars[0] == 'y' || chars[0] == 'Y'
    } else if chars.len() == 3 {
        (chars[0] == 'y' || chars[0] == 'Y') && (chars[1] == 'e' || chars[1] == 'E') && (chars[2]
            == 's' || chars[2] == 'S')
    } else {
        false
    }
}

/// `c` is a control character: one of U+0000 to U+001F or U+007F to U+009F.
pub open spec fn is_control(c: char) -> bool {
    c <= '\u{1f}' || '\u{7f}' <= c <= '\u{9f}'
}

/// The text asked for at a prompt after `key`: backspace takes its last
/// scalar value away, a character that is no control character is added to
/// it, escape empties it.
pub open spec fn prompt_text(text: Seq<char>, key: Key) -> Seq<char> {
    match key {
        Key::Backspace => if text.len() > 0 {
            text.drop_last()
        } else {
            text
        },
        Key::Char(c) => if is_control(c) {
            text
        } else {
            text.push(c)
        },
        Key::Esc => Seq::empty(),
        _ => text,
    }
}

/// Takes `key` into the text `result` that is asked for at a prompt, and
/// says whether the key ends the prompt: enter and escape do.
pub fn prompt_key(result: &mut String, key: Key) -> (done: bool)
    ensures
        final(result)@ == prompt_text(old(result)@, key),
        done == (key == Key::Enter || key == Key::Esc),
{
    match key {
        Key::Backspace => {
            let chars = chars_of(result.as_str());
            if chars.len() > 0 {
                *result = string_of(chars.as_slice(), 0, chars.len() - 1);
            }
            false
        },
        Key::Enter => true,
        Key::Char(c) => {
            if !(c <= '\u{1f}' || (c >= '\u{7f}' && c <= '\u{9f}')) {
                result.push(c);
            }
            false
        },
        Key::Esc => {
            *result = String::new();
            true
        },
        _ => false,
    }
}

} // verus!
