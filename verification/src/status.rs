use crate::text::{chars_of, string_of};
use vstd::prelude::*;

verus! {

/// The character of the decimal digit `d`.
pub open spec fn digit(d: int) -> char {
    if d == 0 {
        '0'
    } else if d == 1 {
        '1'
    } else if d == 2 {
        '2'
    } else if d == 3 {
        '3'
    } else if d == 4 {
        '4'
    } else if d == 5 {
        '5'
    } else if d == 6 {
        '6'
    } else if d == 7 {
        '7'
    } else if d == 8 {
        '8'
    } else {
        '9'
    }
}

/// `n` in decimal digits.
pub open spec fn decimal(n: nat) -> Seq<char>
    decreases n,
{
    if n < 10 {
        seq![digit(n as int)]
    } else {
        decimal(n / 10).push(digit((n % 10) as int))
    }
}

/// `count` spaces.
pub open spec fn spaces(count: nat) -> Seq<char> {
    Seq::new(count, |i: int| ' ')
}

/// The first `count` scalar values of `text`, or all of it where it has fewer.
pub open spec fn cut(text: Seq<char>, count: int) -> Seq<char> {
    if 0 <= count < text.len() {
        text.take(count)
    } else {
        text
    }
}

/// The status bar of `width` cells: `left` at its start, `right` at its end
/// where both fit, and spaces between them; what does not fit is cut off at
/// the end.
pub open spec fn status_line(left: Seq<char>, right: Seq<char>, width: int) -> Seq<char> {
    let gap = if left.len() + right.len() < width {
        (width - left.len() - right.len()) as nat
    } else {
        0
    };
    cut(left + spaces(gap) + right, width)
}

/// `n` in decimal digits.
pub fn decimal_of(n: usize) -> (text: String)
    ensures
        text@ == decimal(n as nat),
    decreases n,
{
    let d = n % 10;
    let c = if d == 0 {
        '0'
    } else if d == 1 {
        '1'
    } else if d == 2 {
        '2'
    } else if d == 3 {
        '3'
    } else if d == 4 {
        '4'
    } else if d == 5 {
        '5'
    } else if d == 6 {
        '6'
    } else if d == 7 {
        '7'
    } else if d == 8 {
        '8'
    } else {
        '9'
    };
    let mut text = if n < 10 { String::new() } else { decimal_of(n / 10) };
    text.push(c);
    assert(n < 10 ==> text@ =~= seq![digit(n as int)]);
    text
}

/// The first `count` scalar values of `text`.
pub fn truncated(text: &str, count: usize) -> (head: String)
    ensures
        head@ == cut(text@, count as int),
{
    let chars = chars_of(text);
    let end = if count < chars.len() { count } else { chars.len() };
    let head = string_of(chars.as_slice(), 0, end);
    assert(chars@.subrange(0, chars@.len() as int) =~= chars@);
    head
}

/// Lays out the status bar of `width` cells from what stands at its start
/// and what stands at its end.
pub fn lay_out_status(left: &str, right: &str, width: usize) -> (line: String)
    ensures
        line@ == status_line(left@, right@, width as int),
{
    let used = left.unicode_len();
    let wanted = right.unicode_len();
    let mut line = String::from_str(left);
    let mut gap: usize = 0;
    if used < width && wanted < width - used {
        gap = width - used - wanted;
    }
    let mut i: usize = 0;
    assert(line@ =~= left@ + spaces(0));
    while i < gap
        invariant
            i <= gap,
            line@ == left@ + spaces(i as nat),
        decreases gap - i,
    {
        line.push(' ');
        i += 1;
        assert(line@ =~= left@ + spaces(i as nat));
    }
    line.append(right);
    truncated(line.as_str(), width)
}

} // verus!
