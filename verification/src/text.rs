use vstd::prelude::*;

verus! {

/// `String::push` appends one scalar value to the end of the string.
pub assume_specification[ std::string::String::push ](text: &mut std::string::String, c: char)
    ensures
        final(text)@ == old(text)@.push(c),
;

/// The scalar values of `text`, in order.
pub fn chars_of(text: &str) -> (chars: Vec<char>)
    ensures
        chars@ == text@,
{
    let mut chars: Vec<char> = Vec::new();
    for c in it: text.chars()
        invariant
            chars@ == it.seq().take(it.index() as int),
            it.seq() == text@,
    {
        chars.push(c);
    }
    chars
}

/// `needle` stands in `hay` at index `at`.
pub open spec fn occurs_at(hay: Seq<char>, needle: Seq<char>, at: int) -> bool {
    &&& 0 <= at
    &&& at + needle.len() <= hay.len()
    &&& hay.subrange(at, at + needle.len()) == needle
}

/// The least index, not below `from`, at which `needle` stands in `hay`.
pub open spec fn first_occurrence_from(hay: Seq<char>, needle: Seq<char>, from: int) -> Option<int>
    decreases hay.len() + 1 - from,
{
    if from < 0 || from + needle.len() > hay.len() {
        None
    } else if occurs_at(hay, needle, from) {
        Some(from)
    } else {
        first_occurrence_from(hay, needle, from + 1)
    }
}

/// The least index at which `needle` stands in `hay`.
pub open spec fn first_occurrence(hay: Seq<char>, needle: Seq<char>) -> Option<int> {
    first_occurrence_from(hay, needle, 0)
}

/// The greatest index, not above `upto`, at which `needle` stands in `hay`.
pub open spec fn last_occurrence_upto(hay: Seq<char>, needle: Seq<char>, upto: int) -> Option<int>
    decreases upto + 1,
{
    if upto < 0 {
        None
    } else if occurs_at(hay, needle, upto) {
        Some(upto)
    } else {
        last_occurrence_upto(hay, needle, upto - 1)
    }
}

/// The greatest index at which `needle` stands in `hay`.
pub open spec fn last_occurrence(hay: Seq<char>, needle: Seq<char>) -> Option<int> {
    last_occurrence_upto(hay, needle, hay.len() - needle.len())
}

/// What `first_occurrence_from` finds is an occurrence, and none lies
/// between `from` and it; where it finds nothing there is none from `from` on.
pub proof fn lemma_first_occurrence_from(hay: Seq<char>, needle: Seq<char>, from: int)
    requires
        0 <= from,
    ensures
        match first_occurrence_from(hay, needle, from) {
            Some(at) => {
                &&& from <= at
                &&& occurs_at(hay, needle, at)
                &&& forall|k: int| from <= k < at ==> !occurs_at(hay, needle, k)
            },
            None => forall|k: int| from <= k ==> !occurs_at(hay, needle, k),
        },
    decreases hay.len() + 1 - from,
{
    if from + needle.len() <= hay.len() && !occurs_at(hay, needle, from) {
        lemma_first_occurrence_from(hay, needle, from + 1);
    }
}

/// What `last_occurrence_upto` finds is an occurrence, and none lies
/// between it and `upto`; where it finds nothing there is none up to `upto`.
pub proof fn lemma_last_occurrence_upto(hay: Seq<char>, needle: Seq<char>, upto: int)
    ensures
        match last_occurrence_upto(hay, needle, upto) {
            Some(at) => {
                &&& at <= upto
                &&& occurs_at(hay, needle, at)
                &&& forall|k: int| at < k <= upto ==> !occurs_at(hay, needle, k)
            },
            None => forall|k: int| k <= upto ==> !occurs_at(hay, needle, k),
        },
    decreases upto + 1,
{
    if upto >= 0 && !occurs_at(hay, needle, upto) {
        lemma_last_occurrence_upto(hay, needle, upto - 1);
    }
}

/// Whether `needle` stands in `hay` at index `at`.
pub fn matches_at(hay: &[char], needle: &[char], at: usize) -> (found: bool)
    ensures
        found == occurs_at(hay@, needle@, at as int),
{
    if needle.len() > hay.len() || at > hay.len() - needle.len() {
        return false;
    }
    let mut i: usize = 0;
    while i < needle.len()
        invariant
            i <= needle.len(),
            at + needle.len() <= hay.len(),
            forall|k: int| 0 <= k < i ==> hay@[at + k] == needle@[k],
        decreases needle.len() - i,
    {
        if hay[at + i] != needle[i] {
            assert(hay@.subrange(at as int, at + needle@.len())[i as int] != needle@[i as int]);
            return false;
        }
        i += 1;
    }
    assert(hay@.subrange(at as int, at + needle@.len()) =~= needle@);
    true
}

/// The least index at which `needle` stands in `hay`, if it stands anywhere.
#[verifier::loop_isolation(false)]
pub fn find_first(hay: &[char], needle: &[char]) -> (hit: Option<usize>)
    ensures
        match hit {
            Some(at) => first_occurrence(hay@, needle@) == Some(at as int),
            None => first_occurrence(hay@, needle@) is None,
        },
        match hit {
            Some(at) => occurs_at(hay@, needle@, at as int) && forall|k: int|
                0 <= k < at ==> !occurs_at(hay@, needle@, k),
            None => forall|k: int| !occurs_at(hay@, needle@, k),
        },
{
    proof {
        lemma_first_occurrence_from(hay@, needle@, 0);
    }
    if needle.len() > hay.len() {
        return None;
    }
    let last: usize = hay.len() - needle.len();
    let mut at: usize = 0;
    loop
        invariant
            last == hay.len() - needle.len(),
            at <= last,
            first_occurrence(hay@, needle@) == first_occurrence_from(hay@, needle@, at as int),
        decreases last - at,
    {
        if matches_at(hay, needle, at) {
            return Some(at);
        }
        if at == last {
            assert(first_occurrence_from(hay@, needle@, at + 1) is None);
            return None;
        }
        at += 1;
    }
}

/// The greatest index at which `needle` stands in `hay`, if it stands anywhere.
#[verifier::loop_isolation(false)]
pub fn find_last(hay: &[char], needle: &[char]) -> (hit: Option<usize>)
    ensures
        match hit {
            Some(at) => last_occurrence(hay@, needle@) == Some(at as int),
            None => last_occurrence(hay@, needle@) is None,
        },
        match hit {
            Some(at) => occurs_at(hay@, needle@, at as int) && forall|k: int|
                at < k ==> !occurs_at(hay@, needle@, k),
            None => forall|k: int| !occurs_at(hay@, needle@, k),
        },
{
    proof {
        lemma_last_occurrence_upto(hay@, needle@, hay@.len() - needle@.len());
    }
    if needle.len() > hay.len() {
        return None;
    }
    let mut at: usize = hay.len() - needle.len();
    loop
        invariant
            at <= hay.len() - needle.len(),
            last_occurrence(hay@, needle@) == last_occurrence_upto(hay@, needle@, at as int),
        decreases at,
    {
        if matches_at(hay, needle, at) {
            return Some(at);
        }
        if at == 0 {
            assert(last_occurrence_upto(hay@, needle@, -1) is None);
            return None;
        }
        at -= 1;
    }
}

/// The text of each string of `list`.
pub open spec fn words(list: Seq<String>) -> Seq<Seq<char>> {
    list.map_values(|word: String| word@)
}

/// The index of the first line feed at or behind index `from`; the length of
/// the text where none follows.
pub open spec fn line_end(text: Seq<char>, from: int) -> int
    decreases text.len() - from,
{
    if from < 0 || from >= text.len() {
        text.len() as int
    } else if text[from] == '\n' {
        from
    } else {
        line_end(text, from + 1)
    }
}

/// `line` without the carriage return at its end, if it has one.
pub open spec fn without_carriage_return(line: Seq<char>) -> Seq<char> {
    if line.len() > 0 && line.last() == '\r' {
        line.drop_last()
    } else {
        line
    }
}

/// The lines of `text` from index `from` on. A line ends at a line feed, or
/// at a carriage return and a line feed; neither belongs to the line. What
/// stands behind the last line feed is a line only if it is not empty.
pub open spec fn lines_from(text: Seq<char>, from: int) -> Seq<Seq<char>>
    decreases (if from < text.len() { text.len() - from } else { 0 }),
{
    if from < 0 || from >= text.len() {
        Seq::empty()
    } else {
        let end = line_end(text, from);
        if from <= end < text.len() {
            seq![without_carriage_return(text.subrange(from, end))] + lines_from(text, end + 1)
        } else {
            seq![text.subrange(from, text.len() as int)]
        }
    }
}

/// The lines of `text`.
pub open spec fn lines(text: Seq<char>) -> Seq<Seq<char>> {
    lines_from(text, 0)
}

/// `text` holds no line feed.
pub open spec fn single_line(text: Seq<char>) -> bool {
    forall|i: int| 0 <= i < text.len() ==> text[i] != '\n'
}

/// A line ends at or behind its start, within the text, and holds no line feed.
pub proof fn lemma_line_end(text: Seq<char>, from: int)
    requires
        0 <= from <= text.len(),
    ensures
        from <= line_end(text, from) <= text.len(),
        line_end(text, from) < text.len() ==> text[line_end(text, from)] == '\n',
        forall|i: int| from <= i < line_end(text, from) ==> text[i] != '\n',
    decreases text.len() - from,
{
    if from < text.len() && text[from] != '\n' {
        lemma_line_end(text, from + 1);
    }
}

/// No line of a text holds a line feed.
pub proof fn lemma_lines_single(text: Seq<char>, from: int)
    requires
        0 <= from,
    ensures
        forall|k: int|
            0 <= k < lines_from(text, from).len() ==> single_line(
                #[trigger] lines_from(text, from)[k],
            ),
    decreases (if from < text.len() { text.len() - from } else { 0 }),
{
    if from < text.len() {
        lemma_line_end(text, from);
        let end = line_end(text, from);
        let all = lines_from(text, from);
        if end < text.len() {
            lemma_lines_single(text, end + 1);
            let line = without_carriage_return(text.subrange(from, end));
            let rest = lines_from(text, end + 1);
            assert(single_line(line)) by {
                assert forall|i: int| 0 <= i < line.len() implies line[i] != '\n' by {
                    assert(line[i] == text[from + i]);
                }
            }
            assert(all == seq![line] + rest);
            assert forall|k: int| 0 <= k < all.len() implies single_line(#[trigger] all[k]) by {
                if k > 0 {
                    assert(all[k] == rest[k - 1]);
                }
            }
        } else {
            let line = text.subrange(from, text.len() as int);
            assert(single_line(line)) by {
                assert forall|i: int| 0 <= i < line.len() implies line[i] != '\n' by {
                    assert(line[i] == text[from + i]);
                }
            }
            assert(all == seq![line]);
        }
    }
}

/// Where no line feed stands from `from` up to `end` and one stands at
/// `end`, the line that starts at `from` ends at `end`.
pub proof fn lemma_line_end_at(text: Seq<char>, from: int, end: int)
    requires
        0 <= from <= end < text.len(),
        text[end] == '\n',
        forall|i: int| from <= i < end ==> text[i] != '\n',
    ensures
        line_end(text, from) == end,
    decreases end - from,
{
    if from < end {
        lemma_line_end_at(text, from + 1, end);
    }
}

/// Where a line ends does not depend on what stands before its start.
pub proof fn lemma_line_end_shift(before: Seq<char>, text: Seq<char>, from: int)
    requires
        0 <= from,
    ensures
        line_end(before + text, before.len() + from) == before.len() + line_end(text, from),
    decreases text.len() - from,
{
    let whole = before + text;
    if from < text.len() {
        assert(whole[before.len() + from] == text[from]);
        if text[from] != '\n' {
            lemma_line_end_shift(before, text, from + 1);
        }
    }
}

/// The lines from an index on do not depend on what stands before it.
pub proof fn lemma_lines_shift(before: Seq<char>, text: Seq<char>, from: int)
    requires
        0 <= from,
    ensures
        lines_from(before + text, before.len() + from) == lines_from(text, from),
    decreases (if from < text.len() { text.len() - from } else { 0 }),
{
    let whole = before + text;
    let gap = before.len() as int;
    if from < text.len() {
        lemma_line_end_shift(before, text, from);
        lemma_line_end(text, from);
        let end = line_end(text, from);
        if end < text.len() {
            assert(whole.subrange(gap + from, gap + end) =~= text.subrange(from, end));
            lemma_lines_shift(before, text, end + 1);
        } else {
            assert(whole.subrange(gap + from, whole.len() as int) =~= text.subrange(
                from,
                text.len() as int,
            ));
        }
    }
}

/// A text that starts with a line and its line feed has that line as its
/// first, and behind it the lines of the rest. The line holds no line feed
/// and does not end in a carriage return.
pub proof fn lemma_lines_first(line: Seq<char>, rest: Seq<char>)
    requires
        single_line(line),
        line.len() > 0 ==> line.last() != '\r',
    ensures
        lines(line + seq!['\n'] + rest) == seq![line] + lines(rest),
{
    let head = line + seq!['\n'];
    let text = head + rest;
    let end = line.len() as int;
    assert(text[end] == '\n');
    assert forall|i: int| 0 <= i < end implies text[i] != '\n' by {
        assert(text[i] == line[i]);
    }
    lemma_line_end_at(text, 0, end);
    assert(text.subrange(0, end) =~= line);
    lemma_lines_shift(head, rest, 0);
}

/// The scalar values of `chars` from index `from` up to index `to` as a string.
pub(crate) fn string_of(chars: &[char], from: usize, to: usize) -> (text: String)
    requires
        from <= to <= chars@.len(),
    ensures
        text@ == chars@.subrange(from as int, to as int),
{
    let mut text = String::new();
    let mut i = from;
    assert(text@ =~= chars@.subrange(from as int, i as int));
    while i < to
        invariant
            from <= i <= to <= chars@.len(),
            text@ == chars@.subrange(from as int, i as int),
        decreases to - i,
    {
        text.push(chars[i]);
        i += 1;
        assert(text@ =~= chars@.subrange(from as int, i as int));
    }
    text
}

/// The lines of `text`, each a string of its own.
pub fn split_lines(text: &str) -> (list: Vec<String>)
    ensures
        words(list@) == lines(text@),
{
    let chars = chars_of(text);
    let len = chars.len();
    let mut list: Vec<String> = Vec::new();
    let mut from: usize = 0;
    assert(words(list@) + lines_from(chars@, 0) =~= lines(chars@));
    while from < len
        invariant
            len == chars@.len(),
            from <= len,
            words(list@) + lines_from(chars@, from as int) == lines(chars@),
        decreases len - from,
    {
        let mut end = from;
        while end < len && chars[end] != '\n'
            invariant
                len == chars@.len(),
                from <= end <= len,
                line_end(chars@, from as int) == line_end(chars@, end as int),
            decreases len - end,
        {
            end += 1;
        }
        let ghost before = words(list@);
        let ghost rest = lines_from(chars@, from as int);
        if end < len {
            let stop = if end > from && chars[end - 1] == '\r' { end - 1 } else { end };
            let line = string_of(chars.as_slice(), from, stop);
            assert(line@ =~= without_carriage_return(chars@.subrange(from as int, end as int)));
            list.push(line);
            assert(words(list@) =~= before.push(line@));
            assert(words(list@) + lines_from(chars@, end + 1) =~= before + rest);
            from = end + 1;
        } else {
            let line = string_of(chars.as_slice(), from, len);
            list.push(line);
            assert(words(list@) =~= before.push(line@));
            assert(words(list@) + lines_from(chars@, len as int) =~= before + rest);
            from = len;
        }
    }
    assert(words(list@) + lines_from(chars@, from as int) =~= words(list@));
    list
}

} // verus!
