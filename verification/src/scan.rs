use crate::filetype::{HighlightingOptions, HighlightingRules};
use crate::highlighting::Type;
use crate::text::{chars_of, matches_at, occurs_at, words};
use vstd::prelude::*;

verus! {

/// `c` is one of the ASCII digits.
pub open spec fn is_digit(c: char) -> bool {
    '0' <= c <= '9'
}

/// `c` is an ASCII punctuation character.
pub open spec fn is_punctuation(c: char) -> bool {
    ||| '!' <= c <= '/'
    ||| ':' <= c <= '@'
    ||| '[' <= c <= '`'
    ||| '{' <= c <= '~'
}

/// `c` is an ASCII whitespace character: space, tab, line feed, form feed or
/// carriage return.
pub open spec fn is_whitespace(c: char) -> bool {
    c == ' ' || c == '\t' || c == '\n' || c == '\x0C' || c == '\r'
}

/// `c` may stand next to a number or a keyword: ASCII punctuation or whitespace.
pub open spec fn separates(c: char) -> bool {
    is_punctuation(c) || is_whitespace(c)
}

/// `c` may stand inside a number behind its first digit.
pub open spec fn is_number_part(c: char) -> bool {
    c == '.' || c == 'e' || c == '_' || is_digit(c)
}

/// `count` times the class `tag`.
pub open spec fn repeat(tag: Type, count: nat) -> Seq<Type> {
    Seq::new(count, |i: int| tag)
}

/// Index `index` is the first of the text, or the one before it holds a separator.
pub open spec fn follows_separator(chars: Seq<char>, index: int) -> bool {
    index == 0 || (0 < index <= chars.len() && separates(chars[index - 1]))
}

/// How many scalar values from index `from` on may stand inside a number.
pub open spec fn number_run(chars: Seq<char>, from: int) -> nat
    decreases chars.len() - from,
{
    if 0 <= from < chars.len() && is_number_part(chars[from]) {
        1 + number_run(chars, from + 1)
    } else {
        0
    }
}

/// The length of the number that starts at `index`; 0 where none starts there.
pub open spec fn number_len(chars: Seq<char>, index: int) -> nat {
    if 0 <= index < chars.len() && is_digit(chars[index]) && follows_separator(chars, index) {
        1 + number_run(chars, index + 1)
    } else {
        0
    }
}

/// How many scalar values there are from index `from` through the next
/// double quote, or to the end of the text where none follows.
pub open spec fn string_run(chars: Seq<char>, from: int) -> nat
    decreases chars.len() - from,
{
    if from < 0 || from >= chars.len() {
        0
    } else if chars[from] == '"' {
        1
    } else {
        1 + string_run(chars, from + 1)
    }
}

/// The length of the string literal that starts at `index`; 0 where none
/// starts there. A backslash does not protect a quote.
pub open spec fn string_len(chars: Seq<char>, index: int) -> nat {
    if 0 <= index < chars.len() && chars[index] == '"' {
        1 + string_run(chars, index + 1)
    } else {
        0
    }
}

/// The length of the character literal that starts at `index`: three scalar
/// values, or four where the second is a backslash; 0 where none starts there.
pub open spec fn character_len(chars: Seq<char>, index: int) -> nat {
    if 0 <= index && index + 1 < chars.len() && chars[index] == '\'' {
        let closing = if chars[index + 1] == '\\' { index + 3 } else { index + 2 };
        if closing < chars.len() && chars[closing] == '\'' {
            (closing - index + 1) as nat
        } else {
            0
        }
    } else {
        0
    }
}

/// The length of the comment that starts at `index`, which runs to the end of
/// the text; 0 where none starts there.
pub open spec fn comment_len(chars: Seq<char>, index: int) -> nat {
    if 0 <= index && index + 1 < chars.len() && chars[index] == '/' && chars[index + 1] == '/' {
        (chars.len() - index) as nat
    } else {
        0
    }
}

/// `word` stands at `index` and a separator or the end of the text follows it.
pub open spec fn keyword_at(chars: Seq<char>, index: int, word: Seq<char>) -> bool {
    &&& word.len() > 0
    &&& occurs_at(chars, word, index)
    &&& index + word.len() < chars.len() ==> separates(chars[index + word.len()])
}

/// The length of the first word of `list`, from index `from` of the list on,
/// that is a keyword at `index`; 0 where none is.
pub open spec fn first_keyword_len(
    chars: Seq<char>,
    index: int,
    list: Seq<Seq<char>>,
    from: int,
) -> nat
    decreases list.len() - from,
{
    if from < 0 || from >= list.len() {
        0
    } else if keyword_at(chars, index, list[from]) {
        list[from].len()
    } else {
        first_keyword_len(chars, index, list, from + 1)
    }
}

/// The length of the keyword of `list` that starts at `index`; 0 where none
/// starts there.
pub open spec fn keyword_len(chars: Seq<char>, index: int, list: Seq<Seq<char>>) -> nat {
    if 0 <= index < chars.len() && follows_separator(chars, index) {
        first_keyword_len(chars, index, list, 0)
    } else {
        0
    }
}

/// The token that starts at `index`: its class and its length. The kinds are
/// tried in a fixed order and the first that matches wins; where none does, the
/// token is the one scalar value at `index`, of the plain class.
pub open spec fn token_at(chars: Seq<char>, rules: HighlightingRules, index: int) -> (Type, nat) {
    if rules.numbers && number_len(chars, index) > 0 {
        (Type::Number, number_len(chars, index))
    } else if rules.strings && string_len(chars, index) > 0 {
        (Type::String, string_len(chars, index))
    } else if rules.characters && character_len(chars, index) > 0 {
        (Type::Character, character_len(chars, index))
    } else if rules.comments && comment_len(chars, index) > 0 {
        (Type::Comment, comment_len(chars, index))
    } else if keyword_len(chars, index, rules.primary_keywords) > 0 {
        (Type::PrimaryKeywords, keyword_len(chars, index, rules.primary_keywords))
    } else if keyword_len(chars, index, rules.secondary_keywords) > 0 {
        (Type::SecondaryKeywords, keyword_len(chars, index, rules.secondary_keywords))
    } else {
        (Type::Plain, 1)
    }
}

/// The classes of the scalar values of `chars` from `index` on.
pub open spec fn scan_from(chars: Seq<char>, rules: HighlightingRules, index: int) -> Seq<Type>
    decreases (if index < chars.len() { chars.len() - index } else { 0 }),
{
    if index < 0 || index >= chars.len() {
        Seq::empty()
    } else {
        let (tag, len) = token_at(chars, rules, index);
        repeat(tag, len) + scan_from(chars, rules, index + len)
    }
}

/// The class of every scalar value of `chars` under `rules`.
pub open spec fn scanned(chars: Seq<char>, rules: HighlightingRules) -> Seq<Type> {
    scan_from(chars, rules, 0)
}

/// A run inside a number ends within the text.
pub proof fn lemma_number_run_bound(chars: Seq<char>, from: int)
    requires
        0 <= from <= chars.len(),
    ensures
        from + number_run(chars, from) <= chars.len(),
    decreases chars.len() - from,
{
    if from < chars.len() && is_number_part(chars[from]) {
        lemma_number_run_bound(chars, from + 1);
    }
}

/// A string literal ends within the text.
pub proof fn lemma_string_run_bound(chars: Seq<char>, from: int)
    requires
        0 <= from <= chars.len(),
    ensures
        from + string_run(chars, from) <= chars.len(),
    decreases chars.len() - from,
{
    if from < chars.len() && chars[from] != '"' {
        lemma_string_run_bound(chars, from + 1);
    }
}

/// A keyword ends within the text.
pub proof fn lemma_first_keyword_bound(
    chars: Seq<char>,
    index: int,
    list: Seq<Seq<char>>,
    from: int,
)
    requires
        0 <= index <= chars.len(),
    ensures
        index + first_keyword_len(chars, index, list, from) <= chars.len(),
    decreases list.len() - from,
{
    if 0 <= from < list.len() && !keyword_at(chars, index, list[from]) {
        lemma_first_keyword_bound(chars, index, list, from + 1);
    }
}

/// Every token has at least one scalar value and ends within the text.
pub proof fn lemma_token_bound(chars: Seq<char>, rules: HighlightingRules, index: int)
    requires
        0 <= index < chars.len(),
    ensures
        1 <= token_at(chars, rules, index).1,
        index + token_at(chars, rules, index).1 <= chars.len(),
{
    lemma_number_run_bound(chars, index + 1);
    lemma_string_run_bound(chars, index + 1);
    lemma_first_keyword_bound(chars, index, rules.primary_keywords, 0);
    lemma_first_keyword_bound(chars, index, rules.secondary_keywords, 0);
}

/// A scan gives one class to each scalar value.
pub proof fn lemma_scan_len(chars: Seq<char>, rules: HighlightingRules, index: int)
    requires
        0 <= index <= chars.len(),
    ensures
        scan_from(chars, rules, index).len() == chars.len() - index,
    decreases chars.len() - index,
{
    if index < chars.len() {
        lemma_token_bound(chars, rules, index);
        lemma_scan_len(chars, rules, index + token_at(chars, rules, index).1);
    }
}

/// Whether `c` is an ASCII punctuation or whitespace character.
pub fn is_separator(c: char) -> (separator: bool)
    ensures
        separator == separates(c),
{
    (c >= '!' && c <= '/') || (c >= ':' && c <= '@') || (c >= '[' && c <= '`') || (c >= '{' && c
        <= '~') || c == ' ' || c == '\t' || c == '\n' || c == '\x0C' || c == '\r'
}

fn is_ascii_digit(c: char) -> (digit: bool)
    ensures
        digit == is_digit(c),
{
    c >= '0' && c <= '9'
}

/// Appends the class `tag` to `tags` `count` times.
pub fn push_tags(tags: &mut Vec<Type>, tag: Type, count: usize)
    ensures
        final(tags)@ == old(tags)@ + repeat(tag, count as nat),
{
    let mut done: usize = 0;
    assert(tags@ =~= old(tags)@ + repeat(tag, 0));
    while done < count
        invariant
            done <= count,
            tags@ == old(tags)@ + repeat(tag, done as nat),
        decreases count - done,
    {
        tags.push(tag);
        done += 1;
        assert(tags@ =~= old(tags)@ + repeat(tag, done as nat));
    }
}

/// Marks the number that starts at `index`, if numbers are marked and one
/// starts there, and moves `index` behind it.
pub fn highlight_numbers(
    tags: &mut Vec<Type>,
    index: &mut usize,
    opts: &HighlightingOptions,
    chars: &[char],
) -> (matched: bool)
    ensures
        matched == (opts@.numbers && number_len(chars@, *old(index) as int) > 0),
        matched ==> final(tags)@ == old(tags)@ + repeat(
            Type::Number,
            number_len(chars@, *old(index) as int),
        ) && *final(index) == *old(index) + number_len(chars@, *old(index) as int),
        !matched ==> final(tags)@ == old(tags)@ && *final(index) == *old(index),
{
    if !opts.numbers() || *index >= chars.len() || !is_ascii_digit(chars[*index]) {
        return false;
    }
    if *index > 0 && !is_separator(chars[*index - 1]) {
        return false;
    }
    let start: usize = *index;
    tags.push(Type::Number);
    *index += 1;
    assert(tags@ =~= old(tags)@ + repeat(Type::Number, 1));
    while *index < chars.len() && (chars[*index] == '.' || chars[*index] == 'e' || chars[*index]
        == '_' || is_ascii_digit(chars[*index]))
        invariant
            start < *index <= chars.len(),
            tags@ == old(tags)@ + repeat(Type::Number, (*index - start) as nat),
            number_run(chars@, start + 1) == (*index - start - 1) + number_run(
                chars@,
                *index as int,
            ),
        decreases chars.len() - *index,
    {
        tags.push(Type::Number);
        *index += 1;
        assert(tags@ =~= old(tags)@ + repeat(Type::Number, (*index - start) as nat));
    }
    true
}

/// Marks the string literal that starts at `index`, if string literals are
/// marked and one starts there, and moves `index` behind it.
pub fn highlight_strings(
    tags: &mut Vec<Type>,
    index: &mut usize,
    opts: &HighlightingOptions,
    chars: &[char],
) -> (matched: bool)
    ensures
        matched == (opts@.strings && string_len(chars@, *old(index) as int) > 0),
        matched ==> final(tags)@ == old(tags)@ + repeat(
            Type::String,
            string_len(chars@, *old(index) as int),
        ) && *final(index) == *old(index) + string_len(chars@, *old(index) as int),
        !matched ==> final(tags)@ == old(tags)@ && *final(index) == *old(index),
{
    if !opts.strings() || *index >= chars.len() || chars[*index] != '"' {
        return false;
    }
    let start: usize = *index;
    let mut closed = false;
    tags.push(Type::String);
    *index += 1;
    assert(tags@ =~= old(tags)@ + repeat(Type::String, 1));
    while !closed && *index < chars.len()
        invariant
            start < *index <= chars.len(),
            tags@ == old(tags)@ + repeat(Type::String, (*index - start) as nat),
            !closed ==> string_run(chars@, start + 1) == (*index - start - 1) + string_run(
                chars@,
                *index as int,
            ),
            closed ==> string_run(chars@, start + 1) == *index - start - 1,
        decreases chars.len() - *index + (if closed { 0int } else { 1int }),
    {
        closed = chars[*index] == '"';
        tags.push(Type::String);
        *index += 1;
        assert(tags@ =~= old(tags)@ + repeat(Type::String, (*index - start) as nat));
    }
    true
}

/// Marks the character literal that starts at `index`, if character literals
/// are marked and one starts there, and moves `index` behind it.
pub fn highlight_char(
    tags: &mut Vec<Type>,
    index: &mut usize,
    opts: &HighlightingOptions,
    chars: &[char],
) -> (matched: bool)
    ensures
        matched == (opts@.characters && character_len(chars@, *old(index) as int) > 0),
        matched ==> final(tags)@ == old(tags)@ + repeat(
            Type::Character,
            character_len(chars@, *old(index) as int),
        ) && *final(index) == *old(index) + character_len(chars@, *old(index) as int),
        !matched ==> final(tags)@ == old(tags)@ && *final(index) == *old(index),
{
    if !opts.characters() || *index >= chars.len() || chars[*index] != '\'' {
        return false;
    }
    let left: usize = chars.len() - *index;
    if left < 2 {
        return false;
    }
    let closing: usize = if chars[*index + 1] == '\\' { 3 } else { 2 };
    if closing >= left || chars[*index + closing] != '\'' {
        return false;
    }
    push_tags(tags, Type::Character, closing + 1);
    *index += closing + 1;
    true
}

/// Marks the comment that starts at `index`, if comments are marked and one
/// starts there, and moves `index` to the end of the text.
pub fn highlight_comments(
    tags: &mut Vec<Type>,
    index: &mut usize,
    opts: &HighlightingOptions,
    chars: &[char],
) -> (matched: bool)
    ensures
        matched == (opts@.comments && comment_len(chars@, *old(index) as int) > 0),
        matched ==> final(tags)@ == old(tags)@ + repeat(
            Type::Comment,
            comment_len(chars@, *old(index) as int),
        ) && *final(index) == *old(index) + comment_len(chars@, *old(index) as int),
        !matched ==> final(tags)@ == old(tags)@ && *final(index) == *old(index),
{
    if !opts.comments() || *index >= chars.len() || chars[*index] != '/' {
        return false;
    }
    if chars.len() - *index < 2 || chars[*index + 1] != '/' {
        return false;
    }
    push_tags(tags, Type::Comment, chars.len() - *index);
    *index = chars.len();
    true
}

/// Marks `substring` with the class `hl_type` if it stands at `index`, and
/// moves `index` behind it.
pub fn highlight_substring(
    tags: &mut Vec<Type>,
    index: &mut usize,
    substring: &str,
    chars: &[char],
    hl_type: Type,
) -> (matched: bool)
    ensures
        matched == (substring@.len() > 0 && occurs_at(chars@, substring@, *old(index) as int)),
        matched ==> final(tags)@ == old(tags)@ + repeat(hl_type, substring@.len())
            && *final(index) == *old(index) + substring@.len(),
        !matched ==> final(tags)@ == old(tags)@ && *final(index) == *old(index),
{
    let word = chars_of(substring);
    if word.len() == 0 || !matches_at(chars, word.as_slice(), *index) {
        return false;
    }
    proof {
        broadcast use vstd::slice::axiom_spec_len;

        assert(chars@.len() == vstd::slice::spec_slice_len(chars));
    }
    push_tags(tags, hl_type, word.len());
    *index += word.len();
    true
}

/// Marks with the class `hl_type` the first word of `keywords` that is a
/// keyword at `index`, and moves `index` behind it.
pub fn highlight_keywords(
    tags: &mut Vec<Type>,
    index: &mut usize,
    chars: &[char],
    keywords: &[String],
    hl_type: Type,
) -> (matched: bool)
    ensures
        matched == (keyword_len(chars@, *old(index) as int, words(keywords@)) > 0),
        matched ==> final(tags)@ == old(tags)@ + repeat(
            hl_type,
            keyword_len(chars@, *old(index) as int, words(keywords@)),
        ) && *final(index) == *old(index) + keyword_len(
            chars@,
            *old(index) as int,
            words(keywords@),
        ),
        !matched ==> final(tags)@ == old(tags)@ && *final(index) == *old(index),
{
    if *index >= chars.len() {
        return false;
    }
    if *index > 0 && !is_separator(chars[*index - 1]) {
        return false;
    }
    let ghost list = words(keywords@);
    let ghost at = *index as int;
    let mut k: usize = 0;
    while k < keywords.len()
        invariant
            k <= keywords@.len(),
            list == words(keywords@),
            at == *index,
            *index == *old(index),
            *index < chars@.len(),
            follows_separator(chars@, at),
            tags@ == old(tags)@,
            first_keyword_len(chars@, at, list, 0) == first_keyword_len(chars@, at, list, k as int),
        decreases keywords.len() - k,
    {
        let word = keywords[k].as_str();
        let width = word.unicode_len();
        assert(list[k as int] == word@);
        let followed = width < chars.len() - *index;
        if followed && !is_separator(chars[*index + width]) {
        } else if highlight_substring(tags, index, word, chars, hl_type) {
            return true;
        }
        k += 1;
    }
    false
}

/// Marks the primary keyword that starts at `index`, if one starts there.
pub fn highlight_primary_keywords(
    tags: &mut Vec<Type>,
    index: &mut usize,
    opts: &HighlightingOptions,
    chars: &[char],
) -> (matched: bool)
    ensures
        matched == (keyword_len(chars@, *old(index) as int, opts@.primary_keywords) > 0),
        matched ==> final(tags)@ == old(tags)@ + repeat(
            Type::PrimaryKeywords,
            keyword_len(chars@, *old(index) as int, opts@.primary_keywords),
        ) && *final(index) == *old(index) + keyword_len(
            chars@,
            *old(index) as int,
            opts@.primary_keywords,
        ),
        !matched ==> final(tags)@ == old(tags)@ && *final(index) == *old(index),
{
    highlight_keywords(
        tags,
        index,
        chars,
        opts.primary_keywords().as_slice(),
        Type::PrimaryKeywords,
    )
}

/// Marks the secondary keyword that starts at `index`, if one starts there.
pub fn highlight_secondary_keywords(
    tags: &mut Vec<Type>,
    index: &mut usize,
    opts: &HighlightingOptions,
    chars: &[char],
) -> (matched: bool)
    ensures
        matched == (keyword_len(chars@, *old(index) as int, opts@.secondary_keywords) > 0),
        matched ==> final(tags)@ == old(tags)@ + repeat(
            Type::SecondaryKeywords,
            keyword_len(chars@, *old(index) as int, opts@.secondary_keywords),
        ) && *final(index) == *old(index) + keyword_len(
            chars@,
            *old(index) as int,
            opts@.secondary_keywords,
        ),
        !matched ==> final(tags)@ == old(tags)@ && *final(index) == *old(index),
{
    highlight_keywords(
        tags,
        index,
        chars,
        opts.secondary_keywords().as_slice(),
        Type::SecondaryKeywords,
    )
}

/// The class of every scalar value of `chars` under the rules `opts`.
pub fn scan(chars: &[char], opts: &HighlightingOptions) -> (tags: Vec<Type>)
    ensures
        tags@ == scanned(chars@, opts@),
        tags@.len() == chars@.len(),
{
    let mut tags: Vec<Type> = Vec::new();
    let mut index: usize = 0;
    assert(tags@ + scan_from(chars@, opts@, 0) =~= scanned(chars@, opts@));
    while index < chars.len()
        invariant
            index <= chars@.len(),
            tags@ + scan_from(chars@, opts@, index as int) == scanned(chars@, opts@),
        decreases chars.len() - index,
    {
        let ghost before = tags@;
        let ghost token = token_at(chars@, opts@, index as int);
        let ghost rest = scan_from(chars@, opts@, index + token.1);
        proof {
            lemma_token_bound(chars@, opts@, index as int);
            assert(before + (repeat(token.0, token.1) + rest) =~= (before + repeat(
                token.0,
                token.1,
            )) + rest);
        }
        if highlight_numbers(&mut tags, &mut index, opts, chars) {
        } else if highlight_strings(&mut tags, &mut index, opts, chars) {
        } else if highlight_char(&mut tags, &mut index, opts, chars) {
        } else if highlight_comments(&mut tags, &mut index, opts, chars) {
        } else if highlight_primary_keywords(&mut tags, &mut index, opts, chars) {
        } else if highlight_secondary_keywords(&mut tags, &mut index, opts, chars) {
        } else {
            tags.push(Type::Plain);
            index += 1;
            assert(tags@ =~= before + repeat(Type::Plain, 1));
        }
    }
    proof {
        lemma_scan_len(chars@, opts@, 0);
        assert(tags@ + scan_from(chars@, opts@, index as int) =~= tags@);
    }
    tags
}

} // verus!
