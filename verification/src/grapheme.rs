use crate::editor::SearchDirection;
use crate::text::{
    chars_of, find_first, find_last, first_occurrence, last_occurrence,
    lemma_first_occurrence_from, lemma_last_occurrence_upto, occurs_at,
};
use unicode_segmentation::UnicodeSegmentation;
use vstd::prelude::*;
use vstd::seq_lib::lemma_flatten_concat;

verus! {

/// The extended grapheme clusters of `text`, in order, as Unicode's rules for
/// cluster boundaries cut it.
pub uninterp spec fn grapheme_clusters(text: Seq<char>) -> Seq<Seq<char>>;

/// The text of each string slice of `parts`.
pub open spec fn texts(parts: Seq<&str>) -> Seq<Seq<char>> {
    parts.map_values(|part: &str| part@)
}

/// `parts` cuts `text` into consecutive pieces, none of them empty.
pub open spec fn is_partition(parts: Seq<Seq<char>>, text: Seq<char>) -> bool {
    &&& parts.flatten() == text
    &&& forall|i: int| 0 <= i < parts.len() ==> (#[trigger] parts[i]).len() > 0
}

/// Calls `UnicodeSegmentation::graphemes` with extended clusters and collects
/// what the iterator yields. Trusted: the slices are the clusters of `text`,
/// and, as the iterator hands out one non-empty slice after the other from the
/// start of the string to its end, they cut `text` into consecutive pieces.
#[verifier::external_body]
fn graphemes<'a>(text: &'a str) -> (parts: Vec<&'a str>)
    ensures
        texts(parts@) == grapheme_clusters(text@),
        is_partition(texts(parts@), text@),
{
    text.graphemes(true).collect()
}

/// Every scalar value of `text` as a piece of its own.
pub open spec fn singletons(text: Seq<char>) -> Seq<Seq<char>> {
    Seq::new(text.len(), |i: int| seq![text[i]])
}

/// The pieces in which a row addresses `text`: its grapheme clusters.
///
/// The clusters of a text cut it into consecutive non-empty pieces. The
/// definition holds that of every text, so that what is proved of segments
/// needs no assumption about the clusters: a text that its clusters did not
/// cut so, which the segmentation never hands out, would count as cut into
/// its scalar values.
pub open spec fn segments(text: Seq<char>) -> Seq<Seq<char>> {
    if is_partition(grapheme_clusters(text), text) {
        grapheme_clusters(text)
    } else {
        singletons(text)
    }
}

/// Cutting a text into its scalar values is a partition of it.
pub proof fn lemma_singletons_partition(text: Seq<char>)
    ensures
        is_partition(singletons(text), text),
    decreases text.len(),
{
    let parts = singletons(text);
    if text.len() == 0 {
        assert(parts.flatten() =~= text);
    } else {
        lemma_singletons_partition(text.drop_last());
        assert(parts.drop_last() =~= singletons(text.drop_last()));
        assert(parts =~= parts.drop_last().push(seq![text.last()]));
        parts.drop_last().lemma_flatten_push(seq![text.last()]);
        assert(parts.flatten() =~= text);
    }
}

/// The segments of a text cut it into consecutive non-empty pieces.
pub proof fn lemma_segments_partition(text: Seq<char>)
    ensures
        is_partition(segments(text), text),
{
    if !is_partition(grapheme_clusters(text), text) {
        lemma_singletons_partition(text);
    }
}

/// A partition has no more pieces than its text has scalar values.
pub proof fn lemma_partition_len(parts: Seq<Seq<char>>, text: Seq<char>)
    requires
        is_partition(parts, text),
    ensures
        parts.len() <= text.len(),
    decreases parts.len(),
{
    if parts.len() > 0 {
        let rest = parts.drop_last();
        assert(parts =~= rest.push(parts.last()));
        rest.lemma_flatten_push(parts.last());
        lemma_partition_len(rest, rest.flatten());
    }
}

/// The grapheme clusters of `text`, each a slice of it.
pub fn clusters_of<'a>(text: &'a str) -> (parts: Vec<&'a str>)
    ensures
        texts(parts@) == segments(text@),
        is_partition(texts(parts@), text@),
{
    graphemes(text)
}

/// The pieces of `parts` from index `from` up to, not including, index `to`,
/// as far as there are any.
pub open spec fn window(parts: Seq<Seq<char>>, from: int, to: int) -> Seq<Seq<char>> {
    if 0 <= from < to && from < parts.len() {
        parts.subrange(from, if to < parts.len() { to } else { parts.len() as int })
    } else {
        Seq::empty()
    }
}

/// The text of the pieces of `parts` from index `from` up to index `to`.
pub open spec fn span(parts: Seq<Seq<char>>, from: int, to: int) -> Seq<char> {
    window(parts, from, to).flatten()
}

/// Appends to `out` the pieces of `parts` from index `from` up to index `to`.
pub fn append_span(out: &mut String, parts: &[&str], from: usize, to: usize)
    ensures
        final(out)@ == old(out)@ + span(texts(parts@), from as int, to as int),
{
    let n = parts.len();
    let end = if to < n { to } else { n };
    let ghost pieces = texts(parts@);
    if from >= end {
        assert(window(pieces, from as int, to as int) =~= Seq::empty());
        assert(out@ + Seq::<char>::empty() =~= out@);
        return;
    }
    let mut i = from;
    assert(pieces.subrange(from as int, i as int) =~= Seq::empty());
    assert(out@ + Seq::<char>::empty() =~= out@);
    while i < end
        invariant
            from <= i <= end <= n,
            n == parts@.len(),
            pieces == texts(parts@),
            out@ == old(out)@ + pieces.subrange(from as int, i as int).flatten(),
        decreases end - i,
    {
        proof {
            let done = pieces.subrange(from as int, i as int);
            assert(pieces.subrange(from as int, i + 1) =~= done.push(pieces[i as int]));
            done.lemma_flatten_push(pieces[i as int]);
        }
        out.append(parts[i]);
        i += 1;
    }
}

/// The text of `parts` with `c` put in before the piece at index `at`; the
/// text as it is where there is no such piece.
pub open spec fn with_inserted(parts: Seq<Seq<char>>, at: int, c: char) -> Seq<char> {
    if 0 <= at < parts.len() {
        parts.take(at).flatten() + seq![c] + parts.skip(at).flatten()
    } else {
        parts.flatten()
    }
}

/// The text of `parts` without the piece at index `at`; the text as it is
/// where there is no such piece.
pub open spec fn with_removed(parts: Seq<Seq<char>>, at: int) -> Seq<char> {
    if 0 <= at < parts.len() {
        parts.take(at).flatten() + parts.skip(at + 1).flatten()
    } else {
        parts.flatten()
    }
}

/// The window from the start up to `at` is the first `at` pieces, and the
/// window from `at` to the end is the rest, as far as there are that many.
pub proof fn lemma_window_ends(parts: Seq<Seq<char>>, at: int)
    requires
        0 <= at,
    ensures
        at <= parts.len() ==> window(parts, 0, at) == parts.take(at),
        at <= parts.len() ==> window(parts, at, parts.len() as int) == parts.skip(at),
        at >= parts.len() ==> window(parts, 0, at) == parts,
        at >= parts.len() ==> window(parts, at, parts.len() as int) == Seq::<Seq<char>>::empty(),
{
    let n = parts.len() as int;
    if at <= n {
        assert(window(parts, 0, at) =~= parts.take(at));
        assert(window(parts, at, n) =~= parts.skip(at));
    }
    if at >= n {
        assert(window(parts, 0, at) =~= parts);
        assert(window(parts, at, n) =~= Seq::<Seq<char>>::empty());
    }
}

/// The pieces before index `at` and those from it on make up the whole text.
pub proof fn lemma_span_split(parts: Seq<Seq<char>>, at: int)
    requires
        0 <= at,
    ensures
        span(parts, 0, at) + span(parts, at, parts.len() as int) == parts.flatten(),
{
    let n = parts.len() as int;
    let k = if at < n { at } else { n };
    lemma_window_ends(parts, at);
    assert(parts =~= parts.take(k) + parts.skip(k));
    lemma_flatten_concat(parts.take(k), parts.skip(k));
    assert(window(parts, 0, at) =~= parts.take(k));
    assert(window(parts, at, n) =~= parts.skip(k));
}

/// The text of `parts` with `c` put in before the piece at index `at`.
pub fn insert_before(parts: &[&str], at: usize, c: char) -> (text: String)
    ensures
        text@ == with_inserted(texts(parts@), at as int, c),
{
    let mut text = String::new();
    append_span(&mut text, parts, 0, at);
    if at < parts.len() {
        text.push(c);
    }
    append_span(&mut text, parts, at, parts.len());
    proof {
        let pieces = texts(parts@);
        lemma_window_ends(pieces, at as int);
        if at >= parts.len() {
            assert(text@ =~= pieces.flatten());
        }
    }
    text
}

/// The text of `parts` without the piece at index `at`.
pub fn remove_at(parts: &[&str], at: usize) -> (text: String)
    ensures
        text@ == with_removed(texts(parts@), at as int),
{
    let mut text = String::new();
    append_span(&mut text, parts, 0, at);
    if at < parts.len() {
        append_span(&mut text, parts, at + 1, parts.len());
    }
    proof {
        let pieces = texts(parts@);
        lemma_window_ends(pieces, at as int);
        if at < parts.len() {
            lemma_window_ends(pieces, at + 1);
        }
        assert(text@ =~= with_removed(pieces, at as int));
    }
    text
}

/// The number of scalar values in the pieces of `parts` before index `index`.
pub open spec fn offset_of(parts: Seq<Seq<char>>, index: int) -> int {
    parts.take(index).flatten().len() as int
}

/// The first index, not below `from`, of a piece of `parts` that starts
/// `offset` scalar values into their text.
pub open spec fn piece_at_offset(parts: Seq<Seq<char>>, offset: int, from: int) -> Option<int>
    decreases parts.len() - from,
{
    if from < 0 || from >= parts.len() {
        None
    } else if offset_of(parts, from) == offset {
        Some(from)
    } else {
        piece_at_offset(parts, offset, from + 1)
    }
}

/// Where `query` is found among the pieces of `parts` from index `from` up to
/// index `to`: the text of those pieces is searched for its first occurrence
/// (forward) or its last one (backward); the result is the index in `parts` of
/// the piece that starts where the occurrence starts, if a piece starts there.
pub open spec fn located(
    parts: Seq<Seq<char>>,
    query: Seq<char>,
    from: int,
    to: int,
    direction: SearchDirection,
) -> Option<int> {
    let searched = window(parts, from, to);
    let hit = match direction {
        SearchDirection::Forward => first_occurrence(searched.flatten(), query),
        SearchDirection::Backward => last_occurrence(searched.flatten(), query),
    };
    match hit {
        Some(offset) => match piece_at_offset(searched, offset, 0) {
            Some(index) => Some(from + index),
            None => None,
        },
        None => None,
    }
}

/// Later pieces start no earlier than earlier ones.
pub proof fn lemma_offset_monotonic(parts: Seq<Seq<char>>, i: int, j: int)
    requires
        0 <= i <= j <= parts.len(),
    ensures
        offset_of(parts, i) <= offset_of(parts, j),
        offset_of(parts, j) == offset_of(parts, i) + parts.subrange(i, j).flatten().len(),
{
    assert(parts.take(j) =~= parts.take(i) + parts.subrange(i, j));
    lemma_flatten_concat(parts.take(i), parts.subrange(i, j));
}

/// No piece from index `from` on starts at `offset` where the piece at `from`
/// already starts behind it.
pub proof fn lemma_no_piece_behind(parts: Seq<Seq<char>>, offset: int, from: int)
    requires
        0 <= from,
        from < parts.len() ==> offset_of(parts, from) > offset,
    ensures
        piece_at_offset(parts, offset, from) is None,
    decreases parts.len() - from,
{
    if from < parts.len() {
        if from + 1 < parts.len() {
            lemma_offset_monotonic(parts, from, from + 1);
        }
        lemma_no_piece_behind(parts, offset, from + 1);
    }
}

/// A piece found from index `from` on has an index that is not below `from`
/// and lies inside the pieces, and it starts at the offset asked for.
pub proof fn lemma_piece_at_offset_bounds(parts: Seq<Seq<char>>, offset: int, from: int)
    requires
        0 <= from,
    ensures
        piece_at_offset(parts, offset, from) matches Some(index) ==> from <= index < parts.len()
            && offset_of(parts, index) == offset,
    decreases parts.len() - from,
{
    if from < parts.len() {
        lemma_piece_at_offset_bounds(parts, offset, from + 1);
    }
}

/// What a search finds lies in the window that it looked at.
pub proof fn lemma_located_bounds(
    parts: Seq<Seq<char>>,
    query: Seq<char>,
    from: int,
    to: int,
    direction: SearchDirection,
)
    ensures
        located(parts, query, from, to, direction) matches Some(index) ==> 0 <= from <= index
            && index < to && index < parts.len(),
{
    let searched = window(parts, from, to);
    if let Some(index) = located(parts, query, from, to, direction) {
        assert forall|offset: int| true implies (#[trigger] piece_at_offset(searched, offset, 0)
            matches Some(i) ==> 0 <= i < searched.len()) by {
            lemma_piece_at_offset_bounds(searched, offset, 0);
        }
    }
}

/// What a search finds is a place where the query stands: in the text of
/// all the pieces, `query` occurs where the piece that was found starts.
pub proof fn lemma_located_occurs(
    parts: Seq<Seq<char>>,
    query: Seq<char>,
    from: int,
    to: int,
    direction: SearchDirection,
)
    ensures
        located(parts, query, from, to, direction) matches Some(index) ==> occurs_at(
            parts.flatten(),
            query,
            offset_of(parts, index),
        ),
{
    if let Some(index) = located(parts, query, from, to, direction) {
        let searched = window(parts, from, to);
        let text = searched.flatten();
        let hit = match direction {
            SearchDirection::Forward => first_occurrence(text, query),
            SearchDirection::Backward => last_occurrence(text, query),
        };
        let offset = hit->0;
        lemma_first_occurrence_from(text, query, 0);
        lemma_last_occurrence_upto(text, query, text.len() - query.len());
        assert(occurs_at(text, query, offset));
        lemma_piece_at_offset_bounds(searched, offset, 0);
        let j = index - from;
        assert(0 <= from < to && from < parts.len());
        let end = if to < parts.len() { to } else { parts.len() as int };
        let before = parts.take(from);
        let behind = parts.skip(end);
        assert(parts =~= before + searched + behind);
        lemma_flatten_concat(before + searched, behind);
        lemma_flatten_concat(before, searched);
        assert(parts.take(index) =~= before + searched.take(j));
        lemma_flatten_concat(before, searched.take(j));
        let start = before.flatten().len() as int;
        assert(offset_of(parts, index) == start + offset);
        assert(parts.flatten().subrange(start + offset, start + offset + query.len()) =~= text.subrange(
            offset,
            offset + query.len(),
        ));
    }
}

/// The index in `parts` of the first piece, among those from index `from` up
/// to index `to`, that starts `offset` scalar values behind the start of the
/// piece at `from`.
pub fn index_at_offset(parts: &[&str], from: usize, to: usize, offset: usize) -> (found: Option<usize>)
    ensures
        match found {
            Some(index) => piece_at_offset(
                window(texts(parts@), from as int, to as int),
                offset as int,
                0,
            ) == Some(index - from),
            None => piece_at_offset(window(texts(parts@), from as int, to as int), offset as int, 0)
                is None,
        },
{
    let end = if to < parts.len() { to } else { parts.len() };
    let ghost searched = window(texts(parts@), from as int, to as int);
    if from >= end {
        return None;
    }
    assert(searched =~= texts(parts@).subrange(from as int, end as int));
    let mut index = from;
    let mut passed: usize = 0;
    assert(searched.take(0) =~= Seq::<Seq<char>>::empty());
    while index < end
        invariant
            from <= index <= end <= parts@.len(),
            searched == texts(parts@).subrange(from as int, end as int),
            searched == window(texts(parts@), from as int, to as int),
            passed == offset_of(searched, index - from),
            passed <= offset,
            piece_at_offset(searched, offset as int, 0) == piece_at_offset(
                searched,
                offset as int,
                index - from,
            ),
        decreases end - index,
    {
        if passed == offset {
            return Some(index);
        }
        let width = parts[index].unicode_len();
        proof {
            let k = index - from;
            lemma_offset_monotonic(searched, k, k + 1);
            assert(searched.subrange(k, k + 1) =~= seq![searched[k]]);
            seq![searched[k]].lemma_flatten_one_element();
        }
        if width > offset - passed {
            proof {
                lemma_no_piece_behind(searched, offset as int, index - from + 1);
            }
            return None;
        }
        passed = passed + width;
        index += 1;
    }
    None
}

/// Searches the pieces of `parts` from index `from` up to index `to` for
/// `query` and gives the index of the piece at which it was found.
pub fn locate(
    parts: &[&str],
    query: &str,
    from: usize,
    to: usize,
    direction: SearchDirection,
) -> (found: Option<usize>)
    ensures
        match found {
            Some(index) => located(texts(parts@), query@, from as int, to as int, direction)
                == Some(index as int),
            None => located(texts(parts@), query@, from as int, to as int, direction) is None,
        },
{
    let mut searched = String::new();
    append_span(&mut searched, parts, from, to);
    let hay = chars_of(searched.as_str());
    let needle = chars_of(query);
    assert(hay@ =~= span(texts(parts@), from as int, to as int));
    let hit = match direction {
        SearchDirection::Forward => find_first(hay.as_slice(), needle.as_slice()),
        SearchDirection::Backward => find_last(hay.as_slice(), needle.as_slice()),
    };
    match hit {
        Some(offset) => index_at_offset(parts, from, to, offset),
        None => None,
    }
}

} // verus!
