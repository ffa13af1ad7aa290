use crate::editor::SearchDirection;
use crate::grapheme::{lemma_located_bounds, locate, located, texts};
use crate::highlighting::Type;
use vstd::prelude::*;

verus! {

/// Where a search for `query` that starts at offset `at` of a row finds it.
/// The row has the pieces `parts` and keeps the count `len`. A forward search
/// looks at the pieces from `at` up to `len`, a backward search at those
/// before `at`. An empty query and a start behind `len` find nothing.
pub open spec fn found(
    parts: Seq<Seq<char>>,
    len: int,
    query: Seq<char>,
    at: int,
    direction: SearchDirection,
) -> Option<int> {
    if at > len || query.len() == 0 {
        None
    } else {
        match direction {
            SearchDirection::Forward => located(parts, query, at, len, direction),
            SearchDirection::Backward => located(parts, query, 0, at, direction),
        }
    }
}

/// `tags` with the class of a search hit at every index from `from` up to,
/// not including, `to`.
pub open spec fn marked(tags: Seq<Type>, from: int, to: int) -> Seq<Type> {
    Seq::new(tags.len(), |i: int| if from <= i < to { Type::Match } else { tags[i] })
}

/// `tags` with every hit of `query` from offset `from` on marked: the row is
/// searched forward from `from`; a hit is marked `width` indices wide, and the
/// search goes on behind it. It ends where nothing more is found, or where the
/// end of a hit is no index that the machine can hold.
pub open spec fn overlaid(
    tags: Seq<Type>,
    parts: Seq<Seq<char>>,
    len: int,
    query: Seq<char>,
    width: int,
    from: int,
) -> Seq<Type>
    decreases (if from <= len { len - from + 1 } else { 0 }),
{
    if width <= 0 {
        tags
    } else {
        match found(parts, len, query, from, SearchDirection::Forward) {
            Some(hit) => if from <= hit && hit + width <= usize::MAX {
                overlaid(marked(tags, hit, hit + width), parts, len, query, width, hit + width)
            } else {
                tags
            },
            None => tags,
        }
    }
}

/// Marking hits keeps the number of classes.
pub proof fn lemma_overlaid_len(
    tags: Seq<Type>,
    parts: Seq<Seq<char>>,
    len: int,
    query: Seq<char>,
    width: int,
    from: int,
)
    ensures
        overlaid(tags, parts, len, query, width, from).len() == tags.len(),
    decreases (if from <= len { len - from + 1 } else { 0 }),
{
    if width > 0 {
        if let Some(hit) = found(parts, len, query, from, SearchDirection::Forward) {
            if from <= hit && hit + width <= usize::MAX {
                lemma_overlaid_len(marked(tags, hit, hit + width), parts, len, query, width, hit + width);
            }
        }
    }
}

/// Gives the class of a search hit to the indices of `tags` from `from` up
/// to, not including, `to`.
pub fn mark(tags: &mut Vec<Type>, from: usize, to: usize)
    ensures
        final(tags)@ == marked(old(tags)@, from as int, to as int),
{
    let end = if to < tags.len() { to } else { tags.len() };
    let mut i = from;
    assert(tags@ =~= marked(old(tags)@, from as int, from as int));
    while i < end
        invariant
            from <= i,
            i <= end || i == from,
            end <= tags@.len(),
            tags@.len() == old(tags)@.len(),
            end == (if to < tags@.len() { to as int } else { tags@.len() as int }),
            tags@ == marked(old(tags)@, from as int, i as int),
        decreases end - i,
    {
        tags.set(i, Type::Match);
        i += 1;
        assert(tags@ =~= marked(old(tags)@, from as int, i as int));
    }
    assert(tags@ =~= marked(old(tags)@, from as int, to as int));
}

/// Marks in `tags` every hit of `query` in a row that has the pieces `parts`
/// and keeps the count `len`; a hit is marked `width` indices wide.
pub fn mark_matches(tags: &mut Vec<Type>, parts: &[&str], len: usize, query: &str, width: usize)
    ensures
        final(tags)@ == overlaid(old(tags)@, texts(parts@), len as int, query@, width as int, 0),
{
    if width == 0 || query.is_empty() {
        return;
    }
    let ghost pieces = texts(parts@);
    let mut from: usize = 0;
    while from <= len
        invariant
            width > 0,
            query@.len() > 0,
            pieces == texts(parts@),
            overlaid(old(tags)@, pieces, len as int, query@, width as int, 0) == overlaid(
                tags@,
                pieces,
                len as int,
                query@,
                width as int,
                from as int,
            ),
        ensures
            tags@ == overlaid(old(tags)@, pieces, len as int, query@, width as int, 0),
        decreases (if from <= len { len + 1 - from } else { 0 }),
    {
        proof {
            lemma_located_bounds(pieces, query@, from as int, len as int, SearchDirection::Forward);
        }
        match locate(parts, query, from, len, SearchDirection::Forward) {
            Some(hit) => {
                if width > usize::MAX - hit {
                    break;
                }
                mark(tags, hit, hit + width);
                from = hit + width;
            },
            None => {
                break;
            },
        }
    }
}

} // verus!
