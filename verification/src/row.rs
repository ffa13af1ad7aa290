use crate::editor::SearchDirection;
use crate::filetype::{HighlightingOptions, HighlightingRules};
use crate::grapheme::{
    append_span, clusters_of, insert_before, lemma_located_bounds, lemma_located_occurs,
    lemma_partition_len, lemma_segments_partition, lemma_span_split, lemma_window_ends, locate,
    offset_of, remove_at, segments, span, texts, with_inserted, with_removed,
};
use crate::highlighting::Type;
use crate::matches::{found, lemma_overlaid_len, mark_matches, overlaid};
use crate::render::{render_clusters, rendered, Palette, PaletteView};
use crate::scan::{scan, scanned};
use crate::text::{chars_of, occurs_at};
use vstd::prelude::*;
use vstd::seq_lib::lemma_flatten_concat;
use vstd::utf8::encode_utf8;

verus! {

/// One line of a document: its text, one highlight class for each scalar
/// value as of the last scan, and the count of grapheme clusters that the
/// editing operations keep.
pub struct Row {
    content: String,
    highlighting: Vec<Type>,
    len: usize,
}

/// What a row holds, as plain mathematical values.
pub struct RowView {
    pub content: Seq<char>,
    pub highlighting: Seq<Type>,
    pub len: nat,
}

impl RowView {
    /// The kept count of clusters is no more than the text has scalar values.
    pub open spec fn wf(self) -> bool {
        self.len <= self.content.len()
    }

    /// A row made of `text`, not yet scanned.
    pub open spec fn of(text: Seq<char>) -> RowView {
        RowView { content: text, highlighting: Seq::empty(), len: segments(text).len() }
    }

    /// The grapheme clusters of the row's text.
    pub open spec fn clusters(self) -> Seq<Seq<char>> {
        segments(self.content)
    }

    /// The row after `c` went in at offset `at`: at the end where `at` is not
    /// below the kept count, else before the cluster at index `at`.
    pub open spec fn insert(self, at: int, c: char) -> RowView {
        let parts = self.clusters();
        if at >= self.len {
            RowView { content: self.content.push(c), len: self.len + 1, ..self }
        } else if at < parts.len() {
            RowView { content: with_inserted(parts, at, c), len: parts.len() + 1, ..self }
        } else {
            RowView { len: parts.len(), ..self }
        }
    }

    /// The row after the cluster at index `at` left it.
    pub open spec fn delete(self, at: int) -> RowView {
        let parts = self.clusters();
        if at >= self.len {
            self
        } else if at < parts.len() {
            RowView { content: with_removed(parts, at), len: (parts.len() - 1) as nat, ..self }
        } else {
            RowView { len: parts.len(), ..self }
        }
    }

    /// The row with the text of `other` behind its own.
    pub open spec fn append(self, other: RowView) -> RowView {
        RowView { content: self.content + other.content, len: self.len + other.len, ..self }
    }

    /// Where a search for `query` that starts at offset `at` finds it: the
    /// index of the cluster at which the first occurrence from `at` on starts
    /// (forward), or the last occurrence before `at` (backward).
    pub open spec fn find(self, query: Seq<char>, at: int, direction: SearchDirection) -> Option<int> {
        found(self.clusters(), self.len as int, query, at, direction)
    }

    /// The classes that a scan under `rules` gives the row, with the hits of
    /// the search term `word` marked over them where there is one.
    pub open spec fn highlight(self, rules: HighlightingRules, word: Option<Seq<char>>) -> Seq<Type> {
        let tags = scanned(self.content, rules);
        match word {
            Some(query) => overlaid(
                tags,
                self.clusters(),
                self.len as int,
                query,
                segments(query).len() as int,
                0,
            ),
            None => tags,
        }
    }

    /// What is printed for the clusters from index `start` up to index `end`.
    pub open spec fn render(self, start: int, end: int, palette: PaletteView) -> Seq<char> {
        rendered(self.clusters(), self.highlighting, palette, start, end)
    }

    /// What stays in a row that is split at offset `at`: the clusters before `at`.
    pub open spec fn split_head(self, at: int) -> RowView {
        let parts = self.clusters();
        RowView {
            content: span(parts, 0, at),
            len: if at < parts.len() { at as nat } else { parts.len() },
            ..self
        }
    }

    /// What leaves a row that is split at offset `at`: the clusters from `at` on.
    pub open spec fn split_tail(self, at: int) -> RowView {
        let parts = self.clusters();
        RowView {
            content: span(parts, at, parts.len() as int),
            highlighting: Seq::empty(),
            len: if at < parts.len() { (parts.len() - at) as nat } else { 0 },
        }
    }
}

/// Cutting a row at any offset and appending what left it to what stayed
/// gives back the row's text, and as kept count the number of its clusters.
pub proof fn lemma_split_then_append(row: RowView, at: int)
    requires
        0 <= at,
    ensures
        row.split_head(at).append(row.split_tail(at)).content == row.content,
        row.split_head(at).append(row.split_tail(at)).len == row.clusters().len(),
        row.split_head(at).append(row.split_tail(at)).highlighting == row.highlighting,
{
    lemma_segments_partition(row.content);
    lemma_span_split(row.clusters(), at);
}

/// What a search in a row finds is a place where the query stands: in the
/// row's text, `query` occurs where the cluster that was found starts, and
/// that cluster is one of those that the search looked at.
pub proof fn lemma_find_is_occurrence(
    row: RowView,
    query: Seq<char>,
    at: int,
    direction: SearchDirection,
)
    requires
        0 <= at,
    ensures
        row.find(query, at, direction) matches Some(index) ==> {
            &&& occurs_at(row.content, query, offset_of(row.clusters(), index))
            &&& index < row.len
            &&& index < row.clusters().len()
            &&& match direction {
                SearchDirection::Forward => at <= index,
                SearchDirection::Backward => index < at,
            }
        },
{
    lemma_segments_partition(row.content);
    lemma_located_occurs(row.clusters(), query, at, row.len as int, direction);
    lemma_located_occurs(row.clusters(), query, 0, at, direction);
    lemma_located_bounds(row.clusters(), query, at, row.len as int, direction);
    lemma_located_bounds(row.clusters(), query, 0, at, direction);
}

impl RowView {
    /// Taking out the cluster at index `at` leaves a cluster boundary in its
    /// place: the cluster was the last, or the text that is left is cut, up
    /// to where the cluster stood, into the same number of clusters as before.
    pub open spec fn boundary_outlasts(self, at: int) -> bool {
        let parts = self.clusters();
        let left = segments(with_removed(parts, at));
        ||| at + 1 == parts.len()
        ||| at < left.len() && offset_of(left, at) == offset_of(parts, at)
    }
}

/// Deleting the cluster at a valid offset and then inserting, at the same
/// offset, the character that the cluster was made of gives back the row's
/// text, wherever the deletion leaves a cluster boundary in its place.
pub proof fn lemma_delete_then_insert(row: RowView, at: int, c: char)
    requires
        0 <= at < row.len,
        at < row.clusters().len(),
        row.clusters()[at] == seq![c],
        row.boundary_outlasts(at),
    ensures
        row.delete(at).insert(at, c).content == row.content,
{
    let parts = row.clusters();
    let n = parts.len() as int;
    let head = parts.take(at);
    let gone = seq![parts[at]];
    let tail = parts.skip(at + 1);
    lemma_segments_partition(row.content);
    assert(parts =~= head + gone + tail);
    lemma_flatten_concat(head + gone, tail);
    lemma_flatten_concat(head, gone);
    gone.lemma_flatten_one_element();
    assert(row.content == head.flatten() + seq![c] + tail.flatten());
    let after = row.delete(at);
    assert(after.content == head.flatten() + tail.flatten());
    if at >= after.len {
        assert(at + 1 == n);
        assert(tail =~= Seq::<Seq<char>>::empty());
        assert(after.insert(at, c).content =~= row.content);
    } else {
        let left = segments(after.content);
        lemma_segments_partition(after.content);
        assert(at < left.len());
        assert(left =~= left.take(at) + left.skip(at));
        lemma_flatten_concat(left.take(at), left.skip(at));
        let front = left.take(at).flatten();
        let back = left.skip(at).flatten();
        assert(front + back == head.flatten() + tail.flatten());
        assert(front.len() == head.flatten().len());
        assert(front =~= head.flatten()) by {
            assert forall|i: int| 0 <= i < front.len() implies front[i] == head.flatten()[i] by {
                assert((front + back)[i] == front[i]);
                assert((head.flatten() + tail.flatten())[i] == head.flatten()[i]);
            }
        }
        assert(back =~= tail.flatten()) by {
            assert forall|i: int| 0 <= i < back.len() implies back[i] == tail.flatten()[i] by {
                assert((front + back)[front.len() + i] == back[i]);
                assert((head.flatten() + tail.flatten())[front.len() + i] == tail.flatten()[i]);
            }
        }
        assert(after.insert(at, c).content == front + seq![c] + back);
    }
}

/// A text has no more scalar values than its encoding has bytes.
pub proof fn lemma_encoding_len(text: Seq<char>)
    ensures
        text.len() <= encode_utf8(text).len(),
    decreases text.len(),
{
    if text.len() > 0 {
        lemma_encoding_len(text.drop_first());
    }
}

/// Shows that the number of scalar values of `text` is one that the machine
/// can hold: the length of its encoding is.
fn scalar_count_fits(text: &str)
    ensures
        text@.len() <= usize::MAX,
{
    let size = text.as_bytes().len();
    proof {
        lemma_encoding_len(text@);
    }
}

impl View for Row {
    type V = RowView;

    closed spec fn view(&self) -> RowView {
        RowView { content: self.content@, highlighting: self.highlighting@, len: self.len as nat }
    }
}

impl Default for Row {
    fn default() -> (row: Row)
        ensures
            row@ == RowView::of(Seq::empty()),
            row@.wf(),
    {
        proof {
            lemma_segments_partition(Seq::empty());
            lemma_partition_len(segments(Seq::empty()), Seq::empty());
        }
        Row { content: String::new(), highlighting: Vec::new(), len: 0 }
    }
}

impl From<&str> for Row {
    /// A row of the text `slice`, not yet scanned.
    fn from(slice: &str) -> (row: Row)
        ensures
            row@ == RowView::of(slice@),
            row@.wf(),
    {
        let parts = clusters_of(slice);
        proof {
            lemma_partition_len(texts(parts@), slice@);
        }
        Row { content: String::from_str(slice), highlighting: Vec::new(), len: parts.len() }
    }
}

/// What the conversion gives is stated of the row's view, in the `ensures` of
/// `from`: no spec function names the row itself.
impl vstd::std_specs::convert::FromSpecImpl<&str> for Row {
    open spec fn obeys_from_spec() -> bool {
        false
    }

    open spec fn from_spec(slice: &str) -> Row {
        arbitrary()
    }
}

impl Row {
    /// The kept count is never more than the text has scalar values, so that
    /// adding to it cannot overflow. Every assignment to a field keeps this.
    #[verifier::type_invariant]
    spec fn kept_count_fits(self) -> bool {
        self.len <= self.content@.len()
    }

    /// Takes the text out of the row to work on it; the row is left empty.
    fn take_content(&mut self) -> (content: String)
        ensures
            content@ == old(self)@.content,
            final(self)@ == (RowView { content: Seq::empty(), len: 0, ..old(self)@ }),
    {
        let mut content = String::new();
        self.len = 0;
        core::mem::swap(&mut self.content, &mut content);
        content
    }

    /// Puts `c` into the row at offset `at`, counted in grapheme clusters.
    pub fn insert(&mut self, at: usize, c: char)
        ensures
            final(self)@ == old(self)@.insert(at as int, c),
            final(self)@.wf(),
    {
        proof {
            use_type_invariant(&*self);
        }
        if at >= self.len {
            let len = self.len;
            let mut content = self.take_content();
            content.push(c);
            scalar_count_fits(content.as_str());
            self.content = content;
            self.len = len + 1;
        } else {
            let parts = clusters_of(self.content.as_str());
            let content = insert_before(parts.as_slice(), at, c);
            scalar_count_fits(content.as_str());
            proof {
                let pieces = texts(parts@);
                lemma_partition_len(pieces, self.content@);
                if at < parts.len() {
                    lemma_span_split(pieces, at as int);
                    lemma_window_ends(pieces, at as int);
                }
            }
            let len = if at < parts.len() { parts.len() + 1 } else { parts.len() };
            self.content = content;
            self.len = len;
        }
    }

    /// Takes the grapheme cluster at offset `at` out of the row.
    pub fn delete(&mut self, at: usize)
        ensures
            final(self)@ == old(self)@.delete(at as int),
            final(self)@.wf(),
    {
        proof {
            use_type_invariant(&*self);
        }
        if at < self.len {
            let parts = clusters_of(self.content.as_str());
            let content = remove_at(parts.as_slice(), at);
            proof {
                let pieces = texts(parts@);
                lemma_partition_len(pieces, self.content@);
                if at < parts.len() {
                    let kept = pieces.take(at as int) + pieces.skip(at + 1);
                    lemma_flatten_concat(pieces.take(at as int), pieces.skip(at + 1));
                    lemma_partition_len(kept, content@);
                }
            }
            let len = if at < parts.len() { parts.len() - 1 } else { parts.len() };
            self.len = len;
            self.content = content;
        }
    }

    /// Puts the text of `new` behind the row's own. The classes stay as they are.
    pub fn append(&mut self, new: &Row)
        ensures
            final(self)@ == old(self)@.append(new@),
            final(self)@.wf(),
    {
        proof {
            use_type_invariant(&*self);
            use_type_invariant(new);
        }
        let len = self.len;
        let mut content = self.take_content();
        content.append(new.content.as_str());
        scalar_count_fits(content.as_str());
        self.content = content;
        self.len = len + new.len;
    }

    /// Cuts the row at offset `at`: the clusters before `at` stay, those from
    /// `at` on leave as a row of their own that has not been scanned.
    pub fn split(&mut self, at: usize) -> (rest: Row)
        ensures
            final(self)@ == old(self)@.split_head(at as int),
            rest@ == old(self)@.split_tail(at as int),
            final(self)@.wf(),
            rest@.wf(),
    {
        let parts = clusters_of(self.content.as_str());
        let count = parts.len();
        let cut = if at < count { at } else { count };
        let mut head = String::new();
        append_span(&mut head, parts.as_slice(), 0, at);
        let mut tail = String::new();
        append_span(&mut tail, parts.as_slice(), at, count);
        proof {
            let pieces = texts(parts@);
            lemma_window_ends(pieces, at as int);
            assert(head@ =~= span(pieces, 0, at as int));
            assert(tail@ =~= span(pieces, at as int, count as int));
            lemma_partition_len(pieces, self.content@);
            lemma_partition_len(pieces.take(cut as int), head@);
            lemma_partition_len(pieces.skip(cut as int), tail@);
        }
        self.len = cut;
        self.content = head;
        Row { content: tail, highlighting: Vec::new(), len: count - cut }
    }

    /// Searches the row for `query` from offset `at` on, forward or backward.
    pub fn find(&self, query: &str, at: usize, direction: SearchDirection) -> (hit: Option<usize>)
        ensures
            match hit {
                Some(index) => self@.find(query@, at as int, direction) == Some(index as int),
                None => self@.find(query@, at as int, direction) is None,
            },
            hit matches Some(index) ==> index < self@.len && index < self@.clusters().len(),
            hit matches Some(index) ==> (match direction {
                SearchDirection::Forward => at <= index,
                SearchDirection::Backward => index < at,
            }),
    {
        if at > self.len || query.is_empty() {
            return None;
        }
        let parts = clusters_of(self.content.as_str());
        proof {
            lemma_located_bounds(texts(parts@), query@, at as int, self.len as int, direction);
            lemma_located_bounds(texts(parts@), query@, 0, at as int, direction);
        }
        match direction {
            SearchDirection::Forward => locate(parts.as_slice(), query, at, self.len, direction),
            SearchDirection::Backward => locate(parts.as_slice(), query, 0, at, direction),
        }
    }

    /// Scans the row anew under the rules `opts` and marks the hits of the
    /// search term `word`, where there is one.
    pub fn highlight(&mut self, opts: &HighlightingOptions, word: Option<&str>)
        ensures
            final(self)@ == (RowView {
                highlighting: old(self)@.highlight(
                    opts@,
                    match word {
                        Some(query) => Some(query@),
                        None => None,
                    },
                ),
                ..old(self)@
            }),
            final(self)@.highlighting.len() == old(self)@.content.len(),
    {
        proof {
            use_type_invariant(&*self);
        }
        let chars = chars_of(self.content.as_str());
        let mut tags = scan(chars.as_slice(), opts);
        if let Some(query) = word {
            let parts = clusters_of(self.content.as_str());
            let width = clusters_of(query).len();
            mark_matches(&mut tags, parts.as_slice(), self.len, query, width);
            proof {
                lemma_overlaid_len(
                    scanned(self.content@, opts@),
                    texts(parts@),
                    self.len as int,
                    query@,
                    width as int,
                    0,
                );
            }
        }
        self.highlighting = tags;
    }

    /// What is printed for the clusters from index `start` up to index `end`
    /// with the control sequences of `palette`.
    pub fn render_with(&self, start: usize, end: usize, palette: &Palette) -> (text: String)
        ensures
            text@ == self@.render(start as int, end as int, palette@),
    {
        let parts = clusters_of(self.content.as_str());
        render_clusters(parts.as_slice(), self.highlighting.as_slice(), start, end, palette)
    }

    /// What is printed for the clusters from index `start` up to index `end`
    /// with the control sequences of the terminal.
    pub fn render(&self, start: usize, end: usize) -> (text: String)
        ensures
            exists|palette: PaletteView|
                palette.of_terminal() && text@ == self@.render(start as int, end as int, palette),
    {
        let palette = Palette::terminal();
        self.render_with(start, end, &palette)
    }

    /// The count of grapheme clusters that the row keeps.
    pub fn len(&self) -> (len: usize)
        ensures
            len == self@.len,
    {
        self.len
    }

    /// Whether the row keeps the count 0.
    pub fn is_empty(&self) -> (empty: bool)
        ensures
            empty == (self@.len == 0),
    {
        self.len == 0
    }

    /// The row's text.
    pub fn text(&self) -> (text: &str)
        ensures
            text@ == self@.content,
    {
        self.content.as_str()
    }

    /// The class of each scalar value as of the last scan.
    pub fn highlighting(&self) -> (tags: &[Type])
        ensures
            tags@ == self@.highlighting,
    {
        self.highlighting.as_slice()
    }

    /// The row's text in UTF-8.
    pub fn as_bytes(&self) -> (bytes: &[u8])
        ensures
            bytes@ == encode_utf8(self@.content),
    {
        self.content.as_str().as_bytes()
    }
}

} // verus!
