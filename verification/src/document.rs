use crate::editor::{Position, SearchDirection};
use crate::filetype::{FileType, FileTypeView, HighlightingRules};
use crate::grapheme::{lemma_segments_partition, lemma_span_split};
use crate::row::{Row, RowView};
use crate::text::{
    lemma_lines_first, lemma_lines_single, lines, single_line, split_lines, words,
};
use vstd::prelude::*;
use vstd::seq_lib::lemma_flatten_concat;

verus! {

impl RowView {
    /// The row with its classes scanned anew under `rules`, no search term marked.
    pub open spec fn rescanned(self, rules: HighlightingRules) -> RowView {
        RowView { highlighting: self.highlight(rules, None), ..self }
    }

    /// What a document asks of each of its rows: the kept count fits, the
    /// text holds no line feed and every scalar value has its class.
    pub open spec fn in_document(self) -> bool {
        &&& self.wf()
        &&& single_line(self.content)
        &&& self.highlighting.len() == self.content.len()
    }
}

/// The text of a file as rows: one for each of its lines.
pub struct Document {
    rows: Vec<Row>,
    pub filename: Option<String>,
    is_dirty: bool,
    file_type: FileType,
}

/// What a document holds, as plain mathematical values.
pub struct DocumentView {
    pub rows: Seq<RowView>,
    pub filename: Option<Seq<char>>,
    pub dirty: bool,
    pub file_type: FileTypeView,
}

/// The text of `rows`, each followed by a line feed.
pub open spec fn file_text(rows: Seq<RowView>) -> Seq<char>
    decreases rows.len(),
{
    if rows.len() == 0 {
        Seq::empty()
    } else {
        file_text(rows.drop_last()) + rows.last().content + seq!['\n']
    }
}

impl DocumentView {
    /// Every row is as a document asks.
    pub open spec fn wf(self) -> bool {
        forall|i: int| 0 <= i < self.rows.len() ==> (#[trigger] self.rows[i]).in_document()
    }

    /// A document without rows, file name or changes.
    pub open spec fn empty() -> DocumentView {
        DocumentView {
            rows: Seq::empty(),
            filename: None,
            dirty: false,
            file_type: FileTypeView::unknown(),
        }
    }

    /// The document that the text `contents` of the file `filename` makes:
    /// one row for each line, scanned under the rules of the file's profile.
    pub open spec fn loaded(filename: Seq<char>, contents: Seq<char>) -> DocumentView {
        let file_type = FileTypeView::of(filename);
        DocumentView {
            rows: lines(contents).map_values(
                |line: Seq<char>| RowView::of(line).rescanned(file_type.rules),
            ),
            filename: Some(filename),
            dirty: false,
            file_type,
        }
    }

    /// The text of a file that holds the document: every row's text with a
    /// line feed behind it, the last row's too.
    pub open spec fn contents(self) -> Seq<char> {
        file_text(self.rows)
    }

    /// The document once it has been written to its file: the profile is
    /// that of the file's name, every row is scanned anew under its rules, and
    /// no change is left to save. Without a file name nothing happens.
    pub open spec fn saved(self) -> DocumentView {
        match self.filename {
            Some(name) => (DocumentView {
                dirty: false,
                file_type: FileTypeView::of(name),
                ..self
            }).highlight(None),
            None => self,
        }
    }

    /// The document after a line break went in at `at`: nothing happens
    /// behind the row after the last; an empty row is added where `at` is in
    /// the row after the last; else the row at `at.y` is cut at `at.x` and
    /// what leaves it becomes the next row.
    pub open spec fn insert_newline(self, at: Position) -> DocumentView {
        let rules = self.file_type.rules;
        if at.y > self.rows.len() {
            self
        } else if at.y == self.rows.len() {
            DocumentView { rows: self.rows.push(RowView::of(Seq::empty())), ..self }
        } else {
            let row = self.rows[at.y as int];
            DocumentView {
                rows: self.rows.update(at.y as int, row.split_head(at.x as int).rescanned(rules)).insert(
                    at.y + 1,
                    row.split_tail(at.x as int).rescanned(rules),
                ),
                ..self
            }
        }
    }

    /// The document after `c` went in at `at`. It counts as changed. A line
    /// feed breaks the line; another character goes into the row at `at.y`, or
    /// into a new last row where there is no such row.
    pub open spec fn insert(self, at: Position, c: char) -> DocumentView {
        let rules = self.file_type.rules;
        let changed = DocumentView { dirty: true, ..self };
        if c == '\n' {
            changed.insert_newline(at)
        } else if at.y >= self.rows.len() {
            DocumentView {
                rows: self.rows.push(RowView::of(Seq::empty()).insert(0, c).rescanned(rules)),
                ..changed
            }
        } else {
            DocumentView {
                rows: self.rows.update(
                    at.y as int,
                    self.rows[at.y as int].insert(at.x as int, c).rescanned(rules),
                ),
                ..changed
            }
        }
    }

    /// The document after a deletion at `at`. Behind the last row nothing
    /// happens. At the end of a row that has a next one, the next row is
    /// joined to it; else the cluster at `at.x` leaves the row.
    pub open spec fn delete(self, at: Position) -> DocumentView {
        let rules = self.file_type.rules;
        if at.y >= self.rows.len() {
            self
        } else {
            let row = self.rows[at.y as int];
            if at.x == row.len && at.y + 1 < self.rows.len() {
                DocumentView {
                    rows: self.rows.update(
                        at.y as int,
                        row.append(self.rows[at.y + 1]).rescanned(rules),
                    ).remove(at.y + 1),
                    dirty: true,
                    ..self
                }
            } else {
                DocumentView {
                    rows: self.rows.update(at.y as int, row.delete(at.x as int).rescanned(rules)),
                    dirty: true,
                    ..self
                }
            }
        }
    }

    /// The document with every row scanned anew and the hits of `word` marked.
    pub open spec fn highlight(self, word: Option<Seq<char>>) -> DocumentView {
        let rules = self.file_type.rules;
        DocumentView {
            rows: Seq::new(
                self.rows.len(),
                |i: int| RowView { highlighting: self.rows[i].highlight(rules, word), ..self.rows[i] },
            ),
            ..self
        }
    }

    /// Where a forward search finds `query`: in row `y` from offset `x` on,
    /// else in the rows behind it from their start.
    pub open spec fn find_forward(self, query: Seq<char>, y: int, x: int) -> Option<Position>
        decreases self.rows.len() - y,
    {
        if y < 0 || y >= self.rows.len() {
            None
        } else {
            match self.rows[y].find(query, x, SearchDirection::Forward) {
                Some(hit) => Some(Position { x: hit as usize, y: y as usize }),
                None => self.find_forward(query, y + 1, 0),
            }
        }
    }

    /// Where a backward search finds `query`: in row `y` before offset `x`,
    /// else in the rows before it from their end.
    pub open spec fn find_backward(self, query: Seq<char>, y: int, x: int) -> Option<Position>
        decreases y,
    {
        if y < 0 || y >= self.rows.len() {
            None
        } else {
            match self.rows[y].find(query, x, SearchDirection::Backward) {
                Some(hit) => Some(Position { x: hit as usize, y: y as usize }),
                None => if y == 0 {
                    None
                } else {
                    self.find_backward(query, y - 1, self.rows[y - 1].len as int)
                },
            }
        }
    }

    /// Where a search from `at` finds `query`. It does not go round from the
    /// last row to the first, nor from the first to the last.
    pub open spec fn find(self, query: Seq<char>, at: Position, direction: SearchDirection) -> Option<
        Position,
    > {
        match direction {
            SearchDirection::Forward => self.find_forward(query, at.y as int, at.x as int),
            SearchDirection::Backward => self.find_backward(query, at.y as int, at.x as int),
        }
    }
}

/// Putting a character that is no line feed into a row leaves it a single line.
pub proof fn lemma_insert_single_line(row: RowView, at: int, c: char)
    requires
        single_line(row.content),
        c != '\n',
    ensures
        single_line(row.insert(at, c).content),
{
    let parts = row.clusters();
    lemma_segments_partition(row.content);
    if at < row.len && 0 <= at < parts.len() {
        lemma_flatten_concat(parts.take(at), parts.skip(at));
        assert(parts =~= parts.take(at) + parts.skip(at));
        let head = parts.take(at).flatten();
        let tail = parts.skip(at).flatten();
        let after = row.insert(at, c).content;
        assert(after == head + seq![c] + tail);
        assert forall|i: int| 0 <= i < after.len() implies after[i] != '\n' by {
            if i < head.len() {
                assert(after[i] == row.content[i]);
            } else if i > head.len() {
                assert(after[i] == row.content[i - 1]);
            }
        }
    }
}

/// Taking a cluster out of a row leaves it a single line.
pub proof fn lemma_delete_single_line(row: RowView, at: int)
    requires
        single_line(row.content),
    ensures
        single_line(row.delete(at).content),
{
    let parts = row.clusters();
    lemma_segments_partition(row.content);
    if at < row.len && 0 <= at < parts.len() {
        let head = parts.take(at);
        let gone = seq![parts[at]];
        let tail = parts.skip(at + 1);
        assert(parts =~= head + gone + tail);
        lemma_flatten_concat(head + gone, tail);
        lemma_flatten_concat(head, gone);
        gone.lemma_flatten_one_element();
        let after = row.delete(at).content;
        assert(after == head.flatten() + tail.flatten());
        assert(row.content == head.flatten() + parts[at] + tail.flatten());
        assert forall|i: int| 0 <= i < after.len() implies after[i] != '\n' by {
            if i < head.flatten().len() {
                assert(after[i] == row.content[i]);
            } else {
                assert(after[i] == row.content[i + parts[at].len()]);
            }
        }
    }
}

/// Both halves of a row that is cut are single lines.
pub proof fn lemma_split_single_line(row: RowView, at: int)
    requires
        single_line(row.content),
        0 <= at,
    ensures
        single_line(row.split_head(at).content),
        single_line(row.split_tail(at).content),
{
    let parts = row.clusters();
    lemma_segments_partition(row.content);
    lemma_span_split(parts, at);
    let head = row.split_head(at).content;
    let tail = row.split_tail(at).content;
    assert(row.content == head + tail);
    assert forall|i: int| 0 <= i < head.len() implies head[i] != '\n' by {
        assert(head[i] == row.content[i]);
    }
    assert forall|i: int| 0 <= i < tail.len() implies tail[i] != '\n' by {
        assert(tail[i] == row.content[head.len() + i]);
    }
}

/// The text of the rows of a file starts with the first row and its line feed.
pub proof fn lemma_file_text_first(rows: Seq<RowView>)
    requires
        rows.len() > 0,
    ensures
        file_text(rows) == rows.first().content + seq!['\n'] + file_text(rows.drop_first()),
    decreases rows.len(),
{
    if rows.len() == 1 {
        assert(rows.drop_last() =~= Seq::<RowView>::empty());
        assert(rows.drop_first() =~= Seq::<RowView>::empty());
        assert(file_text(rows) =~= rows.first().content + seq!['\n'] + file_text(
            rows.drop_first(),
        ));
    } else {
        let front = rows.drop_last();
        let back = rows.drop_first();
        lemma_file_text_first(front);
        assert(front.drop_first() =~= back.drop_last());
        assert(front.first() == rows.first());
        assert(back.last() == rows.last());
        assert(file_text(rows) == file_text(front) + rows.last().content + seq!['\n']);
        assert(file_text(back) == file_text(back.drop_last()) + rows.last().content + seq![
            '\n',
        ]);
        assert(file_text(rows) =~= rows.first().content + seq!['\n'] + file_text(back));
    }
}

/// Reading back the text that holds a document gives its rows again: the
/// lines of that text are the texts of the rows, as long as every row is a
/// single line that does not end in a carriage return.
pub proof fn lemma_contents_round_trip(rows: Seq<RowView>)
    requires
        forall|i: int| 0 <= i < rows.len() ==> single_line(#[trigger] rows[i].content),
        forall|i: int|
            0 <= i < rows.len() && rows[i].content.len() > 0 ==> (
            #[trigger] rows[i].content).last() != '\r',
    ensures
        lines(file_text(rows)) == rows.map_values(|row: RowView| row.content),
    decreases rows.len(),
{
    let texts = rows.map_values(|row: RowView| row.content);
    if rows.len() == 0 {
        assert(lines(file_text(rows)) =~= texts);
    } else {
        let rest = rows.drop_first();
        lemma_file_text_first(rows);
        assert(single_line(rows[0].content));
        lemma_lines_first(rows.first().content, file_text(rest));
        assert forall|i: int| 0 <= i < rest.len() implies single_line(
            #[trigger] rest[i].content,
        ) by {
            assert(rest[i] == rows[i + 1]);
        }
        assert forall|i: int| 0 <= i < rest.len() && rest[i].content.len() > 0 implies (
        #[trigger] rest[i].content).last() != '\r' by {
            assert(rest[i] == rows[i + 1]);
        }
        lemma_contents_round_trip(rest);
        assert(texts =~= seq![rows.first().content] + rest.map_values(
            |row: RowView| row.content,
        ));
    }
}

impl DocumentView {
    /// No row ends in a carriage return.
    pub open spec fn ends_clean(self) -> bool {
        forall|i: int|
            0 <= i < self.rows.len() && self.rows[i].content.len() > 0 ==> (
            #[trigger] self.rows[i].content).last() != '\r'
    }

    /// Every row keeps as its count the number of its clusters.
    pub open spec fn counts_in_step(self) -> bool {
        forall|i: int|
            0 <= i < self.rows.len() ==> (#[trigger] self.rows[i]).len
                == self.rows[i].clusters().len()
    }
}

/// Saving a document and loading what was written gives the rows back: the
/// loaded document has the texts of the saved one, row by row, and neither
/// has changes left to save. Where every row keeps the number of its clusters
/// as its count, the two documents are equal. No row may end in a carriage
/// return: loading would take it for a part of the line's end.
pub proof fn lemma_save_then_load(document: DocumentView, name: Seq<char>)
    requires
        document.wf(),
        document.ends_clean(),
        document.filename == Some(name),
    ensures
        !document.saved().dirty,
        !DocumentView::loaded(name, document.contents()).dirty,
        DocumentView::loaded(name, document.contents()).rows.len() == document.rows.len(),
        forall|i: int|
            0 <= i < document.rows.len() ==> (#[trigger] DocumentView::loaded(
                name,
                document.contents(),
            ).rows[i]).content == document.rows[i].content,
        document.counts_in_step() ==> DocumentView::loaded(name, document.contents())
            == document.saved(),
{
    lemma_contents_round_trip(document.rows);
    let loaded = DocumentView::loaded(name, document.contents());
    assert(loaded.rows.len() == document.rows.len());
    if document.counts_in_step() {
        assert(loaded.rows =~= document.saved().rows);
    }
}

/// The views of the rows of `rows`.
pub open spec fn row_views(rows: Seq<Row>) -> Seq<RowView> {
    rows.map_values(|row: Row| row@)
}

impl View for Document {
    type V = DocumentView;

    closed spec fn view(&self) -> DocumentView {
        DocumentView {
            rows: row_views(self.rows@),
            filename: match self.filename {
                Some(name) => Some(name@),
                None => None,
            },
            dirty: self.is_dirty,
            file_type: self.file_type@,
        }
    }
}

impl Default for Document {
    fn default() -> (document: Document)
        ensures
            document@ == DocumentView::empty(),
            document@.wf(),
    {
        let document = Document {
            rows: Vec::new(),
            filename: None,
            is_dirty: false,
            file_type: FileType::default(),
        };
        assert(row_views(document.rows@) =~= Seq::empty());
        document
    }
}

impl Document {
    /// The document of the file `filename`, whose text is `contents`.
    pub fn from_contents(filename: &str, contents: &str) -> (document: Document)
        ensures
            document@ == DocumentView::loaded(filename@, contents@),
            document@.wf(),
    {
        let file_type = FileType::from(filename);
        let list = split_lines(contents);
        let ghost rules = file_type@.rules;
        let ghost expected = DocumentView::loaded(filename@, contents@).rows;
        let mut rows: Vec<Row> = Vec::new();
        let mut i: usize = 0;
        proof {
            lemma_lines_single(contents@, 0);
        }
        while i < list.len()
            invariant
                i <= list@.len(),
                rules == file_type@.rules,
                words(list@) == lines(contents@),
                forall|k: int|
                    0 <= k < list@.len() ==> single_line(#[trigger] lines(contents@)[k]),
                rows@.len() == i,
                forall|k: int|
                    0 <= k < i ==> (#[trigger] rows@[k])@ == RowView::of(
                        lines(contents@)[k],
                    ).rescanned(rules),
                forall|k: int| 0 <= k < i ==> (#[trigger] rows@[k])@.in_document(),
            decreases list@.len() - i,
        {
            assert(words(list@)[i as int] == list@[i as int]@);
            let mut row = Row::from(list[i].as_str());
            row.highlight(file_type.highlighting_options(), None);
            rows.push(row);
            i += 1;
        }
        let document = Document {
            rows,
            filename: Some(String::from_str(filename)),
            is_dirty: false,
            file_type,
        };
        assert(row_views(document.rows@) =~= expected);
        document
    }

    /// The text of a file that holds the document.
    pub fn contents(&self) -> (text: String)
        ensures
            text@ == self@.contents(),
    {
        let mut text = String::new();
        let mut i: usize = 0;
        assert(row_views(self.rows@).take(0) =~= Seq::empty());
        while i < self.rows.len()
            invariant
                i <= self.rows@.len(),
                text@ == file_text(row_views(self.rows@).take(i as int)),
            decreases self.rows@.len() - i,
        {
            proof {
                let done = row_views(self.rows@).take(i + 1);
                assert(done.drop_last() =~= row_views(self.rows@).take(i as int));
                assert(done.last() == self.rows@[i as int]@);
            }
            text.append(self.rows[i].text());
            text.push('\n');
            i += 1;
        }
        assert(row_views(self.rows@).take(i as int) =~= row_views(self.rows@));
        text
    }

    /// Records that the document has been written to its file.
    pub fn mark_saved(&mut self)
        ensures
            final(self)@ == old(self)@.saved(),
            old(self)@.wf() ==> final(self)@.wf(),
    {
        let file_type = match &self.filename {
            Some(name) => FileType::from(name.as_str()),
            None => {
                return;
            },
        };
        self.file_type = file_type;
        self.is_dirty = false;
        self.highlight(None);
    }

    /// Puts `c` into the document at `at`.
    pub fn insert(&mut self, at: &Position, c: char)
        ensures
            final(self)@ == old(self)@.insert(*at, c),
            old(self)@.wf() ==> final(self)@.wf(),
    {
        self.is_dirty = true;
        if c == '\n' {
            self.insert_newline(at);
            return;
        }
        if at.y >= self.rows.len() {
            let mut row = Row::default();
            row.insert(0, c);
            row.highlight(self.file_type.highlighting_options(), None);
            proof {
                lemma_insert_single_line(RowView::of(Seq::empty()), 0, c);
            }
            self.rows.push(row);
            assert(row_views(self.rows@) =~= row_views(old(self).rows@).push(row@));
        } else {
            let ghost before = self.rows@[at.y as int]@;
            proof {
                if old(self)@.wf() {
                    lemma_insert_single_line(before, at.x as int, c);
                }
            }
            self.rows[at.y].insert(at.x, c);
            self.rows[at.y].highlight(self.file_type.highlighting_options(), None);
            assert(row_views(self.rows@) =~= row_views(old(self).rows@).update(
                at.y as int,
                self.rows@[at.y as int]@,
            ));
        }
    }

    /// Breaks the line at `at`.
    pub fn insert_newline(&mut self, at: &Position)
        ensures
            final(self)@ == old(self)@.insert_newline(*at),
            old(self)@.wf() ==> final(self)@.wf(),
    {
        let len = self.rows.len();
        if at.y > len {
            return;
        }
        if at.y == len {
            let row = Row::default();
            self.rows.push(row);
            assert(row_views(self.rows@) =~= row_views(old(self).rows@).push(row@));
            return;
        }
        let ghost before = self.rows@[at.y as int]@;
        proof {
            if old(self)@.wf() {
                lemma_split_single_line(before, at.x as int);
            }
        }
        let mut new_row = self.rows[at.y].split(at.x);
        self.rows[at.y].highlight(self.file_type.highlighting_options(), None);
        new_row.highlight(self.file_type.highlighting_options(), None);
        let ghost head = self.rows@[at.y as int]@;
        self.rows.insert(at.y + 1, new_row);
        assert(row_views(self.rows@) =~= row_views(old(self).rows@).update(at.y as int, head).insert(
            at.y + 1,
            new_row@,
        ));
    }

    /// Deletes at `at`: the cluster there, or the line break at the end of the row.
    pub fn delete(&mut self, at: &Position)
        ensures
            final(self)@ == old(self)@.delete(*at),
            old(self)@.wf() ==> final(self)@.wf(),
    {
        let len = self.rows.len();
        if at.y >= len {
            return;
        }
        self.is_dirty = true;
        let ghost before = self.rows@[at.y as int]@;
        if at.x == self.rows[at.y].len() && at.y + 1 < len {
            let next_row = self.rows.remove(at.y + 1);
            assert(next_row@ == old(self)@.rows[at.y + 1]);
            proof {
                let joined = before.append(next_row@).content;
                if old(self)@.wf() {
                    assert forall|i: int| 0 <= i < joined.len() implies joined[i] != '\n' by {
                        if i < before.content.len() {
                            assert(joined[i] == before.content[i]);
                        } else {
                            assert(joined[i] == next_row@.content[i - before.content.len()]);
                        }
                    }
                }
            }
            self.rows[at.y].append(&next_row);
            self.rows[at.y].highlight(self.file_type.highlighting_options(), None);
            assert(row_views(self.rows@) =~= row_views(old(self).rows@).update(
                at.y as int,
                self.rows@[at.y as int]@,
            ).remove(at.y + 1));
        } else {
            proof {
                if old(self)@.wf() {
                    lemma_delete_single_line(before, at.x as int);
                }
            }
            self.rows[at.y].delete(at.x);
            self.rows[at.y].highlight(self.file_type.highlighting_options(), None);
            assert(row_views(self.rows@) =~= row_views(old(self).rows@).update(
                at.y as int,
                self.rows@[at.y as int]@,
            ));
        }
    }

    /// Scans every row anew and marks the hits of the search term `word`,
    /// where there is one.
    pub fn highlight(&mut self, word: Option<&str>)
        ensures
            final(self)@ == old(self)@.highlight(
                match word {
                    Some(query) => Some(query@),
                    None => None,
                },
            ),
            old(self)@.wf() ==> final(self)@.wf(),
    {
        let ghost term: Option<Seq<char>> = match word {
            Some(query) => Some(query@),
            None => None,
        };
        let ghost rules = self.file_type@.rules;
        let mut i: usize = 0;
        while i < self.rows.len()
            invariant
                i <= self.rows@.len(),
                self.rows@.len() == old(self).rows@.len(),
                self.filename == old(self).filename,
                self.is_dirty == old(self).is_dirty,
                self.file_type == old(self).file_type,
                rules == self.file_type@.rules,
                term == (match word {
                    Some(query) => Some(query@),
                    None => None,
                }),
                forall|k: int|
                    0 <= k < i ==> (#[trigger] self.rows@[k])@ == (RowView {
                        highlighting: old(self).rows@[k]@.highlight(rules, term),
                        ..old(self).rows@[k]@
                    }),
                forall|k: int|
                    0 <= k < i ==> (#[trigger] self.rows@[k])@.highlighting.len() == old(
                        self,
                    ).rows@[k]@.content.len(),
                forall|k: int| i <= k < self.rows@.len() ==> self.rows@[k] == old(self).rows@[k],
            decreases self.rows@.len() - i,
        {
            self.rows[i].highlight(self.file_type.highlighting_options(), word);
            i += 1;
        }
        assert(row_views(self.rows@) =~= old(self)@.highlight(term).rows);
    }

    /// Searches the document for `query` from `at` on, forward or backward.
    pub fn find(&self, query: &str, at: &Position, direction: SearchDirection) -> (hit: Option<Position>)
        ensures
            hit == self@.find(query@, *at, direction),
    {
        if at.y >= self.rows.len() {
            return None;
        }
        let count = self.rows.len();
        let mut y: usize = at.y;
        let mut x: usize = at.x;
        loop
            invariant
                count == self.rows@.len(),
                y < count,
                match direction {
                    SearchDirection::Forward => self@.find(query@, *at, direction)
                        == self@.find_forward(query@, y as int, x as int),
                    SearchDirection::Backward => self@.find(query@, *at, direction)
                        == self@.find_backward(query@, y as int, x as int),
                },
            decreases
                    (match direction {
                        SearchDirection::Forward => self.rows@.len() - y,
                        SearchDirection::Backward => y as int,
                    }),
        {
            if let Some(hit) = self.rows[y].find(query, x, direction) {
                return Some(Position { x: hit, y });
            }
            match direction {
                SearchDirection::Forward => {
                    if y + 1 >= count {
                        assert(self@.find_forward(query@, y + 1, 0) is None);
                        return None;
                    }
                    y = y + 1;
                    x = 0;
                },
                SearchDirection::Backward => {
                    if y == 0 {
                        return None;
                    }
                    y = y - 1;
                    x = self.rows[y].len();
                },
            }
        }
    }

    /// The row at index `index`, if the document has one there.
    pub fn row(&self, index: usize) -> (row: Option<&Row>)
        ensures
            index < self@.rows.len() ==> row.is_some() && row.unwrap()@ == self@.rows[index as int],
            index >= self@.rows.len() ==> row.is_none(),
    {
        if index < self.rows.len() {
            Some(&self.rows[index])
        } else {
            None
        }
    }

    /// The name of the file that the document belongs to, if it has one.
    pub fn file_name(&self) -> (name: Option<&str>)
        ensures
            match name {
                Some(text) => self@.filename == Some(text@),
                None => self@.filename.is_none(),
            },
    {
        match &self.filename {
            Some(name) => Some(name.as_str()),
            None => None,
        }
    }

    /// Gives the document the file name `name`. Its language profile stays as
    /// it is until the document is saved.
    pub fn set_file_name(&mut self, name: &str)
        ensures
            final(self)@ == (DocumentView { filename: Some(name@), ..old(self)@ }),
    {
        self.filename = Some(String::from_str(name));
    }

    /// The name of the document's language profile.
    pub fn file_type(&self) -> (name: String)
        ensures
            name@ == self@.file_type.name,
    {
        self.file_type.name()
    }

    /// The number of rows.
    pub fn len(&self) -> (len: usize)
        ensures
            len == self@.rows.len(),
    {
        self.rows.len()
    }

    /// Whether the document has no row.
    pub fn is_empty(&self) -> (empty: bool)
        ensures
            empty == (self@.rows.len() == 0),
    {
        self.rows.len() == 0
    }

    /// Whether the document has changes that have not been saved.
    pub fn is_dirty(&self) -> (dirty: bool)
        ensures
            dirty == self@.dirty,
    {
        self.is_dirty
    }
}

} // verus!
