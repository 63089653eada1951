//! The line buffer: an ordered sequence of rows with a backing path and a
//! dirty flag.
//!
//! Every mutation takes a `(row, col)` position and is total: out-of-range
//! positions are silently clamped or ignored, never rejected. All editing
//! reduces to four primitives — character insert, character delete, row
//! split (newline insertion) and row join (newline deletion).

use vstd::prelude::*;

use crate::editor::Position;
use crate::row::{clamp_col, lemma_insert_delete_inverse, line_delete, line_insert, line_wf, Row};

verus! {

/// The rows of a row sequence, as plain character sequences.
pub open spec fn rows_view(rows: Seq<Row>) -> Seq<Seq<char>> {
    Seq::new(rows.len(), |i: int| rows[i]@)
}

/// Document content after inserting a newline at `(row, col)`: a position
/// past the last append point is ignored; the append point grows the
/// document by an empty row; otherwise the target row is split at `col`
/// (clamped) and the tail becomes the next row. This is the sole way the
/// document grows by a row.
pub open spec fn doc_insert_newline(doc: Seq<Seq<char>>, row: int, col: int) -> Seq<Seq<char>> {
    if row > doc.len() {
        doc
    } else if row == doc.len() {
        doc.push(Seq::empty())
    } else {
        let cut = clamp_col(col, doc[row].len() as int);
        doc.update(row, doc[row].take(cut)).insert(row + 1, doc[row].skip(cut))
    }
}

/// Document content after inserting character `c` at `(row, col)`: a newline
/// delegates to `doc_insert_newline`; a position past the last append point
/// is ignored; the append point grows the document by the one-character row;
/// otherwise `c` goes into the target row at `col` (clamped).
pub open spec fn doc_insert(doc: Seq<Seq<char>>, row: int, col: int, c: char) -> Seq<Seq<char>> {
    if c == '\n' {
        doc_insert_newline(doc, row, col)
    } else if row > doc.len() {
        doc
    } else if row == doc.len() {
        doc.push(seq![c])
    } else {
        doc.update(row, line_insert(doc[row], col, c))
    }
}

/// Document content after deleting at `(row, col)`: a row out of range is
/// ignored; at the exact end of a row with a following row the two rows are
/// joined (the "virtual newline" is deleted); otherwise the character at
/// `col` is removed from the target row (a no-op when `col` is out of range).
pub open spec fn doc_delete(doc: Seq<Seq<char>>, row: int, col: int) -> Seq<Seq<char>> {
    if row >= doc.len() {
        doc
    } else if col == doc[row].len() && row + 1 < doc.len() {
        doc.update(row, doc[row] + doc[row + 1]).remove(row + 1)
    } else {
        doc.update(row, line_delete(doc[row], col))
    }
}

/// The document serialized for persistence: every row followed by exactly
/// one newline.
pub open spec fn serialize(rows: Seq<Seq<char>>) -> Seq<char>
    decreases rows.len(),
{
    if rows.len() == 0 {
        Seq::empty()
    } else {
        rows[0] + seq!['\n'] + serialize(rows.drop_first())
    }
}

/// Index of the first newline in `s`, or `s.len()` when there is none.
pub open spec fn find_nl(s: Seq<char>) -> nat
    decreases s.len(),
{
    if s.len() == 0 {
        0
    } else if s[0] == '\n' {
        0
    } else {
        1 + find_nl(s.drop_first())
    }
}

/// Text split into newline-delimited records: a final partial record, if
/// any, counts as a row; empty text holds no rows.
pub open spec fn parse_lines(s: Seq<char>) -> Seq<Seq<char>>
    decreases s.len(),
{
    if s.len() == 0 {
        Seq::empty()
    } else {
        let i = find_nl(s) as int;
        if i >= s.len() {
            seq![s]
        } else {
            seq![s.take(i)] + parse_lines(s.skip(i + 1))
        }
    }
}

/// An in-memory text document: display order is row order is file order.
pub struct Document {
    rows: Vec<Row>,
    path: Option<String>,
    dirty: bool,
}

impl View for Document {
    type V = Seq<Seq<char>>;

    closed spec fn view(&self) -> Seq<Seq<char>> {
        rows_view(self.rows@)
    }
}

impl Document {
    /// Whether some mutation succeeded since the document was built.
    pub closed spec fn spec_dirty(self) -> bool {
        self.dirty
    }

    /// The backing file path, when the document has one.
    pub closed spec fn spec_path(self) -> Option<Seq<char>> {
        match self.path {
            Option::Some(p) => Option::Some(p@),
            Option::None => Option::None,
        }
    }

    /// A document is well formed when no row holds an embedded newline.
    pub open spec fn wf(self) -> bool {
        forall|i: int| 0 <= i < self@.len() ==> line_wf(#[trigger] self@[i])
    }

    /// The row at `index`, or nothing when `index` is out of range; read-only
    /// consumers (rendering, cursor width lookups) use this and never fail.
    pub fn row(&self, index: usize) -> (r: Option<&Row>)
        ensures
            match r {
                Option::Some(row) => index < self@.len() && row@ == self@[index as int],
                Option::None => index >= self@.len(),
            },
    {
        if index < self.rows.len() {
            Some(&self.rows[index])
        } else {
            None
        }
    }

    /// Number of rows.
    pub fn len(&self) -> (n: usize)
        ensures
            n == self@.len(),
    {
        self.rows.len()
    }

    /// Whether the document holds no rows at all.
    pub fn is_empty(&self) -> (b: bool)
        ensures
            b == (self@.len() == 0),
    {
        self.rows.is_empty()
    }

    /// Whether some mutation succeeded since the document was built.
    pub fn is_dirty(&self) -> (b: bool)
        ensures
            b == self.spec_dirty(),
    {
        self.dirty
    }

    /// The backing file path, when the document has one.
    pub fn path(&self) -> (p: Option<String>)
        ensures
            match p {
                Option::Some(s) => self.spec_path() == Option::Some(s@),
                Option::None => self.spec_path() is None,
            },
    {
        match &self.path {
            Option::Some(p) => Option::Some(p.clone()),
            Option::None => Option::None,
        }
    }

    /// Inserts a newline at `at`, splitting the target row; see
    /// `doc_insert_newline` for the exact content change. Marks the document
    /// dirty exactly when the position was not past the last append point.
    pub fn insert_newline(&mut self, at: &Position)
        ensures
            final(self)@ == doc_insert_newline(old(self)@, at.row as int, at.col as int),
            final(self).spec_dirty() == (old(self).spec_dirty() || at.row <= old(self)@.len()),
            final(self).spec_path() == old(self).spec_path(),
            old(self).wf() ==> final(self).wf(),
    {
        if at.row > self.rows.len() {
            return;
        }
        self.dirty = true;
        if at.row == self.rows.len() {
            self.rows.push(Row::default());
            assert(self@ =~= doc_insert_newline(old(self)@, at.row as int, at.col as int));
            return;
        }
        let mut target = self.rows.remove(at.row);
        let ghost orig = target@;
        let rest = target.split(at.col);
        self.rows.insert(at.row, target);
        self.rows.insert(at.row + 1, rest);
        proof {
            let r = at.row as int;
            let cut = clamp_col(at.col as int, orig.len() as int);
            assert(old(self)@[r] == orig);
            assert(self.rows@ =~= old(self).rows@.update(r, self.rows@[r]).insert(
                r + 1,
                self.rows@[r + 1],
            ));
            assert(self@ =~= doc_insert_newline(old(self)@, r, at.col as int));
        }
    }

    /// Inserts character `c` at `at`; a newline character delegates to
    /// `insert_newline`; see `doc_insert` for the exact content change.
    pub fn insert(&mut self, at: &Position, c: char)
        ensures
            final(self)@ == doc_insert(old(self)@, at.row as int, at.col as int, c),
            final(self).spec_dirty() == (old(self).spec_dirty() || at.row <= old(self)@.len()),
            final(self).spec_path() == old(self).spec_path(),
            old(self).wf() ==> final(self).wf(),
    {
        if at.row > self.rows.len() {
            return;
        }
        self.dirty = true;
        if c == '\n' {
            self.insert_newline(at);
            return;
        }
        if at.row == self.rows.len() {
            let mut row = Row::default();
            row.insert(0, c);
            self.rows.push(row);
            proof {
                assert(row@ =~= seq![c]);
                assert(self@ =~= doc_insert(old(self)@, at.row as int, at.col as int, c));
            }
        } else {
            let mut row = self.rows.remove(at.row);
            row.insert(at.col, c);
            self.rows.insert(at.row, row);
            proof {
                let r = at.row as int;
                assert(self.rows@ =~= old(self).rows@.update(r, self.rows@[r]));
                assert(self@ =~= doc_insert(old(self)@, r, at.col as int, c));
            }
        }
    }

    /// Deletes at `at`: at the end of a row with a following row the rows
    /// are joined, otherwise one character is removed; see `doc_delete` for
    /// the exact content change. Marks the document dirty exactly when the
    /// row was in range.
    pub fn delete(&mut self, at: &Position)
        ensures
            final(self)@ == doc_delete(old(self)@, at.row as int, at.col as int),
            final(self).spec_dirty() == (old(self).spec_dirty() || at.row < old(self)@.len()),
            final(self).spec_path() == old(self).spec_path(),
            old(self).wf() ==> final(self).wf(),
    {
        let len = self.rows.len();
        if at.row >= len {
            return;
        }
        self.dirty = true;
        let target_len = self.rows[at.row].len();
        if at.col == target_len && at.row + 1 < len {
            let next = self.rows.remove(at.row + 1);
            let mut row = self.rows.remove(at.row);
            row.append(&next);
            self.rows.insert(at.row, row);
            proof {
                let r = at.row as int;
                assert(self.rows@ =~= old(self).rows@.update(r, self.rows@[r]).remove(r + 1));
                assert(self@ =~= doc_delete(old(self)@, r, at.col as int));
            }
        } else {
            let mut row = self.rows.remove(at.row);
            row.delete(at.col);
            self.rows.insert(at.row, row);
            proof {
                let r = at.row as int;
                assert(self.rows@ =~= old(self).rows@.update(r, self.rows@[r]));
                assert(self@ =~= doc_delete(old(self)@, r, at.col as int));
            }
        }
    }

    /// Serializes the document for saving: every row's text followed by one
    /// newline; an empty document serializes to empty text.
    pub fn to_text(&self) -> (text: Vec<char>)
        ensures
            text@ == serialize(self@),
    {
        let mut out: Vec<char> = Vec::new();
        let mut i: usize = 0;
        while i < self.rows.len()
            invariant
                i <= self.rows@.len(),
                out@ == serialize(self@.take(i as int)),
            decreases self.rows@.len() - i,
        {
            let mut rowtext = self.rows[i].as_text();
            out.append(&mut rowtext);
            out.push('\n');
            proof {
                lemma_serialize_push(self@.take(i as int), self@[i as int]);
                assert(self@.take(i + 1) =~= self@.take(i as int).push(self@[i as int]));
                assert(out@ =~= serialize(self@.take(i as int)) + self@[i as int] + seq!['\n']);
            }
            i = i + 1;
        }
        proof {
            assert(self@.take(self.rows@.len() as int) =~= self@);
        }
        out
    }

    /// Builds a document from decoded file text, one row per
    /// newline-delimited record, with the given backing path. The resulting
    /// document is clean and well formed.
    pub fn from_text(text: &Vec<char>, path: Option<String>) -> (doc: Document)
        ensures
            doc@ == parse_lines(text@),
            !doc.spec_dirty(),
            doc.wf(),
            match path {
                Option::Some(p) => doc.spec_path() == Option::Some(p@),
                Option::None => doc.spec_path() is None,
            },
    {
        let mut rows: Vec<Row> = Vec::new();
        let mut cur: Vec<char> = Vec::new();
        let mut j: usize = 0;
        proof {
            assert(cur@ + text@.skip(0) =~= text@);
            assert(rows_view(rows@) =~= Seq::<Seq<char>>::empty());
            assert(rows_view(rows@) + parse_lines(text@) =~= parse_lines(text@));
        }
        while j < text.len()
            invariant
                j <= text@.len(),
                line_wf(cur@),
                forall|k: int| 0 <= k < rows@.len() ==> line_wf(#[trigger] rows@[k]@),
                parse_lines(text@) == rows_view(rows@) + parse_lines(cur@ + text@.skip(j as int)),
            decreases text@.len() - j,
        {
            let c = text[j];
            if c == '\n' {
                proof {
                    let tail = text@.skip(j + 1);
                    let b = seq!['\n'] + tail;
                    assert(cur@ + text@.skip(j as int) =~= cur@ + b);
                    lemma_find_nl_concat(cur@, b);
                    let s = cur@ + b;
                    assert(find_nl(s) == cur@.len());
                    assert(s.take(cur@.len() as int) =~= cur@);
                    assert(s.skip(cur@.len() as int + 1) =~= tail);
                    assert(parse_lines(cur@ + text@.skip(j as int)) == seq![cur@] + parse_lines(
                        tail,
                    ));
                    assert(Seq::<char>::empty() + tail =~= tail);
                }
                let ghost curv = cur@;
                let ghost oldrows = rows@;
                let row = Row::from_chars(cur);
                rows.push(row);
                cur = Vec::new();
                proof {
                    assert(rows_view(rows@) =~= rows_view(oldrows) + seq![curv]);
                    assert(rows_view(rows@) + parse_lines(text@.skip(j + 1)) =~= rows_view(oldrows)
                        + (seq![curv] + parse_lines(text@.skip(j + 1))));
                }
            } else {
                let ghost oldcur = cur@;
                cur.push(c);
                proof {
                    assert(cur@ + text@.skip(j + 1) =~= oldcur + text@.skip(j as int));
                }
            }
            j = j + 1;
        }
        proof {
            assert(text@.skip(text@.len() as int) =~= Seq::<char>::empty());
            assert(cur@ + Seq::<char>::empty() =~= cur@);
        }
        if cur.len() > 0 {
            proof {
                lemma_find_nl_no_newline(cur@);
                assert(parse_lines(cur@) =~= seq![cur@]);
            }
            let ghost curv = cur@;
            let ghost oldrows = rows@;
            rows.push(Row::from_chars(cur));
            proof {
                assert(rows_view(rows@) =~= rows_view(oldrows) + seq![curv]);
            }
        }
        let doc = Document { rows, path, dirty: false };
        proof {
            assert(doc@ =~= parse_lines(text@));
        }
        doc
    }
}

impl Default for Document {
    /// The empty, unsaved, clean document.
    fn default() -> (doc: Document)
        ensures
            doc@ == Seq::<Seq<char>>::empty(),
            !doc.spec_dirty(),
            doc.spec_path() is None,
            doc.wf(),
    {
        let doc = Document { rows: Vec::new(), path: Option::None, dirty: false };
        proof {
            assert(doc@ =~= Seq::<Seq<char>>::empty());
        }
        doc
    }
}

/// Serializing one more row appends its text and a newline.
pub proof fn lemma_serialize_push(rows: Seq<Seq<char>>, x: Seq<char>)
    ensures
        serialize(rows.push(x)) == serialize(rows) + x + seq!['\n'],
    decreases rows.len(),
{
    assert(serialize(rows.push(x)) == rows.push(x)[0] + seq!['\n'] + serialize(
        rows.push(x).drop_first(),
    ));
    if rows.len() == 0 {
        assert(rows.push(x).drop_first() =~= Seq::<Seq<char>>::empty());
        assert(rows.push(x)[0] == x);
        assert(serialize(Seq::<Seq<char>>::empty()) == Seq::<char>::empty());
        assert(serialize(rows.push(x)) =~= serialize(rows) + x + seq!['\n']);
    } else {
        assert(rows.push(x).drop_first() =~= rows.drop_first().push(x));
        assert(rows.push(x)[0] == rows[0]);
        lemma_serialize_push(rows.drop_first(), x);
        assert(serialize(rows) == rows[0] + seq!['\n'] + serialize(rows.drop_first()));
        assert(serialize(rows.push(x)) =~= serialize(rows) + x + seq!['\n']);
    }
}

/// In text with no newline the first-newline search runs to the end.
pub proof fn lemma_find_nl_no_newline(s: Seq<char>)
    requires
        line_wf(s),
    ensures
        find_nl(s) == s.len(),
    decreases s.len(),
{
    if s.len() > 0 {
        assert(forall|i: int| 0 <= i < s.drop_first().len() ==> s.drop_first()[i] == s[i + 1]);
        lemma_find_nl_no_newline(s.drop_first());
    }
}

/// After a newline-free prefix, the first newline of a concatenation is the
/// first character of the second part.
pub proof fn lemma_find_nl_concat(a: Seq<char>, b: Seq<char>)
    requires
        line_wf(a),
        b.len() > 0,
        b[0] == '\n',
    ensures
        find_nl(a + b) == a.len(),
    decreases a.len(),
{
    if a.len() == 0 {
        assert(a + b =~= b);
    } else {
        assert((a + b)[0] == a[0]);
        assert((a + b).drop_first() =~= a.drop_first() + b);
        assert(forall|i: int| 0 <= i < a.drop_first().len() ==> a.drop_first()[i] == a[i + 1]);
        lemma_find_nl_concat(a.drop_first(), b);
    }
}

/// Inserting a newline at a position up to the last append point grows the
/// document by exactly one row; past it the document is unchanged. This is
/// the sole way the row count grows.
pub proof fn lemma_insert_newline_row_count(doc: Seq<Seq<char>>, row: int, col: int)
    requires
        0 <= row,
    ensures
        row <= doc.len() ==> doc_insert_newline(doc, row, col).len() == doc.len() + 1,
        row > doc.len() ==> doc_insert_newline(doc, row, col) == doc,
{
}

/// Deleting at the exact end of a row that has a following row joins the two
/// and shrinks the document by exactly one row; every other delete keeps the
/// row count unchanged.
pub proof fn lemma_delete_row_count(doc: Seq<Seq<char>>, row: int, col: int)
    requires
        0 <= row,
        0 <= col,
    ensures
        0 <= row < doc.len() && col == doc[row].len() && row + 1 < doc.len() ==> doc_delete(
            doc,
            row,
            col,
        ).len() == doc.len() - 1,
        !(0 <= row < doc.len() && col == doc[row].len() && row + 1 < doc.len()) ==> doc_delete(
            doc,
            row,
            col,
        ).len() == doc.len(),
{
}

/// Inserting a plain character keeps the row count, except at the append
/// point, where the new one-character row appears; a newline character
/// behaves as `doc_insert_newline`.
pub proof fn lemma_insert_row_count(doc: Seq<Seq<char>>, row: int, col: int, c: char)
    requires
        0 <= row,
        c != '\n',
    ensures
        row < doc.len() ==> doc_insert(doc, row, col, c).len() == doc.len(),
        row == doc.len() ==> doc_insert(doc, row, col, c).len() == doc.len() + 1,
        row > doc.len() ==> doc_insert(doc, row, col, c) == doc,
{
}

/// Inserting a character at a valid position and then deleting at the same
/// position restores the document exactly: at a fixed point, insert and
/// delete are inverses.
pub proof fn lemma_doc_insert_delete_inverse(doc: Seq<Seq<char>>, row: int, col: int, c: char)
    requires
        0 <= row < doc.len(),
        0 <= col <= doc[row].len(),
        c != '\n',
    ensures
        doc_delete(doc_insert(doc, row, col, c), row, col) == doc,
{
    let doc1 = doc_insert(doc, row, col, c);
    assert(doc1[row] == line_insert(doc[row], col, c));
    assert(doc1[row].len() == doc[row].len() + 1);
    lemma_insert_delete_inverse(doc[row], col, c);
    assert(doc_delete(doc1, row, col) =~= doc);
}

/// Splitting a row by a newline and then deleting at the split point joins
/// the halves back: the document is restored exactly.
pub proof fn lemma_doc_split_join_inverse(doc: Seq<Seq<char>>, row: int, col: int)
    requires
        0 <= row < doc.len(),
        0 <= col,
    ensures
        doc_delete(
            doc_insert_newline(doc, row, col),
            row,
            clamp_col(col, doc[row].len() as int),
        ) == doc,
{
    let cut = clamp_col(col, doc[row].len() as int);
    let doc1 = doc_insert_newline(doc, row, col);
    assert(doc1[row] == doc[row].take(cut));
    assert(doc1[row + 1] == doc[row].skip(cut));
    assert(doc1[row].len() == cut);
    assert(doc1.len() == doc.len() + 1);
    assert(doc[row].take(cut) + doc[row].skip(cut) =~= doc[row]);
    assert(doc_delete(doc1, row, cut) =~= doc);
}

/// Saving and reopening round-trips: parsing the serialized form of any
/// well-formed row sequence yields exactly the original rows.
pub proof fn lemma_parse_serialize(rows: Seq<Seq<char>>)
    requires
        forall|i: int| 0 <= i < rows.len() ==> line_wf(#[trigger] rows[i]),
    ensures
        parse_lines(serialize(rows)) == rows,
    decreases rows.len(),
{
    if rows.len() == 0 {
        assert(parse_lines(serialize(rows)) =~= rows);
    } else {
        let head = rows[0];
        let tail = rows.drop_first();
        let s = serialize(rows);
        let b = seq!['\n'] + serialize(tail);
        assert(s =~= head + b);
        lemma_find_nl_concat(head, b);
        assert(find_nl(s) == head.len());
        assert(s.len() == head.len() + 1 + serialize(tail).len());
        assert(s.take(head.len() as int) =~= head);
        assert(s.skip(head.len() as int + 1) =~= serialize(tail));
        assert(forall|i: int| 0 <= i < tail.len() ==> tail[i] == rows[i + 1]);
        lemma_parse_serialize(tail);
        assert(parse_lines(s) =~= seq![head] + tail);
        assert(seq![head] + tail =~= rows);
    }
}

} // verus!
