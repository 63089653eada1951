//! A single editable line of text.
//!
//! A `Row` is an ordered sequence of characters holding no embedded newline;
//! one character occupies one display column. Out-of-range columns are
//! clamped or ignored, never rejected: every operation is total, and the
//! cursor controller above relies on that.

use vstd::prelude::*;

verus! {

/// Index at which an operation aimed at column `col` actually lands:
/// columns past the end of the line are clamped to the end.
pub open spec fn clamp_col(col: int, len: int) -> int {
    if col <= len {
        col
    } else {
        len
    }
}

/// Content of a line after inserting `c` at column `col` (clamped to append).
pub open spec fn line_insert(s: Seq<char>, col: int, c: char) -> Seq<char> {
    s.insert(clamp_col(col, s.len() as int), c)
}

/// Content of a line after deleting the character at column `col`;
/// unchanged when `col` is out of range.
pub open spec fn line_delete(s: Seq<char>, col: int) -> Seq<char> {
    if 0 <= col < s.len() {
        s.remove(col)
    } else {
        s
    }
}

/// The part of `s` visible in columns `[start, end)`, clipped to the line:
/// `end` past the line is clamped, a `start` at or past the clamped end
/// yields the empty sequence.
pub open spec fn line_window(s: Seq<char>, start: int, end: int) -> Seq<char> {
    let stop = if end <= s.len() {
        end
    } else {
        s.len() as int
    };
    if 0 <= start <= stop {
        s.subrange(start, stop)
    } else {
        Seq::empty()
    }
}

/// A character sequence is a well-formed line when it holds no newline.
pub open spec fn line_wf(s: Seq<char>) -> bool {
    forall|i: int| 0 <= i < s.len() ==> s[i] != '\n'
}

/// A single logical row of the document.
pub struct Row {
    chars: Vec<char>,
}

impl View for Row {
    type V = Seq<char>;

    closed spec fn view(&self) -> Seq<char> {
        self.chars@
    }
}

impl Row {
    /// A row is well formed when it holds no embedded newline: a `Row` is
    /// always a single logical line.
    pub open spec fn wf(self) -> bool {
        line_wf(self@)
    }

    /// Builds a row from a plain character sequence; any line terminator is
    /// expected to have been stripped by the caller.
    pub fn from_chars(chars: Vec<char>) -> (r: Row)
        ensures
            r@ == chars@,
    {
        Row { chars }
    }

    /// Character count of the row.
    pub fn len(&self) -> (n: usize)
        ensures
            n == self@.len(),
    {
        self.chars.len()
    }

    /// The raw character sequence, for persistence.
    pub fn as_text(&self) -> (r: Vec<char>)
        ensures
            r@ == self@,
    {
        self.chars.clone()
    }

    /// Inserts `ch` at column `col`; a column at or past the end appends.
    /// Always succeeds: the column is clamped, not rejected.
    pub fn insert(&mut self, col: usize, ch: char)
        requires
            ch != '\n',
        ensures
            final(self)@ == line_insert(old(self)@, col as int, ch),
            old(self).wf() ==> final(self).wf(),
    {
        if col >= self.chars.len() {
            self.chars.push(ch);
            assert(self@ =~= line_insert(old(self)@, col as int, ch));
        } else {
            self.chars.insert(col, ch);
        }
    }

    /// Removes the character at column `col` if there is one; no-op otherwise.
    pub fn delete(&mut self, col: usize)
        ensures
            final(self)@ == line_delete(old(self)@, col as int),
            old(self).wf() ==> final(self).wf(),
    {
        if col < self.chars.len() {
            self.chars.remove(col);
        }
    }

    /// Splits the row at column `col` (clamped): this row keeps `[0, col)`
    /// and the returned row holds `[col, len)`.
    pub fn split(&mut self, col: usize) -> (rest: Row)
        ensures
            final(self)@ == old(self)@.take(clamp_col(col as int, old(self)@.len() as int)),
            rest@ == old(self)@.skip(clamp_col(col as int, old(self)@.len() as int)),
            old(self).wf() ==> final(self).wf() && rest.wf(),
    {
        let cut = if col <= self.chars.len() {
            col
        } else {
            self.chars.len()
        };
        let tail = self.chars.split_off(cut);
        Row { chars: tail }
    }

    /// Appends another row's full content to the end of this one; realizes
    /// the join of two document rows.
    pub fn append(&mut self, other: &Row)
        ensures
            final(self)@ == old(self)@ + other@,
            old(self).wf() && other.wf() ==> final(self).wf(),
    {
        let mut i: usize = 0;
        while i < other.chars.len()
            invariant
                i <= other.chars.len(),
                self.chars@ == old(self).chars@ + other.chars@.take(i as int),
            decreases other.chars.len() - i,
        {
            self.chars.push(other.chars[i]);
            assert(self.chars@ =~= old(self).chars@ + other.chars@.take(i + 1));
            i = i + 1;
        }
        assert(self.chars@ =~= old(self).chars@ + other.chars@);
        proof {
            if old(self).wf() && other.wf() {
                assert forall|j: int| 0 <= j < self@.len() implies self@[j] != '\n' by {
                    if j < old(self)@.len() {
                        assert(self@[j] == old(self)@[j]);
                    } else {
                        assert(self@[j] == other@[j - old(self)@.len()]);
                    }
                }
            }
        }
    }

    /// The characters of the row visible in columns `[start, end)`, clipped
    /// to the row's bounds; used for horizontally scrolled rendering.
    pub fn render(&self, start: usize, end: usize) -> (r: Vec<char>)
        ensures
            r@ == line_window(self@, start as int, end as int),
    {
        let stop = if end <= self.chars.len() {
            end
        } else {
            self.chars.len()
        };
        let mut r: Vec<char> = Vec::new();
        if start >= stop {
            assert(r@ =~= line_window(self@, start as int, end as int));
            return r;
        }
        let mut i = start;
        while i < stop
            invariant
                start <= i <= stop <= self.chars@.len(),
                r@ == self.chars@.subrange(start as int, i as int),
            decreases stop - i,
        {
            r.push(self.chars[i]);
            assert(r@ =~= self.chars@.subrange(start as int, i + 1));
            i = i + 1;
        }
        r
    }
}

impl Clone for Row {
    /// Clones the row, keeping its content.
    fn clone(&self) -> (r: Row)
        ensures
            r@ == self@,
    {
        let chars = self.chars.clone();
        assert(chars@ =~= self.chars@);
        Row { chars }
    }
}

impl Default for Row {
    /// The empty row.
    fn default() -> (r: Row)
        ensures
            r@ == Seq::<char>::empty(),
            r.wf(),
    {
        Row { chars: Vec::new() }
    }
}

/// Splitting a row at any column and appending the returned tail back
/// reconstructs the original row exactly: `split` and `append` are inverses.
pub proof fn lemma_split_append_inverse(s: Seq<char>, col: int)
    requires
        0 <= col,
    ensures
        s.take(clamp_col(col, s.len() as int)) + s.skip(clamp_col(col, s.len() as int)) == s,
{
    let cut = clamp_col(col, s.len() as int);
    assert(s.take(cut) + s.skip(cut) =~= s);
}

/// Inserting a character at a column and then deleting at the column where
/// it landed restores the original row content: at a fixed position,
/// `insert` and `delete` are inverses.
pub proof fn lemma_insert_delete_inverse(s: Seq<char>, col: int, c: char)
    requires
        0 <= col,
    ensures
        line_delete(line_insert(s, col, c), clamp_col(col, s.len() as int)) == s,
{
    let cut = clamp_col(col, s.len() as int);
    assert(line_insert(s, col, c).remove(cut) =~= s);
}

} // verus!
