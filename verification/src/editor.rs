//! Cursor and viewport coordination, key dispatch, and the render planner.
//!
//! The `Editor` owns the document, the logical cursor position, the scroll
//! offset, the status message and the running flag. It consumes decoded key
//! events and a terminal size, and plans the exact display lines; reading
//! keys and writing to the terminal happen outside the library.

use vstd::prelude::*;

use crate::document::{
    doc_delete, doc_insert, doc_insert_newline, Document,
};
use crate::row::{line_window, Row};
use crate::terminal::Terminal;

verus! {

/// A position in the document: `row` indexes a line, `col` a column in it.
#[derive(Clone, Copy, Debug, PartialEq, Eq, Structural)]
pub struct Position {
    pub col: usize,
    pub row: usize,
}

impl Default for Position {
    /// The document origin.
    fn default() -> (p: Position)
        ensures
            p.col == 0 && p.row == 0,
    {
        Position { col: 0, row: 0 }
    }
}

/// A decoded key event, as the input source hands it to the editor.
/// Navigation variants stand for unmodified navigation keys; `CtrlS` is the
/// save shortcut; `Other` is any event the editor ignores.
#[derive(Clone, Copy, Debug, PartialEq, Eq, Structural)]
pub enum Key {
    Up,
    Down,
    Left,
    Right,
    Home,
    End,
    PageUp,
    PageDown,
    Enter,
    Delete,
    Backspace,
    Esc,
    CtrlS,
    Char(char),
    Other,
}

/// The one-line message shown in the status bar.
pub struct StatusMessage {
    text: Vec<char>,
}

impl View for StatusMessage {
    type V = Seq<char>;

    closed spec fn view(&self) -> Seq<char> {
        self.text@
    }
}

impl StatusMessage {
    /// Wraps a plain message.
    pub fn from(message: Vec<char>) -> (m: StatusMessage)
        ensures
            m@ == message@,
    {
        StatusMessage { text: message }
    }

    /// The message text.
    pub fn as_chars(&self) -> (r: Vec<char>)
        ensures
            r@ == self@,
    {
        let r = self.text.clone();
        assert(r@ =~= self.text@);
        r
    }
}

/// The smaller of two values.
pub open spec fn spec_min(a: int, b: int) -> int {
    if a <= b {
        a
    } else {
        b
    }
}

/// Unsigned machine addition that stops at the integer ceiling.
pub open spec fn sat_add(a: int, b: int) -> int {
    if a + b <= usize::MAX {
        a + b
    } else {
        usize::MAX as int
    }
}

/// Unsigned machine subtraction that stops at zero.
pub open spec fn sat_sub(a: int, b: int) -> int {
    if a >= b {
        a - b
    } else {
        0
    }
}

/// Length of the row at `row`, or 0 when `row` is out of range (including
/// the virtual trailing line at `doc.len()`).
pub open spec fn row_len(doc: Seq<Seq<char>>, row: int) -> int {
    if 0 <= row < doc.len() {
        doc[row].len() as int
    } else {
        0
    }
}

/// Cursor position after the directional part of a key, before the final
/// column re-clamp. `page` is the viewport height used by page movement.
pub open spec fn cursor_step(
    doc: Seq<Seq<char>>,
    row: int,
    col: int,
    page: int,
    key: Key,
) -> (int, int) {
    let height = doc.len() as int;
    let width = row_len(doc, row);
    match key {
        Key::Up => (sat_sub(row, 1), col),
        Key::Down => if row < height {
            (row + 1, col)
        } else {
            (row, col)
        },
        Key::Left => if col > 0 {
            (row, col - 1)
        } else if row > 0 {
            (row - 1, row_len(doc, row - 1))
        } else {
            (row, col)
        },
        Key::Right => if col < width {
            (row, col + 1)
        } else if row < height {
            (row + 1, 0)
        } else {
            (row, col)
        },
        Key::PageUp => if row > page {
            (row - page, col)
        } else {
            (0, col)
        },
        Key::PageDown => if sat_add(row, page) < height {
            (row + page, col)
        } else {
            (height, col)
        },
        Key::Home => (row, 0),
        Key::End => (row, width),
        _ => (row, col),
    }
}

/// Cursor position after a movement key: the stepped position with the
/// column re-clamped to the new row's length. There is deliberately no
/// sticky-column memory: vertical movement forgets horizontal intent.
pub open spec fn cursor_after(
    doc: Seq<Seq<char>>,
    row: int,
    col: int,
    page: int,
    key: Key,
) -> (int, int) {
    let stepped = cursor_step(doc, row, col, page, key);
    (stepped.0, spec_min(stepped.1, row_len(doc, stepped.0)))
}

/// New scroll offset along one axis: the offset moves exactly enough to
/// bring the cursor back inside a window of `extent` cells, and not
/// otherwise — minimal-jump scrolling, never recentring.
pub open spec fn scrolled(offset: int, cursor: int, extent: int) -> int {
    if cursor < offset {
        cursor
    } else if cursor >= sat_add(offset, extent) {
        sat_add(sat_sub(cursor, extent), 1)
    } else {
        offset
    }
}

/// Document content after dispatching `key` at cursor `(row, col)`.
pub open spec fn doc_after_key(doc: Seq<Seq<char>>, row: int, col: int, key: Key) -> Seq<
    Seq<char>,
> {
    match key {
        Key::Enter => doc_insert_newline(doc, row, col),
        Key::Delete => doc_delete(doc, row, col),
        Key::Backspace => if col > 0 || row > 0 {
            let p = cursor_after(doc, row, col, 0, Key::Left);
            doc_delete(doc, p.0, p.1)
        } else {
            doc
        },
        Key::Char(c) => doc_insert(doc, row, col, c),
        _ => doc,
    }
}

/// Cursor position after dispatching `key` at cursor `(row, col)`: typing
/// moves right, Enter moves to the start of the next line, Backspace moves
/// left onto the deleted character's place.
pub open spec fn cursor_after_key(
    doc: Seq<Seq<char>>,
    row: int,
    col: int,
    page: int,
    key: Key,
) -> (int, int) {
    match key {
        Key::Up | Key::Down | Key::Left | Key::Right | Key::Home | Key::End | Key::PageUp
            | Key::PageDown => cursor_after(doc, row, col, page, key),
        Key::Enter => {
            let doc1 = doc_insert_newline(doc, row, col);
            let p = cursor_after(doc1, row, col, page, Key::Down);
            cursor_after(doc1, p.0, p.1, page, Key::Home)
        },
        Key::Backspace => if col > 0 || row > 0 {
            cursor_after(doc, row, col, 0, Key::Left)
        } else {
            (row, col)
        },
        Key::Char(c) => {
            let doc1 = doc_insert(doc, row, col, c);
            cursor_after(doc1, row, col, page, Key::Right)
        },
        _ => (row, col),
    }
}

/// Dirty flag after dispatching `key`: set by every mutation that was not
/// ignored for being past the valid range.
pub open spec fn dirty_after_key(
    doc: Seq<Seq<char>>,
    row: int,
    col: int,
    key: Key,
    dirty: bool,
) -> bool {
    match key {
        Key::Enter => dirty || row <= doc.len(),
        Key::Delete => dirty || row < doc.len(),
        Key::Backspace => if col > 0 || row > 0 {
            dirty || cursor_after(doc, row, col, 0, Key::Left).0 < doc.len()
        } else {
            dirty
        },
        Key::Char(c) => dirty || row <= doc.len(),
        _ => dirty,
    }
}

/// The status message after a successful save.
pub open spec fn save_ok_message() -> Seq<char> {
    seq!['F', 'i', 'l', 'e', ' ', 'w', 'r', 'i', 't', 't', 'e', 'n', '.']
}

/// The status message after a failed save.
pub open spec fn save_err_message() -> Seq<char> {
    seq![
        'U', 'n', 'a', 'b', 'l', 'e', ' ', 't', 'o', ' ', 'w', 'r', 'i', 't', 'e', ' ', 't',
        'h', 'e', ' ', 'f', 'i', 'l', 'e', '!',
    ]
}

/// The raw-terminal line terminator.
pub open spec fn crlf() -> Seq<char> {
    seq!['\r', '\n']
}

/// `n` copies of `c` (none when `n` is negative).
pub open spec fn repeat_char(c: char, n: int) -> Seq<char> {
    Seq::new(if n >= 0 {
        n as nat
    } else {
        0
    }, |i: int| c)
}

/// The decimal digit `d` as a character.
pub open spec fn digit_char(d: int) -> char {
    if d == 0 {
        '0'
    } else if d == 1 {
        '1'
    } else if d == 2 {
        '2'
    } else if d == 3 {
        '3'
    } else if d == 4 {
        '4'
    } else if d == 5 {
        '5'
    } else if d == 6 {
        '6'
    } else if d == 7 {
        '7'
    } else if d == 8 {
        '8'
    } else {
        '9'
    }
}

/// The usual decimal rendering of `n`, most significant digit first.
pub open spec fn decimal_rep(n: int) -> Seq<char>
    decreases n,
{
    if n < 10 {
        seq![digit_char(n)]
    } else {
        decimal_rep(n / 10).push(digit_char(n % 10))
    }
}

/// One document row as displayed: the window of `width` columns starting at
/// the column offset, with the raw-mode line terminator.
pub open spec fn rendered_row(s: Seq<char>, off_col: int, width: int) -> Seq<char> {
    line_window(s, off_col, sat_add(off_col, width)) + crlf()
}

/// The welcome banner line: a tilde, centering spaces, and the banner text,
/// truncated to the terminal width, with the line terminator.
pub open spec fn welcome_line(banner: Seq<char>, cols: int) -> Seq<char> {
    let padding = sat_sub(cols, banner.len() as int) / 2;
    let full = seq!['~'] + repeat_char(' ', sat_sub(padding, 1)) + banner;
    (if full.len() > cols {
        full.take(cols)
    } else {
        full
    }) + crlf()
}

/// The status line: the status text, then padding spaces so that the
/// right-aligned "row,rowcount" indicator exactly fills the width, the
/// whole truncated to the width when the text alone overflows it.
pub open spec fn status_line(status: Seq<char>, width: int, cursor_row: int, doc_len: int) -> Seq<
    char,
> {
    let indicator = decimal_rep(sat_add(cursor_row, 1)) + seq![','] + decimal_rep(doc_len);
    let len = status.len() + indicator.len();
    let padded = if width > len {
        status + repeat_char(' ', width - len)
    } else {
        status
    };
    let line = padded + indicator;
    if line.len() > width {
        line.take(width)
    } else {
        line
    }
}

/// The display line planned for terminal row `i`: a document row when one is
/// scrolled into view, the welcome banner a third of the way down an empty
/// document, and a bare continuation marker otherwise.
pub open spec fn screen_row(
    doc: Seq<Seq<char>>,
    off_row: int,
    off_col: int,
    cols: int,
    rows: int,
    banner: Seq<char>,
    i: int,
) -> Seq<char> {
    let idx = sat_add(off_row, i);
    if 0 <= idx < doc.len() {
        rendered_row(doc[idx], off_col, cols)
    } else if doc.len() == 0 && i == rows / 3 {
        welcome_line(banner, cols)
    } else {
        seq!['~'] + crlf()
    }
}

/// The decimal digit `d` as a character.
fn digit_of(d: usize) -> (c: char)
    requires
        d < 10,
    ensures
        c == digit_char(d as int),
{
    if d == 0 {
        '0'
    } else if d == 1 {
        '1'
    } else if d == 2 {
        '2'
    } else if d == 3 {
        '3'
    } else if d == 4 {
        '4'
    } else if d == 5 {
        '5'
    } else if d == 6 {
        '6'
    } else if d == 7 {
        '7'
    } else if d == 8 {
        '8'
    } else {
        '9'
    }
}

/// Renders `n` in decimal.
pub fn decimal_chars(n: usize) -> (r: Vec<char>)
    ensures
        r@ == decimal_rep(n as int),
    decreases n,
{
    if n < 10 {
        let mut r: Vec<char> = Vec::new();
        r.push(digit_of(n));
        assert(r@ =~= decimal_rep(n as int));
        r
    } else {
        let mut r = decimal_chars(n / 10);
        r.push(digit_of(n % 10));
        r
    }
}

/// Appends `n` spaces to `v`.
fn push_spaces(v: &mut Vec<char>, n: usize)
    ensures
        final(v)@ == old(v)@ + repeat_char(' ', n as int),
{
    let mut i: usize = 0;
    while i < n
        invariant
            i <= n,
            v@ == old(v)@ + repeat_char(' ', i as int),
        decreases n - i,
    {
        v.push(' ');
        assert(v@ =~= old(v)@ + repeat_char(' ', i + 1));
        i = i + 1;
    }
}

/// The whole editing session: the document, the logical cursor, the scroll
/// offset, the status message, the running flag and the terminal extent.
/// One single-threaded loop outside the library owns it, renders through
/// `render_screen`, and feeds it one decoded key at a time.
pub struct Editor {
    pub document: Document,
    pub cursor_position: Position,
    pub offset: Position,
    pub status_message: StatusMessage,
    pub is_running: bool,
    pub terminal: Terminal,
}

impl Editor {
    /// Starts a session on `document` inside `terminal`: cursor and offset
    /// at the origin, empty status, running.
    pub fn new(document: Document, terminal: Terminal) -> (e: Editor)
        ensures
            e.document == document,
            e.cursor_position.col == 0 && e.cursor_position.row == 0,
            e.offset.col == 0 && e.offset.row == 0,
            e.status_message@ == Seq::<char>::empty(),
            e.is_running,
            e.terminal == terminal,
    {
        let status = StatusMessage::from(Vec::new());
        Editor {
            document,
            cursor_position: Position { col: 0, row: 0 },
            offset: Position { col: 0, row: 0 },
            status_message: status,
            is_running: true,
            terminal,
        }
    }

    /// Moves the cursor for one navigation key, then re-clamps the column
    /// to the length of the row the cursor lands on; see `cursor_after`.
    /// Keys that are not navigation leave the cursor at most re-clamped.
    pub fn move_cursor(&mut self, key: Key)
        ensures
            final(self).cursor_position.row as int == cursor_after(
                old(self).document@,
                old(self).cursor_position.row as int,
                old(self).cursor_position.col as int,
                old(self).terminal.spec_size().rows as int,
                key,
            ).0,
            final(self).cursor_position.col as int == cursor_after(
                old(self).document@,
                old(self).cursor_position.row as int,
                old(self).cursor_position.col as int,
                old(self).terminal.spec_size().rows as int,
                key,
            ).1,
            final(self).document == old(self).document,
            final(self).offset == old(self).offset,
            final(self).status_message == old(self).status_message,
            final(self).is_running == old(self).is_running,
            final(self).terminal == old(self).terminal,
    {
        let terminal_rows = self.terminal.size().rows as usize;
        let mut col = self.cursor_position.col;
        let mut row = self.cursor_position.row;
        let height = self.document.len();
        let width = match self.document.row(row) {
            Option::Some(r) => r.len(),
            Option::None => 0,
        };
        match key {
            Key::Up => {
                row = row.saturating_sub(1);
            },
            Key::Down => {
                if row < height {
                    row = row + 1;
                }
            },
            Key::Left => {
                if col > 0 {
                    col = col - 1;
                } else if row > 0 {
                    row = row - 1;
                    col = match self.document.row(row) {
                        Option::Some(r) => r.len(),
                        Option::None => 0,
                    };
                }
            },
            Key::Right => {
                if col < width {
                    col = col + 1;
                } else if row < height {
                    row = row + 1;
                    col = 0;
                }
            },
            Key::PageUp => {
                if row > terminal_rows {
                    row = row - terminal_rows;
                } else {
                    row = 0;
                }
            },
            Key::PageDown => {
                if row.saturating_add(terminal_rows) < height {
                    row = row + terminal_rows;
                } else {
                    row = height;
                }
            },
            Key::Home => {
                col = 0;
            },
            Key::End => {
                col = width;
            },
            _ => {},
        }
        let new_width = match self.document.row(row) {
            Option::Some(r) => r.len(),
            Option::None => 0,
        };
        if col > new_width {
            col = new_width;
        }
        self.cursor_position = Position { col, row };
    }

    /// Recomputes the scroll offset so the cursor lies inside the viewport,
    /// moving each axis the minimal amount; see `scrolled`.
    pub fn scroll(&mut self)
        ensures
            final(self).offset.row as int == scrolled(
                old(self).offset.row as int,
                old(self).cursor_position.row as int,
                old(self).terminal.spec_size().rows as int,
            ),
            final(self).offset.col as int == scrolled(
                old(self).offset.col as int,
                old(self).cursor_position.col as int,
                old(self).terminal.spec_size().columns as int,
            ),
            final(self).document == old(self).document,
            final(self).cursor_position == old(self).cursor_position,
            final(self).status_message == old(self).status_message,
            final(self).is_running == old(self).is_running,
            final(self).terminal == old(self).terminal,
    {
        let col = self.cursor_position.col;
        let row = self.cursor_position.row;
        let width = self.terminal.size().columns as usize;
        let height = self.terminal.size().rows as usize;
        if row < self.offset.row {
            self.offset.row = row;
        } else if row >= self.offset.row.saturating_add(height) {
            self.offset.row = row.saturating_sub(height).saturating_add(1);
        }
        if col < self.offset.col {
            self.offset.col = col;
        } else if col >= self.offset.col.saturating_add(width) {
            self.offset.col = col.saturating_sub(width).saturating_add(1);
        }
    }

    /// The screen position of the cursor relative to the scroll offset.
    pub fn screen_cursor(&self) -> (p: Position)
        ensures
            p.col as int == sat_sub(self.cursor_position.col as int, self.offset.col as int),
            p.row as int == sat_sub(self.cursor_position.row as int, self.offset.row as int),
    {
        Position {
            col: self.cursor_position.col.saturating_sub(self.offset.col),
            row: self.cursor_position.row.saturating_sub(self.offset.row),
        }
    }

    /// Plans the display of one document row through the current horizontal
    /// scroll and terminal width.
    pub fn render_row(&self, row: &Row) -> (r: Vec<char>)
        ensures
            r@ == rendered_row(
                row@,
                self.offset.col as int,
                self.terminal.spec_size().columns as int,
            ),
    {
        let width = self.terminal.size().columns as usize;
        let start = self.offset.col;
        let end = self.offset.col.saturating_add(width);
        let mut r = row.render(start, end);
        r.push('\r');
        r.push('\n');
        assert(r@ =~= rendered_row(
            row@,
            self.offset.col as int,
            self.terminal.spec_size().columns as int,
        ));
        r
    }

    /// Plans the centered welcome banner line shown on an empty document.
    pub fn render_welcome_message(&self, banner: &Vec<char>) -> (r: Vec<char>)
        ensures
            r@ == welcome_line(banner@, self.terminal.spec_size().columns as int),
    {
        let cols = self.terminal.size().columns as usize;
        let len = banner.len();
        let padding = (if cols >= len {
            cols - len
        } else {
            0
        }) / 2;
        let nspaces = if padding >= 1 {
            padding - 1
        } else {
            0
        };
        let mut line: Vec<char> = Vec::new();
        line.push('~');
        push_spaces(&mut line, nspaces);
        let mut text = banner.clone();
        proof {
            assert(text@ =~= banner@);
        }
        line.append(&mut text);
        line.truncate(cols);
        line.push('\r');
        line.push('\n');
        assert(line@ =~= welcome_line(banner@, cols as int));
        line
    }

    /// Plans the status line: status text left, a "row,rowcount" indicator
    /// right, padded or truncated to exactly the terminal width.
    pub fn render_status_bar(&self) -> (r: Vec<char>)
        ensures
            r@ == status_line(
                self.status_message@,
                self.terminal.spec_size().columns as int,
                self.cursor_position.row as int,
                self.document@.len() as int,
            ),
    {
        let width = self.terminal.size().columns as usize;
        let mut indicator = decimal_chars(self.cursor_position.row.saturating_add(1));
        indicator.push(',');
        let mut count = decimal_chars(self.document.len());
        indicator.append(&mut count);
        let mut line = self.status_message.as_chars();
        let used = line.len().saturating_add(indicator.len());
        if width > used {
            push_spaces(&mut line, width - used);
        }
        line.append(&mut indicator);
        line.truncate(width);
        assert(line@ =~= status_line(
            self.status_message@,
            width as int,
            self.cursor_position.row as int,
            self.document@.len() as int,
        ));
        line
    }

    /// Plans the whole screen: one display line per terminal row, the
    /// status line last; see `screen_row` and `status_line`.
    pub fn render_screen(&self, banner: &Vec<char>) -> (r: Vec<Vec<char>>)
        ensures
            r@.len() == self.terminal.spec_size().rows as int + 1,
            forall|i: int|
                0 <= i < self.terminal.spec_size().rows as int ==> (#[trigger] r@[i])@
                    == screen_row(
                    self.document@,
                    self.offset.row as int,
                    self.offset.col as int,
                    self.terminal.spec_size().columns as int,
                    self.terminal.spec_size().rows as int,
                    banner@,
                    i,
                ),
            r@[self.terminal.spec_size().rows as int]@ == status_line(
                self.status_message@,
                self.terminal.spec_size().columns as int,
                self.cursor_position.row as int,
                self.document@.len() as int,
            ),
    {
        let rows = self.terminal.size().rows as usize;
        let mut r: Vec<Vec<char>> = Vec::new();
        let mut i: usize = 0;
        while i < rows
            invariant
                i <= rows,
                rows == self.terminal.spec_size().rows as int,
                r@.len() == i,
                forall|k: int|
                    0 <= k < i as int ==> (#[trigger] r@[k])@ == screen_row(
                        self.document@,
                        self.offset.row as int,
                        self.offset.col as int,
                        self.terminal.spec_size().columns as int,
                        self.terminal.spec_size().rows as int,
                        banner@,
                        k,
                    ),
            decreases rows - i,
        {
            let idx = self.offset.row.saturating_add(i);
            let line: Vec<char> = match self.document.row(idx) {
                Option::Some(row) => self.render_row(row),
                Option::None => {
                    if self.document.is_empty() && i == rows / 3 {
                        self.render_welcome_message(banner)
                    } else {
                        let mut t: Vec<char> = Vec::new();
                        t.push('~');
                        t.push('\r');
                        t.push('\n');
                        assert(t@ =~= seq!['~'] + crlf());
                        t
                    }
                },
            };
            r.push(line);
            i = i + 1;
        }
        let status = self.render_status_bar();
        r.push(status);
        r
    }

    /// Dispatches one decoded key: navigation moves the cursor; Enter,
    /// Delete, Backspace and printable characters edit the document and
    /// place the cursor as a user expects; Esc stops the session. The
    /// save shortcut only requests a save — the caller performs it and
    /// reports back through `note_save_result`. After every dispatch the
    /// scroll offset is recomputed so the cursor stays visible.
    pub fn process_key(&mut self, key: Key) -> (save_requested: bool)
        ensures
            final(self).document@ == doc_after_key(
                old(self).document@,
                old(self).cursor_position.row as int,
                old(self).cursor_position.col as int,
                key,
            ),
            final(self).cursor_position.row as int == cursor_after_key(
                old(self).document@,
                old(self).cursor_position.row as int,
                old(self).cursor_position.col as int,
                old(self).terminal.spec_size().rows as int,
                key,
            ).0,
            final(self).cursor_position.col as int == cursor_after_key(
                old(self).document@,
                old(self).cursor_position.row as int,
                old(self).cursor_position.col as int,
                old(self).terminal.spec_size().rows as int,
                key,
            ).1,
            final(self).offset.row as int == scrolled(
                old(self).offset.row as int,
                final(self).cursor_position.row as int,
                old(self).terminal.spec_size().rows as int,
            ),
            final(self).offset.col as int == scrolled(
                old(self).offset.col as int,
                final(self).cursor_position.col as int,
                old(self).terminal.spec_size().columns as int,
            ),
            final(self).is_running == (if key == Key::Esc {
                false
            } else {
                old(self).is_running
            }),
            save_requested == (key == Key::CtrlS),
            final(self).status_message == old(self).status_message,
            final(self).terminal == old(self).terminal,
            final(self).document.spec_dirty() == dirty_after_key(
                old(self).document@,
                old(self).cursor_position.row as int,
                old(self).cursor_position.col as int,
                key,
                old(self).document.spec_dirty(),
            ),
            final(self).document.spec_path() == old(self).document.spec_path(),
            old(self).document.wf() ==> final(self).document.wf(),
    {
        let mut save_requested = false;
        match key {
            Key::Up | Key::Down | Key::Left | Key::Right | Key::Home | Key::End | Key::PageUp
                | Key::PageDown => {
                self.move_cursor(key);
            },
            Key::Enter => {
                let pos = self.cursor_position;
                self.document.insert_newline(&pos);
                self.move_cursor(Key::Down);
                self.move_cursor(Key::Home);
            },
            Key::Delete => {
                let pos = self.cursor_position;
                self.document.delete(&pos);
            },
            Key::Backspace => {
                if self.cursor_position.col > 0 || self.cursor_position.row > 0 {
                    self.move_cursor(Key::Left);
                    let pos = self.cursor_position;
                    self.document.delete(&pos);
                }
            },
            Key::Esc => {
                self.is_running = false;
            },
            Key::CtrlS => {
                save_requested = true;
            },
            Key::Char(c) => {
                let pos = self.cursor_position;
                self.document.insert(&pos, c);
                self.move_cursor(Key::Right);
            },
            Key::Other => {},
        }
        self.scroll();
        save_requested
    }

    /// Records the outcome of a save attempt in the status message; the
    /// document itself is left untouched (a failed save leaves it dirty).
    pub fn note_save_result(&mut self, ok: bool)
        ensures
            final(self).status_message@ == if ok {
                save_ok_message()
            } else {
                save_err_message()
            },
            final(self).document == old(self).document,
            final(self).cursor_position == old(self).cursor_position,
            final(self).offset == old(self).offset,
            final(self).is_running == old(self).is_running,
            final(self).terminal == old(self).terminal,
    {
        if ok {
            let text = vec![
                'F', 'i', 'l', 'e', ' ', 'w', 'r', 'i', 't', 't', 'e', 'n', '.',
            ];
            assert(text@ =~= save_ok_message());
            self.status_message = StatusMessage::from(text);
        } else {
            let text = vec![
                'U', 'n', 'a', 'b', 'l', 'e', ' ', 't', 'o', ' ', 'w', 'r', 'i', 't', 'e', ' ',
                't', 'h', 'e', ' ', 'f', 'i', 'l', 'e', '!',
            ];
            assert(text@ =~= save_err_message());
            self.status_message = StatusMessage::from(text);
        }
    }
}

/// After any movement key the cursor stays inside the document: the row is
/// at most the row count (the virtual trailing line) and the column at most
/// the length of the row the cursor lands on.
pub proof fn lemma_cursor_in_bounds(doc: Seq<Seq<char>>, row: int, col: int, page: int, key: Key)
    requires
        0 <= row <= doc.len(),
        0 <= col,
        0 <= page,
        doc.len() <= usize::MAX,
    ensures
        ({
            let c = cursor_after(doc, row, col, page, key);
            0 <= c.0 <= doc.len() && 0 <= c.1 <= row_len(doc, c.0)
        }),
{
    match key {
        Key::Up => {},
        Key::Down => {},
        Key::Left => {},
        Key::Right => {},
        Key::PageUp => {},
        Key::PageDown => {},
        Key::Home => {},
        Key::End => {},
        _ => {},
    }
}

/// After dispatching any key at a valid cursor the cursor is again valid
/// for the document the dispatch produced.
pub proof fn lemma_key_cursor_in_bounds(
    doc: Seq<Seq<char>>,
    row: int,
    col: int,
    page: int,
    key: Key,
)
    requires
        0 <= row <= doc.len(),
        0 <= col <= row_len(doc, row),
        0 <= page,
        doc.len() < usize::MAX,
    ensures
        ({
            let d2 = doc_after_key(doc, row, col, key);
            let c2 = cursor_after_key(doc, row, col, page, key);
            0 <= c2.0 <= d2.len() && 0 <= c2.1 <= row_len(d2, c2.0)
        }),
{
    let d2 = doc_after_key(doc, row, col, key);
    let c2 = cursor_after_key(doc, row, col, page, key);
    match key {
        Key::Enter => {
            let doc1 = doc_insert_newline(doc, row, col);
            lemma_cursor_in_bounds(doc1, row, col, page, Key::Down);
            let p = cursor_after(doc1, row, col, page, Key::Down);
            lemma_cursor_in_bounds(doc1, p.0, p.1, page, Key::Home);
        },
        Key::Char(c) => {
            let doc1 = doc_insert(doc, row, col, c);
            lemma_cursor_in_bounds(doc1, row, col, page, Key::Right);
        },
        Key::Backspace => {
            if col > 0 || row > 0 {
                lemma_cursor_in_bounds(doc, row, col, 0, Key::Left);
            }
        },
        _ => {
            lemma_cursor_in_bounds(doc, row, col, page, key);
        },
    }
}

/// After recomputing the scroll offset the cursor lies inside the viewport
/// window, provided the viewport extent is positive and the window does not
/// run into the machine-integer ceiling.
pub proof fn lemma_cursor_visible(offset: int, cursor: int, extent: int)
    requires
        0 <= offset,
        0 <= cursor,
        1 <= extent,
        cursor + extent <= usize::MAX,
    ensures
        ({
            let o = scrolled(offset, cursor, extent);
            o <= cursor < o + extent
        }),
{
}

} // verus!
