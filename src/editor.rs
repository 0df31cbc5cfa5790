use vstd::prelude::*;
use crate::document::{Document, doc_inserted, row_len};
use crate::row::{join, render_range, graphemes_of, push_char};

verus! {

/// A place in a document: `x` counts grapheme clusters within row `y`.
#[derive(Clone, Copy, Debug, PartialEq, Eq, Structural)]
pub struct Position {
    pub x: usize,
    pub y: usize,
}

impl Default for Position {
    fn default() -> (r: Position)
        ensures
            r == (Position { x: 0, y: 0 }),
    {
        Position { x: 0, y: 0 }
    }
}

/// The size of the text area of the screen, in cells.
#[derive(Clone, Copy, Debug, PartialEq, Eq, Structural)]
pub struct Size {
    pub width: u16,
    pub height: u16,
}

/// The editing mode, which decides what a key does.
#[derive(Clone, Copy, Debug, PartialEq, Eq, Structural)]
pub enum Mode {
    Normal,
    Insert,
}

/// One key press.
#[derive(Clone, Copy, Debug, PartialEq, Eq, Structural)]
pub enum Key {
    /// A character key.
    Char(char),
    /// A character key pressed with Ctrl.
    Ctrl(char),
    /// The escape key.
    Esc,
    /// Any other key.
    Other,
}

/// Cursor and scroll offset as integers: the cursor at `(x, y)`, the cell
/// at the top left of the screen at `(ox, oy)`.
pub struct Nav {
    pub x: int,
    pub y: int,
    pub ox: int,
    pub oy: int,
}

pub open spec fn sat_dec(v: int) -> int {
    if v > 0 {
        v - 1
    } else {
        0
    }
}

/// `a - b`, or 0 where that is negative.
pub open spec fn sat_dec_by(a: int, b: int) -> int {
    if a > b {
        a - b
    } else {
        0
    }
}

pub open spec fn min(a: int, b: int) -> int {
    if a < b {
        a
    } else {
        b
    }
}

/// Whether `k` is one of the four movement keys.
pub open spec fn is_move(k: Key) -> bool {
    k == Key::Char('l') || k == Key::Char('h') || k == Key::Char('j') || k == Key::Char('k')
}

/// The direct effect of a movement key on cursor and offset, on a screen
/// `w` wide and `h` high, before the column is fitted to the row.
pub open spec fn step(s: Nav, w: int, h: int, doc: Seq<Seq<char>>, key: Key) -> Nav {
    if key == Key::Char('l') {
        if row_len(doc, s.y) > s.x + 1 {
            let x = s.x + 1;
            Nav { x, ox: if x >= w + s.ox { s.ox + 1 } else { s.ox }, ..s }
        } else {
            s
        }
    } else if key == Key::Char('h') {
        let x = sat_dec(s.x);
        Nav { x, ox: if s.ox > x { x } else { s.ox }, ..s }
    } else if key == Key::Char('j') {
        if doc.len() > s.y + 1 {
            let y = s.y + 1;
            Nav { y, oy: if y >= h + s.oy { s.oy + 1 } else { s.oy }, ..s }
        } else {
            s
        }
    } else if key == Key::Char('k') {
        let y = sat_dec(s.y);
        Nav { y, oy: if s.oy > y { y } else { s.oy }, ..s }
    } else {
        s
    }
}

/// Cursor and offset after `key`: the step, then the column fitted to the
/// last character of the cursor's row (to 0 where there is no row), and the
/// horizontal offset kept at or left of the cursor.
pub open spec fn moved(s: Nav, w: int, h: int, doc: Seq<Seq<char>>, key: Key) -> Nav {
    let t = step(s, w, h, doc, key);
    let x = if t.y < doc.len() {
        min(t.x, sat_dec(row_len(doc, t.y)))
    } else {
        0
    };
    Nav { x, ox: if t.ox > x { x } else { t.ox }, ..t }
}

/// Cursor and offset after each key of `keys` in turn.
pub open spec fn moved_all(s: Nav, w: int, h: int, doc: Seq<Seq<char>>, keys: Seq<Key>) -> Nav
    decreases keys.len(),
{
    if keys.len() == 0 {
        s
    } else {
        moved(moved_all(s, w, h, doc, keys.drop_last()), w, h, doc, keys.last())
    }
}

/// The cursor is on a row of the document, or at row 0 of an empty one,
/// and no coordinate is negative.
pub open spec fn on_document(s: Nav, doc: Seq<Seq<char>>) -> bool {
    &&& 0 <= s.x && 0 <= s.y && 0 <= s.ox && 0 <= s.oy
    &&& (s.y < doc.len() || s.y == 0)
}

/// The cursor is inside the `w` by `h` window whose top left is the offset.
pub open spec fn in_view(s: Nav, w: int, h: int) -> bool {
    &&& s.ox <= s.x < s.ox + w
    &&& s.oy <= s.y < s.oy + h
}

/// One key keeps the cursor on the document.
pub proof fn lemma_moved_on_document(s: Nav, w: int, h: int, doc: Seq<Seq<char>>, key: Key)
    requires
        on_document(s, doc),
    ensures
        on_document(moved(s, w, h, doc, key), doc),
{
}

/// On a screen of at least one cell, one key keeps the cursor inside the
/// window.
pub proof fn lemma_moved_in_view(s: Nav, w: int, h: int, doc: Seq<Seq<char>>, key: Key)
    requires
        w > 0,
        h > 0,
        on_document(s, doc),
        in_view(s, w, h),
    ensures
        in_view(moved(s, w, h, doc, key), w, h),
{
}

/// Over any run of keys the cursor stays on the document.
pub proof fn lemma_moves_on_document(s: Nav, w: int, h: int, doc: Seq<Seq<char>>, keys: Seq<Key>)
    requires
        on_document(s, doc),
    ensures
        on_document(moved_all(s, w, h, doc, keys), doc),
    decreases keys.len(),
{
    if keys.len() > 0 {
        lemma_moves_on_document(s, w, h, doc, keys.drop_last());
        lemma_moved_on_document(moved_all(s, w, h, doc, keys.drop_last()), w, h, doc, keys.last());
    }
}

/// Over any run of keys the cursor stays on the document and, on a screen
/// of at least one cell, inside the window: `offset.x <= cursor.x <
/// offset.x + width` and `offset.y <= cursor.y < offset.y + height`.
pub proof fn lemma_moves_keep_view(s: Nav, w: int, h: int, doc: Seq<Seq<char>>, keys: Seq<Key>)
    requires
        on_document(s, doc),
        w > 0 && h > 0 ==> in_view(s, w, h),
    ensures
        on_document(moved_all(s, w, h, doc, keys), doc),
        w > 0 && h > 0 ==> in_view(moved_all(s, w, h, doc, keys), w, h),
    decreases keys.len(),
{
    if keys.len() > 0 {
        let t = moved_all(s, w, h, doc, keys.drop_last());
        lemma_moves_keep_view(s, w, h, doc, keys.drop_last());
        lemma_moved_on_document(t, w, h, doc, keys.last());
        if w > 0 && h > 0 {
            lemma_moved_in_view(t, w, h, doc, keys.last());
        }
    }
}

/// `n` presses of the same key.
pub open spec fn presses(key: Key, n: nat) -> Seq<Key> {
    Seq::new(n, |i: int| key)
}

/// Moving left `n` times takes the column down to at most `x - n`, and
/// never below 0; the row stays.
pub proof fn lemma_left_moves(s: Nav, w: int, h: int, doc: Seq<Seq<char>>, n: nat)
    requires
        on_document(s, doc),
    ensures
        ({
            let r = moved_all(s, w, h, doc, presses(Key::Char('h'), n));
            &&& 0 <= r.x <= (if s.x > n { s.x - n } else { 0 })
            &&& r.y == s.y
        }),
    decreases n,
{
    if n > 0 {
        let keys = presses(Key::Char('h'), n);
        assert(keys.drop_last() =~= presses(Key::Char('h'), (n - 1) as nat));
        lemma_left_moves(s, w, h, doc, (n - 1) as nat);
    }
}

/// Moving down `n` times (`n > 0`) from a row of the document lands on row
/// `min(y + n, row_count - 1)`, and the column is at most that row's last
/// index (0 for an empty row). On an empty document the cursor stays at the
/// origin.
pub proof fn lemma_down_moves(s: Nav, w: int, h: int, doc: Seq<Seq<char>>, n: nat)
    requires
        on_document(s, doc),
        n > 0,
    ensures
        ({
            let r = moved_all(s, w, h, doc, presses(Key::Char('j'), n));
            &&& doc.len() > 0 ==> r.y == min(s.y + n, doc.len() - 1)
            &&& doc.len() > 0 ==> 0 <= r.x <= sat_dec(row_len(doc, r.y))
            &&& doc.len() == 0 ==> r.y == 0 && r.x == 0
        }),
    decreases n,
{
    let keys = presses(Key::Char('j'), n);
    assert(keys.drop_last() =~= presses(Key::Char('j'), (n - 1) as nat));
    if n > 1 {
        lemma_down_moves(s, w, h, doc, (n - 1) as nat);
    } else {
        assert(keys.drop_last() =~= Seq::<Key>::empty());
    }
    lemma_moves_on_document(s, w, h, doc, keys.drop_last());
}

/// What a key does in Normal mode: Ctrl+Q asks to quit, a movement key
/// moves the cursor, `i` enters Insert mode, and any other key does
/// nothing. The document is never changed.
pub open spec fn normal_step(pre: Editor, post: Editor, key: Key, quit: bool) -> bool {
    &&& quit == (key == Key::Ctrl('q'))
    &&& post.document == pre.document
    &&& post.size == pre.size
    &&& if is_move(key) {
        &&& post.nav() == moved(pre.nav(), pre.width(), pre.height(), pre.document@, key)
        &&& post.mode == pre.mode
    } else {
        &&& post.cursor_position == pre.cursor_position
        &&& post.offset == pre.offset
        &&& post.mode == (if key == Key::Char('i') { Mode::Insert } else { pre.mode })
    }
}

/// Whether `c` is a printable character: not a control character (the
/// Unicode category Cc, `U+0000..=U+001F` and `U+007F..=U+009F`). Newline,
/// carriage return and tab are control characters.
pub open spec fn is_printable(c: char) -> bool {
    let v = c as u32;
    !(v <= 0x1f || (0x7f <= v && v <= 0x9f))
}

/// Whether `key` types a printable character.
pub open spec fn types_printable(key: Key) -> bool {
    match key {
        Key::Char(c) => is_printable(c),
        _ => false,
    }
}

/// What a key does in Insert mode: a printable character is inserted at
/// the cursor and the cursor then moves right as for `l`; Escape returns to
/// Normal mode; any other key, a control character such as Enter or Tab
/// among them, does nothing. Nothing here asks to quit.
pub open spec fn insert_step(pre: Editor, post: Editor, key: Key, quit: bool) -> bool {
    &&& !quit
    &&& post.size == pre.size
    &&& match key {
        Key::Char(c) if is_printable(c) => {
            &&& post.document@ == doc_inserted(
                pre.document@,
                pre.cursor_position.x as int,
                pre.cursor_position.y as int,
                c,
            )
            &&& post.nav() == moved(
                pre.nav(),
                pre.width(),
                pre.height(),
                post.document@,
                Key::Char('l'),
            )
            &&& post.mode == pre.mode
        },
        _ => {
            &&& post.document == pre.document
            &&& post.cursor_position == pre.cursor_position
            &&& post.offset == pre.offset
            &&& post.mode == (if key == Key::Esc { Mode::Normal } else { pre.mode })
        },
    }
}

/// `a + b`, or the largest `usize` where that is larger.
pub open spec fn sat_add(a: int, b: int) -> int {
    if a + b > usize::MAX {
        usize::MAX as int
    } else {
        a + b
    }
}

/// Screen line `r` of a window with top left `(ox, oy)` and width `w`: the
/// grapheme clusters `[ox, ox + w)` of document line `oy + r`, or `~` past
/// the last line.
pub open spec fn screen_line(doc: Seq<Seq<char>>, ox: int, oy: int, w: int, r: int) -> Seq<char> {
    let i = oy + r;
    if i < doc.len() {
        let g = graphemes_of(doc[i]);
        let (lo, hi) = render_range(g.len() as int, ox, sat_add(ox, w));
        join(g.subrange(lo, hi))
    } else {
        seq!['~']
    }
}

/// The name of a mode as the status bar shows it.
pub open spec fn mode_label(m: Mode) -> Seq<char> {
    match m {
        Mode::Normal => seq!['[', 'N', 'O', 'R', 'M', 'A', 'L', ']'],
        Mode::Insert => seq!['[', 'I', 'N', 'S', 'E', 'R', 'T', ']'],
    }
}

/// The status bar on a screen `w` wide: the mode's name, then spaces up to
/// the width.
pub open spec fn status_text(m: Mode, w: int) -> Seq<char> {
    let pad = if w > 8 { w - 8 } else { 0 };
    mode_label(m) + Seq::new(pad as nat, |i: int| ' ')
}

/// Whether `c` is a printable character, that is not a control character.
pub fn printable(c: char) -> (r: bool)
    ensures
        r == is_printable(c),
{
    let v = c as u32;
    !(v <= 0x1f || (0x7f <= v && v <= 0x9f))
}

/// An editor's state: the document, the cursor and scroll offset, the mode
/// and the size of the text area.
pub struct Editor {
    pub cursor_position: Position,
    pub offset: Position,
    pub document: Document,
    pub mode: Mode,
    pub size: Size,
}

impl Editor {
    pub open spec fn nav(&self) -> Nav {
        Nav {
            x: self.cursor_position.x as int,
            y: self.cursor_position.y as int,
            ox: self.offset.x as int,
            oy: self.offset.y as int,
        }
    }

    pub open spec fn width(&self) -> int {
        self.size.width as int
    }

    pub open spec fn height(&self) -> int {
        self.size.height as int
    }

    /// The cursor is on the document and, on a screen of at least one cell,
    /// inside the window.
    pub open spec fn wf(&self) -> bool {
        &&& on_document(self.nav(), self.document@)
        &&& self.width() > 0 && self.height() > 0 ==> in_view(
            self.nav(),
            self.width(),
            self.height(),
        )
    }

    /// An editor on `document` in Normal mode, with cursor and offset at the
    /// origin.
    pub fn new(document: Document, size: Size) -> (r: Editor)
        ensures
            r.cursor_position == (Position { x: 0, y: 0 }),
            r.offset == (Position { x: 0, y: 0 }),
            r.document == document,
            r.mode == Mode::Normal,
            r.size == size,
            r.wf(),
    {
        Editor {
            cursor_position: Position { x: 0, y: 0 },
            offset: Position { x: 0, y: 0 },
            document,
            mode: Mode::Normal,
            size,
        }
    }

    /// Moves the cursor for a movement key and fits column and offset to
    /// the row it lands on; any other key only does the fitting. A
    /// well-formed editor stays well-formed.
    pub fn move_cursor(&mut self, key: Key)
        ensures
            final(self).nav() == moved(
                old(self).nav(),
                old(self).width(),
                old(self).height(),
                old(self).document@,
                key,
            ),
            final(self).document == old(self).document,
            final(self).mode == old(self).mode,
            final(self).size == old(self).size,
            old(self).wf() ==> final(self).wf(),
    {
        proof {
            if self.wf() {
                lemma_moved_on_document(self.nav(), self.width(), self.height(), self.document@, key);
                if self.width() > 0 && self.height() > 0 {
                    lemma_moved_in_view(self.nav(), self.width(), self.height(), self.document@, key);
                }
            }
        }
        let mut x = self.cursor_position.x;
        let mut y = self.cursor_position.y;
        let width = self.size.width as usize;
        let height = self.size.height as usize;
        let row_len = match self.document.row(y) {
            Some(row) => row.len(),
            None => 0,
        };
        if key == Key::Char('l') {
            if row_len > 0 && x < row_len - 1 {
                x = x + 1;
                if x >= self.offset.x && x - self.offset.x >= width {
                    self.offset.x = self.offset.x + 1;
                }
            }
        } else if key == Key::Char('h') {
            x = if x > 0 { x - 1 } else { 0 };
            if self.offset.x > x {
                self.offset.x = x;
            }
        } else if key == Key::Char('j') {
            let n = self.document.len();
            if n > 0 && y < n - 1 {
                y = y + 1;
                if y >= self.offset.y && y - self.offset.y >= height {
                    self.offset.y = self.offset.y + 1;
                }
            }
        } else if key == Key::Char('k') {
            y = if y > 0 { y - 1 } else { 0 };
            if self.offset.y > y {
                self.offset.y = y;
            }
        }
        // On a shorter row the cursor goes back to its last character.

        let x = match self.document.row(y) {
            Some(row) => {
                let len = row.len();
                let last = if len > 0 { len - 1 } else { 0 };
                if x < last { x } else { last }
            },
            None => 0,
        };
        if self.offset.x > x {
            self.offset.x = x;
        }
        self.cursor_position = Position { x, y };
    }

    /// The text of each line of the screen, top to bottom.
    pub fn screen_rows(&self) -> (r: Vec<String>)
        ensures
            r@.len() == self.height(),
            forall|i: int|
                0 <= i < r@.len() ==> #[trigger] r@[i]@ == screen_line(
                    self.document@,
                    self.offset.x as int,
                    self.offset.y as int,
                    self.width(),
                    i,
                ),
    {
        let height = self.size.height as usize;
        let width = self.size.width as usize;
        let start = self.offset.x;
        let end = if start <= usize::MAX - width {
            start + width
        } else {
            usize::MAX
        };
        let n = self.document.len();
        let mut lines: Vec<String> = Vec::new();
        let mut r: usize = 0;
        while r < height
            invariant
                r <= height == self.height(),
                width == self.width(),
                start == self.offset.x,
                end == sat_add(start as int, width as int),
                n == self.document@.len(),
                lines@.len() == r,
                forall|i: int|
                    0 <= i < r ==> #[trigger] lines@[i]@ == screen_line(
                        self.document@,
                        self.offset.x as int,
                        self.offset.y as int,
                        self.width(),
                        i,
                    ),
            decreases height - r,
        {
            let row = if self.offset.y < n && r < n - self.offset.y {
                self.document.row(self.offset.y + r)
            } else {
                None
            };
            let line = match row {
                Some(row) => row.render(start, end),
                None => {
                    proof {
                        reveal_strlit("~");
                    }
                    "~".to_string()
                },
            };
            lines.push(line);
            r = r + 1;
        }
        lines
    }

    /// The status bar: the current mode's name, padded with spaces to the
    /// screen's width.
    pub fn status_bar(&self) -> (r: String)
        ensures
            r@ == status_text(self.mode, self.width()),
    {
        let mut bar = match self.mode {
            Mode::Normal => {
                proof {
                    reveal_strlit("[NORMAL]");
                }
                "[NORMAL]".to_string()
            },
            Mode::Insert => {
                proof {
                    reveal_strlit("[INSERT]");
                }
                "[INSERT]".to_string()
            },
        };
        let width = self.size.width as usize;
        let pad = if width > 8 { width - 8 } else { 0 };
        let ghost label = bar@;
        assert(label =~= mode_label(self.mode));
        let mut i: usize = 0;
        while i < pad
            invariant
                i <= pad,
                bar@ == label + Seq::new(i as nat, |k: int| ' '),
            decreases pad - i,
        {
            push_char(&mut bar, ' ');
            i = i + 1;
            assert(bar@ =~= label + Seq::new(i as nat, |k: int| ' '));
        }
        bar
    }

    /// Where the cursor stands on the screen: its place less the offset,
    /// each coordinate at least 0.
    pub fn screen_cursor(&self) -> (r: Position)
        ensures
            r.x == sat_dec_by(self.cursor_position.x as int, self.offset.x as int),
            r.y == sat_dec_by(self.cursor_position.y as int, self.offset.y as int),
    {
        Position {
            x: self.cursor_position.x.saturating_sub(self.offset.x),
            y: self.cursor_position.y.saturating_sub(self.offset.y),
        }
    }

    /// Handles one key in Normal mode; returns whether to quit.
    pub fn process_normal_mode(&mut self, key: Key) -> (quit: bool)
        ensures
            normal_step(*old(self), *final(self), key, quit),
    {
        if key == Key::Ctrl('q') {
            return true;
        }
        if key == Key::Char('l') || key == Key::Char('h') || key == Key::Char('j') || key
            == Key::Char('k') {
            self.move_cursor(key);
        } else if key == Key::Char('i') {
            self.mode = Mode::Insert;
        }
        false
    }

    /// Handles one key in Insert mode; never asks to quit.
    pub fn process_insert_mode(&mut self, key: Key) -> (quit: bool)
        ensures
            insert_step(*old(self), *final(self), key, quit),
    {
        match key {
            Key::Char(c) if printable(c) => {
                self.document.insert(&self.cursor_position, c);
                self.move_cursor(Key::Char('l'));
            },
            Key::Esc => {
                self.mode = Mode::Normal;
            },
            _ => {},
        }
        false
    }

    /// Handles one key in the current mode; returns whether to quit. A
    /// well-formed editor stays well-formed.
    pub fn process_key_press(&mut self, key: Key) -> (quit: bool)
        ensures
            old(self).mode == Mode::Normal ==> normal_step(*old(self), *final(self), key, quit),
            old(self).mode == Mode::Insert ==> insert_step(*old(self), *final(self), key, quit),
            old(self).wf() ==> final(self).wf(),
    {
        let ghost pre = *self;
        let quit = match self.mode {
            Mode::Normal => self.process_normal_mode(key),
            Mode::Insert => self.process_insert_mode(key),
        };
        proof {
            if pre.wf() {
                let (w, h) = (pre.width(), pre.height());
                if pre.mode == Mode::Normal {
                    lemma_moved_on_document(pre.nav(), w, h, pre.document@, key);
                    if w > 0 && h > 0 {
                        lemma_moved_in_view(pre.nav(), w, h, pre.document@, key);
                    }
                } else if types_printable(key) {
                    let doc = self.document@;
                    lemma_moved_on_document(pre.nav(), w, h, doc, Key::Char('l'));
                    if w > 0 && h > 0 {
                        lemma_moved_in_view(pre.nav(), w, h, doc, Key::Char('l'));
                    }
                }
            }
        }
        quit
    }
}

} // verus!
