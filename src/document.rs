use vstd::prelude::*;
use crate::editor::Position;
use crate::row::{Row, graphemes_of, inserted, push_char};

verus! {

/// The number of grapheme clusters in line `y` of `doc`; a line past the
/// end counts as empty.
pub open spec fn row_len(doc: Seq<Seq<char>>, y: int) -> int {
    if 0 <= y < doc.len() {
        graphemes_of(doc[y]).len() as int
    } else {
        0
    }
}

/// The lines of `text` as `str::lines` gives them: the text is cut after
/// each `'\n'`, the `'\n'` and one `'\r'` before it are dropped, and a last
/// piece that is empty is no line.
pub open spec fn lines_of(text: Seq<char>) -> Seq<Seq<char>>
    decreases text.len(),
{
    if text.len() == 0 {
        Seq::empty()
    } else {
        let rest = lines_of(text.drop_last());
        let c = text.last();
        if pending(text.drop_last()) {
            // the text so far ends inside a line
            let open = rest.last();
            let line = if c == '\n' { strip_cr(open) } else { open.push(c) };
            rest.update(rest.len() - 1, line)
        } else {
            rest.push(if c == '\n' { Seq::empty() } else { seq![c] })
        }
    }
}

/// Whether `text` ends inside a line, that is it is not empty and does not
/// end with `'\n'`.
pub open spec fn pending(text: Seq<char>) -> bool {
    text.len() > 0 && text.last() != '\n'
}

/// `line` without one trailing `'\r'`.
pub open spec fn strip_cr(line: Seq<char>) -> Seq<char> {
    if line.len() > 0 && line.last() == '\r' {
        line.drop_last()
    } else {
        line
    }
}

/// `doc` after `c` is inserted at column `x` of line `y`. A newline, a
/// missing line or a column past the line's end leave it as it is.
pub open spec fn doc_inserted(doc: Seq<Seq<char>>, x: int, y: int, c: char) -> Seq<Seq<char>> {
    if 0 <= y < doc.len() && c != '\n' && 0 <= x <= row_len(doc, y) {
        doc.update(y, inserted(graphemes_of(doc[y]), x, c))
    } else {
        doc
    }
}

/// An ordered sequence of rows, one per line of the text it was read from.
pub struct Document {
    rows: Vec<Row>,
}

impl View for Document {
    type V = Seq<Seq<char>>;

    closed spec fn view(&self) -> Seq<Seq<char>> {
        self.rows@.map_values(|r: Row| r@)
    }
}

impl Default for Document {
    fn default() -> (r: Document)
        ensures
            r@ == Seq::<Seq<char>>::empty(),
    {
        let d = Document { rows: Vec::new() };
        assert(d@ =~= Seq::<Seq<char>>::empty());
        d
    }
}

impl Document {
    /// A document with one row per line of `text`, in order.
    pub fn from_text(text: &str) -> (r: Document)
        ensures
            r@ == lines_of(text@),
    {
        let mut rows: Vec<Row> = Vec::new();
        let mut cur = String::new();
        let mut cr = false;
        let ghost t = text@;
        for c in it: text.chars()
            invariant
                it.seq() == t,
                ({
                    let p = t.take(it.index() as int);
                    let open = if cr { cur@.push('\r') } else { cur@ };
                    let done = rows@.map_values(|r: Row| r@);
                    &&& pending(p) ==> done.push(open) == lines_of(p) && open.len() > 0
                    &&& !pending(p) ==> done == lines_of(p) && cur@.len() == 0 && !cr
                    &&& !cr ==> cur@.len() == 0 || cur@.last() != '\r'
                }),
        {
            let ghost p = t.take(it.index() as int);
            let ghost done = rows@.map_values(|r: Row| r@);
            let ghost open = if cr { cur@.push('\r') } else { cur@ };
            let ghost cur0 = cur@;
            proof {
                if cr {
                    assert(open.drop_last() =~= cur0);
                }
                assert(strip_cr(open) == cur0);
                assert(t.take(it.index() as int + 1).drop_last() =~= p);
                assert(t.take(it.index() as int + 1).last() == c);
            }
            if c == '\n' {
                rows.push(Row::from_line(cur.as_str()));
                cur = String::new();
                cr = false;
            } else if c == '\r' {
                if cr {
                    push_char(&mut cur, '\r');
                }
                cr = true;
            } else {
                if cr {
                    push_char(&mut cur, '\r');
                }
                push_char(&mut cur, c);
                cr = false;
            }
            proof {
                let q = t.take(it.index() as int + 1);
                let done2 = rows@.map_values(|r: Row| r@);
                assert(q.drop_last() =~= p);
                if pending(p) {
                    assert(lines_of(p).drop_last() =~= done);
                    assert(lines_of(p).last() == open);
                    assert(lines_of(p) =~= done.push(open));
                }
                if c == '\n' {
                    assert(done2 =~= done.push(cur0));
                    if pending(p) {
                        assert(lines_of(q) =~= done.push(strip_cr(open)));
                    } else {
                        assert(cur0 =~= Seq::<char>::empty());
                        assert(lines_of(q) =~= done.push(Seq::empty()));
                    }
                    assert(!pending(q));
                } else {
                    assert(done2 =~= done);
                    assert(pending(q));
                    let open2 = if cr { cur@.push('\r') } else { cur@ };
                    if pending(p) {
                        assert(open2 =~= open.push(c));
                        assert(lines_of(q) =~= done.push(open.push(c)));
                    } else {
                        assert(open2 =~= seq![c]);
                    }
                }
            }
        }
        let ghost done = rows@.map_values(|r: Row| r@);
        let ghost open = if cr { cur@.push('\r') } else { cur@ };
        proof {
            assert(t.take(t.len() as int) =~= t);
        }
        if cr {
            push_char(&mut cur, '\r');
        }
        if cur.as_str().unicode_len() > 0 {
            rows.push(Row::from_line(cur.as_str()));
            assert(rows@.map_values(|r: Row| r@) =~= done.push(cur@));
        }
        let d = Document { rows };
        assert(d@ =~= lines_of(t));
        d
    }

    /// The row at `line_num`, or `None` past the last row.
    pub fn row(&self, line_num: usize) -> (r: Option<&Row>)
        ensures
            line_num < self@.len() <==> r is Some,
            r matches Some(row) ==> row@ == self@[line_num as int],
    {
        if line_num < self.rows.len() {
            Some(&self.rows[line_num])
        } else {
            None
        }
    }

    /// The number of rows.
    pub fn len(&self) -> (r: usize)
        ensures
            r == self@.len(),
    {
        self.rows.len()
    }

    /// Inserts `c` into row `at.y` before its grapheme cluster `at.x`. A
    /// newline, a missing row or a column past the row's end changes
    /// nothing.
    pub fn insert(&mut self, at: &Position, c: char)
        ensures
            final(self)@ == doc_inserted(old(self)@, at.x as int, at.y as int, c),
    {
        let x = at.x;
        let y = at.y;
        if y < self.rows.len() && c != '\n' {
            let ghost before = self.rows@;
            self.rows[y].insert(x, c);
            proof {
                assert(self.rows@ == before.update(y as int, self.rows@[y as int]));
                if x as int <= graphemes_of(before[y as int]@).len() {
                    assert(self@ =~= old(self)@.update(
                        y as int,
                        inserted(graphemes_of(old(self)@[y as int]), x as int, c),
                    ));
                } else {
                    assert(self@ =~= old(self)@);
                }
            }
        }
    }
}

} // verus!
