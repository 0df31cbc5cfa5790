use unicode_segmentation::UnicodeSegmentation;
use vstd::prelude::*;

verus! {

/// The extended grapheme clusters of a text, in order.
pub uninterp spec fn graphemes_of(s: Seq<char>) -> Seq<Seq<char>>;

/// The texts of `parts` written one after the other.
pub open spec fn join(parts: Seq<Seq<char>>) -> Seq<char>
    decreases parts.len(),
{
    if parts.len() == 0 {
        Seq::empty()
    } else {
        join(parts.drop_last()) + parts.last()
    }
}

/// Joining two runs of parts is joining each and writing one after the other.
pub proof fn lemma_join_append(a: Seq<Seq<char>>, b: Seq<Seq<char>>)
    ensures
        join(a + b) == join(a) + join(b),
    decreases b.len(),
{
    if b.len() == 0 {
        assert(a + b =~= a);
        assert(join(a) + join(b) =~= join(a));
    } else {
        lemma_join_append(a, b.drop_last());
        assert((a + b).drop_last() =~= a + b.drop_last());
        assert(join(a) + join(b) =~= join(a) + join(b.drop_last()) + b.last());
    }
}

/// Joining `parts[lo..i + 1]` extends joining `parts[lo..i]` by `parts[i]`.
proof fn lemma_join_extend(parts: Seq<Seq<char>>, lo: int, i: int)
    requires
        0 <= lo <= i < parts.len(),
    ensures
        join(parts.subrange(lo, i + 1)) == join(parts.subrange(lo, i)) + parts[i],
{
    assert(parts.subrange(lo, i + 1).drop_last() =~= parts.subrange(lo, i));
}

/// Where a row is rendered from `start` to `end`: the grapheme indices
/// `[lo, hi)`, with both ends clamped to the row's length and `lo <= hi`.
pub open spec fn render_range(len: int, start: int, end: int) -> (int, int) {
    let hi = if end < len { end } else { len };
    let lo = if start < hi { start } else { hi };
    (lo, hi)
}

/// The text of a row whose grapheme clusters are `g` after `c` is inserted
/// before the cluster at `at`.
pub open spec fn inserted(g: Seq<Seq<char>>, at: int, c: char) -> Seq<char> {
    join(g.take(at)) + seq![c] + join(g.skip(at))
}

/// Relies on `String::push`: appends one character.
#[verifier::external_body]
pub(crate) fn push_char(s: &mut String, c: char)
    ensures
        final(s)@ == old(s)@.push(c),
{
    s.push(c)
}

/// Relies on `UnicodeSegmentation::graphemes(s, true)`: it yields the
/// extended grapheme clusters of `s` as consecutive slices that run from the
/// start of `s` to its end, so that together they spell `s`.
#[verifier::external_body]
fn split_graphemes(s: &str) -> (r: Vec<String>)
    ensures
        r@.len() == graphemes_of(s@).len(),
        forall|i: int| 0 <= i < r@.len() ==> #[trigger] r@[i]@ == graphemes_of(s@)[i],
        join(texts(r@)) == s@,
{
    s.graphemes(true).map(String::from).collect()
}

/// One line of text, measured in grapheme clusters.
pub struct Row {
    string: String,
    len: usize,
}

impl View for Row {
    type V = Seq<char>;

    closed spec fn view(&self) -> Seq<char> {
        self.string@
    }
}

impl Row {
    #[verifier::type_invariant]
    spec fn inv(self) -> bool {
        self.len == graphemes_of(self.string@).len()
    }

    /// The grapheme clusters of the row, in order.
    pub open spec fn graphemes(&self) -> Seq<Seq<char>> {
        graphemes_of(self@)
    }

    /// A row holding `line` verbatim.
    pub fn from_line(line: &str) -> (r: Row)
        ensures
            r@ == line@,
    {
        let parts = split_graphemes(line);
        Row { string: line.to_string(), len: parts.len() }
    }

    /// The row's text.
    pub fn as_str(&self) -> (r: &str)
        ensures
            r@ == self@,
    {
        self.string.as_str()
    }

    /// The number of grapheme clusters in the row.
    pub fn len(&self) -> (r: usize)
        ensures
            r == self.graphemes().len(),
    {
        proof {
            use_type_invariant(self);
        }
        self.len
    }

    /// The grapheme clusters from `start` up to `end`, as one text. Both
    /// ends are clamped to the row, so any pair of indices is accepted.
    pub fn render(&self, start: usize, end: usize) -> (r: String)
        ensures
            ({
                let (lo, hi) = render_range(self.graphemes().len() as int, start as int, end as int);
                &&& 0 <= lo <= hi <= self.graphemes().len()
                &&& hi - lo <= (if start <= end { end - start } else { 0 })
                &&& r@ == join(self.graphemes().subrange(lo, hi))
            }),
    {
        let parts = split_graphemes(self.string.as_str());
        proof {
            assert(texts(parts@) =~= self.graphemes());
        }
        join_range(&parts, start, end)
    }

    /// Inserts `c` before the grapheme cluster at index `at`, or at the end
    /// when `at` is the row's length; an index past the end changes
    /// nothing. The length is then counted afresh.
    pub fn insert(&mut self, at: usize, c: char)
        ensures
            at <= old(self).graphemes().len() ==> final(self)@ == inserted(
                old(self).graphemes(),
                at as int,
                c,
            ),
            at <= old(self).graphemes().len() ==> final(self)@ == old(self)@.insert(
                join(old(self).graphemes().take(at as int)).len() as int,
                c,
            ),
            at > old(self).graphemes().len() ==> final(self)@ == old(self)@,
    {
        let parts = split_graphemes(self.string.as_str());
        let ghost g = self.graphemes();
        proof {
            assert(texts(parts@) =~= g);
        }
        if at > parts.len() {
            return;
        }
        let s = insert_before(&parts, at, c);
        proof {
            assert(g =~= g.take(at as int) + g.skip(at as int));
            lemma_join_append(g.take(at as int), g.skip(at as int));
            assert(s@ =~= self@.insert(join(g.take(at as int)).len() as int, c));
        }
        let counted = split_graphemes(s.as_str());
        *self = Row { string: s, len: counted.len() };
    }
}

/// The texts of `parts`.
pub open spec fn texts(parts: Seq<String>) -> Seq<Seq<char>> {
    parts.map_values(|p: String| p@)
}

/// The clusters `parts` from `start` up to `end`, as one text, with both
/// ends clamped to the number of clusters.
pub fn join_range(parts: &Vec<String>, start: usize, end: usize) -> (r: String)
    ensures
        ({
            let (lo, hi) = render_range(parts@.len() as int, start as int, end as int);
            &&& 0 <= lo <= hi <= parts@.len()
            &&& hi - lo <= (if start <= end { end - start } else { 0 })
            &&& r@ == join(texts(parts@).subrange(lo, hi))
        }),
{
    let ghost g = texts(parts@);
    let n = parts.len();
    let hi = if end < n { end } else { n };
    let lo = if start < hi { start } else { hi };
    let mut out = String::new();
    let mut i = lo;
    assert(g.subrange(lo as int, lo as int) =~= Seq::<Seq<char>>::empty());
    while i < hi
        invariant
            lo <= i <= hi <= n,
            n == parts@.len() == g.len(),
            g == texts(parts@),
            out@ == join(g.subrange(lo as int, i as int)),
        decreases hi - i,
    {
        proof {
            lemma_join_extend(g, lo as int, i as int);
        }
        out.append(parts[i].as_str());
        i = i + 1;
    }
    out
}

/// The clusters `parts` as one text with `c` written before cluster `at`,
/// or after the last one when `at` is their number.
pub fn insert_before(parts: &Vec<String>, at: usize, c: char) -> (r: String)
    requires
        at <= parts@.len(),
    ensures
        r@ == inserted(texts(parts@), at as int, c),
{
    let ghost g = texts(parts@);
    let mut s = String::new();
    let mut i: usize = 0;
    assert(g.take(0) =~= Seq::<Seq<char>>::empty());
    while i < parts.len()
        invariant
            at <= parts@.len() == g.len(),
            i <= parts@.len(),
            g == texts(parts@),
            i <= at ==> s@ == join(g.take(i as int)),
            i > at ==> s@ == join(g.take(at as int)) + seq![c] + join(
                g.subrange(at as int, i as int),
            ),
        decreases parts@.len() - i,
    {
        if i == at {
            push_char(&mut s, c);
            proof {
                assert(g.subrange(at as int, at as int) =~= Seq::<Seq<char>>::empty());
            }
        }
        proof {
            if i < at {
                assert(g.take(i as int) =~= g.subrange(0, i as int));
                assert(g.take(i as int + 1) =~= g.subrange(0, i as int + 1));
                lemma_join_extend(g, 0, i as int);
            } else {
                lemma_join_extend(g, at as int, i as int);
            }
        }
        s.append(parts[i].as_str());
        i = i + 1;
    }
    if at == parts.len() {
        push_char(&mut s, c);
        assert(g.skip(at as int) =~= Seq::<Seq<char>>::empty());
        assert(g.take(at as int) =~= g);
    } else {
        assert(g.skip(at as int) =~= g.subrange(at as int, g.len() as int));
    }
    s
}

} // verus!
