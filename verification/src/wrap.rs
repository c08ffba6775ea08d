//! How many rows a message takes when word-wrapped into a popup: lines
//! break at the last space that fits, and a word wider than the popup is
//! broken where the row ends.
use vstd::prelude::*;

verus! {

/// The pieces a line is cut into at spaces, each keeping its space (as
/// `split_inclusive(' ')` cuts): the lengths of the finished pieces, and
/// of the piece still open.
pub open spec fn word_state(s: Seq<char>) -> (Seq<nat>, nat)
    decreases s.len(),
{
    if s.len() == 0 {
        (Seq::empty(), 0)
    } else {
        let (d, c) = word_state(s.drop_last());
        if s.last() == ' ' {
            (d.push(c + 1), 0)
        } else {
            (d, c + 1)
        }
    }
}

/// Placing a piece of `len` columns: it goes on a new row when it does not
/// fit behind what the current row holds; a piece wider than a row fills
/// whole rows and goes on with the rest.
pub open spec fn wrap_step(st: (nat, nat), len: nat, width: nat) -> (nat, nat) {
    let (lines0, col0) = if st.1 > 0 && st.1 + len > width {
        (st.0 + 1, 0nat)
    } else {
        st
    };
    if len > width {
        (lines0 + len / width, len % width)
    } else {
        (lines0, col0 + len)
    }
}

/// Rows completed and columns used on the current row after placing
/// `lens` in turn.
pub open spec fn wrap_fold(lens: Seq<nat>, width: nat) -> (nat, nat)
    decreases lens.len(),
{
    if lens.len() == 0 {
        (0, 0)
    } else {
        wrap_step(wrap_fold(lens.drop_last(), width), lens.last(), width)
    }
}

/// The rows one line takes at `width` columns: one for an empty line.
pub open spec fn line_height_spec(line: Seq<char>, width: nat) -> nat {
    if line.len() == 0 {
        1
    } else {
        let (d, w) = word_state(line);
        let (l, c) = if w > 0 {
            wrap_step(wrap_fold(d, width), w, width)
        } else {
            wrap_fold(d, width)
        };
        if c > 0 {
            l + 1
        } else {
            l
        }
    }
}

/// The lines of `s` as `split('\n')` cuts them: the finished ones, and
/// the one still open.
pub open spec fn nl_state(s: Seq<char>) -> (Seq<Seq<char>>, Seq<char>)
    decreases s.len(),
{
    if s.len() == 0 {
        (Seq::empty(), Seq::empty())
    } else {
        let (d, c) = nl_state(s.drop_last());
        if s.last() == '\n' {
            (d.push(c), Seq::empty())
        } else {
            (d, c.push(s.last()))
        }
    }
}

/// The rows of `lines` summed.
pub open spec fn heights_sum(lines: Seq<Seq<char>>, width: nat) -> nat
    decreases lines.len(),
{
    if lines.len() == 0 {
        0
    } else {
        heights_sum(lines.drop_last(), width) + line_height_spec(lines.last(), width)
    }
}

/// The rows `text` takes at `width` columns, each of its lines wrapped on
/// its own; at least one, and one for a width of zero.
pub open spec fn wrap_count_spec(text: Seq<char>, width: nat) -> nat {
    if width == 0 {
        1
    } else {
        let (d, c) = nl_state(text);
        let t = heights_sum(d.push(c), width);
        if t == 0 {
            1
        } else {
            t
        }
    }
}

proof fn lemma_div_bound(len: nat, width: nat)
    requires
        len >= 1,
        width >= 1,
    ensures
        len / width + (if len % width > 0 {
            1nat
        } else {
            0
        }) <= len,
        len % width < width,
        len / width <= len,
{
    assert(len == width * (len / width) + len % width) by (nonlinear_arith)
        requires
            width >= 1,
    ;
    assert(width * (len / width) >= len / width) by (nonlinear_arith)
        requires
            width >= 1,
            len / width >= 0,
    ;
}

pub open spec fn mark(c: nat) -> nat {
    if c > 0 {
        1
    } else {
        0
    }
}

/// Places a piece of `len` columns.
fn step(lines: usize, col: usize, len: usize, width: usize) -> (r: (usize, usize))
    requires
        width >= 1,
        col <= width,
        len >= 1,
        lines + mark(col as nat) + len <= usize::MAX,
    ensures
        (r.0 as nat, r.1 as nat) == wrap_step((lines as nat, col as nat), len as nat, width as nat),
        r.1 <= width,
        r.0 + mark(r.1 as nat) <= lines + mark(col as nat) + len,
{
    proof {
        lemma_div_bound(len as nat, width as nat);
    }
    let mut l = lines;
    let mut c = col;
    if c > 0 && len > width - c {
        l = l + 1;
        c = 0;
    }
    if len > width {
        (l + len / width, len % width)
    } else {
        (l, c + len)
    }
}

/// Rows of one line in progress: rows done, columns used on the current
/// row, length of the piece still open, and characters seen.
struct LineWrap {
    lines: usize,
    col: usize,
    word: usize,
    seen: usize,
}

impl LineWrap {
    spec fn models(&self, s: Seq<char>, width: nat) -> bool {
        let (d, w) = word_state(s);
        &&& (self.lines as nat, self.col as nat) == wrap_fold(d, width)
        &&& self.word == w
        &&& self.seen == s.len()
        &&& self.col <= width
        &&& self.lines + mark(self.col as nat) + self.word <= self.seen
    }

    fn new() -> (r: Self)
        ensures
            r.models(Seq::empty(), 1),
            forall|w: nat| w >= 1 ==> r.models(Seq::empty(), w),
    {
        LineWrap { lines: 0, col: 0, word: 0, seen: 0 }
    }

    fn feed(&mut self, c: char, width: usize, Ghost(s): Ghost<Seq<char>>)
        requires
            width >= 1,
            old(self).models(s, width as nat),
            s.len() < usize::MAX,
        ensures
            final(self).models(s.push(c), width as nat),
    {
        assert(s.push(c).drop_last() =~= s);
        assert(s.push(c).last() == c);
        let ghost (d, w) = word_state(s);
        assert(word_state(s.push(c)) == (if c == ' ' { (d.push(w + 1), 0nat) } else { (d, w + 1) }));
        self.seen = self.seen + 1;
        self.word = self.word + 1;
        if c == ' ' {
            let (l, col) = step(self.lines, self.col, self.word, width);
            self.lines = l;
            self.col = col;
            self.word = 0;
            assert(d.push(w + 1).drop_last() =~= d);
        }
    }

    fn finish(&self, width: usize, Ghost(s): Ghost<Seq<char>>) -> (r: usize)
        requires
            width >= 1,
            self.models(s, width as nat),
        ensures
            r == line_height_spec(s, width as nat),
            r <= s.len() + 1,
    {
        if self.seen == 0 {
            return 1;
        }
        let (l, c) = if self.word > 0 {
            step(self.lines, self.col, self.word, width)
        } else {
            (self.lines, self.col)
        };
        if c > 0 {
            l + 1
        } else {
            l
        }
    }
}

/// The rows `line` takes at `width` columns.
pub fn wrapped_line_height(line: &str, width: usize) -> (r: usize)
    requires
        width >= 1,
        line@.len() < usize::MAX,
    ensures
        r == line_height_spec(line@, width as nat),
{
    let n = line.unicode_len();
    let mut st = LineWrap::new();
    let mut i: usize = 0;
    while i < n
        invariant
            n == line@.len(),
            n < usize::MAX,
            width >= 1,
            i <= n,
            st.models(line@.take(i as int), width as nat),
        decreases n - i,
    {
        let c = line.get_char(i);
        st.feed(c, width, Ghost(line@.take(i as int)));
        assert(line@.take(i as int).push(c) =~= line@.take(i + 1));
        i = i + 1;
    }
    assert(line@.take(n as int) =~= line@);
    st.finish(width, Ghost(line@))
}

/// The rows `text` takes at `width` columns when each of its lines is
/// word-wrapped; at least one.
pub fn wrap_line_count(text: &str, width: usize) -> (r: usize)
    requires
        text@.len() < usize::MAX,
    ensures
        r == wrap_count_spec(text@, width as nat),
{
    if width == 0 {
        return 1;
    }
    let n = text.unicode_len();
    let mut total: usize = 0;
    let mut st = LineWrap::new();
    let mut i: usize = 0;
    while i < n
        invariant
            n == text@.len(),
            n < usize::MAX,
            width >= 1,
            i <= n,
            st.models(nl_state(text@.take(i as int)).1, width as nat),
            total == heights_sum(nl_state(text@.take(i as int)).0, width as nat),
            total + nl_state(text@.take(i as int)).1.len() <= i,
        decreases n - i,
    {
        let c = text.get_char(i);
        let ghost pre = text@.take(i as int);
        let ghost (d, cur) = nl_state(pre);
        assert(text@.take(i + 1).drop_last() =~= pre);
        assert(text@.take(i + 1).last() == c);
        if c == '\n' {
            let h = st.finish(width, Ghost(cur));
            total = total + h;
            st = LineWrap::new();
            assert(d.push(cur).drop_last() =~= d);
        } else {
            proof {
                lemma_nl_cur_len(pre);
            }
            st.feed(c, width, Ghost(cur));
        }
        i = i + 1;
    }
    assert(text@.take(n as int) =~= text@);
    let ghost (d, cur) = nl_state(text@);
    let h = st.finish(width, Ghost(cur));
    assert(d.push(cur).drop_last() =~= d);
    let t = total + h;
    if t == 0 {
        1
    } else {
        t
    }
}

proof fn lemma_nl_cur_len(s: Seq<char>)
    ensures
        nl_state(s).1.len() <= s.len(),
    decreases s.len(),
{
    if s.len() > 0 {
        lemma_nl_cur_len(s.drop_last());
    }
}

} // verus!
