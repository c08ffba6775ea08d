//! Character-level text helpers: the characters of a string, its lines
//! as `str::lines` splits them, and narrowing of sizes to `u16`.
use vstd::prelude::*;

verus! {

/// The characters of `s`, in order.
pub fn chars_of(s: &str) -> (r: Vec<char>)
    ensures
        r@ == s@,
{
    let mut r: Vec<char> = Vec::new();
    let n = s.unicode_len();
    let mut i: usize = 0;
    while i < n
        invariant
            n == s@.len(),
            i <= n,
            r@ == s@.take(i as int),
        decreases n - i,
    {
        r.push(s.get_char(i));
        assert(r@ =~= s@.take(i + 1));
        i = i + 1;
    }
    assert(s@.take(n as int) =~= s@);
    r
}

pub open spec fn clamp_u16_spec(n: int) -> u16 {
    if n > u16::MAX {
        u16::MAX
    } else {
        n as u16
    }
}

/// Narrows `n` to `u16`, clamping at `u16::MAX`.
pub fn clamp_u16(n: usize) -> (r: u16)
    ensures
        r == clamp_u16_spec(n as int),
{
    if n > 65535 {
        65535
    } else {
        n as u16
    }
}

pub open spec fn sat_sub(a: int, b: int) -> int {
    if a >= b {
        a - b
    } else {
        0
    }
}

/// A line without the carriage return that ended it, if any.
pub open spec fn strip_cr(l: Seq<char>) -> Seq<char> {
    if l.len() > 0 && l.last() == '\r' {
        l.drop_last()
    } else {
        l
    }
}

/// The lines of `s` completed by a `'\n'`, and the text after the last one.
pub open spec fn split_state(s: Seq<char>) -> (Seq<Seq<char>>, Seq<char>)
    decreases s.len(),
{
    if s.len() == 0 {
        (Seq::empty(), Seq::empty())
    } else {
        let (done, cur) = split_state(s.drop_last());
        if s.last() == '\n' {
            (done.push(strip_cr(cur)), Seq::empty())
        } else {
            (done, cur.push(s.last()))
        }
    }
}

/// The lines of `s` as `str::lines` yields them: split at each `'\n'`, a
/// `'\r'` right before it dropped, and a last line kept when it has no
/// line ending.
pub open spec fn text_lines(s: Seq<char>) -> Seq<Seq<char>> {
    let (done, cur) = split_state(s);
    if cur.len() == 0 {
        done
    } else {
        done.push(cur)
    }
}

/// The length of the longest of `ls`, 0 when there is none.
pub open spec fn max_len(ls: Seq<Seq<char>>) -> nat
    decreases ls.len(),
{
    if ls.len() == 0 {
        0
    } else {
        let m = max_len(ls.drop_last());
        if ls.last().len() > m {
            ls.last().len()
        } else {
            m
        }
    }
}

/// The number of lines of `s` and the length of its longest line.
pub fn line_stats(s: &str) -> (r: (usize, usize))
    ensures
        r.0 == text_lines(s@).len(),
        r.1 == max_len(text_lines(s@)),
{
    let cs = chars_of(s);
    let n = cs.len();
    let mut done: usize = 0;
    let mut done_max: usize = 0;
    let mut cur_len: usize = 0;
    let mut cur_cr = false;
    let mut i: usize = 0;
    while i < n
        invariant
            n == cs@.len(),
            cs@ == s@,
            i <= n,
            done + cur_len <= i,
            done_max <= i,
            done == split_state(cs@.take(i as int)).0.len(),
            done_max == max_len(split_state(cs@.take(i as int)).0),
            cur_len == split_state(cs@.take(i as int)).1.len(),
            cur_cr == (cur_len > 0 && split_state(cs@.take(i as int)).1.last() == '\r'),
        decreases n - i,
    {
        let c = cs[i];
        proof {
            let t = cs@.take(i + 1);
            assert(t.drop_last() =~= cs@.take(i as int));
            assert(t.last() == c);
        }
        if c == '\n' {
            proof {
                let (d0, c0) = split_state(cs@.take(i as int));
                assert(d0.push(strip_cr(c0)).drop_last() =~= d0);
            }
            let l = if cur_cr {
                cur_len - 1
            } else {
                cur_len
            };
            if l > done_max {
                done_max = l;
            }
            done = done + 1;
            cur_len = 0;
            cur_cr = false;
        } else {
            cur_len = cur_len + 1;
            cur_cr = c == '\r';
        }
        i = i + 1;
    }
    assert(cs@.take(n as int) =~= cs@);
    proof {
        let (d0, c0) = split_state(cs@);
        assert(d0.push(c0).drop_last() =~= d0);
    }
    if cur_len > 0 {
        let m = if cur_len > done_max {
            cur_len
        } else {
            done_max
        };
        (done + 1, m)
    } else {
        (done, done_max)
    }
}

pub open spec fn digit_spec(d: nat) -> char {
    seq!['0', '1', '2', '3', '4', '5', '6', '7', '8', '9'][d as int]
}

/// The decimal digits of `n`, most significant first.
pub open spec fn decimal(n: nat) -> Seq<char>
    decreases n,
{
    if n < 10 {
        seq![digit_spec(n)]
    } else {
        decimal(n / 10).push(digit_spec(n % 10))
    }
}

fn digit(d: usize) -> (r: char)
    requires
        d < 10,
    ensures
        r == digit_spec(d as nat),
{
    match d {
        0 => '0',
        1 => '1',
        2 => '2',
        3 => '3',
        4 => '4',
        5 => '5',
        6 => '6',
        7 => '7',
        8 => '8',
        _ => '9',
    }
}

/// Appends the decimal digits of `n` to `s`.
pub fn push_decimal(s: &mut String, n: usize)
    ensures
        final(s)@ == old(s)@ + decimal(n as nat),
    decreases n,
{
    if n >= 10 {
        push_decimal(s, n / 10);
    }
    crate::keymap::push_char(s, digit(n % 10));
    assert(final(s)@ =~= old(s)@ + decimal(n as nat)) by {
        if n >= 10 {
            assert(decimal(n as nat) == decimal((n / 10) as nat).push(digit_spec((n % 10) as nat)));
        }
    }
}

/// The decimal form of `n`.
pub fn decimal_string(n: usize) -> (r: String)
    ensures
        r@ == decimal(n as nat),
{
    let mut s = String::new();
    push_decimal(&mut s, n);
    assert(s@ =~= decimal(n as nat));
    s
}

/// Appends the decimal digits of `n` to `s`.
pub fn push_decimal_u64(s: &mut String, n: u64)
    ensures
        final(s)@ == old(s)@ + decimal(n as nat),
    decreases n,
{
    if n >= 10 {
        push_decimal_u64(s, n / 10);
    }
    let d = (n % 10) as usize;
    crate::keymap::push_char(s, digit(d));
    assert(final(s)@ =~= old(s)@ + decimal(n as nat)) by {
        if n >= 10 {
            assert(decimal(n as nat) == decimal((n / 10) as nat).push(digit_spec((n % 10) as nat)));
        }
    }
}

} // verus!
