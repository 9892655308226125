//! Line-oriented views of text: how a text falls into lines, and substring
//! occurrence.

use vstd::prelude::*;

verus! {

/// `line` without one carriage return at its end, if it has one.
pub open spec fn strip_cr(line: Seq<char>) -> Seq<char> {
    if line.len() > 0 && line.last() == '\r' {
        line.drop_last()
    } else {
        line
    }
}

/// Reads `s` from the left: the lines closed by a line feed so far (each
/// without its `\n` and without a `\r` before it), and the characters read
/// since the last line feed.
pub open spec fn scan_lines(s: Seq<char>) -> (Seq<Seq<char>>, Seq<char>)
    decreases s.len(),
{
    if s.len() == 0 {
        (Seq::empty(), Seq::empty())
    } else {
        let (done, cur) = scan_lines(s.drop_last());
        if s.last() == '\n' {
            (done.push(strip_cr(cur)), Seq::empty())
        } else {
            (done, cur.push(s.last()))
        }
    }
}

/// The lines of `s`, as `str::lines` yields them: split at `\n` or `\r\n`,
/// terminators removed, and a last line only where text follows the last
/// line feed.
pub open spec fn lines(s: Seq<char>) -> Seq<Seq<char>> {
    let (done, cur) = scan_lines(s);
    if cur.len() == 0 {
        done
    } else {
        done.push(cur)
    }
}

/// Each line of `ls` followed by a line feed, in order.
pub open spec fn join_lines(ls: Seq<Seq<char>>) -> Seq<char>
    decreases ls.len(),
{
    if ls.len() == 0 {
        Seq::empty()
    } else {
        join_lines(ls.drop_last()) + ls.last().push('\n')
    }
}

/// `l` can stand as one line of a text: it holds no line feed and does not
/// end in a carriage return.
pub open spec fn plain_line(l: Seq<char>) -> bool {
    &&& forall|i: int| 0 <= i < l.len() ==> l[i] != '\n'
    &&& !(l.len() > 0 && l.last() == '\r')
}

/// Characters without a line feed extend the unfinished line.
pub proof fn lemma_scan_extend(a: Seq<char>, l: Seq<char>)
    requires
        forall|i: int| 0 <= i < l.len() ==> l[i] != '\n',
    ensures
        scan_lines(a + l) == (scan_lines(a).0, scan_lines(a).1 + l),
    decreases l.len(),
{
    if l.len() == 0 {
        assert(a + l =~= a);
        assert(scan_lines(a).1 + l =~= scan_lines(a).1);
    } else {
        assert((a + l).drop_last() =~= a + l.drop_last());
        lemma_scan_extend(a, l.drop_last());
        assert(scan_lines(a).1 + l.drop_last().push(l.last()) =~= scan_lines(a).1 + l);
    }
}

/// After a text that ends at a line break, a second text is read as if on
/// its own.
pub proof fn lemma_scan_concat(a: Seq<char>, b: Seq<char>)
    requires
        scan_lines(a).1.len() == 0,
    ensures
        scan_lines(a + b) == (scan_lines(a).0 + scan_lines(b).0, scan_lines(b).1),
    decreases b.len(),
{
    if b.len() == 0 {
        assert(a + b =~= a);
        assert(scan_lines(a).0 + scan_lines(b).0 =~= scan_lines(a).0);
        assert(scan_lines(a).1 =~= scan_lines(b).1);
    } else {
        assert((a + b).drop_last() =~= a + b.drop_last());
        lemma_scan_concat(a, b.drop_last());
        let (d, c) = scan_lines(b.drop_last());
        if b.last() == '\n' {
            assert((scan_lines(a).0 + d).push(strip_cr(c)) =~= scan_lines(a).0 + d.push(
                strip_cr(c),
            ));
        }
    }
}

/// The lines of two texts, the first ending at a line break, are the lines
/// of each in turn.
pub proof fn lemma_lines_concat(a: Seq<char>, b: Seq<char>)
    requires
        scan_lines(a).1.len() == 0,
    ensures
        lines(a + b) == lines(a) + lines(b),
{
    lemma_scan_concat(a, b);
    let (d, c) = scan_lines(b);
    if c.len() > 0 {
        assert((scan_lines(a).0 + d).push(c) =~= scan_lines(a).0 + d.push(c));
    }
}

/// Plain lines, each followed by a line feed, read back as the same lines.
pub proof fn lemma_lines_join(ls: Seq<Seq<char>>)
    requires
        forall|i: int| 0 <= i < ls.len() ==> plain_line(#[trigger] ls[i]),
    ensures
        scan_lines(join_lines(ls)) == (ls, Seq::<char>::empty()),
        lines(join_lines(ls)) == ls,
    decreases ls.len(),
{
    if ls.len() == 0 {
        assert(ls =~= Seq::<Seq<char>>::empty());
    } else {
        let prev = join_lines(ls.drop_last());
        let l = ls.last();
        assert(plain_line(ls[ls.len() - 1]));
        lemma_lines_join(ls.drop_last());
        assert((prev + l.push('\n')).drop_last() =~= prev + l);
        lemma_scan_extend(prev, l);
        assert(Seq::<char>::empty() + l =~= l);
        assert(ls.drop_last().push(l) =~= ls);
    }
}

/// `pat` occurs in `s` at position `i`.
pub open spec fn occurs_at(s: Seq<char>, pat: Seq<char>, i: int) -> bool {
    0 <= i && i + pat.len() <= s.len() && s.subrange(i, i + pat.len()) == pat
}

/// `pat` occurs somewhere in `s`.
pub open spec fn contains(s: Seq<char>, pat: Seq<char>) -> bool {
    exists|i: int| occurs_at(s, pat, i)
}

/// Whether `pat` occurs in `s` at position `i`.
fn matches_at(s: &Vec<char>, pat: &Vec<char>, i: usize) -> (r: bool)
    requires
        i + pat@.len() <= s@.len(),
    ensures
        r == occurs_at(s@, pat@, i as int),
{
    let n: usize = s.len();
    let mut j: usize = 0;
    while j < pat.len()
        invariant
            i + pat@.len() <= n,
            n == s@.len(),
            j <= pat@.len(),
            forall|k: int| 0 <= k < j ==> s@[i + k] == pat@[k],
        decreases pat@.len() - j,
    {
        if s[i + j] != pat[j] {
            assert(s@.subrange(i as int, i + pat@.len())[j as int] != pat@[j as int]);
            return false;
        }
        j = j + 1;
    }
    assert(s@.subrange(i as int, i + pat@.len()) =~= pat@);
    true
}

/// Whether `pat` occurs in the part of `s` from `lo` up to `hi`.
pub fn contains_in(s: &Vec<char>, lo: usize, hi: usize, pat: &Vec<char>) -> (r: bool)
    requires
        lo <= hi <= s@.len(),
    ensures
        r == contains(s@.subrange(lo as int, hi as int), pat@),
{
    let ghost part = s@.subrange(lo as int, hi as int);
    if pat.len() == 0 {
        assert(part.subrange(0, 0) =~= pat@);
        assert(occurs_at(part, pat@, 0));
        return true;
    }
    if pat.len() > hi - lo {
        return false;
    }
    let last: usize = hi - pat.len();
    let mut i: usize = lo;
    while i <= last
        invariant
            lo <= hi <= s@.len(),
            part == s@.subrange(lo as int, hi as int),
            last + pat@.len() == hi,
            pat@.len() > 0,
            last < hi,
            lo <= i <= last + 1,
            forall|k: int| 0 <= k < i - lo ==> !occurs_at(part, pat@, k),
        decreases last + 1 - i,
    {
        let found = matches_at(s, pat, i);
        assert(part.subrange(i - lo, i - lo + pat@.len()) =~= s@.subrange(
            i as int,
            i + pat@.len(),
        ));
        if found {
            assert(occurs_at(part, pat@, i - lo));
            return true;
        }
        i = i + 1;
    }
    false
}

/// The characters of `s`, in order.
pub fn chars_of(s: &str) -> (r: Vec<char>)
    ensures
        r@ == s@,
{
    let mut out: Vec<char> = Vec::new();
    for c in it: s.chars()
        invariant
            out@ == it.history(),
    {
        out.push(c);
    }
    out
}

} // verus!
