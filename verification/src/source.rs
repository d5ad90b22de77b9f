//! Looking up a line of a program's source, to show where a runtime error
//! was raised.
use vstd::prelude::*;
use vstd::string::StrSliceExecFns;
use crate::text::chars_of;

verus! {

/// The index of the first line feed in `s`, or `s.len()` where there is none.
pub open spec fn newline_index(s: Seq<char>) -> int
    decreases s.len(),
{
    if s.len() == 0 {
        0
    } else if s[0] == '\n' {
        0
    } else {
        1 + newline_index(s.drop_first())
    }
}

/// `t` without a final carriage return.
pub open spec fn strip_cr(t: Seq<char>) -> Seq<char> {
    if t.len() > 0 && t.last() == '\r' {
        t.drop_last()
    } else {
        t
    }
}

/// The line of `s` at (0-based) index `n`, as `str::lines` yields it: lines
/// end at `\n` or `\r\n`, which are not part of the line, and a final line
/// ending does not start another line.
pub open spec fn nth_line(s: Seq<char>, n: nat) -> Option<Seq<char>>
    decreases s.len(),
{
    if s.len() == 0 {
        None
    } else {
        let k = newline_index(s);
        if n == 0 {
            if k < s.len() {
                Some(strip_cr(s.subrange(0, k)))
            } else {
                Some(s)
            }
        } else if k < s.len() {
            proof {
                lemma_newline_index_bounds(s);
            }
            nth_line(s.subrange(k + 1, s.len() as int), (n - 1) as nat)
        } else {
            None
        }
    }
}

/// The text of line `line` (1-based; 0 is taken as 1) of `source`, or the
/// empty string where `source` has fewer lines.
pub open spec fn source_line_text(source: Seq<char>, line: u32) -> Seq<char> {
    let n: nat = if line == 0 {
        0
    } else {
        (line - 1) as nat
    };
    match nth_line(source, n) {
        Some(l) => l,
        None => Seq::empty(),
    }
}

/// Where the first line feed of `s` can be.
pub proof fn lemma_newline_index_bounds(s: Seq<char>)
    ensures
        0 <= newline_index(s) <= s.len(),
        newline_index(s) < s.len() ==> s[newline_index(s)] == '\n',
        forall|j: int| 0 <= j < newline_index(s) ==> s[j] != '\n',
    decreases s.len(),
{
    if s.len() > 0 && s[0] != '\n' {
        lemma_newline_index_bounds(s.drop_first());
        assert forall|j: int| 0 <= j < newline_index(s) implies s[j] != '\n' by {
            if j > 0 {
                assert(s[j] == s.drop_first()[j - 1]);
            }
        }
    }
}

/// The index of the first line feed in `cs[from..]`, or `cs.len()`.
fn find_newline(cs: &Vec<char>, from: usize) -> (r: usize)
    requires
        from <= cs@.len(),
    ensures
        r == from + newline_index(cs@.subrange(from as int, cs@.len() as int)),
{
    let n = cs.len();
    let mut j = from;
    while j < n && cs[j] != '\n'
        invariant
            from <= j <= n,
            n == cs@.len(),
            newline_index(cs@.subrange(from as int, n as int)) == (j - from) + newline_index(
                cs@.subrange(j as int, n as int),
            ),
        decreases n - j,
    {
        assert(cs@.subrange(j as int, n as int).drop_first() =~= cs@.subrange(j + 1, n as int));
        j = j + 1;
    }
    j
}

/// The source line a runtime error points at: line `line` of `source`
/// (1-based, 0 taken as 1), or `""` where the source has fewer lines.
pub fn source_line(source: &str, line: u32) -> (r: &str)
    ensures
        r@ == source_line_text(source@, line),
{
    let cs = chars_of(source);
    let len = cs.len();
    let target: u32 = if line == 0 {
        0
    } else {
        line - 1
    };
    let mut remaining = target;
    let mut pos: usize = 0;
    assert(cs@.subrange(0, len as int) =~= cs@);
    while remaining > 0
        invariant
            cs@ == source@,
            target == (if line == 0 {
                0
            } else {
                line - 1
            }),
            len == cs@.len(),
            pos <= len,
            remaining <= target,
            nth_line(cs@, target as nat) == nth_line(cs@.subrange(pos as int, len as int), remaining as nat),
        decreases remaining,
    {
        if pos == len {
            proof {
                reveal_strlit("");
            }
            return "";
        }
        let k = find_newline(&cs, pos);
        if k == len {
            proof {
                reveal_strlit("");
            }
            return "";
        }
        proof {
            let rest = cs@.subrange(pos as int, len as int);
            lemma_newline_index_bounds(rest);
            assert(rest.subrange(k - pos + 1, rest.len() as int) =~= cs@.subrange(k + 1, len as int));
        }
        pos = k + 1;
        remaining = remaining - 1;
    }
    if pos == len {
        proof {
            reveal_strlit("");
        }
        return "";
    }
    let k = find_newline(&cs, pos);
    let ghost rest = cs@.subrange(pos as int, len as int);
    proof {
        lemma_newline_index_bounds(rest);
    }
    let mut hi = k;
    if k < len && k > pos && cs[k - 1] == '\r' {
        hi = k - 1;
    }
    proof {
        if k < len {
            assert(rest.subrange(0, k - pos) =~= cs@.subrange(pos as int, k as int));
            if k > pos && cs@[k - 1] == '\r' {
                assert(cs@.subrange(pos as int, k as int).drop_last() =~= cs@.subrange(pos as int, hi as int));
            }
        }
    }
    source.substring_char(pos, hi)
}

/// A line never holds a line feed.
pub proof fn lemma_line_has_no_line_feed(s: Seq<char>, n: nat)
    ensures
        nth_line(s, n) matches Some(l) ==> forall|j: int| 0 <= j < l.len() ==> l[j] != '\n',
    decreases s.len(),
{
    if s.len() > 0 {
        let k = newline_index(s);
        lemma_newline_index_bounds(s);
        if n == 0 {
            if k < s.len() {
                let l = strip_cr(s.subrange(0, k));
                assert forall|j: int| 0 <= j < l.len() implies l[j] != '\n' by {
                    assert(l[j] == s[j]);
                }
            }
        } else if k < s.len() {
            lemma_line_has_no_line_feed(s.subrange(k + 1, s.len() as int), (n - 1) as nat);
        }
    }
}

/// Line 0 is read as line 1: both give the first line.
pub proof fn lemma_line_zero_is_first_line(source: Seq<char>)
    ensures
        source_line_text(source, 0) == source_line_text(source, 1),
{
}

} // verus!

verus! {

/// The first line feed of a text made of a line `a` (holding none), a line
/// feed and the rest `b` is the one after `a`.
proof fn lemma_newline_after_line(a: Seq<char>, b: Seq<char>)
    requires
        forall|j: int| 0 <= j < a.len() ==> a[j] != '\n',
    ensures
        newline_index(a + seq!['\n'] + b) == a.len(),
    decreases a.len(),
{
    let s = a + seq!['\n'] + b;
    if a.len() == 0 {
        assert(s[0] == '\n');
    } else {
        assert(s[0] == a[0]);
        let a2 = a.drop_first();
        assert(s.drop_first() =~= a2 + seq!['\n'] + b);
        lemma_newline_after_line(a2, b);
    }
}

/// Every line counts, empty ones too: after a first line `a` and its line
/// feed, line `k + 1` of the text is line `k` of what follows (`k >= 1`).
pub proof fn lemma_lines_after_first_line(a: Seq<char>, b: Seq<char>, k: u32)
    requires
        forall|j: int| 0 <= j < a.len() ==> a[j] != '\n',
        1 <= k < u32::MAX,
    ensures
        source_line_text(a + "\n"@ + b, (k + 1) as u32) == source_line_text(b, k),
{
    reveal_strlit("\n");
    assert("\n"@ =~= seq!['\n']);
    let s = a + seq!['\n'] + b;
    lemma_newline_after_line(a, b);
    assert(s.subrange(a.len() + 1int, s.len() as int) =~= b);
}

/// The first line of a text is its characters up to the first line feed,
/// without a carriage return just before that line feed; a text without a
/// line feed is one line, kept whole.
pub proof fn lemma_first_line(a: Seq<char>, b: Seq<char>)
    requires
        forall|j: int| 0 <= j < a.len() ==> a[j] != '\n',
    ensures
        source_line_text(a + "\n"@ + b, 1) == (if a.len() > 0 && a[a.len() - 1] == '\r' {
            a.subrange(0, a.len() - 1)
        } else {
            a
        }),
        source_line_text(a, 1) == a,
{
    reveal_strlit("\n");
    assert("\n"@ =~= seq!['\n']);
    let s = a + seq!['\n'] + b;
    lemma_newline_after_line(a, b);
    assert(s.subrange(0, a.len() as int) =~= a);
    lemma_newline_after_line(a, Seq::empty());
    assert(a + seq!['\n'] + Seq::<char>::empty() =~= a.push('\n'));
    if a.len() > 0 {
        lemma_newline_index_bounds(a);
        if newline_index(a) < a.len() {
            assert(a[newline_index(a)] == '\n');
        }
    }
}

} // verus!
