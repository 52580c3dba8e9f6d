//! Splitting a text into lines.
//!
//! A line ends at a line feed, or at the end of the text. A carriage return
//! directly before the line feed belongs to the line ending; anywhere else it
//! is an ordinary character. A line ending at the very end of the text opens
//! no further line.

use crate::text::{chars_of, split_after};
use vstd::prelude::*;

verus! {

/// The number of characters before the first line feed of `s`, or the length
/// of `s` where it holds none.
pub open spec fn line_end(s: Seq<char>) -> nat
    decreases s.len(),
{
    if s.len() == 0 || s[0] == '\n' {
        0
    } else {
        1 + line_end(s.drop_first())
    }
}

/// `s` without the carriage return at its end, if it has one.
pub open spec fn without_carriage_return(s: Seq<char>) -> Seq<char> {
    if s.len() > 0 && s.last() == '\r' {
        s.drop_last()
    } else {
        s
    }
}

/// The lines of `s`, in order, each without its line ending.
pub open spec fn lines_of(s: Seq<char>) -> Seq<Seq<char>>
    decreases s.len(),
{
    if s.len() == 0 {
        Seq::empty()
    } else {
        let end = line_end(s) as int;
        if end >= s.len() {
            seq![s]
        } else {
            seq![without_carriage_return(s.take(end))] + lines_of(s.skip(end + 1))
        }
    }
}

/// The first line of `s` ends at `k` where no line feed stands before `k` and
/// one stands at `k`, or `s` ends there.
pub proof fn line_end_is(s: Seq<char>, k: int)
    requires
        0 <= k <= s.len(),
        forall|j: int| 0 <= j < k ==> s[j] != '\n',
        k < s.len() ==> s[k] == '\n',
    ensures
        line_end(s) == k,
    decreases k,
{
    if k > 0 {
        line_end_is(s.drop_first(), k - 1);
    }
}

/// No line holds a line feed.
pub proof fn lines_hold_no_line_feed(s: Seq<char>, i: int, j: int)
    requires
        0 <= i < lines_of(s).len(),
        0 <= j < lines_of(s)[i].len(),
    ensures
        lines_of(s)[i][j] != '\n',
    decreases s.len(),
{
    let end = line_end(s) as int;
    line_end_bounds(s);
    if end >= s.len() {
    } else if i == 0 {
    } else {
        lines_hold_no_line_feed(s.skip(end + 1), i - 1, j);
    }
}

/// The first line ends inside `s` or at its end; no line feed stands before
/// that place, and where it is inside `s` a line feed stands there.
pub proof fn line_end_bounds(s: Seq<char>)
    ensures
        line_end(s) <= s.len(),
        forall|j: int| 0 <= j < line_end(s) ==> s[j] != '\n',
        line_end(s) < s.len() ==> s[line_end(s) as int] == '\n',
    decreases s.len(),
{
    if s.len() == 0 || s[0] == '\n' {
    } else {
        let rest = s.drop_first();
        line_end_bounds(rest);
        assert forall|j: int| 0 <= j < line_end(s) implies s[j] != '\n' by {
            if j > 0 {
                assert(s[j] == rest[j - 1]);
            }
        }
        if line_end(s) < s.len() {
            assert(s[line_end(s) as int] == rest[line_end(rest) as int]);
        }
    }
}

/// The lines of `content`, in order, as slices of it, in one pass over
/// `content`.
pub fn lines<'a>(content: &'a str) -> (out: Vec<&'a str>)
    ensures
        out.deep_view() == lines_of(content@),
{
    let chars = chars_of(content);
    let n: usize = chars.len();
    let mut out: Vec<&'a str> = Vec::new();
    let mut rest: &'a str = content;
    let mut start: usize = 0;
    let mut i: usize = 0;
    assert(content@.skip(0) =~= content@);
    assert(out.deep_view() + lines_of(content@) =~= lines_of(content@));
    while i < n
        invariant
            chars@ == content@,
            n == chars.len(),
            start <= i <= n,
            rest@ == content@.skip(start as int),
            forall|j: int| start <= j < i ==> chars@[j] != '\n',
            lines_of(content@) == out.deep_view() + lines_of(rest@),
        decreases n - i,
    {
        if chars[i] == '\n' {
            let end: usize = if i > start && chars[i - 1] == '\r' {
                i - 1
            } else {
                i
            };
            let parts = split_after(rest, i + 1 - start);
            let line = parts.0.substring_char(0, end - start);
            proof {
                line_end_is(rest@, i - start);
                assert(line@ =~= without_carriage_return(rest@.take(i - start)));
                assert(parts.1@ =~= content@.skip(i + 1));
                assert(out.deep_view().push(line@) + lines_of(parts.1@) =~= out.deep_view()
                    + lines_of(rest@));
            }
            let ghost before = out.deep_view();
            out.push(line);
            assert(out.deep_view() =~= before.push(line@));
            rest = parts.1;
            start = i + 1;
        }
        i += 1;
    }
    if start < n {
        proof {
            line_end_is(rest@, n - start);
            assert(out.deep_view().push(rest@) =~= out.deep_view() + lines_of(rest@));
        }
        let ghost before = out.deep_view();
        out.push(rest);
        assert(out.deep_view() =~= before.push(rest@));
    } else {
        assert(out.deep_view() + lines_of(rest@) =~= out.deep_view());
    }
    out
}

} // verus!
