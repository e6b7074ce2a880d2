//! Substring search over the scrollback buffer.
//!
//! Scans lines one by one for the first line at or after a start line that
//! contains the pattern as a contiguous, case-sensitive substring; no match
//! ever crosses a line boundary.  Also provides the highlight toggling that
//! the session applies to search results.

use vstd::prelude::*;
use crate::format::{text_of, Format, FormattedString, Style};
use crate::ring_buffer::RingBuffer;

verus! {

/// A match: the line it is on (chronological position in the buffer) and
/// the half-open column range of the matched characters.
#[derive(Clone, Copy, PartialEq, Eq, Structural, Debug)]
pub struct SearchResult {
    pub line_number: usize,
    pub begin_index: usize,
    pub end_index: usize,
}

/// The pattern occurs in `line` starting at column `j`.
pub open spec fn match_at(line: Seq<char>, pat: Seq<char>, j: int) -> bool {
    &&& 0 <= j
    &&& j + pat.len() <= line.len()
    &&& line.subrange(j, j + pat.len()) == pat
}

/// The pattern occurs somewhere in `line`.
pub open spec fn line_contains(line: Seq<char>, pat: Seq<char>) -> bool {
    exists|j: int| match_at(line, pat, j)
}

/// The pattern's characters, copied out for indexed access.
fn str_chars(pattern: &str) -> (r: Vec<char>)
    ensures
        r@ == pattern@,
{
    let mut r: Vec<char> = Vec::new();
    let n = pattern.unicode_len();
    for i in 0..n
        invariant
            n == pattern@.len(),
            r@ == pattern@.subrange(0, i as int),
    {
        r.push(pattern.get_char(i));
        proof {
            assert(r@ =~= pattern@.subrange(0, i + 1));
        }
    }
    proof {
        assert(r@ =~= pattern@);
    }
    r
}

/// Does the pattern occur in `line` at column `j`?
fn line_match_at(line: &FormattedString, pat: &Vec<char>, j: usize) -> (r: bool)
    requires
        j + pat@.len() <= line@.len(),
    ensures
        r == match_at(text_of(line@), pat@, j as int),
{
    let m = pat.len();
    let line_len = line.len();
    for k in 0..m
        invariant
            m == pat@.len(),
            line_len == line@.len(),
            j + m <= line_len,
            forall|t: int| 0 <= t < k ==> text_of(line@)[j + t] == pat@[t],
    {
        if line.get(j + k).0 != pat[k] {
            proof {
                let text = text_of(line@);
                if match_at(text, pat@, j as int) {
                    assert(text.subrange(j as int, j + pat@.len())[k as int] == pat@[k as int]);
                    assert(false);
                }
            }
            return false;
        }
    }
    proof {
        let text = text_of(line@);
        assert(text.subrange(j as int, j + pat@.len()) =~= pat@);
    }
    true
}

/// The first column of `line` at which the pattern occurs, if any.
fn first_match_in_line(line: &FormattedString, pat: &Vec<char>) -> (r: Option<usize>)
    ensures
        match r {
            Some(b) => {
                &&& b + pat@.len() <= line@.len()
                &&& match_at(text_of(line@), pat@, b as int)
                &&& forall|j: int| 0 <= j < b ==> !match_at(text_of(line@), pat@, j)
            },
            None => !line_contains(text_of(line@), pat@),
        },
{
    let line_len = line.len();
    let m = pat.len();
    if m > line_len {
        return None;
    }
    let last = line_len - m;
    let mut j: usize = 0;
    while j < last
        invariant
            m == pat@.len(),
            line_len == line@.len(),
            m <= line_len,
            last == line_len - m,
            j <= last,
            forall|t: int| 0 <= t < j ==> !match_at(text_of(line@), pat@, t),
        decreases last - j,
    {
        if line_match_at(line, pat, j) {
            return Some(j);
        }
        j = j + 1;
    }
    if line_match_at(line, pat, last) {
        return Some(last);
    }
    None
}

/// Scan the buffer, line by line in chronological order, for the first line
/// at or after `start_line` on which the pattern occurs; report the line
/// and the leftmost half-open column range of the match.  `None` exactly
/// when no line at or after `start_line` contains the pattern.
pub fn search_buffer(
    buf: &RingBuffer<FormattedString>,
    pattern: &str,
    start_line: usize,
) -> (r: Option<SearchResult>)
    ensures
        match r {
            Some(res) => {
                &&& start_line <= res.line_number < buf@.len()
                &&& res.end_index == res.begin_index + pattern@.len()
                &&& res.end_index <= text_of(buf@[res.line_number as int]@).len()
                &&& match_at(text_of(buf@[res.line_number as int]@), pattern@, res.begin_index as int)
                &&& forall|j: int|
                    0 <= j < res.begin_index ==> !match_at(
                        text_of(buf@[res.line_number as int]@),
                        pattern@,
                        j,
                    )
                &&& forall|l: int|
                    start_line <= l < res.line_number ==> !line_contains(text_of(buf@[l]@), pattern@)
            },
            None => forall|l: int|
                start_line <= l < buf@.len() ==> !line_contains(text_of(buf@[l]@), pattern@),
        },
{
    let pat = str_chars(pattern);
    let n = buf.len();
    let mut l = start_line;
    while l < n
        invariant
            n == buf@.len(),
            pat@ == pattern@,
            start_line <= l || l == start_line,
            forall|t: int| start_line <= t < l ==> !line_contains(text_of(buf@[t]@), pattern@),
        decreases n - l,
    {
        let line = buf.get(l);
        let line_len = line.len();
        match first_match_in_line(line, &pat) {
            Some(b) => {
                proof {
                    assert(b + pat@.len() <= line_len);
                }
                return Some(
                    SearchResult { line_number: l, begin_index: b, end_index: b + pat.len() },
                );
            },
            None => {},
        }
        l = l + 1;
    }
    None
}

/// A line with the styles of the half-open column range `[lo, hi)` set to
/// `st`; characters, colors and every cell outside the range are kept.
pub open spec fn restyle(
    cells: Seq<(char, Format)>,
    lo: int,
    hi: int,
    st: Style,
) -> Seq<(char, Format)> {
    Seq::new(
        cells.len(),
        |i: int|
            if lo <= i < hi {
                (cells[i].0, Format { style: st, ..cells[i].1 })
            } else {
                cells[i]
            },
    )
}

/// Set (or reset) the style of the half-open column range `[start, end)` of
/// a line: standout when `on`, normal otherwise.  Characters and colors,
/// and every cell outside the range, are untouched.
pub fn highlight_string(s: &mut FormattedString, start: usize, end: usize, on: bool)
    requires
        start <= end <= old(s)@.len(),
    ensures
        final(s)@.len() == old(s)@.len(),
        forall|i: int|
            start <= i < end ==> final(s)@[i] == (
                old(s)@[i].0,
                Format {
                    style: (if on {
                        Style::Standout
                    } else {
                        Style::Normal
                    }),
                    ..old(s)@[i].1
                },
            ),
        forall|i: int|
            (0 <= i < start || end <= i < old(s)@.len()) ==> final(s)@[i] == old(s)@[i],
{
    for i in start..end
        invariant
            start <= i <= end <= s@.len(),
            s@.len() == old(s)@.len(),
            forall|t: int|
                start <= t < i ==> s@[t] == (
                    old(s)@[t].0,
                    Format {
                        style: (if on {
                            Style::Standout
                        } else {
                            Style::Normal
                        }),
                        ..old(s)@[t].1
                    },
                ),
            forall|t: int|
                (0 <= t < start || i <= t < s@.len()) ==> s@[t] == old(s)@[t],
    {
        let cell = s.get(i);
        let new_style = if on {
            Style::Standout
        } else {
            Style::Normal
        };
        s.set(i, (cell.0, Format { style: new_style, fg_color: cell.1.fg_color, bg_color: cell.1.bg_color }));
    }
}

} // verus!
