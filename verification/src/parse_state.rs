//! The state threaded through the byte-driven protocol parsers.
//!
//! Both the telnet parser and the escape-sequence parser are pure functions
//! of `(previous state, next byte)`.  The caller persists the returned state
//! and feeds it back on the next byte, so the state is an inspectable,
//! passable value rather than hidden mutable internals.

use vstd::prelude::*;

verus! {

/// Parse state of a byte-driven sequence recognizer.
#[derive(Debug)]
pub enum ParseState {
    /// No sequence is being recognized; the last byte was not consumed.
    NotInProgress,
    /// A sequence is underway; the payload holds the bytes consumed so far.
    InProgress(Vec<u8>),
    /// A complete sequence was just recognized; the payload holds all of it.
    Success(Vec<u8>),
    /// A malformed sequence was abandoned; the payload holds the bad bytes.
    Error(Vec<u8>),
}

/// Mathematical image of a `ParseState`: the same variants over `Seq<u8>`.
pub enum ParseStateView {
    NotInProgress,
    InProgress(Seq<u8>),
    Success(Seq<u8>),
    Error(Seq<u8>),
}

impl View for ParseState {
    type V = ParseStateView;

    open spec fn view(&self) -> ParseStateView {
        match self {
            ParseState::NotInProgress => ParseStateView::NotInProgress,
            ParseState::InProgress(c) => ParseStateView::InProgress(c@),
            ParseState::Success(c) => ParseStateView::Success(c@),
            ParseState::Error(c) => ParseStateView::Error(c@),
        }
    }
}

/// True of the states in which no sequence is underway: the next byte starts
/// recognition afresh.
pub open spec fn is_finished(s: ParseStateView) -> bool {
    !(s is InProgress)
}

/// An element-for-element copy of a byte vector.
pub fn copy_bytes(v: &Vec<u8>) -> (r: Vec<u8>)
    ensures
        r@ == v@,
{
    let mut r: Vec<u8> = Vec::new();
    let n = v.len();
    for i in 0..n
        invariant
            n == v@.len(),
            r@ == v@.subrange(0, i as int),
    {
        r.push(v[i]);
        proof {
            assert(r@ =~= v@.subrange(0, i + 1));
        }
    }
    proof {
        assert(r@ =~= v@);
    }
    r
}

} // verus!
