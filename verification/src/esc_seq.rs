//! ANSI escape-sequence (SGR) parser.
//!
//! A byte-driven state machine recognizing CSI sequences `ESC [ params m`,
//! and the interpretation of a recognized sequence as a delta on the three
//! display-format fields.  A malformed sequence yields `Error` and the next
//! byte is parsed afresh, so bad input never desynchronizes the stream.

use vstd::prelude::*;
use crate::format::{Color, Style};
use crate::parse_state::{copy_bytes, is_finished, ParseState, ParseStateView};

verus! {

/// The escape byte opening a control sequence.
pub const ESC: u8 = 27;

/// `[`: the second byte of a CSI control sequence.
pub const CSI_OPEN: u8 = 91;

/// `m`: the final byte of an SGR sequence.
pub const SGR_FINAL: u8 = 109;

/// `;`: the separator between numeric parameters.
pub const PARAM_SEP: u8 = 59;

pub open spec fn is_digit(b: u8) -> bool {
    48 <= b <= 57
}

/// The bytes allowed between `ESC [` and the final byte: digits and `;`.
pub open spec fn is_param_byte(b: u8) -> bool {
    is_digit(b) || b == PARAM_SEP
}

/// A full, well-formed SGR sequence: `ESC [`, parameter bytes, final `m`.
pub open spec fn is_complete_sequence(c: Seq<u8>) -> bool {
    &&& c.len() >= 3
    &&& c[0] == ESC
    &&& c[1] == CSI_OPEN
    &&& c.last() == SGR_FINAL
    &&& forall|i: int| 2 <= i < c.len() - 1 ==> is_param_byte(c[i])
}

/// The byte sequences that can actually be accumulated mid-sequence.
pub open spec fn valid_in_progress(c: Seq<u8>) -> bool {
    ||| (c.len() == 1 && c[0] == ESC)
    ||| (c.len() >= 2 && c[0] == ESC && c[1] == CSI_OPEN && forall|i: int|
        2 <= i < c.len() ==> is_param_byte(c[i]))
}

/// Every state the parser can reach when started from `NotInProgress`.
pub open spec fn valid_state(s: ParseStateView) -> bool {
    match s {
        ParseStateView::InProgress(c) => valid_in_progress(c),
        _ => true,
    }
}

/// One step of the parser from inside a sequence whose bytes so far are `c`.
pub open spec fn spec_parse_in_progress(c: Seq<u8>, b: u8) -> ParseStateView {
    if c.len() == 1 && c[0] == ESC {
        if b == CSI_OPEN {
            ParseStateView::InProgress(c.push(b))
        } else {
            ParseStateView::Error(c.push(b))
        }
    } else if c.len() >= 2 && c[0] == ESC && c[1] == CSI_OPEN {
        if is_param_byte(b) {
            ParseStateView::InProgress(c.push(b))
        } else if b == SGR_FINAL {
            ParseStateView::Success(c.push(b))
        } else {
            ParseStateView::Error(c.push(b))
        }
    } else {
        ParseStateView::Error(c.push(b))
    }
}

/// One step of the escape-sequence parser: a pure function of the previous
/// state and the next byte.  From a finished state, `ESC` opens a sequence
/// and any other byte is left to become ordinary text.
pub open spec fn spec_parse(s: ParseStateView, b: u8) -> ParseStateView {
    match s {
        ParseStateView::InProgress(c) => spec_parse_in_progress(c, b),
        _ => if b == ESC {
            ParseStateView::InProgress(seq![ESC])
        } else {
            ParseStateView::NotInProgress
        },
    }
}

/// Feed one byte to the escape-sequence parser.
pub fn parse(state: &ParseState, b: u8) -> (r: ParseState)
    ensures
        r@ == spec_parse(state@, b),
{
    match state {
        ParseState::InProgress(c) => {
            let n = c.len();
            let mut acc = copy_bytes(c);
            acc.push(b);
            if n == 1 && c[0] == ESC {
                if b == CSI_OPEN {
                    ParseState::InProgress(acc)
                } else {
                    ParseState::Error(acc)
                }
            } else if n >= 2 && c[0] == ESC && c[1] == CSI_OPEN {
                if (48 <= b && b <= 57) || b == PARAM_SEP {
                    ParseState::InProgress(acc)
                } else if b == SGR_FINAL {
                    ParseState::Success(acc)
                } else {
                    ParseState::Error(acc)
                }
            } else {
                ParseState::Error(acc)
            }
        },
        _ => {
            if b == ESC {
                let mut acc: Vec<u8> = Vec::new();
                acc.push(ESC);
                proof {
                    assert(acc@ =~= seq![ESC]);
                }
                ParseState::InProgress(acc)
            } else {
                ParseState::NotInProgress
            }
        },
    }
}

/// Law: starting from any reachable state, one parse step leads again to a
/// reachable state.
pub proof fn lemma_parse_preserves_validity(s: ParseStateView, b: u8)
    requires
        valid_state(s),
    ensures
        valid_state(spec_parse(s, b)),
{
}

/// Law: from any reachable state, the parser reports `Success` only once a
/// full, well-formed SGR sequence has been consumed.
pub proof fn lemma_success_is_complete(s: ParseStateView, b: u8)
    requires
        valid_state(s),
        spec_parse(s, b) is Success,
    ensures
        is_complete_sequence(spec_parse(s, b)->Success_0),
{
}

/// Law: `Success`, `Error` and `NotInProgress` all fully reset sequence
/// accumulation: the next byte is parsed exactly as from `NotInProgress`.
pub proof fn lemma_finished_state_restarts(s: ParseStateView, b: u8)
    requires
        is_finished(s),
    ensures
        spec_parse(s, b) == spec_parse(ParseStateView::NotInProgress, b),
{
}

/// The delta a recognized SGR sequence applies to the running format: each
/// `Some` field overwrites that field, each `None` leaves it unchanged.
pub type SgrDelta = (Option<Style>, Option<Color>, Option<Color>);

/// The standard color for parameter digit `d` (0 through 7).
pub open spec fn spec_color_of(d: int) -> Color {
    if d == 0 {
        Color::Black
    } else if d == 1 {
        Color::Red
    } else if d == 2 {
        Color::Green
    } else if d == 3 {
        Color::Yellow
    } else if d == 4 {
        Color::Blue
    } else if d == 5 {
        Color::Magenta
    } else if d == 6 {
        Color::Cyan
    } else {
        Color::White
    }
}

/// The numeric value of an all-digit parameter segment.
pub open spec fn seg_value(s: Seq<u8>) -> int
    decreases s.len(),
{
    if s.len() == 0 {
        0
    } else {
        seg_value(s.drop_last()) * 10 + (s.last() - 48)
    }
}

/// The code of one `;`-separated parameter segment: its numeric value when
/// it is one to three digits, `None` (ignored) otherwise.
pub open spec fn seg_code(s: Seq<u8>) -> Option<int> {
    if 1 <= s.len() <= 3 && (forall|i: int| 0 <= i < s.len() ==> is_digit(s[i])) {
        Some(seg_value(s))
    } else {
        None
    }
}

/// Apply one recognized SGR code to the accumulated delta.  Code 0 resets
/// all three fields, 1 selects the standout style, 30-37 and 40-47 select
/// the foreground and background colors; every other code is ignored.
pub open spec fn apply_code(acc: SgrDelta, code: Option<int>) -> SgrDelta {
    match code {
        Some(v) => if v == 0 {
            (Some(Style::Normal), Some(Color::Default), Some(Color::Default))
        } else if v == 1 {
            (Some(Style::Standout), acc.1, acc.2)
        } else if 30 <= v <= 37 {
            (acc.0, Some(spec_color_of(v - 30)), acc.2)
        } else if 40 <= v <= 47 {
            (acc.0, acc.1, Some(spec_color_of(v - 40)))
        } else {
            acc
        },
        None => acc,
    }
}

/// Fold the parameter bytes of a sequence body into a delta, given the
/// delta so far and the digits of the current, still-open segment.
pub open spec fn interpret_from(acc: SgrDelta, seg: Seq<u8>, body: Seq<u8>) -> SgrDelta
    decreases body.len(),
{
    if body.len() == 0 {
        apply_code(acc, seg_code(seg))
    } else if body[0] == PARAM_SEP {
        interpret_from(apply_code(acc, seg_code(seg)), Seq::empty(), body.drop_first())
    } else {
        interpret_from(acc, seg.push(body[0]), body.drop_first())
    }
}

/// The delta of a whole recognized sequence `ESC [ params m`.
pub open spec fn spec_interpret(c: Seq<u8>) -> SgrDelta {
    interpret_from(
        (None, None, None),
        Seq::empty(),
        c.subrange(2, c.len() - 1),
    )
}

/// The standard color for parameter digit `d` (0 through 7).
fn color_of(d: u8) -> (r: Color)
    requires
        d <= 7,
    ensures
        r == spec_color_of(d as int),
{
    if d == 0 {
        Color::Black
    } else if d == 1 {
        Color::Red
    } else if d == 2 {
        Color::Green
    } else if d == 3 {
        Color::Yellow
    } else if d == 4 {
        Color::Blue
    } else if d == 5 {
        Color::Magenta
    } else if d == 6 {
        Color::Cyan
    } else {
        Color::White
    }
}

/// Apply the code of one finished segment to the running delta.
fn apply_segment(acc: SgrDelta, seg: &Vec<u8>) -> (r: SgrDelta)
    ensures
        r == apply_code(acc, seg_code(seg@)),
{
    let n = seg.len();
    if n < 1 || n > 3 {
        return acc;
    }
    let mut v: u16 = 0;
    let mut ok = true;
    for i in 0..n
        invariant
            n == seg@.len(),
            1 <= n <= 3,
            v <= 999,
            i < 3 ==> v <= 99,
            i < 2 ==> v <= 9,
            i < 1 ==> v == 0,
            ok <==> (forall|j: int| 0 <= j < i ==> is_digit(seg@[j])),
            ok ==> v == seg_value(seg@.subrange(0, i as int)),
    {
        let b = seg[i];
        if 48 <= b && b <= 57 {
            proof {
                assert(seg@.subrange(0, i + 1).drop_last() =~= seg@.subrange(0, i as int));
                assert(seg@.subrange(0, i + 1).last() == seg@[i as int]);
            }
            v = v * 10 + ((b - 48) as u16);
        } else {
            ok = false;
            v = 0;
        }
    }
    if !ok {
        return acc;
    }
    proof {
        assert(seg@.subrange(0, seg@.len() as int) =~= seg@);
        assert(seg_code(seg@) == Some(seg_value(seg@)));
    }
    if v == 0 {
        (Some(Style::Normal), Some(Color::Default), Some(Color::Default))
    } else if v == 1 {
        (Some(Style::Standout), acc.1, acc.2)
    } else if 30 <= v && v <= 37 {
        (acc.0, Some(color_of((v - 30) as u8)), acc.2)
    } else if 40 <= v && v <= 47 {
        (acc.0, acc.1, Some(color_of((v - 40) as u8)))
    } else {
        acc
    }
}

/// Interpret a recognized SGR sequence as a delta on the display format:
/// `;`-separated numeric parameters between `ESC [` and the final byte are
/// mapped to the three optional fields; unrecognized codes are ignored.
pub fn interpret(seq: &Vec<u8>) -> (r: SgrDelta)
    requires
        seq@.len() >= 3,
    ensures
        r == spec_interpret(seq@),
{
    let ghost body = seq@.subrange(2, seq@.len() - 1);
    let mut acc: SgrDelta = (None, None, None);
    let mut seg: Vec<u8> = Vec::new();
    let end = seq.len() - 1;
    proof {
        assert(seg@ =~= Seq::<u8>::empty());
        assert(body.subrange(0, body.len() as int) =~= body);
    }
    for i in 2..end
        invariant
            end == seq@.len() - 1,
            seq@.len() >= 3,
            body == seq@.subrange(2, seq@.len() - 1),
            interpret_from(acc, seg@, body.subrange(i - 2, body.len() as int)) == spec_interpret(
                seq@,
            ),
    {
        let ghost rest = body.subrange(i - 2, body.len() as int);
        proof {
            assert(rest[0] == seq@[i as int]);
            assert(rest.drop_first() =~= body.subrange(i - 1, body.len() as int));
        }
        let b = seq[i];
        if b == PARAM_SEP {
            acc = apply_segment(acc, &seg);
            seg = Vec::new();
            proof {
                assert(seg@ =~= Seq::<u8>::empty());
            }
        } else {
            seg.push(b);
        }
    }
    proof {
        assert(body.subrange(end - 2, body.len() as int) =~= Seq::<u8>::empty());
    }
    apply_segment(acc, &seg)
}

/// The running format after a recognized sequence's delta is applied:
/// specified fields are overwritten, unspecified fields kept.
pub open spec fn apply_delta(f: crate::format::Format, d: SgrDelta) -> crate::format::Format {
    crate::format::Format {
        style: match d.0 {
            Some(s) => s,
            None => f.style,
        },
        fg_color: match d.1 {
            Some(c) => c,
            None => f.fg_color,
        },
        bg_color: match d.2 {
            Some(c) => c,
            None => f.bg_color,
        },
    }
}

} // verus!
