//! Telnet command and negotiation parser.
//!
//! A byte-driven state machine recognizing IAC command, negotiation and
//! subnegotiation sequences in the inbound stream, plus the interpretation
//! of the completed commands the client acts on (the GMCP option).

use vstd::prelude::*;
use vstd::utf8::{decode_utf8, valid_utf8};
use crate::parse_state::{copy_bytes, is_finished, ParseState, ParseStateView};

verus! {

/// "Interpret As Command": marks the start of every telnet sequence.
pub const IAC: u8 = 255;

pub const WILL: u8 = 251;

pub const WONT: u8 = 252;

pub const DO: u8 = 253;

pub const DONT: u8 = 254;

/// Start of a subnegotiation block.
pub const SB: u8 = 250;

/// End of a subnegotiation block.
pub const SE: u8 = 240;

/// Option code of the Generic MUD Communication Protocol.
pub const GMCP: u8 = 201;

/// Sanity limit on a subnegotiation block.  A peer that never sends the
/// `IAC SE` terminator must not make the parser accumulate bytes without
/// bound: once a block reaches this many bytes without terminating, the
/// next byte turns it into an `Error` and parsing recovers.
pub const SUBNEG_LIMIT: usize = 16384;

/// The four negotiation verbs that are followed by one option byte.
pub open spec fn is_negotiation(b: u8) -> bool {
    b == WILL || b == WONT || b == DO || b == DONT
}

/// A full, well-formed telnet command: an escaped literal `IAC IAC`, a
/// three-byte negotiation, or a subnegotiation block closed by `IAC SE`.
pub open spec fn is_complete_command(c: Seq<u8>) -> bool {
    ||| (c.len() == 2 && c[0] == IAC && c[1] == IAC)
    ||| (c.len() == 3 && c[0] == IAC && is_negotiation(c[1]))
    ||| (c.len() >= 4 && c[0] == IAC && c[1] == SB && c[c.len() - 2] == IAC && c.last() == SE)
}

/// The byte sequences that can actually be accumulated mid-command: a lone
/// `IAC`, `IAC` plus a negotiation verb, or an open subnegotiation block.
pub open spec fn valid_in_progress(c: Seq<u8>) -> bool {
    ||| (c.len() == 1 && c[0] == IAC)
    ||| (c.len() == 2 && c[0] == IAC && (is_negotiation(c[1]) || c[1] == SB))
    ||| (c.len() > 2 && c[0] == IAC && c[1] == SB)
}

/// Every state the parser can reach when started from `NotInProgress`.
pub open spec fn valid_state(s: ParseStateView) -> bool {
    match s {
        ParseStateView::InProgress(c) => valid_in_progress(c),
        _ => true,
    }
}

/// One step of the parser from inside a sequence whose bytes so far are `c`.
pub open spec fn spec_parse_in_progress(c: Seq<u8>, b: u8) -> ParseStateView {
    if c.len() == 1 && c[0] == IAC {
        if is_negotiation(b) || b == SB {
            ParseStateView::InProgress(c.push(b))
        } else if b == IAC {
            ParseStateView::Success(c.push(b))
        } else {
            ParseStateView::Error(c.push(b))
        }
    } else if c.len() == 2 && c[0] == IAC && is_negotiation(c[1]) {
        ParseStateView::Success(c.push(b))
    } else if c.len() >= 2 && c[0] == IAC && c[1] == SB {
        if b == SE && c.last() == IAC {
            ParseStateView::Success(c.push(b))
        } else if c.len() >= SUBNEG_LIMIT {
            ParseStateView::Error(c.push(b))
        } else {
            ParseStateView::InProgress(c.push(b))
        }
    } else {
        ParseStateView::Error(c.push(b))
    }
}

/// One step of the telnet parser: a pure function of the previous state and
/// the next byte.  From a finished state, `IAC` opens a sequence and any
/// other byte is left for the layers below (state stays `NotInProgress`).
pub open spec fn spec_parse(s: ParseStateView, b: u8) -> ParseStateView {
    match s {
        ParseStateView::InProgress(c) => spec_parse_in_progress(c, b),
        _ => if b == IAC {
            ParseStateView::InProgress(seq![IAC])
        } else {
            ParseStateView::NotInProgress
        },
    }
}

/// Feed one byte to the telnet parser.
pub fn parse(state: &ParseState, b: u8) -> (r: ParseState)
    ensures
        r@ == spec_parse(state@, b),
{
    match state {
        ParseState::InProgress(c) => {
            let n = c.len();
            let mut acc = copy_bytes(c);
            acc.push(b);
            if n == 1 && c[0] == IAC {
                if b == WILL || b == WONT || b == DO || b == DONT || b == SB {
                    ParseState::InProgress(acc)
                } else if b == IAC {
                    ParseState::Success(acc)
                } else {
                    ParseState::Error(acc)
                }
            } else if n == 2 && c[0] == IAC && (c[1] == WILL || c[1] == WONT || c[1] == DO || c[1]
                == DONT) {
                ParseState::Success(acc)
            } else if n >= 2 && c[0] == IAC && c[1] == SB {
                if b == SE && c[n - 1] == IAC {
                    ParseState::Success(acc)
                } else if n >= SUBNEG_LIMIT {
                    ParseState::Error(acc)
                } else {
                    ParseState::InProgress(acc)
                }
            } else {
                ParseState::Error(acc)
            }
        },
        _ => {
            if b == IAC {
                let mut acc: Vec<u8> = Vec::new();
                acc.push(IAC);
                proof {
                    assert(acc@ =~= seq![IAC]);
                }
                ParseState::InProgress(acc)
            } else {
                ParseState::NotInProgress
            }
        },
    }
}

/// Law: starting from any reachable state, one parse step leads again to a
/// reachable state, so the parser never leaves its documented state space.
pub proof fn lemma_parse_preserves_validity(s: ParseStateView, b: u8)
    requires
        valid_state(s),
    ensures
        valid_state(spec_parse(s, b)),
{
}

/// Law: from any reachable state, the parser reports `Success` only once a
/// full, well-formed command has been consumed, and that command is exactly
/// the reported payload.
pub proof fn lemma_success_is_complete(s: ParseStateView, b: u8)
    requires
        valid_state(s),
        spec_parse(s, b) is Success,
    ensures
        is_complete_command(spec_parse(s, b)->Success_0),
{
}

/// Law: `Success`, `Error` and `NotInProgress` all fully reset sequence
/// accumulation: the next byte is parsed exactly as from `NotInProgress`.
pub proof fn lemma_finished_state_restarts(s: ParseStateView, b: u8)
    requires
        is_finished(s),
    ensures
        spec_parse(s, b) == spec_parse(ParseStateView::NotInProgress, b),
{
}

/// The parser folded over a whole byte stream, one byte at a time, the
/// returned state fed back on the next byte.
pub open spec fn spec_parse_stream(s: ParseStateView, bytes: Seq<u8>) -> ParseStateView
    decreases bytes.len(),
{
    if bytes.len() == 0 {
        s
    } else {
        spec_parse(spec_parse_stream(s, bytes.drop_last()), bytes.last())
    }
}

/// Law: feeding any byte sequence, one byte at a time, keeps the parser in
/// its documented state space.
pub proof fn lemma_stream_preserves_validity(s: ParseStateView, bytes: Seq<u8>)
    requires
        valid_state(s),
    ensures
        valid_state(spec_parse_stream(s, bytes)),
    decreases bytes.len(),
{
    if bytes.len() > 0 {
        lemma_stream_preserves_validity(s, bytes.drop_last());
        lemma_parse_preserves_validity(spec_parse_stream(s, bytes.drop_last()), bytes.last());
    }
}

/// Law: for every byte sequence fed one byte at a time from an idle parser,
/// a `Success` is only ever reported for a full, well-formed command.
pub proof fn lemma_stream_success_is_complete(s: ParseStateView, bytes: Seq<u8>)
    requires
        valid_state(s),
        bytes.len() > 0,
        spec_parse_stream(s, bytes) is Success,
    ensures
        is_complete_command(spec_parse_stream(s, bytes)->Success_0),
{
    lemma_stream_preserves_validity(s, bytes.drop_last());
    lemma_success_is_complete(spec_parse_stream(s, bytes.drop_last()), bytes.last());
}

/// The response owed for a completed command: `IAC WILL GMCP` is answered
/// with `IAC DO GMCP`; every other command draws no response.
pub open spec fn spec_cmd_response(c: Seq<u8>) -> Option<Seq<u8>> {
    if c == seq![IAC, WILL, GMCP] {
        Some(seq![IAC, DO, GMCP])
    } else {
        None
    }
}

/// The outbound bytes owed in answer to a completed telnet command.
pub fn cmd_response(cmd: &Vec<u8>) -> (r: Option<Vec<u8>>)
    ensures
        r is Some <==> cmd@ == seq![IAC, WILL, GMCP],
        match r {
            Some(out) => out@ == seq![IAC, DO, GMCP],
            None => true,
        },
        r is Some <==> spec_cmd_response(cmd@) is Some,
        r is Some ==> r->0@ == spec_cmd_response(cmd@)->0,
{
    if cmd.len() == 3 && cmd[0] == IAC && cmd[1] == WILL && cmd[2] == GMCP {
        proof {
            assert(cmd@ =~= seq![IAC, WILL, GMCP]);
        }
        let mut out: Vec<u8> = Vec::new();
        out.push(IAC);
        out.push(DO);
        out.push(GMCP);
        proof {
            assert(out@ =~= seq![IAC, DO, GMCP]);
        }
        Some(out)
    } else {
        proof {
            if cmd@ == seq![IAC, WILL, GMCP] {
                assert(cmd@.len() == 3);
                assert(false);
            }
        }
        None
    }
}

/// A completed GMCP subnegotiation block carrying at least an empty payload.
pub open spec fn is_gmcp_subneg(c: Seq<u8>) -> bool {
    c.len() >= 5 && c[0] == IAC && c[1] == SB && c[2] == GMCP
}

/// The raw payload of a completed GMCP subnegotiation: the bytes between the
/// `IAC SB GMCP` opener and the `IAC SE` terminator.
pub fn gmcp_payload(cmd: &Vec<u8>) -> (r: Option<Vec<u8>>)
    ensures
        r is Some <==> is_gmcp_subneg(cmd@),
        r is Some ==> r->0@ == cmd@.subrange(3, cmd@.len() - 2),
{
    if cmd.len() >= 5 && cmd[0] == IAC && cmd[1] == SB && cmd[2] == GMCP {
        let mut payload: Vec<u8> = Vec::new();
        let end = cmd.len() - 2;
        for i in 3..end
            invariant
                end == cmd@.len() - 2,
                cmd@.len() >= 5,
                payload@ == cmd@.subrange(3, i as int),
        {
            payload.push(cmd[i]);
            proof {
                assert(payload@ =~= cmd@.subrange(3, i + 1));
            }
        }
        Some(payload)
    } else {
        None
    }
}

/// The decoded text of a completed GMCP subnegotiation, or `None` when the
/// command is not a GMCP block or its payload is not valid UTF-8 (such a
/// message is dropped silently).
pub fn gmcp_message(cmd: &Vec<u8>) -> (r: Option<String>)
    ensures
        r is Some <==> (is_gmcp_subneg(cmd@) && valid_utf8(cmd@.subrange(3, cmd@.len() - 2))),
        r is Some ==> r->0@ == decode_utf8(cmd@.subrange(3, cmd@.len() - 2)),
{
    match gmcp_payload(cmd) {
        Some(payload) => bytes_to_utf8(payload),
        None => None,
    }
}

/// Relies on `String::from_utf8`: returns `Ok` exactly when the bytes are
/// valid UTF-8, and then the string those bytes decode to.
#[verifier::external_body]
fn bytes_to_utf8(bytes: Vec<u8>) -> (r: Option<String>)
    ensures
        r is Some <==> valid_utf8(bytes@),
        r is Some ==> r->0@ == decode_utf8(bytes@),
{
    String::from_utf8(bytes).ok()
}

} // verus!
