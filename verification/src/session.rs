//! Per-connection state and the byte-ingestion pipeline.
//!
//! A `Session` owns one connection's parser states, the running display
//! format, the scrollback and input-history buffers, the input cursor, and
//! the previous search result.  Each inbound byte is routed through the
//! telnet parser first; a byte not consumed there is offered to the escape
//! parser; a byte consumed by neither becomes a formatted character under
//! the session's current format.

use vstd::prelude::*;
use crate::esc_seq;
use crate::format::{Format, FormattedString};
use crate::parse_state::{ParseState, ParseStateView};
use crate::ring_buffer::{ring_push, RingBuffer};
use crate::search::SearchResult;
use crate::telnet;

verus! {

/// Per-connection aggregate state (the connection handle itself lives with
/// the I/O layer, outside this library).
pub struct Session {
    pub telnet_state: ParseState,
    pub esc_seq_state: ParseState,
    pub char_format: Format,
    pub scrollback_buf: RingBuffer<FormattedString>,
    pub history: RingBuffer<FormattedString>,
    pub cursor_index: usize,
    pub prev_search_result: Option<SearchResult>,
}

/// The character cells of every line of a buffer, in chronological order.
pub open spec fn lines_of(buf: RingBuffer<FormattedString>) -> Seq<Seq<(char, Format)>> {
    buf@.map_values(|fs: FormattedString| fs@)
}

impl Session {
    /// The chronological position of the input line currently under edit.
    pub open spec fn edit_pos(&self) -> int {
        self.history@.len() - 1 - self.history.spec_index()
    }

    /// The session invariant: both buffers well formed and never empty, the
    /// cursor clamped to the line under edit, the parser states reachable,
    /// and any remembered search result on a line the scrollback still has.
    pub open spec fn inv(&self) -> bool {
        &&& self.scrollback_buf.inv()
        &&& self.history.inv()
        &&& self.scrollback_buf@.len() >= 1
        &&& self.history@.len() >= 1
        &&& self.cursor_index <= self.history@[self.edit_pos()]@.len()
        &&& telnet::valid_state(self.telnet_state@)
        &&& esc_seq::valid_state(self.esc_seq_state@)
        &&& match self.prev_search_result {
            Some(p) => p.line_number < self.scrollback_buf@.len(),
            None => true,
        }
    }

    /// A fresh session: parsers idle, default format, one empty scrollback
    /// line and one empty live input line, cursor at column 0.
    pub fn new(scrollback_capacity: usize, history_capacity: usize) -> (r: Session)
        requires
            scrollback_capacity >= 1,
            history_capacity >= 1,
        ensures
            r.telnet_state@ is NotInProgress,
            r.esc_seq_state@ is NotInProgress,
            r.char_format == Format::default_spec(),
            r.scrollback_buf@.len() == 1 && r.scrollback_buf@[0]@ == Seq::<(char, Format)>::empty(),
            r.history@.len() == 1 && r.history@[0]@ == Seq::<(char, Format)>::empty(),
            r.scrollback_buf.spec_capacity() == scrollback_capacity,
            r.history.spec_capacity() == history_capacity,
            r.scrollback_buf.spec_index() == 0,
            r.history.spec_index() == 0,
            r.cursor_index == 0,
            r.prev_search_result is None,
            r.inv(),
    {
        let mut scrollback: RingBuffer<FormattedString> = RingBuffer::new(scrollback_capacity);
        scrollback.push(FormattedString::new());
        let mut history: RingBuffer<FormattedString> = RingBuffer::new(history_capacity);
        history.push(FormattedString::new());
        Session {
            telnet_state: ParseState::NotInProgress,
            esc_seq_state: ParseState::NotInProgress,
            char_format: Format::default(),
            scrollback_buf: scrollback,
            history,
            cursor_index: 0,
            prev_search_result: None,
        }
    }
}

/// The pipeline state threaded through one ingestion pass: both parser
/// states, the running format, the text decoded so far, and the outbound
/// bytes owed so far.
pub struct PipeState {
    pub telnet: ParseStateView,
    pub esc: ParseStateView,
    pub fmt: Format,
    pub out: Seq<(char, Format)>,
    pub outbound: Seq<u8>,
}

/// The bytes owed in response to a completed telnet command.
pub open spec fn response_bytes(c: Seq<u8>) -> Seq<u8> {
    match telnet::spec_cmd_response(c) {
        Some(r) => r,
        None => Seq::empty(),
    }
}

/// One byte through the pipeline.  Telnet takes strict priority; a byte that
/// is part of an in-progress or newly-starting telnet sequence is never also
/// offered to the escape parser.  A completed `IAC IAC` emits one literal
/// `0xFF` data character; a completed command draws its response; a
/// completed escape sequence updates the running format; parse errors are
/// dropped and both parsers recover on the next byte.
pub open spec fn spec_step(s: PipeState, b: u8) -> PipeState {
    let t2 = telnet::spec_parse(s.telnet, b);
    match t2 {
        ParseStateView::NotInProgress => {
            let e2 = esc_seq::spec_parse(s.esc, b);
            match e2 {
                ParseStateView::NotInProgress => PipeState {
                    telnet: t2,
                    esc: e2,
                    out: s.out.push((b as char, s.fmt)),
                    ..s
                },
                ParseStateView::Success(sq) => PipeState {
                    telnet: t2,
                    esc: e2,
                    fmt: esc_seq::apply_delta(s.fmt, esc_seq::spec_interpret(sq)),
                    ..s
                },
                _ => PipeState { telnet: t2, esc: e2, ..s },
            }
        },
        ParseStateView::Success(c) => {
            if c == seq![telnet::IAC, telnet::IAC] {
                PipeState { telnet: t2, out: s.out.push((telnet::IAC as char, s.fmt)), ..s }
            } else {
                PipeState { telnet: t2, outbound: s.outbound + response_bytes(c), ..s }
            }
        },
        _ => PipeState { telnet: t2, ..s },
    }
}

/// The pipeline folded over a whole byte sequence, left to right.
pub open spec fn spec_pipeline(s: PipeState, bytes: Seq<u8>) -> PipeState
    decreases bytes.len(),
{
    if bytes.len() == 0 {
        s
    } else {
        spec_step(spec_pipeline(s, bytes.drop_last()), bytes.last())
    }
}

/// The pipeline state a session starts an ingestion pass in.
pub open spec fn pipe_of(s: Session) -> PipeState {
    PipeState {
        telnet: s.telnet_state@,
        esc: s.esc_seq_state@,
        fmt: s.char_format,
        out: Seq::empty(),
        outbound: Seq::empty(),
    }
}

/// Decode one burst of inbound bytes.  Returns the formatted text produced
/// and the outbound (negotiation response) bytes owed; the session's parser
/// states and running format advance exactly as the pipeline specifies, and
/// nothing else in the session changes.
pub fn handle_server_data(session: &mut Session, data: &Vec<u8>) -> (r: (
    FormattedString,
    Vec<u8>,
))
    requires
        old(session).inv(),
    ensures
        ({
            let end = spec_pipeline(pipe_of(*old(session)), data@);
            &&& final(session).telnet_state@ == end.telnet
            &&& final(session).esc_seq_state@ == end.esc
            &&& final(session).char_format == end.fmt
            &&& r.0@ == end.out
            &&& r.1@ == end.outbound
        }),
        final(session).scrollback_buf == old(session).scrollback_buf,
        final(session).history == old(session).history,
        final(session).cursor_index == old(session).cursor_index,
        final(session).prev_search_result == old(session).prev_search_result,
        final(session).inv(),
{
    let mut out = FormattedString::new();
    let mut outbound: Vec<u8> = Vec::new();
    let n = data.len();
    proof {
        assert(data@.subrange(0, 0) =~= Seq::<u8>::empty());
    }
    for i in 0..n
        invariant
            n == data@.len(),
            ({
                let st = spec_pipeline(pipe_of(*old(session)), data@.subrange(0, i as int));
                &&& session.telnet_state@ == st.telnet
                &&& session.esc_seq_state@ == st.esc
                &&& session.char_format == st.fmt
                &&& out@ == st.out
                &&& outbound@ == st.outbound
            }),
            session.scrollback_buf == old(session).scrollback_buf,
            session.history == old(session).history,
            session.cursor_index == old(session).cursor_index,
            session.prev_search_result == old(session).prev_search_result,
            telnet::valid_state(session.telnet_state@),
            esc_seq::valid_state(session.esc_seq_state@),
            old(session).inv(),
    {
        let ghost prefix = data@.subrange(0, i as int);
        let ghost st = spec_pipeline(pipe_of(*old(session)), prefix);
        proof {
            assert(data@.subrange(0, i + 1).drop_last() =~= prefix);
            assert(data@.subrange(0, i + 1).last() == data@[i as int]);
        }
        let b = data[i];
        proof {
            telnet::lemma_parse_preserves_validity(session.telnet_state@, b);
            esc_seq::lemma_parse_preserves_validity(session.esc_seq_state@, b);
        }
        let new_telnet = telnet::parse(&session.telnet_state, b);
        match &new_telnet {
            ParseState::NotInProgress => {
                let new_esc = esc_seq::parse(&session.esc_seq_state, b);
                match &new_esc {
                    ParseState::NotInProgress => {
                        out.push((b as char, session.char_format));
                    },
                    ParseState::Success(sq) => {
                        proof {
                            esc_seq::lemma_success_is_complete(session.esc_seq_state@, b);
                        }
                        let delta = esc_seq::interpret(sq);
                        let f = session.char_format;
                        session.char_format = Format {
                            style: match delta.0 {
                                Some(s) => s,
                                None => f.style,
                            },
                            fg_color: match delta.1 {
                                Some(c) => c,
                                None => f.fg_color,
                            },
                            bg_color: match delta.2 {
                                Some(c) => c,
                                None => f.bg_color,
                            },
                        };
                    },
                    _ => {},
                }
                session.esc_seq_state = new_esc;
            },
            ParseState::Success(cmd) => {
                if cmd.len() == 2 && cmd[0] == telnet::IAC && cmd[1] == telnet::IAC {
                    proof {
                        assert(cmd@ =~= seq![telnet::IAC, telnet::IAC]);
                    }
                    out.push((telnet::IAC as char, session.char_format));
                } else {
                    proof {
                        if cmd@ == seq![telnet::IAC, telnet::IAC] {
                            assert(cmd@.len() == 2);
                            assert(false);
                        }
                    }
                    match telnet::cmd_response(cmd) {
                        Some(resp) => {
                            let mut resp = resp;
                            outbound.append(&mut resp);
                        },
                        None => {
                            proof {
                                assert(outbound@ =~= outbound@ + response_bytes(cmd@));
                            }
                        },
                    }
                }
            },
            _ => {},
        }
        session.telnet_state = new_telnet;
    }
    proof {
        assert(data@.subrange(0, data@.len() as int) =~= data@);
    }
    (out, outbound)
}

/// One cell folded into a line buffer: carriage returns are dropped, a
/// newline starts a new (possibly evicting) buffer entry, and any other
/// cell is appended to the most recent entry.
pub open spec fn line_append_cell(
    lines: Seq<Seq<(char, Format)>>,
    cap: nat,
    cell: (char, Format),
) -> Seq<Seq<(char, Format)>> {
    if cell.0 == '\r' {
        lines
    } else if cell.0 == '\n' {
        ring_push(lines, cap, Seq::empty())
    } else {
        lines.update(lines.len() - 1, lines.last().push(cell))
    }
}

/// A whole formatted fragment folded into a line buffer, left to right.
pub open spec fn spec_line_append(
    lines: Seq<Seq<(char, Format)>>,
    cap: nat,
    cells: Seq<(char, Format)>,
) -> Seq<Seq<(char, Format)>>
    decreases cells.len(),
{
    if cells.len() == 0 {
        lines
    } else {
        line_append_cell(spec_line_append(lines, cap, cells.drop_last()), cap, cells.last())
    }
}

/// Append a formatted fragment into a buffer of lines, line-aware: `\r` is
/// dropped, `\n` starts a new entry, anything else extends the most recent
/// entry under its own format.
pub fn write_to_line_buffer(buffer: &mut RingBuffer<FormattedString>, data: FormattedString)
    requires
        old(buffer).inv(),
        old(buffer)@.len() >= 1,
    ensures
        lines_of(*final(buffer)) == spec_line_append(
            lines_of(*old(buffer)),
            old(buffer).spec_capacity(),
            data@,
        ),
        final(buffer).spec_capacity() == old(buffer).spec_capacity(),
        final(buffer).spec_index() == old(buffer).spec_index(),
        final(buffer)@.len() >= old(buffer)@.len(),
        final(buffer).inv(),
{
    let n = data.len();
    proof {
        assert(data@.subrange(0, 0) =~= Seq::<(char, Format)>::empty());
    }
    for i in 0..n
        invariant
            n == data@.len(),
            lines_of(*buffer) == spec_line_append(
                lines_of(*old(buffer)),
                old(buffer).spec_capacity(),
                data@.subrange(0, i as int),
            ),
            buffer.spec_capacity() == old(buffer).spec_capacity(),
            buffer.spec_index() == old(buffer).spec_index(),
            buffer@.len() >= old(buffer)@.len(),
            old(buffer)@.len() >= 1,
            buffer.inv(),
            old(buffer).inv(),
    {
        proof {
            assert(data@.subrange(0, i + 1).drop_last() =~= data@.subrange(0, i as int));
            assert(data@.subrange(0, i + 1).last() == data@[i as int]);
        }
        let ghost before = lines_of(*buffer);
        let cell = data.get(i);
        if cell.0 == '\r' {
            // dropped
        } else if cell.0 == '\n' {
            buffer.push(FormattedString::new());
            proof {
                if before.len() < buffer.spec_capacity() {
                    assert(lines_of(*buffer) =~= before.push(Seq::<(char, Format)>::empty()));
                } else {
                    assert(lines_of(*buffer) =~= before.drop_first().push(
                        Seq::<(char, Format)>::empty(),
                    ));
                }
            }
        } else {
            let line = buffer.get_recent_mut(0);
            line.push(cell);
            proof {
                assert(lines_of(*buffer) =~= before.update(
                    before.len() - 1,
                    before.last().push(cell),
                ));
            }
        }
    }
    proof {
        assert(data@.subrange(0, data@.len() as int) =~= data@);
    }
}

} // verus!
