//! Actions bound to keys and to script requests.
//!
//! The owning context holds an indexable collection of sessions plus the
//! explicit index of the active one; every action takes the context and
//! works on the active session.  Anything that would touch the wire is
//! split off: actions here only compute and mutate session state, and
//! `send_data` returns the bytes the I/O layer owes the server.

use vstd::prelude::*;
use vstd::string::{StrSliceExecFns, StringSliceAdditionalSpecFns};
use vstd::utf8::encode_utf8;
use crate::format::{text_of, Format, FormattedString, Style};
use crate::ring_buffer::ring_push;
use crate::search::{highlight_string, line_contains, match_at, restyle, search_buffer};
use crate::session::{lines_of, spec_line_append, write_to_line_buffer, Session};

verus! {

/// The owning context: every session plus the index of the active one and
/// the height of the output viewport in lines.
pub struct Context {
    pub sessions: Vec<Session>,
    pub session_index: usize,
    pub viewport_lines: usize,
}

impl Context {
    /// The context invariant: a valid active index and well-formed sessions.
    pub open spec fn inv(&self) -> bool {
        &&& self.session_index < self.sessions@.len()
        &&& self.viewport_lines >= 1
        &&& forall|i: int| 0 <= i < self.sessions@.len() ==> (#[trigger] self.sessions@[i]).inv()
    }

    /// The active session.
    pub open spec fn cur(&self) -> Session {
        self.sessions@[self.session_index as int]
    }

    /// A context of one fresh session.
    pub fn new(scrollback_capacity: usize, history_capacity: usize, viewport_lines: usize) -> (r:
        Context)
        requires
            scrollback_capacity >= 1,
            history_capacity >= 1,
            viewport_lines >= 1,
        ensures
            r.inv(),
            r.session_index == 0,
            r.viewport_lines == viewport_lines,
            r.sessions@.len() == 1,
            r.cur().scrollback_buf@.len() == 1 && r.cur().scrollback_buf@[0]@ == Seq::<(
                char,
                Format,
            )>::empty(),
            r.cur().history@.len() == 1 && r.cur().history@[0]@ == Seq::<(char, Format)>::empty(),
            r.cur().scrollback_buf.spec_capacity() == scrollback_capacity,
            r.cur().history.spec_capacity() == history_capacity,
            r.cur().scrollback_buf.spec_index() == 0,
            r.cur().history.spec_index() == 0,
            r.cur().cursor_index == 0,
            r.cur().prev_search_result is None,
            r.cur().telnet_state@ is NotInProgress,
            r.cur().esc_seq_state@ is NotInProgress,
            r.cur().char_format == Format::default_spec(),
    {
        let mut sessions: Vec<Session> = Vec::new();
        sessions.push(Session::new(scrollback_capacity, history_capacity));
        Context { sessions, session_index: 0, viewport_lines }
    }

    /// Mutable access to the active session.
    pub fn current_session_mut(&mut self) -> (r: &mut Session)
        requires
            old(self).inv(),
        ensures
            *r == old(self).cur(),
            final(self).sessions@ == old(self).sessions@.update(
                old(self).session_index as int,
                *final(r),
            ),
            final(self).session_index == old(self).session_index,
            final(self).viewport_lines == old(self).viewport_lines,
    {
        let i = self.session_index;
        &mut self.sessions[i]
    }

    /// Shared access to the active session.
    pub fn current_session(&self) -> (r: &Session)
        requires
            self.inv(),
        ensures
            *r == self.cur(),
    {
        &self.sessions[self.session_index]
    }
}

/// Everything outside the active session is untouched.
pub open spec fn others_unchanged(c0: Context, c1: Context) -> bool {
    &&& c1.session_index == c0.session_index
    &&& c1.viewport_lines == c0.viewport_lines
    &&& c1.sessions@.len() == c0.sessions@.len()
    &&& forall|i: int|
        0 <= i < c0.sessions@.len() && i != c0.session_index ==> c1.sessions@[i]
            == c0.sessions@[i]
}

/// The active session changed at most in its scrollback buffer and
/// remembered search result.
pub open spec fn eq_but_scrollback(s0: Session, s1: Session) -> bool {
    &&& s1.telnet_state == s0.telnet_state
    &&& s1.esc_seq_state == s0.esc_seq_state
    &&& s1.char_format == s0.char_format
    &&& s1.history == s0.history
    &&& s1.cursor_index == s0.cursor_index
}

/// The active session changed at most in its input history and cursor.
pub open spec fn eq_but_input(s0: Session, s1: Session) -> bool {
    &&& s1.telnet_state == s0.telnet_state
    &&& s1.esc_seq_state == s0.esc_seq_state
    &&& s1.char_format == s0.char_format
    &&& s1.scrollback_buf == s0.scrollback_buf
    &&& s1.prev_search_result == s0.prev_search_result
}

/// The history buffer changed in one line only, everything else kept.
pub open spec fn history_line_changed(s0: Session, s1: Session, pos: int, line: Seq<(char, Format)>) -> bool {
    &&& s1.history@.len() == s0.history@.len()
    &&& s1.history.spec_capacity() == s0.history.spec_capacity()
    &&& s1.history.spec_index() == s0.history.spec_index()
    &&& forall|i: int| 0 <= i < s0.history@.len() && i != pos ==> s1.history@[i] == s0.history@[i]
    &&& s1.history@[pos]@ == line
}

/// Stop the client: the binding loop exits on `false`.
pub fn quit(_context: &mut Context) -> (r: bool)
    ensures
        r == false,
        *final(_context) == *old(_context),
{
    false
}

/// Scroll the transcript half a viewport further into the past, clamped at
/// the oldest line.
pub fn prev_page(context: &mut Context) -> (r: bool)
    requires
        old(context).inv(),
    ensures
        r == true,
        others_unchanged(*old(context), *final(context)),
        eq_but_scrollback(old(context).cur(), final(context).cur()),
        final(context).cur().prev_search_result == old(context).cur().prev_search_result,
        final(context).cur().scrollback_buf@ == old(context).cur().scrollback_buf@,
        final(context).cur().scrollback_buf.spec_capacity() == old(context).cur().scrollback_buf.spec_capacity(),
        final(context).cur().scrollback_buf.spec_index() == ({
            let b = old(context).cur().scrollback_buf;
            let n = old(context).viewport_lines / 2;
            if b@.len() == 0 {
                0
            } else if b.spec_index() + n < b@.len() {
                b.spec_index() + n
            } else {
                b@.len() - 1
            }
        }),
        final(context).inv(),
{
    let lines = context.viewport_lines / 2;
    let sess = context.current_session_mut();
    sess.scrollback_buf.increment_index(lines);
    true
}

/// Scroll the transcript half a viewport back toward the present, clamped
/// at the most recent line.
pub fn next_page(context: &mut Context) -> (r: bool)
    requires
        old(context).inv(),
    ensures
        r == true,
        others_unchanged(*old(context), *final(context)),
        eq_but_scrollback(old(context).cur(), final(context).cur()),
        final(context).cur().prev_search_result == old(context).cur().prev_search_result,
        final(context).cur().scrollback_buf@ == old(context).cur().scrollback_buf@,
        final(context).cur().scrollback_buf.spec_capacity() == old(context).cur().scrollback_buf.spec_capacity(),
        final(context).cur().scrollback_buf.spec_index() == ({
            let b = old(context).cur().scrollback_buf;
            let n = old(context).viewport_lines / 2;
            if n <= b.spec_index() {
                b.spec_index() - n
            } else {
                0
            }
        }),
        final(context).inv(),
{
    let lines = context.viewport_lines / 2;
    let sess = context.current_session_mut();
    sess.scrollback_buf.decrement_index(lines);
    true
}

/// Delete the character before the cursor on the line under edit, if any,
/// and move the cursor one column left.
pub fn backspace_input(context: &mut Context) -> (r: bool)
    requires
        old(context).inv(),
    ensures
        r == true,
        others_unchanged(*old(context), *final(context)),
        eq_but_input(old(context).cur(), final(context).cur()),
        ({
            let s0 = old(context).cur();
            let s1 = final(context).cur();
            if s0.cursor_index > 0 {
                &&& history_line_changed(
                    s0,
                    s1,
                    s0.edit_pos(),
                    s0.history@[s0.edit_pos()]@.remove(s0.cursor_index - 1),
                )
                &&& s1.cursor_index == s0.cursor_index - 1
            } else {
                &&& s1.history == s0.history
                &&& s1.cursor_index == 0
            }
        }),
        final(context).inv(),
{
    let sess = context.current_session_mut();
    let cursor = sess.cursor_index;
    if cursor > 0 {
        let index = sess.history.index();
        let line = sess.history.get_recent_mut(index);
        line.remove(cursor - 1);
        sess.cursor_index = cursor - 1;
    }
    true
}

/// Delete the character under the cursor on the line under edit, if any;
/// the cursor does not move.
pub fn delete_input_char(context: &mut Context) -> (r: bool)
    requires
        old(context).inv(),
    ensures
        r == true,
        others_unchanged(*old(context), *final(context)),
        eq_but_input(old(context).cur(), final(context).cur()),
        ({
            let s0 = old(context).cur();
            let s1 = final(context).cur();
            if s0.cursor_index < s0.history@[s0.edit_pos()]@.len() {
                &&& history_line_changed(
                    s0,
                    s1,
                    s0.edit_pos(),
                    s0.history@[s0.edit_pos()]@.remove(s0.cursor_index as int),
                )
                &&& s1.cursor_index == s0.cursor_index
            } else {
                &&& s1.history == s0.history
                &&& s1.cursor_index == s0.cursor_index
            }
        }),
        final(context).inv(),
{
    let sess = context.current_session_mut();
    let index = sess.history.index();
    let input_len = sess.history.get_recent(index).len();
    let cursor = sess.cursor_index;
    if cursor < input_len {
        let line = sess.history.get_recent_mut(index);
        line.remove(cursor);
    }
    true
}

/// Move the cursor one column left, clamped at the line start.
pub fn cursor_left(context: &mut Context) -> (r: bool)
    requires
        old(context).inv(),
    ensures
        r == true,
        others_unchanged(*old(context), *final(context)),
        eq_but_input(old(context).cur(), final(context).cur()),
        final(context).cur().history == old(context).cur().history,
        final(context).cur().cursor_index == (if old(context).cur().cursor_index > 0 {
            old(context).cur().cursor_index - 1
        } else {
            0
        }),
        final(context).inv(),
{
    let sess = context.current_session_mut();
    let cursor = sess.cursor_index;
    if cursor > 0 {
        sess.cursor_index = cursor - 1;
    }
    true
}

/// Move the cursor one column right, clamped at the line end.
pub fn cursor_right(context: &mut Context) -> (r: bool)
    requires
        old(context).inv(),
    ensures
        r == true,
        others_unchanged(*old(context), *final(context)),
        eq_but_input(old(context).cur(), final(context).cur()),
        final(context).cur().history == old(context).cur().history,
        final(context).cur().cursor_index == ({
            let s0 = old(context).cur();
            if s0.cursor_index < s0.history@[s0.edit_pos()]@.len() {
                s0.cursor_index + 1
            } else {
                s0.cursor_index as int
            }
        }),
        final(context).inv(),
{
    let sess = context.current_session_mut();
    let index = sess.history.index();
    let input_len = sess.history.get_recent(index).len();
    let cursor = sess.cursor_index;
    if cursor < input_len {
        sess.cursor_index = cursor + 1;
    }
    true
}

/// Page one entry further back in the input history, clamped at the oldest
/// entry; the cursor jumps to the end of the entry now under edit.
pub fn history_prev(context: &mut Context) -> (r: bool)
    requires
        old(context).inv(),
    ensures
        r == true,
        others_unchanged(*old(context), *final(context)),
        eq_but_input(old(context).cur(), final(context).cur()),
        final(context).cur().history@ == old(context).cur().history@,
        final(context).cur().history.spec_capacity() == old(context).cur().history.spec_capacity(),
        final(context).cur().history.spec_index() == ({
            let h = old(context).cur().history;
            if h.spec_index() + 1 < h@.len() {
                h.spec_index() + 1 as int
            } else {
                h@.len() - 1
            }
        }),
        final(context).cur().cursor_index == final(context).cur().history@[final(context).cur().edit_pos()]@.len(),
        final(context).inv(),
{
    let sess = context.current_session_mut();
    sess.history.increment_index(1);
    let index = sess.history.index();
    sess.cursor_index = sess.history.get_recent(index).len();
    true
}

/// Page one entry back toward the live input line, clamped there; the
/// cursor jumps to the end of the entry now under edit.
pub fn history_next(context: &mut Context) -> (r: bool)
    requires
        old(context).inv(),
    ensures
        r == true,
        others_unchanged(*old(context), *final(context)),
        eq_but_input(old(context).cur(), final(context).cur()),
        final(context).cur().history@ == old(context).cur().history@,
        final(context).cur().history.spec_capacity() == old(context).cur().history.spec_capacity(),
        final(context).cur().history.spec_index() == ({
            let h = old(context).cur().history;
            if h.spec_index() >= 1 {
                h.spec_index() - 1
            } else {
                0
            }
        }),
        final(context).cur().cursor_index == final(context).cur().history@[final(context).cur().edit_pos()]@.len(),
        final(context).inv(),
{
    let sess = context.current_session_mut();
    sess.history.decrement_index(1);
    let index = sess.history.index();
    sess.cursor_index = sess.history.get_recent(index).len();
    true
}

/// Kill from the cursor to the start of the line under edit, keeping the
/// suffix, and move the cursor to column 0.
pub fn delete_to_cursor(context: &mut Context) -> (r: bool)
    requires
        old(context).inv(),
    ensures
        r == true,
        others_unchanged(*old(context), *final(context)),
        eq_but_input(old(context).cur(), final(context).cur()),
        ({
            let s0 = old(context).cur();
            let line0 = s0.history@[s0.edit_pos()]@;
            &&& history_line_changed(
                s0,
                final(context).cur(),
                s0.edit_pos(),
                line0.subrange(s0.cursor_index as int, line0.len() as int),
            )
            &&& final(context).cur().cursor_index == 0
        }),
        final(context).inv(),
{
    let sess = context.current_session_mut();
    let history_index = sess.history.index();
    let cursor = sess.cursor_index;
    let curr_line = sess.history.get_recent_mut(history_index);
    let after_cursor = curr_line.split_off(cursor);
    curr_line.clear();
    curr_line.extend(after_cursor);
    sess.cursor_index = 0;
    true
}

/// Insert a character at the cursor on the line under edit, under the
/// default format, and move the cursor one column right.
pub fn insert_input_char(context: &mut Context, ch: char)
    requires
        old(context).inv(),
    ensures
        others_unchanged(*old(context), *final(context)),
        eq_but_input(old(context).cur(), final(context).cur()),
        ({
            let s0 = old(context).cur();
            &&& history_line_changed(
                s0,
                final(context).cur(),
                s0.edit_pos(),
                s0.history@[s0.edit_pos()]@.insert(
                    s0.cursor_index as int,
                    (ch, Format::default_spec()),
                ),
            )
            &&& final(context).cur().cursor_index == s0.cursor_index + 1
        }),
        final(context).inv(),
{
    let sess = context.current_session_mut();
    let hist_index = sess.history.index();
    let cursor = sess.cursor_index;
    let line = sess.history.get_recent_mut(hist_index);
    line.insert(cursor, (ch, Format::default()));
    let new_len = sess.history.get_recent(hist_index).len();
    proof {
        assert(cursor + 1 <= new_len);
    }
    sess.cursor_index = cursor + 1;
}

/// Append formatted text to the active session's scrollback, line-aware.
pub fn write_scrollback(context: &mut Context, data: FormattedString)
    requires
        old(context).inv(),
    ensures
        others_unchanged(*old(context), *final(context)),
        eq_but_scrollback(old(context).cur(), final(context).cur()),
        final(context).cur().prev_search_result == old(context).cur().prev_search_result,
        ({
            let b0 = old(context).cur().scrollback_buf;
            let b1 = final(context).cur().scrollback_buf;
            &&& lines_of(b1) == spec_line_append(lines_of(b0), b0.spec_capacity(), data@)
            &&& b1.spec_capacity() == b0.spec_capacity()
            &&& b1.spec_index() == b0.spec_index()
            &&& b1@.len() >= b0@.len()
        }),
        final(context).inv(),
{
    let sess = context.current_session_mut();
    write_to_line_buffer(&mut sess.scrollback_buf, data);
}

/// The bytes owed to the server for one line of input: the UTF-8 encoding
/// of the text, followed by CRLF when a line ending is requested.
pub fn send_data(data: &str, add_line_ending: bool) -> (r: Vec<u8>)
    ensures
        add_line_ending ==> r@ == encode_utf8(data@) + seq![13u8, 10u8],
        !add_line_ending ==> r@ == encode_utf8(data@),
{
    let mut bytes = data.as_bytes_vec();
    if add_line_ending {
        bytes.push(13);
        bytes.push(10);
        proof {
            assert(bytes@ =~= encode_utf8(data@) + seq![13u8, 10u8]);
        }
    }
    bytes
}

/// Submit the line under edit.  Any history scroll is reset; when the
/// session was scrolled back, the live slot is cleared and the submitted
/// text becomes a fresh history entry followed by a new empty live line;
/// otherwise the live line itself becomes the entry and a new empty live
/// line is opened.  The cursor returns to column 0.  Returns the submitted
/// text, which the I/O layer sends and the script hook inspects.
pub fn commit_input(context: &mut Context) -> (r: String)
    requires
        old(context).inv(),
    ensures
        others_unchanged(*old(context), *final(context)),
        eq_but_input(old(context).cur(), final(context).cur()),
        r@ == text_of(old(context).cur().history@[old(context).cur().edit_pos()]@),
        ({
            let s0 = old(context).cur();
            let s1 = final(context).cur();
            let h0 = s0.history;
            &&& s1.history.spec_capacity() == h0.spec_capacity()
            &&& s1.history.spec_index() == 0
            &&& s1.cursor_index == 0
            &&& if h0.spec_index() == 0 {
                lines_of(s1.history) == ring_push(
                    lines_of(h0),
                    h0.spec_capacity(),
                    Seq::<(char, Format)>::empty(),
                )
            } else {
                lines_of(s1.history) == spec_line_append(
                    lines_of(h0).update(h0@.len() - 1, Seq::<(char, Format)>::empty()),
                    h0.spec_capacity(),
                    Seq::new(r@.len() as nat, |i: int| (r@[i], Format::default_spec())).push(
                        ('\n', Format::default_spec()),
                    ),
                )
            }
        }),
        final(context).inv(),
{
    let sess = context.current_session_mut();
    let index = sess.history.index();
    let contents = sess.history.get_recent(index).to_string();
    if index > 0 {
        sess.history.reset_index();
        let ghost cleared = lines_of(sess.history).update(
            sess.history@.len() - 1,
            Seq::<(char, Format)>::empty(),
        );
        let line0 = sess.history.get_recent_mut(0);
        line0.clear();
        proof {
            assert(lines_of(sess.history) =~= cleared);
        }
        let mut fragment = FormattedString::with_format(contents.as_str(), Format::default());
        fragment.push(('\n', Format::default()));
        proof {
            assert(fragment@ =~= Seq::new(
                contents@.len(),
                |i: int| (contents@[i], Format::default_spec()),
            ).push(('\n', Format::default_spec())));
        }
        write_to_line_buffer(&mut sess.history, fragment);
    } else {
        let ghost before = lines_of(sess.history);
        sess.history.push(FormattedString::new());
        proof {
            if before.len() < sess.history.spec_capacity() {
                assert(lines_of(sess.history) =~= before.push(Seq::<(char, Format)>::empty()));
            } else {
                assert(lines_of(sess.history) =~= before.drop_first().push(
                    Seq::<(char, Format)>::empty(),
                ));
            }
        }
    }
    sess.cursor_index = 0;
    contents
}

/// Resume the backward search for `pattern`: scan from just past the
/// previously remembered match (from the oldest line when none is
/// remembered), un-highlight the previous match if its range is still in
/// bounds, highlight the new one and scroll the view so its line is within
/// the viewport, and remember it for the next resume.  The search never
/// wraps back to the buffer start on its own.
pub fn search_backwards(context: &mut Context, pattern: &str)
    requires
        old(context).inv(),
    ensures
        others_unchanged(*old(context), *final(context)),
        ({
            let s0 = old(context).cur();
            let s1 = final(context).cur();
            let b0 = s0.scrollback_buf;
            let viewport = old(context).viewport_lines;
            let start = match s0.prev_search_result {
                Some(p) => p.line_number + 1,
                None => 0int,
            };
            let after_un = match s0.prev_search_result {
                Some(p) => if p.begin_index <= p.end_index <= lines_of(b0)[p.line_number as int].len() {
                    lines_of(b0).update(
                        p.line_number as int,
                        restyle(
                            lines_of(b0)[p.line_number as int],
                            p.begin_index as int,
                            p.end_index as int,
                            Style::Normal,
                        ),
                    )
                } else {
                    lines_of(b0)
                },
                None => lines_of(b0),
            };
            &&& eq_but_scrollback(s0, s1)
            &&& s1.scrollback_buf.spec_capacity() == b0.spec_capacity()
            &&& s1.scrollback_buf@.len() == b0@.len()
            &&& match s1.prev_search_result {
                Some(res) => {
                    &&& start <= res.line_number < b0@.len()
                    &&& res.end_index == res.begin_index + pattern@.len()
                    &&& match_at(
                        text_of(b0@[res.line_number as int]@),
                        pattern@,
                        res.begin_index as int,
                    )
                    &&& forall|j: int|
                        0 <= j < res.begin_index ==> !match_at(
                            text_of(b0@[res.line_number as int]@),
                            pattern@,
                            j,
                        )
                    &&& forall|l: int|
                        start <= l < res.line_number ==> !line_contains(
                            text_of(b0@[l]@),
                            pattern@,
                        )
                    &&& lines_of(s1.scrollback_buf) == after_un.update(
                        res.line_number as int,
                        restyle(
                            after_un[res.line_number as int],
                            res.begin_index as int,
                            res.end_index as int,
                            Style::Standout,
                        ),
                    )
                    &&& s1.scrollback_buf.spec_index() == ({
                        let recent = b0@.len() - 1 - res.line_number;
                        if recent < viewport {
                            0int
                        } else {
                            recent - viewport + 1
                        }
                    })
                },
                None => {
                    &&& forall|l: int|
                        start <= l < b0@.len() ==> !line_contains(text_of(b0@[l]@), pattern@)
                    &&& lines_of(s1.scrollback_buf) == after_un
                    &&& s1.scrollback_buf.spec_index() == b0.spec_index()
                },
            }
        }),
        final(context).inv(),
{
    let viewport_lines = context.viewport_lines;
    let sess = context.current_session_mut();
    let start_line: usize = match sess.prev_search_result {
        Some(p) => {
            let len0 = sess.scrollback_buf.len();
            proof {
                assert(p.line_number < len0);
            }
            p.line_number + 1
        },
        None => 0,
    };
    let this_result = search_buffer(&sess.scrollback_buf, pattern, start_line);

    // Un-highlight the old search result if there is one and its range is
    // still within the line it points at.
    match sess.prev_search_result {
        Some(p) => {
            let line = sess.scrollback_buf.get_mut(p.line_number);
            if p.begin_index <= p.end_index && p.end_index <= line.len() {
                highlight_string(line, p.begin_index, p.end_index, false);
                proof {
                    assert((*line)@ =~= restyle(
                        old(context).cur().scrollback_buf@[p.line_number as int]@,
                        p.begin_index as int,
                        p.end_index as int,
                        Style::Normal,
                    ));
                }
            }
            proof {
                assert(lines_of(sess.scrollback_buf) =~= lines_of(
                    old(context).cur().scrollback_buf,
                ).update(p.line_number as int, (*line)@));
            }
        },
        None => {},
    }
    let ghost after_un_lines = lines_of(sess.scrollback_buf);

    // Highlight the new search result and scroll the view to it.
    match this_result {
        Some(res) => {
            let len = sess.scrollback_buf.len();
            let recent = len - 1 - res.line_number;
            let target = if recent < viewport_lines {
                0
            } else {
                recent - viewport_lines + 1
            };
            sess.scrollback_buf.set_index(target);
            let line = sess.scrollback_buf.get_mut(res.line_number);
            proof {
                assert(text_of((*line)@).len() == (*line)@.len());
            }
            highlight_string(line, res.begin_index, res.end_index, true);
            proof {
                assert((*line)@ =~= restyle(
                    after_un_lines[res.line_number as int],
                    res.begin_index as int,
                    res.end_index as int,
                    Style::Standout,
                ));
            }
            proof {
                assert(lines_of(sess.scrollback_buf) =~= after_un_lines.update(
                    res.line_number as int,
                    (*line)@,
                ));
            }
        },
        None => {},
    }

    // Remember the new result for the next resumed search.
    sess.prev_search_result = this_result;
}

} // verus!
