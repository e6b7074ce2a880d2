use tome::actions::{
    backspace_input, commit_input, cursor_left, cursor_right, delete_input_char, delete_to_cursor,
    history_next, history_prev, insert_input_char, next_page, prev_page, quit, search_backwards,
    send_data, write_scrollback, Context,
};
use tome::format::{Format, FormattedString, Style};
use tome::search::SearchResult;

fn type_line(ctx: &mut Context, s: &str) {
    for ch in s.chars() {
        insert_input_char(ctx, ch);
    }
}

fn input_line(ctx: &Context) -> String {
    let sess = ctx.current_session();
    let index = sess.history.index();
    sess.history.get_recent(index).to_string()
}

#[test]
fn quit_returns_false() {
    let mut ctx = Context::new(10, 10, 4);
    assert!(!quit(&mut ctx));
}

#[test]
fn typing_inserts_at_the_cursor_and_advances_it() {
    let mut ctx = Context::new(10, 10, 4);
    type_line(&mut ctx, "lk");
    cursor_left(&mut ctx);
    insert_input_char(&mut ctx, 'o');
    insert_input_char(&mut ctx, 'o');
    assert_eq!(input_line(&ctx), "look");
    assert_eq!(ctx.current_session().cursor_index, 3);
}

#[test]
fn cursor_movement_clamps_to_the_line() {
    let mut ctx = Context::new(10, 10, 4);
    type_line(&mut ctx, "ab");
    assert!(cursor_right(&mut ctx));
    assert_eq!(ctx.current_session().cursor_index, 2);
    assert!(cursor_left(&mut ctx));
    assert!(cursor_left(&mut ctx));
    assert!(cursor_left(&mut ctx));
    assert_eq!(ctx.current_session().cursor_index, 0);
}

#[test]
fn backspace_removes_the_character_before_the_cursor() {
    let mut ctx = Context::new(10, 10, 4);
    type_line(&mut ctx, "abc");
    assert!(backspace_input(&mut ctx));
    assert_eq!(input_line(&ctx), "ab");
    assert_eq!(ctx.current_session().cursor_index, 2);
}

#[test]
fn backspace_at_column_zero_does_nothing() {
    let mut ctx = Context::new(10, 10, 4);
    type_line(&mut ctx, "ab");
    cursor_left(&mut ctx);
    cursor_left(&mut ctx);
    assert!(backspace_input(&mut ctx));
    assert_eq!(input_line(&ctx), "ab");
    assert_eq!(ctx.current_session().cursor_index, 0);
}

#[test]
fn delete_removes_the_character_under_the_cursor() {
    let mut ctx = Context::new(10, 10, 4);
    type_line(&mut ctx, "abc");
    cursor_left(&mut ctx);
    cursor_left(&mut ctx);
    assert!(delete_input_char(&mut ctx));
    assert_eq!(input_line(&ctx), "ac");
    assert_eq!(ctx.current_session().cursor_index, 1);
}

#[test]
fn delete_at_line_end_does_nothing() {
    let mut ctx = Context::new(10, 10, 4);
    type_line(&mut ctx, "ab");
    assert!(delete_input_char(&mut ctx));
    assert_eq!(input_line(&ctx), "ab");
}

#[test]
fn delete_to_cursor_keeps_the_suffix() {
    let mut ctx = Context::new(10, 10, 4);
    type_line(&mut ctx, "hello world");
    for _ in 0..5 {
        cursor_left(&mut ctx);
    }
    assert!(delete_to_cursor(&mut ctx));
    assert_eq!(input_line(&ctx), "world");
    assert_eq!(ctx.current_session().cursor_index, 0);
}

#[test]
fn commit_from_live_line_opens_a_fresh_one() {
    let mut ctx = Context::new(10, 10, 4);
    type_line(&mut ctx, "look");
    let sent = commit_input(&mut ctx);
    assert_eq!(sent, "look");
    let sess = ctx.current_session();
    assert_eq!(sess.history.index(), 0);
    assert_eq!(sess.cursor_index, 0);
    assert_eq!(sess.history.len(), 2);
    assert_eq!(sess.history.get_recent(0).len(), 0);
    assert_eq!(sess.history.get_recent(1).to_string(), "look");
}

#[test]
fn history_paging_clamps_and_moves_the_cursor_to_line_end() {
    let mut ctx = Context::new(10, 10, 4);
    type_line(&mut ctx, "one");
    commit_input(&mut ctx);
    type_line(&mut ctx, "two");
    commit_input(&mut ctx);
    assert!(history_prev(&mut ctx));
    assert_eq!(ctx.current_session().history.index(), 1);
    assert_eq!(input_line(&ctx), "two");
    assert_eq!(ctx.current_session().cursor_index, 3);
    assert!(history_prev(&mut ctx));
    assert_eq!(input_line(&ctx), "one");
    assert!(history_prev(&mut ctx));
    assert_eq!(ctx.current_session().history.index(), 2);
    assert!(history_next(&mut ctx));
    assert!(history_next(&mut ctx));
    assert!(history_next(&mut ctx));
    assert_eq!(ctx.current_session().history.index(), 0);
    assert_eq!(input_line(&ctx), "");
    assert_eq!(ctx.current_session().cursor_index, 0);
}

#[test]
fn committing_while_scrolled_back_resets_and_appends() {
    let mut ctx = Context::new(10, 10, 4);
    type_line(&mut ctx, "first");
    commit_input(&mut ctx);
    type_line(&mut ctx, "second");
    commit_input(&mut ctx);
    // Scroll back to the entry "first" and replace its text with "look".
    history_prev(&mut ctx);
    history_prev(&mut ctx);
    assert_eq!(ctx.current_session().history.index(), 2);
    delete_to_cursor(&mut ctx);
    type_line(&mut ctx, "look");
    let sent = commit_input(&mut ctx);
    assert_eq!(sent, "look");
    let sess = ctx.current_session();
    // Scroll index reset, slot cleared and refilled with the submitted
    // line as a new entry, cursor back at column 0.
    assert_eq!(sess.history.index(), 0);
    assert_eq!(sess.cursor_index, 0);
    assert_eq!(sess.history.get_recent(0).len(), 0);
    assert_eq!(sess.history.get_recent(1).to_string(), "look");
}

#[test]
fn page_scrolling_moves_half_a_viewport_and_clamps() {
    let mut ctx = Context::new(100, 10, 6);
    let text = FormattedString::with_format(
        "a\nb\nc\nd\ne\nf\ng\nh\ni\nj",
        Format::default(),
    );
    write_scrollback(&mut ctx, text);
    assert!(prev_page(&mut ctx));
    assert_eq!(ctx.current_session().scrollback_buf.index(), 3);
    assert!(prev_page(&mut ctx));
    assert_eq!(ctx.current_session().scrollback_buf.index(), 6);
    for _ in 0..10 {
        prev_page(&mut ctx);
    }
    assert_eq!(ctx.current_session().scrollback_buf.index(), 9);
    assert!(next_page(&mut ctx));
    assert_eq!(ctx.current_session().scrollback_buf.index(), 6);
    for _ in 0..10 {
        next_page(&mut ctx);
    }
    assert_eq!(ctx.current_session().scrollback_buf.index(), 0);
}

#[test]
fn write_scrollback_is_line_aware() {
    let mut ctx = Context::new(100, 10, 4);
    write_scrollback(
        &mut ctx,
        FormattedString::with_format("hello\nworld", Format::default()),
    );
    let sess = ctx.current_session();
    assert_eq!(sess.scrollback_buf.len(), 2);
    assert_eq!(sess.scrollback_buf.get(0).to_string(), "hello");
    assert_eq!(sess.scrollback_buf.get(1).to_string(), "world");
}

#[test]
fn send_data_appends_crlf_only_when_asked() {
    assert_eq!(send_data("look", true), b"look\r\n".to_vec());
    assert_eq!(send_data("x", false), b"x".to_vec());
    assert_eq!(send_data("", true), b"\r\n".to_vec());
}

#[test]
fn repeated_searches_advance_highlight_and_scroll() {
    let mut ctx = Context::new(100, 10, 2);
    write_scrollback(
        &mut ctx,
        FormattedString::with_format("foo bar\nbaz foo\nfoo\ntail", Format::default()),
    );
    search_backwards(&mut ctx, "foo");
    {
        let sess = ctx.current_session();
        assert_eq!(
            sess.prev_search_result,
            Some(SearchResult { line_number: 0, begin_index: 0, end_index: 3 })
        );
        // The match is highlighted.
        assert_eq!(sess.scrollback_buf.get(0).get(0).1.style, Style::Standout);
        assert_eq!(sess.scrollback_buf.get(0).get(3).1.style, Style::Normal);
        // The view scrolled so line 0 (three steps back) is visible in a
        // two-line viewport.
        assert_eq!(sess.scrollback_buf.index(), 2);
    }
    search_backwards(&mut ctx, "foo");
    {
        let sess = ctx.current_session();
        assert_eq!(
            sess.prev_search_result,
            Some(SearchResult { line_number: 1, begin_index: 4, end_index: 7 })
        );
        // The old match is un-highlighted, the new one highlighted.
        assert_eq!(sess.scrollback_buf.get(0).get(0).1.style, Style::Normal);
        assert_eq!(sess.scrollback_buf.get(1).get(4).1.style, Style::Standout);
        assert_eq!(sess.scrollback_buf.index(), 1);
    }
    search_backwards(&mut ctx, "foo");
    assert_eq!(
        ctx.current_session().prev_search_result,
        Some(SearchResult { line_number: 2, begin_index: 0, end_index: 3 })
    );
    // No further match: the previous result is forgotten and the last
    // highlight removed.
    search_backwards(&mut ctx, "foo");
    let sess = ctx.current_session();
    assert_eq!(sess.prev_search_result, None);
    assert_eq!(sess.scrollback_buf.get(2).get(0).1.style, Style::Normal);
}
