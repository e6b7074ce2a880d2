use tome::format::{Format, FormattedString, Style};
use tome::ring_buffer::RingBuffer;
use tome::search::{highlight_string, search_buffer, SearchResult};

fn line(s: &str) -> FormattedString {
    FormattedString::with_format(s, Format::default())
}

fn buffer_of(lines: &[&str]) -> RingBuffer<FormattedString> {
    let mut buf = RingBuffer::new(100);
    for l in lines {
        buf.push(line(l));
    }
    buf
}

#[test]
fn search_finds_matches_line_by_line_without_wrapping() {
    let buf = buffer_of(&["foo bar", "baz foo", "foo"]);
    let first = search_buffer(&buf, "foo", 0);
    assert_eq!(
        first,
        Some(SearchResult { line_number: 0, begin_index: 0, end_index: 3 })
    );
    let second = search_buffer(&buf, "foo", 1);
    assert_eq!(
        second,
        Some(SearchResult { line_number: 1, begin_index: 4, end_index: 7 })
    );
    let third = search_buffer(&buf, "foo", 2);
    assert_eq!(
        third,
        Some(SearchResult { line_number: 2, begin_index: 0, end_index: 3 })
    );
    let fourth = search_buffer(&buf, "foo", 3);
    assert_eq!(fourth, None);
}

#[test]
fn search_is_case_sensitive() {
    let buf = buffer_of(&["Foo", "foo"]);
    let r = search_buffer(&buf, "foo", 0);
    assert_eq!(
        r,
        Some(SearchResult { line_number: 1, begin_index: 0, end_index: 3 })
    );
}

#[test]
fn search_does_not_cross_lines() {
    let buf = buffer_of(&["ab", "cd"]);
    assert_eq!(search_buffer(&buf, "bc", 0), None);
}

#[test]
fn search_for_absent_pattern_returns_none() {
    let buf = buffer_of(&["one", "two"]);
    assert_eq!(search_buffer(&buf, "three", 0), None);
}

#[test]
fn highlight_sets_and_resets_styles_in_range_only() {
    let mut fs = line("abcdef");
    highlight_string(&mut fs, 1, 4, true);
    assert_eq!(fs.get(0).1.style, Style::Normal);
    assert_eq!(fs.get(1).1.style, Style::Standout);
    assert_eq!(fs.get(3).1.style, Style::Standout);
    assert_eq!(fs.get(4).1.style, Style::Normal);
    assert_eq!(fs.to_string(), "abcdef");
    highlight_string(&mut fs, 1, 4, false);
    for i in 0..6 {
        assert_eq!(fs.get(i).1.style, Style::Normal);
    }
}
