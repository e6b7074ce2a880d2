use tome::esc_seq;
use tome::format::{Color, Style};
use tome::parse_state::ParseState;

fn feed(mut state: ParseState, bytes: &[u8]) -> ParseState {
    for b in bytes {
        state = esc_seq::parse(&state, *b);
    }
    state
}

#[test]
fn standout_red_sequence_is_recognized_and_interpreted() {
    let state = feed(ParseState::NotInProgress, b"\x1b[1;31m");
    match state {
        ParseState::Success(seq) => {
            assert_eq!(seq, b"\x1b[1;31m".to_vec());
            let (style, fg, bg) = esc_seq::interpret(&seq);
            assert_eq!(style, Some(Style::Standout));
            assert_eq!(fg, Some(Color::Red));
            assert_eq!(bg, None);
        }
        _ => panic!("expected Success"),
    }
}

#[test]
fn malformed_sequence_errors_and_next_byte_is_plain_text() {
    let state = feed(ParseState::NotInProgress, b"\x1b[;;@");
    assert!(matches!(state, ParseState::Error(_)));
    // A following plain byte is processed as ordinary text, not swallowed.
    let next = esc_seq::parse(&state, b'a');
    assert!(matches!(next, ParseState::NotInProgress));
}

#[test]
fn reset_code_resets_all_three_fields() {
    let (style, fg, bg) = esc_seq::interpret(&b"\x1b[0m".to_vec());
    assert_eq!(style, Some(Style::Normal));
    assert_eq!(fg, Some(Color::Default));
    assert_eq!(bg, Some(Color::Default));
}

#[test]
fn empty_parameter_list_changes_nothing() {
    let (style, fg, bg) = esc_seq::interpret(&b"\x1b[m".to_vec());
    assert_eq!(style, None);
    assert_eq!(fg, None);
    assert_eq!(bg, None);
}

#[test]
fn unrecognized_codes_are_ignored() {
    let (style, fg, bg) = esc_seq::interpret(&b"\x1b[99m".to_vec());
    assert_eq!(style, None);
    assert_eq!(fg, None);
    assert_eq!(bg, None);
}

#[test]
fn background_codes_select_background_colors() {
    let (style, fg, bg) = esc_seq::interpret(&b"\x1b[42m".to_vec());
    assert_eq!(style, None);
    assert_eq!(fg, None);
    assert_eq!(bg, Some(Color::Green));
}

#[test]
fn all_eight_foreground_colors_map_in_order() {
    let expected = [
        Color::Black,
        Color::Red,
        Color::Green,
        Color::Yellow,
        Color::Blue,
        Color::Magenta,
        Color::Cyan,
        Color::White,
    ];
    for (d, want) in expected.iter().enumerate() {
        let seq = format!("\x1b[3{}m", d).into_bytes();
        let (_, fg, _) = esc_seq::interpret(&seq);
        assert_eq!(fg, Some(*want));
    }
}

#[test]
fn later_parameters_overwrite_earlier_ones() {
    let (style, fg, bg) = esc_seq::interpret(&b"\x1b[31;34m".to_vec());
    assert_eq!(style, None);
    assert_eq!(fg, Some(Color::Blue));
    assert_eq!(bg, None);
}

#[test]
fn esc_without_bracket_is_an_error() {
    let state = feed(ParseState::NotInProgress, &[27, b'x']);
    assert!(matches!(state, ParseState::Error(_)));
}

#[test]
fn params_accumulate_in_progress() {
    let state = feed(ParseState::NotInProgress, b"\x1b[31");
    match state {
        ParseState::InProgress(c) => assert_eq!(c, b"\x1b[31".to_vec()),
        _ => panic!("expected InProgress"),
    }
}
