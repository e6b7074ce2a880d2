use tome::parse_state::ParseState;
use tome::telnet;

fn feed(mut state: ParseState, bytes: &[u8]) -> ParseState {
    for b in bytes {
        state = telnet::parse(&state, *b);
    }
    state
}

#[test]
fn will_gmcp_yields_success_and_response() {
    let state = feed(ParseState::NotInProgress, &[255, 251, 201]);
    match state {
        ParseState::Success(cmd) => {
            assert_eq!(cmd, vec![255, 251, 201]);
            let response = telnet::cmd_response(&cmd);
            assert_eq!(response, Some(vec![255, 253, 201]));
        }
        _ => panic!("expected Success"),
    }
}

#[test]
fn will_gmcp_intermediate_states_are_in_progress() {
    let s1 = telnet::parse(&ParseState::NotInProgress, 255);
    match &s1 {
        ParseState::InProgress(c) => assert_eq!(c, &vec![255]),
        _ => panic!("expected InProgress"),
    }
    let s2 = telnet::parse(&s1, 251);
    match &s2 {
        ParseState::InProgress(c) => assert_eq!(c, &vec![255, 251]),
        _ => panic!("expected InProgress"),
    }
}

#[test]
fn non_iac_byte_is_not_consumed() {
    let state = telnet::parse(&ParseState::NotInProgress, b'a');
    assert!(matches!(state, ParseState::NotInProgress));
}

#[test]
fn gmcp_subnegotiation_payload_decodes_to_hello() {
    let mut bytes = vec![255, 250, 201];
    bytes.extend_from_slice(b"hello");
    bytes.extend_from_slice(&[255, 240]);
    let state = feed(ParseState::NotInProgress, &bytes);
    match state {
        ParseState::Success(cmd) => {
            assert_eq!(telnet::gmcp_payload(&cmd), Some(b"hello".to_vec()));
            assert_eq!(telnet::gmcp_message(&cmd), Some(String::from("hello")));
        }
        _ => panic!("expected Success"),
    }
}

#[test]
fn gmcp_message_with_invalid_utf8_is_dropped() {
    let bytes = vec![255, 250, 201, 0xC3, 0x28, 255, 240];
    let state = feed(ParseState::NotInProgress, &bytes);
    match state {
        ParseState::Success(cmd) => {
            assert_eq!(telnet::gmcp_payload(&cmd), Some(vec![0xC3, 0x28]));
            assert_eq!(telnet::gmcp_message(&cmd), None);
        }
        _ => panic!("expected Success"),
    }
}

#[test]
fn escaped_iac_is_a_two_byte_success() {
    let state = feed(ParseState::NotInProgress, &[255, 255]);
    match state {
        ParseState::Success(cmd) => assert_eq!(cmd, vec![255, 255]),
        _ => panic!("expected Success"),
    }
}

#[test]
fn bad_byte_after_iac_is_an_error_and_parsing_recovers() {
    let state = feed(ParseState::NotInProgress, &[255, b'x']);
    match &state {
        ParseState::Error(c) => assert_eq!(c, &vec![255, b'x']),
        _ => panic!("expected Error"),
    }
    // The next byte is parsed as from scratch.
    let next = telnet::parse(&state, b'a');
    assert!(matches!(next, ParseState::NotInProgress));
    let next_iac = telnet::parse(&state, 255);
    assert!(matches!(next_iac, ParseState::InProgress(_)));
}

#[test]
fn negotiation_with_any_option_succeeds() {
    for verb in [251u8, 252, 253, 254] {
        let state = feed(ParseState::NotInProgress, &[255, verb, 42]);
        match state {
            ParseState::Success(cmd) => assert_eq!(cmd, vec![255, verb, 42]),
            _ => panic!("expected Success"),
        }
    }
}

#[test]
fn response_owed_only_for_will_gmcp() {
    assert_eq!(telnet::cmd_response(&vec![255, 252, 201]), None);
    assert_eq!(telnet::cmd_response(&vec![255, 253, 201]), None);
    assert_eq!(telnet::cmd_response(&vec![255, 251, 42]), None);
    assert_eq!(telnet::cmd_response(&vec![255, 255]), None);
}

#[test]
fn subnegotiation_accumulates_until_iac_se() {
    // An IAC inside the block does not terminate it unless followed by SE.
    let bytes = vec![255, 250, 201, 7, 255, 8, 255, 240];
    let state = feed(ParseState::NotInProgress, &bytes);
    match state {
        ParseState::Success(cmd) => {
            assert_eq!(cmd, bytes);
            assert_eq!(telnet::gmcp_payload(&cmd), Some(vec![7, 255, 8]));
        }
        _ => panic!("expected Success"),
    }
}

#[test]
fn unterminated_subnegotiation_stays_in_progress() {
    let state = feed(ParseState::NotInProgress, &[255, 250, 201, 1, 2, 3]);
    assert!(matches!(state, ParseState::InProgress(_)));
}

#[test]
fn gmcp_payload_rejects_non_gmcp_commands() {
    assert_eq!(telnet::gmcp_payload(&vec![255, 251, 201]), None);
    assert_eq!(telnet::gmcp_payload(&vec![255, 250, 42, 1, 255, 240]), None);
}

#[test]
fn overlong_subnegotiation_is_cut_off_and_parsing_recovers() {
    let mut state = feed(ParseState::NotInProgress, &[255, 250, 201]);
    for _ in 0..20000 {
        state = tome::telnet::parse(&state, 7);
        if matches!(state, ParseState::Error(_)) {
            break;
        }
    }
    assert!(matches!(state, ParseState::Error(_)));
    let next = tome::telnet::parse(&state, b'a');
    assert!(matches!(next, ParseState::NotInProgress));
}
