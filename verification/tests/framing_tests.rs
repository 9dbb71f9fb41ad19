use hyperspeed::framing::{find_stream_end_chars, handle_msg, parse_message};
use hyperspeed::input::Input;

#[test]
fn terminated_message_parses_to_its_body() {
    assert_eq!(parse_message(&"abc!!!".to_string()), "abc".to_string());
    assert_eq!(find_stream_end_chars("abc!!!".to_string()), 3);
}

#[test]
fn unterminated_message_is_dropped() {
    // The documented policy: a buffer with no terminator run yields
    // the empty message.
    assert_eq!(parse_message(&"abc".to_string()), "".to_string());
    assert_eq!(find_stream_end_chars("abc".to_string()), 0);
    assert_eq!(find_stream_end_chars("ab!!c!".to_string()), 0);
}

#[test]
fn longer_terminator_runs_are_discarded_whole() {
    assert_eq!(parse_message(&"a!!!!".to_string()), "a".to_string());
    assert_eq!(find_stream_end_chars("a!!!!".to_string()), 1);
    assert_eq!(parse_message(&"!!!!".to_string()), "".to_string());
    assert_eq!(find_stream_end_chars("!!!!".to_string()), 0);
}

#[test]
fn last_terminator_run_ends_the_message() {
    // Scanning backward from the end, the last run wins; bytes after
    // it are discarded with the run.
    assert_eq!(parse_message(&"ab!!!cd!!!".to_string()), "ab!!!cd".to_string());
    assert_eq!(parse_message(&"ab!!!cd".to_string()), "ab".to_string());
    assert_eq!(parse_message(&"a!b!!!".to_string()), "a!b".to_string());
}

#[test]
fn empty_input_yields_empty_message() {
    assert_eq!(parse_message(&"".to_string()), "".to_string());
    assert_eq!(find_stream_end_chars("".to_string()), 0);
}

#[test]
fn handle_msg_turns_each_character_into_a_key_press() {
    let events = handle_msg("ab".to_string());
    assert_eq!(events.len(), 2);
    assert_eq!(events[0], Input::Key('a'));
    assert_eq!(events[1], Input::Key('b'));
    assert!(handle_msg("".to_string()).is_empty());
}
