use hyperspeed::connection::{ClientView, Connection};
use hyperspeed::server::{drain_buffer, new_input_buffer_mutex, StreamData};
use hyperspeed::session::{
    get_new_view, is_empty_stream, latest_view, process_incoming, terminate_line, ReadEvent,
    SessionAction, SessionState, BUFFER_SIZE, EMPTY_STREAM_PATIENCE,
};
use hyperspeed::input::Input;

#[test]
fn session_terminates_after_patience_runs_out() {
    assert_eq!(EMPTY_STREAM_PATIENCE, 2);
    assert_eq!(BUFFER_SIZE, 512);
    let mut state = SessionState::new();
    // The first empty read is tolerated; the second consecutive one
    // reaches the patience threshold and terminates the session.
    assert_eq!(state.step(ReadEvent::Filled, true), SessionAction::Continue);
    assert_eq!(state.step(ReadEvent::Filled, true), SessionAction::Terminate);
}

#[test]
fn data_restores_patience_in_full() {
    let mut state = SessionState::new();
    assert_eq!(state.step(ReadEvent::Filled, true), SessionAction::Continue);
    assert_eq!(state.step(ReadEvent::Filled, false), SessionAction::Process);
    assert_eq!(state.patience, EMPTY_STREAM_PATIENCE);
    // Patience is spent anew after the reset.
    assert_eq!(state.step(ReadEvent::Filled, true), SessionAction::Continue);
    assert_eq!(state.step(ReadEvent::Filled, true), SessionAction::Terminate);
}

#[test]
fn would_block_is_harmless_and_hard_errors_terminate() {
    let mut state = SessionState::new();
    assert_eq!(state.step(ReadEvent::WouldBlock, false), SessionAction::Continue);
    assert_eq!(state.patience, EMPTY_STREAM_PATIENCE);
    assert_eq!(state.step(ReadEvent::HardError, false), SessionAction::Terminate);
}

#[test]
fn empty_stream_detection() {
    assert!(is_empty_stream(&[0u8; 16]));
    assert!(is_empty_stream(&[]));
    let mut buf = [0u8; 16];
    buf[15] = 7;
    assert!(!is_empty_stream(&buf));
}

#[test]
fn session_observes_only_the_latest_view() {
    let v1 = ClientView { sprites: vec!["one".to_string()] };
    let v2 = ClientView { sprites: vec!["two".to_string()] };
    let got = latest_view(vec![v1, v2]).expect("some view");
    assert_eq!(got.sprites, vec!["two".to_string()]);
    assert!(latest_view(vec![]).is_none());
}

#[test]
fn get_new_view_polls_without_blocking() {
    let (tx, rx) = std::sync::mpsc::channel();
    assert!(get_new_view(&rx).is_none());
    tx.send(ClientView { sprites: vec!["v".to_string()] }).unwrap();
    let got = get_new_view(&rx).expect("queued view");
    assert_eq!(got.sprites, vec!["v".to_string()]);
    drop(tx);
    assert!(get_new_view(&rx).is_none());
}

#[test]
fn incoming_bytes_become_queued_input_events() {
    let lock = new_input_buffer_mutex();
    process_incoming(&lock, &"p1".to_string(), &"ab!!!".to_string());
    let drained = drain_buffer(&lock);
    let q = drained.get(&"p1".to_string()).expect("events for p1");
    assert_eq!(q.len(), 2);
    assert_eq!(q[0], Input::Key('a'));
    assert_eq!(q[1], Input::Key('b'));
}

#[test]
fn unterminated_incoming_bytes_queue_nothing() {
    let lock = new_input_buffer_mutex();
    process_incoming(&lock, &"p1".to_string(), &"ab".to_string());
    let drained = drain_buffer(&lock);
    assert!(drained.get(&"p1".to_string()).is_none());
}

#[test]
fn outbound_lines_end_with_a_newline() {
    assert_eq!(terminate_line("{\"sprites\":[]}".to_string()), "{\"sprites\":[]}\n".to_string());
}

#[test]
fn handshake_result_admits_a_connection_only_on_accept() {
    let accept = StreamData::do_connect_str("p9");
    assert!(accept.should_connect);
    let conn: Connection = accept.to_connection().expect("accepted");
    assert_eq!(conn.key, "p9".to_string());
    let reject = StreamData { login_key: "x".to_string(), should_connect: false };
    assert!(reject.to_connection().is_none());
}
