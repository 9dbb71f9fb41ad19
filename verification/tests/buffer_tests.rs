use hyperspeed::input::{Input, InputMap};
use hyperspeed::server::{
    drain_buffer, new_input_buffer_mutex, put_buffer, PlayerInputBuffer, ServerConfig,
};

#[test]
fn push_order_preserved_and_buffer_empty_after_drain() {
    let mut buf = PlayerInputBuffer::new();
    buf.push_input("k".to_string(), Input::Key('a'));
    buf.push_input("k".to_string(), Input::Key('b'));
    buf.push_input("other".to_string(), Input::Key('z'));
    buf.push_input("k".to_string(), Input::Key('c'));

    let drained = buf.drain_all();
    let q = drained.get(&"k".to_string()).expect("queue for k");
    assert_eq!(q.len(), 3);
    assert_eq!(q[0], Input::Key('a'));
    assert_eq!(q[1], Input::Key('b'));
    assert_eq!(q[2], Input::Key('c'));
    let other = drained.get(&"other".to_string()).expect("queue for other");
    assert_eq!(other.len(), 1);
    assert_eq!(other[0], Input::Key('z'));

    // The buffer for k is empty immediately after the drain.
    assert!(buf.pop_input("k".to_string()).is_none());
    assert!(buf.pop_input("other".to_string()).is_none());
}

#[test]
fn pop_input_is_fifo_per_key() {
    let mut buf = PlayerInputBuffer::new();
    buf.push_input("p".to_string(), Input::Key('1'));
    buf.push_input("p".to_string(), Input::Click { x: 3, y: 4 });
    assert_eq!(buf.pop_input("p".to_string()), Some(Input::Key('1')));
    assert_eq!(buf.pop_input("p".to_string()), Some(Input::Click { x: 3, y: 4 }));
    assert_eq!(buf.pop_input("p".to_string()), None);
    assert_eq!(buf.pop_input("absent".to_string()), None);
}

#[test]
fn shared_buffer_roundtrip_under_lock() {
    let lock = new_input_buffer_mutex();
    put_buffer(&lock, "p1".to_string(), Input::Key('x'));
    put_buffer(&lock, "p1".to_string(), Input::Key('y'));
    let drained = drain_buffer(&lock);
    let q = drained.get(&"p1".to_string()).expect("queue for p1");
    assert_eq!(q.len(), 2);
    assert_eq!(q[0], Input::Key('x'));
    assert_eq!(q[1], Input::Key('y'));
    // A second drain finds the buffer empty.
    let again = drain_buffer(&lock);
    assert!(again.get(&"p1".to_string()).is_none());
}

#[test]
fn key_pressed_for_finds_only_matching_key() {
    let mut m = InputMap::new();
    m.push_event("u".to_string(), Input::Key('a'));
    m.push_event("u".to_string(), Input::Click { x: 1, y: 2 });
    m.push_event("v".to_string(), Input::Key('b'));
    assert!(hyperspeed::input::key_pressed_for(&m, &"u".to_string(), 'a'));
    assert!(!hyperspeed::input::key_pressed_for(&m, &"u".to_string(), 'b'));
    assert!(hyperspeed::input::key_pressed_for(&m, &"v".to_string(), 'b'));
    assert!(!hyperspeed::input::key_pressed_for(&m, &"w".to_string(), 'a'));
}

#[test]
fn server_config_defaults() {
    let conf = ServerConfig::new();
    assert_eq!(conf.port, 1212);
    assert_eq!(conf.server_name, "default_name".to_string());
}
