use std::sync::mpsc::channel;
use std::sync::Arc;

use hyperspeed::connection::{ClientView, Connection, ConnectionCollection};
use hyperspeed::engine::{Engine, EngineError, Subsystem};
use hyperspeed::input::Input;
use hyperspeed::instruction::{EngineInstruction, RunData};
use hyperspeed::scheduler::{System, TickContext};
use hyperspeed::server::{new_input_buffer_mutex, put_buffer};
use hyperspeed::world::{Events, World};

struct NoSub;

impl Subsystem for NoSub {
    type MessageType = ();
}

struct PauseSub {
    priority: u32,
}

impl Subsystem for PauseSub {
    type MessageType = ();

    fn tick(&mut self, _world: &mut World<()>, _delta_ms: u64) -> EngineInstruction {
        EngineInstruction::Pause(self.priority)
    }
}

/// Pauses the first tick it sees, then lets the engine run.
struct PauseOnce {
    paused_already: bool,
}

impl Subsystem for PauseOnce {
    type MessageType = ();

    fn tick(&mut self, _world: &mut World<()>, _delta_ms: u64) -> EngineInstruction {
        if self.paused_already {
            EngineInstruction::Run(RunData { run_dispatcher: true }, 5)
        } else {
            self.paused_already = true;
            EngineInstruction::Pause(5)
        }
    }
}

struct RestartSub;

impl Subsystem for RestartSub {
    type MessageType = ();

    fn tick(&mut self, _world: &mut World<()>, _delta_ms: u64) -> EngineInstruction {
        EngineInstruction::Restart(9)
    }
}

/// Sends one view to every connection named in `targets`, numbering
/// the ticks it has seen.
struct Broadcast {
    targets: Vec<&'static str>,
    ticks: u64,
}

impl System<()> for Broadcast {
    fn run(&mut self, ctx: &mut TickContext<()>) {
        self.ticks += 1;
        for t in &self.targets {
            ctx.set_view(
                t.to_string(),
                ClientView { sprites: vec![format!("tick{}", self.ticks)] },
            );
        }
    }
}

/// Answers a pressed key with a view for that connection.
struct EchoInput;

impl System<()> for EchoInput {
    fn run(&mut self, ctx: &mut TickContext<()>) {
        if hyperspeed::input::key_pressed_for(&ctx.inputs, &"p1".to_string(), 'a') {
            ctx.set_view("p1".to_string(), ClientView { sprites: vec!["got a".to_string()] });
        }
    }
}

#[test]
fn failed_delivery_drops_exactly_that_connection() {
    let mut engine = Engine::<NoSub, Broadcast>::new()
        .with_system(Broadcast { targets: vec!["p1", "p2"], ticks: 0 }, "broadcast", &[])
        .build()
        .expect("build");
    let (conn_tx, conn_rx) = channel();
    let lock = Arc::new(new_input_buffer_mutex());
    engine.attach_server(conn_rx, lock);

    let (view_tx1, view_rx1) = channel();
    let (view_tx2, view_rx2) = channel();
    conn_tx.send((Connection { key: "p1".to_string() }, view_tx1)).unwrap();
    conn_tx.send((Connection { key: "p2".to_string() }, view_tx2)).unwrap();

    // First tick: both connections register and receive their views.
    let removed = engine.tick(16).expect("tick");
    assert!(removed.is_empty());
    assert!(engine.is_live(&"p1".to_string()));
    assert!(engine.is_live(&"p2".to_string()));
    assert_eq!(engine.world.get_connections().size(), 2);
    assert_eq!(view_rx1.try_recv().unwrap().sprites, vec!["tick1".to_string()]);
    assert_eq!(view_rx2.try_recv().unwrap().sprites, vec!["tick1".to_string()]);

    // p1's session dies; its next delivery fails, p2's still succeeds.
    drop(view_rx1);
    let removed = engine.tick(16).expect("tick");
    assert_eq!(removed, vec!["p1".to_string()]);
    assert!(!engine.is_live(&"p1".to_string()));
    assert!(engine.is_live(&"p2".to_string()));
    assert_eq!(engine.world.get_connections().size(), 1);
    assert_eq!(view_rx2.try_recv().unwrap().sprites, vec!["tick2".to_string()]);

    // On the very next tick p1 stays absent and is not addressed.
    let removed = engine.tick(16).expect("tick");
    assert!(removed.is_empty());
    assert!(!engine.is_live(&"p1".to_string()));
    assert_eq!(view_rx2.try_recv().unwrap().sprites, vec!["tick3".to_string()]);
}

#[test]
fn inputs_flow_from_shared_buffer_to_systems() {
    let mut engine = Engine::<NoSub, EchoInput>::new()
        .with_system(EchoInput, "echo", &[])
        .build()
        .expect("build");
    let (conn_tx, conn_rx) = channel();
    let lock = Arc::new(new_input_buffer_mutex());
    engine.attach_server(conn_rx, Arc::clone(&lock));

    let (view_tx, view_rx) = channel();
    conn_tx.send((Connection { key: "p1".to_string() }, view_tx)).unwrap();

    // No input yet: no view.
    engine.tick(16).expect("tick");
    assert!(view_rx.try_recv().is_err());

    // A pressed key drained at the next tick produces the view.
    put_buffer(&lock, "p1".to_string(), Input::Key('a'));
    engine.tick(16).expect("tick");
    assert_eq!(view_rx.try_recv().unwrap().sprites, vec!["got a".to_string()]);
}

#[test]
fn pause_skips_dispatch_but_still_routes() {
    let mut engine = Engine::<PauseSub, Broadcast>::new()
        .with_system(Broadcast { targets: vec!["p1"], ticks: 0 }, "broadcast", &[])
        .with_subsystem(PauseSub { priority: 5 })
        .build()
        .expect("build");
    let (conn_tx, conn_rx) = channel();
    engine.attach_server(conn_rx, Arc::new(new_input_buffer_mutex()));
    let (view_tx, view_rx) = channel();
    conn_tx.send((Connection { key: "p1".to_string() }, view_tx)).unwrap();

    // The pausing subsystem outranks the baseline: the dispatcher
    // never runs, so no view is produced, but routing still happens
    // and the connection registers and stays live.
    let removed = engine.tick(16).expect("tick");
    assert!(removed.is_empty());
    assert!(engine.is_live(&"p1".to_string()));
    assert!(view_rx.try_recv().is_err());
}

#[test]
fn input_enqueued_during_pause_defers_whole_to_the_next_dispatch() {
    let mut engine = Engine::<PauseOnce, EchoInput>::new()
        .with_system(EchoInput, "echo", &[])
        .with_subsystem(PauseOnce { paused_already: false })
        .build()
        .expect("build");
    let (conn_tx, conn_rx) = channel();
    let lock = Arc::new(new_input_buffer_mutex());
    engine.attach_server(conn_rx, Arc::clone(&lock));
    let (view_tx, view_rx) = channel();
    conn_tx.send((Connection { key: "p1".to_string() }, view_tx)).unwrap();

    // The first tick is paused: the buffer is not drained and no
    // view is produced.
    put_buffer(&lock, "p1".to_string(), Input::Key('a'));
    engine.tick(16).expect("tick");
    assert!(view_rx.try_recv().is_err());

    // The next tick dispatches and sees the deferred input whole.
    engine.tick(16).expect("tick");
    assert_eq!(view_rx.try_recv().unwrap().sprites, vec!["got a".to_string()]);
}

#[test]
fn restart_is_a_fatal_unimplemented_condition() {
    let mut engine = Engine::<RestartSub, Broadcast>::new()
        .with_system(Broadcast { targets: vec![], ticks: 0 }, "broadcast", &[])
        .with_subsystem(RestartSub)
        .build()
        .expect("build");
    assert_eq!(engine.tick(16), Err(EngineError::RestartUnsupported));
}

#[test]
fn closed_connection_channel_is_an_engine_fault() {
    let mut engine = Engine::<NoSub, Broadcast>::new().build().expect("build");
    let (conn_tx, conn_rx) = channel::<(Connection, std::sync::mpsc::Sender<ClientView>)>();
    engine.attach_server(conn_rx, Arc::new(new_input_buffer_mutex()));
    drop(conn_tx);
    assert_eq!(engine.tick(16), Err(EngineError::ServerChannelDisconnected));
}

#[test]
fn cycle_among_systems_fails_engine_build() {
    let result = Engine::<NoSub, Broadcast>::new()
        .with_system(Broadcast { targets: vec![], ticks: 0 }, "a", &["b"])
        .with_system(Broadcast { targets: vec![], ticks: 0 }, "b", &["a"])
        .build();
    assert!(matches!(result.err(), Some(hyperspeed::scheduler::SchedulerError::GraphCycleDetected)));
}

#[test]
fn connection_collection_replaces_duplicates_and_removes_by_key() {
    let mut coll = ConnectionCollection::new();
    assert_eq!(coll.size(), 0);
    coll.add(Connection { key: "a".to_string() });
    coll.add(Connection { key: "b".to_string() });
    coll.add(Connection { key: "a".to_string() });
    assert_eq!(coll.size(), 2);
    assert!(coll.has_key(&"a".to_string()));
    coll.remove(&"a".to_string());
    assert!(!coll.has_key(&"a".to_string()));
    assert!(coll.has_key(&"b".to_string()));
    assert_eq!(coll.size(), 1);
    coll.remove(&"absent".to_string());
    assert_eq!(coll.size(), 1);
}

#[test]
fn world_starts_empty_and_events_hold_nothing() {
    let world: World<()> = World::new();
    assert_eq!(world.get_connections().size(), 0);
    let events: Events<u32> = Events::new();
    assert!(events.events.is_empty());
    let v = hyperspeed::components::Visible { sprite: 4 };
    let p = hyperspeed::components::PositionTiled { x: 1, y: 2, z_level: "ground" };
    let c = hyperspeed::components::Camera { view_range: 6, offset: (0, 0) };
    assert_eq!(v.sprite, 4);
    assert_eq!((p.x, p.y, p.z_level), (1, 2, "ground"));
    assert_eq!((c.view_range, c.offset), (6, (0, 0)));
}
