//! The tick coordinator: owns the world, the system scheduler, the
//! control subsystems and the per-connection outbound channels, and
//! drives one tick per call. Each tick drains new connections, drains
//! the shared input buffer, reduces the subsystems' instructions,
//! dispatches the scheduler if the reduced instruction says so, and
//! routes the produced views, dropping connections whose delivery
//! fails.

use vstd::prelude::*;
use std::sync::Arc;
use std::sync::mpsc::{Receiver, Sender};
use crate::connection::{ClientView, Connection, ViewMap};
use crate::input::InputMap;
use crate::instruction::{baseline_instruction, EngineInstruction};
use crate::keyed::KeyedMap;
use crate::graph::schedulable;
use crate::scheduler::{
    all_deps_resolvable, names_unique, spec_adj, SchedulerError, System, SystemExecutor,
    SystemExecutorBuilder, TickContext,
};
use crate::server::{drain_buffer, is_input_buffer_lock, InputBufferMutex, ServerConfig};
use crate::world::World;

verus! {

#[verifier::external_type_specification]
#[verifier::external_body]
#[verifier::reject_recursive_types(T)]
pub struct ExSender<T>(Sender<T>);

#[verifier::external_type_specification]
#[verifier::external_body]
#[verifier::reject_recursive_types(T)]
pub struct ExReceiver<T>(Receiver<T>);

/// What one non-blocking poll of a channel produced.
pub enum TryRecvOutcome<T> {
    Received(T),
    Empty,
    Disconnected,
}

/// Relies on std::sync::mpsc::Sender::send: delivery fails exactly
/// when the receiving end has been dropped; nothing can be promised
/// of which, since the receiver lives on another thread.
#[verifier::external_body]
fn send_value<T>(sender: &Sender<T>, value: T) -> (r: Result<(), ()>) {
    match sender.send(value) {
        Ok(()) => Ok(()),
        Err(_) => Err(()),
    }
}

/// Relies on std::sync::mpsc::Receiver::try_recv: returns a queued
/// value without blocking, or reports the channel empty or closed;
/// nothing can be promised of which.
#[verifier::external_body]
pub(crate) fn try_recv_value<T>(receiver: &Receiver<T>) -> (r: TryRecvOutcome<T>) {
    match receiver.try_recv() {
        Ok(v) => TryRecvOutcome::Received(v),
        Err(std::sync::mpsc::TryRecvError::Empty) => TryRecvOutcome::Empty,
        Err(std::sync::mpsc::TryRecvError::Disconnected) => TryRecvOutcome::Disconnected,
    }
}

/// A control subsystem: asked once per tick for an instruction, with
/// hooks at engine start and before a restart. An implementation
/// must keep the world well formed.
pub trait Subsystem {
    type MessageType;

    /// Runs when the engine starts serving.
    fn start(&mut self, world: &mut World<Self::MessageType>)
        requires
            old(world).wf(),
        ensures
            final(world).wf(),
    {
    }

    /// Runs right before the world tick; the returned instruction is
    /// reduced with every other subsystem's to decide whether the
    /// dispatcher runs.
    fn tick(&mut self, world: &mut World<Self::MessageType>, delta_ms: u64) -> (r:
        EngineInstruction)
        requires
            old(world).wf(),
        ensures
            final(world).wf(),
    {
        EngineInstruction::Run(crate::instruction::RunData { run_dispatcher: true }, 1)
    }

    /// Runs right before an engine restart.
    fn restart(&mut self, world: &mut World<Self::MessageType>)
        requires
            old(world).wf(),
        ensures
            final(world).wf(),
    {
    }
}

/// An engine fault that stops the tick.
#[derive(Clone, Copy, PartialEq, Eq, Structural, Debug)]
pub enum EngineError {
    /// The server's connection channel closed: the acceptor thread is
    /// gone.
    ServerChannelDisconnected,
    /// A subsystem asked for a restart, which has no implemented
    /// semantics: the condition is fatal, not a silent no-op.
    RestartUnsupported,
}

/// Whether a key appears among a list of removed keys.
pub open spec fn seq_contains_key(keys: Seq<String>, k: Seq<char>) -> bool {
    exists|i: int| 0 <= i < keys.len() && keys[i]@ == k
}

/// The tick coordinator.
pub struct Engine<SS: Subsystem, S> {
    pub world: World<SS::MessageType>,
    pub system_executor: SystemExecutor<S>,
    pub subsystems: Vec<SS>,
    pub server_conf: ServerConfig,
    pub input_buffer: Option<Arc<InputBufferMutex>>,
    pub connection_channel: Option<Receiver<(Connection, Sender<ClientView>)>>,
    pub view_channels: KeyedMap<Sender<ClientView>>,
}

impl<SS: Subsystem, S> Engine<SS, S> {
    pub open spec fn wf(self) -> bool {
        &&& self.world.wf()
        &&& self.system_executor.wf()
        &&& self.view_channels.wf()
        &&& match self.input_buffer {
            Some(b) => is_input_buffer_lock(&*b),
            None => true,
        }
    }

    /// A connection the coordinator still addresses: its outbound
    /// channel is held under its key.
    pub open spec fn spec_live(self, k: Seq<char>) -> bool {
        self.view_channels@.contains_key(k)
    }

    pub fn is_live(&self, key: &String) -> (b: bool)
        ensures
            b == self.spec_live(key@),
    {
        self.view_channels.contains_key(key)
    }

    /// Begin building an engine.
    pub fn new() -> (r: EngineBuilder<SS, S>)
        ensures
            r.wf(),
            r.system_executor_builder.metas@.len() == 0,
    {
        EngineBuilder {
            server_conf: ServerConfig::new(),
            system_executor_builder: SystemExecutorBuilder::new(),
            subsystems: Vec::new(),
        }
    }

    /// Wire the running server in: the channel new connections arrive
    /// on, and the shared input buffer the sessions push into.
    /// Nothing else of the engine changes.
    pub fn attach_server(
        &mut self,
        receiver: Receiver<(Connection, Sender<ClientView>)>,
        input_buffer: Arc<InputBufferMutex>,
    )
        requires
            old(self).wf(),
            is_input_buffer_lock(&*input_buffer),
        ensures
            final(self).wf(),
            final(self).connection_channel == Some(receiver),
            final(self).input_buffer == Some(input_buffer),
            final(self).world == old(self).world,
            final(self).system_executor == old(self).system_executor,
            final(self).subsystems == old(self).subsystems,
            final(self).server_conf == old(self).server_conf,
            final(self).view_channels == old(self).view_channels,
    {
        self.connection_channel = Some(receiver);
        self.input_buffer = Some(input_buffer);
    }

    /// Run every subsystem's start hook, once, when the engine starts
    /// serving.
    pub fn start_subsystems(&mut self)
        requires
            old(self).wf(),
        ensures
            final(self).wf(),
    {
        let mut i: usize = 0;
        while i < self.subsystems.len()
            invariant
                self.wf(),
            decreases self.subsystems@.len() - i,
        {
            self.subsystems[i].start(&mut self.world);
            i = i + 1;
        }
    }

    /// Poll the connection channel once, without blocking. With no
    /// server attached there is never a new connection, nor a fault.
    fn get_new_connection(&self) -> (r: Result<
        Option<(Connection, Sender<ClientView>)>,
        EngineError,
    >)
        requires
            self.wf(),
        ensures
            self.connection_channel is None ==> (r matches Ok(c) && c is None),
            r matches Err(e) ==> e == EngineError::ServerChannelDisconnected,
    {
        match &self.connection_channel {
            None => Ok(None),
            Some(receiver) => match try_recv_value(receiver) {
                TryRecvOutcome::Received(c) => Ok(Some(c)),
                TryRecvOutcome::Empty => Ok(None),
                TryRecvOutcome::Disconnected => Err(EngineError::ServerChannelDisconnected),
            },
        }
    }

    /// Drain the shared input buffer whole, under its lock; with no
    /// server attached there is no input.
    fn get_inputs(&self) -> (r: InputMap)
        requires
            self.wf(),
        ensures
            r.wf(),
    {
        match &self.input_buffer {
            Some(buffer) => drain_buffer(&**buffer),
            None => InputMap::new(),
        }
    }

    /// Ask every subsystem for its instruction and reduce them, in
    /// subsystem order, from the baseline. With no subsystems the
    /// baseline itself is the reduced instruction.
    fn subsystems_tick(&mut self, delta_ms: u64) -> (r: EngineInstruction)
        requires
            old(self).wf(),
        ensures
            final(self).wf(),
            final(self).view_channels == old(self).view_channels,
            final(self).connection_channel == old(self).connection_channel,
            final(self).input_buffer == old(self).input_buffer,
            final(self).server_conf == old(self).server_conf,
            final(self).subsystems@.len() == old(self).subsystems@.len(),
            old(self).subsystems@.len() == 0 ==> r == crate::instruction::spec_baseline()
                && *final(self) == *old(self),
    {
        let mut instruction = baseline_instruction();
        let mut i: usize = 0;
        while i < self.subsystems.len()
            invariant
                self.wf(),
                self.view_channels == old(self).view_channels,
                self.connection_channel == old(self).connection_channel,
                self.input_buffer == old(self).input_buffer,
                self.server_conf == old(self).server_conf,
                self.subsystems@.len() == old(self).subsystems@.len(),
                old(self).subsystems@.len() == 0 ==> instruction
                    == crate::instruction::spec_baseline() && *self == *old(self),
            decreases self.subsystems@.len() - i,
        {
            let next = self.subsystems[i].tick(&mut self.world, delta_ms);
            instruction.mul_assign(next);
            i = i + 1;
        }
        instruction
    }

    /// Run the scheduler against this tick's context: the input
    /// snapshot is consumed, the produced views land in the world's
    /// sink, and the tick's messages replace the previous ones.
    fn dispatch(&mut self) where S: System<SS::MessageType>
        requires
            old(self).wf(),
        ensures
            final(self).wf(),
            final(self).view_channels == old(self).view_channels,
            final(self).world.connections == old(self).world.connections,
            final(self).world.input_map@ == Map::<Seq<char>, Seq<crate::input::Input>>::empty(),
            final(self).input_buffer == old(self).input_buffer,
            final(self).connection_channel == old(self).connection_channel,
            final(self).server_conf == old(self).server_conf,
            final(self).subsystems == old(self).subsystems,
    {
        let snapshot = self.world.take_input();
        let views = self.world.pop_views();
        let mut ctx: TickContext<SS::MessageType> = TickContext {
            inputs: snapshot,
            views,
            messages: Vec::new(),
        };
        self.system_executor.run_tick(&mut ctx);
        let TickContext { inputs: _, views: produced, messages } = ctx;
        self.world.view_map = produced;
        self.world.messages = messages;
    }

    /// Deliver each produced view to its connection's outbound
    /// channel. A failed delivery means the session is dead: that
    /// connection is dropped from the live set and from the world,
    /// and delivery to the remaining views goes on. Returns the keys
    /// dropped this tick.
    fn route_views(&mut self, views: ViewMap) -> (removed: Vec<String>)
        requires
            old(self).wf(),
            views.wf(),
        ensures
            final(self).wf(),
            forall|i: int| 0 <= i < removed@.len() ==> old(self).spec_live(#[trigger] removed@[i]@),
            forall|k: Seq<char>|
                #![trigger old(self).view_channels@.contains_key(k)]
                (final(self).view_channels@.contains_key(k) <==> old(self).view_channels@.contains_key(k) && !seq_contains_key(removed@, k)) && (final(self).world.connections.spec_has_key(k) <==> old(self).world.connections.spec_has_key(
                    k,
                ) && !seq_contains_key(removed@, k)),
            final(self).world.input_map == old(self).world.input_map,
            final(self).world.messages == old(self).world.messages,
            final(self).world.view_map == old(self).world.view_map,
    {
        let ghost orig = *self;
        let mut entries = views.into_entries();
        let mut removed: Vec<String> = Vec::new();
        while entries.len() > 0
            invariant
                self.wf(),
                forall|i: int|
                    0 <= i < removed@.len() ==> orig.spec_live(#[trigger] removed@[i]@),
                forall|k: Seq<char>|
                    #![trigger orig.view_channels@.contains_key(k)]
                    (self.view_channels@.contains_key(k) <==> orig.view_channels@.contains_key(k)
                        && !seq_contains_key(removed@, k)) && (
                    self.world.connections.spec_has_key(k)
                        <==> orig.world.connections.spec_has_key(k) && !seq_contains_key(
                        removed@,
                        k,
                    )),
                self.world.input_map == orig.world.input_map,
                self.world.messages == orig.world.messages,
                self.world.view_map == orig.world.view_map,
            decreases entries@.len(),
        {
            let ghost self0 = *self;
            let ghost removed_old = removed@;
            let (key, view) = entries.remove(0);
            let mut failed = false;
            match self.view_channels.get(&key) {
                Some(sender) => {
                    match send_value(sender, view) {
                        Ok(_) => {},
                        Err(_) => {
                            failed = true;
                        },
                    }
                },
                None => {
                    // No channel under this key yet: it may be
                    // initialised later, so nothing happens here.
                },
            }
            if failed {
                let _ = self.view_channels.remove_entry(&key);
                self.world.remove_connection(&key);
                let ghost key_view = key@;
                removed.push(key);
                proof {
                    // The removed list grew by exactly this key.
                    assert(removed@[removed@.len() - 1]@ == key_view);
                    assert forall|k: Seq<char>|
                        #[trigger] seq_contains_key(removed@, k) implies seq_contains_key(
                        removed_old,
                        k,
                    ) || k == key_view by {
                        let i = choose|i: int| 0 <= i < removed@.len() && removed@[i]@ == k;
                        if i < removed@.len() - 1 {
                            assert(removed_old[i]@ == k);
                        }
                    }
                    assert forall|k: Seq<char>|
                        #[trigger] seq_contains_key(removed_old, k) implies seq_contains_key(
                        removed@,
                        k,
                    ) by {
                        let i = choose|i: int| 0 <= i < removed_old.len() && removed_old[i]@ == k;
                        assert(removed@[i]@ == k);
                    }
                    assert(seq_contains_key(removed@, key_view));
                    // This key was live at loop entry, hence live at
                    // the start and not yet removed.
                    assert(self0.view_channels@.contains_key(key_view));
                    assert(orig.spec_live(key_view));
                    assert forall|i: int| 0 <= i < removed@.len() implies orig.spec_live(
                        #[trigger] removed@[i]@,
                    ) by {
                        if i < removed@.len() - 1 {
                            assert(removed_old[i]@ == removed@[i]@);
                        } else {
                            assert(removed@[i]@ == key_view);
                        }
                    }
                    // Liveness bookkeeping: exactly this key stopped
                    // being live and being connected.
                    assert(self.view_channels@ == self0.view_channels@.remove(key_view));
                    assert forall|k: Seq<char>|
                        #![trigger orig.view_channels@.contains_key(k)]
                        (self.view_channels@.contains_key(k) <==> orig.view_channels@.contains_key(
                            k,
                        ) && !seq_contains_key(removed@, k)) && (
                        self.world.connections.spec_has_key(k)
                            <==> orig.world.connections.spec_has_key(k) && !seq_contains_key(
                            removed@,
                            k,
                        )) by {
                        if k == key_view {
                            assert(!self.view_channels@.contains_key(k));
                            assert(!self.world.connections.spec_has_key(k));
                        } else {
                            assert(self.view_channels@.contains_key(k)
                                == self0.view_channels@.contains_key(k));
                            assert(self.world.connections.spec_has_key(k)
                                == self0.world.connections.spec_has_key(k));
                            assert(seq_contains_key(removed@, k) == seq_contains_key(
                                removed_old,
                                k,
                            ));
                        }
                    }
                }
            }
        }
        removed
    }

    /// Act on the reduced instruction. A `Run` whose dispatch flag
    /// is set drains the shared input buffer, installs the snapshot
    /// and dispatches the scheduler, which consumes it; a `Run`
    /// without the flag and a `Pause` leave the engine untouched, so
    /// pending input stays buffered for a later dispatching tick; a
    /// `Restart` — and nothing else — is refused as fatal.
    fn apply_instruction(&mut self, instruction: EngineInstruction) -> (r: Result<
        (),
        EngineError,
    >) where S: System<SS::MessageType>
        requires
            old(self).wf(),
        ensures
            final(self).wf(),
            r is Err <==> instruction is Restart,
            r matches Err(e) ==> e == EngineError::RestartUnsupported,
            !(instruction is Restart) && !instruction.spec_dispatches() ==> *final(self) == *old(
                self,
            ),
            instruction.spec_dispatches() ==> final(self).world.connections == old(
                self,
            ).world.connections && final(self).world.input_map@ == Map::<
                Seq<char>,
                Seq<crate::input::Input>,
            >::empty(),
            final(self).view_channels == old(self).view_channels,
            final(self).connection_channel == old(self).connection_channel,
            final(self).input_buffer == old(self).input_buffer,
            final(self).server_conf == old(self).server_conf,
            final(self).subsystems == old(self).subsystems,
    {
        match instruction {
            EngineInstruction::Run(data, _) => {
                if data.run_dispatcher {
                    let inputs = self.get_inputs();
                    self.world.set_input(inputs);
                    self.dispatch();
                }
                Ok(())
            },
            EngineInstruction::Pause(_) => Ok(()),
            EngineInstruction::Restart(_) => Err(EngineError::RestartUnsupported),
        }
    }

    /// One tick: drain new connections, poll the subsystems and
    /// reduce their instructions, act on the reduced instruction —
    /// dispatching the scheduler, and draining the shared input
    /// buffer, only when it says to — and route the produced views.
    /// Draining only on a dispatching tick pins the drain policy:
    /// every drained snapshot is consumed by the dispatch it was
    /// drained for, and input enqueued during a paused tick defers
    /// whole to the next dispatching tick instead of being lost.
    /// Returns the keys of connections dropped after a failed
    /// delivery; they are no longer live. A `Restart` instruction is
    /// a fatal, unimplemented condition; the only other fault is a
    /// closed connection channel. With no subsystems and no server
    /// attached a tick cannot fail.
    pub fn tick(&mut self, delta_ms: u64) -> (r: Result<Vec<String>, EngineError>) where S: System<
        SS::MessageType,
    >
        requires
            old(self).wf(),
        ensures
            final(self).wf(),
            r matches Ok(removed) ==> forall|i: int|
                0 <= i < removed@.len() ==> !final(self).spec_live(#[trigger] removed@[i]@)
                    && !final(self).world.connections.spec_has_key(removed@[i]@),
            r matches Err(e) ==> e == EngineError::ServerChannelDisconnected || e
                == EngineError::RestartUnsupported,
            old(self).subsystems@.len() == 0 && old(self).connection_channel is None ==> r is Ok,
    {
        // 1. Register every pending new connection.
        let mut budget: usize = usize::MAX;
        while budget > 0
            invariant
                self.wf(),
                self.connection_channel == old(self).connection_channel,
                self.subsystems == old(self).subsystems,
            decreases budget,
        {
            match self.get_new_connection() {
                Ok(Some((conn, sender))) => {
                    self.view_channels.insert(conn.key.clone(), sender);
                    self.world.add_connection(conn);
                },
                Ok(None) => {
                    break ;
                },
                Err(e) => {
                    return Err(e);
                },
            }
            budget = budget - 1;
        }
        // 2. Poll the subsystems and reduce their instructions.
        let instruction = self.subsystems_tick(delta_ms);
        // 3. Act on it: dispatch, skip, or refuse a restart.
        self.apply_instruction(instruction)?;
        // 4. Route every produced view; drop connections whose
        //    delivery failed.
        let views = self.world.pop_views();
        let removed = self.route_views(views);
        Ok(removed)
    }
}

/// Collects the engine's configuration before it is built: server
/// settings, the systems with their dependencies, and the control
/// subsystems.
pub struct EngineBuilder<SS: Subsystem, S> {
    pub server_conf: ServerConfig,
    pub system_executor_builder: SystemExecutorBuilder<S>,
    pub subsystems: Vec<SS>,
}

impl<SS: Subsystem, S> EngineBuilder<SS, S> {
    pub open spec fn wf(self) -> bool {
        self.system_executor_builder.wf()
    }

    /// Name the server.
    pub fn with_name(self, name: &str) -> (r: EngineBuilder<SS, S>)
        requires
            self.wf(),
        ensures
            r.wf(),
            r.server_conf.server_name@ == name@,
            r.server_conf.port == self.server_conf.port,
            r.system_executor_builder == self.system_executor_builder,
    {
        let mut b = self;
        b.server_conf.server_name = name.to_owned();
        b
    }

    /// Pick the port the server will listen on.
    pub fn on_port(self, port: u16) -> (r: EngineBuilder<SS, S>)
        requires
            self.wf(),
        ensures
            r.wf(),
            r.server_conf.port == port,
            r.server_conf.server_name == self.server_conf.server_name,
            r.system_executor_builder == self.system_executor_builder,
    {
        let mut b = self;
        b.server_conf.port = port;
        b
    }

    /// Register a system under a unique name with its dependencies.
    /// Earlier registrations are untouched: the one node is appended
    /// with this name and exactly these dependency names, and its
    /// position is the registration order later used as the
    /// deterministic tie-break.
    pub fn with_system(self, system: S, name: &str, dep: &[&str]) -> (r: EngineBuilder<SS, S>)
        requires
            self.wf(),
        ensures
            r.wf(),
            r.system_executor_builder.systems@ == self.system_executor_builder.systems@.push(
                system,
            ),
            r.system_executor_builder.metas@.len() == self.system_executor_builder.metas@.len()
                + 1,
            r.system_executor_builder.metas@.subrange(
                0,
                self.system_executor_builder.metas@.len() as int,
            ) == self.system_executor_builder.metas@,
            r.system_executor_builder.metas@.last().name@ == name@,
            r.system_executor_builder.metas@.last().deps@.len() == dep@.len(),
            forall|k: int|
                0 <= k < dep@.len() ==> r.system_executor_builder.metas@.last().deps@[k]@
                    == #[trigger] dep@[k]@,
            r.server_conf == self.server_conf,
            r.subsystems == self.subsystems,
    {
        let mut b = self;
        b.system_executor_builder.add_system(system, name, dep);
        b
    }

    /// Register a control subsystem: it is appended at the end, so
    /// per-tick polling and reduction visit it after every subsystem
    /// registered before it. Nothing else of the builder changes.
    pub fn with_subsystem(self, subsystem: SS) -> (r: EngineBuilder<SS, S>)
        requires
            self.wf(),
        ensures
            r.wf(),
            r.subsystems@ == self.subsystems@.push(subsystem),
            r.server_conf == self.server_conf,
            r.system_executor_builder == self.system_executor_builder,
    {
        let mut b = self;
        b.subsystems.push(subsystem);
        b
    }

    /// Build the engine. This is where a dependency cycle among the
    /// registered systems is refused, before any tick runs. On
    /// success the engine carries the registered systems and
    /// subsystems and the configuration as given, starts with a
    /// fresh empty world and no live connections, and has no server
    /// attached yet.
    pub fn build(self) -> (r: Result<Engine<SS, S>, SchedulerError>)
        requires
            self.wf(),
        ensures
            r is Ok <==> names_unique(self.system_executor_builder.metas@) && all_deps_resolvable(
                self.system_executor_builder.metas@,
            ) && schedulable(spec_adj(self.system_executor_builder.metas@)),
            r matches Ok(e) ==> e.wf() && e.system_executor.systems@
                == self.system_executor_builder.systems@ && e.system_executor.metas@
                == self.system_executor_builder.metas@ && e.subsystems == self.subsystems
                && e.server_conf == self.server_conf && e.world.connections.connections@.len() == 0
                && e.world.input_map@ == Map::<Seq<char>, Seq<crate::input::Input>>::empty()
                && e.world.view_map@ == Map::<Seq<char>, ClientView>::empty()
                && e.world.messages@ == Seq::<SS::MessageType>::empty() && e.view_channels@
                == Map::<Seq<char>, Sender<ClientView>>::empty() && e.input_buffer is None
                && e.connection_channel is None,
            r == Result::<Engine<SS, S>, SchedulerError>::Err(SchedulerError::DuplicateSystemName)
                <==> !names_unique(self.system_executor_builder.metas@),
            r == Result::<Engine<SS, S>, SchedulerError>::Err(SchedulerError::UnknownDependency)
                <==> names_unique(self.system_executor_builder.metas@) && !all_deps_resolvable(
                self.system_executor_builder.metas@,
            ),
            r == Result::<Engine<SS, S>, SchedulerError>::Err(SchedulerError::GraphCycleDetected)
                <==> names_unique(self.system_executor_builder.metas@) && all_deps_resolvable(
                self.system_executor_builder.metas@,
            ) && !schedulable(spec_adj(self.system_executor_builder.metas@)),
    {
        match self.system_executor_builder.build() {
            Ok(executor) => Ok(
                Engine {
                    world: World::new(),
                    system_executor: executor,
                    subsystems: self.subsystems,
                    server_conf: self.server_conf,
                    input_buffer: None,
                    connection_channel: None,
                    view_channels: KeyedMap::new(),
                },
            ),
            Err(e) => Err(e),
        }
    }
}

} // verus!
