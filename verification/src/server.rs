//! The server-facing pieces of the core: the shared input buffer that
//! session threads push into and the coordinator drains once per tick,
//! the listener configuration, and the handshake result.

use vstd::prelude::*;
use vstd::rwlock::{RwLock, RwLockPredicate};
use crate::connection::Connection;
use crate::input::{spec_push, Input, InputMap};

verus! {

/// Per-connection input queues, consumed in bulk once per tick.
pub struct PlayerInputBuffer {
    inner: InputMap,
}

impl View for PlayerInputBuffer {
    type V = Map<Seq<char>, Seq<Input>>;

    closed spec fn view(&self) -> Map<Seq<char>, Seq<Input>> {
        self.inner@
    }
}

impl PlayerInputBuffer {
    pub closed spec fn wf(self) -> bool {
        self.inner.wf()
    }

    /// The queue pending under a key; empty when the key is absent.
    pub open spec fn spec_queue(self, k: Seq<char>) -> Seq<Input> {
        queue_in(self@, k)
    }

    pub fn new() -> (r: PlayerInputBuffer)
        ensures
            r.wf(),
            r@ == Map::<Seq<char>, Seq<Input>>::empty(),
    {
        PlayerInputBuffer { inner: InputMap::new() }
    }

    /// Append one input at the back of the player's queue.
    pub fn push_input(&mut self, player: String, input: Input)
        requires
            old(self).wf(),
        ensures
            final(self).wf(),
            final(self)@ == spec_push(old(self)@, player@, input),
    {
        self.inner.push_event(player, input);
    }

    /// Remove and return the front input of the player's queue.
    pub fn pop_input(&mut self, player: String) -> (r: Option<Input>)
        requires
            old(self).wf(),
        ensures
            final(self).wf(),
            old(self).spec_queue(player@).len() > 0 ==> r == Some(
                old(self).spec_queue(player@)[0],
            ) && final(self)@ == old(self)@.insert(player@, old(self)@[player@].drop_first()),
            old(self).spec_queue(player@).len() == 0 ==> r is None && final(self)@ == old(self)@,
    {
        self.inner.pop_front_event(&player)
    }

    /// The whole-batch hand-off: atomically swap the buffer for an
    /// empty one and return the previous contents.
    pub fn drain_all(&mut self) -> (r: InputMap)
        requires
            old(self).wf(),
        ensures
            r.wf(),
            r@ == old(self)@,
            final(self).wf(),
            final(self)@ == Map::<Seq<char>, Seq<Input>>::empty(),
    {
        let mut drained = InputMap::new();
        core::mem::swap(&mut drained, &mut self.inner);
        drained
    }
}

/// The queue a map holds under a key; empty when the key is absent.
pub open spec fn queue_in(m: Map<Seq<char>, Seq<Input>>, k: Seq<char>) -> Seq<Input> {
    if m.contains_key(k) {
        m[k]
    } else {
        Seq::empty()
    }
}

/// The buffer contents after a sequence of pushes for one key.
pub open spec fn spec_push_seq(
    m: Map<Seq<char>, Seq<Input>>,
    k: Seq<char>,
    xs: Seq<Input>,
) -> Map<Seq<char>, Seq<Input>>
    decreases xs.len(),
{
    if xs.len() == 0 {
        m
    } else {
        spec_push(spec_push_seq(m, k, xs.drop_last()), k, xs.last())
    }
}

/// Any sequence of pushes for key `k` appends exactly `xs`, in push
/// order, to the queue `k` held before, and touches no other key. So
/// the result of `drain_all`, which returns the buffer whole, holds
/// the pushed inputs for `k` in push order, and the buffer it leaves
/// behind is empty for every key.
pub proof fn lemma_push_seq_order(m: Map<Seq<char>, Seq<Input>>, k: Seq<char>, xs: Seq<Input>)
    ensures
        queue_in(spec_push_seq(m, k, xs), k) == queue_in(m, k) + xs,
        forall|k2: Seq<char>|
            k2 != k ==> queue_in(spec_push_seq(m, k, xs), k2) == queue_in(m, k2),
        forall|k2: Seq<char>|
            k2 != k ==> (spec_push_seq(m, k, xs).contains_key(k2) <==> m.contains_key(k2)),
    decreases xs.len(),
{
    if xs.len() == 0 {
        assert(queue_in(m, k) + xs =~= queue_in(m, k));
    } else {
        lemma_push_seq_order(m, k, xs.drop_last());
        let prev = spec_push_seq(m, k, xs.drop_last());
        assert(queue_in(spec_push_seq(m, k, xs), k) == queue_in(prev, k).push(xs.last()));
        assert((queue_in(m, k) + xs.drop_last()).push(xs.last()) =~= queue_in(m, k) + xs);
    }
}

/// The invariant the input-buffer lock maintains: the guarded buffer
/// is well formed.
pub struct InputBufferInv;

impl RwLockPredicate<PlayerInputBuffer> for InputBufferInv {
    open spec fn inv(self, v: PlayerInputBuffer) -> bool {
        v.wf()
    }
}

/// The single lock guarding the shared input buffer. It is held only
/// for the duration of one push or one swap, never across I/O.
pub type InputBufferMutex = RwLock<PlayerInputBuffer, InputBufferInv>;

/// Whether a lock guards a well-formed input buffer.
pub open spec fn is_input_buffer_lock(lock: &InputBufferMutex) -> bool {
    forall|b: PlayerInputBuffer| #[trigger] lock.inv(b) <==> b.wf()
}

pub fn new_input_buffer_mutex() -> (r: InputBufferMutex)
    ensures
        is_input_buffer_lock(&r),
{
    RwLock::new(PlayerInputBuffer::new(), Ghost(InputBufferInv))
}

/// Append one input under the player's key, holding the lock only for
/// the push.
pub fn put_buffer(input_buffer: &InputBufferMutex, player: String, input: Input)
    requires
        is_input_buffer_lock(input_buffer),
{
    let (mut buffer, handle) = input_buffer.acquire_write();
    buffer.push_input(player, input);
    handle.release_write(buffer);
}

/// Swap the shared buffer for an empty one under the lock, returning
/// the previous contents whole.
pub fn drain_buffer(input_buffer: &InputBufferMutex) -> (r: InputMap)
    requires
        is_input_buffer_lock(input_buffer),
    ensures
        r.wf(),
{
    let (mut buffer, handle) = input_buffer.acquire_write();
    let drained = buffer.drain_all();
    handle.release_write(buffer);
    drained
}

/// Listener configuration supplied before the loop starts.
#[derive(Clone, Debug)]
pub struct ServerConfig {
    pub port: u16,
    pub server_name: String,
}

impl ServerConfig {
    /// The default configuration: the engine's default port and
    /// server name.
    pub fn new() -> (r: ServerConfig)
        ensures
            r.port == 1212,
            r.server_name@ == "default_name"@,
    {
        ServerConfig { port: 1212, server_name: "default_name".to_owned() }
    }
}

/// What the injectable handshake returned for a new connection:
/// either reject, or accept under a login key.
pub struct StreamData {
    pub login_key: String,
    pub should_connect: bool,
}

impl StreamData {
    /// An accepting handshake result under the given key.
    pub fn do_connect_str(key: &str) -> (r: StreamData)
        ensures
            r.should_connect,
            r.login_key@ == key@,
    {
        StreamData { login_key: key.to_owned(), should_connect: true }
    }

    /// The connection a handshake result admits: one under the login
    /// key on accept, none on reject.
    pub fn to_connection(self) -> (r: Option<Connection>)
        ensures
            self.should_connect ==> r == Some(Connection { key: self.login_key }),
            !self.should_connect ==> r is None,
    {
        if self.should_connect {
            Some(Connection { key: self.login_key })
        } else {
            None
        }
    }
}

} // verus!
