//! Per-connection session logic: the liveness rules of the read
//! loop, the latest-view rule of the outbound channel, and the
//! inbound pipeline from raw buffer to queued input events.

use vstd::prelude::*;
use vstd::string::*;
use crate::connection::ClientView;
use crate::framing::{handle_msg, parse_message};
use crate::server::{is_input_buffer_lock, put_buffer, InputBufferMutex};

verus! {

/// The patience threshold of consecutive all-zero reads: the read
/// that reaches it makes the session treat the socket as closed and
/// terminate.
pub const EMPTY_STREAM_PATIENCE: u32 = 2;

/// The fixed size of the session's read buffer, in bytes.
pub const BUFFER_SIZE: usize = 512;

/// What one poll of the socket produced, as the session logic sees
/// it: a completed read, a would-block condition, or a hard error.
#[derive(Clone, Copy, PartialEq, Eq, Structural, Debug)]
pub enum ReadEvent {
    Filled,
    WouldBlock,
    HardError,
}

/// What the session loop does next.
#[derive(Clone, Copy, PartialEq, Eq, Structural, Debug)]
pub enum SessionAction {
    /// Loop again; nothing to process this iteration.
    Continue,
    /// The buffer holds data: frame it and queue its input events.
    Process,
    /// The session ends, purely locally.
    Terminate,
}

/// The session's liveness state: how many more consecutive empty
/// reads it will tolerate.
pub struct SessionState {
    pub patience: u32,
}

impl SessionState {
    pub fn new() -> (r: SessionState)
        ensures
            r.patience == EMPTY_STREAM_PATIENCE,
    {
        SessionState { patience: EMPTY_STREAM_PATIENCE }
    }

    /// Advance the liveness state by one poll of the socket. A hard
    /// error terminates at once; a would-block condition changes
    /// nothing; an all-zero read spends one unit of patience, and
    /// the read that spends the last unit terminates the session —
    /// so a fresh session ends on its second consecutive empty read;
    /// a read holding data restores patience in full and is
    /// processed.
    pub fn step(&mut self, event: ReadEvent, buffer_empty: bool) -> (action: SessionAction)
        ensures
            event == ReadEvent::HardError ==> action == SessionAction::Terminate && *final(self)
                == *old(self),
            event == ReadEvent::WouldBlock ==> action == SessionAction::Continue && *final(self)
                == *old(self),
            event == ReadEvent::Filled && buffer_empty && old(self).patience <= 1 ==> action
                == SessionAction::Terminate && *final(self) == *old(self),
            event == ReadEvent::Filled && buffer_empty && old(self).patience > 1 ==> action
                == SessionAction::Continue && final(self).patience == old(self).patience - 1,
            event == ReadEvent::Filled && !buffer_empty ==> action == SessionAction::Process
                && final(self).patience == EMPTY_STREAM_PATIENCE,
    {
        match event {
            ReadEvent::HardError => SessionAction::Terminate,
            ReadEvent::WouldBlock => SessionAction::Continue,
            ReadEvent::Filled => {
                if buffer_empty {
                    if self.patience <= 1 {
                        SessionAction::Terminate
                    } else {
                        self.patience = self.patience - 1;
                        SessionAction::Continue
                    }
                } else {
                    self.patience = EMPTY_STREAM_PATIENCE;
                    SessionAction::Process
                }
            },
        }
    }
}

/// Whether a read buffer is all zero: an empty read.
pub fn is_empty_stream(buf: &[u8]) -> (b: bool)
    ensures
        b == forall|i: int| 0 <= i < buf@.len() ==> buf@[i] == 0,
{
    let mut i: usize = 0;
    while i < buf.len()
        invariant
            i <= buf@.len(),
            forall|j: int| 0 <= j < i ==> buf@[j] == 0,
        decreases buf@.len() - i,
    {
        if buf[i] != 0 {
            return false;
        }
        i = i + 1;
    }
    true
}

/// Poll the session's outbound channel once, without blocking: the
/// next queued view payload, or `None` when nothing is queued or the
/// channel has closed. A closed channel — the coordinator is gone —
/// looks like an idle one here, so such a session terminates through
/// the empty-read rule rather than at once.
pub fn get_new_view(receiver: &std::sync::mpsc::Receiver<ClientView>) -> (r: Option<ClientView>) {
    match crate::engine::try_recv_value(receiver) {
        crate::engine::TryRecvOutcome::Received(v) => Some(v),
        crate::engine::TryRecvOutcome::Empty => None,
        crate::engine::TryRecvOutcome::Disconnected => None,
    }
}

/// Drain a batch of queued view payloads to the single most recently
/// produced one: any older queued views are discarded.
pub fn latest_view(mut views: Vec<ClientView>) -> (r: Option<ClientView>)
    ensures
        views@.len() == 0 ==> r is None,
        views@.len() > 0 ==> r == Some(views@.last()),
{
    views.pop()
}

/// Frame one framed message's worth of raw buffer under the
/// connection's key: parse it and queue every input event it holds,
/// holding the input lock once per event.
pub fn process_incoming(input_buffer: &InputBufferMutex, key: &String, raw: &String)
    requires
        is_input_buffer_lock(input_buffer),
{
    let msg = parse_message(raw);
    let events = handle_msg(msg);
    let mut i: usize = 0;
    while i < events.len()
        invariant
            is_input_buffer_lock(input_buffer),
            i <= events@.len(),
        decreases events@.len() - i,
    {
        put_buffer(input_buffer, key.clone(), events[i]);
        i = i + 1;
    }
}

/// Terminate one serialized view with the newline that ends every
/// outbound line.
pub fn terminate_line(line: String) -> (r: String)
    ensures
        r@ == line@ + "\n"@,
{
    line.concat("\n")
}

} // verus!
