//! The coordinator-side world: the live connections, the per-tick
//! input snapshot, the view sink, and the tick's global messages.
//! The external entity store is out of scope here; scheduled systems
//! carry their own state and work against the per-tick context.

use vstd::prelude::*;
use crate::connection::{Connection, ConnectionCollection, ViewMap};
use crate::input::InputMap;
use crate::keyed::KeyedMap;

verus! {

/// Events emitted by observers for controllers to consume.
#[derive(Clone)]
pub struct Events<E> {
    pub events: Vec<E>,
}

impl<E> Events<E> {
    pub fn new() -> (r: Events<E>)
        ensures
            r.events@ == Seq::<E>::empty(),
    {
        Events { events: vec![] }
    }
}

/// The state the tick coordinator owns and threads through each
/// tick: who is connected, what input this tick consumes, which
/// views it produced, and its global messages.
pub struct World<E> {
    pub connections: ConnectionCollection,
    pub input_map: InputMap,
    pub view_map: ViewMap,
    pub messages: Vec<E>,
}

impl<E> World<E> {
    pub open spec fn wf(self) -> bool {
        self.connections.wf() && self.input_map.wf() && self.view_map.wf()
    }

    pub fn new() -> (r: World<E>)
        ensures
            r.wf(),
            r.connections.connections@.len() == 0,
            r.input_map@ == Map::<Seq<char>, Seq<crate::input::Input>>::empty(),
            r.view_map@ == Map::<Seq<char>, crate::connection::ClientView>::empty(),
            r.messages@ == Seq::<E>::empty(),
    {
        World {
            connections: ConnectionCollection::new(),
            input_map: InputMap::new(),
            view_map: KeyedMap::new(),
            messages: Vec::new(),
        }
    }

    pub fn get_connections(&self) -> (r: &ConnectionCollection)
        ensures
            r == self.connections,
    {
        &self.connections
    }

    /// Register a connection as live, replacing any one already live
    /// under the same key. A connection under a new key is appended
    /// at the end.
    pub fn add_connection(&mut self, conn: Connection)
        requires
            old(self).wf(),
        ensures
            final(self).wf(),
            final(self).connections.spec_has_key(conn.key@),
            forall|k: Seq<char>|
                k != conn.key@ ==> (final(self).connections.spec_has_key(k) <==> old(
                    self,
                ).connections.spec_has_key(k)),
            !old(self).connections.spec_has_key(conn.key@) ==> final(self).connections.connections@
                == old(self).connections.connections@.push(conn),
            final(self).input_map == old(self).input_map,
            final(self).view_map == old(self).view_map,
            final(self).messages == old(self).messages,
    {
        self.connections.add(conn);
    }

    /// Remove the connection live under this key, if any. The
    /// surviving connections keep their relative order.
    pub fn remove_connection(&mut self, key: &String)
        requires
            old(self).wf(),
        ensures
            final(self).wf(),
            !final(self).connections.spec_has_key(key@),
            forall|k: Seq<char>|
                k != key@ ==> (final(self).connections.spec_has_key(k) <==> old(
                    self,
                ).connections.spec_has_key(k)),
            !old(self).connections.spec_has_key(key@) ==> final(self).connections.connections@
                == old(self).connections.connections@,
            old(self).connections.spec_has_key(key@) ==> exists|i: int|
                0 <= i < old(self).connections.connections@.len() && old(
                    self,
                ).connections.connections@[i].key@ == key@ && final(self).connections.connections@
                    == old(self).connections.connections@.remove(i),
            final(self).input_map == old(self).input_map,
            final(self).view_map == old(self).view_map,
            final(self).messages == old(self).messages,
    {
        self.connections.remove(key);
    }

    /// Install this tick's read-only input snapshot.
    pub fn set_input(&mut self, input: InputMap)
        requires
            old(self).wf(),
            input.wf(),
        ensures
            final(self).wf(),
            final(self).input_map == input,
            final(self).connections == old(self).connections,
            final(self).view_map == old(self).view_map,
            final(self).messages == old(self).messages,
    {
        self.input_map = input;
    }

    /// Take this tick's input snapshot out, leaving an empty one.
    pub fn take_input(&mut self) -> (r: InputMap)
        requires
            old(self).wf(),
        ensures
            final(self).wf(),
            r == old(self).input_map,
            final(self).input_map@ == Map::<Seq<char>, Seq<crate::input::Input>>::empty(),
            final(self).input_map.wf(),
            final(self).connections == old(self).connections,
            final(self).view_map == old(self).view_map,
            final(self).messages == old(self).messages,
    {
        let mut taken = InputMap::new();
        core::mem::swap(&mut taken, &mut self.input_map);
        taken
    }

    /// Take every view produced so far, leaving the sink empty.
    pub fn pop_views(&mut self) -> (r: ViewMap)
        requires
            old(self).wf(),
        ensures
            final(self).wf(),
            r == old(self).view_map,
            final(self).view_map@ == Map::<Seq<char>, crate::connection::ClientView>::empty(),
            final(self).view_map.wf(),
            final(self).connections == old(self).connections,
            final(self).input_map == old(self).input_map,
            final(self).messages == old(self).messages,
    {
        let mut views: ViewMap = KeyedMap::new();
        core::mem::swap(&mut views, &mut self.view_map);
        views
    }
}

} // verus!
