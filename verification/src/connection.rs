//! Live connections and the view payloads routed to them.

use vstd::prelude::*;

verus! {

/// A live client connection, identified by the key its handshake
/// returned. Keys are unique among live connections.
#[derive(Clone, Debug)]
pub struct Connection {
    pub key: String,
}

/// The serializable snapshot of state destined for one connection.
#[derive(Clone, Debug)]
pub struct ClientView {
    pub sprites: Vec<String>,
}

/// The view payloads produced within one tick, keyed by connection:
/// at most one per connection, the most recently recorded.
pub type ViewMap = crate::keyed::KeyedMap<ClientView>;

/// The collection of live connections the coordinator addresses.
pub struct ConnectionCollection {
    pub connections: Vec<Connection>,
}

impl ConnectionCollection {
    /// Connection keys are unique among live connections.
    pub open spec fn wf(self) -> bool {
        forall|i: int, j: int|
            0 <= i < j < self.connections@.len() ==> self.connections@[i].key@
                != self.connections@[j].key@
    }

    /// Whether a live connection holds this key.
    pub open spec fn spec_has_key(self, k: Seq<char>) -> bool {
        exists|i: int| 0 <= i < self.connections@.len() && self.connections@[i].key@ == k
    }

    pub fn new() -> (r: ConnectionCollection)
        ensures
            r.connections@.len() == 0,
            r.wf(),
    {
        ConnectionCollection { connections: vec![] }
    }

    /// The number of live connections.
    pub fn size(&self) -> (n: usize)
        ensures
            n == self.connections@.len(),
    {
        self.connections.len()
    }

    fn index_of_key(&self, key: &String) -> (r: Option<usize>)
        ensures
            match r {
                Some(i) => i < self.connections@.len() && self.connections@[i as int].key@ == key@,
                None => !self.spec_has_key(key@),
            },
    {
        let mut i: usize = 0;
        while i < self.connections.len()
            invariant
                i <= self.connections@.len(),
                forall|j: int| 0 <= j < i ==> self.connections@[j].key@ != key@,
            decreases self.connections@.len() - i,
        {
            if self.connections[i].key == *key {
                return Some(i);
            }
            i = i + 1;
        }
        None
    }

    pub fn has_key(&self, key: &String) -> (b: bool)
        ensures
            b == self.spec_has_key(key@),
    {
        self.index_of_key(key).is_some()
    }

    /// Register a connection. A connection already live under the
    /// same key is replaced, keeping keys unique.
    pub fn add(&mut self, conn: Connection)
        requires
            old(self).wf(),
        ensures
            final(self).wf(),
            final(self).spec_has_key(conn.key@),
            forall|k: Seq<char>|
                k != conn.key@ ==> (final(self).spec_has_key(k) <==> old(self).spec_has_key(k)),
            !old(self).spec_has_key(conn.key@) ==> final(self).connections@ == old(
                self,
            ).connections@.push(conn),
    {
        let ghost key = conn.key@;
        match self.index_of_key(&conn.key) {
            Some(i) => {
                let ghost s_old = self.connections@;
                self.connections[i] = conn;
                proof {
                    assert(self.connections@[i as int].key@ == key);
                    assert forall|k: Seq<char>| k != key implies (self.spec_has_key(k)
                        <==> old(self).spec_has_key(k)) by {
                        if old(self).spec_has_key(k) {
                            let j = choose|j: int| 0 <= j < s_old.len() && s_old[j].key@ == k;
                            assert(self.connections@[j].key@ == k);
                        }
                        if self.spec_has_key(k) {
                            let j = choose|j: int|
                                0 <= j < self.connections@.len() && self.connections@[j].key@
                                    == k;
                            assert(s_old[j].key@ == k);
                        }
                    }
                }
            },
            None => {
                let ghost s_old = self.connections@;
                self.connections.push(conn);
                proof {
                    assert(self.connections@[s_old.len() as int].key@ == key);
                    assert forall|k: Seq<char>| k != key implies (self.spec_has_key(k)
                        <==> old(self).spec_has_key(k)) by {
                        if old(self).spec_has_key(k) {
                            let j = choose|j: int| 0 <= j < s_old.len() && s_old[j].key@ == k;
                            assert(self.connections@[j].key@ == k);
                        }
                        if self.spec_has_key(k) {
                            let j = choose|j: int|
                                0 <= j < self.connections@.len() && self.connections@[j].key@
                                    == k;
                            assert(s_old[j].key@ == k);
                        }
                    }
                }
            },
        }
    }

    /// Remove the connection holding this key, if one is live. The
    /// surviving connections keep their relative order.
    pub fn remove(&mut self, key: &String)
        ensures
            final(self).wf() || !old(self).wf(),
            old(self).wf() ==> !final(self).spec_has_key(key@),
            forall|k: Seq<char>|
                k != key@ ==> (final(self).spec_has_key(k) <==> old(self).spec_has_key(k)),
            !old(self).spec_has_key(key@) ==> final(self).connections@ == old(self).connections@,
            old(self).spec_has_key(key@) ==> exists|i: int|
                0 <= i < old(self).connections@.len() && old(self).connections@[i].key@ == key@
                    && final(self).connections@ == old(self).connections@.remove(i),
    {
        match self.index_of_key(key) {
            Some(i) => {
                let ghost s_old = self.connections@;
                let _ = self.connections.remove(i);
                proof {
                    assert(forall|j: int|
                        0 <= j < self.connections@.len() ==> self.connections@[j] == (if j < i {
                            s_old[j]
                        } else {
                            s_old[j + 1]
                        }));
                    assert forall|k: Seq<char>| k != key@ implies (self.spec_has_key(k)
                        <==> old(self).spec_has_key(k)) by {
                        if old(self).spec_has_key(k) {
                            let j = choose|j: int| 0 <= j < s_old.len() && s_old[j].key@ == k;
                            if j < i {
                                assert(self.connections@[j].key@ == k);
                            } else {
                                assert(self.connections@[j - 1].key@ == k);
                            }
                        }
                        if self.spec_has_key(k) {
                            let j = choose|j: int|
                                0 <= j < self.connections@.len() && self.connections@[j].key@
                                    == k;
                            if j < i {
                                assert(s_old[j].key@ == k);
                            } else {
                                assert(s_old[j + 1].key@ == k);
                            }
                        }
                    }
                    if old(self).wf() {
                        assert forall|j: int|
                            0 <= j < self.connections@.len() implies self.connections@[j].key@
                            != key@ by {
                            if j < i {
                                assert(self.connections@[j] == s_old[j]);
                            } else {
                                assert(self.connections@[j] == s_old[j + 1]);
                            }
                        }
                    }
                }
            },
            None => {},
        }
    }
}

} // verus!
