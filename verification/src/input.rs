//! Input events, and the per-connection input map: an ordered queue of
//! pending events for every connection key, with FIFO order per key.

use vstd::prelude::*;
use std::collections::VecDeque;
use crate::keyed::KeyedMap;

verus! {

/// One input event read from a client.
#[derive(Clone, Copy, PartialEq, Eq, Structural, Debug)]
pub enum Input {
    Click { x: u32, y: u32 },
    Key(char),
}

/// A mapping from connection key to the ordered queue of its pending
/// input events.
pub struct InputMap {
    inner: KeyedMap<VecDeque<Input>>,
}

impl View for InputMap {
    type V = Map<Seq<char>, Seq<Input>>;

    closed spec fn view(&self) -> Map<Seq<char>, Seq<Input>> {
        self.inner@.map_values(|q: VecDeque<Input>| q@)
    }
}

/// The effect of appending one event under a key: the key's queue
/// grows by one at the back; a key not yet present starts empty.
pub open spec fn spec_push(
    m: Map<Seq<char>, Seq<Input>>,
    k: Seq<char>,
    x: Input,
) -> Map<Seq<char>, Seq<Input>> {
    m.insert(k, (if m.contains_key(k) { m[k] } else { Seq::empty() }).push(x))
}

impl InputMap {
    pub closed spec fn wf(self) -> bool {
        self.inner.wf()
    }

    /// The queue pending under a key; empty when the key is absent.
    pub open spec fn spec_queue(self, k: Seq<char>) -> Seq<Input> {
        if self@.contains_key(k) {
            self@[k]
        } else {
            Seq::empty()
        }
    }

    pub fn new() -> (r: InputMap)
        ensures
            r.wf(),
            r@ == Map::<Seq<char>, Seq<Input>>::empty(),
    {
        let r = InputMap { inner: KeyedMap::new() };
        proof {
            assert(r@ =~= Map::<Seq<char>, Seq<Input>>::empty());
        }
        r
    }

    /// Whether any entry is held under `key`.
    pub fn contains_key(&self, key: &String) -> (b: bool)
        ensures
            b == self@.contains_key(key@),
    {
        self.inner.contains_key(key)
    }

    /// The queue pending under `key`, if the key is present.
    pub fn get(&self, key: &String) -> (r: Option<&VecDeque<Input>>)
        requires
            self.wf(),
        ensures
            match r {
                Some(q) => self@.contains_key(key@) && q@ == self@[key@],
                None => !self@.contains_key(key@),
            },
    {
        self.inner.get(key)
    }

    /// Append one event at the back of `key`'s queue, creating the
    /// queue when the key is new.
    pub fn push_event(&mut self, key: String, input: Input)
        requires
            old(self).wf(),
        ensures
            final(self).wf(),
            final(self)@ == spec_push(old(self)@, key@, input),
    {
        let ghost m_old = self@;
        let mut q: VecDeque<Input> = match self.inner.remove_entry(&key) {
            Some(q) => q,
            None => VecDeque::new(),
        };
        q.push_back(input);
        self.inner.insert(key, q);
        proof {
            assert(self@ =~= spec_push(m_old, key@, input));
        }
    }

    /// Remove and return the front event of `key`'s queue. Returns
    /// `None`, and changes nothing, when the key is absent or its
    /// queue is empty.
    pub fn pop_front_event(&mut self, key: &String) -> (r: Option<Input>)
        requires
            old(self).wf(),
        ensures
            final(self).wf(),
            old(self).spec_queue(key@).len() > 0 ==> r == Some(old(self).spec_queue(key@)[0])
                && final(self)@ == old(self)@.insert(key@, old(self)@[key@].drop_first()),
            old(self).spec_queue(key@).len() == 0 ==> r is None && final(self)@ == old(self)@,
    {
        let ghost m_old = self@;
        match self.inner.remove_entry(key) {
            Some(mut q) => {
                let r = q.pop_front();
                self.inner.insert(key.clone(), q);
                proof {
                    if m_old[key@].len() > 0 {
                        assert(self@ =~= m_old.insert(key@, m_old[key@].drop_first()));
                    } else {
                        assert(self@ =~= m_old);
                    }
                }
                r
            },
            None => None,
        }
    }
}

/// True when some pending event for `user_key` is a key press of
/// `test_key`.
pub open spec fn spec_key_pressed(m: InputMap, user_key: Seq<char>, test_key: char) -> bool {
    exists|i: int|
        0 <= i < m.spec_queue(user_key).len() && m.spec_queue(user_key)[i] == Input::Key(test_key)
}

/// Scan the events pending for `user_key` for a press of `test_key`.
pub fn key_pressed_for(input_map: &InputMap, user_key: &String, test_key: char) -> (b: bool)
    requires
        input_map.wf(),
    ensures
        b == spec_key_pressed(*input_map, user_key@, test_key),
{
    if let Some(keys) = input_map.get(user_key) {
        let mut i: usize = 0;
        while i < keys.len()
            invariant
                i <= keys@.len(),
                keys@ == input_map.spec_queue(user_key@),
                forall|j: int| 0 <= j < i ==> keys@[j] != Input::Key(test_key),
            decreases keys@.len() - i,
        {
            if let Input::Key(key) = keys[i] {
                if key == test_key {
                    return true;
                }
            }
            i = i + 1;
        }
        false
    } else {
        false
    }
}

} // verus!
