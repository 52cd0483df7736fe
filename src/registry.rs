//! The server's table of live connections: identifier to connection state.
//! Identifiers are handed out in increasing order and never reused.
use crate::errors::Error;
use crate::session::ConnectionState;
use std::collections::HashMap;
use vstd::prelude::*;

verus! {

/// Identifies one accepted connection for the lifetime of the server.
pub type ClientID = u32;

/// The registry of connections. Each entry is written only by the driver of
/// its connection; the server shares the pool behind one lock.
pub struct ClientPool {
    entries: HashMap<ClientID, ConnectionState>,
    next_id: u64,
}

impl View for ClientPool {
    type V = Map<ClientID, ConnectionState>;

    closed spec fn view(&self) -> Map<ClientID, ConnectionState> {
        self.entries@
    }
}

impl ClientPool {
    /// How many identifiers have been handed out.
    pub closed spec fn issued(&self) -> nat {
        self.next_id as nat
    }

    /// Every entry holds an identifier already handed out, and no more than
    /// the identifier space has been handed out.
    pub closed spec fn wf(&self) -> bool {
        &&& self.next_id <= u32::MAX + 1
        &&& forall|k: ClientID| #[trigger] self.entries@.contains_key(k) ==> k < self.next_id
    }

    /// An empty registry.
    pub fn new() -> (r: ClientPool)
        ensures
            r.wf(),
            r@ == Map::<ClientID, ConnectionState>::empty(),
            r.issued() == 0,
    {
        ClientPool { entries: HashMap::new(), next_id: 0 }
    }

    /// Registers a newly accepted connection in state `state` under the next
    /// identifier. Fails, changing nothing, once every identifier is used.
    pub fn register(&mut self, state: ConnectionState) -> (r: Result<ClientID, Error>)
        requires
            old(self).wf(),
        ensures
            final(self).wf(),
            match r {
                Ok(id) => {
                    &&& id == old(self).issued()
                    &&& !old(self)@.contains_key(id)
                    &&& final(self)@ == old(self)@.insert(id, state)
                    &&& final(self).issued() == old(self).issued() + 1
                },
                Err(e) => {
                    &&& old(self).issued() > u32::MAX
                    &&& e matches Error::Custom(_)
                    &&& final(self)@ == old(self)@
                    &&& final(self).issued() == old(self).issued()
                },
            },
    {
        if self.next_id > u32::MAX as u64 {
            return Err(Error::Custom("client identifiers exhausted".to_string()));
        }
        let id = self.next_id as u32;
        self.entries.insert(id, state);
        self.next_id = self.next_id + 1;
        Ok(id)
    }

    /// The state of connection `id`, if registered.
    pub fn get(&self, id: ClientID) -> (r: Option<ConnectionState>)
        ensures
            r == (if self@.contains_key(id) {
                Some(self@[id])
            } else {
                None
            }),
    {
        match self.entries.get(&id) {
            Some(s) => Some(*s),
            None => None,
        }
    }

    /// Records the new state of connection `id`; fails if it is not registered.
    pub fn update(&mut self, id: ClientID, state: ConnectionState) -> (r: Result<(), Error>)
        requires
            old(self).wf(),
        ensures
            final(self).wf(),
            final(self).issued() == old(self).issued(),
            old(self)@.contains_key(id) ==> r is Ok && final(self)@ == old(self)@.insert(id, state),
            !old(self)@.contains_key(id) ==> r == Err::<(), Error>(Error::ServerReceiverNotFound)
                && final(self)@ == old(self)@,
    {
        if self.entries.contains_key(&id) {
            self.entries.insert(id, state);
            Ok(())
        } else {
            Err(Error::ServerReceiverNotFound)
        }
    }

    /// Removes connection `id`, returning its last state if it was registered.
    pub fn remove(&mut self, id: ClientID) -> (r: Option<ConnectionState>)
        requires
            old(self).wf(),
        ensures
            final(self).wf(),
            final(self).issued() == old(self).issued(),
            final(self)@ == old(self)@.remove(id),
            r == (if old(self)@.contains_key(id) {
                Some(old(self)@[id])
            } else {
                None
            }),
    {
        self.entries.remove(&id)
    }

    /// Mirrors the state of connection `id`: a closed connection leaves the
    /// registry, any other state is recorded. Fails if `id` is not registered.
    pub fn record(&mut self, id: ClientID, state: ConnectionState) -> (r: Result<(), Error>)
        requires
            old(self).wf(),
        ensures
            final(self).wf(),
            final(self).issued() == old(self).issued(),
            old(self)@.contains_key(id) ==> r is Ok && final(self)@ == (if state
                == ConnectionState::Closed {
                old(self)@.remove(id)
            } else {
                old(self)@.insert(id, state)
            }),
            !old(self)@.contains_key(id) ==> r == Err::<(), Error>(Error::ServerReceiverNotFound)
                && final(self)@ == old(self)@,
    {
        if state == ConnectionState::Closed {
            match self.remove(id) {
                Some(_) => Ok(()),
                None => Err(Error::ServerReceiverNotFound),
            }
        } else {
            self.update(id, state)
        }
    }

    /// The number of registered connections.
    pub fn len(&self) -> (r: usize)
        ensures
            r == self@.len(),
    {
        self.entries.len()
    }
}

} // verus!
