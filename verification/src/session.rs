//! The per-request session handle: one mutable `State` plus a status tag
//! that records what the request did to it. `Purged` is absorbing: once a
//! session is purged, no mutator other than `purge` itself has any effect.
use vstd::prelude::*;
use crate::server_session_state::State;
use crate::server_session_state::StateModel;

verus! {

/// What a request did to its session.
#[derive(PartialEq, Eq, Structural, Clone, Copy, Debug)]
pub enum SessionStatus {
    Changed,
    Purged,
    Renewed,
    Unchanged,
}

impl Default for SessionStatus {
    fn default() -> (r: SessionStatus)
        ensures
            r == SessionStatus::Unchanged,
    {
        SessionStatus::Unchanged
    }
}

/// The handle's contents: the in-progress state and the status tag.
pub struct SessionInner {
    pub state: State,
    pub status: SessionStatus,
}

impl SessionInner {
    pub fn new(timeout_ms: u64, now_ms: u64) -> (r: SessionInner)
        requires
            timeout_ms > 0,
        ensures
            r.state.wf(),
            r.status == SessionStatus::Unchanged,
            r.state@.timeout_ms == timeout_ms,
            r.state@.last_use_ms == now_ms,
            r.state@.kv() == Map::<Seq<char>, Seq<char>>::empty(),
    {
        SessionInner { state: State::new(timeout_ms, now_ms), status: SessionStatus::default() }
    }
}

/// The per-request session handle.
pub struct Session {
    pub(crate) inner: SessionInner,
}

impl Session {
    pub open(crate) spec fn wf(&self) -> bool {
        self.inner.state.wf()
    }

    pub open(crate) spec fn status(&self) -> SessionStatus {
        self.inner.status
    }

    pub open(crate) spec fn model(&self) -> StateModel {
        self.inner.state@
    }

    /// The key/value map currently held.
    pub open spec fn kv(&self) -> Map<Seq<char>, Seq<char>> {
        self.model().kv()
    }

    pub fn new(timeout_ms: u64, now_ms: u64) -> (r: Session)
        requires
            timeout_ms > 0,
        ensures
            r.wf(),
            r.status() == SessionStatus::Unchanged,
            r.model().timeout_ms == timeout_ms,
            r.model().last_use_ms == now_ms,
            r.kv() == Map::<Seq<char>, Seq<char>>::empty(),
    {
        Session { inner: SessionInner::new(timeout_ms, now_ms) }
    }

    /// Reads a value from the session.
    pub fn get<'a>(&'a self, key: &str) -> (r: Option<&'a String>)
        requires
            self.wf(),
        ensures
            match r {
                Some(v) => self.kv().contains_key(key@) && v@ == self.kv()[key@],
                None => !self.kv().contains_key(key@),
            },
    {
        self.inner.state.get(key)
    }

    /// Stores a value in the session; a no-op once the session is purged.
    pub fn set(&mut self, key: &str, value: String)
        requires
            old(self).wf(),
        ensures
            final(self).wf(),
            old(self).status() == SessionStatus::Purged ==> *final(self) == *old(self),
            old(self).status() != SessionStatus::Purged ==> {
                &&& final(self).status() == SessionStatus::Changed
                &&& final(self).kv() == old(self).kv().insert(key@, value@)
                &&& final(self).model().timeout_ms == old(self).model().timeout_ms
                &&& final(self).model().last_use_ms == old(self).model().last_use_ms
            },
    {
        if self.inner.status != SessionStatus::Purged {
            self.inner.status = SessionStatus::Changed;
            self.inner.state.set(key, value);
        }
    }

    /// Replaces the session's inactivity timeout, given in minutes; a no-op
    /// once the session is purged.
    pub fn update_timeout(&mut self, minutes: u64)
        requires
            old(self).wf(),
            0 < minutes <= 0x7FFF_FFFF,
        ensures
            final(self).wf(),
            old(self).status() == SessionStatus::Purged ==> *final(self) == *old(self),
            old(self).status() != SessionStatus::Purged ==> {
                &&& final(self).status() == SessionStatus::Changed
                &&& final(self).model().timeout_ms == minutes * 60000
                &&& final(self).model().last_use_ms == old(self).model().last_use_ms
                &&& final(self).model().pairs == old(self).model().pairs
            },
    {
        if self.inner.status != SessionStatus::Purged {
            self.inner.status = SessionStatus::Changed;
            self.inner.state.update_timeout(minutes * 60000);
        }
    }

    /// Removes one value; a no-op once the session is purged.
    pub fn remove(&mut self, key: &str)
        requires
            old(self).wf(),
        ensures
            final(self).wf(),
            old(self).status() == SessionStatus::Purged ==> *final(self) == *old(self),
            old(self).status() != SessionStatus::Purged ==> {
                &&& final(self).status() == SessionStatus::Changed
                &&& final(self).kv() == old(self).kv().remove(key@)
                &&& final(self).model().timeout_ms == old(self).model().timeout_ms
                &&& final(self).model().last_use_ms == old(self).model().last_use_ms
            },
    {
        if self.inner.status != SessionStatus::Purged {
            self.inner.status = SessionStatus::Changed;
            self.inner.state.remove(key);
        }
    }

    /// Drops every value; a no-op once the session is purged.
    pub fn clear(&mut self)
        requires
            old(self).wf(),
        ensures
            final(self).wf(),
            old(self).status() == SessionStatus::Purged ==> *final(self) == *old(self),
            old(self).status() != SessionStatus::Purged ==> {
                &&& final(self).status() == SessionStatus::Changed
                &&& final(self).kv() == Map::<Seq<char>, Seq<char>>::empty()
                &&& final(self).model().timeout_ms == old(self).model().timeout_ms
                &&& final(self).model().last_use_ms == old(self).model().last_use_ms
            },
    {
        if self.inner.status != SessionStatus::Purged {
            self.inner.status = SessionStatus::Changed;
            self.inner.state.clear();
        }
    }

    /// Removes the session, client and server side: drops every value and
    /// moves to `Purged`, from which no mutation ever leads away.
    pub fn purge(&mut self)
        requires
            old(self).wf(),
        ensures
            final(self).wf(),
            final(self).status() == SessionStatus::Purged,
            final(self).kv() == Map::<Seq<char>, Seq<char>>::empty(),
            final(self).model().timeout_ms == old(self).model().timeout_ms,
            final(self).model().last_use_ms == old(self).model().last_use_ms,
    {
        self.inner.status = SessionStatus::Purged;
        self.inner.state.clear();
    }

    /// Asks for the session to be re-issued; a no-op once the session is
    /// purged.
    pub fn renew(&mut self)
        requires
            old(self).wf(),
        ensures
            final(self).wf(),
            old(self).status() == SessionStatus::Purged ==> *final(self) == *old(self),
            old(self).status() != SessionStatus::Purged ==> {
                &&& final(self).status() == SessionStatus::Renewed
                &&& final(self).model() == old(self).model()
            },
    {
        if self.inner.status != SessionStatus::Purged {
            self.inner.status = SessionStatus::Renewed;
        }
    }

    /// Seeds the handle from loaded state: takes over its timeout and all of
    /// its values. The status tag and the last-use instant stay.
    pub fn set_session(&mut self, data: State)
        requires
            old(self).wf(),
            data.wf(),
        ensures
            final(self).wf(),
            final(self).status() == old(self).status(),
            final(self).kv() == old(self).kv().union_prefer_right(data@.kv()),
            final(self).model().timeout_ms == data@.timeout_ms,
            final(self).model().last_use_ms == old(self).model().last_use_ms,
    {
        let t = data.timeout();
        self.inner.state.update_timeout(t);
        self.inner.state.extend(data);
    }

    /// Detaches the accumulated state, leaving an empty state with the same
    /// timeout and last-use instant, and reports the status.
    pub fn get_changes(&mut self) -> (r: (SessionStatus, State))
        requires
            old(self).wf(),
        ensures
            final(self).wf(),
            r.1.wf(),
            r.0 == old(self).status(),
            r.1@ == old(self).model(),
            final(self).status() == old(self).status(),
            final(self).kv() == Map::<Seq<char>, Seq<char>>::empty(),
            final(self).model().timeout_ms == old(self).model().timeout_ms,
            final(self).model().last_use_ms == old(self).model().last_use_ms,
    {
        let t = self.inner.state.timeout_ms;
        let lu = self.inner.state.last_use_ms;
        let mut taken = State::new(t, lu);
        core::mem::swap(&mut taken, &mut self.inner.state);
        (self.inner.status, taken)
    }
}

} // verus!
