//! The per-connection session lifecycle.
//!
//! A session is created Active — connecting registers the participant,
//! opens its bus subscription and publishes the join announcement and the
//! fresh roster.  While Active, inbound text becomes chat events and the
//! connection's outbound pump drains the session's subscription
//! (`core.bus.recv(session.sub_id)`).  When either pump stops, the session
//! closes: it deregisters, publishes the leave announcement and the fresh
//! roster exactly once, drops its subscription, and is Closed for good.
//! Transport errors are terminal: a client reconnects under a new identity.

use vstd::prelude::*;
use crate::bus::subs_preserved;
use crate::chat::ChatCore;
use crate::chat::chat_event_v;
use crate::chat::connect_applied;
use crate::chat::leave_event_v;
use crate::chat::roster_event_v;
use crate::chat::state_unchanged;

verus! {

/// Where a session stands in its lifecycle.  `Connecting` and `Closing`
/// are the transient states held while [`Session::connect`] and
/// [`Session::close`] run; a session is observed `Active` or `Closed`.
#[derive(Clone, Copy, PartialEq, Eq, Structural, Debug)]
pub enum SessionState {
    Connecting,
    Active,
    Closing,
    Closed,
}

/// The per-connection controller: exclusive owner of one identity and of
/// one bus subscription.
pub struct Session {
    pub user_id: String,
    pub sub_id: u64,
    pub state: SessionState,
}

impl Session {
    /// An Active session owns a registered identity and a live
    /// subscription.
    pub open spec fn active_in(self, core: ChatCore) -> bool {
        &&& self.state == SessionState::Active
        &&& core.registry.contains_id(self.user_id@)
        &&& core.bus.has_sub(self.sub_id)
    }

    /// Accepts a connection: registers a fresh identity with a default
    /// name, subscribes it, publishes join and roster, and hands back the
    /// Active session.  `None` — with nothing changed — when the drawn
    /// token collides with a present participant; the caller retries.
    pub fn connect(core: &mut ChatCore) -> (r: Option<Session>)
        requires
            old(core).wf(),
        ensures
            final(core).wf(),
            match r {
                Some(s) => connect_applied(*old(core), *final(core), s.user_id@, s.sub_id)
                    && s.active_in(*final(core)),
                None => state_unchanged(*old(core), *final(core)),
            },
    {
        match core.connect() {
            Some((user_id, sub_id)) => Some(
                Session { user_id, sub_id, state: SessionState::Active },
            ),
            None => None,
        }
    }

    /// One step of the inbound pump: the received text becomes a chat
    /// event under the sender's current display name.
    pub fn on_inbound(&self, core: &mut ChatCore, text: String)
        requires
            old(core).wf(),
            self.state == SessionState::Active,
        ensures
            final(core).wf(),
            final(core).registry.ids() == old(core).registry.ids(),
            final(core).registry.names() == old(core).registry.names(),
            ({
                let name = if old(core).registry.contains_id(self.user_id@) {
                    old(core).registry.name_of(self.user_id@)
                } else {
                    "unknown"@
                };
                final(core).bus@.history == old(core).bus@.history.push(
                    chat_event_v(self.user_id@, name, text@),
                )
            }),
            final(core).bus@.subs.len() == old(core).bus@.subs.len(),
            final(core).bus@.capacity == old(core).bus@.capacity,
            subs_preserved(old(core).bus@, final(core).bus@, 1),
    {
        core.chat(&self.user_id, text);
    }

    /// Closes the session: deregisters the identity, publishes the leave
    /// announcement and the fresh roster exactly once, drops the
    /// subscription and ends Closed.  After this the identity is gone from
    /// the registry and nothing of this session touches registry or bus
    /// again — its state admits no further transition.
    pub fn close(&mut self, core: &mut ChatCore)
        requires
            old(core).wf(),
            old(self).active_in(*old(core)),
        ensures
            final(core).wf(),
            final(self).state == SessionState::Closed,
            final(self).user_id@ == old(self).user_id@,
            final(self).sub_id == old(self).sub_id,
            !final(core).registry.contains_id(old(self).user_id@),
            !final(core).bus.has_sub(old(self).sub_id),
            ({
                let uid = old(self).user_id@;
                let idx = old(core).registry.id_index(uid);
                let name = old(core).registry.name_of(uid);
                &&& final(core).registry.ids() == old(core).registry.ids().remove(idx)
                &&& final(core).registry.names() == old(core).registry.names().remove(idx)
                &&& final(core).bus@.history == old(core).bus@.history.push(
                    leave_event_v(uid, name),
                ).push(roster_event_v(final(core).registry.names()))
            }),
            final(core).bus@.capacity == old(core).bus@.capacity,
    {
        self.state = SessionState::Closing;
        let _name = core.disconnect(&self.user_id);
        let ghost mid = *core;
        proof {
            assert(mid.bus.has_sub(self.sub_id)) by {
                let k = old(core).bus.sub_index(self.sub_id);
                assert(0 <= k < old(core).bus@.subs.len() && old(core).bus@.subs[k].id
                    == self.sub_id);
                assert(mid.bus@.subs[k].id == self.sub_id);
            }
        }
        let was = core.bus.unsubscribe(self.sub_id);
        proof {
            assert(was);
            let j = mid.bus.sub_index(self.sub_id);
            assert(0 <= j < mid.bus@.subs.len() && mid.bus@.subs[j].id == self.sub_id);
            assert forall|k: int|
                0 <= k < core.bus@.subs.len() implies core.bus@.subs[k].id != self.sub_id by {
                if k < j {
                    assert(core.bus@.subs[k] == mid.bus@.subs[k]);
                } else {
                    assert(core.bus@.subs[k] == mid.bus@.subs[k + 1]);
                }
            }
        }
        self.state = SessionState::Closed;
    }
}

} // verus!
