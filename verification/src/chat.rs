//! The chat core: one registry and one bus, with the four operations a
//! running relay performs — connect, inbound chat, rename, disconnect.
//!
//! Every mutation publishes exactly the events the protocol prescribes,
//! with the roster event always built from the registry as it stands right
//! after the mutation.

use vstd::prelude::*;
use vstd::string::StringExecFns;
use crate::bus::Bus;
use crate::bus::lemma_publish_two;
use crate::bus::subs_preserved;
use crate::json::json_names;
use crate::models::Event;
use crate::models::EventKind;
use crate::models::EventV;
use crate::models::RenameRequest;
use crate::models::RenameResponse;
use crate::names::NameError;
use crate::names::spec_trim;
use crate::names::valid_name_chars;
use crate::names::valid_name_len;
use crate::names::validate_name;
use crate::registry::Registry;
use crate::registry::RenameError;
use crate::text::dec_str;
use crate::text::u64_to_string;

verus! {

/// Relies on rand::random: draws a process-unique pseudo-random token;
/// nothing is assumed of the value.
#[verifier::external_body]
fn random_u32() -> u32 {
    rand::random::<u32>()
}

/// The join announcement for a participant.
pub open spec fn join_event_v(uid: Seq<char>, name: Seq<char>) -> EventV {
    EventV {
        origin: uid,
        content: name + " joined the chat"@,
        kind: EventKind::Join,
        display_name: Some(name),
    }
}

/// The leave announcement for a departing participant.
pub open spec fn leave_event_v(uid: Seq<char>, name: Seq<char>) -> EventV {
    EventV {
        origin: uid,
        content: name + " left the chat"@,
        kind: EventKind::Leave,
        display_name: Some(name),
    }
}

/// A chat line, attributed to the sender's display name at send time.
pub open spec fn chat_event_v(uid: Seq<char>, name: Seq<char>, text: Seq<char>) -> EventV {
    EventV { origin: uid, content: text, kind: EventKind::Chat, display_name: Some(name) }
}

/// The rename announcement, naming old and new names.
pub open spec fn rename_event_v(uid: Seq<char>, old_name: Seq<char>, new_name: Seq<char>) -> EventV {
    EventV {
        origin: uid,
        content: old_name + " is now known as "@ + new_name,
        kind: EventKind::Rename,
        display_name: Some(new_name),
    }
}

/// The roster event: the encoded list of all current display names, from
/// the sentinel origin `"system"`.
pub open spec fn roster_event_v(names: Seq<Seq<char>>) -> EventV {
    EventV {
        origin: "system"@,
        content: json_names(names),
        kind: EventKind::Roster,
        display_name: None,
    }
}

fn join_event(user_id: &String, name: &String) -> (e: Event)
    ensures
        e@ == join_event_v(user_id@, name@),
{
    let e = Event {
        origin: user_id.clone(),
        content: name.clone().concat(" joined the chat"),
        kind: EventKind::Join,
        display_name: Some(name.clone()),
    };
    proof {
        assert(e@ =~= join_event_v(user_id@, name@));
    }
    e
}

fn leave_event(user_id: &String, name: &String) -> (e: Event)
    ensures
        e@ == leave_event_v(user_id@, name@),
{
    let e = Event {
        origin: user_id.clone(),
        content: name.clone().concat(" left the chat"),
        kind: EventKind::Leave,
        display_name: Some(name.clone()),
    };
    proof {
        assert(e@ =~= leave_event_v(user_id@, name@));
    }
    e
}

fn rename_event(user_id: &String, old_name: &String, new_name: &String) -> (e: Event)
    ensures
        e@ == rename_event_v(user_id@, old_name@, new_name@),
{
    let e = Event {
        origin: user_id.clone(),
        content: old_name.clone().concat(" is now known as ").concat(new_name.as_str()),
        kind: EventKind::Rename,
        display_name: Some(new_name.clone()),
    };
    proof {
        assert(e@ =~= rename_event_v(user_id@, old_name@, new_name@));
    }
    e
}

fn roster_event(names: &Vec<String>) -> (e: Event)
    ensures
        e@ == roster_event_v(names.deep_view()),
{
    let e = Event {
        origin: "system".to_owned(),
        content: crate::json::encode_names(names),
        kind: EventKind::Roster,
        display_name: None,
    };
    proof {
        assert(e@ =~= roster_event_v(names.deep_view()));
    }
    e
}

/// The identity string assigned for token `n`.
pub open spec fn user_id_of(n: u32) -> Seq<char> {
    "user_"@ + dec_str(n as nat)
}

/// The default display name assigned for token `n`.
pub open spec fn guest_name_of(n: u32) -> Seq<char> {
    "guest_"@ + dec_str(n as nat)
}

fn make_user_id(n: u32) -> (s: String)
    ensures
        s@ == user_id_of(n),
{
    "user_".to_owned().concat(u64_to_string(n as u64).as_str())
}

fn make_guest_name(n: u32) -> (s: String)
    ensures
        s@ == guest_name_of(n),
{
    "guest_".to_owned().concat(u64_to_string(n as u64).as_str())
}

/// Neither the registry contents nor the bus changed.
pub open spec fn state_unchanged(c0: ChatCore, c1: ChatCore) -> bool {
    &&& c1.registry.ids() == c0.registry.ids()
    &&& c1.registry.names() == c0.registry.names()
    &&& c1.bus@ == c0.bus@
}

/// A rename of `uid` to `t` was applied: the name replaced in place, and
/// the rename announcement followed by the fresh roster published to every
/// subscriber.
pub open spec fn rename_applied(c0: ChatCore, c1: ChatCore, uid: Seq<char>, t: Seq<char>) -> bool {
    &&& c0.registry.contains_id(uid)
    &&& !c0.registry.name_taken_by_other(uid, t)
    &&& c1.registry.ids() == c0.registry.ids()
    &&& c1.registry.names() == c0.registry.names().update(c0.registry.id_index(uid), t)
    &&& c1.bus@.history == c0.bus@.history.push(
        rename_event_v(uid, c0.registry.name_of(uid), t),
    ).push(roster_event_v(c1.registry.names()))
    &&& c1.bus@.capacity == c0.bus@.capacity
    &&& c1.bus@.next_id == c0.bus@.next_id
    &&& c1.bus@.subs.len() == c0.bus@.subs.len()
    &&& subs_preserved(c0.bus@, c1.bus@, 2)
}

/// A participant was connected under identity `uid` with subscription
/// `sid`: registered under a fresh default name, subscribed before the
/// announcements, and the join event followed by the fresh roster
/// published to every subscriber.
pub open spec fn connect_applied(c0: ChatCore, c1: ChatCore, uid: Seq<char>, sid: u64) -> bool {
    let gname = c1.registry.names().last();
    let b0 = c0.bus@;
    let b3 = c1.bus@;
    &&& !c0.registry.contains_id(uid)
    &&& !c0.registry.contains_name(gname)
    &&& c1.registry.ids() == c0.registry.ids().push(uid)
    &&& c1.registry.names() == c0.registry.names().push(gname)
    &&& c1.registry.contains_id(uid)
    &&& b3.history == b0.history.push(join_event_v(uid, gname)).push(
        roster_event_v(c1.registry.names()),
    )
    &&& b3.capacity == b0.capacity
    &&& b3.subs.len() == b0.subs.len() + 1
    &&& subs_preserved(b0, b3, 2)
    &&& !c0.bus.has_sub(sid)
    &&& c1.bus.has_sub(sid)
    &&& c1.bus.sub_index(sid) == b0.subs.len()
    &&& b3.subs[b0.subs.len() as int].start == b0.history.len()
    &&& b3.subs[b0.subs.len() as int].delivered == Seq::<EventV>::empty()
    &&& (2 <= b0.capacity ==> b3.subs[b0.subs.len() as int].dropped == 0)
}

/// Outcome of [`ChatCore::attempt_rename`].
pub enum RenameOutcome {
    /// The trimmed name was applied; carries the applied name.
    Renamed(String),
    /// Empty after trimming, or too long.
    InvalidLength,
    /// A character outside the accepted set.
    InvalidCharacters,
    /// The name is held by a different identity.
    NameTaken,
    /// The identity is not registered.
    NotFound,
}

/// The shared state of the relay: registry and bus under one exclusion
/// domain.  None of its operations perform I/O; callers act on the returned
/// values afterwards.
pub struct ChatCore {
    pub registry: Registry,
    pub bus: Bus,
}

impl ChatCore {
    pub open spec fn wf(self) -> bool {
        &&& self.registry.wf()
        &&& self.bus.wf()
    }

    /// A fresh core with no participants and no subscribers.
    pub fn new(capacity: usize) -> (c: ChatCore)
        requires
            capacity >= 1,
        ensures
            c.wf(),
            c.registry.len() == 0,
            c.bus@.subs.len() == 0,
            c.bus@.history.len() == 0,
            c.bus@.capacity == capacity,
            c.bus@.next_id == 0,
    {
        ChatCore { registry: Registry::new(), bus: Bus::new(capacity) }
    }

    /// Connects a participant under token `n`: subscribes it to the bus,
    /// registers it under a fresh identity and default name, and publishes
    /// the join announcement followed by the fresh roster.  Refused — with
    /// nothing changed — when the derived identity or name is already in
    /// use, or no subscription can be opened.
    pub fn connect_with(&mut self, n: u32) -> (r: Option<(String, u64)>)
        requires
            old(self).wf(),
        ensures
            final(self).wf(),
            match r {
                Some(pair) => ({
                    let uid = user_id_of(n);
                    let gname = guest_name_of(n);
                    let b0 = old(self).bus@;
                    let b3 = final(self).bus@;
                    &&& pair.0@ == uid
                    &&& !old(self).registry.contains_id(uid)
                    &&& !old(self).registry.contains_name(gname)
                    &&& final(self).registry.ids() == old(self).registry.ids().push(uid)
                    &&& final(self).registry.names() == old(self).registry.names().push(gname)
                    &&& final(self).registry.contains_id(uid)
                    &&& b3.history == b0.history.push(join_event_v(uid, gname)).push(
                        roster_event_v(final(self).registry.names()),
                    )
                    &&& b3.capacity == b0.capacity
                    &&& b3.subs.len() == b0.subs.len() + 1
                    &&& subs_preserved(b0, b3, 2)
                    &&& !old(self).bus.has_sub(pair.1)
                    &&& final(self).bus.has_sub(pair.1)
                    &&& final(self).bus.sub_index(pair.1) == b0.subs.len()
                    &&& b3.subs[b0.subs.len() as int].start == b0.history.len()
                    &&& b3.subs[b0.subs.len() as int].delivered == Seq::<EventV>::empty()
                    &&& (2 <= b0.capacity ==> b3.subs[b0.subs.len() as int].dropped == 0)
                }),
                None => ({
                    &&& (old(self).registry.contains_id(user_id_of(n))
                        || old(self).registry.contains_name(guest_name_of(n))
                        || old(self).bus@.next_id == u64::MAX)
                    &&& state_unchanged(*old(self), *final(self))
                }),
            },
    {
        let uid = make_user_id(n);
        let gname = make_guest_name(n);
        if self.registry.get_name(&uid).is_some() {
            return None;
        }
        if self.registry.has_name(&gname) {
            return None;
        }
        let sid = match self.bus.subscribe() {
            Some(sid) => sid,
            None => {
                return None;
            },
        };
        let ghost b1 = self.bus@;
        let ok = self.registry.register(uid.clone(), gname.clone());
        proof {
            assert(ok);
        }
        let ev = join_event(&uid, &gname);
        self.bus.publish(ev);
        let ghost b2 = self.bus@;
        let snap = self.registry.snapshot();
        let ev2 = roster_event(&snap);
        self.bus.publish(ev2);
        proof {
            let b0 = old(self).bus@;
            let b3 = self.bus@;
            lemma_publish_two(b1, b2, b3, join_event_v(uid@, gname@), roster_event_v(
                self.registry.names(),
            ));
            let n0 = b0.subs.len() as int;
            assert forall|i: int|
                0 <= i < n0 implies {
                &&& (#[trigger] b3.subs[i]).id == b0.subs[i].id
                &&& b3.subs[i].start == b0.subs[i].start
                &&& b3.subs[i].delivered == b0.subs[i].delivered
                &&& (b0.subs[i].dropped == 0 && b0.subs[i].queue.len() + 2 <= b0.capacity
                    ==> b3.subs[i].dropped == 0)
            } by {
                assert(b1.subs[i] == b0.subs[i]);
            }
            assert(b1.subs[n0].id == sid && b1.subs[n0].start == b0.history.len()
                && b1.subs[n0].delivered == Seq::<EventV>::empty() && b1.subs[n0].dropped == 0
                && b1.subs[n0].queue.len() == 0);
            assert(b3.subs[n0].id == sid);
            assert(self.bus.has_sub(sid));
            assert(self.bus.sub_index(sid) == n0) by {
                let j = self.bus.sub_index(sid);
                if j != n0 {
                    assert(b3.subs[j].id == b1.subs[j].id);
                }
            }
            assert(self.registry.contains_id(uid@)) by {
                assert(self.registry.ids()[old(self).registry.ids().len() as int] == uid@);
            }
        }
        Some((uid, sid))
    }

    /// Connects a participant under a freshly drawn random token.  May be
    /// refused when the drawn token collides with a present participant;
    /// the caller simply tries again.
    pub fn connect(&mut self) -> (r: Option<(String, u64)>)
        requires
            old(self).wf(),
        ensures
            final(self).wf(),
            match r {
                Some(pair) => connect_applied(*old(self), *final(self), pair.0@, pair.1),
                None => state_unchanged(*old(self), *final(self)),
            },
    {
        let n = random_u32();
        self.connect_with(n)
    }

    /// Publishes a chat line from `user_id`, attributed to its current
    /// display name — or to `"unknown"` when the identity is (no longer)
    /// registered, as for a message racing a disconnect.
    pub fn chat(&mut self, user_id: &String, text: String)
        requires
            old(self).wf(),
        ensures
            final(self).wf(),
            final(self).registry.ids() == old(self).registry.ids(),
            final(self).registry.names() == old(self).registry.names(),
            ({
                let name = if old(self).registry.contains_id(user_id@) {
                    old(self).registry.name_of(user_id@)
                } else {
                    "unknown"@
                };
                final(self).bus@.history == old(self).bus@.history.push(
                    chat_event_v(user_id@, name, text@),
                )
            }),
            final(self).bus@.capacity == old(self).bus@.capacity,
            final(self).bus@.next_id == old(self).bus@.next_id,
            final(self).bus@.subs.len() == old(self).bus@.subs.len(),
            subs_preserved(old(self).bus@, final(self).bus@, 1),
    {
        let name = match self.registry.get_name(user_id) {
            Some(nm) => nm,
            None => "unknown".to_owned(),
        };
        let e = Event {
            origin: user_id.clone(),
            content: text,
            kind: EventKind::Chat,
            display_name: Some(name),
        };
        self.bus.publish(e);
    }

    /// Disconnects `user_id`: removes it from the registry and publishes
    /// the leave announcement followed by the fresh roster.  A second
    /// disconnect of the same identity finds nothing and changes nothing.
    pub fn disconnect(&mut self, user_id: &String) -> (r: Option<String>)
        requires
            old(self).wf(),
        ensures
            final(self).wf(),
            match r {
                Some(name) => ({
                    let idx = old(self).registry.id_index(user_id@);
                    &&& old(self).registry.contains_id(user_id@)
                    &&& name@ == old(self).registry.name_of(user_id@)
                    &&& final(self).registry.ids() == old(self).registry.ids().remove(idx)
                    &&& final(self).registry.names() == old(self).registry.names().remove(idx)
                    &&& !final(self).registry.contains_id(user_id@)
                    &&& final(self).bus@.history == old(self).bus@.history.push(
                        leave_event_v(user_id@, name@),
                    ).push(roster_event_v(final(self).registry.names()))
                    &&& final(self).bus@.capacity == old(self).bus@.capacity
                    &&& final(self).bus@.next_id == old(self).bus@.next_id
                    &&& final(self).bus@.subs.len() == old(self).bus@.subs.len()
                    &&& subs_preserved(old(self).bus@, final(self).bus@, 2)
                }),
                None => {
                    &&& !old(self).registry.contains_id(user_id@)
                    &&& state_unchanged(*old(self), *final(self))
                },
            },
    {
        let name = match self.registry.deregister(user_id) {
            Some(name) => name,
            None => {
                return None;
            },
        };
        let ghost b1 = self.bus@;
        let ev = leave_event(user_id, &name);
        self.bus.publish(ev);
        let ghost b2 = self.bus@;
        let snap = self.registry.snapshot();
        let ev2 = roster_event(&snap);
        self.bus.publish(ev2);
        proof {
            lemma_publish_two(b1, b2, self.bus@, leave_event_v(user_id@, name@), roster_event_v(
                self.registry.names(),
            ));
            let idx = old(self).registry.id_index(user_id@);
            assert forall|k: int|
                0 <= k < self.registry.ids().len() implies self.registry.ids()[k] != user_id@ by {
                if k < idx {
                    assert(self.registry.ids()[k] == old(self).registry.ids()[k]);
                } else {
                    assert(self.registry.ids()[k] == old(self).registry.ids()[k + 1]);
                }
            }
        }
        Some(name)
    }

    /// Validates and applies a display-name change, and on success publishes
    /// the rename announcement followed by the fresh roster.  A refused
    /// rename leaves registry and bus untouched.  Renaming to one's own
    /// current name is accepted and counts as a rename.
    pub fn attempt_rename(&mut self, user_id: &String, raw_name: &String) -> (r: RenameOutcome)
        requires
            old(self).wf(),
        ensures
            final(self).wf(),
            ({
                let t = spec_trim(raw_name@);
                let uid = user_id@;
                match r {
                    RenameOutcome::InvalidLength => !valid_name_len(t) && state_unchanged(
                        *old(self),
                        *final(self),
                    ),
                    RenameOutcome::InvalidCharacters => valid_name_len(t) && !valid_name_chars(t)
                        && state_unchanged(*old(self), *final(self)),
                    RenameOutcome::NotFound => valid_name_len(t) && valid_name_chars(t)
                        && !old(self).registry.contains_id(uid) && state_unchanged(
                        *old(self),
                        *final(self),
                    ),
                    RenameOutcome::NameTaken => valid_name_len(t) && valid_name_chars(t) && old(
                        self,
                    ).registry.contains_id(uid) && old(self).registry.name_taken_by_other(uid, t)
                        && state_unchanged(*old(self), *final(self)),
                    RenameOutcome::Renamed(applied) => applied@ == t && valid_name_len(t)
                        && valid_name_chars(t) && rename_applied(*old(self), *final(self), uid, t),
                }
            }),
    {
        let name = match validate_name(raw_name.as_str()) {
            Err(NameError::InvalidLength) => {
                return RenameOutcome::InvalidLength;
            },
            Err(NameError::InvalidCharacters) => {
                return RenameOutcome::InvalidCharacters;
            },
            Ok(name) => name,
        };
        let old_name = match self.registry.get_name(user_id) {
            Some(nm) => nm,
            None => {
                return RenameOutcome::NotFound;
            },
        };
        let applied = match self.registry.rename(user_id, name) {
            Err(RenameError::NotFound) => {
                return RenameOutcome::NotFound;
            },
            Err(RenameError::NameTaken) => {
                return RenameOutcome::NameTaken;
            },
            Ok(applied) => applied,
        };
        let ghost b1 = self.bus@;
        let ev = rename_event(user_id, &old_name, &applied);
        self.bus.publish(ev);
        let ghost b2 = self.bus@;
        let snap = self.registry.snapshot();
        let ev2 = roster_event(&snap);
        self.bus.publish(ev2);
        proof {
            lemma_publish_two(b1, b2, self.bus@, rename_event_v(
                user_id@,
                old(self).registry.name_of(user_id@),
                applied@,
            ), roster_event_v(self.registry.names()));
        }
        RenameOutcome::Renamed(applied)
    }

    /// Serves a rename request: the inline answer states the applied name on
    /// success, and on failure which rule refused it.
    pub fn handle_rename(&mut self, req: &RenameRequest) -> (resp: RenameResponse)
        requires
            old(self).wf(),
        ensures
            final(self).wf(),
            ({
                let t = spec_trim(req.new_name@);
                let uid = req.user_id@;
                if !valid_name_len(t) {
                    !resp.success && resp.message@ == "name must be 1 to 20 characters long"@
                        && state_unchanged(*old(self), *final(self))
                } else if !valid_name_chars(t) {
                    !resp.success && resp.message@
                        == "name may only contain letters, digits and underscores"@
                        && state_unchanged(*old(self), *final(self))
                } else if !old(self).registry.contains_id(uid) {
                    !resp.success && resp.message@ == "user not found"@ && state_unchanged(
                        *old(self),
                        *final(self),
                    )
                } else if old(self).registry.name_taken_by_other(uid, t) {
                    !resp.success && resp.message@ == "name already taken"@ && state_unchanged(
                        *old(self),
                        *final(self),
                    )
                } else {
                    resp.success && resp.message@ == "name changed to "@ + t && rename_applied(
                        *old(self),
                        *final(self),
                        uid,
                        t,
                    )
                }
            }),
    {
        match self.attempt_rename(&req.user_id, &req.new_name) {
            RenameOutcome::Renamed(applied) => RenameResponse {
                success: true,
                message: "name changed to ".to_owned().concat(applied.as_str()),
            },
            RenameOutcome::InvalidLength => RenameResponse {
                success: false,
                message: "name must be 1 to 20 characters long".to_owned(),
            },
            RenameOutcome::InvalidCharacters => RenameResponse {
                success: false,
                message: "name may only contain letters, digits and underscores".to_owned(),
            },
            RenameOutcome::NameTaken => RenameResponse {
                success: false,
                message: "name already taken".to_owned(),
            },
            RenameOutcome::NotFound => RenameResponse {
                success: false,
                message: "user not found".to_owned(),
            },
        }
    }
}

} // verus!
