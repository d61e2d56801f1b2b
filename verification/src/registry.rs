//! The registry: the authoritative in-memory mapping from connection
//! identity to display name.
//!
//! Identities are present exactly while their connection is active, and the
//! display names of the present entries are pairwise distinct at every
//! observable point: an insert or rename that would break distinctness is
//! refused before any mutation.

use vstd::prelude::*;

verus! {

/// A currently connected participant: immutable identity, mutable name.
pub struct Participant {
    pub user_id: String,
    pub name: String,
}

/// Why a rename was refused by the registry.
#[derive(Clone, Copy, PartialEq, Eq, Structural, Debug)]
pub enum RenameError {
    /// The identity is not currently registered.
    NotFound,
    /// The requested name is already held by a different identity.
    NameTaken,
}

/// Mapping identity -> display name, in insertion order.
pub struct Registry {
    pub entries: Vec<Participant>,
}

impl Registry {
    /// Identities of the present entries, in insertion order.
    pub open spec fn ids(self) -> Seq<Seq<char>> {
        self.entries@.map(|i: int, p: Participant| p.user_id@)
    }

    /// Display names of the present entries, in insertion order.
    pub open spec fn names(self) -> Seq<Seq<char>> {
        self.entries@.map(|i: int, p: Participant| p.name@)
    }

    pub open spec fn len(self) -> nat {
        self.entries@.len()
    }

    /// No identity occurs twice and no display name occurs twice.
    pub open spec fn wf(self) -> bool {
        &&& forall|i: int, j: int|
            0 <= i < j < self.len() ==> self.ids()[i] != self.ids()[j]
        &&& forall|i: int, j: int|
            0 <= i < j < self.len() ==> self.names()[i] != self.names()[j]
    }

    pub open spec fn contains_id(self, id: Seq<char>) -> bool {
        exists|i: int| 0 <= i < self.len() && self.ids()[i] == id
    }

    pub open spec fn contains_name(self, name: Seq<char>) -> bool {
        exists|i: int| 0 <= i < self.len() && self.names()[i] == name
    }

    /// Position of `id` among the entries; meaningful only when present.
    pub open spec fn id_index(self, id: Seq<char>) -> int {
        choose|i: int| 0 <= i < self.len() && self.ids()[i] == id
    }

    /// The display name currently held by `id`; meaningful only when present.
    pub open spec fn name_of(self, id: Seq<char>) -> Seq<char> {
        self.names()[self.id_index(id)]
    }

    /// `name` is held by some identity other than `id`.
    pub open spec fn name_taken_by_other(self, id: Seq<char>, name: Seq<char>) -> bool {
        exists|i: int|
            0 <= i < self.len() && self.names()[i] == name && self.ids()[i] != id
    }

    /// An empty registry: nobody is connected.
    pub fn new() -> (r: Registry)
        ensures
            r.wf(),
            r.len() == 0,
    {
        Registry { entries: Vec::new() }
    }

    /// Position of `user_id` among the entries, if registered.
    fn find_id(&self, user_id: &String) -> (r: Option<usize>)
        ensures
            match r {
                Some(i) => i < self.len() && self.ids()[i as int] == user_id@,
                None => !self.contains_id(user_id@),
            },
    {
        let n = self.entries.len();
        for i in 0..n
            invariant
                n == self.len(),
                forall|k: int| 0 <= k < i ==> self.ids()[k] != user_id@,
        {
            if self.entries[i].user_id == *user_id {
                return Some(i);
            }
        }
        None
    }

    /// Some identity other than `user_id` currently holds `name`.
    fn name_held_by_other(&self, user_id: &String, name: &String) -> (r: bool)
        ensures
            r == self.name_taken_by_other(user_id@, name@),
    {
        let n = self.entries.len();
        for i in 0..n
            invariant
                n == self.len(),
                forall|k: int|
                    0 <= k < i ==> !(self.names()[k] == name@ && self.ids()[k] != user_id@),
        {
            if self.entries[i].name == *name && !(self.entries[i].user_id == *user_id) {
                proof {
                    assert(self.names()[i as int] == name@ && self.ids()[i as int] != user_id@);
                }
                return true;
            }
        }
        false
    }

    /// Inserts a new participant.  The identity must not already be present;
    /// the insert is refused (and nothing changes) when the requested name is
    /// already in use, so that names stay pairwise distinct.
    pub fn register(&mut self, user_id: String, name: String) -> (ok: bool)
        requires
            old(self).wf(),
            !old(self).contains_id(user_id@),
        ensures
            final(self).wf(),
            ok == !old(self).contains_name(name@),
            ok ==> final(self).ids() == old(self).ids().push(user_id@)
                && final(self).names() == old(self).names().push(name@),
            !ok ==> final(self).ids() == old(self).ids() && final(self).names() == old(self).names(),
    {
        let n = self.entries.len();
        for i in 0..n
            invariant
                n == self.len(),
                old(self).wf(),
                self.entries@ == old(self).entries@,
                forall|k: int| 0 <= k < i ==> self.names()[k] != name@,
        {
            if self.entries[i].name == name {
                proof {
                    assert(self.names()[i as int] == name@);
                    assert(self.ids() =~= old(self).ids());
                    assert(self.names() =~= old(self).names());
                }
                return false;
            }
        }
        let ghost pre = *self;
        self.entries.push(Participant { user_id, name });
        proof {
            assert(self.ids() =~= pre.ids().push(user_id@));
            assert(self.names() =~= pre.names().push(name@));
        }
        true
    }

    /// Removes the participant registered under `user_id` and returns the
    /// departing display name; returns `None` (and changes nothing) when the
    /// identity is not present, so a second removal is harmless.
    pub fn deregister(&mut self, user_id: &String) -> (r: Option<String>)
        requires
            old(self).wf(),
        ensures
            final(self).wf(),
            match r {
                Some(name) => {
                    &&& old(self).contains_id(user_id@)
                    &&& name@ == old(self).name_of(user_id@)
                    &&& final(self).ids() == old(self).ids().remove(old(self).id_index(user_id@))
                    &&& final(self).names() == old(self).names().remove(old(self).id_index(user_id@))
                },
                None => {
                    &&& !old(self).contains_id(user_id@)
                    &&& final(self).ids() == old(self).ids()
                    &&& final(self).names() == old(self).names()
                },
            },
    {
        match self.find_id(user_id) {
            Some(i) => {
                let ghost pre = *self;
                let p = self.entries.remove(i);
                proof {
                    assert(pre.contains_id(user_id@));
                    assert(pre.id_index(user_id@) == i as int) by {
                        let j = pre.id_index(user_id@);
                        assert(0 <= j < pre.len() && pre.ids()[j] == user_id@);
                    }
                    assert(self.ids() =~= pre.ids().remove(i as int));
                    assert(self.names() =~= pre.names().remove(i as int));
                }
                Some(p.name)
            },
            None => None,
        }
    }

    /// Atomic check-and-set of a display name.  Fails with `NotFound` when the
    /// identity is absent, with `NameTaken` when a *different* identity holds
    /// the requested name (so renaming to one's own current name succeeds);
    /// otherwise replaces the name and returns the applied name.
    pub fn rename(&mut self, user_id: &String, new_name: String) -> (r: Result<
        String,
        RenameError,
    >)
        requires
            old(self).wf(),
        ensures
            final(self).wf(),
            match r {
                Ok(applied) => {
                    &&& applied@ == new_name@
                    &&& old(self).contains_id(user_id@)
                    &&& !old(self).name_taken_by_other(user_id@, new_name@)
                    &&& final(self).ids() == old(self).ids()
                    &&& final(self).names() == old(self).names().update(
                        old(self).id_index(user_id@),
                        new_name@,
                    )
                },
                Err(e) => {
                    &&& final(self).ids() == old(self).ids()
                    &&& final(self).names() == old(self).names()
                    &&& (e == RenameError::NotFound <==> !old(self).contains_id(user_id@))
                    &&& (e == RenameError::NameTaken <==> old(self).contains_id(user_id@)
                        && old(self).name_taken_by_other(user_id@, new_name@))
                },
            },
    {
        let i = match self.find_id(user_id) {
            Some(i) => i,
            None => {
                return Err(RenameError::NotFound);
            },
        };
        if self.name_held_by_other(user_id, &new_name) {
            return Err(RenameError::NameTaken);
        }
        let ghost pre = *self;
        let applied = new_name.clone();
        let p = self.entries.remove(i);
        self.entries.insert(i, Participant { user_id: p.user_id, name: new_name });
        proof {
            assert(pre.id_index(user_id@) == i as int) by {
                let j = pre.id_index(user_id@);
                assert(0 <= j < pre.len() && pre.ids()[j] == user_id@);
            }
            assert(self.ids() =~= pre.ids());
            assert(self.names() =~= pre.names().update(i as int, applied@));
        }
        Ok(applied)
    }

    /// Whether some participant currently holds `name`.
    pub fn has_name(&self, name: &String) -> (r: bool)
        ensures
            r == self.contains_name(name@),
    {
        let n = self.entries.len();
        for i in 0..n
            invariant
                n == self.len(),
                forall|k: int| 0 <= k < i ==> self.names()[k] != name@,
        {
            if self.entries[i].name == *name {
                proof {
                    assert(self.names()[i as int] == name@);
                }
                return true;
            }
        }
        false
    }

    /// The display name currently registered under `user_id`, if any.
    pub fn get_name(&self, user_id: &String) -> (r: Option<String>)
        requires
            self.wf(),
        ensures
            match r {
                Some(name) => self.contains_id(user_id@) && name@ == self.name_of(user_id@),
                None => !self.contains_id(user_id@),
            },
    {
        match self.find_id(user_id) {
            Some(i) => {
                proof {
                    assert(self.id_index(user_id@) == i as int) by {
                        let j = self.id_index(user_id@);
                        assert(0 <= j < self.len() && self.ids()[j] == user_id@);
                    }
                }
                Some(self.entries[i].name.clone())
            },
            None => None,
        }
    }

    /// The current display names, in insertion order; computed in one pass so
    /// callers never observe a torn view.
    pub fn snapshot(&self) -> (r: Vec<String>)
        ensures
            r.deep_view() == self.names(),
    {
        let mut r: Vec<String> = Vec::new();
        let n = self.entries.len();
        for i in 0..n
            invariant
                n == self.len(),
                r@.len() == i,
                forall|k: int| 0 <= k < i ==> r@[k]@ == self.names()[k],
        {
            r.push(self.entries[i].name.clone());
        }
        proof {
            assert(r.deep_view() =~= self.names());
        }
        r
    }
}

/// Law: in a well-formed registry no two registered identities share a
/// display name — distinct positions hold distinct names.
pub proof fn lemma_names_pairwise_distinct(r: Registry, i: int, j: int)
    requires
        r.wf(),
        0 <= i < r.len(),
        0 <= j < r.len(),
        i != j,
    ensures
        r.names()[i] != r.names()[j],
{
}

/// Law: when two rename attempts race for the same free target name from
/// different registered identities, the one applied first succeeds and the
/// later one necessarily sees the name taken by a different identity; the
/// registry then holds the target name exactly once.
///
/// `r0` is the state in which the first rename (by `id1`) was applied, `r1`
/// the state it produced, exactly as `Registry::rename` describes it.
pub proof fn lemma_rename_race(r0: Registry, r1: Registry, id1: Seq<char>, id2: Seq<char>, target: Seq<char>)
    requires
        r0.wf(),
        r0.contains_id(id1),
        r0.contains_id(id2),
        id1 != id2,
        !r0.contains_name(target),
        r1.ids() == r0.ids(),
        r1.names() == r0.names().update(r0.id_index(id1), target),
    ensures
        r1.name_taken_by_other(id2, target),
        forall|i: int, j: int|
            0 <= i < r1.len() && 0 <= j < r1.len() && r1.names()[i] == target
                && r1.names()[j] == target ==> i == j,
        exists|i: int| 0 <= i < r1.len() && r1.names()[i] == target,
{
    let k1 = r0.id_index(id1);
    assert(0 <= k1 < r0.len() && r0.ids()[k1] == id1);
    assert(r0.names().len() == r0.len());
    assert(r1.names().len() == r0.len());
    assert(r1.len() == r0.len());
    assert(r1.names()[k1] == target);
    assert(r1.ids()[k1] != id2);
    assert forall|i: int| 0 <= i < r1.len() && i != k1 implies r1.names()[i] != target by {
        assert(r1.names()[i] == r0.names()[i]);
        if r0.names()[i] == target {
            assert(r0.contains_name(target));
        }
    }
    assert(0 <= k1 < r1.len() && r1.names()[k1] == target && r1.ids()[k1] != id2);
}

} // verus!
