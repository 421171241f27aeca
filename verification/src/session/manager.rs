//! Session and group management: the operations on the session data.
use vstd::prelude::*;

use crate::ids::Uuid;
use crate::session::credentials::{loaded_outcome, same_but_auth, stored_outcome};
use crate::session::hierarchy::{
    forest_ids, has_ancestor_within, in_groups, lemma_ancestor_search_exact, reparented, session_ids, sessions_of_groups, subtree_ids,
};
use crate::session::models::{
    group_pos, groups_with_parent, lemma_group_pos, lemma_session_pos, lookup_group, lookup_session,
    session_pos, sessions_with_group, LocalSession, Session, SessionData, SessionGroup, SshSession,
};
use crate::ids::{id_text, uuid_text};
use crate::session::storage::{storage_error_text, SessionStorage, StorageError};
use crate::text::owned;

verus! {

/// Errors of session management.
#[derive(Debug)]
pub enum ManagerError {
    Storage(StorageError),
    SessionNotFound(Uuid),
    GroupNotFound(Uuid),
    GroupHasChildren,
    InvalidOperation(String),
}

/// The text of a management error.
pub open spec fn manager_error_text(e: ManagerError) -> Seq<char> {
    match e {
        ManagerError::Storage(s) => "Storage error: "@ + storage_error_text(s),
        ManagerError::SessionNotFound(id) => "Session not found: "@ + uuid_text(id),
        ManagerError::GroupNotFound(id) => "Group not found: "@ + uuid_text(id),
        ManagerError::GroupHasChildren => "Cannot delete group with children"@,
        ManagerError::InvalidOperation(m) => "Invalid operation: "@ + m@,
    }
}

impl ManagerError {
    /// The error's message.
    pub fn message(&self) -> (m: String)
        ensures
            m@ == manager_error_text(*self),
    {
        match self {
            ManagerError::Storage(e) => {
                let mut m = owned("Storage error: ");
                let t = e.message();
                m.append(t.as_str());
                m
            },
            ManagerError::SessionNotFound(id) => {
                let mut m = owned("Session not found: ");
                let t = id_text(*id);
                m.append(t.as_str());
                m
            },
            ManagerError::GroupNotFound(id) => {
                let mut m = owned("Group not found: ");
                let t = id_text(*id);
                m.append(t.as_str());
                m
            },
            ManagerError::GroupHasChildren => owned("Cannot delete group with children"),
            ManagerError::InvalidOperation(e) => {
                let mut m = owned("Invalid operation: ");
                m.append(e.as_str());
                m
            },
        }
    }
}

/// Session data with its store and whether it has unsaved changes.
pub struct SessionManager {
    data: SessionData,
    storage: SessionStorage,
    dirty: bool,
}

/// `new` holds the sessions of `old` after reading keychain secrets: SSH sessions may
/// have secrets filled in, all else is unchanged.
pub open spec fn credentials_loaded(old: Seq<Session>, new: Seq<Session>) -> bool {
    &&& old.len() == new.len()
    &&& forall|i: int| #![trigger new[i]] 0 <= i < old.len() ==> match old[i] {
        Session::Ssh(a) => new[i] matches Session::Ssh(b) && same_but_auth(a, b) && loaded_outcome(a.auth, b.auth),
        _ => new[i] == old[i],
    }
}

/// `new` holds the sessions of `old` after moving secrets into the keychain.
pub open spec fn credentials_stored(old: Seq<Session>, new: Seq<Session>) -> bool {
    &&& old.len() == new.len()
    &&& forall|i: int| #![trigger new[i]] 0 <= i < old.len() ==> match old[i] {
        Session::Ssh(a) => new[i] matches Session::Ssh(b) && same_but_auth(a, b) && stored_outcome(a.auth, b.auth),
        _ => new[i] == old[i],
    }
}

/// Whether `move_group` lets the group with id `gid` take the parent `np`: a new parent
/// must exist, must not be the group itself and must not lie below it.
pub open spec fn move_allowed(gs: Seq<SessionGroup>, gid: Uuid, np: Option<Uuid>) -> bool {
    match np {
        None => true,
        Some(pid) => lookup_group(gs, pid) is Some && pid != gid && !has_ancestor_within(gs, pid, gid, gs.len()),
    }
}

impl SessionManager {
    /// The sessions, in order.
    pub closed spec fn sessions(&self) -> Seq<Session> {
        self.data.sessions@
    }

    /// The groups, in order.
    pub closed spec fn groups(&self) -> Seq<SessionGroup> {
        self.data.groups@
    }

    /// Whether there are unsaved changes.
    pub closed spec fn dirty(&self) -> bool {
        self.dirty
    }

    /// The path of the sessions file.
    pub closed spec fn storage_path(&self) -> Seq<char> {
        self.storage.path()
    }

    fn load_all_credentials(data: &mut SessionData)
        ensures
            final(data).groups == old(data).groups,
            credentials_loaded(old(data).sessions@, final(data).sessions@),
    {
        let ghost old_ss = data.sessions@;
        let mut i: usize = 0;
        while i < data.sessions.len()
            invariant
                i <= data.sessions.len(),
                data.sessions@.len() == old_ss.len(),
                data.groups == old(data).groups,
                old_ss == old(data).sessions@,
                forall|j: int| i <= j < old_ss.len() ==> data.sessions@[j] == old_ss[j],
                forall|j: int| #![trigger data.sessions@[j]] 0 <= j < i ==> match old_ss[j] {
                    Session::Ssh(a) => data.sessions@[j] matches Session::Ssh(b) && same_but_auth(a, b) && loaded_outcome(a.auth, b.auth),
                    _ => data.sessions@[j] == old_ss[j],
                },
            decreases data.sessions.len() - i,
        {
            let s = data.sessions.remove(i);
            match s {
                Session::Ssh(mut ss) => {
                    ss.load_credentials_from_keychain();
                    data.sessions.insert(i, Session::Ssh(ss));
                },
                other => {
                    data.sessions.insert(i, other);
                },
            }
            i += 1;
        }
    }

    /// A manager of data just loaded from `storage`: secrets marked for the keychain
    /// are read from it; nothing is unsaved.
    pub fn from_loaded(storage: SessionStorage, data: SessionData) -> (m: Self)
        ensures
            m.groups() == data.groups@,
            credentials_loaded(data.sessions@, m.sessions()),
            !m.dirty(),
            m.storage_path() == storage.path(),
    {
        let mut data = data;
        Self::load_all_credentials(&mut data);
        SessionManager { data, storage, dirty: false }
    }

    /// The session data.
    pub fn data(&self) -> (d: &SessionData)
        ensures
            d.sessions@ == self.sessions(),
            d.groups@ == self.groups(),
    {
        &self.data
    }

    /// The store.
    pub fn storage(&self) -> (s: &SessionStorage)
        ensures
            s.path() == self.storage_path(),
    {
        &self.storage
    }

    /// Whether there are unsaved changes.
    pub fn is_dirty(&self) -> (b: bool)
        ensures
            b == self.dirty(),
    {
        self.dirty
    }

    /// Adds an SSH session at the end; returns its id.
    pub fn add_ssh_session(&mut self, session: SshSession) -> (id: Uuid)
        ensures
            id == session.id,
            final(self).sessions() == old(self).sessions().push(Session::Ssh(session)),
            final(self).groups() == old(self).groups(),
            final(self).dirty(),
            final(self).storage_path() == old(self).storage_path(),
    {
        let id = session.id;
        self.data.sessions.push(Session::Ssh(session));
        self.dirty = true;
        id
    }

    /// Adds a local session at the end; returns its id.
    pub fn add_local_session(&mut self, session: LocalSession) -> (id: Uuid)
        ensures
            id == session.id,
            final(self).sessions() == old(self).sessions().push(Session::Local(session)),
            final(self).groups() == old(self).groups(),
            final(self).dirty(),
            final(self).storage_path() == old(self).storage_path(),
    {
        let id = session.id;
        self.data.sessions.push(Session::Local(session));
        self.dirty = true;
        id
    }

    /// The first session with id `id`.
    pub fn get_session(&self, id: Uuid) -> (r: Option<&Session>)
        ensures
            r matches Some(s) ==> lookup_session(self.sessions(), id) == Some(*s),
            r is None ==> lookup_session(self.sessions(), id) is None,
    {
        self.data.find_session(id)
    }

    fn replace_session(&mut self, id: Uuid, session: Session) -> (r: Result<(), ManagerError>)
        ensures
            session_pos(old(self).sessions(), id) >= 0 ==> r is Ok
                && final(self).sessions() == old(self).sessions().update(session_pos(old(self).sessions(), id), session)
                && final(self).dirty(),
            session_pos(old(self).sessions(), id) < 0 ==> (r matches Err(ManagerError::SessionNotFound(x))
                && x == id && final(self).sessions() == old(self).sessions() && final(self).dirty() == old(self).dirty()),
            final(self).groups() == old(self).groups(),
            final(self).storage_path() == old(self).storage_path(),
    {
        match self.data.session_index(id) {
            Some(i) => {
                self.data.sessions.set(i, session);
                self.dirty = true;
                Ok(())
            },
            None => Err(ManagerError::SessionNotFound(id)),
        }
    }

    /// Replaces the first session with id `id` by an SSH session.
    pub fn update_ssh_session(&mut self, id: Uuid, session: SshSession) -> (r: Result<(), ManagerError>)
        ensures
            session_pos(old(self).sessions(), id) >= 0 ==> r is Ok
                && final(self).sessions() == old(self).sessions().update(session_pos(old(self).sessions(), id), Session::Ssh(session))
                && final(self).dirty(),
            session_pos(old(self).sessions(), id) < 0 ==> (r matches Err(ManagerError::SessionNotFound(x))
                && x == id && final(self).sessions() == old(self).sessions() && final(self).dirty() == old(self).dirty()),
            final(self).groups() == old(self).groups(),
            final(self).storage_path() == old(self).storage_path(),
    {
        self.replace_session(id, Session::Ssh(session))
    }

    /// Replaces the first session with id `id` by a local session.
    pub fn update_local_session(&mut self, id: Uuid, session: LocalSession) -> (r: Result<(), ManagerError>)
        ensures
            session_pos(old(self).sessions(), id) >= 0 ==> r is Ok
                && final(self).sessions() == old(self).sessions().update(session_pos(old(self).sessions(), id), Session::Local(session))
                && final(self).dirty(),
            session_pos(old(self).sessions(), id) < 0 ==> (r matches Err(ManagerError::SessionNotFound(x))
                && x == id && final(self).sessions() == old(self).sessions() && final(self).dirty() == old(self).dirty()),
            final(self).groups() == old(self).groups(),
            final(self).storage_path() == old(self).storage_path(),
    {
        self.replace_session(id, Session::Local(session))
    }

    /// Removes the first session with id `id` and returns it; an SSH session's secrets
    /// are deleted from the keychain.
    pub fn delete_session(&mut self, id: Uuid) -> (r: Result<Session, ManagerError>)
        ensures
            session_pos(old(self).sessions(), id) >= 0 ==> (r matches Ok(s)
                && s == old(self).sessions()[session_pos(old(self).sessions(), id)]
                && final(self).sessions() == old(self).sessions().remove(session_pos(old(self).sessions(), id))
                && final(self).dirty()),
            session_pos(old(self).sessions(), id) < 0 ==> (r matches Err(ManagerError::SessionNotFound(x))
                && x == id && final(self).sessions() == old(self).sessions() && final(self).dirty() == old(self).dirty()),
            final(self).groups() == old(self).groups(),
            final(self).storage_path() == old(self).storage_path(),
    {
        match self.data.session_index(id) {
            Some(i) => {
                let session = self.data.sessions.remove(i);
                if let Session::Ssh(ssh_session) = &session {
                    ssh_session.delete_credentials_from_keychain();
                }
                self.dirty = true;
                Ok(session)
            },
            None => Err(ManagerError::SessionNotFound(id)),
        }
    }

    /// All sessions.
    pub fn all_sessions(&self) -> (r: &[Session])
        ensures
            r@ == self.sessions(),
    {
        self.data.sessions.as_slice()
    }

    /// The sessions in group `group_id`.
    pub fn sessions_in_group(&self, group_id: Uuid) -> (r: Vec<&Session>)
        ensures
            r@.map_values(|s: &Session| *s) == sessions_with_group(self.sessions(), Some(group_id)),
    {
        self.data.sessions_in_group(group_id)
    }

    /// The sessions in no group.
    pub fn ungrouped_sessions(&self) -> (r: Vec<&Session>)
        ensures
            r@.map_values(|s: &Session| *s) == sessions_with_group(self.sessions(), None),
    {
        self.data.ungrouped_sessions()
    }

    /// Moves the first session with id `session_id` into group `group_id` (out of any
    /// group for `None`).  The target group must exist.
    pub fn move_session_to_group(&mut self, session_id: Uuid, group_id: Option<Uuid>) -> (r: Result<(), ManagerError>)
        ensures
            group_id is Some && lookup_group(old(self).groups(), group_id->0) is None ==>
                (r matches Err(ManagerError::GroupNotFound(x)) && x == group_id->0 && final(self).sessions() == old(self).sessions()
                && final(self).dirty() == old(self).dirty()),
            !(group_id is Some && lookup_group(old(self).groups(), group_id->0) is None) ==> {
                let p = session_pos(old(self).sessions(), session_id);
                &&& p < 0 ==> (r matches Err(ManagerError::SessionNotFound(x)) && x == session_id
                    && final(self).sessions() == old(self).sessions() && final(self).dirty() == old(self).dirty())
                &&& p >= 0 ==> r is Ok && final(self).dirty()
                    && final(self).sessions() == old(self).sessions().update(p, old(self).sessions()[p].with_group(group_id))
            },
            final(self).groups() == old(self).groups(),
            final(self).storage_path() == old(self).storage_path(),
    {
        if let Some(gid) = group_id {
            if self.data.find_group(gid).is_none() {
                return Err(ManagerError::GroupNotFound(gid));
            }
        }
        match self.data.session_index(session_id) {
            Some(i) => {
                let mut s = self.data.sessions.remove(i);
                s.set_group_id(group_id);
                self.data.sessions.insert(i, s);
                assert(self.data.sessions@ =~= old(self).sessions().update(i as int, old(self).sessions()[i as int].with_group(group_id)));
                self.dirty = true;
                Ok(())
            },
            None => Err(ManagerError::SessionNotFound(session_id)),
        }
    }

    /// Adds a group at the end; returns its id.
    pub fn add_group(&mut self, group: SessionGroup) -> (id: Uuid)
        ensures
            id == group.id,
            final(self).groups() == old(self).groups().push(group),
            final(self).sessions() == old(self).sessions(),
            final(self).dirty(),
            final(self).storage_path() == old(self).storage_path(),
    {
        let id = group.id;
        self.data.groups.push(group);
        self.dirty = true;
        id
    }

    /// The first group with id `id`.
    pub fn get_group(&self, id: Uuid) -> (r: Option<&SessionGroup>)
        ensures
            r matches Some(g) ==> lookup_group(self.groups(), id) == Some(*g),
            r is None ==> lookup_group(self.groups(), id) is None,
    {
        self.data.find_group(id)
    }

    /// Replaces the first group with id `id`.
    pub fn update_group(&mut self, id: Uuid, group: SessionGroup) -> (r: Result<(), ManagerError>)
        ensures
            group_pos(old(self).groups(), id) >= 0 ==> r is Ok
                && final(self).groups() == old(self).groups().update(group_pos(old(self).groups(), id), group)
                && final(self).dirty(),
            group_pos(old(self).groups(), id) < 0 ==> (r matches Err(ManagerError::GroupNotFound(x))
                && x == id && final(self).groups() == old(self).groups() && final(self).dirty() == old(self).dirty()),
            final(self).sessions() == old(self).sessions(),
            final(self).storage_path() == old(self).storage_path(),
    {
        match self.data.group_index(id) {
            Some(i) => {
                self.data.groups.set(i, group);
                self.dirty = true;
                Ok(())
            },
            None => Err(ManagerError::GroupNotFound(id)),
        }
    }

    /// Removes the first group with id `id` and returns it.  A group that has child
    /// groups or sessions is kept (`GroupHasChildren`).
    pub fn delete_group(&mut self, id: Uuid) -> (r: Result<SessionGroup, ManagerError>)
        ensures
            groups_with_parent(old(self).groups(), Some(id)).len() > 0
                || sessions_with_group(old(self).sessions(), Some(id)).len() > 0 ==>
                (r matches Err(ManagerError::GroupHasChildren) && final(self).groups() == old(self).groups()
                && final(self).dirty() == old(self).dirty()),
            groups_with_parent(old(self).groups(), Some(id)).len() == 0
                && sessions_with_group(old(self).sessions(), Some(id)).len() == 0 ==> {
                let p = group_pos(old(self).groups(), id);
                &&& p < 0 ==> (r matches Err(ManagerError::GroupNotFound(x)) && x == id
                    && final(self).groups() == old(self).groups() && final(self).dirty() == old(self).dirty())
                &&& p >= 0 ==> (r matches Ok(g) && g == old(self).groups()[p]
                    && final(self).groups() == old(self).groups().remove(p) && final(self).dirty())
            },
            final(self).sessions() == old(self).sessions(),
            final(self).storage_path() == old(self).storage_path(),
    {
        let has_children = self.data.child_groups(Some(id)).len() > 0;
        if has_children {
            return Err(ManagerError::GroupHasChildren);
        }
        let has_sessions = self.data.sessions_in_group(id).len() > 0;
        if has_sessions {
            return Err(ManagerError::GroupHasChildren);
        }
        match self.data.group_index(id) {
            Some(i) => {
                let group = self.data.groups.remove(i);
                self.dirty = true;
                Ok(group)
            },
            None => Err(ManagerError::GroupNotFound(id)),
        }
    }

    /// All groups.
    pub fn all_groups(&self) -> (r: &[SessionGroup])
        ensures
            r@ == self.groups(),
    {
        self.data.groups.as_slice()
    }

    /// The top-level groups.
    pub fn top_level_groups(&self) -> (r: Vec<&SessionGroup>)
        ensures
            r@.map_values(|g: &SessionGroup| *g) == groups_with_parent(self.groups(), None),
    {
        self.data.child_groups(None)
    }

    /// The groups inside `parent_id`.
    pub fn child_groups(&self, parent_id: Uuid) -> (r: Vec<&SessionGroup>)
        ensures
            r@.map_values(|g: &SessionGroup| *g) == groups_with_parent(self.groups(), Some(parent_id)),
    {
        self.data.child_groups(Some(parent_id))
    }

    /// Moves secrets marked for the keychain into it before the data is written.
    pub fn store_all_credentials(&mut self)
        ensures
            credentials_stored(old(self).sessions(), final(self).sessions()),
            final(self).groups() == old(self).groups(),
            final(self).dirty() == old(self).dirty(),
            final(self).storage_path() == old(self).storage_path(),
    {
        let ghost old_ss = self.data.sessions@;
        let mut i: usize = 0;
        while i < self.data.sessions.len()
            invariant
                i <= self.data.sessions.len(),
                self.data.sessions@.len() == old_ss.len(),
                self.data.groups == old(self).data.groups,
                self.dirty == old(self).dirty,
                self.storage == old(self).storage,
                old_ss == old(self).sessions(),
                forall|j: int| i <= j < old_ss.len() ==> self.data.sessions@[j] == old_ss[j],
                forall|j: int| #![trigger self.data.sessions@[j]] 0 <= j < i ==> match old_ss[j] {
                    Session::Ssh(a) => self.data.sessions@[j] matches Session::Ssh(b) && same_but_auth(a, b) && stored_outcome(a.auth, b.auth),
                    _ => self.data.sessions@[j] == old_ss[j],
                },
            decreases self.data.sessions.len() - i,
        {
            let s = self.data.sessions.remove(i);
            match s {
                Session::Ssh(mut ss) => {
                    ss.store_credentials_to_keychain();
                    self.data.sessions.insert(i, Session::Ssh(ss));
                },
                other => {
                    self.data.sessions.insert(i, other);
                },
            }
            i += 1;
        }
    }

    /// Records that the data was written: nothing is unsaved, and secrets are read back
    /// from the keychain.
    pub fn mark_saved(&mut self)
        ensures
            credentials_loaded(old(self).sessions(), final(self).sessions()),
            final(self).groups() == old(self).groups(),
            !final(self).dirty(),
            final(self).storage_path() == old(self).storage_path(),
    {
        self.dirty = false;
        Self::load_all_credentials(&mut self.data);
    }

    /// Replaces the data with data read again from the store, discarding changes.
    pub fn reload_with(&mut self, data: SessionData)
        ensures
            final(self).sessions() == data.sessions@,
            final(self).groups() == data.groups@,
            !final(self).dirty(),
            final(self).storage_path() == old(self).storage_path(),
    {
        self.data = data;
        self.dirty = false;
    }
}

} // verus!

verus! {

impl SessionManager {
    /// Whether, following parents upward from `potential_descendant`, a group whose
    /// parent is `ancestor` is met.  The walk visits at most as many groups as there are,
    /// so it ends on any data, cyclic parent links included, and it misses no ancestor
    /// that a walk of any length would meet.
    pub fn is_descendant(&self, potential_descendant: Uuid, ancestor: Uuid) -> (r: bool)
        ensures
            r == has_ancestor_within(self.groups(), potential_descendant, ancestor, self.groups().len()),
            r == (exists|m: nat| #[trigger] has_ancestor_within(self.groups(), potential_descendant, ancestor, m)),
    {
        proof {
            lemma_ancestor_search_exact(self.groups(), potential_descendant, ancestor);
        }
        let n = self.data.groups.len();
        let mut current = self.data.find_group(potential_descendant);
        let ghost mut cur_id = potential_descendant;
        let mut steps: usize = 0;
        while steps < n
            invariant
                steps <= n,
                n == self.groups().len(),
                current matches Some(g) ==> lookup_group(self.groups(), cur_id) == Some(*g),
                current is None ==> lookup_group(self.groups(), cur_id) is None,
                has_ancestor_within(self.groups(), potential_descendant, ancestor, n as nat)
                    == has_ancestor_within(self.groups(), cur_id, ancestor, (n - steps) as nat),
                has_ancestor_within(self.groups(), potential_descendant, ancestor, n as nat)
                    == (exists|m: nat| #[trigger] has_ancestor_within(self.groups(), potential_descendant, ancestor, m)),
            decreases n - steps,
        {
            match current {
                None => {
                    return false;
                },
                Some(group) => {
                    match group.parent_id {
                        None => {
                            return false;
                        },
                        Some(parent_id) => {
                            if parent_id == ancestor {
                                return true;
                            }
                            current = self.data.find_group(parent_id);
                            proof {
                                cur_id = parent_id;
                            }
                            steps += 1;
                        },
                    }
                },
            }
        }
        false
    }

    /// Gives the first group with id `group_id` the parent `new_parent_id` (`None`: top
    /// level).  A new parent must exist (`GroupNotFound`), must not be the group itself
    /// and must not lie below it (`InvalidOperation`).
    pub fn move_group(&mut self, group_id: Uuid, new_parent_id: Option<Uuid>) -> (r: Result<(), ManagerError>)
        ensures
            new_parent_id is Some && lookup_group(old(self).groups(), new_parent_id->0) is None
                ==> (r matches Err(ManagerError::GroupNotFound(x)) && x == new_parent_id->0),
            new_parent_id is Some && lookup_group(old(self).groups(), new_parent_id->0) is Some
                && new_parent_id->0 == group_id
                ==> (r matches Err(ManagerError::InvalidOperation(m)) && m@ == "Cannot make a group its own parent"@),
            new_parent_id is Some && lookup_group(old(self).groups(), new_parent_id->0) is Some
                && new_parent_id->0 != group_id
                && has_ancestor_within(old(self).groups(), new_parent_id->0, group_id, old(self).groups().len())
                ==> (r matches Err(ManagerError::InvalidOperation(m)) && m@ == "Cannot move a group to one of its descendants"@),
            move_allowed(old(self).groups(), group_id, new_parent_id) && group_pos(old(self).groups(), group_id) < 0
                ==> (r matches Err(ManagerError::GroupNotFound(x)) && x == group_id),
            move_allowed(old(self).groups(), group_id, new_parent_id) && group_pos(old(self).groups(), group_id) >= 0
                ==> r is Ok && final(self).groups() == reparented(old(self).groups(), group_id, new_parent_id)
                    && final(self).dirty(),
            r is Err ==> final(self).groups() == old(self).groups() && final(self).dirty() == old(self).dirty(),
            final(self).sessions() == old(self).sessions(),
            final(self).storage_path() == old(self).storage_path(),
    {
        if let Some(pid) = new_parent_id {
            if self.data.find_group(pid).is_none() {
                return Err(ManagerError::GroupNotFound(pid));
            }
            if pid == group_id {
                return Err(ManagerError::InvalidOperation(owned("Cannot make a group its own parent")));
            }
            if self.is_descendant(pid, group_id) {
                return Err(ManagerError::InvalidOperation(owned("Cannot move a group to one of its descendants")));
            }
        }
        match self.data.group_index(group_id) {
            Some(i) => {
                let mut g = self.data.groups.remove(i);
                g.parent_id = new_parent_id;
                self.data.groups.insert(i, g);
                assert(self.data.groups@ =~= reparented(old(self).groups(), group_id, new_parent_id));
                self.dirty = true;
                Ok(())
            },
            None => Err(ManagerError::GroupNotFound(group_id)),
        }
    }
}

/// Whether `ids` holds `x`.
fn ids_contain(ids: &Vec<Uuid>, x: Uuid) -> (r: bool)
    ensures
        r == ids@.contains(x),
{
    let mut i: usize = 0;
    while i < ids.len()
        invariant
            i <= ids.len(),
            forall|j: int| 0 <= j < i ==> ids@[j] != x,
        decreases ids.len() - i,
    {
        if ids[i] == x {
            return true;
        }
        i += 1;
    }
    false
}

impl SessionManager {
    /// Appends the ids of group `g` and of the groups below it, down to `fuel` levels.
    fn collect_subtree(&self, g: Uuid, fuel: usize, out: &mut Vec<Uuid>)
        ensures
            final(out)@ == old(out)@ + subtree_ids(self.groups(), g, fuel as nat),
        decreases fuel,
    {
        if fuel == 0 {
            assert(old(out)@ + subtree_ids(self.groups(), g, 0) =~= old(out)@);
            return;
        }
        let ghost start = out@;
        out.push(g);
        let children = self.data.child_groups(Some(g));
        let ghost cs = children@.map_values(|c: &SessionGroup| *c);
        let mut i: usize = 0;
        assert(cs.take(0) =~= Seq::<SessionGroup>::empty());
        assert(out@ =~= start + seq![g] + forest_ids(self.groups(), cs.take(0), (fuel - 1) as nat));
        while i < children.len()
            invariant
                0 < fuel,
                i <= children.len(),
                cs == children@.map_values(|c: &SessionGroup| *c),
                out@ == start + seq![g] + forest_ids(self.groups(), cs.take(i as int), (fuel - 1) as nat),
            decreases children.len() - i,
        {
            let ghost before = out@;
            self.collect_subtree(children[i].id, fuel - 1, out);
            assert(cs.take(i + 1).drop_last() =~= cs.take(i as int));
            assert(cs.take(i + 1).last() == *children@[i as int]);
            assert(out@ =~= start + seq![g] + forest_ids(self.groups(), cs.take(i + 1), (fuel - 1) as nat));
            i += 1;
        }
        assert(cs.take(children.len() as int) =~= cs);
        assert(cs == groups_with_parent(self.groups(), Some(g)));
        assert(final(out)@ =~= old(out)@ + subtree_ids(self.groups(), g, fuel as nat));
    }

    /// The ids of group `group_id` and of the groups below it, as many levels down as
    /// there are groups plus one.
    fn subtree_group_ids(&self, group_id: Uuid) -> (r: Vec<Uuid>)
        ensures
            r@ == subtree_ids(self.groups(), group_id, self.groups().len() + 1),
    {
        let n = self.data.groups.len();
        let mut out: Vec<Uuid> = Vec::new();
        out.push(group_id);
        let children = self.data.child_groups(Some(group_id));
        let ghost cs = children@.map_values(|c: &SessionGroup| *c);
        let mut i: usize = 0;
        assert(cs.take(0) =~= Seq::<SessionGroup>::empty());
        assert(out@ =~= seq![group_id] + forest_ids(self.groups(), cs.take(0), n as nat));
        while i < children.len()
            invariant
                n == self.groups().len(),
                i <= children.len(),
                cs == children@.map_values(|c: &SessionGroup| *c),
                out@ == seq![group_id] + forest_ids(self.groups(), cs.take(i as int), n as nat),
            decreases children.len() - i,
        {
            self.collect_subtree(children[i].id, n, &mut out);
            assert(cs.take(i + 1).drop_last() =~= cs.take(i as int));
            assert(cs.take(i + 1).last() == *children@[i as int]);
            assert(out@ =~= seq![group_id] + forest_ids(self.groups(), cs.take(i + 1), n as nat));
            i += 1;
        }
        assert(cs.take(children.len() as int) =~= cs);
        assert(((n + 1) - 1) as nat == n as nat);
        out
    }

    /// The ids of the sessions in group `group_id` and in the groups below it: each
    /// group's own sessions first, then those of the groups inside it, in list order.
    pub fn get_all_sessions_in_group_recursive(&self, group_id: Uuid) -> (r: Vec<Uuid>)
        ensures
            r@ == sessions_of_groups(self.sessions(), subtree_ids(self.groups(), group_id, self.groups().len() + 1)),
    {
        let ids = self.subtree_group_ids(group_id);
        let mut out: Vec<Uuid> = Vec::new();
        let mut i: usize = 0;
        assert(ids@.take(0) =~= Seq::<Uuid>::empty());
        while i < ids.len()
            invariant
                i <= ids.len(),
                out@ == sessions_of_groups(self.sessions(), ids@.take(i as int)),
            decreases ids.len() - i,
        {
            let members = self.data.sessions_in_group(ids[i]);
            let ghost before = out@;
            let mut j: usize = 0;
            while j < members.len()
                invariant
                    j <= members.len(),
                    out@ == before + session_ids(members@.map_values(|s: &Session| *s).take(j as int)),
                decreases members.len() - j,
            {
                out.push(members[j].id());
                assert(members@.map_values(|s: &Session| *s).take(j + 1) =~= members@.map_values(|s: &Session| *s).take(j as int).push(*members@[j as int]));
                assert(out@ =~= before + session_ids(members@.map_values(|s: &Session| *s).take(j + 1)));
                j += 1;
            }
            assert(members@.map_values(|s: &Session| *s).take(members.len() as int) =~= members@.map_values(|s: &Session| *s));
            assert(ids@.take(i + 1).drop_last() =~= ids@.take(i as int));
            i += 1;
        }
        assert(ids@.take(ids.len() as int) =~= ids@);
        out
    }

    /// Deletes group `id`, the groups below it and the sessions in any of them.  Every
    /// group whose id is among those is removed.
    pub fn delete_group_recursive(&mut self, id: Uuid) -> (r: Result<(), ManagerError>)
        ensures
            r is Ok,
            final(self).groups() == old(self).groups().filter(
                |g: SessionGroup| !subtree_ids(old(self).groups(), id, old(self).groups().len() + 1).contains(g.id),
            ),
            final(self).sessions() == old(self).sessions().filter(
                |s: Session| !in_groups(s, subtree_ids(old(self).groups(), id, old(self).groups().len() + 1)),
            ),
            final(self).dirty(),
            final(self).storage_path() == old(self).storage_path(),
    {
        let ids = self.subtree_group_ids(id);
        let ghost gone = ids@;
        let ghost keep_g = |g: SessionGroup| !gone.contains(g.id);
        let ghost keep_s = |s: Session| !in_groups(s, gone);
        let ghost og = self.data.groups@;
        let ghost os = self.data.sessions@;
        let mut i: usize = 0;
        let mut j: usize = 0;
        assert(og.take(0).filter(keep_g) =~= Seq::<SessionGroup>::empty());
        assert(og.skip(0) =~= og);
        let n_g = self.data.groups.len();
        while j < n_g
            invariant
                n_g == og.len(),
                gone == ids@,
                keep_g == (|g: SessionGroup| !gone.contains(g.id)),
                og == old(self).groups(),
                self.data.sessions@ == os,
                os == old(self).sessions(),
                self.storage == old(self).storage,
                j <= og.len(),
                og.len() <= usize::MAX,
                i == og.take(j as int).filter(keep_g).len(),
                self.data.groups@ == og.take(j as int).filter(keep_g) + og.skip(j as int),
            decreases og.len() - j,
        {
            proof { og.take(j as int).filter(keep_g).lemma_filter_len(keep_g); }
            assert(self.data.groups@[i as int] == og[j as int]);
            assert(og.take(j + 1).drop_last() =~= og.take(j as int));
            assert(og.take(j + 1).last() == og[j as int]);
            let gone_here = ids_contain(&ids, self.data.groups[i].id);
            assert(keep_g(og[j as int]) == !gone_here);
            assert(og.take(j + 1).filter(keep_g) == if keep_g(og[j as int]) {
                og.take(j as int).filter(keep_g).push(og[j as int])
            } else {
                og.take(j as int).filter(keep_g)
            }) by {
                reveal(Seq::filter);
            }
            assert(og.skip(j as int) =~= seq![og[j as int]] + og.skip(j + 1));
            if gone_here {
                self.data.groups.remove(i);
                assert(self.data.groups@ =~= og.take(j + 1).filter(keep_g) + og.skip(j + 1));
            } else {
                assert(og.take(j + 1).filter(keep_g) =~= og.take(j as int).filter(keep_g).push(og[j as int]));
                assert(self.data.groups@ =~= og.take(j + 1).filter(keep_g) + og.skip(j + 1));
                i += 1;
            }
            j += 1;
        }
        assert(og.take(og.len() as int) =~= og);
        assert(self.data.groups@ =~= og.filter(keep_g));
        let mut i: usize = 0;
        let mut j: usize = 0;
        let ghost ng = self.data.groups@;
        assert(os.take(0).filter(keep_s) =~= Seq::<Session>::empty());
        assert(os.skip(0) =~= os);
        let n_s = self.data.sessions.len();
        while j < n_s
            invariant
                n_s == os.len(),
                gone == ids@,
                keep_s == (|s: Session| !in_groups(s, gone)),
                self.data.groups@ == ng,
                os == old(self).sessions(),
                self.storage == old(self).storage,
                j <= os.len(),
                os.len() <= usize::MAX,
                i == os.take(j as int).filter(keep_s).len(),
                self.data.sessions@ == os.take(j as int).filter(keep_s) + os.skip(j as int),
            decreases os.len() - j,
        {
            proof { os.take(j as int).filter(keep_s).lemma_filter_len(keep_s); }
            assert(self.data.sessions@[i as int] == os[j as int]);
            assert(os.take(j + 1).drop_last() =~= os.take(j as int));
            assert(os.take(j + 1).last() == os[j as int]);
            let in_gone = match self.data.sessions[i].group_id() {
                Some(g) => ids_contain(&ids, g),
                None => false,
            };
            assert(keep_s(os[j as int]) == !in_gone);
            assert(os.take(j + 1).filter(keep_s) == if keep_s(os[j as int]) {
                os.take(j as int).filter(keep_s).push(os[j as int])
            } else {
                os.take(j as int).filter(keep_s)
            }) by {
                reveal(Seq::filter);
            }
            assert(os.skip(j as int) =~= seq![os[j as int]] + os.skip(j + 1));
            if in_gone {
                self.data.sessions.remove(i);
                assert(self.data.sessions@ =~= os.take(j + 1).filter(keep_s) + os.skip(j + 1));
            } else {
                assert(os.take(j + 1).filter(keep_s) =~= os.take(j as int).filter(keep_s).push(os[j as int]));
                assert(self.data.sessions@ =~= os.take(j + 1).filter(keep_s) + os.skip(j + 1));
                i += 1;
            }
            j += 1;
        }
        assert(os.take(os.len() as int) =~= os);
        assert(self.data.sessions@ =~= os.filter(keep_s));
        self.dirty = true;
        Ok(())
    }
}

} // verus!
