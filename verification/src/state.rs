//! The application's state: the sessions and groups, the open tabs, and whether the
//! session tree shows. The terminals in the tabs are whatever the program runs.
use vstd::prelude::*;

use crate::ids::Uuid;
use crate::session::hierarchy::{sessions_of_groups, subtree_ids};
use crate::session::manager::{manager_error_text, ManagerError, SessionManager};
use crate::session::models::{
    group_pos, groups_with_parent, lemma_group_pos, lemma_session_pos, session_pos, sessions_with_group,
    Session, SessionGroup,
};
use crate::text::trim;
use crate::ui::forms::{
    build_ssh_session, describes_ssh_session, error_texts, session_form_errors, validate_group_name,
    validate_session_form, GroupForm, SessionForm,
};
use crate::ui::tabs::{after_closing_all, session_tab_ids, TabList};

verus! {

/// The application's state.
pub struct RedPillApp<T> {
    pub session_manager: SessionManager,
    pub tabs: TabList<T>,
    pub session_tree_visible: bool,
}

/// Whether `g` is the group a form describes, with id `id`.
pub open spec fn describes(f: GroupForm, g: SessionGroup, id: Uuid) -> bool {
    &&& g.id == id
    &&& g.name@ == f.name@
    &&& g.parent_id == f.parent_id
    &&& match (g.color, f.color) {
        (Some(a), Some(b)) => a@ == b@,
        (None, None) => true,
        _ => false,
    }
}

/// The message of a failed operation, as the interface shows it.
pub open spec fn error_message(e: ManagerError) -> Seq<char> {
    manager_error_text(e)
}

impl<T> RedPillApp<T> {
    /// An application over a session manager, with no tab open and the tree showing.
    pub fn new(session_manager: SessionManager) -> (a: Self)
        ensures
            a.session_manager == session_manager,
            a.tabs.spec_tabs().len() == 0,
            a.tabs.spec_active() is None,
            a.session_tree_visible,
    {
        RedPillApp { session_manager, tabs: TabList::new(), session_tree_visible: true }
    }

    /// Shows or hides the session tree.
    pub fn toggle_session_tree(&mut self)
        ensures
            final(self).session_tree_visible == !old(self).session_tree_visible,
            final(self).session_manager == old(self).session_manager,
            final(self).tabs == old(self).tabs,
    {
        self.session_tree_visible = !self.session_tree_visible;
    }

    /// Adds a group with a fresh id, inside `parent_id` when one is given; returns its id.
    pub fn add_group(&mut self, name: String, parent_id: Option<Uuid>) -> (id: Uuid)
        ensures
            final(self).session_manager.groups().len() == old(self).session_manager.groups().len() + 1,
            final(self).session_manager.groups().drop_last() == old(self).session_manager.groups(),
            ({
                let g = final(self).session_manager.groups().last();
                &&& g.id == id
                &&& g.name == name
                &&& g.parent_id == parent_id
                &&& g.color is None
            }),
            final(self).session_manager.sessions() == old(self).session_manager.sessions(),
            final(self).session_manager.dirty(),
            final(self).tabs == old(self).tabs,
            final(self).session_tree_visible == old(self).session_tree_visible,
    {
        let group = match parent_id {
            Some(pid) => SessionGroup::new_nested(name, pid),
            None => SessionGroup::new(name),
        };
        let id = self.session_manager.add_group(group);
        proof {
            assert(self.session_manager.groups().drop_last() =~= old(self).session_manager.groups());
        }
        id
    }

    /// Deletes a session: its tabs close first, one after another, then the session goes.
    /// A session that does not exist is an error with the manager's message.
    pub fn delete_session(&mut self, id: Uuid) -> (r: Result<(), String>)
        ensures
            (final(self).tabs.spec_tabs(), final(self).tabs.spec_active()) == after_closing_all(
                old(self).tabs.spec_tabs(),
                old(self).tabs.spec_active(),
                session_tab_ids(old(self).tabs.spec_tabs(), id),
            ),
            old(self).tabs.well_formed() ==> final(self).tabs.well_formed(),
            session_pos(old(self).session_manager.sessions(), id) >= 0 ==> r is Ok
                && final(self).session_manager.sessions() == old(self).session_manager.sessions().remove(
                session_pos(old(self).session_manager.sessions(), id),
            ),
            session_pos(old(self).session_manager.sessions(), id) < 0 ==> (r matches Err(m) && m@
                == error_message(ManagerError::SessionNotFound(id)))
                && final(self).session_manager.sessions() == old(self).session_manager.sessions(),
            final(self).session_manager.groups() == old(self).session_manager.groups(),
            final(self).session_tree_visible == old(self).session_tree_visible,
    {
        self.tabs.close_session_tabs(id);
        match self.session_manager.delete_session(id) {
            Ok(_) => Ok(()),
            Err(e) => Err(e.message()),
        }
    }

    /// Deletes a group: with `recursive`, together with the groups below it and every
    /// session in any of them; otherwise only an empty group, as the manager allows.
    pub fn delete_group(&mut self, id: Uuid, recursive: bool) -> (r: Result<(), String>)
        ensures
            final(self).tabs == old(self).tabs,
            final(self).session_tree_visible == old(self).session_tree_visible,
            recursive ==> r is Ok && final(self).session_manager.groups() == old(self).session_manager.groups().filter(
                |g: SessionGroup|
                    !subtree_ids(
                        old(self).session_manager.groups(),
                        id,
                        old(self).session_manager.groups().len() + 1,
                    ).contains(g.id),
            ),
            !recursive ==> ({
                let gs = old(self).session_manager.groups();
                let ss = old(self).session_manager.sessions();
                let p = group_pos(gs, id);
                &&& (groups_with_parent(gs, Some(id)).len() > 0 || sessions_with_group(ss, Some(id)).len() > 0)
                    ==> (r matches Err(m) && m@ == error_message(ManagerError::GroupHasChildren))
                    && final(self).session_manager.groups() == gs
                &&& (groups_with_parent(gs, Some(id)).len() == 0 && sessions_with_group(ss, Some(id)).len() == 0
                    && p < 0) ==> (r matches Err(m) && m@ == error_message(ManagerError::GroupNotFound(id)))
                    && final(self).session_manager.groups() == gs
                &&& (groups_with_parent(gs, Some(id)).len() == 0 && sessions_with_group(ss, Some(id)).len() == 0
                    && p >= 0) ==> r is Ok && final(self).session_manager.groups() == gs.remove(p)
                &&& final(self).session_manager.sessions() == ss
            }),
    {
        if recursive {
            match self.session_manager.delete_group_recursive(id) {
                Ok(()) => Ok(()),
                Err(e) => Err(e.message()),
            }
        } else {
            match self.session_manager.delete_group(id) {
                Ok(_) => Ok(()),
                Err(e) => Err(e.message()),
            }
        }
    }

    /// Saves the group dialog: without a name (white space alone) nothing changes and the
    /// errors come back; else the group replaces the edited one, or is added as a new one,
    /// and its id comes back. Replacing a group that no longer exists changes nothing.
    pub fn save_group(&mut self, form: &GroupForm) -> (r: Result<Uuid, Vec<String>>)
        ensures
            final(self).tabs == old(self).tabs,
            final(self).session_tree_visible == old(self).session_tree_visible,
            final(self).session_manager.sessions() == old(self).session_manager.sessions(),
            trim(form.name@).len() == 0 ==> (r matches Err(errors) && error_texts(errors@) == seq![
                "Name is required"@,
            ]) && final(self).session_manager.groups() == old(self).session_manager.groups(),
            trim(form.name@).len() > 0 ==> r is Ok,
            trim(form.name@).len() > 0 && form.group_id is None ==> ({
                let gs = final(self).session_manager.groups();
                &&& gs.len() == old(self).session_manager.groups().len() + 1
                &&& gs.drop_last() == old(self).session_manager.groups()
                &&& r matches Ok(id) && describes(*form, gs.last(), id)
            }),
            trim(form.name@).len() > 0 && form.group_id is Some ==> ({
                let id = form.group_id->0;
                let p = group_pos(old(self).session_manager.groups(), id);
                &&& r == Ok::<Uuid, Vec<String>>(id)
                &&& p < 0 ==> final(self).session_manager.groups() == old(self).session_manager.groups()
                &&& p >= 0 ==> final(self).session_manager.groups().len() == old(self).session_manager.groups().len() && describes(*form, final(self).session_manager.groups()[p], id)
                    && forall|i: int|
                    0 <= i < old(self).session_manager.groups().len() && i != p
                        ==> #[trigger] final(self).session_manager.groups()[i] == old(self).session_manager.groups()[i]
            }),
    {
        let errors = validate_group_name(form.name.as_str());
        assert(error_texts(errors@).len() == errors@.len());
        if errors.len() > 0 {
            return Err(errors);
        }
        let g = form.build();
        let id = g.id;
        match form.group_id {
            Some(gid) => {
                let _ = self.session_manager.update_group(gid, g);
                proof {
                    lemma_group_pos(old(self).session_manager.groups(), gid);
                }
            },
            None => {
                self.session_manager.add_group(g);
                proof {
                    assert(self.session_manager.groups().drop_last() =~= old(self).session_manager.groups());
                }
            },
        }
        Ok(id)
    }

    /// Saves the SSH session dialog: with errors nothing changes and they come back; else
    /// the session replaces the edited one, or is added as a new one, and its id comes
    /// back. Replacing a session that no longer exists changes nothing.
    pub fn save_ssh_session(&mut self, form: &SessionForm) -> (r: Result<Uuid, Vec<String>>)
        ensures
            final(self).tabs == old(self).tabs,
            final(self).session_tree_visible == old(self).session_tree_visible,
            final(self).session_manager.groups() == old(self).session_manager.groups(),
            session_form_errors(*form).len() > 0 ==> (r matches Err(errors) && error_texts(errors@)
                == session_form_errors(*form)) && final(self).session_manager.sessions() == old(
                self).session_manager.sessions(),
            session_form_errors(*form).len() == 0 ==> r is Ok,
            session_form_errors(*form).len() == 0 && form.session_id is None ==> ({
                let ss = final(self).session_manager.sessions();
                &&& ss.len() == old(self).session_manager.sessions().len() + 1
                &&& ss.drop_last() == old(self).session_manager.sessions()
                &&& r matches Ok(id) && ss.last() matches Session::Ssh(s) && s.id == id
                    && describes_ssh_session(*form, s)
            }),
            session_form_errors(*form).len() == 0 && form.session_id is Some ==> ({
                let id = form.session_id->0;
                let p = session_pos(old(self).session_manager.sessions(), id);
                let ss = final(self).session_manager.sessions();
                &&& r == Ok::<Uuid, Vec<String>>(id)
                &&& p < 0 ==> ss == old(self).session_manager.sessions()
                &&& p >= 0 ==> ss.len() == old(self).session_manager.sessions().len() && (ss[p] matches Session::Ssh(
                    s,
                ) && s.id == id && describes_ssh_session(*form, s)) && forall|i: int|
                    0 <= i < ss.len() && i != p ==> #[trigger] ss[i] == old(self).session_manager.sessions()[i]
            }),
    {
        let errors = validate_session_form(form);
        assert(error_texts(errors@).len() == errors@.len());
        if errors.len() > 0 {
            return Err(errors);
        }
        let s = build_ssh_session(form);
        let id = s.id;
        match form.session_id {
            Some(sid) => {
                let _ = self.session_manager.update_ssh_session(sid, s);
                proof {
                    lemma_session_pos(old(self).session_manager.sessions(), sid);
                }
            },
            None => {
                self.session_manager.add_ssh_session(s);
                proof {
                    assert(self.session_manager.sessions().drop_last() =~= old(self).session_manager.sessions());
                }
            },
        }
        Ok(id)
    }

    /// The sessions a mass connect opens, in order: those of the group and of every group
    /// below it.
    pub fn mass_connect_sessions(&self, group_id: Uuid) -> (r: Vec<Uuid>)
        ensures
            r@ == sessions_of_groups(
                self.session_manager.sessions(),
                subtree_ids(self.session_manager.groups(), group_id, self.session_manager.groups().len() + 1),
            ),
    {
        self.session_manager.get_all_sessions_in_group_recursive(group_id)
    }
}

} // verus!
