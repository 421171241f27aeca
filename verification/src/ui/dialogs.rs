//! The confirmation dialogs: what they ask and what they offer.
use vstd::prelude::*;

use crate::ids::Uuid;
use crate::text::{decimal, owned, u64_decimal};

verus! {

/// What a delete dialog is about.
#[derive(Clone, Debug)]
pub enum DeleteTarget {
    Session { id: Uuid, name: String },
    Group { id: Uuid, name: String },
}

/// The delete confirmation dialog: its target, and for a group whether the sessions in it
/// go too.
pub struct DeleteConfirmDialog {
    target: DeleteTarget,
    recursive: bool,
}

impl DeleteConfirmDialog {
    /// The target.
    pub closed spec fn spec_target(&self) -> DeleteTarget {
        self.target
    }

    /// Whether a group is deleted with everything in it.
    pub closed spec fn spec_recursive(&self) -> bool {
        self.recursive
    }

    /// A dialog for a target; a group keeps its sessions unless asked otherwise.
    pub fn new(target: DeleteTarget) -> (d: Self)
        ensures
            d.spec_target() == target,
            !d.spec_recursive(),
    {
        DeleteConfirmDialog { target, recursive: false }
    }

    /// The target.
    pub fn target(&self) -> (t: &DeleteTarget)
        ensures
            *t == self.spec_target(),
    {
        &self.target
    }

    /// Whether a group is deleted with everything in it.
    pub fn recursive(&self) -> (b: bool)
        ensures
            b == self.spec_recursive(),
    {
        self.recursive
    }

    /// Ticks or clears the box that deletes the group's sessions too.
    pub fn toggle_recursive(&mut self)
        ensures
            final(self).spec_recursive() == !old(self).spec_recursive(),
            final(self).spec_target() == old(self).spec_target(),
    {
        self.recursive = !self.recursive;
    }

    /// The window title: `Delete Session` or `Delete Group`.
    pub fn window_title(&self) -> (t: &'static str)
        ensures
            self.spec_target() is Session ==> t@ == "Delete Session"@,
            self.spec_target() is Group ==> t@ == "Delete Group"@,
    {
        match &self.target {
            DeleteTarget::Session { .. } => "Delete Session",
            DeleteTarget::Group { .. } => "Delete Group",
        }
    }

    /// The heading: `Delete Session?` or `Delete Group?`.
    pub fn heading(&self) -> (t: &'static str)
        ensures
            self.spec_target() is Session ==> t@ == "Delete Session?"@,
            self.spec_target() is Group ==> t@ == "Delete Group?"@,
    {
        match &self.target {
            DeleteTarget::Session { .. } => "Delete Session?",
            DeleteTarget::Group { .. } => "Delete Group?",
        }
    }

    /// The question, naming the target.
    pub fn question(&self) -> (q: String)
        ensures
            q@ == "Are you sure you want to delete '"@ + match self.spec_target() {
                DeleteTarget::Session { name, .. } => name@,
                DeleteTarget::Group { name, .. } => name@,
            } + "'?"@,
    {
        let mut q = owned("Are you sure you want to delete '");
        match &self.target {
            DeleteTarget::Session { name, .. } => q.append(name.as_str()),
            DeleteTarget::Group { name, .. } => q.append(name.as_str()),
        }
        q.append("'?");
        q
    }

    /// Whether the dialog offers to delete a group's sessions too: only for a group.
    pub fn offers_recursive(&self) -> (b: bool)
        ensures
            b == (self.spec_target() is Group),
    {
        match &self.target {
            DeleteTarget::Session { .. } => false,
            DeleteTarget::Group { .. } => true,
        }
    }

    /// The note under the box: for a group whose sessions stay, that they become ungrouped.
    pub fn note(&self) -> (n: Option<&'static str>)
        ensures
            (self.spec_target() is Group && !self.spec_recursive()) ==> (n matches Some(t) && t@
                == "Sessions will be moved to ungrouped."@),
            !(self.spec_target() is Group && !self.spec_recursive()) ==> n is None,
    {
        match &self.target {
            DeleteTarget::Group { .. } => if self.recursive {
                None
            } else {
                Some("Sessions will be moved to ungrouped.")
            },
            DeleteTarget::Session { .. } => None,
        }
    }
}

/// How the quit dialog counts open SSH connections.
pub open spec fn connection_count_text(count: nat) -> Seq<char> {
    if count == 1 {
        "1 active SSH connection"@
    } else {
        decimal(count) + " active SSH connections"@
    }
}

/// The quit confirmation dialog, with the number of open SSH connections.
pub struct QuitConfirmDialog {
    ssh_connection_count: usize,
}

impl QuitConfirmDialog {
    /// The number of open SSH connections.
    pub closed spec fn spec_count(&self) -> usize {
        self.ssh_connection_count
    }

    /// A dialog for this many open SSH connections.
    pub fn new(ssh_connection_count: usize) -> (d: Self)
        ensures
            d.spec_count() == ssh_connection_count,
    {
        QuitConfirmDialog { ssh_connection_count }
    }

    /// `1 active SSH connection`, or `N active SSH connections`.
    pub fn connection_text(&self) -> (t: String)
        ensures
            t@ == connection_count_text(self.spec_count() as nat),
    {
        if self.ssh_connection_count == 1 {
            owned("1 active SSH connection")
        } else {
            let mut t = u64_decimal(self.ssh_connection_count as u64);
            t.append(" active SSH connections");
            t
        }
    }

    /// The warning: `You have ... . Quitting will disconnect all sessions.`
    pub fn warning(&self) -> (w: String)
        ensures
            w@ == "You have "@ + connection_count_text(self.spec_count() as nat)
                + ". Quitting will disconnect all sessions."@,
    {
        let mut w = owned("You have ");
        let t = self.connection_text();
        w.append(t.as_str());
        w.append(". Quitting will disconnect all sessions.");
        w
    }
}

} // verus!
