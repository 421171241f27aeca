//! Split panes: up to four terminals side by side or stacked, one of them active.
use vstd::prelude::*;

verus! {

/// How panes are laid out.
#[derive(Clone, Copy, Debug, PartialEq, Eq, Structural)]
pub enum SplitOrientation {
    /// Side by side.
    Horizontal,
    /// Stacked.
    Vertical,
}

/// The most panes a container holds.
pub const MAX_PANES: usize = 4;

/// The panes of a container, each holding `T`, the terminal.
pub struct SplitContainer<T> {
    terminals: Vec<T>,
    active_pane: usize,
    orientation: SplitOrientation,
}

impl<T> SplitContainer<T> {
    /// The terminals of the panes, in order.
    pub closed spec fn spec_panes(&self) -> Seq<T> {
        self.terminals@
    }

    /// The index of the active pane.
    pub closed spec fn spec_active(&self) -> usize {
        self.active_pane
    }

    /// The layout.
    pub closed spec fn spec_orientation(&self) -> SplitOrientation {
        self.orientation
    }

    /// One to four panes, the active one among them.
    pub open spec fn well_formed(&self) -> bool {
        &&& 1 <= self.spec_panes().len() <= MAX_PANES
        &&& self.spec_active() < self.spec_panes().len()
    }

    /// A container with one pane, side by side.
    pub fn new(terminal: T) -> (c: Self)
        ensures
            c.spec_panes() == seq![terminal],
            c.spec_active() == 0,
            c.spec_orientation() == SplitOrientation::Horizontal,
            c.well_formed(),
    {
        let mut terminals: Vec<T> = Vec::new();
        terminals.push(terminal);
        SplitContainer { terminals, active_pane: 0, orientation: SplitOrientation::Horizontal }
    }

    /// The number of panes.
    pub fn pane_count(&self) -> (n: usize)
        ensures
            n == self.spec_panes().len(),
    {
        self.terminals.len()
    }

    /// The index of the active pane.
    pub fn active_pane(&self) -> (i: usize)
        ensures
            i == self.spec_active(),
    {
        self.active_pane
    }

    /// The terminal of the active pane.
    pub fn active_terminal(&self) -> (t: Option<&T>)
        ensures
            self.spec_active() < self.spec_panes().len() ==> t == Some(&self.spec_panes()[self.spec_active() as int]),
            self.spec_active() >= self.spec_panes().len() ==> t is None,
    {
        if self.active_pane < self.terminals.len() {
            Some(&self.terminals[self.active_pane])
        } else {
            None
        }
    }

    /// Adds a pane after the active one and makes it active; with four panes nothing
    /// happens.  The second pane sets the layout.
    pub fn split(&mut self, terminal: T, orientation: SplitOrientation)
        requires
            old(self).well_formed(),
        ensures
            final(self).well_formed(),
            old(self).spec_panes().len() >= MAX_PANES ==> final(self).spec_panes() == old(self).spec_panes()
                && final(self).spec_active() == old(self).spec_active()
                && final(self).spec_orientation() == old(self).spec_orientation(),
            old(self).spec_panes().len() < MAX_PANES ==> {
                &&& final(self).spec_panes() == old(self).spec_panes().insert(old(self).spec_active() + 1, terminal)
                &&& final(self).spec_active() == old(self).spec_active() + 1
                &&& final(self).spec_orientation() == if old(self).spec_panes().len() == 1 {
                    orientation
                } else {
                    old(self).spec_orientation()
                }
            },
    {
        if self.terminals.len() >= MAX_PANES {
            return;
        }
        if self.terminals.len() == 1 {
            self.orientation = orientation;
        }
        let insert_idx = self.active_pane + 1;
        self.terminals.insert(insert_idx, terminal);
        self.active_pane = insert_idx;
    }

    /// Adds a pane side by side.
    pub fn split_horizontal(&mut self, terminal: T)
        requires
            old(self).well_formed(),
        ensures
            final(self).well_formed(),
            old(self).spec_panes().len() >= MAX_PANES ==> final(self).spec_panes() == old(self).spec_panes()
                && final(self).spec_active() == old(self).spec_active(),
            old(self).spec_panes().len() < MAX_PANES ==>
                final(self).spec_panes() == old(self).spec_panes().insert(old(self).spec_active() + 1, terminal)
                && final(self).spec_active() == old(self).spec_active() + 1,
    {
        self.split(terminal, SplitOrientation::Horizontal);
    }

    /// Adds a pane below.
    pub fn split_vertical(&mut self, terminal: T)
        requires
            old(self).well_formed(),
        ensures
            final(self).well_formed(),
            old(self).spec_panes().len() >= MAX_PANES ==> final(self).spec_panes() == old(self).spec_panes()
                && final(self).spec_active() == old(self).spec_active(),
            old(self).spec_panes().len() < MAX_PANES ==>
                final(self).spec_panes() == old(self).spec_panes().insert(old(self).spec_active() + 1, terminal)
                && final(self).spec_active() == old(self).spec_active() + 1,
    {
        self.split(terminal, SplitOrientation::Vertical);
    }

    /// Closes the active pane unless it is the last one; returns whether it closed.  The
    /// pane after it becomes active, or the new last pane.
    pub fn close_active_pane(&mut self) -> (closed: bool)
        requires
            old(self).well_formed(),
        ensures
            final(self).well_formed(),
            closed == (old(self).spec_panes().len() > 1),
            !closed ==> final(self).spec_panes() == old(self).spec_panes() && final(self).spec_active() == old(self).spec_active(),
            closed ==> final(self).spec_panes() == old(self).spec_panes().remove(old(self).spec_active() as int)
                && final(self).spec_active() == if old(self).spec_active() >= old(self).spec_panes().len() - 1 {
                    (old(self).spec_panes().len() - 2) as usize
                } else {
                    old(self).spec_active()
                },
            final(self).spec_orientation() == old(self).spec_orientation(),
    {
        if self.terminals.len() <= 1 {
            return false;
        }
        self.terminals.remove(self.active_pane);
        if self.active_pane >= self.terminals.len() {
            self.active_pane = self.terminals.len() - 1;
        }
        true
    }

    /// Makes the next pane active, wrapping around.
    pub fn focus_next_pane(&mut self)
        requires
            old(self).well_formed(),
        ensures
            final(self).well_formed(),
            final(self).spec_panes() == old(self).spec_panes(),
            old(self).spec_panes().len() > 1 ==> final(self).spec_active() == (old(self).spec_active() + 1) % (old(self).spec_panes().len() as int),
            old(self).spec_panes().len() <= 1 ==> final(self).spec_active() == old(self).spec_active(),
    {
        if self.terminals.len() > 1 {
            self.active_pane = (self.active_pane + 1) % self.terminals.len();
        }
    }

    /// Makes the previous pane active, wrapping around.
    pub fn focus_prev_pane(&mut self)
        requires
            old(self).well_formed(),
        ensures
            final(self).well_formed(),
            final(self).spec_panes() == old(self).spec_panes(),
            old(self).spec_panes().len() > 1 ==> final(self).spec_active() == if old(self).spec_active() == 0 {
                (old(self).spec_panes().len() - 1) as usize
            } else {
                (old(self).spec_active() - 1) as usize
            },
            old(self).spec_panes().len() <= 1 ==> final(self).spec_active() == old(self).spec_active(),
    {
        if self.terminals.len() > 1 {
            if self.active_pane == 0 {
                self.active_pane = self.terminals.len() - 1;
            } else {
                self.active_pane -= 1;
            }
        }
    }

    /// Makes pane `index` active when there is one.
    pub fn set_active_pane(&mut self, index: usize)
        requires
            old(self).well_formed(),
        ensures
            final(self).well_formed(),
            final(self).spec_panes() == old(self).spec_panes(),
            index < old(self).spec_panes().len() ==> final(self).spec_active() == index,
            index >= old(self).spec_panes().len() ==> final(self).spec_active() == old(self).spec_active(),
    {
        if index < self.terminals.len() && index != self.active_pane {
            self.active_pane = index;
        }
    }
}

} // verus!
