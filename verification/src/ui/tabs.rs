//! Terminal tabs: the application's list of open tabs with the active one, and the tab
//! bar's view of them with its bulk-closing actions.
use vstd::prelude::*;

use crate::ids::{new_id, Uuid};
use crate::text::owned;

verus! {

/// An open terminal tab holding `T`, the terminal.
pub struct TerminalTab<T> {
    pub id: Uuid,
    /// The session the tab was opened for, if any.
    pub session_id: Option<Uuid>,
    pub terminal: T,
    pub title: String,
    pub dirty: bool,
}

impl<T> TerminalTab<T> {
    /// A clean tab with a fresh id.
    pub fn new(terminal: T, session_id: Option<Uuid>, title: String) -> (t: Self)
        ensures
            t.terminal == terminal,
            t.session_id == session_id,
            t.title == title,
            !t.dirty,
    {
        TerminalTab { id: new_id(), session_id, terminal, title, dirty: false }
    }
}

/// The ids of a list of tabs.
pub open spec fn tab_ids<T>(tabs: Seq<TerminalTab<T>>) -> Seq<Uuid> {
    tabs.map_values(|t: TerminalTab<T>| t.id)
}

/// The first index with id `id`, or -1.
pub open spec fn id_pos(ids: Seq<Uuid>, id: Uuid) -> int
    decreases ids.len(),
{
    if ids.len() == 0 {
        -1
    } else if ids[0] == id {
        0
    } else if id_pos(ids.drop_first(), id) < 0 {
        -1
    } else {
        id_pos(ids.drop_first(), id) + 1
    }
}

/// What the position of an id says: the first occurrence, or none.
pub proof fn lemma_id_pos(ids: Seq<Uuid>, id: Uuid)
    ensures
        -1 <= id_pos(ids, id) < ids.len(),
        id_pos(ids, id) >= 0 ==> ids[id_pos(ids, id)] == id
            && forall|j: int| 0 <= j < id_pos(ids, id) ==> ids[j] != id,
        id_pos(ids, id) < 0 ==> forall|j: int| 0 <= j < ids.len() ==> ids[j] != id,
    decreases ids.len(),
{
    if ids.len() > 0 && ids[0] != id {
        lemma_id_pos(ids.drop_first(), id);
        assert forall|j: int| 0 < j < ids.len() implies ids[j] == ids.drop_first()[j - 1] by {}
    }
}

/// The active index after the tab at `index` of `len` tabs is closed: none when no tab
/// is left; the last tab when the active index is past the end; one less when it was
/// after the closed tab; else unchanged.
pub open spec fn active_after_close(active: Option<usize>, index: int, len: int) -> Option<usize> {
    if len - 1 == 0 {
        None
    } else {
        match active {
            Some(a) => if a >= len - 1 {
                Some((len - 2) as usize)
            } else if a > index {
                Some((a - 1) as usize)
            } else {
                Some(a)
            },
            None => None,
        }
    }
}

/// Law: closing a tab other than the active one leaves the same tab active: after the
/// tab at `p` is removed, the active index still points at the tab that was active.
pub proof fn lemma_close_keeps_active_tab<T>(tabs: Seq<TerminalTab<T>>, a: usize, p: int)
    requires
        0 <= p < tabs.len(),
        a < tabs.len(),
        p != a,
    ensures
        active_after_close(Some(a), p, tabs.len() as int) matches Some(b)
            && b < tabs.remove(p).len() && tabs.remove(p)[b as int] == tabs[a as int],
{
}

/// Law: closing the active tab makes the tab that followed it active, or, when it was the
/// last, the tab before it; closing the only tab leaves no active tab.
pub proof fn lemma_close_active_tab<T>(tabs: Seq<TerminalTab<T>>, a: usize)
    requires
        a < tabs.len(),
    ensures
        tabs.len() == 1 ==> active_after_close(Some(a), a as int, 1) is None,
        tabs.len() > 1 && a + 1 < tabs.len() ==> (active_after_close(Some(a), a as int, tabs.len() as int)
            matches Some(b) && tabs.remove(a as int)[b as int] == tabs[a + 1]),
        tabs.len() > 1 && a + 1 == tabs.len() ==> (active_after_close(Some(a), a as int, tabs.len() as int)
            matches Some(b) && tabs.remove(a as int)[b as int] == tabs[a - 1]),
{
}

/// The tabs and active index after the first tab with id `id` is closed, if there is one.
pub open spec fn after_close<T>(tabs: Seq<TerminalTab<T>>, active: Option<usize>, id: Uuid) -> (
    Seq<TerminalTab<T>>,
    Option<usize>,
) {
    let p = id_pos(tab_ids(tabs), id);
    if p < 0 {
        (tabs, active)
    } else {
        (tabs.remove(p), active_after_close(active, p, tabs.len() as int))
    }
}

/// The tabs and active index after the tabs with the ids are closed one after another.
pub open spec fn after_closing_all<T>(tabs: Seq<TerminalTab<T>>, active: Option<usize>, ids: Seq<Uuid>) -> (
    Seq<TerminalTab<T>>,
    Option<usize>,
)
    decreases ids.len(),
{
    if ids.len() == 0 {
        (tabs, active)
    } else {
        let r = after_closing_all(tabs, active, ids.drop_last());
        after_close(r.0, r.1, ids.last())
    }
}

/// The ids of the tabs of a session, in order.
pub open spec fn session_tab_ids<T>(tabs: Seq<TerminalTab<T>>, session_id: Uuid) -> Seq<Uuid>
    decreases tabs.len(),
{
    if tabs.len() == 0 {
        seq![]
    } else if tabs.last().session_id == Some(session_id) {
        session_tab_ids(tabs.drop_last(), session_id).push(tabs.last().id)
    } else {
        session_tab_ids(tabs.drop_last(), session_id)
    }
}

/// The open tabs and which one is active.
pub struct TabList<T> {
    tabs: Vec<TerminalTab<T>>,
    active_tab: Option<usize>,
}

impl<T> TabList<T> {
    /// The tabs, in order.
    pub closed spec fn spec_tabs(&self) -> Seq<TerminalTab<T>> {
        self.tabs@
    }

    /// The index of the active tab.
    pub closed spec fn spec_active(&self) -> Option<usize> {
        self.active_tab
    }

    /// The active index, if any, points at a tab.
    pub open spec fn well_formed(&self) -> bool {
        self.spec_active() matches Some(a) ==> a < self.spec_tabs().len()
    }

    /// No tabs.
    pub fn new() -> (l: Self)
        ensures
            l.spec_tabs().len() == 0,
            l.spec_active() is None,
            l.well_formed(),
    {
        TabList { tabs: Vec::new(), active_tab: None }
    }

    /// Adds a tab at the end and makes it active; returns its id.
    pub fn open(&mut self, tab: TerminalTab<T>) -> (id: Uuid)
        requires
            old(self).spec_tabs().len() < usize::MAX,
        ensures
            id == tab.id,
            final(self).spec_tabs() == old(self).spec_tabs().push(tab),
            final(self).spec_active() == Some(old(self).spec_tabs().len() as usize),
            final(self).well_formed(),
    {
        let id = tab.id;
        self.tabs.push(tab);
        self.active_tab = Some(self.tabs.len() - 1);
        id
    }

    /// The tabs.
    pub fn tabs(&self) -> (r: &[TerminalTab<T>])
        ensures
            r@ == self.spec_tabs(),
    {
        self.tabs.as_slice()
    }

    /// The index of the active tab.
    pub fn active_index(&self) -> (a: Option<usize>)
        ensures
            a == self.spec_active(),
    {
        self.active_tab
    }

    fn index_of(&self, tab_id: Uuid) -> (r: Option<usize>)
        ensures
            match r {
                Some(i) => i < self.spec_tabs().len() && i as int == id_pos(tab_ids(self.spec_tabs()), tab_id),
                None => id_pos(tab_ids(self.spec_tabs()), tab_id) < 0,
            },
    {
        let ghost ids = tab_ids(self.tabs@);
        proof { lemma_id_pos(ids, tab_id); }
        let mut i: usize = 0;
        while i < self.tabs.len()
            invariant
                i <= self.tabs.len(),
                ids == tab_ids(self.tabs@),
                forall|j: int| 0 <= j < i ==> ids[j] != tab_id,
                -1 <= id_pos(ids, tab_id) < ids.len(),
                id_pos(ids, tab_id) >= 0 ==> ids[id_pos(ids, tab_id)] == tab_id
                    && forall|j: int| 0 <= j < id_pos(ids, tab_id) ==> ids[j] != tab_id,
                id_pos(ids, tab_id) < 0 ==> forall|j: int| 0 <= j < ids.len() ==> ids[j] != tab_id,
            decreases self.tabs.len() - i,
        {
            assert(ids[i as int] == self.tabs@[i as int].id);
            if self.tabs[i].id == tab_id {
                return Some(i);
            }
            i += 1;
        }
        None
    }

    /// Closes the first tab with id `tab_id`, keeping the active index on a tab: the
    /// tabs after it move down by one; without such a tab nothing changes.
    pub fn close_tab(&mut self, tab_id: Uuid)
        ensures
            id_pos(tab_ids(old(self).spec_tabs()), tab_id) < 0 ==> final(self).spec_tabs() == old(self).spec_tabs()
                && final(self).spec_active() == old(self).spec_active(),
            id_pos(tab_ids(old(self).spec_tabs()), tab_id) >= 0 ==> {
                let p = id_pos(tab_ids(old(self).spec_tabs()), tab_id);
                &&& final(self).spec_tabs() == old(self).spec_tabs().remove(p)
                &&& final(self).spec_active() == active_after_close(old(self).spec_active(), p, old(self).spec_tabs().len() as int)
            },
            id_pos(tab_ids(old(self).spec_tabs()), tab_id) >= 0 || old(self).well_formed() ==> final(self).well_formed(),
    {
        match self.index_of(tab_id) {
            Some(index) => {
                self.tabs.remove(index);
                if self.tabs.len() == 0 {
                    self.active_tab = None;
                } else {
                    match self.active_tab {
                        Some(active) => {
                            if active >= self.tabs.len() {
                                self.active_tab = Some(self.tabs.len() - 1);
                            } else if active > index {
                                self.active_tab = Some(active - 1);
                            }
                        },
                        None => {},
                    }
                }
            },
            None => {},
        }
    }

    /// Closes the tabs of a session, one after another by id, as deleting the session does.
    pub fn close_session_tabs(&mut self, session_id: Uuid)
        ensures
            (final(self).spec_tabs(), final(self).spec_active()) == after_closing_all(
                old(self).spec_tabs(),
                old(self).spec_active(),
                session_tab_ids(old(self).spec_tabs(), session_id),
            ),
            old(self).well_formed() ==> final(self).well_formed(),
    {
        let mut ids: Vec<Uuid> = Vec::new();
        let mut i: usize = 0;
        while i < self.tabs.len()
            invariant
                i <= self.tabs@.len(),
                self.tabs@ == old(self).tabs@,
                ids@ == session_tab_ids(self.tabs@.take(i as int), session_id),
            decreases self.tabs.len() - i,
        {
            assert(self.tabs@.take(i + 1).drop_last() =~= self.tabs@.take(i as int));
            match self.tabs[i].session_id {
                Some(s) => {
                    if s == session_id {
                        ids.push(self.tabs[i].id);
                    }
                },
                None => {},
            }
            i += 1;
        }
        assert(self.tabs@.take(self.tabs@.len() as int) =~= self.tabs@);
        let mut k: usize = 0;
        while k < ids.len()
            invariant
                k <= ids@.len(),
                ids@ == session_tab_ids(old(self).spec_tabs(), session_id),
                (self.spec_tabs(), self.spec_active()) == after_closing_all(
                    old(self).spec_tabs(),
                    old(self).spec_active(),
                    ids@.take(k as int),
                ),
                old(self).well_formed() ==> self.well_formed(),
            decreases ids.len() - k,
        {
            assert(ids@.take(k + 1).drop_last() =~= ids@.take(k as int));
            self.close_tab(ids[k]);
            k += 1;
        }
        assert(ids@.take(ids@.len() as int) =~= ids@);
    }

    /// The active tab.
    pub fn active_tab(&self) -> (r: Option<&TerminalTab<T>>)
        ensures
            match self.spec_active() {
                Some(a) => if a < self.spec_tabs().len() {
                    r == Some(&self.spec_tabs()[a as int])
                } else {
                    r is None
                },
                None => r is None,
            },
    {
        match self.active_tab {
            Some(a) => if a < self.tabs.len() {
                Some(&self.tabs[a])
            } else {
                None
            },
            None => None,
        }
    }

    /// Makes the tab at `index` active, when there is one.
    pub fn set_active_tab(&mut self, index: usize)
        ensures
            final(self).spec_tabs() == old(self).spec_tabs(),
            index < old(self).spec_tabs().len() ==> final(self).spec_active() == Some(index),
            index >= old(self).spec_tabs().len() ==> final(self).spec_active() == old(self).spec_active(),
            old(self).well_formed() ==> final(self).well_formed(),
    {
        if index < self.tabs.len() {
            self.active_tab = Some(index);
        }
    }

    /// Makes the first tab with id `tab_id` active, when there is one.
    pub fn set_active_tab_by_id(&mut self, tab_id: Uuid)
        ensures
            final(self).spec_tabs() == old(self).spec_tabs(),
            id_pos(tab_ids(old(self).spec_tabs()), tab_id) >= 0
                ==> final(self).spec_active() == Some(id_pos(tab_ids(old(self).spec_tabs()), tab_id) as usize),
            id_pos(tab_ids(old(self).spec_tabs()), tab_id) < 0 ==> final(self).spec_active() == old(self).spec_active(),
            old(self).well_formed() ==> final(self).well_formed(),
    {
        match self.index_of(tab_id) {
            Some(i) => {
                self.active_tab = Some(i);
            },
            None => {},
        }
    }

    /// The first tab with id `tab_id`.
    pub fn get_tab(&self, tab_id: Uuid) -> (r: Option<&TerminalTab<T>>)
        ensures
            id_pos(tab_ids(self.spec_tabs()), tab_id) >= 0
                ==> r == Some(&self.spec_tabs()[id_pos(tab_ids(self.spec_tabs()), tab_id)]),
            id_pos(tab_ids(self.spec_tabs()), tab_id) < 0 ==> r is None,
    {
        match self.index_of(tab_id) {
            Some(i) => Some(&self.tabs[i]),
            None => None,
        }
    }
}

/// The tab bar's view of a tab.
#[derive(Clone, Debug)]
pub struct TabInfo {
    pub id: Uuid,
    pub title: String,
    pub dirty: bool,
}

/// The ids of the tab bar's tabs.
pub open spec fn info_ids(tabs: Seq<TabInfo>) -> Seq<Uuid> {
    tabs.map_values(|t: TabInfo| t.id)
}

/// Whether an id is not `id`.
pub open spec fn other_than(id: Uuid) -> spec_fn(Uuid) -> bool {
    |x: Uuid| x != id
}

/// Whether an id is `id`.
pub open spec fn only(id: Uuid) -> spec_fn(Uuid) -> bool {
    |x: Uuid| x == id
}

/// The tab the context menu was opened on, and how many tabs there were.
#[derive(Clone, Copy, Debug)]
pub struct TabContextMenuState {
    pub tab_id: Uuid,
    pub tab_index: usize,
    pub tab_count: usize,
}

/// The tab bar: its tabs, the active tab and an open context menu.
pub struct TerminalTabs {
    tabs: Vec<TabInfo>,
    active_tab: Option<Uuid>,
    context_menu: Option<TabContextMenuState>,
}

impl TerminalTabs {
    /// The ids of the tabs shown.
    pub closed spec fn spec_ids(&self) -> Seq<Uuid> {
        info_ids(self.tabs@)
    }

    pub closed spec fn spec_active(&self) -> Option<Uuid> {
        self.active_tab
    }

    /// The open context menu, if any.
    pub closed spec fn spec_menu(&self) -> Option<TabContextMenuState> {
        self.context_menu
    }

    /// A tab bar showing `tabs`.
    pub fn new(tabs: Vec<TabInfo>, active_tab: Option<Uuid>) -> (b: Self)
        ensures
            b.spec_ids() == info_ids(tabs@),
            b.spec_active() == active_tab,
            b.spec_menu() is None,
    {
        TerminalTabs { tabs, active_tab, context_menu: None }
    }

    /// Shows other tabs.
    pub fn set_tabs(&mut self, tabs: Vec<TabInfo>)
        ensures
            final(self).spec_ids() == info_ids(tabs@),
            final(self).spec_active() == old(self).spec_active(),
            final(self).spec_menu() == old(self).spec_menu(),
    {
        self.tabs = tabs;
    }

    /// Marks a tab active.
    pub fn set_active_tab(&mut self, tab_id: Option<Uuid>)
        ensures
            final(self).spec_ids() == old(self).spec_ids(),
            final(self).spec_active() == tab_id,
            final(self).spec_menu() == old(self).spec_menu(),
    {
        self.active_tab = tab_id;
    }

    /// The open context menu.
    pub fn context_menu_state(&self) -> (m: Option<TabContextMenuState>)
        ensures
            m == self.spec_menu(),
    {
        self.context_menu
    }

    /// Opens the context menu on the tab `tab_id` at `tab_index`.
    pub fn show_context_menu(&mut self, tab_id: Uuid, tab_index: usize)
        ensures
            final(self).spec_menu() == Some(TabContextMenuState { tab_id, tab_index, tab_count: old(self).spec_ids().len() as usize }),
            final(self).spec_ids() == old(self).spec_ids(),
            final(self).spec_active() == old(self).spec_active(),
    {
        let tab_count = self.tabs.len();
        self.context_menu = Some(TabContextMenuState { tab_id, tab_index, tab_count });
    }

    /// Closes the context menu.
    pub fn dismiss_context_menu(&mut self)
        ensures
            final(self).spec_menu() is None,
            final(self).spec_ids() == old(self).spec_ids(),
            final(self).spec_active() == old(self).spec_active(),
    {
        self.context_menu = None;
    }

    /// Removes the tab `tab_id` from the bar; when it was active, the first remaining tab
    /// becomes active.
    pub fn remove_tab(&mut self, tab_id: Uuid)
        ensures
            final(self).spec_ids() == old(self).spec_ids().filter(other_than(tab_id)),
            old(self).spec_active() == Some(tab_id) ==> final(self).spec_active() == (if final(self).spec_ids().len() > 0 {
                Some(final(self).spec_ids()[0])
            } else {
                None
            }),
            old(self).spec_active() != Some(tab_id) ==> final(self).spec_active() == old(self).spec_active(),
            final(self).spec_menu() == old(self).spec_menu(),
    {
        self.retain_tabs(tab_id, false);
        if self.active_tab == Some(tab_id) {
            self.active_tab = if self.tabs.len() > 0 { Some(self.tabs[0].id) } else { None };
        }
    }

    /// Keeps the tabs with id `tab_id` (`keep_matching`) or those with another id.
    fn retain_tabs(&mut self, tab_id: Uuid, keep_matching: bool)
        ensures
            final(self).spec_ids() == old(self).spec_ids().filter(if keep_matching { only(tab_id) } else { other_than(tab_id) }),
            final(self).spec_active() == old(self).spec_active(),
            final(self).spec_menu() == old(self).spec_menu(),
    {
        let ghost og = info_ids(self.tabs@);
        let ghost keep = if keep_matching { only(tab_id) } else { other_than(tab_id) };
        let mut i: usize = 0;
        let mut j: usize = 0;
        let n = self.tabs.len();
        assert(og.take(0).filter(keep) =~= Seq::<Uuid>::empty()) by {
            reveal(Seq::filter);
        }
        assert(og.skip(0) =~= og);
        while j < n
            invariant
                n == og.len(),
                keep == (if keep_matching { only(tab_id) } else { other_than(tab_id) }),
                j <= n,
                i == og.take(j as int).filter(keep).len(),
                info_ids(self.tabs@) == og.take(j as int).filter(keep) + og.skip(j as int),
                self.active_tab == old(self).active_tab,
                self.context_menu == old(self).context_menu,
            decreases n - j,
        {
            proof { og.take(j as int).filter(keep).lemma_filter_len(keep); }
            assert(info_ids(self.tabs@)[i as int] == og[j as int]);
            assert(og.take(j + 1).drop_last() =~= og.take(j as int));
            assert(og.take(j + 1).filter(keep) == if keep(og[j as int]) {
                og.take(j as int).filter(keep).push(og[j as int])
            } else {
                og.take(j as int).filter(keep)
            }) by {
                reveal(Seq::filter);
            }
            assert(og.skip(j as int) =~= seq![og[j as int]] + og.skip(j + 1));
            assert(self.tabs@.len() == info_ids(self.tabs@).len());
            let ghost before = self.tabs@;
            let id = self.tabs[i].id;
            let kept = if keep_matching { id == tab_id } else { id != tab_id };
            assert(id == og[j as int]);
            assert(kept == keep(og[j as int]));
            if kept {
                assert(info_ids(self.tabs@) =~= og.take(j + 1).filter(keep) + og.skip(j + 1));
                i += 1;
            } else {
                self.tabs.remove(i);
                assert(info_ids(self.tabs@) =~= info_ids(before).remove(i as int));
                assert(info_ids(self.tabs@) =~= og.take(j + 1).filter(keep) + og.skip(j + 1));
            }
            j += 1;
        }
        assert(og.take(n as int) =~= og);
        assert(info_ids(self.tabs@) =~= og.filter(keep));
    }

    /// Closes every tab but `keep_id`, which becomes active; returns the ids of the
    /// closed tabs, in order.
    pub fn close_other_tabs(&mut self, keep_id: Uuid) -> (closed: Vec<Uuid>)
        ensures
            closed@ == old(self).spec_ids().filter(other_than(keep_id)),
            final(self).spec_ids() == old(self).spec_ids().filter(only(keep_id)),
            final(self).spec_active() == Some(keep_id),
            final(self).spec_menu() is None,
    {
        let mut closed: Vec<Uuid> = Vec::new();
        let ghost og = info_ids(self.tabs@);
        let ghost keep = other_than(keep_id);
        let mut k: usize = 0;
        assert(og.take(0).filter(keep) =~= Seq::<Uuid>::empty()) by {
            reveal(Seq::filter);
        }
        while k < self.tabs.len()
            invariant
                k <= self.tabs.len(),
                og == info_ids(self.tabs@),
                keep == other_than(keep_id),
                closed@ == og.take(k as int).filter(keep),
            decreases self.tabs.len() - k,
        {
            assert(og.take(k + 1).drop_last() =~= og.take(k as int));
            assert(og[k as int] == self.tabs@[k as int].id);
            assert(og.take(k + 1).filter(keep) == if keep(og[k as int]) {
                og.take(k as int).filter(keep).push(og[k as int])
            } else {
                og.take(k as int).filter(keep)
            }) by {
                reveal(Seq::filter);
            }
            if self.tabs[k].id != keep_id {
                closed.push(self.tabs[k].id);
            }
            k += 1;
        }
        assert(og.take(self.tabs.len() as int) =~= og);
        self.retain_tabs(keep_id, true);
        self.active_tab = Some(keep_id);
        self.context_menu = None;
        closed
    }

    /// Closes the tabs after index `from_index`; returns their ids.  When the active tab
    /// was closed, the last remaining tab becomes active.
    pub fn close_tabs_to_right(&mut self, from_index: usize) -> (closed: Vec<Uuid>)
        ensures
            ({
                let keep_n = if from_index < old(self).spec_ids().len() { from_index + 1 } else { old(self).spec_ids().len() as int };
                &&& closed@ == old(self).spec_ids().skip(keep_n)
                &&& final(self).spec_ids() == old(self).spec_ids().take(keep_n)
            }),
            (old(self).spec_active() matches Some(a) && !final(self).spec_ids().contains(a))
                ==> final(self).spec_active() == (if final(self).spec_ids().len() > 0 {
                    Some(final(self).spec_ids().last())
                } else {
                    None
                }),
            !(old(self).spec_active() matches Some(a) && !final(self).spec_ids().contains(a))
                ==> final(self).spec_active() == old(self).spec_active(),
            final(self).spec_menu() is None,
    {
        let n = self.tabs.len();
        let keep_n = if from_index < n { from_index + 1 } else { n };
        let ghost og = info_ids(self.tabs@);
        let mut closed: Vec<Uuid> = Vec::new();
        let mut k: usize = keep_n;
        while k < n
            invariant
                keep_n <= k <= n,
                n == self.tabs.len(),
                og == info_ids(self.tabs@),
                closed@ == og.subrange(keep_n as int, k as int),
            decreases n - k,
        {
            closed.push(self.tabs[k].id);
            assert(og.subrange(keep_n as int, k + 1) =~= og.subrange(keep_n as int, k as int).push(og[k as int]));
            k += 1;
        }
        self.tabs.truncate(keep_n);
        assert(info_ids(self.tabs@) =~= og.take(keep_n as int));
        assert(closed@ =~= og.skip(keep_n as int));
        self.settle_active_last();
        self.context_menu = None;
        closed
    }

    fn contains_id(&self, id: Uuid) -> (b: bool)
        ensures
            b == self.spec_ids().contains(id),
    {
        let mut i: usize = 0;
        while i < self.tabs.len()
            invariant
                i <= self.tabs.len(),
                forall|j: int| 0 <= j < i ==> info_ids(self.tabs@)[j] != id,
            decreases self.tabs.len() - i,
        {
            if self.tabs[i].id == id {
                assert(info_ids(self.tabs@)[i as int] == id);
                return true;
            }
            i += 1;
        }
        false
    }

    fn settle_active_last(&mut self)
        ensures
            final(self).spec_ids() == old(self).spec_ids(),
            final(self).spec_menu() == old(self).spec_menu(),
            (old(self).spec_active() matches Some(a) && !old(self).spec_ids().contains(a))
                ==> final(self).spec_active() == (if old(self).spec_ids().len() > 0 {
                    Some(old(self).spec_ids().last())
                } else {
                    None
                }),
            !(old(self).spec_active() matches Some(a) && !old(self).spec_ids().contains(a))
                ==> final(self).spec_active() == old(self).spec_active(),
    {
        if let Some(active) = self.active_tab {
            if !self.contains_id(active) {
                let n = self.tabs.len();
                self.active_tab = if n > 0 { Some(self.tabs[n - 1].id) } else { None };
            }
        }
    }

    fn settle_active_first(&mut self)
        ensures
            final(self).spec_ids() == old(self).spec_ids(),
            final(self).spec_menu() == old(self).spec_menu(),
            (old(self).spec_active() matches Some(a) && !old(self).spec_ids().contains(a))
                ==> final(self).spec_active() == (if old(self).spec_ids().len() > 0 {
                    Some(old(self).spec_ids()[0])
                } else {
                    None
                }),
            !(old(self).spec_active() matches Some(a) && !old(self).spec_ids().contains(a))
                ==> final(self).spec_active() == old(self).spec_active(),
    {
        if let Some(active) = self.active_tab {
            if !self.contains_id(active) {
                self.active_tab = if self.tabs.len() > 0 { Some(self.tabs[0].id) } else { None };
            }
        }
    }

    /// Closes the tabs before index `from_index`; returns their ids.  When the active
    /// tab was closed, the first remaining tab becomes active.
    pub fn close_tabs_to_left(&mut self, from_index: usize) -> (closed: Vec<Uuid>)
        requires
            from_index <= old(self).spec_ids().len(),
        ensures
            closed@ == old(self).spec_ids().take(from_index as int),
            final(self).spec_ids() == old(self).spec_ids().skip(from_index as int),
            (old(self).spec_active() matches Some(a) && !final(self).spec_ids().contains(a))
                ==> final(self).spec_active() == (if final(self).spec_ids().len() > 0 {
                    Some(final(self).spec_ids()[0])
                } else {
                    None
                }),
            !(old(self).spec_active() matches Some(a) && !final(self).spec_ids().contains(a))
                ==> final(self).spec_active() == old(self).spec_active(),
            final(self).spec_menu() is None,
    {
        let ghost og = info_ids(self.tabs@);
        let mut closed: Vec<Uuid> = Vec::new();
        let mut k: usize = 0;
        while k < from_index
            invariant
                k <= from_index <= self.tabs.len(),
                og == info_ids(self.tabs@),
                closed@ == og.take(k as int),
            decreases from_index - k,
        {
            closed.push(self.tabs[k].id);
            assert(og.take(k + 1) =~= og.take(k as int).push(og[k as int]));
            k += 1;
        }
        let rest = self.tabs.split_off(from_index);
        self.tabs = rest;
        assert(info_ids(self.tabs@) =~= og.skip(from_index as int));
        self.settle_active_first();
        self.context_menu = None;
        closed
    }

    /// Closes every tab; returns their ids.
    pub fn close_all_tabs(&mut self) -> (closed: Vec<Uuid>)
        ensures
            closed@ == old(self).spec_ids(),
            final(self).spec_ids().len() == 0,
            final(self).spec_active() is None,
            final(self).spec_menu() is None,
    {
        let ghost og = info_ids(self.tabs@);
        let mut closed: Vec<Uuid> = Vec::new();
        let mut k: usize = 0;
        while k < self.tabs.len()
            invariant
                k <= self.tabs.len(),
                og == info_ids(self.tabs@),
                closed@ == og.take(k as int),
            decreases self.tabs.len() - k,
        {
            closed.push(self.tabs[k].id);
            assert(og.take(k + 1) =~= og.take(k as int).push(og[k as int]));
            k += 1;
        }
        assert(og.take(self.tabs.len() as int) =~= og);
        self.tabs = Vec::new();
        assert(info_ids(self.tabs@) =~= Seq::<Uuid>::empty());
        self.active_tab = None;
        self.context_menu = None;
        closed
    }
}

/// The text a terminal shows when its connection failed: the screen cleared, a red
/// `Connection Failed` heading and the error in yellow.
pub fn connection_failed_banner(error: &str) -> (s: String)
    ensures
        s@ == "\x1b[2J\x1b[H\r\n\x1b[1;31m  Connection Failed\x1b[0m\r\n\r\n\x1b[33m  "@ + error@ + "\x1b[0m\r\n"@,
{
    let mut s = owned("\x1b[2J\x1b[H\r\n\x1b[1;31m  Connection Failed\x1b[0m\r\n\r\n\x1b[33m  ");
    s.append(error);
    s.append("\x1b[0m\r\n");
    s
}

} // verus!
