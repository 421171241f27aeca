//! The group hierarchy: parent chains, cycles, and what moving a group does to them.
use vstd::prelude::*;
use vstd::set_lib::*;

use crate::ids::Uuid;
use crate::session::models::{group_pos, groups_with_parent, lemma_group_pos, lemma_group_pos_at, lookup_group, session_ids_unique, sessions_with_group, Session, SessionData, SessionGroup};

verus! {

/// Following parent links upward from the group with id `x`, a group whose parent is
/// `a` is met among the first `fuel` groups visited.
pub open spec fn has_ancestor_within(gs: Seq<SessionGroup>, x: Uuid, a: Uuid, fuel: nat) -> bool
    decreases fuel,
{
    if fuel == 0 {
        false
    } else {
        match lookup_group(gs, x) {
            None => false,
            Some(g) => match g.parent_id {
                None => false,
                Some(p) => p == a || has_ancestor_within(gs, p, a, (fuel - 1) as nat),
            },
        }
    }
}

/// Following parent links upward from the group with id `x` ends (at a group without a
/// parent, or at a parent id that no group has) within `fuel` groups.
pub open spec fn chain_ends_within(gs: Seq<SessionGroup>, x: Uuid, fuel: nat) -> bool
    decreases fuel,
{
    match lookup_group(gs, x) {
        None => true,
        Some(g) => if fuel == 0 {
            false
        } else {
            match g.parent_id {
                None => true,
                Some(p) => chain_ends_within(gs, p, (fuel - 1) as nat),
            }
        },
    }
}

/// The hierarchy has no cycle: every parent chain ends within as many groups as there are.
pub open spec fn hierarchy_acyclic(gs: Seq<SessionGroup>) -> bool {
    forall|x: Uuid| #[trigger] chain_ends_within(gs, x, gs.len())
}

/// The groups after the first group with id `gid` is given the parent `np`.
pub open spec fn reparented(gs: Seq<SessionGroup>, gid: Uuid, np: Option<Uuid>) -> Seq<SessionGroup> {
    let g = gs[group_pos(gs, gid)];
    gs.update(group_pos(gs, gid), SessionGroup { id: g.id, name: g.name, parent_id: np, color: g.color })
}

/// The position of the parent of the group at position `i`, or -1 when it has none or no
/// group has its parent id.
pub open spec fn parent_pos(gs: Seq<SessionGroup>, i: int) -> int {
    match gs[i].parent_id {
        Some(p) => group_pos(gs, p),
        None => -1,
    }
}

/// The position reached after `k` parent steps from position `i`, or -1 once the chain
/// has ended.
pub open spec fn pos_after(gs: Seq<SessionGroup>, i: int, k: nat) -> int
    decreases k,
{
    if i < 0 {
        -1
    } else if k == 0 {
        i
    } else {
        pos_after(gs, parent_pos(gs, i), (k - 1) as nat)
    }
}

proof fn lemma_pos_after_range(gs: Seq<SessionGroup>, i: int, k: nat)
    requires
        -1 <= i < gs.len(),
    ensures
        -1 <= pos_after(gs, i, k) < gs.len(),
    decreases k,
{
    if i >= 0 && k > 0 {
        match gs[i].parent_id {
            Some(p) => lemma_group_pos(gs, p),
            None => {},
        }
        lemma_pos_after_range(gs, parent_pos(gs, i), (k - 1) as nat);
    }
}

proof fn lemma_pos_after_add(gs: Seq<SessionGroup>, i: int, a: nat, b: nat)
    ensures
        pos_after(gs, i, a + b) == pos_after(gs, pos_after(gs, i, a), b),
    decreases a,
{
    if i >= 0 && a > 0 {
        lemma_pos_after_add(gs, parent_pos(gs, i), (a - 1) as nat, b);
        assert((a + b - 1) as nat == (a - 1) as nat + b);
    }
    if i < 0 {
        assert(pos_after(gs, -1, b) == -1);
    }
}

proof fn lemma_pos_after_ended(gs: Seq<SessionGroup>, i: int, k: nat, m: nat)
    requires
        pos_after(gs, i, k) == -1,
        k <= m,
    ensures
        pos_after(gs, i, m) == -1,
{
    lemma_pos_after_add(gs, i, k, (m - k) as nat);
    assert(k + (m - k) as nat == m);
    assert(pos_after(gs, -1, (m - k) as nat) == -1);
}

/// A group found by id starts a chain that ends within `fuel` groups exactly when the
/// position chain from it has ended after `fuel` steps.
proof fn lemma_chain_ends_pos(gs: Seq<SessionGroup>, x: Uuid, fuel: nat)
    ensures
        chain_ends_within(gs, x, fuel) <==> (group_pos(gs, x) < 0 || pos_after(gs, group_pos(gs, x), fuel) == -1),
    decreases fuel,
{
    lemma_group_pos(gs, x);
    let i = group_pos(gs, x);
    if i >= 0 && fuel > 0 {
        assert(pos_after(gs, i, fuel) == pos_after(gs, parent_pos(gs, i), (fuel - 1) as nat));
        assert(pos_after(gs, -1, (fuel - 1) as nat) == -1);
        match gs[i].parent_id {
            Some(p) => {
                lemma_group_pos(gs, p);
                lemma_chain_ends_pos(gs, p, (fuel - 1) as nat);
                assert(pos_after(gs, i, fuel) == pos_after(gs, group_pos(gs, p), (fuel - 1) as nat));
            },
            None => {},
        }
    }
}

/// A chain from the group with id `x` that arrives at the group with id `a` after `k`
/// steps meets a group whose parent is `a`.
proof fn lemma_reach_gives_ancestor(gs: Seq<SessionGroup>, x: Uuid, a: Uuid, k: nat, fuel: nat)
    requires
        group_pos(gs, a) >= 0,
        group_pos(gs, x) >= 0,
        1 <= k <= fuel,
        pos_after(gs, group_pos(gs, x), k) == group_pos(gs, a),
    ensures
        has_ancestor_within(gs, x, a, fuel),
    decreases k,
{
    lemma_group_pos(gs, x);
    lemma_group_pos(gs, a);
    let i = group_pos(gs, x);
    match gs[i].parent_id {
        None => {
            assert(pos_after(gs, -1, (k - 1) as nat) == -1);
        },
        Some(p) => {
            lemma_group_pos(gs, p);
            if p != a {
                if group_pos(gs, p) < 0 {
                    assert(pos_after(gs, -1, (k - 1) as nat) == -1);
                } else if k == 1 {
                    assert(pos_after(gs, i, 1) == pos_after(gs, group_pos(gs, p), 0));
                    assert(gs[group_pos(gs, a)].id == p);
                } else {
                    lemma_reach_gives_ancestor(gs, p, a, (k - 1) as nat, (fuel - 1) as nat);
                }
            }
        },
    }
}

/// A position chain of `gs.len() + 1` positions visits some position twice.
proof fn lemma_long_chain_repeats(gs: Seq<SessionGroup>, i: int) -> (ab: (nat, nat))
    requires
        0 <= i < gs.len(),
        pos_after(gs, i, gs.len()) != -1,
    ensures
        ab.0 < ab.1 <= gs.len(),
        pos_after(gs, i, ab.0) == pos_after(gs, i, ab.1),
{
    let n = gs.len();
    let s = Seq::new(n + 1, |k: int| pos_after(gs, i, k as nat));
    assert forall|k: int| 0 <= k < s.len() implies 0 <= #[trigger] s[k] < n by {
        lemma_pos_after_range(gs, i, k as nat);
        if s[k] == -1 {
            lemma_pos_after_ended(gs, i, k as nat, n);
        }
    }
    if s.no_duplicates() {
        s.unique_seq_to_set();
        lemma_int_range(0, n as int);
        assert(s.to_set().subset_of(set_int_range(0, n as int)));
        lemma_len_subset(s.to_set(), set_int_range(0, n as int));
        assert(false);
    }
    let (a, b) = choose|a: int, b: int| 0 <= a < s.len() && 0 <= b < s.len() && a != b && s[a] == s[b];
    if a < b {
        (a as nat, b as nat)
    } else {
        (b as nat, a as nat)
    }
}

/// A position on a cycle never reaches the end of its chain.
proof fn lemma_cycle_never_ends(gs: Seq<SessionGroup>, c: int, len: nat, k: nat)
    requires
        c >= 0,
        len >= 1,
        pos_after(gs, c, len) == c,
    ensures
        pos_after(gs, c, k) != -1,
    decreases k,
{
    if k < len {
        if pos_after(gs, c, k) == -1 {
            lemma_pos_after_ended(gs, c, k, len);
        }
    } else {
        lemma_pos_after_add(gs, c, len, (k - len) as nat);
        assert(len + (k - len) as nat == k);
        lemma_cycle_never_ends(gs, c, len, (k - len) as nat);
    }
}

/// The first step at which the chain from `j` is at position `q`.
proof fn lemma_first_hit(gs: Seq<SessionGroup>, j: int, q: int, m: nat) -> (k: nat)
    requires
        pos_after(gs, j, m) == q,
    ensures
        k <= m,
        pos_after(gs, j, k) == q,
        forall|t: nat| t < k ==> pos_after(gs, j, t) != q,
    decreases m,
{
    if exists|t: nat| t < m && pos_after(gs, j, t) == q {
        let t = choose|t: nat| t < m && pos_after(gs, j, t) == q;
        lemma_first_hit(gs, j, q, t)
    } else {
        m
    }
}

/// Positions with the same ids give the same lookups.
proof fn lemma_same_ids(gs: Seq<SessionGroup>, hs: Seq<SessionGroup>, x: Uuid)
    requires
        gs.len() == hs.len(),
        forall|i: int| 0 <= i < gs.len() ==> #[trigger] hs[i].id == gs[i].id,
    ensures
        group_pos(hs, x) == group_pos(gs, x),
    decreases gs.len(),
{
    if gs.len() > 0 {
        assert(hs[0].id == gs[0].id);
        assert forall|i: int| 0 <= i < gs.len() - 1 implies #[trigger] hs.drop_first()[i].id == gs.drop_first()[i].id by {
            assert(hs[i + 1].id == gs[i + 1].id);
        }
        lemma_same_ids(gs.drop_first(), hs.drop_first(), x);
    }
}

/// Two chains that agree on every group but the one at `q` agree until they reach `q`.
proof fn lemma_chains_agree(gs: Seq<SessionGroup>, hs: Seq<SessionGroup>, q: int, j: int, k: nat)
    requires
        gs.len() == hs.len(),
        forall|i: int| 0 <= i < gs.len() ==> #[trigger] hs[i].id == gs[i].id,
        forall|i: int| 0 <= i < gs.len() && i != q ==> #[trigger] hs[i].parent_id == gs[i].parent_id,
        -1 <= j < gs.len(),
        forall|t: nat| t < k ==> pos_after(hs, j, t) != q,
    ensures
        pos_after(gs, j, k) == pos_after(hs, j, k),
    decreases k,
{
    if j >= 0 && k > 0 {
        assert(pos_after(hs, j, 0) != q);
        match gs[j].parent_id {
            Some(p) => {
                lemma_same_ids(gs, hs, p);
                lemma_group_pos(gs, p);
            },
            None => {},
        }
        let j2 = parent_pos(gs, j);
        assert(parent_pos(hs, j) == j2);
        assert forall|t: nat| t < (k - 1) as nat implies pos_after(hs, j2, t) != q by {
            assert(pos_after(hs, j, t + 1) == pos_after(hs, j2, t));
        }
        lemma_chains_agree(gs, hs, q, j2, (k - 1) as nat);
    }
}

/// Every position a chain from a looked-up group visits is that of the first group with
/// its id.
proof fn lemma_chain_first_positions(gs: Seq<SessionGroup>, i: int, k: nat)
    requires
        0 <= i < gs.len(),
        group_pos(gs, gs[i].id) == i,
    ensures
        pos_after(gs, i, k) >= 0 ==> group_pos(gs, gs[pos_after(gs, i, k)].id) == pos_after(gs, i, k),
    decreases k,
{
    if k > 0 {
        assert(pos_after(gs, i, k) == pos_after(gs, parent_pos(gs, i), (k - 1) as nat));
        assert(pos_after(gs, -1, (k - 1) as nat) == -1);
        match gs[i].parent_id {
            Some(p) => {
                lemma_group_pos(gs, p);
                let j = group_pos(gs, p);
                assert(pos_after(gs, i, k) == pos_after(gs, j, (k - 1) as nat));
                if j >= 0 {
                    lemma_chain_first_positions(gs, j, (k - 1) as nat);
                }
            },
            None => {},
        }
    }
}

/// Moving a group under a parent that exists, is not the group itself and is not below
/// it (the checks that `move_group` makes) keeps the hierarchy free of cycles.
pub proof fn lemma_move_keeps_acyclic(gs: Seq<SessionGroup>, gid: Uuid, np: Option<Uuid>)
    requires
        hierarchy_acyclic(gs),
        group_pos(gs, gid) >= 0,
        np is Some ==> lookup_group(gs, np->0) is Some && np->0 != gid
            && !has_ancestor_within(gs, np->0, gid, gs.len()),
    ensures
        hierarchy_acyclic(reparented(gs, gid, np)),
{
    let n = gs.len();
    let hs = reparented(gs, gid, np);
    lemma_group_pos(gs, gid);
    let q = group_pos(gs, gid);
    assert forall|i: int| 0 <= i < n implies #[trigger] hs[i].id == gs[i].id by {}
    assert forall|i: int| 0 <= i < n && i != q implies #[trigger] hs[i].parent_id == gs[i].parent_id by {}
    assert forall|x: Uuid| #[trigger] chain_ends_within(hs, x, hs.len()) by {
        lemma_chain_ends_pos(hs, x, n);
        lemma_same_ids(gs, hs, x);
        lemma_group_pos(gs, x);
        let i = group_pos(hs, x);
        if i >= 0 && pos_after(hs, i, n) != -1 {
            let (a, b) = lemma_long_chain_repeats(hs, i);
            let c = pos_after(hs, i, a);
            let len = (b - a) as nat;
            lemma_pos_after_add(hs, i, a, len);
            assert(a + len == b);
            lemma_pos_after_range(hs, i, a);
            assert(c >= 0) by {
                if c == -1 {
                    lemma_pos_after_ended(hs, i, a, n);
                }
            }
            assert(pos_after(hs, c, len) == c);
            if exists|t: nat| t < len && pos_after(hs, c, t) == q {
                let t = choose|t: nat| t < len && pos_after(hs, c, t) == q;
                lemma_pos_after_add(hs, c, t, len);
                lemma_pos_after_add(hs, c, len, t);
                assert(t + len == len + t);
                lemma_pos_after_add(hs, q, 1, (len - 1) as nat);
                assert(1 + (len - 1) as nat == len);
                assert(pos_after(hs, q, len) == q);
                let pp = parent_pos(hs, q);
                assert(pos_after(hs, q, 1) == pos_after(hs, pp, 0));
                assert(pp >= 0);
                let pid = np->0;
                lemma_same_ids(gs, hs, pid);
                lemma_group_pos(gs, pid);
                assert(pp == group_pos(gs, pid));
                assert(pos_after(hs, pp, (len - 1) as nat) == q);
                let k = lemma_first_hit(hs, pp, q, (len - 1) as nat);
                lemma_chains_agree(gs, hs, q, pp, k);
                assert(pp != q);
                assert(k >= 1);
                assert(chain_ends_within(gs, pid, n));
                lemma_chain_ends_pos(gs, pid, n);
                if k > n {
                    lemma_pos_after_ended(gs, pp, n, k);
                }
                lemma_reach_gives_ancestor(gs, pid, gid, k, n);
                assert(false);
            } else {
                lemma_chains_agree(gs, hs, q, c, len);
                lemma_chain_first_positions(hs, i, a);
                lemma_pos_after_range(hs, i, a);
                let y = gs[c].id;
                lemma_same_ids(gs, hs, y);
                assert(group_pos(gs, y) == c);
                assert(chain_ends_within(gs, y, n));
                lemma_chain_ends_pos(gs, y, n);
                lemma_cycle_never_ends(gs, c, len, n);
                assert(false);
            }
        }
    }
}

/// Whether the chain from position `i`, after `t` steps, is at a group whose parent is `a`.
pub open spec fn hit_at(gs: Seq<SessionGroup>, i: int, a: Uuid, t: nat) -> bool {
    pos_after(gs, i, t) >= 0 && gs[pos_after(gs, i, t)].parent_id == Some(a)
}

/// A search that finds `a` within `m` steps meets it at some step below `m` of the
/// position chain.
proof fn lemma_ancestor_hit(gs: Seq<SessionGroup>, x: Uuid, a: Uuid, m: nat) -> (t: nat)
    requires
        has_ancestor_within(gs, x, a, m),
    ensures
        group_pos(gs, x) >= 0,
        t < m,
        hit_at(gs, group_pos(gs, x), a, t),
    decreases m,
{
    lemma_group_pos(gs, x);
    let i = group_pos(gs, x);
    let p = gs[i].parent_id->0;
    lemma_pos_after_range(gs, i, 0);
    if p == a {
        assert(pos_after(gs, i, 0) == i);
        0
    } else {
        let t0 = lemma_ancestor_hit(gs, p, a, (m - 1) as nat);
        lemma_group_pos(gs, p);
        assert(parent_pos(gs, i) == group_pos(gs, p));
        assert(pos_after(gs, i, t0 + 1) == pos_after(gs, group_pos(gs, p), t0));
        (t0 + 1) as nat
    }
}

/// Meeting `a` at step `t` of the position chain is found by a search of more than `t`
/// steps.
proof fn lemma_hit_ancestor(gs: Seq<SessionGroup>, x: Uuid, a: Uuid, t: nat, f: nat)
    requires
        group_pos(gs, x) >= 0,
        t < f,
        hit_at(gs, group_pos(gs, x), a, t),
    ensures
        has_ancestor_within(gs, x, a, f),
    decreases t,
{
    lemma_group_pos(gs, x);
    let i = group_pos(gs, x);
    if t > 0 {
        assert(pos_after(gs, i, t) == pos_after(gs, parent_pos(gs, i), (t - 1) as nat));
        if parent_pos(gs, i) < 0 {
            assert(pos_after(gs, -1, (t - 1) as nat) == -1);
        } else {
            let p = gs[i].parent_id->0;
            if p != a {
                lemma_hit_ancestor(gs, p, a, (t - 1) as nat, (f - 1) as nat);
            }
        }
    }
}

/// A meeting of `a` along a chain happens within its first `gs.len()` steps, if at all:
/// a longer chain repeats a position, and cutting out the loop meets `a` earlier.
proof fn lemma_hit_early(gs: Seq<SessionGroup>, i: int, a: Uuid, t: nat) -> (u: nat)
    requires
        0 <= i < gs.len(),
        hit_at(gs, i, a, t),
    ensures
        u < gs.len(),
        hit_at(gs, i, a, u),
    decreases t,
{
    let n = gs.len();
    if t < n {
        t
    } else {
        if pos_after(gs, i, n) == -1 {
            lemma_pos_after_ended(gs, i, n, t);
        }
        let (a0, b0) = lemma_long_chain_repeats(gs, i);
        lemma_pos_after_add(gs, i, b0, (t - b0) as nat);
        lemma_pos_after_add(gs, i, a0, (t - b0) as nat);
        assert(b0 + (t - b0) as nat == t);
        let t2 = (a0 + (t - b0)) as nat;
        assert(pos_after(gs, i, t2) == pos_after(gs, i, t));
        lemma_hit_early(gs, i, a, t2)
    }
}

/// Searching upward through as many groups as there are finds every group whose parent
/// is `a` that any longer search finds, whether or not parent links form a cycle.
pub proof fn lemma_ancestor_search_complete(gs: Seq<SessionGroup>, x: Uuid, a: Uuid, m: nat)
    requires
        m >= gs.len(),
    ensures
        has_ancestor_within(gs, x, a, m) == has_ancestor_within(gs, x, a, gs.len()),
{
    if has_ancestor_within(gs, x, a, m) {
        let t = lemma_ancestor_hit(gs, x, a, m);
        lemma_group_pos(gs, x);
        let u = lemma_hit_early(gs, group_pos(gs, x), a, t);
        lemma_hit_ancestor(gs, x, a, u, gs.len());
    }
    if has_ancestor_within(gs, x, a, gs.len()) {
        lemma_ancestor_monotone(gs, x, a, gs.len(), m);
    }
}

/// Following parents upward from `x` meets a group whose parent is `a` at some depth
/// exactly when it does within as many groups as there are, whether or not parent links
/// form a cycle.
pub proof fn lemma_ancestor_search_exact(gs: Seq<SessionGroup>, x: Uuid, a: Uuid)
    ensures
        has_ancestor_within(gs, x, a, gs.len()) == (exists|m: nat| #[trigger] has_ancestor_within(gs, x, a, m)),
{
    if exists|m: nat| #[trigger] has_ancestor_within(gs, x, a, m) {
        let m = choose|m: nat| #[trigger] has_ancestor_within(gs, x, a, m);
        if m >= gs.len() {
            lemma_ancestor_search_complete(gs, x, a, m);
        } else {
            lemma_ancestor_monotone(gs, x, a, m, gs.len());
        }
    }
}

/// The ids of group `g` and of the groups below it, down to `fuel` levels: each group
/// before the groups inside it, children in list order.
pub open spec fn subtree_ids(gs: Seq<SessionGroup>, g: Uuid, fuel: nat) -> Seq<Uuid>
    decreases fuel, 0nat,
{
    if fuel == 0 {
        Seq::empty()
    } else {
        seq![g] + forest_ids(gs, groups_with_parent(gs, Some(g)), (fuel - 1) as nat)
    }
}

/// The subtree ids of each group of `cs`, one after another.
pub open spec fn forest_ids(gs: Seq<SessionGroup>, cs: Seq<SessionGroup>, fuel: nat) -> Seq<Uuid>
    decreases fuel, cs.len() + 1,
{
    if cs.len() == 0 {
        Seq::empty()
    } else {
        forest_ids(gs, cs.drop_last(), fuel) + subtree_ids(gs, cs.last().id, fuel)
    }
}

/// The ids of a list of sessions.
pub open spec fn session_ids(ss: Seq<Session>) -> Seq<Uuid> {
    ss.map_values(|s: Session| s.spec_id())
}

/// The ids of the sessions in each group of `ids`, group after group.
pub open spec fn sessions_of_groups(ss: Seq<Session>, ids: Seq<Uuid>) -> Seq<Uuid>
    decreases ids.len(),
{
    if ids.len() == 0 {
        Seq::empty()
    } else {
        sessions_of_groups(ss, ids.drop_last()) + session_ids(sessions_with_group(ss, Some(ids.last())))
    }
}

/// Whether a session lies in one of the groups `ids`.
pub open spec fn in_groups(s: Session, ids: Seq<Uuid>) -> bool {
    match s.spec_group_id() {
        Some(g) => ids.contains(g),
        None => false,
    }
}

/// Searching upward with more fuel finds whatever less fuel finds.
proof fn lemma_ancestor_monotone(gs: Seq<SessionGroup>, x: Uuid, a: Uuid, k: nat, m: nat)
    requires
        has_ancestor_within(gs, x, a, k),
        k <= m,
    ensures
        has_ancestor_within(gs, x, a, m),
    decreases k,
{
    match lookup_group(gs, x) {
        None => {},
        Some(g) => match g.parent_id {
            None => {},
            Some(p) => {
                if p != a {
                    lemma_ancestor_monotone(gs, p, a, (k - 1) as nat, (m - 1) as nat);
                }
            },
        },
    }
}

/// A group of the list whose parent is `p` is among the groups `groups_with_parent`
/// lists for `p`.
proof fn lemma_child_listed(gs: Seq<SessionGroup>, p: Option<Uuid>, i: int)
    requires
        0 <= i < gs.len(),
        gs[i].parent_id == p,
    ensures
        groups_with_parent(gs, p).contains(gs[i]),
    decreases gs.len(),
{
    if i < gs.len() - 1 {
        lemma_child_listed(gs.drop_last(), p, i);
        assert(gs.drop_last()[i] == gs[i]);
        let w = groups_with_parent(gs.drop_last(), p);
        let j = choose|j: int| 0 <= j < w.len() && w[j] == gs[i];
        if gs.last().parent_id == p {
            assert(groups_with_parent(gs, p)[j] == gs[i]);
        }
    } else {
        let w = groups_with_parent(gs.drop_last(), p);
        assert(groups_with_parent(gs, p)[w.len() as int] == gs[i]);
    }
}

/// What a group's subtree holds, the subtrees of a list holding it hold.
proof fn lemma_forest_holds(gs: Seq<SessionGroup>, cs: Seq<SessionGroup>, j: int, fuel: nat, y: Uuid)
    requires
        0 <= j < cs.len(),
        subtree_ids(gs, cs[j].id, fuel).contains(y),
    ensures
        forest_ids(gs, cs, fuel).contains(y),
    decreases cs.len(),
{
    let rest = forest_ids(gs, cs.drop_last(), fuel);
    let last = subtree_ids(gs, cs.last().id, fuel);
    if j < cs.len() - 1 {
        assert(cs.drop_last()[j] == cs[j]);
        lemma_forest_holds(gs, cs.drop_last(), j, fuel, y);
        let k = choose|k: int| 0 <= k < rest.len() && rest[k] == y;
        assert((rest + last)[k] == y);
    } else {
        let k = choose|k: int| 0 <= k < last.len() && last[k] == y;
        assert((rest + last)[rest.len() + k] == y);
    }
}

/// The subtree of a child of `g` lies in the subtree of `g`, one level deeper.
proof fn lemma_child_subtree(gs: Seq<SessionGroup>, g: Uuid, c: SessionGroup, fuel: nat, y: Uuid)
    requires
        fuel >= 1,
        gs.contains(c),
        c.parent_id == Some(g),
        subtree_ids(gs, c.id, (fuel - 1) as nat).contains(y),
    ensures
        subtree_ids(gs, g, fuel).contains(y),
{
    let i = choose|i: int| 0 <= i < gs.len() && gs[i] == c;
    lemma_child_listed(gs, Some(g), i);
    let cs = groups_with_parent(gs, Some(g));
    let j = choose|j: int| 0 <= j < cs.len() && cs[j] == c;
    lemma_forest_holds(gs, cs, j, (fuel - 1) as nat, y);
    let f = forest_ids(gs, cs, (fuel - 1) as nat);
    let k = choose|k: int| 0 <= k < f.len() && f[k] == y;
    assert((seq![g] + f)[k + 1] == y);
}

/// A group that finds `g` as a parent within `k` upward steps either has parent `g`
/// itself, or finds as a parent, within one step less, a child of `g`.
proof fn lemma_ancestor_top(gs: Seq<SessionGroup>, x: Uuid, g: Uuid, k: nat)
    requires
        has_ancestor_within(gs, x, g, k),
    ensures
        lookup_group(gs, x) is Some,
        lookup_group(gs, x)->0.parent_id == Some(g) || exists|c: SessionGroup|
            gs.contains(c) && c.parent_id == Some(g) && #[trigger] has_ancestor_within(gs, x, c.id, (k - 1) as nat),
    decreases k,
{
    let c0 = lookup_group(gs, x)->0;
    let p = c0.parent_id->0;
    if p != g {
        assert(has_ancestor_within(gs, p, g, (k - 1) as nat));
        assert(k >= 2);
        assert(lookup_group(gs, x) == Some(c0));
        assert(c0.parent_id == Some(p));
        lemma_ancestor_top(gs, p, g, (k - 1) as nat);
        let cp = lookup_group(gs, p)->0;
        lemma_group_pos(gs, p);
        if cp.parent_id == Some(g) {
            assert(cp.id == p);
            assert(gs.contains(cp)) by {
                assert(gs[group_pos(gs, p)] == cp);
            }
            assert(has_ancestor_within(gs, x, p, (k - 1) as nat));
        } else {
            let c = choose|c: SessionGroup|
                gs.contains(c) && c.parent_id == Some(g) && #[trigger] has_ancestor_within(gs, p, c.id, (k - 2) as nat);
            assert(((k - 1) as nat - 1) as nat == (k - 2) as nat);
            assert(has_ancestor_within(gs, x, c.id, (k - 1) as nat));
        }
    }
}

/// A group that finds `g` as a parent within `k` upward steps is in the subtree of `g`
/// of any depth above `k`.
proof fn lemma_ancestor_in_subtree(gs: Seq<SessionGroup>, x: Uuid, g: Uuid, k: nat, fuel: nat)
    requires
        has_ancestor_within(gs, x, g, k),
        k + 1 <= fuel,
    ensures
        subtree_ids(gs, g, fuel).contains(x),
    decreases k,
{
    lemma_ancestor_top(gs, x, g, k);
    let c0 = lookup_group(gs, x)->0;
    lemma_group_pos(gs, x);
    assert(c0.id == x);
    assert(gs.contains(c0)) by {
        assert(gs[group_pos(gs, x)] == c0);
    }
    if c0.parent_id == Some(g) {
        assert(subtree_ids(gs, x, (fuel - 1) as nat)[0] == x);
        lemma_child_subtree(gs, g, c0, fuel, x);
    } else {
        let c = choose|c: SessionGroup|
            gs.contains(c) && c.parent_id == Some(g) && #[trigger] has_ancestor_within(gs, x, c.id, (k - 1) as nat);
        lemma_ancestor_in_subtree(gs, x, c.id, (k - 1) as nat, (fuel - 1) as nat);
        lemma_child_subtree(gs, g, c, fuel, x);
    }
}

/// Every group below `g` is collected for `g`: in a hierarchy without cycles, the ids
/// gathered for `g`, as many levels down as there are groups plus one, include every
/// group from which following parents leads to `g`.
pub proof fn lemma_subtree_complete(gs: Seq<SessionGroup>, g: Uuid, x: Uuid, m: nat)
    requires
        hierarchy_acyclic(gs),
        has_ancestor_within(gs, x, g, m),
    ensures
        subtree_ids(gs, g, gs.len() + 1).contains(x),
{
    if m <= gs.len() {
        lemma_ancestor_monotone(gs, x, g, m, gs.len());
    } else {
        lemma_ancestor_search_complete(gs, x, g, m);
    }
    lemma_ancestor_in_subtree(gs, x, g, gs.len(), gs.len() + 1);
}

/// A session in a group of `ids` has its id among the sessions collected for `ids`.
proof fn lemma_session_collected(ss: Seq<Session>, ids: Seq<Uuid>, s: Session)
    requires
        ss.contains(s),
        s.spec_group_id() is Some,
        ids.contains(s.spec_group_id()->0),
    ensures
        sessions_of_groups(ss, ids).contains(s.spec_id()),
    decreases ids.len(),
{
    let x = s.spec_group_id()->0;
    let rest = sessions_of_groups(ss, ids.drop_last());
    let last = session_ids(sessions_with_group(ss, Some(ids.last())));
    if ids.last() == x {
        let i = choose|i: int| 0 <= i < ss.len() && ss[i] == s;
        lemma_session_listed(ss, Some(x), i);
        let w = sessions_with_group(ss, Some(x));
        let j = choose|j: int| 0 <= j < w.len() && w[j] == s;
        assert(last[j] == s.spec_id());
        assert((rest + last)[rest.len() + j] == s.spec_id());
    } else {
        let k = choose|k: int| 0 <= k < ids.len() && ids[k] == x;
        assert(ids.drop_last()[k] == x);
        lemma_session_collected(ss, ids.drop_last(), s);
        let j = choose|j: int| 0 <= j < rest.len() && rest[j] == s.spec_id();
        assert((rest + last)[j] == s.spec_id());
    }
}

/// A session of the list whose group is `g` is among the sessions
/// `sessions_with_group` lists for `g`.
proof fn lemma_session_listed(ss: Seq<Session>, g: Option<Uuid>, i: int)
    requires
        0 <= i < ss.len(),
        ss[i].spec_group_id() == g,
    ensures
        sessions_with_group(ss, g).contains(ss[i]),
    decreases ss.len(),
{
    if i < ss.len() - 1 {
        lemma_session_listed(ss.drop_last(), g, i);
        assert(ss.drop_last()[i] == ss[i]);
        let w = sessions_with_group(ss.drop_last(), g);
        let j = choose|j: int| 0 <= j < w.len() && w[j] == ss[i];
        if ss.last().spec_group_id() == g {
            assert(sessions_with_group(ss, g)[j] == ss[i]);
        }
    } else {
        let w = sessions_with_group(ss.drop_last(), g);
        assert(sessions_with_group(ss, g)[w.len() as int] == ss[i]);
    }
}

/// The sessions listed for a group (the ungrouped ones, for `None`) are the sessions of
/// the list whose group it is, in list order; so every session is listed under its own
/// group, and under no other.
pub proof fn lemma_sessions_by_group(ss: Seq<Session>, g: Option<Uuid>)
    ensures
        sessions_with_group(ss, g) == ss.filter(|s: Session| s.spec_group_id() == g),
        forall|i: int| 0 <= i < ss.len() ==> (#[trigger] sessions_with_group(ss, g).contains(ss[i])
            <==> ss[i].spec_group_id() == g),
        forall|s: Session| #[trigger] sessions_with_group(ss, g).contains(s) ==> ss.contains(s) && s.spec_group_id() == g,
    decreases ss.len(),
{
    let pred = |s: Session| s.spec_group_id() == g;
    let w = sessions_with_group(ss, g);
    if ss.len() > 0 {
        lemma_sessions_by_group(ss.drop_last(), g);
        reveal(Seq::filter);
        assert(w == ss.filter(pred));
        assert forall|s: Session| #[trigger] w.contains(s) implies ss.contains(s) && s.spec_group_id() == g by {
            let j = choose|j: int| 0 <= j < w.len() && w[j] == s;
            let v = sessions_with_group(ss.drop_last(), g);
            if j < v.len() {
                assert(v[j] == s);
                assert(v.contains(s));
                let k = choose|k: int| 0 <= k < ss.drop_last().len() && ss.drop_last()[k] == s;
                assert(ss[k] == s);
            } else {
                assert(s == ss.last());
                assert(ss[ss.len() - 1] == s);
            }
        }
        assert forall|i: int| 0 <= i < ss.len() implies (#[trigger] w.contains(ss[i]) <==> ss[i].spec_group_id() == g) by {
            if ss[i].spec_group_id() == g {
                lemma_session_listed(ss, g, i);
            }
        }
    } else {
        reveal(Seq::filter);
        assert(w =~= ss.filter(pred));
    }
}

/// The session lists of a `SessionData` partition its sessions: `ungrouped_sessions` lists
/// the sessions without a group and `sessions_in_group(g)` those of group `g`, each in the
/// data's order; every session is listed once, by the list of its own group or among the
/// ungrouped, and by no other list.
pub proof fn lemma_session_data_partition(data: SessionData, g: Uuid)
    ensures
        sessions_with_group(data.sessions@, None) == data.sessions@.filter(|s: Session| s.spec_group_id() == None::<Uuid>),
        sessions_with_group(data.sessions@, Some(g)) == data.sessions@.filter(|s: Session| s.spec_group_id() == Some(g)),
        forall|i: int| 0 <= i < data.sessions@.len() ==> (
            (#[trigger] sessions_with_group(data.sessions@, None).contains(data.sessions@[i]) <==> data.sessions@[i].spec_group_id() is None)
            && (sessions_with_group(data.sessions@, Some(g)).contains(data.sessions@[i]) <==> data.sessions@[i].spec_group_id() == Some(g))),
{
    lemma_sessions_by_group(data.sessions@, None);
    lemma_sessions_by_group(data.sessions@, Some(g));
}

/// Mass connect reaches every session of a group and of the groups nested in it: in a
/// hierarchy without cycles, the session ids collected for group `g` include each
/// session whose group is `g` or lies below `g`.
pub proof fn lemma_mass_connect_complete(gs: Seq<SessionGroup>, ss: Seq<Session>, g: Uuid, s: Session, m: nat)
    requires
        hierarchy_acyclic(gs),
        ss.contains(s),
        s.spec_group_id() is Some,
        s.spec_group_id()->0 == g || has_ancestor_within(gs, s.spec_group_id()->0, g, m),
    ensures
        sessions_of_groups(ss, subtree_ids(gs, g, gs.len() + 1)).contains(s.spec_id()),
{
    let x = s.spec_group_id()->0;
    let ids = subtree_ids(gs, g, gs.len() + 1);
    if x == g {
        assert(ids[0] == g);
    } else {
        lemma_subtree_complete(gs, g, x, m);
    }
    lemma_session_collected(ss, ids, s);
}

/// No two groups share an id.
pub open spec fn group_ids_unique(gs: Seq<SessionGroup>) -> bool {
    forall|i: int, j: int| 0 <= i < j < gs.len() ==> gs[i].id != gs[j].id
}

/// With unique ids, a group's id is found at its own position.
proof fn lemma_unique_pos(gs: Seq<SessionGroup>, i: int)
    requires
        group_ids_unique(gs),
        0 <= i < gs.len(),
    ensures
        group_pos(gs, gs[i].id) == i,
{
    lemma_group_pos_at(gs, gs[i].id, i);
}

/// The groups listed for parent `p` are groups of the list with parent `p`; with unique
/// ids no two of them share an id.
proof fn lemma_children(gs: Seq<SessionGroup>, p: Option<Uuid>)
    ensures
        forall|j: int| 0 <= j < groups_with_parent(gs, p).len() ==> gs.contains(#[trigger] groups_with_parent(gs, p)[j])
            && groups_with_parent(gs, p)[j].parent_id == p,
        group_ids_unique(gs) ==> forall|j: int, k: int| 0 <= j < k < groups_with_parent(gs, p).len()
            ==> groups_with_parent(gs, p)[j].id != groups_with_parent(gs, p)[k].id,
    decreases gs.len(),
{
    if gs.len() > 0 {
        let rest = gs.drop_last();
        lemma_children(rest, p);
        let w = groups_with_parent(rest, p);
        let cs = groups_with_parent(gs, p);
        assert forall|j: int| 0 <= j < cs.len() implies gs.contains(#[trigger] cs[j]) && cs[j].parent_id == p by {
            if j < w.len() {
                assert(cs[j] == w[j]);
                let q = choose|q: int| 0 <= q < rest.len() && rest[q] == w[j];
                assert(gs[q] == cs[j]);
            } else {
                assert(gs[gs.len() - 1] == cs[j]);
            }
        }
        if group_ids_unique(gs) {
            assert(group_ids_unique(rest));
            assert forall|j: int, k: int| 0 <= j < k < cs.len() implies cs[j].id != cs[k].id by {
                if k >= w.len() {
                    assert(cs[j] == w[j]);
                    let q = choose|q: int| 0 <= q < rest.len() && rest[q] == w[j];
                    assert(gs[q] == w[j]);
                    assert(cs[k] == gs[gs.len() - 1]);
                } else {
                    assert(cs[j] == w[j] && cs[k] == w[k]);
                }
            }
        }
    }
}

/// An id in the subtrees of a list lies in the subtree of one of its groups.
proof fn lemma_forest_member(gs: Seq<SessionGroup>, cs: Seq<SessionGroup>, fuel: nat, y: Uuid) -> (j: int)
    requires
        forest_ids(gs, cs, fuel).contains(y),
    ensures
        0 <= j < cs.len(),
        subtree_ids(gs, cs[j].id, fuel).contains(y),
    decreases cs.len(),
{
    let rest = forest_ids(gs, cs.drop_last(), fuel);
    let last = subtree_ids(gs, cs.last().id, fuel);
    let k = choose|k: int| 0 <= k < (rest + last).len() && (rest + last)[k] == y;
    if k < rest.len() {
        assert(rest[k] == y);
        let j = lemma_forest_member(gs, cs.drop_last(), fuel, y);
        assert(cs.drop_last()[j] == cs[j]);
        j
    } else {
        assert(last[k - rest.len()] == y);
        cs.len() - 1
    }
}

/// With unique ids, an id in the subtree of the group at position `q` is that of a group
/// whose parent chain arrives at `q` in fewer steps than the depth searched.
proof fn lemma_subtree_chain(gs: Seq<SessionGroup>, q: int, fuel: nat, y: Uuid) -> (t: nat)
    requires
        group_ids_unique(gs),
        0 <= q < gs.len(),
        subtree_ids(gs, gs[q].id, fuel).contains(y),
    ensures
        group_pos(gs, y) >= 0,
        t < fuel,
        pos_after(gs, group_pos(gs, y), t) == q,
    decreases fuel,
{
    let cs = groups_with_parent(gs, Some(gs[q].id));
    let f = forest_ids(gs, cs, (fuel - 1) as nat);
    lemma_unique_pos(gs, q);
    let k = choose|k: int| 0 <= k < (seq![gs[q].id] + f).len() && (seq![gs[q].id] + f)[k] == y;
    if k == 0 {
        0
    } else {
        assert(f[k - 1] == y);
        let j = lemma_forest_member(gs, cs, (fuel - 1) as nat, y);
        lemma_children(gs, Some(gs[q].id));
        assert(gs.contains(cs[j]));
        let q2 = choose|q2: int| 0 <= q2 < gs.len() && gs[q2] == cs[j];
        let t2 = lemma_subtree_chain(gs, q2, (fuel - 1) as nat, y);
        lemma_pos_after_add(gs, group_pos(gs, y), t2, 1);
        assert(parent_pos(gs, q2) == q);
        assert(pos_after(gs, q2, 1) == pos_after(gs, q, 0));
        (t2 + 1) as nat
    }
}

/// With unique ids, every id collected for `g` is `g` or the id of a group below `g`:
/// following parents upward from it meets a group whose parent is `g`.
pub proof fn lemma_subtree_sound(gs: Seq<SessionGroup>, g: Uuid, fuel: nat, y: Uuid)
    requires
        group_ids_unique(gs),
        subtree_ids(gs, g, fuel).contains(y),
    ensures
        y == g || has_ancestor_within(gs, y, g, fuel),
{
    let cs = groups_with_parent(gs, Some(g));
    let f = forest_ids(gs, cs, (fuel - 1) as nat);
    let k = choose|k: int| 0 <= k < (seq![g] + f).len() && (seq![g] + f)[k] == y;
    if k > 0 {
        assert(f[k - 1] == y);
        let j = lemma_forest_member(gs, cs, (fuel - 1) as nat, y);
        lemma_children(gs, Some(g));
        assert(gs.contains(cs[j]));
        let q = choose|q: int| 0 <= q < gs.len() && gs[q] == cs[j];
        let t = lemma_subtree_chain(gs, q, (fuel - 1) as nat, y);
        assert(hit_at(gs, group_pos(gs, y), g, t));
        lemma_hit_ancestor(gs, y, g, t, fuel);
    }
}

/// In a hierarchy without cycles, no parent chain returns to where it started.
proof fn lemma_no_cycle(gs: Seq<SessionGroup>, r: int, len: nat)
    requires
        group_ids_unique(gs),
        hierarchy_acyclic(gs),
        0 <= r < gs.len(),
        len >= 1,
    ensures
        pos_after(gs, r, len) != r,
{
    if pos_after(gs, r, len) == r {
        lemma_cycle_never_ends(gs, r, len, gs.len());
        assert(chain_ends_within(gs, gs[r].id, gs.len()));
        lemma_chain_ends_pos(gs, gs[r].id, gs.len());
        lemma_unique_pos(gs, r);
    }
}

/// Two chains from one position that reach two siblings (groups with the same parent) at
/// steps `t1 < t2` would close a cycle through the parent.
proof fn lemma_siblings_ordered(gs: Seq<SessionGroup>, i: int, q1: int, t1: nat, q2: int, t2: nat)
    requires
        group_ids_unique(gs),
        hierarchy_acyclic(gs),
        0 <= q1 < gs.len(),
        0 <= q2 < gs.len(),
        gs[q1].parent_id is Some,
        gs[q1].parent_id == gs[q2].parent_id,
        t1 < t2,
        pos_after(gs, i, t1) == q1,
        pos_after(gs, i, t2) == q2,
    ensures
        pos_after(gs, i, t2) != q2,
{
    let g = gs[q1].parent_id->0;
    let r = group_pos(gs, g);
    lemma_group_pos(gs, g);
    lemma_pos_after_add(gs, i, t1, 1);
    lemma_pos_after_add(gs, i, t2, 1);
    assert(pos_after(gs, q1, 1) == pos_after(gs, r, 0));
    assert(pos_after(gs, q2, 1) == pos_after(gs, r, 0));
    if r < 0 {
        assert(pos_after(gs, i, t1 + 1) == -1);
        lemma_pos_after_ended(gs, i, (t1 + 1) as nat, t2);
    } else {
        let len = (t2 - t1) as nat;
        lemma_pos_after_add(gs, i, (t1 + 1) as nat, len);
        assert((t1 + 1) as nat + len == t2 + 1);
        lemma_no_cycle(gs, r, len);
    }
}

/// In a hierarchy without cycles and with unique ids, the subtrees of two different
/// groups with the same parent share no id.
proof fn lemma_sibling_subtrees_disjoint(gs: Seq<SessionGroup>, q1: int, q2: int, f1: nat, f2: nat, y: Uuid)
    requires
        group_ids_unique(gs),
        hierarchy_acyclic(gs),
        0 <= q1 < gs.len(),
        0 <= q2 < gs.len(),
        q1 != q2,
        gs[q1].parent_id is Some,
        gs[q1].parent_id == gs[q2].parent_id,
        subtree_ids(gs, gs[q1].id, f1).contains(y),
    ensures
        !subtree_ids(gs, gs[q2].id, f2).contains(y),
{
    if subtree_ids(gs, gs[q2].id, f2).contains(y) {
        let t1 = lemma_subtree_chain(gs, q1, f1, y);
        let t2 = lemma_subtree_chain(gs, q2, f2, y);
        let i = group_pos(gs, y);
        if t1 < t2 {
            lemma_siblings_ordered(gs, i, q1, t1, q2, t2);
        } else if t2 < t1 {
            lemma_siblings_ordered(gs, i, q2, t2, q1, t1);
        }
    }
}

/// In a hierarchy without cycles and with unique ids, a group's id is in the subtree of
/// none of its children.
proof fn lemma_parent_not_below_child(gs: Seq<SessionGroup>, q: int, fuel: nat, g: Uuid)
    requires
        group_ids_unique(gs),
        hierarchy_acyclic(gs),
        0 <= q < gs.len(),
        gs[q].parent_id == Some(g),
    ensures
        !subtree_ids(gs, gs[q].id, fuel).contains(g),
{
    if subtree_ids(gs, gs[q].id, fuel).contains(g) {
        let t = lemma_subtree_chain(gs, q, fuel, g);
        let r = group_pos(gs, g);
        lemma_group_pos(gs, g);
        lemma_pos_after_add(gs, r, t, 1);
        assert(pos_after(gs, q, 1) == pos_after(gs, r, 0));
        lemma_no_cycle(gs, r, (t + 1) as nat);
    }
}

/// In a hierarchy without cycles and with unique ids, the ids collected for a group hold
/// no id twice.
pub proof fn lemma_subtree_distinct(gs: Seq<SessionGroup>, g: Uuid, fuel: nat)
    requires
        group_ids_unique(gs),
        hierarchy_acyclic(gs),
    ensures
        subtree_ids(gs, g, fuel).no_duplicates(),
    decreases fuel, 0nat,
{
    if fuel > 0 {
        let cs = groups_with_parent(gs, Some(g));
        lemma_children(gs, Some(g));
        lemma_forest_distinct(gs, g, cs, (fuel - 1) as nat);
        let f = forest_ids(gs, cs, (fuel - 1) as nat);
        assert forall|i: int, j: int| 0 <= i < seq![g].len() && 0 <= j < f.len() implies seq![g][i] != f[j] by {
            if f[j] == g {
                let k = lemma_forest_member(gs, cs, (fuel - 1) as nat, g);
                assert(gs.contains(cs[k]));
                let q = choose|q: int| 0 <= q < gs.len() && gs[q] == cs[k];
                lemma_parent_not_below_child(gs, q, (fuel - 1) as nat, g);
            }
        }
        vstd::seq_lib::lemma_no_dup_in_concat(seq![g], f);
    }
}

/// The subtrees of a list of distinct children of `g` hold no id twice.
proof fn lemma_forest_distinct(gs: Seq<SessionGroup>, g: Uuid, cs: Seq<SessionGroup>, fuel: nat)
    requires
        group_ids_unique(gs),
        hierarchy_acyclic(gs),
        forall|j: int| 0 <= j < cs.len() ==> gs.contains(#[trigger] cs[j]) && cs[j].parent_id == Some(g),
        forall|j: int, k: int| 0 <= j < k < cs.len() ==> cs[j].id != cs[k].id,
    ensures
        forest_ids(gs, cs, fuel).no_duplicates(),
    decreases fuel, cs.len() + 1,
{
    if cs.len() > 0 {
        let rest = cs.drop_last();
        assert forall|j: int| 0 <= j < rest.len() implies gs.contains(#[trigger] rest[j]) && rest[j].parent_id == Some(g) by {
            assert(rest[j] == cs[j]);
        }
        lemma_forest_distinct(gs, g, rest, fuel);
        lemma_subtree_distinct(gs, cs.last().id, fuel);
        let a = forest_ids(gs, rest, fuel);
        let b = subtree_ids(gs, cs.last().id, fuel);
        assert(gs.contains(cs[cs.len() - 1]));
        let q2 = choose|q2: int| 0 <= q2 < gs.len() && gs[q2] == cs[cs.len() - 1];
        assert forall|i: int, j: int| 0 <= i < a.len() && 0 <= j < b.len() implies a[i] != b[j] by {
            if a[i] == b[j] {
                let k = lemma_forest_member(gs, rest, fuel, a[i]);
                assert(rest[k] == cs[k]);
                assert(gs.contains(cs[k]));
                let q1 = choose|q1: int| 0 <= q1 < gs.len() && gs[q1] == cs[k];
                assert(cs[k].id != cs[cs.len() - 1].id);
                lemma_sibling_subtrees_disjoint(gs, q1, q2, fuel, fuel, a[i]);
            }
        }
        vstd::seq_lib::lemma_no_dup_in_concat(a, b);
    }
}

/// With unique session ids, the sessions of one group have distinct ids.
proof fn lemma_group_sessions_distinct(ss: Seq<Session>, g: Option<Uuid>)
    requires
        session_ids_unique(ss),
    ensures
        session_ids(sessions_with_group(ss, g)).no_duplicates(),
    decreases ss.len(),
{
    if ss.len() > 0 {
        let rest = ss.drop_last();
        lemma_group_sessions_distinct(rest, g);
        lemma_sessions_by_group(rest, g);
        let w = sessions_with_group(rest, g);
        if ss.last().spec_group_id() == g {
            assert(session_ids(w.push(ss.last())) =~= session_ids(w) + seq![ss.last().spec_id()]);
            assert forall|i: int, j: int| 0 <= i < session_ids(w).len() && 0 <= j < 1 implies session_ids(w)[i]
                != seq![ss.last().spec_id()][j] by {
                assert(w.contains(w[i]));
                let k = choose|k: int| 0 <= k < rest.len() && rest[k] == w[i];
                assert(ss[k] == w[i]);
            }
            vstd::seq_lib::lemma_no_dup_in_concat(session_ids(w), seq![ss.last().spec_id()]);
        }
    }
}

/// Every id collected for the groups `ids` is that of a session of the list whose group
/// is one of them.
proof fn lemma_collected_session(ss: Seq<Session>, ids: Seq<Uuid>, x: Uuid) -> (s: Session)
    requires
        sessions_of_groups(ss, ids).contains(x),
    ensures
        ss.contains(s),
        s.spec_id() == x,
        s.spec_group_id() is Some,
        ids.contains(s.spec_group_id()->0),
    decreases ids.len(),
{
    let rest = sessions_of_groups(ss, ids.drop_last());
    let w = sessions_with_group(ss, Some(ids.last()));
    let last = session_ids(w);
    let k = choose|k: int| 0 <= k < (rest + last).len() && (rest + last)[k] == x;
    if k < rest.len() {
        assert(rest[k] == x);
        let s = lemma_collected_session(ss, ids.drop_last(), x);
        let h = s.spec_group_id()->0;
        let i = choose|i: int| 0 <= i < ids.drop_last().len() && ids.drop_last()[i] == h;
        assert(ids[i] == h);
        s
    } else {
        let j = k - rest.len();
        assert(last[j] == x);
        lemma_sessions_by_group(ss, Some(ids.last()));
        assert(w.contains(w[j]));
        assert(ids[ids.len() - 1] == ids.last());
        w[j]
    }
}

/// With unique session ids, the sessions collected for a list of distinct groups have
/// distinct ids.
proof fn lemma_collected_distinct(ss: Seq<Session>, ids: Seq<Uuid>)
    requires
        session_ids_unique(ss),
        ids.no_duplicates(),
    ensures
        sessions_of_groups(ss, ids).no_duplicates(),
    decreases ids.len(),
{
    if ids.len() > 0 {
        let front = ids.drop_last();
        assert(front.no_duplicates());
        lemma_collected_distinct(ss, front);
        lemma_group_sessions_distinct(ss, Some(ids.last()));
        let a = sessions_of_groups(ss, front);
        let w = sessions_with_group(ss, Some(ids.last()));
        let b = session_ids(w);
        lemma_sessions_by_group(ss, Some(ids.last()));
        assert forall|i: int, j: int| 0 <= i < a.len() && 0 <= j < b.len() implies a[i] != b[j] by {
            if a[i] == b[j] {
                assert(a.contains(a[i]));
                let s1 = lemma_collected_session(ss, front, a[i]);
                assert(w.contains(w[j]));
                let s2 = w[j];
                let i1 = choose|i1: int| 0 <= i1 < ss.len() && ss[i1] == s1;
                let i2 = choose|i2: int| 0 <= i2 < ss.len() && ss[i2] == s2;
                assert(i1 == i2);
                let h = s1.spec_group_id()->0;
                let m = choose|m: int| 0 <= m < front.len() && front[m] == h;
                assert(ids[m] == ids[ids.len() - 1]);
            }
        }
        vstd::seq_lib::lemma_no_dup_in_concat(a, b);
    }
}

/// Mass connect opens only sessions of the group and of the groups below it: where no
/// two groups share an id, every session id collected for `g` is that of a session of
/// the list whose group is `g` or lies below `g`.
pub proof fn lemma_mass_connect_sound(gs: Seq<SessionGroup>, ss: Seq<Session>, g: Uuid, x: Uuid)
    requires
        group_ids_unique(gs),
        sessions_of_groups(ss, subtree_ids(gs, g, gs.len() + 1)).contains(x),
    ensures
        exists|s: Session| #![trigger ss.contains(s)]
            ss.contains(s) && s.spec_id() == x && s.spec_group_id() is Some && (s.spec_group_id()->0 == g
                || has_ancestor_within(gs, s.spec_group_id()->0, g, gs.len() + 1)),
{
    let s = lemma_collected_session(ss, subtree_ids(gs, g, gs.len() + 1), x);
    lemma_subtree_sound(gs, g, gs.len() + 1, s.spec_group_id()->0);
}

/// Mass connect opens each session once: in a hierarchy without cycles, where no two
/// groups and no two sessions share an id, the session ids collected for `g` hold no id
/// twice.
pub proof fn lemma_mass_connect_once(gs: Seq<SessionGroup>, ss: Seq<Session>, g: Uuid)
    requires
        group_ids_unique(gs),
        session_ids_unique(ss),
        hierarchy_acyclic(gs),
    ensures
        sessions_of_groups(ss, subtree_ids(gs, g, gs.len() + 1)).no_duplicates(),
{
    lemma_subtree_distinct(gs, g, gs.len() + 1);
    lemma_collected_distinct(ss, subtree_ids(gs, g, gs.len() + 1));
}

} // verus!
