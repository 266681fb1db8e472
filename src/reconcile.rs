//! Builds as sequences of declarations, and what two consecutive builds
//! guarantee about identities and collection.

use vstd::prelude::*;

use crate::hierarchy::{
    identity_of, lemma_add_keeps_consistent, lemma_collect_leaves_closed_tree, HierarchyError, HierarchyView,
    NodeUpdateResult, NodeUpdateStatus, NodeView, WidgetId,
};

use crate::layout::MAX_CHILDREN;

verus! {

/// One declaration of a build: the type discriminant, and the parent as the
/// index of an earlier declaration of the same build (`None`: the root).
pub struct Declaration {
    pub parent: Option<nat>,
    pub type_tag: u64,
}

/// Parents are earlier declarations.
pub open spec fn decls_wf(ds: Seq<Declaration>) -> bool {
    forall|i: int| 0 <= i < ds.len() && (#[trigger] ds[i]).parent is Some ==> ds[i].parent->Some_0 < i
}

/// The result of one declaration.
pub type Outcome = Result<NodeUpdateResult, HierarchyError>;

/// The identity that declaration `p` received, or the root.
pub open spec fn parent_id_of(rs: Seq<Outcome>, p: Option<nat>) -> Option<WidgetId> {
    match p {
        None => None,
        Some(j) => Some(rs[j as int]->Ok_0.widget_id),
    }
}

/// Runs the declarations in order, each under the identity its parent received.
pub open spec fn build(h: HierarchyView, ds: Seq<Declaration>) -> (HierarchyView, Seq<Outcome>)
    decreases ds.len(),
{
    if ds.len() == 0 {
        (h, Seq::empty())
    } else {
        let (h1, rs) = build(h, ds.drop_last());
        let d = ds.last();
        let (h2, r) = h1.spec_add_or_update(d.type_tag, parent_id_of(rs, d.parent));
        (h2, rs.push(r))
    }
}

/// Number of the first `i` declarations whose parent is `p`.
pub open spec fn count_under(ds: Seq<Declaration>, i: int, p: Option<nat>) -> nat
    decreases i,
{
    if i <= 0 {
        0
    } else {
        count_under(ds, i - 1, p) + if ds[i - 1].parent == p { 1nat } else { 0nat }
    }
}

/// Every declaration succeeded.
pub open spec fn all_ok(rs: Seq<Outcome>) -> bool {
    forall|i: int| 0 <= i < rs.len() ==> (#[trigger] rs[i]) is Ok
}

/// The state at the start of a build: a new epoch in which nothing but the
/// root was declared yet.
pub open spec fn fresh_epoch(h: HierarchyView) -> bool {
    &&& h.wf()
    &&& h.root.epoch == h.epoch
    &&& h.root.counter == 0
    &&& forall|k: u64| #[trigger] h.nodes.contains_key(k) ==> h.nodes[k].epoch != h.epoch
}

/// The child slots at and past the counter are still those of `start`.
pub open spec fn slots_kept(now: NodeView, start: NodeView) -> bool {
    &&& now.children.len() >= start.children.len()
    &&& forall|x: int| now.counter <= x < start.children.len() ==> #[trigger] now.children[x] == start.children[x]
}

} // verus!

verus! {

/// The identity declaration `j` received.
pub open spec fn decl_id(rs: Seq<Outcome>, j: int) -> WidgetId {
    rs[j]->Ok_0.widget_id
}

/// The node of a parent, root included.
pub open spec fn parent_node(s: HierarchyView, p: Option<WidgetId>) -> NodeView {
    s.node(p).unwrap()
}

/// What holds after the first `i` declarations of a build from `start`, all
/// successful: each declared node is current, under its declared parent, in
/// the slot of its ordinal there; identities are distinct; only declared
/// nodes are current; nothing else changed.
pub open spec fn build_inv(start: HierarchyView, ds: Seq<Declaration>, i: int, s: HierarchyView, rs: Seq<Outcome>) -> bool {
    &&& s.wf()
    &&& s.consistent()
    &&& s.epoch == start.epoch
    &&& rs.len() == i
    &&& all_ok(rs)
    &&& s.root.epoch == s.epoch
    &&& s.root.counter == count_under(ds, i, None)
    &&& slots_kept(s.root, start.root)
    &&& forall|j: int| 0 <= j < i ==> declared_at(start, ds, s, rs, i, j, #[trigger] decl_id(rs, j))
    &&& forall|j: int, l: int| 0 <= j < l < i ==> #[trigger] decl_id(rs, j) != #[trigger] decl_id(rs, l)
    &&& forall|k: u64| #[trigger] s.is_current(k) ==> exists|j: int| 0 <= j < i && (#[trigger] decl_id(rs, j)).0 == k
    &&& forall|k: u64| (forall|j: int| 0 <= j < i ==> (#[trigger] decl_id(rs, j)).0 != k) ==> untouched(start, s, k)
}

pub open spec fn untouched(start: HierarchyView, s: HierarchyView, k: u64) -> bool {
    &&& s.nodes.contains_key(k) == start.nodes.contains_key(k)
    &&& start.nodes.contains_key(k) ==> s.nodes[k] == start.nodes[k]
}

/// Facts about declaration `j`, which received `id`, after `i` declarations.
pub open spec fn declared_at(
    start: HierarchyView,
    ds: Seq<Declaration>,
    s: HierarchyView,
    rs: Seq<Outcome>,
    i: int,
    j: int,
    id: WidgetId,
) -> bool {
    let p = parent_id_of(rs, ds[j].parent);
    let k = count_under(ds, j, ds[j].parent);
    &&& s.nodes.contains_key(id.0)
    &&& s.nodes[id.0].epoch == s.epoch
    &&& s.nodes[id.0].parent_id == p
    &&& s.nodes[id.0].counter == count_under(ds, i, Some(j as nat))
    &&& start.nodes.contains_key(id.0) ==> slots_kept(s.nodes[id.0], start.nodes[id.0])
    &&& id == identity_of(p, ds[j].type_tag, k as u64)
    &&& k < MAX_CHILDREN
    &&& p != Some(id)
    &&& s.node(p) is Some
    &&& k < parent_node(s, p).children.len()
    &&& parent_node(s, p).children[k as int] == id
}

pub proof fn lemma_build_take(start: HierarchyView, ds: Seq<Declaration>, i: int)
    requires
        0 <= i < ds.len(),
    ensures
        ({
            let (s, rs) = build(start, ds.take(i));
            let d = ds[i];
            let (s2, r) = s.spec_add_or_update(d.type_tag, parent_id_of(rs, d.parent));
            build(start, ds.take(i + 1)) == (s2, rs.push(r))
        }),
{
    assert(ds.take(i + 1).drop_last() =~= ds.take(i));
}

pub proof fn lemma_build_prefix(start: HierarchyView, ds: Seq<Declaration>, i: int)
    requires
        0 <= i <= ds.len(),
    ensures
        build(start, ds.take(i)).1 == build(start, ds).1.take(i),
        build(start, ds).1.len() == ds.len(),
    decreases ds.len() - i,
{
    if i < ds.len() {
        lemma_build_prefix(start, ds, i + 1);
        lemma_build_take(start, ds, i);
        lemma_build_len(start, ds.take(i));
        assert(build(start, ds.take(i + 1)).1.take(i) =~= build(start, ds.take(i)).1);
        assert(build(start, ds).1.take(i + 1).take(i) =~= build(start, ds).1.take(i));
    } else {
        assert(ds.take(i) =~= ds);
        lemma_build_len(start, ds);
        assert(build(start, ds).1.take(i) =~= build(start, ds).1);
    }
}

pub proof fn lemma_build_len(start: HierarchyView, ds: Seq<Declaration>)
    ensures
        build(start, ds).1.len() == ds.len(),
    decreases ds.len(),
{
    if ds.len() > 0 {
        lemma_build_len(start, ds.drop_last());
    }
}

pub proof fn lemma_count_under_step(ds: Seq<Declaration>, i: int, p: Option<nat>)
    requires
        0 <= i,
    ensures
        count_under(ds, i + 1, p) == count_under(ds, i, p) + if ds[i].parent == p { 1nat } else { 0nat },
{
}

/// Declarations under the same parent get increasing ordinals.
pub proof fn lemma_count_under_mono(ds: Seq<Declaration>, j: int, i: int, p: Option<nat>)
    requires
        0 <= j <= i,
    ensures
        count_under(ds, j, p) <= count_under(ds, i, p),
    decreases i - j,
{
    if j < i {
        lemma_count_under_mono(ds, j, i - 1, p);
    }
}

/// No declaration before `i + 1` has declaration `i` as its parent.
pub proof fn lemma_count_under_none_yet(ds: Seq<Declaration>, i: int, m: int)
    requires
        decls_wf(ds),
        0 <= m <= i + 1,
        i < ds.len(),
    ensures
        count_under(ds, m, Some(i as nat)) == 0,
    decreases m,
{
    if m > 0 {
        lemma_count_under_none_yet(ds, i, m - 1);
        let d = ds[m - 1];
        if d.parent is Some {
            assert(d.parent->Some_0 < m - 1);
        }
    }
}

} // verus!

verus! {

pub proof fn lemma_build_inv_base(start: HierarchyView, ds: Seq<Declaration>)
    requires
        fresh_epoch(start),
    ensures
        build_inv(start, ds, 0, start, Seq::empty()),
{
    assert forall|k: u64| #[trigger] start.is_current(k) implies exists|j: int| 0 <= j < 0 && (#[trigger] decl_id(
        Seq::<Outcome>::empty(),
        j,
    )).0 == k by {
        assert(start.nodes[k].epoch != start.epoch);
    }
}

pub proof fn lemma_build_inv_step(start: HierarchyView, ds: Seq<Declaration>, i: int)
    requires
        fresh_epoch(start),
        decls_wf(ds),
        0 <= i < ds.len(),
        build_inv(start, ds, i, build(start, ds.take(i)).0, build(start, ds.take(i)).1),
        build(start, ds.take(i + 1)).1[i] is Ok,
    ensures
        build_inv(start, ds, i + 1, build(start, ds.take(i + 1)).0, build(start, ds.take(i + 1)).1),
{
    let (s, rs) = build(start, ds.take(i));
    let d = ds[i];
    let p = parent_id_of(rs, d.parent);
    let k = count_under(ds, i, d.parent);
    lemma_build_take(start, ds, i);
    let (s2, r) = s.spec_add_or_update(d.type_tag, p);
    let rs2 = rs.push(r);
    assert(build(start, ds.take(i + 1)) == (s2, rs2));
    lemma_add_keeps_consistent(s, d.type_tag, p);
    assert(r is Ok);
    // the parent is current and its counter is the ordinal
    match d.parent {
        None => {},
        Some(q) => {
            assert(q < i);
            assert(declared_at(start, ds, s, rs, i, q as int, decl_id(rs, q as int)));
        },
    }
    assert(s.node(p) is Some);
    let pn = parent_node(s, p);
    assert(pn.epoch == s.epoch);
    assert(pn.counter == k);
    let id = identity_of(p, d.type_tag, k as u64);
    assert(decl_id(rs2, i) == id);
    assert(!s.is_current(id.0));
    assert(forall|j: int| 0 <= j < i ==> decl_id(rs2, j) == decl_id(rs, j));
    assert(forall|j: int| 0 <= j < i ==> parent_id_of(rs2, ds[j].parent) == parent_id_of(rs, ds[j].parent)) by {
        assert forall|j: int| 0 <= j < i implies parent_id_of(rs2, ds[j].parent) == parent_id_of(rs, ds[j].parent) by {
            let dj = ds[j];
            if dj.parent is Some {
                assert(dj.parent->Some_0 < j);
            }
        }
    }
    assert(parent_id_of(rs2, d.parent) == p);
    // which earlier declaration is the parent
    assert forall|j: int| 0 <= j < i implies (p == Some(#[trigger] decl_id(rs, j))) == (d.parent == Some(j as nat)) by {
        match d.parent {
            None => {},
            Some(q) => {
                if q != j {
                    if q < j {
                        assert(decl_id(rs, q as int) != decl_id(rs, j));
                    } else {
                        assert(decl_id(rs, j) != decl_id(rs, q as int));
                    }
                }
            },
        }
    }
    lemma_count_under_none_yet(ds, i, i + 1);
    assert forall|m: Option<nat>| #[trigger] count_under(ds, i + 1, m) == count_under(ds, i, m) + if d.parent == m {
        1nat
    } else {
        0nat
    } by {
        lemma_count_under_step(ds, i, m);
    }
    let child_is_update = k < pn.children.len() && pn.children[k as int] == id && s.nodes.contains_key(id.0);
    // the declared node
    assert(declared_at(start, ds, s2, rs2, i + 1, i, decl_id(rs2, i))) by {
        assert(forall|j: int| 0 <= j < i ==> (#[trigger] decl_id(rs, j)).0 != id.0);
        if child_is_update {
            assert(untouched(start, s, id.0));
        } else {
            assert(untouched(start, s, id.0));
        }
    }
    // earlier declarations
    assert forall|j: int| 0 <= j < i + 1 implies declared_at(start, ds, s2, rs2, i + 1, j, #[trigger] decl_id(rs2, j)) by {
        if j < i {
            let idj = decl_id(rs, j);
            assert(declared_at(start, ds, s, rs, i, j, idj));
            assert(idj != id);
            let pj = parent_id_of(rs, ds[j].parent);
            let kj = count_under(ds, j, ds[j].parent);
            assert(parent_id_of(rs2, ds[j].parent) == pj);
            if pj == p {
                assert(ds[j].parent == d.parent) by {
                    match (ds[j].parent, d.parent) {
                        (Some(a), Some(b)) => {
                            if a != b {
                                if a < b {
                                    assert(decl_id(rs, a as int) != decl_id(rs, b as int));
                                } else {
                                    assert(decl_id(rs, b as int) != decl_id(rs, a as int));
                                }
                            }
                        },
                        _ => {},
                    }
                }
                lemma_count_under_mono(ds, j + 1, i, d.parent);
                lemma_count_under_step(ds, j, d.parent);
                assert(kj < k);
            }
            if pj == Some(id) {
                match ds[j].parent {
                    Some(q) => {
                        assert(q < j);
                        assert(declared_at(start, ds, s, rs, i, q as int, decl_id(rs, q as int)));
                    },
                    None => {},
                }
            }
        }
    }
    assert forall|j: int, l: int| 0 <= j < l < i + 1 implies #[trigger] decl_id(rs2, j) != #[trigger] decl_id(rs2, l) by {
        if l == i {
            assert(declared_at(start, ds, s, rs, i, j, decl_id(rs, j)));
        } else {
            assert(decl_id(rs, j) != decl_id(rs, l));
        }
    }
    assert forall|q: u64| #[trigger] s2.is_current(q) implies exists|j: int| 0 <= j < i + 1 && (#[trigger] decl_id(
        rs2,
        j,
    )).0 == q by {
        if q == id.0 {
            assert(decl_id(rs2, i).0 == q);
        } else {
            assert(s.is_current(q));
            let j = choose|j: int| 0 <= j < i && (#[trigger] decl_id(rs, j)).0 == q;
            assert(decl_id(rs2, j).0 == q);
        }
    }
    assert forall|q: u64| (forall|j: int| 0 <= j < i + 1 ==> (#[trigger] decl_id(rs2, j)).0 != q) implies untouched(
        start,
        s2,
        q,
    ) by {
        assert(forall|j: int| 0 <= j < i ==> (#[trigger] decl_id(rs, j)).0 != q) by {
            assert forall|j: int| 0 <= j < i implies (#[trigger] decl_id(rs, j)).0 != q by {
                assert(decl_id(rs2, j).0 != q);
            }
        }
        assert(untouched(start, s, q));
        assert(q != id.0) by {
            assert(decl_id(rs2, i).0 != q);
        }
        match d.parent {
            Some(b) => {
                assert(decl_id(rs2, b as int).0 != q);
            },
            None => {},
        }
    }
}

} // verus!

verus! {

/// A successful build from a fresh epoch ends in `build_inv`.
pub proof fn lemma_build_inv(start: HierarchyView, ds: Seq<Declaration>, i: int)
    requires
        fresh_epoch(start),
        decls_wf(ds),
        0 <= i <= ds.len(),
        all_ok(build(start, ds).1),
    ensures
        build_inv(start, ds, i, build(start, ds.take(i)).0, build(start, ds.take(i)).1),
    decreases i,
{
    if i == 0 {
        assert(ds.take(0) =~= Seq::<Declaration>::empty());
        lemma_build_inv_base(start, ds);
    } else {
        lemma_build_inv(start, ds, i - 1);
        lemma_build_prefix(start, ds, i);
        assert(build(start, ds.take(i)).1[i - 1] == build(start, ds).1[i - 1]);
        lemma_build_inv_step(start, ds, i - 1);
    }
}

/// A collection keeps the tree well formed.
pub proof fn lemma_collect_wf(h: HierarchyView)
    requires
        h.wf(),
    ensures
        h.spec_collect_stale().wf(),
{
}

} // verus!

verus! {

/// After a collection (every node current), a new epoch is fresh.
pub proof fn lemma_new_epoch_fresh(h: HierarchyView)
    requires
        h.wf(),
        h.all_current(),
    ensures
        fresh_epoch(h.spec_new_epoch()),
{
    let g = h.spec_new_epoch();
    assert forall|k: u64| #[trigger] g.nodes.contains_key(k) implies g.nodes[k].epoch != g.epoch by {
        assert(h.nodes[k].epoch == h.epoch);
    }
}

/// What the collection after a successful build keeps of declaration `i`.
proof fn lemma_collected_declaration(start: HierarchyView, ds: Seq<Declaration>, i: int)
    requires
        fresh_epoch(start),
        decls_wf(ds),
        0 <= i < ds.len(),
        all_ok(build(start, ds).1),
    ensures
        ({
            let (s1, rs1) = build(start, ds);
            let g = s1.spec_collect_stale();
            let id = decl_id(rs1, i);
            let p = parent_id_of(rs1, ds[i].parent);
            let k = count_under(ds, i, ds[i].parent);
            &&& g.nodes.contains_key(id.0)
            &&& g.nodes[id.0].epoch == g.epoch
            &&& g.nodes[id.0].parent_id == p
            &&& g.node(p) is Some
            &&& k < parent_node(g, p).children.len()
            &&& parent_node(g, p).children[k as int] == id
            &&& id == identity_of(p, ds[i].type_tag, k as u64)
            &&& k < MAX_CHILDREN
            &&& p != Some(id)
            &&& forall|j: int| 0 <= j < i ==> #[trigger] decl_id(rs1, j) != id
        }),
{
    let n = ds.len() as int;
    lemma_build_inv(start, ds, n);
    assert(ds.take(n) =~= ds);
    let (s1, rs1) = build(start, ds);
    let id = decl_id(rs1, i);
    assert(declared_at(start, ds, s1, rs1, n, i, id));
    let p = parent_id_of(rs1, ds[i].parent);
    lemma_count_under_mono(ds, i + 1, n, ds[i].parent);
    lemma_count_under_step(ds, i, ds[i].parent);
    match ds[i].parent {
        None => {},
        Some(q) => {
            assert(q < i);
            assert(declared_at(start, ds, s1, rs1, n, q as int, decl_id(rs1, q as int)));
        },
    }
    assert forall|j: int| 0 <= j < i implies #[trigger] decl_id(rs1, j) != id by {
        assert(decl_id(rs1, j) != decl_id(rs1, i));
    }
}

/// Rebuilding the same declarations in the next epoch: every declaration so far
/// kept its identity, as an update.
proof fn lemma_rebuild(h: HierarchyView, ds: Seq<Declaration>, i: int)
    requires
        h.wf(),
        h.all_current(),
        decls_wf(ds),
        all_ok(build(h.spec_new_epoch(), ds).1),
        0 <= i <= ds.len(),
    ensures
        ({
            let rs1 = build(h.spec_new_epoch(), ds).1;
            let start2 = build(h.spec_new_epoch(), ds).0.spec_collect_stale().spec_new_epoch();
            let (s2, rs2) = build(start2, ds.take(i));
            &&& build_inv(start2, ds, i, s2, rs2)
            &&& forall|j: int| 0 <= j < i ==> #[trigger] rs2[j] == Ok::<NodeUpdateResult, HierarchyError>(
                NodeUpdateResult { widget_id: decl_id(rs1, j), status: NodeUpdateStatus::Update },
            )
        }),
    decreases i,
{
    let start1 = h.spec_new_epoch();
    lemma_new_epoch_fresh(h);
    let (s1, rs1) = build(start1, ds);
    let g = s1.spec_collect_stale();
    let n = ds.len() as int;
    lemma_build_inv(start1, ds, n);
    assert(ds.take(n) =~= ds);
    lemma_collect_wf(s1);
    let start2 = g.spec_new_epoch();
    lemma_new_epoch_fresh(g);
    if i == 0 {
        assert(ds.take(0) =~= Seq::<Declaration>::empty());
        lemma_build_inv_base(start2, ds);
    } else {
        let m = i - 1;
        lemma_rebuild(h, ds, m);
        let (s, rs) = build(start2, ds.take(m));
        let d = ds[m];
        let p = parent_id_of(rs, d.parent);
        let k = count_under(ds, m, d.parent);
        lemma_collected_declaration(start1, ds, m);
        assert(p == parent_id_of(rs1, d.parent)) by {
            match d.parent {
                Some(q) => {
                    assert(q < m);
                    assert(rs[q as int] == Ok::<NodeUpdateResult, HierarchyError>(
                        NodeUpdateResult { widget_id: decl_id(rs1, q as int), status: NodeUpdateStatus::Update },
                    ));
                },
                None => {},
            }
        }
        let id = decl_id(rs1, m);
        // the parent is current with counter k, and its slot k still holds id
        match d.parent {
            None => {},
            Some(q) => {
                assert(declared_at(start2, ds, s, rs, m, q as int, decl_id(rs, q as int)));
                lemma_collected_declaration(start1, ds, q as int);
            },
        }
        let pn = parent_node(s, p);
        assert(pn.epoch == s.epoch && pn.counter == k);
        assert(pn.children[k as int] == id);
        // the node itself is as the collection left it
        assert forall|j: int| 0 <= j < m implies (#[trigger] decl_id(rs, j)).0 != id.0 by {
            assert(rs[j] == Ok::<NodeUpdateResult, HierarchyError>(
                NodeUpdateResult { widget_id: decl_id(rs1, j), status: NodeUpdateStatus::Update },
            ));
            assert(decl_id(rs1, j) != id);
        }
        assert(untouched(start2, s, id.0));
        lemma_build_take(start2, ds, m);
        let r = s.spec_add_or_update(d.type_tag, p).1;
        assert(r == Ok::<NodeUpdateResult, HierarchyError>(
            NodeUpdateResult { widget_id: id, status: NodeUpdateStatus::Update },
        ));
        lemma_build_inv_step(start2, ds, m);
    }
}

/// Identity stability: after a collection, building a sequence of declarations
/// in one epoch and the same sequence again in the next gives every
/// declaration the same identity both times, and the second time as an update.
pub proof fn lemma_identity_stable_across_epochs(h: HierarchyView, ds: Seq<Declaration>)
    requires
        h.wf(),
        h.all_current(),
        decls_wf(ds),
        all_ok(build(h.spec_new_epoch(), ds).1),
    ensures
        ({
            let (h1, rs1) = build(h.spec_new_epoch(), ds);
            let rs2 = build(h1.spec_collect_stale().spec_new_epoch(), ds).1;
            &&& rs1.len() == ds.len()
            &&& rs2.len() == ds.len()
            &&& forall|i: int| 0 <= i < ds.len() ==> #[trigger] rs2[i] == Ok::<NodeUpdateResult, HierarchyError>(
                NodeUpdateResult { widget_id: rs1[i]->Ok_0.widget_id, status: NodeUpdateStatus::Update },
            )
        }),
{
    let n = ds.len() as int;
    lemma_rebuild(h, ds, n);
    assert(ds.take(n) =~= ds);
    lemma_build_len(h.spec_new_epoch(), ds);
}

} // verus!

verus! {

/// Collection completeness: after a build in the epoch following a collection,
/// the identities the next collection removes are exactly those of the
/// previous tree that this build did not declare (whole omitted subtrees
/// included); afterwards none of them is a node or listed as a child.
pub proof fn lemma_omitted_are_collected(g: HierarchyView, ds: Seq<Declaration>)
    requires
        g.wf(),
        g.all_current(),
        decls_wf(ds),
        all_ok(build(g.spec_new_epoch(), ds).1),
    ensures
        ({
            let (s, rs) = build(g.spec_new_epoch(), ds);
            let c = s.spec_collect_stale();
            &&& forall|w: WidgetId| #[trigger] s.stale_ids().contains(w) <==> (g.nodes.contains_key(w.0) && forall|
                j: int,
            | 0 <= j < ds.len() ==> #[trigger] decl_id(rs, j) != w)
            &&& c.closed()
            &&& forall|w: WidgetId| #[trigger] s.stale_ids().contains(w) ==> !c.nodes.contains_key(w.0)
        }),
{
    let start = g.spec_new_epoch();
    lemma_new_epoch_fresh(g);
    let n = ds.len() as int;
    lemma_build_inv(start, ds, n);
    assert(ds.take(n) =~= ds);
    let (s, rs) = build(start, ds);
    lemma_collect_leaves_closed_tree(s);
    assert forall|w: WidgetId| #[trigger] s.stale_ids().contains(w) <==> (g.nodes.contains_key(w.0) && forall|j: int|
        0 <= j < ds.len() ==> #[trigger] decl_id(rs, j) != w) by {
        if s.stale_ids().contains(w) {
            if exists|j: int| 0 <= j < n && #[trigger] decl_id(rs, j) == w {
                let j = choose|j: int| 0 <= j < n && #[trigger] decl_id(rs, j) == w;
                assert(declared_at(start, ds, s, rs, n, j, decl_id(rs, j)));
            }
            assert(forall|j: int| 0 <= j < n ==> (#[trigger] decl_id(rs, j)).0 != w.0);
            assert(untouched(start, s, w.0));
        }
        if g.nodes.contains_key(w.0) && forall|j: int| 0 <= j < n ==> #[trigger] decl_id(rs, j) != w {
            assert forall|j: int| 0 <= j < n implies (#[trigger] decl_id(rs, j)).0 != w.0 by {
                assert(decl_id(rs, j) != w);
            }
            assert(untouched(start, s, w.0));
            assert(g.nodes[w.0].epoch == g.epoch);
        }
    }
}

} // verus!

verus! {

/// Whether declaration `i` is `m` or lies under it.
pub open spec fn in_subtree(ds: Seq<Declaration>, m: int, i: int) -> bool
    decreases i,
{
    if i < 0 || i >= ds.len() {
        false
    } else if i == m {
        true
    } else {
        match ds[i].parent {
            Some(q) => if q < i {
                in_subtree(ds, m, q as int)
            } else {
                false
            },
            None => false,
        }
    }
}

/// Structural isolation: two successful builds whose declarations differ only
/// in the type of declaration `m` give every declaration outside `m`'s subtree
/// the same identity (its ancestors, its later siblings and unrelated subtrees
/// alike), whatever trees they started from.
pub proof fn lemma_type_change_is_local(
    start_a: HierarchyView,
    start_b: HierarchyView,
    ds_a: Seq<Declaration>,
    ds_b: Seq<Declaration>,
    m: int,
)
    requires
        fresh_epoch(start_a),
        fresh_epoch(start_b),
        decls_wf(ds_a),
        ds_b.len() == ds_a.len(),
        0 <= m < ds_a.len(),
        forall|i: int| 0 <= i < ds_a.len() ==> (#[trigger] ds_b[i]).parent == ds_a[i].parent,
        forall|i: int| 0 <= i < ds_a.len() && i != m ==> (#[trigger] ds_b[i]).type_tag == ds_a[i].type_tag,
        all_ok(build(start_a, ds_a).1),
        all_ok(build(start_b, ds_b).1),
    ensures
        forall|i: int|
            0 <= i < ds_a.len() && !in_subtree(ds_a, m, i) ==> #[trigger] decl_id(build(start_a, ds_a).1, i) == decl_id(
                build(start_b, ds_b).1,
                i,
            ),
{
    let n = ds_a.len() as int;
    assert(decls_wf(ds_b)) by {
        assert forall|i: int| 0 <= i < ds_b.len() && (#[trigger] ds_b[i]).parent is Some implies ds_b[i].parent->Some_0
            < i by {
            assert(ds_b[i].parent == ds_a[i].parent);
        }
    }
    lemma_build_inv(start_a, ds_a, n);
    lemma_build_inv(start_b, ds_b, n);
    assert(ds_a.take(n) =~= ds_a);
    assert(ds_b.take(n) =~= ds_b);
    assert forall|i: int| 0 <= i < n && !in_subtree(ds_a, m, i) implies #[trigger] decl_id(build(start_a, ds_a).1, i)
        == decl_id(build(start_b, ds_b).1, i) by {
        lemma_outside_subtree_same_id(start_a, start_b, ds_a, ds_b, m, i);
    }
}

proof fn lemma_count_under_same(ds_a: Seq<Declaration>, ds_b: Seq<Declaration>, i: int, p: Option<nat>)
    requires
        0 <= i <= ds_a.len() == ds_b.len(),
        forall|l: int| 0 <= l < ds_a.len() ==> (#[trigger] ds_b[l]).parent == ds_a[l].parent,
    ensures
        count_under(ds_a, i, p) == count_under(ds_b, i, p),
    decreases i,
{
    if i > 0 {
        lemma_count_under_same(ds_a, ds_b, i - 1, p);
        assert(ds_b[i - 1].parent == ds_a[i - 1].parent);
    }
}

proof fn lemma_outside_subtree_same_id(
    start_a: HierarchyView,
    start_b: HierarchyView,
    ds_a: Seq<Declaration>,
    ds_b: Seq<Declaration>,
    m: int,
    i: int,
)
    requires
        decls_wf(ds_a),
        ds_b.len() == ds_a.len(),
        0 <= m < ds_a.len(),
        0 <= i < ds_a.len(),
        !in_subtree(ds_a, m, i),
        forall|l: int| 0 <= l < ds_a.len() ==> (#[trigger] ds_b[l]).parent == ds_a[l].parent,
        forall|l: int| 0 <= l < ds_a.len() && l != m ==> (#[trigger] ds_b[l]).type_tag == ds_a[l].type_tag,
        build_inv(start_a, ds_a, ds_a.len() as int, build(start_a, ds_a).0, build(start_a, ds_a).1),
        build_inv(start_b, ds_b, ds_b.len() as int, build(start_b, ds_b).0, build(start_b, ds_b).1),
    ensures
        decl_id(build(start_a, ds_a).1, i) == decl_id(build(start_b, ds_b).1, i),
    decreases i,
{
    let n = ds_a.len() as int;
    let (sa, rsa) = build(start_a, ds_a);
    let (sb, rsb) = build(start_b, ds_b);
    assert(declared_at(start_a, ds_a, sa, rsa, n, i, decl_id(rsa, i)));
    assert(declared_at(start_b, ds_b, sb, rsb, n, i, decl_id(rsb, i)));
    assert(ds_b[i].parent == ds_a[i].parent);
    assert(ds_b[i].type_tag == ds_a[i].type_tag);
    lemma_count_under_same(ds_a, ds_b, i, ds_a[i].parent);
    match ds_a[i].parent {
        None => {},
        Some(q) => {
            assert(q < i);
            lemma_outside_subtree_same_id(start_a, start_b, ds_a, ds_b, m, q as int);
        },
    }
}

} // verus!

verus! {

/// In a successful build from a fresh epoch, a declaration comes back as an
/// update exactly when its identity was already a node of the starting tree,
/// and as an addition otherwise.
pub proof fn lemma_update_iff_known(start: HierarchyView, ds: Seq<Declaration>, i: int)
    requires
        fresh_epoch(start),
        decls_wf(ds),
        all_ok(build(start, ds).1),
        0 <= i < ds.len(),
    ensures
        (build(start, ds).1[i]->Ok_0.status == NodeUpdateStatus::Update) == start.nodes.contains_key(
            decl_id(build(start, ds).1, i).0,
        ),
{
    lemma_build_inv(start, ds, i);
    lemma_build_prefix(start, ds, i + 1);
    lemma_build_prefix(start, ds, i);
    lemma_build_take(start, ds, i);
    let (s, rs) = build(start, ds.take(i));
    let d = ds[i];
    let p = parent_id_of(rs, d.parent);
    let (s2, r) = s.spec_add_or_update(d.type_tag, p);
    assert(build(start, ds.take(i + 1)).1[i] == r);
    assert(build(start, ds).1[i] == r);
    assert(r is Ok);
    let id = r->Ok_0.widget_id;
    assert(parent_id_of(build(start, ds).1, d.parent) == p) by {
        if d.parent is Some {
            assert(d.parent->Some_0 < i);
            assert(build(start, ds).1.take(i)[d.parent->Some_0 as int] == rs[d.parent->Some_0 as int]);
        }
    }
    assert(decl_id(build(start, ds).1, i) == id);
    // every node of the start is still a node
    if start.nodes.contains_key(id.0) {
        if exists|j: int| 0 <= j < i && (#[trigger] decl_id(rs, j)).0 == id.0 {
            let j = choose|j: int| 0 <= j < i && (#[trigger] decl_id(rs, j)).0 == id.0;
            assert(declared_at(start, ds, s, rs, i, j, decl_id(rs, j)));
        } else {
            assert(untouched(start, s, id.0));
        }
        assert(s.nodes.contains_key(id.0));
    }
    if r->Ok_0.status == NodeUpdateStatus::Update {
        assert(!s.is_current(id.0));
        assert forall|j: int| 0 <= j < i implies (#[trigger] decl_id(rs, j)).0 != id.0 by {
            assert(declared_at(start, ds, s, rs, i, j, decl_id(rs, j)));
        }
        assert(untouched(start, s, id.0));
    }
}

/// Structural isolation across two epochs: after a collection, a build that
/// differs from the previous one only in the type of declaration `m` gives
/// every declaration outside `m`'s subtree its previous identity, as an
/// update; `m` and its subtree come back as additions whenever their new
/// identities are not nodes of the collected tree (no hash collision), so `m`
/// then has a new identity.
pub proof fn lemma_type_change_across_epochs(h: HierarchyView, ds_a: Seq<Declaration>, ds_b: Seq<Declaration>, m: int)
    requires
        h.wf(),
        h.all_current(),
        decls_wf(ds_a),
        ds_b.len() == ds_a.len(),
        0 <= m < ds_a.len(),
        forall|i: int| 0 <= i < ds_a.len() ==> (#[trigger] ds_b[i]).parent == ds_a[i].parent,
        forall|i: int| 0 <= i < ds_a.len() && i != m ==> (#[trigger] ds_b[i]).type_tag == ds_a[i].type_tag,
        all_ok(build(h.spec_new_epoch(), ds_a).1),
        all_ok(build(build(h.spec_new_epoch(), ds_a).0.spec_collect_stale().spec_new_epoch(), ds_b).1),
    ensures
        ({
            let rs_a = build(h.spec_new_epoch(), ds_a).1;
            let g = build(h.spec_new_epoch(), ds_a).0.spec_collect_stale();
            let rs_b = build(g.spec_new_epoch(), ds_b).1;
            &&& forall|i: int|
                0 <= i < ds_a.len() && !in_subtree(ds_a, m, i) ==> #[trigger] rs_b[i] == Ok::<
                    NodeUpdateResult,
                    HierarchyError,
                >(NodeUpdateResult { widget_id: decl_id(rs_a, i), status: NodeUpdateStatus::Update })
            &&& forall|i: int|
                0 <= i < ds_a.len() ==> ((#[trigger] rs_b[i])->Ok_0.status == NodeUpdateStatus::Added
                    <==> !g.nodes.contains_key(decl_id(rs_b, i).0))
            &&& !g.nodes.contains_key(decl_id(rs_b, m).0) ==> decl_id(rs_b, m) != decl_id(rs_a, m)
        }),
{
    let start1 = h.spec_new_epoch();
    lemma_new_epoch_fresh(h);
    let (s1, rs_a) = build(start1, ds_a);
    let g = s1.spec_collect_stale();
    let n = ds_a.len() as int;
    lemma_build_inv(start1, ds_a, n);
    assert(ds_a.take(n) =~= ds_a);
    lemma_collect_wf(s1);
    let start2 = g.spec_new_epoch();
    lemma_new_epoch_fresh(g);
    let rs_b = build(start2, ds_b).1;
    assert(decls_wf(ds_b)) by {
        assert forall|i: int| 0 <= i < ds_b.len() && (#[trigger] ds_b[i]).parent is Some implies ds_b[i].parent->Some_0
            < i by {
            assert(ds_b[i].parent == ds_a[i].parent);
        }
    }
    lemma_type_change_is_local(start1, start2, ds_a, ds_b, m);
    lemma_build_len(start2, ds_b);
    assert forall|i: int| 0 <= i < n implies ((#[trigger] rs_b[i])->Ok_0.status == NodeUpdateStatus::Added
        <==> !g.nodes.contains_key(decl_id(rs_b, i).0)) by {
        lemma_update_iff_known(start2, ds_b, i);
    }
    assert forall|i: int| 0 <= i < n && !in_subtree(ds_a, m, i) implies #[trigger] rs_b[i] == Ok::<
        NodeUpdateResult,
        HierarchyError,
    >(NodeUpdateResult { widget_id: decl_id(rs_a, i), status: NodeUpdateStatus::Update }) by {
        lemma_collected_declaration(start1, ds_a, i);
        lemma_update_iff_known(start2, ds_b, i);
        assert(rs_b[i] is Ok);
    }
    lemma_collected_declaration(start1, ds_a, m);
}

} // verus!
