use vstd::prelude::*;
use vstd::std_specs::hash::DefaultHasherAdditionalSpecFns;
use vstd::std_specs::iter::IteratorSpec;

use std::collections::{HashMap, HashSet};

use crate::layout::MAX_CHILDREN;
use std::hash::Hasher;

verus! {

broadcast use vstd::std_specs::hash::group_hash_axioms;

/// The stable identity of a declared widget.
#[derive(Debug, Clone, Copy, PartialEq, Eq, Hash, Structural)]
pub struct WidgetId(pub u64);

#[derive(Debug, Clone, Copy, PartialEq, Eq, Structural)]
pub enum NodeUpdateStatus {
    /// First declaration at this place: a fresh node.
    Added,
    /// Same place as in the previous epoch: the node is kept.
    Update,
}

#[derive(Debug, Clone, Copy, PartialEq, Eq, Structural)]
pub struct NodeUpdateResult {
    pub widget_id: WidgetId,
    pub status: NodeUpdateStatus,
}

/// What, besides the parent and the ordinal, goes into an identity.
#[derive(Debug, Clone, Copy, PartialEq, Eq, Structural)]
pub enum WidgetIdFragment {
    /// A discriminant of the widget's type.
    TypedOrdered(u64),
}

/// A broken usage invariant of the hierarchy.
#[derive(Debug, Clone, Copy, PartialEq, Eq, Structural)]
pub enum HierarchyError {
    /// The parent identity names no node.
    MissingParent,
    /// The parent was not declared in the current epoch.
    StaleParent,
    /// The identity matches last epoch's child slot, but that node has another parent.
    ParentMismatch,
    /// The node was already declared in the current epoch.
    AlreadyUpdated,
    /// A node with the computed identity exists elsewhere in the tree.
    AlreadyAdded,
    /// The parent already has `MAX_CHILDREN` children in this epoch.
    ChildLimit,
}

/// One node of the tree.
#[derive(Debug)]
pub struct HierarchyNode {
    pub parent_id: Option<WidgetId>,
    pub children: Vec<WidgetId>,
    /// Children declared under this node in the current epoch.
    pub current_epoch_child_counter: usize,
    /// The epoch in which the node was last declared.
    pub epoch: u8,
}

/// The abstract state of a node.
pub struct NodeView {
    pub parent_id: Option<WidgetId>,
    pub children: Seq<WidgetId>,
    pub counter: nat,
    pub epoch: u8,
}

impl View for HierarchyNode {
    type V = NodeView;

    open spec fn view(&self) -> NodeView {
        NodeView {
            parent_id: self.parent_id,
            children: self.children@,
            counter: self.current_epoch_child_counter as nat,
            epoch: self.epoch,
        }
    }
}

impl NodeView {
    /// The node stamped with `epoch` and its child counter reset.
    pub open spec fn restamped(self, epoch: u8) -> NodeView {
        NodeView { epoch, counter: 0, ..self }
    }

    /// Children past the counter are left over from an earlier epoch; a sibling
    /// group never exceeds `MAX_CHILDREN`.
    pub open spec fn wf(self) -> bool {
        self.counter <= self.children.len() <= MAX_CHILDREN
    }
}

impl HierarchyNode {
    pub fn update_epoch(&mut self, epoch: u8)
        ensures
            final(self)@ == old(self)@.restamped(epoch),
    {
        self.epoch = epoch;
        self.current_epoch_child_counter = 0;
    }
}

/// The abstract state of the tree.
pub struct HierarchyView {
    pub root: NodeView,
    pub nodes: Map<u64, NodeView>,
    pub epoch: u8,
}

impl HierarchyView {
    pub open spec fn wf(self) -> bool {
        &&& self.root.wf()
        &&& forall|k: u64| #[trigger] self.nodes.contains_key(k) ==> self.nodes[k].wf()
    }

    /// The node named by `id`: the root for `None`.
    pub open spec fn node(self, id: Option<WidgetId>) -> Option<NodeView> {
        match id {
            None => Some(self.root),
            Some(w) => if self.nodes.contains_key(w.0) {
                Some(self.nodes[w.0])
            } else {
                None
            },
        }
    }

    /// The tree with the node named by `id` (which exists) replaced by `n`.
    pub open spec fn with_node(self, id: Option<WidgetId>, n: NodeView) -> HierarchyView {
        match id {
            None => HierarchyView { root: n, ..self },
            Some(w) => HierarchyView { nodes: self.nodes.insert(w.0, n), ..self },
        }
    }

    /// Whether a declaration may go under `parent`: it names the root or a node
    /// declared in the current epoch.
    pub open spec fn can_declare_under(self, parent: Option<WidgetId>) -> bool {
        self.node(parent) matches Some(n) && n.epoch == self.epoch
    }

    /// A node is stale when it was not declared in the current epoch.
    pub open spec fn is_current(self, k: u64) -> bool {
        self.nodes.contains_key(k) && self.nodes[k].epoch == self.epoch
    }
}

/// Little-endian bytes of `v`.
pub open spec fn le_bytes(v: u64) -> Seq<u8> {
    Seq::new(8, |i: int| (v >> ((8 * i) as u64)) as u8)
}

/// The bytes written for a parent identity.
pub open spec fn parent_bytes(parent: Option<WidgetId>) -> Seq<u8> {
    match parent {
        None => seq![0u8],
        Some(w) => seq![1u8] + le_bytes(w.0),
    }
}

/// The identity derived from parent, type discriminant and ordinal: the digest
/// of std's default hasher over their bytes.
pub open spec fn identity_of(parent: Option<WidgetId>, type_tag: u64, ordinal: u64) -> WidgetId {
    WidgetId(
        std::hash::DefaultHasher::spec_finish(seq![parent_bytes(parent), le_bytes(type_tag), le_bytes(ordinal)]),
    )
}

fn push_le_bytes(out: &mut Vec<u8>, v: u64)
    ensures
        final(out)@ == old(out)@ + le_bytes(v),
{
    let mut i: u64 = 0;
    while i < 8
        invariant
            i <= 8,
            out@ == old(out)@ + le_bytes(v).take(i as int),
        decreases 8 - i,
    {
        out.push((v >> (8 * i)) as u8);
        assert(le_bytes(v).take(i as int + 1) =~= le_bytes(v).take(i as int).push((v >> (8 * i)) as u8));
        i = i + 1;
    }
    assert(le_bytes(v).take(8) =~= le_bytes(v));
}

/// Derives the identity of the child at `ordinal` under `parent`.
pub fn derive_widget_id(parent: Option<WidgetId>, type_tag: u64, ordinal: u64) -> (r: WidgetId)
    ensures
        r == identity_of(parent, type_tag, ordinal),
{
    let mut hasher = std::hash::DefaultHasher::new();
    let mut p: Vec<u8> = Vec::new();
    match parent {
        None => p.push(0u8),
        Some(w) => {
            p.push(1u8);
            push_le_bytes(&mut p, w.0);
        },
    }
    assert(p@ =~= parent_bytes(parent));
    hasher.write(p.as_slice());
    let mut t: Vec<u8> = Vec::new();
    push_le_bytes(&mut t, type_tag);
    assert(t@ =~= le_bytes(type_tag));
    hasher.write(t.as_slice());
    let mut o: Vec<u8> = Vec::new();
    push_le_bytes(&mut o, ordinal);
    assert(o@ =~= le_bytes(ordinal));
    hasher.write(o.as_slice());
    assert(hasher@ =~= seq![parent_bytes(parent), le_bytes(type_tag), le_bytes(ordinal)]);
    WidgetId(hasher.finish())
}

} // verus!

verus! {

/// The widget tree, with an epoch stamp on every node to find the ones not
/// declared in the current build.
#[derive(Debug)]
pub struct Hierarchy {
    pub root_node: HierarchyNode,
    pub nodes: HashMap<u64, HierarchyNode>,
    /// Wrapping epoch counter.
    pub epoch: u8,
}

impl View for Hierarchy {
    type V = HierarchyView;

    open spec fn view(&self) -> HierarchyView {
        HierarchyView {
            root: self.root_node@,
            nodes: self.nodes@.map_values(|n: HierarchyNode| n@),
            epoch: self.epoch,
        }
    }
}

impl HierarchyView {
    /// Declares a child of type `type_tag` under `parent`: the child's ordinal is
    /// the parent's counter, its identity is derived from parent, type and
    /// ordinal. If last epoch's child slot at that ordinal holds the same
    /// identity the node is kept (`Update`), else a fresh node takes the slot
    /// (`Added`).
    pub open spec fn spec_add_or_update(self, type_tag: u64, parent: Option<WidgetId>) -> (
        HierarchyView,
        Result<NodeUpdateResult, HierarchyError>,
    ) {
        match self.node(parent) {
            None => (self, Err(HierarchyError::MissingParent)),
            Some(pn) => if pn.epoch != self.epoch {
                (self, Err(HierarchyError::StaleParent))
            } else if pn.counter >= MAX_CHILDREN {
                (self, Err(HierarchyError::ChildLimit))
            } else {
                let ordinal = pn.counter as int;
                let id = identity_of(parent, type_tag, ordinal as u64);
                let counted = NodeView { counter: pn.counter + 1, ..pn };
                if parent == Some(id) {
                    (self, Err(HierarchyError::AlreadyAdded))
                } else if ordinal < pn.children.len() && pn.children[ordinal] == id && self.nodes.contains_key(id.0) {
                    let child = self.nodes[id.0];
                    if child.parent_id != parent {
                        (self, Err(HierarchyError::ParentMismatch))
                    } else if child.epoch == self.epoch {
                        (self, Err(HierarchyError::AlreadyUpdated))
                    } else {
                        (
                            self.with_node(parent, counted).with_node(Some(id), child.restamped(self.epoch)),
                            Ok(NodeUpdateResult { widget_id: id, status: NodeUpdateStatus::Update }),
                        )
                    }
                } else if self.nodes.contains_key(id.0) {
                    (self, Err(HierarchyError::AlreadyAdded))
                } else {
                    let children = if ordinal < pn.children.len() {
                        pn.children.update(ordinal, id)
                    } else {
                        pn.children.push(id)
                    };
                    let fresh = NodeView { parent_id: parent, children: Seq::empty(), counter: 0, epoch: self.epoch };
                    (
                        self.with_node(parent, NodeView { children, ..counted }).with_node(Some(id), fresh),
                        Ok(NodeUpdateResult { widget_id: id, status: NodeUpdateStatus::Added }),
                    )
                }
            },
        }
    }

    /// Starts a new epoch: the counter moves on, wrapping, and the root is
    /// stamped with it.
    pub open spec fn spec_new_epoch(self) -> HierarchyView {
        let e = (if self.epoch == 255 { 0 } else { self.epoch + 1 }) as u8;
        HierarchyView { root: self.root.restamped(e), epoch: e, ..self }
    }
}

fn same_parent(a: Option<WidgetId>, b: Option<WidgetId>) -> (r: bool)
    ensures
        r == (a == b),
{
    match (a, b) {
        (None, None) => true,
        (Some(x), Some(y)) => x.0 == y.0,
        _ => false,
    }
}

/// Whether the child slot at `ordinal`, left from the last epoch, holds `id`.
fn slot_holds(node: &HierarchyNode, ordinal: usize, id: WidgetId) -> (r: bool)
    ensures
        r == (ordinal < node@.children.len() && node@.children[ordinal as int] == id),
{
    ordinal < node.children.len() && node.children[ordinal].0 == id.0
}

/// Counts one more child and, for a fresh child, writes it into its slot.
fn count_child(node: &mut HierarchyNode, id: WidgetId, write_slot: bool)
    requires
        old(node)@.wf(),
        old(node)@.counter < MAX_CHILDREN,
    ensures
        final(node)@ == (if write_slot {
            NodeView {
                counter: old(node)@.counter + 1,
                children: if old(node)@.counter < old(node)@.children.len() {
                    old(node)@.children.update(old(node)@.counter as int, id)
                } else {
                    old(node)@.children.push(id)
                },
                ..old(node)@
            }
        } else {
            NodeView { counter: old(node)@.counter + 1, ..old(node)@ }
        }),
{
    let ordinal = node.current_epoch_child_counter;
    if write_slot {
        if ordinal < node.children.len() {
            node.children.set(ordinal, id);
        } else {
            node.children.push(id);
        }
    }
    node.current_epoch_child_counter = ordinal + 1;
}

impl Hierarchy {
    pub fn new() -> (r: Hierarchy)
        ensures
            r@.wf(),
            r@.epoch == 0,
            r@.nodes.is_empty(),
            r@.root == (NodeView { parent_id: None, children: Seq::empty(), counter: 0, epoch: 0 }),
    {
        let r = Hierarchy {
            root_node: HierarchyNode { parent_id: None, children: Vec::new(), current_epoch_child_counter: 0, epoch: 0 },
            nodes: HashMap::new(),
            epoch: 0,
        };
        assert(r@.nodes =~= Map::empty());
        r
    }

    pub fn new_epoch(&mut self)
        requires
            old(self)@.wf(),
        ensures
            final(self)@ == old(self)@.spec_new_epoch(),
            final(self)@.wf(),
    {
        self.epoch = if self.epoch == 255 { 0 } else { self.epoch + 1 };
        let e = self.epoch;
        self.root_node.update_epoch(e);
    }

    fn count_child_of(&mut self, parent_id: Option<WidgetId>, id: WidgetId, write_slot: bool)
        requires
            old(self)@.wf(),
            old(self)@.node(parent_id) is Some,
            old(self)@.node(parent_id).unwrap().counter < MAX_CHILDREN,
            !write_slot ==> old(self)@.node(parent_id).unwrap().counter < old(self)@.node(parent_id).unwrap().children.len(),
        ensures
            final(self)@.wf(),
            ({
                let pn = old(self)@.node(parent_id).unwrap();
                final(self)@ == old(self)@.with_node(
                    parent_id,
                    if write_slot {
                        NodeView {
                            counter: pn.counter + 1,
                            children: if pn.counter < pn.children.len() {
                                pn.children.update(pn.counter as int, id)
                            } else {
                                pn.children.push(id)
                            },
                            ..pn
                        }
                    } else {
                        NodeView { counter: pn.counter + 1, ..pn }
                    },
                )
            }),
    {
        match parent_id {
            None => count_child(&mut self.root_node, id, write_slot),
            Some(p) => {
                let ghost before = self@;
                match self.nodes.remove(&p.0) {
                    Some(mut n) => {
                        assert(n@ == before.nodes[p.0]);
                        count_child(&mut n, id, write_slot);
                        let ghost nv = n@;
                        self.nodes.insert(p.0, n);
                        assert(self@.nodes =~= before.nodes.insert(p.0, nv));
                    },
                    None => {},
                }
            },
        }
    }

    fn restamp(&mut self, id: WidgetId, epoch: u8)
        requires
            old(self)@.wf(),
            old(self)@.nodes.contains_key(id.0),
        ensures
            final(self)@.wf(),
            final(self)@ == old(self)@.with_node(Some(id), old(self)@.nodes[id.0].restamped(epoch)),
    {
        let ghost before = self@;
        match self.nodes.remove(&id.0) {
            Some(mut n) => {
                n.update_epoch(epoch);
                let ghost nv = n@;
                self.nodes.insert(id.0, n);
                assert(self@.nodes =~= before.nodes.insert(id.0, nv));
            },
            None => {},
        }
    }

    fn insert_fresh(&mut self, id: WidgetId, parent_id: Option<WidgetId>, epoch: u8)
        requires
            old(self)@.wf(),
        ensures
            final(self)@.wf(),
            final(self)@ == old(self)@.with_node(
                Some(id),
                NodeView { parent_id, children: Seq::empty(), counter: 0, epoch },
            ),
    {
        let ghost before = self@;
        let n = HierarchyNode { parent_id, children: Vec::new(), current_epoch_child_counter: 0, epoch };
        let ghost nv = n@;
        self.nodes.insert(id.0, n);
        assert(self@.nodes =~= before.nodes.insert(id.0, nv));
    }

    /// Whether `parent_id` may take a declaration now.
    pub fn can_declare_under(&self, parent_id: Option<WidgetId>) -> (r: bool)
        ensures
            r == self@.can_declare_under(parent_id),
    {
        match self.get_node(parent_id) {
            Some(n) => n.epoch == self.epoch,
            None => false,
        }
    }

    /// Declares a widget of the type named by `id_fragment` under `parent_id`
    /// (`None`: the root), which must be the root or declared in this epoch. A
    /// full sibling group, a hash collision or a duplicate declaration leaves the
    /// tree unchanged and comes back as an error.
    pub fn add_or_update(&mut self, id_fragment: WidgetIdFragment, parent_id: Option<WidgetId>) -> (r: Result<
        NodeUpdateResult,
        HierarchyError,
    >)
        requires
            old(self)@.wf(),
            old(self)@.can_declare_under(parent_id),
        ensures
            final(self)@.wf(),
            ({
                let WidgetIdFragment::TypedOrdered(type_tag) = id_fragment;
                (final(self)@, r) == old(self)@.spec_add_or_update(type_tag, parent_id)
            }),
    {
        let WidgetIdFragment::TypedOrdered(type_tag) = id_fragment;
        let current = self.epoch;
        let (ordinal, slot_match, id) = match parent_id {
            None => {
                let node = &self.root_node;
                if node.epoch != current {
                    return Err(HierarchyError::StaleParent);
                }
                if node.current_epoch_child_counter >= MAX_CHILDREN {
                    return Err(HierarchyError::ChildLimit);
                }
                let ordinal = node.current_epoch_child_counter;
                let id = derive_widget_id(parent_id, type_tag, ordinal as u64);
                (ordinal, slot_holds(node, ordinal, id), id)
            },
            Some(p) => match self.nodes.get(&p.0) {
                None => {
                    return Err(HierarchyError::MissingParent);
                },
                Some(node) => {
                    if node.epoch != current {
                        return Err(HierarchyError::StaleParent);
                    }
                    if node.current_epoch_child_counter >= MAX_CHILDREN {
                        return Err(HierarchyError::ChildLimit);
                    }
                    let ordinal = node.current_epoch_child_counter;
                    let id = derive_widget_id(parent_id, type_tag, ordinal as u64);
                    if p.0 == id.0 {
                        return Err(HierarchyError::AlreadyAdded);
                    }
                    (ordinal, slot_holds(node, ordinal, id), id)
                },
            },
        };
        let existing = match self.nodes.get(&id.0) {
            Some(child) => Some((child.parent_id, child.epoch)),
            None => None,
        };
        match existing {
            Some((child_parent, child_epoch)) => {
                if slot_match {
                    if !same_parent(child_parent, parent_id) {
                        return Err(HierarchyError::ParentMismatch);
                    }
                    if child_epoch == current {
                        return Err(HierarchyError::AlreadyUpdated);
                    }
                    self.count_child_of(parent_id, id, false);
                    self.restamp(id, current);
                    return Ok(NodeUpdateResult { widget_id: id, status: NodeUpdateStatus::Update });
                }
                Err(HierarchyError::AlreadyAdded)
            },
            None => {
                self.count_child_of(parent_id, id, true);
                self.insert_fresh(id, parent_id, current);
                Ok(NodeUpdateResult { widget_id: id, status: NodeUpdateStatus::Added })
            },
        }
    }
}

} // verus!

verus! {

impl NodeView {
    /// The node with the children left over past its counter dropped.
    pub open spec fn truncated(self) -> NodeView {
        NodeView { children: self.children.take(self.counter as int), ..self }
    }
}

impl HierarchyView {
    /// Keeps the nodes declared in the current epoch, each cut down to the
    /// children declared under it in this epoch.
    pub open spec fn spec_collect_stale(self) -> HierarchyView {
        HierarchyView {
            root: self.root.truncated(),
            nodes: Map::new(|k: u64| self.is_current(k), |k: u64| self.nodes[k].truncated()),
            epoch: self.epoch,
        }
    }

    /// The identities that `spec_collect_stale` removes.
    pub open spec fn stale_ids(self) -> Set<WidgetId> {
        Set::new(|w: WidgetId| self.nodes.contains_key(w.0) && !self.is_current(w.0))
    }
}

impl Hierarchy {
    fn node_keys(&self) -> (r: Vec<u64>)
        ensures
            r@.to_set() == self.nodes@.dom(),
            r@.no_duplicates(),
    {
        let mut keys: Vec<u64> = Vec::new();
        let ghost all = vstd::std_specs::hash::spec_keys_iter(&self.nodes).remaining();
        proof {
            vstd::std_specs::hash::axiom_spec_keys_iter(&self.nodes);
        }
        for k in it: self.nodes.keys()
            invariant
                it.seq() == all,
                keys.len() == it.index(),
                forall|j: int| 0 <= j < keys.len() ==> keys@[j] == *all[j],
        {
            keys.push(*k);
        }
        proof {
            assert(keys@ =~= all.unref());
        }
        keys
    }

    /// Removes every node not declared in the current epoch and returns their
    /// identities, each once, in no particular order; the surviving nodes, the
    /// root included, drop the children past their current-epoch counter.
    pub fn collect_stale_nodes(&mut self) -> (r: Vec<WidgetId>)
        requires
            old(self)@.wf(),
        ensures
            final(self)@ == old(self)@.spec_collect_stale(),
            final(self)@.wf(),
            r@.to_set() == old(self)@.stale_ids(),
            r@.no_duplicates(),
    {
        let ghost old_view = self@;
        let ids = self.node_keys();
        let current = self.epoch;
        let mut removed: Vec<WidgetId> = Vec::new();
        let mut i: usize = 0;
        while i < ids.len()
            invariant
                i <= ids.len(),
                ids@.to_set() == old_view.nodes.dom(),
                ids@.no_duplicates(),
                current == old_view.epoch,
                self@.root == old_view.root,
                self@.epoch == old_view.epoch,
                old_view.wf(),
                self@.nodes == Map::new(
                    |k: u64| old_view.nodes.contains_key(k) && (!ids@.take(i as int).contains(k) || old_view.is_current(k)),
                    |k: u64| if ids@.take(i as int).contains(k) { old_view.nodes[k].truncated() } else { old_view.nodes[k] },
                ),
                removed@.no_duplicates(),
                forall|w: WidgetId| removed@.contains(w) <==> (ids@.take(i as int).contains(w.0) && !old_view.is_current(w.0)),
            decreases ids.len() - i,
        {
            let k = ids[i];
            let ghost taken = ids@.take(i as int);
            assert(ids@.take(i as int + 1) =~= taken.push(k));
            assert(!taken.contains(k)) by {
                if taken.contains(k) {
                    let j = choose|j: int| 0 <= j < taken.len() && taken[j] == k;
                    assert(ids@[j] == ids@[i as int]);
                }
            }
            assert(old_view.nodes.contains_key(k)) by {
                assert(ids@.contains(k));
            }
            let ghost before = self@.nodes;
            assert(before.contains_key(k) && before[k] == old_view.nodes[k]);
            let ghost removed_before = removed@;
            match self.nodes.remove(&k) {
                Some(mut n) => {
                    assert(n@ == old_view.nodes[k]);
                    if n.epoch != current {
                        assert(!removed@.contains(WidgetId(k)));
                        removed.push(WidgetId(k));
                        assert(self@.nodes =~= before.remove(k));
                        assert forall|w: WidgetId| removed@.contains(w) <==> (ids@.take(i as int + 1).contains(w.0)
                            && !old_view.is_current(w.0)) by {
                            if w == WidgetId(k) {
                                assert(removed@[removed@.len() - 1] == w);
                                assert(ids@.take(i as int + 1)[i as int] == k);
                            } else {
                                if removed@.contains(w) {
                                    let j = choose|j: int| 0 <= j < removed@.len() && removed@[j] == w;
                                    assert(removed_before[j] == w);
                                }
                                if removed_before.contains(w) {
                                    let j = choose|j: int| 0 <= j < removed_before.len() && removed_before[j] == w;
                                    assert(removed@[j] == w);
                                }
                            }
                        }
                    } else {
                        let c = n.current_epoch_child_counter;
                        n.children.truncate(c);
                        let ghost nv = n@;
                        assert(nv == old_view.nodes[k].truncated());
                        self.nodes.insert(k, n);
                        assert(self@.nodes =~= before.insert(k, nv));
                    }
                },
                None => {},
            }
            proof {
                assert forall|q: u64| #[trigger] ids@.take(i as int + 1).contains(q) <==> (taken.contains(q) || q == k) by {
                    if taken.contains(q) {
                        let j = choose|j: int| 0 <= j < taken.len() && #[trigger] taken[j] == q;
                        assert(ids@.take(i as int + 1)[j] == q);
                    }
                    if q == k {
                        assert(ids@.take(i as int + 1)[i as int] == q);
                    }
                    if ids@.take(i as int + 1).contains(q) {
                        let j = choose|j: int| 0 <= j < i + 1 && #[trigger] ids@.take(i as int + 1)[j] == q;
                        if j < i {
                            assert(taken[j] == q);
                        }
                    }
                }
            }
            i = i + 1;
            proof {
                assert forall|w: WidgetId| removed@.contains(w) <==> (ids@.take(i as int).contains(w.0)
                    && !old_view.is_current(w.0)) by {
                    if w.0 == k {
                        assert(ids@.take(i as int)[i - 1] == k);
                    }
                }
                assert(self@.nodes =~= Map::new(
                    |k: u64| old_view.nodes.contains_key(k) && (!ids@.take(i as int).contains(k) || old_view.is_current(k)),
                    |k: u64| if ids@.take(i as int).contains(k) { old_view.nodes[k].truncated() } else { old_view.nodes[k] },
                ));
            }
        }
        let c = self.root_node.current_epoch_child_counter;
        self.root_node.children.truncate(c);
        proof {
            assert(ids@.take(ids.len() as int) =~= ids@);
            assert forall|k: u64| ids@.contains(k) <==> old_view.nodes.contains_key(k) by {
                assert(ids@.to_set().contains(k) == ids@.contains(k));
            }
            assert(self@.nodes =~= old_view.spec_collect_stale().nodes);
            assert(removed@.to_set() =~= old_view.stale_ids());
        }
        removed
    }
}

} // verus!

verus! {

impl HierarchyView {
    /// The children of `id`; none for an identity without a node.
    pub open spec fn children_of(self, id: WidgetId) -> Seq<WidgetId> {
        if self.nodes.contains_key(id.0) {
            self.nodes[id.0].children
        } else {
            Seq::empty()
        }
    }

    /// Breadth-first walk from `queue`: each visited identity's children join the
    /// back of the queue unless it is in `stop`. At most `fuel` identities are
    /// visited, which a tree of `fuel` nodes never reaches.
    pub open spec fn bfs(self, queue: Seq<WidgetId>, stop: Set<u64>, fuel: nat) -> Seq<WidgetId>
        decreases fuel,
    {
        if fuel == 0 || queue.len() == 0 {
            Seq::empty()
        } else {
            let next = if stop.contains(queue[0].0) {
                queue.drop_first()
            } else {
                queue.drop_first() + self.children_of(queue[0])
            };
            seq![queue[0]] + self.bfs(next, stop, (fuel - 1) as nat)
        }
    }

    /// Parents before children, siblings in order, from the root's children
    /// down, not descending below the identities in `stop`.
    pub open spec fn breadth_first(self, stop: Set<u64>) -> Seq<WidgetId> {
        self.bfs(self.root.children, stop, self.nodes.len())
    }

    /// Post-order walk of `ids` and their descendants, at most `fuel` levels deep:
    /// every identity comes after all of its descendants.
    pub open spec fn post_order(self, ids: Seq<WidgetId>, fuel: nat) -> Seq<WidgetId>
        decreases fuel, ids.len(),
    {
        if ids.len() == 0 || fuel == 0 {
            Seq::empty()
        } else {
            self.post_order(ids.drop_last(), fuel) + self.post_order(self.children_of(ids.last()), (fuel - 1) as nat)
                + seq![ids.last()]
        }
    }

    /// Leaves first: the post-order walk from the root's children.
    pub open spec fn leaves_first(self) -> Seq<WidgetId> {
        self.post_order(self.root.children, self.nodes.len())
    }
}

impl Hierarchy {
    pub fn get_node(&self, widget_id: Option<WidgetId>) -> (r: Option<&HierarchyNode>)
        ensures
            match r {
                Some(n) => self@.node(widget_id) == Some(n@),
                None => self@.node(widget_id) is None,
            },
    {
        match widget_id {
            None => Some(&self.root_node),
            Some(id) => self.nodes.get(&id.0),
        }
    }

    /// The parent of a node; `None` for a child of the root.
    pub fn parent(&self, widget_id: WidgetId) -> (r: Option<WidgetId>)
        requires
            self@.nodes.contains_key(widget_id.0),
        ensures
            r == self@.nodes[widget_id.0].parent_id,
    {
        match self.nodes.get(&widget_id.0) {
            Some(n) => n.parent_id,
            None => None,
        }
    }

    /// The children of a node, or of the root for `None`; none for an identity
    /// without a node.
    pub fn children(&self, widget_id: Option<WidgetId>) -> (r: &[WidgetId])
        ensures
            r@ == match widget_id {
                None => self@.root.children,
                Some(id) => self@.children_of(id),
            },
    {
        match widget_id {
            None => self.root_node.children.as_slice(),
            Some(id) => match self.nodes.get(&id.0) {
                Some(n) => n.children.as_slice(),
                None => &[],
            },
        }
    }

    fn children_vec(&self, id: WidgetId) -> (r: Option<&Vec<WidgetId>>)
        ensures
            match r {
                Some(v) => v@ == self@.children_of(id),
                None => self@.children_of(id).len() == 0,
            },
    {
        match self.nodes.get(&id.0) {
            Some(n) => Some(&n.children),
            None => None,
        }
    }

    pub proof fn lemma_view_len(&self)
        ensures
            self@.nodes.len() == self.nodes.len(),
    {
        assert(self@.nodes.dom() =~= self.nodes@.dom());
    }

    /// Breadth-first order (parents before children) that does not descend
    /// below the identities in `stop`.
    pub fn visit_breadth_first_with_cf(&self, stop: &HashSet<u64>) -> (r: Vec<WidgetId>)
        ensures
            r@ == self@.breadth_first(stop@),
    {
        let mut queue: Vec<WidgetId> = Vec::new();
        let mut k: usize = 0;
        while k < self.root_node.children.len()
            invariant
                k <= self.root_node.children.len(),
                queue@ == self.root_node.children@.take(k as int),
            decreases self.root_node.children.len() - k,
        {
            queue.push(self.root_node.children[k]);
            assert(self.root_node.children@.take(k as int + 1) =~= self.root_node.children@.take(k as int).push(
                self.root_node.children@[k as int],
            ));
            k = k + 1;
        }
        assert(queue@ =~= self@.root.children);
        assert(queue@.skip(0) =~= queue@);
        proof {
            self.lemma_view_len();
        }
        let mut out: Vec<WidgetId> = Vec::new();
        let mut head: usize = 0;
        let mut fuel: usize = self.nodes.len();
        while head < queue.len() && fuel > 0
            invariant
                head <= queue.len(),
                out@ + self@.bfs(queue@.skip(head as int), stop@, fuel as nat) == self@.breadth_first(stop@),
            decreases fuel,
        {
            let id = queue[head];
            let ghost rest = queue@.skip(head as int);
            out.push(id);
            head = head + 1;
            if !stop.contains(&id.0) {
                match self.children_vec(id) {
                    Some(children) => {
                        let mut c: usize = 0;
                        let ghost q0 = queue@;
                        while c < children.len()
                            invariant
                                c <= children.len(),
                                queue@ == q0 + children@.take(c as int),
                            decreases children.len() - c,
                        {
                            queue.push(children[c]);
                            assert(children@.take(c as int + 1) =~= children@.take(c as int).push(children@[c as int]));
                            c = c + 1;
                        }
                        assert(children@.take(children.len() as int) =~= children@);
                    },
                    None => {},
                }
                assert(queue@.skip(head as int) =~= rest.drop_first() + self@.children_of(id));
            } else {
                assert(queue@.skip(head as int) =~= rest.drop_first());
            }
            fuel = fuel - 1;
            assert(out@ + self@.bfs(queue@.skip(head as int), stop@, fuel as nat) =~= (out@.drop_last() + self@.bfs(rest, stop@, (fuel + 1) as nat)));
        }
        assert(out@ =~= out@ + self@.bfs(queue@.skip(head as int), stop@, fuel as nat));
        out
    }

    /// Breadth-first order of the whole tree: parents before children.
    pub fn visit_breadth_first(&self) -> (r: Vec<WidgetId>)
        ensures
            r@ == self@.breadth_first(Set::empty()),
    {
        let stop: HashSet<u64> = HashSet::new();
        let r = self.visit_breadth_first_with_cf(&stop);
        assert(stop@ =~= Set::empty());
        r
    }
}

} // verus!

verus! {

impl Hierarchy {
    fn post_order_into(&self, ids: &Vec<WidgetId>, fuel: usize, out: &mut Vec<WidgetId>)
        ensures
            final(out)@ == old(out)@ + self@.post_order(ids@, fuel as nat),
        decreases fuel,
    {
        if fuel == 0 {
            assert(self@.post_order(ids@, 0) =~= Seq::empty());
            assert(out@ =~= out@ + Seq::<WidgetId>::empty());
            return;
        }
        let ghost start = out@;
        let mut i: usize = 0;
        while i < ids.len()
            invariant
                i <= ids.len(),
                fuel > 0,
                out@ == start + self@.post_order(ids@.take(i as int), fuel as nat),
            decreases ids.len() - i,
        {
            let id = ids[i];
            let ghost before = out@;
            match self.children_vec(id) {
                Some(children) => self.post_order_into(children, fuel - 1, out),
                None => {
                    assert(self@.post_order(self@.children_of(id), (fuel - 1) as nat) =~= Seq::empty()) by {
                        reveal_with_fuel(HierarchyView::post_order, 1);
                    }
                    assert(out@ =~= before + self@.post_order(self@.children_of(id), (fuel - 1) as nat));
                },
            }
            out.push(id);
            let ghost t = ids@.take(i as int + 1);
            assert(t.drop_last() =~= ids@.take(i as int));
            assert(t.last() == id);
            i = i + 1;
            assert(out@ =~= start + self@.post_order(ids@.take(i as int), fuel as nat));
        }
        assert(ids@.take(ids.len() as int) =~= ids@);
    }

    /// Post-order traversal: every widget after all of its descendants.
    pub fn visit_leaves_first(&self) -> (r: Vec<WidgetId>)
        ensures
            r@ == self@.leaves_first(),
    {
        let mut out: Vec<WidgetId> = Vec::new();
        proof {
            self.lemma_view_len();
        }
        self.post_order_into(&self.root_node.children, self.nodes.len(), &mut out);
        assert(out@ =~= self@.leaves_first());
        out
    }
}

} // verus!

verus! {

impl HierarchyView {
    /// The children declared in the current epoch under the root or under a
    /// current node are themselves current nodes.
    pub open spec fn consistent(self) -> bool {
        &&& self.root.epoch == self.epoch
        &&& forall|i: int| 0 <= i < self.root.counter ==> #[trigger] self.is_current(self.root.children[i].0)
        &&& forall|k: u64, i: int|
            self.is_current(k) && 0 <= i < self.nodes[k].counter ==> #[trigger] self.is_current(
                self.nodes[k].children[i].0,
            )
    }

    /// Every node carries the current stamp, as after a collection.
    pub open spec fn all_current(self) -> bool {
        forall|k: u64| #[trigger] self.nodes.contains_key(k) ==> self.nodes[k].epoch == self.epoch
    }

    /// Every child listed anywhere has a node.
    pub open spec fn closed(self) -> bool {
        &&& forall|i: int| 0 <= i < self.root.children.len() ==> self.nodes.contains_key(#[trigger] self.root.children[i].0)
        &&& forall|k: u64, i: int|
            self.nodes.contains_key(k) && 0 <= i < self.nodes[k].children.len() ==> self.nodes.contains_key(
                #[trigger] self.nodes[k].children[i].0,
            )
    }
}

/// A declaration keeps the tree consistent.
pub proof fn lemma_add_keeps_consistent(h: HierarchyView, type_tag: u64, parent: Option<WidgetId>)
    requires
        h.wf(),
        h.consistent(),
    ensures
        h.spec_add_or_update(type_tag, parent).0.consistent(),
{
    let (h1, r) = h.spec_add_or_update(type_tag, parent);
    if r is Ok {
        let pn = h.node(parent).unwrap();
        let id = identity_of(parent, type_tag, pn.counter as u64);
        assert forall|k: u64| h.is_current(k) implies h1.is_current(k) by {}
        assert(h1.is_current(id.0));
        assert forall|i: int| 0 <= i < h1.root.counter implies #[trigger] h1.is_current(h1.root.children[i].0) by {
            if parent is None && i == pn.counter {
            } else {
                assert(h.is_current(h.root.children[i].0));
            }
        }
        assert forall|k: u64, i: int| h1.is_current(k) && 0 <= i < h1.nodes[k].counter implies #[trigger] h1.is_current(
            h1.nodes[k].children[i].0,
        ) by {
            if k == id.0 {
            } else if parent == Some(WidgetId(k)) {
                if i < pn.counter {
                    assert(h.is_current(h.nodes[k].children[i].0));
                }
            } else {
                assert(h.is_current(k));
                assert(h.is_current(h.nodes[k].children[i].0));
            }
        }
    }
}

/// A collection leaves only current nodes, consistent, and every child listed
/// anywhere has a node: the collected identities are no longer reachable.
pub proof fn lemma_collect_leaves_closed_tree(h: HierarchyView)
    requires
        h.wf(),
        h.consistent(),
    ensures
        h.spec_collect_stale().wf(),
        h.spec_collect_stale().consistent(),
        h.spec_collect_stale().all_current(),
        h.spec_collect_stale().closed(),
        forall|w: WidgetId| h.stale_ids().contains(w) ==> !h.spec_collect_stale().nodes.contains_key(w.0),
{
    let g = h.spec_collect_stale();
    assert forall|k: u64, i: int| g.nodes.contains_key(k) && 0 <= i < g.nodes[k].children.len() implies g.nodes.contains_key(
        #[trigger] g.nodes[k].children[i].0,
    ) by {
        assert(h.is_current(h.nodes[k].children[i].0));
    }
    assert forall|i: int| 0 <= i < g.root.children.len() implies g.nodes.contains_key(#[trigger] g.root.children[i].0) by {
        assert(h.is_current(h.root.children[i].0));
    }
    assert forall|k: u64, i: int| g.is_current(k) && 0 <= i < g.nodes[k].counter implies #[trigger] g.is_current(
        g.nodes[k].children[i].0,
    ) by {
        assert(h.is_current(h.nodes[k].children[i].0));
    }
    assert forall|i: int| 0 <= i < g.root.counter implies #[trigger] g.is_current(g.root.children[i].0) by {
        assert(h.is_current(h.root.children[i].0));
    }
}

} // verus!

verus! {

/// A declaration under `parent` changes only the parent's node and the declared
/// node: every other node, ancestors and unrelated subtrees included, stays as
/// it was, and the declared identity is derived from parent, type and ordinal
/// alone, whatever was declared at the other ordinals.
pub proof fn lemma_add_is_local(h: HierarchyView, type_tag: u64, parent: Option<WidgetId>, q: u64)
    requires
        h.wf(),
        h.node(parent) is Some,
        h.spec_add_or_update(type_tag, parent).1 is Ok,
        parent != Some(WidgetId(q)),
        q != h.spec_add_or_update(type_tag, parent).1->Ok_0.widget_id.0,
    ensures
        ({
            let h1 = h.spec_add_or_update(type_tag, parent).0;
            &&& h1.nodes.contains_key(q) == h.nodes.contains_key(q)
            &&& h.nodes.contains_key(q) ==> h1.nodes[q] == h.nodes[q]
            &&& parent is Some ==> h1.root == h.root
            &&& h1.epoch == h.epoch
        }),
        h.spec_add_or_update(type_tag, parent).1->Ok_0.widget_id == identity_of(
            parent,
            type_tag,
            h.node(parent).unwrap().counter as u64,
        ),
{
}

} // verus!

