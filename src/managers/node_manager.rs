use crate::types::SceneNode;
use slotmap::{DefaultKey, DenseSlotMap, Key, KeyData};
use vstd::arithmetic::div_mod::lemma_fundamental_div_mod;
use vstd::prelude::*;

verus! {

/// Handle of a node held by a `NodeManager`: the slot index in the low 32 bits
/// and the slot's generation in the high 32 bits.
#[derive(Debug, Clone, Copy, PartialEq, Eq, Hash, Structural)]
pub struct GlobalId {
    bits: u64,
}

impl GlobalId {
    /// The handle as one 64-bit key.
    pub closed spec fn key(self) -> u64 {
        self.bits
    }

    /// The slot that the handle refers to.
    pub open spec fn index(self) -> int {
        self.key() as int % 0x1_0000_0000
    }

    /// The generation of that slot for which the handle was issued.
    pub open spec fn generation(self) -> int {
        self.key() as int / 0x1_0000_0000
    }

    /// Two handles are equal exactly when their keys are.
    pub proof fn lemma_key_injective(self, other: GlobalId)
        ensures
            (self.key() == other.key()) <==> (self == other),
    {
    }
}

/// Two handles of the same slot and generation are the same handle.
proof fn lemma_same_slot(a: GlobalId, b: GlobalId)
    requires
        a.index() == b.index(),
        a.generation() == b.generation(),
    ensures
        a == b,
{
    lemma_fundamental_div_mod(a.key() as int, 0x1_0000_0000);
    lemma_fundamental_div_mod(b.key() as int, 0x1_0000_0000);
    a.lemma_key_injective(b);
}

/// The slot map that stores the nodes, kept out of Verus's sight: it is known
/// only through `live_nodes` and `slot_versions`.
#[verifier::external_body]
pub struct NodeSlots {
    map: DenseSlotMap<DefaultKey, SceneNode>,
}

/// The live entries of a slot map of nodes, each under the handle that its
/// key converts to.
pub uninterp spec fn live_nodes(m: NodeSlots) -> Map<GlobalId, SceneNode>;

/// The version of each slot of a slot map of nodes, by slot index: odd while
/// the slot is occupied, even while it is free.
pub uninterp spec fn slot_versions(m: NodeSlots) -> Seq<u32>;

/// The version that a slot moves to when its entry is removed.
pub open spec fn next_version(v: u32) -> u32 {
    if v == u32::MAX {
        0
    } else {
        (v + 1) as u32
    }
}

/// Slot versions `v` move to `next` as an entry is stored under `h`: either
/// `h` takes a free slot (even version) at that version plus one, or a new slot
/// at the end with version 1.
pub open spec fn takes_slot(v: Seq<u32>, h: GlobalId, next: Seq<u32>) -> bool {
    ||| (exists|i: int|
        0 <= i < v.len() && v[i] % 2 == 0 && h.index() == i && h.generation() == v[i] + 1 && next
            == v.update(i, (v[i] + 1) as u32))
    ||| (h.index() == v.len() && h.generation() == 1 && next == v.push(1u32))
}

/// Relies on `DenseSlotMap::new`: an empty map whose only slot is the
/// sentinel at index 0, at version 0, which is never handed out.
#[verifier::external_body]
fn slots_new() -> (r: NodeSlots)
    ensures
        live_nodes(r).dom() == Set::<GlobalId>::empty(),
        slot_versions(r) == seq![0u32],
{
    NodeSlots { map: DenseSlotMap::new() }
}

/// Relies on `DenseSlotMap::insert_with_key`: the new entry takes the head of
/// the free list, a slot with an even version, under that version plus one,
/// or else a new slot at the end with version 1; it panics only when there are
/// `u32::MAX` slots. The sentinel slot 0 is never on the free list. The
/// entry's value is made from its own key.
#[verifier::external_body]
fn slots_insert_node(m: &mut NodeSlots) -> (id: GlobalId)
    requires
        slot_versions(*old(m)).len() < u32::MAX,
    ensures
        takes_slot(slot_versions(*old(m)), id, slot_versions(*final(m))),
        live_nodes(*final(m)) == live_nodes(*old(m)).insert(id, live_nodes(*final(m))[id]),
        live_nodes(*final(m))[id].is_fresh(id),
{
    let key = m.map.insert_with_key(|k| SceneNode::new(GlobalId { bits: k.data().as_ffi() }));
    GlobalId { bits: key.data().as_ffi() }
}

/// Relies on `DenseSlotMap::get` and `KeyData::from_ffi`: a key with an odd
/// version comes back from its 64-bit form unchanged, and `get` finds the live
/// entry under it.
#[verifier::external_body]
fn slots_get(m: &NodeSlots, id: GlobalId) -> (r: Option<&SceneNode>)
    requires
        id.generation() % 2 == 1,
    ensures
        r == (if live_nodes(*m).contains_key(id) {
            Some(&live_nodes(*m)[id])
        } else {
            None
        }),
{
    m.map.get(DefaultKey::from(KeyData::from_ffi(id.bits)))
}

/// Relies on `DenseSlotMap::get_mut` and `KeyData::from_ffi`, as `slots_get`
/// does; what is written through the reference becomes the entry's value.
#[verifier::external_body]
fn slots_get_mut(m: &mut NodeSlots, id: GlobalId) -> (r: Option<
    &mut SceneNode,
>)
    requires
        id.generation() % 2 == 1,
    ensures
        slot_versions(*final(m)) == slot_versions(*old(m)),
        (match r {
            Some(n) => live_nodes(*old(m)).contains_key(id) && *n == live_nodes(*old(m))[id]
                && live_nodes(*final(m)) == live_nodes(*old(m)).insert(id, *final(n)),
            None => !live_nodes(*old(m)).contains_key(id) && live_nodes(*final(m)) == live_nodes(
                *old(m),
            ),
        }),
{
    m.map.get_mut(DefaultKey::from(KeyData::from_ffi(id.bits)))
}

/// Relies on `DenseSlotMap::remove` and `KeyData::from_ffi`: a live entry is
/// taken out and its slot's version goes up by one (wrapping); otherwise
/// nothing changes.
#[verifier::external_body]
fn slots_remove(m: &mut NodeSlots, id: GlobalId) -> (r: Option<SceneNode>)
    requires
        id.generation() % 2 == 1,
    ensures
        live_nodes(*old(m)).contains_key(id) ==> {
            let v = slot_versions(*old(m));
            &&& r == Some(live_nodes(*old(m))[id])
            &&& live_nodes(*final(m)) == live_nodes(*old(m)).remove(id)
            &&& slot_versions(*final(m)) == v.update(id.index(), next_version(v[id.index()]))
        },
        !live_nodes(*old(m)).contains_key(id) ==> {
            &&& r is None
            &&& live_nodes(*final(m)) == live_nodes(*old(m))
            &&& slot_versions(*final(m)) == slot_versions(*old(m))
        },
{
    m.map.remove(DefaultKey::from(KeyData::from_ffi(id.bits)))
}

/// Owns every scene node and hands out handles to them. A removed node's
/// handle never finds a node again, not even one later stored in its slot.
pub struct NodeManager {
    nodes: NodeSlots,
}

impl View for NodeManager {
    type V = Map<GlobalId, SceneNode>;

    /// The live nodes, by handle.
    closed spec fn view(&self) -> Map<GlobalId, SceneNode> {
        live_nodes(self.nodes)
    }
}

impl NodeManager {
    /// How many slots have ever been used.
    pub closed spec fn slot_count(self) -> nat {
        slot_versions(self.nodes).len()
    }

    /// Each live handle names an occupied slot at the slot's current version,
    /// and the node stored under it has that handle as its id.
    pub closed spec fn wf(self) -> bool {
        forall|id: GlobalId|
            #[trigger] live_nodes(self.nodes).contains_key(id) ==> {
                &&& id.generation() % 2 == 1
                &&& 0 <= id.index() < slot_versions(self.nodes).len()
                &&& slot_versions(self.nodes)[id.index()] == id.generation()
                &&& live_nodes(self.nodes)[id]@.id == id
            }
    }

    /// `next` is what `create_node` leaves when it returns `h` on `self`: the
    /// view gains a fresh node under a handle that was not live, and the slot
    /// that `h` names is a free one moved to its next version, or a new one.
    pub closed spec fn creates(self, next: NodeManager, h: GlobalId) -> bool {
        let v = slot_versions(self.nodes);
        &&& next.wf()
        &&& !self@.contains_key(h)
        &&& next@ == self@.insert(h, next@[h])
        &&& next@[h].is_fresh(h)
        &&& takes_slot(v, h, slot_versions(next.nodes))
    }

    /// `next` is what `remove_node(h)` leaves on `self`: `h` is no longer
    /// live, and if it was, its slot has moved to its next version.
    pub closed spec fn removes(self, next: NodeManager, h: GlobalId) -> bool {
        let v = slot_versions(self.nodes);
        &&& next.wf()
        &&& next@ == self@.remove(h)
        &&& self@.contains_key(h) ==> slot_versions(next.nodes) == v.update(
            h.index(),
            next_version(v[h.index()]),
        )
        &&& !self@.contains_key(h) ==> slot_versions(next.nodes) == v
    }

    /// Stores a new node and returns its handle. The node has that handle as
    /// its id, type "Undefined", no parent, no children and every flag clear.
    ///
    /// The handle was not live before. A slot's generation is 32 bits wide and
    /// wraps, so a handle removed long ago can be issued again once its slot
    /// has been reused 2^31 times; short of that, a removed handle stays dead
    /// (see `lemma_removed_handle_stays_dead`).
    pub fn create_node(&mut self) -> (r: GlobalId)
        requires
            old(self).wf(),
            old(self).slot_count() < u32::MAX,
        ensures
            final(self).wf(),
            !old(self)@.contains_key(r),
            final(self)@ == old(self)@.insert(r, final(self)@[r]),
            final(self)@[r].is_fresh(r),
            final(self).slot_count() <= old(self).slot_count() + 1,
            old(self).creates(*final(self), r),
    {
        let id = slots_insert_node(&mut self.nodes);
        proof {
            let v = slot_versions(old(self).nodes);
            assert forall|other: GlobalId| #[trigger]
                live_nodes(old(self).nodes).contains_key(other) implies other != id by {
                if other == id {
                    if id.index() < v.len() {
                        assert(v[id.index()] == id.generation());
                    }
                }
            }
            assert forall|other: GlobalId| #[trigger]
                live_nodes(self.nodes).contains_key(other) implies {
                &&& other.generation() % 2 == 1
                &&& 0 <= other.index() < slot_versions(self.nodes).len()
                &&& slot_versions(self.nodes)[other.index()] == other.generation()
                &&& live_nodes(self.nodes)[other]@.id == other
            } by {
                if other != id {
                    assert(live_nodes(old(self).nodes).contains_key(other));
                }
            }
        }
        id
    }

    /// The node under `id`, if it is live.
    pub fn get_node(&self, id: GlobalId) -> (r: Option<&SceneNode>)
        requires
            self.wf(),
        ensures
            r == (if self@.contains_key(id) {
                Some(&self@[id])
            } else {
                None
            }),
            r matches Some(n) ==> n@.id == id,
    {
        // An even generation marks a free slot: no live handle carries one.
        if id.bits / 0x1_0000_0000 % 2 == 0 {
            return None;
        }
        slots_get(&self.nodes, id)
    }

    /// Mutable access to the node under `id`, if it is live. The arena stays
    /// well-formed as long as the node keeps its id, which only replacing the
    /// node as a whole can change.
    pub fn get_node_mut(&mut self, id: GlobalId) -> (r: Option<&mut SceneNode>)
        requires
            old(self).wf(),
        ensures
            (match r {
                Some(n) => old(self)@.contains_key(id) && *n == old(self)@[id] && n@.id == id
                    && final(self)@ == old(self)@.insert(id, *final(n)) && (final(n)@.id == id
                    ==> final(self).wf()),
                None => !old(self)@.contains_key(id) && final(self)@ == old(self)@
                    && final(self).wf(),
            }),
            final(self).slot_count() == old(self).slot_count(),
    {
        // An even generation marks a free slot: no live handle carries one.
        if id.bits / 0x1_0000_0000 % 2 == 0 {
            return None;
        }
        slots_get_mut(&mut self.nodes, id)
    }

    /// Takes the node under `id` out and returns it, or returns `None` and
    /// changes nothing when `id` is not live.
    pub fn remove_node(&mut self, id: GlobalId) -> (r: Option<SceneNode>)
        requires
            old(self).wf(),
        ensures
            r == (if old(self)@.contains_key(id) {
                Some(old(self)@[id])
            } else {
                None
            }),
            final(self)@ == old(self)@.remove(id),
            final(self).wf(),
            final(self).slot_count() == old(self).slot_count(),
            old(self).removes(*final(self), id),
    {
        // An even generation marks a free slot: no live handle carries one.
        if id.bits / 0x1_0000_0000 % 2 == 0 {
            assert(old(self)@.remove(id) =~= old(self)@);
            return None;
        }
        let r = slots_remove(&mut self.nodes, id);
        proof {
            assert(final(self)@ =~= old(self)@.remove(id));
            if old(self)@.contains_key(id) {
                assert forall|other: GlobalId| #[trigger]
                    live_nodes(self.nodes).contains_key(other) implies {
                    &&& other.generation() % 2 == 1
                    &&& 0 <= other.index() < slot_versions(self.nodes).len()
                    &&& slot_versions(self.nodes)[other.index()] == other.generation()
                    &&& live_nodes(self.nodes)[other]@.id == other
                } by {
                    assert(live_nodes(old(self).nodes).contains_key(other));
                    if other.index() == id.index() {
                        lemma_same_slot(other, id);
                    }
                }
            }
        }
        r
    }
}

/// A handle returned by `create_node` finds a node whose id is that handle,
/// of type "Undefined", with no parent, no children and every flag clear, and
/// it still does after any number of further `create_node` calls: `create_node`
/// is called again and again, turning `ms[i]` into `ms[i + 1]` and returning
/// `ks[i]`, and the first handle `ks[0]` is looked up in every later state.
pub proof fn lemma_created_node_is_fresh(ms: Seq<NodeManager>, ks: Seq<GlobalId>)
    requires
        ks.len() >= 1,
        ms.len() == ks.len() + 1,
        forall|i: int| 0 <= i < ks.len() ==> #[trigger] ms[i].creates(ms[i + 1], ks[i]),
    ensures
        forall|i: int|
            1 <= i < ms.len() ==> (#[trigger] ms[i]@).contains_key(ks[0]) && ms[i]@[ks[0]].is_fresh(
                ks[0],
            ),
    decreases ks.len(),
{
    let first: int = 0;
    assert(ms[first].creates(ms[first + 1], ks[first]));
    if ks.len() > 1 {
        let n = ks.len() - 1;
        lemma_created_node_is_fresh(ms.drop_last(), ks.drop_last());
        assert(ms.drop_last()[n]@.contains_key(ks[0]));
        assert(ms[n].creates(ms[n + 1], ks[n]));
        assert forall|i: int| 1 <= i < ms.len() implies (#[trigger] ms[i]@).contains_key(ks[0])
            && ms[i]@[ks[0]].is_fresh(ks[0]) by {
            if i < ms.len() - 1 {
                assert(ms[i] == ms.drop_last()[i]);
                assert(ks[0] == ks.drop_last()[0]);
            }
        }
    }
}

/// After `remove_node(h)`, `h` finds no node, through `get_node` or
/// `get_node_mut`.
pub proof fn lemma_removed_handle_not_found(before: NodeManager, after: NodeManager, h: GlobalId)
    requires
        before.removes(after, h),
    ensures
        !after@.contains_key(h),
{
}

/// The generation that the slot of a removed handle `h` moves to.
spec fn freed_generation(h: GlobalId) -> int {
    if h.generation() == u32::MAX {
        0
    } else {
        h.generation() + 1
    }
}

/// `h` is not live in `m`, and its slot has moved past it: it is free at the
/// generation its removal gave it, or occupied at the one after.
spec fn slot_moved_past(m: NodeManager, h: GlobalId) -> bool {
    let v = slot_versions(m.nodes);
    &&& !m@.contains_key(h)
    &&& 0 <= h.index() < v.len()
    &&& (v[h.index()] == freed_generation(h) || v[h.index()] == freed_generation(h) + 1)
}

/// One `create_node` keeps the slot of a removed handle past it, and does not
/// hand that handle out.
proof fn lemma_create_keeps_slot_past(m: NodeManager, next: NodeManager, h: GlobalId, k: GlobalId)
    requires
        m.wf(),
        h.generation() % 2 == 1,
        slot_moved_past(m, h),
        m.creates(next, k),
    ensures
        k != h,
        slot_moved_past(next, h),
{
    let v = slot_versions(m.nodes);
    let w = slot_versions(next.nodes);
    if exists|i: int|
        0 <= i < v.len() && v[i] % 2 == 0 && k.index() == i && k.generation() == v[i] + 1 && w
            == v.update(i, (v[i] + 1) as u32) {
        let i = choose|i: int|
            0 <= i < v.len() && v[i] % 2 == 0 && k.index() == i && k.generation() == v[i] + 1
                && w == v.update(i, (v[i] + 1) as u32);
        if i == h.index() {
            assert(v[i] == freed_generation(h));
        }
    }
    assert(k != h);
    assert(!next@.contains_key(h));
}

/// Runs the removal and the creations that follow it, keeping the slot of
/// `h` past it in every state after the removal.
proof fn lemma_stays_dead_induction(ms: Seq<NodeManager>, ks: Seq<GlobalId>, h: GlobalId)
    requires
        ms.len() == ks.len() + 2,
        ms[0].wf(),
        ms[0]@.contains_key(h),
        ms[0].removes(ms[1], h),
        forall|i: int| 0 <= i < ks.len() ==> #[trigger] ms[i + 1].creates(ms[i + 2], ks[i]),
    ensures
        forall|i: int| 1 <= i < ms.len() ==> #[trigger] slot_moved_past(ms[i], h),
        forall|i: int| 0 <= i < ks.len() ==> #[trigger] ks[i] != h,
    decreases ks.len(),
{
    if ks.len() == 0 {
        let v0 = slot_versions(ms[0].nodes);
        assert(slot_versions(ms[1].nodes)[h.index()] == next_version(v0[h.index()]));
        assert(slot_moved_past(ms[1], h));
    } else {
        let n = ks.len() - 1;
        lemma_stays_dead_induction(ms.drop_last(), ks.drop_last(), h);
        assert(slot_moved_past(ms.drop_last()[n + 1], h));
        assert(ms[n + 1].creates(ms[n + 2], ks[n]));
        if n == 0 {
            assert(ms[0].removes(ms[1], h));
        } else {
            assert(ms[(n - 1) + 1].creates(ms[(n - 1) + 2], ks[n - 1]));
        }
        lemma_create_keeps_slot_past(ms[n + 1], ms[n + 2], h, ks[n]);
        assert forall|i: int| 1 <= i < ms.len() implies #[trigger] slot_moved_past(ms[i], h) by {
            if i < ms.len() - 1 {
                assert(ms[i] == ms.drop_last()[i]);
            }
        }
        assert forall|i: int| 0 <= i < ks.len() implies #[trigger] ks[i] != h by {
            if i < n {
                assert(ks[i] == ks.drop_last()[i]);
            }
        }
    }
}

/// A removed handle stays dead: after a live handle `h` is removed from
/// `ms[0]`, giving `ms[1]`, and `create_node` is called again and again,
/// turning `ms[i + 1]` into `ms[i + 2]` and returning `ks[i]`, none of those
/// calls returns `h`, even where it reuses `h`'s slot, and `h` finds no node
/// in any of those states.
pub proof fn lemma_removed_handle_stays_dead(ms: Seq<NodeManager>, ks: Seq<GlobalId>, h: GlobalId)
    requires
        ms.len() == ks.len() + 2,
        ms[0].wf(),
        ms[0]@.contains_key(h),
        ms[0].removes(ms[1], h),
        forall|i: int| 0 <= i < ks.len() ==> #[trigger] ms[i + 1].creates(ms[i + 2], ks[i]),
    ensures
        forall|i: int| 1 <= i < ms.len() ==> !(#[trigger] ms[i]@).contains_key(h),
        forall|i: int| 0 <= i < ks.len() ==> #[trigger] ks[i] != h,
{
    lemma_stays_dead_induction(ms, ks, h);
    assert forall|i: int| 1 <= i < ms.len() implies !(#[trigger] ms[i]@).contains_key(h) by {
        assert(slot_moved_past(ms[i], h));
    }
}

impl Default for NodeManager {
    fn default() -> (r: NodeManager)
        ensures
            r.wf(),
            r@.dom() == Set::<GlobalId>::empty(),
            r.slot_count() == 1,
    {
        NodeManager { nodes: slots_new() }
    }
}

} // verus!
