//! The live entity-component store: rows addressed by index and generation,
//! each holding the component instances attached to one entity.
//!
//! A handle may be stale: after its row is despawned the index can be reused
//! under a bumped generation, and the old handle no longer names a row.
//! Handle equality is value equality, not liveness.

use vstd::prelude::*;
use crate::execution_context::{InstModel, NativeInstance};
use crate::reflection::TypeKey;

verus! {

/// Opaque handle naming a store row.
#[derive(Clone, Copy, PartialEq, Eq, Structural, Debug, Hash)]
pub struct Entity {
    pub index: usize,
    pub generation: u64,
}

/// One store row.
struct Slot {
    generation: u64,
    alive: bool,
    components: Vec<NativeInstance>,
}

/// Mathematical shape of one store row.
#[verifier::ext_equal]
pub struct SlotModel {
    pub generation: u64,
    pub alive: bool,
    pub components: Seq<InstModel>,
}

impl View for Slot {
    type V = SlotModel;

    closed spec fn view(&self) -> SlotModel {
        SlotModel {
            generation: self.generation,
            alive: self.alive,
            components: self.components@.map_values(|c: NativeInstance| c@),
        }
    }
}

/// Whether `e` names a live row of `sv`.
pub open spec fn has_entity(sv: Seq<SlotModel>, e: Entity) -> bool {
    &&& 0 <= e.index < sv.len()
    &&& sv[e.index as int].alive
    &&& sv[e.index as int].generation == e.generation
}

/// The components attached to the row `e` names.
pub open spec fn slot_components(sv: Seq<SlotModel>, e: Entity) -> Seq<InstModel> {
    sv[e.index as int].components
}

/// Whether component `i` of `comps` carries `key`.
pub open spec fn comp_key_at(comps: Seq<InstModel>, key: TypeKey, i: int) -> bool {
    comps[i].key == key
}

/// Whether some component of `comps` carries `key`.
pub open spec fn has_component_key(comps: Seq<InstModel>, key: TypeKey) -> bool {
    exists|i: int| 0 <= i < comps.len() && #[trigger] comp_key_at(comps, key, i)
}

/// No two components of `comps` carry the same key.
pub open spec fn keys_unique(comps: Seq<InstModel>) -> bool {
    forall|i: int, j: int|
        0 <= i < j < comps.len() ==> (#[trigger] comps[i]).key != (#[trigger] comps[j]).key
}

/// The position of the first component of `comps` at or after `from` that
/// carries `key`, or `comps.len()` if there is none.
pub open spec fn first_key_index_from(comps: Seq<InstModel>, key: TypeKey, from: int) -> int
    decreases comps.len() - from,
{
    if from < 0 || from >= comps.len() {
        comps.len() as int
    } else if comp_key_at(comps, key, from) {
        from
    } else {
        first_key_index_from(comps, key, from + 1)
    }
}

/// The position of the first component of `comps` carrying `key`.
pub open spec fn first_key_index(comps: Seq<InstModel>, key: TypeKey) -> int {
    first_key_index_from(comps, key, 0)
}

/// `comps` with `inst` in place of the first component sharing its key, or
/// appended if no component shares it.
pub open spec fn upsert_model(comps: Seq<InstModel>, inst: InstModel) -> Seq<InstModel> {
    let i = first_key_index(comps, inst.key);
    if i < comps.len() {
        comps.update(i, inst)
    } else {
        comps.push(inst)
    }
}

/// `comps` without the first component carrying `key`, if one does.
pub open spec fn remove_model(comps: Seq<InstModel>, key: TypeKey) -> Seq<InstModel> {
    let i = first_key_index(comps, key);
    if i < comps.len() {
        comps.remove(i)
    } else {
        comps
    }
}

/// `sv` with the components of row `e.index` replaced by `comps`.
pub open spec fn set_components(sv: Seq<SlotModel>, e: Entity, comps: Seq<InstModel>) -> Seq<
    SlotModel,
> {
    sv.update(
        e.index as int,
        SlotModel {
            generation: sv[e.index as int].generation,
            alive: sv[e.index as int].alive,
            components: comps,
        },
    )
}

/// The position of the first row of `sv` at or after `from` that a spawn may
/// reuse: dead, with a generation that can still be bumped.
pub open spec fn first_free_from(sv: Seq<SlotModel>, from: int) -> int
    decreases sv.len() - from,
{
    if from < 0 || from >= sv.len() {
        sv.len() as int
    } else if !sv[from].alive && sv[from].generation < u64::MAX {
        from
    } else {
        first_free_from(sv, from + 1)
    }
}

/// The store after one spawn, and the handle of the new row: the first
/// reusable dead row under a bumped generation, or a fresh row at the end.
pub open spec fn spawn_model(sv: Seq<SlotModel>) -> (Seq<SlotModel>, Entity) {
    let i = first_free_from(sv, 0);
    if i < sv.len() {
        let g = (sv[i].generation + 1) as u64;
        (
            sv.update(i, SlotModel { generation: g, alive: true, components: Seq::empty() }),
            Entity { index: i as usize, generation: g },
        )
    } else {
        (
            sv.push(SlotModel { generation: 0, alive: true, components: Seq::empty() }),
            Entity { index: sv.len() as usize, generation: 0 },
        )
    }
}

/// The store after row `e` is despawned: the row is dead and empty, its
/// generation kept so a later reuse bumps past every issued handle.
pub open spec fn despawn_model(sv: Seq<SlotModel>, e: Entity) -> Seq<SlotModel> {
    sv.update(
        e.index as int,
        SlotModel {
            generation: sv[e.index as int].generation,
            alive: false,
            components: Seq::empty(),
        },
    )
}

/// How many rows of the first `n` are live.
pub open spec fn live_count_prefix(sv: Seq<SlotModel>, n: int) -> nat
    decreases n,
{
    if n <= 0 {
        0
    } else {
        live_count_prefix(sv, n - 1) + (if sv[n - 1].alive {
            1nat
        } else {
            0nat
        })
    }
}

/// How many rows of `sv` are live.
pub open spec fn live_count(sv: Seq<SlotModel>) -> nat {
    live_count_prefix(sv, sv.len() as int)
}

/// The live store. Its single writer is the command processor; operations
/// run to completion inside the tick that dispatches them.
pub struct World {
    slots: Vec<Slot>,
}

impl View for World {
    type V = Seq<SlotModel>;

    closed spec fn view(&self) -> Seq<SlotModel> {
        self.slots@.map_values(|s: Slot| s@)
    }
}

impl World {
    /// Every row keeps at most one component per key.
    pub open spec fn wf(&self) -> bool {
        forall|s: int| 0 <= s < self@.len() ==> keys_unique((#[trigger] self@[s]).components)
    }

    /// An empty store.
    pub fn new() -> (r: World)
        ensures
            r@ == Seq::<SlotModel>::empty(),
            r.wf(),
    {
        let r = World { slots: Vec::new() };
        proof {
            assert(r@ =~= Seq::<SlotModel>::empty());
        }
        r
    }

    /// Whether `e` names a live row.
    pub fn contains(&self, e: Entity) -> (r: bool)
        ensures
            r == has_entity(self@, e),
    {
        e.index < self.slots.len() && self.slots[e.index].alive && self.slots[e.index].generation
            == e.generation
    }

    /// How many rows are live.
    pub fn entity_count(&self) -> (r: usize)
        ensures
            r == live_count(self@),
    {
        let n = self.slots.len();
        let mut count: usize = 0;
        let mut i: usize = 0;
        while i < n
            invariant
                0 <= i <= n,
                n == self@.len(),
                count <= i,
                count == live_count_prefix(self@, i as int),
            decreases n - i,
        {
            if self.slots[i].alive {
                count += 1;
            }
            assert(live_count_prefix(self@, i + 1) == live_count_prefix(self@, i as int) + (
            if self@[i as int].alive {
                1nat
            } else {
                0nat
            }));
            i += 1;
        }
        count
    }

    /// Creates a row with no components; always succeeds. The new handle
    /// names a live empty row and named nothing before the call.
    pub fn spawn_empty(&mut self) -> (e: Entity)
        requires
            old(self).wf(),
        ensures
            final(self).wf(),
            final(self)@ == spawn_model(old(self)@).0,
            e == spawn_model(old(self)@).1,
            has_entity(final(self)@, e),
            !has_entity(old(self)@, e),
            slot_components(final(self)@, e).len() == 0,
            forall|o: Entity|
                o != e ==> #[trigger] has_entity(final(self)@, o) == has_entity(old(self)@, o),
            forall|o: Entity|
                has_entity(old(self)@, o) ==> #[trigger] slot_components(final(self)@, o)
                    == slot_components(old(self)@, o),
    {
        let n = self.slots.len();
        let mut i: usize = 0;
        while i < n
            invariant
                0 <= i <= n,
                *self == *old(self),
                old(self).wf(),
                n == self@.len(),
                first_free_from(self@, 0) == first_free_from(self@, i as int),
            decreases n - i,
        {
            if !self.slots[i].alive && self.slots[i].generation < u64::MAX {
                let g = self.slots[i].generation + 1;
                proof {
                    assert(first_free_from(self@, i as int) == i as int);
                }
                self.slots.set(i, Slot { generation: g, alive: true, components: Vec::new() });
                let e = Entity { index: i, generation: g };
                proof {
                    assert(self@ =~~= spawn_model(old(self)@).0);
                    assert forall|s: int| 0 <= s < self@.len() implies keys_unique(
                        (#[trigger] self@[s]).components,
                    ) by {
                        if s != i as int {
                            assert(self@[s] == old(self)@[s]);
                        }
                    }
                }
                return e;
            }
            proof {
                assert(first_free_from(self@, i as int) == first_free_from(self@, i + 1));
            }
            i += 1;
        }
        self.slots.push(Slot { generation: 0, alive: true, components: Vec::new() });
        let e = Entity { index: n, generation: 0 };
        proof {
            assert(first_free_from(old(self)@, n as int) == n as int);
            assert(self@ =~~= spawn_model(old(self)@).0);
            assert forall|s: int| 0 <= s < self@.len() implies keys_unique(
                (#[trigger] self@[s]).components,
            ) by {
                if s < n {
                    assert(self@[s] == old(self)@[s]);
                }
            }
        }
        e
    }

    /// Removes the row `e` names, if live, and says whether it was. Despawning
    /// an absent entity leaves the store unchanged and reports it.
    pub fn despawn(&mut self, e: Entity) -> (existed: bool)
        requires
            old(self).wf(),
        ensures
            final(self).wf(),
            existed == has_entity(old(self)@, e),
            existed ==> final(self)@ == despawn_model(old(self)@, e),
            !existed ==> final(self)@ == old(self)@,
            !has_entity(final(self)@, e),
    {
        if self.contains(e) {
            let g = self.slots[e.index].generation;
            self.slots.set(e.index, Slot { generation: g, alive: false, components: Vec::new() });
            proof {
                assert(self@ =~~= despawn_model(old(self)@, e));
                assert forall|s: int| 0 <= s < self@.len() implies keys_unique(
                    (#[trigger] self@[s]).components,
                ) by {
                    if s != e.index as int {
                        assert(self@[s] == old(self)@[s]);
                    }
                }
            }
            true
        } else {
            false
        }
    }

    /// The component of row `e` carrying `key`, if `e` is live and one does.
    pub fn get_component(&self, e: Entity, key: TypeKey) -> (r: Option<&NativeInstance>)
        ensures
            r is Some == (has_entity(self@, e) && has_component_key(
                slot_components(self@, e),
                key,
            )),
            match r {
                Some(c) => {
                    let comps = slot_components(self@, e);
                    let i = first_key_index(comps, key);
                    0 <= i < comps.len() && c@ == comps[i]
                },
                None => true,
            },
    {
        if !self.contains(e) {
            return None;
        }
        let comps = &self.slots[e.index].components;
        let ghost cm = slot_components(self@, e);
        proof {
            assert(cm =~= comps@.map_values(|c: NativeInstance| c@));
        }
        let n = comps.len();
        let mut i: usize = 0;
        while i < n
            invariant
                0 <= i <= n,
                n == comps@.len(),
                cm == slot_components(self@, e),
                has_entity(self@, e),
                cm == comps@.map_values(|c: NativeInstance| c@),
                first_key_index(cm, key) == first_key_index_from(cm, key, i as int),
                forall|j: int| 0 <= j < i ==> !(#[trigger] comp_key_at(cm, key, j)),
            decreases n - i,
        {
            if comps[i].key == key {
                proof {
                    assert(comp_key_at(cm, key, i as int));
                    assert(first_key_index_from(cm, key, i as int) == i as int);
                }
                return Some(&comps[i]);
            }
            proof {
                assert(first_key_index_from(cm, key, i as int) == first_key_index_from(
                    cm,
                    key,
                    i + 1,
                ));
            }
            i += 1;
        }
        None
    }

    /// Borrows the components attached to the live row `e`.
    pub fn components(&self, e: Entity) -> (r: &Vec<NativeInstance>)
        requires
            has_entity(self@, e),
        ensures
            r@.map_values(|c: NativeInstance| c@) == slot_components(self@, e),
    {
        let r = &self.slots[e.index].components;
        proof {
            assert(r@.map_values(|c: NativeInstance| c@) =~= slot_components(self@, e));
        }
        r
    }

    /// Upserts `inst` on row `e`: replaces the component sharing its key or
    /// attaches it, and says whether `e` was live. An absent entity leaves
    /// the store unchanged.
    pub fn insert_component(&mut self, e: Entity, inst: NativeInstance) -> (ok: bool)
        requires
            old(self).wf(),
        ensures
            final(self).wf(),
            ok == has_entity(old(self)@, e),
            ok ==> final(self)@ == set_components(
                old(self)@,
                e,
                upsert_model(slot_components(old(self)@, e), inst@),
            ),
            !ok ==> final(self)@ == old(self)@,
    {
        if !self.contains(e) {
            return false;
        }
        let ghost cm = slot_components(old(self)@, e);
        proof {
            assert(cm =~= self.slots@[e.index as int].components@.map_values(
                |c: NativeInstance| c@,
            ));
        }
        let n = self.slots[e.index].components.len();
        let mut i: usize = 0;
        while i < n
            invariant
                0 <= i <= n,
                *self == *old(self),
                old(self).wf(),
                has_entity(self@, e),
                n == cm.len(),
                cm == slot_components(self@, e),
                cm == self.slots@[e.index as int].components@.map_values(
                    |c: NativeInstance| c@,
                ),
                first_key_index(cm, inst@.key) == first_key_index_from(cm, inst@.key, i as int),
                forall|j: int| 0 <= j < i ==> !(#[trigger] comp_key_at(cm, inst@.key, j)),
            decreases n - i,
        {
            if self.slots[e.index].components[i].key == inst.key {
                proof {
                    assert(comp_key_at(cm, inst@.key, i as int));
                    assert(first_key_index_from(cm, inst@.key, i as int) == i as int);
                }
                self.slots[e.index].components.set(i, inst);
                proof {
                    assert(self@ =~~= set_components(
                        old(self)@,
                        e,
                        upsert_model(cm, inst@),
                    ));
                    lemma_upsert_keys_unique(cm, inst@);
                    lemma_wf_after_set_components(
                        old(self)@,
                        self@,
                        e,
                        upsert_model(cm, inst@),
                    );
                }
                return true;
            }
            proof {
                assert(first_key_index_from(cm, inst@.key, i as int) == first_key_index_from(
                    cm,
                    inst@.key,
                    i + 1,
                ));
            }
            i += 1;
        }
        proof {
            assert(first_key_index_from(cm, inst@.key, n as int) == n as int);
        }
        self.slots[e.index].components.push(inst);
        proof {
            assert(self@ =~~= set_components(old(self)@, e, upsert_model(cm, inst@)));
            lemma_upsert_keys_unique(cm, inst@);
            lemma_wf_after_set_components(old(self)@, self@, e, upsert_model(cm, inst@));
        }
        true
    }

    /// Detaches the component of row `e` carrying `key`, if `e` is live and
    /// one does; says whether one was detached. Removing an absent component
    /// is no error: the store is simply left unchanged.
    pub fn remove_component(&mut self, e: Entity, key: TypeKey) -> (removed: bool)
        requires
            old(self).wf(),
        ensures
            final(self).wf(),
            removed == (has_entity(old(self)@, e) && has_component_key(
                slot_components(old(self)@, e),
                key,
            )),
            removed ==> final(self)@ == set_components(
                old(self)@,
                e,
                remove_model(slot_components(old(self)@, e), key),
            ),
            !removed ==> final(self)@ == old(self)@,
    {
        if !self.contains(e) {
            return false;
        }
        let ghost cm = slot_components(old(self)@, e);
        proof {
            assert(cm =~= self.slots@[e.index as int].components@.map_values(
                |c: NativeInstance| c@,
            ));
        }
        let n = self.slots[e.index].components.len();
        let mut i: usize = 0;
        while i < n
            invariant
                0 <= i <= n,
                *self == *old(self),
                old(self).wf(),
                has_entity(self@, e),
                n == cm.len(),
                cm == slot_components(self@, e),
                cm == self.slots@[e.index as int].components@.map_values(
                    |c: NativeInstance| c@,
                ),
                first_key_index(cm, key) == first_key_index_from(cm, key, i as int),
                forall|j: int| 0 <= j < i ==> !(#[trigger] comp_key_at(cm, key, j)),
            decreases n - i,
        {
            if self.slots[e.index].components[i].key == key {
                proof {
                    assert(comp_key_at(cm, key, i as int));
                    assert(first_key_index_from(cm, key, i as int) == i as int);
                }
                self.slots[e.index].components.remove(i);
                proof {
                    assert(self@ =~~= set_components(old(self)@, e, remove_model(cm, key)));
                    lemma_remove_keys_unique(cm, key);
                    lemma_wf_after_set_components(old(self)@, self@, e, remove_model(cm, key));
                }
                return true;
            }
            proof {
                assert(first_key_index_from(cm, key, i as int) == first_key_index_from(
                    cm,
                    key,
                    i + 1,
                ));
            }
            i += 1;
        }
        proof {
            assert(first_key_index_from(cm, key, n as int) == n as int);
        }
        false
    }
}

/// A store stays well formed when one live row's components are replaced by
/// a list whose keys are unique.
proof fn lemma_wf_after_set_components(
    sv0: Seq<SlotModel>,
    sv1: Seq<SlotModel>,
    e: Entity,
    comps: Seq<InstModel>,
)
    requires
        forall|s: int| 0 <= s < sv0.len() ==> keys_unique((#[trigger] sv0[s]).components),
        0 <= e.index < sv0.len(),
        sv1 == set_components(sv0, e, comps),
        keys_unique(comps),
    ensures
        forall|s: int| 0 <= s < sv1.len() ==> keys_unique((#[trigger] sv1[s]).components),
{
    assert forall|s: int| 0 <= s < sv1.len() implies keys_unique(
        (#[trigger] sv1[s]).components,
    ) by {
        if s != e.index as int {
            assert(sv1[s] == sv0[s]);
        }
    }
}

/// Upserting keeps component keys unique.
proof fn lemma_upsert_keys_unique(comps: Seq<InstModel>, inst: InstModel)
    requires
        keys_unique(comps),
    ensures
        keys_unique(upsert_model(comps, inst)),
{
    let i = first_key_index(comps, inst.key);
    lemma_first_key_index_bounds(comps, inst.key);
    let out = upsert_model(comps, inst);
    if i < comps.len() {
        assert forall|a: int, b: int| 0 <= a < b < out.len() implies (#[trigger] out[a]).key
            != (#[trigger] out[b]).key by {
            if a != i && b != i {
                assert(out[a] == comps[a] && out[b] == comps[b]);
            } else if a == i {
                assert(out[b] == comps[b]);
                assert(!comp_key_at(comps, inst.key, b));
            } else {
                assert(out[a] == comps[a]);
                assert(!comp_key_at(comps, inst.key, a));
            }
        }
    } else {
        assert forall|a: int, b: int| 0 <= a < b < out.len() implies (#[trigger] out[a]).key
            != (#[trigger] out[b]).key by {
            if b < comps.len() {
                assert(out[a] == comps[a] && out[b] == comps[b]);
            } else {
                assert(out[a] == comps[a]);
                assert(!comp_key_at(comps, inst.key, a));
            }
        }
    }
}

/// Removing a component keeps component keys unique.
proof fn lemma_remove_keys_unique(comps: Seq<InstModel>, key: TypeKey)
    requires
        keys_unique(comps),
    ensures
        keys_unique(remove_model(comps, key)),
{
    let i = first_key_index(comps, key);
    lemma_first_key_index_bounds(comps, key);
    let out = remove_model(comps, key);
    if i < comps.len() {
        assert forall|a: int, b: int| 0 <= a < b < out.len() implies (#[trigger] out[a]).key
            != (#[trigger] out[b]).key by {
            let a0 = if a < i { a } else { a + 1 };
            let b0 = if b < i { b } else { b + 1 };
            assert(out[a] == comps[a0]);
            assert(out[b] == comps[b0]);
        }
    }
}

/// Every position before the first carrying `key` does not carry it, and the
/// first position, when in range, does.
proof fn lemma_first_key_index_bounds(comps: Seq<InstModel>, key: TypeKey)
    ensures
        0 <= first_key_index(comps, key) <= comps.len(),
        first_key_index(comps, key) < comps.len() ==> comp_key_at(
            comps,
            key,
            first_key_index(comps, key),
        ),
        forall|j: int|
            0 <= j < first_key_index(comps, key) ==> !(#[trigger] comp_key_at(comps, key, j)),
{
    lemma_first_key_index_from_bounds(comps, key, 0);
}

proof fn lemma_first_key_index_from_bounds(comps: Seq<InstModel>, key: TypeKey, from: int)
    requires
        0 <= from <= comps.len(),
    ensures
        from <= first_key_index_from(comps, key, from) <= comps.len(),
        first_key_index_from(comps, key, from) < comps.len() ==> comp_key_at(
            comps,
            key,
            first_key_index_from(comps, key, from),
        ),
        forall|j: int|
            from <= j < first_key_index_from(comps, key, from) ==> !(#[trigger] comp_key_at(
                comps,
                key,
                j,
            )),
    decreases comps.len() - from,
{
    if from < comps.len() && !comp_key_at(comps, key, from) {
        lemma_first_key_index_from_bounds(comps, key, from + 1);
    }
}

} // verus!
