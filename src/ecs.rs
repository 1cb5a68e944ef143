//! Entities as generation-checked handles into a fixed pool, and the
//! per-type component stores keyed by them.
use crate::component::FighterComponent;
use vstd::prelude::*;
use vstd::set_lib::{lemma_int_range, lemma_len_subset, set_int_range};

verus! {

/// Identifies an entity: a slot of the pool and the generation of that slot
/// at the time the handle was issued. Two handles are equal only when both
/// parts match.
#[derive(Debug, PartialEq, Eq, Structural, Clone, Copy)]
pub struct GenerationalIndex {
    index: usize,
    generation: u32,
}

pub type Entity = GenerationalIndex;

impl GenerationalIndex {
    /// The pool slot the handle addresses.
    pub closed spec fn spec_index(self) -> nat {
        self.index as nat
    }

    /// The generation of the slot when the handle was issued.
    pub closed spec fn spec_generation(self) -> nat {
        self.generation as nat
    }

    /// Handles agree exactly when both parts agree.
    pub proof fn lemma_ext(self, other: Self)
        ensures
            (self == other) <==> (self.spec_index() == other.spec_index()
                && self.spec_generation() == other.spec_generation()),
    {
    }

    pub fn index(&self) -> (r: usize)
        ensures
            r == self.spec_index(),
    {
        self.index
    }

    pub fn generation(&self) -> (r: u32)
        ensures
            r == self.spec_generation(),
    {
        self.generation
    }
}


#[derive(Debug, Clone, Copy)]
struct AllocatorEntry {
    is_live: bool,
    generation: u32,
}

/// Issues and reclaims handles from a pool whose size is fixed at
/// construction.
///
/// Its view lists, for every slot, whether it is live and the generation
/// that the next handle issued for it will carry. A slot whose generation
/// counter is exhausted is retired when it is freed, so a handle is never
/// issued twice.
#[derive(Debug)]
pub struct GenerationalIndexAllocator {
    max_index: usize,
    entries: Vec<AllocatorEntry>,
    free: Vec<usize>,
}

/// A slot that allocation may hand out: not live and not retired.
pub open spec fn slot_is_free(slot: (bool, u32)) -> bool {
    !slot.0 && slot.1 < u32::MAX
}

impl View for GenerationalIndexAllocator {
    type V = Seq<(bool, u32)>;

    closed spec fn view(&self) -> Seq<(bool, u32)> {
        self.entries@.map_values(|e: AllocatorEntry| (e.is_live, e.generation))
    }
}

impl GenerationalIndexAllocator {
    /// The free list holds each allocatable slot exactly once.
    pub closed spec fn wf(&self) -> bool {
        &&& self.entries@.len() == self.max_index
        &&& self.free@.no_duplicates()
        &&& forall|k: int|
            0 <= k < self.free@.len() ==> {
                &&& self.free@[k] < self.max_index
                &&& slot_is_free(self@[self.free@[k] as int])
            }
        &&& forall|i: int|
            0 <= i < self.max_index && slot_is_free(#[trigger] self@[i]) ==> self.free@.contains(
                i as usize,
            )
    }

    pub open spec fn capacity(&self) -> nat {
        self@.len()
    }

    pub open spec fn has_free(&self) -> bool {
        exists|i: int| 0 <= i < self@.len() && slot_is_free(#[trigger] self@[i])
    }

    /// The handle that currently names slot `h`'s live entity.
    pub open spec fn is_current(&self, h: GenerationalIndex) -> bool {
        &&& h.spec_index() < self@.len()
        &&& self@[h.spec_index() as int].0
        &&& h.spec_generation() + 1 == self@[h.spec_index() as int].1
    }

    /// Handed out at some point for its slot.
    pub open spec fn was_issued(&self, h: GenerationalIndex) -> bool {
        &&& h.spec_index() < self@.len()
        &&& h.spec_generation() < self@[h.spec_index() as int].1
    }

    /// Issued once, and no longer the name of a live entity.
    pub open spec fn is_stale(&self, h: GenerationalIndex) -> bool {
        self.was_issued(h) && !self.is_current(h)
    }

    proof fn lemma_view_len(&self)
        ensures
            self@.len() == self.entries@.len(),
            forall|i: int|
                0 <= i < self.entries@.len() ==> #[trigger] self@[i] == (
                self.entries@[i].is_live,
                self.entries@[i].generation,
            ),
    {
    }

    /// A pool of `n` slots, none of them live.
    pub fn new(n: usize) -> (r: Self)
        ensures
            r.wf(),
            r@ == Seq::new(n as nat, |i: int| (false, 0u32)),
    {
        let mut entries: Vec<AllocatorEntry> = Vec::new();
        let mut free: Vec<usize> = Vec::new();
        let mut i: usize = 0;
        while i < n
            invariant
                i <= n,
                entries@.len() == i,
                free@.len() == i,
                forall|k: int| 0 <= k < i ==> !entries@[k].is_live && entries@[k].generation == 0,
                forall|k: int| 0 <= k < i ==> free@[k] == k,
            decreases n - i,
        {
            entries.push(AllocatorEntry { is_live: false, generation: 0 });
            free.push(i);
            i = i + 1;
        }
        let r = Self { max_index: n, entries, free };
        proof {
            r.lemma_view_len();
            assert(r@ =~= Seq::new(n as nat, |i: int| (false, 0u32)));
            assert forall|i: int| 0 <= i < n && slot_is_free(#[trigger] r@[i]) implies r.free@.contains(
                i as usize,
            ) by {
                assert(r.free@[i] == i);
            }
        }
        r
    }

    /// Whether `allocate` may be called: some slot is free.
    pub fn can_allocate(&self) -> (r: bool)
        requires
            self.wf(),
        ensures
            r == self.has_free(),
    {
        proof {
            self.lemma_view_len();
            if self.free@.len() > 0 {
                let i = self.free@[0] as int;
                assert(slot_is_free(self@[i]));
            }
        }
        self.free.len() > 0
    }

    /// Takes the lowest free slot, marks it live and advances its
    /// generation; the handle carries the generation from before the
    /// advance.
    pub fn allocate(&mut self) -> (r: GenerationalIndex)
        requires
            old(self).wf(),
            old(self).has_free(),
        ensures
            final(self).wf(),
            r.spec_index() < old(self)@.len(),
            slot_is_free(old(self)@[r.spec_index() as int]),
            forall|j: int| 0 <= j < r.spec_index() ==> !slot_is_free(#[trigger] old(self)@[j]),
            r.spec_generation() == old(self)@[r.spec_index() as int].1,
            final(self)@ == old(self)@.update(
                r.spec_index() as int,
                (true, (old(self)@[r.spec_index() as int].1 + 1) as u32),
            ),
            final(self).is_current(r),
            forall|h: GenerationalIndex| old(self).is_stale(h) ==> #[trigger] final(self).is_stale(h),
    {
        proof {
            self.lemma_view_len();
            let i = choose|i: int| 0 <= i < self@.len() && slot_is_free(#[trigger] self@[i]);
            assert(self.free@.contains(i as usize));
        }
        let mut best: usize = 0;
        let mut k: usize = 1;
        while k < self.free.len()
            invariant
                0 < self.free@.len(),
                best < self.free@.len(),
                1 <= k <= self.free@.len(),
                forall|m: int| 0 <= m < k ==> self.free@[best as int] <= self.free@[m],
            decreases self.free@.len() - k,
        {
            if self.free[k] < self.free[best] {
                best = k;
            }
            k = k + 1;
        }
        let id = self.free[best];
        let ghost old_free = self.free@;
        let ghost old_view = self@;
        self.free.remove(best);
        let generation = self.entries[id].generation;
        self.entries.set(id, AllocatorEntry { is_live: true, generation: generation + 1 });
        proof {
            self.lemma_view_len();
            assert(self@ =~= old_view.update(id as int, (true, (generation + 1) as u32)));
            assert forall|j: int| 0 <= j < id implies !slot_is_free(#[trigger] old_view[j]) by {
                if slot_is_free(old_view[j]) {
                    let m = choose|m: int| 0 <= m < old_free.len() && old_free[m] == j as usize;
                    assert(old_free[best as int] <= old_free[m]);
                }
            }
            assert forall|k2: int| 0 <= k2 < self.free@.len() implies {
                &&& self.free@[k2] < self.max_index
                &&& slot_is_free(self@[self.free@[k2] as int])
            } by {
                if k2 < best {
                    assert(self.free@[k2] == old_free[k2]);
                } else {
                    assert(self.free@[k2] == old_free[k2 + 1]);
                }
            }
            assert forall|i: int|
                0 <= i < self.max_index && slot_is_free(#[trigger] self@[i]) implies self.free@.contains(
                i as usize,
            ) by {
                assert(i != id);
                assert(old_free.contains(i as usize));
                let m = choose|m: int| 0 <= m < old_free.len() && old_free[m] == i as usize;
                if m < best {
                    assert(self.free@[m] == i as usize);
                } else {
                    assert(m != best);
                    assert(self.free@[m - 1] == i as usize);
                }
            }
        }
        GenerationalIndex { index: id, generation }
    }

    /// Frees the handle's slot. Returns false, changing nothing, when the
    /// slot is not live. The generation is left as it is: it already moved
    /// on when the handle was issued.
    pub fn deallocate(&mut self, index: GenerationalIndex) -> (r: bool)
        requires
            old(self).wf(),
        ensures
            final(self).wf(),
            r == (index.spec_index() < old(self)@.len() && old(self)@[index.spec_index() as int].0),
            final(self)@ == if r {
                old(self)@.update(
                    index.spec_index() as int,
                    (false, old(self)@[index.spec_index() as int].1),
                )
            } else {
                old(self)@
            },
            forall|h: GenerationalIndex| old(self).is_stale(h) ==> #[trigger] final(self).is_stale(h),
            old(self).is_current(index) ==> final(self).is_stale(index),
    {
        proof {
            self.lemma_view_len();
        }
        let id = index.index();
        if id >= self.entries.len() {
            return false;
        }
        if !self.entries[id].is_live {
            return false;
        }
        let generation = self.entries[id].generation;
        let ghost old_free = self.free@;
        let ghost old_view = self@;
        self.entries.set(id, AllocatorEntry { is_live: false, generation });
        proof {
            self.lemma_view_len();
            assert(self@ =~= old_view.update(id as int, (false, generation)));
            assert(!old_free.contains(id)) by {
                if old_free.contains(id) {
                    let m = choose|m: int| 0 <= m < old_free.len() && old_free[m] == id;
                }
            }
        }
        if generation < u32::MAX {
            self.free.push(id);
            proof {
                assert forall|i: int|
                    0 <= i < self.max_index && slot_is_free(#[trigger] self@[i]) implies self.free@.contains(
                    i as usize,
                ) by {
                    if i == id {
                        assert(self.free@[old_free.len() as int] == id);
                    } else {
                        assert(old_free.contains(i as usize));
                        let m = choose|m: int| 0 <= m < old_free.len() && old_free[m] == i as usize;
                        assert(self.free@[m] == i as usize);
                    }
                }
            }
        }
        true
    }
}


#[derive(Debug)]
struct ArrayEntry<T> {
    value: T,
    generation: u32,
}

/// A sparse store of one component type, parallel to the allocator's pool.
///
/// Its view holds, for every slot, the stored value together with the
/// generation of the handle it was stored under, or nothing.
#[derive(Debug)]
pub struct GenerationalIndexArray<T>(Vec<Option<ArrayEntry<T>>>);

spec fn slot_of<T>(e: Option<ArrayEntry<T>>) -> Option<(T, u32)> {
    match e {
        Some(x) => Some((x.value, x.generation)),
        None => None,
    }
}

impl<T> View for GenerationalIndexArray<T> {
    type V = Seq<Option<(T, u32)>>;

    closed spec fn view(&self) -> Seq<Option<(T, u32)>> {
        self.0@.map_values(|e: Option<ArrayEntry<T>>| slot_of(e))
    }
}

impl<T> GenerationalIndexArray<T> {
    /// What a lookup by `h` finds: the slot's value, provided the slot is
    /// occupied and stamped with `h`'s generation.
    pub open spec fn lookup(&self, h: GenerationalIndex) -> Option<T> {
        if h.spec_index() < self@.len() {
            match self@[h.spec_index() as int] {
                Some(slot) => if slot.1 == h.spec_generation() {
                    Some(slot.0)
                } else {
                    None
                },
                None => None,
            }
        } else {
            None
        }
    }

    proof fn lemma_view(&self)
        ensures
            self@.len() == self.0@.len(),
            forall|i: int| 0 <= i < self.0@.len() ==> #[trigger] self@[i] == slot_of(self.0@[i]),
    {
    }

    /// A store of `n` empty slots.
    pub fn new(n: usize) -> (r: Self)
        ensures
            r@ == Seq::new(n as nat, |i: int| None::<(T, u32)>),
    {
        let mut a = Self(Vec::new());
        let mut i: usize = 0;
        while i < n
            invariant
                i <= n,
                a.0@.len() == i,
                forall|k: int| 0 <= k < i ==> a.0@[k].is_none(),
            decreases n - i,
        {
            a.0.push(None);
            i = i + 1;
        }
        proof {
            a.lemma_view();
            assert(a@ =~= Seq::new(n as nat, |i: int| None::<(T, u32)>));
        }
        a
    }

    /// Number of slots.
    pub fn len(&self) -> (r: usize)
        ensures
            r == self@.len(),
    {
        proof {
            self.lemma_view();
        }
        self.0.len()
    }

    /// Stores `value` in the handle's slot, stamped with the handle's
    /// generation, replacing whatever was there.
    pub fn set(&mut self, index: GenerationalIndex, value: T)
        requires
            index.spec_index() < old(self)@.len(),
        ensures
            final(self)@ == old(self)@.update(
                index.spec_index() as int,
                Some((value, index.spec_generation() as u32)),
            ),
    {
        proof {
            self.lemma_view();
        }
        let ghost old_view = self@;
        let i = index.index();
        let generation = index.generation();
        self.0.set(i, Some(ArrayEntry { value, generation }));
        proof {
            self.lemma_view();
            assert(self@ =~= old_view.update(i as int, Some((value, generation))));
        }
    }

    /// Empties the handle's slot, whatever generation it holds; a handle
    /// beyond the store has no slot to empty.
    pub fn unset(&mut self, index: GenerationalIndex)
        ensures
            final(self)@ == if index.spec_index() < old(self)@.len() {
                old(self)@.update(index.spec_index() as int, None)
            } else {
                old(self)@
            },
    {
        proof {
            self.lemma_view();
        }
        let ghost old_view = self@;
        let i = index.index();
        if i < self.0.len() {
            self.0.set(i, None);
            proof {
                self.lemma_view();
                assert(self@ =~= old_view.update(i as int, None));
            }
        }
    }

    /// The value stored under `index`, if its slot is occupied with the same
    /// generation; a stale handle finds nothing.
    pub fn get(&self, index: GenerationalIndex) -> (r: Option<&T>)
        ensures
            r.is_some() == self.lookup(index).is_some(),
            r.is_some() ==> *r.unwrap() == self.lookup(index).unwrap(),
    {
        proof {
            self.lemma_view();
        }
        let i = index.index();
        if i >= self.0.len() {
            return None;
        }
        match &self.0[i] {
            Some(e) => {
                if e.generation == index.generation() {
                    Some(&e.value)
                } else {
                    None
                }
            },
            None => None,
        }
    }

    /// As `get`, with a mutable reference; what is written through it lands
    /// in the handle's slot.
    pub fn get_mut(&mut self, index: GenerationalIndex) -> (r: Option<&mut T>)
        ensures
            r.is_some() == old(self).lookup(index).is_some(),
            r.is_some() ==> *r.unwrap() == old(self).lookup(index).unwrap(),
            r.is_some() ==> final(self)@ == old(self)@.update(
                index.spec_index() as int,
                Some((*final(r.unwrap()), index.spec_generation() as u32)),
            ),
            r.is_none() ==> final(self)@ == old(self)@,
    {
        proof {
            self.lemma_view();
        }
        let i = index.index();
        if i >= self.0.len() {
            return None;
        }
        match &mut self.0[i] {
            Some(e) => {
                if e.generation == index.generation() {
                    Some(&mut e.value)
                } else {
                    None
                }
            },
            None => None,
        }
    }
}


impl GenerationalIndexAllocator {
    /// The slots that are live.
    pub open spec fn live_slots(&self) -> Set<int> {
        Set::new(|i: int| 0 <= i < self@.len() && self@[i].0)
    }

    /// The live handles never outnumber the pool, and allocation has nothing
    /// to give exactly when every slot is live or retired.
    pub proof fn lemma_pool_conservation(&self)
        requires
            self.wf(),
        ensures
            self.live_slots().finite(),
            self.live_slots().len() <= self.capacity(),
            !self.has_free() <==> forall|i: int|
                0 <= i < self.capacity() ==> #[trigger] self@[i].0 || self@[i].1 == u32::MAX,
    {
        lemma_int_range(0, self@.len() as int);
        lemma_len_subset(self.live_slots(), set_int_range(0, self@.len() as int));
    }
}

/// Tags of the component kinds an entity may carry.
#[derive(Debug, Clone, Copy, PartialEq, Eq, Structural, Hash)]
pub enum ComponentType {
    Null,
    Position,
    Fighter,
    Inventory,
    Playable,
}

/// A marker component that only records its owner.
#[derive(Debug, Clone, Copy)]
pub struct NullComponent {
    pub owner: GenerationalIndex,
}

impl NullComponent {
    pub fn new(owner: Entity) -> (r: NullComponent)
        ensures
            r.owner == owner,
    {
        NullComponent { owner }
    }
}

/// A component value on its way into its typed store. The position type is
/// the caller's: the store keeps it without looking inside.
pub enum Component<P> {
    Null,
    Position(P),
    Fighter(FighterComponent),
}

/// Number of entity slots in a world.
pub const MAX_ENTITIES: usize = 256;

/// The world: the allocator and one store per component type.
pub struct State<P> {
    pub entity_allocator: GenerationalIndexAllocator,
    pub null_components: GenerationalIndexArray<NullComponent>,
    pub position_components: GenerationalIndexArray<P>,
    pub fighter_components: GenerationalIndexArray<FighterComponent>,
}

/// Every occupied slot of the store belongs to the entity that is live in
/// that slot now.
pub open spec fn store_follows<T>(store: &GenerationalIndexArray<T>, alloc: &GenerationalIndexAllocator) -> bool {
    &&& store@.len() == alloc@.len()
    &&& forall|i: int|
        0 <= i < store@.len() && (#[trigger] store@[i]).is_some() ==> {
            &&& alloc@[i].0
            &&& store@[i].unwrap().1 + 1 == alloc@[i].1
        }
}

/// A lookup that finds something was made with the current handle of a
/// live entity.
pub proof fn lemma_found_is_current<T>(store: &GenerationalIndexArray<T>, alloc: &GenerationalIndexAllocator, h: GenerationalIndex)
    requires
        store_follows(store, alloc),
        store.lookup(h).is_some(),
    ensures
        alloc.is_current(h),
{
    assert(store@[h.spec_index() as int].is_some());
}

/// The last value of each kind in a list of components.
pub open spec fn last_null<P>(cs: Seq<Component<P>>) -> bool
    decreases cs.len(),
{
    if cs.len() == 0 {
        false
    } else {
        match cs.last() {
            Component::Null => true,
            _ => last_null(cs.drop_last()),
        }
    }
}

pub open spec fn last_position<P>(cs: Seq<Component<P>>) -> Option<P>
    decreases cs.len(),
{
    if cs.len() == 0 {
        None
    } else {
        match cs.last() {
            Component::Position(p) => Some(p),
            _ => last_position(cs.drop_last()),
        }
    }
}

pub open spec fn last_fighter<P>(cs: Seq<Component<P>>) -> Option<FighterComponent>
    decreases cs.len(),
{
    if cs.len() == 0 {
        None
    } else {
        match cs.last() {
            Component::Fighter(f) => Some(f),
            _ => last_fighter(cs.drop_last()),
        }
    }
}

impl<P> State<P> {
    /// The stores span the pool and hold only components of live entities.
    pub open spec fn wf(&self) -> bool {
        &&& self.entity_allocator.wf()
        &&& store_follows(&self.null_components, &self.entity_allocator)
        &&& store_follows(&self.position_components, &self.entity_allocator)
        &&& store_follows(&self.fighter_components, &self.entity_allocator)
    }

    /// An empty world of `MAX_ENTITIES` slots.
    pub fn new() -> (r: Self)
        ensures
            r.wf(),
            r.entity_allocator@ == Seq::new(MAX_ENTITIES as nat, |i: int| (false, 0u32)),
    {
        Self {
            entity_allocator: GenerationalIndexAllocator::new(MAX_ENTITIES),
            null_components: GenerationalIndexArray::new(MAX_ENTITIES),
            position_components: GenerationalIndexArray::new(MAX_ENTITIES),
            fighter_components: GenerationalIndexArray::new(MAX_ENTITIES),
        }
    }

    /// A fresh entity without components.
    pub fn new_entity(&mut self) -> (r: Entity)
        requires
            old(self).wf(),
            old(self).entity_allocator.has_free(),
        ensures
            final(self).wf(),
            final(self).entity_allocator.is_current(r),
            r.spec_index() < old(self).entity_allocator@.len(),
            slot_is_free(old(self).entity_allocator@[r.spec_index() as int]),
            forall|j: int|
                0 <= j < r.spec_index() ==> !slot_is_free(#[trigger] old(self).entity_allocator@[j]),
            r.spec_generation() == old(self).entity_allocator@[r.spec_index() as int].1,
            final(self).entity_allocator@ == old(self).entity_allocator@.update(
                r.spec_index() as int,
                (true, (old(self).entity_allocator@[r.spec_index() as int].1 + 1) as u32),
            ),
            final(self).null_components@ == old(self).null_components@,
            final(self).position_components@ == old(self).position_components@,
            final(self).fighter_components@ == old(self).fighter_components@,
            forall|h: GenerationalIndex|
                old(self).entity_allocator.is_stale(h) ==> #[trigger] final(self).entity_allocator.is_stale(h),
    {
        self.entity_allocator.allocate()
    }

    /// Removes every component of the entity, then frees its slot. Returns
    /// whether the slot was live.
    pub fn delete_entity(&mut self, entity: Entity) -> (r: bool)
        requires
            old(self).wf(),
        ensures
            final(self).wf(),
            r == (entity.spec_index() < old(self).entity_allocator@.len()
                && old(self).entity_allocator@[entity.spec_index() as int].0),
            final(self).entity_allocator@ == if r {
                old(self).entity_allocator@.update(
                    entity.spec_index() as int,
                    (false, old(self).entity_allocator@[entity.spec_index() as int].1),
                )
            } else {
                old(self).entity_allocator@
            },
            entity.spec_index() < old(self).entity_allocator@.len() ==> {
                &&& final(self).null_components@ == old(self).null_components@.update(entity.spec_index() as int, None)
                &&& final(self).position_components@ == old(self).position_components@.update(entity.spec_index() as int, None)
                &&& final(self).fighter_components@ == old(self).fighter_components@.update(entity.spec_index() as int, None)
            },
            entity.spec_index() >= old(self).entity_allocator@.len() ==> {
                &&& final(self).null_components@ == old(self).null_components@
                &&& final(self).position_components@ == old(self).position_components@
                &&& final(self).fighter_components@ == old(self).fighter_components@
            },
            forall|h: GenerationalIndex|
                old(self).entity_allocator.is_stale(h) ==> #[trigger] final(self).entity_allocator.is_stale(h),
            old(self).entity_allocator.is_current(entity) ==> final(self).entity_allocator.is_stale(entity),
    {
        self.null_components.unset(entity);
        self.position_components.unset(entity);
        self.fighter_components.unset(entity);
        self.entity_allocator.deallocate(entity)
    }

    /// Allocates an entity and stores each supplied component under it; of
    /// two components of one kind the later wins.
    pub fn build_entity(&mut self, components: Vec<Component<P>>) -> (r: Entity)
        requires
            old(self).wf(),
            old(self).entity_allocator.has_free(),
        ensures
            final(self).wf(),
            final(self).entity_allocator.is_current(r),
            final(self).entity_allocator@ == old(self).entity_allocator@.update(
                r.spec_index() as int,
                (true, (old(self).entity_allocator@[r.spec_index() as int].1 + 1) as u32),
            ),
            slot_is_free(old(self).entity_allocator@[r.spec_index() as int]),
            forall|j: int|
                0 <= j < r.spec_index() ==> !slot_is_free(#[trigger] old(self).entity_allocator@[j]),
            final(self).null_components.lookup(r) == (if last_null(components@) {
                Some(NullComponent { owner: r })
            } else {
                None
            }),
            final(self).position_components.lookup(r) == last_position(components@),
            final(self).fighter_components.lookup(r) == last_fighter(components@),
            forall|h: GenerationalIndex|
                h.spec_index() != r.spec_index() ==> {
                    &&& #[trigger] final(self).null_components.lookup(h) == old(self).null_components.lookup(h)
                    &&& final(self).position_components.lookup(h) == old(self).position_components.lookup(h)
                    &&& final(self).fighter_components.lookup(h) == old(self).fighter_components.lookup(h)
                },
            forall|h: GenerationalIndex|
                old(self).entity_allocator.is_stale(h) ==> #[trigger] final(self).entity_allocator.is_stale(h),
    {
        let e = self.new_entity();
        let ghost i = e.spec_index() as int;
        let ghost mid = *self;
        let ghost all = components@;
        let mut rest = components;
        let mut k: usize = 0;
        let n = rest.len();
        assert(rest@.len() == all.len() && all.len() == n);
        while rest.len() > 0
            invariant
                self.wf(),
                self.entity_allocator.is_current(e),
                self.entity_allocator@ == mid.entity_allocator@,
                mid.wf(),
                i == e.spec_index(),
                0 <= i < mid.entity_allocator@.len(),
                k <= all.len(),
                all.len() <= usize::MAX,
                rest@ == all.subrange(k as int, all.len() as int),
                self.null_components@ == mid.null_components@.update(
                    i,
                    if last_null(all.subrange(0, k as int)) {
                        Some((NullComponent { owner: e }, e.spec_generation() as u32))
                    } else {
                        None
                    },
                ),
                self.position_components@ == mid.position_components@.update(
                    i,
                    match last_position(all.subrange(0, k as int)) {
                        Some(p) => Some((p, e.spec_generation() as u32)),
                        None => None,
                    },
                ),
                self.fighter_components@ == mid.fighter_components@.update(
                    i,
                    match last_fighter(all.subrange(0, k as int)) {
                        Some(f) => Some((f, e.spec_generation() as u32)),
                        None => None,
                    },
                ),
            decreases rest@.len(),
        {
            let c = rest.remove(0);
            let ghost cg = c;
            proof {
                let next = all.subrange(0, k as int + 1);
                assert(next.drop_last() =~= all.subrange(0, k as int));
                assert(next.last() == cg);
                assert(last_null(next) == match cg {
                    Component::Null => true,
                    _ => last_null(all.subrange(0, k as int)),
                });
                assert(last_position(next) == match cg {
                    Component::Position(p) => Some(p),
                    _ => last_position(all.subrange(0, k as int)),
                });
                assert(last_fighter(next) == match cg {
                    Component::Fighter(f) => Some(f),
                    _ => last_fighter(all.subrange(0, k as int)),
                });
            }
            let ghost xn = if last_null(all.subrange(0, k as int + 1)) {
                Some((NullComponent { owner: e }, e.spec_generation() as u32))
            } else {
                None
            };
            let ghost xp = match last_position(all.subrange(0, k as int + 1)) {
                Some(p) => Some((p, e.spec_generation() as u32)),
                None => None,
            };
            let ghost xf = match last_fighter(all.subrange(0, k as int + 1)) {
                Some(f) => Some((f, e.spec_generation() as u32)),
                None => None,
            };
            match c {
                Component::Null => {
                    self.null_components.set(e, NullComponent::new(e));
                },
                Component::Position(p) => {
                    self.position_components.set(e, p);
                },
                Component::Fighter(f) => {
                    self.fighter_components.set(e, f);
                },
            }
            proof {
                assert(self.null_components@ =~= mid.null_components@.update(i, xn));
                assert(self.position_components@ =~= mid.position_components@.update(i, xp));
                assert(self.fighter_components@ =~= mid.fighter_components@.update(i, xf));
            }
            k = k + 1;
            proof {
                assert(rest@ =~= all.subrange(k as int, all.len() as int));
            }
        }
        proof {
            assert(all.subrange(0, k as int) =~= all);
            assert(mid.null_components@[i].is_none());
            assert(mid.position_components@[i].is_none());
            assert(mid.fighter_components@[i].is_none());
        }
        e
    }
}

impl GenerationalIndex {
    /// Stores a null component owned by this entity.
    pub fn add_null<P>(self, state: &mut State<P>) -> (r: Self)
        requires
            self.spec_index() < old(state).null_components@.len(),
        ensures
            r == self,
            final(state).null_components@ == old(state).null_components@.update(
                self.spec_index() as int,
                Some((NullComponent { owner: self }, self.spec_generation() as u32)),
            ),
            final(state).entity_allocator == old(state).entity_allocator,
            final(state).position_components == old(state).position_components,
            final(state).fighter_components == old(state).fighter_components,
            old(state).wf() && old(state).entity_allocator.is_current(self) ==> final(state).wf(),
    {
        state.null_components.set(self, NullComponent::new(self));
        self
    }

    /// Stores a position for this entity.
    pub fn add_position<P>(self, state: &mut State<P>, position: P) -> (r: Self)
        requires
            self.spec_index() < old(state).position_components@.len(),
        ensures
            r == self,
            final(state).position_components@ == old(state).position_components@.update(
                self.spec_index() as int,
                Some((position, self.spec_generation() as u32)),
            ),
            final(state).entity_allocator == old(state).entity_allocator,
            final(state).null_components == old(state).null_components,
            final(state).fighter_components == old(state).fighter_components,
            old(state).wf() && old(state).entity_allocator.is_current(self) ==> final(state).wf(),
    {
        state.position_components.set(self, position);
        self
    }

    /// Stores a fighter component for this entity.
    pub fn add_fighter<P>(self, state: &mut State<P>, f: FighterComponent) -> (r: Self)
        requires
            self.spec_index() < old(state).fighter_components@.len(),
        ensures
            r == self,
            final(state).fighter_components@ == old(state).fighter_components@.update(
                self.spec_index() as int,
                Some((f, self.spec_generation() as u32)),
            ),
            final(state).entity_allocator == old(state).entity_allocator,
            final(state).null_components == old(state).null_components,
            final(state).position_components == old(state).position_components,
            old(state).wf() && old(state).entity_allocator.is_current(self) ==> final(state).wf(),
    {
        state.fighter_components.set(self, f);
        self
    }

    /// Clears this entity's slot in the store of the given kind. Returns
    /// false for kinds that have no store.
    pub fn remove_component<P>(&self, state: &mut State<P>, ct: ComponentType) -> (r: bool)
        ensures
            r == (ct is Position || ct is Null || ct is Fighter),
            final(state).entity_allocator == old(state).entity_allocator,
            final(state).null_components@ == if ct is Null && self.spec_index() < old(state).null_components@.len() {
                old(state).null_components@.update(self.spec_index() as int, None)
            } else {
                old(state).null_components@
            },
            final(state).position_components@ == if ct is Position && self.spec_index() < old(state).position_components@.len() {
                old(state).position_components@.update(self.spec_index() as int, None)
            } else {
                old(state).position_components@
            },
            final(state).fighter_components@ == if ct is Fighter && self.spec_index() < old(state).fighter_components@.len() {
                old(state).fighter_components@.update(self.spec_index() as int, None)
            } else {
                old(state).fighter_components@
            },
            old(state).wf() ==> final(state).wf(),
    {
        match ct {
            ComponentType::Position => {
                state.position_components.unset(*self);
                true
            },
            ComponentType::Null => {
                state.null_components.unset(*self);
                true
            },
            ComponentType::Fighter => {
                state.fighter_components.unset(*self);
                true
            },
            _ => false,
        }
    }

    /// Whether this entity has a component of the given kind; kinds without
    /// a store are never present.
    pub fn has_component<P>(&self, state: &mut State<P>, ct: ComponentType) -> (r: bool)
        ensures
            *final(state) == *old(state),
            r == match ct {
                ComponentType::Position => old(state).position_components.lookup(*self).is_some(),
                ComponentType::Null => old(state).null_components.lookup(*self).is_some(),
                ComponentType::Fighter => old(state).fighter_components.lookup(*self).is_some(),
                _ => false,
            },
    {
        match ct {
            ComponentType::Position => state.position_components.get(*self).is_some(),
            ComponentType::Null => state.null_components.get(*self).is_some(),
            ComponentType::Fighter => state.fighter_components.get(*self).is_some(),
            _ => false,
        }
    }
}

/// A handle whose entity was deleted finds nothing in any store: it stays
/// stale through every later allocation and deletion (see the `ensures` of
/// `new_entity` and `delete_entity`), and no stale handle matches a stored
/// component.
pub proof fn lemma_stale_handle_misses<P>(state: &State<P>, h: Entity)
    requires
        state.wf(),
        state.entity_allocator.is_stale(h),
    ensures
        state.null_components.lookup(h).is_none(),
        state.position_components.lookup(h).is_none(),
        state.fighter_components.lookup(h).is_none(),
{
    if state.null_components.lookup(h).is_some() {
        lemma_found_is_current(&state.null_components, &state.entity_allocator, h);
    }
    if state.position_components.lookup(h).is_some() {
        lemma_found_is_current(&state.position_components, &state.entity_allocator, h);
    }
    if state.fighter_components.lookup(h).is_some() {
        lemma_found_is_current(&state.fighter_components, &state.entity_allocator, h);
    }
}

} // verus!
