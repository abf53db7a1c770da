use vstd::prelude::*;
use hecs::Entity;
use bevy_utils::HashSet;
use crate::server::components::{NetworkId, lemma_network_id_eq};

verus! {

/// The ECS entity handle of hecs, carried through as an opaque value.
#[verifier::external_type_specification]
#[verifier::external_body]
pub struct ExEntity(Entity);

/// `hecs::Entity::DANGLING`: an entity that does not necessarily correspond to
/// data in any world. Nothing is stated of it: entities are opaque here.
#[verifier::external_body]
fn dangling_entity() -> Entity {
    Entity::DANGLING
}

/// Writes `t` at `idx`, or appends it when `idx` is one past the end.
pub fn place_at<T>(vec: &mut Vec<T>, idx: usize, t: T)
    requires
        idx <= old(vec)@.len(),
    ensures
        idx == old(vec)@.len() ==> final(vec)@ == old(vec)@.push(t),
        idx < old(vec)@.len() ==> final(vec)@ == old(vec)@.update(idx as int, t),
{
    if idx >= vec.len() {
        vec.push(t);
    } else {
        vec.set(idx, t);
    }
}

/// Why a mapping could not be added or removed.
#[derive(Clone, Copy, PartialEq, Eq, Structural, Debug)]
pub enum MappingError {
    /// The id is already mapped to an entity.
    AlreadyMapped,
    /// The id's slot holds another id.
    NotMapped,
}

/// Maps network ids to entities, in a vector indexed by the raw id.
pub struct NidEntityMapping {
    mapping: Vec<(NetworkId, Entity)>,
}

impl NidEntityMapping {
    /// The slots: the id stored in each slot (0 when free) and its entity.
    pub closed spec fn view(&self) -> Seq<(NetworkId, Entity)> {
        self.mapping@
    }

    /// The id stored in a slot.
    pub open spec fn slot_id(&self, i: int) -> u16 {
        self.view()[i].0@
    }

    /// Every slot is free (id 0) or holds the id it stands at.
    pub open spec fn wf(&self) -> bool {
        forall|i: int| 0 <= i < self.view().len() ==> #[trigger] self.slot_id(i) == 0 || self.slot_id(i) == i
    }

    /// Whether an id is mapped to an entity: its slot holds it, and it is not
    /// the invalid id 0.
    pub open spec fn is_mapped(&self, id: u16) -> bool {
        &&& id != 0
        &&& (id as int) < self.view().len()
        &&& self.slot_id(id as int) == id
    }

    pub fn with_capacity(capacity: usize) -> (r: Self)
        ensures
            r.view().len() == 0,
            r.wf(),
    {
        Self { mapping: Vec::with_capacity(capacity) }
    }

    /// Maps an id to an entity, growing the table with free slots as needed.
    /// Fails when the id's slot already holds a valid id.
    pub fn add_mapping(&mut self, id: NetworkId, entity: Entity) -> (r: Result<(), MappingError>)
        requires
            old(self).wf(),
            id@ < usize::MAX,
        ensures
            final(self).wf(),
            r is Err <==> old(self).is_mapped(id@),
            final(self).view().len() == if old(self).view().len() <= id@ {
                id@ + 1
            } else {
                old(self).view().len() as int
            },
            forall|i: int|
                0 <= i < old(self).view().len() && i != id@ ==> #[trigger] final(self).view()[i] == old(self).view()[i],
            forall|i: int|
                old(self).view().len() <= i < final(self).view().len() && i != id@ ==> #[trigger] final(self).slot_id(i) == 0,
            (id@ < old(self).view().len() && old(self).slot_id(id@ as int) != 0) <==> r is Err,
            r is Err ==> r == Err::<(), MappingError>(MappingError::AlreadyMapped) && final(self).view()
                == old(self).view(),
            r is Ok ==> final(self).view()[id@ as int] == (id, entity),
    {
        let idx = id.raw() as usize;
        if self.mapping.len() <= idx {
            let dangling = dangling_entity();
            let invalid = NetworkId::invalid();
            while self.mapping.len() < idx + 1
                invariant
                    idx < usize::MAX,
                    old(self).mapping@.len() <= idx,
                    self.mapping@.len() <= idx + 1,
                    self.mapping@.len() >= old(self).mapping@.len(),
                    forall|i: int| 0 <= i < old(self).mapping@.len() ==> #[trigger] self.mapping@[i] == old(self).mapping@[i],
                    forall|i: int|
                        old(self).mapping@.len() <= i < self.mapping@.len() ==> #[trigger] self.mapping@[i]
                            == (invalid, dangling),
                    invalid@ == 0,
                decreases idx + 1 - self.mapping@.len(),
            {
                self.mapping.push((invalid, dangling));
            }
        }
        proof {
            assert forall|i: int| 0 <= i < self.view().len() implies #[trigger] self.slot_id(i) == 0
                || self.slot_id(i) == i by {
                if i < old(self).view().len() {
                    assert(self.mapping@[i] == old(self).mapping@[i]);
                    assert(old(self).slot_id(i) == 0 || old(self).slot_id(i) == i);
                } else {
                    assert(self.mapping@[i].0@ == 0);
                }
            }
            assert forall|i: int| 0 <= i < self.mapping@.len() implies #[trigger] self.mapping@[i].0@ == 0
                || self.mapping@[i].0@ == i by {
                assert(self.slot_id(i) == self.mapping@[i].0@);
            }
            if idx >= old(self).mapping@.len() {
                assert(self.mapping@[idx as int].0@ == 0);
            } else {
                assert(self.mapping@[idx as int] == old(self).mapping@[idx as int]);
            }
        }
        let cur = self.mapping[idx].0;
        if cur.raw() != 0 {
            proof {
                assert(idx < old(self).mapping@.len());
                assert(old(self).slot_id(idx as int) == cur@);
                assert(cur@ == idx);
            }
            return Err(MappingError::AlreadyMapped);
        }
        let ghost before = self.mapping@;
        self.mapping.set(idx, (id, entity));
        proof {
            assert forall|i: int| 0 <= i < self.view().len() implies #[trigger] self.slot_id(i) == 0
                || self.slot_id(i) == i by {
                if i != idx {
                    assert(self.mapping@[i] == before[i]);
                    assert(before[i].0@ == 0 || before[i].0@ == i);
                }
            }
        }
        Ok(())
    }

    /// Frees an id's slot and gives back its entity. Fails when the slot holds
    /// another id.
    pub fn remove_mapping(&mut self, id: NetworkId) -> (r: Result<Entity, MappingError>)
        requires
            old(self).wf(),
            id@ < old(self).view().len(),
        ensures
            final(self).wf(),
            (old(self).view()[id@ as int].0 != id) <==> r is Err,
            r is Err ==> r == Err::<Entity, MappingError>(MappingError::NotMapped) && final(self).view()
                == old(self).view(),
            r is Ok ==> {
                &&& r == Ok::<Entity, MappingError>(old(self).view()[id@ as int].1)
                &&& final(self).view().len() == old(self).view().len()
                &&& final(self).slot_id(id@ as int) == 0
                &&& forall|i: int|
                    0 <= i < old(self).view().len() && i != id@ ==> #[trigger] final(self).view()[i] == old(self).view()[i]
            },
    {
        let idx = id.raw() as usize;
        let (cur, entity) = self.mapping[idx];
        proof {
            lemma_network_id_eq(cur, id);
        }
        if cur.raw() != id.raw() {
            return Err(MappingError::NotMapped);
        }
        let ghost before = self.mapping@;
        self.mapping.set(idx, (NetworkId::invalid(), dangling_entity()));
        proof {
            assert forall|i: int| 0 <= i < self.view().len() implies #[trigger] self.slot_id(i) == 0
                || self.slot_id(i) == i by {
                if i != idx {
                    assert(self.mapping@[i] == before[i]);
                    assert(old(self).slot_id(i) == 0 || old(self).slot_id(i) == i);
                }
            }
        }
        Ok(entity)
    }

    /// The entity mapped to an id, if its slot holds that id.
    pub fn get(&self, id: NetworkId) -> (r: Option<Entity>)
        requires
            id@ < self.view().len(),
        ensures
            r == if self.view()[id@ as int].0 == id {
                Some(self.view()[id@ as int].1)
            } else {
                None::<Entity>
            },
    {
        let (mapped_id, entity) = self.mapping[id.raw() as usize];
        proof {
            lemma_network_id_eq(mapped_id, id);
        }
        if mapped_id.raw() != id.raw() {
            None
        } else {
            Some(entity)
        }
    }
}

/// Hands out small non-zero ids, reusing freed ones smallest first.
pub struct IdAllocator {
    /// Freed ids, available for reuse.
    recycled_ids: Vec<u16>,
    /// Grows monotonically, so it is always unused. Id 0 is never assigned.
    next_unused_id: u16,
    /// The ids that are currently handed out.
    allocated_ids: Ghost<Set<u16>>,
}

/// The smallest element of a non-empty set of ids.
pub open spec fn min_id(s: Set<u16>) -> u16
    recommends
        s.len() > 0,
{
    choose|m: u16| s.contains(m) && forall|x: u16| s.contains(x) ==> m <= x
}

impl IdAllocator {
    /// The freed ids.
    pub closed spec fn spec_recycled(&self) -> Set<u16> {
        self.recycled_ids@.to_set()
    }

    /// The ids currently handed out.
    pub closed spec fn spec_allocated(&self) -> Set<u16> {
        self.allocated_ids@
    }

    /// The next id never handed out before.
    pub closed spec fn spec_next_unused(&self) -> u16 {
        self.next_unused_id
    }

    /// Freed and handed-out ids are disjoint, non-zero and below the next unused id;
    /// no freed id is listed twice.
    pub closed spec fn wf(&self) -> bool {
        &&& self.next_unused_id >= 1
        &&& self.recycled_ids@.no_duplicates()
        &&& forall|i: int|
            0 <= i < self.recycled_ids@.len() ==> 1 <= #[trigger] self.recycled_ids@[i]
                < self.next_unused_id && !self.allocated_ids@.contains(self.recycled_ids@[i])
        &&& forall|x: u16| #[trigger] self.allocated_ids@.contains(x) ==> 1 <= x < self.next_unused_id
        &&& self.allocated_ids@.finite()
    }

    /// An allocator that has handed out nothing; its first id is 1.
    pub fn with_capacity(capacity: usize) -> (r: Self)
        ensures
            r.wf(),
            r.spec_recycled() == Set::<u16>::empty(),
            r.spec_allocated() == Set::<u16>::empty(),
            r.spec_next_unused() == 1,
    {
        let r = Self {
            recycled_ids: Vec::with_capacity(capacity),
            next_unused_id: 1,
            allocated_ids: Ghost(Set::empty()),
        };
        assert(r.recycled_ids@.to_set() =~= Set::<u16>::empty());
        r
    }

    /// Hands out the smallest freed id, or else the next never-used one.
    pub fn allocate(&mut self) -> (r: u16)
        requires
            old(self).wf(),
            old(self).spec_recycled().len() > 0 || old(self).spec_next_unused() < u16::MAX,
        ensures
            final(self).wf(),
            r != 0,
            !old(self).spec_allocated().contains(r),
            final(self).spec_allocated() == old(self).spec_allocated().insert(r),
            old(self).spec_recycled().len() > 0 ==> {
                &&& r == min_id(old(self).spec_recycled())
                &&& final(self).spec_recycled() == old(self).spec_recycled().remove(r)
                &&& final(self).spec_next_unused() == old(self).spec_next_unused()
            },
            old(self).spec_recycled().len() == 0 ==> {
                &&& r == old(self).spec_next_unused()
                &&& final(self).spec_recycled() == old(self).spec_recycled()
                &&& final(self).spec_next_unused() == old(self).spec_next_unused() + 1
            },
    {
        proof {
            self.recycled_ids@.unique_seq_to_set();
        }
        if self.recycled_ids.len() > 0 {
            let mut best: usize = 0;
            let mut i: usize = 1;
            while i < self.recycled_ids.len()
                invariant
                    0 <= best < self.recycled_ids@.len(),
                    1 <= i <= self.recycled_ids@.len(),
                    forall|j: int| 0 <= j < i ==> self.recycled_ids@[best as int] <= #[trigger] self.recycled_ids@[j],
                decreases self.recycled_ids@.len() - i,
            {
                if self.recycled_ids[i] < self.recycled_ids[best] {
                    best = i;
                }
                i += 1;
            }
            let ghost old_seq = self.recycled_ids@;
            let id = self.recycled_ids.swap_remove(best);
            proof {
                let s = old_seq.to_set();
                assert(s.contains(id));
                assert forall|x: u16| s.contains(x) implies id <= x by {
                    let k = choose|k: int| 0 <= k < old_seq.len() && old_seq[k] == x;
                    assert(old_seq[k] == x);
                }
                assert(min_id(s) == id) by {
                    let m = min_id(s);
                    assert(s.contains(m) && forall|x: u16| s.contains(x) ==> m <= x);
                    assert(m <= id && id <= m);
                }
                assert(self.recycled_ids@.to_set() =~= s.remove(id)) by {
                    assert forall|x: u16| #[trigger] self.recycled_ids@.to_set().contains(x) <==> s.remove(
                        x,
                    ).contains(x) || (s.contains(x) && x != id) by {
                        if self.recycled_ids@.to_set().contains(x) {
                            let k = choose|k: int| 0 <= k < self.recycled_ids@.len() && self.recycled_ids@[k] == x;
                            assert(self.recycled_ids@[k] == x);
                        }
                        if s.contains(x) && x != id {
                            let k = choose|k: int| 0 <= k < old_seq.len() && old_seq[k] == x;
                            if k == self.recycled_ids@.len() {
                                assert(self.recycled_ids@[best as int] == x);
                            } else {
                                assert(self.recycled_ids@[k] == x);
                            }
                        }
                    }
                }
                self.allocated_ids@ = self.allocated_ids@.insert(id);
            }
            id
        } else {
            self.next_unused_id += 1;
            let id = self.next_unused_id - 1;
            proof {
                self.allocated_ids@ = self.allocated_ids@.insert(id);
            }
            id
        }
    }

    /// Returns an id for reuse.
    pub fn free(&mut self, id: u16)
        requires
            old(self).wf(),
            old(self).spec_allocated().contains(id),
            id < 0x8000,
        ensures
            final(self).wf(),
            final(self).spec_allocated() == old(self).spec_allocated().remove(id),
            final(self).spec_recycled() == old(self).spec_recycled().insert(id),
            final(self).spec_next_unused() == old(self).spec_next_unused(),
    {
        let ghost old_seq = self.recycled_ids@;
        self.recycled_ids.push(id);
        proof {
            assert(!old_seq.contains(id));
            assert(self.recycled_ids@.no_duplicates()) by {
                assert forall|a: int, b: int|
                    0 <= a < self.recycled_ids@.len() && 0 <= b < self.recycled_ids@.len() && a != b
                        implies self.recycled_ids@[a] != self.recycled_ids@[b] by {
                    if a == old_seq.len() as int {
                        assert(self.recycled_ids@[b] == old_seq[b]);
                    } else if b == old_seq.len() as int {
                        assert(self.recycled_ids@[a] == old_seq[a]);
                    }
                }
            }
            assert(self.recycled_ids@.to_set() =~= old_seq.to_set().insert(id)) by {
                assert forall|x: u16| #[trigger] self.recycled_ids@.to_set().contains(x) <==> old_seq.to_set().insert(
                    id,
                ).contains(x) by {
                    if self.recycled_ids@.to_set().contains(x) {
                        let k = choose|k: int| 0 <= k < self.recycled_ids@.len() && self.recycled_ids@[k] == x;
                        if k < old_seq.len() {
                            assert(old_seq[k] == x);
                        }
                    }
                    if old_seq.to_set().contains(x) {
                        let k = choose|k: int| 0 <= k < old_seq.len() && old_seq[k] == x;
                        assert(self.recycled_ids@[k] == x);
                    }
                    if x == id {
                        assert(self.recycled_ids@[old_seq.len() as int] == id);
                    }
                }
            }
            self.allocated_ids@ = self.allocated_ids@.remove(id);
        }
    }
}

/// An id freed while no other id is free becomes the smallest free id, the one
/// that the next `allocate` hands out.
pub proof fn lemma_free_then_allocate_reuses(a: IdAllocator, id: u16)
    requires
        a.wf(),
        a.spec_recycled().len() == 0,
        a.spec_allocated().contains(id),
    ensures
        min_id(a.spec_recycled().insert(id)) == id,
{
    let s = a.spec_recycled().insert(id);
    assert(s =~= set![id]);
    assert(s.contains(id) && forall|x: u16| s.contains(x) ==> id <= x);
    let m = min_id(s);
    assert(s.contains(m));
}


/// The entities a player is told about, each by its bits (`Entity::to_bits`),
/// held in a `HashSet` of bevy_utils.
#[verifier::external_body]
pub struct EntitySet {
    set: HashSet<u64>,
}

/// The entities, by their bits, in an [`EntitySet`].
pub uninterp spec fn entity_set_contents(s: EntitySet) -> Set<u64>;

/// `HashSet::new`: an empty set.
#[verifier::external_body]
fn entity_set_new() -> (r: EntitySet)
    ensures
        entity_set_contents(r) == Set::<u64>::empty(),
{
    EntitySet { set: HashSet::new() }
}

/// `HashSet::insert`: adds the value; true when it was not there before.
#[verifier::external_body]
fn entity_set_insert(s: &mut EntitySet, e: u64) -> (r: bool)
    ensures
        entity_set_contents(*final(s)) == entity_set_contents(*old(s)).insert(e),
        r == !entity_set_contents(*old(s)).contains(e),
{
    s.set.insert(e)
}

/// `HashSet::remove`: takes the value out; true when it was there.
#[verifier::external_body]
fn entity_set_remove(s: &mut EntitySet, e: u64) -> (r: bool)
    ensures
        entity_set_contents(*final(s)) == entity_set_contents(*old(s)).remove(e),
        r == entity_set_contents(*old(s)).contains(e),
{
    s.set.remove(&e)
}

/// `HashSet::contains`: whether the value is in the set.
#[verifier::external_body]
fn entity_set_contains(s: &EntitySet, e: u64) -> (r: bool)
    ensures
        r == entity_set_contents(*s).contains(e),
{
    s.set.contains(&e)
}

/// What a player is told about an entity this tick.
#[derive(Clone, Copy, PartialEq, Eq, Structural, Debug)]
pub enum EntityChange {
    /// The entity came into view: its full state is sent.
    Added,
    /// The entity went out of view.
    Removed,
    /// The entity stays in view: its movement is sent.
    Moved,
}

/// One step of tracking an entity for a player: whether it is reported and how,
/// and the seen set afterwards. `near` says the entity is within the
/// distance at which it comes into view, `far` that it is beyond the distance
/// at which it goes out of view.
pub open spec fn track_step(seen: Set<u64>, e: u64, near: bool, far: bool) -> (Option<EntityChange>, Set<u64>) {
    if near && !seen.contains(e) {
        (Some(EntityChange::Added), seen.insert(e))
    } else if far && seen.contains(e) {
        (Some(EntityChange::Removed), seen.remove(e))
    } else if seen.contains(e) {
        (Some(EntityChange::Moved), seen)
    } else {
        (None, seen)
    }
}

/// What the server keeps for each connected player to decide what it is told:
/// its own entity, the entities it knows of, and the input it last sent.
pub struct EntityTracker {
    player_entity: Entity,
    entities: EntitySet,
    last_player_input_tag: Option<u16>,
    packets_lost: u8,
}

impl EntityTracker {
    /// The player's own entity.
    pub closed spec fn player(&self) -> Entity {
        self.player_entity
    }

    /// The player's own entity.
    pub fn player_entity(&self) -> (r: Entity)
        ensures
            r == self.player(),
    {
        self.player_entity
    }

    /// The entities the player knows of, by their bits.
    pub closed spec fn seen(&self) -> Set<u64> {
        entity_set_contents(self.entities)
    }

    /// The tag of the latest input received from the player since the last report.
    pub closed spec fn input_tag(&self) -> Option<u16> {
        self.last_player_input_tag
    }

    /// The count of lost input packets since the last report, modulo 256.
    pub closed spec fn lost(&self) -> u8 {
        self.packets_lost
    }

    /// A tracker for a player who knows of no entity yet.
    pub fn new(player_entity: Entity) -> (r: Self)
        ensures
            r.player() == player_entity,
            r.seen() == Set::<u64>::empty(),
            r.input_tag() == None::<u16>,
            r.lost() == 0,
    {
        EntityTracker { player_entity, entities: entity_set_new(), last_player_input_tag: None, packets_lost: 0 }
    }

    /// Notes an input received from the player, with the number of packets
    /// found missing before it; the count is kept modulo 256.
    pub fn record_input(&mut self, tag: u16, packet_loss: u32)
        ensures
            final(self).input_tag() == Some(tag),
            final(self).lost() == (old(self).lost() + (packet_loss % 256)) % 256,
            final(self).seen() == old(self).seen(),
            final(self).player() == old(self).player(),
    {
        self.last_player_input_tag = Some(tag);
        let loss = (packet_loss % 256) as u8;
        self.packets_lost = self.packets_lost.wrapping_add(loss);
    }

    /// Decides what the player is told of an entity this tick, and updates
    /// the set of entities it knows of.
    pub fn track(&mut self, e: u64, near: bool, far: bool) -> (r: Option<EntityChange>)
        ensures
            (r, final(self).seen()) == track_step(old(self).seen(), e, near, far),
            final(self).input_tag() == old(self).input_tag(),
            final(self).lost() == old(self).lost(),
            final(self).player() == old(self).player(),
    {
        if near && entity_set_insert(&mut self.entities, e) {
            Some(EntityChange::Added)
        } else if far && entity_set_remove(&mut self.entities, e) {
            Some(EntityChange::Removed)
        } else if entity_set_contains(&self.entities, e) {
            Some(EntityChange::Moved)
        } else {
            None
        }
    }

    /// Takes the input tag and the lost-packet count for this tick's report,
    /// and starts counting afresh.
    pub fn take_report(&mut self) -> (r: (Option<u16>, u8))
        ensures
            r == (old(self).input_tag(), old(self).lost()),
            final(self).input_tag() == None::<u16>,
            final(self).lost() == 0,
            final(self).seen() == old(self).seen(),
            final(self).player() == old(self).player(),
    {
        let r = (self.last_player_input_tag, self.packets_lost);
        self.last_player_input_tag = None;
        self.packets_lost = 0;
        r
    }
}

/// A player is told that an entity came into view once: while it stays
/// seen, later ticks report it as moved or removed, never added again.
pub proof fn lemma_added_once(seen: Set<u64>, e: u64, near1: bool, far1: bool, near2: bool, far2: bool)
    requires
        track_step(seen, e, near1, far1).0 == Some(EntityChange::Added),
    ensures
        track_step(track_step(seen, e, near1, far1).1, e, near2, far2).0 != Some(EntityChange::Added),
        track_step(track_step(seen, e, near1, far1).1, e, near2, far2).0 is Some,
{
}

/// A player is told that an entity went out of view only if it was told the
/// entity was in view, and afterwards hears nothing of it until it is added
/// again.
pub proof fn lemma_removed_only_when_tracked(seen: Set<u64>, e: u64, near: bool, far: bool)
    ensures
        track_step(seen, e, near, far).0 == Some(EntityChange::Removed) ==> {
            &&& seen.contains(e)
            &&& !track_step(seen, e, near, far).1.contains(e)
            &&& track_step(track_step(seen, e, near, far).1, e, false, far).0 is None
        },
{
}

/// Only the entity asked about can enter or leave the seen set.
pub proof fn lemma_track_step_touches_one(seen: Set<u64>, e: u64, near: bool, far: bool, other: u64)
    requires
        other != e,
    ensures
        track_step(seen, e, near, far).1.contains(other) == seen.contains(other),
{
}

/// Packet losses accumulate modulo 256 until a report is taken.
pub proof fn lemma_losses_accumulate(lost: u8, a: u32, b: u32)
    ensures
        ((lost + (a % 256)) % 256 + (b % 256)) % 256 == (lost + a + b) % 256,
{
    assert(((lost + (a % 256)) % 256 + (b % 256)) % 256 == (lost + a + b) % 256) by (nonlinear_arith);
}

} // verus!
