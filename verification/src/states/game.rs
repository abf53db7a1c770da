//! The in-game screen's bookkeeping.

pub mod input_recorder;

use vstd::prelude::*;
use hecs::Entity;
use crate::renderer::ui_renderer::{UiRenderer, UiRect, rects_queued, lemma_rects_queued_concat};

verus! {

/// The two bars of the crosshair in the middle of a window `w` by `h` pixels.
pub open spec fn crosshair_rects(w: u16, h: u16) -> Seq<UiRect> {
    seq![
        UiRect { x: (w / 2 - 12) as u16, y: (h / 2 - 1) as u16, w: 24, h: 2, color: 0x999999FF },
        UiRect { x: (w / 2 - 1) as u16, y: (h / 2 - 12) as u16, w: 2, h: 24, color: 0x999999FF },
    ]
}

/// Queues the crosshair of a window `w` by `h` pixels.
pub fn draw_crosshair(ui: &mut UiRenderer, w: u16, h: u16)
    requires
        w >= 24,
        h >= 24,
    ensures
        rects_queued(old(ui).spec_vertices(), final(ui).spec_vertices(), crosshair_rects(w, h)),
        final(ui).spec_text() == old(ui).spec_text(),
        final(ui).spec_num_verts_to_draw() == old(ui).spec_num_verts_to_draw(),
{
    let ghost v0 = ui.spec_vertices();
    ui.draw_rect_xy_wh((w / 2 - 12, h / 2 - 1), (24, 2), 0x999999FF);
    let ghost v1 = ui.spec_vertices();
    ui.draw_rect_xy_wh((w / 2 - 1, h / 2 - 12), (2, 24), 0x999999FF);
    proof {
        let r1 = UiRect { x: (w / 2 - 12) as u16, y: (h / 2 - 1) as u16, w: 24, h: 2, color: 0x999999FF };
        let r2 = UiRect { x: (w / 2 - 1) as u16, y: (h / 2 - 12) as u16, w: 2, h: 24, color: 0x999999FF };
        lemma_rects_queued_concat(v0, v1, ui.spec_vertices(), seq![r1], seq![r2]);
        assert(seq![r1] + seq![r2] =~= crosshair_rects(w, h));
    }
}

/// What to do with a state update that the server sent for a network id.
pub enum EntityAction {
    /// The id is the player's own: the update is not applied.
    Ignore,
    /// The id's entity exists: apply the update to it.
    Update(Entity),
    /// The id has no entity yet: despawn the stale one, if any, spawn a new
    /// one, record it, and apply the update to it.
    Spawn { stale: Option<Entity> },
}

/// The entities that stand for other players, by raw network id: each slot
/// holds the id it was last recorded for (0 for none) and its entity.
pub struct RemoteEntities {
    slots: Vec<(u16, Option<Entity>)>,
}

/// The slots once the table has grown to hold `id`, new slots being empty.
pub open spec fn slots_grown(slots: Seq<(u16, Option<Entity>)>, id: u16) -> Seq<(u16, Option<Entity>)> {
    if id < slots.len() {
        slots
    } else {
        slots + Seq::new((id + 1 - slots.len()) as nat, |i: int| (0u16, None::<Entity>))
    }
}

/// What an update for `id` asks for, `own` being the player's own id.
pub open spec fn planned_action(slots: Seq<(u16, Option<Entity>)>, id: u16, own: u16) -> EntityAction {
    if id == own {
        EntityAction::Ignore
    } else {
        let g = slots_grown(slots, id);
        let (check, entity) = g[id as int];
        if check == id && entity is Some {
            EntityAction::Update(entity->0)
        } else {
            EntityAction::Spawn { stale: entity }
        }
    }
}

impl RemoteEntities {
    /// The slots.
    pub closed spec fn view(&self) -> Seq<(u16, Option<Entity>)> {
        self.slots@
    }

    /// An empty table.
    pub fn new() -> (r: Self)
        ensures
            r.view() == Seq::<(u16, Option<Entity>)>::empty(),
    {
        RemoteEntities { slots: Vec::new() }
    }

    /// Decides what to do with an update for `id`, growing the table with
    /// empty slots so that it holds `id`, unless `id` is the player's own.
    pub fn plan(&mut self, id: u16, own: u16) -> (a: EntityAction)
        ensures
            a == planned_action(old(self).view(), id, own),
            final(self).view() == if id == own {
                old(self).view()
            } else {
                slots_grown(old(self).view(), id)
            },
    {
        if id == own {
            return EntityAction::Ignore;
        }
        let idx = id as usize;
        let ghost start = self.slots@;
        if self.slots.len() <= idx {
            while self.slots.len() < idx + 1
                invariant
                    idx == id as usize,
                    start.len() <= idx,
                    start.len() <= self.slots@.len() <= idx + 1,
                    self.slots@ == start + Seq::new(
                        (self.slots@.len() - start.len()) as nat,
                        |i: int| (0u16, None::<Entity>),
                    ),
                decreases idx + 1 - self.slots@.len(),
            {
                let ghost before = self.slots@;
                self.slots.push((0, None));
                proof {
                    assert(self.slots@ =~= start + Seq::new(
                        (self.slots@.len() - start.len()) as nat,
                        |i: int| (0u16, None::<Entity>),
                    ));
                }
            }
        }
        proof {
            if start.len() <= id {
                assert(self.slots@ =~= slots_grown(start, id));
            }
        }
        let (check, entity) = self.slots[idx];
        if check == id {
            match entity {
                Some(e) => EntityAction::Update(e),
                None => EntityAction::Spawn { stale: None },
            }
        } else {
            EntityAction::Spawn { stale: entity }
        }
    }

    /// Records the entity spawned for `id`.
    pub fn record_spawned(&mut self, id: u16, entity: Entity)
        requires
            (id as int) < old(self).view().len(),
        ensures
            final(self).view() == old(self).view().update(id as int, (id, Some(entity))),
    {
        self.slots.set(id as usize, (id, Some(entity)));
    }
}

/// Once an entity is recorded for an id, an update for that id from another
/// player is applied to that entity.
pub proof fn lemma_recorded_entity_is_updated(
    slots: Seq<(u16, Option<Entity>)>,
    id: u16,
    own: u16,
    entity: Entity,
)
    requires
        (id as int) < slots.len(),
        id != own,
    ensures
        planned_action(slots.update(id as int, (id, Some(entity))), id, own) == EntityAction::Update(entity),
{
}

} // verus!
