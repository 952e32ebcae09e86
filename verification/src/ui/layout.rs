//! How the viewer plays the queued events on its scene.

use vstd::prelude::*;
use crate::ui::drawing::{EntityKind as DrawKind, EntityVis, SceneState};
use crate::ui::event_queue::{EntityKind, UiEvent};

verus! {

/// What the viewer has to do after an event.
#[derive(Debug, Clone, Copy, PartialEq, Eq, Structural)]
pub enum UiEffect {
    /// The map changed and is drawn again.
    Redraw,
    /// The simulation is over: the closing message is shown.
    ShowEnd,
    /// Nothing visible changes.
    Nothing,
}

/// The kind an entity is drawn as.
pub open spec fn drawn_as(k: EntityKind) -> DrawKind {
    match k {
        EntityKind::Car => DrawKind::Car,
        EntityKind::Ambulance => DrawKind::Ambulance,
        EntityKind::Boat => DrawKind::Boat,
        EntityKind::Truck => DrawKind::Truck,
    }
}

/// Plays one event on the scene: an agent appears, moves or leaves and the
/// map is drawn again; the end of the simulation shows the closing message;
/// text and plant events change nothing on the map.
pub fn apply_event(scene: &mut SceneState, ev: UiEvent) -> (e: UiEffect)
    ensures
        match ev {
            UiEvent::Spawn { id, kind, pos } => e == UiEffect::Redraw && final(scene).entities@
                == old(scene).entities@.insert(id, EntityVis { kind: drawn_as(kind), pos }),
            UiEvent::Move { id, to } => e == UiEffect::Redraw && (old(scene).entities@.contains_key(id)
                ==> final(scene).entities@ == old(scene).entities@.insert(
                id,
                EntityVis { pos: to, ..old(scene).entities@[id] },
            )) && (!old(scene).entities@.contains_key(id) ==> final(scene).entities@ == old(scene).entities@),
            UiEvent::Remove { id } => e == UiEffect::Redraw && final(scene).entities@ == old(scene).entities@.remove(id),
            UiEvent::SimulationFinished => e == UiEffect::ShowEnd && final(scene).entities@ == old(scene).entities@,
            _ => e == UiEffect::Nothing && final(scene).entities@ == old(scene).entities@,
        },
{
    match ev {
        UiEvent::Spawn { id, kind, pos } => {
            let kind_vis = match kind {
                EntityKind::Car => DrawKind::Car,
                EntityKind::Ambulance => DrawKind::Ambulance,
                EntityKind::Boat => DrawKind::Boat,
                EntityKind::Truck => DrawKind::Truck,
            };
            scene.set_entity(id, kind_vis, pos);
            UiEffect::Redraw
        },
        UiEvent::Move { id, to } => {
            scene.move_entity(id, to);
            UiEffect::Redraw
        },
        UiEvent::Remove { id } => {
            scene.remove_entity(id);
            UiEffect::Redraw
        },
        UiEvent::SimulationFinished => UiEffect::ShowEnd,
        _ => UiEffect::Nothing,
    }
}

} // verus!
