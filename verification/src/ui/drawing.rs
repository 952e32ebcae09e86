//! The entities on screen, by number.

use vstd::prelude::*;
use std::collections::HashMap;

verus! {

broadcast use vstd::std_specs::hash::group_hash_axioms;

/// The rows of the viewer's grid.
pub const GRID_ROWS: u32 = 5;

/// The columns of the viewer's grid.
pub const GRID_COLS: u32 = 5;

/// The column of the river on screen.
pub const RIVER_COL: u32 = 2;

/// The rows of the bridges on screen.
pub const BRIDGE_ROWS: [u32; 3] = [2, 3, 4];

/// The kinds of entities drawn.
#[derive(Clone, Copy)]
pub enum EntityKind {
    Car,
    Ambulance,
    Boat,
    Truck,
}

/// An entity on screen: what it is and where it is.
#[derive(Clone, Copy)]
pub struct EntityVis {
    pub kind: EntityKind,
    pub pos: (u32, u32),
}

/// The entities on screen, by number.
pub struct SceneState {
    pub entities: HashMap<u32, EntityVis>,
}

impl Default for SceneState {
    fn default() -> (s: Self)
        ensures
            s.entities@ == Map::<u32, EntityVis>::empty(),
    {
        SceneState { entities: HashMap::new() }
    }
}

impl SceneState {
    /// Shows entity `id` as a `kind` at `pos`, in place of what it showed.
    pub fn set_entity(&mut self, id: u32, kind: EntityKind, pos: (u32, u32))
        ensures
            final(self).entities@ == old(self).entities@.insert(id, EntityVis { kind, pos }),
    {
        self.entities.insert(id, EntityVis { kind, pos });
    }

    /// Moves entity `id` to `to`; an entity not on screen stays absent.
    pub fn move_entity(&mut self, id: u32, to: (u32, u32))
        ensures
            old(self).entities@.contains_key(id) ==> final(self).entities@ == old(self).entities@.insert(
                id,
                EntityVis { pos: to, ..old(self).entities@[id] },
            ),
            !old(self).entities@.contains_key(id) ==> final(self).entities@ == old(self).entities@,
    {
        let current = match self.entities.get(&id) {
            Some(e) => Some(*e),
            None => None,
        };
        if let Some(e) = current {
            self.entities.insert(id, EntityVis { kind: e.kind, pos: to });
        }
    }

    /// Takes entity `id` off the screen.
    pub fn remove_entity(&mut self, id: u32)
        ensures
            final(self).entities@ == old(self).entities@.remove(id),
    {
        self.entities.remove(&id);
    }
}

/// Law: an entity that is set and then moved is shown as its kind at the
/// place it was moved to; one that is removed is gone.
pub proof fn law_scene_set_move_remove(m: Map<u32, EntityVis>, id: u32, kind: EntityKind, pos: (u32, u32), to: (u32, u32))
    ensures
        ({
            let set = m.insert(id, EntityVis { kind, pos });
            let moved = set.insert(id, EntityVis { pos: to, ..set[id] });
            &&& set.contains_key(id)
            &&& moved[id] == EntityVis { kind, pos: to }
            &&& !moved.remove(id).contains_key(id)
        }),
{
}

} // verus!
