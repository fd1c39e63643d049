use vstd::prelude::*;
use crate::components::{ComponentKind, Entity, Key};

verus! {

/// Whether the current level has been won.
#[derive(Clone, Copy, Debug, PartialEq, Eq, Structural)]
pub struct GameState {
    pub won: bool,
}

/// A kind was registered twice.
#[derive(Clone, Copy, Debug, PartialEq, Eq, Structural)]
pub enum RegistryError {
    AlreadyRegistered(ComponentKind),
}

/// The entity registry and the per-frame resources.
///
/// Entities are indices into `entities`; each holds at most one component of every kind.
/// `width` and `height` bound the grid that the loaded level occupies.
pub struct World {
    pub entities: Vec<Entity>,
    pub registered: Vec<ComponentKind>,
    pub input_queue: Vec<Key>,
    pub game_state: GameState,
    pub width: usize,
    pub height: usize,
}

/// An entity with no component at all.
pub open spec fn blank() -> Entity {
    Entity {
        position: None,
        renderable: None,
        wall: false,
        player: false,
        box_color: None,
        spot_color: None,
        movable: false,
        blocking: false,
        directional: None,
    }
}

/// No kind is registered twice.
pub open spec fn kinds_unique(ks: Seq<ComponentKind>) -> bool {
    forall|i: int, j: int| 0 <= i < j < ks.len() ==> ks[i] != ks[j]
}

impl World {
    pub open spec fn wf(&self) -> bool {
        kinds_unique(self.registered@)
    }

    /// An empty world: no entities, no registered kinds, nothing queued, not won.
    pub fn new() -> (r: World)
        ensures
            r.wf(),
            r.entities@ == Seq::<Entity>::empty(),
            r.registered@ == Seq::<ComponentKind>::empty(),
            r.input_queue@ == Seq::<Key>::empty(),
            r.game_state == (GameState { won: false }),
            r.width == 0,
            r.height == 0,
    {
        World {
            entities: Vec::new(),
            registered: Vec::new(),
            input_queue: Vec::new(),
            game_state: GameState { won: false },
            width: 0,
            height: 0,
        }
    }

    pub fn is_registered(&self, kind: ComponentKind) -> (r: bool)
        ensures
            r == self.registered@.contains(kind),
    {
        let mut i: usize = 0;
        while i < self.registered.len()
            invariant
                i <= self.registered.len(),
                forall|j: int| 0 <= j < i ==> self.registered@[j] != kind,
            decreases self.registered.len() - i,
        {
            if self.registered[i] == kind {
                return true;
            }
            i = i + 1;
        }
        false
    }

    /// Declares the storage for `kind`; a second declaration of one kind is refused.
    pub fn register(&mut self, kind: ComponentKind) -> (r: Result<(), RegistryError>)
        requires
            old(self).wf(),
        ensures
            final(self).wf(),
            old(self).registered@.contains(kind) ==> r == Err::<(), RegistryError>(
                RegistryError::AlreadyRegistered(kind),
            ) && final(self).registered@ == old(self).registered@,
            !old(self).registered@.contains(kind) ==> r is Ok && final(self).registered@ == old(
                self,
            ).registered@.push(kind),
            final(self).entities@ == old(self).entities@,
            final(self).input_queue@ == old(self).input_queue@,
            final(self).game_state == old(self).game_state,
            final(self).width == old(self).width,
            final(self).height == old(self).height,
    {
        if self.is_registered(kind) {
            return Err(RegistryError::AlreadyRegistered(kind));
        }
        self.registered.push(kind);
        Ok(())
    }

    /// Adds an entity with the given components and returns its id.
    pub fn create_entity(&mut self, e: Entity) -> (id: usize)
        ensures
            id == old(self).entities.len(),
            final(self).entities@ == old(self).entities@.push(e),
            final(self).registered@ == old(self).registered@,
            final(self).input_queue@ == old(self).input_queue@,
            final(self).game_state == old(self).game_state,
            final(self).width == old(self).width,
            final(self).height == old(self).height,
    {
        let id = self.entities.len();
        self.entities.push(e);
        id
    }

    /// Strips every component from entity `id`.
    pub fn remove_entity(&mut self, id: usize)
        requires
            id < old(self).entities.len(),
        ensures
            final(self).entities@ == old(self).entities@.update(id as int, blank()),
            final(self).registered@ == old(self).registered@,
            final(self).input_queue@ == old(self).input_queue@,
            final(self).game_state == old(self).game_state,
            final(self).width == old(self).width,
            final(self).height == old(self).height,
    {
        self.entities.set(
            id,
            Entity {
                position: None,
                renderable: None,
                wall: false,
                player: false,
                box_color: None,
                spot_color: None,
                movable: false,
                blocking: false,
                directional: None,
            },
        );
    }

    /// Removes every entity.
    pub fn clear_entities(&mut self)
        ensures
            final(self).entities@ == Seq::<Entity>::empty(),
            final(self).registered@ == old(self).registered@,
            final(self).input_queue@ == old(self).input_queue@,
            final(self).game_state == old(self).game_state,
            final(self).width == old(self).width,
            final(self).height == old(self).height,
    {
        self.entities.clear();
    }

    /// The entity with id `id`, if there is one.
    pub fn entity(&self, id: usize) -> (r: Option<Entity>)
        ensures
            id < self.entities.len() ==> r == Some(self.entities@[id as int]),
            id >= self.entities.len() ==> r is None,
    {
        if id < self.entities.len() {
            Some(self.entities[id])
        } else {
            None
        }
    }
}

} // verus!
