//! The entity store: a slot arena with one column set per entity.
//!
//! Each slot carries a generation counter so identifiers stay unique for an
//! entity's lifetime even when the slot index is reused, and per-component
//! dirty bits so downstream systems can process only changed rows.

use vstd::prelude::*;

use crate::components::{
    Children, Delete, EntityId, GlobalTransform, Pose, Position, Rendered, Rotation, Scale,
    Transform, Velocity,
};

verus! {

/// One entity's row: its lifecycle state and its components.
#[derive(Clone, Debug)]
pub struct Slot {
    pub gen: u64,
    pub alive: bool,
    pub position: Option<Position>,
    pub velocity: Option<Velocity>,
    pub rotation: Option<Rotation>,
    pub scale: Option<Scale>,
    /// The local transform; `transform_dirty` records inserts and writes.
    pub transform: Option<Transform>,
    pub transform_dirty: bool,
    /// The resolved transform; `global_dirty` records inserts and writes.
    pub global: Option<GlobalTransform>,
    pub global_dirty: bool,
    pub children: Option<Children>,
    pub delete: bool,
    pub pose: Option<Pose>,
    pub rendered: Option<Rendered>,
}

/// A just-created slot: alive at generation `gen`, with no components.
pub open spec fn spec_fresh_slot(gen: u64) -> Slot {
    Slot {
        gen,
        alive: true,
        position: None,
        velocity: None,
        rotation: None,
        scale: None,
        transform: None,
        transform_dirty: false,
        global: None,
        global_dirty: false,
        children: None,
        delete: false,
        pose: None,
        rendered: None,
    }
}

fn fresh_slot(gen: u64) -> (r: Slot)
    ensures
        r == spec_fresh_slot(gen),
{
    Slot {
        gen,
        alive: true,
        position: None,
        velocity: None,
        rotation: None,
        scale: None,
        transform: None,
        transform_dirty: false,
        global: None,
        global_dirty: false,
        children: None,
        delete: false,
        pose: None,
        rendered: None,
    }
}

/// The entity store.
pub struct World {
    pub slots: Vec<Slot>,
}

/// `post` differs from `pre` in at most slot `i`.
pub open spec fn same_except(pre: World, post: World, i: int) -> bool {
    &&& post.slots@.len() == pre.slots@.len()
    &&& forall|j: int|
        0 <= j < pre.slots@.len() && j != i ==> post.slots@[j] == pre.slots@[j]
}

impl World {
    /// `e` names a live entity: its slot exists, is alive, and is still in
    /// the generation `e` was issued under.
    pub open spec fn valid(self, e: EntityId) -> bool {
        &&& e.index < self.slots@.len()
        &&& self.slots@[e.index as int].alive
        &&& self.slots@[e.index as int].gen == e.gen
    }

    pub open spec fn spec_slot(self, i: int) -> Slot {
        self.slots@[i]
    }

    pub fn new() -> (w: World)
        ensures
            w.slots@.len() == 0,
    {
        World { slots: Vec::new() }
    }

    /// Whether `e` is a live entity of this store.
    pub fn is_valid(&self, e: EntityId) -> (r: bool)
        ensures
            r == self.valid(e),
    {
        e.index < self.slots.len() && self.slots[e.index].alive && self.slots[e.index].gen == e.gen
    }

    /// Creates a new entity with no components, reusing a vacated slot under
    /// a fresh generation when one is available.
    pub fn create_entity(&mut self) -> (e: EntityId)
        ensures
            final(self).valid(e),
            e.index < final(self).slots@.len(),
            final(self).spec_slot(e.index as int) == spec_fresh_slot(e.gen),
            !old(self).valid(e),
            forall|j: int|
                0 <= j < old(self).slots@.len() && j != e.index ==> final(self).slots@[j]
                    == old(self).slots@[j],
            final(self).slots@.len() == if e.index < old(self).slots@.len() {
                old(self).slots@.len()
            } else {
                old(self).slots@.len() + 1
            },
    {
        let n = self.slots.len();
        let mut i: usize = 0;
        while i < n
            invariant
                n == self.slots@.len(),
                i <= n,
                self == old(self),
            decreases n - i,
        {
            if !self.slots[i].alive && self.slots[i].gen < u64::MAX {
                let g = self.slots[i].gen + 1;
                self.slots[i] = fresh_slot(g);
                return EntityId { index: i, gen: g };
            }
            i += 1;
        }
        self.slots.push(fresh_slot(0));
        EntityId { index: n, gen: 0 }
    }

    pub fn get_position(&self, e: EntityId) -> (r: Option<Position>)
        ensures
            r == if self.valid(e) {
                self.spec_slot(e.index as int).position
            } else {
                None::<Position>
            },
    {
        if self.is_valid(e) {
            self.slots[e.index].position
        } else {
            None
        }
    }

    pub fn set_position(&mut self, e: EntityId, p: Position)
        requires
            old(self).valid(e),
        ensures
            same_except(*old(self), *final(self), e.index as int),
            final(self).spec_slot(e.index as int) == (Slot {
                position: Some(p),
                ..old(self).spec_slot(e.index as int)
            }),
    {
        self.slots[e.index].position = Some(p);
    }

    pub fn get_velocity(&self, e: EntityId) -> (r: Option<Velocity>)
        ensures
            r == if self.valid(e) {
                self.spec_slot(e.index as int).velocity
            } else {
                None::<Velocity>
            },
    {
        if self.is_valid(e) {
            self.slots[e.index].velocity
        } else {
            None
        }
    }

    pub fn set_velocity(&mut self, e: EntityId, v: Velocity)
        requires
            old(self).valid(e),
        ensures
            same_except(*old(self), *final(self), e.index as int),
            final(self).spec_slot(e.index as int) == (Slot {
                velocity: Some(v),
                ..old(self).spec_slot(e.index as int)
            }),
    {
        self.slots[e.index].velocity = Some(v);
    }

    pub fn get_rotation(&self, e: EntityId) -> (r: Option<Rotation>)
        ensures
            r == if self.valid(e) {
                self.spec_slot(e.index as int).rotation
            } else {
                None::<Rotation>
            },
    {
        if self.is_valid(e) {
            self.slots[e.index].rotation
        } else {
            None
        }
    }

    pub fn set_rotation(&mut self, e: EntityId, v: Rotation)
        requires
            old(self).valid(e),
        ensures
            same_except(*old(self), *final(self), e.index as int),
            final(self).spec_slot(e.index as int) == (Slot {
                rotation: Some(v),
                ..old(self).spec_slot(e.index as int)
            }),
    {
        self.slots[e.index].rotation = Some(v);
    }

    pub fn get_scale(&self, e: EntityId) -> (r: Option<Scale>)
        ensures
            r == if self.valid(e) {
                self.spec_slot(e.index as int).scale
            } else {
                None::<Scale>
            },
    {
        if self.is_valid(e) {
            self.slots[e.index].scale
        } else {
            None
        }
    }

    pub fn set_scale(&mut self, e: EntityId, v: Scale)
        requires
            old(self).valid(e),
        ensures
            same_except(*old(self), *final(self), e.index as int),
            final(self).spec_slot(e.index as int) == (Slot {
                scale: Some(v),
                ..old(self).spec_slot(e.index as int)
            }),
    {
        self.slots[e.index].scale = Some(v);
    }

    pub fn get_transform(&self, e: EntityId) -> (r: Option<Transform>)
        ensures
            r == if self.valid(e) {
                self.spec_slot(e.index as int).transform
            } else {
                None::<Transform>
            },
    {
        if self.is_valid(e) {
            self.slots[e.index].transform
        } else {
            None
        }
    }

    /// Writes the local transform. The write is tracked: the slot's
    /// transform-dirty bit is set, so the next propagation pass seeds here.
    pub fn set_transform(&mut self, e: EntityId, t: Transform)
        requires
            old(self).valid(e),
        ensures
            same_except(*old(self), *final(self), e.index as int),
            final(self).spec_slot(e.index as int) == (Slot {
                transform: Some(t),
                transform_dirty: true,
                ..old(self).spec_slot(e.index as int)
            }),
    {
        self.slots[e.index].transform = Some(t);
        self.slots[e.index].transform_dirty = true;
    }

    pub fn get_global(&self, e: EntityId) -> (r: Option<GlobalTransform>)
        ensures
            r == if self.valid(e) {
                self.spec_slot(e.index as int).global
            } else {
                None::<GlobalTransform>
            },
    {
        if self.is_valid(e) {
            self.slots[e.index].global
        } else {
            None
        }
    }

    /// Writes the resolved transform. The write is tracked: the slot's
    /// global-dirty bit is set, so the render-sync pass picks it up.
    pub fn set_global(&mut self, e: EntityId, g: GlobalTransform)
        requires
            old(self).valid(e),
        ensures
            same_except(*old(self), *final(self), e.index as int),
            final(self).spec_slot(e.index as int) == (Slot {
                global: Some(g),
                global_dirty: true,
                ..old(self).spec_slot(e.index as int)
            }),
    {
        self.slots[e.index].global = Some(g);
        self.slots[e.index].global_dirty = true;
    }

    pub fn get_children(&self, e: EntityId) -> (r: Option<&Children>)
        ensures
            match r {
                Some(c) => self.valid(e) && self.spec_slot(e.index as int).children == Some(*c),
                None => !self.valid(e) || self.spec_slot(e.index as int).children is None,
            },
    {
        if self.is_valid(e) {
            self.slots[e.index].children.as_ref()
        } else {
            None
        }
    }

    pub fn set_children(&mut self, e: EntityId, c: Children)
        requires
            old(self).valid(e),
        ensures
            same_except(*old(self), *final(self), e.index as int),
            final(self).spec_slot(e.index as int) == (Slot {
                children: Some(c),
                ..old(self).spec_slot(e.index as int)
            }),
    {
        self.slots[e.index].children = Some(c);
    }

    pub fn get_pose(&self, e: EntityId) -> (r: Option<&Pose>)
        ensures
            match r {
                Some(p) => self.valid(e) && self.spec_slot(e.index as int).pose == Some(*p),
                None => !self.valid(e) || self.spec_slot(e.index as int).pose is None,
            },
    {
        if self.is_valid(e) {
            self.slots[e.index].pose.as_ref()
        } else {
            None
        }
    }

    pub fn set_pose(&mut self, e: EntityId, p: Pose)
        requires
            old(self).valid(e),
        ensures
            same_except(*old(self), *final(self), e.index as int),
            final(self).spec_slot(e.index as int) == (Slot {
                pose: Some(p),
                ..old(self).spec_slot(e.index as int)
            }),
    {
        self.slots[e.index].pose = Some(p);
    }

    pub fn get_rendered(&self, e: EntityId) -> (r: Option<Rendered>)
        ensures
            r == if self.valid(e) {
                self.spec_slot(e.index as int).rendered
            } else {
                None::<Rendered>
            },
    {
        if self.is_valid(e) {
            self.slots[e.index].rendered
        } else {
            None
        }
    }

    pub fn set_rendered(&mut self, e: EntityId, r: Rendered)
        requires
            old(self).valid(e),
        ensures
            same_except(*old(self), *final(self), e.index as int),
            final(self).spec_slot(e.index as int) == (Slot {
                rendered: Some(r),
                ..old(self).spec_slot(e.index as int)
            }),
    {
        self.slots[e.index].rendered = Some(r);
    }

    pub fn has_delete(&self, e: EntityId) -> (r: bool)
        ensures
            r == (self.valid(e) && self.spec_slot(e.index as int).delete),
    {
        self.is_valid(e) && self.slots[e.index].delete
    }

    /// Tags `e` for removal; the delete pass will expand the tag to every
    /// reachable descendant and then vacate all tagged slots.
    pub fn tag_delete(&mut self, e: EntityId, _tag: Delete)
        requires
            old(self).valid(e),
        ensures
            same_except(*old(self), *final(self), e.index as int),
            final(self).spec_slot(e.index as int) == (Slot {
                delete: true,
                ..old(self).spec_slot(e.index as int)
            }),
    {
        self.slots[e.index].delete = true;
    }
}

} // verus!
