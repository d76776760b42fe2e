//! The engine core: the entity store, the external-identifier map fed by the
//! wire protocol, and the fixed-timestep accumulator, with the per-frame
//! steps the host loop drives: ingest events, advance time, run the
//! post-update pipeline.

use std::collections::HashMap;

use vstd::prelude::*;

use crate::codec::{decode_events, models_of, spec_decode, Event, EventModel, ProtocolError};
use crate::components::{Children, Delete, EntityId, Pose};
use crate::store::{spec_fresh_slot, Slot, World};
use crate::systems::{
    collect_render_syncs, delete_execution_rel, delete_propagation_rel, execute_deletes,
    propagate_deletes, propagate_transforms, propagation_rel, render_sync_rel, velocity_rel,
    velocity_tick, RenderSync,
};
use crate::timestep::Accumulator;

verus! {

broadcast use vstd::std_specs::hash::group_hash_axioms;

/// The slot holds a pose whose values are exactly `kps`.
pub open spec fn pose_matches(s: Slot, kps: Seq<i16>) -> bool {
    match s.pose {
        Some(p) => p.0@ == kps,
        None => false,
    }
}

/// `w1` is `w0` plus one just-created entity `e` holding the decoded pose
/// and an empty child list, as the decoder makes on first sighting of an
/// external identifier.
pub open spec fn fresh_pose_entity(w0: World, e: EntityId, kps: Seq<i16>, w1: World) -> bool {
    &&& !w0.valid(e)
    &&& w1.valid(e)
    &&& e.index < w1.slots@.len()
    &&& w1.slots@.len() == if e.index < w0.slots@.len() {
        w0.slots@.len() as int
    } else {
        w0.slots@.len() + 1int
    }
    &&& e.index >= w0.slots@.len() ==> e.index == w0.slots@.len()
    &&& forall|j: int|
        0 <= j < w0.slots@.len() && j != e.index ==> w1.slots@[j] == w0.slots@[j]
    &&& w1.slots@[e.index as int] == (Slot {
        pose: w1.slots@[e.index as int].pose,
        children: w1.slots@[e.index as int].children,
        ..spec_fresh_slot(e.gen)
    })
    &&& pose_matches(w1.slots@[e.index as int], kps)
    &&& match w1.slots@[e.index as int].children {
        Some(c) => c.0@.len() == 0,
        None => false,
    }
}

/// The error, if any, that applying `ev` in state `(w0, m0)` must raise:
/// a pose delete for an unmapped identifier, or a mapping that no longer
/// points at a live entity carrying a pose.
pub open spec fn event_step_err(w0: World, m0: Map<u32, EntityId>, ev: EventModel) -> Option<
    ProtocolError,
> {
    match ev {
        EventModel::PoseUpsert { ext, .. } => if m0.contains_key(ext) && !(w0.valid(m0[ext])
            && w0.slots@[m0[ext].index as int].pose is Some) {
            Some(ProtocolError::StaleMapping(ext))
        } else {
            None
        },
        EventModel::PoseDelete { ext } => if !m0.contains_key(ext) {
            Some(ProtocolError::UnknownId(ext))
        } else if !w0.valid(m0[ext]) {
            Some(ProtocolError::StaleMapping(ext))
        } else {
            None
        },
    }
}

/// The store after overwriting entity `e`'s pose in place with `kps`.
pub open spec fn pose_overwritten(w0: World, e: EntityId, kps: Seq<i16>, w1: World) -> bool {
    &&& w1.slots@.len() == w0.slots@.len()
    &&& forall|j: int| 0 <= j < w0.slots@.len() && j != e.index ==> w1.slots@[j] == w0.slots@[j]
    &&& w1.slots@[e.index as int] == (Slot {
        pose: w1.slots@[e.index as int].pose,
        ..w0.slots@[e.index as int]
    })
    &&& pose_matches(w1.slots@[e.index as int], kps)
}

/// The store after tagging entity `e` for deletion.
pub open spec fn entity_tagged(w0: World, e: EntityId, w1: World) -> bool {
    &&& w1.slots@.len() == w0.slots@.len()
    &&& forall|j: int| 0 <= j < w0.slots@.len() && j != e.index ==> w1.slots@[j] == w0.slots@[j]
    &&& w1.slots@[e.index as int] == (Slot { delete: true, ..w0.slots@[e.index as int] })
}

/// How applying one event transforms the store and the identifier map.
pub open spec fn event_step_ok(
    w0: World,
    m0: Map<u32, EntityId>,
    ev: EventModel,
    w1: World,
    m1: Map<u32, EntityId>,
) -> bool {
    &&& event_step_err(w0, m0, ev) is None
    &&& match ev {
        EventModel::PoseUpsert { ext, keypoints } => if m0.contains_key(ext) {
            m1 == m0 && pose_overwritten(w0, m0[ext], keypoints, w1)
        } else {
            exists|e: EntityId| #[trigger]
                fresh_pose_entity(w0, e, keypoints, w1) && m1 == m0.insert(ext, e)
        },
        EventModel::PoseDelete { ext } => {
            m1 == m0.remove(ext) && entity_tagged(w0, m0[ext], w1)
        },
    }
}

/// The states `(w0, m0)` and `(w1, m1)` are linked by successfully applying
/// the whole event list `es` in order.
pub open spec fn apply_chain(
    w0: World,
    m0: Map<u32, EntityId>,
    es: Seq<EventModel>,
    w1: World,
    m1: Map<u32, EntityId>,
) -> bool
    decreases es.len(),
{
    if es.len() == 0 {
        w1 == w0 && m1 == m0
    } else {
        exists|mid: (World, Map<u32, EntityId>)| #[trigger]
            event_step_ok(w0, m0, es[0], mid.0, mid.1) && apply_chain(
            mid.0,
            mid.1,
            es.skip(1),
            w1,
            m1,
        )
    }
}

/// Extending a successful application chain by one more applied event.
proof fn lemma_apply_chain_snoc(
    w0: World,
    m0: Map<u32, EntityId>,
    es: Seq<EventModel>,
    w1: World,
    m1: Map<u32, EntityId>,
    ev: EventModel,
    w2: World,
    m2: Map<u32, EntityId>,
)
    requires
        apply_chain(w0, m0, es, w1, m1),
        event_step_ok(w1, m1, ev, w2, m2),
    ensures
        apply_chain(w0, m0, es.push(ev), w2, m2),
    decreases es.len(),
{
    if es.len() == 0 {
        let mid = (w2, m2);
        assert(es.push(ev)[0] == ev);
        assert(es.push(ev).skip(1) =~= Seq::<EventModel>::empty());
        assert(event_step_ok(w0, m0, es.push(ev)[0], mid.0, mid.1));
        assert(apply_chain(mid.0, mid.1, es.push(ev).skip(1), w2, m2));
    } else {
        let mid = choose|mid: (World, Map<u32, EntityId>)| #[trigger]
            event_step_ok(w0, m0, es[0], mid.0, mid.1) && apply_chain(
            mid.0,
            mid.1,
            es.skip(1),
            w1,
            m1,
        );
        lemma_apply_chain_snoc(mid.0, mid.1, es.skip(1), w1, m1, ev, w2, m2);
        assert(es.push(ev)[0] == es[0]);
        assert(es.push(ev).skip(1) =~= es.skip(1).push(ev));
        assert(event_step_ok(w0, m0, es.push(ev)[0], mid.0, mid.1) && apply_chain(
            mid.0,
            mid.1,
            es.push(ev).skip(1),
            w2,
            m2,
        ));
    }
}

fn copy_keypoints(src: &Vec<i16>) -> (r: Vec<i16>)
    ensures
        r@ == src@,
{
    let mut r: Vec<i16> = Vec::new();
    let mut i: usize = 0;
    while i < src.len()
        invariant
            i <= src.len(),
            r@ == src@.take(i as int),
        decreases src.len() - i,
    {
        r.push(src[i]);
        proof {
            assert(r@ =~= src@.take(i + 1));
        }
        i += 1;
    }
    proof {
        assert(src@.take(src@.len() as int) =~= src@);
    }
    r
}

/// The simulation core a host loop drives once per frame: decode and apply
/// the polled events, bank the elapsed time into fixed ticks, run the game
/// callbacks against `world`, then run the post-update pipeline.
pub struct Engine {
    /// The entity store.
    pub world: World,
    /// External pose-stream identifier to the entity it created.
    pub ids: HashMap<u32, EntityId>,
    /// The fixed-timestep accumulator.
    pub accum: Accumulator,
}

impl Engine {
    pub fn new(tick: u64) -> (r: Engine)
        requires
            0 < tick,
        ensures
            r.world.slots@.len() == 0,
            r.ids@ == Map::<u32, EntityId>::empty(),
            r.accum.wf(),
            r.accum.tick == tick,
            r.accum.acc == 0,
    {
        Engine { world: World::new(), ids: HashMap::new(), accum: Accumulator::new(tick) }
    }

    /// Applies one decoded event to the store and the identifier map: a
    /// pose upsert overwrites the mapped entity's pose or creates a fresh
    /// entity and mapping; a pose delete unmaps the identifier and tags its
    /// entity. Fails exactly when [`event_step_err`] says so, leaving the
    /// state untouched.
    pub fn apply_event(&mut self, ev: &Event) -> (r: Result<(), ProtocolError>)
        ensures
            r is Ok ==> event_step_ok(
                old(self).world,
                old(self).ids@,
                ev@,
                final(self).world,
                final(self).ids@,
            ),
            r is Err ==> {
                &&& event_step_err(old(self).world, old(self).ids@, ev@) == Some(r->Err_0)
                &&& final(self).world == old(self).world
                &&& final(self).ids@ == old(self).ids@
            },
            final(self).accum == old(self).accum,
    {
        match ev {
            Event::PoseUpsert { ext, keypoints } => {
                let mapped: Option<EntityId> = match self.ids.get(ext) {
                    Some(e) => Some(*e),
                    None => None,
                };
                match mapped {
                    Some(e) => {
                        if self.world.is_valid(e) && self.world.get_pose(e).is_some() {
                            self.world.set_pose(e, Pose(copy_keypoints(keypoints)));
                            proof {
                                assert(pose_overwritten(old(self).world, e, keypoints@, self.world));
                                assert(ev@ matches EventModel::PoseUpsert { ext: gx, keypoints: gk }
                                    && gx == *ext && gk == keypoints@);
                            }
                            Ok(())
                        } else {
                            Err(ProtocolError::StaleMapping(*ext))
                        }
                    },
                    None => {
                        let e = self.world.create_entity();
                        self.world.set_pose(e, Pose(copy_keypoints(keypoints)));
                        self.world.set_children(e, Children(Vec::new()));
                        self.ids.insert(*ext, e);
                        proof {
                            assert(fresh_pose_entity(old(self).world, e, keypoints@, self.world));
                            assert(self.ids@ == old(self).ids@.insert(*ext, e));
                            assert(ev@ matches EventModel::PoseUpsert { ext: gx, keypoints: gk }
                                && gx == *ext && gk == keypoints@);
                        }
                        Ok(())
                    },
                }
            },
            Event::PoseDelete { ext } => {
                let mapped: Option<EntityId> = match self.ids.get(ext) {
                    Some(e) => Some(*e),
                    None => None,
                };
                match mapped {
                    Some(e) => {
                        if self.world.is_valid(e) {
                            self.ids.remove(ext);
                            self.world.tag_delete(e, Delete);
                            proof {
                                assert(entity_tagged(old(self).world, e, self.world));
                                assert(self.ids@ == old(self).ids@.remove(*ext));
                                assert(ev@ matches EventModel::PoseDelete { ext: gx } && gx == *ext);
                            }
                            Ok(())
                        } else {
                            Err(ProtocolError::StaleMapping(*ext))
                        }
                    },
                    None => Err(ProtocolError::UnknownId(*ext)),
                }
            },
        }
    }

    /// Decodes one polled buffer and applies its events in order.
    ///
    /// Succeeds exactly when the buffer decodes and every event applies; on
    /// a decode error nothing is applied, and on an application error the
    /// events before the failing one remain applied — the stream is a
    /// trusted channel and the caller treats every error as fatal.
    pub fn ingest(&mut self, buf: &[u8]) -> (r: Result<(), ProtocolError>)
        ensures
            final(self).accum == old(self).accum,
            match r {
                Ok(()) => {
                    &&& spec_decode(buf@) is Ok
                    &&& apply_chain(
                        old(self).world,
                        old(self).ids@,
                        spec_decode(buf@)->Ok_0,
                        final(self).world,
                        final(self).ids@,
                    )
                },
                Err(e) => {
                    ||| {
                        &&& spec_decode(buf@) == Err::<Seq<EventModel>, ProtocolError>(e)
                        &&& final(self).world == old(self).world
                        &&& final(self).ids@ == old(self).ids@
                    }
                    ||| {
                        &&& spec_decode(buf@) is Ok
                        &&& exists|i: int|
                            {
                                &&& 0 <= i < spec_decode(buf@)->Ok_0.len()
                                &&& #[trigger] apply_chain(
                                    old(self).world,
                                    old(self).ids@,
                                    spec_decode(buf@)->Ok_0.take(i),
                                    final(self).world,
                                    final(self).ids@,
                                )
                                &&& event_step_err(
                                    final(self).world,
                                    final(self).ids@,
                                    spec_decode(buf@)->Ok_0[i],
                                ) == Some(e)
                            }
                    }
                },
            },
    {
        let events = match decode_events(buf) {
            Ok(events) => events,
            Err(e) => {
                return Err(e);
            },
        };
        let ghost es = spec_decode(buf@)->Ok_0;
        let n = events.len();
        let mut i: usize = 0;
        proof {
            assert(es.take(0) =~= Seq::<EventModel>::empty());
        }
        while i < n
            invariant
                i <= n,
                n == events@.len(),
                es == models_of(events@),
                spec_decode(buf@) == Ok::<Seq<EventModel>, ProtocolError>(es),
                self.accum == old(self).accum,
                apply_chain(old(self).world, old(self).ids@, es.take(i as int), self.world, self.ids@),
            decreases n - i,
        {
            let ghost w_mid = self.world;
            let ghost m_mid = self.ids@;
            match self.apply_event(&events[i]) {
                Ok(()) => {},
                Err(e) => {
                    proof {
                        assert(es[i as int] == events@[i as int]@);
                        assert(apply_chain(
                            old(self).world,
                            old(self).ids@,
                            spec_decode(buf@)->Ok_0.take(i as int),
                            self.world,
                            self.ids@,
                        ));
                        assert(event_step_err(
                            self.world,
                            self.ids@,
                            spec_decode(buf@)->Ok_0[i as int],
                        ) == Some(e));
                    }
                    return Err(e);
                },
            }
            proof {
                lemma_apply_chain_snoc(
                    old(self).world,
                    old(self).ids@,
                    es.take(i as int),
                    w_mid,
                    m_mid,
                    es[i as int],
                    self.world,
                    self.ids@,
                );
                assert(es.take(i as int).push(es[i as int]) =~= es.take(i + 1));
            }
            i += 1;
        }
        proof {
            assert(es.take(n as int) =~= es);
        }
        Ok(())
    }

    /// Banks `delta` elapsed time units and returns how many whole fixed
    /// ticks the caller owes the fixed-rate callback.
    pub fn advance_time(&mut self, delta: u64) -> (ticks: u64)
        requires
            old(self).accum.wf(),
            old(self).accum.acc + delta <= u64::MAX,
        ensures
            final(self).world == old(self).world,
            final(self).ids@ == old(self).ids@,
            final(self).accum.wf(),
            final(self).accum.tick == old(self).accum.tick,
            ticks == (old(self).accum.acc + delta) / (old(self).accum.tick as int),
            final(self).accum.acc == (old(self).accum.acc + delta) % (old(self).accum.tick as int),
    {
        self.accum.advance(delta)
    }

    /// Runs the post-update pipeline once, in its fixed order: velocity
    /// integration, transform propagation, render-sync collection, delete
    /// propagation, delete execution. Returns the render pushes the caller
    /// owes the renderer.
    pub fn post_update(&mut self, delta: i64) -> (syncs: Vec<RenderSync>)
        ensures
            final(self).ids@ == old(self).ids@,
            final(self).accum == old(self).accum,
            exists|w1: World, w2: World, w3: World, w4: World|
                {
                    &&& #[trigger] velocity_rel(old(self).world, w1, delta)
                    &&& #[trigger] propagation_rel(w1, w2)
                    &&& #[trigger] render_sync_rel(w2, w3, syncs@)
                    &&& #[trigger] delete_propagation_rel(w3, w4)
                    &&& delete_execution_rel(w4, final(self).world)
                },
    {
        velocity_tick(&mut self.world, delta);
        let ghost w1 = self.world;
        propagate_transforms(&mut self.world);
        let ghost w2 = self.world;
        let syncs = collect_render_syncs(&mut self.world);
        let ghost w3 = self.world;
        propagate_deletes(&mut self.world);
        let ghost w4 = self.world;
        execute_deletes(&mut self.world);
        proof {
            assert(velocity_rel(old(self).world, w1, delta) && propagation_rel(w1, w2)
                && render_sync_rel(w2, w3, syncs@) && delete_propagation_rel(w3, w4)
                && delete_execution_rel(w4, self.world));
        }
        syncs
    }
}

} // verus!
