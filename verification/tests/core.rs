use simulo::codec::{decode_events, encode_event, Event, ProtocolError};
use simulo::components::{Children, Delete, Position, Rendered, Transform, Velocity, POSE_VALUES};
use simulo::engine::Engine;
use simulo::math::{Mat4, Vec3i};
use simulo::store::World;
use simulo::systems::{
    collect_render_syncs, execute_deletes, propagate_deletes, propagate_transforms, velocity_tick,
};
use simulo::timestep::Accumulator;

fn keypoints(base: i16) -> Vec<i16> {
    let mut kps = Vec::new();
    for i in 0..POSE_VALUES as i16 {
        kps.push(base + i);
    }
    kps
}

#[test]
fn identity_is_neutral() {
    let t = Mat4::translation(Vec3i::new(5, -7, 9));
    assert_eq!(Mat4::identity().mul(&t), t);
    assert_eq!(t.mul(&Mat4::identity()), t);
}

#[test]
fn translation_scaling_product() {
    let t = Mat4::translation(Vec3i::new(10, 20, 30));
    let s = Mat4::scaling(Vec3i::new(2, 3, 4));
    let p = t.mul(&s);
    assert_eq!(p.m00, 2);
    assert_eq!(p.m11, 3);
    assert_eq!(p.m22, 4);
    assert_eq!(p.m03, 10);
    assert_eq!(p.m13, 20);
    assert_eq!(p.m23, 30);
    assert_eq!(p.m33, 1);
}

#[test]
fn entity_ids_survive_slot_reuse() {
    let mut w = World::new();
    let a = w.create_entity();
    w.tag_delete(a, Delete);
    execute_deletes(&mut w);
    assert!(!w.is_valid(a));
    let b = w.create_entity();
    assert_eq!(b.index, a.index);
    assert!(b.gen > a.gen);
    assert!(w.is_valid(b));
    assert!(!w.is_valid(a));
}

#[test]
fn velocity_integration_half_time_unit_scale() {
    // Position in millionths of a unit, velocity of one unit per second,
    // half a second elapsed: the entity ends at one half unit.
    let mut w = World::new();
    let e = w.create_entity();
    w.set_position(e, Position::new(0, 0, 0));
    w.set_velocity(e, Velocity::new(1, 0, 0));
    velocity_tick(&mut w, 500_000);
    assert_eq!(w.get_position(e), Some(Position::new(500_000, 0, 0)));
}

#[test]
fn velocity_needs_position() {
    let mut w = World::new();
    let e = w.create_entity();
    w.set_velocity(e, Velocity::new(1, 2, 3));
    velocity_tick(&mut w, 1000);
    assert_eq!(w.get_position(e), None);
}

#[test]
fn propagation_updates_parent_and_child() {
    let mut w = World::new();
    let parent = w.create_entity();
    let child = w.create_entity();
    w.set_transform(parent, Transform::pos(Vec3i::new(100, 200, 300)));
    w.set_global(parent, Default::default());
    w.set_children(parent, Children::new(vec![child]));
    w.set_transform(child, Transform::pos(Vec3i::new(10, 20, 30)));
    w.set_global(child, Default::default());
    propagate_transforms(&mut w);
    let pg = w.get_global(parent).unwrap();
    assert_eq!(pg.global, Mat4::translation(Vec3i::new(100, 200, 300)));
    let cg = w.get_global(child).unwrap();
    assert_eq!(cg.parent, pg.global);
    assert_eq!(cg.global, Mat4::translation(Vec3i::new(110, 220, 330)));
}

#[test]
fn propagation_is_incremental_and_idempotent() {
    let mut w = World::new();
    let moved = w.create_entity();
    let other = w.create_entity();
    w.set_transform(moved, Transform::pos(Vec3i::new(1, 1, 1)));
    w.set_global(moved, Default::default());
    w.set_transform(other, Transform::pos(Vec3i::new(9, 9, 9)));
    w.set_global(other, Default::default());
    propagate_transforms(&mut w);
    let other_global = w.get_global(other).unwrap();
    // A second pass with nothing dirty changes no global value.
    propagate_transforms(&mut w);
    assert_eq!(w.get_global(other).unwrap(), other_global);
    // Moving one root leaves the unrelated entity bit-identical.
    w.set_transform(moved, Transform::pos(Vec3i::new(2, 2, 2)));
    propagate_transforms(&mut w);
    assert_eq!(w.get_global(other).unwrap(), other_global);
    assert_eq!(
        w.get_global(moved).unwrap().global,
        Mat4::translation(Vec3i::new(2, 2, 2))
    );
}

#[test]
fn delete_reaches_all_descendants() {
    let mut w = World::new();
    let a = w.create_entity();
    let b = w.create_entity();
    let c = w.create_entity();
    let d = w.create_entity();
    w.set_children(a, Children::new(vec![b]));
    w.set_children(b, Children::new(vec![c]));
    w.set_position(d, Position::new(4, 4, 4));
    w.tag_delete(a, Delete);
    propagate_deletes(&mut w);
    execute_deletes(&mut w);
    assert!(!w.is_valid(a));
    assert!(!w.is_valid(b));
    assert!(!w.is_valid(c));
    assert!(w.is_valid(d));
    assert_eq!(w.get_position(d), Some(Position::new(4, 4, 4)));
}

#[test]
fn delete_shares_descendants_once() {
    // A diamond: two tagged parents share one child.
    let mut w = World::new();
    let p1 = w.create_entity();
    let p2 = w.create_entity();
    let shared = w.create_entity();
    w.set_children(p1, Children::new(vec![shared]));
    w.set_children(p2, Children::new(vec![shared]));
    w.tag_delete(p1, Delete);
    w.tag_delete(p2, Delete);
    propagate_deletes(&mut w);
    execute_deletes(&mut w);
    assert!(!w.is_valid(p1));
    assert!(!w.is_valid(p2));
    assert!(!w.is_valid(shared));
}

#[test]
fn delete_terminates_on_cycle() {
    let mut w = World::new();
    let a = w.create_entity();
    let b = w.create_entity();
    w.set_children(a, Children::new(vec![b]));
    w.set_children(b, Children::new(vec![a]));
    w.tag_delete(a, Delete);
    propagate_deletes(&mut w);
    execute_deletes(&mut w);
    assert!(!w.is_valid(a));
    assert!(!w.is_valid(b));
}

#[test]
fn dangling_children_are_no_children() {
    let mut w = World::new();
    let a = w.create_entity();
    let ghost_child = w.create_entity();
    w.set_children(a, Children::new(vec![ghost_child]));
    w.tag_delete(ghost_child, Delete);
    propagate_deletes(&mut w);
    execute_deletes(&mut w);
    // The child is gone; its stale identifier in a's list is tolerated.
    w.tag_delete(a, Delete);
    propagate_deletes(&mut w);
    execute_deletes(&mut w);
    assert!(!w.is_valid(a));
}

#[test]
fn render_sync_reports_changed_globals_once() {
    let mut w = World::new();
    let e = w.create_entity();
    w.set_transform(e, Transform::pos(Vec3i::new(7, 8, 9)));
    w.set_global(e, Default::default());
    w.set_rendered(e, Rendered(42));
    propagate_transforms(&mut w);
    let syncs = collect_render_syncs(&mut w);
    assert_eq!(syncs.len(), 1);
    assert_eq!(syncs[0].handle, 42);
    assert_eq!(syncs[0].global, Mat4::translation(Vec3i::new(7, 8, 9)));
    // The change tracking was consumed: nothing is owed twice.
    let again = collect_render_syncs(&mut w);
    assert_eq!(again.len(), 0);
}

#[test]
fn pose_event_round_trip() {
    let kps = keypoints(100);
    let ev = Event::PoseUpsert { ext: 7, keypoints: kps.clone() };
    let bytes = encode_event(&ev);
    assert_eq!(bytes.len(), 73);
    let decoded = decode_events(&bytes).unwrap();
    assert_eq!(decoded.len(), 1);
    match &decoded[0] {
        Event::PoseUpsert { ext, keypoints } => {
            assert_eq!(*ext, 7);
            assert_eq!(*keypoints, kps);
        }
        other => panic!("decoded the wrong event kind: {:?}", other),
    }
}

#[test]
fn decode_rejects_foreign_tag_and_truncation() {
    assert_eq!(decode_events(&[9u8]), Err(ProtocolError::UnknownTag(9)));
    assert_eq!(decode_events(&[0u8, 0, 0]), Err(ProtocolError::Truncated));
    assert_eq!(decode_events(&[1u8, 0, 0, 0]), Err(ProtocolError::Truncated));
    assert_eq!(decode_events(&[]), Ok(vec![]));
}

#[test]
fn pose_upsert_creates_then_overwrites_then_deletes() {
    let mut engine = Engine::new(16_667);
    let first = keypoints(-3);
    let mut buf = encode_event(&Event::PoseUpsert { ext: 7, keypoints: first.clone() });
    engine.ingest(&buf).unwrap();
    let e = *engine.ids.get(&7).unwrap();
    assert_eq!(engine.world.get_pose(e).unwrap().0, first);
    assert_eq!(engine.world.get_children(e).unwrap().0.len(), 0);

    // A second upsert for the same identifier updates the same entity.
    let second = keypoints(500);
    buf = encode_event(&Event::PoseUpsert { ext: 7, keypoints: second.clone() });
    engine.ingest(&buf).unwrap();
    let e2 = *engine.ids.get(&7).unwrap();
    assert_eq!(e2, e);
    assert_eq!(engine.world.get_pose(e).unwrap().0, second);

    // A pose delete unmaps the identifier and removes the entity.
    buf = encode_event(&Event::PoseDelete { ext: 7 });
    engine.ingest(&buf).unwrap();
    assert!(engine.ids.get(&7).is_none());
    assert!(engine.world.has_delete(e));
    engine.post_update(0);
    assert!(!engine.world.is_valid(e));
}

#[test]
fn two_events_in_one_buffer() {
    let mut engine = Engine::new(16_667);
    let mut buf = encode_event(&Event::PoseUpsert { ext: 1, keypoints: keypoints(0) });
    buf.extend(encode_event(&Event::PoseUpsert { ext: 2, keypoints: keypoints(40) }));
    engine.ingest(&buf).unwrap();
    assert!(engine.ids.get(&1).is_some());
    assert!(engine.ids.get(&2).is_some());
}

#[test]
fn delete_for_unknown_id_is_fatal() {
    let mut engine = Engine::new(16_667);
    let buf = encode_event(&Event::PoseDelete { ext: 99 });
    assert_eq!(engine.ingest(&buf), Err(ProtocolError::UnknownId(99)));
}

#[test]
fn upsert_for_stale_mapping_is_fatal() {
    let mut engine = Engine::new(16_667);
    let buf = encode_event(&Event::PoseUpsert { ext: 5, keypoints: keypoints(0) });
    engine.ingest(&buf).unwrap();
    let e = *engine.ids.get(&5).unwrap();
    // Game logic deletes the entity directly, leaving the mapping dangling.
    engine.world.tag_delete(e, Delete);
    engine.post_update(0);
    let again = encode_event(&Event::PoseUpsert { ext: 5, keypoints: keypoints(1) });
    assert_eq!(engine.ingest(&again), Err(ProtocolError::StaleMapping(5)));
}

#[test]
fn fixed_ticks_ignore_chunking() {
    let tick: u64 = 16_667;
    let deltas: [u64; 6] = [10_000, 5_000, 40_000, 1, 16_666, 30_000];
    let mut acc = Accumulator::new(tick);
    let mut total_ticks: u64 = 0;
    let mut total_time: u64 = 0;
    for d in deltas {
        total_ticks += acc.advance(d);
        total_time += d;
    }
    assert_eq!(total_ticks, total_time / tick);

    // The same total delivered as one delta pays out the same tick count.
    let mut one = Accumulator::new(tick);
    assert_eq!(one.advance(total_time), total_ticks);
    assert_eq!(one.acc, acc.acc);
}

#[test]
fn engine_advance_time_counts_whole_ticks() {
    let mut engine = Engine::new(10_000);
    assert_eq!(engine.advance_time(25_000), 2);
    assert_eq!(engine.advance_time(5_000), 1);
    assert_eq!(engine.advance_time(9_999), 0);
}
