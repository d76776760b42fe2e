//! The post-update pipeline: velocity integration, incremental transform
//! propagation, render-sync collection, delete propagation, and delete
//! execution, in that order, once per frame.

use vstd::prelude::*;

use crate::components::{Delete, EntityId, GlobalTransform, Position};
use crate::math::{spec_mul, Mat4, Vec3i};
use crate::store::{Slot, World};

verus! {

broadcast use vstd::seq::lemma_seq_push_index_different_alt;

// ---------------------------------------------------------------------------
// Velocity integration
// ---------------------------------------------------------------------------

/// The integrated position: `p + v * delta`, componentwise and wrapping.
pub open spec fn spec_integrate(p: Vec3i, v: Vec3i, delta: i64) -> Vec3i {
    Vec3i {
        x: p.x.wrapping_add(v.x.wrapping_mul(delta)),
        y: p.y.wrapping_add(v.y.wrapping_mul(delta)),
        z: p.z.wrapping_add(v.z.wrapping_mul(delta)),
    }
}

/// What one slot becomes under velocity integration: entities carrying both
/// a position and a velocity move; everything else is untouched.
pub open spec fn spec_velocity_slot(s: Slot, delta: i64) -> Slot {
    match (s.position, s.velocity) {
        (Some(p), Some(v)) => if s.alive {
            Slot { position: Some(Position(spec_integrate(p.0, v.0, delta))), ..s }
        } else {
            s
        },
        _ => s,
    }
}

/// What velocity integration does to the whole store.
pub open spec fn velocity_rel(pre: World, post: World, delta: i64) -> bool {
    &&& post.slots@.len() == pre.slots@.len()
    &&& forall|i: int|
        0 <= i < pre.slots@.len() ==> #[trigger] post.slots@[i] == spec_velocity_slot(
            pre.slots@[i],
            delta,
        )
}

/// Advances every entity that has both a position and a velocity by
/// `delta` time units of its velocity.
#[verifier::loop_isolation(false)]
pub fn velocity_tick(w: &mut World, delta: i64)
    ensures
        velocity_rel(*old(w), *final(w), delta),
{
    let n = w.slots.len();
    let mut i: usize = 0;
    while i < n
        invariant
            i <= n,
            w.slots@.len() == n,
            forall|j: int|
                0 <= j < i ==> w.slots@[j] == spec_velocity_slot(old(w).slots@[j], delta),
            forall|j: int| i <= j < n ==> w.slots@[j] == old(w).slots@[j],
        decreases n - i,
    {
        let s = &w.slots[i];
        if s.alive {
            match (s.position, s.velocity) {
                (Some(p), Some(v)) => {
                    let np = Vec3i {
                        x: p.0.x.wrapping_add(v.0.x.wrapping_mul(delta)),
                        y: p.0.y.wrapping_add(v.0.y.wrapping_mul(delta)),
                        z: p.0.z.wrapping_add(v.0.z.wrapping_mul(delta)),
                    };
                    w.slots[i].position = Some(Position(np));
                },
                _ => {},
            }
        }
        i += 1;
    }
}

// ---------------------------------------------------------------------------
// Transform propagation
// ---------------------------------------------------------------------------

/// `a` and `b` agree on everything but the propagation pass's outputs: the
/// transform-dirty bit, the stored global transform, and its dirty bit.
pub open spec fn slot_nonhier_eq(a: Slot, b: Slot) -> bool {
    &&& a.gen == b.gen
    &&& a.alive == b.alive
    &&& a.position == b.position
    &&& a.velocity == b.velocity
    &&& a.rotation == b.rotation
    &&& a.scale == b.scale
    &&& a.transform == b.transform
    &&& a.children == b.children
    &&& a.delete == b.delete
    &&& a.pose == b.pose
    &&& a.rendered == b.rendered
}

/// A propagation seed: an entity whose local transform was inserted or
/// modified since the last pass and that already carries a global transform.
pub open spec fn hier_seed(w: World, i: int) -> bool {
    &&& 0 <= i < w.slots@.len()
    &&& w.slots@[i].alive
    &&& w.slots@[i].transform_dirty
    &&& w.slots@[i].transform is Some
    &&& w.slots@[i].global is Some
}

/// A hierarchy edge: slot `i` is alive and lists a currently valid child
/// whose slot is `j` and which carries a local transform.
pub open spec fn hier_edge(w: World, i: int, j: int) -> bool {
    &&& 0 <= i < w.slots@.len()
    &&& w.slots@[i].alive
    &&& w.slots@[i].children is Some
    &&& exists|ci: int|
        0 <= ci < w.slots@[i].children->Some_0.0@.len() && w.valid(
            #[trigger] w.slots@[i].children->Some_0.0@[ci],
        ) && w.slots@[i].children->Some_0.0@[ci].index == j
    &&& 0 <= j < w.slots@.len()
    &&& w.slots@[j].transform is Some
}

/// There is a hierarchy path of length `k` from slot `i` to slot `j`.
pub open spec fn hier_reaches(w: World, i: int, j: int, k: nat) -> bool
    decreases k,
{
    if k == 0 {
        i == j
    } else {
        exists|m: int| hier_reaches(w, i, m, (k - 1) as nat) && hier_edge(w, m, j)
    }
}

/// Slot `j` is in the dirty frontier's fan-out: a seed reaches it.
pub open spec fn dirty_covers(w: World, j: int) -> bool {
    exists|i: int, k: nat| hier_seed(w, i) && hier_reaches(w, i, j, k)
}

/// The written slot is internally consistent: its stored global matrix is
/// its stored parent base times its own local transform.
pub open spec fn hier_consistent(s: Slot) -> bool {
    match (s.global, s.transform) {
        (Some(gt), Some(t)) => gt.global == spec_mul(gt.parent, t.0),
        _ => false,
    }
}

/// What one propagation pass guarantees, relating the store before to the
/// store after.
pub open spec fn propagation_rel(pre: World, post: World) -> bool {
    &&& post.slots@.len() == pre.slots@.len()
    // Only the pass's outputs change:
    &&& forall|i: int|
        0 <= i < pre.slots@.len() ==> slot_nonhier_eq(pre.slots@[i], #[trigger] post.slots@[i])
    // The pass consumes the transform-change tracking:
    &&& forall|i: int| 0 <= i < pre.slots@.len() ==> !(#[trigger] post.slots@[i]).transform_dirty
    // Every rewritten global transform is consistent and tracked:
    &&& forall|i: int|
        0 <= i < pre.slots@.len() && (#[trigger] post.slots@[i]).global != pre.slots@[i].global
            ==> hier_consistent(post.slots@[i]) && post.slots@[i].global_dirty
    // Incrementality: entities outside the dirty fan-out keep their global
    // state bit-identical:
    &&& forall|i: int|
        0 <= i < pre.slots@.len() && !dirty_covers(pre, i) ==> #[trigger] post.slots@[i] == (Slot {
            transform_dirty: false,
            ..pre.slots@[i]
        })
    // Completeness: every seed was recomputed — it leaves the pass with a
    // consistent, change-tracked global transform:
    &&& forall|i: int|
        hier_seed(pre, i) ==> (#[trigger] post.slots@[i]).global is Some && hier_consistent(
            post.slots@[i],
        ) && post.slots@[i].global_dirty
}

/// One incremental propagation pass.
///
/// Seeds a queue with every change-tracked entity paired with its stored
/// parent base, then walks breadth-first: each processed entity's global
/// becomes `base * local`, its stored parent becomes the base, and its
/// children are enqueued under the new global — unconditionally, since an
/// ancestor's change forces theirs. Work is bounded, so a malformed cyclic
/// hierarchy cannot hang the pass.
#[verifier::rlimit(60)]
#[verifier::spinoff_prover]
#[verifier::loop_isolation(false)]
pub fn propagate_transforms(w: &mut World)
    ensures
        propagation_rel(*old(w), *final(w)),
{
    let n = w.slots.len();
    let mut queue: Vec<(EntityId, Mat4)> = Vec::new();
    let mut i: usize = 0;
    while i < n
        invariant
            i <= n,
            w.slots@.len() == n,
            forall|j: int|
                0 <= j < i ==> w.slots@[j] == (Slot {
                    transform_dirty: false,
                    ..old(w).slots@[j]
                }),
            forall|j: int| i <= j < n ==> w.slots@[j] == old(w).slots@[j],
            forall|qi: int|
                0 <= qi < queue@.len() ==> dirty_covers(
                    *old(w),
                    #[trigger] queue@[qi].0.index as int,
                ),
            forall|qi: int|
                0 <= qi < queue@.len() ==> hier_seed(*old(w), (#[trigger] queue@[qi]).0.index as int)
                    && queue@[qi].0.gen == old(w).slots@[queue@[qi].0.index as int].gen,
            forall|j: int|
                0 <= j < i && hier_seed(*old(w), j) ==> exists|qi: int|
                    0 <= qi < queue@.len() && (#[trigger] queue@[qi]).0.index == j,
        decreases n - i,
    {
        let s = &w.slots[i];
        if s.alive && s.transform_dirty && s.transform.is_some() && s.global.is_some() {
            let base = s.global.unwrap().parent;
            let e = EntityId { index: i, gen: s.gen };
            proof {
                assert(hier_seed(*old(w), i as int));
                assert(hier_reaches(*old(w), i as int, i as int, 0));
            }
            queue.push((e, base));
            proof {
                assert(queue@[queue@.len() - 1] == (e, base));
            }
        }
        w.slots[i].transform_dirty = false;
        i += 1;
    }
    let mut head: usize = 0;
    let q0 = queue.len();
    proof {
        assert((n as u128) * (q0 as u128) + (n as u128) + (q0 as u128) <= u128::MAX)
            by (nonlinear_arith)
            requires
                n as u128 <= 0xffff_ffff_ffff_ffffu128,
                q0 as u128 <= 0xffff_ffff_ffff_ffffu128,
        {}
    }
    let mut fuel: u128 = (n as u128) * (q0 as u128) + (n as u128) + (q0 as u128);
    while head < queue.len() && fuel > 0
        invariant
            w.slots@.len() == n,
            forall|j: int|
                0 <= j < n ==> slot_nonhier_eq(old(w).slots@[j], #[trigger] w.slots@[j]),
            forall|j: int| 0 <= j < n ==> !(#[trigger] w.slots@[j]).transform_dirty,
            forall|j: int|
                0 <= j < n && (#[trigger] w.slots@[j]).global != old(w).slots@[j].global
                    ==> hier_consistent(w.slots@[j]) && w.slots@[j].global_dirty,
            forall|j: int|
                0 <= j < n && !dirty_covers(*old(w), j) ==> #[trigger] w.slots@[j] == (Slot {
                    transform_dirty: false,
                    ..old(w).slots@[j]
                }),
            forall|qi: int|
                0 <= qi < queue@.len() ==> dirty_covers(
                    *old(w),
                    #[trigger] queue@[qi].0.index as int,
                ),
            q0 <= queue@.len(),
            head < q0 ==> fuel >= q0 - head,
            forall|qi: int|
                0 <= qi < q0 ==> hier_seed(*old(w), (#[trigger] queue@[qi]).0.index as int)
                    && queue@[qi].0.gen == old(w).slots@[queue@[qi].0.index as int].gen,
            forall|j: int|
                hier_seed(*old(w), j) ==> exists|qi: int|
                    0 <= qi < q0 && (#[trigger] queue@[qi]).0.index == j,
            forall|qi: int|
                0 <= qi < head && qi < q0 ==> (#[trigger] w.slots@[queue@[qi].0.index as int]).global
                    is Some && hier_consistent(w.slots@[queue@[qi].0.index as int])
                    && w.slots@[queue@[qi].0.index as int].global_dirty,
        decreases fuel,
    {
        fuel = fuel - 1;
        let (e, base) = queue[head];
        proof {
            if head < q0 {
                assert(hier_seed(*old(w), queue@[head as int].0.index as int));
                assert(slot_nonhier_eq(old(w).slots@[e.index as int], w.slots@[e.index as int]));
                assert(w.valid(e));
                assert(w.slots@[e.index as int].transform is Some);
            }
        }
        head += 1;
        if w.is_valid(e) {
            match w.get_transform(e) {
                Some(t) => {
                    let g = base.mul(&t.0);
                    w.set_global(e, GlobalTransform { parent: base, global: g });
                    let ghost covers_e = dirty_covers(*old(w), e.index as int);
                    match w.get_children(e) {
                        Some(ch) => {
                            let num = ch.0.len();
                            let mut ci: usize = 0;
                            while ci < num
                                invariant
                                    ci <= num,
                                    num == ch.0@.len(),
                                    forall|qi: int|
                                        0 <= qi < queue@.len() ==> dirty_covers(
                                            *old(w),
                                            #[trigger] queue@[qi].0.index as int,
                                        ),
                                    q0 <= queue@.len(),
                                    forall|qi: int|
                                        0 <= qi < q0 ==> hier_seed(
                                            *old(w),
                                            (#[trigger] queue@[qi]).0.index as int,
                                        ) && queue@[qi].0.gen
                                            == old(w).slots@[queue@[qi].0.index as int].gen,
                                    forall|j: int|
                                        hier_seed(*old(w), j) ==> exists|qi: int|
                                            0 <= qi < q0 && (#[trigger] queue@[qi]).0.index == j,
                                    forall|qi: int|
                                        0 <= qi < head && qi < q0 ==> (
                                        #[trigger] w.slots@[queue@[qi].0.index as int]).global
                                            is Some && hier_consistent(
                                            w.slots@[queue@[qi].0.index as int],
                                        ) && w.slots@[queue@[qi].0.index as int].global_dirty,
                                decreases num - ci,
                            {
                                let c = ch.0[ci];
                                if w.is_valid(c) && w.get_transform(c).is_some() {
                                    proof {
                                        let pre = *old(w);
                                        assert(slot_nonhier_eq(
                                            pre.slots@[e.index as int],
                                            w.slots@[e.index as int],
                                        ));
                                        assert(pre.slots@[e.index as int].children == Some(*ch));
                                        assert(slot_nonhier_eq(
                                            pre.slots@[c.index as int],
                                            w.slots@[c.index as int],
                                        ));
                                        assert(pre.valid(c));
                                        assert(pre.slots@[e.index as int].children->Some_0.0@[ci as int]
                                            == c);
                                        assert(pre.valid(
                                            pre.slots@[e.index as int].children->Some_0.0@[ci as int],
                                        ));
                                        assert(hier_edge(pre, e.index as int, c.index as int));
                                        let (s0, k0): (int, nat) = choose|s0: int, k0: nat|
                                            hier_seed(pre, s0) && hier_reaches(
                                                pre,
                                                s0,
                                                e.index as int,
                                                k0,
                                            );
                                        assert(hier_reaches(pre, s0, c.index as int, k0 + 1)) by {
                                            assert(hier_reaches(pre, s0, e.index as int, k0));
                                        }
                                        assert(dirty_covers(pre, c.index as int));
                                    }
                                    queue.push((c, g));
                                }
                                ci += 1;
                            }
                        },
                        None => {},
                    }
                },
                None => {},
            }
        }
    }
}

// ---------------------------------------------------------------------------
// Render-sync collection
// ---------------------------------------------------------------------------

/// A pending push to the renderer: a render handle and the new global
/// matrix of its entity.
#[derive(Clone, Copy, PartialEq, Eq, Structural, Debug)]
pub struct RenderSync {
    pub handle: u32,
    pub global: Mat4,
}

/// The sync notifications one slot contributes: one entry exactly when the
/// slot is alive, its global transform changed this pass, and it carries a
/// render handle.
pub open spec fn sync_of(s: Slot) -> Seq<RenderSync> {
    match (s.rendered, s.global) {
        (Some(r), Some(g)) => if s.alive && s.global_dirty {
            seq![RenderSync { handle: r.0, global: g.global }]
        } else {
            Seq::empty()
        },
        _ => Seq::empty(),
    }
}

/// All sync notifications of a store, in slot order.
pub open spec fn spec_syncs(slots: Seq<Slot>) -> Seq<RenderSync>
    decreases slots.len(),
{
    if slots.len() == 0 {
        Seq::empty()
    } else {
        spec_syncs(slots.drop_last()) + sync_of(slots.last())
    }
}

/// What render-sync collection does: it reports exactly the owed pushes and
/// clears the global-change tracking, touching nothing else.
pub open spec fn render_sync_rel(pre: World, post: World, r: Seq<RenderSync>) -> bool {
    &&& r == spec_syncs(pre.slots@)
    &&& post.slots@.len() == pre.slots@.len()
    &&& forall|i: int|
        0 <= i < pre.slots@.len() ==> #[trigger] post.slots@[i] == (Slot {
            global_dirty: false,
            ..pre.slots@[i]
        })
}

/// Collects the render pushes owed for every entity whose global transform
/// was inserted or modified this pass and that carries a render handle, and
/// consumes the global-change tracking.
///
/// The caller performs the pushes; this system decides them.
#[verifier::loop_isolation(false)]
pub fn collect_render_syncs(w: &mut World) -> (r: Vec<RenderSync>)
    ensures
        render_sync_rel(*old(w), *final(w), r@),
{
    let n = w.slots.len();
    let mut out: Vec<RenderSync> = Vec::new();
    let mut i: usize = 0;
    proof {
        assert(old(w).slots@.take(0) =~= Seq::<Slot>::empty());
    }
    while i < n
        invariant
            i <= n,
            w.slots@.len() == n,
            out@ == spec_syncs(old(w).slots@.take(i as int)),
            forall|j: int|
                0 <= j < i ==> w.slots@[j] == (Slot { global_dirty: false, ..old(w).slots@[j] }),
            forall|j: int| i <= j < n ==> w.slots@[j] == old(w).slots@[j],
        decreases n - i,
    {
        let s = &w.slots[i];
        if s.alive && s.global_dirty {
            match (s.rendered, s.global) {
                (Some(r), Some(g)) => {
                    out.push(RenderSync { handle: r.0, global: g.global });
                },
                _ => {},
            }
        }
        proof {
            assert(old(w).slots@.take(i + 1).drop_last() =~= old(w).slots@.take(i as int));
            assert(old(w).slots@.take(i + 1).last() == old(w).slots@[i as int]);
            assert(out@ =~= spec_syncs(old(w).slots@.take(i + 1)));
        }
        w.slots[i].global_dirty = false;
        i += 1;
    }
    proof {
        assert(old(w).slots@.take(n as int) =~= old(w).slots@);
    }
    out
}

// ---------------------------------------------------------------------------
// Delete propagation
// ---------------------------------------------------------------------------

/// `a` and `b` agree on everything but the delete tag.
pub open spec fn slot_nondelete_eq(a: Slot, b: Slot) -> bool {
    &&& a.gen == b.gen
    &&& a.alive == b.alive
    &&& a.position == b.position
    &&& a.velocity == b.velocity
    &&& a.rotation == b.rotation
    &&& a.scale == b.scale
    &&& a.transform == b.transform
    &&& a.transform_dirty == b.transform_dirty
    &&& a.global == b.global
    &&& a.global_dirty == b.global_dirty
    &&& a.children == b.children
    &&& a.pose == b.pose
    &&& a.rendered == b.rendered
}

/// A deletion edge: slot `i` is alive and lists a currently valid child
/// whose slot is `j`. Dangling or stale child references make no edge:
/// tolerant traversal treats them as absent.
pub open spec fn del_edge(w: World, i: int, j: int) -> bool {
    &&& 0 <= i < w.slots@.len()
    &&& w.slots@[i].alive
    &&& w.slots@[i].children is Some
    &&& exists|ci: int|
        0 <= ci < w.slots@[i].children->Some_0.0@.len() && w.valid(
            #[trigger] w.slots@[i].children->Some_0.0@[ci],
        ) && w.slots@[i].children->Some_0.0@[ci].index == j
}

/// There is a chain of deletion edges of length `k` from slot `i` to `j`.
pub open spec fn del_reaches(w: World, i: int, j: int, k: nat) -> bool
    decreases k,
{
    if k == 0 {
        i == j
    } else {
        exists|m: int| del_reaches(w, i, m, (k - 1) as nat) && del_edge(w, m, j)
    }
}

/// Slot `j` is in the delete closure: reachable from a tagged live entity.
pub open spec fn delete_covers(w: World, j: int) -> bool {
    exists|i: int, k: nat|
        0 <= i < w.slots@.len() && w.slots@[i].alive && w.slots@[i].delete && del_reaches(
            w,
            i,
            j,
            k,
        )
}

/// What one delete-propagation pass guarantees.
pub open spec fn delete_propagation_rel(pre: World, post: World) -> bool {
    &&& post.slots@.len() == pre.slots@.len()
    // Only delete tags change:
    &&& forall|i: int|
        0 <= i < pre.slots@.len() ==> slot_nondelete_eq(pre.slots@[i], #[trigger] post.slots@[i])
    // Tags are never dropped:
    &&& forall|i: int|
        0 <= i < pre.slots@.len() && pre.slots@[i].delete ==> (#[trigger] post.slots@[i]).delete
    // Soundness: only the closure of the tagged set gains tags:
    &&& forall|i: int|
        0 <= i < pre.slots@.len() && (#[trigger] post.slots@[i]).delete ==> pre.slots@[i].delete
            || delete_covers(pre, i)
    // Closedness: a tagged entity's valid children are tagged:
    &&& forall|i: int, j: int|
        0 <= i < pre.slots@.len() && (#[trigger] post.slots@[i]).delete && del_edge(pre, i, j)
            ==> (#[trigger] post.slots@[j]).delete
}

/// Expands every delete tag to all entities reachable through the children
/// relation, deduplicating with a visited set so that shared descendants are
/// processed once and a malformed cyclic hierarchy terminates.
/// How many entries of a visited set are still unvisited.
pub open spec fn count_false(s: Seq<bool>) -> nat
    decreases s.len(),
{
    if s.len() == 0 {
        0
    } else {
        count_false(s.drop_last()) + if s.last() {
            0nat
        } else {
            1nat
        }
    }
}

/// Marking an unvisited entry visited lowers the unvisited count by one.
proof fn lemma_count_false_update(s: Seq<bool>, j: int)
    requires
        0 <= j < s.len(),
        !s[j],
    ensures
        count_false(s.update(j, true)) + 1 == count_false(s),
    decreases s.len(),
{
    if j == s.len() - 1 {
        assert(s.update(j, true).drop_last() =~= s.drop_last());
        assert(s.update(j, true).last());
    } else {
        assert(s.update(j, true).drop_last() =~= s.drop_last().update(j, true));
        lemma_count_false_update(s.drop_last(), j);
        assert(s.update(j, true).last() == s.last());
    }
}

/// Expands every delete tag to all entities reachable through the children
/// relation, deduplicating with a visited set so that shared descendants are
/// processed once and a malformed cyclic hierarchy terminates.
#[verifier::loop_isolation(false)]
pub fn propagate_deletes(w: &mut World)
    ensures
        delete_propagation_rel(*old(w), *final(w)),
{
    let n = w.slots.len();
    let mut visited: Vec<bool> = vec![false; n];
    let mut queue: Vec<EntityId> = Vec::new();
    let mut i: usize = 0;
    // Seed: the children of every currently tagged entity.
    while i < n
        invariant
            i <= n,
            w == old(w),
            w.slots@.len() == n,
            visited@.len() == n,
            forall|qi: int, qj: int|
                0 <= qi < qj < queue@.len() ==> (#[trigger] queue@[qi]).index != (
                #[trigger] queue@[qj]).index,
            forall|qi: int|
                0 <= qi < queue@.len() ==> w.valid(#[trigger] queue@[qi])
                    && visited@[queue@[qi].index as int],
            forall|j: int|
                0 <= j < n && visited@[j] ==> exists|qi: int|
                    0 <= qi < queue@.len() && (#[trigger] queue@[qi]).index == j,
            forall|qi: int|
                0 <= qi < queue@.len() ==> delete_covers(
                    *old(w),
                    #[trigger] queue@[qi].index as int,
                ),
            // Children of already-scanned tagged entities are all visited:
            forall|p: int, j: int|
                0 <= p < i && w.slots@[p].delete && del_edge(*old(w), p, j) ==> visited@[j],
        decreases n - i,
    {
        let s = &w.slots[i];
        if s.alive && s.delete {
            match &s.children {
                Some(ch) => {
                    let num = ch.0.len();
                    let mut ci: usize = 0;
                    while ci < num
                        invariant
                            ci <= num,
                            num == ch.0@.len(),
                            w.slots@[i as int].children == Some(*ch),
                            w.slots@[i as int].alive,
                            w.slots@[i as int].delete,
                            visited@.len() == n,
                            forall|qi: int, qj: int|
                                0 <= qi < qj < queue@.len() ==> (#[trigger] queue@[qi]).index != (
                                #[trigger] queue@[qj]).index,
                            forall|qi: int|
                                0 <= qi < queue@.len() ==> w.valid(#[trigger] queue@[qi])
                                    && visited@[queue@[qi].index as int],
                            forall|j: int|
                                0 <= j < n && visited@[j] ==> exists|qi: int|
                                    0 <= qi < queue@.len() && (#[trigger] queue@[qi]).index == j,
                            forall|qi: int|
                                0 <= qi < queue@.len() ==> delete_covers(
                                    *old(w),
                                    #[trigger] queue@[qi].index as int,
                                ),
                            forall|p: int, j: int|
                                0 <= p < i && w.slots@[p].delete && del_edge(*old(w), p, j)
                                    ==> visited@[j],
                            // Children scanned so far are visited:
                            forall|cj: int|
                                0 <= cj < ci && w.valid(ch.0@[cj]) ==> visited@[(
                                #[trigger] ch.0@[cj]).index as int],
                        decreases num - ci,
                    {
                        let c = ch.0[ci];
                        if w.is_valid(c) {
                            if !visited[c.index] {
                                visited[c.index] = true;
                                proof {
                                    assert(w.slots@[i as int].children->Some_0.0@[ci as int] == c);
                                    assert(w.valid(
                                        w.slots@[i as int].children->Some_0.0@[ci as int],
                                    ));
                                    assert(del_edge(*old(w), i as int, c.index as int));
                                    assert(del_reaches(*old(w), i as int, c.index as int, 1)) by {
                                        assert(del_reaches(*old(w), i as int, i as int, 0));
                                    }
                                    assert(delete_covers(*old(w), c.index as int));
                                }
                                queue.push(c);
                                proof {
                                    assert(queue@[queue@.len() - 1] == c);
                                }
                            }
                        }
                        ci += 1;
                    }
                    proof {
                        assert forall|j: int| del_edge(*old(w), i as int, j) implies visited@[j] by {
                            let cs = w.slots@[i as int].children->Some_0;
                            let ci2 = choose|ci2: int|
                                0 <= ci2 < cs.0@.len() && w.valid(#[trigger] cs.0@[ci2])
                                    && cs.0@[ci2].index == j;
                            assert(cs == *ch);
                            assert(w.valid(ch.0@[ci2]));
                            assert(visited@[ch.0@[ci2].index as int]);
                        }
                    }
                },
                None => {},
            }
        }
        i += 1;
    }
    // Expand: tag each frontier entity and enqueue its unvisited children.
    let mut head: usize = 0;
    while head < queue.len()
        invariant
            head <= queue@.len(),
            w.slots@.len() == n,
            visited@.len() == n,
            forall|j: int|
                0 <= j < n ==> slot_nondelete_eq(old(w).slots@[j], #[trigger] w.slots@[j]),
            forall|j: int|
                0 <= j < n && old(w).slots@[j].delete ==> (#[trigger] w.slots@[j]).delete,
            forall|qi: int, qj: int|
                0 <= qi < qj < queue@.len() ==> (#[trigger] queue@[qi]).index != (
                #[trigger] queue@[qj]).index,
            forall|qi: int|
                0 <= qi < queue@.len() ==> old(w).valid(#[trigger] queue@[qi])
                    && visited@[queue@[qi].index as int],
            forall|j: int|
                0 <= j < n && visited@[j] ==> exists|qi: int|
                    0 <= qi < queue@.len() && (#[trigger] queue@[qi]).index == j,
            forall|qi: int|
                0 <= qi < queue@.len() ==> delete_covers(
                    *old(w),
                    #[trigger] queue@[qi].index as int,
                ),
            // Tagged = initially tagged or processed:
            forall|j: int|
                0 <= j < n && (#[trigger] w.slots@[j]).delete ==> old(w).slots@[j].delete
                    || exists|qi: int| 0 <= qi < head && (#[trigger] queue@[qi]).index == j,
            forall|qi: int|
                0 <= qi < head ==> (#[trigger] w.slots@[queue@[qi].index as int]).delete,
            // Children of initially tagged entities are visited:
            forall|p: int, j: int|
                0 <= p < n && old(w).slots@[p].delete && del_edge(*old(w), p, j) ==> visited@[j],
            // Children of processed entities are visited:
            forall|qi: int, j: int|
                0 <= qi < head && del_edge(*old(w), queue@[qi].index as int, j) ==> visited@[j],
        decreases count_false(visited@) + queue@.len() - head,
    {
        let ghost m0 = count_false(visited@) + queue@.len();
        let ghost head0 = head as int;
        let e = queue[head];
        w.tag_delete(e, Delete);
        match w.get_children(e) {
            Some(ch) => {
                let ghost w_snap = *w;
                let num = ch.0.len();
                let mut ci: usize = 0;
                while ci < num
                    invariant
                        ci <= num,
                        num == ch.0@.len(),
                        *w == w_snap,
                        head0 == head,
                        head < queue@.len(),
                        queue@[head0] == e,
                        w.slots@[e.index as int].children == Some(*ch),
                        w.slots@.len() == n,
                        visited@.len() == n,
                        count_false(visited@) + queue@.len() == m0,
                        forall|qi: int, qj: int|
                            0 <= qi < qj < queue@.len() ==> (#[trigger] queue@[qi]).index != (
                            #[trigger] queue@[qj]).index,
                        forall|qi: int|
                            0 <= qi < queue@.len() ==> old(w).valid(#[trigger] queue@[qi])
                                && visited@[queue@[qi].index as int],
                        forall|j: int|
                            0 <= j < n && visited@[j] ==> exists|qi: int|
                                0 <= qi < queue@.len() && (#[trigger] queue@[qi]).index == j,
                        forall|qi: int|
                            0 <= qi < queue@.len() ==> delete_covers(
                                *old(w),
                                #[trigger] queue@[qi].index as int,
                            ),
                        forall|j: int|
                            0 <= j < n && (#[trigger] w.slots@[j]).delete
                                ==> old(w).slots@[j].delete || exists|qi: int|
                                0 <= qi < head + 1 && (#[trigger] queue@[qi]).index == j,
                        forall|qi: int|
                            0 <= qi < head ==> (
                            #[trigger] w.slots@[queue@[qi].index as int]).delete,
                        forall|p: int, j: int|
                            0 <= p < n && old(w).slots@[p].delete && del_edge(*old(w), p, j)
                                ==> visited@[j],
                        forall|qi: int, j: int|
                            0 <= qi < head && del_edge(*old(w), queue@[qi].index as int, j)
                                ==> visited@[j],
                        forall|cj: int|
                            0 <= cj < ci && old(w).valid(ch.0@[cj]) ==> visited@[(
                            #[trigger] ch.0@[cj]).index as int],
                    decreases num - ci,
                {
                    let c = ch.0[ci];
                    if w.is_valid(c) {
                        proof {
                            assert(slot_nondelete_eq(
                                old(w).slots@[c.index as int],
                                w.slots@[c.index as int],
                            ));
                            assert(old(w).valid(c));
                        }
                        if !visited[c.index] {
                            let ghost vb = visited@;
                            visited[c.index] = true;
                            proof {
                                lemma_count_false_update(vb, c.index as int);
                                let pre = *old(w);
                                assert(slot_nondelete_eq(
                                    pre.slots@[e.index as int],
                                    w.slots@[e.index as int],
                                ));
                                assert(pre.slots@[e.index as int].children == Some(*ch));
                                assert(pre.slots@[e.index as int].children->Some_0.0@[ci as int]
                                    == c);
                                assert(pre.valid(
                                    pre.slots@[e.index as int].children->Some_0.0@[ci as int],
                                ));
                                assert(del_edge(pre, e.index as int, c.index as int));
                                let (s0, k0): (int, nat) = choose|s0: int, k0: nat|
                                    0 <= s0 < pre.slots@.len() && pre.slots@[s0].alive
                                        && pre.slots@[s0].delete && del_reaches(
                                        pre,
                                        s0,
                                        e.index as int,
                                        k0,
                                    );
                                assert(del_reaches(pre, s0, c.index as int, k0 + 1)) by {
                                    assert(del_reaches(pre, s0, e.index as int, k0));
                                }
                                assert(delete_covers(pre, c.index as int));
                            }
                            queue.push(c);
                            proof {
                                assert(queue@[queue@.len() - 1] == c);
                            }
                        }
                    }
                    ci += 1;
                }
                proof {
                    assert forall|j: int|
                        del_edge(*old(w), e.index as int, j) implies visited@[j] by {
                        let pre = *old(w);
                        assert(slot_nondelete_eq(
                            pre.slots@[e.index as int],
                            w.slots@[e.index as int],
                        ));
                        let cs = pre.slots@[e.index as int].children->Some_0;
                        let ci2 = choose|ci2: int|
                            0 <= ci2 < cs.0@.len() && pre.valid(#[trigger] cs.0@[ci2])
                                && cs.0@[ci2].index == j;
                        assert(cs == *ch);
                        assert(old(w).valid(ch.0@[ci2]));
                        assert(visited@[ch.0@[ci2].index as int]);
                    }
                }
            },
            None => {
                proof {
                    assert forall|j: int|
                        del_edge(*old(w), e.index as int, j) implies visited@[j] by {
                        assert(slot_nondelete_eq(
                            old(w).slots@[e.index as int],
                            w.slots@[e.index as int],
                        ));
                        assert(w.slots@[e.index as int].children is None);
                    }
                }
            },
        }
        head += 1;
        proof {
            assert(queue@[head0] == e);
            assert(w.slots@[e.index as int].delete);
            assert forall|qi: int|
                0 <= qi < head implies (#[trigger] w.slots@[queue@[qi].index as int]).delete by {
                if qi == head0 {
                    assert(queue@[qi].index == e.index);
                }
            }
            assert forall|qi: int, j: int|
                0 <= qi < head && del_edge(*old(w), queue@[qi].index as int, j)
                    implies visited@[j] by {
                if qi == head0 {
                    assert(del_edge(*old(w), e.index as int, j) ==> visited@[j]);
                }
            }
        }
    }
    proof {
        // Soundness: everything tagged now was tagged before or is covered.
        assert forall|j: int|
            0 <= j < n && (#[trigger] w.slots@[j]).delete implies old(w).slots@[j].delete
            || delete_covers(*old(w), j) by {
            if !old(w).slots@[j].delete {
                let qi = choose|qi: int| 0 <= qi < head && (#[trigger] queue@[qi]).index == j;
                assert(delete_covers(*old(w), queue@[qi].index as int));
            }
        }
        // Closedness: at exit every queued entity was processed, so the
        // tagged set is closed under deletion edges.
        assert forall|i2: int, j2: int|
            0 <= i2 < n && (#[trigger] w.slots@[i2]).delete && del_edge(*old(w), i2, j2) implies (
        #[trigger] w.slots@[j2]).delete by {
            if old(w).slots@[i2].delete {
                assert(visited@[j2]);
            } else {
                let qi = choose|qi: int| 0 <= qi < head && (#[trigger] queue@[qi]).index == i2;
                assert(visited@[j2]);
            }
            let qj = choose|qj: int| 0 <= qj < queue@.len() && (#[trigger] queue@[qj]).index == j2;
            assert(w.slots@[queue@[qj].index as int].delete);
        }
    }
}

// ---------------------------------------------------------------------------
// Delete execution
// ---------------------------------------------------------------------------

/// A vacated slot: dead, component storage freed, the generation kept so
/// that the next occupant of the index gets a fresh identifier.
pub open spec fn spec_vacated(gen: u64) -> Slot {
    Slot {
        gen,
        alive: false,
        position: None,
        velocity: None,
        rotation: None,
        scale: None,
        transform: None,
        transform_dirty: false,
        global: None,
        global_dirty: false,
        children: None,
        delete: false,
        pose: None,
        rendered: None,
    }
}

/// What delete execution does: every tagged live slot is vacated, and
/// nothing else moves.
pub open spec fn delete_execution_rel(pre: World, post: World) -> bool {
    &&& post.slots@.len() == pre.slots@.len()
    &&& forall|i: int|
        0 <= i < pre.slots@.len() ==> #[trigger] post.slots@[i] == if pre.slots@[i].alive
            && pre.slots@[i].delete {
            spec_vacated(pre.slots@[i].gen)
        } else {
            pre.slots@[i]
        }
}

/// Removes every tagged entity: its components are freed and its identifier
/// retired. Untagged entities are untouched, so deletion is transactional
/// per frame.
#[verifier::loop_isolation(false)]
pub fn execute_deletes(w: &mut World)
    ensures
        delete_execution_rel(*old(w), *final(w)),
{
    let n = w.slots.len();
    let mut i: usize = 0;
    while i < n
        invariant
            i <= n,
            w.slots@.len() == n,
            forall|j: int|
                0 <= j < i ==> w.slots@[j] == if old(w).slots@[j].alive && old(w).slots@[j].delete {
                    spec_vacated(old(w).slots@[j].gen)
                } else {
                    old(w).slots@[j]
                },
            forall|j: int| i <= j < n ==> w.slots@[j] == old(w).slots@[j],
        decreases n - i,
    {
        if w.slots[i].alive && w.slots[i].delete {
            let g = w.slots[i].gen;
            w.slots[i] = Slot {
                gen: g,
                alive: false,
                position: None,
                velocity: None,
                rotation: None,
                scale: None,
                transform: None,
                transform_dirty: false,
                global: None,
                global_dirty: false,
                children: None,
                delete: false,
                pose: None,
                rendered: None,
            };
        }
        i += 1;
    }
}

/// A pass with nothing change-tracked is a no-op: every entity's stored
/// global transform stays bit-identical, so converged subtrees remain
/// converged under repeated passes.
pub proof fn lemma_noop_pass_changes_nothing(pre: World, post: World)
    requires
        propagation_rel(pre, post),
        forall|i: int| !hier_seed(pre, i),
    ensures
        forall|i: int|
            0 <= i < pre.slots@.len() ==> #[trigger] post.slots@[i] == (Slot {
                transform_dirty: false,
                ..pre.slots@[i]
            }),
{
    assert forall|i: int| 0 <= i < pre.slots@.len() implies !dirty_covers(pre, i) by {
        if dirty_covers(pre, i) {
            let (s, k): (int, nat) = choose|s: int, k: nat|
                hier_seed(pre, s) && hier_reaches(pre, s, i, k);
            assert(!hier_seed(pre, s));
        }
    }
}

/// A local edit leaves everything outside the edited subtree's fan-out
/// bit-identical: the incremental half of transform propagation.
pub proof fn lemma_propagation_spares_unreached(pre: World, post: World, i: int)
    requires
        propagation_rel(pre, post),
        0 <= i < pre.slots@.len(),
        !dirty_covers(pre, i),
    ensures
        post.slots@[i] == (Slot { transform_dirty: false, ..pre.slots@[i] }),
{
}

/// Delete closure: after one propagation pass, everything a tagged live
/// entity reaches through deletion edges is tagged — so the execution step
/// removes the whole closure together.
pub proof fn lemma_delete_closure(pre: World, post: World, i: int, j: int, k: nat)
    requires
        delete_propagation_rel(pre, post),
        0 <= i < pre.slots@.len(),
        pre.slots@[i].alive,
        pre.slots@[i].delete,
        del_reaches(pre, i, j, k),
    ensures
        0 <= j < pre.slots@.len() ==> post.slots@[j].delete,
    decreases k,
{
    if k == 0 {
    } else {
        let m = choose|m: int| del_reaches(pre, i, m, (k - 1) as nat) && del_edge(pre, m, j);
        lemma_delete_closure(pre, post, i, m, (k - 1) as nat);
    }
}

/// Running delete propagation and then delete execution removes the whole
/// closure: an entity reachable from any tagged live entity is absent from
/// the store afterwards.
pub proof fn lemma_delete_pipeline_removes_closure(
    w0: World,
    w1: World,
    w2: World,
    i: int,
    j: int,
    k: nat,
)
    requires
        delete_propagation_rel(w0, w1),
        delete_execution_rel(w1, w2),
        0 <= i < w0.slots@.len(),
        w0.slots@[i].alive,
        w0.slots@[i].delete,
        del_reaches(w0, i, j, k),
    ensures
        0 <= j < w0.slots@.len() ==> !w2.slots@[j].alive,
{
    if 0 <= j < w0.slots@.len() {
        lemma_delete_closure(w0, w1, i, j, k);
        if k == 0 {
            assert(w0.slots@[j].alive);
        } else {
            let m = choose|m: int| del_reaches(w0, i, m, (k - 1) as nat) && del_edge(w0, m, j);
            let ci = choose|ci: int|
                0 <= ci < w0.slots@[m].children->Some_0.0@.len() && w0.valid(
                    #[trigger] w0.slots@[m].children->Some_0.0@[ci],
                ) && w0.slots@[m].children->Some_0.0@[ci].index == j;
            assert(w0.slots@[j].alive);
        }
        assert(slot_nondelete_eq(w0.slots@[j], w1.slots@[j]));
        assert(w1.slots@[j].alive && w1.slots@[j].delete);
    }
}

/// The other half of delete closure: an entity that is neither tagged nor
/// reachable from a tagged live entity survives the pipeline with its slot,
/// components included, bit-identical.
pub proof fn lemma_delete_pipeline_spares_unreached(w0: World, w1: World, w2: World, j: int)
    requires
        delete_propagation_rel(w0, w1),
        delete_execution_rel(w1, w2),
        0 <= j < w0.slots@.len(),
        !w0.slots@[j].delete,
        !delete_covers(w0, j),
    ensures
        w2.slots@[j] == w0.slots@[j],
{
    assert(!w1.slots@[j].delete);
    assert(slot_nondelete_eq(w0.slots@[j], w1.slots@[j]));
    assert(w1.slots@[j] == w0.slots@[j]);
    assert(w2.slots@[j] == w1.slots@[j]);
}

} // verus!
