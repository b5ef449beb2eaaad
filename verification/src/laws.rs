//! The library's laws, proved over the same spec-level transitions the
//! executable functions are verified against: the instantiation side effect
//! happens exactly once, the rule engine is idempotent per node,
//! classification is disjoint, rigid bodies and qualifying children are in
//! bijection, and degenerate meshes are skipped without affecting siblings.

use vstd::prelude::*;

use crate::classify::{classify_spec, Role};
use crate::engine::{fatal_of, tick_spec, EngineModel};
use crate::lifecycle::AppState;
use crate::scene::{store_builds, MeshEntry};
use crate::text::has_substr;
use crate::world::{
    body_entity, child_dyn, child_qualifies, dyn_count, hook, hook_node, is_new_node,
    lemma_dyn_count_le, lemma_dyn_count_mono, store_complete, wf_world, Entity, RigidBodyKind,
};

verus! {

/// The rule-engine tick keeps every parent link inside the graph.
pub proof fn lemma_hook_preserves_wf(w: Seq<Entity>, s: Seq<MeshEntry>)
    requires
        wf_world(w),
        w.len() <= usize::MAX / 2,
    ensures
        wf_world(hook(w, s)),
{
    let w1 = hook(w, s);
    assert forall|i: int|
        0 <= i < w1.len() implies (#[trigger] w1[i].parent matches Some(p) ==> p < w1.len()) by {
        if i < w.len() {
            assert(w1[i] == hook_node(w, s, i));
            if child_dyn(w, s, i) {
                lemma_dyn_count_le(w, s, i);
                lemma_dyn_count_mono(w, s, i + 1, w.len() as int);
            }
        } else {
            assert(w1[i] == body_entity());
        }
    }
}

/// After a rule-engine tick, no entity in the graph is a newly observed
/// node: every fresh mark on a named node has been consumed, and the spawned
/// rigid bodies are born neither fresh nor named.
pub proof fn lemma_hook_consumes_fresh(w: Seq<Entity>, s: Seq<MeshEntry>)
    ensures
        forall|i: int| !is_new_node(hook(w, s), i),
{
    let w1 = hook(w, s);
    assert forall|i: int| !is_new_node(w1, i) by {
        if 0 <= i < w1.len() {
            if i < w.len() {
                assert(w1[i] == hook_node(w, s, i));
            } else {
                assert(w1[i] == body_entity());
            }
        }
    }
}

/// In a graph with no newly observed node, no child qualifies, so the count
/// of rigid bodies to spawn is zero.
pub proof fn lemma_dyn_count_zero(w: Seq<Entity>, s: Seq<MeshEntry>, c: int)
    requires
        forall|i: int| !is_new_node(w, i),
    ensures
        dyn_count(w, s, c) == 0,
    decreases c,
{
    if c > 0 {
        lemma_dyn_count_zero(w, s, c - 1);
        assert(!child_dyn(w, s, c - 1));
    }
}

/// Idempotent per-node processing: a second rule-engine tick over the graph
/// a first tick produced changes nothing. A node observed as new at one tick
/// is consumed by it and never reprocessed later.
pub proof fn lemma_hook_idempotent(w: Seq<Entity>, s: Seq<MeshEntry>)
    ensures
        hook(hook(w, s), s) == hook(w, s),
{
    let w1 = hook(w, s);
    lemma_hook_consumes_fresh(w, s);
    lemma_dyn_count_zero(w1, s, w1.len() as int);
    assert forall|i: int| 0 <= i < w1.len() implies hook_node(w1, s, i) == w1[i] by {
        assert(!child_qualifies(w1, s, i));
        assert(!child_dyn(w1, s, i));
        if i < w.len() {
            assert(w1[i] == hook_node(w, s, i));
        } else {
            assert(w1[i] == body_entity());
        }
    }
    assert(hook(w1, s) =~= w1);
}

/// A graph with no newly observed node satisfies the store-completeness
/// guard vacuously: once the rule engine has consumed a tick's nodes, the
/// fatal missing-mesh condition cannot arise for them again.
pub proof fn lemma_quiescent_store_complete(w: Seq<Entity>, s: Seq<MeshEntry>)
    requires
        forall|i: int| !is_new_node(w, i),
    ensures
        store_complete(w, s),
{
}

/// Classification disjointness: the exact name `"Plane"` is classified
/// static and nothing else is; a name containing `"Cube"` other than the
/// exact name `"Plane"` is classified dynamic, and nothing else is.
pub proof fn lemma_classification_disjoint(name: Seq<char>)
    ensures
        name == "Plane"@ ==> classify_spec(name) == Role::Static,
        classify_spec(name) == Role::Static ==> name == "Plane"@,
        (name != "Plane"@ && has_substr(name, "Cube"@)) ==> classify_spec(name) == Role::Dynamic,
        classify_spec(name) == Role::Dynamic ==> (name != "Plane"@ && has_substr(name, "Cube"@)),
{
}

/// A node named exactly `"Plane"` never triggers the dynamic-rigid-body
/// strategy: its children keep their structural parent.
pub proof fn lemma_plane_child_never_reparented(w: Seq<Entity>, s: Seq<MeshEntry>, c: int)
    requires
        0 <= c < w.len(),
        w[c].parent matches Some(p) && w[p as int].name matches Some(n) && n@ == "Plane"@,
    ensures
        !child_dyn(w, s, c),
        hook(w, s)[c].parent == w[c].parent,
{
    assert(hook(w, s)[c] == hook_node(w, s, c));
}

/// A newly observed node whose name contains `"Cube"` (and is not exactly
/// `"Plane"`) puts every mesh-bearing child with a buildable shape on the
/// dynamic-rigid-body path, never the static one.
pub proof fn lemma_cube_child_dynamic(w: Seq<Entity>, s: Seq<MeshEntry>, c: int)
    requires
        0 <= c < w.len(),
        w[c].parent matches Some(p) && is_new_node(w, p as int),
        w[w[c].parent->Some_0 as int].name matches Some(n) && has_substr(n@, "Cube"@) && n@
            != "Plane"@,
        w[c].mesh matches Some(m) && store_builds(s, m),
    ensures
        child_dyn(w, s, c),
{
}

/// Per-child rigid-body cardinality, one direction: each child qualifying
/// under the dynamic strategy ends the tick with a collider and with its own
/// spawned rigid body — dynamic kind, default spatial transform — as its new
/// structural parent.
pub proof fn lemma_dyn_child_gets_body(w: Seq<Entity>, s: Seq<MeshEntry>, c: int)
    requires
        wf_world(w),
        w.len() <= usize::MAX / 2,
        child_dyn(w, s, c),
    ensures
        hook(w, s)[c].parent == Some((w.len() + dyn_count(w, s, c)) as usize),
        w.len() + dyn_count(w, s, c) < hook(w, s).len(),
        hook(w, s)[(w.len() + dyn_count(w, s, c)) as int].body == Some(RigidBodyKind::Dynamic),
        hook(w, s)[(w.len() + dyn_count(w, s, c)) as int].has_transform,
        hook(w, s)[c].collider,
{
    lemma_dyn_count_le(w, s, c);
    lemma_dyn_count_mono(w, s, c + 1, w.len() as int);
    assert(hook(w, s)[c] == hook_node(w, s, c));
    assert(hook(w, s)[(w.len() + dyn_count(w, s, c)) as int] == body_entity());
}

/// Per-child rigid-body cardinality, injectivity: two distinct qualifying
/// children are reparented onto distinct rigid bodies.
pub proof fn lemma_one_body_per_child(w: Seq<Entity>, s: Seq<MeshEntry>, c1: int, c2: int)
    requires
        wf_world(w),
        w.len() <= usize::MAX / 2,
        child_dyn(w, s, c1),
        child_dyn(w, s, c2),
        c1 != c2,
    ensures
        hook(w, s)[c1].parent != hook(w, s)[c2].parent,
{
    lemma_dyn_count_le(w, s, c1);
    lemma_dyn_count_le(w, s, c2);
    if c1 < c2 {
        lemma_dyn_count_mono(w, s, c1 + 1, c2);
    } else {
        lemma_dyn_count_mono(w, s, c2 + 1, c1);
    }
    assert(hook(w, s)[c1] == hook_node(w, s, c1));
    assert(hook(w, s)[c2] == hook_node(w, s, c2));
}

/// Every body index below a positive count has a qualifying child it was
/// spawned for.
proof fn lemma_count_witness(w: Seq<Entity>, s: Seq<MeshEntry>, k: nat, n: int)
    requires
        0 <= n,
        k < dyn_count(w, s, n),
    ensures
        exists|c: int| 0 <= c < n && child_dyn(w, s, c) && dyn_count(w, s, c) == k,
    decreases n,
{
    if child_dyn(w, s, n - 1) && dyn_count(w, s, n - 1) == k {
        assert(0 <= n - 1 < n && child_dyn(w, s, n - 1) && dyn_count(w, s, n - 1) == k);
    } else {
        lemma_count_witness(w, s, k, n - 1);
    }
}

/// Per-child rigid-body cardinality, surjectivity: every rigid body the tick
/// spawned is the structural parent of some qualifying child — no body is
/// left over, so a node with k qualifying children yields exactly k bodies.
pub proof fn lemma_every_body_has_child(w: Seq<Entity>, s: Seq<MeshEntry>, b: int)
    requires
        wf_world(w),
        w.len() <= usize::MAX / 2,
        w.len() <= b < hook(w, s).len(),
    ensures
        exists|c: int| child_dyn(w, s, c) && hook(w, s)[c].parent == Some(b as usize),
{
    let k = (b - w.len()) as nat;
    lemma_count_witness(w, s, k, w.len() as int);
    let c = choose|c: int|
        0 <= c < w.len() && child_dyn(w, s, c) && dyn_count(w, s, c) == k;
    lemma_dyn_child_gets_body(w, s, c);
    assert(child_dyn(w, s, c) && hook(w, s)[c].parent == Some(b as usize));
}

/// Skip on degenerate mesh: a mesh-bearing child whose collision-shape
/// construction fails is left entirely unchanged by the attachment pass — no
/// collider, no reparenting — whatever its siblings do.
pub proof fn lemma_degenerate_mesh_skipped(w: Seq<Entity>, s: Seq<MeshEntry>, c: int)
    requires
        0 <= c < w.len(),
        w[c].mesh matches Some(m) && !store_builds(s, m),
    ensures
        hook(w, s)[c].collider == w[c].collider,
        hook(w, s)[c].parent == w[c].parent,
        hook(w, s)[c].body == w[c].body,
{
    assert(hook(w, s)[c] == hook_node(w, s, c));
}

/// A qualifying child always ends the tick with a collider attached: a
/// degenerate sibling does not prevent it from being processed.
pub proof fn lemma_qualifying_child_attached(w: Seq<Entity>, s: Seq<MeshEntry>, c: int)
    requires
        child_qualifies(w, s, c),
    ensures
        hook(w, s)[c].collider,
{
    assert(hook(w, s)[c] == hook_node(w, s, c));
}

/// One tick of the whole process, as the application observes it: a fatal
/// condition parks the engine (the process aborts), any other tick follows
/// the tick transition.
pub open spec fn step(e: EngineModel) -> EngineModel {
    if fatal_of(e) is Some {
        e
    } else {
        tick_spec(e)
    }
}

/// `n` ticks of the whole process.
pub open spec fn run(e: EngineModel, n: nat) -> EngineModel
    decreases n,
{
    if n == 0 {
        e
    } else {
        step(run(e, (n - 1) as nat))
    }
}

/// The scene-instantiation side effect fires on this tick: not parked, still
/// loading, and the decoded asset is available.
pub open spec fn instantiates_now(e: EngineModel) -> bool {
    fatal_of(e) is None && e.lifecycle.current == AppState::Loading && e.asset is Some
}

/// On how many of the first `n` ticks the instantiation side effect fires.
pub open spec fn instantiation_count(e: EngineModel, n: nat) -> nat
    decreases n,
{
    if n == 0 {
        0
    } else {
        instantiation_count(e, (n - 1) as nat) + if instantiates_now(
            run(e, (n - 1) as nat),
        ) {
            1nat
        } else {
            0nat
        }
    }
}

/// The lifecycle is monotonic: once `Running`, every later tick still
/// observes `Running`; the transition never reverses.
pub proof fn lemma_running_is_terminal(e: EngineModel)
    requires
        e.lifecycle.current == AppState::Running,
        e.lifecycle.pending is None || e.lifecycle.pending == Some(AppState::Running),
    ensures
        step(e).lifecycle.current == AppState::Running,
        step(e).lifecycle.pending is None || step(e).lifecycle.pending == Some(
            AppState::Running,
        ),
{
}

/// Single instantiation: from the tick at which the asset is available (and
/// carries a default sub-scene), the instantiation side effect fires on that
/// tick and never again — over any number of ticks, it occurs exactly once —
/// and every later tick observes `Running`.
pub proof fn lemma_single_instantiation(e: EngineModel, n: nat)
    requires
        e.lifecycle.current == AppState::Loading,
        e.lifecycle.pending is None,
        e.asset matches Some(a) && a.default_scene is Some,
        n >= 1,
    ensures
        instantiation_count(e, n) == 1,
        run(e, n).lifecycle.current == AppState::Running,
        run(e, n).lifecycle.pending is None,
    decreases n,
{
    if n == 1 {
        assert(fatal_of(e) is None);
        assert(instantiates_now(e));
        assert(run(e, 0) == e);
        assert(instantiation_count(e, 0) == 0);
        assert(run(e, 1) == step(e));
    } else {
        lemma_single_instantiation(e, (n - 1) as nat);
        let f = run(e, (n - 1) as nat);
        assert(!instantiates_now(f));
        lemma_running_is_terminal(f);
        assert(run(e, n) == step(f));
    }
}

/// The retry policy: while the asset is unavailable, every tick is a no-op —
/// the process parks in `Loading` with the graph untouched and the
/// instantiation side effect never fires. No timeout, no backoff.
pub proof fn lemma_parked_until_available(e: EngineModel, n: nat)
    requires
        e.lifecycle.current == AppState::Loading,
        e.lifecycle.pending is None,
        e.asset is None,
    ensures
        instantiation_count(e, n) == 0,
        run(e, n) == e,
    decreases n,
{
    if n > 0 {
        lemma_parked_until_available(e, (n - 1) as nat);
        assert(step(e) == EngineModel {
            lifecycle: crate::lifecycle::apply_spec(e.lifecycle),
            ..e
        });
        assert(step(e) == e);
    }
}

/// Once `Running`, the scene graph stabilizes after a single rule-engine
/// tick: that tick consumes every newly observed node, and every later tick
/// leaves the graph exactly as it was — nodes are processed at most once for
/// the life of the process.
pub proof fn lemma_world_stabilizes(e: EngineModel, n: nat)
    requires
        e.lifecycle.current == AppState::Running,
        e.lifecycle.pending is None,
        fatal_of(e) is None,
        n >= 1,
    ensures
        run(e, n).world == hook(e.world, e.meshes),
        run(e, n).meshes == e.meshes,
        run(e, n).lifecycle.current == AppState::Running,
        run(e, n).lifecycle.pending is None,
    decreases n,
{
    if n == 1 {
        assert(run(e, 1) == step(e));
    } else {
        lemma_world_stabilizes(e, (n - 1) as nat);
        let f = run(e, (n - 1) as nat);
        lemma_hook_consumes_fresh(e.world, e.meshes);
        lemma_quiescent_store_complete(f.world, f.meshes);
        assert(fatal_of(f) is None);
        lemma_hook_idempotent(e.world, e.meshes);
        assert(run(e, n) == step(f));
    }
}

} // verus!
