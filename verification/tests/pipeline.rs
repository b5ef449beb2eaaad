//! The tick pipeline end to end: lifecycle latency, one-shot instantiation,
//! idempotent per-node processing, attachment strategies, skip and fatal
//! behavior.

use scene_physics::engine::{Engine, Fatal};
use scene_physics::lifecycle::{AppState, Lifecycle};
use scene_physics::registry::Registry;
use scene_physics::scene::{MeshStore, ProtoNode, SceneAsset, SubScene};
use scene_physics::world::{RigidBodyKind, World};

fn node(name: &str, parent: Option<usize>, mesh: Option<u64>) -> ProtoNode {
    ProtoNode { name: String::from(name), parent, mesh }
}

/// The end-to-end asset: a Plane with one mesh child, and CubeA / CubeB with
/// one mesh child each.
fn level_asset() -> SceneAsset {
    SceneAsset {
        default_scene: Some(SubScene {
            nodes: vec![
                node("Plane", None, None),
                node("PlaneMesh", Some(0), Some(1)),
                node("CubeA", None, None),
                node("CubeAMesh", Some(2), Some(2)),
                node("CubeB", None, None),
                node("CubeBMesh", Some(4), Some(3)),
            ],
        }),
    }
}

fn engine_with(asset: SceneAsset, meshes: &[(u64, bool)]) -> Engine {
    let mut engine = Engine::new(String::from("Scene.glb"));
    engine.registry.deliver(asset);
    for (id, builds) in meshes {
        engine.meshes.add_mesh(*id, *builds);
    }
    engine
}

#[test]
fn lifecycle_starts_loading() {
    assert_eq!(AppState::default(), AppState::Loading);
    let lc = Lifecycle::new();
    assert_eq!(lc.current(), AppState::Loading);
}

#[test]
fn transition_latency_one_tick() {
    let mut lc = Lifecycle::new();
    assert_eq!(lc.current(), AppState::Loading);
    lc.request_transition(AppState::Running);
    // Readers during the remainder of the requesting tick still see Loading.
    assert_eq!(lc.current(), AppState::Loading);
    lc.apply_pending();
    // Readers on the next tick see Running.
    assert_eq!(lc.current(), AppState::Running);
}

#[test]
fn repeated_request_before_commit_is_idempotent() {
    let mut lc = Lifecycle::new();
    lc.request_transition(AppState::Running);
    lc.request_transition(AppState::Running);
    assert_eq!(lc.current(), AppState::Loading);
    lc.apply_pending();
    assert_eq!(lc.current(), AppState::Running);
}

#[test]
fn registry_polls_none_until_delivered() {
    let mut reg = Registry::new();
    let h = reg.request(String::from("Scene.glb"));
    assert!(reg.poll(&h).is_none());
    reg.deliver(SceneAsset { default_scene: None });
    assert!(reg.poll(&h).is_some());
}

#[test]
fn unavailable_asset_parks_in_loading() {
    let mut engine = Engine::new(String::from("Scene.glb"));
    for _ in 0..5 {
        assert_eq!(engine.tick(), Ok(()));
        assert_eq!(engine.current_state(), AppState::Loading);
        assert_eq!(engine.world.entities.len(), 0);
    }
}

#[test]
fn instantiation_happens_exactly_once() {
    let mut engine = engine_with(level_asset(), &[(1, true), (2, true), (3, true)]);
    assert_eq!(engine.tick(), Ok(()));
    // Instantiated this tick; the transition is observed from the next tick.
    assert_eq!(engine.current_state(), AppState::Running);
    let named = |e: &Engine| e.world.entities.iter().filter(|n| n.name.is_some()).count();
    assert_eq!(named(&engine), 6);
    for _ in 0..5 {
        assert_eq!(engine.tick(), Ok(()));
        // No further tick re-spawns the sub-scene: the named nodes stay six.
        assert_eq!(named(&engine), 6);
    }
}

#[test]
fn end_to_end_plane_and_cubes() {
    let mut engine = engine_with(level_asset(), &[(1, true), (2, true), (3, true)]);
    // Tick 1: instantiation; state Running afterwards.
    assert_eq!(engine.tick(), Ok(()));
    assert_eq!(engine.current_state(), AppState::Running);
    assert_eq!(engine.world.entities.len(), 6);
    assert!(engine.world.entities.iter().all(|e| !e.collider));
    // Tick 2: the rule engine attaches physics.
    assert_eq!(engine.tick(), Ok(()));
    let w = &engine.world.entities;
    assert_eq!(w.len(), 8);
    // PlaneMesh gained a static collider, with Plane unchanged as parent.
    assert!(w[1].collider);
    assert_eq!(w[1].parent, Some(0));
    assert_eq!(w[1].body, None);
    // The Plane node itself is untouched.
    assert!(!w[0].collider);
    assert_eq!(w[0].parent, None);
    // Each cube mesh child gained a collider and a fresh rigid-body parent,
    // replacing the original linkage to CubeA / CubeB.
    assert!(w[3].collider);
    assert_eq!(w[3].parent, Some(6));
    assert!(w[5].collider);
    assert_eq!(w[5].parent, Some(7));
    for b in 6..8 {
        assert_eq!(w[b].body, Some(RigidBodyKind::Dynamic));
        assert!(w[b].has_transform);
        assert_eq!(w[b].name, None);
        assert_eq!(w[b].parent, None);
        assert!(!w[b].collider);
    }
    // The cube nodes themselves got no collider and no rigid body.
    assert!(!w[2].collider && !w[4].collider);
    assert_eq!(w[2].body, None);
}

#[test]
fn second_rule_engine_tick_changes_nothing() {
    let mut engine = engine_with(level_asset(), &[(1, true), (2, true), (3, true)]);
    assert_eq!(engine.tick(), Ok(()));
    assert_eq!(engine.tick(), Ok(()));
    let snapshot: Vec<_> = engine
        .world
        .entities
        .iter()
        .map(|e| (e.name.clone(), e.parent, e.mesh, e.collider, e.body, e.has_transform, e.fresh))
        .collect();
    for _ in 0..4 {
        assert_eq!(engine.tick(), Ok(()));
        let again: Vec<_> = engine
            .world
            .entities
            .iter()
            .map(
                |e| (e.name.clone(), e.parent, e.mesh, e.collider, e.body, e.has_transform, e.fresh),
            )
            .collect();
        // A node observed as new at one tick is never reprocessed later.
        assert_eq!(snapshot, again);
    }
}

#[test]
fn one_rigid_body_per_qualifying_child() {
    let asset = SceneAsset {
        default_scene: Some(SubScene {
            nodes: vec![
                node("CubeA", None, None),
                node("CubeAMeshOne", Some(0), Some(1)),
                node("CubeAMeshTwo", Some(0), Some(2)),
                node("CubeAMeshThree", Some(0), Some(3)),
                node("CubeADecoration", Some(0), None),
            ],
        }),
    };
    let mut engine = engine_with(asset, &[(1, true), (2, true), (3, true)]);
    assert_eq!(engine.tick(), Ok(()));
    assert_eq!(engine.tick(), Ok(()));
    let w = &engine.world.entities;
    // Three qualifying children: exactly three rigid bodies, one per child.
    assert_eq!(w.len(), 8);
    let mut body_parents: Vec<Option<usize>> = vec![w[1].parent, w[2].parent, w[3].parent];
    body_parents.sort();
    assert_eq!(body_parents, vec![Some(5), Some(6), Some(7)]);
    for b in 5..8 {
        assert_eq!(w[b].body, Some(RigidBodyKind::Dynamic));
    }
    // The mesh-less child is skipped: no collider, parent kept.
    assert!(!w[4].collider);
    assert_eq!(w[4].parent, Some(0));
}

#[test]
fn degenerate_mesh_is_skipped_without_blocking_siblings() {
    let asset = SceneAsset {
        default_scene: Some(SubScene {
            nodes: vec![
                node("Plane", None, None),
                node("PlaneMeshBad", Some(0), Some(1)),
                node("PlaneMeshGood", Some(0), Some(2)),
                node("CubeA", None, None),
                node("CubeAMeshBad", Some(3), Some(3)),
                node("CubeAMeshGood", Some(3), Some(4)),
            ],
        }),
    };
    // Meshes 1 and 3 are degenerate: the collision-shape builder fails.
    let mut engine = engine_with(asset, &[(1, false), (2, true), (3, false), (4, true)]);
    assert_eq!(engine.tick(), Ok(()));
    assert_eq!(engine.tick(), Ok(()));
    let w = &engine.world.entities;
    // The degenerate children are left with no collider and no reparenting.
    assert!(!w[1].collider);
    assert_eq!(w[1].parent, Some(0));
    assert!(!w[4].collider);
    assert_eq!(w[4].parent, Some(3));
    // Their siblings were still processed.
    assert!(w[2].collider);
    assert_eq!(w[2].parent, Some(0));
    assert!(w[5].collider);
    assert_eq!(w[5].parent, Some(6));
    assert_eq!(w.len(), 7);
    assert_eq!(w[6].body, Some(RigidBodyKind::Dynamic));
}

#[test]
fn asset_without_default_scene_is_fatal() {
    let mut engine = engine_with(SceneAsset { default_scene: None }, &[]);
    assert_eq!(engine.tick(), Err(Fatal::NoDefaultScene));
    // The engine is unchanged: still loading, nothing spawned.
    assert_eq!(engine.current_state(), AppState::Loading);
    assert_eq!(engine.world.entities.len(), 0);
}

#[test]
fn missing_mesh_data_is_fatal() {
    let asset = SceneAsset {
        default_scene: Some(SubScene {
            nodes: vec![node("CubeA", None, None), node("CubeAMesh", Some(0), Some(9))],
        }),
    };
    // Mesh 9 is referenced but absent from the store.
    let mut engine = engine_with(asset, &[(1, true)]);
    assert_eq!(engine.tick(), Ok(()));
    assert_eq!(engine.tick(), Err(Fatal::MissingMesh));
    // The fatal tick left the graph untouched.
    assert_eq!(engine.world.entities.len(), 2);
    assert!(!engine.world.entities[1].collider);
}

#[test]
fn instantiation_appends_with_shifted_parents() {
    let mut world = World::new();
    let first = SubScene { nodes: vec![node("Plane", None, None), node("PlaneMesh", Some(0), Some(1))] };
    let second = SubScene { nodes: vec![node("CubeA", None, None), node("CubeAMesh", Some(0), Some(2))] };
    world.instantiate(&first);
    world.instantiate(&second);
    let w = &world.entities;
    assert_eq!(w.len(), 4);
    assert_eq!(w[0].name.as_deref(), Some("Plane"));
    assert_eq!(w[1].parent, Some(0));
    assert_eq!(w[2].name.as_deref(), Some("CubeA"));
    // The second sub-scene's parent links are shifted past the first.
    assert_eq!(w[3].parent, Some(2));
    assert!(w.iter().all(|e| e.fresh && !e.collider && e.body.is_none() && e.has_transform));
}

#[test]
fn mesh_store_lookup_and_shadowing() {
    let mut store = MeshStore::new();
    assert_eq!(store.get(1), None);
    store.add_mesh(1, true);
    store.add_mesh(2, false);
    assert_eq!(store.get(1), Some(true));
    assert_eq!(store.get(2), Some(false));
    store.add_mesh(1, false);
    assert_eq!(store.get(1), Some(false));
}
