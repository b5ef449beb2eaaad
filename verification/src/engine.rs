//! The per-tick pipeline: a scene-instantiation step gated on `Loading`, the
//! rule-engine step gated on `Running`, and the between-tick commit point
//! that applies queued lifecycle transitions. The commit point serializes
//! "instantiate scene" strictly before "attach physics to its nodes": the
//! transition requested by the instantiation step is observed only from the
//! next tick on, so the rule engine never races the instantiation step over
//! a graph spawned moments earlier.

use vstd::prelude::*;

use crate::lifecycle::{apply_spec, request_spec, AppState, Lifecycle};
use crate::registry::Registry;
use crate::scene::{MeshEntry, MeshStore, Scene, SceneAsset};
use crate::world::{
    hook, instantiated, store_complete, wf_world, Entity, World,
};

verus! {

/// An unrecoverable condition: the process cannot proceed and is expected to
/// abort.
#[derive(Clone, Copy, Debug, PartialEq, Eq, Structural)]
pub enum Fatal {
    /// The decoded asset designates no default sub-scene: a configuration
    /// error in the asset.
    NoDefaultScene,
    /// A node references mesh data absent from the asset store: the store is
    /// inconsistent.
    MissingMesh,
}

/// The mathematical state of the engine at a tick boundary: the lifecycle
/// controller, the decoded asset a poll would currently surface, the live
/// scene graph, and the mesh store contents.
pub struct EngineModel {
    pub lifecycle: Lifecycle,
    pub asset: Option<SceneAsset>,
    pub world: Seq<Entity>,
    pub meshes: Seq<MeshEntry>,
}

/// The fatal condition the next tick would hit, if any: an available asset
/// without a default sub-scene while loading, or an incomplete mesh store
/// while running.
pub open spec fn fatal_of(e: EngineModel) -> Option<Fatal> {
    if e.lifecycle.current == AppState::Loading {
        if e.asset matches Some(a) && a.default_scene is None {
            Some(Fatal::NoDefaultScene)
        } else {
            None
        }
    } else {
        if store_complete(e.world, e.meshes) {
            None
        } else {
            Some(Fatal::MissingMesh)
        }
    }
}

/// One non-fatal tick: while `Loading`, poll; once the asset is available,
/// instantiate its default sub-scene and queue the transition to `Running`.
/// While `Running`, run the rule engine. Either way, end at the commit point
/// that applies the queued transition.
pub open spec fn tick_spec(e: EngineModel) -> EngineModel {
    if e.lifecycle.current == AppState::Loading {
        match e.asset {
            Some(a) => EngineModel {
                lifecycle: apply_spec(request_spec(e.lifecycle, AppState::Running)),
                world: e.world + instantiated(
                    a.default_scene->Some_0.nodes@,
                    e.world.len() as int,
                ),
                ..e
            },
            None => EngineModel { lifecycle: apply_spec(e.lifecycle), ..e },
        }
    } else {
        EngineModel {
            lifecycle: apply_spec(e.lifecycle),
            world: hook(e.world, e.meshes),
            ..e
        }
    }
}

/// Everything the engine relies on across ticks: parent links stay inside
/// the graph, and a decoded asset's sub-scene is topologically ordered.
pub open spec fn wf_engine(e: EngineModel) -> bool {
    &&& wf_world(e.world)
    &&& (e.asset matches Some(a) ==> a.wf())
}

/// The whole application, minus its external collaborators: lifecycle,
/// asset registry, the handle resource, the live scene graph and the mesh
/// store.
pub struct Engine {
    pub lifecycle: Lifecycle,
    pub scene: Scene,
    pub registry: Registry,
    pub world: World,
    pub meshes: MeshStore,
}

impl View for Engine {
    type V = EngineModel;

    open spec fn view(&self) -> EngineModel {
        EngineModel {
            lifecycle: self.lifecycle,
            asset: if self.registry.issued == Some(self.scene.0) {
                self.registry.loaded
            } else {
                None
            },
            world: self.world@,
            meshes: self.meshes.entries@,
        }
    }
}

impl Engine {
    /// Start-up: issue the one asset load request for `path` and hold its
    /// handle as the scene resource. Everything else is empty and the
    /// lifecycle starts in `Loading`.
    pub fn new(path: String) -> (r: Engine)
        ensures
            r@.lifecycle.current == AppState::Loading,
            r@.lifecycle.pending is None,
            r@.asset is None,
            r@.world == Seq::<Entity>::empty(),
            r@.meshes == Seq::<MeshEntry>::empty(),
            r.registry.path == Some(path),
            r.registry.issued == Some(r.scene.0),
            wf_engine(r@),
    {
        let mut registry = Registry::new();
        let handle = registry.request(path);
        Engine {
            lifecycle: Lifecycle::new(),
            scene: Scene(handle),
            registry,
            world: World::new(),
            meshes: MeshStore::new(),
        }
    }

    /// The scene-instantiation step, active while `Loading`: poll the
    /// registry; if the decoded asset is not yet available, do nothing and
    /// let the next tick retry. Once available, extract the default
    /// sub-scene (fatally absent: `NoDefaultScene`), instantiate it into the
    /// live graph unmodified, and queue the transition to `Running`.
    pub fn spawn_level(&mut self) -> (r: Result<(), Fatal>)
        requires
            wf_engine(old(self)@),
            old(self)@.lifecycle.current == AppState::Loading,
        ensures
            match r {
                Ok(()) => {
                    &&& fatal_of(old(self)@) is None
                    &&& final(self)@.lifecycle == (match old(self)@.asset {
                        Some(_) => request_spec(old(self)@.lifecycle, AppState::Running),
                        None => old(self)@.lifecycle,
                    })
                    &&& final(self)@.world == (match old(self)@.asset {
                        Some(a) => old(self)@.world + instantiated(
                            a.default_scene->Some_0.nodes@,
                            old(self)@.world.len() as int,
                        ),
                        None => old(self)@.world,
                    })
                    &&& final(self)@.asset == old(self)@.asset
                    &&& final(self)@.meshes == old(self)@.meshes
                    &&& wf_engine(final(self)@)
                },
                Err(f) => fatal_of(old(self)@) == Some(f) && *final(self) == *old(self),
            },
    {
        let polled = self.registry.poll(&self.scene.0);
        match polled {
            Some(asset) => {
                match &asset.default_scene {
                    Some(sub) => {
                        self.world.instantiate(sub);
                        self.lifecycle.request_transition(AppState::Running);
                        Ok(())
                    },
                    None => Err(Fatal::NoDefaultScene),
                }
            },
            None => Ok(()),
        }
    }

    /// One tick of the fixed update loop: the `Loading`-gated instantiation
    /// step or the `Running`-gated rule-engine step, then the between-tick
    /// commit point. A fatal condition aborts the tick with the engine
    /// unchanged; the process is expected to terminate on it.
    pub fn tick(&mut self) -> (r: Result<(), Fatal>)
        requires
            wf_engine(old(self)@),
            old(self)@.world.len() <= usize::MAX / 2,
        ensures
            match r {
                Ok(()) => {
                    &&& fatal_of(old(self)@) is None
                    &&& final(self)@ == tick_spec(old(self)@)
                    &&& wf_engine(final(self)@)
                },
                Err(f) => fatal_of(old(self)@) == Some(f) && *final(self) == *old(self),
            },
    {
        match self.lifecycle.current() {
            AppState::Loading => {
                let r = self.spawn_level();
                match r {
                    Ok(()) => {},
                    Err(f) => {
                        return Err(f);
                    },
                }
            },
            AppState::Running => {
                if !self.world.check_meshes(&self.meshes) {
                    return Err(Fatal::MissingMesh);
                }
                self.world.mesh_hook(&self.meshes);
                proof {
                    crate::laws::lemma_hook_preserves_wf(
                        old(self)@.world,
                        old(self)@.meshes,
                    );
                }
            },
        }
        self.lifecycle.apply_pending();
        Ok(())
    }

    /// The currently observable lifecycle state.
    pub fn current_state(&self) -> (r: AppState)
        ensures
            r == self@.lifecycle.current,
    {
        self.lifecycle.current()
    }
}

} // verus!
