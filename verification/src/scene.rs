//! The data model: asset handles, the decoded scene asset with its default
//! sub-scene, and the mesh asset store.
//!
//! A render mesh is opaque geometry owned by the external asset store; the
//! only fact about it this subsystem ever reads is whether the external
//! collision-shape builder produces a shape for it. The store therefore
//! records, per mesh identity, that one outcome.

use vstd::prelude::*;

verus! {

/// An opaque handle to a requested, possibly not yet available, decoded
/// asset. Handle identity is stable for the process lifetime.
#[derive(Clone, Copy, Debug, PartialEq, Eq, Structural)]
pub struct Handle {
    pub id: u64,
}

/// The process-wide resource holding the handle of the one requested scene
/// asset.
pub struct Scene(pub Handle);

/// One node of a decoded, not yet instantiated, sub-scene graph: a name, an
/// optional link to an earlier node of the same sub-scene as its parent, and
/// an optional render-mesh reference.
#[derive(Debug, PartialEq, Eq)]
pub struct ProtoNode {
    pub name: String,
    pub parent: Option<usize>,
    pub mesh: Option<u64>,
}

/// A decoded sub-scene graph: a flat node list in which every parent link
/// points at an earlier node, so the graph is a forest.
pub struct SubScene {
    pub nodes: Vec<ProtoNode>,
}

/// Parent links only point backwards: the node list is in topological order.
pub open spec fn wf_subscene(nodes: Seq<ProtoNode>) -> bool {
    forall|i: int|
        0 <= i < nodes.len() ==> (#[trigger] nodes[i].parent matches Some(p) ==> p < i)
}

impl SubScene {
    pub open spec fn wf(&self) -> bool {
        wf_subscene(self.nodes@)
    }
}

/// The fully decoded scene asset. Immutable once produced; it either
/// designates a default sub-scene or it does not (an unrecoverable
/// configuration error for this application).
pub struct SceneAsset {
    pub default_scene: Option<SubScene>,
}

impl SceneAsset {
    pub open spec fn wf(&self) -> bool {
        self.default_scene matches Some(s) ==> s.wf()
    }
}

/// One mesh of the asset store, reduced to what this subsystem reads of it:
/// its identity, and whether the external triangle-mesh collider builder
/// yields a shape for it (construction fails for degenerate meshes).
#[derive(Clone, Copy, Debug, PartialEq, Eq, Structural)]
pub struct MeshEntry {
    pub id: u64,
    pub trimesh_builds: bool,
}

/// The process-wide mesh asset store, keyed by mesh identity. A later entry
/// for the same identity shadows an earlier one.
pub struct MeshStore {
    pub entries: Vec<MeshEntry>,
}

/// Look a mesh identity up in a store: the last entry with that identity
/// wins.
pub open spec fn lookup(s: Seq<MeshEntry>, id: u64) -> Option<bool>
    decreases s.len(),
{
    if s.len() == 0 {
        None
    } else if s.last().id == id {
        Some(s.last().trimesh_builds)
    } else {
        lookup(s.drop_last(), id)
    }
}

/// The store holds mesh `id`.
pub open spec fn store_has(s: Seq<MeshEntry>, id: u64) -> bool {
    lookup(s, id) is Some
}

/// The store holds mesh `id` and the collider builder succeeds on it.
pub open spec fn store_builds(s: Seq<MeshEntry>, id: u64) -> bool {
    lookup(s, id) == Some(true)
}

impl MeshStore {
    /// An empty mesh store.
    pub fn new() -> (r: MeshStore)
        ensures
            r.entries@ == Seq::<MeshEntry>::empty(),
    {
        MeshStore { entries: Vec::new() }
    }

    /// Record a decoded mesh and the outcome of collision-shape construction
    /// for it, shadowing any earlier entry with the same identity.
    pub fn add_mesh(&mut self, id: u64, trimesh_builds: bool)
        ensures
            final(self).entries@ == old(self).entries@.push(MeshEntry { id, trimesh_builds }),
            lookup(final(self).entries@, id) == Some(trimesh_builds),
            forall|other: u64|
                other != id ==> lookup(final(self).entries@, other) == lookup(
                    old(self).entries@,
                    other,
                ),
    {
        self.entries.push(MeshEntry { id, trimesh_builds });
        proof {
            assert(self.entries@.drop_last() =~= old(self).entries@);
        }
    }

    /// Fetch the recorded outcome for mesh `id`: `None` when the store does
    /// not hold the mesh.
    pub fn get(&self, id: u64) -> (r: Option<bool>)
        ensures
            r == lookup(self.entries@, id),
    {
        let mut i: usize = self.entries.len();
        proof {
            assert(self.entries@.subrange(0, i as int) =~= self.entries@);
        }
        while i > 0
            invariant
                i <= self.entries@.len(),
                lookup(self.entries@, id) == lookup(self.entries@.subrange(0, i as int), id),
            decreases i,
        {
            i = i - 1;
            let e = self.entries[i];
            proof {
                assert(self.entries@.subrange(0, i + 1).last() == self.entries@[i as int]);
                assert(self.entries@.subrange(0, i + 1).drop_last() =~= self.entries@.subrange(
                    0,
                    i as int,
                ));
            }
            if e.id == id {
                return Some(e.trimesh_builds);
            }
        }
        proof {
            assert(self.entries@.subrange(0, 0).len() == 0);
        }
        None
    }
}

} // verus!
