//! The live scene graph and the node-classification / physics-attachment
//! rule engine.
//!
//! Entities form a forest through parent links. Nodes enter the graph when a
//! decoded sub-scene is instantiated, marked fresh; the rule engine reacts
//! only to fresh named nodes, classifies each by name, derives collision
//! shapes for their mesh-bearing children from the mesh store, and either
//! attaches a collider in place (static geometry) or additionally spawns one
//! dynamic rigid-body entity per qualifying child and makes it that child's
//! new structural parent.

use vstd::prelude::*;

use crate::classify::{classify, classify_spec, Role};
use crate::scene::{store_builds, store_has, MeshEntry, MeshStore, ProtoNode, SubScene, wf_subscene};

verus! {

/// The kind of a physics rigid body.
#[derive(Clone, Copy, Debug, PartialEq, Eq, Structural)]
pub enum RigidBodyKind {
    Static,
    Dynamic,
}

/// A live entity of the instantiated scene graph: a scene node (named, with
/// an optional render-mesh reference) or a rigid-body entity spawned by the
/// rule engine (unnamed).
#[derive(Debug, PartialEq, Eq)]
pub struct Entity {
    /// The human-readable node name assigned by the asset; rigid-body
    /// entities have none.
    pub name: Option<String>,
    /// The structural parent, an index into the same graph.
    pub parent: Option<usize>,
    /// The render-mesh reference, an identity into the mesh store.
    pub mesh: Option<u64>,
    /// Whether a collision shape has been attached.
    pub collider: bool,
    /// The rigid-body component, for simulation-owned entities.
    pub body: Option<RigidBodyKind>,
    /// Whether the entity carries a spatial transform component; required on
    /// rigid bodies so physics-to-render transform propagation activates.
    pub has_transform: bool,
    /// Whether the entity is newly observed: it entered the graph and has
    /// not yet been seen by the rule engine.
    pub fresh: bool,
}

/// The live scene graph.
pub struct World {
    pub entities: Vec<Entity>,
}

impl View for World {
    type V = Seq<Entity>;

    open spec fn view(&self) -> Seq<Entity> {
        self.entities@
    }
}

/// Every parent link points inside the graph.
pub open spec fn wf_world(w: Seq<Entity>) -> bool {
    forall|i: int|
        0 <= i < w.len() ==> (#[trigger] w[i].parent matches Some(p) ==> p < w.len())
}

/// Entity `i` is a newly observed scene node: fresh and named.
pub open spec fn is_new_node(w: Seq<Entity>, i: int) -> bool {
    0 <= i < w.len() && w[i].fresh && w[i].name is Some
}

/// The role entity `i`'s name classifies into; unnamed entities match no
/// rule.
pub open spec fn node_role(w: Seq<Entity>, i: int) -> Role {
    match w[i].name {
        Some(n) => classify_spec(n@),
        None => Role::Unclassified,
    }
}

/// Entity `i` triggers an attachment strategy this tick: newly observed and
/// classified by the rule table.
pub open spec fn triggering(w: Seq<Entity>, i: int) -> bool {
    is_new_node(w, i) && node_role(w, i) != Role::Unclassified
}

/// Entity `c`'s structural parent triggers an attachment strategy this tick.
pub open spec fn parent_triggering(w: Seq<Entity>, c: int) -> bool {
    w[c].parent matches Some(p) && triggering(w, p as int)
}

/// Child `c` qualifies for attachment: its parent triggers, it carries a
/// render-mesh reference, and the collision-shape builder succeeds on that
/// mesh.
pub open spec fn child_qualifies(w: Seq<Entity>, s: Seq<MeshEntry>, c: int) -> bool {
    &&& 0 <= c < w.len()
    &&& parent_triggering(w, c)
    &&& (w[c].mesh matches Some(m) && store_builds(s, m))
}

/// Child `c` qualifies under the dynamic rigid-body strategy.
pub open spec fn child_dyn(w: Seq<Entity>, s: Seq<MeshEntry>, c: int) -> bool {
    child_qualifies(w, s, c) && node_role(w, w[c].parent->Some_0 as int) == Role::Dynamic
}

/// Every mesh reference the rule engine would look up this tick is present
/// in the store. A reference to absent mesh data is an inconsistent asset
/// store and fatal.
pub open spec fn store_complete(w: Seq<Entity>, s: Seq<MeshEntry>) -> bool {
    forall|c: int|
        #![trigger w[c]]
        0 <= c < w.len() && parent_triggering(w, c) && w[c].mesh is Some ==> store_has(
            s,
            w[c].mesh->Some_0,
        )
}

/// How many children with index below `c` qualify under the dynamic
/// strategy; the rigid body spawned for a qualifying child `c` sits at index
/// `w.len() + dyn_count(w, s, c)` of the post-tick graph.
pub open spec fn dyn_count(w: Seq<Entity>, s: Seq<MeshEntry>, c: int) -> nat
    decreases c,
{
    if c <= 0 {
        0
    } else {
        dyn_count(w, s, c - 1) + if child_dyn(w, s, c - 1) {
            1nat
        } else {
            0nat
        }
    }
}

/// A freshly spawned rigid-body entity: dynamic kind, default spatial
/// transform, no name, no parent, not treated as a newly observed node.
pub open spec fn body_entity() -> Entity {
    Entity {
        name: None,
        parent: None,
        mesh: None,
        collider: false,
        body: Some(RigidBodyKind::Dynamic),
        has_transform: true,
        fresh: false,
    }
}

/// The attachment pass over entity `i`, before fresh marks are consumed: a
/// qualifying child gains a collider, and under the dynamic strategy its
/// parent is replaced by the rigid body spawned for it.
pub open spec fn hook_node_attach(w: Seq<Entity>, s: Seq<MeshEntry>, i: int) -> Entity {
    Entity {
        collider: w[i].collider || child_qualifies(w, s, i),
        parent: if child_dyn(w, s, i) {
            Some((w.len() + dyn_count(w, s, i)) as usize)
        } else {
            w[i].parent
        },
        ..w[i]
    }
}

/// The full per-entity effect of one rule-engine tick on an entity that was
/// already in the graph: attachment, plus consuming the fresh mark of every
/// named node so it is never revisited.
pub open spec fn hook_node(w: Seq<Entity>, s: Seq<MeshEntry>, i: int) -> Entity {
    Entity { fresh: w[i].fresh && w[i].name is None, ..hook_node_attach(w, s, i) }
}

/// One rule-engine tick over the whole graph: every prior entity is updated
/// pointwise, and one rigid-body entity is appended per child qualifying
/// under the dynamic strategy, in child order.
pub open spec fn hook(w: Seq<Entity>, s: Seq<MeshEntry>) -> Seq<Entity> {
    Seq::new(w.len(), |i: int| hook_node(w, s, i)) + Seq::new(
        dyn_count(w, s, w.len() as int),
        |k: int| body_entity(),
    )
}

/// The entity a decoded sub-scene node materializes into when the sub-scene
/// is instantiated at offset `base`: named, fresh, parent link shifted into
/// the live graph, no physics components yet.
pub open spec fn inst_node(p: ProtoNode, base: int) -> Entity {
    Entity {
        name: Some(p.name),
        parent: match p.parent {
            Some(q) => Some((base + q) as usize),
            None => None,
        },
        mesh: p.mesh,
        collider: false,
        body: None,
        has_transform: true,
        fresh: true,
    }
}

/// The block of live entities a sub-scene materializes into at offset
/// `base`.
pub open spec fn instantiated(nodes: Seq<ProtoNode>, base: int) -> Seq<Entity> {
    Seq::new(nodes.len(), |i: int| inst_node(nodes[i], base))
}

/// At most one rigid body is counted per child.
pub proof fn lemma_dyn_count_le(w: Seq<Entity>, s: Seq<MeshEntry>, c: int)
    requires
        c >= 0,
    ensures
        dyn_count(w, s, c) <= c,
    decreases c,
{
    if c > 0 {
        lemma_dyn_count_le(w, s, c - 1);
    }
}

/// `dyn_count` is monotone in its bound.
pub proof fn lemma_dyn_count_mono(w: Seq<Entity>, s: Seq<MeshEntry>, a: int, b: int)
    requires
        0 <= a <= b,
    ensures
        dyn_count(w, s, a) <= dyn_count(w, s, b),
    decreases b - a,
{
    if a < b {
        lemma_dyn_count_mono(w, s, a + 1, b);
    }
}

impl World {
    /// An empty live scene graph.
    pub fn new() -> (r: World)
        ensures
            r@ == Seq::<Entity>::empty(),
    {
        World { entities: Vec::new() }
    }

    /// Instantiate a decoded sub-scene into the live graph, unmodified: its
    /// nodes are appended in order, parent links shifted, every node marked
    /// fresh.
    pub fn instantiate(&mut self, sub: &SubScene)
        requires
            wf_world(old(self)@),
            sub.wf(),
        ensures
            final(self)@ == old(self)@ + instantiated(sub.nodes@, old(self)@.len() as int),
            wf_world(final(self)@),
    {
        let base = self.entities.len();
        let n = sub.nodes.len();
        let mut i: usize = 0;
        proof {
            assert(self.entities@ =~= old(self)@ + instantiated(
                sub.nodes@.subrange(0, 0),
                base as int,
            ));
        }
        while i < n
            invariant
                wf_world(old(self)@),
                wf_subscene(sub.nodes@),
                base == old(self)@.len(),
                n == sub.nodes@.len(),
                i <= n,
                self.entities@ == old(self)@ + instantiated(
                    sub.nodes@.subrange(0, i as int),
                    base as int,
                ),
            decreases n - i,
        {
            let node = &sub.nodes[i];
            let cur = self.entities.len();
            proof {
                assert(cur == base + i);
                assert(sub.nodes@[i as int].parent matches Some(q) ==> q < i);
            }
            let name = node.name.clone();
            let parent = match node.parent {
                Some(q) => Some(base + q),
                None => None,
            };
            self.entities.push(
                Entity {
                    name: Some(name),
                    parent,
                    mesh: node.mesh,
                    collider: false,
                    body: None,
                    has_transform: true,
                    fresh: true,
                },
            );
            proof {
                assert(self.entities@ =~= old(self)@ + instantiated(
                    sub.nodes@.subrange(0, i + 1),
                    base as int,
                ));
            }
            i = i + 1;
        }
        proof {
            assert(sub.nodes@.subrange(0, n as int) =~= sub.nodes@);
            assert forall|j: int|
                0 <= j < final(self)@.len() implies (#[trigger] final(self)@[j].parent matches Some(
                p,
            ) ==> p < final(self)@.len()) by {
                if j >= base {
                    assert(final(self)@[j] == inst_node(sub.nodes@[j - base], base as int));
                }
            }
        }
    }

    /// One tick of the node-classification and physics-attachment rule
    /// engine.
    ///
    /// Every newly observed (fresh, named) node is classified by name; for
    /// each of its mesh-bearing children whose collision shape builds, a
    /// collider is attached to that child, and under the dynamic strategy a
    /// new rigid-body entity is spawned and becomes the child's structural
    /// parent. Children whose shape construction fails are silently skipped.
    /// Every named fresh node is consumed, so no node is ever revisited on a
    /// later tick.
    ///
    /// A mesh reference absent from the store is an inconsistent asset store;
    /// callers rule it out up front (see [`World::check_meshes`]) and treat
    /// it as fatal.
    pub fn mesh_hook(&mut self, store: &MeshStore)
        requires
            wf_world(old(self)@),
            old(self)@.len() <= usize::MAX / 2,
            store_complete(old(self)@, store.entries@),
        ensures
            final(self)@ == hook(old(self)@, store.entries@),
    {
        let ghost w0 = old(self)@;
        let ghost s = store.entries@;
        let old_len = self.entities.len();
        let mut c: usize = 0;
        while c < old_len
            invariant
                wf_world(w0),
                store_complete(w0, s),
                s == store.entries@,
                w0.len() <= usize::MAX / 2,
                old_len == w0.len(),
                c <= old_len,
                self.entities@.len() == old_len + dyn_count(w0, s, c as int),
                forall|j: int| 0 <= j < c ==> self.entities@[j] == hook_node_attach(w0, s, j),
                forall|j: int| c <= j < old_len ==> self.entities@[j] == w0[j],
                forall|k: int|
                    old_len <= k < self.entities@.len() ==> self.entities@[k] == body_entity(),
            decreases old_len - c,
        {
            proof {
                lemma_dyn_count_le(w0, s, c as int);
            }
            let e_parent = self.entities[c].parent;
            let e_mesh = self.entities[c].mesh;
            let mut role = Role::Unclassified;
            if let Some(p) = e_parent {
                proof {
                    assert(w0[c as int].parent matches Some(q) && q < w0.len());
                }
                if self.entities[p].fresh {
                    role = match &self.entities[p].name {
                        Some(n) => classify(n.as_str()),
                        None => Role::Unclassified,
                    };
                }
            }
            proof {
                assert(self.entities@[c as int] == w0[c as int]);
                match w0[c as int].parent {
                    Some(p) => {
                        let pi = p as int;
                        assert(0 <= pi < w0.len());
                        if pi < c {
                            assert(self.entities@[pi] == hook_node_attach(w0, s, pi));
                        } else {
                            assert(self.entities@[pi] == w0[pi]);
                        }
                        assert(self.entities@[pi].fresh == w0[pi].fresh);
                        assert(self.entities@[pi].name == w0[pi].name);
                    },
                    None => {},
                }
                assert((role != Role::Unclassified) == parent_triggering(w0, c as int));
                assert(role != Role::Unclassified ==> role == node_role(
                    w0,
                    w0[c as int].parent->Some_0 as int,
                ));
            }
            if role != Role::Unclassified {
                if let Some(m) = e_mesh {
                    proof {
                        assert(parent_triggering(w0, c as int) && w0[c as int].mesh == Some(m));
                        assert(store_has(s, m));
                    }
                    match store.get(m) {
                        Some(true) => {
                            self.entities[c].collider = true;
                            if role == Role::Dynamic {
                                let b = self.entities.len();
                                self.entities[c].parent = Some(b);
                                self.entities.push(
                                    Entity {
                                        name: None,
                                        parent: None,
                                        mesh: None,
                                        collider: false,
                                        body: Some(RigidBodyKind::Dynamic),
                                        has_transform: true,
                                        fresh: false,
                                    },
                                );
                                proof {
                                    assert(child_dyn(w0, s, c as int));
                                    assert(b == w0.len() + dyn_count(w0, s, c as int));
                                }
                            } else {
                                proof {
                                    assert(child_qualifies(w0, s, c as int));
                                    assert(!child_dyn(w0, s, c as int));
                                }
                            }
                        },
                        Some(false) => {
                            proof {
                                assert(!child_qualifies(w0, s, c as int));
                            }
                        },
                        None => {
                            proof {
                                assert(false);
                            }
                        },
                    }
                }
            }
            proof {
                assert(self.entities@[c as int] == hook_node_attach(w0, s, c as int));
                assert(self.entities@.len() == old_len + dyn_count(w0, s, c as int + 1));
            }
            c = c + 1;
        }
        let mut j: usize = 0;
        while j < old_len
            invariant
                old_len == w0.len(),
                s == store.entries@,
                j <= old_len,
                self.entities@.len() == old_len + dyn_count(w0, s, old_len as int),
                forall|t: int| 0 <= t < j ==> self.entities@[t] == hook_node(w0, s, t),
                forall|t: int| j <= t < old_len ==> self.entities@[t] == hook_node_attach(w0, s, t),
                forall|k: int|
                    old_len <= k < self.entities@.len() ==> self.entities@[k] == body_entity(),
            decreases old_len - j,
        {
            if self.entities[j].name.is_some() {
                self.entities[j].fresh = false;
            }
            proof {
                assert(self.entities@[j as int] == hook_node(w0, s, j as int));
            }
            j = j + 1;
        }
        proof {
            assert(self.entities@ =~= hook(w0, s));
        }
    }

    /// Whether every mesh reference the rule engine would look up this tick
    /// is present in the store: the guard for the fatal inconsistent-store
    /// condition.
    pub fn check_meshes(&self, store: &MeshStore) -> (r: bool)
        requires
            wf_world(self@),
        ensures
            r == store_complete(self@, store.entries@),
    {
        let len = self.entities.len();
        let mut c: usize = 0;
        while c < len
            invariant
                wf_world(self@),
                len == self@.len(),
                c <= len,
                forall|j: int|
                    #![trigger self@[j]]
                    0 <= j < c ==> !(parent_triggering(self@, j) && self@[j].mesh is Some
                        && !store_has(store.entries@, self@[j].mesh->Some_0)),
            decreases len - c,
        {
            let e_parent = self.entities[c].parent;
            let e_mesh = self.entities[c].mesh;
            let mut trig = false;
            if let Some(p) = e_parent {
                proof {
                    assert(self@[c as int].parent matches Some(q) && q < self@.len());
                }
                if self.entities[p].fresh {
                    let role = match &self.entities[p].name {
                        Some(n) => classify(n.as_str()),
                        None => Role::Unclassified,
                    };
                    trig = role != Role::Unclassified;
                }
            }
            proof {
                assert(trig == parent_triggering(self@, c as int));
            }
            if trig {
                if let Some(m) = e_mesh {
                    if store.get(m).is_none() {
                        return false;
                    }
                }
            }
            c = c + 1;
        }
        true
    }
}

} // verus!
