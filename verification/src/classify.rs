//! Name-based node classification.
//!
//! The source scene format has no first-class tagging mechanism, so the only
//! out-of-band channel for "this node is physics-enabled" is the node name
//! authored in the scene-description tool. Classification is therefore a pure
//! string-matching policy, isolated here so the policy is swappable without
//! touching the attachment logic.

use vstd::prelude::*;

use crate::text::{contains_substr, has_substr, str_eq};

verus! {

/// The simulation role a scene node is classified into.
#[derive(Clone, Copy, Debug, PartialEq, Eq, Structural)]
pub enum Role {
    /// Static ground/environment geometry: colliders are attached directly to
    /// the node's mesh-bearing children.
    Static,
    /// Dynamic movable object: each mesh-bearing child gets its own rigid
    /// body as a new structural parent, plus a collider.
    Dynamic,
    /// No rule applies: the node is left untouched.
    Unclassified,
}

/// The classification rule table, checked in priority order, first match
/// wins: the exact name `"Plane"` is static geometry; any name containing
/// `"Cube"` is a dynamic object; everything else is unclassified.
pub open spec fn classify_spec(name: Seq<char>) -> Role {
    if name == "Plane"@ {
        Role::Static
    } else if has_substr(name, "Cube"@) {
        Role::Dynamic
    } else {
        Role::Unclassified
    }
}

/// Classify a node name against the rule table.
pub fn classify(name: &str) -> (r: Role)
    ensures
        r == classify_spec(name@),
{
    if str_eq(name, "Plane") {
        Role::Static
    } else if contains_substr(name, "Cube") {
        Role::Dynamic
    } else {
        Role::Unclassified
    }
}

} // verus!
