//! Classification and text-search behavior on concrete names.

use scene_physics::classify::{classify, Role};
use scene_physics::text::{contains_substr, str_eq};

#[test]
fn plane_exact_name_is_static() {
    assert_eq!(classify("Plane"), Role::Static);
}

#[test]
fn cube_variants_are_dynamic() {
    assert_eq!(classify("Cube"), Role::Dynamic);
    assert_eq!(classify("CubeA"), Role::Dynamic);
    assert_eq!(classify("CubeB"), Role::Dynamic);
    assert_eq!(classify("CubeC"), Role::Dynamic);
    assert_eq!(classify("MyCubeThing"), Role::Dynamic);
}

#[test]
fn plane_never_matches_dynamic_rule() {
    // Classification disjointness: the exact name "Plane" takes the static
    // rule even though the table is checked in priority order.
    assert_ne!(classify("Plane"), Role::Dynamic);
}

#[test]
fn unrelated_names_are_unclassified() {
    assert_eq!(classify(""), Role::Unclassified);
    assert_eq!(classify("PlaneMesh"), Role::Unclassified);
    assert_eq!(classify("Plan"), Role::Unclassified);
    assert_eq!(classify("plane"), Role::Unclassified);
    assert_eq!(classify("cube"), Role::Unclassified);
    assert_eq!(classify("Camera"), Role::Unclassified);
}

#[test]
fn substring_search_finds_needle() {
    assert!(contains_substr("CubeA", "Cube"));
    assert!(contains_substr("ACube", "Cube"));
    assert!(contains_substr("Cube", "Cube"));
    assert!(!contains_substr("Cub", "Cube"));
    assert!(!contains_substr("cube", "Cube"));
    assert!(!contains_substr("", "Cube"));
}

#[test]
fn substring_search_empty_needle_matches() {
    assert!(contains_substr("anything", ""));
    assert!(contains_substr("", ""));
}

#[test]
fn string_equality_is_exact() {
    assert!(str_eq("Plane", "Plane"));
    assert!(!str_eq("Plane", "plane"));
    assert!(!str_eq("Plane", "Plane "));
    assert!(!str_eq("", "Plane"));
    assert!(str_eq("", ""));
}
