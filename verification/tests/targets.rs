use splot_sdwan::types::identifier::Identifier;
use splot_sdwan::types::schema_helpers::OneOrManyUnique;
use splot_sdwan::types::wan_via_target::{ParseWanViaTargetError, ParseWanViaTargetsError, WanViaTarget, WanViaTargets};
use splot_sdwan::types::zone_ref::ZoneRef;

fn target(s: &str) -> WanViaTarget {
    s.parse().unwrap()
}

fn id(s: &str) -> Identifier {
    s.parse().unwrap()
}

#[test]
fn target_bare_and_qualified() {
    let bare = target("Home");
    assert!(matches!(bare, WanViaTarget::Bare(_)));
    assert_eq!(bare.node().as_str(), "Home");
    let qualified = target("Home.lan");
    assert!(matches!(qualified, WanViaTarget::Qualified(_)));
    assert_eq!(qualified.node().as_str(), "Home");
}

#[test]
fn target_parse_errors() {
    assert!(matches!("".parse::<WanViaTarget>(), Err(ParseWanViaTargetError::InvalidIdentifier(_))));
    assert!(matches!("a.b.c".parse::<WanViaTarget>(), Err(ParseWanViaTargetError::InvalidNested(_))));
}

#[test]
fn targets_distinct_nodes_ok() {
    let set = OneOrManyUnique(vec![target("Home"), target("Cabin")]);
    let targets = WanViaTargets::try_from_targets(set).unwrap();
    assert_eq!(targets.iter().len(), 2);
    assert!(!targets.is_empty());
}

#[test]
fn targets_duplicate_node_rejected() {
    let set = OneOrManyUnique(vec![target("Home"), target("Home.lan")]);
    let err = WanViaTargets::try_from_targets(set).unwrap_err();
    assert!(matches!(err, ParseWanViaTargetsError::DuplicateNode { node } if node.as_str() == "Home"));
}

#[test]
fn targets_single() {
    let set = OneOrManyUnique(vec![target("Home")]);
    let targets = WanViaTargets::try_from_targets(set).unwrap();
    assert_eq!(targets.iter().len(), 1);
}

#[test]
fn target_renders_as_written() {
    assert_eq!(target("Home").to_string(), "Home");
    assert_eq!(target("Home.lan").to_string(), "Home.lan");
}

#[test]
fn mesh_renders_constant() {
    let z = ZoneRef::Mesh;
    assert_eq!(z.to_string(), splot_sdwan::consts::mesh_interface_name());
    assert_eq!(z.as_str(), splot_sdwan::consts::mesh_interface_name());
}

#[test]
fn named_renders_its_name() {
    let z = ZoneRef::Named(id("lan"));
    assert_eq!(z.to_string(), "lan");
    assert_eq!(z.as_str(), "lan");
}

#[test]
fn display_eq_as_ref() {
    for z in [ZoneRef::Mesh, ZoneRef::Named(id("guest"))] {
        assert_eq!(z.to_string(), z.as_str());
    }
}

#[test]
fn equality() {
    assert!(ZoneRef::Mesh.same(&ZoneRef::Mesh));
    assert!(ZoneRef::Named(id("lan")).same(&ZoneRef::Named(id("lan"))));
    assert!(!ZoneRef::Mesh.same(&ZoneRef::Named(id("lan"))));
    assert!(!ZoneRef::Named(id("lan")).same(&ZoneRef::Named(id("guest"))));
}
