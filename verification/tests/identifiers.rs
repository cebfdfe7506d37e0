use splot_sdwan::consts::section_prefix;
use splot_sdwan::types::allow_from_ref::{AllowFromRef, ParseAllowFromRefError};
use splot_sdwan::types::identifier::{Identifier, NestedIdentifier, ParseIdentifierError, ParseNestedIdentifierError};

fn parse(s: &str) -> Result<Identifier, ParseIdentifierError> {
    s.parse::<Identifier>()
}

fn parse_nested(s: &str) -> Result<NestedIdentifier, ParseNestedIdentifierError> {
    s.parse::<NestedIdentifier>()
}

fn parse_ref(s: &str) -> Result<AllowFromRef, ParseAllowFromRefError> {
    s.parse()
}

#[test]
fn valid_identifiers() {
    for s in ["abc", "a-b_c", "Node1", "1abc", "A", "9"] {
        assert_eq!(parse(s).unwrap().as_str(), s);
    }
}

#[test]
fn empty_is_rejected() {
    assert!(matches!(parse(""), Err(ParseIdentifierError::Empty)));
}

#[test]
fn invalid_first_character() {
    for s in ["-abc", "_abc", ".abc"] {
        assert!(matches!(parse(s), Err(ParseIdentifierError::InvalidCharacter { position: 0, .. })));
    }
}

#[test]
fn invalid_middle_character_reports_position() {
    assert!(matches!(parse("ab c"), Err(ParseIdentifierError::InvalidCharacter { found: ' ', position: 2 })));
    assert!(matches!(parse("ab.c"), Err(ParseIdentifierError::InvalidCharacter { found: '.', position: 2 })));
}

#[test]
fn reserved_prefix_is_rejected() {
    match parse("spl_foo") {
        Err(ParseIdentifierError::ReservedPrefix { prefix }) => assert_eq!(prefix, section_prefix()),
        other => panic!("unexpected {:?}", other),
    }
    assert!(parse("spl").is_ok());
}

#[test]
fn display_and_into_string_roundtrip() {
    let id = parse("Home").unwrap();
    assert_eq!(id.to_string(), "Home");
    assert_eq!(id.into_string(), "Home");
}

#[test]
fn nested_valid() {
    let nested = parse_nested("Home.lan").unwrap();
    assert_eq!(nested.node.as_str(), "Home");
    assert_eq!(nested.local.as_str(), "lan");
    assert_eq!(nested.to_string(), "Home.lan");
}

#[test]
fn nested_missing_dot() {
    assert!(matches!(parse_nested("Homelan"), Err(ParseNestedIdentifierError::MissingDot)));
}

#[test]
fn nested_too_many_dots() {
    assert!(matches!(parse_nested("a.b.c"), Err(ParseNestedIdentifierError::TooManyDots)));
}

#[test]
fn nested_invalid_segments() {
    assert!(matches!(parse_nested("-bad.lan"), Err(ParseNestedIdentifierError::InvalidNode(_))));
    assert!(matches!(parse_nested("Home."), Err(ParseNestedIdentifierError::InvalidLocal(_))));
    assert!(matches!(parse_nested("spl_x.lan"), Err(ParseNestedIdentifierError::InvalidNode(_))));
}

#[test]
fn self_node_sentinel() {
    let r = parse_ref("$node").unwrap();
    assert!(matches!(r, AllowFromRef::SelfNode));
    assert_eq!(r.to_string(), "$node");
}

#[test]
fn bare_identifier() {
    let r = parse_ref("Home").unwrap();
    assert!(matches!(r, AllowFromRef::Bare(_)));
    assert_eq!(r.to_string(), "Home");
}

#[test]
fn nested_identifier() {
    let r = parse_ref("Home.lan").unwrap();
    assert!(matches!(r, AllowFromRef::Nested(_)));
    assert_eq!(r.to_string(), "Home.lan");
}

#[test]
fn nested_constructor() {
    let node: Identifier = "Home".parse().unwrap();
    let local: Identifier = "lan".parse().unwrap();
    let r = AllowFromRef::nested(node, local);
    assert_eq!(r.to_string(), "Home.lan");
}

#[test]
fn invalid_bare() {
    assert!(matches!(parse_ref(""), Err(ParseAllowFromRefError::InvalidIdentifier(_))));
    assert!(matches!(parse_ref("-bad"), Err(ParseAllowFromRefError::InvalidIdentifier(_))));
}

#[test]
fn invalid_nested() {
    assert!(matches!(parse_ref("a.b.c"), Err(ParseAllowFromRefError::InvalidNested(_))));
    assert!(matches!(parse_ref(".lan"), Err(ParseAllowFromRefError::InvalidNested(_))));
}

#[test]
fn display_roundtrip() {
    for s in ["$node", "Home", "Home.lan"] {
        assert_eq!(parse_ref(s).unwrap().to_string(), s);
    }
}

#[test]
fn identifier_same_compares_names() {
    assert!(parse("lan").unwrap().same(&parse("lan").unwrap()));
    assert!(!parse("lan").unwrap().same(&parse("Lan").unwrap()));
}

#[test]
fn identifier_from_string_checks_like_parse() {
    assert!(Identifier::from_string(String::from("guest")).is_ok());
    assert!(matches!(
        Identifier::from_string(String::from("a b")),
        Err(ParseIdentifierError::InvalidCharacter { found: ' ', position: 1 })
    ));
}
