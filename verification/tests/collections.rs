use splot_sdwan::config::{Config, Node, WellFormed};
use splot_sdwan::entries::insert_entry;
use splot_sdwan::types::identifier::Identifier;
use splot_sdwan::types::ip::{Ipv4Addr, Ipv4Network};
use splot_sdwan::types::port::Port;
use splot_sdwan::types::schema_helpers::OneOrManyUnique;

fn id(s: &str) -> Identifier {
    s.parse().unwrap()
}

fn node(key: &str) -> Node {
    Node {
        public_key: key.to_string(),
        endpoint: "1.2.3.4".parse::<Ipv4Addr>().unwrap(),
        listen_port: "51820".parse::<Port>().unwrap(),
        mesh_ip: "10.100.0.1".parse::<Ipv4Addr>().unwrap(),
        vpn_interfaces: vec![],
        tags: OneOrManyUnique::from_vec(vec![]),
        services: vec![],
        zones: vec![],
        wan_zone: None,
    }
}

#[test]
fn from_vec_keeps_each_value_once_in_first_order() {
    let set = OneOrManyUnique::from_vec(vec![id("b"), id("a"), id("b"), id("c"), id("a")]);
    let names: Vec<&str> = set.items().iter().map(|i| i.as_str()).collect();
    assert_eq!(names, vec!["b", "a", "c"]);
    assert!(set.has_unique_values());
}

#[test]
fn has_unique_values_spots_a_repeated_value() {
    assert!(!OneOrManyUnique(vec![id("x"), id("y"), id("x")]).has_unique_values());
    assert!(OneOrManyUnique::<Identifier>::new().has_unique_values());
}

#[test]
fn insert_entry_replaces_an_existing_name_in_place() {
    let mut m: Vec<(Identifier, u32)> = Vec::new();
    assert_eq!(insert_entry(&mut m, id("a"), 1), None);
    assert_eq!(insert_entry(&mut m, id("b"), 2), None);
    assert_eq!(insert_entry(&mut m, id("a"), 3), Some(1));
    let pairs: Vec<(&str, u32)> = m.iter().map(|(k, v)| (k.as_str(), *v)).collect();
    assert_eq!(pairs, vec![("a", 3), ("b", 2)]);
}

#[test]
fn config_with_a_repeated_node_name_is_not_well_formed() {
    let mut config = Config {
        mesh_network: "10.100.0.0/24".parse::<Ipv4Network>().unwrap(),
        nodes: vec![(id("Home"), node("AAAA"))],
        clients: vec![],
    };
    assert!(config.is_well_formed());
    config.nodes.push((id("Home"), node("BBBB")));
    assert!(!config.is_well_formed());
}
