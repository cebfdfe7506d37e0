use splot_sdwan::types::allow_from_ref::AllowFromRef;
use splot_sdwan::types::identifier::{Identifier, NestedIdentifier};
use splot_sdwan::types::ip::{Ipv4Addr, Ipv4Interface, Ipv4Network};
use splot_sdwan::types::mac::MacAddress;
use splot_sdwan::types::port::{PortOrRange, PortRange, ServicePort};
use splot_sdwan::types::wan_via_target::{WanViaTarget, WanViaTargets};
use splot_sdwan::types::config_location::{ClientLoc, ConfigLocation, NodeLoc, ZoneLoc};
use splot_sdwan::types::schema_helpers::OneOrManyUnique;
use splot_sdwan::validator::types::{ConfigPath, ValidationError, ValidationReport, ValidationWarning};

fn id(s: &str) -> Identifier {
    s.parse().unwrap()
}

fn home(l: NodeLoc) -> ConfigLocation {
    ConfigLocation::Node(id("Home"), l)
}

#[test]
fn identifier_error_messages() {
    assert_eq!("".parse::<Identifier>().unwrap_err().to_string(), "identifier is empty");
    assert_eq!("ab c".parse::<Identifier>().unwrap_err().to_string(), "invalid character ' ' at position 2");
    assert_eq!("spl_x".parse::<Identifier>().unwrap_err().to_string(), "identifier starts with reserved prefix \"spl_\"");
    assert_eq!(
        "Homelan".parse::<NestedIdentifier>().unwrap_err().to_string(),
        "missing '.' separator — qualified names have the form 'Node.Local'"
    );
    assert_eq!("Home.".parse::<NestedIdentifier>().unwrap_err().to_string(), "invalid local segment: identifier is empty");
    assert_eq!(
        "-x".parse::<AllowFromRef>().unwrap_err().to_string(),
        "invalid allowFrom reference: invalid character '-' at position 0"
    );
    assert_eq!(
        "a.b.c".parse::<WanViaTarget>().unwrap_err().to_string(),
        "invalid qualified wan target: too many '.' separators — qualified names have exactly two segments"
    );
    let dup = WanViaTargets::try_from_targets(OneOrManyUnique(vec!["Home".parse().unwrap(), "Home.lan".parse().unwrap()]))
        .unwrap_err();
    assert_eq!(dup.to_string(), "node 'Home' appears more than once — each node should appear at most once in wan.via");
}

#[test]
fn address_error_messages() {
    assert_eq!("aa:bb".parse::<MacAddress>().unwrap_err().to_string(), "expected 17 characters, got 5");
    assert_eq!("aa|bb|cc|dd|ee|ff".parse::<MacAddress>().unwrap_err().to_string(), "unexpected delimiter '|', should be either ':' or '-'");
    assert_eq!("aa:bb-cc:dd:ee:ff".parse::<MacAddress>().unwrap_err().to_string(), "mixed delimiters: started with ':' found '-'");
    assert_eq!("zz:bb:cc:dd:ee:ff".parse::<MacAddress>().unwrap_err().to_string(), "invalid hex digit 'z'");
    assert_eq!("10.0.0.1".parse::<Ipv4Network>().unwrap_err().to_string(), "missing '/' in: '10.0.0.1'");
    assert_eq!("10.0.0.1/33".parse::<Ipv4Network>().unwrap_err().to_string(), "invalid prefix 10.0.0.1/33: must be 0-32");
    assert_eq!(
        "10.0.0/8".parse::<Ipv4Network>().unwrap_err().to_string(),
        "invalid address '10.0.0/8': invalid IPv4 address syntax"
    );
    assert_eq!("10.0.0.1/8".parse::<Ipv4Network>().unwrap_err().to_string(), "10.0.0.1/8 is not a network address");
    assert_eq!(
        "10.0.0.0/8".parse::<Ipv4Interface>().unwrap_err().to_string(),
        "10.0.0.0/8 is a network address, expected host address"
    );
}

#[test]
fn port_error_messages() {
    assert_eq!("0".parse::<ServicePort>().unwrap_err().to_string(), "invalid port: port number cannot be 0");
    assert_eq!("".parse::<PortOrRange>().unwrap_err().to_string(), "invalid port: invalid port format: cannot parse integer from empty string");
    assert_eq!("x".parse::<PortOrRange>().unwrap_err().to_string(), "invalid port: invalid port format: invalid digit found in string");
    assert_eq!("70000".parse::<PortOrRange>().unwrap_err().to_string(), "invalid port: invalid port format: number too large to fit in target type");
    assert_eq!("80-22".parse::<PortOrRange>().unwrap_err().to_string(), "invalid port range: range is invalid, it should be {lower}-{higher}");
    assert_eq!("2280".parse::<PortRange>().unwrap_err().to_string(), "missing '-' in port range");
    assert_eq!(
        "1000-2000:3000-4500".parse::<ServicePort>().unwrap_err().to_string(),
        "both ranges should have same width: 1000-2000 and 3000-4500"
    );
    assert_eq!(
        "80:1000-2000".parse::<ServicePort>().unwrap_err().to_string(),
        "invalid translation: should never be port:range (80:1000-2000)"
    );
}

#[test]
fn validation_error_messages() {
    let e = ValidationError::GlobalNameCollision { name: id("Phone"), at: ConfigLocation::Client(id("Phone"), ClientLoc::Root) };
    assert_eq!(e.to_string(), "clients.Phone: name 'Phone' is already used as another global name (node, client, or tag)");
    let e = ValidationError::IpOutsideSubnet {
        ip: Ipv4Addr::new(10, 200, 0, 1),
        network: "10.100.0.0/24".parse().unwrap(),
        at: home(NodeLoc::MeshIp),
    };
    assert_eq!(e.to_string(), "nodes.Home.meshIp: IP 10.200.0.1 is outside subnet 10.100.0.0/24");
    let e = ValidationError::PublicKeyMissing { required_for_mesh: true, required_for_vpn_interface: true, at: home(NodeLoc::Root) };
    assert_eq!(e.to_string(), "nodes.Home: public key required (client has a mesh IP, client has a VPN interface IP)");
    let e = ValidationError::PublicKeyMissing { required_for_mesh: false, required_for_vpn_interface: true, at: home(NodeLoc::Root) };
    assert_eq!(e.to_string(), "nodes.Home: public key required (client has a VPN interface IP)");
    let e = ValidationError::PortCollision {
        port: "22-80".parse().unwrap(),
        at: home(NodeLoc::ListenPort),
        with: home(NodeLoc::Zone(id("lan"), ZoneLoc::Address)),
    };
    assert_eq!(e.to_string(), "nodes.Home.listenPort: port 22-80 collides with nodes.Home.zones.lan.address");
    let e = ValidationError::WanViaAmbiguous { node: id("Home"), candidates: vec![id("vpn_a"), id("vpn_b")], at: home(NodeLoc::WanZone) };
    assert_eq!(
        e.to_string(),
        "nodes.Home.wanZone: client is reachable via multiple VPN interfaces on node 'Home' (vpn_a, vpn_b). Use the qualified form (e.g. 'Home.vpn_a') to disambiguate"
    );
    let e = ValidationError::WanViaClientNotOnNetwork { node: id("Home"), network: id("lan"), at: home(NodeLoc::Root) };
    assert_eq!(
        e.to_string(),
        "nodes.Home: qualified wan target 'Home.lan' requires this client to have an IP at ips.Home.lan — none declared"
    );
    let e = ValidationError::UnknownRef { reference: AllowFromRef::SelfNode, at: home(NodeLoc::Root) };
    assert_eq!(e.to_string(), "nodes.Home: unknown identifier '$node'");
}

#[test]
fn validation_warning_messages() {
    let w = ValidationWarning::UnusedWanZone { at: home(NodeLoc::WanZone) };
    assert_eq!(
        w.to_string(),
        "nodes.Home.wanZone: wanZone is declared but no service exposes this node in 'wan.via' — either reference this node from a service's wan.via, or remove wanZone"
    );
    let w = ValidationWarning::UnreachableClient { at: ConfigLocation::Client(id("Ghost"), ClientLoc::Root) };
    assert_eq!(w.to_string(), "clients.Ghost: client has no IPs anywhere — nothing routes to it");
}

#[test]
fn config_path_rendering() {
    assert_eq!(ConfigPath::new(vec![]).to_string(), "<root>");
    let p = ConfigPath::new(vec![String::from("nodes"), String::from("Home")]);
    assert_eq!(p.to_string(), "nodes.Home");
    assert_eq!(p.extend(vec![String::from("meshIp")]).to_string(), "nodes.Home.meshIp");
}

#[test]
fn identifier_error_escapes_control_characters() {
    assert_eq!("a\tb".parse::<Identifier>().unwrap_err().to_string(), "invalid character '\\t' at position 1");
    assert_eq!("x'y".parse::<Identifier>().unwrap_err().to_string(), "invalid character '\\'' at position 1");
}

#[test]
fn report_sort_orders_by_path_segments_and_is_stable() {
    let mut r = ValidationReport::default();
    let a_b = ConfigLocation::Node(id("a-b"), NodeLoc::Root);
    let a_lan = home_like("a", "lan");
    let phone = ConfigLocation::Client(id("Phone"), ClientLoc::Root);
    r.errors.push(ValidationError::MacMissing { at: a_b.clone() });
    r.errors.push(ValidationError::NodeMissing { node_name: id("x"), at: a_lan.clone() });
    r.errors.push(ValidationError::MacMissing { at: a_lan.clone() });
    r.errors.push(ValidationError::MacMissing { at: phone.clone() });
    r.sort();
    let order: Vec<String> = r.errors.iter().map(|e| e.to_string()).collect();
    assert_eq!(
        order,
        vec![
            ValidationError::MacMissing { at: phone }.to_string(),
            ValidationError::NodeMissing { node_name: id("x"), at: a_lan.clone() }.to_string(),
            ValidationError::MacMissing { at: a_lan }.to_string(),
            ValidationError::MacMissing { at: a_b }.to_string(),
        ]
    );
}

fn home_like(node: &str, zone: &str) -> ConfigLocation {
    ConfigLocation::Node(id(node), NodeLoc::Zone(id(zone), ZoneLoc::Root))
}
