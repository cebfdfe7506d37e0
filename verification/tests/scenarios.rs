use serde_yml::{Mapping, Value};

use splot_sdwan::config::{
    Client, Config, Node, NodeVpnInterface, NodeVpnInterfaceClient, NodeZone, NodeZoneDevice, Service, ServiceWan,
    WanResolveError, ZoneOrVpnInterface,
};
use splot_sdwan::managers::firewall::redirect::{get_firewall_redirects, FirewallRedirect};
use splot_sdwan::managers::firewall::rules::{get_firewall_egress_rules, get_firewall_ingress_rules, FirewallRule};
use splot_sdwan::managers::firewall::tag_resolution::{build_tags_resolution_map, networks_for};
use splot_sdwan::managers::firewall::types::{FirewallAction, TagBinding};
use splot_sdwan::managers::firewall::zones::{get_firewall_zones, FirewallZone};
use splot_sdwan::managers::network::NetworkManager;
use splot_sdwan::protocol::Protocol;
use splot_sdwan::types::allow_from_ref::AllowFromRef;
use splot_sdwan::types::identifier::Identifier;
use splot_sdwan::types::ip::{Ipv4Addr, Ipv4Interface, Ipv4Network};
use splot_sdwan::types::port::{Port, ServicePort};
use splot_sdwan::types::schema_helpers::{OneOrManyUnique, SameValue};
use splot_sdwan::types::wan_via_target::{WanViaTarget, WanViaTargets};
use splot_sdwan::types::zone_ref::ZoneRef;
use splot_sdwan::uci::UciBatchCommand;
use splot_sdwan::validator::types::{ValidationError, ValidationReport, ValidationWarning};
use splot_sdwan::validator::validate_config;

// ── reading a configuration written in YAML ────────────────────────────────

fn scalar(v: &Value) -> String {
    match v {
        Value::String(s) => s.clone(),
        Value::Number(n) => n.to_string(),
        Value::Bool(b) => b.to_string(),
        other => panic!("expected a scalar, got {:?}", other),
    }
}

fn field<'a>(m: &'a Mapping, key: &str) -> Option<&'a Value> {
    match m.get(key) {
        None | Some(Value::Null) => None,
        Some(v) => Some(v),
    }
}

fn req<'a>(m: &'a Mapping, key: &str) -> &'a Value {
    field(m, key).unwrap_or_else(|| panic!("missing field {key}"))
}

fn mapping(v: &Value) -> &Mapping {
    v.as_mapping().expect("expected a mapping")
}

fn entries(v: Option<&Value>) -> Vec<(Identifier, &Value)> {
    match v {
        None => Vec::new(),
        Some(v) => mapping(v).iter().map(|(k, v)| (id(k), v)).collect(),
    }
}

fn many(v: Option<&Value>) -> Vec<String> {
    let items: Vec<String> = match v {
        None => Vec::new(),
        Some(Value::Sequence(s)) => s.iter().map(scalar).collect(),
        Some(other) => vec![scalar(other)],
    };
    let mut out: Vec<String> = Vec::new();
    for i in items {
        if !out.contains(&i) {
            out.push(i);
        }
    }
    out
}

fn one_or_many<T: SameValue>(v: Option<&Value>, f: impl Fn(&str) -> T) -> OneOrManyUnique<T> {
    OneOrManyUnique::from_vec(many(v).iter().map(|s| f(s)).collect())
}

fn protocol(s: &str) -> Protocol {
    match s {
        "tcp" => Protocol::Tcp,
        "udp" => Protocol::Udp,
        "icmp" => Protocol::Icmp,
        other => panic!("unknown protocol {other}"),
    }
}

fn service(v: &Value) -> Service {
    let m = mapping(v);
    Service {
        port: scalar(req(m, "port")).parse::<ServicePort>().unwrap(),
        proto: one_or_many(field(m, "proto"), protocol),
        allow_from: one_or_many(field(m, "allowFrom"), |s| s.parse::<AllowFromRef>().unwrap()),
        wan: field(m, "wan").map(|w| {
            let wm = mapping(w);
            ServiceWan {
                via: WanViaTargets::try_from_targets(one_or_many(Some(req(wm, "via")), |s| {
                    s.parse::<WanViaTarget>().unwrap()
                }))
                .unwrap(),
                sources: one_or_many(field(wm, "sources"), |s| s.parse::<Ipv4Network>().unwrap()),
            }
        }),
    }
}

fn services(v: Option<&Value>) -> Vec<(Identifier, Service)> {
    entries(v).into_iter().map(|(k, v)| (k, service(v))).collect()
}

fn addr(v: &Value) -> Ipv4Addr {
    scalar(v).parse().unwrap()
}

fn tags(m: &Mapping) -> OneOrManyUnique<Identifier> {
    one_or_many(field(m, "tags"), id)
}

fn device(v: &Value) -> NodeZoneDevice {
    let m = mapping(v);
    NodeZoneDevice {
        ip: addr(req(m, "ip")),
        macs: one_or_many(field(m, "macs"), |s| s.parse().unwrap()),
        tags: tags(m),
        services: services(field(m, "services")),
    }
}

fn zone(v: &Value) -> NodeZone {
    let m = mapping(v);
    NodeZone {
        address: scalar(req(m, "address")).parse::<Ipv4Interface>().unwrap(),
        devices: entries(field(m, "devices")).into_iter().map(|(k, v)| (k, device(v))).collect(),
        tags: tags(m),
    }
}

fn peer(v: &Value) -> NodeVpnInterfaceClient {
    let m = mapping(v);
    NodeVpnInterfaceClient {
        public_key: scalar(req(m, "publicKey")),
        ip: addr(req(m, "ip")),
        tags: tags(m),
        services: services(field(m, "services")),
    }
}

fn vpn(v: &Value) -> NodeVpnInterface {
    let m = mapping(v);
    NodeVpnInterface {
        listen_port: scalar(req(m, "listenPort")).parse::<Port>().unwrap(),
        address: scalar(req(m, "address")).parse::<Ipv4Interface>().unwrap(),
        clients: entries(field(m, "clients")).into_iter().map(|(k, v)| (k, peer(v))).collect(),
        tags: tags(m),
    }
}

fn node(v: &Value) -> Node {
    let m = mapping(v);
    Node {
        public_key: scalar(req(m, "publicKey")),
        endpoint: addr(req(m, "endpoint")),
        listen_port: scalar(req(m, "listenPort")).parse::<Port>().unwrap(),
        mesh_ip: addr(req(m, "meshIp")),
        vpn_interfaces: entries(field(m, "vpnInterfaces")).into_iter().map(|(k, v)| (k, vpn(v))).collect(),
        tags: tags(m),
        services: services(field(m, "services")),
        zones: entries(field(m, "zones")).into_iter().map(|(k, v)| (k, zone(v))).collect(),
        wan_zone: field(m, "wanZone").map(|v| id(&scalar(v))),
    }
}

fn client(v: &Value) -> Client {
    let m = mapping(v);
    Client {
        mesh_ip: field(m, "meshIp").map(addr),
        public_key: field(m, "publicKey").map(scalar),
        macs: one_or_many(field(m, "macs"), |s| s.parse().unwrap()),
        ips: entries(field(m, "ips"))
            .into_iter()
            .map(|(k, v)| (k, entries(Some(v)).into_iter().map(|(n, ip)| (n, addr(ip))).collect()))
            .collect(),
        services: services(field(m, "services")),
        tags: tags(m),
    }
}

fn config(yaml: &str) -> Config {
    let doc: Value = serde_yml::from_str(yaml).expect("test fixture YAML failed to parse");
    let m = mapping(&doc);
    Config {
        mesh_network: scalar(req(m, "meshNetwork")).parse().unwrap(),
        nodes: entries(field(m, "nodes")).into_iter().map(|(k, v)| (k, node(v))).collect(),
        clients: entries(field(m, "clients")).into_iter().map(|(k, v)| (k, client(v))).collect(),
    }
}

fn id(s: &str) -> Identifier {
    s.parse().unwrap()
}

fn net(s: &str) -> Ipv4Network {
    s.parse().unwrap()
}

fn has_cmd(cmds: &[UciBatchCommand], s: &str) -> bool {
    cmds.iter().any(|c| c.to_string().contains(s))
}

fn report(yaml: &str) -> ValidationReport {
    validate_config(&config(yaml))
}

fn has_error(r: &ValidationReport, f: impl Fn(&ValidationError) -> bool) -> bool {
    r.errors.iter().any(f)
}

fn has_warning(r: &ValidationReport, f: impl Fn(&ValidationWarning) -> bool) -> bool {
    r.warnings.iter().any(f)
}

fn lookup<'a, T>(m: &'a [(Identifier, T)], name: &str) -> &'a T {
    &m.iter().find(|(k, _)| k.as_str() == name).expect("entry missing").1
}

// ── resolving a client behind a node ───────────────────────────────────────

const RESOLUTION_FIXTURE: &str = "
meshNetwork: 10.100.0.0/24
nodes:
  Home:
    publicKey: AAAA
    endpoint: 1.2.3.4
    listenPort: 51820
    meshIp: 10.100.0.1
    zones:
      lan:
        address: 192.168.1.1/24
    vpnInterfaces:
      vpn_a:
        listenPort: 51821
        address: 10.8.1.1/24
        clients: {}
      vpn_b:
        listenPort: 51822
        address: 10.8.2.1/24
        clients: {}
clients:
  PhoneWithMesh:
    meshIp: 10.100.0.100
    ips:
      Home:
        lan: 192.168.1.50
  ZoneOnly:
    ips:
      Home:
        lan: 192.168.1.60
  VpnSingle:
    ips:
      Home:
        vpn_a: 10.8.1.10
  VpnAmbig:
    ips:
      Home:
        vpn_a: 10.8.1.20
        vpn_b: 10.8.2.20
  Nowhere: {}
";

fn bare(s: &str) -> WanViaTarget {
    s.parse().unwrap()
}

fn qualified(node: &str, local: &str) -> WanViaTarget {
    format!("{node}.{local}").parse().unwrap()
}

struct Fixture {
    cfg: Config,
}

impl Fixture {
    fn load() -> Self {
        Fixture { cfg: config(RESOLUTION_FIXTURE) }
    }
    fn home(&self) -> &Node {
        lookup(&self.cfg.nodes, "Home")
    }
    fn client(&self, name: &str) -> &Client {
        lookup(&self.cfg.clients, name)
    }
}

#[test]
fn bare_meship_wins_over_zone_ip() {
    let f = Fixture::load();
    let res = f.client("PhoneWithMesh").resolve_wan_target(&bare("Home"), f.home()).unwrap();
    assert_eq!(res.dest_ip.to_string(), "10.100.0.100");
    assert!(res.dest_zone.same(&ZoneRef::Mesh));
}

#[test]
fn bare_zone_ip_when_no_mesh() {
    let f = Fixture::load();
    let res = f.client("ZoneOnly").resolve_wan_target(&bare("Home"), f.home()).unwrap();
    assert_eq!(res.dest_ip.to_string(), "192.168.1.60");
    assert!(res.dest_zone.same(&ZoneRef::Named(id("lan"))));
}

#[test]
fn bare_single_vpn_ip_when_no_mesh_no_zone() {
    let f = Fixture::load();
    let res = f.client("VpnSingle").resolve_wan_target(&bare("Home"), f.home()).unwrap();
    assert_eq!(res.dest_ip.to_string(), "10.8.1.10");
    assert!(res.dest_zone.same(&ZoneRef::Named(id("vpn_a"))));
}

#[test]
fn bare_ambiguous_vpn_returns_error() {
    let f = Fixture::load();
    let err = f.client("VpnAmbig").resolve_wan_target(&bare("Home"), f.home()).unwrap_err();
    assert!(matches!(err, WanResolveError::AmbiguousVpn { candidates } if candidates.len() == 2));
}

#[test]
fn bare_unreachable_when_no_ips_on_node() {
    let f = Fixture::load();
    let err = f.client("Nowhere").resolve_wan_target(&bare("Home"), f.home()).unwrap_err();
    assert!(matches!(err, WanResolveError::Unreachable));
}

#[test]
fn qualified_zone_network_resolves() {
    let f = Fixture::load();
    let res = f.client("ZoneOnly").resolve_wan_target(&qualified("Home", "lan"), f.home()).unwrap();
    assert_eq!(res.dest_ip.to_string(), "192.168.1.60");
    assert!(res.dest_zone.same(&ZoneRef::Named(id("lan"))));
}

#[test]
fn qualified_vpn_network_resolves() {
    let f = Fixture::load();
    let via = qualified("Home", "vpn_a");
    let res = f.client("VpnAmbig").resolve_wan_target(&via, f.home()).unwrap();
    assert_eq!(res.dest_ip.to_string(), "10.8.1.20");
    assert!(res.dest_zone.same(&ZoneRef::Named(id("vpn_a"))));
}

#[test]
fn qualified_missing_network_on_node() {
    let f = Fixture::load();
    let err = f.client("ZoneOnly").resolve_wan_target(&qualified("Home", "missing_net"), f.home()).unwrap_err();
    assert!(matches!(err, WanResolveError::QualifiedNetworkMissing { network } if network.same(&id("missing_net"))));
}

#[test]
fn qualified_client_not_on_network() {
    let f = Fixture::load();
    let err = f.client("ZoneOnly").resolve_wan_target(&qualified("Home", "vpn_a"), f.home()).unwrap_err();
    assert!(matches!(err, WanResolveError::QualifiedClientNotOnNetwork { network } if network.same(&id("vpn_a"))));
}

#[test]
fn node_network_by_name_zone() {
    let f = Fixture::load();
    assert!(matches!(f.home().network_by_name(&id("lan")), Some(ZoneOrVpnInterface::Zone(_))));
}

#[test]
fn node_network_by_name_vpn() {
    let f = Fixture::load();
    assert!(matches!(f.home().network_by_name(&id("vpn_a")), Some(ZoneOrVpnInterface::VpnInterface(_))));
}

#[test]
fn node_network_by_name_missing() {
    let f = Fixture::load();
    assert!(f.home().network_by_name(&id("nonexistent")).is_none());
}

#[test]
fn client_network_by_name_hit() {
    let f = Fixture::load();
    let ip = f.client("ZoneOnly").network_by_name(&id("Home"), &id("lan")).unwrap();
    assert_eq!(ip.to_string(), "192.168.1.60");
}

#[test]
fn client_network_by_name_miss() {
    let f = Fixture::load();
    assert!(f.client("Nowhere").network_by_name(&id("Home"), &id("lan")).is_none());
}

#[test]
fn node_network_for_ip_finds_first_holder() {
    let f = Fixture::load();
    let (name, iface) = f.home().network_for_ip("10.8.2.7".parse().unwrap()).unwrap();
    assert_eq!(name.as_str(), "vpn_b");
    assert_eq!(iface.to_string(), "10.8.2.1/24");
    assert!(f.home().network_for_ip("172.16.0.1".parse().unwrap()).is_none());
}

#[test]
fn node_address_lists_zones_then_vpns() {
    let f = Fixture::load();
    let addrs: Vec<String> = f.home().addresses().iter().map(|a| a.to_string()).collect();
    assert_eq!(addrs, vec!["192.168.1.1/24", "10.8.1.1/24", "10.8.2.1/24"]);
    let nets: Vec<String> = f.home().networks().iter().map(|a| a.to_string()).collect();
    assert_eq!(nets, vec!["192.168.1.0/24", "10.8.1.0/24", "10.8.2.0/24"]);
    let hosts: Vec<String> = f.home().host_interfaces().iter().map(|a| a.to_string()).collect();
    assert_eq!(hosts, vec!["10.100.0.1/32", "192.168.1.1/24", "10.8.1.1/24", "10.8.2.1/24"]);
}

#[test]
fn find_node_by_public_key() {
    let f = Fixture::load();
    assert_eq!(f.cfg.find_node_name_by_public_key("AAAA").unwrap().as_str(), "Home");
    assert!(f.cfg.find_node_name_by_public_key("ZZZZ").is_none());
}

// ── network manager ────────────────────────────────────────────────────────

const NETWORK_FIXTURE: &str = "
meshNetwork: 10.100.0.0/24
nodes:
  Home:
    publicKey: AAAA
    endpoint: 1.2.3.4
    listenPort: 51820
    meshIp: 10.100.0.1
    vpnInterfaces:
      vpn_a:
        listenPort: 51821
        address: 10.8.1.1/24
        clients: {}
  Cabin:
    publicKey: CCCC
    endpoint: 5.6.7.8
    listenPort: 51820
    meshIp: 10.100.0.2
    zones:
      lan:
        address: 192.168.2.1/24
";

fn network_cmds() -> Vec<UciBatchCommand> {
    let cfg = config(NETWORK_FIXTURE);
    let manager = NetworkManager { private_key: String::from("SECRET-REDACTED") };
    assert!(manager.is_ready(&cfg, &id("Home")));
    manager.generate_commands(&cfg, &id("Home"))
}

#[test]
fn mesh_interface_section_present() {
    assert!(has_cmd(&network_cmds(), "network.spl_mesh='interface'"));
}

#[test]
fn mesh_interface_has_wireguard_proto() {
    assert!(has_cmd(&network_cmds(), "spl_mesh.proto='wireguard'"));
}

#[test]
fn remote_node_peer_section_present() {
    assert!(has_cmd(&network_cmds(), "network.spl_Cabin='wireguard_spl_mesh'"));
}

#[test]
fn vpn_interface_section_present() {
    assert!(has_cmd(&network_cmds(), "network.spl_vpn_a='interface'"));
}

#[test]
fn network_manager_uses_the_given_private_key() {
    assert!(has_cmd(&network_cmds(), "spl_mesh.private_key='SECRET-REDACTED'"));
}

// ── firewall zones ─────────────────────────────────────────────────────────

const ZONES_FIXTURE: &str = "
meshNetwork: 10.100.0.0/24
nodes:
  Home:
    publicKey: AAAA
    endpoint: 1.2.3.4
    listenPort: 51820
    meshIp: 10.100.0.1
    zones:
      lan:
        address: 192.168.1.1/24
    vpnInterfaces:
      vpn_a:
        listenPort: 51821
        address: 10.8.1.1/24
        clients: {}
";

fn zones() -> Vec<FirewallZone> {
    get_firewall_zones(&config(ZONES_FIXTURE), &id("Home"))
}

#[test]
fn mesh_zone_always_present() {
    assert!(zones().iter().any(|z| z.name == "mesh"));
}

#[test]
fn mesh_zone_network_is_spl_mesh() {
    let z = zones();
    let mesh = z.iter().find(|z| z.name == "mesh").unwrap();
    assert_eq!(mesh.network, vec!["spl_mesh"]);
}

#[test]
fn vpn_interface_produces_zone() {
    assert!(zones().iter().any(|z| z.name == "vpn_a"));
}

#[test]
fn vpn_zone_network_is_spl_interface_name() {
    let z = zones();
    let vpn = z.iter().find(|z| z.name == "vpn_a").unwrap();
    assert_eq!(vpn.network, vec!["spl_vpn_a"]);
}

#[test]
fn default_policy_drop_in_drop_fwd_accept_out() {
    for zone in zones() {
        assert!(matches!(zone.input, FirewallAction::Drop));
        assert!(matches!(zone.forward, FirewallAction::Drop));
        assert!(matches!(zone.output, FirewallAction::Accept));
    }
}

#[test]
fn operator_managed_zones_not_included() {
    assert!(!zones().iter().any(|z| z.name == "lan"));
}

#[test]
fn zone_renders_uci_section() {
    let z = zones();
    let mesh = z.iter().find(|z| z.name == "mesh").unwrap();
    let cmds = mesh.to_uci_commands();
    assert!(has_cmd(&cmds, "set firewall.spl_mesh='zone'"));
    assert!(has_cmd(&cmds, "set firewall.spl_mesh.input='DROP'"));
    assert!(has_cmd(&cmds, "add_list firewall.spl_mesh.network='spl_mesh'"));
}

// ── firewall rules ─────────────────────────────────────────────────────────

fn ingress(yaml: &str, own: &str) -> Vec<FirewallRule> {
    let cfg = config(yaml);
    let tags = build_tags_resolution_map(&cfg, &id(own));
    assert!(splot_sdwan::managers::firewall::rules::check_ingress_ready(&cfg, &id(own), &tags));
    get_firewall_ingress_rules(&cfg, &id(own), &tags)
}

fn egress(yaml: &str, own: &str) -> Vec<FirewallRule> {
    let cfg = config(yaml);
    let tags = build_tags_resolution_map(&cfg, &id(own));
    assert!(splot_sdwan::managers::firewall::rules::check_egress_ready(&cfg, &id(own), &tags));
    get_firewall_egress_rules(&cfg, &id(own), &tags)
}

#[test]
fn allowfrom_produces_ingress_rule() {
    let rules = ingress(
        "
meshNetwork: 10.100.0.0/24
nodes:
  Home:
    publicKey: AAAA
    endpoint: 1.2.3.4
    listenPort: 51820
    meshIp: 10.100.0.1
    services:
      ssh:
        port: 22
        proto: tcp
        allowFrom: Phone
clients:
  Phone:
    publicKey: BBBB
    meshIp: 10.100.0.100
",
        "Home",
    );
    let rule = rules.iter().find(|r| r.name.contains("ssh")).expect("ssh rule missing");
    assert!(rule.src_ip.iter().any(|n| n.to_string() == "10.100.0.100/32"), "Phone mesh IP missing from src_ip");
}

#[test]
fn same_lan_source_filtered_out() {
    let rules = ingress(
        "
meshNetwork: 10.100.0.0/24
nodes:
  Home:
    publicKey: AAAA
    endpoint: 1.2.3.4
    listenPort: 51820
    meshIp: 10.100.0.1
    zones:
      lan:
        address: 192.168.1.1/24
        devices:
          printer:
            ip: 192.168.1.50
            macs: AA:BB:CC:DD:EE:FF
            services:
              print:
                port: 9100
                proto: tcp
                allowFrom: LanClient
clients:
  LanClient:
    ips:
      Home:
        lan: 192.168.1.60
",
        "Home",
    );
    assert!(!rules.iter().any(|r| r.name.contains("print")), "same-LAN source should not produce a rule");
}

#[test]
fn no_allowfrom_no_ingress_rule() {
    let rules = ingress(
        "
meshNetwork: 10.100.0.0/24
nodes:
  Home:
    publicKey: AAAA
    endpoint: 1.2.3.4
    listenPort: 51820
    meshIp: 10.100.0.1
    wanZone: wan
    services:
      http:
        port: 80
        proto: tcp
        wan:
          via: Home
",
        "Home",
    );
    assert!(rules.is_empty());
}

#[test]
fn cross_node_client_resolved_via_mesh_ip() {
    let rules = ingress(
        "
meshNetwork: 10.100.0.0/24
nodes:
  Home:
    publicKey: AAAA
    endpoint: 1.2.3.4
    listenPort: 51820
    meshIp: 10.100.0.1
    services:
      ssh:
        port: 22
        proto: tcp
        allowFrom: Phone
  Cabin:
    publicKey: CCCC
    endpoint: 5.6.7.8
    listenPort: 51820
    meshIp: 10.100.0.2
    zones:
      lan:
        address: 192.168.2.1/24
clients:
  Phone:
    publicKey: BBBB
    meshIp: 10.100.0.100
",
        "Home",
    );
    let rule = rules.iter().find(|r| r.name.contains("ssh")).unwrap();
    assert!(rule.src_ip.iter().any(|n| n.to_string() == "10.100.0.100/32"));
}

const EGRESS_FIXTURE: &str = "
meshNetwork: 10.100.0.0/24
nodes:
  Home:
    publicKey: AAAA
    endpoint: 1.2.3.4
    listenPort: 51820
    meshIp: 10.100.0.1
    zones:
      lan:
        address: 192.168.1.1/24
        devices:
          workstation:
            ip: 192.168.1.10
            macs: AA:BB:CC:DD:EE:01
            tags: staff
  Cabin:
    publicKey: CCCC
    endpoint: 5.6.7.8
    listenPort: 51820
    meshIp: 10.100.0.2
    zones:
      lan:
        address: 192.168.2.1/24
    services:
      web:
        port: 80
        proto: tcp
        allowFrom: staff
";

#[test]
fn egress_rule_for_remote_service_from_local_source() {
    let rules = egress(EGRESS_FIXTURE, "Home");
    let rule = rules.iter().find(|r| r.name.contains("web")).expect("egress rule for Cabin web missing");
    assert!(rule.src_ip.iter().any(|n| n.to_string() == "192.168.1.10/32"), "local source workstation missing from src_ip");
    assert!(rule.dest_ip.iter().any(|n| n.to_string() == "10.100.0.2/32"), "Cabin mesh host IP missing from dest_ip");
}

#[test]
fn egress_filters_non_local_sources() {
    let rules = egress(
        "
meshNetwork: 10.100.0.0/24
nodes:
  Home:
    publicKey: AAAA
    endpoint: 1.2.3.4
    listenPort: 51820
    meshIp: 10.100.0.1
    zones:
      lan:
        address: 192.168.1.1/24
  Cabin:
    publicKey: CCCC
    endpoint: 5.6.7.8
    listenPort: 51820
    meshIp: 10.100.0.2
    zones:
      lan:
        address: 192.168.2.1/24
        devices:
          cabinpc:
            ip: 192.168.2.10
            macs: AA:BB:CC:DD:EE:02
            tags: locals
    services:
      web:
        port: 80
        proto: tcp
        allowFrom: locals
",
        "Home",
    );
    assert!(!rules.iter().any(|r| r.name.contains("web")), "non-local source should not produce an egress rule on Home");
}

#[test]
fn own_node_services_not_in_egress() {
    let rules = egress(EGRESS_FIXTURE, "Cabin");
    assert!(!rules.iter().any(|r| r.name.contains("web")));
}

#[test]
fn rule_renders_accept_section() {
    let rules = egress(EGRESS_FIXTURE, "Home");
    let rule = rules.iter().find(|r| r.name.contains("web")).unwrap();
    assert_eq!(rule.name, "Cabin_web");
    let cmds = rule.to_uci_commands();
    assert!(has_cmd(&cmds, "set firewall.spl_Cabin_web='rule'"));
    assert!(has_cmd(&cmds, "set firewall.spl_Cabin_web.target='ACCEPT'"));
    assert!(has_cmd(&cmds, "set firewall.spl_Cabin_web.dest_port='80'"));
    assert!(has_cmd(&cmds, "add_list firewall.spl_Cabin_web.proto='tcp'"));
}

// ── tag resolution ─────────────────────────────────────────────────────────

const TAGS_FIXTURE: &str = "
meshNetwork: 10.100.0.0/24
nodes:
  Home:
    publicKey: AAAA
    endpoint: 1.2.3.4
    listenPort: 51820
    meshIp: 10.100.0.1
    tags: server
    zones:
      lan:
        address: 192.168.1.1/24
        devices:
          printer:
            ip: 192.168.1.50
            macs: AA:BB:CC:DD:EE:FF
            tags: printable
      guest:
        address: 192.168.2.1/24
    vpnInterfaces:
      vpn_a:
        listenPort: 51821
        address: 10.8.1.1/24
        clients:
          alice:
            publicKey: CCCC
            ip: 10.8.1.10
            tags: staff
  Cabin:
    publicKey: DDDD
    endpoint: 5.6.7.8
    listenPort: 51820
    meshIp: 10.100.0.2
    zones:
      lan:
        address: 192.168.3.1/24
clients:
  Phone:
    publicKey: EEEE
    meshIp: 10.100.0.100
    tags: mobile
    ips:
      Home:
        lan: 192.168.1.60
      Cabin:
        lan: 192.168.3.10
";

fn tag_bare(s: &str) -> AllowFromRef {
    AllowFromRef::Bare(id(s))
}

fn tag_nested(node: &str, local: &str) -> AllowFromRef {
    AllowFromRef::nested(id(node), id(local))
}

fn map_for(own: &str) -> Vec<TagBinding> {
    build_tags_resolution_map(&config(TAGS_FIXTURE), &id(own))
}

fn get(m: &Vec<TagBinding>, key: &AllowFromRef, zone: &ZoneRef) -> Vec<Ipv4Network> {
    let mut v = networks_for(m, key, zone);
    v.sort_by_key(|n| n.to_string());
    v.dedup();
    v
}

fn named(s: &str) -> ZoneRef {
    ZoneRef::Named(id(s))
}

#[test]
fn node_bare_tag_yields_zone_subnets() {
    let m = map_for("Home");
    assert!(get(&m, &tag_bare("Home"), &named("lan")).contains(&net("192.168.1.0/24")));
    assert!(get(&m, &tag_bare("Home"), &named("guest")).contains(&net("192.168.2.0/24")));
    assert!(get(&m, &tag_bare("Home"), &named("vpn_a")).contains(&net("10.8.1.0/24")));
}

#[test]
fn node_bare_tag_is_subnet_not_host() {
    let m = map_for("Home");
    let lan = get(&m, &tag_bare("Home"), &named("lan"));
    assert!(lan.contains(&net("192.168.1.0/24")));
    assert!(!lan.contains(&net("192.168.1.1/32")));
}

#[test]
fn self_node_yields_host_ips_for_own_node() {
    let m = map_for("Home");
    let lan = get(&m, &AllowFromRef::SelfNode, &named("lan"));
    assert!(lan.contains(&net("192.168.1.1/32")));
    assert!(!lan.contains(&net("192.168.1.0/24")));
}

#[test]
fn self_node_covers_all_own_zones_and_vpns() {
    let m = map_for("Home");
    assert!(!get(&m, &AllowFromRef::SelfNode, &named("lan")).is_empty());
    assert!(!get(&m, &AllowFromRef::SelfNode, &named("guest")).is_empty());
    assert!(!get(&m, &AllowFromRef::SelfNode, &named("vpn_a")).is_empty());
}

#[test]
fn self_node_scoped_to_own_node_only() {
    let m = map_for("Cabin");
    let lan = get(&m, &AllowFromRef::SelfNode, &named("lan"));
    assert!(lan.contains(&net("192.168.3.1/32")), "should contain Cabin lan host");
    assert!(!lan.contains(&net("192.168.1.1/32")), "must not contain Home lan host");
}

#[test]
fn nested_zone_yields_zone_subnet() {
    let m = map_for("Home");
    assert!(get(&m, &tag_nested("Home", "lan"), &named("lan")).contains(&net("192.168.1.0/24")));
}

#[test]
fn nested_device_yields_host_ip() {
    let m = map_for("Home");
    let nets = get(&m, &tag_nested("Home", "printer"), &named("lan"));
    assert!(nets.contains(&net("192.168.1.50/32")));
    assert!(!nets.contains(&net("192.168.1.0/24")));
}

#[test]
fn nested_vpn_interface_yields_vpn_subnet() {
    let m = map_for("Home");
    assert!(get(&m, &tag_nested("Home", "vpn_a"), &named("vpn_a")).contains(&net("10.8.1.0/24")));
}

#[test]
fn nested_vpn_client_yields_host_ip() {
    let m = map_for("Home");
    let nets = get(&m, &tag_nested("Home", "alice"), &named("vpn_a"));
    assert!(nets.contains(&net("10.8.1.10/32")));
    assert!(!nets.contains(&net("10.8.1.0/24")));
}

#[test]
fn explicit_node_tag_accumulates_same_as_node_name() {
    let m = map_for("Home");
    assert_eq!(get(&m, &tag_bare("server"), &named("lan")), get(&m, &tag_bare("Home"), &named("lan")));
}

#[test]
fn explicit_device_tag_maps_to_device_host() {
    let m = map_for("Home");
    assert!(get(&m, &tag_bare("printable"), &named("lan")).contains(&net("192.168.1.50/32")));
}

#[test]
fn explicit_vpn_client_tag_maps_to_client_host() {
    let m = map_for("Home");
    assert!(get(&m, &tag_bare("staff"), &named("vpn_a")).contains(&net("10.8.1.10/32")));
}

#[test]
fn client_mesh_ip_goes_under_mesh_zone() {
    let m = map_for("Home");
    assert!(get(&m, &tag_bare("Phone"), &ZoneRef::Mesh).contains(&net("10.100.0.100/32")));
}

#[test]
fn client_own_node_zone_ip_goes_under_named_zone() {
    let m = map_for("Home");
    assert!(get(&m, &tag_bare("Phone"), &named("lan")).contains(&net("192.168.1.60/32")));
}

#[test]
fn client_remote_node_zone_ip_goes_under_mesh() {
    let m = map_for("Home");
    assert!(get(&m, &tag_bare("Phone"), &ZoneRef::Mesh).contains(&net("192.168.3.10/32")));
}

#[test]
fn explicit_client_tag_same_resolution_as_client_name() {
    let m = map_for("Home");
    assert_eq!(get(&m, &tag_bare("mobile"), &ZoneRef::Mesh), get(&m, &tag_bare("Phone"), &ZoneRef::Mesh));
}

#[test]
fn tag_resolution_has_no_repeated_binding() {
    let m = map_for("Home");
    for i in 0..m.len() {
        for j in (i + 1)..m.len() {
            assert!(!m[i].same(&m[j]));
        }
    }
}

// ── port forwards ──────────────────────────────────────────────────────────

const REDIRECT_FIXTURE: &str = "
meshNetwork: 10.100.0.0/24
nodes:
  Home:
    publicKey: AAAA
    endpoint: 1.2.3.4
    listenPort: 51820
    meshIp: 10.100.0.1
    wanZone: wan
    zones:
      lan:
        address: 192.168.1.1/24
        devices:
          printer:
            ip: 192.168.1.50
            macs: AA:BB:CC:DD:EE:FF
            services:
              print:
                port: 9100
                proto: tcp
                wan:
                  via: Home
    vpnInterfaces:
      vpn_a:
        listenPort: 51821
        address: 10.8.1.1/24
        clients:
          alice:
            publicKey: BBBB
            ip: 10.8.1.10
            services:
              vnc:
                port: 5900
                proto: tcp
                wan:
                  via: Home
    services:
      ssh:
        port: 22
        proto: tcp
        wan:
          via: Home
      restricted:
        port: 8443
        proto: tcp
        wan:
          via: Home
          sources:
            - 1.2.3.0/24
            - 5.6.0.0/16
      translated:
        port: \"8080:80\"
        proto: tcp
        wan:
          via: Home
  Cabin:
    publicKey: CCCC
    endpoint: 5.6.7.8
    listenPort: 51820
    meshIp: 10.100.0.2
    services:
      ssh:
        port: 22
        proto: tcp
        wan:
          via: Home
clients:
  Phone:
    publicKey: DDDD
    meshIp: 10.100.0.100
    services:
      http:
        port: 80
        proto: tcp
        wan:
          via: Home
";

fn redirects_for(own: &str) -> Vec<FirewallRedirect> {
    get_firewall_redirects(&config(REDIRECT_FIXTURE), &id(own))
}

fn find<'a>(rs: &'a [FirewallRedirect], name: &str) -> Option<&'a FirewallRedirect> {
    rs.iter().find(|r| r.name == name)
}

fn has_uci(r: &FirewallRedirect, s: &str) -> bool {
    r.to_uci_commands().iter().any(|c| c.to_string().contains(s))
}

#[test]
fn no_wan_zone_returns_empty() {
    assert!(redirects_for("Cabin").is_empty());
}

#[test]
fn node_service_redirect_name_dest_and_src() {
    let rs = redirects_for("Home");
    let r = find(&rs, "Home_ssh_redirect").expect("Home_ssh_redirect missing");
    assert_eq!(r.dest_ip.to_string(), "10.100.0.1");
    assert!(r.dest.same(&ZoneRef::Mesh));
    assert!(r.src.same(&named("wan")));
}

#[test]
fn device_service_redirect() {
    let rs = redirects_for("Home");
    let r = find(&rs, "Home_printer_print_redirect").expect("printer redirect missing");
    assert_eq!(r.dest_ip.to_string(), "192.168.1.50");
    assert!(r.dest.same(&named("lan")));
}

#[test]
fn vpn_client_service_redirect() {
    let rs = redirects_for("Home");
    let r = find(&rs, "Home_alice_vnc_redirect").expect("alice vpn redirect missing");
    assert_eq!(r.dest_ip.to_string(), "10.8.1.10");
    assert!(r.dest.same(&named("vpn_a")));
}

#[test]
fn cross_node_naming_regression() {
    let rs = redirects_for("Home");
    assert!(find(&rs, "Cabin_ssh_redirect").is_some(), "correct name missing");
    assert!(find(&rs, "Cabin_Home_ssh_redirect").is_none(), "buggy name must not appear");
    let r = find(&rs, "Cabin_ssh_redirect").unwrap();
    assert_eq!(r.dest_ip.to_string(), "10.100.0.2");
    assert!(r.dest.same(&ZoneRef::Mesh));
}

#[test]
fn global_client_redirect() {
    let rs = redirects_for("Home");
    let r = find(&rs, "Phone_http_redirect").expect("Phone redirect missing");
    assert_eq!(r.dest_ip.to_string(), "10.100.0.100");
    assert!(r.dest.same(&ZoneRef::Mesh));
}

#[test]
fn sources_empty_no_src_ip_in_uci() {
    let rs = redirects_for("Home");
    let r = find(&rs, "Home_ssh_redirect").unwrap();
    assert!(!has_uci(r, "src_ip"), "unexpected src_ip in public redirect");
}

#[test]
fn sources_set_appear_sorted_in_uci() {
    let rs = redirects_for("Home");
    let r = find(&rs, "Home_restricted_redirect").expect("restricted redirect missing");
    let cmds: Vec<String> = r.to_uci_commands().iter().map(|c| c.to_string()).collect();
    let src_ips: Vec<&str> = cmds.iter().filter(|c| c.contains("src_ip")).map(|s| s.as_str()).collect();
    assert_eq!(src_ips.len(), 2, "expected 2 src_ip entries");
    assert!(src_ips[0].contains("1.2.3.0/24"));
    assert!(src_ips[1].contains("5.6.0.0/16"));
}

#[test]
fn port_translation_external_internal() {
    let rs = redirects_for("Home");
    let r = find(&rs, "Home_translated_redirect").expect("translated redirect missing");
    assert!(has_uci(r, "src_dport='8080'"));
    assert!(has_uci(r, "dest_port='80'"));
}

#[test]
fn service_via_other_node_skipped_here() {
    let cfg = config(
        "
meshNetwork: 10.100.0.0/24
nodes:
  Edge:
    publicKey: AAAA
    endpoint: 1.2.3.4
    listenPort: 51820
    meshIp: 10.100.0.1
    wanZone: wan
    services:
      ssh:
        port: 22
        proto: tcp
        wan:
          via: Gate
  Gate:
    publicKey: BBBB
    endpoint: 5.6.7.8
    listenPort: 51820
    meshIp: 10.100.0.2
    wanZone: wan
",
    );
    assert!(
        get_firewall_redirects(&cfg, &id("Edge")).iter().all(|r| !r.name.contains("ssh")),
        "service via Gate must not produce a redirect on Edge"
    );
    let on_gate = get_firewall_redirects(&cfg, &id("Gate"));
    let r = find(&on_gate, "Edge_ssh_redirect").expect("Edge_ssh_redirect missing on Gate");
    assert!(r.dest.same(&ZoneRef::Mesh));
    assert_eq!(r.dest_ip.to_string(), "10.100.0.1");
}

#[test]
fn redirect_renders_dnat_section() {
    let rs = redirects_for("Home");
    let r = find(&rs, "Home_ssh_redirect").unwrap();
    let cmds: Vec<String> = r.to_uci_commands().iter().map(|c| c.to_string()).collect();
    assert_eq!(cmds[0], "set firewall.spl_Home_ssh_redirect='redirect'");
    assert_eq!(cmds[1], "set firewall.spl_Home_ssh_redirect.name='[SPLOT] Home_ssh_redirect'");
    assert_eq!(cmds[2], "set firewall.spl_Home_ssh_redirect.target='DNAT'");
    assert_eq!(cmds[3], "set firewall.spl_Home_ssh_redirect.src='wan'");
    assert_eq!(cmds[4], "set firewall.spl_Home_ssh_redirect.src_dport='22'");
    assert_eq!(cmds[5], "set firewall.spl_Home_ssh_redirect.dest='mesh'");
    assert_eq!(cmds[6], "set firewall.spl_Home_ssh_redirect.dest_ip='10.100.0.1'");
    assert_eq!(cmds[7], "set firewall.spl_Home_ssh_redirect.dest_port='22'");
    assert_eq!(cmds[8], "add_list firewall.spl_Home_ssh_redirect.proto='tcp'");
    assert_eq!(cmds.len(), 9);
}


// ── validation ─────────────────────────────────────────────────────────────
    // A minimal config that passes every validator pass with no diagnostics.
    const CLEAN: &str = "
meshNetwork: 10.100.0.0/24
nodes:
  Home:
    publicKey: AAAA
    endpoint: 1.2.3.4
    listenPort: 51820
    meshIp: 10.100.0.1
    zones:
      lan:
        address: 192.168.1.1/24
clients:
  Phone:
    publicKey: BBBB
    meshIp: 10.100.0.100
";

    #[test]
    fn validate_config_clean() {
        let r = report(CLEAN);
        assert!(
            r.errors.is_empty(),
            "unexpected errors: {:?}",
            r.errors.iter().map(|e| e.to_string()).collect::<Vec<_>>()
        );
        assert!(
            r.warnings.is_empty(),
            "unexpected warnings: {:?}",
            r.warnings.iter().map(|w| w.to_string()).collect::<Vec<_>>()
        );
    }

    // ── names ──────────────────────────────────────────────────────────────

    #[test]
    fn names_global_name_collision() {
        // Node and client share the name "Phone".
        let r = report(
            "
meshNetwork: 10.100.0.0/24
nodes:
  Phone:
    publicKey: AAAA
    endpoint: 1.2.3.4
    listenPort: 51820
    meshIp: 10.100.0.1
clients:
  Phone:
    publicKey: BBBB
    meshIp: 10.100.0.100
",
        );
        assert!(has_error(
            &r,
            |e| matches!(e, ValidationError::GlobalNameCollision { name, .. } if name.as_str() == "Phone")
        ));
    }

    #[test]
    fn names_local_name_collision() {
        // Zone "printer" and device "printer" in the same node share a local name.
        let r = report(
            "
meshNetwork: 10.100.0.0/24
nodes:
  Home:
    publicKey: AAAA
    endpoint: 1.2.3.4
    listenPort: 51820
    meshIp: 10.100.0.1
    zones:
      lan:
        address: 192.168.1.1/24
      printer:
        address: 192.168.2.1/24
        devices:
          printer:
            ip: 192.168.2.50
            macs: AA:BB:CC:DD:EE:FF
",
        );
        assert!(has_error(
            &r,
            |e| matches!(e, ValidationError::LocalNameCollision { name, .. } if name.as_str() == "printer")
        ));
    }

    #[test]
    fn names_local_shadows_global() {
        // Global client "Phone"; a device in Home is also named "Phone".
        let r = report(
            "
meshNetwork: 10.100.0.0/24
nodes:
  Home:
    publicKey: AAAA
    endpoint: 1.2.3.4
    listenPort: 51820
    meshIp: 10.100.0.1
    zones:
      lan:
        address: 192.168.1.1/24
        devices:
          Phone:
            ip: 192.168.1.50
            macs: AA:BB:CC:DD:EE:FF
clients:
  Phone:
    publicKey: BBBB
    meshIp: 10.100.0.100
",
        );
        assert!(has_error(
            &r,
            |e| matches!(e, ValidationError::LocalShadowsGlobal { name, .. } if name.as_str() == "Phone")
        ));
    }

    #[test]
    fn names_invalid_prefix() {
        // Zone "Home_lan" starts with the reserved prefix "Home_" (node "Home" exists).
        let r = report(
            "
meshNetwork: 10.100.0.0/24
nodes:
  Home:
    publicKey: AAAA
    endpoint: 1.2.3.4
    listenPort: 51820
    meshIp: 10.100.0.1
    zones:
      Home_lan:
        address: 192.168.1.1/24
",
        );
        assert!(has_error(
            &r,
            |e| matches!(e, ValidationError::InvalidPrefix { name, .. } if name.as_str() == "Home_lan")
        ));
    }

    #[test]
    fn names_same_local_across_nodes_is_ok() {
        // Both Home and Cabin can have a zone named "lan" — local names don't collide cross-node.
        let r = report(
            "
meshNetwork: 10.100.0.0/24
nodes:
  Home:
    publicKey: AAAA
    endpoint: 1.2.3.4
    listenPort: 51820
    meshIp: 10.100.0.1
    zones:
      lan:
        address: 192.168.1.1/24
  Cabin:
    publicKey: CCCC
    endpoint: 5.6.7.8
    listenPort: 51820
    meshIp: 10.100.0.2
    zones:
      lan:
        address: 192.168.2.1/24
",
        );
        assert!(!has_error(&r, |e| matches!(
            e,
            ValidationError::LocalNameCollision { .. }
        )));
    }

    // ── tags ───────────────────────────────────────────────────────────────

    #[test]
    fn tags_collision_with_node_name() {
        // Tag "Home" on Phone collides with node name "Home".
        let r = report(
            "
meshNetwork: 10.100.0.0/24
nodes:
  Home:
    publicKey: AAAA
    endpoint: 1.2.3.4
    listenPort: 51820
    meshIp: 10.100.0.1
clients:
  Phone:
    publicKey: BBBB
    meshIp: 10.100.0.100
    tags: Home
",
        );
        assert!(has_error(
            &r,
            |e| matches!(e, ValidationError::TagWithNameCollision { tag, .. } if tag.as_str() == "Home")
        ));
    }

    #[test]
    fn tags_same_tag_multiple_places_ok() {
        // Tag "admin" applied to both Phone and Home's zone — no error.
        let r = report(
            "
meshNetwork: 10.100.0.0/24
nodes:
  Home:
    publicKey: AAAA
    endpoint: 1.2.3.4
    listenPort: 51820
    meshIp: 10.100.0.1
    zones:
      lan:
        address: 192.168.1.1/24
        tags: admin
clients:
  Phone:
    publicKey: BBBB
    meshIp: 10.100.0.100
    tags: admin
",
        );
        assert!(!has_error(&r, |e| matches!(
            e,
            ValidationError::TagWithNameCollision { .. }
        )));
    }

    // ── references ─────────────────────────────────────────────────────────

    #[test]
    fn refs_unknown_allowfrom() {
        let r = report(
            "
meshNetwork: 10.100.0.0/24
nodes:
  Home:
    publicKey: AAAA
    endpoint: 1.2.3.4
    listenPort: 51820
    meshIp: 10.100.0.1
    services:
      ssh:
        port: 22
        proto: tcp
        allowFrom: NoSuchThing
",
        );
        assert!(has_error(&r, |e| matches!(
            e,
            ValidationError::UnknownRef { .. }
        )));
    }

    #[test]
    fn refs_self_node_always_valid() {
        // $node is always in the known-references set; no UnknownRef.
        let r = report(
            "
meshNetwork: 10.100.0.0/24
nodes:
  Home:
    publicKey: AAAA
    endpoint: 1.2.3.4
    listenPort: 51820
    meshIp: 10.100.0.1
    services:
      ssh:
        port: 22
        proto: tcp
        allowFrom: \"$node\"
",
        );
        assert!(!has_error(&r, |e| matches!(
            e,
            ValidationError::UnknownRef { .. }
        )));
    }

    #[test]
    fn refs_unreachable_service_warning() {
        // Service with neither allowFrom nor wan.
        let r = report(
            "
meshNetwork: 10.100.0.0/24
nodes:
  Home:
    publicKey: AAAA
    endpoint: 1.2.3.4
    listenPort: 51820
    meshIp: 10.100.0.1
    services:
      ghost:
        port: 9999
        proto: tcp
",
        );
        assert!(has_warning(&r, |w| matches!(
            w,
            ValidationWarning::UnreachableService { .. }
        )));
    }

    #[test]
    fn refs_wan_only_service_no_unreachable_warning() {
        // wan-only service (no allowFrom) must not produce UnreachableService.
        let r = report(
            "
meshNetwork: 10.100.0.0/24
nodes:
  Home:
    publicKey: AAAA
    endpoint: 1.2.3.4
    listenPort: 51820
    meshIp: 10.100.0.1
    wanZone: wan
    services:
      http:
        port: 80
        proto: tcp
        wan:
          via: Home
",
        );
        assert!(!has_warning(&r, |w| matches!(
            w,
            ValidationWarning::UnreachableService { .. }
        )));
    }

    // ── entities ───────────────────────────────────────────────────────────

    #[test]
    fn entities_mac_missing() {
        // Client with a zone IP but no macs.
        let r = report(
            "
meshNetwork: 10.100.0.0/24
nodes:
  Home:
    publicKey: AAAA
    endpoint: 1.2.3.4
    listenPort: 51820
    meshIp: 10.100.0.1
    zones:
      lan:
        address: 192.168.1.1/24
clients:
  Phone:
    ips:
      Home:
        lan: 192.168.1.50
",
        );
        assert!(has_error(&r, |e| matches!(
            e,
            ValidationError::MacMissing { .. }
        )));
    }

    #[test]
    fn entities_unused_mac_warning() {
        // Client with macs but no zone IPs.
        let r = report(
            "
meshNetwork: 10.100.0.0/24
nodes:
  Home:
    publicKey: AAAA
    endpoint: 1.2.3.4
    listenPort: 51820
    meshIp: 10.100.0.1
clients:
  Phone:
    macs: AA:BB:CC:DD:EE:FF
",
        );
        assert!(has_warning(&r, |w| matches!(
            w,
            ValidationWarning::UnusedMac { .. }
        )));
    }

    #[test]
    fn entities_public_key_missing_for_mesh() {
        // Client with meshIp but no publicKey.
        let r = report(
            "
meshNetwork: 10.100.0.0/24
nodes:
  Home:
    publicKey: AAAA
    endpoint: 1.2.3.4
    listenPort: 51820
    meshIp: 10.100.0.1
clients:
  Phone:
    meshIp: 10.100.0.100
",
        );
        assert!(has_error(&r, |e| matches!(
            e,
            ValidationError::PublicKeyMissing {
                required_for_mesh: true,
                ..
            }
        )));
    }

    #[test]
    fn entities_unused_public_key_warning() {
        // Client with publicKey but no meshIp and no VPN IPs.
        let r = report(
            "
meshNetwork: 10.100.0.0/24
nodes:
  Home:
    publicKey: AAAA
    endpoint: 1.2.3.4
    listenPort: 51820
    meshIp: 10.100.0.1
clients:
  Orphan:
    publicKey: BBBB
",
        );
        assert!(has_warning(&r, |w| matches!(
            w,
            ValidationWarning::UnusedPublicKey { .. }
        )));
    }

    #[test]
    fn entities_unreachable_client_warning() {
        let r = report(
            "
meshNetwork: 10.100.0.0/24
nodes:
  Home:
    publicKey: AAAA
    endpoint: 1.2.3.4
    listenPort: 51820
    meshIp: 10.100.0.1
clients:
  Ghost: {}
",
        );
        assert!(has_warning(&r, |w| matches!(
            w,
            ValidationWarning::UnreachableClient { .. }
        )));
    }

    #[test]
    fn entities_node_missing() {
        // client.ips references a node that does not exist in nodes.
        let r = report(
            "
meshNetwork: 10.100.0.0/24
nodes:
  Home:
    publicKey: AAAA
    endpoint: 1.2.3.4
    listenPort: 51820
    meshIp: 10.100.0.1
clients:
  Phone:
    ips:
      NoSuchNode:
        lan: 192.168.1.50
",
        );
        assert!(has_error(
            &r,
            |e| matches!(e, ValidationError::NodeMissing { node_name, .. } if node_name.as_str() == "NoSuchNode")
        ));
    }

    #[test]
    fn entities_node_network_missing() {
        // client.ips.Home references "guest" but Home has no "guest" network.
        let r = report(
            "
meshNetwork: 10.100.0.0/24
nodes:
  Home:
    publicKey: AAAA
    endpoint: 1.2.3.4
    listenPort: 51820
    meshIp: 10.100.0.1
    zones:
      lan:
        address: 192.168.1.1/24
clients:
  Phone:
    ips:
      Home:
        guest: 192.168.99.50
",
        );
        assert!(has_error(
            &r,
            |e| matches!(e, ValidationError::NodeNetworkMissing { network_name, .. } if network_name.as_str() == "guest")
        ));
    }

    // ── networks ───────────────────────────────────────────────────────────

    #[test]
    fn networks_collision_mesh_and_zone_overlap() {
        // Zone 192.168.1.0/24 overlaps with meshNetwork 192.168.1.0/24.
        let r = report(
            "
meshNetwork: 192.168.1.0/24
nodes:
  Home:
    publicKey: AAAA
    endpoint: 1.2.3.4
    listenPort: 51820
    meshIp: 192.168.1.1
    zones:
      lan:
        address: 192.168.1.2/24
",
        );
        assert!(has_error(&r, |e| matches!(
            e,
            ValidationError::NetworkCollision { .. }
        )));
    }

    #[test]
    fn networks_collision_zone_zone() {
        // Two zones with the same subnet.
        let r = report(
            "
meshNetwork: 10.100.0.0/24
nodes:
  Home:
    publicKey: AAAA
    endpoint: 1.2.3.4
    listenPort: 51820
    meshIp: 10.100.0.1
    zones:
      lan:
        address: 192.168.1.1/24
  Cabin:
    publicKey: CCCC
    endpoint: 5.6.7.8
    listenPort: 51820
    meshIp: 10.100.0.2
    zones:
      lan:
        address: 192.168.1.1/24
",
        );
        assert!(has_error(&r, |e| matches!(
            e,
            ValidationError::NetworkCollision { .. }
        )));
    }

    #[test]
    fn networks_ip_outside_mesh_subnet() {
        // Node meshIp 10.200.0.1 is outside meshNetwork 10.100.0.0/24.
        let r = report(
            "
meshNetwork: 10.100.0.0/24
nodes:
  Home:
    publicKey: AAAA
    endpoint: 1.2.3.4
    listenPort: 51820
    meshIp: 10.200.0.1
",
        );
        assert!(has_error(&r, |e| matches!(
            e,
            ValidationError::IpOutsideSubnet { .. }
        )));
    }

    #[test]
    fn networks_ip_outside_zone_subnet() {
        // Device IP 192.168.2.50 is outside its zone 192.168.1.0/24.
        let r = report(
            "
meshNetwork: 10.100.0.0/24
nodes:
  Home:
    publicKey: AAAA
    endpoint: 1.2.3.4
    listenPort: 51820
    meshIp: 10.100.0.1
    zones:
      lan:
        address: 192.168.1.1/24
        devices:
          printer:
            ip: 192.168.2.50
            macs: AA:BB:CC:DD:EE:FF
",
        );
        assert!(has_error(&r, |e| matches!(
            e,
            ValidationError::IpOutsideSubnet { .. }
        )));
    }

    #[test]
    fn networks_ip_collision_two_nodes_same_mesh_ip() {
        let r = report(
            "
meshNetwork: 10.100.0.0/24
nodes:
  Home:
    publicKey: AAAA
    endpoint: 1.2.3.4
    listenPort: 51820
    meshIp: 10.100.0.1
  Cabin:
    publicKey: CCCC
    endpoint: 5.6.7.8
    listenPort: 51820
    meshIp: 10.100.0.1
",
        );
        assert!(has_error(&r, |e| matches!(
            e,
            ValidationError::IpCollision { .. }
        )));
    }

    #[test]
    fn networks_client_many_zones() {
        // Client with IPs on two zone networks of the same node (max one allowed).
        let r = report(
            "
meshNetwork: 10.100.0.0/24
nodes:
  Home:
    publicKey: AAAA
    endpoint: 1.2.3.4
    listenPort: 51820
    meshIp: 10.100.0.1
    zones:
      lan:
        address: 192.168.1.1/24
      guest:
        address: 192.168.2.1/24
clients:
  Phone:
    macs: AA:BB:CC:DD:EE:FF
    ips:
      Home:
        lan: 192.168.1.50
        guest: 192.168.2.50
",
        );
        assert!(has_error(&r, |e| matches!(
            e,
            ValidationError::NodeClientManyZones { .. }
        )));
    }

    // ── ports ──────────────────────────────────────────────────────────────

    #[test]
    fn ports_internal_collision_two_node_services() {
        let r = report(
            "
meshNetwork: 10.100.0.0/24
nodes:
  Home:
    publicKey: AAAA
    endpoint: 1.2.3.4
    listenPort: 51820
    meshIp: 10.100.0.1
    services:
      ssh:
        port: 22
        proto: tcp
        allowFrom: \"$node\"
      ssh2:
        port: 22
        proto: tcp
        allowFrom: \"$node\"
",
        );
        assert!(has_error(&r, |e| matches!(
            e,
            ValidationError::PortCollision { .. }
        )));
    }

    #[test]
    fn ports_tcp_and_udp_same_number_ok() {
        // TCP 80 and UDP 80 on the same node don't collide.
        let r = report(
            "
meshNetwork: 10.100.0.0/24
nodes:
  Home:
    publicKey: AAAA
    endpoint: 1.2.3.4
    listenPort: 51820
    meshIp: 10.100.0.1
    services:
      http:
        port: 80
        proto: tcp
        allowFrom: \"$node\"
      dns:
        port: 80
        proto: udp
        allowFrom: \"$node\"
",
        );
        assert!(!has_error(&r, |e| matches!(
            e,
            ValidationError::PortCollision { .. }
        )));
    }

    #[test]
    fn ports_external_collision() {
        // Two services both exposed externally on port 80/tcp via the same node.
        let r = report(
            "
meshNetwork: 10.100.0.0/24
nodes:
  Home:
    publicKey: AAAA
    endpoint: 1.2.3.4
    listenPort: 51820
    meshIp: 10.100.0.1
    wanZone: wan
    services:
      http1:
        port: 80
        proto: tcp
        wan:
          via: Home
      http2:
        port: 80
        proto: tcp
        wan:
          via: Home
",
        );
        assert!(has_error(&r, |e| matches!(
            e,
            ValidationError::PortCollision { .. }
        )));
    }

    #[test]
    fn ports_node_listen_port_vs_external_udp_service() {
        // A UDP service exposed on the same external port as the node's WG listenPort.
        let r = report(
            "
meshNetwork: 10.100.0.0/24
nodes:
  Home:
    publicKey: AAAA
    endpoint: 1.2.3.4
    listenPort: 51820
    meshIp: 10.100.0.1
    wanZone: wan
    services:
      wg_clash:
        port: 51820
        proto: udp
        wan:
          via: Home
",
        );
        assert!(has_error(&r, |e| matches!(
            e,
            ValidationError::PortCollision { .. }
        )));
    }

    // ── wan ────────────────────────────────────────────────────────────────

    #[test]
    fn wan_invalid_via_node() {
        let r = report(
            "
meshNetwork: 10.100.0.0/24
nodes:
  Home:
    publicKey: AAAA
    endpoint: 1.2.3.4
    listenPort: 51820
    meshIp: 10.100.0.1
    services:
      http:
        port: 80
        proto: tcp
        wan:
          via: NoSuchNode
",
        );
        assert!(has_error(
            &r,
            |e| matches!(e, ValidationError::InvalidWanVia { node_name, .. } if node_name.as_str() == "NoSuchNode")
        ));
    }

    #[test]
    fn wan_via_node_without_wan_zone() {
        // Home has no wanZone, but a service uses it in wan.via.
        let r = report(
            "
meshNetwork: 10.100.0.0/24
nodes:
  Home:
    publicKey: AAAA
    endpoint: 1.2.3.4
    listenPort: 51820
    meshIp: 10.100.0.1
    services:
      http:
        port: 80
        proto: tcp
        wan:
          via: Home
",
        );
        assert!(has_error(
            &r,
            |e| matches!(e, ValidationError::WanViaNodeNoWanZone { node_name, .. } if node_name.as_str() == "Home")
        ));
    }

    #[test]
    fn wan_via_qualified_on_non_client_service() {
        // Qualified form (Node.Network) is invalid on a node-hosted service.
        let r = report(
            "
meshNetwork: 10.100.0.0/24
nodes:
  Home:
    publicKey: AAAA
    endpoint: 1.2.3.4
    listenPort: 51820
    meshIp: 10.100.0.1
    wanZone: wan
    zones:
      lan:
        address: 192.168.1.1/24
    services:
      http:
        port: 80
        proto: tcp
        wan:
          via: Home.lan
",
        );
        assert!(has_error(&r, |e| matches!(
            e,
            ValidationError::WanViaQualifiedOnNonClient { .. }
        )));
    }

    #[test]
    fn wan_via_network_missing_on_node() {
        let r = report(
            "
meshNetwork: 10.100.0.0/24
nodes:
  Home:
    publicKey: AAAA
    endpoint: 1.2.3.4
    listenPort: 51820
    meshIp: 10.100.0.1
    wanZone: wan
clients:
  Phone:
    publicKey: BBBB
    ips:
      Home:
        lan: 192.168.1.50
    services:
      http:
        port: 80
        proto: tcp
        wan:
          via: Home.lan
",
        );
        // Home has no zone "lan" in this fixture, so WanViaNetworkMissing fires.
        assert!(has_error(
            &r,
            |e| matches!(e, ValidationError::WanViaNetworkMissing { network, .. } if network.as_str() == "lan")
        ));
    }

    #[test]
    fn wan_via_client_not_on_network() {
        // Phone has an IP on "lan" but the service requests "vpn_a" (qualified form).
        let r = report(
            "
meshNetwork: 10.100.0.0/24
nodes:
  Home:
    publicKey: AAAA
    endpoint: 1.2.3.4
    listenPort: 51820
    meshIp: 10.100.0.1
    wanZone: wan
    zones:
      lan:
        address: 192.168.1.1/24
    vpnInterfaces:
      vpn_a:
        listenPort: 51821
        address: 10.8.1.1/24
        clients: {}
clients:
  Phone:
    publicKey: BBBB
    macs: AA:BB:CC:DD:EE:FF
    ips:
      Home:
        lan: 192.168.1.50
    services:
      http:
        port: 80
        proto: tcp
        wan:
          via: Home.vpn_a
",
        );
        assert!(has_error(
            &r,
            |e| matches!(e, ValidationError::WanViaClientNotOnNetwork { network, .. } if network.as_str() == "vpn_a")
        ));
    }

    #[test]
    fn wan_via_ambiguous_vpn() {
        // Phone has IPs on two VPN interfaces of Home; bare via can't pick one.
        let r = report(
            "
meshNetwork: 10.100.0.0/24
nodes:
  Home:
    publicKey: AAAA
    endpoint: 1.2.3.4
    listenPort: 51820
    meshIp: 10.100.0.1
    wanZone: wan
    vpnInterfaces:
      vpn_a:
        listenPort: 51821
        address: 10.8.1.1/24
        clients: {}
      vpn_b:
        listenPort: 51822
        address: 10.8.2.1/24
        clients: {}
clients:
  Phone:
    publicKey: BBBB
    ips:
      Home:
        vpn_a: 10.8.1.10
        vpn_b: 10.8.2.10
    services:
      http:
        port: 80
        proto: tcp
        wan:
          via: Home
",
        );
        assert!(has_error(&r, |e| matches!(
            e,
            ValidationError::WanViaAmbiguous { .. }
        )));
    }

    #[test]
    fn wan_via_unreachable_client() {
        // Phone has no meshIp and no IPs on Cabin; forwarding via Cabin is impossible.
        let r = report(
            "
meshNetwork: 10.100.0.0/24
nodes:
  Home:
    publicKey: AAAA
    endpoint: 1.2.3.4
    listenPort: 51820
    meshIp: 10.100.0.1
    wanZone: wan
    zones:
      lan:
        address: 192.168.1.1/24
  Cabin:
    publicKey: CCCC
    endpoint: 5.6.7.8
    listenPort: 51820
    meshIp: 10.100.0.2
    wanZone: wan
clients:
  Phone:
    publicKey: BBBB
    macs: AA:BB:CC:DD:EE:FF
    ips:
      Home:
        lan: 192.168.1.50
    services:
      http:
        port: 80
        proto: tcp
        wan:
          via: Cabin
",
        );
        assert!(has_error(
            &r,
            |e| matches!(e, ValidationError::WanViaUnreachable { node, .. } if node.as_str() == "Cabin")
        ));
    }

    #[test]
    fn wan_zone_collides_with_zone_name() {
        // wanZone "lan" collides with the zone named "lan" on the same node.
        let r = report(
            "
meshNetwork: 10.100.0.0/24
nodes:
  Home:
    publicKey: AAAA
    endpoint: 1.2.3.4
    listenPort: 51820
    meshIp: 10.100.0.1
    wanZone: lan
    zones:
      lan:
        address: 192.168.1.1/24
",
        );
        assert!(has_error(
            &r,
            |e| matches!(e, ValidationError::WanZoneNameCollision { wan_zone, .. } if wan_zone.as_str() == "lan")
        ));
    }

    #[test]
    fn wan_unused_wan_zone_warning() {
        // wanZone is declared but no service references this node in wan.via.
        let r = report(
            "
meshNetwork: 10.100.0.0/24
nodes:
  Home:
    publicKey: AAAA
    endpoint: 1.2.3.4
    listenPort: 51820
    meshIp: 10.100.0.1
    wanZone: wan
",
        );
        assert!(has_warning(&r, |w| matches!(
            w,
            ValidationWarning::UnusedWanZone { .. }
        )));
    }

// ── exact diagnostics ──────────────────────────────────────────────────────

fn errors_text(r: &ValidationReport) -> Vec<String> {
    r.errors.iter().map(|e| e.to_string()).collect()
}

#[test]
fn overlapping_zone_reported_against_first_claim() {
    let r = report(
        "
meshNetwork: 10.100.0.0/24
nodes:
  Home:
    publicKey: AAAA
    endpoint: 1.2.3.4
    listenPort: 51820
    meshIp: 10.100.0.1
    zones:
      lan:
        address: 192.168.1.1/24
      guest:
        address: 192.168.0.1/16
",
    );
    assert_eq!(
        errors_text(&r),
        vec!["nodes.Home.zones.guest.address: subnet 192.168.0.0/16 overlaps with another subnet 192.168.1.0/24"]
    );
}

#[test]
fn refused_network_skips_its_members() {
    let r = report(
        "
meshNetwork: 10.100.0.0/24
nodes:
  Home:
    publicKey: AAAA
    endpoint: 1.2.3.4
    listenPort: 51820
    meshIp: 10.100.0.1
    zones:
      lan:
        address: 10.100.0.129/25
        devices:
          printer:
            ip: 192.168.9.9
            macs: AA:BB:CC:DD:EE:FF
",
    );
    assert!(has_error(&r, |e| matches!(e, ValidationError::NetworkCollision { .. })));
    assert!(!has_error(&r, |e| matches!(e, ValidationError::IpOutsideSubnet { .. })));
}

#[test]
fn mesh_ip_collision_names_first_owner() {
    let r = report(
        "
meshNetwork: 10.100.0.0/24
nodes:
  Home:
    publicKey: AAAA
    endpoint: 1.2.3.4
    listenPort: 51820
    meshIp: 10.100.0.1
clients:
  Phone:
    publicKey: BBBB
    meshIp: 10.100.0.1
",
    );
    assert_eq!(
        errors_text(&r),
        vec!["nodes.Home.meshIp: IP 10.100.0.1 is already used at clients.Phone.meshIp"]
    );
}

#[test]
fn zone_router_address_taken_by_device() {
    let r = report(
        "
meshNetwork: 10.100.0.0/24
nodes:
  Home:
    publicKey: AAAA
    endpoint: 1.2.3.4
    listenPort: 51820
    meshIp: 10.100.0.1
    zones:
      lan:
        address: 192.168.1.1/24
        devices:
          printer:
            ip: 192.168.1.1
            macs: AA:BB:CC:DD:EE:FF
",
    );
    assert!(has_error(&r, |e| matches!(e, ValidationError::IpCollision { at, with, .. }
        if at.to_string() == "nodes.Home.zones.lan.devices.printer.ip" && with.to_string() == "nodes.Home.zones.lan.address")));
}

#[test]
fn second_zone_points_at_first() {
    let r = report(
        "
meshNetwork: 10.100.0.0/24
nodes:
  Home:
    publicKey: AAAA
    endpoint: 1.2.3.4
    listenPort: 51820
    meshIp: 10.100.0.1
    zones:
      lan:
        address: 192.168.1.1/24
      guest:
        address: 192.168.2.1/24
      iot:
        address: 192.168.3.1/24
clients:
  Phone:
    macs: AA:BB:CC:DD:EE:FF
    ips:
      Home:
        lan: 192.168.1.50
        guest: 192.168.2.50
        iot: 192.168.3.50
",
    );
    let many: Vec<String> = r
        .errors
        .iter()
        .filter(|e| matches!(e, ValidationError::NodeClientManyZones { .. }))
        .map(|e| e.to_string())
        .collect();
    assert_eq!(
        many,
        vec![
            "clients.Phone.ips.Home.guest: client has IP on zone 'guest', but already has an IP on another zone at clients.Phone.ips.Home.lan (max one zone per (client, node))",
            "clients.Phone.ips.Home.iot: client has IP on zone 'iot', but already has an IP on another zone at clients.Phone.ips.Home.lan (max one zone per (client, node))",
        ]
    );
}

#[test]
fn external_collision_reported_once_against_earlier_service() {
    let r = report(
        "
meshNetwork: 10.100.0.0/24
nodes:
  Home:
    publicKey: AAAA
    endpoint: 1.2.3.4
    listenPort: 51820
    meshIp: 10.100.0.1
    wanZone: wan
    services:
      http1:
        port: 80
        proto: tcp
        wan:
          via: Home
      http2:
        port: 80
        proto: tcp
        wan:
          via: Home
",
    );
    let collisions: Vec<String> =
        r.errors.iter().filter(|e| matches!(e, ValidationError::PortCollision { .. })).map(|e| e.to_string()).collect();
    assert_eq!(
        collisions,
        vec![
            "nodes.Home.services.http2.port: port 80 collides with nodes.Home.services.http1.port",
            "nodes.Home.services.http2.port: port 80 collides with nodes.Home.services.http1.port",
        ]
    );
}

#[test]
fn wireguard_port_collision_on_node() {
    let r = report(
        "
meshNetwork: 10.100.0.0/24
nodes:
  Home:
    publicKey: AAAA
    endpoint: 1.2.3.4
    listenPort: 51820
    meshIp: 10.100.0.1
    vpnInterfaces:
      vpn_a:
        listenPort: 51820
        address: 10.8.1.1/24
        clients: {}
",
    );
    assert_eq!(errors_text(&r), vec!["nodes.Home.vpnInterfaces.vpn_a.listenPort: port 51820 collides with nodes.Home.listenPort"]);
}

#[test]
fn mesh_name_is_reserved_for_wan_zone() {
    let r = report(
        "
meshNetwork: 10.100.0.0/24
nodes:
  Home:
    publicKey: AAAA
    endpoint: 1.2.3.4
    listenPort: 51820
    meshIp: 10.100.0.1
    wanZone: mesh
    services:
      http:
        port: 80
        proto: tcp
        wan:
          via: Home
",
    );
    assert!(has_error(&r, |e| matches!(e, ValidationError::WanZoneReservedName { wan_zone, .. } if wan_zone.as_str() == "mesh")));
}

#[test]
fn local_name_shadowing_a_later_node_is_reported() {
    // Node N is declared before node M, and N has a zone named M.
    let r = report(
        "
meshNetwork: 10.100.0.0/24
nodes:
  N:
    publicKey: AAAA
    endpoint: 1.2.3.4
    listenPort: 51820
    meshIp: 10.100.0.1
    zones:
      M:
        address: 192.168.1.1/24
  M:
    publicKey: CCCC
    endpoint: 1.2.3.5
    listenPort: 51820
    meshIp: 10.100.0.2
",
    );
    assert!(has_error(&r, |e| matches!(e, ValidationError::LocalShadowsGlobal { name, .. } if name.as_str() == "M")));
}

#[test]
fn local_name_shadowing_an_earlier_node_is_reported() {
    let r = report(
        "
meshNetwork: 10.100.0.0/24
nodes:
  M:
    publicKey: CCCC
    endpoint: 1.2.3.5
    listenPort: 51820
    meshIp: 10.100.0.2
  N:
    publicKey: AAAA
    endpoint: 1.2.3.4
    listenPort: 51820
    meshIp: 10.100.0.1
    zones:
      M:
        address: 192.168.1.1/24
",
    );
    assert!(has_error(&r, |e| matches!(e, ValidationError::LocalShadowsGlobal { name, .. } if name.as_str() == "M")));
}

#[test]
fn tag_equal_to_a_local_name_is_reported() {
    // Node N is tagged Z and has a zone named Z.
    let r = report(
        "
meshNetwork: 10.100.0.0/24
nodes:
  N:
    publicKey: AAAA
    endpoint: 1.2.3.4
    listenPort: 51820
    meshIp: 10.100.0.1
    tags: Z
    zones:
      Z:
        address: 192.168.1.1/24
",
    );
    assert!(has_error(&r, |e| matches!(e, ValidationError::TagWithNameCollision { tag, .. } if tag.as_str() == "Z")));
}

#[test]
fn unaddressed_client_source_gives_no_rule() {
    // Ghost has neither meshIp nor ips: it resolves to no address and matches no traffic.
    let yaml = "
meshNetwork: 10.100.0.0/24
nodes:
  Home:
    publicKey: AAAA
    endpoint: 1.2.3.4
    listenPort: 51820
    meshIp: 10.100.0.1
    services:
      ssh:
        port: 22
        proto: tcp
        allowFrom: Ghost
clients:
  Ghost: {}
";
    let r = report(yaml);
    assert!(r.errors.is_empty());
    let rules = ingress(yaml, "Home");
    assert!(rules.iter().all(|rule| rule.name != "Home_ssh"));
}
