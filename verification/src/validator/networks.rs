//! Addressing: the mesh network, the zones' and the VPN interfaces' networks must not
//! overlap, every address must lie in the network it belongs to, no address may be used
//! twice on one network, and a client may sit in at most one zone of a node.

use vstd::prelude::*;

use crate::config::{Client, Config, Node, NodeVpnInterface, NodeVpnInterfaceClient, NodeZone, NodeZoneDevice, ZoneOrVpnInterface};
use crate::entries::{find_key, lookup};
use crate::types::config_location::{ClientIpLoc, ClientLoc, ConfigLocation, DeviceLoc, NodeLoc, VpnClientLoc, VpnLoc, ZoneLoc};
use crate::types::identifier::Identifier;
use crate::types::ip::{Ipv4Addr, Ipv4Network, iface_ip, iface_network, net_contains, nets_overlap};
use crate::validator::types::{ErrorView, ValidationError, ValidationReport, errors_view};

verus! {

broadcast use {vstd::seq_lib::group_seq_properties, vstd::seq::Seq::group_seq_extra};

/// A network claimed by a place of the configuration: the network, the place, and the
/// errors of the addresses that must lie in it, found once the claim is accepted.
pub type Claim = (Ipv4Network, ConfigLocation, Seq<ErrorView>);

/// `i` is the first of `nets` that `n` overlaps.
pub open spec fn overlap_at(nets: Seq<Ipv4Network>, n: Ipv4Network, i: int) -> bool {
    &&& 0 <= i < nets.len()
    &&& nets_overlap(n@, nets[i]@)
    &&& forall|j: int| 0 <= j < i ==> !nets_overlap(n@, #[trigger] nets[j]@)
}

/// The first of `nets` that `n` overlaps.
pub open spec fn first_overlap(nets: Seq<Ipv4Network>, n: Ipv4Network) -> Option<Ipv4Network> {
    if exists|i: int| overlap_at(nets, n, i) {
        Some(nets[choose|i: int| overlap_at(nets, n, i)])
    } else {
        None
    }
}

/// A claim against the networks accepted so far: refused with a collision against the first
/// network it overlaps, or accepted with the errors of its addresses.
pub open spec fn claim_step(nets: Seq<Ipv4Network>, c: Claim) -> (Seq<Ipv4Network>, Seq<ErrorView>) {
    match first_overlap(nets, c.0) {
        Some(e) => (nets, seq![ErrorView::NetworkCollision { network: c.0, conflicting_with: e, at: c.1 }]),
        None => (nets.push(c.0), c.2),
    }
}

/// The claims in turn: the accepted networks and the errors.
pub open spec fn claims_run(nets: Seq<Ipv4Network>, cs: Seq<Claim>) -> (Seq<Ipv4Network>, Seq<ErrorView>)
    decreases cs.len(),
{
    if cs.len() == 0 {
        (nets, seq![])
    } else {
        let r = claims_run(nets, cs.drop_last());
        let s = claim_step(r.0, cs.last());
        (s.0, r.1 + s.1)
    }
}

/// The error of an address that must lie in `net`, if it does not.
pub open spec fn outside(ip: Ipv4Addr, net: Ipv4Network, at: ConfigLocation) -> Option<ErrorView> {
    if net_contains(net@, ip@) {
        None
    } else {
        Some(ErrorView::IpOutsideSubnet { ip, network: net, at })
    }
}

pub open spec fn client_mesh_fn(net: Ipv4Network) -> spec_fn((Identifier, Client)) -> Option<ErrorView> {
    |c: (Identifier, Client)|
        match c.1.mesh_ip {
            Some(ip) => outside(ip, net, ConfigLocation::Client(c.0, ClientLoc::MeshIp)),
            None => None,
        }
}

pub open spec fn node_mesh_fn(net: Ipv4Network) -> spec_fn((Identifier, Node)) -> Option<ErrorView> {
    |n: (Identifier, Node)| outside(n.1.mesh_ip, net, ConfigLocation::Node(n.0, NodeLoc::MeshIp))
}

/// The mesh network, with the clients' and then the nodes' mesh addresses.
pub open spec fn mesh_claim(config: Config) -> Claim {
    (
        config.mesh_network,
        ConfigLocation::MeshNetwork,
        config.clients@.filter_map(client_mesh_fn(config.mesh_network)) + config.nodes@.filter_map(
            node_mesh_fn(config.mesh_network),
        ),
    )
}

pub open spec fn device_ip_fn(node: Identifier, zone: Identifier, net: Ipv4Network) -> spec_fn(
    (Identifier, NodeZoneDevice),
) -> Option<ErrorView> {
    |d: (Identifier, NodeZoneDevice)|
        outside(d.1.ip, net, ConfigLocation::Node(node, NodeLoc::Zone(zone, ZoneLoc::Device(d.0, DeviceLoc::Ip))))
}

/// A zone's network, with its devices' addresses.
pub open spec fn zone_claim_fn(node: Identifier) -> spec_fn((Identifier, NodeZone)) -> Claim {
    |z: (Identifier, NodeZone)|
        (
            iface_network(z.1.address),
            ConfigLocation::Node(node, NodeLoc::Zone(z.0, ZoneLoc::Address)),
            z.1.devices@.filter_map(device_ip_fn(node, z.0, iface_network(z.1.address))),
        )
}

pub open spec fn zone_claims_fn() -> spec_fn((Identifier, Node)) -> Seq<Claim> {
    |n: (Identifier, Node)| n.1.zones@.map_values(zone_claim_fn(n.0))
}

pub open spec fn peer_ip_fn(node: Identifier, vpn: Identifier, net: Ipv4Network) -> spec_fn(
    (Identifier, NodeVpnInterfaceClient),
) -> Option<ErrorView> {
    |c: (Identifier, NodeVpnInterfaceClient)|
        outside(
            c.1.ip,
            net,
            ConfigLocation::Node(node, NodeLoc::VpnInterface(vpn, VpnLoc::Client(c.0, VpnClientLoc::Ip))),
        )
}

/// A VPN interface's network, with its peers' addresses.
pub open spec fn vpn_claim_fn(node: Identifier) -> spec_fn((Identifier, NodeVpnInterface)) -> Claim {
    |v: (Identifier, NodeVpnInterface)|
        (
            iface_network(v.1.address),
            ConfigLocation::Node(node, NodeLoc::VpnInterface(v.0, VpnLoc::Address)),
            v.1.clients@.filter_map(peer_ip_fn(node, v.0, iface_network(v.1.address))),
        )
}

pub open spec fn vpn_claims_fn() -> spec_fn((Identifier, Node)) -> Seq<Claim> {
    |n: (Identifier, Node)| n.1.vpn_interfaces@.map_values(vpn_claim_fn(n.0))
}

/// The errors of the claims: the mesh network first, then every zone, then every VPN
/// interface, each against the networks accepted before it.
pub open spec fn claim_errors(config: Config) -> Seq<ErrorView> {
    let m = claims_run(seq![], seq![mesh_claim(config)]);
    let z = claims_run(m.0, config.nodes@.flat_map(zone_claims_fn()));
    let v = claims_run(z.0, config.nodes@.flat_map(vpn_claims_fn()));
    m.1 + z.1 + v.1
}

proof fn lemma_overlap_at_unique(nets: Seq<Ipv4Network>, n: Ipv4Network, i: int, k: int)
    requires
        overlap_at(nets, n, i),
        overlap_at(nets, n, k),
    ensures
        i == k,
{
    if i < k {
        assert(!nets_overlap(n@, nets[i]@));
    } else if k < i {
        assert(!nets_overlap(n@, nets[k]@));
    }
}

/// One more claim after those done.
proof fn lemma_claims_push(nets: Seq<Ipv4Network>, cs: Seq<Claim>, c: Claim)
    ensures
        claims_run(nets, cs.push(c)) == ({
            let r = claims_run(nets, cs);
            let s = claim_step(r.0, c);
            (s.0, r.1 + s.1)
        }),
{
    assert(cs.push(c).drop_last() =~= cs);
}

/// Adds `network` to the accepted networks unless it overlaps one of them, which is then
/// reported.
fn add_network(
    network: Ipv4Network,
    networks: &mut Vec<Ipv4Network>,
    report: &mut ValidationReport,
    at: &ConfigLocation,
) -> (added: bool)
    ensures
        added == (first_overlap(old(networks)@, network) is None),
        final(networks)@ == claim_step(old(networks)@, (network, *at, seq![])).0,
        errors_view(final(report).errors@) == errors_view(old(report).errors@) + claim_step(
            old(networks)@,
            (network, *at, seq![]),
        ).1,
        final(report).warnings@ == old(report).warnings@,
{
    let mut i: usize = 0;
    while i < networks.len()
        invariant
            i <= networks@.len(),
            networks@ == old(networks)@,
            report.errors@ == old(report).errors@,
            report.warnings@ == old(report).warnings@,
            forall|j: int| 0 <= j < i ==> !nets_overlap(network@, #[trigger] networks@[j]@),
        decreases networks@.len() - i,
    {
        if network.overlap(networks[i]) {
            proof {
                assert(overlap_at(networks@, network, i as int));
                let k = choose|k: int| overlap_at(networks@, network, k);
                lemma_overlap_at_unique(networks@, network, i as int, k);
            }
            report.push_error(
                ValidationError::NetworkCollision { network, conflicting_with: networks[i], at: at.clone() },
            );
            return false;
        }
        i = i + 1;
    }
    assert(!exists|k: int| overlap_at(networks@, network, k));
    assert(errors_view(report.errors@) + Seq::<ErrorView>::empty() =~= errors_view(report.errors@));
    networks.push(network);
    true
}

/// Reports the clients whose mesh address lies outside the mesh network.
fn report_mesh_clients(config: &Config, report: &mut ValidationReport)
    ensures
        errors_view(final(report).errors@) == errors_view(old(report).errors@) + config.clients@.filter_map(
            client_mesh_fn(config.mesh_network),
        ),
        final(report).warnings@ == old(report).warnings@,
{
    let ghost eb = errors_view(report.errors@);
    let ghost f = client_mesh_fn(config.mesh_network);
    let mut i: usize = 0;
    while i < config.clients.len()
        invariant
            i <= config.clients@.len(),
            f == client_mesh_fn(config.mesh_network),
            report.warnings@ == old(report).warnings@,
            eb == errors_view(old(report).errors@),
            errors_view(report.errors@) == eb + config.clients@.take(i as int).filter_map(f),
        decreases config.clients@.len() - i,
    {
        let c = &config.clients[i];
        if let Some(ip) = c.1.mesh_ip {
            if !config.mesh_network.contains(ip) {
                report.push_error(ValidationError::IpOutsideSubnet {
                    ip,
                    network: config.mesh_network,
                    at: ConfigLocation::Client(c.0.clone(), ClientLoc::MeshIp),
                });
            }
        }
        proof {
            config.clients@.lemma_filter_map_take_succ(f, i as int);
        }
        i = i + 1;
    }
    assert(config.clients@.take(config.clients@.len() as int) =~= config.clients@);
}

fn report_mesh_nodes(config: &Config, report: &mut ValidationReport)
    ensures
        errors_view(final(report).errors@) == errors_view(old(report).errors@) + config.nodes@.filter_map(
            node_mesh_fn(config.mesh_network),
        ),
        final(report).warnings@ == old(report).warnings@,
{
    let ghost eb = errors_view(report.errors@);
    let ghost f = node_mesh_fn(config.mesh_network);
    let mut i: usize = 0;
    while i < config.nodes.len()
        invariant
            i <= config.nodes@.len(),
            f == node_mesh_fn(config.mesh_network),
            report.warnings@ == old(report).warnings@,
            eb == errors_view(old(report).errors@),
            errors_view(report.errors@) == eb + config.nodes@.take(i as int).filter_map(f),
        decreases config.nodes@.len() - i,
    {
        let n = &config.nodes[i];
        if !config.mesh_network.contains(n.1.mesh_ip) {
            report.push_error(ValidationError::IpOutsideSubnet {
                ip: n.1.mesh_ip,
                network: config.mesh_network,
                at: ConfigLocation::Node(n.0.clone(), NodeLoc::MeshIp),
            });
        }
        proof {
            config.nodes@.lemma_filter_map_take_succ(f, i as int);
        }
        i = i + 1;
    }
    assert(config.nodes@.take(config.nodes@.len() as int) =~= config.nodes@);
}

fn check_mesh_ips(config: &Config, report: &mut ValidationReport, networks: &mut Vec<Ipv4Network>)
    requires
        old(networks)@ == Seq::<Ipv4Network>::empty(),
    ensures
        final(networks)@ == claims_run(seq![], seq![mesh_claim(*config)]).0,
        errors_view(final(report).errors@) == errors_view(old(report).errors@) + claims_run(
            seq![],
            seq![mesh_claim(*config)],
        ).1,
        final(report).warnings@ == old(report).warnings@,
{
    proof {
        lemma_claims_push(seq![], seq![], mesh_claim(*config));
        assert(seq![mesh_claim(*config)] =~= Seq::<Claim>::empty().push(mesh_claim(*config)));
    }
    if !add_network(config.mesh_network, networks, report, &ConfigLocation::MeshNetwork) {
        return ;
    }
    report_mesh_clients(config, report);
    report_mesh_nodes(config, report);
}

fn report_devices(
    node: &Identifier,
    zone: &Identifier,
    net: Ipv4Network,
    devices: &Vec<(Identifier, NodeZoneDevice)>,
    report: &mut ValidationReport,
)
    ensures
        errors_view(final(report).errors@) == errors_view(old(report).errors@) + devices@.filter_map(
            device_ip_fn(*node, *zone, net),
        ),
        final(report).warnings@ == old(report).warnings@,
{
    let ghost eb = errors_view(report.errors@);
    let ghost f = device_ip_fn(*node, *zone, net);
    let mut i: usize = 0;
    while i < devices.len()
        invariant
            i <= devices@.len(),
            f == device_ip_fn(*node, *zone, net),
            report.warnings@ == old(report).warnings@,
            eb == errors_view(old(report).errors@),
            errors_view(report.errors@) == eb + devices@.take(i as int).filter_map(f),
        decreases devices@.len() - i,
    {
        let d = &devices[i];
        if !net.contains(d.1.ip) {
            report.push_error(ValidationError::IpOutsideSubnet {
                ip: d.1.ip,
                network: net,
                at: ConfigLocation::Node(
                    node.clone(),
                    NodeLoc::Zone(zone.clone(), ZoneLoc::Device(d.0.clone(), DeviceLoc::Ip)),
                ),
            });
        }
        proof {
            devices@.lemma_filter_map_take_succ(f, i as int);
        }
        i = i + 1;
    }
    assert(devices@.take(devices@.len() as int) =~= devices@);
}

fn report_peers(
    node: &Identifier,
    vpn: &Identifier,
    net: Ipv4Network,
    peers: &Vec<(Identifier, NodeVpnInterfaceClient)>,
    report: &mut ValidationReport,
)
    ensures
        errors_view(final(report).errors@) == errors_view(old(report).errors@) + peers@.filter_map(
            peer_ip_fn(*node, *vpn, net),
        ),
        final(report).warnings@ == old(report).warnings@,
{
    let ghost eb = errors_view(report.errors@);
    let ghost f = peer_ip_fn(*node, *vpn, net);
    let mut i: usize = 0;
    while i < peers.len()
        invariant
            i <= peers@.len(),
            f == peer_ip_fn(*node, *vpn, net),
            report.warnings@ == old(report).warnings@,
            eb == errors_view(old(report).errors@),
            errors_view(report.errors@) == eb + peers@.take(i as int).filter_map(f),
        decreases peers@.len() - i,
    {
        let c = &peers[i];
        if !net.contains(c.1.ip) {
            report.push_error(ValidationError::IpOutsideSubnet {
                ip: c.1.ip,
                network: net,
                at: ConfigLocation::Node(
                    node.clone(),
                    NodeLoc::VpnInterface(vpn.clone(), VpnLoc::Client(c.0.clone(), VpnClientLoc::Ip)),
                ),
            });
        }
        proof {
            peers@.lemma_filter_map_take_succ(f, i as int);
        }
        i = i + 1;
    }
    assert(peers@.take(peers@.len() as int) =~= peers@);
}

#[verifier::spinoff_prover]
#[verifier::rlimit(40)]
fn check_zones_ips(config: &Config, report: &mut ValidationReport, networks: &mut Vec<Ipv4Network>)
    ensures
        final(networks)@ == claims_run(old(networks)@, config.nodes@.flat_map(zone_claims_fn())).0,
        errors_view(final(report).errors@) == errors_view(old(report).errors@) + claims_run(
            old(networks)@,
            config.nodes@.flat_map(zone_claims_fn()),
        ).1,
        final(report).warnings@ == old(report).warnings@,
{
    let ghost n0 = networks@;
    let ghost eb = errors_view(report.errors@);
    let mut ni: usize = 0;
    while ni < config.nodes.len()
        invariant
            ni <= config.nodes@.len(),
            n0 == old(networks)@,
            eb == errors_view(old(report).errors@),
            report.warnings@ == old(report).warnings@,
            networks@ == claims_run(n0, config.nodes@.take(ni as int).flat_map(zone_claims_fn())).0,
            errors_view(report.errors@) == eb + claims_run(
                n0,
                config.nodes@.take(ni as int).flat_map(zone_claims_fn()),
            ).1,
        decreases config.nodes@.len() - ni,
    {
        let n = &config.nodes[ni];
        let ghost done0 = config.nodes@.take(ni as int).flat_map(zone_claims_fn());
        let ghost f = zone_claim_fn(n.0);
        let mut zi: usize = 0;
        while zi < n.1.zones.len()
            invariant
                zi <= n.1.zones@.len(),
                f == zone_claim_fn(n.0),
                eb == errors_view(old(report).errors@),
                report.warnings@ == old(report).warnings@,
                networks@ == claims_run(n0, done0 + n.1.zones@.take(zi as int).map_values(f)).0,
                errors_view(report.errors@) == eb + claims_run(
                    n0,
                    done0 + n.1.zones@.take(zi as int).map_values(f),
                ).1,
            decreases n.1.zones@.len() - zi,
        {
            let z = &n.1.zones[zi];
            let ghost done = done0 + n.1.zones@.take(zi as int).map_values(f);
            let ghost c = f(*z);
            proof {
                lemma_claims_push(n0, done, c);
                assert(done.push(c) =~= done0 + n.1.zones@.take(zi + 1).map_values(f));
            }
            let zone_network = z.1.address.network();
            let at = ConfigLocation::Node(n.0.clone(), NodeLoc::Zone(z.0.clone(), ZoneLoc::Address));
            if add_network(zone_network, networks, report, &at) {
                report_devices(&n.0, &z.0, zone_network, &z.1.devices, report);
            }
            zi = zi + 1;
        }
        proof {
            assert(n.1.zones@.take(n.1.zones@.len() as int) =~= n.1.zones@);
            assert(config.nodes@.take(ni + 1) =~= config.nodes@.take(ni as int).push(*n));
            config.nodes@.take(ni as int).lemma_flat_map_push(zone_claims_fn(), *n);
        }
        ni = ni + 1;
    }
    assert(config.nodes@.take(config.nodes@.len() as int) =~= config.nodes@);
}

#[verifier::spinoff_prover]
#[verifier::rlimit(40)]
fn check_vpn_interfaces_ips(config: &Config, report: &mut ValidationReport, networks: &mut Vec<Ipv4Network>)
    ensures
        final(networks)@ == claims_run(old(networks)@, config.nodes@.flat_map(vpn_claims_fn())).0,
        errors_view(final(report).errors@) == errors_view(old(report).errors@) + claims_run(
            old(networks)@,
            config.nodes@.flat_map(vpn_claims_fn()),
        ).1,
        final(report).warnings@ == old(report).warnings@,
{
    let ghost n0 = networks@;
    let ghost eb = errors_view(report.errors@);
    let mut ni: usize = 0;
    while ni < config.nodes.len()
        invariant
            ni <= config.nodes@.len(),
            n0 == old(networks)@,
            eb == errors_view(old(report).errors@),
            report.warnings@ == old(report).warnings@,
            networks@ == claims_run(n0, config.nodes@.take(ni as int).flat_map(vpn_claims_fn())).0,
            errors_view(report.errors@) == eb + claims_run(
                n0,
                config.nodes@.take(ni as int).flat_map(vpn_claims_fn()),
            ).1,
        decreases config.nodes@.len() - ni,
    {
        let n = &config.nodes[ni];
        let ghost done0 = config.nodes@.take(ni as int).flat_map(vpn_claims_fn());
        let ghost f = vpn_claim_fn(n.0);
        let mut vi: usize = 0;
        while vi < n.1.vpn_interfaces.len()
            invariant
                vi <= n.1.vpn_interfaces@.len(),
                f == vpn_claim_fn(n.0),
                eb == errors_view(old(report).errors@),
                report.warnings@ == old(report).warnings@,
                networks@ == claims_run(n0, done0 + n.1.vpn_interfaces@.take(vi as int).map_values(f)).0,
                errors_view(report.errors@) == eb + claims_run(
                    n0,
                    done0 + n.1.vpn_interfaces@.take(vi as int).map_values(f),
                ).1,
            decreases n.1.vpn_interfaces@.len() - vi,
        {
            let v = &n.1.vpn_interfaces[vi];
            let ghost done = done0 + n.1.vpn_interfaces@.take(vi as int).map_values(f);
            let ghost c = f(*v);
            proof {
                lemma_claims_push(n0, done, c);
                assert(done.push(c) =~= done0 + n.1.vpn_interfaces@.take(vi + 1).map_values(f));
            }
            let vpn_network = v.1.address.network();
            let at = ConfigLocation::Node(n.0.clone(), NodeLoc::VpnInterface(v.0.clone(), VpnLoc::Address));
            if add_network(vpn_network, networks, report, &at) {
                report_peers(&n.0, &v.0, vpn_network, &v.1.clients, report);
            }
            vi = vi + 1;
        }
        proof {
            assert(n.1.vpn_interfaces@.take(n.1.vpn_interfaces@.len() as int) =~= n.1.vpn_interfaces@);
            assert(config.nodes@.take(ni + 1) =~= config.nodes@.take(ni as int).push(*n));
            config.nodes@.take(ni as int).lemma_flat_map_push(vpn_claims_fn(), *n);
        }
        ni = ni + 1;
    }
    assert(config.nodes@.take(config.nodes@.len() as int) =~= config.nodes@);
}

/// The network named `name` on a node (zones first).
pub open spec fn node_net_of(node: Node, name: Seq<char>) -> Option<Ipv4Network> {
    match lookup(node.zones@, name) {
        Some(z) => Some(iface_network(z.address)),
        None => match lookup(node.vpn_interfaces@, name) {
            Some(v) => Some(iface_network(v.address)),
            None => None,
        },
    }
}

/// Where a client's address on a node's network is written.
pub open spec fn client_ip_loc(client: Identifier, node: Identifier, net: Identifier) -> ConfigLocation {
    ConfigLocation::Client(client, ClientLoc::Ip(node, ClientIpLoc::Network(net)))
}

pub open spec fn client_net_ip_fn(client: Identifier, node_name: Identifier, node: Node) -> spec_fn(
    (Identifier, Ipv4Addr),
) -> Option<ErrorView> {
    |e: (Identifier, Ipv4Addr)|
        match node_net_of(node, e.0@) {
            Some(net) => outside(e.1, net, client_ip_loc(client, node_name, e.0)),
            None => None,
        }
}

pub open spec fn client_node_ips_fn(config: Config, client: Identifier) -> spec_fn(
    (Identifier, Vec<(Identifier, Ipv4Addr)>),
) -> Seq<ErrorView> {
    |g: (Identifier, Vec<(Identifier, Ipv4Addr)>)|
        match lookup(config.nodes@, g.0@) {
            Some(node) => g.1@.filter_map(client_net_ip_fn(client, g.0, node)),
            None => seq![],
        }
}

pub open spec fn client_ips_fn(config: Config) -> spec_fn((Identifier, Client)) -> Seq<ErrorView> {
    |c: (Identifier, Client)| c.1.ips@.flat_map(client_node_ips_fn(config, c.0))
}

/// The clients' addresses on the networks of existing nodes that lie outside them.
pub open spec fn client_ip_errors(config: Config) -> Seq<ErrorView> {
    config.clients@.flat_map(client_ips_fn(config))
}

fn report_client_node_ips(
    client: &Identifier,
    node_name: &Identifier,
    node: &Node,
    nets: &Vec<(Identifier, Ipv4Addr)>,
    report: &mut ValidationReport,
)
    ensures
        errors_view(final(report).errors@) == errors_view(old(report).errors@) + nets@.filter_map(
            client_net_ip_fn(*client, *node_name, *node),
        ),
        final(report).warnings@ == old(report).warnings@,
{
    let ghost eb = errors_view(report.errors@);
    let ghost f = client_net_ip_fn(*client, *node_name, *node);
    let mut i: usize = 0;
    while i < nets.len()
        invariant
            i <= nets@.len(),
            f == client_net_ip_fn(*client, *node_name, *node),
            report.warnings@ == old(report).warnings@,
            eb == errors_view(old(report).errors@),
            errors_view(report.errors@) == eb + nets@.take(i as int).filter_map(f),
        decreases nets@.len() - i,
    {
        let e = &nets[i];
        let net = match node.network_by_name(&e.0) {
            Some(iface) => Some(iface.address().network()),
            None => None,
        };
        assert(net == node_net_of(*node, e.0@));
        if let Some(net) = net {
            if !net.contains(e.1) {
                report.push_error(ValidationError::IpOutsideSubnet {
                    ip: e.1,
                    network: net,
                    at: ConfigLocation::Client(
                        client.clone(),
                        ClientLoc::Ip(node_name.clone(), ClientIpLoc::Network(e.0.clone())),
                    ),
                });
            }
        }
        proof {
            nets@.lemma_filter_map_take_succ(f, i as int);
        }
        i = i + 1;
    }
    assert(nets@.take(nets@.len() as int) =~= nets@);
}

#[verifier::spinoff_prover]
#[verifier::rlimit(40)]
fn check_clients_ips(config: &Config, report: &mut ValidationReport)
    ensures
        errors_view(final(report).errors@) == errors_view(old(report).errors@) + client_ip_errors(*config),
        final(report).warnings@ == old(report).warnings@,
{
    let ghost eb = errors_view(report.errors@);
    let mut ci: usize = 0;
    while ci < config.clients.len()
        invariant
            ci <= config.clients@.len(),
            eb == errors_view(old(report).errors@),
            report.warnings@ == old(report).warnings@,
            errors_view(report.errors@) == eb + config.clients@.take(ci as int).flat_map(client_ips_fn(*config)),
        decreases config.clients@.len() - ci,
    {
        let c = &config.clients[ci];
        let ghost before = errors_view(report.errors@);
        let ghost g = client_node_ips_fn(*config, c.0);
        let mut gi: usize = 0;
        while gi < c.1.ips.len()
            invariant
                gi <= c.1.ips@.len(),
                g == client_node_ips_fn(*config, c.0),
                report.warnings@ == old(report).warnings@,
                errors_view(report.errors@) == before + c.1.ips@.take(gi as int).flat_map(g),
            decreases c.1.ips@.len() - gi,
        {
            let e = &c.1.ips[gi];
            match find_key(&config.nodes, &e.0) {
                Some(k) => {
                    report_client_node_ips(&c.0, &e.0, &config.nodes[k].1, &e.1, report);
                },
                None => {},
            }
            proof {
                assert(c.1.ips@.take(gi + 1) =~= c.1.ips@.take(gi as int).push(*e));
                c.1.ips@.take(gi as int).lemma_flat_map_push(g, *e);
            }
            gi = gi + 1;
        }
        proof {
            assert(c.1.ips@.take(c.1.ips@.len() as int) =~= c.1.ips@);
            assert(config.clients@.take(ci + 1) =~= config.clients@.take(ci as int).push(*c));
            config.clients@.take(ci as int).lemma_flat_map_push(client_ips_fn(*config), *c);
        }
        ci = ci + 1;
    }
    assert(config.clients@.take(config.clients@.len() as int) =~= config.clients@);
}

/// An address together with the place that uses it.
pub type IpEntry = (Ipv4Addr, ConfigLocation);

/// `i` is the first entry of `s` for `ip`.
pub open spec fn ip_at(s: Seq<IpEntry>, ip: Ipv4Addr, i: int) -> bool {
    &&& 0 <= i < s.len()
    &&& s[i].0 == ip
    &&& forall|j: int| 0 <= j < i ==> (#[trigger] s[j]).0 != ip
}

/// The place that took `ip` first.
pub open spec fn ip_owner(s: Seq<IpEntry>, ip: Ipv4Addr) -> Option<ConfigLocation> {
    if exists|i: int| ip_at(s, ip, i) {
        Some(s[choose|i: int| ip_at(s, ip, i)].1)
    } else {
        None
    }
}

/// An address taken already is a collision with the place that took it; a new one is
/// recorded.
pub open spec fn ip_step(s: Seq<IpEntry>, e: IpEntry) -> (Seq<IpEntry>, Seq<ErrorView>) {
    match ip_owner(s, e.0) {
        Some(w) => (s, seq![ErrorView::IpCollision { ip: e.0, at: e.1, with: w }]),
        None => (s.push(e), seq![]),
    }
}

/// The entries in turn.
pub open spec fn ips_run(s: Seq<IpEntry>, es: Seq<IpEntry>) -> (Seq<IpEntry>, Seq<ErrorView>)
    decreases es.len(),
{
    if es.len() == 0 {
        (s, seq![])
    } else {
        let r = ips_run(s, es.drop_last());
        let t = ip_step(r.0, es.last());
        (t.0, r.1 + t.1)
    }
}

pub open spec fn client_mesh_entry_fn() -> spec_fn((Identifier, Client)) -> Option<IpEntry> {
    |c: (Identifier, Client)|
        match c.1.mesh_ip {
            Some(ip) => Some((ip, ConfigLocation::Client(c.0, ClientLoc::MeshIp))),
            None => None,
        }
}

pub open spec fn node_mesh_entry_fn() -> spec_fn((Identifier, Node)) -> IpEntry {
    |n: (Identifier, Node)| (n.1.mesh_ip, ConfigLocation::Node(n.0, NodeLoc::MeshIp))
}

/// The mesh addresses: the clients' and then the nodes'.
pub open spec fn mesh_entries(config: Config) -> Seq<IpEntry> {
    config.clients@.filter_map(client_mesh_entry_fn()) + config.nodes@.map_values(node_mesh_entry_fn())
}

/// A client's address on a node's network, looked up by names.
pub open spec fn client_addr(c: Client, node: Seq<char>, net: Seq<char>) -> Option<Ipv4Addr> {
    match lookup(c.ips@, node) {
        Some(nets) => lookup(nets@, net),
        None => None,
    }
}

pub open spec fn client_net_entry_fn(node: Identifier, net: Identifier) -> spec_fn((Identifier, Client)) -> Option<
    IpEntry,
> {
    |c: (Identifier, Client)|
        match client_addr(c.1, node@, net@) {
            Some(ip) => Some((ip, client_ip_loc(c.0, node, net))),
            None => None,
        }
}

/// The clients' addresses on network `net` of node `node`.
pub open spec fn client_net_entries(config: Config, node: Identifier, net: Identifier) -> Seq<IpEntry> {
    config.clients@.filter_map(client_net_entry_fn(node, net))
}

pub open spec fn device_entry_fn(node: Identifier, zone: Identifier) -> spec_fn((Identifier, NodeZoneDevice)) -> IpEntry {
    |d: (Identifier, NodeZoneDevice)|
        (d.1.ip, ConfigLocation::Node(node, NodeLoc::Zone(zone, ZoneLoc::Device(d.0, DeviceLoc::Ip))))
}

pub open spec fn peer_entry_fn(node: Identifier, vpn: Identifier) -> spec_fn((Identifier, NodeVpnInterfaceClient)) -> IpEntry {
    |c: (Identifier, NodeVpnInterfaceClient)|
        (c.1.ip, ConfigLocation::Node(node, NodeLoc::VpnInterface(vpn, VpnLoc::Client(c.0, VpnClientLoc::Ip))))
}

/// On a zone: the router's address first, then the devices', then the clients'.
pub open spec fn zone_ips_fn(config: Config, node: Identifier) -> spec_fn((Identifier, NodeZone)) -> Seq<ErrorView> {
    |z: (Identifier, NodeZone)|
        ips_run(
            seq![(iface_ip(z.1.address), ConfigLocation::Node(node, NodeLoc::Zone(z.0, ZoneLoc::Address)))],
            z.1.devices@.map_values(device_entry_fn(node, z.0)) + client_net_entries(config, node, z.0),
        ).1
}

pub open spec fn node_zone_ips_fn(config: Config) -> spec_fn((Identifier, Node)) -> Seq<ErrorView> {
    |n: (Identifier, Node)| n.1.zones@.flat_map(zone_ips_fn(config, n.0))
}

/// On a VPN interface: the router's address first, then the peers', then the clients'.
pub open spec fn vpn_ips_fn(config: Config, node: Identifier) -> spec_fn((Identifier, NodeVpnInterface)) -> Seq<
    ErrorView,
> {
    |v: (Identifier, NodeVpnInterface)|
        ips_run(
            seq![(iface_ip(v.1.address), ConfigLocation::Node(node, NodeLoc::VpnInterface(v.0, VpnLoc::Address)))],
            v.1.clients@.map_values(peer_entry_fn(node, v.0)) + client_net_entries(config, node, v.0),
        ).1
}

pub open spec fn node_vpn_ips_fn(config: Config) -> spec_fn((Identifier, Node)) -> Seq<ErrorView> {
    |n: (Identifier, Node)| n.1.vpn_interfaces@.flat_map(vpn_ips_fn(config, n.0))
}

/// The addresses used twice: in the mesh, then on each zone, then on each VPN interface.
pub open spec fn ip_collision_errors(config: Config) -> Seq<ErrorView> {
    ips_run(seq![], mesh_entries(config)).1 + config.nodes@.flat_map(node_zone_ips_fn(config))
        + config.nodes@.flat_map(node_vpn_ips_fn(config))
}

proof fn lemma_ip_at_unique(s: Seq<IpEntry>, ip: Ipv4Addr, i: int, k: int)
    requires
        ip_at(s, ip, i),
        ip_at(s, ip, k),
    ensures
        i == k,
{
    if i < k {
        assert(s[i].0 != ip);
    } else if k < i {
        assert(s[k].0 != ip);
    }
}

/// Records `ip` for the place `at`, or reports the collision with the place that took it.
fn try_insert_ip(ips: &mut Vec<IpEntry>, ip: Ipv4Addr, report: &mut ValidationReport, at: ConfigLocation)
    ensures
        final(ips)@ == ip_step(old(ips)@, (ip, at)).0,
        errors_view(final(report).errors@) == errors_view(old(report).errors@) + ip_step(old(ips)@, (ip, at)).1,
        final(report).warnings@ == old(report).warnings@,
{
    let mut i: usize = 0;
    while i < ips.len()
        invariant
            i <= ips@.len(),
            ips@ == old(ips)@,
            report.errors@ == old(report).errors@,
            report.warnings@ == old(report).warnings@,
            forall|j: int| 0 <= j < i ==> (#[trigger] ips@[j]).0 != ip,
        decreases ips@.len() - i,
    {
        if ips[i].0 == ip {
            proof {
                assert(ip_at(ips@, ip, i as int));
                let k = choose|k: int| ip_at(ips@, ip, k);
                lemma_ip_at_unique(ips@, ip, i as int, k);
            }
            report.push_error(ValidationError::IpCollision { ip, at, with: ips[i].1.clone() });
            return ;
        }
        i = i + 1;
    }
    assert(!exists|k: int| ip_at(ips@, ip, k));
    assert(errors_view(report.errors@) + Seq::<ErrorView>::empty() =~= errors_view(report.errors@));
    ips.push((ip, at));
}

/// Takes the entries in turn.
fn run_ips(ips: &mut Vec<IpEntry>, entries: Vec<IpEntry>, report: &mut ValidationReport)
    ensures
        final(ips)@ == ips_run(old(ips)@, entries@).0,
        errors_view(final(report).errors@) == errors_view(old(report).errors@) + ips_run(old(ips)@, entries@).1,
        final(report).warnings@ == old(report).warnings@,
{
    let ghost s0 = ips@;
    let ghost eb = errors_view(report.errors@);
    let mut i: usize = 0;
    while i < entries.len()
        invariant
            i <= entries@.len(),
            s0 == old(ips)@,
            eb == errors_view(old(report).errors@),
            report.warnings@ == old(report).warnings@,
            ips@ == ips_run(s0, entries@.take(i as int)).0,
            errors_view(report.errors@) == eb + ips_run(s0, entries@.take(i as int)).1,
        decreases entries@.len() - i,
    {
        let e = &entries[i];
        proof {
            assert(entries@.take(i + 1).drop_last() =~= entries@.take(i as int));
        }
        try_insert_ip(ips, e.0, report, e.1.clone());
        i = i + 1;
    }
    assert(entries@.take(entries@.len() as int) =~= entries@);
}

fn mesh_entry_list(config: &Config) -> (r: Vec<IpEntry>)
    ensures
        r@ == mesh_entries(*config),
{
    let mut r: Vec<IpEntry> = Vec::new();
    let ghost f = client_mesh_entry_fn();
    let mut i: usize = 0;
    while i < config.clients.len()
        invariant
            i <= config.clients@.len(),
            f == client_mesh_entry_fn(),
            r@ == config.clients@.take(i as int).filter_map(f),
        decreases config.clients@.len() - i,
    {
        let c = &config.clients[i];
        if let Some(ip) = c.1.mesh_ip {
            r.push((ip, ConfigLocation::Client(c.0.clone(), ClientLoc::MeshIp)));
        }
        proof {
            config.clients@.lemma_filter_map_take_succ(f, i as int);
        }
        i = i + 1;
    }
    assert(config.clients@.take(config.clients@.len() as int) =~= config.clients@);
    let ghost head = r@;
    let ghost g = node_mesh_entry_fn();
    let mut k: usize = 0;
    while k < config.nodes.len()
        invariant
            k <= config.nodes@.len(),
            g == node_mesh_entry_fn(),
            head == config.clients@.filter_map(client_mesh_entry_fn()),
            r@ == head + config.nodes@.take(k as int).map_values(g),
        decreases config.nodes@.len() - k,
    {
        let n = &config.nodes[k];
        r.push((n.1.mesh_ip, ConfigLocation::Node(n.0.clone(), NodeLoc::MeshIp)));
        assert(config.nodes@.take(k + 1).map_values(g) =~= config.nodes@.take(k as int).map_values(g).push(g(*n)));
        k = k + 1;
    }
    assert(config.nodes@.take(config.nodes@.len() as int) =~= config.nodes@);
    r
}

/// Appends the clients' addresses on network `net` of node `node`.
fn push_client_net_entries(config: &Config, node: &Identifier, net: &Identifier, r: &mut Vec<IpEntry>)
    ensures
        final(r)@ == old(r)@ + client_net_entries(*config, *node, *net),
{
    let ghost head = r@;
    let ghost f = client_net_entry_fn(*node, *net);
    let mut i: usize = 0;
    while i < config.clients.len()
        invariant
            i <= config.clients@.len(),
            f == client_net_entry_fn(*node, *net),
            head == old(r)@,
            r@ == head + config.clients@.take(i as int).filter_map(f),
        decreases config.clients@.len() - i,
    {
        let c = &config.clients[i];
        if let Some(ip) = c.1.network_by_name(node, net) {
            r.push((ip, ConfigLocation::Client(c.0.clone(), ClientLoc::Ip(node.clone(), ClientIpLoc::Network(net.clone())))));
        }
        proof {
            config.clients@.lemma_filter_map_take_succ(f, i as int);
        }
        i = i + 1;
    }
    assert(config.clients@.take(config.clients@.len() as int) =~= config.clients@);
}

fn check_mesh_ip_uniqueness(config: &Config, report: &mut ValidationReport)
    ensures
        errors_view(final(report).errors@) == errors_view(old(report).errors@) + ips_run(
            seq![],
            mesh_entries(*config),
        ).1,
        final(report).warnings@ == old(report).warnings@,
{
    let mut ips: Vec<IpEntry> = Vec::new();
    let entries = mesh_entry_list(config);
    run_ips(&mut ips, entries, report);
}

fn zone_ips(config: &Config, node: &Identifier, z: &(Identifier, NodeZone), report: &mut ValidationReport)
    ensures
        errors_view(final(report).errors@) == errors_view(old(report).errors@) + zone_ips_fn(*config, *node)(*z),
        final(report).warnings@ == old(report).warnings@,
{
    let mut ips: Vec<IpEntry> = Vec::new();
    ips.push((z.1.address.ip(), ConfigLocation::Node(node.clone(), NodeLoc::Zone(z.0.clone(), ZoneLoc::Address))));
    let mut entries: Vec<IpEntry> = Vec::new();
    let ghost f = device_entry_fn(*node, z.0);
    let mut i: usize = 0;
    while i < z.1.devices.len()
        invariant
            i <= z.1.devices@.len(),
            f == device_entry_fn(*node, z.0),
            entries@ == z.1.devices@.take(i as int).map_values(f),
        decreases z.1.devices@.len() - i,
    {
        let d = &z.1.devices[i];
        entries.push((d.1.ip, ConfigLocation::Node(node.clone(), NodeLoc::Zone(z.0.clone(), ZoneLoc::Device(d.0.clone(), DeviceLoc::Ip)))));
        assert(z.1.devices@.take(i + 1).map_values(f) =~= z.1.devices@.take(i as int).map_values(f).push(f(*d)));
        i = i + 1;
    }
    assert(z.1.devices@.take(z.1.devices@.len() as int) =~= z.1.devices@);
    push_client_net_entries(config, node, &z.0, &mut entries);
    run_ips(&mut ips, entries, report);
}

fn vpn_ips(config: &Config, node: &Identifier, v: &(Identifier, NodeVpnInterface), report: &mut ValidationReport)
    ensures
        errors_view(final(report).errors@) == errors_view(old(report).errors@) + vpn_ips_fn(*config, *node)(*v),
        final(report).warnings@ == old(report).warnings@,
{
    let mut ips: Vec<IpEntry> = Vec::new();
    ips.push((v.1.address.ip(), ConfigLocation::Node(node.clone(), NodeLoc::VpnInterface(v.0.clone(), VpnLoc::Address))));
    let mut entries: Vec<IpEntry> = Vec::new();
    let ghost f = peer_entry_fn(*node, v.0);
    let mut i: usize = 0;
    while i < v.1.clients.len()
        invariant
            i <= v.1.clients@.len(),
            f == peer_entry_fn(*node, v.0),
            entries@ == v.1.clients@.take(i as int).map_values(f),
        decreases v.1.clients@.len() - i,
    {
        let c = &v.1.clients[i];
        entries.push((c.1.ip, ConfigLocation::Node(node.clone(), NodeLoc::VpnInterface(v.0.clone(), VpnLoc::Client(c.0.clone(), VpnClientLoc::Ip)))));
        assert(v.1.clients@.take(i + 1).map_values(f) =~= v.1.clients@.take(i as int).map_values(f).push(f(*c)));
        i = i + 1;
    }
    assert(v.1.clients@.take(v.1.clients@.len() as int) =~= v.1.clients@);
    push_client_net_entries(config, node, &v.0, &mut entries);
    run_ips(&mut ips, entries, report);
}

#[verifier::spinoff_prover]
#[verifier::rlimit(40)]
fn check_zone_ip_uniqueness(config: &Config, report: &mut ValidationReport)
    ensures
        errors_view(final(report).errors@) == errors_view(old(report).errors@) + config.nodes@.flat_map(
            node_zone_ips_fn(*config),
        ),
        final(report).warnings@ == old(report).warnings@,
{
    let ghost eb = errors_view(report.errors@);
    let mut ni: usize = 0;
    while ni < config.nodes.len()
        invariant
            ni <= config.nodes@.len(),
            eb == errors_view(old(report).errors@),
            report.warnings@ == old(report).warnings@,
            errors_view(report.errors@) == eb + config.nodes@.take(ni as int).flat_map(node_zone_ips_fn(*config)),
        decreases config.nodes@.len() - ni,
    {
        let n = &config.nodes[ni];
        let ghost before = errors_view(report.errors@);
        let ghost g = zone_ips_fn(*config, n.0);
        let mut zi: usize = 0;
        while zi < n.1.zones.len()
            invariant
                zi <= n.1.zones@.len(),
                g == zone_ips_fn(*config, n.0),
                report.warnings@ == old(report).warnings@,
                errors_view(report.errors@) == before + n.1.zones@.take(zi as int).flat_map(g),
            decreases n.1.zones@.len() - zi,
        {
            let z = &n.1.zones[zi];
            zone_ips(config, &n.0, z, report);
            proof {
                assert(n.1.zones@.take(zi + 1) =~= n.1.zones@.take(zi as int).push(*z));
                n.1.zones@.take(zi as int).lemma_flat_map_push(g, *z);
            }
            zi = zi + 1;
        }
        proof {
            assert(n.1.zones@.take(n.1.zones@.len() as int) =~= n.1.zones@);
            assert(config.nodes@.take(ni + 1) =~= config.nodes@.take(ni as int).push(*n));
            config.nodes@.take(ni as int).lemma_flat_map_push(node_zone_ips_fn(*config), *n);
        }
        ni = ni + 1;
    }
    assert(config.nodes@.take(config.nodes@.len() as int) =~= config.nodes@);
}

#[verifier::spinoff_prover]
#[verifier::rlimit(40)]
fn check_vpn_interface_ip_uniqueness(config: &Config, report: &mut ValidationReport)
    ensures
        errors_view(final(report).errors@) == errors_view(old(report).errors@) + config.nodes@.flat_map(
            node_vpn_ips_fn(*config),
        ),
        final(report).warnings@ == old(report).warnings@,
{
    let ghost eb = errors_view(report.errors@);
    let mut ni: usize = 0;
    while ni < config.nodes.len()
        invariant
            ni <= config.nodes@.len(),
            eb == errors_view(old(report).errors@),
            report.warnings@ == old(report).warnings@,
            errors_view(report.errors@) == eb + config.nodes@.take(ni as int).flat_map(node_vpn_ips_fn(*config)),
        decreases config.nodes@.len() - ni,
    {
        let n = &config.nodes[ni];
        let ghost before = errors_view(report.errors@);
        let ghost g = vpn_ips_fn(*config, n.0);
        let mut vi: usize = 0;
        while vi < n.1.vpn_interfaces.len()
            invariant
                vi <= n.1.vpn_interfaces@.len(),
                g == vpn_ips_fn(*config, n.0),
                report.warnings@ == old(report).warnings@,
                errors_view(report.errors@) == before + n.1.vpn_interfaces@.take(vi as int).flat_map(g),
            decreases n.1.vpn_interfaces@.len() - vi,
        {
            let v = &n.1.vpn_interfaces[vi];
            vpn_ips(config, &n.0, v, report);
            proof {
                assert(n.1.vpn_interfaces@.take(vi + 1) =~= n.1.vpn_interfaces@.take(vi as int).push(*v));
                n.1.vpn_interfaces@.take(vi as int).lemma_flat_map_push(g, *v);
            }
            vi = vi + 1;
        }
        proof {
            assert(n.1.vpn_interfaces@.take(n.1.vpn_interfaces@.len() as int) =~= n.1.vpn_interfaces@);
            assert(config.nodes@.take(ni + 1) =~= config.nodes@.take(ni as int).push(*n));
            config.nodes@.take(ni as int).lemma_flat_map_push(node_vpn_ips_fn(*config), *n);
        }
        ni = ni + 1;
    }
    assert(config.nodes@.take(config.nodes@.len() as int) =~= config.nodes@);
}

pub open spec fn zone_name_fn(node: Node) -> spec_fn((Identifier, Ipv4Addr)) -> Option<Identifier> {
    |e: (Identifier, Ipv4Addr)|
        if lookup(node.zones@, e.0@) is Some {
            Some(e.0)
        } else {
            None
        }
}

/// Every zone after the first one a client has an address on, against that first one.
pub open spec fn many_zones(client: Identifier, node_name: Identifier, zs: Seq<Identifier>) -> Seq<ErrorView> {
    if zs.len() == 0 {
        seq![]
    } else {
        zs.drop_first().map_values(
            |z: Identifier|
                ErrorView::NodeClientManyZones {
                    zone_name: z,
                    existing_zone: client_ip_loc(client, node_name, zs[0]),
                    at: client_ip_loc(client, node_name, z),
                },
        )
    }
}

pub open spec fn client_zone_group_fn(config: Config, client: Identifier) -> spec_fn(
    (Identifier, Vec<(Identifier, Ipv4Addr)>),
) -> Seq<ErrorView> {
    |g: (Identifier, Vec<(Identifier, Ipv4Addr)>)|
        match lookup(config.nodes@, g.0@) {
            Some(node) => many_zones(client, g.0, g.1@.filter_map(zone_name_fn(node))),
            None => seq![],
        }
}

pub open spec fn client_zones_fn(config: Config) -> spec_fn((Identifier, Client)) -> Seq<ErrorView> {
    |c: (Identifier, Client)| c.1.ips@.flat_map(client_zone_group_fn(config, c.0))
}

/// The clients with addresses on more than one zone of a node.
pub open spec fn many_zone_errors(config: Config) -> Seq<ErrorView> {
    config.clients@.flat_map(client_zones_fn(config))
}

fn client_zone_group(
    client: &Identifier,
    node_name: &Identifier,
    node: &Node,
    nets: &Vec<(Identifier, Ipv4Addr)>,
    report: &mut ValidationReport,
)
    ensures
        errors_view(final(report).errors@) == errors_view(old(report).errors@) + many_zones(
            *client,
            *node_name,
            nets@.filter_map(zone_name_fn(*node)),
        ),
        final(report).warnings@ == old(report).warnings@,
{
    let ghost eb = errors_view(report.errors@);
    let ghost f = zone_name_fn(*node);
    let mut existing: Option<ConfigLocation> = None;
    let mut k: usize = 0;
    while k < nets.len()
        invariant
            k <= nets@.len(),
            f == zone_name_fn(*node),
            eb == errors_view(old(report).errors@),
            report.warnings@ == old(report).warnings@,
            existing == (if nets@.take(k as int).filter_map(f).len() == 0 {
                None
            } else {
                Some(client_ip_loc(*client, *node_name, nets@.take(k as int).filter_map(f)[0]))
            }),
            errors_view(report.errors@) == eb + many_zones(*client, *node_name, nets@.take(k as int).filter_map(f)),
        decreases nets@.len() - k,
    {
        let e = &nets[k];
        let ghost zs = nets@.take(k as int).filter_map(f);
        proof {
            nets@.lemma_filter_map_take_succ(f, k as int);
        }
        if let Some(ZoneOrVpnInterface::Zone(_)) = node.network_by_name(&e.0) {
            let at = ConfigLocation::Client(
                client.clone(),
                ClientLoc::Ip(node_name.clone(), ClientIpLoc::Network(e.0.clone())),
            );
            proof {
                assert(zs.push(e.0).drop_first() =~= if zs.len() == 0 { Seq::<Identifier>::empty() } else { zs.drop_first().push(e.0) });
            }
            match &existing {
                Some(ex) => {
                    report.push_error(ValidationError::NodeClientManyZones {
                        zone_name: e.0.clone(),
                        existing_zone: ex.clone(),
                        at,
                    });
                },
                None => {
                    existing = Some(at);
                },
            }
            assert(errors_view(report.errors@) =~= eb + many_zones(*client, *node_name, zs.push(e.0)));
        }
        k = k + 1;
    }
    assert(nets@.take(nets@.len() as int) =~= nets@);
}

#[verifier::spinoff_prover]
#[verifier::rlimit(40)]
fn check_client_zones(config: &Config, report: &mut ValidationReport)
    ensures
        errors_view(final(report).errors@) == errors_view(old(report).errors@) + many_zone_errors(*config),
        final(report).warnings@ == old(report).warnings@,
{
    let ghost eb = errors_view(report.errors@);
    let mut ci: usize = 0;
    while ci < config.clients.len()
        invariant
            ci <= config.clients@.len(),
            eb == errors_view(old(report).errors@),
            report.warnings@ == old(report).warnings@,
            errors_view(report.errors@) == eb + config.clients@.take(ci as int).flat_map(client_zones_fn(*config)),
        decreases config.clients@.len() - ci,
    {
        let c = &config.clients[ci];
        let ghost before = errors_view(report.errors@);
        let ghost g = client_zone_group_fn(*config, c.0);
        let mut gi: usize = 0;
        while gi < c.1.ips.len()
            invariant
                gi <= c.1.ips@.len(),
                g == client_zone_group_fn(*config, c.0),
                report.warnings@ == old(report).warnings@,
                errors_view(report.errors@) == before + c.1.ips@.take(gi as int).flat_map(g),
            decreases c.1.ips@.len() - gi,
        {
            let e = &c.1.ips[gi];
            match find_key(&config.nodes, &e.0) {
                Some(k) => {
                    client_zone_group(&c.0, &e.0, &config.nodes[k].1, &e.1, report);
                },
                None => {},
            }
            proof {
                assert(c.1.ips@.take(gi + 1) =~= c.1.ips@.take(gi as int).push(*e));
                c.1.ips@.take(gi as int).lemma_flat_map_push(g, *e);
            }
            gi = gi + 1;
        }
        proof {
            assert(c.1.ips@.take(c.1.ips@.len() as int) =~= c.1.ips@);
            assert(config.clients@.take(ci + 1) =~= config.clients@.take(ci as int).push(*c));
            config.clients@.take(ci as int).lemma_flat_map_push(client_zones_fn(*config), *c);
        }
        ci = ci + 1;
    }
    assert(config.clients@.take(config.clients@.len() as int) =~= config.clients@);
}

/// The addressing errors: overlapping networks and addresses outside their network, the
/// clients' addresses outside their networks, addresses used twice, and clients in more
/// than one zone of a node.
pub open spec fn network_errors(config: Config) -> Seq<ErrorView> {
    claim_errors(config) + client_ip_errors(config) + ip_collision_errors(config) + many_zone_errors(config)
}

/// Checks the addressing of the configuration.
pub fn check_networks(config: &Config, report: &mut ValidationReport)
    ensures
        errors_view(final(report).errors@) == errors_view(old(report).errors@) + network_errors(*config),
        final(report).warnings@ == old(report).warnings@,
{
    let mut networks: Vec<Ipv4Network> = Vec::new();
    check_mesh_ips(config, report, &mut networks);
    check_zones_ips(config, report, &mut networks);
    check_vpn_interfaces_ips(config, report, &mut networks);
    check_clients_ips(config, report);
    check_mesh_ip_uniqueness(config, report);
    check_zone_ip_uniqueness(config, report);
    check_vpn_interface_ip_uniqueness(config, report);
    check_client_zones(config, report);
}

/// No network of the sequence overlaps another.
pub open spec fn pairwise_apart(s: Seq<Ipv4Network>) -> bool {
    forall|i: int, j: int| 0 <= i < j < s.len() ==> !nets_overlap(#[trigger] s[j]@, #[trigger] s[i]@)
}

/// The networks of the claims.
pub open spec fn claim_networks(cs: Seq<Claim>) -> Seq<Ipv4Network> {
    cs.map_values(|c: Claim| c.0)
}

/// If `n` overlaps some network of `nets`, it overlaps a first one.
proof fn lemma_first_overlap_exists(nets: Seq<Ipv4Network>, n: Ipv4Network, k: int)
    requires
        0 <= k < nets.len(),
        nets_overlap(n@, nets[k]@),
    ensures
        exists|i: int| overlap_at(nets, n, i),
    decreases k,
{
    if forall|j: int| 0 <= j < k ==> !nets_overlap(n@, #[trigger] nets[j]@) {
        assert(overlap_at(nets, n, k));
    } else {
        let j = choose|j: int| 0 <= j < k && nets_overlap(n@, #[trigger] nets[j]@);
        lemma_first_overlap_exists(nets, n, j);
    }
}

/// Claims that raise no error are all accepted, and then no two accepted networks overlap.
pub proof fn lemma_claims_apart(nets: Seq<Ipv4Network>, cs: Seq<Claim>)
    requires
        pairwise_apart(nets),
        claims_run(nets, cs).1.len() == 0,
    ensures
        claims_run(nets, cs).0 == nets + claim_networks(cs),
        pairwise_apart(claims_run(nets, cs).0),
    decreases cs.len(),
{
    if cs.len() == 0 {
        assert(nets + claim_networks(cs) =~= nets);
    } else {
        let rest = cs.drop_last();
        let c = cs.last();
        let r = claims_run(nets, rest);
        let t = claim_step(r.0, c);
        assert(claims_run(nets, cs) == (t.0, r.1 + t.1));
        assert(r.1.len() == 0);
        lemma_claims_apart(nets, rest);
        if first_overlap(r.0, c.0) is Some {
            assert(t.1.len() == 1);
        }
        assert(first_overlap(r.0, c.0) is None);
        assert forall|k: int| 0 <= k < r.0.len() implies !nets_overlap(c.0@, #[trigger] r.0[k]@) by {
            if nets_overlap(c.0@, r.0[k]@) {
                lemma_first_overlap_exists(r.0, c.0, k);
            }
        }
        assert(claim_networks(cs) =~= claim_networks(rest).push(c.0));
        assert(t.0 =~= nets + claim_networks(cs));
        let all = t.0;
        assert forall|i: int, j: int| 0 <= i < j < all.len() implies !nets_overlap(#[trigger] all[j]@, #[trigger] all[i]@) by {
            if j == all.len() - 1 {
                assert(all[j] == c.0);
                assert(all[i] == r.0[i]);
            } else {
                assert(all[j] == r.0[j]);
                assert(all[i] == r.0[i]);
            }
        }
    }
}

/// The networks claimed in a configuration, in the order they are checked: the mesh
/// network, every zone's, then every VPN interface's.
pub open spec fn claimed_networks(config: Config) -> Seq<Ipv4Network> {
    seq![config.mesh_network] + claim_networks(config.nodes@.flat_map(zone_claims_fn())) + claim_networks(
        config.nodes@.flat_map(vpn_claims_fn()),
    )
}

/// When the claims raise no error, no two claimed networks overlap.
pub proof fn lemma_claimed_networks_apart(config: Config)
    requires
        claim_errors(config).len() == 0,
    ensures
        pairwise_apart(claimed_networks(config)),
{
    let m = claims_run(seq![], seq![mesh_claim(config)]);
    let zc = config.nodes@.flat_map(zone_claims_fn());
    let vc = config.nodes@.flat_map(vpn_claims_fn());
    let z = claims_run(m.0, zc);
    let v = claims_run(z.0, vc);
    assert(claim_errors(config) == m.1 + z.1 + v.1);
    assert(m.1.len() == 0 && z.1.len() == 0 && v.1.len() == 0);
    assert(pairwise_apart(Seq::<Ipv4Network>::empty()));
    lemma_claims_apart(seq![], seq![mesh_claim(config)]);
    lemma_claims_apart(m.0, zc);
    lemma_claims_apart(z.0, vc);
    assert(claim_networks(seq![mesh_claim(config)]) =~= seq![config.mesh_network]);
    assert(v.0 =~= claimed_networks(config));
}

/// No address occurs twice among the entries.
pub open spec fn distinct_ips(s: Seq<IpEntry>) -> bool {
    forall|i: int, j: int| 0 <= i < j < s.len() ==> (#[trigger] s[i]).0 != (#[trigger] s[j]).0
}

/// If some entry holds `ip`, a first one does.
proof fn lemma_ip_at_exists(s: Seq<IpEntry>, ip: Ipv4Addr, k: int)
    requires
        0 <= k < s.len(),
        s[k].0 == ip,
    ensures
        exists|i: int| ip_at(s, ip, i),
    decreases k,
{
    if forall|j: int| 0 <= j < k ==> (#[trigger] s[j]).0 != ip {
        assert(ip_at(s, ip, k));
    } else {
        let j = choose|j: int| 0 <= j < k && (#[trigger] s[j]).0 == ip;
        lemma_ip_at_exists(s, ip, j);
    }
}

/// Entries that raise no collision are all recorded, and then no address occurs twice.
pub proof fn lemma_ips_distinct(s: Seq<IpEntry>, es: Seq<IpEntry>)
    requires
        distinct_ips(s),
        ips_run(s, es).1.len() == 0,
    ensures
        ips_run(s, es).0 == s + es,
        distinct_ips(s + es),
    decreases es.len(),
{
    if es.len() == 0 {
        assert(s + es =~= s);
    } else {
        let rest = es.drop_last();
        let e = es.last();
        let r = ips_run(s, rest);
        let t = ip_step(r.0, e);
        assert(ips_run(s, es) == (t.0, r.1 + t.1));
        assert(r.1.len() == 0);
        lemma_ips_distinct(s, rest);
        if ip_owner(r.0, e.0) is Some {
            assert(t.1.len() == 1);
        }
        assert forall|k: int| 0 <= k < r.0.len() implies (#[trigger] r.0[k]).0 != e.0 by {
            if r.0[k].0 == e.0 {
                lemma_ip_at_exists(r.0, e.0, k);
            }
        }
        assert(rest.push(e) =~= es);
        assert(t.0 =~= s + es);
        let all = s + es;
        assert forall|i: int, j: int| 0 <= i < j < all.len() implies (#[trigger] all[i]).0 != (#[trigger] all[j]).0 by {
            if j == all.len() - 1 {
                assert(all[j] == e);
                assert(all[i] == r.0[i]);
            } else {
                assert(all[j] == r.0[j]);
                assert(all[i] == r.0[i]);
            }
        }
    }
}

/// The addresses on a zone: the router's, then the devices', then the clients'.
pub open spec fn zone_entries(config: Config, node: Identifier, z: (Identifier, NodeZone)) -> Seq<IpEntry> {
    seq![(iface_ip(z.1.address), ConfigLocation::Node(node, NodeLoc::Zone(z.0, ZoneLoc::Address)))]
        + z.1.devices@.map_values(device_entry_fn(node, z.0)) + client_net_entries(config, node, z.0)
}

/// The addresses on a VPN interface: the router's, then the peers', then the clients'.
pub open spec fn vpn_entries(config: Config, node: Identifier, v: (Identifier, NodeVpnInterface)) -> Seq<IpEntry> {
    seq![(iface_ip(v.1.address), ConfigLocation::Node(node, NodeLoc::VpnInterface(v.0, VpnLoc::Address)))]
        + v.1.clients@.map_values(peer_entry_fn(node, v.0)) + client_net_entries(config, node, v.0)
}

/// A sequence whose elements all yield nothing yields nothing.
pub(crate) proof fn lemma_flat_map_empty<A>(s: Seq<A>, f: spec_fn(A) -> Seq<ErrorView>, j: int)
    requires
        s.flat_map(f).len() == 0,
        0 <= j < s.len(),
    ensures
        f(s[j]).len() == 0,
    decreases s.len(),
{
    let rest = s.drop_last();
    rest.lemma_flat_map_push(f, s.last());
    assert(rest.push(s.last()) =~= s);
    if j < s.len() - 1 {
        assert(rest[j] == s[j]);
        lemma_flat_map_empty(rest, f, j);
    }
}

/// When the collision checks raise no error, no address is used twice in the mesh, nor twice
/// on any zone or VPN interface.
pub proof fn lemma_ips_unique(config: Config)
    requires
        ip_collision_errors(config).len() == 0,
    ensures
        distinct_ips(mesh_entries(config)),
        forall|ni: int, zi: int|
            0 <= ni < config.nodes@.len() && 0 <= zi < config.nodes@[ni].1.zones@.len() ==> distinct_ips(
                zone_entries(config, config.nodes@[ni].0, #[trigger] config.nodes@[ni].1.zones@[zi]),
            ),
        forall|ni: int, vi: int|
            0 <= ni < config.nodes@.len() && 0 <= vi < config.nodes@[ni].1.vpn_interfaces@.len() ==> distinct_ips(
                vpn_entries(config, config.nodes@[ni].0, #[trigger] config.nodes@[ni].1.vpn_interfaces@[vi]),
            ),
{
    let zs = config.nodes@.flat_map(node_zone_ips_fn(config));
    let vs = config.nodes@.flat_map(node_vpn_ips_fn(config));
    assert(ips_run(seq![], mesh_entries(config)).1.len() == 0);
    assert(zs.len() == 0 && vs.len() == 0);
    assert(distinct_ips(Seq::<IpEntry>::empty()));
    lemma_ips_distinct(seq![], mesh_entries(config));
    assert(Seq::<IpEntry>::empty() + mesh_entries(config) =~= mesh_entries(config));
    assert forall|ni: int, zi: int|
        0 <= ni < config.nodes@.len() && 0 <= zi < config.nodes@[ni].1.zones@.len() implies distinct_ips(
            zone_entries(config, config.nodes@[ni].0, #[trigger] config.nodes@[ni].1.zones@[zi]),
        ) by {
        let n = config.nodes@[ni];
        let z = n.1.zones@[zi];
        lemma_flat_map_empty(config.nodes@, node_zone_ips_fn(config), ni);
        lemma_flat_map_empty(n.1.zones@, zone_ips_fn(config, n.0), zi);
        let first = seq![(iface_ip(z.1.address), ConfigLocation::Node(n.0, NodeLoc::Zone(z.0, ZoneLoc::Address)))];
        let rest = z.1.devices@.map_values(device_entry_fn(n.0, z.0)) + client_net_entries(config, n.0, z.0);
        lemma_ips_distinct(first, rest);
        assert(zone_entries(config, n.0, z) =~= first + rest);
    }
    assert forall|ni: int, vi: int|
        0 <= ni < config.nodes@.len() && 0 <= vi < config.nodes@[ni].1.vpn_interfaces@.len() implies distinct_ips(
            vpn_entries(config, config.nodes@[ni].0, #[trigger] config.nodes@[ni].1.vpn_interfaces@[vi]),
        ) by {
        let n = config.nodes@[ni];
        let v = n.1.vpn_interfaces@[vi];
        lemma_flat_map_empty(config.nodes@, node_vpn_ips_fn(config), ni);
        lemma_flat_map_empty(n.1.vpn_interfaces@, vpn_ips_fn(config, n.0), vi);
        let first = seq![(iface_ip(v.1.address), ConfigLocation::Node(n.0, NodeLoc::VpnInterface(v.0, VpnLoc::Address)))];
        let rest = v.1.clients@.map_values(peer_entry_fn(n.0, v.0)) + client_net_entries(config, n.0, v.0);
        lemma_ips_distinct(first, rest);
        assert(vpn_entries(config, n.0, v) =~= first + rest);
    }
}

/// When a run of claims raises no error, no claim raised an error of its addresses.
pub(crate) proof fn lemma_claims_without_errors(nets: Seq<Ipv4Network>, cs: Seq<Claim>, i: int)
    requires
        claims_run(nets, cs).1.len() == 0,
        0 <= i < cs.len(),
    ensures
        cs[i].2.len() == 0,
    decreases cs.len(),
{
    let rest = cs.drop_last();
    let r = claims_run(nets, rest);
    let st = claim_step(r.0, cs.last());
    assert(claims_run(nets, cs).1 == r.1 + st.1);
    if i == cs.len() - 1 {
        if first_overlap(r.0, cs.last().0) is Some {
            assert(st.1.len() == 1);
        }
    } else {
        assert(rest[i] == cs[i]);
        lemma_claims_without_errors(nets, rest, i);
    }
}

} // verus!
