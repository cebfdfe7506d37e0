//! Ports: no two services of one host, nor the WireGuard ports of a node, may take the same
//! port on a protocol, and no two services exposed through one node may take the same
//! external port there.

use vstd::prelude::*;

use crate::config::{
    Client, Config, Node, NodeVpnInterface, NodeVpnInterfaceClient, NodeZone, NodeZoneDevice, Service, ServiceHost,
    client_service_fn, device_service_fn, host_location, node_service_fn, peer_service_fn, push_clients_services,
    push_node_services, push_vpns_services, push_zones_services, vpn_services_fn, with_service_name, zone_services_fn,
};
use crate::entries::{find_key, lookup};
use crate::protocol::Protocol;
use crate::types::config_location::{ClientLoc, ConfigLocation, DeviceLoc, NodeLoc, ServiceLoc, VpnClientLoc, VpnLoc, ZoneLoc};
use crate::types::identifier::Identifier;
use crate::types::port::{PorView, PortOrRange, por_conflict, service_external, service_internal};
use crate::types::wan_via_target::{WanViaTarget, via_node};
use crate::validator::tags::lemma_filter_map_none;
use crate::validator::types::{ErrorView, ValidationError, ValidationReport, errors_view};

verus! {

broadcast use {vstd::seq_lib::group_seq_properties, vstd::seq::Seq::group_seq_extra};

/// A port or range taken on a protocol by a place, in the registry named by the first part.
pub type PortEntry = (Seq<char>, Protocol, PorView, ConfigLocation);

/// A registry entry as the code holds it.
pub type RegEntry = (Identifier, Protocol, PortOrRange, ConfigLocation);

pub open spec fn reg_view(s: Seq<RegEntry>) -> Seq<PortEntry> {
    s.map_values(|e: RegEntry| (e.0@, e.1, e.2@, e.3))
}

pub open spec fn collision_fn(key: Seq<char>, proto: Protocol, port: PorView, at: ConfigLocation) -> spec_fn(
    PortEntry,
) -> Option<ErrorView> {
    |e: PortEntry|
        if e.0 == key && e.1 == proto && por_conflict(port, e.2) {
            Some(ErrorView::PortCollision { port, at, with: e.3 })
        } else {
            None
        }
}

/// One protocol: each port of the registry that the new one conflicts with is a collision;
/// without any, the new port is recorded.
pub open spec fn proto_step(reg: Seq<PortEntry>, key: Seq<char>, proto: Protocol, port: PorView, at: ConfigLocation) -> (
    Seq<PortEntry>,
    Seq<ErrorView>,
) {
    let errs = reg.filter_map(collision_fn(key, proto, port, at));
    (if errs.len() == 0 {
        reg.push((key, proto, port, at))
    } else {
        reg
    }, errs)
}

/// A port on each of its protocols in turn.
pub open spec fn protos_run(
    reg: Seq<PortEntry>,
    key: Seq<char>,
    protos: Seq<Protocol>,
    port: PorView,
    at: ConfigLocation,
) -> (Seq<PortEntry>, Seq<ErrorView>)
    decreases protos.len(),
{
    if protos.len() == 0 {
        (reg, seq![])
    } else {
        let r = protos_run(reg, key, protos.drop_last(), port, at);
        let t = proto_step(r.0, key, protos.last(), port, at);
        (t.0, r.1 + t.1)
    }
}

/// The internal ports of services in turn, each at its service's port.
pub open spec fn internal_run(reg: Seq<PortEntry>, key: Seq<char>, svcs: Seq<(Service, ServiceHost)>) -> (
    Seq<PortEntry>,
    Seq<ErrorView>,
)
    decreases svcs.len(),
{
    if svcs.len() == 0 {
        (reg, seq![])
    } else {
        let r = internal_run(reg, key, svcs.drop_last());
        let p = svcs.last();
        let t = protos_run(
            r.0,
            key,
            p.0.proto@,
            service_internal(p.0.port@),
            host_location(p.1, ServiceLoc::Port),
        );
        (t.0, r.1 + t.1)
    }
}

/// The WireGuard port of a node or of a VPN interface, on UDP.
pub open spec fn wg_port(reg: Seq<PortEntry>, key: Seq<char>, port: u16, at: ConfigLocation) -> (
    Seq<PortEntry>,
    Seq<ErrorView>,
) {
    protos_run(reg, key, seq![Protocol::Udp], PorView::Single(port), at)
}

pub open spec fn client_internal_fn() -> spec_fn((Identifier, Client)) -> Seq<ErrorView> {
    |c: (Identifier, Client)| internal_run(seq![], c.0@, c.1.services@.map_values(client_service_fn(c.0))).1
}

pub open spec fn device_internal_fn(node: Identifier, zone: Identifier) -> spec_fn((Identifier, NodeZoneDevice)) -> Seq<
    ErrorView,
> {
    |d: (Identifier, NodeZoneDevice)|
        internal_run(seq![], d.0@, d.1.services@.map_values(device_service_fn(node, zone, d.0))).1
}

pub open spec fn zone_internal_fn(node: Identifier) -> spec_fn((Identifier, NodeZone)) -> Seq<ErrorView> {
    |z: (Identifier, NodeZone)| z.1.devices@.flat_map(device_internal_fn(node, z.0))
}

pub open spec fn peer_internal_fn(node: Identifier, vpn: Identifier) -> spec_fn((Identifier, NodeVpnInterfaceClient)) -> Seq<
    ErrorView,
> {
    |c: (Identifier, NodeVpnInterfaceClient)|
        internal_run(seq![], c.0@, c.1.services@.map_values(peer_service_fn(node, vpn, c.0))).1
}

/// The VPN interfaces of a node in turn: each one's WireGuard port into the node's
/// registry, then its peers, each with a registry of its own.
pub open spec fn vpns_run(reg: Seq<PortEntry>, node: Identifier, vs: Seq<(Identifier, NodeVpnInterface)>) -> (
    Seq<PortEntry>,
    Seq<ErrorView>,
)
    decreases vs.len(),
{
    if vs.len() == 0 {
        (reg, seq![])
    } else {
        let r = vpns_run(reg, node, vs.drop_last());
        let v = vs.last();
        let t = wg_port(
            r.0,
            node@,
            v.1.listen_port@,
            ConfigLocation::Node(node, NodeLoc::VpnInterface(v.0, VpnLoc::ListenPort)),
        );
        (t.0, r.1 + t.1 + v.1.clients@.flat_map(peer_internal_fn(node, v.0)))
    }
}

/// A node: its WireGuard port, its devices (a registry each), its VPN interfaces, then its
/// own services, all but the devices and the peers in the node's registry.
pub open spec fn node_internal_fn() -> spec_fn((Identifier, Node)) -> Seq<ErrorView> {
    |n: (Identifier, Node)|
        {
            let r0 = wg_port(seq![], n.0@, n.1.listen_port@, ConfigLocation::Node(n.0, NodeLoc::ListenPort));
            let r1 = vpns_run(r0.0, n.0, n.1.vpn_interfaces@);
            let r2 = internal_run(r1.0, n.0@, n.1.services@.map_values(node_service_fn(n.0)));
            r0.1 + n.1.zones@.flat_map(zone_internal_fn(n.0)) + r1.1 + r2.1
        }
}

/// The collisions between ports inside each host.
pub open spec fn internal_port_errors(config: Config) -> Seq<ErrorView> {
    config.clients@.flat_map(client_internal_fn()) + config.nodes@.flat_map(node_internal_fn())
}

/// The WireGuard ports a node with a WAN zone starts its registry with.
pub open spec fn seed_fn() -> spec_fn((Identifier, Node)) -> Seq<PortEntry> {
    |n: (Identifier, Node)|
        if n.1.wan_zone is Some {
            seq![(n.0@, Protocol::Udp, PorView::Single(n.1.listen_port@), ConfigLocation::Node(n.0, NodeLoc::ListenPort))]
                + n.1.vpn_interfaces@.map_values(
                |v: (Identifier, NodeVpnInterface)|
                    (
                        n.0@,
                        Protocol::Udp,
                        PorView::Single(v.1.listen_port@),
                        ConfigLocation::Node(n.0, NodeLoc::VpnInterface(v.0, VpnLoc::ListenPort)),
                    ),
            )
        } else {
            seq![]
        }
}

/// The node named `name` exists and has a WAN zone, so it keeps a registry of external ports.
pub open spec fn has_registry(config: Config, name: Seq<char>) -> bool {
    match lookup(config.nodes@, name) {
        Some(n) => n.wan_zone is Some,
        None => false,
    }
}

pub open spec fn exposure_fn() -> spec_fn((Identifier, Node)) -> Seq<(Service, ServiceHost)> {
    |n: (Identifier, Node)|
        n.1.services@.map_values(node_service_fn(n.0)) + n.1.vpn_interfaces@.flat_map(vpn_services_fn(n.0))
            + n.1.zones@.flat_map(zone_services_fn(n.0))
}

/// The services in the order their exposure is checked: per node its own, its VPN peers',
/// its devices'; then the clients'.
pub open spec fn exposure_services(config: Config) -> Seq<(Service, ServiceHost)> {
    config.nodes@.flat_map(exposure_fn()) + config.clients@.flat_map(
        crate::config::client_services_fn(),
    )
}

/// A service's external port into the registry of each node it is exposed through.
pub open spec fn vias_run(reg: Seq<PortEntry>, config: Config, s: Service, at: ConfigLocation, vias: Seq<WanViaTarget>) -> (
    Seq<PortEntry>,
    Seq<ErrorView>,
)
    decreases vias.len(),
{
    if vias.len() == 0 {
        (reg, seq![])
    } else {
        let r = vias_run(reg, config, s, at, vias.drop_last());
        let name = via_node(vias.last()@);
        if has_registry(config, name) {
            let t = protos_run(r.0, name, s.proto@, service_external(s.port@), at);
            (t.0, r.1 + t.1)
        } else {
            r
        }
    }
}

/// The exposed services in turn.
pub open spec fn exposed_run(reg: Seq<PortEntry>, config: Config, svcs: Seq<(Service, ServiceHost)>) -> (
    Seq<PortEntry>,
    Seq<ErrorView>,
)
    decreases svcs.len(),
{
    if svcs.len() == 0 {
        (reg, seq![])
    } else {
        let r = exposed_run(reg, config, svcs.drop_last());
        let p = svcs.last();
        match p.0.wan {
            Some(w) => {
                let t = vias_run(r.0, config, p.0, host_location(p.1, ServiceLoc::Port), w.via@);
                (t.0, r.1 + t.1)
            },
            None => r,
        }
    }
}

/// The collisions between external ports on the nodes services are exposed through.
pub open spec fn external_port_errors(config: Config) -> Seq<ErrorView> {
    exposed_run(config.nodes@.flat_map(seed_fn()), config, exposure_services(config)).1
}

/// The port errors: the external collisions, then the internal ones.
pub open spec fn port_errors(config: Config) -> Seq<ErrorView> {
    external_port_errors(config) + internal_port_errors(config)
}

/// Inserts `port` on `proto` into the registry `key`, or reports what it conflicts with.
fn proto_insert(
    reg: &mut Vec<RegEntry>,
    key: &Identifier,
    proto: Protocol,
    port: PortOrRange,
    at: &ConfigLocation,
    report: &mut ValidationReport,
)
    ensures
        reg_view(final(reg)@) == proto_step(reg_view(old(reg)@), key@, proto, port@, *at).0,
        errors_view(final(report).errors@) == errors_view(old(report).errors@) + proto_step(
            reg_view(old(reg)@),
            key@,
            proto,
            port@,
            *at,
        ).1,
        final(report).warnings@ == old(report).warnings@,
{
    let ghost rv = reg_view(reg@);
    let ghost f = collision_fn(key@, proto, port@, *at);
    let ghost eb = errors_view(report.errors@);
    let mut any_collision = false;
    let mut i: usize = 0;
    while i < reg.len()
        invariant
            i <= reg@.len(),
            reg@ == old(reg)@,
            rv == reg_view(reg@),
            f == collision_fn(key@, proto, port@, *at),
            eb == errors_view(old(report).errors@),
            report.warnings@ == old(report).warnings@,
            errors_view(report.errors@) == eb + rv.take(i as int).filter_map(f),
            any_collision == (rv.take(i as int).filter_map(f).len() != 0),
        decreases reg@.len() - i,
    {
        let e = &reg[i];
        proof {
            rv.lemma_filter_map_take_succ(f, i as int);
        }
        if e.0.same(key) && e.1 == proto && port.conflicts(e.2) {
            report.push_error(ValidationError::PortCollision { port, at: at.clone(), with: e.3.clone() });
            any_collision = true;
        }
        i = i + 1;
    }
    assert(rv.take(rv.len() as int) =~= rv);
    if !any_collision {
        reg.push((key.clone(), proto, port, at.clone()));
        assert(reg_view(reg@) =~= rv.push((key@, proto, port@, *at)));
    }
}

/// Inserts `port` into the registry `key` on each of `protos`.
fn try_insert(
    reg: &mut Vec<RegEntry>,
    key: &Identifier,
    protos: &Vec<Protocol>,
    port: PortOrRange,
    at: &ConfigLocation,
    report: &mut ValidationReport,
)
    ensures
        reg_view(final(reg)@) == protos_run(reg_view(old(reg)@), key@, protos@, port@, *at).0,
        errors_view(final(report).errors@) == errors_view(old(report).errors@) + protos_run(
            reg_view(old(reg)@),
            key@,
            protos@,
            port@,
            *at,
        ).1,
        final(report).warnings@ == old(report).warnings@,
{
    let ghost r0 = reg_view(reg@);
    let ghost eb = errors_view(report.errors@);
    let mut i: usize = 0;
    while i < protos.len()
        invariant
            i <= protos@.len(),
            r0 == reg_view(old(reg)@),
            eb == errors_view(old(report).errors@),
            report.warnings@ == old(report).warnings@,
            reg_view(reg@) == protos_run(r0, key@, protos@.take(i as int), port@, *at).0,
            errors_view(report.errors@) == eb + protos_run(r0, key@, protos@.take(i as int), port@, *at).1,
        decreases protos@.len() - i,
    {
        proof {
            assert(protos@.take(i + 1).drop_last() =~= protos@.take(i as int));
        }
        proto_insert(reg, key, protos[i], port, at, report);
        i = i + 1;
    }
    assert(protos@.take(protos@.len() as int) =~= protos@);
}

/// Inserts the internal ports of `services`, hosted as `host` says, into the registry `key`.
fn insert_internal(
    reg: &mut Vec<RegEntry>,
    key: &Identifier,
    services: &Vec<(Identifier, Service)>,
    host: &ServiceHost,
    report: &mut ValidationReport,
)
    ensures
        reg_view(final(reg)@) == internal_run(
            reg_view(old(reg)@),
            key@,
            services@.map_values(|s: (Identifier, Service)| (s.1, with_service_name(*host, s.0))),
        ).0,
        errors_view(final(report).errors@) == errors_view(old(report).errors@) + internal_run(
            reg_view(old(reg)@),
            key@,
            services@.map_values(|s: (Identifier, Service)| (s.1, with_service_name(*host, s.0))),
        ).1,
        final(report).warnings@ == old(report).warnings@,
{
    let ghost r0 = reg_view(reg@);
    let ghost eb = errors_view(report.errors@);
    let ghost g = |s: (Identifier, Service)| (s.1, with_service_name(*host, s.0));
    let mut i: usize = 0;
    while i < services.len()
        invariant
            i <= services@.len(),
            g == (|s: (Identifier, Service)| (s.1, with_service_name(*host, s.0))),
            r0 == reg_view(old(reg)@),
            eb == errors_view(old(report).errors@),
            report.warnings@ == old(report).warnings@,
            reg_view(reg@) == internal_run(r0, key@, services@.take(i as int).map_values(g)).0,
            errors_view(report.errors@) == eb + internal_run(r0, key@, services@.take(i as int).map_values(g)).1,
        decreases services@.len() - i,
    {
        let s = &services[i];
        let h = host.renamed(&s.0);
        let at = h.to_location(ServiceLoc::Port);
        proof {
            assert(services@.take(i + 1).map_values(g).drop_last() =~= services@.take(i as int).map_values(g));
            assert(services@.take(i + 1).map_values(g).last() == g(*s));
        }
        try_insert(reg, key, s.1.proto.items(), s.1.port.internal(), &at, report);
        i = i + 1;
    }
    assert(services@.take(services@.len() as int) =~= services@);
}

/// The WireGuard protocols.
fn wg_protocols() -> (r: Vec<Protocol>)
    ensures
        r@ == seq![Protocol::Udp],
{
    let mut r: Vec<Protocol> = Vec::new();
    r.push(Protocol::Udp);
    assert(r@ =~= seq![Protocol::Udp]);
    r
}

fn check_client_internal(c: &(Identifier, Client), report: &mut ValidationReport)
    ensures
        errors_view(final(report).errors@) == errors_view(old(report).errors@) + client_internal_fn()(*c),
        final(report).warnings@ == old(report).warnings@,
{
    let mut reg: Vec<RegEntry> = Vec::new();
    assert(reg_view(reg@) =~= Seq::<PortEntry>::empty());
    let host = ServiceHost::Client { client_name: c.0.clone(), service_name: c.0.clone() };
    insert_internal(&mut reg, &c.0, &c.1.services, &host, report);
    assert(c.1.services@.map_values(|s: (Identifier, Service)| (s.1, with_service_name(host, s.0)))
        =~= c.1.services@.map_values(client_service_fn(c.0)));
}

fn check_device_internal(
    node: &Identifier,
    zone: &Identifier,
    d: &(Identifier, NodeZoneDevice),
    report: &mut ValidationReport,
)
    ensures
        errors_view(final(report).errors@) == errors_view(old(report).errors@) + device_internal_fn(*node, *zone)(*d),
        final(report).warnings@ == old(report).warnings@,
{
    let mut reg: Vec<RegEntry> = Vec::new();
    assert(reg_view(reg@) =~= Seq::<PortEntry>::empty());
    let host = ServiceHost::Device {
        node_name: node.clone(),
        zone_name: zone.clone(),
        device_name: d.0.clone(),
        service_name: d.0.clone(),
    };
    insert_internal(&mut reg, &d.0, &d.1.services, &host, report);
    assert(d.1.services@.map_values(|s: (Identifier, Service)| (s.1, with_service_name(host, s.0)))
        =~= d.1.services@.map_values(device_service_fn(*node, *zone, d.0)));
}

fn check_peer_internal(
    node: &Identifier,
    vpn: &Identifier,
    c: &(Identifier, NodeVpnInterfaceClient),
    report: &mut ValidationReport,
)
    ensures
        errors_view(final(report).errors@) == errors_view(old(report).errors@) + peer_internal_fn(*node, *vpn)(*c),
        final(report).warnings@ == old(report).warnings@,
{
    let mut reg: Vec<RegEntry> = Vec::new();
    assert(reg_view(reg@) =~= Seq::<PortEntry>::empty());
    let host = ServiceHost::VpnClient {
        node_name: node.clone(),
        vpn_interface_name: vpn.clone(),
        client_name: c.0.clone(),
        service_name: c.0.clone(),
    };
    insert_internal(&mut reg, &c.0, &c.1.services, &host, report);
    assert(c.1.services@.map_values(|s: (Identifier, Service)| (s.1, with_service_name(host, s.0)))
        =~= c.1.services@.map_values(peer_service_fn(*node, *vpn, c.0)));
}

#[verifier::spinoff_prover]
#[verifier::rlimit(40)]
fn check_zone_internal(node: &Identifier, z: &(Identifier, NodeZone), report: &mut ValidationReport)
    ensures
        errors_view(final(report).errors@) == errors_view(old(report).errors@) + zone_internal_fn(*node)(*z),
        final(report).warnings@ == old(report).warnings@,
{
    let ghost eb = errors_view(report.errors@);
    let ghost f = device_internal_fn(*node, z.0);
    let mut i: usize = 0;
    while i < z.1.devices.len()
        invariant
            i <= z.1.devices@.len(),
            f == device_internal_fn(*node, z.0),
            eb == errors_view(old(report).errors@),
            report.warnings@ == old(report).warnings@,
            errors_view(report.errors@) == eb + z.1.devices@.take(i as int).flat_map(f),
        decreases z.1.devices@.len() - i,
    {
        let d = &z.1.devices[i];
        check_device_internal(node, &z.0, d, report);
        proof {
            assert(z.1.devices@.take(i + 1) =~= z.1.devices@.take(i as int).push(*d));
            z.1.devices@.take(i as int).lemma_flat_map_push(f, *d);
        }
        i = i + 1;
    }
    assert(z.1.devices@.take(z.1.devices@.len() as int) =~= z.1.devices@);
}

#[verifier::spinoff_prover]
#[verifier::rlimit(40)]
fn check_vpn_peers_internal(node: &Identifier, v: &(Identifier, NodeVpnInterface), report: &mut ValidationReport)
    ensures
        errors_view(final(report).errors@) == errors_view(old(report).errors@) + v.1.clients@.flat_map(
            peer_internal_fn(*node, v.0),
        ),
        final(report).warnings@ == old(report).warnings@,
{
    let ghost eb = errors_view(report.errors@);
    let ghost f = peer_internal_fn(*node, v.0);
    let mut i: usize = 0;
    while i < v.1.clients.len()
        invariant
            i <= v.1.clients@.len(),
            f == peer_internal_fn(*node, v.0),
            eb == errors_view(old(report).errors@),
            report.warnings@ == old(report).warnings@,
            errors_view(report.errors@) == eb + v.1.clients@.take(i as int).flat_map(f),
        decreases v.1.clients@.len() - i,
    {
        let c = &v.1.clients[i];
        check_peer_internal(node, &v.0, c, report);
        proof {
            assert(v.1.clients@.take(i + 1) =~= v.1.clients@.take(i as int).push(*c));
            v.1.clients@.take(i as int).lemma_flat_map_push(f, *c);
        }
        i = i + 1;
    }
    assert(v.1.clients@.take(v.1.clients@.len() as int) =~= v.1.clients@);
}

#[verifier::spinoff_prover]
#[verifier::rlimit(40)]
fn check_node_internal(n: &(Identifier, Node), report: &mut ValidationReport)
    ensures
        errors_view(final(report).errors@) == errors_view(old(report).errors@) + node_internal_fn()(*n),
        final(report).warnings@ == old(report).warnings@,
{
    let ghost eb = errors_view(report.errors@);
    let wg = wg_protocols();
    let mut node_ports: Vec<RegEntry> = Vec::new();
    assert(reg_view(node_ports@) =~= Seq::<PortEntry>::empty());
    let ghost r0 = wg_port(seq![], n.0@, n.1.listen_port@, ConfigLocation::Node(n.0, NodeLoc::ListenPort));
    try_insert(
        &mut node_ports,
        &n.0,
        &wg,
        PortOrRange::Single(n.1.listen_port),
        &ConfigLocation::Node(n.0.clone(), NodeLoc::ListenPort),
        report,
    );
    let mut zi: usize = 0;
    let ghost zb = errors_view(report.errors@);
    while zi < n.1.zones.len()
        invariant
            zi <= n.1.zones@.len(),
            zb == eb + r0.1,
            report.warnings@ == old(report).warnings@,
            reg_view(node_ports@) == r0.0,
            errors_view(report.errors@) == zb + n.1.zones@.take(zi as int).flat_map(zone_internal_fn(n.0)),
        decreases n.1.zones@.len() - zi,
    {
        let z = &n.1.zones[zi];
        check_zone_internal(&n.0, z, report);
        proof {
            assert(n.1.zones@.take(zi + 1) =~= n.1.zones@.take(zi as int).push(*z));
            n.1.zones@.take(zi as int).lemma_flat_map_push(zone_internal_fn(n.0), *z);
        }
        zi = zi + 1;
    }
    assert(n.1.zones@.take(n.1.zones@.len() as int) =~= n.1.zones@);
    let ghost vb = errors_view(report.errors@);
    let mut vi: usize = 0;
    while vi < n.1.vpn_interfaces.len()
        invariant
            vi <= n.1.vpn_interfaces@.len(),
            wg@ == seq![Protocol::Udp],
            report.warnings@ == old(report).warnings@,
            reg_view(node_ports@) == vpns_run(r0.0, n.0, n.1.vpn_interfaces@.take(vi as int)).0,
            errors_view(report.errors@) == vb + vpns_run(r0.0, n.0, n.1.vpn_interfaces@.take(vi as int)).1,
        decreases n.1.vpn_interfaces@.len() - vi,
    {
        let v = &n.1.vpn_interfaces[vi];
        proof {
            assert(n.1.vpn_interfaces@.take(vi + 1).drop_last() =~= n.1.vpn_interfaces@.take(vi as int));
        }
        try_insert(
            &mut node_ports,
            &n.0,
            &wg,
            PortOrRange::Single(v.1.listen_port),
            &ConfigLocation::Node(n.0.clone(), NodeLoc::VpnInterface(v.0.clone(), VpnLoc::ListenPort)),
            report,
        );
        check_vpn_peers_internal(&n.0, v, report);
        vi = vi + 1;
    }
    assert(n.1.vpn_interfaces@.take(n.1.vpn_interfaces@.len() as int) =~= n.1.vpn_interfaces@);
    let host = ServiceHost::Node { node_name: n.0.clone(), service_name: n.0.clone() };
    insert_internal(&mut node_ports, &n.0, &n.1.services, &host, report);
    assert(n.1.services@.map_values(|s: (Identifier, Service)| (s.1, with_service_name(host, s.0)))
        =~= n.1.services@.map_values(node_service_fn(n.0)));
}

#[verifier::spinoff_prover]
#[verifier::rlimit(40)]
fn check_internal_port_collisions(config: &Config, report: &mut ValidationReport)
    ensures
        errors_view(final(report).errors@) == errors_view(old(report).errors@) + internal_port_errors(*config),
        final(report).warnings@ == old(report).warnings@,
{
    let ghost eb = errors_view(report.errors@);
    let mut ci: usize = 0;
    while ci < config.clients.len()
        invariant
            ci <= config.clients@.len(),
            eb == errors_view(old(report).errors@),
            report.warnings@ == old(report).warnings@,
            errors_view(report.errors@) == eb + config.clients@.take(ci as int).flat_map(client_internal_fn()),
        decreases config.clients@.len() - ci,
    {
        let c = &config.clients[ci];
        check_client_internal(c, report);
        proof {
            assert(config.clients@.take(ci + 1) =~= config.clients@.take(ci as int).push(*c));
            config.clients@.take(ci as int).lemma_flat_map_push(client_internal_fn(), *c);
        }
        ci = ci + 1;
    }
    assert(config.clients@.take(config.clients@.len() as int) =~= config.clients@);
    let ghost mid = errors_view(report.errors@);
    let mut ni: usize = 0;
    while ni < config.nodes.len()
        invariant
            ni <= config.nodes@.len(),
            mid == eb + config.clients@.flat_map(client_internal_fn()),
            eb == errors_view(old(report).errors@),
            report.warnings@ == old(report).warnings@,
            errors_view(report.errors@) == mid + config.nodes@.take(ni as int).flat_map(node_internal_fn()),
        decreases config.nodes@.len() - ni,
    {
        let n = &config.nodes[ni];
        check_node_internal(n, report);
        proof {
            assert(config.nodes@.take(ni + 1) =~= config.nodes@.take(ni as int).push(*n));
            config.nodes@.take(ni as int).lemma_flat_map_push(node_internal_fn(), *n);
        }
        ni = ni + 1;
    }
    assert(config.nodes@.take(config.nodes@.len() as int) =~= config.nodes@);
}

fn seed_registry(config: &Config) -> (r: Vec<RegEntry>)
    ensures
        reg_view(r@) == config.nodes@.flat_map(seed_fn()),
{
    let mut r: Vec<RegEntry> = Vec::new();
    let mut ni: usize = 0;
    while ni < config.nodes.len()
        invariant
            ni <= config.nodes@.len(),
            reg_view(r@) == config.nodes@.take(ni as int).flat_map(seed_fn()),
        decreases config.nodes@.len() - ni,
    {
        let n = &config.nodes[ni];
        let ghost before = reg_view(r@);
        if n.1.wan_zone.is_some() {
            r.push((n.0.clone(), Protocol::Udp, PortOrRange::Single(n.1.listen_port), ConfigLocation::Node(n.0.clone(), NodeLoc::ListenPort)));
            let ghost head = reg_view(r@);
            let ghost g = |v: (Identifier, NodeVpnInterface)|
                (
                    n.0@,
                    Protocol::Udp,
                    PorView::Single(v.1.listen_port@),
                    ConfigLocation::Node(n.0, NodeLoc::VpnInterface(v.0, VpnLoc::ListenPort)),
                );
            let mut vi: usize = 0;
            while vi < n.1.vpn_interfaces.len()
                invariant
                    vi <= n.1.vpn_interfaces@.len(),
                    g == (|v: (Identifier, NodeVpnInterface)|
                        (
                            n.0@,
                            Protocol::Udp,
                            PorView::Single(v.1.listen_port@),
                            ConfigLocation::Node(n.0, NodeLoc::VpnInterface(v.0, VpnLoc::ListenPort)),
                        )),
                    reg_view(r@) == head + n.1.vpn_interfaces@.take(vi as int).map_values(g),
                decreases n.1.vpn_interfaces@.len() - vi,
            {
                let v = &n.1.vpn_interfaces[vi];
                let ghost rb = r@;
                r.push((n.0.clone(), Protocol::Udp, PortOrRange::Single(v.1.listen_port), ConfigLocation::Node(n.0.clone(), NodeLoc::VpnInterface(v.0.clone(), VpnLoc::ListenPort))));
                assert(reg_view(r@) =~= reg_view(rb).push(g(*v)));
                assert(n.1.vpn_interfaces@.take(vi + 1).map_values(g) =~= n.1.vpn_interfaces@.take(vi as int).map_values(g).push(g(*v)));
                vi = vi + 1;
            }
            assert(n.1.vpn_interfaces@.take(n.1.vpn_interfaces@.len() as int) =~= n.1.vpn_interfaces@);
            assert(reg_view(r@) =~= before + seed_fn()(*n));
        } else {
            assert(reg_view(r@) =~= before + seed_fn()(*n));
        }
        proof {
            assert(config.nodes@.take(ni + 1) =~= config.nodes@.take(ni as int).push(*n));
            config.nodes@.take(ni as int).lemma_flat_map_push(seed_fn(), *n);
        }
        ni = ni + 1;
    }
    assert(config.nodes@.take(config.nodes@.len() as int) =~= config.nodes@);
    r
}

fn exposure_list(config: &Config) -> (r: Vec<(&Service, ServiceHost)>)
    ensures
        r@.map_values(|p: (&Service, ServiceHost)| (*p.0, p.1)) == exposure_services(*config),
{
    let ghost pf = |p: (&Service, ServiceHost)| (*p.0, p.1);
    let mut r: Vec<(&Service, ServiceHost)> = Vec::new();
    let mut ni: usize = 0;
    while ni < config.nodes.len()
        invariant
            ni <= config.nodes@.len(),
            pf == (|p: (&Service, ServiceHost)| (*p.0, p.1)),
            r@.map_values(pf) == config.nodes@.take(ni as int).flat_map(exposure_fn()),
        decreases config.nodes@.len() - ni,
    {
        let n = &config.nodes[ni];
        let ghost before = r@.map_values(pf);
        push_node_services(&mut r, &n.0, &n.1.services);
        push_vpns_services(&mut r, &n.0, &n.1.vpn_interfaces);
        push_zones_services(&mut r, &n.0, &n.1.zones);
        proof {
            assert(r@.map_values(pf) =~= before + exposure_fn()(*n));
            assert(config.nodes@.take(ni + 1) =~= config.nodes@.take(ni as int).push(*n));
            config.nodes@.take(ni as int).lemma_flat_map_push(exposure_fn(), *n);
        }
        ni = ni + 1;
    }
    assert(config.nodes@.take(config.nodes@.len() as int) =~= config.nodes@);
    push_clients_services(&mut r, &config.clients);
    r
}

fn registry_exists(config: &Config, name: &Identifier) -> (b: bool)
    ensures
        b == has_registry(*config, name@),
{
    match find_key(&config.nodes, name) {
        Some(k) => config.nodes[k].1.wan_zone.is_some(),
        None => false,
    }
}

/// Inserts the external port of `service` into the registry of each node it is exposed
/// through.
fn add_external_service(
    config: &Config,
    reg: &mut Vec<RegEntry>,
    service: &Service,
    at: &ConfigLocation,
    report: &mut ValidationReport,
)
    ensures
        ({
            let t = match service.wan {
                Some(w) => vias_run(reg_view(old(reg)@), *config, *service, *at, w.via@),
                None => (reg_view(old(reg)@), Seq::<ErrorView>::empty()),
            };
            &&& reg_view(final(reg)@) == t.0
            &&& errors_view(final(report).errors@) == errors_view(old(report).errors@) + t.1
        }),
        final(report).warnings@ == old(report).warnings@,
{
    let ghost eb = errors_view(report.errors@);
    match &service.wan {
        None => {
            assert(errors_view(report.errors@) =~= eb + Seq::<ErrorView>::empty());
        },
        Some(w) => {
            let vias = w.via.iter();
            let ghost r0 = reg_view(reg@);
            let external = service.port.external();
            let mut i: usize = 0;
            while i < vias.len()
                invariant
                    i <= vias@.len(),
                    vias@ == w.via@,
                    external@ == service_external(service.port@),
                    r0 == reg_view(old(reg)@),
                    eb == errors_view(old(report).errors@),
                    report.warnings@ == old(report).warnings@,
                    reg_view(reg@) == vias_run(r0, *config, *service, *at, vias@.take(i as int)).0,
                    errors_view(report.errors@) == eb + vias_run(r0, *config, *service, *at, vias@.take(i as int)).1,
                decreases vias@.len() - i,
            {
                let name = vias[i].node();
                proof {
                    assert(vias@.take(i + 1).drop_last() =~= vias@.take(i as int));
                }
                if registry_exists(config, name) {
                    try_insert(reg, name, service.proto.items(), external, at, report);
                }
                i = i + 1;
            }
            assert(vias@.take(vias@.len() as int) =~= vias@);
        },
    }
}

#[verifier::spinoff_prover]
#[verifier::rlimit(40)]
fn check_external_port_collisions(config: &Config, report: &mut ValidationReport)
    ensures
        errors_view(final(report).errors@) == errors_view(old(report).errors@) + external_port_errors(*config),
        final(report).warnings@ == old(report).warnings@,
{
    let mut reg = seed_registry(config);
    let svcs = exposure_list(config);
    let ghost sv = svcs@.map_values(|p: (&Service, ServiceHost)| (*p.0, p.1));
    let ghost r0 = reg_view(reg@);
    let ghost eb = errors_view(report.errors@);
    let mut i: usize = 0;
    while i < svcs.len()
        invariant
            i <= svcs@.len(),
            sv == svcs@.map_values(|p: (&Service, ServiceHost)| (*p.0, p.1)),
            sv == exposure_services(*config),
            r0 == config.nodes@.flat_map(seed_fn()),
            eb == errors_view(old(report).errors@),
            report.warnings@ == old(report).warnings@,
            reg_view(reg@) == exposed_run(r0, *config, sv.take(i as int)).0,
            errors_view(report.errors@) == eb + exposed_run(r0, *config, sv.take(i as int)).1,
        decreases svcs@.len() - i,
    {
        let (service, host) = (&svcs[i].0, &svcs[i].1);
        assert(sv[i as int] == (**service, *host));
        proof {
            assert(sv.take(i + 1).drop_last() =~= sv.take(i as int));
        }
        let at = host.to_location(ServiceLoc::Port);
        add_external_service(config, &mut reg, service, &at, report);
        i = i + 1;
    }
    assert(sv.take(sv.len() as int) =~= sv);
}

/// Checks the ports: the external collisions on each node services are exposed through,
/// then the collisions inside each host.
pub fn check_ports(config: &Config, report: &mut ValidationReport)
    ensures
        errors_view(final(report).errors@) == errors_view(old(report).errors@) + port_errors(*config),
        final(report).warnings@ == old(report).warnings@,
{
    check_external_port_collisions(config, report);
    check_internal_port_collisions(config, report);
}

/// Two registry entries clash: same registry, same protocol, and ports that share a port.
pub open spec fn entries_clash(a: PortEntry, b: PortEntry) -> bool {
    a.0 == b.0 && a.1 == b.1 && por_conflict(a.2, b.2)
}

/// No two entries of the registry clash.
pub open spec fn registry_apart(reg: Seq<PortEntry>) -> bool {
    forall|i: int, j: int| 0 <= i < j < reg.len() ==> !entries_clash(#[trigger] reg[i], #[trigger] reg[j])
}

/// The entries a port takes on each of its protocols.
pub open spec fn port_entries(key: Seq<char>, protos: Seq<Protocol>, port: PorView, at: ConfigLocation) -> Seq<PortEntry> {
    protos.map_values(|p: Protocol| (key, p, port, at))
}

pub open spec fn service_entries_fn(key: Seq<char>) -> spec_fn((Service, ServiceHost)) -> Seq<PortEntry> {
    |s: (Service, ServiceHost)|
        port_entries(key, s.0.proto@, service_internal(s.0.port@), host_location(s.1, ServiceLoc::Port))
}

/// The internal ports that a host's services take: each service's internal port on each of
/// its protocols, in the registry `key`.
pub open spec fn internal_entries(key: Seq<char>, svcs: Seq<(Service, ServiceHost)>) -> Seq<PortEntry> {
    svcs.flat_map(service_entries_fn(key))
}

/// A port that raises no collision is recorded, and the registry stays free of clashes.
proof fn lemma_proto_step_apart(reg: Seq<PortEntry>, key: Seq<char>, proto: Protocol, port: PorView, at: ConfigLocation)
    requires
        registry_apart(reg),
        proto_step(reg, key, proto, port, at).1.len() == 0,
    ensures
        proto_step(reg, key, proto, port, at).0 == reg.push((key, proto, port, at)),
        registry_apart(reg.push((key, proto, port, at))),
{
    let e = (key, proto, port, at);
    let all = reg.push(e);
    assert forall|i: int, j: int| 0 <= i < j < all.len() implies !entries_clash(#[trigger] all[i], #[trigger] all[j]) by {
        if j == reg.len() {
            lemma_filter_map_none(reg, collision_fn(key, proto, port, at), i);
            assert(all[i] == reg[i]);
        } else {
            assert(all[i] == reg[i] && all[j] == reg[j]);
        }
    }
}

/// A port on all its protocols, raising no collision, is recorded on each of them.
proof fn lemma_protos_apart(reg: Seq<PortEntry>, key: Seq<char>, protos: Seq<Protocol>, port: PorView, at: ConfigLocation)
    requires
        registry_apart(reg),
        protos_run(reg, key, protos, port, at).1.len() == 0,
    ensures
        protos_run(reg, key, protos, port, at).0 == reg + port_entries(key, protos, port, at),
        registry_apart(reg + port_entries(key, protos, port, at)),
    decreases protos.len(),
{
    if protos.len() == 0 {
        assert(reg + port_entries(key, protos, port, at) =~= reg);
    } else {
        let rest = protos.drop_last();
        let r = protos_run(reg, key, rest, port, at);
        assert(r.1.len() == 0);
        lemma_protos_apart(reg, key, rest, port, at);
        lemma_proto_step_apart(r.0, key, protos.last(), port, at);
        assert(port_entries(key, protos, port, at) =~= port_entries(key, rest, port, at).push(
            (key, protos.last(), port, at),
        ));
        assert(reg + port_entries(key, protos, port, at) =~= r.0.push((key, protos.last(), port, at)));
    }
}

/// Services raising no collision are all recorded, and then the registry has no clash.
proof fn lemma_internal_apart(reg: Seq<PortEntry>, key: Seq<char>, svcs: Seq<(Service, ServiceHost)>)
    requires
        registry_apart(reg),
        internal_run(reg, key, svcs).1.len() == 0,
    ensures
        internal_run(reg, key, svcs).0 == reg + internal_entries(key, svcs),
        registry_apart(reg + internal_entries(key, svcs)),
    decreases svcs.len(),
{
    if svcs.len() == 0 {
        assert(reg + internal_entries(key, svcs) =~= reg);
    } else {
        let rest = svcs.drop_last();
        let p = svcs.last();
        let r = internal_run(reg, key, rest);
        assert(r.1.len() == 0);
        lemma_internal_apart(reg, key, rest);
        lemma_protos_apart(r.0, key, p.0.proto@, service_internal(p.0.port@), host_location(p.1, ServiceLoc::Port));
        rest.lemma_flat_map_push(service_entries_fn(key), p);
        assert(rest.push(p) =~= svcs);
        assert(reg + internal_entries(key, svcs) =~= r.0 + service_entries_fn(key)(p));
    }
}

/// Services of one host do not share a port: when the check of a host's services reports no
/// collision, no two of them take a common port on a common protocol.
pub proof fn lemma_host_ports_apart(key: Seq<char>, svcs: Seq<(Service, ServiceHost)>)
    requires
        internal_run(seq![], key, svcs).1.len() == 0,
    ensures
        registry_apart(internal_entries(key, svcs)),
{
    lemma_internal_apart(seq![], key, svcs);
    assert(Seq::<PortEntry>::empty() + internal_entries(key, svcs) =~= internal_entries(key, svcs));
}

} // verus!
