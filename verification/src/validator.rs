//! Checks of a configuration before anything is generated from it.

pub mod types;
pub mod names;
pub mod networks;
pub mod ports;
pub mod tags;
pub mod references;
pub mod entities;
pub mod wan;

use vstd::prelude::*;

use crate::config::{Config, client_service_fn, config_services, device_service_fn};
use crate::entries::{lemma_flat_map_has, lookup};
use crate::types::allow_from_ref::{AllowFromRef, AllowFromRefView};
use crate::validator::entities::{check_entities, entity_errors, entity_warnings};
use crate::validator::names::{
    global_names, lemma_global_names_registered, lemma_no_local_shadows_global, local_names, names_outcome, refs_view,
    validate_names,
};
use crate::types::ip::{iface_network, lemma_overlap_symmetric, net_contains, nets_overlap};
use crate::validator::networks::{
    check_networks, claim_errors, claimed_networks, client_ip_errors, client_ips_fn, client_net_ip_fn,
    client_node_ips_fn, device_ip_fn, lemma_claims_without_errors, peer_ip_fn, vpn_claim_fn, vpn_claims_fn,
    zone_claim_fn, zone_claims_fn, client_mesh_fn, mesh_claim, node_mesh_fn, claims_run, distinct_ips, ip_collision_errors, lemma_claimed_networks_apart,
    lemma_flat_map_empty, lemma_ips_unique, mesh_entries, network_errors, vpn_entries, zone_entries,
};
use crate::validator::ports::{
    check_ports, client_internal_fn, device_internal_fn, internal_entries, node_internal_fn, zone_internal_fn, internal_port_errors, lemma_host_ports_apart, port_errors,
    registry_apart,
};
use crate::validator::references::{
    check_references_resolution, reference_errors, reference_warnings, service_refs_fn, unknown_ref_fn,
};
use crate::validator::tags::{lemma_filter_map_none, lemma_tags_apart_from_names, tag_errors, tag_events, tag_refs, validate_tags};
use crate::validator::types::{ErrorView, ValidationReport, ValidationWarning, errors_view};
use crate::validator::wan::{check_wan, wan_errors, wan_warnings};

verus! {

/// The references that `allowFrom` may name: the names of the configuration, then its tags.
pub open spec fn known_refs(config: Config) -> Seq<AllowFromRefView> {
    names_outcome(config).refs + tag_refs(config, names_outcome(config).refs)
}

/// The errors of a configuration, pass by pass: names, tags, references, entities,
/// addressing, ports, WAN exposure.
pub open spec fn config_errors(config: Config) -> Seq<ErrorView> {
    names_outcome(config).errors + tag_errors(config, names_outcome(config).refs) + reference_errors(
        config,
        known_refs(config),
    ) + entity_errors(config) + network_errors(config) + port_errors(config) + wan_errors(config)
}

/// The warnings of a configuration, pass by pass.
pub open spec fn config_warnings(config: Config) -> Seq<ValidationWarning> {
    reference_warnings(config) + entity_warnings(config) + wan_warnings(config)
}

/// Runs every check on the configuration and collects what they find.
pub fn validate_config(config: &Config) -> (r: ValidationReport)
    ensures
        errors_view(r.errors@) == config_errors(*config),
        r.warnings@ == config_warnings(*config),
{
    let mut report = ValidationReport::default();
    assert(errors_view(report.errors@) =~= Seq::<ErrorView>::empty());
    assert(report.warnings@ =~= Seq::<ValidationWarning>::empty());
    let names = validate_names(config, &mut report);
    let tags = validate_tags(config, &mut report, &names);
    let mut refs: Vec<AllowFromRef> = Vec::new();
    let mut i: usize = 0;
    while i < names.len()
        invariant
            i <= names@.len(),
            refs_view(refs@) == refs_view(names@.take(i as int)),
        decreases names@.len() - i,
    {
        let ghost rb = refs@;
        refs.push(names[i].clone());
        assert(refs_view(refs@) =~= refs_view(rb).push(names@[i as int]@));
        assert(refs_view(names@.take(i + 1)) =~= refs_view(names@.take(i as int)).push(names@[i as int]@));
        i = i + 1;
    }
    assert(names@.take(names@.len() as int) =~= names@);
    let ghost head = refs_view(refs@);
    let mut k: usize = 0;
    while k < tags.len()
        invariant
            k <= tags@.len(),
            head == refs_view(names@),
            refs_view(refs@) == head + refs_view(tags@.take(k as int)),
        decreases tags@.len() - k,
    {
        let ghost rb = refs@;
        refs.push(tags[k].clone());
        assert(refs_view(refs@) =~= refs_view(rb).push(tags@[k as int]@));
        assert(refs_view(tags@.take(k + 1)) =~= refs_view(tags@.take(k as int)).push(tags@[k as int]@));
        k = k + 1;
    }
    assert(tags@.take(tags@.len() as int) =~= tags@);
    check_references_resolution(config, &refs, &mut report);
    check_entities(config, &mut report);
    check_networks(config, &mut report);
    check_ports(config, &mut report);
    check_wan(config, &mut report);
    report
}

/// Every subnet of the mesh is unique and non-overlapping: when the validator reports no
/// error, no two of the mesh network, the zones' networks and the VPN interfaces' networks
/// overlap.
pub proof fn lemma_valid_subnets_apart(config: Config)
    requires
        config_errors(config).len() == 0,
    ensures
        forall|i: int, j: int|
            0 <= i < claimed_networks(config).len() && 0 <= j < claimed_networks(config).len() && i != j
                ==> !nets_overlap(#[trigger] claimed_networks(config)[i]@, #[trigger] claimed_networks(config)[j]@),
{
    assert(network_errors(config).len() == 0);
    assert(claim_errors(config).len() == 0);
    lemma_claimed_networks_apart(config);
    let c = claimed_networks(config);
    assert forall|i: int, j: int| 0 <= i < c.len() && 0 <= j < c.len() && i != j implies !nets_overlap(
        #[trigger] c[i]@,
        #[trigger] c[j]@,
    ) by {
        if i > j {
            assert(!nets_overlap(c[i]@, c[j]@));
        } else {
            assert(!nets_overlap(c[j]@, c[i]@));
            lemma_overlap_symmetric(c[i]@, c[j]@);
        }
    }
}

/// Every address is unique where it must be: when the validator reports no error, no two
/// nodes share a mesh address, and no address is used twice on one zone or one VPN
/// interface (router, devices, peers and clients together).
pub proof fn lemma_valid_addresses_unique(config: Config)
    requires
        config_errors(config).len() == 0,
    ensures
        distinct_ips(mesh_entries(config)),
        forall|ni: int, zi: int|
            0 <= ni < config.nodes@.len() && 0 <= zi < config.nodes@[ni].1.zones@.len() ==> distinct_ips(
                zone_entries(config, config.nodes@[ni].0, #[trigger] config.nodes@[ni].1.zones@[zi]),
            ),
        forall|ni: int, vi: int|
            0 <= ni < config.nodes@.len() && 0 <= vi < config.nodes@[ni].1.vpn_interfaces@.len() ==> distinct_ips(
                vpn_entries(config, config.nodes@[ni].0, #[trigger] config.nodes@[ni].1.vpn_interfaces@[vi]),
            ),
{
    assert(network_errors(config).len() == 0);
    assert(ip_collision_errors(config).len() == 0);
    lemma_ips_unique(config);
}

/// Names and tags stay apart, whatever the order of declaration: when the validator reports
/// no error, no zone, device, VPN interface or VPN peer of any node has the name of a node or
/// a client, and no tag is the name of a node, a client, or any node's zone, device, VPN
/// interface or VPN peer.
pub proof fn lemma_valid_names_apart(config: Config)
    requires
        config_errors(config).len() == 0,
    ensures
        forall|k: int| 0 <= k < local_names(config).len() ==> !global_names(config).contains(#[trigger] local_names(config)[k]),
        forall|k: int|
            0 <= k < tag_events(config).len() ==> !local_names(config).contains((#[trigger] tag_events(config)[k]).0@)
                && !global_names(config).contains(tag_events(config)[k].0@),
{
    let refs = names_outcome(config).refs;
    assert(names_outcome(config).errors.len() == 0);
    assert(tag_errors(config, refs).len() == 0);
    lemma_no_local_shadows_global(config);
    lemma_tags_apart_from_names(config, refs);
    lemma_global_names_registered(config);
    assert forall|k: int| 0 <= k < tag_events(config).len() implies !local_names(config).contains(
        (#[trigger] tag_events(config)[k]).0@,
    ) && !global_names(config).contains(tag_events(config)[k].0@) by {
        let t = tag_events(config)[k].0@;
        if global_names(config).contains(t) {
            let j = choose|j: int| 0 <= j < global_names(config).len() && global_names(config)[j] == t;
            assert(refs.contains(AllowFromRefView::Bare(global_names(config)[j])));
        }
    }
}

/// A client's services do not share a port: when the validator reports no error, no two
/// services of any client take a common port on a common protocol.
pub proof fn lemma_valid_client_ports_apart(config: Config)
    requires
        config_errors(config).len() == 0,
    ensures
        forall|ci: int|
            0 <= ci < config.clients@.len() ==> registry_apart(
                internal_entries(
                    (#[trigger] config.clients@[ci]).0@,
                    config.clients@[ci].1.services@.map_values(client_service_fn(config.clients@[ci].0)),
                ),
            ),
{
    assert(port_errors(config).len() == 0);
    assert(internal_port_errors(config).len() == 0);
    assert(config.clients@.flat_map(client_internal_fn()).len() == 0);
    assert forall|ci: int| 0 <= ci < config.clients@.len() implies registry_apart(
        internal_entries(
            (#[trigger] config.clients@[ci]).0@,
            config.clients@[ci].1.services@.map_values(client_service_fn(config.clients@[ci].0)),
        ),
    ) by {
        lemma_flat_map_empty(config.clients@, client_internal_fn(), ci);
        let c = config.clients@[ci];
        lemma_host_ports_apart(c.0@, c.1.services@.map_values(client_service_fn(c.0)));
    }
}

/// A device's services do not share a port: when the validator reports no error, no two
/// services of any device of any zone take a common port on a common protocol.
pub proof fn lemma_valid_device_ports_apart(config: Config)
    requires
        config_errors(config).len() == 0,
    ensures
        forall|ni: int, zi: int, di: int|
            0 <= ni < config.nodes@.len() && 0 <= zi < config.nodes@[ni].1.zones@.len() && 0 <= di
                < config.nodes@[ni].1.zones@[zi].1.devices@.len() ==> registry_apart(
                internal_entries(
                    (#[trigger] config.nodes@[ni].1.zones@[zi].1.devices@[di]).0@,
                    config.nodes@[ni].1.zones@[zi].1.devices@[di].1.services@.map_values(
                        device_service_fn(
                            config.nodes@[ni].0,
                            config.nodes@[ni].1.zones@[zi].0,
                            config.nodes@[ni].1.zones@[zi].1.devices@[di].0,
                        ),
                    ),
                ),
            ),
{
    assert(port_errors(config).len() == 0);
    assert(internal_port_errors(config).len() == 0);
    assert(config.nodes@.flat_map(node_internal_fn()).len() == 0);
    assert forall|ni: int, zi: int, di: int|
        0 <= ni < config.nodes@.len() && 0 <= zi < config.nodes@[ni].1.zones@.len() && 0 <= di
            < config.nodes@[ni].1.zones@[zi].1.devices@.len() implies registry_apart(
            internal_entries(
                (#[trigger] config.nodes@[ni].1.zones@[zi].1.devices@[di]).0@,
                config.nodes@[ni].1.zones@[zi].1.devices@[di].1.services@.map_values(
                    device_service_fn(
                        config.nodes@[ni].0,
                        config.nodes@[ni].1.zones@[zi].0,
                        config.nodes@[ni].1.zones@[zi].1.devices@[di].0,
                    ),
                ),
            ),
        ) by {
        let n = config.nodes@[ni];
        let z = n.1.zones@[zi];
        let d = z.1.devices@[di];
        lemma_flat_map_empty(config.nodes@, node_internal_fn(), ni);
        assert(n.1.zones@.flat_map(zone_internal_fn(n.0)).len() == 0);
        lemma_flat_map_empty(n.1.zones@, zone_internal_fn(n.0), zi);
        lemma_flat_map_empty(z.1.devices@, device_internal_fn(n.0, z.0), di);
        lemma_host_ports_apart(d.0@, d.1.services@.map_values(device_service_fn(n.0, z.0, d.0)));
    }
}

/// Mesh addresses lie in the mesh network: when the validator reports no error, the mesh
/// address of every client that has one, and of every node, is inside `meshNetwork`.
pub proof fn lemma_valid_mesh_addresses_inside(config: Config)
    requires
        config_errors(config).len() == 0,
    ensures
        forall|ci: int|
            0 <= ci < config.clients@.len() && (#[trigger] config.clients@[ci]).1.mesh_ip is Some ==> net_contains(
                config.mesh_network@,
                config.clients@[ci].1.mesh_ip->0@,
            ),
        forall|ni: int|
            0 <= ni < config.nodes@.len() ==> net_contains(
                config.mesh_network@,
                (#[trigger] config.nodes@[ni]).1.mesh_ip@,
            ),
{
    assert(network_errors(config).len() == 0);
    assert(claim_errors(config).len() == 0);
    let mc = mesh_claim(config);
    let m = claims_run(seq![], seq![mc]);
    assert(seq![mc].drop_last() =~= Seq::<crate::validator::networks::Claim>::empty());
    assert(m.1.len() == 0);
    assert(mc.2.len() == 0);
    let cs = config.clients@.filter_map(client_mesh_fn(config.mesh_network));
    let ns = config.nodes@.filter_map(node_mesh_fn(config.mesh_network));
    assert(mc.2 == cs + ns);
    assert forall|ci: int|
        0 <= ci < config.clients@.len() && (#[trigger] config.clients@[ci]).1.mesh_ip is Some implies net_contains(
            config.mesh_network@,
            config.clients@[ci].1.mesh_ip->0@,
        ) by {
        lemma_filter_map_none(config.clients@, client_mesh_fn(config.mesh_network), ci);
    }
    assert forall|ni: int| 0 <= ni < config.nodes@.len() implies net_contains(
        config.mesh_network@,
        (#[trigger] config.nodes@[ni]).1.mesh_ip@,
    ) by {
        lemma_filter_map_none(config.nodes@, node_mesh_fn(config.mesh_network), ni);
    }
}

/// Devices and VPN peers lie in their networks: when the validator reports no error, the
/// address of every device is inside its zone's network, and the address of every peer of
/// a VPN interface is inside that interface's network.
pub proof fn lemma_valid_local_addresses_inside(config: Config)
    requires
        config_errors(config).len() == 0,
    ensures
        forall|ni: int, zi: int, di: int|
            0 <= ni < config.nodes@.len() && 0 <= zi < config.nodes@[ni].1.zones@.len() && 0 <= di
                < config.nodes@[ni].1.zones@[zi].1.devices@.len() ==> net_contains(
                iface_network(config.nodes@[ni].1.zones@[zi].1.address)@,
                (#[trigger] config.nodes@[ni].1.zones@[zi].1.devices@[di]).1.ip@,
            ),
        forall|ni: int, vi: int, pi: int|
            0 <= ni < config.nodes@.len() && 0 <= vi < config.nodes@[ni].1.vpn_interfaces@.len() && 0 <= pi
                < config.nodes@[ni].1.vpn_interfaces@[vi].1.clients@.len() ==> net_contains(
                iface_network(config.nodes@[ni].1.vpn_interfaces@[vi].1.address)@,
                (#[trigger] config.nodes@[ni].1.vpn_interfaces@[vi].1.clients@[pi]).1.ip@,
            ),
{
    assert(network_errors(config).len() == 0);
    assert(claim_errors(config).len() == 0);
    let m = claims_run(seq![], seq![mesh_claim(config)]);
    let zc = config.nodes@.flat_map(zone_claims_fn());
    let z = claims_run(m.0, zc);
    let vc = config.nodes@.flat_map(vpn_claims_fn());
    let v = claims_run(z.0, vc);
    assert(claim_errors(config) == m.1 + z.1 + v.1);
    assert(z.1.len() == 0 && v.1.len() == 0);
    assert forall|ni: int, zi: int, di: int|
        0 <= ni < config.nodes@.len() && 0 <= zi < config.nodes@[ni].1.zones@.len() && 0 <= di
            < config.nodes@[ni].1.zones@[zi].1.devices@.len() implies net_contains(
            iface_network(config.nodes@[ni].1.zones@[zi].1.address)@,
            (#[trigger] config.nodes@[ni].1.zones@[zi].1.devices@[di]).1.ip@,
        ) by {
        let n = config.nodes@[ni];
        let zn = n.1.zones@[zi];
        let c = zone_claim_fn(n.0)(zn);
        assert(zone_claims_fn()(n)[zi] == c);
        lemma_flat_map_has(config.nodes@, zone_claims_fn(), ni, zi);
        let w = choose|w: int| 0 <= w < zc.len() && zc[w] == c;
        lemma_claims_without_errors(m.0, zc, w);
        lemma_filter_map_none(zn.1.devices@, device_ip_fn(n.0, zn.0, iface_network(zn.1.address)), di);
    }
    assert forall|ni: int, vi: int, pi: int|
        0 <= ni < config.nodes@.len() && 0 <= vi < config.nodes@[ni].1.vpn_interfaces@.len() && 0 <= pi
            < config.nodes@[ni].1.vpn_interfaces@[vi].1.clients@.len() implies net_contains(
            iface_network(config.nodes@[ni].1.vpn_interfaces@[vi].1.address)@,
            (#[trigger] config.nodes@[ni].1.vpn_interfaces@[vi].1.clients@[pi]).1.ip@,
        ) by {
        let n = config.nodes@[ni];
        let vn = n.1.vpn_interfaces@[vi];
        let c = vpn_claim_fn(n.0)(vn);
        assert(vpn_claims_fn()(n)[vi] == c);
        lemma_flat_map_has(config.nodes@, vpn_claims_fn(), ni, vi);
        let w = choose|w: int| 0 <= w < vc.len() && vc[w] == c;
        lemma_claims_without_errors(z.0, vc, w);
        lemma_filter_map_none(vn.1.clients@, peer_ip_fn(n.0, vn.0, iface_network(vn.1.address)), pi);
    }
}

/// Clients' addresses lie in the networks they name: when the validator reports no error,
/// every address a client gives on a zone of an existing node is inside that zone's
/// network, and every address it gives on a VPN interface (not named like a zone) is inside
/// that interface's network.
pub proof fn lemma_valid_client_addresses_inside(config: Config, ci: int, gi: int, ki: int)
    requires
        config_errors(config).len() == 0,
        0 <= ci < config.clients@.len(),
        0 <= gi < config.clients@[ci].1.ips@.len(),
        lookup(config.nodes@, config.clients@[ci].1.ips@[gi].0@) is Some,
        0 <= ki < config.clients@[ci].1.ips@[gi].1@.len(),
    ensures
        ({
            let node = lookup(config.nodes@, config.clients@[ci].1.ips@[gi].0@)->0;
            let e = config.clients@[ci].1.ips@[gi].1@[ki];
            &&& lookup(node.zones@, e.0@) matches Some(z) ==> net_contains(iface_network(z.address)@, e.1@)
            &&& lookup(node.zones@, e.0@) is None && lookup(node.vpn_interfaces@, e.0@) is Some ==> net_contains(
                iface_network(lookup(node.vpn_interfaces@, e.0@)->0.address)@,
                e.1@,
            )
        }),
{
    assert(network_errors(config).len() == 0);
    assert(client_ip_errors(config).len() == 0);
    let c = config.clients@[ci];
    let g = c.1.ips@[gi];
    let node = lookup(config.nodes@, g.0@)->0;
    lemma_flat_map_empty(config.clients@, client_ips_fn(config), ci);
    lemma_flat_map_empty(c.1.ips@, client_node_ips_fn(config, c.0), gi);
    lemma_filter_map_none(g.1@, client_net_ip_fn(c.0, g.0, node), ki);
}

/// Every reference resolves: when the validator reports no error, every `allowFrom` entry
/// of every service in the configuration (of nodes, devices, VPN peers and clients) is a
/// registered name or a declared tag.
pub proof fn lemma_valid_references_known(config: Config)
    requires
        config_errors(config).len() == 0,
    ensures
        forall|i: int, k: int|
            0 <= i < config_services(config).len() && 0 <= k < config_services(config)[i].0.allow_from@.len()
                ==> known_refs(config).contains((#[trigger] config_services(config)[i].0.allow_from@[k])@),
{
    let known = known_refs(config);
    assert(reference_errors(config, known).len() == 0);
    assert forall|i: int, k: int|
        0 <= i < config_services(config).len() && 0 <= k < config_services(config)[i].0.allow_from@.len()
            implies known.contains((#[trigger] config_services(config)[i].0.allow_from@[k])@) by {
        let p = config_services(config)[i];
        lemma_flat_map_empty(config_services(config), service_refs_fn(known), i);
        lemma_filter_map_none(p.0.allow_from@, unknown_ref_fn(known, p.1), k);
    }
}

} // verus!
