//! Firewall rules that let the sources named in a service's `allowFrom` reach it.
//!
//! Ingress rules cover the services hosted behind the configured node; egress rules let
//! sources local to the configured node reach services hosted behind other nodes.

use vstd::prelude::*;

use crate::config::{Client, Config, Node, NodeVpnInterface, NodeVpnInterfaceClient, NodeZone, NodeZoneDevice, Service, is_vpn_of, is_zone_of, node_addresses};
use crate::entries::{dedup, find_key, has_key, lemma_filter_map_has, lemma_flat_map_has, lookup};
use crate::managers::firewall::types::{BindingView, FirewallAction, TagBinding, bindings_view};
use crate::consts::{firewall_file_name, spec_firewall_file_name, spec_name_prefix};
use crate::managers::{UciSectionBuilder, add_list_cmds, network_strings, option_path, protocol_strings, section_path, set_opt};
use crate::naming::name_prefixed;
use crate::protocol::{Protocol, Protocols, protocol_text};
use crate::text::{sorted_of, strings_view};
use crate::types::ip::cidr_text;
use crate::types::port::por_text;
use crate::managers::firewall::types::action_text;
use crate::uci::{UciBatchCommand, UciCmd, cmds_view};
use crate::text::{concat3, push_str};
use crate::types::allow_from_ref::{AllowFromRef, AllowFromRefView};
use crate::types::identifier::Identifier;
use crate::types::ip::{Ipv4Addr, Ipv4Interface, Ipv4Network, is_network_address, net_contains, network_of, same_network};
use crate::types::port::{PorView, PortOrRange, service_internal};

verus! {

broadcast use {vstd::seq_lib::group_seq_properties, vstd::seq::Seq::group_seq_extra};

/// A rule accepting traffic from some networks to some hosts on some ports.
#[derive(Debug)]
pub struct FirewallRule {
    pub name: String,
    pub src_ip: Vec<Ipv4Network>,
    pub proto: Protocols,
    pub dest_port: PortOrRange,
    pub dest_ip: Vec<Ipv4Network>,
    pub target: FirewallAction,
}

/// What a rule says: name, sources, protocols, port, destinations, target.
pub type RuleView = (Seq<char>, Seq<(u32, u8)>, Seq<Protocol>, PorView, Seq<(u32, u8)>, FirewallAction);

/// The views of a sequence of networks.
pub open spec fn nets_view(s: Seq<Ipv4Network>) -> Seq<(u32, u8)> {
    s.map_values(|n: Ipv4Network| n@)
}

/// The views of a sequence of interface addresses.
pub open spec fn ifaces_view(s: Seq<Ipv4Interface>) -> Seq<(u32, u8)> {
    s.map_values(|n: Ipv4Interface| n@)
}

impl View for FirewallRule {
    type V = RuleView;

    open spec fn view(&self) -> RuleView {
        (
            self.name@,
            nets_view(self.src_ip@),
            self.proto@,
            self.dest_port@,
            nets_view(self.dest_ip@),
            self.target,
        )
    }
}

/// The views of a sequence of rules.
pub open spec fn rules_view(s: Seq<FirewallRule>) -> Seq<RuleView> {
    s.map_values(|r: FirewallRule| r@)
}

/// Some destination lies on another network than `ip`: traffic from `ip` to it crosses the
/// router (sources on the same network as every destination never reach its firewall).
pub open spec fn crosses(dests: Seq<(u32, u8)>, ip: u32) -> bool {
    exists|i: int| 0 <= i < dests.len() && !same_network(#[trigger] dests[i], ip)
}

/// `ip` passes the source filter: there is none, or one of its networks holds `ip`.
pub open spec fn passes(filter: Option<Seq<(u32, u8)>>, ip: u32) -> bool {
    match filter {
        None => true,
        Some(f) => exists|i: int| 0 <= i < f.len() && net_contains(#[trigger] f[i], ip),
    }
}

pub open spec fn source_fn(t: AllowFromRefView, dests: Seq<(u32, u8)>, filter: Option<Seq<(u32, u8)>>) -> spec_fn(
    BindingView,
) -> Option<(u32, u8)> {
    |b: BindingView|
        if b.0 == t && crosses(dests, b.2.0) && passes(filter, b.2.0) {
            Some(b.2)
        } else {
            None
        }
}

pub open spec fn tag_sources_fn(binds: Seq<BindingView>, dests: Seq<(u32, u8)>, filter: Option<Seq<(u32, u8)>>) -> spec_fn(
    AllowFromRefView,
) -> Seq<(u32, u8)> {
    |t: AllowFromRefView| binds.filter_map(source_fn(t, dests, filter))
}

/// The views of the references of a service's `allowFrom`.
pub open spec fn allow_view(s: Service) -> Seq<AllowFromRefView> {
    s.allow_from@.map_values(|t: AllowFromRef| t@)
}

/// The source networks of a rule: for each reference in turn, the networks it is bound to
/// that cross the router towards the destinations and pass the filter.
pub open spec fn rule_sources(
    allow: Seq<AllowFromRefView>,
    binds: Seq<BindingView>,
    dests: Seq<(u32, u8)>,
    filter: Option<Seq<(u32, u8)>>,
) -> Seq<(u32, u8)> {
    allow.flat_map(tag_sources_fn(binds, dests, filter))
}

/// The rule for a service, if any source remains: named `owner_service`, accepting the
/// sources towards each destination host on the service's internal port.
pub open spec fn rule_for(
    service_name: Seq<char>,
    service: Service,
    dests: Seq<(u32, u8)>,
    owner: Seq<char>,
    binds: Seq<BindingView>,
    filter: Option<Seq<(u32, u8)>>,
) -> Option<RuleView> {
    let src = rule_sources(allow_view(service), binds, dests, filter);
    if src.len() == 0 {
        None
    } else {
        Some(
            (
                owner + seq!['_'] + service_name,
                src,
                dedup(service.proto@),
                service_internal(service.port@),
                dests.map_values(|d: (u32, u8)| (d.0, 32u8)),
                FirewallAction::Accept,
            ),
        )
    }
}

fn crosses_exec(dests: &Vec<Ipv4Interface>, ip: Ipv4Addr) -> (r: bool)
    ensures
        r == crosses(ifaces_view(dests@), ip@),
{
    let mut i: usize = 0;
    while i < dests.len()
        invariant
            i <= dests@.len(),
            forall|j: int| 0 <= j < i ==> same_network(dests@[j]@, ip@),
        decreases dests@.len() - i,
    {
        if !dests[i].is_in_same_network(ip) {
            assert(ifaces_view(dests@)[i as int] == dests@[i as int]@);
            return true;
        }
        i = i + 1;
    }
    assert forall|j: int| 0 <= j < ifaces_view(dests@).len() implies same_network(
        ifaces_view(dests@)[j],
        ip@,
    ) by {
        assert(ifaces_view(dests@)[j] == dests@[j]@);
    }
    false
}

/// The views of an optional filter.
pub open spec fn filter_view(f: Option<&Vec<Ipv4Network>>) -> Option<Seq<(u32, u8)>> {
    match f {
        None => None,
        Some(v) => Some(nets_view(v@)),
    }
}

proof fn lemma_passes_witness(f: Seq<(u32, u8)>, ip: u32, w: int)
    requires
        0 <= w < f.len(),
        net_contains(f[w], ip),
    ensures
        passes(Some(f), ip),
{
    assert(exists|i: int| 0 <= i < f.len() && net_contains(#[trigger] f[i], ip));
    let o: Option<Seq<(u32, u8)>> = Some(f);
    assert(o matches Some(g) && g == f);
}

fn passes_exec(filter: Option<&Vec<Ipv4Network>>, ip: Ipv4Addr) -> (r: bool)
    ensures
        r == passes(filter_view(filter), ip@),
{
    match filter {
        None => true,
        Some(f) => {
            let mut i: usize = 0;
            while i < f.len()
                invariant
                    i <= f@.len(),
                    filter == Some(f),
                    forall|j: int| 0 <= j < i ==> !net_contains(f@[j]@, ip@),
                decreases f@.len() - i,
            {
                if f[i].contains(ip) {
                    assert(nets_view(f@)[i as int] == f@[i as int]@);
                    assert(net_contains(nets_view(f@)[i as int], ip@));
                    assert(filter_view(filter) == Some(nets_view(f@)));
                    let ghost w = i as int;
                    assert(0 <= w < nets_view(f@).len() && net_contains(nets_view(f@)[w], ip@));
                    proof {
                        lemma_passes_witness(nets_view(f@), ip@, w);
                    }
                    return true;
                }
                i = i + 1;
            }
            assert forall|j: int| 0 <= j < nets_view(f@).len() implies !net_contains(
                nets_view(f@)[j],
                ip@,
            ) by {
                assert(nets_view(f@)[j] == f@[j]@);
            }
            false
        },
    }
}

/// The hosts of the destination addresses.
fn dest_hosts(dests: &Vec<Ipv4Interface>) -> (r: Vec<Ipv4Network>)
    ensures
        nets_view(r@) == ifaces_view(dests@).map_values(|d: (u32, u8)| (d.0, 32u8)),
{
    let mut r: Vec<Ipv4Network> = Vec::new();
    let mut i: usize = 0;
    while i < dests.len()
        invariant
            i <= dests@.len(),
            nets_view(r@) == ifaces_view(dests@.take(i as int)).map_values(|d: (u32, u8)| (d.0, 32u8)),
        decreases dests@.len() - i,
    {
        let ghost before = r@;
        r.push(Ipv4Network::host(dests[i].ip()));
        proof {
            assert(dests@.take(i + 1) =~= dests@.take(i as int).push(dests@[i as int]));
            assert(nets_view(r@) =~= nets_view(before).push((dests@[i as int]@.0, 32u8)));
            assert(ifaces_view(dests@.take(i + 1)).map_values(|d: (u32, u8)| (d.0, 32u8)) =~= ifaces_view(
                dests@.take(i as int),
            ).map_values(|d: (u32, u8)| (d.0, 32u8)).push((dests@[i as int]@.0, 32u8)));
        }
        i = i + 1;
    }
    assert(dests@.take(dests@.len() as int) =~= dests@);
    r
}

/// The rule for one service, unless no source remains.
fn generate_rule_from_service(
    service_name: &Identifier,
    service: &Service,
    dest_addresses: &Vec<Ipv4Interface>,
    owner_name: &str,
    binds: &Vec<TagBinding>,
    src_ip_filter: Option<&Vec<Ipv4Network>>,
) -> (r: Option<FirewallRule>)
    ensures
        match r {
            Some(rule) => rule_for(
                service_name@,
                *service,
                ifaces_view(dest_addresses@),
                owner_name@,
                bindings_view(binds@),
                filter_view(src_ip_filter),
            ) == Some(rule@),
            None => rule_for(
                service_name@,
                *service,
                ifaces_view(dest_addresses@),
                owner_name@,
                bindings_view(binds@),
                filter_view(src_ip_filter),
            ) is None,
        },
{
    let ghost dv = ifaces_view(dest_addresses@);
    let ghost bv = bindings_view(binds@);
    let ghost fv = filter_view(src_ip_filter);
    let ghost av = allow_view(*service);
    let allow = service.allow_from.items();
    let mut src: Vec<Ipv4Network> = Vec::new();
    let mut i: usize = 0;
    while i < allow.len()
        invariant
            i <= allow@.len(),
            allow@ == service.allow_from@,
            av == allow_view(*service),
            dv == ifaces_view(dest_addresses@),
            bv == bindings_view(binds@),
            fv == filter_view(src_ip_filter),
            nets_view(src@) == av.take(i as int).flat_map(tag_sources_fn(bv, dv, fv)),
        decreases allow@.len() - i,
    {
        let t = &allow[i];
        let ghost before = nets_view(src@);
        let mut j: usize = 0;
        while j < binds.len()
            invariant
                j <= binds@.len(),
                i < allow@.len(),
                allow@ == service.allow_from@,
                av == allow_view(*service),
                dv == ifaces_view(dest_addresses@),
                bv == bindings_view(binds@),
                fv == filter_view(src_ip_filter),
                *t == allow@[i as int],
                nets_view(src@) == before + bv.take(j as int).filter_map(source_fn(t@, dv, fv)),
            decreases binds@.len() - j,
        {
            let b = &binds[j];
            assert(bv[j as int] == b@);
            let net_ip = b.network.ip();
            let ghost pre = src@;
            if b.tag.same(t) && crosses_exec(dest_addresses, net_ip) && passes_exec(
                src_ip_filter,
                net_ip,
            ) {
                src.push(b.network);
                assert(nets_view(src@) =~= nets_view(pre).push(b.network@));
            }
            j = j + 1;
        }
        assert(bv.take(bv.len() as int) =~= bv);
        assert(av[i as int] == t@);
        i = i + 1;
    }
    assert(av.take(av.len() as int) =~= av);
    if src.len() == 0 {
        return None;
    }
    proof {
        reveal_strlit("_");
    }
    let name = concat3(owner_name, "_", service_name.as_str());
    let dest_ip = dest_hosts(dest_addresses);
    let rule = FirewallRule {
        name,
        src_ip: src,
        proto: Protocols::from_one_or_many(&service.proto),
        dest_port: service.port.internal(),
        dest_ip,
        target: FirewallAction::Accept,
    };
    Some(rule)
}


/// `owner`, or `node_owner` when a node prefix is given.
pub open spec fn owner_name(node_prefix: Option<Seq<char>>, name: Seq<char>) -> Seq<char> {
    match node_prefix {
        None => name,
        Some(p) => p + seq!['_'] + name,
    }
}

pub open spec fn service_rule_fn(
    dests: Seq<(u32, u8)>,
    owner: Seq<char>,
    binds: Seq<BindingView>,
    filter: Option<Seq<(u32, u8)>>,
) -> spec_fn((Identifier, Service)) -> Option<RuleView> {
    |s: (Identifier, Service)| rule_for(s.0@, s.1, dests, owner, binds, filter)
}

/// The rules for the services of one owner, in order, skipping those without sources.
pub open spec fn services_rules(
    services: Seq<(Identifier, Service)>,
    dests: Seq<(u32, u8)>,
    owner: Seq<char>,
    binds: Seq<BindingView>,
    filter: Option<Seq<(u32, u8)>>,
) -> Seq<RuleView> {
    services.filter_map(service_rule_fn(dests, owner, binds, filter))
}

pub open spec fn device_rule_fn(
    node_prefix: Option<Seq<char>>,
    prefix: u8,
    binds: Seq<BindingView>,
    filter: Option<Seq<(u32, u8)>>,
) -> spec_fn((Identifier, NodeZoneDevice)) -> Seq<RuleView> {
    |d: (Identifier, NodeZoneDevice)|
        services_rules(
            d.1.services@,
            seq![(d.1.ip@, prefix)],
            owner_name(node_prefix, d.0@),
            binds,
            filter,
        )
}

pub open spec fn zone_rule_fn(
    node_prefix: Option<Seq<char>>,
    binds: Seq<BindingView>,
    filter: Option<Seq<(u32, u8)>>,
) -> spec_fn((Identifier, NodeZone)) -> Seq<RuleView> {
    |z: (Identifier, NodeZone)|
        z.1.devices@.flat_map(device_rule_fn(node_prefix, z.1.address@.1, binds, filter))
}

pub open spec fn peer_rule_fn(
    node_prefix: Option<Seq<char>>,
    binds: Seq<BindingView>,
    filter: Option<Seq<(u32, u8)>>,
) -> spec_fn((Identifier, NodeVpnInterfaceClient)) -> Seq<RuleView> {
    |c: (Identifier, NodeVpnInterfaceClient)|
        services_rules(
            c.1.services@,
            seq![(c.1.ip@, 32u8)],
            owner_name(node_prefix, c.0@),
            binds,
            filter,
        )
}

pub open spec fn vpn_rule_fn(
    node_prefix: Option<Seq<char>>,
    binds: Seq<BindingView>,
    filter: Option<Seq<(u32, u8)>>,
) -> spec_fn((Identifier, NodeVpnInterface)) -> Seq<RuleView> {
    |v: (Identifier, NodeVpnInterface)| v.1.clients@.flat_map(peer_rule_fn(node_prefix, binds, filter))
}

/// The router's own host addresses: its mesh address, then its zone and VPN addresses.
pub open spec fn host_views(node: Node) -> Seq<(u32, u8)> {
    seq![(node.mesh_ip@, 32u8)] + ifaces_view(node_addresses(node))
}

/// The rules for everything hosted behind a node: its own services (towards each of its
/// addresses), its devices' (towards the device on its zone) and its VPN peers' (towards
/// the peer as a host: VPN interfaces are routed, so peers on one interface cross the
/// firewall).
pub open spec fn hosted_rules(
    name: Seq<char>,
    node: Node,
    node_prefix: Option<Seq<char>>,
    binds: Seq<BindingView>,
    filter: Option<Seq<(u32, u8)>>,
) -> Seq<RuleView> {
    services_rules(node.services@, host_views(node), name, binds, filter) + node.zones@.flat_map(
        zone_rule_fn(node_prefix, binds, filter),
    ) + node.vpn_interfaces@.flat_map(vpn_rule_fn(node_prefix, binds, filter))
}

pub open spec fn client_dest_fn(node: Node) -> spec_fn((Identifier, Ipv4Addr)) -> Option<(u32, u8)> {
    |e: (Identifier, Ipv4Addr)|
        if is_zone_of(node, e.0@) {
            Some((e.1@, lookup(node.zones@, e.0@)->0.address@.1))
        } else if is_vpn_of(node, e.0@) {
            Some((e.1@, 32u8))
        } else {
            None
        }
}

/// A client's addresses on a node: on a zone with the zone's prefix, on a VPN interface
/// as a host; entries naming neither are skipped.
pub open spec fn client_dests(nets: Seq<(Identifier, Ipv4Addr)>, node: Node) -> Seq<(u32, u8)> {
    nets.filter_map(client_dest_fn(node))
}

pub open spec fn ingress_client_fn(node: Node, own: Seq<char>, binds: Seq<BindingView>) -> spec_fn(
    (Identifier, Client),
) -> Seq<RuleView> {
    |c: (Identifier, Client)|
        match lookup(c.1.ips@, own) {
            Some(nets) => services_rules(c.1.services@, client_dests(nets@, node), c.0@, binds, None),
            None => seq![],
        }
}

/// The ingress rules of node `own`: what is hosted behind it, then the services of the
/// clients that have addresses on it.
pub open spec fn ingress_rules(config: Config, own: Seq<char>, binds: Seq<BindingView>) -> Seq<RuleView> {
    let node = lookup(config.nodes@, own)->0;
    hosted_rules(own, node, None, binds, None) + config.clients@.flat_map(
        ingress_client_fn(node, own, binds),
    )
}

/// `ip` is a host address of a network with this prefix.
pub open spec fn host_on(ip: u32, prefix: u8) -> bool {
    prefix <= 32 && !is_network_address(ip, prefix)
}

/// What the rules of a node's hosted services need: device addresses that are host
/// addresses of their zone. (A reference that nothing is bound to simply gives no source.)
pub open spec fn node_ready(node: Node, binds: Seq<BindingView>) -> bool {
    forall|zi: int, di: int|
        0 <= zi < node.zones@.len() && 0 <= di < node.zones@[zi].1.devices@.len() ==> host_on(
            (#[trigger] node.zones@[zi].1.devices@[di]).1.ip@,
            node.zones@[zi].1.address@.1,
        )
}

/// Each client address on a zone of the node is a host address of that zone.
pub open spec fn dests_ready(nets: Seq<(Identifier, Ipv4Addr)>, node: Node) -> bool {
    forall|k: int|
        0 <= k < nets.len() && is_zone_of(node, (#[trigger] nets[k]).0@) ==> host_on(
            nets[k].1@,
            lookup(node.zones@, nets[k].0@)->0.address@.1,
        )
}

/// What the ingress rules of `own` need.
pub open spec fn ingress_ready(config: Config, own: Seq<char>, binds: Seq<BindingView>) -> bool {
    &&& lookup(config.nodes@, own) is Some
    &&& node_ready(lookup(config.nodes@, own)->0, binds)
    &&& forall|ci: int|
        0 <= ci < config.clients@.len() ==> (lookup((#[trigger] config.clients@[ci]).1.ips@, own) matches Some(
            nets,
        ) ==> dests_ready(nets@, lookup(config.nodes@, own)->0))
}

fn rules_for_services(
    services: &Vec<(Identifier, Service)>,
    dests: &Vec<Ipv4Interface>,
    owner: &str,
    binds: &Vec<TagBinding>,
    filter: Option<&Vec<Ipv4Network>>,
) -> (r: Vec<FirewallRule>)
    ensures
        rules_view(r@) == services_rules(
            services@,
            ifaces_view(dests@),
            owner@,
            bindings_view(binds@),
            filter_view(filter),
        ),
{
    let ghost f = service_rule_fn(ifaces_view(dests@), owner@, bindings_view(binds@), filter_view(filter));
    let mut r: Vec<FirewallRule> = Vec::new();
    let mut i: usize = 0;
    while i < services.len()
        invariant
            i <= services@.len(),
            f == service_rule_fn(ifaces_view(dests@), owner@, bindings_view(binds@), filter_view(filter)),
            rules_view(r@) == services@.take(i as int).filter_map(f),
        decreases services@.len() - i,
    {
        let s = &services[i];
        let ghost before = r@;
        match generate_rule_from_service(&s.0, &s.1, dests, owner, binds, filter) {
            Some(rule) => {
                r.push(rule);
                assert(rules_view(r@) =~= rules_view(before).push(r@.last()@));
            },
            None => {},
        }
        i = i + 1;
    }
    assert(services@.take(services@.len() as int) =~= services@);
    r
}

/// Appends `more` to `out`.
fn append_rules(out: &mut Vec<FirewallRule>, more: Vec<FirewallRule>)
    ensures
        rules_view(final(out)@) == rules_view(old(out)@) + rules_view(more@),
{
    let ghost o = out@;
    let ghost m = more@;
    let mut more = more;
    out.append(&mut more);
    assert(rules_view(out@) =~= rules_view(o) + rules_view(m));
}

/// The owner name of a device or peer, prefixed with the node name when given.
fn owner_string(node_prefix: Option<&Identifier>, name: &Identifier) -> (r: String)
    ensures
        r@ == owner_name(
            match node_prefix {
                Some(p) => Some(p@),
                None => None,
            },
            name@,
        ),
{
    match node_prefix {
        Some(p) => {
            proof {
                reveal_strlit("_");
            }
            concat3(p.as_str(), "_", name.as_str())
        },
        None => name.to_string(),
    }
}

/// The view of an optional node prefix.
pub open spec fn prefix_view(p: Option<&Identifier>) -> Option<Seq<char>> {
    match p {
        Some(p) => Some(p@),
        None => None,
    }
}

/// The rules for the services of a zone's devices.
fn zone_device_rules(
    z: &NodeZone,
    node_prefix: Option<&Identifier>,
    binds: &Vec<TagBinding>,
    filter: Option<&Vec<Ipv4Network>>,
) -> (r: Vec<FirewallRule>)
    requires
        forall|di: int| 0 <= di < z.devices@.len() ==> host_on((#[trigger] z.devices@[di]).1.ip@, z.address@.1),
    ensures
        rules_view(r@) == z.devices@.flat_map(
            device_rule_fn(prefix_view(node_prefix), z.address@.1, bindings_view(binds@), filter_view(filter)),
        ),
{
    let ghost df = device_rule_fn(
        prefix_view(node_prefix),
        z.address@.1,
        bindings_view(binds@),
        filter_view(filter),
    );
    let mut r: Vec<FirewallRule> = Vec::new();
    let mut di: usize = 0;
    while di < z.devices.len()
        invariant
            di <= z.devices@.len(),
            forall|k: int| 0 <= k < z.devices@.len() ==> host_on((#[trigger] z.devices@[k]).1.ip@, z.address@.1),
            df == device_rule_fn(
                prefix_view(node_prefix),
                z.address@.1,
                bindings_view(binds@),
                filter_view(filter),
            ),
            rules_view(r@) == z.devices@.take(di as int).flat_map(df),
        decreases z.devices@.len() - di,
    {
        let d = &z.devices[di];
        assert(z.devices@[di as int] == *d);
        let dest = match Ipv4Interface::from_ip(d.1.ip, z.address.prefix()) {
            Ok(a) => a,
            Err(_) => {
                proof {
                    assert(false);
                }
                Ipv4Interface::host(d.1.ip)
            },
        };
        let mut dests: Vec<Ipv4Interface> = Vec::new();
        dests.push(dest);
        assert(ifaces_view(dests@) =~= seq![(d.1.ip@, z.address@.1)]);
        let owner = owner_string(node_prefix, &d.0);
        let more = rules_for_services(&d.1.services, &dests, owner.as_str(), binds, filter);
        append_rules(&mut r, more);
        di = di + 1;
    }
    assert(z.devices@.take(z.devices@.len() as int) =~= z.devices@);
    r
}

/// The rules for the services of a VPN interface's peers.
fn vpn_peer_rules(
    v: &NodeVpnInterface,
    node_prefix: Option<&Identifier>,
    binds: &Vec<TagBinding>,
    filter: Option<&Vec<Ipv4Network>>,
) -> (r: Vec<FirewallRule>)
    ensures
        rules_view(r@) == v.clients@.flat_map(
            peer_rule_fn(prefix_view(node_prefix), bindings_view(binds@), filter_view(filter)),
        ),
{
    let ghost cf = peer_rule_fn(prefix_view(node_prefix), bindings_view(binds@), filter_view(filter));
    let mut r: Vec<FirewallRule> = Vec::new();
    let mut ci: usize = 0;
    while ci < v.clients.len()
        invariant
            ci <= v.clients@.len(),
            cf == peer_rule_fn(prefix_view(node_prefix), bindings_view(binds@), filter_view(filter)),
            rules_view(r@) == v.clients@.take(ci as int).flat_map(cf),
        decreases v.clients@.len() - ci,
    {
        let c = &v.clients[ci];
        assert(v.clients@[ci as int] == *c);
        let mut dests: Vec<Ipv4Interface> = Vec::new();
        dests.push(Ipv4Interface::host(c.1.ip));
        assert(ifaces_view(dests@) =~= seq![(c.1.ip@, 32u8)]);
        let owner = owner_string(node_prefix, &c.0);
        let more = rules_for_services(&c.1.services, &dests, owner.as_str(), binds, filter);
        append_rules(&mut r, more);
        ci = ci + 1;
    }
    assert(v.clients@.take(v.clients@.len() as int) =~= v.clients@);
    r
}

fn all_zone_rules(
    node: &Node,
    node_prefix: Option<&Identifier>,
    binds: &Vec<TagBinding>,
    filter: Option<&Vec<Ipv4Network>>,
) -> (r: Vec<FirewallRule>)
    requires
        node_ready(*node, bindings_view(binds@)),
    ensures
        rules_view(r@) == node.zones@.flat_map(
            zone_rule_fn(prefix_view(node_prefix), bindings_view(binds@), filter_view(filter)),
        ),
{
    let ghost bv = bindings_view(binds@);
    let ghost fv = filter_view(filter);
    let ghost pv = prefix_view(node_prefix);
    let mut r: Vec<FirewallRule> = Vec::new();
    let mut zi: usize = 0;
    while zi < node.zones.len()
        invariant
            zi <= node.zones@.len(),
            node_ready(*node, bv),
            bv == bindings_view(binds@),
            fv == filter_view(filter),
            pv == prefix_view(node_prefix),
            rules_view(r@) == node.zones@.take(zi as int).flat_map(zone_rule_fn(pv, bv, fv)),
        decreases node.zones@.len() - zi,
    {
        let z = &node.zones[zi];
        assert(node.zones@[zi as int] == *z);
        assert forall|di: int| 0 <= di < z.1.devices@.len() implies host_on(
            (#[trigger] z.1.devices@[di]).1.ip@,
            z.1.address@.1,
        ) by {
            assert(node.zones@[zi as int].1.devices@[di] == z.1.devices@[di]);
        }
        let more = zone_device_rules(&z.1, node_prefix, binds, filter);
        append_rules(&mut r, more);
        zi = zi + 1;
    }
    assert(node.zones@.take(node.zones@.len() as int) =~= node.zones@);
    r
}

fn all_vpn_rules(
    node: &Node,
    node_prefix: Option<&Identifier>,
    binds: &Vec<TagBinding>,
    filter: Option<&Vec<Ipv4Network>>,
) -> (r: Vec<FirewallRule>)
    requires
        node_ready(*node, bindings_view(binds@)),
    ensures
        rules_view(r@) == node.vpn_interfaces@.flat_map(
            vpn_rule_fn(prefix_view(node_prefix), bindings_view(binds@), filter_view(filter)),
        ),
{
    let ghost bv = bindings_view(binds@);
    let ghost fv = filter_view(filter);
    let ghost pv = prefix_view(node_prefix);
    let mut r: Vec<FirewallRule> = Vec::new();
    let mut vi: usize = 0;
    while vi < node.vpn_interfaces.len()
        invariant
            vi <= node.vpn_interfaces@.len(),
            node_ready(*node, bv),
            bv == bindings_view(binds@),
            fv == filter_view(filter),
            pv == prefix_view(node_prefix),
            rules_view(r@) == node.vpn_interfaces@.take(vi as int).flat_map(vpn_rule_fn(pv, bv, fv)),
        decreases node.vpn_interfaces@.len() - vi,
    {
        let v = &node.vpn_interfaces[vi];
        assert(node.vpn_interfaces@[vi as int] == *v);
        let more = vpn_peer_rules(&v.1, node_prefix, binds, filter);
        append_rules(&mut r, more);
        vi = vi + 1;
    }
    assert(node.vpn_interfaces@.take(node.vpn_interfaces@.len() as int) =~= node.vpn_interfaces@);
    r
}

fn hosted_service_rules(
    name: &Identifier,
    node: &Node,
    node_prefix: Option<&Identifier>,
    binds: &Vec<TagBinding>,
    filter: Option<&Vec<Ipv4Network>>,
) -> (r: Vec<FirewallRule>)
    requires
        node_ready(*node, bindings_view(binds@)),
    ensures
        rules_view(r@) == hosted_rules(
            name@,
            *node,
            prefix_view(node_prefix),
            bindings_view(binds@),
            filter_view(filter),
        ),
{
    let hosts = node.host_interfaces();
    assert(ifaces_view(hosts@) =~= host_views(*node)) by {
        assert(hosts@ =~= seq![hosts@[0]] + hosts@.skip(1));
    }
    let mut r = rules_for_services(&node.services, &hosts, name.as_str(), binds, filter);
    append_rules(&mut r, all_zone_rules(node, node_prefix, binds, filter));
    append_rules(&mut r, all_vpn_rules(node, node_prefix, binds, filter));
    r
}

/// A client's addresses on the networks of `node`.
fn client_addresses(nets: &Vec<(Identifier, Ipv4Addr)>, node: &Node) -> (r: Vec<Ipv4Interface>)
    requires
        dests_ready(nets@, *node),
    ensures
        ifaces_view(r@) == client_dests(nets@, *node),
{
    let ghost f = client_dest_fn(*node);
    let mut r: Vec<Ipv4Interface> = Vec::new();
    let mut i: usize = 0;
    while i < nets.len()
        invariant
            i <= nets@.len(),
            dests_ready(nets@, *node),
            f == client_dest_fn(*node),
            ifaces_view(r@) == nets@.take(i as int).filter_map(f),
        decreases nets@.len() - i,
    {
        let e = &nets[i];
        let ghost before = r@;
        match node.network_by_name(&e.0) {
            Some(crate::config::ZoneOrVpnInterface::Zone(z)) => {
                assert(is_zone_of(*node, e.0@));
                assert(nets@[i as int] == *e);
                assert(host_on(e.1@, z.address@.1));
                let a = match Ipv4Interface::from_ip(e.1, z.address.prefix()) {
                    Ok(a) => a,
                    Err(_) => {
                        proof {
                            assert(false);
                        }
                        Ipv4Interface::host(e.1)
                    },
                };
                r.push(a);
                assert(ifaces_view(r@) =~= ifaces_view(before).push(a@));
            },
            Some(crate::config::ZoneOrVpnInterface::VpnInterface(_)) => {
                let a = Ipv4Interface::host(e.1);
                r.push(a);
                assert(ifaces_view(r@) =~= ifaces_view(before).push(a@));
            },
            None => {},
        }
        i = i + 1;
    }
    assert(nets@.take(nets@.len() as int) =~= nets@);
    r
}

/// The ingress rules of node `own_name`.
pub fn get_firewall_ingress_rules(config: &Config, own_name: &Identifier, tags: &Vec<TagBinding>) -> (r:
    Vec<FirewallRule>)
    requires
        ingress_ready(*config, own_name@, bindings_view(tags@)),
    ensures
        rules_view(r@) == ingress_rules(*config, own_name@, bindings_view(tags@)),
{
    let ghost bv = bindings_view(tags@);
    let ni = match find_key(&config.nodes, own_name) {
        Some(i) => i,
        None => {
            proof {
                assert(false);
            }
            return Vec::new();
        },
    };
    let node = &config.nodes[ni].1;
    let mut r = hosted_service_rules(own_name, node, None, tags, None);
    let ghost head = rules_view(r@);
    let ghost cf = ingress_client_fn(*node, own_name@, bv);
    let mut ci: usize = 0;
    while ci < config.clients.len()
        invariant
            ci <= config.clients@.len(),
            ingress_ready(*config, own_name@, bv),
            bv == bindings_view(tags@),
            *node == lookup(config.nodes@, own_name@)->0,
            cf == ingress_client_fn(*node, own_name@, bv),
            rules_view(r@) == head + config.clients@.take(ci as int).flat_map(cf),
        decreases config.clients@.len() - ci,
    {
        let c = &config.clients[ci];
        assert(config.clients@[ci as int] == *c);
        match find_key(&c.1.ips, own_name) {
            Some(k) => {
                let nets = &c.1.ips[k].1;
                let dests = client_addresses(nets, node);
                let more = rules_for_services(&c.1.services, &dests, c.0.as_str(), tags, None);
                append_rules(&mut r, more);
            },
            None => {
                assert(cf(*c) =~= seq![]);
                assert(rules_view(r@) =~= rules_view(r@) + cf(*c));
            },
        }
        ci = ci + 1;
    }
    assert(config.clients@.take(config.clients@.len() as int) =~= config.clients@);
    r
}

/// The networks local to a node: those of its zones and VPN interfaces.
pub open spec fn local_networks(node: Node) -> Seq<(u32, u8)> {
    node_addresses(node).map_values(|a: Ipv4Interface| network_of(a@))
}

pub open spec fn egress_node_fn(own: Seq<char>, binds: Seq<BindingView>, local: Seq<(u32, u8)>) -> spec_fn(
    (Identifier, Node),
) -> Seq<RuleView> {
    |n: (Identifier, Node)|
        if n.0@ == own {
            seq![]
        } else {
            hosted_rules(n.0@, n.1, Some(n.0@), binds, Some(local))
        }
}

pub open spec fn external_dest_fn(config: Config, own: Seq<char>) -> spec_fn(
    (Identifier, Vec<(Identifier, Ipv4Addr)>),
) -> Seq<(u32, u8)> {
    |e: (Identifier, Vec<(Identifier, Ipv4Addr)>)|
        if e.0@ == own {
            seq![]
        } else {
            match lookup(config.nodes@, e.0@) {
                Some(node) => client_dests(e.1@, node),
                None => seq![],
            }
        }
}

/// A client's addresses on the networks of nodes other than `own`.
pub open spec fn external_dests(client: Client, config: Config, own: Seq<char>) -> Seq<(u32, u8)> {
    client.ips@.flat_map(external_dest_fn(config, own))
}

pub open spec fn egress_client_fn(
    config: Config,
    own: Seq<char>,
    binds: Seq<BindingView>,
    local: Seq<(u32, u8)>,
) -> spec_fn((Identifier, Client)) -> Seq<RuleView> {
    |c: (Identifier, Client)|
        services_rules(c.1.services@, external_dests(c.1, config, own), c.0@, binds, Some(local))
}

/// The egress rules of node `own`: for every other node, what is hosted behind it (device
/// and peer owners prefixed with the node's name), then every client's services towards its
/// addresses on other nodes; sources are kept only if a network local to `own` holds them.
pub open spec fn egress_rules(config: Config, own: Seq<char>, binds: Seq<BindingView>) -> Seq<RuleView> {
    let local = local_networks(lookup(config.nodes@, own)->0);
    config.nodes@.flat_map(egress_node_fn(own, binds, local)) + config.clients@.flat_map(
        egress_client_fn(config, own, binds, local),
    )
}

/// What the egress rules of `own` need.
pub open spec fn egress_ready(config: Config, own: Seq<char>, binds: Seq<BindingView>) -> bool {
    &&& lookup(config.nodes@, own) is Some
    &&& forall|ni: int|
        0 <= ni < config.nodes@.len() && (#[trigger] config.nodes@[ni]).0@ != own ==> node_ready(
            config.nodes@[ni].1,
            binds,
        )
    &&& forall|ci: int, k: int|
        0 <= ci < config.clients@.len() && 0 <= k < config.clients@[ci].1.ips@.len() ==> {
            let e = #[trigger] config.clients@[ci].1.ips@[k];
            e.0@ != own && lookup(config.nodes@, e.0@) is Some ==> dests_ready(
                e.1@,
                lookup(config.nodes@, e.0@)->0,
            )
        }
}

/// A client's addresses on the networks of other nodes.
fn external_client_addresses(client: &Client, config: &Config, own_name: &Identifier) -> (r: Vec<
    Ipv4Interface,
>)
    requires
        forall|k: int|
            0 <= k < client.ips@.len() ==> {
                let e = #[trigger] client.ips@[k];
                e.0@ != own_name@ && lookup(config.nodes@, e.0@) is Some ==> dests_ready(
                    e.1@,
                    lookup(config.nodes@, e.0@)->0,
                )
            },
    ensures
        ifaces_view(r@) == external_dests(*client, *config, own_name@),
{
    let ghost f = external_dest_fn(*config, own_name@);
    let mut r: Vec<Ipv4Interface> = Vec::new();
    let mut i: usize = 0;
    while i < client.ips.len()
        invariant
            i <= client.ips@.len(),
            forall|k: int|
                0 <= k < client.ips@.len() ==> {
                    let e = #[trigger] client.ips@[k];
                    e.0@ != own_name@ && lookup(config.nodes@, e.0@) is Some ==> dests_ready(
                        e.1@,
                        lookup(config.nodes@, e.0@)->0,
                    )
                },
            f == external_dest_fn(*config, own_name@),
            ifaces_view(r@) == client.ips@.take(i as int).flat_map(f),
        decreases client.ips@.len() - i,
    {
        let e = &client.ips[i];
        assert(client.ips@[i as int] == *e);
        if !e.0.same(own_name) {
            match find_key(&config.nodes, &e.0) {
                Some(ni) => {
                    let more = client_addresses(&e.1, &config.nodes[ni].1);
                    let ghost o = r@;
                    let mut more = more;
                    let ghost m = more@;
                    r.append(&mut more);
                    assert(ifaces_view(r@) =~= ifaces_view(o) + ifaces_view(m));
                },
                None => {
                    assert(ifaces_view(r@) =~= ifaces_view(r@) + f(*e));
                },
            }
        } else {
            assert(ifaces_view(r@) =~= ifaces_view(r@) + f(*e));
        }
        i = i + 1;
    }
    assert(client.ips@.take(client.ips@.len() as int) =~= client.ips@);
    r
}

/// The egress rules of node `own_name`.
#[verifier::spinoff_prover]
#[verifier::rlimit(40)]
pub fn get_firewall_egress_rules(config: &Config, own_name: &Identifier, tags: &Vec<TagBinding>) -> (r:
    Vec<FirewallRule>)
    requires
        egress_ready(*config, own_name@, bindings_view(tags@)),
    ensures
        rules_view(r@) == egress_rules(*config, own_name@, bindings_view(tags@)),
{
    let ghost bv = bindings_view(tags@);
    let oi = match find_key(&config.nodes, own_name) {
        Some(i) => i,
        None => {
            proof {
                assert(false);
            }
            return Vec::new();
        },
    };
    let local = config.nodes[oi].1.networks();
    let ghost lv = local_networks(lookup(config.nodes@, own_name@)->0);
    assert(nets_view(local@) =~= lv);
    let mut r: Vec<FirewallRule> = Vec::new();
    let mut ni: usize = 0;
    while ni < config.nodes.len()
        invariant
            ni <= config.nodes@.len(),
            egress_ready(*config, own_name@, bv),
            bv == bindings_view(tags@),
            nets_view(local@) == lv,
            lv == local_networks(lookup(config.nodes@, own_name@)->0),
            rules_view(r@) == config.nodes@.take(ni as int).flat_map(egress_node_fn(own_name@, bv, lv)),
        decreases config.nodes@.len() - ni,
    {
        let n = &config.nodes[ni];
        assert(config.nodes@[ni as int] == *n);
        if n.0.same(own_name) {
            assert(rules_view(r@) =~= rules_view(r@) + egress_node_fn(own_name@, bv, lv)(*n));
        } else {
            let more = hosted_service_rules(&n.0, &n.1, Some(&n.0), tags, Some(&local));
            append_rules(&mut r, more);
        }
        ni = ni + 1;
    }
    assert(config.nodes@.take(config.nodes@.len() as int) =~= config.nodes@);
    let ghost head = rules_view(r@);
    let mut ci: usize = 0;
    while ci < config.clients.len()
        invariant
            ci <= config.clients@.len(),
            egress_ready(*config, own_name@, bv),
            bv == bindings_view(tags@),
            nets_view(local@) == lv,
            lv == local_networks(lookup(config.nodes@, own_name@)->0),
            rules_view(r@) == head + config.clients@.take(ci as int).flat_map(
                egress_client_fn(*config, own_name@, bv, lv),
            ),
        decreases config.clients@.len() - ci,
    {
        let c = &config.clients[ci];
        assert(config.clients@[ci as int] == *c);
        assert forall|k: int| 0 <= k < c.1.ips@.len() implies {
            let e = #[trigger] c.1.ips@[k];
            e.0@ != own_name@ && lookup(config.nodes@, e.0@) is Some ==> dests_ready(
                e.1@,
                lookup(config.nodes@, e.0@)->0,
            )
        } by {
            assert(config.clients@[ci as int].1.ips@[k] == c.1.ips@[k]);
        }
        let dests = external_client_addresses(&c.1, config, own_name);
        let more = rules_for_services(&c.1.services, &dests, c.0.as_str(), tags, Some(&local));
        append_rules(&mut r, more);
        ci = ci + 1;
    }
    assert(config.clients@.take(config.clients@.len() as int) =~= config.clients@);
    r
}

/// Whether `ip` is a host address of a network with this prefix.
pub fn is_host_on(ip: Ipv4Addr, prefix: u8) -> (r: bool)
    ensures
        r == host_on(ip@, prefix),
{
    Ipv4Interface::from_ip(ip, prefix).is_ok()
}

fn node_ready_exec(node: &Node, binds: &Vec<TagBinding>) -> (r: bool)
    ensures
        r == node_ready(*node, bindings_view(binds@)),
{
    let mut zi: usize = 0;
    while zi < node.zones.len()
        invariant
            zi <= node.zones@.len(),
            forall|a: int, b: int|
                0 <= a < zi && 0 <= b < node.zones@[a].1.devices@.len() ==> host_on(
                    (#[trigger] node.zones@[a].1.devices@[b]).1.ip@,
                    node.zones@[a].1.address@.1,
                ),
        decreases node.zones@.len() - zi,
    {
        let z = &node.zones[zi];
        let mut di: usize = 0;
        while di < z.1.devices.len()
            invariant
                di <= z.1.devices@.len(),
                zi < node.zones@.len(),
                *z == node.zones@[zi as int],
                forall|a: int, b: int|
                    0 <= a < zi && 0 <= b < node.zones@[a].1.devices@.len() ==> host_on(
                        (#[trigger] node.zones@[a].1.devices@[b]).1.ip@,
                        node.zones@[a].1.address@.1,
                    ),
                forall|b: int| 0 <= b < di ==> host_on((#[trigger] z.1.devices@[b]).1.ip@, z.1.address@.1),
            decreases z.1.devices@.len() - di,
        {
            let d = &z.1.devices[di];
            if !is_host_on(d.1.ip, z.1.address.prefix()) {
                assert(node.zones@[zi as int].1.devices@[di as int] == *d);
                return false;
            }
            di = di + 1;
        }
        zi = zi + 1;
    }
    true
}

fn dests_ready_exec(nets: &Vec<(Identifier, Ipv4Addr)>, node: &Node) -> (r: bool)
    ensures
        r == dests_ready(nets@, *node),
{
    let mut k: usize = 0;
    while k < nets.len()
        invariant
            k <= nets@.len(),
            forall|m: int|
                0 <= m < k && is_zone_of(*node, (#[trigger] nets@[m]).0@) ==> host_on(
                    nets@[m].1@,
                    lookup(node.zones@, nets@[m].0@)->0.address@.1,
                ),
        decreases nets@.len() - k,
    {
        let e = &nets[k];
        match find_key(&node.zones, &e.0) {
            Some(zi) => {
                if !is_host_on(e.1, node.zones[zi].1.address.prefix()) {
                    assert(nets@[k as int] == *e);
                    return false;
                }
            },
            None => {},
        }
        k = k + 1;
    }
    true
}

/// Whether the ingress rules of `own_name` can be generated with these bindings.
pub fn check_ingress_ready(config: &Config, own_name: &Identifier, tags: &Vec<TagBinding>) -> (r: bool)
    ensures
        r == ingress_ready(*config, own_name@, bindings_view(tags@)),
{
    let ni = match find_key(&config.nodes, own_name) {
        Some(i) => i,
        None => return false,
    };
    let node = &config.nodes[ni].1;
    if !node_ready_exec(node, tags) {
        return false;
    }
    let mut ci: usize = 0;
    while ci < config.clients.len()
        invariant
            ci <= config.clients@.len(),
            *node == lookup(config.nodes@, own_name@)->0,
            forall|m: int|
                0 <= m < ci ==> (lookup((#[trigger] config.clients@[m]).1.ips@, own_name@) matches Some(
                    nets,
                ) ==> dests_ready(nets@, *node)),
        decreases config.clients@.len() - ci,
    {
        let c = &config.clients[ci];
        match find_key(&c.1.ips, own_name) {
            Some(k) => {
                if !dests_ready_exec(&c.1.ips[k].1, node) {
                    assert(config.clients@[ci as int] == *c);
                    return false;
                }
            },
            None => {},
        }
        ci = ci + 1;
    }
    true
}

/// Whether the egress rules of `own_name` can be generated with these bindings.
pub fn check_egress_ready(config: &Config, own_name: &Identifier, tags: &Vec<TagBinding>) -> (r: bool)
    ensures
        r == egress_ready(*config, own_name@, bindings_view(tags@)),
{
    if find_key(&config.nodes, own_name).is_none() {
        return false;
    }
    let mut ni: usize = 0;
    while ni < config.nodes.len()
        invariant
            ni <= config.nodes@.len(),
            forall|m: int|
                0 <= m < ni && (#[trigger] config.nodes@[m]).0@ != own_name@ ==> node_ready(
                    config.nodes@[m].1,
                    bindings_view(tags@),
                ),
        decreases config.nodes@.len() - ni,
    {
        let n = &config.nodes[ni];
        if !n.0.same(own_name) && !node_ready_exec(&n.1, tags) {
            assert(config.nodes@[ni as int] == *n);
            return false;
        }
        ni = ni + 1;
    }
    let mut ci: usize = 0;
    while ci < config.clients.len()
        invariant
            ci <= config.clients@.len(),
            forall|m: int, k: int|
                0 <= m < ci && 0 <= k < config.clients@[m].1.ips@.len() ==> {
                    let e = #[trigger] config.clients@[m].1.ips@[k];
                    e.0@ != own_name@ && lookup(config.nodes@, e.0@) is Some ==> dests_ready(
                        e.1@,
                        lookup(config.nodes@, e.0@)->0,
                    )
                },
        decreases config.clients@.len() - ci,
    {
        let c = &config.clients[ci];
        assert(config.clients@[ci as int] == *c);
        let mut k: usize = 0;
        while k < c.1.ips.len()
            invariant
                k <= c.1.ips@.len(),
                ci < config.clients@.len(),
                *c == config.clients@[ci as int],
                forall|m: int|
                    0 <= m < k ==> {
                        let e = #[trigger] c.1.ips@[m];
                        e.0@ != own_name@ && lookup(config.nodes@, e.0@) is Some ==> dests_ready(
                            e.1@,
                            lookup(config.nodes@, e.0@)->0,
                        )
                    },
            decreases c.1.ips@.len() - k,
        {
            let e = &c.1.ips[k];
            if !e.0.same(own_name) {
                match find_key(&config.nodes, &e.0) {
                    Some(j) => {
                        if !dests_ready_exec(&e.1, &config.nodes[j].1) {
                            assert(c.1.ips@[k as int] == *e);
                            return false;
                        }
                    },
                    None => {},
                }
            }
            k = k + 1;
        }
        assert forall|m: int, k2: int|
            0 <= m < ci + 1 && 0 <= k2 < config.clients@[m].1.ips@.len() implies {
                let e = #[trigger] config.clients@[m].1.ips@[k2];
                e.0@ != own_name@ && lookup(config.nodes@, e.0@) is Some ==> dests_ready(
                    e.1@,
                    lookup(config.nodes@, e.0@)->0,
                )
            } by {
            if m == ci {
                assert(config.clients@[m].1.ips@[k2] == c.1.ips@[k2]);
            }
        }
        ci = ci + 1;
    }
    true
}

/// A rule grants access explicitly: it accepts, from at least one source network, towards
/// single hosts.
pub open spec fn explicit_rule(r: RuleView) -> bool {
    &&& r.5 == FirewallAction::Accept
    &&& r.1.len() > 0
    &&& forall|k: int| 0 <= k < r.4.len() ==> (#[trigger] r.4[k]).1 == 32
}

/// Every rule of a sequence grants access explicitly.
pub open spec fn all_explicit(s: Seq<RuleView>) -> bool {
    forall|i: int| 0 <= i < s.len() ==> explicit_rule(#[trigger] s[i])
}

proof fn lemma_explicit_concat(a: Seq<RuleView>, b: Seq<RuleView>)
    requires
        all_explicit(a),
        all_explicit(b),
    ensures
        all_explicit(a + b),
{
    assert forall|i: int| 0 <= i < (a + b).len() implies explicit_rule(#[trigger] (a + b)[i]) by {
        if i < a.len() {
            assert((a + b)[i] == a[i]);
        } else {
            assert((a + b)[i] == b[i - a.len()]);
        }
    }
}

proof fn lemma_explicit_flat_map<A>(s: Seq<A>, f: spec_fn(A) -> Seq<RuleView>)
    requires
        forall|j: int| 0 <= j < s.len() ==> all_explicit(f(#[trigger] s[j])),
    ensures
        all_explicit(s.flat_map(f)),
    decreases s.len(),
{
    if s.len() == 0 {
        assert(s.flat_map(f) =~= Seq::<RuleView>::empty());
    } else {
        let rest = s.drop_last();
        assert forall|j: int| 0 <= j < rest.len() implies all_explicit(f(#[trigger] rest[j])) by {
            assert(rest[j] == s[j]);
        }
        lemma_explicit_flat_map(rest, f);
        rest.lemma_flat_map_push(f, s.last());
        assert(rest.push(s.last()) =~= s);
        assert(all_explicit(f(s[s.len() - 1])));
        lemma_explicit_concat(rest.flat_map(f), f(s.last()));
    }
}

proof fn lemma_services_rules_explicit(
    services: Seq<(Identifier, Service)>,
    dests: Seq<(u32, u8)>,
    owner: Seq<char>,
    binds: Seq<BindingView>,
    filter: Option<Seq<(u32, u8)>>,
)
    ensures
        all_explicit(services_rules(services, dests, owner, binds, filter)),
{
    let f = service_rule_fn(dests, owner, binds, filter);
    let out = services.filter_map(f);
    assert forall|i: int| 0 <= i < out.len() implies explicit_rule(#[trigger] out[i]) by {
        assert(out.contains(out[i]));
        services.lemma_filter_map_contains(f, out[i]);
        let t = choose|t: (Identifier, Service)| #[trigger] services.contains(t) && f(t) == Some(out[i]);
        let d = dests.map_values(|d: (u32, u8)| (d.0, 32u8));
        assert forall|k: int| 0 <= k < d.len() implies (#[trigger] d[k]).1 == 32 by {}
    }
}

proof fn lemma_hosted_rules_explicit(
    name: Seq<char>,
    node: Node,
    node_prefix: Option<Seq<char>>,
    binds: Seq<BindingView>,
    filter: Option<Seq<(u32, u8)>>,
)
    ensures
        all_explicit(hosted_rules(name, node, node_prefix, binds, filter)),
{
    lemma_services_rules_explicit(node.services@, host_views(node), name, binds, filter);
    let zf = zone_rule_fn(node_prefix, binds, filter);
    assert forall|j: int| 0 <= j < node.zones@.len() implies all_explicit(zf(#[trigger] node.zones@[j])) by {
        let z = node.zones@[j];
        let df = device_rule_fn(node_prefix, z.1.address@.1, binds, filter);
        assert forall|k: int| 0 <= k < z.1.devices@.len() implies all_explicit(df(#[trigger] z.1.devices@[k])) by {
            let d = z.1.devices@[k];
            lemma_services_rules_explicit(
                d.1.services@,
                seq![(d.1.ip@, z.1.address@.1)],
                owner_name(node_prefix, d.0@),
                binds,
                filter,
            );
        }
        lemma_explicit_flat_map(z.1.devices@, df);
    }
    lemma_explicit_flat_map(node.zones@, zf);
    let vf = vpn_rule_fn(node_prefix, binds, filter);
    assert forall|j: int| 0 <= j < node.vpn_interfaces@.len() implies all_explicit(
        vf(#[trigger] node.vpn_interfaces@[j]),
    ) by {
        let v = node.vpn_interfaces@[j];
        let pf = peer_rule_fn(node_prefix, binds, filter);
        assert forall|k: int| 0 <= k < v.1.clients@.len() implies all_explicit(pf(#[trigger] v.1.clients@[k])) by {
            let c = v.1.clients@[k];
            lemma_services_rules_explicit(
                c.1.services@,
                seq![(c.1.ip@, 32u8)],
                owner_name(node_prefix, c.0@),
                binds,
                filter,
            );
        }
        lemma_explicit_flat_map(v.1.clients@, pf);
    }
    lemma_explicit_flat_map(node.vpn_interfaces@, vf);
    lemma_explicit_concat(
        services_rules(node.services@, host_views(node), name, binds, filter),
        node.zones@.flat_map(zf),
    );
    lemma_explicit_concat(
        services_rules(node.services@, host_views(node), name, binds, filter) + node.zones@.flat_map(zf),
        node.vpn_interfaces@.flat_map(vf),
    );
}

/// Access is granted only through explicit per-service rules: every ingress and every egress
/// rule of a node accepts traffic from at least one named source network, towards single
/// hosts; there is no rule that opens a whole zone to another.
pub proof fn lemma_rules_explicit(config: Config, own: Seq<char>, binds: Seq<BindingView>)
    ensures
        all_explicit(ingress_rules(config, own, binds)),
        all_explicit(egress_rules(config, own, binds)),
{
    let node = lookup(config.nodes@, own)->0;
    lemma_hosted_rules_explicit(own, node, None, binds, None);
    let cf = ingress_client_fn(node, own, binds);
    assert forall|j: int| 0 <= j < config.clients@.len() implies all_explicit(cf(#[trigger] config.clients@[j])) by {
        let c = config.clients@[j];
        match lookup(c.1.ips@, own) {
            Some(nets) => {
                lemma_services_rules_explicit(c.1.services@, client_dests(nets@, node), c.0@, binds, None);
            },
            None => {},
        }
    }
    lemma_explicit_flat_map(config.clients@, cf);
    lemma_explicit_concat(hosted_rules(own, node, None, binds, None), config.clients@.flat_map(cf));
    let local = local_networks(node);
    let nf = egress_node_fn(own, binds, local);
    assert forall|j: int| 0 <= j < config.nodes@.len() implies all_explicit(nf(#[trigger] config.nodes@[j])) by {
        let n = config.nodes@[j];
        if n.0@ != own {
            lemma_hosted_rules_explicit(n.0@, n.1, Some(n.0@), binds, Some(local));
        }
    }
    lemma_explicit_flat_map(config.nodes@, nf);
    let ef = egress_client_fn(config, own, binds, local);
    assert forall|j: int| 0 <= j < config.clients@.len() implies all_explicit(ef(#[trigger] config.clients@[j])) by {
        let c = config.clients@[j];
        lemma_services_rules_explicit(c.1.services@, external_dests(c.1, config, own), c.0@, binds, Some(local));
    }
    lemma_explicit_flat_map(config.clients@, ef);
    lemma_explicit_concat(config.nodes@.flat_map(nf), config.clients@.flat_map(ef));
}

/// A reference that resolves to no address matches no traffic: when no binding is for `t`,
/// `t` contributes no source to any rule.
pub proof fn lemma_unbound_reference_gives_no_source(
    t: AllowFromRefView,
    binds: Seq<BindingView>,
    dests: Seq<(u32, u8)>,
    filter: Option<Seq<(u32, u8)>>,
)
    requires
        forall|j: int| 0 <= j < binds.len() ==> (#[trigger] binds[j]).0 != t,
    ensures
        tag_sources_fn(binds, dests, filter)(t).len() == 0,
    decreases binds.len(),
{
    if binds.len() > 0 {
        let rest = binds.drop_last();
        assert forall|j: int| 0 <= j < rest.len() implies (#[trigger] rest[j]).0 != t by {
            assert(rest[j] == binds[j]);
        }
        lemma_unbound_reference_gives_no_source(t, rest, dests, filter);
        assert(binds.last().0 != t);
    }
}

/// A service reached from a source gets a rule with that source: when reference `t` of the
/// service's `allowFrom` is bound to a network whose address crosses the router towards the
/// destinations, the rule exists and accepts that network.
proof fn lemma_bound_source_gives_rule(
    name: Seq<char>,
    service: Service,
    dests: Seq<(u32, u8)>,
    owner: Seq<char>,
    binds: Seq<BindingView>,
    filter: Option<Seq<(u32, u8)>>,
    k: int,
    j: int,
)
    requires
        0 <= k < service.allow_from@.len(),
        0 <= j < binds.len(),
        binds[j].0 == service.allow_from@[k]@,
        crosses(dests, binds[j].2.0),
        passes(filter, binds[j].2.0),
    ensures
        rule_for(name, service, dests, owner, binds, filter) is Some,
        (rule_for(name, service, dests, owner, binds, filter)->0).1.contains(binds[j].2),
{
    let t = service.allow_from@[k]@;
    let allow = allow_view(service);
    assert(allow[k] == t);
    let sf = source_fn(t, dests, filter);
    assert(sf(binds[j]) == Some(binds[j].2));
    lemma_filter_map_has(binds, sf, j);
    let inner = binds.filter_map(sf);
    assert(tag_sources_fn(binds, dests, filter)(allow[k]) == inner);
    let w = choose|w: int| 0 <= w < inner.len() && inner[w] == binds[j].2;
    lemma_flat_map_has(allow, tag_sources_fn(binds, dests, filter), k, w);
}

/// Clients' services are reachable through the node they sit behind: for every client with
/// addresses on node `own`, every service of it whose `allowFrom` names a reference bound to
/// an address that crosses the router towards those addresses gets an ingress rule named
/// `client_service`, accepting that address, towards each of the client's addresses on the
/// node as a host, on the service's internal port and protocols.
pub proof fn lemma_client_services_get_ingress_rules(
    config: Config,
    own: Seq<char>,
    binds: Seq<BindingView>,
    ci: int,
    si: int,
    k: int,
    j: int,
)
    requires
        0 <= ci < config.clients@.len(),
        lookup(config.clients@[ci].1.ips@, own) is Some,
        0 <= si < config.clients@[ci].1.services@.len(),
        0 <= k < config.clients@[ci].1.services@[si].1.allow_from@.len(),
        0 <= j < binds.len(),
        binds[j].0 == config.clients@[ci].1.services@[si].1.allow_from@[k]@,
        crosses(
            client_dests(lookup(config.clients@[ci].1.ips@, own)->0@, lookup(config.nodes@, own)->0),
            binds[j].2.0,
        ),
    ensures
        exists|r: RuleView|
            #[trigger] ingress_rules(config, own, binds).contains(r) && r.0 == config.clients@[ci].0@ + seq!['_']
                + config.clients@[ci].1.services@[si].0@ && r.1.contains(binds[j].2) && r.2 == dedup(
                config.clients@[ci].1.services@[si].1.proto@,
            ) && r.3 == service_internal(config.clients@[ci].1.services@[si].1.port@) && r.4 == client_dests(
                lookup(config.clients@[ci].1.ips@, own)->0@,
                lookup(config.nodes@, own)->0,
            ).map_values(|d: (u32, u8)| (d.0, 32u8)) && r.5 == FirewallAction::Accept,
{
    let node = lookup(config.nodes@, own)->0;
    let c = config.clients@[ci];
    let svc = c.1.services@[si];
    let dests = client_dests(lookup(c.1.ips@, own)->0@, node);
    lemma_bound_source_gives_rule(svc.0@, svc.1, dests, c.0@, binds, None, k, j);
    let r = rule_for(svc.0@, svc.1, dests, c.0@, binds, None)->0;
    let f = service_rule_fn(dests, c.0@, binds, None);
    assert(f(c.1.services@[si]) == Some(r));
    lemma_filter_map_has(c.1.services@, f, si);
    let rules = services_rules(c.1.services@, dests, c.0@, binds, None);
    let g = ingress_client_fn(node, own, binds);
    assert(g(c) == rules);
    let w = choose|w: int| 0 <= w < rules.len() && rules[w] == r;
    lemma_flat_map_has(config.clients@, g, ci, w);
    let hosted = hosted_rules(own, node, None, binds, None);
    let tail = config.clients@.flat_map(g);
    let v = choose|v: int| 0 <= v < tail.len() && tail[v] == r;
    assert(ingress_rules(config, own, binds)[hosted.len() + v] == r);
    assert(ingress_rules(config, own, binds).contains(r));
}

/// The rule of a reached service is among the rules of its owner's services.
proof fn lemma_service_rule_listed(
    services: Seq<(Identifier, Service)>,
    dests: Seq<(u32, u8)>,
    owner: Seq<char>,
    binds: Seq<BindingView>,
    filter: Option<Seq<(u32, u8)>>,
    si: int,
    k: int,
    j: int,
)
    requires
        0 <= si < services.len(),
        0 <= k < services[si].1.allow_from@.len(),
        0 <= j < binds.len(),
        binds[j].0 == services[si].1.allow_from@[k]@,
        crosses(dests, binds[j].2.0),
        passes(filter, binds[j].2.0),
    ensures
        rule_for(services[si].0@, services[si].1, dests, owner, binds, filter) is Some,
        services_rules(services, dests, owner, binds, filter).contains(
            rule_for(services[si].0@, services[si].1, dests, owner, binds, filter)->0,
        ),
        (rule_for(services[si].0@, services[si].1, dests, owner, binds, filter)->0).1.contains(binds[j].2),
{
    lemma_bound_source_gives_rule(services[si].0@, services[si].1, dests, owner, binds, filter, k, j);
    lemma_filter_map_has(services, service_rule_fn(dests, owner, binds, filter), si);
}

/// What is hosted behind node `own` is among its ingress rules.
proof fn lemma_hosted_in_ingress(config: Config, own: Seq<char>, binds: Seq<BindingView>, r: RuleView)
    requires
        hosted_rules(own, lookup(config.nodes@, own)->0, None, binds, None).contains(r),
    ensures
        ingress_rules(config, own, binds).contains(r),
{
    let h = hosted_rules(own, lookup(config.nodes@, own)->0, None, binds, None);
    let w = choose|w: int| 0 <= w < h.len() && h[w] == r;
    assert(ingress_rules(config, own, binds)[w] == r);
}

/// The node's own services are reachable: every service of node `own` whose `allowFrom`
/// names a reference bound to an address that crosses the router towards the node's own
/// addresses gets an ingress rule named `node_service`, accepting that address, towards
/// each of the node's addresses as a host.
pub proof fn lemma_node_services_get_ingress_rules(
    config: Config,
    own: Seq<char>,
    binds: Seq<BindingView>,
    si: int,
    k: int,
    j: int,
)
    requires
        lookup(config.nodes@, own) is Some,
        0 <= si < lookup(config.nodes@, own)->0.services@.len(),
        0 <= k < lookup(config.nodes@, own)->0.services@[si].1.allow_from@.len(),
        0 <= j < binds.len(),
        binds[j].0 == lookup(config.nodes@, own)->0.services@[si].1.allow_from@[k]@,
        crosses(host_views(lookup(config.nodes@, own)->0), binds[j].2.0),
    ensures
        exists|r: RuleView|
            #[trigger] ingress_rules(config, own, binds).contains(r) && r.0 == own + seq!['_']
                + lookup(config.nodes@, own)->0.services@[si].0@ && r.1.contains(binds[j].2) && r.4 == host_views(
                lookup(config.nodes@, own)->0,
            ).map_values(|d: (u32, u8)| (d.0, 32u8)) && r.5 == FirewallAction::Accept,
{
    let node = lookup(config.nodes@, own)->0;
    lemma_service_rule_listed(node.services@, host_views(node), own, binds, None, si, k, j);
    let r = rule_for(node.services@[si].0@, node.services@[si].1, host_views(node), own, binds, None)->0;
    let sr = services_rules(node.services@, host_views(node), own, binds, None);
    let w = choose|w: int| 0 <= w < sr.len() && sr[w] == r;
    assert(hosted_rules(own, node, None, binds, None)[w] == r);
    lemma_hosted_in_ingress(config, own, binds, r);
}

/// Devices' services are reachable: every service of a device on a zone of node `own` whose
/// `allowFrom` names a reference bound to an address that crosses the router towards the
/// device gets an ingress rule named `device_service`, accepting that address, towards the
/// device as a host.
pub proof fn lemma_device_services_get_ingress_rules(
    config: Config,
    own: Seq<char>,
    binds: Seq<BindingView>,
    zi: int,
    di: int,
    si: int,
    k: int,
    j: int,
)
    requires
        lookup(config.nodes@, own) is Some,
        0 <= zi < lookup(config.nodes@, own)->0.zones@.len(),
        0 <= di < lookup(config.nodes@, own)->0.zones@[zi].1.devices@.len(),
        0 <= si < lookup(config.nodes@, own)->0.zones@[zi].1.devices@[di].1.services@.len(),
        0 <= k < lookup(config.nodes@, own)->0.zones@[zi].1.devices@[di].1.services@[si].1.allow_from@.len(),
        0 <= j < binds.len(),
        binds[j].0 == lookup(config.nodes@, own)->0.zones@[zi].1.devices@[di].1.services@[si].1.allow_from@[k]@,
        crosses(
            seq![
                (
                    lookup(config.nodes@, own)->0.zones@[zi].1.devices@[di].1.ip@,
                    lookup(config.nodes@, own)->0.zones@[zi].1.address@.1,
                ),
            ],
            binds[j].2.0,
        ),
    ensures
        exists|r: RuleView|
            #[trigger] ingress_rules(config, own, binds).contains(r) && r.0 == lookup(config.nodes@, own)->0.zones@[zi].1.devices@[di].0@
                + seq!['_'] + lookup(config.nodes@, own)->0.zones@[zi].1.devices@[di].1.services@[si].0@ && r.1.contains(
                binds[j].2,
            ) && r.4 == seq![(lookup(config.nodes@, own)->0.zones@[zi].1.devices@[di].1.ip@, 32u8)] && r.5
                == FirewallAction::Accept,
{
    let node = lookup(config.nodes@, own)->0;
    let z = node.zones@[zi];
    let d = z.1.devices@[di];
    let dests = seq![(d.1.ip@, z.1.address@.1)];
    lemma_service_rule_listed(d.1.services@, dests, d.0@, binds, None, si, k, j);
    let r = rule_for(d.1.services@[si].0@, d.1.services@[si].1, dests, d.0@, binds, None)->0;
    assert(r.4 =~= seq![(d.1.ip@, 32u8)]);
    let df = device_rule_fn(None, z.1.address@.1, binds, None);
    assert(df(d) == services_rules(d.1.services@, dests, d.0@, binds, None));
    let drs = services_rules(d.1.services@, dests, d.0@, binds, None);
    let w = choose|w: int| 0 <= w < drs.len() && drs[w] == r;
    lemma_flat_map_has(z.1.devices@, df, di, w);
    let zf = zone_rule_fn(None, binds, None);
    let zr = z.1.devices@.flat_map(df);
    let w2 = choose|w2: int| 0 <= w2 < zr.len() && zr[w2] == r;
    assert(zf(z) == zr);
    lemma_flat_map_has(node.zones@, zf, zi, w2);
    let zs = node.zones@.flat_map(zf);
    let w3 = choose|w3: int| 0 <= w3 < zs.len() && zs[w3] == r;
    let head = services_rules(node.services@, host_views(node), own, binds, None);
    assert(hosted_rules(own, node, None, binds, None)[head.len() + w3] == r);
    lemma_hosted_in_ingress(config, own, binds, r);
}

/// VPN peers' services are reachable: every service of a peer of a VPN interface of node
/// `own` whose `allowFrom` names a reference bound to an address that crosses the router
/// towards the peer gets an ingress rule named `peer_service`, accepting that address,
/// towards the peer as a host.
pub proof fn lemma_peer_services_get_ingress_rules(
    config: Config,
    own: Seq<char>,
    binds: Seq<BindingView>,
    vi: int,
    pi: int,
    si: int,
    k: int,
    j: int,
)
    requires
        lookup(config.nodes@, own) is Some,
        0 <= vi < lookup(config.nodes@, own)->0.vpn_interfaces@.len(),
        0 <= pi < lookup(config.nodes@, own)->0.vpn_interfaces@[vi].1.clients@.len(),
        0 <= si < lookup(config.nodes@, own)->0.vpn_interfaces@[vi].1.clients@[pi].1.services@.len(),
        0 <= k < lookup(config.nodes@, own)->0.vpn_interfaces@[vi].1.clients@[pi].1.services@[si].1.allow_from@.len(),
        0 <= j < binds.len(),
        binds[j].0 == lookup(config.nodes@, own)->0.vpn_interfaces@[vi].1.clients@[pi].1.services@[si].1.allow_from@[k]@,
        crosses(seq![(lookup(config.nodes@, own)->0.vpn_interfaces@[vi].1.clients@[pi].1.ip@, 32u8)], binds[j].2.0),
    ensures
        exists|r: RuleView|
            #[trigger] ingress_rules(config, own, binds).contains(r) && r.0 == lookup(config.nodes@, own)->0.vpn_interfaces@[vi].1.clients@[pi].0@
                + seq!['_'] + lookup(config.nodes@, own)->0.vpn_interfaces@[vi].1.clients@[pi].1.services@[si].0@
                && r.1.contains(binds[j].2) && r.4 == seq![
                (lookup(config.nodes@, own)->0.vpn_interfaces@[vi].1.clients@[pi].1.ip@, 32u8),
            ] && r.5 == FirewallAction::Accept,
{
    let node = lookup(config.nodes@, own)->0;
    let v = node.vpn_interfaces@[vi];
    let c = v.1.clients@[pi];
    let dests = seq![(c.1.ip@, 32u8)];
    lemma_service_rule_listed(c.1.services@, dests, c.0@, binds, None, si, k, j);
    let r = rule_for(c.1.services@[si].0@, c.1.services@[si].1, dests, c.0@, binds, None)->0;
    assert(r.4 =~= dests);
    let pf = peer_rule_fn(None, binds, None);
    assert(pf(c) == services_rules(c.1.services@, dests, c.0@, binds, None));
    let prs = services_rules(c.1.services@, dests, c.0@, binds, None);
    let w = choose|w: int| 0 <= w < prs.len() && prs[w] == r;
    lemma_flat_map_has(v.1.clients@, pf, pi, w);
    let vf = vpn_rule_fn(None, binds, None);
    let vr = v.1.clients@.flat_map(pf);
    let w2 = choose|w2: int| 0 <= w2 < vr.len() && vr[w2] == r;
    assert(vf(v) == vr);
    lemma_flat_map_has(node.vpn_interfaces@, vf, vi, w2);
    let vs = node.vpn_interfaces@.flat_map(vf);
    let w3 = choose|w3: int| 0 <= w3 < vs.len() && vs[w3] == r;
    let head = services_rules(node.services@, host_views(node), own, binds, None) + node.zones@.flat_map(
        zone_rule_fn(None, binds, None),
    );
    assert(hosted_rules(own, node, None, binds, None)[head.len() + w3] == r);
    lemma_hosted_in_ingress(config, own, binds, r);
}

/// Services on other routers are reachable from here: for every other node, every service
/// of it whose `allowFrom` names a reference bound to an address that lies in a network of
/// node `own` and crosses that node's router towards its addresses gets an egress rule named
/// `node_service`, accepting that address, towards each of that node's addresses as a host.
pub proof fn lemma_remote_node_services_get_egress_rules(
    config: Config,
    own: Seq<char>,
    binds: Seq<BindingView>,
    ni: int,
    si: int,
    k: int,
    j: int,
)
    requires
        0 <= ni < config.nodes@.len(),
        config.nodes@[ni].0@ != own,
        0 <= si < config.nodes@[ni].1.services@.len(),
        0 <= k < config.nodes@[ni].1.services@[si].1.allow_from@.len(),
        0 <= j < binds.len(),
        binds[j].0 == config.nodes@[ni].1.services@[si].1.allow_from@[k]@,
        crosses(host_views(config.nodes@[ni].1), binds[j].2.0),
        exists|l: int|
            0 <= l < local_networks(lookup(config.nodes@, own)->0).len() && net_contains(
                #[trigger] local_networks(lookup(config.nodes@, own)->0)[l],
                binds[j].2.0,
            ),
    ensures
        exists|r: RuleView|
            #[trigger] egress_rules(config, own, binds).contains(r) && r.0 == config.nodes@[ni].0@ + seq!['_']
                + config.nodes@[ni].1.services@[si].0@ && r.1.contains(binds[j].2) && r.4 == host_views(
                config.nodes@[ni].1,
            ).map_values(|d: (u32, u8)| (d.0, 32u8)) && r.5 == FirewallAction::Accept,
{
    let n = config.nodes@[ni];
    let local = local_networks(lookup(config.nodes@, own)->0);
    let filter = Some(local);
    let l = choose|l: int| 0 <= l < local.len() && net_contains(#[trigger] local[l], binds[j].2.0);
    assert(passes(filter, binds[j].2.0)) by {
        assert(filter->0 == local);
        assert(net_contains(filter->0[l], binds[j].2.0));
    }
    lemma_service_rule_listed(n.1.services@, host_views(n.1), n.0@, binds, filter, si, k, j);
    let r = rule_for(n.1.services@[si].0@, n.1.services@[si].1, host_views(n.1), n.0@, binds, filter)->0;
    let sr = services_rules(n.1.services@, host_views(n.1), n.0@, binds, filter);
    let w = choose|w: int| 0 <= w < sr.len() && sr[w] == r;
    let f = egress_node_fn(own, binds, local);
    assert(f(n) == hosted_rules(n.0@, n.1, Some(n.0@), binds, filter));
    assert(f(n)[w] == r);
    lemma_flat_map_has(config.nodes@, f, ni, w);
    let np = config.nodes@.flat_map(f);
    let v = choose|v: int| 0 <= v < np.len() && np[v] == r;
    assert(egress_rules(config, own, binds)[v] == r);
    assert(egress_rules(config, own, binds).contains(r));
}

/// Clients' services behind other routers are reachable from here: every service of a
/// client whose `allowFrom` names a reference bound to an address that lies in a network of
/// node `own` and crosses the router towards the client's addresses on other nodes gets an
/// egress rule named `client_service`, accepting that address, towards those addresses as
/// hosts.
pub proof fn lemma_remote_client_services_get_egress_rules(
    config: Config,
    own: Seq<char>,
    binds: Seq<BindingView>,
    ci: int,
    si: int,
    k: int,
    j: int,
)
    requires
        0 <= ci < config.clients@.len(),
        0 <= si < config.clients@[ci].1.services@.len(),
        0 <= k < config.clients@[ci].1.services@[si].1.allow_from@.len(),
        0 <= j < binds.len(),
        binds[j].0 == config.clients@[ci].1.services@[si].1.allow_from@[k]@,
        crosses(external_dests(config.clients@[ci].1, config, own), binds[j].2.0),
        exists|l: int|
            0 <= l < local_networks(lookup(config.nodes@, own)->0).len() && net_contains(
                #[trigger] local_networks(lookup(config.nodes@, own)->0)[l],
                binds[j].2.0,
            ),
    ensures
        exists|r: RuleView|
            #[trigger] egress_rules(config, own, binds).contains(r) && r.0 == config.clients@[ci].0@ + seq!['_']
                + config.clients@[ci].1.services@[si].0@ && r.1.contains(binds[j].2) && r.4 == external_dests(
                config.clients@[ci].1,
                config,
                own,
            ).map_values(|d: (u32, u8)| (d.0, 32u8)) && r.5 == FirewallAction::Accept,
{
    let c = config.clients@[ci];
    let local = local_networks(lookup(config.nodes@, own)->0);
    let filter = Some(local);
    let dests = external_dests(c.1, config, own);
    let l = choose|l: int| 0 <= l < local.len() && net_contains(#[trigger] local[l], binds[j].2.0);
    assert(passes(filter, binds[j].2.0)) by {
        assert(filter->0 == local);
        assert(net_contains(filter->0[l], binds[j].2.0));
    }
    lemma_service_rule_listed(c.1.services@, dests, c.0@, binds, filter, si, k, j);
    let r = rule_for(c.1.services@[si].0@, c.1.services@[si].1, dests, c.0@, binds, filter)->0;
    let f = egress_client_fn(config, own, binds, local);
    let sr = services_rules(c.1.services@, dests, c.0@, binds, filter);
    assert(f(c) == sr);
    let w = choose|w: int| 0 <= w < sr.len() && sr[w] == r;
    lemma_flat_map_has(config.clients@, f, ci, w);
    let cp = config.clients@.flat_map(f);
    let v = choose|v: int| 0 <= v < cp.len() && cp[v] == r;
    let np = config.nodes@.flat_map(egress_node_fn(own, binds, local));
    assert(egress_rules(config, own, binds)[np.len() + v] == r);
    assert(egress_rules(config, own, binds).contains(r));
}

} // verus!
