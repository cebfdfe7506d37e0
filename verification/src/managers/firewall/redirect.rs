//! Port forwards from a node's WAN zone to the services it exposes.
//!
//! A service hosted behind a node (by the node itself, a device or a VPN peer) is forwarded
//! on the node named bare in its `wan.via`; a global client's service is forwarded on each
//! node of its `wan.via`, to where the client is reached from that node.

use vstd::prelude::*;

use crate::config::{Client, Config, Node, NodeVpnInterface, NodeVpnInterfaceClient, NodeZone, NodeZoneDevice, Service, ServiceWan, resolve_target, resolution_view};
use crate::entries::{dedup, find_key, lemma_filter_map_has, lemma_flat_map_has, lookup};
use crate::managers::firewall::rules::nets_view;
use crate::protocol::{Protocol, Protocols};
use crate::text::{push_str, to_string};
use crate::types::identifier::Identifier;
use crate::types::ip::{Ipv4Addr, Ipv4Network};
use crate::types::port::{PorView, PortOrRange, service_external, service_internal};
use crate::types::wan_via_target::{WanViaTarget, WanViaTargetView, via_node};
use crate::types::zone_ref::{ZoneRef, ZoneRefView};

verus! {

broadcast use {vstd::seq_lib::group_seq_properties, vstd::seq::Seq::group_seq_extra};

/// A destination NAT from a port on the WAN zone to a host behind the router.
#[derive(Debug)]
pub struct FirewallRedirect {
    pub name: String,
    pub proto: Protocols,
    pub src: ZoneRef,
    pub src_dport: PortOrRange,
    pub src_ip: Vec<Ipv4Network>,
    pub dest_ip: Ipv4Addr,
    pub dest_port: PortOrRange,
    pub dest: ZoneRef,
}

/// What a redirect says: name, protocols, source zone, external port, allowed sources,
/// destination address, internal port, destination zone.
pub type RedirectView = (
    Seq<char>,
    Seq<Protocol>,
    ZoneRefView,
    PorView,
    Seq<(u32, u8)>,
    u32,
    PorView,
    ZoneRefView,
);

impl View for FirewallRedirect {
    type V = RedirectView;

    open spec fn view(&self) -> RedirectView {
        (
            self.name@,
            self.proto@,
            self.src@,
            self.src_dport@,
            nets_view(self.src_ip@),
            self.dest_ip@,
            self.dest_port@,
            self.dest@,
        )
    }
}

/// The views of a sequence of redirects.
pub open spec fn redirects_view(s: Seq<FirewallRedirect>) -> Seq<RedirectView> {
    s.map_values(|r: FirewallRedirect| r@)
}

/// `_redirect`
pub open spec fn redirect_suffix() -> Seq<char> {
    seq!['_', 'r', 'e', 'd', 'i', 'r', 'e', 'c', 't']
}

/// The name of a redirect for a service hosted behind a node: `owner_service_redirect`,
/// prefixed with the node's name when the owner is not the node itself.
pub open spec fn local_redirect_name(node: Seq<char>, owner: Seq<char>, service: Seq<char>) -> Seq<char> {
    if node == owner {
        owner + seq!['_'] + service + redirect_suffix()
    } else {
        node + seq!['_'] + owner + seq!['_'] + service + redirect_suffix()
    }
}

/// The service's `wan.via` names `own` bare.
pub open spec fn via_bare(w: ServiceWan, own: Seq<char>) -> bool {
    exists|i: int| 0 <= i < w.via@.len() && (#[trigger] w.via@[i])@ == WanViaTargetView::Bare(own)
}

/// The redirect on node `own` for a service hosted behind node `node` by `owner`, reached at
/// `dest_ip` in `dest_zone`: only when the service's `wan.via` names `own` bare.
pub open spec fn local_redirect(
    service_name: Seq<char>,
    service: Service,
    dest_zone: ZoneRefView,
    dest_ip: u32,
    owner: Seq<char>,
    node: Seq<char>,
    own: Seq<char>,
    wan_zone: Seq<char>,
) -> Option<RedirectView> {
    match service.wan {
        None => None,
        Some(w) => if !via_bare(w, own) {
            None
        } else {
            Some(
                (
                    local_redirect_name(node, owner, service_name),
                    dedup(service.proto@),
                    ZoneRefView::Named(wan_zone),
                    service_external(service.port@),
                    nets_view(w.sources@),
                    dest_ip,
                    service_internal(service.port@),
                    dest_zone,
                ),
            )
        },
    }
}

pub open spec fn local_service_fn(
    dest_zone: ZoneRefView,
    dest_ip: u32,
    owner: Seq<char>,
    node: Seq<char>,
    own: Seq<char>,
    wan_zone: Seq<char>,
) -> spec_fn((Identifier, Service)) -> Option<RedirectView> {
    |s: (Identifier, Service)|
        local_redirect(s.0@, s.1, dest_zone, dest_ip, owner, node, own, wan_zone)
}

pub open spec fn device_redirect_fn(zone: Seq<char>, node: Seq<char>, own: Seq<char>, wan_zone: Seq<char>) -> spec_fn(
    (Identifier, NodeZoneDevice),
) -> Seq<RedirectView> {
    |d: (Identifier, NodeZoneDevice)|
        d.1.services@.filter_map(
            local_service_fn(ZoneRefView::Named(zone), d.1.ip@, d.0@, node, own, wan_zone),
        )
}

pub open spec fn zone_redirect_fn(node: Seq<char>, own: Seq<char>, wan_zone: Seq<char>) -> spec_fn(
    (Identifier, NodeZone),
) -> Seq<RedirectView> {
    |z: (Identifier, NodeZone)| z.1.devices@.flat_map(device_redirect_fn(z.0@, node, own, wan_zone))
}

pub open spec fn peer_redirect_fn(vpn: Seq<char>, node: Seq<char>, own: Seq<char>, wan_zone: Seq<char>) -> spec_fn(
    (Identifier, NodeVpnInterfaceClient),
) -> Seq<RedirectView> {
    |c: (Identifier, NodeVpnInterfaceClient)|
        c.1.services@.filter_map(
            local_service_fn(ZoneRefView::Named(vpn), c.1.ip@, c.0@, node, own, wan_zone),
        )
}

pub open spec fn vpn_redirect_fn(node: Seq<char>, own: Seq<char>, wan_zone: Seq<char>) -> spec_fn(
    (Identifier, NodeVpnInterface),
) -> Seq<RedirectView> {
    |v: (Identifier, NodeVpnInterface)| v.1.clients@.flat_map(peer_redirect_fn(v.0@, node, own, wan_zone))
}

/// The redirects for what is hosted behind one node: its services (to its mesh address),
/// its devices' (in their zone) and its VPN peers' (in their interface's zone).
pub open spec fn node_redirects(name: Seq<char>, node: Node, own: Seq<char>, wan_zone: Seq<char>) -> Seq<
    RedirectView,
> {
    node.services@.filter_map(local_service_fn(ZoneRefView::Mesh, node.mesh_ip@, name, name, own, wan_zone))
        + node.zones@.flat_map(zone_redirect_fn(name, own, wan_zone)) + node.vpn_interfaces@.flat_map(
        vpn_redirect_fn(name, own, wan_zone),
    )
}

pub open spec fn node_redirect_fn(own: Seq<char>, wan_zone: Seq<char>) -> spec_fn((Identifier, Node)) -> Seq<
    RedirectView,
> {
    |n: (Identifier, Node)| node_redirects(n.0@, n.1, own, wan_zone)
}

/// The redirect on `own` for a client's service through one `wan.via` target: only for a
/// target on `own`, and only if the client can be reached through it.
pub open spec fn client_redirect(
    client_name: Seq<char>,
    client: Client,
    service_name: Seq<char>,
    service: Service,
    w: ServiceWan,
    via: WanViaTarget,
    node: Node,
    own: Seq<char>,
    wan_zone: Seq<char>,
) -> Option<RedirectView> {
    if via_node(via@) != own {
        None
    } else {
        match resolve_target(client, via, node) {
            Err(_) => None,
            Ok((ip, zone)) => Some(
                (
                    client_name + seq!['_'] + service_name + redirect_suffix(),
                    dedup(service.proto@),
                    ZoneRefView::Named(wan_zone),
                    service_external(service.port@),
                    nets_view(w.sources@),
                    ip,
                    service_internal(service.port@),
                    zone,
                ),
            ),
        }
    }
}

pub open spec fn client_via_fn(
    client_name: Seq<char>,
    client: Client,
    service_name: Seq<char>,
    service: Service,
    w: ServiceWan,
    node: Node,
    own: Seq<char>,
    wan_zone: Seq<char>,
) -> spec_fn(WanViaTarget) -> Option<RedirectView> {
    |via: WanViaTarget| client_redirect(client_name, client, service_name, service, w, via, node, own, wan_zone)
}

pub open spec fn client_service_fn(
    client_name: Seq<char>,
    client: Client,
    node: Node,
    own: Seq<char>,
    wan_zone: Seq<char>,
) -> spec_fn((Identifier, Service)) -> Seq<RedirectView> {
    |s: (Identifier, Service)|
        match s.1.wan {
            None => seq![],
            Some(w) => w.via@.filter_map(
                client_via_fn(client_name, client, s.0@, s.1, w, node, own, wan_zone),
            ),
        }
}

pub open spec fn client_redirect_fn(node: Node, own: Seq<char>, wan_zone: Seq<char>) -> spec_fn(
    (Identifier, Client),
) -> Seq<RedirectView> {
    |c: (Identifier, Client)| c.1.services@.flat_map(client_service_fn(c.0@, c.1, node, own, wan_zone))
}

/// The redirects of node `own`: none unless it has a WAN zone; else those for everything
/// hosted behind any node and exposed through `own`, then those for the clients' services.
pub open spec fn firewall_redirects(config: Config, own: Seq<char>) -> Seq<RedirectView> {
    match lookup(config.nodes@, own) {
        None => seq![],
        Some(node) => match node.wan_zone {
            None => seq![],
            Some(w) => config.nodes@.flat_map(node_redirect_fn(own, w@)) + config.clients@.flat_map(
                client_redirect_fn(node, own, w@),
            ),
        },
    }
}

/// A redirect only ever comes from a service whose `wan.via` names the node it is
/// generated on: a service exposed through another node is never forwarded here.
pub proof fn lemma_local_redirect_needs_via(
    service_name: Seq<char>,
    service: Service,
    dest_zone: ZoneRefView,
    dest_ip: u32,
    owner: Seq<char>,
    node: Seq<char>,
    own: Seq<char>,
    wan_zone: Seq<char>,
)
    ensures
        local_redirect(service_name, service, dest_zone, dest_ip, owner, node, own, wan_zone) is Some
            ==> (service.wan matches Some(w) && via_bare(w, own)),
{
}

fn via_names_bare(w: &ServiceWan, own: &Identifier) -> (r: bool)
    ensures
        r == via_bare(*w, own@),
{
    let targets = w.via.iter();
    let mut i: usize = 0;
    while i < targets.len()
        invariant
            i <= targets@.len(),
            targets@ == w.via@,
            forall|j: int| 0 <= j < i ==> targets@[j]@ != WanViaTargetView::Bare(own@),
        decreases targets@.len() - i,
    {
        match &targets[i] {
            WanViaTarget::Bare(n) => {
                if n.same(own) {
                    assert(w.via@[i as int]@ == WanViaTargetView::Bare(own@));
                    return true;
                }
            },
            WanViaTarget::Qualified(_) => {},
        }
        i = i + 1;
    }
    false
}

fn sources_of(w: &ServiceWan) -> (r: Vec<Ipv4Network>)
    ensures
        nets_view(r@) == nets_view(w.sources@),
{
    w.sources.items().clone()
}

fn local_service_redirect(
    service_name: &Identifier,
    service: &Service,
    dest_zone: &ZoneRef,
    dest_ip: Ipv4Addr,
    owner_name: &Identifier,
    node_name: &Identifier,
    own_name: &Identifier,
    wan_zone: &Identifier,
) -> (r: Option<FirewallRedirect>)
    ensures
        match r {
            Some(x) => local_redirect(
                service_name@,
                *service,
                dest_zone@,
                dest_ip@,
                owner_name@,
                node_name@,
                own_name@,
                wan_zone@,
            ) == Some(x@),
            None => local_redirect(
                service_name@,
                *service,
                dest_zone@,
                dest_ip@,
                owner_name@,
                node_name@,
                own_name@,
                wan_zone@,
            ) is None,
        },
{
    let w = match &service.wan {
        Some(w) => w,
        None => return None,
    };
    if !via_names_bare(w, own_name) {
        return None;
    }
    proof {
        reveal_strlit("_");
        reveal_strlit("_redirect");
    }
    assert("_redirect"@ =~= redirect_suffix());
    let mut name = if node_name.same(owner_name) {
        owner_name.to_string()
    } else {
        let mut n = node_name.to_string();
        push_str(&mut n, "_");
        push_str(&mut n, owner_name.as_str());
        n
    };
    push_str(&mut name, "_");
    push_str(&mut name, service_name.as_str());
    push_str(&mut name, "_redirect");
    Some(
        FirewallRedirect {
            name,
            dest: dest_zone.clone(),
            dest_ip,
            dest_port: service.port.internal(),
            proto: Protocols::from_one_or_many(&service.proto),
            src: ZoneRef::Named(wan_zone.clone()),
            src_dport: service.port.external(),
            src_ip: sources_of(w),
        },
    )
}

/// Appends `more` to `out`.
fn append_redirects(out: &mut Vec<FirewallRedirect>, more: Vec<FirewallRedirect>)
    ensures
        redirects_view(final(out)@) == redirects_view(old(out)@) + redirects_view(more@),
{
    let ghost o = out@;
    let ghost m = more@;
    let mut more = more;
    out.append(&mut more);
    assert(redirects_view(out@) =~= redirects_view(o) + redirects_view(m));
}

fn service_redirects(
    services: &Vec<(Identifier, Service)>,
    dest_zone: &ZoneRef,
    dest_ip: Ipv4Addr,
    owner_name: &Identifier,
    node_name: &Identifier,
    own_name: &Identifier,
    wan_zone: &Identifier,
) -> (r: Vec<FirewallRedirect>)
    ensures
        redirects_view(r@) == services@.filter_map(
            local_service_fn(dest_zone@, dest_ip@, owner_name@, node_name@, own_name@, wan_zone@),
        ),
{
    let ghost f = local_service_fn(dest_zone@, dest_ip@, owner_name@, node_name@, own_name@, wan_zone@);
    let mut r: Vec<FirewallRedirect> = Vec::new();
    let mut i: usize = 0;
    while i < services.len()
        invariant
            i <= services@.len(),
            f == local_service_fn(dest_zone@, dest_ip@, owner_name@, node_name@, own_name@, wan_zone@),
            redirects_view(r@) == services@.take(i as int).filter_map(f),
        decreases services@.len() - i,
    {
        let s = &services[i];
        let ghost before = r@;
        match local_service_redirect(&s.0, &s.1, dest_zone, dest_ip, owner_name, node_name, own_name, wan_zone) {
            Some(x) => {
                r.push(x);
                assert(redirects_view(r@) =~= redirects_view(before).push(r@.last()@));
            },
            None => {},
        }
        i = i + 1;
    }
    assert(services@.take(services@.len() as int) =~= services@);
    r
}

fn local_redirects(node_name: &Identifier, node: &Node, own_name: &Identifier, wan_zone: &Identifier) -> (r: Vec<
    FirewallRedirect,
>)
    ensures
        redirects_view(r@) == node_redirects(node_name@, *node, own_name@, wan_zone@),
{
    let mut r = service_redirects(&node.services, &ZoneRef::Mesh, node.mesh_ip, node_name, node_name, own_name, wan_zone);
    let ghost head = redirects_view(r@);
    let mut zi: usize = 0;
    while zi < node.zones.len()
        invariant
            zi <= node.zones@.len(),
            redirects_view(r@) == head + node.zones@.take(zi as int).flat_map(
                zone_redirect_fn(node_name@, own_name@, wan_zone@),
            ),
        decreases node.zones@.len() - zi,
    {
        let z = &node.zones[zi];
        let zr = ZoneRef::Named(z.0.clone());
        let ghost before = redirects_view(r@);
        let ghost df = device_redirect_fn(z.0@, node_name@, own_name@, wan_zone@);
        let mut di: usize = 0;
        while di < z.1.devices.len()
            invariant
                di <= z.1.devices@.len(),
                zr@ == ZoneRefView::Named(z.0@),
                df == device_redirect_fn(z.0@, node_name@, own_name@, wan_zone@),
                redirects_view(r@) == before + z.1.devices@.take(di as int).flat_map(df),
            decreases z.1.devices@.len() - di,
        {
            let d = &z.1.devices[di];
            let more = service_redirects(&d.1.services, &zr, d.1.ip, &d.0, node_name, own_name, wan_zone);
            append_redirects(&mut r, more);
            di = di + 1;
        }
        assert(z.1.devices@.take(z.1.devices@.len() as int) =~= z.1.devices@);
        zi = zi + 1;
    }
    assert(node.zones@.take(node.zones@.len() as int) =~= node.zones@);
    let ghost mid = redirects_view(r@);
    let mut vi: usize = 0;
    while vi < node.vpn_interfaces.len()
        invariant
            vi <= node.vpn_interfaces@.len(),
            redirects_view(r@) == mid + node.vpn_interfaces@.take(vi as int).flat_map(
                vpn_redirect_fn(node_name@, own_name@, wan_zone@),
            ),
        decreases node.vpn_interfaces@.len() - vi,
    {
        let v = &node.vpn_interfaces[vi];
        let zr = ZoneRef::Named(v.0.clone());
        let ghost before = redirects_view(r@);
        let ghost cf = peer_redirect_fn(v.0@, node_name@, own_name@, wan_zone@);
        let mut ci: usize = 0;
        while ci < v.1.clients.len()
            invariant
                ci <= v.1.clients@.len(),
                zr@ == ZoneRefView::Named(v.0@),
                cf == peer_redirect_fn(v.0@, node_name@, own_name@, wan_zone@),
                redirects_view(r@) == before + v.1.clients@.take(ci as int).flat_map(cf),
            decreases v.1.clients@.len() - ci,
        {
            let c = &v.1.clients[ci];
            let more = service_redirects(&c.1.services, &zr, c.1.ip, &c.0, node_name, own_name, wan_zone);
            append_redirects(&mut r, more);
            ci = ci + 1;
        }
        assert(v.1.clients@.take(v.1.clients@.len() as int) =~= v.1.clients@);
        vi = vi + 1;
    }
    assert(node.vpn_interfaces@.take(node.vpn_interfaces@.len() as int) =~= node.vpn_interfaces@);
    r
}

fn client_service_redirects(
    client_name: &Identifier,
    client: &Client,
    service_name: &Identifier,
    service: &Service,
    node: &Node,
    own_name: &Identifier,
    wan_zone: &Identifier,
) -> (r: Vec<FirewallRedirect>)
    ensures
        redirects_view(r@) == client_service_fn(client_name@, *client, *node, own_name@, wan_zone@)(
            (*service_name, *service),
        ),
{
    let w = match &service.wan {
        Some(w) => w,
        None => return Vec::new(),
    };
    let ghost f = client_via_fn(client_name@, *client, service_name@, *service, *w, *node, own_name@, wan_zone@);
    let targets = w.via.iter();
    let mut r: Vec<FirewallRedirect> = Vec::new();
    let mut i: usize = 0;
    proof {
        reveal_strlit("_");
        reveal_strlit("_redirect");
    }
    assert("_redirect"@ =~= redirect_suffix());
    while i < targets.len()
        invariant
            i <= targets@.len(),
            targets@ == w.via@,
            "_redirect"@ == redirect_suffix(),
            "_"@ == seq!['_'],
            f == client_via_fn(client_name@, *client, service_name@, *service, *w, *node, own_name@, wan_zone@),
            redirects_view(r@) == targets@.take(i as int).filter_map(f),
        decreases targets@.len() - i,
    {
        let v = &targets[i];
        if v.node().same(own_name) {
            let res = client.resolve_wan_target(v, node);
            match res {
                Ok(resolution) => {
                    let mut name = client_name.to_string();
                    push_str(&mut name, "_");
                    push_str(&mut name, service_name.as_str());
                    push_str(&mut name, "_redirect");
                    let x = FirewallRedirect {
                        name,
                        proto: Protocols::from_one_or_many(&service.proto),
                        src: ZoneRef::Named(wan_zone.clone()),
                        src_dport: service.port.external(),
                        src_ip: sources_of(w),
                        dest: resolution.dest_zone,
                        dest_ip: resolution.dest_ip,
                        dest_port: service.port.internal(),
                    };
                    let ghost before = r@;
                    r.push(x);
                    assert(redirects_view(r@) =~= redirects_view(before).push(r@.last()@));
                },
                Err(_) => {},
            }
        }
        i = i + 1;
    }
    assert(targets@.take(targets@.len() as int) =~= targets@);
    r
}

fn client_redirects(config: &Config, node: &Node, own_name: &Identifier, wan_zone: &Identifier) -> (r: Vec<
    FirewallRedirect,
>)
    ensures
        redirects_view(r@) == config.clients@.flat_map(client_redirect_fn(*node, own_name@, wan_zone@)),
{
    let mut r: Vec<FirewallRedirect> = Vec::new();
    let mut ci: usize = 0;
    while ci < config.clients.len()
        invariant
            ci <= config.clients@.len(),
            redirects_view(r@) == config.clients@.take(ci as int).flat_map(
                client_redirect_fn(*node, own_name@, wan_zone@),
            ),
        decreases config.clients@.len() - ci,
    {
        let c = &config.clients[ci];
        let ghost before = redirects_view(r@);
        let ghost sf = client_service_fn(c.0@, c.1, *node, own_name@, wan_zone@);
        let mut si: usize = 0;
        while si < c.1.services.len()
            invariant
                si <= c.1.services@.len(),
                sf == client_service_fn(c.0@, c.1, *node, own_name@, wan_zone@),
                redirects_view(r@) == before + c.1.services@.take(si as int).flat_map(sf),
            decreases c.1.services@.len() - si,
        {
            let s = &c.1.services[si];
            let more = client_service_redirects(&c.0, &c.1, &s.0, &s.1, node, own_name, wan_zone);
            append_redirects(&mut r, more);
            si = si + 1;
        }
        assert(c.1.services@.take(c.1.services@.len() as int) =~= c.1.services@);
        ci = ci + 1;
    }
    assert(config.clients@.take(config.clients@.len() as int) =~= config.clients@);
    r
}

/// The redirects of node `own_name`.
pub fn get_firewall_redirects(config: &Config, own_name: &Identifier) -> (r: Vec<FirewallRedirect>)
    ensures
        redirects_view(r@) == firewall_redirects(*config, own_name@),
{
    let oi = match find_key(&config.nodes, own_name) {
        Some(i) => i,
        None => return Vec::new(),
    };
    let node = &config.nodes[oi].1;
    let wan_zone = match &node.wan_zone {
        Some(w) => w,
        None => return Vec::new(),
    };
    let mut r: Vec<FirewallRedirect> = Vec::new();
    let mut ni: usize = 0;
    while ni < config.nodes.len()
        invariant
            ni <= config.nodes@.len(),
            redirects_view(r@) == config.nodes@.take(ni as int).flat_map(
                node_redirect_fn(own_name@, wan_zone@),
            ),
        decreases config.nodes@.len() - ni,
    {
        let n = &config.nodes[ni];
        let more = local_redirects(&n.0, &n.1, own_name, wan_zone);
        append_redirects(&mut r, more);
        ni = ni + 1;
    }
    assert(config.nodes@.take(config.nodes@.len() as int) =~= config.nodes@);
    let more = client_redirects(config, node, own_name, wan_zone);
    append_redirects(&mut r, more);
    r
}

/// A redirect listed for a node is among the redirects of node `own`.
proof fn lemma_node_redirect_listed(config: Config, own: Seq<char>, ni: int, x: RedirectView)
    requires
        lookup(config.nodes@, own) is Some,
        lookup(config.nodes@, own)->0.wan_zone is Some,
        0 <= ni < config.nodes@.len(),
        node_redirects(
            config.nodes@[ni].0@,
            config.nodes@[ni].1,
            own,
            lookup(config.nodes@, own)->0.wan_zone->0@,
        ).contains(x),
    ensures
        firewall_redirects(config, own).contains(x),
{
    let w = lookup(config.nodes@, own)->0.wan_zone->0@;
    let nr = node_redirects(config.nodes@[ni].0@, config.nodes@[ni].1, own, w);
    let i = choose|i: int| 0 <= i < nr.len() && nr[i] == x;
    assert(node_redirect_fn(own, w)(config.nodes@[ni]) == nr);
    lemma_flat_map_has(config.nodes@, node_redirect_fn(own, w), ni, i);
    let np = config.nodes@.flat_map(node_redirect_fn(own, w));
    let v = choose|v: int| 0 <= v < np.len() && np[v] == x;
    assert(firewall_redirects(config, own)[v] == x);
}

/// Services exposed through a router are forwarded by it: on a node `own` with a WAN zone,
/// every service of any node whose `wan.via` names `own` gets a redirect from the WAN zone
/// on its external port to that node's mesh address on its internal port, limited to its
/// WAN sources.
pub proof fn lemma_exposed_node_services_redirected(config: Config, own: Seq<char>, ni: int, si: int)
    requires
        lookup(config.nodes@, own) is Some,
        lookup(config.nodes@, own)->0.wan_zone is Some,
        0 <= ni < config.nodes@.len(),
        0 <= si < config.nodes@[ni].1.services@.len(),
        config.nodes@[ni].1.services@[si].1.wan is Some,
        via_bare(config.nodes@[ni].1.services@[si].1.wan->0, own),
    ensures
        firewall_redirects(config, own).contains(
            (
                config.nodes@[ni].0@ + seq!['_'] + config.nodes@[ni].1.services@[si].0@ + redirect_suffix(),
                dedup(config.nodes@[ni].1.services@[si].1.proto@),
                ZoneRefView::Named(lookup(config.nodes@, own)->0.wan_zone->0@),
                service_external(config.nodes@[ni].1.services@[si].1.port@),
                nets_view(config.nodes@[ni].1.services@[si].1.wan->0.sources@),
                config.nodes@[ni].1.mesh_ip@,
                service_internal(config.nodes@[ni].1.services@[si].1.port@),
                ZoneRefView::Mesh,
            ),
        ),
{
    let w = lookup(config.nodes@, own)->0.wan_zone->0@;
    let n = config.nodes@[ni];
    let f = local_service_fn(ZoneRefView::Mesh, n.1.mesh_ip@, n.0@, n.0@, own, w);
    let x = f(n.1.services@[si])->0;
    lemma_filter_map_has(n.1.services@, f, si);
    let sp = n.1.services@.filter_map(f);
    let i = choose|i: int| 0 <= i < sp.len() && sp[i] == x;
    assert(node_redirects(n.0@, n.1, own, w)[i] == x);
    lemma_node_redirect_listed(config, own, ni, x);
}

/// Services of devices exposed through a router are forwarded by it: on a node `own` with a
/// WAN zone, every service of a device of any node whose `wan.via` names `own` gets a
/// redirect from the WAN zone on its external port to the device's address in its zone on
/// its internal port, limited to its WAN sources.
pub proof fn lemma_exposed_device_services_redirected(config: Config, own: Seq<char>, ni: int, zi: int, di: int, si: int)
    requires
        lookup(config.nodes@, own) is Some,
        lookup(config.nodes@, own)->0.wan_zone is Some,
        0 <= ni < config.nodes@.len(),
        0 <= zi < config.nodes@[ni].1.zones@.len(),
        0 <= di < config.nodes@[ni].1.zones@[zi].1.devices@.len(),
        0 <= si < config.nodes@[ni].1.zones@[zi].1.devices@[di].1.services@.len(),
        config.nodes@[ni].1.zones@[zi].1.devices@[di].1.services@[si].1.wan is Some,
        via_bare(config.nodes@[ni].1.zones@[zi].1.devices@[di].1.services@[si].1.wan->0, own),
    ensures
        firewall_redirects(config, own).contains(
            (
                local_redirect_name(
                    config.nodes@[ni].0@,
                    config.nodes@[ni].1.zones@[zi].1.devices@[di].0@,
                    config.nodes@[ni].1.zones@[zi].1.devices@[di].1.services@[si].0@,
                ),
                dedup(config.nodes@[ni].1.zones@[zi].1.devices@[di].1.services@[si].1.proto@),
                ZoneRefView::Named(lookup(config.nodes@, own)->0.wan_zone->0@),
                service_external(config.nodes@[ni].1.zones@[zi].1.devices@[di].1.services@[si].1.port@),
                nets_view(config.nodes@[ni].1.zones@[zi].1.devices@[di].1.services@[si].1.wan->0.sources@),
                config.nodes@[ni].1.zones@[zi].1.devices@[di].1.ip@,
                service_internal(config.nodes@[ni].1.zones@[zi].1.devices@[di].1.services@[si].1.port@),
                ZoneRefView::Named(config.nodes@[ni].1.zones@[zi].0@),
            ),
        ),
{
    let w = lookup(config.nodes@, own)->0.wan_zone->0@;
    let n = config.nodes@[ni];
    let z = n.1.zones@[zi];
    let d = z.1.devices@[di];
    let f = local_service_fn(ZoneRefView::Named(z.0@), d.1.ip@, d.0@, n.0@, own, w);
    let x = f(d.1.services@[si])->0;
    lemma_filter_map_has(d.1.services@, f, si);
    let dp = d.1.services@.filter_map(f);
    let i = choose|i: int| 0 <= i < dp.len() && dp[i] == x;
    let df = device_redirect_fn(z.0@, n.0@, own, w);
    assert(df(d) == dp);
    lemma_flat_map_has(z.1.devices@, df, di, i);
    let zp = z.1.devices@.flat_map(df);
    let i2 = choose|i2: int| 0 <= i2 < zp.len() && zp[i2] == x;
    let zf = zone_redirect_fn(n.0@, own, w);
    assert(zf(z) == zp);
    lemma_flat_map_has(n.1.zones@, zf, zi, i2);
    let zs = n.1.zones@.flat_map(zf);
    let i3 = choose|i3: int| 0 <= i3 < zs.len() && zs[i3] == x;
    let head = n.1.services@.filter_map(local_service_fn(ZoneRefView::Mesh, n.1.mesh_ip@, n.0@, n.0@, own, w));
    assert(node_redirects(n.0@, n.1, own, w)[head.len() + i3] == x);
    lemma_node_redirect_listed(config, own, ni, x);
}

} // verus!
