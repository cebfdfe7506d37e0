//! The configuration of the whole mesh: nodes with their zones, devices, VPN interfaces and
//! services, and the global clients.

use vstd::prelude::*;

use crate::entries::{find_key, has_distinct_keys, key_at, keys, keys_distinct, lookup};
use crate::protocol::Protocol;
use crate::text::str_eq;
use crate::types::config_location::{ClientLoc, ConfigLocation, DeviceLoc, NodeLoc, ServiceLoc, VpnClientLoc, VpnLoc, ZoneLoc};
use crate::types::allow_from_ref::AllowFromRef;
use crate::types::identifier::{Identifier, NestedIdentifier};
use crate::types::ip::{Ipv4Addr, Ipv4Interface, Ipv4Network, network_of, same_network};
use crate::types::mac::MacAddress;
use crate::types::port::{Port, ServicePort};
use crate::types::schema_helpers::OneOrManyUnique;
use crate::types::wan_via_target::{WanViaTarget, WanViaTargets};
use crate::types::zone_ref::{ZoneRef, ZoneRefView};

verus! {

broadcast use {vstd::seq_lib::group_seq_properties, vstd::seq::Seq::group_seq_extra};

/// How a service is exposed on a router's WAN zone.
#[derive(Debug, Clone)]
pub struct ServiceWan {
    pub via: WanViaTargets,
    pub sources: OneOrManyUnique<Ipv4Network>,
}

/// A service: a port, its protocols, who may reach it, and how it is exposed on a WAN.
#[derive(Debug, Clone)]
pub struct Service {
    pub port: ServicePort,
    pub proto: OneOrManyUnique<Protocol>,
    pub allow_from: OneOrManyUnique<AllowFromRef>,
    pub wan: Option<ServiceWan>,
}

/// A device in a zone of a node.
#[derive(Debug, Clone)]
pub struct NodeZoneDevice {
    pub ip: Ipv4Addr,
    pub macs: OneOrManyUnique<MacAddress>,
    pub tags: OneOrManyUnique<Identifier>,
    pub services: Vec<(Identifier, Service)>,
}

/// A peer of a VPN interface of a node.
#[derive(Debug, Clone)]
pub struct NodeVpnInterfaceClient {
    pub public_key: String,
    pub ip: Ipv4Addr,
    pub tags: OneOrManyUnique<Identifier>,
    pub services: Vec<(Identifier, Service)>,
}

/// A WireGuard interface of a node with its peers.
#[derive(Debug, Clone)]
pub struct NodeVpnInterface {
    pub listen_port: Port,
    pub address: Ipv4Interface,
    pub clients: Vec<(Identifier, NodeVpnInterfaceClient)>,
    pub tags: OneOrManyUnique<Identifier>,
}

/// A zone (a LAN managed by the operator) of a node.
#[derive(Debug, Clone)]
pub struct NodeZone {
    pub address: Ipv4Interface,
    pub devices: Vec<(Identifier, NodeZoneDevice)>,
    pub tags: OneOrManyUnique<Identifier>,
}

/// A router of the mesh.
#[derive(Debug, Clone)]
pub struct Node {
    pub public_key: String,
    pub endpoint: Ipv4Addr,
    pub listen_port: Port,
    pub mesh_ip: Ipv4Addr,
    pub vpn_interfaces: Vec<(Identifier, NodeVpnInterface)>,
    pub tags: OneOrManyUnique<Identifier>,
    pub services: Vec<(Identifier, Service)>,
    pub zones: Vec<(Identifier, NodeZone)>,
    pub wan_zone: Option<Identifier>,
}

/// A network of a node found by name: a zone or a VPN interface.
pub enum ZoneOrVpnInterface<'a> {
    Zone(&'a NodeZone),
    VpnInterface(&'a NodeVpnInterface),
}

impl<'a> ZoneOrVpnInterface<'a> {
    /// The address of the router on that network.
    pub fn address(&self) -> (r: Ipv4Interface)
        ensures
            r == match self {
                ZoneOrVpnInterface::Zone(z) => z.address,
                ZoneOrVpnInterface::VpnInterface(v) => v.address,
            },
    {
        match self {
            ZoneOrVpnInterface::VpnInterface(v) => v.address,
            ZoneOrVpnInterface::Zone(z) => z.address,
        }
    }
}

/// The node has a zone named `n`.
pub open spec fn is_zone_of(node: Node, n: Seq<char>) -> bool {
    lookup(node.zones@, n) is Some
}

/// The node has no zone but a VPN interface named `n` (zones are looked up first).
pub open spec fn is_vpn_of(node: Node, n: Seq<char>) -> bool {
    lookup(node.zones@, n) is None && lookup(node.vpn_interfaces@, n) is Some
}

/// The node has a zone or a VPN interface named `n`.
pub open spec fn has_network(node: Node, n: Seq<char>) -> bool {
    is_zone_of(node, n) || is_vpn_of(node, n)
}

/// The router's addresses on its zones, then on its VPN interfaces, in order.
pub open spec fn node_addresses(node: Node) -> Seq<Ipv4Interface> {
    node.zones@.map_values(|e: (Identifier, NodeZone)| e.1.address) + node.vpn_interfaces@.map_values(
        |e: (Identifier, NodeVpnInterface)| e.1.address,
    )
}

/// The networks named like the node's zones and VPN interfaces, with the router's address
/// on each, zones first.
pub open spec fn named_addresses(node: Node) -> Seq<(Seq<char>, Ipv4Interface)> {
    node.zones@.map_values(|e: (Identifier, NodeZone)| (e.0@, e.1.address))
        + node.vpn_interfaces@.map_values(|e: (Identifier, NodeVpnInterface)| (e.0@, e.1.address))
}

/// `i` is the first of `s` whose network holds `ip`.
pub open spec fn first_network_for(s: Seq<(Seq<char>, Ipv4Interface)>, ip: u32, i: int) -> bool {
    &&& 0 <= i < s.len()
    &&& same_network(s[i].1@, ip)
    &&& forall|j: int| 0 <= j < i ==> !same_network(s[j].1@, ip)
}

impl Node {
    /// The zone or VPN interface named `name` (zones first).
    pub fn network_by_name(&self, name: &Identifier) -> (r: Option<ZoneOrVpnInterface<'_>>)
        ensures
            match r {
                Some(ZoneOrVpnInterface::Zone(z)) => lookup(self.zones@, name@) == Some(*z),
                Some(ZoneOrVpnInterface::VpnInterface(v)) => lookup(self.zones@, name@) is None
                    && lookup(self.vpn_interfaces@, name@) == Some(*v),
                None => !has_network(*self, name@),
            },
    {
        match find_key(&self.zones, name) {
            Some(i) => Some(ZoneOrVpnInterface::Zone(&self.zones[i].1)),
            None => match find_key(&self.vpn_interfaces, name) {
                Some(i) => Some(ZoneOrVpnInterface::VpnInterface(&self.vpn_interfaces[i].1)),
                None => None,
            },
        }
    }

    /// The first zone or VPN interface (zones first) whose network holds `ip`, with the
    /// router's address on it.
    pub fn network_for_ip(&self, ip: Ipv4Addr) -> (r: Option<(&Identifier, Ipv4Interface)>)
        ensures
            match r {
                Some((n, a)) => exists|i: int|
                    first_network_for(named_addresses(*self), ip@, i) && named_addresses(*self)[i]
                        == (n@, a),
                None => forall|i: int|
                    0 <= i < named_addresses(*self).len() ==> !same_network(
                        #[trigger] named_addresses(*self)[i].1@,
                        ip@,
                    ),
            },
    {
        let ghost s = named_addresses(*self);
        let nz = self.zones.len();
        let mut i: usize = 0;
        while i < nz
            invariant
                i <= nz == self.zones@.len(),
                s == named_addresses(*self),
                forall|j: int| 0 <= j < i ==> !same_network(s[j].1@, ip@),
            decreases nz - i,
        {
            let a = self.zones[i].1.address;
            if a.is_in_same_network(ip) {
                assert(s[i as int] == (self.zones@[i as int].0@, a));
                assert(first_network_for(s, ip@, i as int));
                return Some((&self.zones[i].0, a));
            }
            i = i + 1;
        }
        let mut k: usize = 0;
        while k < self.vpn_interfaces.len()
            invariant
                k <= self.vpn_interfaces@.len(),
                nz == self.zones@.len(),
                s == named_addresses(*self),
                forall|j: int| 0 <= j < nz + k ==> !same_network(s[j].1@, ip@),
            decreases self.vpn_interfaces@.len() - k,
        {
            let a = self.vpn_interfaces[k].1.address;
            if a.is_in_same_network(ip) {
                assert(s[nz + k] == (self.vpn_interfaces@[k as int].0@, a));
                assert(first_network_for(s, ip@, nz + k));
                return Some((&self.vpn_interfaces[k].0, a));
            }
            k = k + 1;
        }
        None
    }

    /// The router's addresses on its zones, then on its VPN interfaces.
    pub fn addresses(&self) -> (r: Vec<Ipv4Interface>)
        ensures
            r@ == node_addresses(*self),
    {
        let mut r: Vec<Ipv4Interface> = Vec::new();
        let mut i: usize = 0;
        while i < self.zones.len()
            invariant
                i <= self.zones@.len(),
                r@ == self.zones@.take(i as int).map_values(|e: (Identifier, NodeZone)| e.1.address),
            decreases self.zones@.len() - i,
        {
            r.push(self.zones[i].1.address);
            proof {
                assert(self.zones@.take(i + 1) =~= self.zones@.take(i as int).push(self.zones@[i as int]));
            }
            i = i + 1;
        }
        assert(self.zones@.take(self.zones@.len() as int) =~= self.zones@);
        let ghost zs = r@;
        let mut k: usize = 0;
        while k < self.vpn_interfaces.len()
            invariant
                k <= self.vpn_interfaces@.len(),
                zs == self.zones@.map_values(|e: (Identifier, NodeZone)| e.1.address),
                r@ == zs + self.vpn_interfaces@.take(k as int).map_values(
                    |e: (Identifier, NodeVpnInterface)| e.1.address,
                ),
            decreases self.vpn_interfaces@.len() - k,
        {
            r.push(self.vpn_interfaces[k].1.address);
            proof {
                assert(self.vpn_interfaces@.take(k + 1) =~= self.vpn_interfaces@.take(k as int).push(
                    self.vpn_interfaces@[k as int],
                ));
            }
            k = k + 1;
        }
        assert(self.vpn_interfaces@.take(self.vpn_interfaces@.len() as int) =~= self.vpn_interfaces@);
        r
    }

    /// The networks of the router's zones and VPN interfaces.
    pub fn networks(&self) -> (r: Vec<Ipv4Network>)
        ensures
            r@.len() == node_addresses(*self).len(),
            forall|i: int| 0 <= i < r@.len() ==> (#[trigger] r@[i])@ == network_of(node_addresses(*self)[i]@),
    {
        let a = self.addresses();
        let mut r: Vec<Ipv4Network> = Vec::new();
        let mut i: usize = 0;
        while i < a.len()
            invariant
                i <= a@.len(),
                a@ == node_addresses(*self),
                r@.len() == i,
                forall|j: int| 0 <= j < i ==> (#[trigger] r@[j])@ == network_of(a@[j]@),
            decreases a@.len() - i,
        {
            r.push(a[i].network());
            i = i + 1;
        }
        r
    }

    /// The router's own addresses: its mesh address as a host, then `addresses`.
    pub fn host_interfaces(&self) -> (r: Vec<Ipv4Interface>)
        ensures
            r@.len() == node_addresses(*self).len() + 1,
            r@[0]@ == (self.mesh_ip@, 32u8),
            r@.skip(1) == node_addresses(*self),
    {
        let mut r: Vec<Ipv4Interface> = Vec::new();
        r.push(Ipv4Interface::host(self.mesh_ip));
        let a = self.addresses();
        let mut a = a;
        let ghost av = a@;
        r.append(&mut a);
        assert(r@.skip(1) =~= av);
        r
    }
}

/// A client known to the whole mesh: a phone or laptop that may roam between nodes.
#[derive(Debug, Clone)]
pub struct Client {
    pub mesh_ip: Option<Ipv4Addr>,
    pub public_key: Option<String>,
    pub macs: OneOrManyUnique<MacAddress>,
    pub ips: Vec<(Identifier, Vec<(Identifier, Ipv4Addr)>)>,
    pub services: Vec<(Identifier, Service)>,
    pub tags: OneOrManyUnique<Identifier>,
}

/// Why a client cannot be reached through a `wan.via` target.
#[derive(Debug, Clone)]
pub enum WanResolveError {
    AmbiguousVpn { candidates: Vec<Identifier> },
    Unreachable,
    QualifiedNetworkMissing { network: Identifier },
    QualifiedClientNotOnNetwork { network: Identifier },
}

/// What a `WanResolveError` says.
pub enum WanErrorView {
    AmbiguousVpn(Seq<Seq<char>>),
    Unreachable,
    QualifiedNetworkMissing(Seq<char>),
    QualifiedClientNotOnNetwork(Seq<char>),
}

impl View for WanResolveError {
    type V = WanErrorView;

    open spec fn view(&self) -> WanErrorView {
        match self {
            WanResolveError::AmbiguousVpn { candidates } => WanErrorView::AmbiguousVpn(
                candidates@.map_values(|c: Identifier| c@),
            ),
            WanResolveError::Unreachable => WanErrorView::Unreachable,
            WanResolveError::QualifiedNetworkMissing { network } => WanErrorView::QualifiedNetworkMissing(
                network@,
            ),
            WanResolveError::QualifiedClientNotOnNetwork { network } =>
                WanErrorView::QualifiedClientNotOnNetwork(network@),
        }
    }
}

/// Where a redirect for a client service points: an address and the zone it lies in.
#[derive(Debug, Clone)]
pub struct WanResolution {
    pub dest_ip: Ipv4Addr,
    pub dest_zone: ZoneRef,
}

/// The outcome of a resolution, as views.
pub open spec fn resolution_view(r: Result<WanResolution, WanResolveError>) -> Result<
    (u32, ZoneRefView),
    WanErrorView,
> {
    match r {
        Ok(w) => Ok((w.dest_ip@, w.dest_zone@)),
        Err(e) => Err(e@),
    }
}

/// Entries of a client's `ips` for a node that name a zone of the node.
pub open spec fn zone_entry(node: Node) -> spec_fn((Identifier, Ipv4Addr)) -> bool {
    |e: (Identifier, Ipv4Addr)| is_zone_of(node, e.0@)
}

/// Entries of a client's `ips` for a node that name a VPN interface of the node.
pub open spec fn vpn_entry(node: Node) -> spec_fn((Identifier, Ipv4Addr)) -> bool {
    |e: (Identifier, Ipv4Addr)| is_vpn_of(node, e.0@)
}

/// How a client is reached through a bare target `node_name`: its mesh address if it has
/// one; else its address on a zone of the node (the last such entry); else its address on
/// the node's only VPN interface it has one on. No address, or addresses on several VPN
/// interfaces, is an error.
pub open spec fn resolve_bare(client: Client, node_name: Seq<char>, node: Node) -> Result<
    (u32, ZoneRefView),
    WanErrorView,
> {
    match client.mesh_ip {
        Some(m) => Ok((m@, ZoneRefView::Mesh)),
        None => match lookup(client.ips@, node_name) {
            None => Err(WanErrorView::Unreachable),
            Some(nets) => {
                let zs = nets@.filter(zone_entry(node));
                let vs = nets@.filter(vpn_entry(node));
                if zs.len() > 0 {
                    Ok((zs.last().1@, ZoneRefView::Named(zs.last().0@)))
                } else if vs.len() == 0 {
                    Err(WanErrorView::Unreachable)
                } else if vs.len() == 1 {
                    Ok((vs[0].1@, ZoneRefView::Named(vs[0].0@)))
                } else {
                    Err(WanErrorView::AmbiguousVpn(keys(vs)))
                }
            },
        },
    }
}

/// How a client is reached through a qualified target `node_name.local`: the network must
/// exist on the node and the client must have an address on it.
pub open spec fn resolve_qualified(
    client: Client,
    node_name: Seq<char>,
    local: Seq<char>,
    node: Node,
) -> Result<(u32, ZoneRefView), WanErrorView> {
    if !has_network(node, local) {
        Err(WanErrorView::QualifiedNetworkMissing(local))
    } else {
        match lookup(client.ips@, node_name) {
            None => Err(WanErrorView::QualifiedClientNotOnNetwork(local)),
            Some(nets) => match lookup(nets@, local) {
                None => Err(WanErrorView::QualifiedClientNotOnNetwork(local)),
                Some(ip) => Ok((ip@, ZoneRefView::Named(local))),
            },
        }
    }
}

/// How a client is reached through a `wan.via` target on `node`.
pub open spec fn resolve_target(client: Client, via: WanViaTarget, node: Node) -> Result<
    (u32, ZoneRefView),
    WanErrorView,
> {
    match via {
        WanViaTarget::Bare(n) => resolve_bare(client, n@, node),
        WanViaTarget::Qualified(q) => resolve_qualified(client, q.node@, q.local@, node),
    }
}

impl Client {
    /// The client's address on network `network_name` of node `node_name`.
    pub fn network_by_name(&self, node_name: &Identifier, network_name: &Identifier) -> (r: Option<
        Ipv4Addr,
    >)
        ensures
            r == match lookup(self.ips@, node_name@) {
                Some(nets) => lookup(nets@, network_name@),
                None => None,
            },
    {
        match find_key(&self.ips, node_name) {
            Some(i) => match find_key(&self.ips[i].1, network_name) {
                Some(j) => Some(self.ips[i].1[j].1),
                None => None,
            },
            None => None,
        }
    }

    fn resolve_wan(&self, node_name: &Identifier, node: &Node) -> (r: Result<
        WanResolution,
        WanResolveError,
    >)
        ensures
            resolution_view(r) == resolve_bare(*self, node_name@, *node),
    {
        if let Some(mesh_ip) = self.mesh_ip {
            return Ok(WanResolution { dest_ip: mesh_ip, dest_zone: ZoneRef::Mesh });
        }
        let idx = match find_key(&self.ips, node_name) {
            Some(i) => i,
            None => return Err(WanResolveError::Unreachable),
        };
        let nets = &self.ips[idx].1;
        let ghost pz = zone_entry(*node);
        let ghost pv = vpn_entry(*node);
        let mut zone_ip: Option<(Identifier, Ipv4Addr)> = None;
        let mut vpn: Vec<(Identifier, Ipv4Addr)> = Vec::new();
        let mut i: usize = 0;
        while i < nets.len()
            invariant
                i <= nets@.len(),
                pz == zone_entry(*node),
                pv == vpn_entry(*node),
                vpn@ == nets@.take(i as int).filter(pv),
                match zone_ip {
                    Some(z) => nets@.take(i as int).filter(pz).len() > 0 && z == nets@.take(
                        i as int,
                    ).filter(pz).last(),
                    None => nets@.take(i as int).filter(pz).len() == 0,
                },
            decreases nets@.len() - i,
        {
            let entry = (nets[i].0.clone(), nets[i].1);
            assert(entry == nets@[i as int]);
            assert(nets@.take(i + 1) =~= nets@.take(i as int).push(nets@[i as int]));
            match node.network_by_name(&nets[i].0) {
                Some(ZoneOrVpnInterface::Zone(_)) => {
                    assert(pz(entry));
                    assert(!pv(entry));
                    zone_ip = Some(entry);
                },
                Some(ZoneOrVpnInterface::VpnInterface(_)) => {
                    assert(!pz(entry));
                    assert(pv(entry));
                    vpn.push(entry);
                },
                None => {
                    assert(!pz(entry));
                    assert(!pv(entry));
                },
            }
            i = i + 1;
        }
        assert(nets@.take(nets@.len() as int) =~= nets@);
        assert(lookup(self.ips@, node_name@) == Some(*nets));
        if let Some((zone_name, ip)) = zone_ip {
            return Ok(WanResolution { dest_ip: ip, dest_zone: ZoneRef::Named(zone_name) });
        }
        if vpn.len() == 0 {
            return Err(WanResolveError::Unreachable);
        }
        if vpn.len() == 1 {
            let name = vpn[0].0.clone();
            return Ok(WanResolution { dest_ip: vpn[0].1, dest_zone: ZoneRef::Named(name) });
        }
        let mut candidates: Vec<Identifier> = Vec::new();
        let mut k: usize = 0;
        while k < vpn.len()
            invariant
                k <= vpn@.len(),
                candidates@.map_values(|c: Identifier| c@) == keys(vpn@.take(k as int)),
            decreases vpn@.len() - k,
        {
            candidates.push(vpn[k].0.clone());
            proof {
                assert(vpn@.take(k + 1) =~= vpn@.take(k as int).push(vpn@[k as int]));
                assert(keys(vpn@.take(k + 1)) =~= keys(vpn@.take(k as int)).push(vpn@[k as int].0@));
            }
            k = k + 1;
        }
        assert(vpn@.take(vpn@.len() as int) =~= vpn@);
        Err(WanResolveError::AmbiguousVpn { candidates })
    }

    fn resolve_wan_qualified(&self, node_name: &Identifier, local_name: &Identifier, node: &Node) -> (r:
        Result<WanResolution, WanResolveError>)
        ensures
            resolution_view(r) == resolve_qualified(*self, node_name@, local_name@, *node),
    {
        if node.network_by_name(local_name).is_none() {
            return Err(WanResolveError::QualifiedNetworkMissing { network: local_name.clone() });
        }
        match self.network_by_name(node_name, local_name) {
            Some(ip) => Ok(WanResolution { dest_ip: ip, dest_zone: ZoneRef::Named(local_name.clone()) }),
            None => Err(WanResolveError::QualifiedClientNotOnNetwork { network: local_name.clone() }),
        }
    }

    /// Where a redirect through `via` on `node` should point for this client.
    pub fn resolve_wan_target(&self, via: &WanViaTarget, node: &Node) -> (r: Result<
        WanResolution,
        WanResolveError,
    >)
        ensures
            resolution_view(r) == resolve_target(*self, *via, *node),
    {
        match via {
            WanViaTarget::Bare(node_name) => self.resolve_wan(node_name, node),
            WanViaTarget::Qualified(q) => self.resolve_wan_qualified(&q.node, &q.local, node),
        }
    }
}

/// A client with a mesh address is reached through it, whatever bare target names it and
/// whatever addresses it has on that node's networks.
pub proof fn lemma_mesh_ip_wins(client: Client, node_name: Seq<char>, node: Node)
    requires
        client.mesh_ip is Some,
    ensures
        resolve_bare(client, node_name, node) == Ok::<(u32, ZoneRefView), WanErrorView>(
            (client.mesh_ip->0@, ZoneRefView::Mesh),
        ),
{
}

/// A client reached through a qualified target lands in the zone that the target names.
pub proof fn lemma_qualified_lands_in_named_zone(
    client: Client,
    node_name: Seq<char>,
    local: Seq<char>,
    node: Node,
)
    ensures
        resolve_qualified(client, node_name, local, node) matches Ok((_, z)) ==> z
            == ZoneRefView::Named(local) && has_network(node, local),
{
}

/// The whole configuration.
#[derive(Debug, Clone)]
pub struct Config {
    pub mesh_network: Ipv4Network,
    pub nodes: Vec<(Identifier, Node)>,
    pub clients: Vec<(Identifier, Client)>,
}

/// Values whose maps have distinct names and whose sets hold each value once.
pub trait WellFormed: Sized {
    /// Every map of the value has distinct names and every set holds each value once.
    spec fn well_formed(&self) -> bool;

    /// Whether the value is well formed.
    fn is_well_formed(&self) -> (r: bool)
        ensures
            r == self.well_formed();
}

/// The entries have distinct names, and each value is well formed.
pub open spec fn entries_well_formed<T: WellFormed>(m: Seq<(Identifier, T)>) -> bool {
    &&& keys_distinct(m)
    &&& forall|i: int| 0 <= i < m.len() ==> (#[trigger] m[i]).1.well_formed()
}

/// Whether the entries have distinct names and each value is well formed.
pub fn entries_are_well_formed<T: WellFormed>(m: &Vec<(Identifier, T)>) -> (r: bool)
    ensures
        r == entries_well_formed(m@),
{
    if !has_distinct_keys(m) {
        return false;
    }
    let mut i: usize = 0;
    while i < m.len()
        invariant
            i <= m@.len(),
            keys_distinct(m@),
            forall|j: int| 0 <= j < i ==> (#[trigger] m@[j]).1.well_formed(),
        decreases m@.len() - i,
    {
        if !m[i].1.is_well_formed() {
            return false;
        }
        i = i + 1;
    }
    true
}

impl WellFormed for Service {
    /// Its protocols, its `allowFrom` references and its WAN sources each hold every value
    /// once.
    open spec fn well_formed(&self) -> bool {
        &&& self.proto.is_unique()
        &&& self.allow_from.is_unique()
        &&& (self.wan matches Some(w) ==> w.sources.is_unique())
    }

    fn is_well_formed(&self) -> (r: bool) {
        let sources = match &self.wan {
            Some(w) => w.sources.has_unique_values(),
            None => true,
        };
        self.proto.has_unique_values() && self.allow_from.has_unique_values() && sources
    }
}

impl WellFormed for NodeZoneDevice {
    open spec fn well_formed(&self) -> bool {
        &&& self.macs.is_unique()
        &&& self.tags.is_unique()
        &&& entries_well_formed(self.services@)
    }

    fn is_well_formed(&self) -> (r: bool) {
        self.macs.has_unique_values() && self.tags.has_unique_values() && entries_are_well_formed(&self.services)
    }
}

impl WellFormed for NodeVpnInterfaceClient {
    open spec fn well_formed(&self) -> bool {
        &&& self.tags.is_unique()
        &&& entries_well_formed(self.services@)
    }

    fn is_well_formed(&self) -> (r: bool) {
        self.tags.has_unique_values() && entries_are_well_formed(&self.services)
    }
}

impl WellFormed for NodeVpnInterface {
    open spec fn well_formed(&self) -> bool {
        &&& entries_well_formed(self.clients@)
        &&& self.tags.is_unique()
    }

    fn is_well_formed(&self) -> (r: bool) {
        entries_are_well_formed(&self.clients) && self.tags.has_unique_values()
    }
}

impl WellFormed for NodeZone {
    open spec fn well_formed(&self) -> bool {
        &&& entries_well_formed(self.devices@)
        &&& self.tags.is_unique()
    }

    fn is_well_formed(&self) -> (r: bool) {
        entries_are_well_formed(&self.devices) && self.tags.has_unique_values()
    }
}

impl WellFormed for Node {
    open spec fn well_formed(&self) -> bool {
        &&& entries_well_formed(self.zones@)
        &&& entries_well_formed(self.vpn_interfaces@)
        &&& entries_well_formed(self.services@)
        &&& self.tags.is_unique()
    }

    fn is_well_formed(&self) -> (r: bool) {
        entries_are_well_formed(&self.zones) && entries_are_well_formed(&self.vpn_interfaces)
            && entries_are_well_formed(&self.services) && self.tags.has_unique_values()
    }
}

impl WellFormed for Vec<(Identifier, Ipv4Addr)> {
    /// The networks of a client on one node have distinct names.
    open spec fn well_formed(&self) -> bool {
        keys_distinct(self@)
    }

    fn is_well_formed(&self) -> (r: bool) {
        has_distinct_keys(self)
    }
}

impl WellFormed for Client {
    open spec fn well_formed(&self) -> bool {
        &&& entries_well_formed(self.ips@)
        &&& self.macs.is_unique()
        &&& self.tags.is_unique()
        &&& entries_well_formed(self.services@)
    }

    fn is_well_formed(&self) -> (r: bool) {
        entries_are_well_formed(&self.ips) && self.macs.has_unique_values() && self.tags.has_unique_values()
            && entries_are_well_formed(&self.services)
    }
}

impl WellFormed for Config {
    /// A configuration as its file describes it: every map has distinct names and every set
    /// holds each value once, at every level.
    open spec fn well_formed(&self) -> bool {
        &&& entries_well_formed(self.nodes@)
        &&& entries_well_formed(self.clients@)
    }

    fn is_well_formed(&self) -> (r: bool) {
        entries_are_well_formed(&self.nodes) && entries_are_well_formed(&self.clients)
    }
}

/// `i` is the first node whose public key is `key`.
pub open spec fn first_node_with_key(nodes: Seq<(Identifier, Node)>, key: Seq<char>, i: int) -> bool {
    &&& 0 <= i < nodes.len()
    &&& nodes[i].1.public_key@ == key
    &&& forall|j: int| 0 <= j < i ==> nodes[j].1.public_key@ != key
}

impl Config {
    /// The name of the (first) node whose public key is `pubkey`.
    pub fn find_node_name_by_public_key(&self, pubkey: &str) -> (r: Option<&Identifier>)
        ensures
            match r {
                Some(n) => exists|i: int|
                    first_node_with_key(self.nodes@, pubkey@, i) && *n == self.nodes@[i].0,
                None => forall|i: int|
                    0 <= i < self.nodes@.len() ==> (#[trigger] self.nodes@[i]).1.public_key@
                        != pubkey@,
            },
    {
        let mut i: usize = 0;
        while i < self.nodes.len()
            invariant
                i <= self.nodes@.len(),
                forall|j: int| 0 <= j < i ==> self.nodes@[j].1.public_key@ != pubkey@,
            decreases self.nodes@.len() - i,
        {
            if str_eq(self.nodes[i].1.public_key.as_str(), pubkey) {
                assert(first_node_with_key(self.nodes@, pubkey@, i as int));
                return Some(&self.nodes[i].0);
            }
            i = i + 1;
        }
        None
    }
}

/// Who hosts a service, and under which name.
#[derive(Debug)]
pub enum ServiceHost {
    Node { node_name: Identifier, service_name: Identifier },
    Device {
        node_name: Identifier,
        zone_name: Identifier,
        device_name: Identifier,
        service_name: Identifier,
    },
    VpnClient {
        node_name: Identifier,
        vpn_interface_name: Identifier,
        client_name: Identifier,
        service_name: Identifier,
    },
    Client { client_name: Identifier, service_name: Identifier },
}

/// The location of a place inside a hosted service.
pub open spec fn host_location(h: ServiceHost, l: ServiceLoc) -> ConfigLocation {
    match h {
        ServiceHost::Node { node_name, service_name } => ConfigLocation::Node(
            node_name,
            NodeLoc::Service(service_name, l),
        ),
        ServiceHost::Device { node_name, zone_name, device_name, service_name } =>
            ConfigLocation::Node(
                node_name,
                NodeLoc::Zone(zone_name, ZoneLoc::Device(device_name, DeviceLoc::Service(service_name, l))),
            ),
        ServiceHost::VpnClient { node_name, vpn_interface_name, client_name, service_name } =>
            ConfigLocation::Node(
                node_name,
                NodeLoc::VpnInterface(
                    vpn_interface_name,
                    VpnLoc::Client(client_name, VpnClientLoc::Service(service_name, l)),
                ),
            ),
        ServiceHost::Client { client_name, service_name } => ConfigLocation::Client(
            client_name,
            ClientLoc::Service(service_name, l),
        ),
    }
}

impl ServiceHost {
    /// The location of a place inside the hosted service.
    pub fn to_location(&self, l: ServiceLoc) -> (r: ConfigLocation)
        ensures
            r == host_location(*self, l),
    {
        match self {
            ServiceHost::Node { node_name, service_name } => ConfigLocation::Node(
                node_name.clone(),
                NodeLoc::Service(service_name.clone(), l),
            ),
            ServiceHost::Device { node_name, zone_name, device_name, service_name } =>
                ConfigLocation::Node(
                    node_name.clone(),
                    NodeLoc::Zone(
                        zone_name.clone(),
                        ZoneLoc::Device(device_name.clone(), DeviceLoc::Service(service_name.clone(), l)),
                    ),
                ),
            ServiceHost::VpnClient { node_name, vpn_interface_name, client_name, service_name } =>
                ConfigLocation::Node(
                    node_name.clone(),
                    NodeLoc::VpnInterface(
                        vpn_interface_name.clone(),
                        VpnLoc::Client(client_name.clone(), VpnClientLoc::Service(service_name.clone(), l)),
                    ),
                ),
            ServiceHost::Client { client_name, service_name } => ConfigLocation::Client(
                client_name.clone(),
                ClientLoc::Service(service_name.clone(), l),
            ),
        }
    }
}

pub open spec fn node_service_fn(node: Identifier) -> spec_fn((Identifier, Service)) -> (Service, ServiceHost) {
    |s: (Identifier, Service)| (s.1, ServiceHost::Node { node_name: node, service_name: s.0 })
}

pub open spec fn device_service_fn(node: Identifier, zone: Identifier, device: Identifier) -> spec_fn(
    (Identifier, Service),
) -> (Service, ServiceHost) {
    |s: (Identifier, Service)|
        (
            s.1,
            ServiceHost::Device { node_name: node, zone_name: zone, device_name: device, service_name: s.0 },
        )
}

pub open spec fn device_services_fn(node: Identifier, zone: Identifier) -> spec_fn((Identifier, NodeZoneDevice)) -> Seq<
    (Service, ServiceHost),
> {
    |d: (Identifier, NodeZoneDevice)| d.1.services@.map_values(device_service_fn(node, zone, d.0))
}

pub open spec fn zone_services_fn(node: Identifier) -> spec_fn((Identifier, NodeZone)) -> Seq<(Service, ServiceHost)> {
    |z: (Identifier, NodeZone)| z.1.devices@.flat_map(device_services_fn(node, z.0))
}

pub open spec fn peer_service_fn(node: Identifier, vpn: Identifier, client: Identifier) -> spec_fn(
    (Identifier, Service),
) -> (Service, ServiceHost) {
    |s: (Identifier, Service)|
        (
            s.1,
            ServiceHost::VpnClient {
                node_name: node,
                vpn_interface_name: vpn,
                client_name: client,
                service_name: s.0,
            },
        )
}

pub open spec fn peer_services_fn(node: Identifier, vpn: Identifier) -> spec_fn((Identifier, NodeVpnInterfaceClient)) -> Seq<
    (Service, ServiceHost),
> {
    |c: (Identifier, NodeVpnInterfaceClient)| c.1.services@.map_values(peer_service_fn(node, vpn, c.0))
}

pub open spec fn vpn_services_fn(node: Identifier) -> spec_fn((Identifier, NodeVpnInterface)) -> Seq<(Service, ServiceHost)> {
    |v: (Identifier, NodeVpnInterface)| v.1.clients@.flat_map(peer_services_fn(node, v.0))
}

pub open spec fn node_services_fn() -> spec_fn((Identifier, Node)) -> Seq<(Service, ServiceHost)> {
    |n: (Identifier, Node)|
        n.1.services@.map_values(node_service_fn(n.0)) + n.1.zones@.flat_map(zone_services_fn(n.0))
            + n.1.vpn_interfaces@.flat_map(vpn_services_fn(n.0))
}

pub open spec fn client_service_fn(client: Identifier) -> spec_fn((Identifier, Service)) -> (Service, ServiceHost) {
    |s: (Identifier, Service)| (s.1, ServiceHost::Client { client_name: client, service_name: s.0 })
}

pub open spec fn client_services_fn() -> spec_fn((Identifier, Client)) -> Seq<(Service, ServiceHost)> {
    |c: (Identifier, Client)| c.1.services@.map_values(client_service_fn(c.0))
}

/// Every service of the configuration with its host: each node's own services, its
/// devices' and its VPN peers', then the clients'.
pub open spec fn config_services(config: Config) -> Seq<(Service, ServiceHost)> {
    config.nodes@.flat_map(node_services_fn()) + config.clients@.flat_map(client_services_fn())
}

/// Appends the services of a list with their hosts.
fn push_services<'a>(
    out: &mut Vec<(&'a Service, ServiceHost)>,
    services: &'a Vec<(Identifier, Service)>,
    host: &ServiceHost,
)
    ensures
        final(out)@.map_values(|p: (&Service, ServiceHost)| (*p.0, p.1)) == old(out)@.map_values(
            |p: (&Service, ServiceHost)| (*p.0, p.1),
        ) + services@.map_values(
            |s: (Identifier, Service)| (s.1, with_service_name(*host, s.0)),
        ),
{
    let ghost o = out@.map_values(|p: (&Service, ServiceHost)| (*p.0, p.1));
    let ghost f = |s: (Identifier, Service)| (s.1, with_service_name(*host, s.0));
    let mut i: usize = 0;
    while i < services.len()
        invariant
            i <= services@.len(),
            f == (|s: (Identifier, Service)| (s.1, with_service_name(*host, s.0))),
            out@.map_values(|p: (&Service, ServiceHost)| (*p.0, p.1)) == o + services@.take(
                i as int,
            ).map_values(f),
        decreases services@.len() - i,
    {
        let ghost before = out@;
        let h = host.renamed(&services[i].0);
        out.push((&services[i].1, h));
        proof {
            assert(services@.take(i + 1) =~= services@.take(i as int).push(services@[i as int]));
            assert(services@.take(i + 1).map_values(f) =~= services@.take(i as int).map_values(f).push(
                f(services@[i as int]),
            ));
            assert(out@.map_values(|p: (&Service, ServiceHost)| (*p.0, p.1)) =~= before.map_values(
                |p: (&Service, ServiceHost)| (*p.0, p.1),
            ).push(f(services@[i as int])));
        }
        i = i + 1;
    }
    assert(services@.take(services@.len() as int) =~= services@);
}

/// The host with another service name.
pub open spec fn with_service_name(h: ServiceHost, n: Identifier) -> ServiceHost {
    match h {
        ServiceHost::Node { node_name, .. } => ServiceHost::Node { node_name, service_name: n },
        ServiceHost::Device { node_name, zone_name, device_name, .. } => ServiceHost::Device {
            node_name,
            zone_name,
            device_name,
            service_name: n,
        },
        ServiceHost::VpnClient { node_name, vpn_interface_name, client_name, .. } =>
            ServiceHost::VpnClient { node_name, vpn_interface_name, client_name, service_name: n },
        ServiceHost::Client { client_name, .. } => ServiceHost::Client { client_name, service_name: n },
    }
}

impl ServiceHost {
    /// The same host for the service `n`.
    pub fn renamed(&self, n: &Identifier) -> (r: ServiceHost)
        ensures
            r == with_service_name(*self, *n),
    {
        match self {
            ServiceHost::Node { node_name, .. } => ServiceHost::Node {
                node_name: node_name.clone(),
                service_name: n.clone(),
            },
            ServiceHost::Device { node_name, zone_name, device_name, .. } => ServiceHost::Device {
                node_name: node_name.clone(),
                zone_name: zone_name.clone(),
                device_name: device_name.clone(),
                service_name: n.clone(),
            },
            ServiceHost::VpnClient { node_name, vpn_interface_name, client_name, .. } =>
                ServiceHost::VpnClient {
                    node_name: node_name.clone(),
                    vpn_interface_name: vpn_interface_name.clone(),
                    client_name: client_name.clone(),
                    service_name: n.clone(),
                },
            ServiceHost::Client { client_name, .. } => ServiceHost::Client {
                client_name: client_name.clone(),
                service_name: n.clone(),
            },
        }
    }
}

/// Appends a node's own services.
pub(crate) fn push_node_services<'a>(
    out: &mut Vec<(&'a Service, ServiceHost)>,
    node_name: &Identifier,
    services: &'a Vec<(Identifier, Service)>,
)
    ensures
        final(out)@.map_values(|p: (&Service, ServiceHost)| (*p.0, p.1)) == old(out)@.map_values(
            |p: (&Service, ServiceHost)| (*p.0, p.1),
        ) + services@.map_values(node_service_fn(*node_name)),
{
    let placeholder = node_name.clone();
    let host = ServiceHost::Node { node_name: node_name.clone(), service_name: placeholder };
    push_services(out, services, &host);
    assert(services@.map_values(|s: (Identifier, Service)| (s.1, with_service_name(host, s.0)))
        =~= services@.map_values(node_service_fn(*node_name)));
}

/// Appends the services of a node's devices, zone by zone.
#[verifier::spinoff_prover]
#[verifier::rlimit(40)]
pub(crate) fn push_zones_services<'a>(
    out: &mut Vec<(&'a Service, ServiceHost)>,
    node_name: &Identifier,
    zones: &'a Vec<(Identifier, NodeZone)>,
)
    ensures
        final(out)@.map_values(|p: (&Service, ServiceHost)| (*p.0, p.1)) == old(out)@.map_values(
            |p: (&Service, ServiceHost)| (*p.0, p.1),
        ) + zones@.flat_map(zone_services_fn(*node_name)),
{
    let ghost pf = |p: (&Service, ServiceHost)| (*p.0, p.1);
    let ghost start = out@.map_values(pf);
    let mut zi: usize = 0;
    while zi < zones.len()
        invariant
            zi <= zones@.len(),
            pf == (|p: (&Service, ServiceHost)| (*p.0, p.1)),
            start == old(out)@.map_values(pf),
            out@.map_values(pf) == start + zones@.take(zi as int).flat_map(zone_services_fn(*node_name)),
        decreases zones@.len() - zi,
    {
        let z = &zones[zi];
        let ghost zb = out@.map_values(pf);
        let mut di: usize = 0;
        while di < z.1.devices.len()
            invariant
                di <= z.1.devices@.len(),
                pf == (|p: (&Service, ServiceHost)| (*p.0, p.1)),
                out@.map_values(pf) == zb + z.1.devices@.take(di as int).flat_map(
                    device_services_fn(*node_name, z.0),
                ),
            decreases z.1.devices@.len() - di,
        {
            let d = &z.1.devices[di];
            let host = ServiceHost::Device {
                node_name: node_name.clone(),
                zone_name: z.0.clone(),
                device_name: d.0.clone(),
                service_name: d.0.clone(),
            };
            push_services(out, &d.1.services, &host);
            assert(d.1.services@.map_values(
                |s: (Identifier, Service)| (s.1, with_service_name(host, s.0)),
            ) =~= d.1.services@.map_values(device_service_fn(*node_name, z.0, d.0)));
            di = di + 1;
        }
        assert(z.1.devices@.take(z.1.devices@.len() as int) =~= z.1.devices@);
        zi = zi + 1;
    }
    assert(zones@.take(zones@.len() as int) =~= zones@);
}

/// Appends the services of a node's VPN peers, interface by interface.
#[verifier::spinoff_prover]
#[verifier::rlimit(40)]
pub(crate) fn push_vpns_services<'a>(
    out: &mut Vec<(&'a Service, ServiceHost)>,
    node_name: &Identifier,
    vpns: &'a Vec<(Identifier, NodeVpnInterface)>,
)
    ensures
        final(out)@.map_values(|p: (&Service, ServiceHost)| (*p.0, p.1)) == old(out)@.map_values(
            |p: (&Service, ServiceHost)| (*p.0, p.1),
        ) + vpns@.flat_map(vpn_services_fn(*node_name)),
{
    let ghost pf = |p: (&Service, ServiceHost)| (*p.0, p.1);
    let ghost start = out@.map_values(pf);
    let mut vi: usize = 0;
    while vi < vpns.len()
        invariant
            vi <= vpns@.len(),
            pf == (|p: (&Service, ServiceHost)| (*p.0, p.1)),
            start == old(out)@.map_values(pf),
            out@.map_values(pf) == start + vpns@.take(vi as int).flat_map(vpn_services_fn(*node_name)),
        decreases vpns@.len() - vi,
    {
        let v = &vpns[vi];
        let ghost vb = out@.map_values(pf);
        let mut ci: usize = 0;
        while ci < v.1.clients.len()
            invariant
                ci <= v.1.clients@.len(),
                pf == (|p: (&Service, ServiceHost)| (*p.0, p.1)),
                out@.map_values(pf) == vb + v.1.clients@.take(ci as int).flat_map(
                    peer_services_fn(*node_name, v.0),
                ),
            decreases v.1.clients@.len() - ci,
        {
            let c = &v.1.clients[ci];
            let host = ServiceHost::VpnClient {
                node_name: node_name.clone(),
                vpn_interface_name: v.0.clone(),
                client_name: c.0.clone(),
                service_name: c.0.clone(),
            };
            push_services(out, &c.1.services, &host);
            assert(c.1.services@.map_values(
                |s: (Identifier, Service)| (s.1, with_service_name(host, s.0)),
            ) =~= c.1.services@.map_values(peer_service_fn(*node_name, v.0, c.0)));
            ci = ci + 1;
        }
        assert(v.1.clients@.take(v.1.clients@.len() as int) =~= v.1.clients@);
        vi = vi + 1;
    }
    assert(vpns@.take(vpns@.len() as int) =~= vpns@);
}

/// Appends the clients' services.
#[verifier::spinoff_prover]
#[verifier::rlimit(40)]
pub(crate) fn push_clients_services<'a>(
    out: &mut Vec<(&'a Service, ServiceHost)>,
    clients: &'a Vec<(Identifier, Client)>,
)
    ensures
        final(out)@.map_values(|p: (&Service, ServiceHost)| (*p.0, p.1)) == old(out)@.map_values(
            |p: (&Service, ServiceHost)| (*p.0, p.1),
        ) + clients@.flat_map(client_services_fn()),
{
    let ghost pf = |p: (&Service, ServiceHost)| (*p.0, p.1);
    let ghost head = out@.map_values(pf);
    let mut ci: usize = 0;
    while ci < clients.len()
        invariant
            ci <= clients@.len(),
            pf == (|p: (&Service, ServiceHost)| (*p.0, p.1)),
            head == old(out)@.map_values(pf),
            out@.map_values(pf) == head + clients@.take(ci as int).flat_map(client_services_fn()),
        decreases clients@.len() - ci,
    {
        let c = &clients[ci];
        let host = ServiceHost::Client { client_name: c.0.clone(), service_name: c.0.clone() };
        push_services(out, &c.1.services, &host);
        assert(c.1.services@.map_values(
            |s: (Identifier, Service)| (s.1, with_service_name(host, s.0)),
        ) =~= c.1.services@.map_values(client_service_fn(c.0)));
        ci = ci + 1;
    }
    assert(clients@.take(clients@.len() as int) =~= clients@);
}

impl Config {
    /// Every service of the configuration with its host.
    #[verifier::spinoff_prover]
    #[verifier::rlimit(40)]
    pub fn services(&self) -> (r: Vec<(&Service, ServiceHost)>)
        ensures
            r@.map_values(|p: (&Service, ServiceHost)| (*p.0, p.1)) == config_services(*self),
    {
        let ghost pf = |p: (&Service, ServiceHost)| (*p.0, p.1);
        let mut r: Vec<(&Service, ServiceHost)> = Vec::new();
        let mut ni: usize = 0;
        while ni < self.nodes.len()
            invariant
                ni <= self.nodes@.len(),
                pf == (|p: (&Service, ServiceHost)| (*p.0, p.1)),
                r@.map_values(pf) == self.nodes@.take(ni as int).flat_map(node_services_fn()),
            decreases self.nodes@.len() - ni,
        {
            let n = &self.nodes[ni];
            let ghost before = r@.map_values(pf);
            push_node_services(&mut r, &n.0, &n.1.services);
            push_zones_services(&mut r, &n.0, &n.1.zones);
            push_vpns_services(&mut r, &n.0, &n.1.vpn_interfaces);
            assert(r@.map_values(pf) =~= before + node_services_fn()(*n));
            ni = ni + 1;
        }
        assert(self.nodes@.take(self.nodes@.len() as int) =~= self.nodes@);
        assert(r@.map_values(pf) == self.nodes@.flat_map(node_services_fn()));
        push_clients_services(&mut r, &self.clients);
        r
    }
}

} // verus!
