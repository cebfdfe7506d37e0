//! What each `allowFrom` reference stands for, seen from the node being configured: the
//! networks it names and the zone each lies in.
//!
//! A node's name or tag stands for the networks of its zones and VPN interfaces; a qualified
//! name `Node.local` for one zone or VPN interface (its network) or one device or VPN peer
//! (its address); `$node` for the addresses of the configured node itself; a client's name
//! or tag for its addresses, in the mesh zone unless they lie on the configured node.

use vstd::prelude::*;

use crate::config::{Client, Config, Node, NodeVpnInterface, NodeVpnInterfaceClient, NodeZone, NodeZoneDevice};
use crate::entries::{dedup, lemma_dedup_keeps, lemma_flat_map_has};
use crate::managers::firewall::types::{BindingView, TagBinding, bindings_view};
use crate::types::allow_from_ref::{AllowFromRef, AllowFromRefView};
use crate::types::identifier::Identifier;
use crate::types::ip::{Ipv4Addr, Ipv4Network, network_of};
use crate::types::schema_helpers::OneOrManyUnique;
use crate::types::zone_ref::{ZoneRef, ZoneRefView};

verus! {

broadcast use {vstd::seq_lib::group_seq_properties, vstd::seq::Seq::group_seq_extra};

/// Each reference bound to `net` in `zone`.
pub open spec fn bind_all(tags: Seq<AllowFromRefView>, zone: ZoneRefView, net: (u32, u8)) -> Seq<
    BindingView,
> {
    tags.map_values(|t: AllowFromRefView| (t, zone, net))
}

/// Tags as bare references.
pub open spec fn bare_tags(ts: Seq<Identifier>) -> Seq<AllowFromRefView> {
    ts.map_values(|t: Identifier| AllowFromRefView::Bare(t@))
}

pub open spec fn self_zone_fn() -> spec_fn((Identifier, NodeZone)) -> BindingView {
    |e: (Identifier, NodeZone)|
        (AllowFromRefView::SelfNode, ZoneRefView::Named(e.0@), (e.1.address@.0, 32u8))
}

pub open spec fn self_vpn_fn() -> spec_fn((Identifier, NodeVpnInterface)) -> BindingView {
    |e: (Identifier, NodeVpnInterface)|
        (AllowFromRefView::SelfNode, ZoneRefView::Named(e.0@), (e.1.address@.0, 32u8))
}

/// `$node`: the router's own address on each of its zones and VPN interfaces.
pub open spec fn self_node_bindings(node: Node) -> Seq<BindingView> {
    node.zones@.map_values(self_zone_fn()) + node.vpn_interfaces@.map_values(self_vpn_fn())
}

/// The node's name and tags.
pub open spec fn node_refs(name: Seq<char>, node: Node) -> Seq<AllowFromRefView> {
    seq![AllowFromRefView::Bare(name)] + bare_tags(node.tags@)
}

pub open spec fn node_zone_fn(refs: Seq<AllowFromRefView>) -> spec_fn((Identifier, NodeZone)) -> Seq<
    BindingView,
> {
    |e: (Identifier, NodeZone)| bind_all(refs, ZoneRefView::Named(e.0@), network_of(e.1.address@))
}

pub open spec fn node_vpn_fn(refs: Seq<AllowFromRefView>) -> spec_fn((Identifier, NodeVpnInterface)) -> Seq<
    BindingView,
> {
    |e: (Identifier, NodeVpnInterface)|
        bind_all(refs, ZoneRefView::Named(e.0@), network_of(e.1.address@))
}

/// The node's name and tags: the networks of its zones, then of its VPN interfaces.
pub open spec fn node_name_bindings(name: Seq<char>, node: Node) -> Seq<BindingView> {
    node.zones@.flat_map(node_zone_fn(node_refs(name, node))) + node.vpn_interfaces@.flat_map(
        node_vpn_fn(node_refs(name, node)),
    )
}

/// A qualified name and the tags of an entry.
pub open spec fn local_refs(node: Seq<char>, local: Seq<char>, tags: Seq<Identifier>) -> Seq<
    AllowFromRefView,
> {
    seq![AllowFromRefView::Nested(node, local)] + bare_tags(tags)
}

pub open spec fn device_fn(node: Seq<char>, zone: Seq<char>) -> spec_fn((Identifier, NodeZoneDevice)) -> Seq<
    BindingView,
> {
    |d: (Identifier, NodeZoneDevice)|
        bind_all(local_refs(node, d.0@, d.1.tags@), ZoneRefView::Named(zone), (d.1.ip@, 32u8))
}

pub open spec fn zone_fn(node: Seq<char>) -> spec_fn((Identifier, NodeZone)) -> Seq<BindingView> {
    |e: (Identifier, NodeZone)|
        bind_all(
            local_refs(node, e.0@, e.1.tags@),
            ZoneRefView::Named(e.0@),
            network_of(e.1.address@),
        ) + e.1.devices@.flat_map(device_fn(node, e.0@))
}

/// Each zone's qualified name and tags (its network), then its devices' (their addresses).
pub open spec fn zone_bindings(name: Seq<char>, node: Node) -> Seq<BindingView> {
    node.zones@.flat_map(zone_fn(name))
}

pub open spec fn peer_fn(node: Seq<char>, vpn: Seq<char>) -> spec_fn((Identifier, NodeVpnInterfaceClient)) -> Seq<
    BindingView,
> {
    |c: (Identifier, NodeVpnInterfaceClient)|
        bind_all(local_refs(node, c.0@, c.1.tags@), ZoneRefView::Named(vpn), (c.1.ip@, 32u8))
}

pub open spec fn vpn_fn(node: Seq<char>) -> spec_fn((Identifier, NodeVpnInterface)) -> Seq<BindingView> {
    |e: (Identifier, NodeVpnInterface)|
        bind_all(
            local_refs(node, e.0@, e.1.tags@),
            ZoneRefView::Named(e.0@),
            network_of(e.1.address@),
        ) + e.1.clients@.flat_map(peer_fn(node, e.0@))
}

/// Each VPN interface's qualified name and tags (its network), then its peers' (their
/// addresses).
pub open spec fn vpn_bindings(name: Seq<char>, node: Node) -> Seq<BindingView> {
    node.vpn_interfaces@.flat_map(vpn_fn(name))
}

/// Everything a node contributes; `$node` only for the configured node.
pub open spec fn node_bindings(name: Seq<char>, node: Node, own: Seq<char>) -> Seq<BindingView> {
    (if name == own {
        self_node_bindings(node)
    } else {
        seq![]
    }) + node_name_bindings(name, node) + zone_bindings(name, node) + vpn_bindings(name, node)
}

/// The zone a client's address on a node's network lies in, seen from `own`.
pub open spec fn client_zone(node: Seq<char>, network: Seq<char>, own: Seq<char>) -> ZoneRefView {
    if node == own {
        ZoneRefView::Named(network)
    } else {
        ZoneRefView::Mesh
    }
}

pub open spec fn client_ip_fn(refs: Seq<AllowFromRefView>, node: Seq<char>, own: Seq<char>) -> spec_fn(
    (Identifier, Ipv4Addr),
) -> Seq<BindingView> {
    |l: (Identifier, Ipv4Addr)| bind_all(refs, client_zone(node, l.0@, own), (l.1@, 32u8))
}

pub open spec fn client_node_fn(refs: Seq<AllowFromRefView>, own: Seq<char>) -> spec_fn(
    (Identifier, Vec<(Identifier, Ipv4Addr)>),
) -> Seq<BindingView> {
    |n: (Identifier, Vec<(Identifier, Ipv4Addr)>)| n.1@.flat_map(client_ip_fn(refs, n.0@, own))
}

/// The client's name and tags.
pub open spec fn client_refs(name: Seq<char>, client: Client) -> Seq<AllowFromRefView> {
    seq![AllowFromRefView::Bare(name)] + bare_tags(client.tags@)
}

/// A client's name and tags: its mesh address, then each of its addresses on nodes.
pub open spec fn client_bindings(name: Seq<char>, client: Client, own: Seq<char>) -> Seq<BindingView> {
    (match client.mesh_ip {
        Some(m) => bind_all(client_refs(name, client), ZoneRefView::Mesh, (m@, 32u8)),
        None => seq![],
    }) + client.ips@.flat_map(client_node_fn(client_refs(name, client), own))
}

pub open spec fn node_entry_fn(own: Seq<char>) -> spec_fn((Identifier, Node)) -> Seq<BindingView> {
    |e: (Identifier, Node)| node_bindings(e.0@, e.1, own)
}

pub open spec fn client_entry_fn(own: Seq<char>) -> spec_fn((Identifier, Client)) -> Seq<BindingView> {
    |e: (Identifier, Client)| client_bindings(e.0@, e.1, own)
}

/// Every binding, nodes first then clients, repetitions included.
pub open spec fn raw_bindings(config: Config, own: Seq<char>) -> Seq<BindingView> {
    config.nodes@.flat_map(node_entry_fn(own)) + config.clients@.flat_map(client_entry_fn(own))
}

/// The resolution of every reference, seen from node `own`: each binding once.
pub open spec fn tag_resolution(config: Config, own: Seq<char>) -> Seq<BindingView> {
    dedup(raw_bindings(config, own))
}

/// Appends `more` to `out`.
fn append_bindings(out: &mut Vec<TagBinding>, more: Vec<TagBinding>)
    ensures
        bindings_view(final(out)@) == bindings_view(old(out)@) + bindings_view(more@),
{
    let ghost o = out@;
    let ghost m = more@;
    let mut more = more;
    out.append(&mut more);
    assert(bindings_view(out@) =~= bindings_view(o) + bindings_view(m));
}

/// `first`, then each tag as a bare reference.
fn refs_with_tags(first: AllowFromRef, tags: &OneOrManyUnique<Identifier>) -> (r: Vec<AllowFromRef>)
    ensures
        r@.map_values(|t: AllowFromRef| t@) == seq![first@] + bare_tags(tags@),
{
    let ghost f0 = first@;
    let mut r: Vec<AllowFromRef> = Vec::new();
    r.push(first);
    let items = tags.items();
    let mut i: usize = 0;
    while i < items.len()
        invariant
            i <= items@.len(),
            items@ == tags@,
            r@.map_values(|t: AllowFromRef| t@) == seq![f0] + bare_tags(items@.take(i as int)),
        decreases items@.len() - i,
    {
        r.push(AllowFromRef::Bare(items[i].clone()));
        proof {
            assert(items@.take(i + 1) =~= items@.take(i as int).push(items@[i as int]));
            assert(bare_tags(items@.take(i + 1)) =~= bare_tags(items@.take(i as int)).push(
                AllowFromRefView::Bare(items@[i as int]@),
            ));
        }
        i = i + 1;
    }
    assert(items@.take(items@.len() as int) =~= items@);
    r
}

/// Binds each reference to `net` in `zone`.
fn bind_each(refs: &Vec<AllowFromRef>, zone: &ZoneRef, net: Ipv4Network) -> (r: Vec<TagBinding>)
    ensures
        bindings_view(r@) == bind_all(refs@.map_values(|t: AllowFromRef| t@), zone@, net@),
{
    let ghost rv = refs@.map_values(|t: AllowFromRef| t@);
    let mut r: Vec<TagBinding> = Vec::new();
    let mut i: usize = 0;
    while i < refs.len()
        invariant
            i <= refs@.len(),
            rv == refs@.map_values(|t: AllowFromRef| t@),
            bindings_view(r@) == bind_all(rv.take(i as int), zone@, net@),
        decreases refs@.len() - i,
    {
        r.push(TagBinding { tag: refs[i].clone(), zone: zone.clone(), network: net });
        proof {
            assert(rv.take(i + 1) =~= rv.take(i as int).push(rv[i as int]));
            assert(bind_all(rv.take(i + 1), zone@, net@) =~= bind_all(rv.take(i as int), zone@, net@).push(
                (rv[i as int], zone@, net@),
            ));
            assert(bindings_view(r@) =~= bindings_view(r@.drop_last()).push(r@.last()@));
        }
        i = i + 1;
    }
    assert(rv.take(rv.len() as int) =~= rv);
    r
}

fn add_current_node_identifier_tag(node: &Node) -> (r: Vec<TagBinding>)
    ensures
        bindings_view(r@) == self_node_bindings(*node),
{
    let ghost fz = self_zone_fn();
    let ghost fv = self_vpn_fn();
    let mut r: Vec<TagBinding> = Vec::new();
    let mut i: usize = 0;
    while i < node.zones.len()
        invariant
            i <= node.zones@.len(),
            fz == self_zone_fn(),
            bindings_view(r@) == node.zones@.take(i as int).map_values(fz),
        decreases node.zones@.len() - i,
    {
        let z = &node.zones[i];
        let ghost before = r@;
        let ip = z.1.address.ip();
        let b = TagBinding {
            tag: AllowFromRef::SelfNode,
            zone: ZoneRef::Named(z.0.clone()),
            network: Ipv4Network::host(ip),
        };
        assert(ip@ == z.1.address@.0);
        assert(b.network@ == (z.1.address@.0, 32u8));
        assert(b.zone@ == ZoneRefView::Named(z.0@));
        assert(b@ == fz(*z));
        r.push(b);
        proof {
            assert(node.zones@.take(i + 1) =~= node.zones@.take(i as int).push(node.zones@[i as int]));
            assert(node.zones@.take(i + 1).map_values(fz) =~= node.zones@.take(i as int).map_values(
                fz,
            ).push(fz(node.zones@[i as int])));
            assert(r@ == before.push(r@.last()));
            assert(r@.last()@ == fz(node.zones@[i as int]));
            assert(bindings_view(r@) =~= bindings_view(before).push(r@.last()@));
        }
        i = i + 1;
    }
    assert(node.zones@.take(node.zones@.len() as int) =~= node.zones@);
    let ghost zs = bindings_view(r@);
    let mut k: usize = 0;
    while k < node.vpn_interfaces.len()
        invariant
            k <= node.vpn_interfaces@.len(),
            fz == self_zone_fn(),
            fv == self_vpn_fn(),
            zs == node.zones@.map_values(fz),
            bindings_view(r@) == zs + node.vpn_interfaces@.take(k as int).map_values(fv),
        decreases node.vpn_interfaces@.len() - k,
    {
        let v = &node.vpn_interfaces[k];
        let ghost before = r@;
        let ip = v.1.address.ip();
        let b = TagBinding {
            tag: AllowFromRef::SelfNode,
            zone: ZoneRef::Named(v.0.clone()),
            network: Ipv4Network::host(ip),
        };
        assert(b@ == fv(*v));
        r.push(b);
        proof {
            assert(node.vpn_interfaces@.take(k + 1) =~= node.vpn_interfaces@.take(k as int).push(
                node.vpn_interfaces@[k as int],
            ));
            assert(node.vpn_interfaces@.take(k + 1).map_values(fv) =~= node.vpn_interfaces@.take(
                k as int,
            ).map_values(fv).push(fv(node.vpn_interfaces@[k as int])));
            assert(r@ == before.push(r@.last()));
            assert(r@.last()@ == fv(node.vpn_interfaces@[k as int]));
            assert(bindings_view(r@) =~= bindings_view(before).push(r@.last()@));
        }
        k = k + 1;
    }
    assert(node.vpn_interfaces@.take(node.vpn_interfaces@.len() as int) =~= node.vpn_interfaces@);
    r
}

fn add_node_tag(node_name: &Identifier, node: &Node) -> (r: Vec<TagBinding>)
    ensures
        bindings_view(r@) == node_name_bindings(node_name@, *node),
{
    let refs = refs_with_tags(AllowFromRef::Bare(node_name.clone()), &node.tags);
    let ghost rv = node_refs(node_name@, *node);
    assert(refs@.map_values(|t: AllowFromRef| t@) == rv);
    let mut r: Vec<TagBinding> = Vec::new();
    let mut i: usize = 0;
    while i < node.zones.len()
        invariant
            i <= node.zones@.len(),
            refs@.map_values(|t: AllowFromRef| t@) == rv,
            rv == node_refs(node_name@, *node),
            bindings_view(r@) == node.zones@.take(i as int).flat_map(node_zone_fn(rv)),
        decreases node.zones@.len() - i,
    {
        let z = &node.zones[i];
        let b = bind_each(&refs, &ZoneRef::Named(z.0.clone()), z.1.address.network());
        append_bindings(&mut r, b);
        i = i + 1;
    }
    assert(node.zones@.take(node.zones@.len() as int) =~= node.zones@);
    let ghost zs = bindings_view(r@);
    let mut k: usize = 0;
    while k < node.vpn_interfaces.len()
        invariant
            k <= node.vpn_interfaces@.len(),
            refs@.map_values(|t: AllowFromRef| t@) == rv,
            rv == node_refs(node_name@, *node),
            zs == node.zones@.flat_map(node_zone_fn(rv)),
            bindings_view(r@) == zs + node.vpn_interfaces@.take(k as int).flat_map(node_vpn_fn(rv)),
        decreases node.vpn_interfaces@.len() - k,
    {
        let v = &node.vpn_interfaces[k];
        let b = bind_each(&refs, &ZoneRef::Named(v.0.clone()), v.1.address.network());
        append_bindings(&mut r, b);
        k = k + 1;
    }
    assert(node.vpn_interfaces@.take(node.vpn_interfaces@.len() as int) =~= node.vpn_interfaces@);
    r
}

fn zone_tags(node_name: &Identifier, zone_name: &Identifier, zone: &NodeZone) -> (r: Vec<TagBinding>)
    ensures
        bindings_view(r@) == zone_fn(node_name@)((*zone_name, *zone)),
{
    let zr = ZoneRef::Named(zone_name.clone());
    let refs = refs_with_tags(AllowFromRef::nested(node_name.clone(), zone_name.clone()), &zone.tags);
    let mut r = bind_each(&refs, &zr, zone.address.network());
    let ghost head = bindings_view(r@);
    let mut i: usize = 0;
    while i < zone.devices.len()
        invariant
            i <= zone.devices@.len(),
            zr@ == ZoneRefView::Named(zone_name@),
            bindings_view(r@) == head + zone.devices@.take(i as int).flat_map(
                device_fn(node_name@, zone_name@),
            ),
        decreases zone.devices@.len() - i,
    {
        let d = &zone.devices[i];
        let drefs = refs_with_tags(AllowFromRef::nested(node_name.clone(), d.0.clone()), &d.1.tags);
        let b = bind_each(&drefs, &zr, Ipv4Network::host(d.1.ip));
        append_bindings(&mut r, b);
        i = i + 1;
    }
    assert(zone.devices@.take(zone.devices@.len() as int) =~= zone.devices@);
    r
}

fn add_zones_tags(node_name: &Identifier, node: &Node) -> (r: Vec<TagBinding>)
    ensures
        bindings_view(r@) == zone_bindings(node_name@, *node),
{
    let mut r: Vec<TagBinding> = Vec::new();
    let mut i: usize = 0;
    while i < node.zones.len()
        invariant
            i <= node.zones@.len(),
            bindings_view(r@) == node.zones@.take(i as int).flat_map(zone_fn(node_name@)),
        decreases node.zones@.len() - i,
    {
        let z = &node.zones[i];
        let b = zone_tags(node_name, &z.0, &z.1);
        assert((z.0, z.1) == node.zones@[i as int]);
        append_bindings(&mut r, b);
        i = i + 1;
    }
    assert(node.zones@.take(node.zones@.len() as int) =~= node.zones@);
    r
}

fn vpn_interface_tags(node_name: &Identifier, vpn_name: &Identifier, vpn: &NodeVpnInterface) -> (r: Vec<
    TagBinding,
>)
    ensures
        bindings_view(r@) == vpn_fn(node_name@)((*vpn_name, *vpn)),
{
    let zr = ZoneRef::Named(vpn_name.clone());
    let refs = refs_with_tags(AllowFromRef::nested(node_name.clone(), vpn_name.clone()), &vpn.tags);
    let mut r = bind_each(&refs, &zr, vpn.address.network());
    let ghost head = bindings_view(r@);
    let mut i: usize = 0;
    while i < vpn.clients.len()
        invariant
            i <= vpn.clients@.len(),
            zr@ == ZoneRefView::Named(vpn_name@),
            bindings_view(r@) == head + vpn.clients@.take(i as int).flat_map(
                peer_fn(node_name@, vpn_name@),
            ),
        decreases vpn.clients@.len() - i,
    {
        let c = &vpn.clients[i];
        let crefs = refs_with_tags(AllowFromRef::nested(node_name.clone(), c.0.clone()), &c.1.tags);
        let b = bind_each(&crefs, &zr, Ipv4Network::host(c.1.ip));
        append_bindings(&mut r, b);
        i = i + 1;
    }
    assert(vpn.clients@.take(vpn.clients@.len() as int) =~= vpn.clients@);
    r
}

fn add_vpn_interfaces_tags(node_name: &Identifier, node: &Node) -> (r: Vec<TagBinding>)
    ensures
        bindings_view(r@) == vpn_bindings(node_name@, *node),
{
    let mut r: Vec<TagBinding> = Vec::new();
    let mut i: usize = 0;
    while i < node.vpn_interfaces.len()
        invariant
            i <= node.vpn_interfaces@.len(),
            bindings_view(r@) == node.vpn_interfaces@.take(i as int).flat_map(vpn_fn(node_name@)),
        decreases node.vpn_interfaces@.len() - i,
    {
        let v = &node.vpn_interfaces[i];
        let b = vpn_interface_tags(node_name, &v.0, &v.1);
        assert((v.0, v.1) == node.vpn_interfaces@[i as int]);
        append_bindings(&mut r, b);
        i = i + 1;
    }
    assert(node.vpn_interfaces@.take(node.vpn_interfaces@.len() as int) =~= node.vpn_interfaces@);
    r
}

fn add_client_tag(client_name: &Identifier, client: &Client, own_name: &Identifier) -> (r: Vec<
    TagBinding,
>)
    ensures
        bindings_view(r@) == client_bindings(client_name@, *client, own_name@),
{
    let refs = refs_with_tags(AllowFromRef::Bare(client_name.clone()), &client.tags);
    let ghost rv = client_refs(client_name@, *client);
    let mut r: Vec<TagBinding> = match client.mesh_ip {
        Some(m) => bind_each(&refs, &ZoneRef::Mesh, Ipv4Network::host(m)),
        None => Vec::new(),
    };
    let ghost head = bindings_view(r@);
    let mut i: usize = 0;
    while i < client.ips.len()
        invariant
            i <= client.ips@.len(),
            refs@.map_values(|t: AllowFromRef| t@) == rv,
            rv == client_refs(client_name@, *client),
            bindings_view(r@) == head + client.ips@.take(i as int).flat_map(
                client_node_fn(rv, own_name@),
            ),
        decreases client.ips@.len() - i,
    {
        let n = &client.ips[i];
        let ghost before = bindings_view(r@);
        let mut j: usize = 0;
        while j < n.1.len()
            invariant
                j <= n.1@.len(),
                refs@.map_values(|t: AllowFromRef| t@) == rv,
                bindings_view(r@) == before + n.1@.take(j as int).flat_map(
                    client_ip_fn(rv, n.0@, own_name@),
                ),
            decreases n.1@.len() - j,
        {
            let l = &n.1[j];
            let zone = if n.0.same(own_name) {
                ZoneRef::Named(l.0.clone())
            } else {
                ZoneRef::Mesh
            };
            let b = bind_each(&refs, &zone, Ipv4Network::host(l.1));
            append_bindings(&mut r, b);
            j = j + 1;
        }
        assert(n.1@.take(n.1@.len() as int) =~= n.1@);
        i = i + 1;
    }
    assert(client.ips@.take(client.ips@.len() as int) =~= client.ips@);
    r
}

/// Keeps the first occurrence of each binding.
fn dedup_bindings(v: Vec<TagBinding>) -> (r: Vec<TagBinding>)
    ensures
        bindings_view(r@) == dedup(bindings_view(v@)),
{
    let ghost vv = bindings_view(v@);
    let mut r: Vec<TagBinding> = Vec::new();
    let mut i: usize = 0;
    while i < v.len()
        invariant
            i <= v@.len(),
            vv == bindings_view(v@),
            bindings_view(r@) == dedup(vv.take(i as int)),
        decreases v@.len() - i,
    {
        let mut found = false;
        let mut j: usize = 0;
        while j < r.len()
            invariant
                j <= r@.len(),
                i < v@.len(),
                found == bindings_view(r@).take(j as int).contains(v@[i as int]@),
            decreases r@.len() - j,
        {
            if r[j].same(&v[i]) {
                found = true;
            }
            proof {
                assert(bindings_view(r@).take(j + 1) =~= bindings_view(r@).take(j as int).push(
                    r@[j as int]@,
                ));
            }
            j = j + 1;
        }
        assert(bindings_view(r@).take(r@.len() as int) =~= bindings_view(r@));
        assert(vv.take(i + 1).drop_last() =~= vv.take(i as int));
        assert(vv.take(i + 1).last() == v@[i as int]@);
        assert(found == dedup(vv.take(i as int)).contains(vv.take(i + 1).last()));
        let ghost before = r@;
        if !found {
            r.push(v[i].clone());
            assert(r@ == before.push(v@[i as int]));
            assert(bindings_view(r@) =~= bindings_view(before).push(v@[i as int]@));
        }
        i = i + 1;
    }
    assert(vv.take(vv.len() as int) =~= vv);
    r
}

/// Resolves every `allowFrom` reference of the configuration, seen from node `own_name`.
pub fn build_tags_resolution_map(config: &Config, own_name: &Identifier) -> (r: Vec<TagBinding>)
    ensures
        bindings_view(r@) == tag_resolution(*config, own_name@),
{
    let mut raw: Vec<TagBinding> = Vec::new();
    let mut i: usize = 0;
    while i < config.nodes.len()
        invariant
            i <= config.nodes@.len(),
            bindings_view(raw@) == config.nodes@.take(i as int).flat_map(node_entry_fn(own_name@)),
        decreases config.nodes@.len() - i,
    {
        let n = &config.nodes[i];
        let ghost before = bindings_view(raw@);
        if n.0.same(own_name) {
            append_bindings(&mut raw, add_current_node_identifier_tag(&n.1));
        } else {
            assert(before + seq![] =~= before);
        }
        append_bindings(&mut raw, add_node_tag(&n.0, &n.1));
        append_bindings(&mut raw, add_zones_tags(&n.0, &n.1));
        append_bindings(&mut raw, add_vpn_interfaces_tags(&n.0, &n.1));
        proof {
            assert(bindings_view(raw@) =~= before + node_bindings(n.0@, n.1, own_name@));
        }
        i = i + 1;
    }
    assert(config.nodes@.take(config.nodes@.len() as int) =~= config.nodes@);
    let ghost ns = bindings_view(raw@);
    let mut k: usize = 0;
    while k < config.clients.len()
        invariant
            k <= config.clients@.len(),
            ns == config.nodes@.flat_map(node_entry_fn(own_name@)),
            bindings_view(raw@) == ns + config.clients@.take(k as int).flat_map(
                client_entry_fn(own_name@),
            ),
        decreases config.clients@.len() - k,
    {
        let c = &config.clients[k];
        append_bindings(&mut raw, add_client_tag(&c.0, &c.1, own_name));
        k = k + 1;
    }
    assert(config.clients@.take(config.clients@.len() as int) =~= config.clients@);
    dedup_bindings(raw)
}

/// The networks a reference stands for in one zone.
pub fn networks_for(bindings: &Vec<TagBinding>, tag: &AllowFromRef, zone: &ZoneRef) -> (r: Vec<
    Ipv4Network,
>)
    ensures
        forall|n: Ipv4Network|
            r@.contains(n) <==> exists|i: int|
                0 <= i < bindings@.len() && bindings@[i].tag@ == tag@ && bindings@[i].zone@
                    == zone@ && bindings@[i].network == n,
{
    let mut r: Vec<Ipv4Network> = Vec::new();
    let mut i: usize = 0;
    while i < bindings.len()
        invariant
            i <= bindings@.len(),
            forall|n: Ipv4Network|
                r@.contains(n) <==> exists|j: int|
                    0 <= j < i && bindings@[j].tag@ == tag@ && bindings@[j].zone@ == zone@
                        && bindings@[j].network == n,
        decreases bindings@.len() - i,
    {
        let b = &bindings[i];
        if b.tag.same(tag) && b.zone.same(zone) {
            r.push(b.network);
            assert forall|n: Ipv4Network|
                r@.contains(n) <==> exists|j: int|
                    0 <= j < i + 1 && bindings@[j].tag@ == tag@ && bindings@[j].zone@ == zone@
                        && bindings@[j].network == n by {
                if n == b.network {
                    assert(r@[r@.len() - 1] == n);
                }
                if r@.drop_last().contains(n) {
                    let w = choose|w: int| 0 <= w < r@.drop_last().len() && r@.drop_last()[w] == n;
                    assert(r@[w] == n);
                }
                if r@.contains(n) && n != b.network {
                    let w = choose|w: int| 0 <= w < r@.len() && r@[w] == n;
                    assert(r@.drop_last()[w] == n);
                }
            }
        }
        i = i + 1;
    }
    r
}

/// Zones are found by their names and their tags: seen from any node, for every zone of
/// every node, the resolution binds the zone's qualified name `Node.zone` and each tag
/// listed on the zone to the zone's network, in that zone.
pub proof fn lemma_zone_names_and_tags_resolve(config: Config, own: Seq<char>, ni: int, zi: int)
    requires
        0 <= ni < config.nodes@.len(),
        0 <= zi < config.nodes@[ni].1.zones@.len(),
    ensures
        tag_resolution(config, own).contains(
            (
                AllowFromRefView::Nested(config.nodes@[ni].0@, config.nodes@[ni].1.zones@[zi].0@),
                ZoneRefView::Named(config.nodes@[ni].1.zones@[zi].0@),
                network_of(config.nodes@[ni].1.zones@[zi].1.address@),
            ),
        ),
        forall|ti: int|
            0 <= ti < config.nodes@[ni].1.zones@[zi].1.tags@.len() ==> tag_resolution(config, own).contains(
                (
                    AllowFromRefView::Bare((#[trigger] config.nodes@[ni].1.zones@[zi].1.tags@[ti])@),
                    ZoneRefView::Named(config.nodes@[ni].1.zones@[zi].0@),
                    network_of(config.nodes@[ni].1.zones@[zi].1.address@),
                ),
            ),
{
    let n = config.nodes@[ni];
    let z = n.1.zones@[zi];
    let refs = local_refs(n.0@, z.0@, z.1.tags@);
    let b = bind_all(refs, ZoneRefView::Named(z.0@), network_of(z.1.address@));
    assert forall|k: int| 0 <= k < refs.len() implies tag_resolution(config, own).contains(
        #[trigger] b[k],
    ) by {
        let zf = zone_fn(n.0@);
        assert(zf(z)[k] == b[k]);
        lemma_flat_map_has(n.1.zones@, zf, zi, k);
        let zb = zone_bindings(n.0@, n.1);
        let w = choose|w: int| 0 <= w < zb.len() && zb[w] == b[k];
        let nb = node_bindings(n.0@, n.1, own);
        let head = (if n.0@ == own {
            self_node_bindings(n.1)
        } else {
            seq![]
        }) + node_name_bindings(n.0@, n.1);
        assert(nb[head.len() + w] == b[k]);
        lemma_flat_map_has(config.nodes@, node_entry_fn(own), ni, head.len() + w);
        let nodes_part = config.nodes@.flat_map(node_entry_fn(own));
        let v = choose|v: int| 0 <= v < nodes_part.len() && nodes_part[v] == b[k];
        assert(raw_bindings(config, own)[v] == b[k]);
        lemma_dedup_keeps(raw_bindings(config, own), b[k]);
    }
    assert(b[0] == (
        AllowFromRefView::Nested(n.0@, z.0@),
        ZoneRefView::Named(z.0@),
        network_of(z.1.address@),
    ));
    assert forall|ti: int| 0 <= ti < z.1.tags@.len() implies tag_resolution(config, own).contains(
        (AllowFromRefView::Bare((#[trigger] z.1.tags@[ti])@), ZoneRefView::Named(z.0@), network_of(z.1.address@)),
    ) by {
        assert(b[ti + 1] == (AllowFromRefView::Bare(z.1.tags@[ti]@), ZoneRefView::Named(z.0@), network_of(z.1.address@)));
    }
}

/// A binding a node contributes is in the resolution.
proof fn lemma_node_binding_resolves(config: Config, own: Seq<char>, ni: int, x: BindingView)
    requires
        0 <= ni < config.nodes@.len(),
        node_bindings(config.nodes@[ni].0@, config.nodes@[ni].1, own).contains(x),
    ensures
        tag_resolution(config, own).contains(x),
{
    let nb = node_bindings(config.nodes@[ni].0@, config.nodes@[ni].1, own);
    let w = choose|w: int| 0 <= w < nb.len() && nb[w] == x;
    assert(node_entry_fn(own)(config.nodes@[ni]) == nb);
    lemma_flat_map_has(config.nodes@, node_entry_fn(own), ni, w);
    let np = config.nodes@.flat_map(node_entry_fn(own));
    let v = choose|v: int| 0 <= v < np.len() && np[v] == x;
    assert(raw_bindings(config, own)[v] == x);
    lemma_dedup_keeps(raw_bindings(config, own), x);
}

/// A binding a client contributes is in the resolution.
proof fn lemma_client_binding_resolves(config: Config, own: Seq<char>, ci: int, x: BindingView)
    requires
        0 <= ci < config.clients@.len(),
        client_bindings(config.clients@[ci].0@, config.clients@[ci].1, own).contains(x),
    ensures
        tag_resolution(config, own).contains(x),
{
    let cb = client_bindings(config.clients@[ci].0@, config.clients@[ci].1, own);
    let w = choose|w: int| 0 <= w < cb.len() && cb[w] == x;
    assert(client_entry_fn(own)(config.clients@[ci]) == cb);
    lemma_flat_map_has(config.clients@, client_entry_fn(own), ci, w);
    let cp = config.clients@.flat_map(client_entry_fn(own));
    let v = choose|v: int| 0 <= v < cp.len() && cp[v] == x;
    let np = config.nodes@.flat_map(node_entry_fn(own));
    assert(raw_bindings(config, own)[np.len() + v] == x);
    lemma_dedup_keeps(raw_bindings(config, own), x);
}

/// Nodes are found by their names and tags: seen from any node, the name and every tag of
/// every node are bound to the network of each of its zones, in that zone.
pub proof fn lemma_node_names_and_tags_resolve(config: Config, own: Seq<char>, ni: int, zi: int)
    requires
        0 <= ni < config.nodes@.len(),
        0 <= zi < config.nodes@[ni].1.zones@.len(),
    ensures
        tag_resolution(config, own).contains(
            (
                AllowFromRefView::Bare(config.nodes@[ni].0@),
                ZoneRefView::Named(config.nodes@[ni].1.zones@[zi].0@),
                network_of(config.nodes@[ni].1.zones@[zi].1.address@),
            ),
        ),
        forall|ti: int|
            0 <= ti < config.nodes@[ni].1.tags@.len() ==> tag_resolution(config, own).contains(
                (
                    AllowFromRefView::Bare((#[trigger] config.nodes@[ni].1.tags@[ti])@),
                    ZoneRefView::Named(config.nodes@[ni].1.zones@[zi].0@),
                    network_of(config.nodes@[ni].1.zones@[zi].1.address@),
                ),
            ),
{
    let n = config.nodes@[ni];
    let z = n.1.zones@[zi];
    let refs = node_refs(n.0@, n.1);
    let f = node_zone_fn(refs);
    let b = f(z);
    let head = if n.0@ == own {
        self_node_bindings(n.1)
    } else {
        seq![]
    };
    assert forall|k: int| 0 <= k < refs.len() implies tag_resolution(config, own).contains(#[trigger] b[k]) by {
        lemma_flat_map_has(n.1.zones@, f, zi, k);
        let zp = n.1.zones@.flat_map(f);
        let w = choose|w: int| 0 <= w < zp.len() && zp[w] == b[k];
        assert(node_name_bindings(n.0@, n.1)[w] == b[k]);
        assert(node_bindings(n.0@, n.1, own)[head.len() + w] == b[k]);
        lemma_node_binding_resolves(config, own, ni, b[k]);
    }
    assert(b[0] == (AllowFromRefView::Bare(n.0@), ZoneRefView::Named(z.0@), network_of(z.1.address@)));
    assert forall|ti: int| 0 <= ti < n.1.tags@.len() implies tag_resolution(config, own).contains(
        (AllowFromRefView::Bare((#[trigger] n.1.tags@[ti])@), ZoneRefView::Named(z.0@), network_of(z.1.address@)),
    ) by {
        assert(b[ti + 1] == (AllowFromRefView::Bare(n.1.tags@[ti]@), ZoneRefView::Named(z.0@), network_of(z.1.address@)));
    }
}

/// Devices are found by their names and tags: seen from any node, the qualified name
/// `Node.device` and every tag of every device are bound to the device's address, in its
/// zone.
pub proof fn lemma_device_names_and_tags_resolve(config: Config, own: Seq<char>, ni: int, zi: int, di: int)
    requires
        0 <= ni < config.nodes@.len(),
        0 <= zi < config.nodes@[ni].1.zones@.len(),
        0 <= di < config.nodes@[ni].1.zones@[zi].1.devices@.len(),
    ensures
        tag_resolution(config, own).contains(
            (
                AllowFromRefView::Nested(config.nodes@[ni].0@, config.nodes@[ni].1.zones@[zi].1.devices@[di].0@),
                ZoneRefView::Named(config.nodes@[ni].1.zones@[zi].0@),
                (config.nodes@[ni].1.zones@[zi].1.devices@[di].1.ip@, 32u8),
            ),
        ),
        forall|ti: int|
            0 <= ti < config.nodes@[ni].1.zones@[zi].1.devices@[di].1.tags@.len() ==> tag_resolution(
                config,
                own,
            ).contains(
                (
                    AllowFromRefView::Bare((#[trigger] config.nodes@[ni].1.zones@[zi].1.devices@[di].1.tags@[ti])@),
                    ZoneRefView::Named(config.nodes@[ni].1.zones@[zi].0@),
                    (config.nodes@[ni].1.zones@[zi].1.devices@[di].1.ip@, 32u8),
                ),
            ),
{
    let n = config.nodes@[ni];
    let z = n.1.zones@[zi];
    let d = z.1.devices@[di];
    let df = device_fn(n.0@, z.0@);
    let b = df(d);
    let refs = local_refs(n.0@, d.0@, d.1.tags@);
    let zb = bind_all(local_refs(n.0@, z.0@, z.1.tags@), ZoneRefView::Named(z.0@), network_of(z.1.address@));
    let head = (if n.0@ == own {
        self_node_bindings(n.1)
    } else {
        seq![]
    }) + node_name_bindings(n.0@, n.1);
    assert forall|k: int| 0 <= k < refs.len() implies tag_resolution(config, own).contains(#[trigger] b[k]) by {
        lemma_flat_map_has(z.1.devices@, df, di, k);
        let dp = z.1.devices@.flat_map(df);
        let w = choose|w: int| 0 <= w < dp.len() && dp[w] == b[k];
        assert(zone_fn(n.0@)(z)[zb.len() + w] == b[k]);
        lemma_flat_map_has(n.1.zones@, zone_fn(n.0@), zi, zb.len() + w);
        let zs = zone_bindings(n.0@, n.1);
        let w2 = choose|w2: int| 0 <= w2 < zs.len() && zs[w2] == b[k];
        assert(node_bindings(n.0@, n.1, own)[head.len() + w2] == b[k]);
        lemma_node_binding_resolves(config, own, ni, b[k]);
    }
    assert(b[0] == (AllowFromRefView::Nested(n.0@, d.0@), ZoneRefView::Named(z.0@), (d.1.ip@, 32u8)));
    assert forall|ti: int| 0 <= ti < d.1.tags@.len() implies tag_resolution(config, own).contains(
        (AllowFromRefView::Bare((#[trigger] d.1.tags@[ti])@), ZoneRefView::Named(z.0@), (d.1.ip@, 32u8)),
    ) by {
        assert(b[ti + 1] == (AllowFromRefView::Bare(d.1.tags@[ti]@), ZoneRefView::Named(z.0@), (d.1.ip@, 32u8)));
    }
}

/// Clients are found by their names and tags on the mesh: seen from any node, the name and
/// every tag of every client with a mesh address are bound to that address, in the mesh
/// zone.
pub proof fn lemma_client_names_and_tags_resolve(config: Config, own: Seq<char>, ci: int)
    requires
        0 <= ci < config.clients@.len(),
        config.clients@[ci].1.mesh_ip is Some,
    ensures
        tag_resolution(config, own).contains(
            (
                AllowFromRefView::Bare(config.clients@[ci].0@),
                ZoneRefView::Mesh,
                (config.clients@[ci].1.mesh_ip->0@, 32u8),
            ),
        ),
        forall|ti: int|
            0 <= ti < config.clients@[ci].1.tags@.len() ==> tag_resolution(config, own).contains(
                (
                    AllowFromRefView::Bare((#[trigger] config.clients@[ci].1.tags@[ti])@),
                    ZoneRefView::Mesh,
                    (config.clients@[ci].1.mesh_ip->0@, 32u8),
                ),
            ),
{
    let c = config.clients@[ci];
    let refs = client_refs(c.0@, c.1);
    let b = bind_all(refs, ZoneRefView::Mesh, (c.1.mesh_ip->0@, 32u8));
    assert forall|k: int| 0 <= k < refs.len() implies tag_resolution(config, own).contains(#[trigger] b[k]) by {
        assert(client_bindings(c.0@, c.1, own)[k] == b[k]);
        lemma_client_binding_resolves(config, own, ci, b[k]);
    }
    assert(b[0] == (AllowFromRefView::Bare(c.0@), ZoneRefView::Mesh, (c.1.mesh_ip->0@, 32u8)));
    assert forall|ti: int| 0 <= ti < c.1.tags@.len() implies tag_resolution(config, own).contains(
        (AllowFromRefView::Bare((#[trigger] c.1.tags@[ti])@), ZoneRefView::Mesh, (c.1.mesh_ip->0@, 32u8)),
    ) by {
        assert(b[ti + 1] == (AllowFromRefView::Bare(c.1.tags@[ti]@), ZoneRefView::Mesh, (c.1.mesh_ip->0@, 32u8)));
    }
}

/// `$node` is the configured router: seen from node `own`, `$node` is bound to the router's
/// own address on each of its zones, in that zone.
pub proof fn lemma_self_node_resolves(config: Config, own: Seq<char>, ni: int, zi: int)
    requires
        0 <= ni < config.nodes@.len(),
        config.nodes@[ni].0@ == own,
        0 <= zi < config.nodes@[ni].1.zones@.len(),
    ensures
        tag_resolution(config, own).contains(
            (
                AllowFromRefView::SelfNode,
                ZoneRefView::Named(config.nodes@[ni].1.zones@[zi].0@),
                (config.nodes@[ni].1.zones@[zi].1.address@.0, 32u8),
            ),
        ),
{
    let n = config.nodes@[ni];
    let x = self_zone_fn()(n.1.zones@[zi]);
    assert(self_node_bindings(n.1)[zi] == x);
    assert(node_bindings(n.0@, n.1, own)[zi] == x);
    lemma_node_binding_resolves(config, own, ni, x);
}

} // verus!
