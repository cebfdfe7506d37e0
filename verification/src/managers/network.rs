//! The WireGuard interfaces of a node: the mesh interface, peered with every other node and
//! with the clients that have a mesh address, and one interface per VPN interface of the
//! node, peered with its own peers and with the clients that have an address on it.

use vstd::prelude::*;

use crate::config::{Client, Config, Node, NodeVpnInterface, NodeVpnInterfaceClient, NodeZone, node_addresses};
use crate::consts::{mesh_interface_name, spec_mesh_interface_name, spec_name_prefix, spec_section_prefix};
use crate::entries::{find_key, lemma_filter_map_has, lookup};
use crate::managers::firewall::rules::{host_on, ifaces_view, is_host_on, local_networks, nets_view};
use crate::managers::{
    UciSectionBuilder, add_list_cmds, all_own, interface_strings, lemma_all_own_concat, lemma_all_own_flat_map,
    lemma_section_paths_own, network_strings, option_path, section_path, set_opt, writes_own,
};
use crate::naming::{interface, name_prefixed};
use crate::text::{concat2, dec, sorted_of, to_string};
use crate::types::identifier::Identifier;
use crate::types::ip::{Ipv4Addr, Ipv4Interface, Ipv4Network, cidr_text, ipv4_text, network_of};
use crate::types::port::Port;
use crate::uci::{UciBatchCommand, UciCmd, append_cmds, cmds_view};

verus! {

broadcast use {vstd::seq_lib::group_seq_properties, vstd::seq::Seq::group_seq_extra};

/// `network`
pub open spec fn spec_network_file_name() -> Seq<char> {
    seq!['n', 'e', 't', 'w', 'o', 'r', 'k']
}

/// A WireGuard peer of an interface.
#[derive(Debug)]
pub struct WgClient {
    pub description: String,
    pub public_key: String,
    pub allowed_ips: Vec<Ipv4Network>,
    pub route_allowed_ips: bool,
    pub endpoint_host: Option<Ipv4Addr>,
    pub endpoint_port: Option<Port>,
}

/// What a peer says: description, public key, allowed networks, whether routes to them are
/// added, endpoint address and port.
pub type WgClientView = (Seq<char>, Seq<char>, Seq<(u32, u8)>, bool, Option<u32>, Option<u16>);

impl View for WgClient {
    type V = WgClientView;

    open spec fn view(&self) -> WgClientView {
        (
            self.description@,
            self.public_key@,
            nets_view(self.allowed_ips@),
            self.route_allowed_ips,
            match self.endpoint_host {
                Some(h) => Some(h@),
                None => None,
            },
            match self.endpoint_port {
                Some(p) => Some(p@),
                None => None,
            },
        )
    }
}

/// A WireGuard interface with its peers.
#[derive(Debug)]
pub struct WgInterface {
    pub name: String,
    pub private_key: String,
    pub listen_port: Port,
    pub addresses: Vec<Ipv4Interface>,
    pub clients: Vec<WgClient>,
}

/// What an interface says: name, private key, listen port, addresses, peers.
pub type WgInterfaceView = (Seq<char>, Seq<char>, u16, Seq<(u32, u8)>, Seq<WgClientView>);

/// The views of a sequence of peers.
pub open spec fn wg_clients_view(s: Seq<WgClient>) -> Seq<WgClientView> {
    s.map_values(|c: WgClient| c@)
}

impl View for WgInterface {
    type V = WgInterfaceView;

    open spec fn view(&self) -> WgInterfaceView {
        (
            self.name@,
            self.private_key@,
            self.listen_port@,
            ifaces_view(self.addresses@),
            wg_clients_view(self.clients@),
        )
    }
}

/// The views of a sequence of interfaces.
pub open spec fn wg_interfaces_view(s: Seq<WgInterface>) -> Seq<WgInterfaceView> {
    s.map_values(|i: WgInterface| i@)
}

/// The commands that write a peer of interface `iface`.
pub open spec fn wg_client_cmds(c: WgClientView, iface: Seq<char>) -> Seq<UciCmd> {
    let p = section_path(spec_network_file_name(), c.0);
    seq![
        UciCmd::SetValue(
            p,
            seq!['w', 'i', 'r', 'e', 'g', 'u', 'a', 'r', 'd', '_'] + spec_section_prefix() + iface,
        ),
        set_opt(
            p,
            seq!['d', 'e', 's', 'c', 'r', 'i', 'p', 't', 'i', 'o', 'n'],
            spec_name_prefix() + c.0,
        ),
        set_opt(p, seq!['p', 'u', 'b', 'l', 'i', 'c', '_', 'k', 'e', 'y'], c.1),
        set_opt(
            p,
            seq!['r', 'o', 'u', 't', 'e', '_', 'a', 'l', 'l', 'o', 'w', 'e', 'd', '_', 'i', 'p', 's'],
            if c.3 {
                seq!['1']
            } else {
                seq!['0']
            },
        ),
        set_opt(
            p,
            seq!['p', 'e', 'r', 's', 'i', 's', 't', 'e', 'n', 't', '_', 'k', 'e', 'e', 'p', 'a', 'l', 'i', 'v', 'e'],
            seq!['2', '5'],
        ),
    ] + (match c.4 {
        Some(h) => seq![set_opt(p, seq!['e', 'n', 'd', 'p', 'o', 'i', 'n', 't', '_', 'h', 'o', 's', 't'], ipv4_text(h))],
        None => seq![],
    }) + (match c.5 {
        Some(port) => seq![set_opt(p, seq!['e', 'n', 'd', 'p', 'o', 'i', 'n', 't', '_', 'p', 'o', 'r', 't'], dec(port as nat))],
        None => seq![],
    }) + add_list_cmds(
        option_path(p, seq!['a', 'l', 'l', 'o', 'w', 'e', 'd', '_', 'i', 'p', 's']),
        sorted_of(c.2.map_values(|n: (u32, u8)| cidr_text(n))),
    )
}

pub open spec fn wg_client_cmds_fn(iface: Seq<char>) -> spec_fn(WgClientView) -> Seq<UciCmd> {
    |c: WgClientView| wg_client_cmds(c, iface)
}

/// The commands that write an interface, then its peers.
pub open spec fn wg_interface_cmds(i: WgInterfaceView) -> Seq<UciCmd> {
    let p = section_path(spec_network_file_name(), i.0);
    seq![
        UciCmd::SetValue(p, seq!['i', 'n', 't', 'e', 'r', 'f', 'a', 'c', 'e']),
        set_opt(p, seq!['p', 'r', 'o', 't', 'o'], seq!['w', 'i', 'r', 'e', 'g', 'u', 'a', 'r', 'd']),
        set_opt(p, seq!['p', 'r', 'i', 'v', 'a', 't', 'e', '_', 'k', 'e', 'y'], i.1),
        set_opt(p, seq!['l', 'i', 's', 't', 'e', 'n', '_', 'p', 'o', 'r', 't'], dec(i.2 as nat)),
    ] + add_list_cmds(
        option_path(p, seq!['a', 'd', 'd', 'r', 'e', 's', 's']),
        sorted_of(i.3.map_values(|n: (u32, u8)| cidr_text(n))),
    ) + i.4.flat_map(wg_client_cmds_fn(i.0))
}

impl WgClient {
    /// The commands that write this peer of interface `interface_name`.
    pub fn to_uci_commands(&self, interface_name: &str) -> (r: Vec<UciBatchCommand>)
        ensures
            cmds_view(r@) == wg_client_cmds(self@, interface_name@),
    {
        proof {
            reveal_strlit("network");
            reveal_strlit("wireguard_");
            reveal_strlit("description");
            reveal_strlit("public_key");
            reveal_strlit("route_allowed_ips");
            reveal_strlit("1");
            reveal_strlit("0");
            reveal_strlit("persistent_keepalive");
            reveal_strlit("25");
            reveal_strlit("endpoint_host");
            reveal_strlit("endpoint_port");
            reveal_strlit("allowed_ips");
        }
        assert("network"@ =~= spec_network_file_name());
        assert("wireguard_"@ =~= seq!['w', 'i', 'r', 'e', 'g', 'u', 'a', 'r', 'd', '_']);
        assert("description"@ =~= seq!['d', 'e', 's', 'c', 'r', 'i', 'p', 't', 'i', 'o', 'n']);
        assert("public_key"@ =~= seq!['p', 'u', 'b', 'l', 'i', 'c', '_', 'k', 'e', 'y']);
        assert("route_allowed_ips"@ =~= seq![
            'r', 'o', 'u', 't', 'e', '_', 'a', 'l', 'l', 'o', 'w', 'e', 'd', '_', 'i', 'p', 's',
        ]);
        assert("1"@ =~= seq!['1']);
        assert("0"@ =~= seq!['0']);
        assert("persistent_keepalive"@ =~= seq![
            'p', 'e', 'r', 's', 'i', 's', 't', 'e', 'n', 't', '_', 'k', 'e', 'e', 'p', 'a', 'l', 'i', 'v', 'e',
        ]);
        assert("25"@ =~= seq!['2', '5']);
        assert("endpoint_host"@ =~= seq!['e', 'n', 'd', 'p', 'o', 'i', 'n', 't', '_', 'h', 'o', 's', 't']);
        assert("endpoint_port"@ =~= seq!['e', 'n', 'd', 'p', 'o', 'i', 'n', 't', '_', 'p', 'o', 'r', 't']);
        assert("allowed_ips"@ =~= seq!['a', 'l', 'l', 'o', 'w', 'e', 'd', '_', 'i', 'p', 's']);
        let ghost c = self@;
        let ghost p = section_path(spec_network_file_name(), self.description@);
        let section_type = concat2("wireguard_", interface(interface_name).as_str());
        assert(section_type@ =~= seq!['w', 'i', 'r', 'e', 'g', 'u', 'a', 'r', 'd', '_'] + spec_section_prefix()
            + interface_name@);
        let label = name_prefixed(self.description.as_str());
        let route = if self.route_allowed_ips {
            "1"
        } else {
            "0"
        };
        let b = UciSectionBuilder::new("network", self.description.as_str(), section_type.as_str());
        let b = b.set("description", label.as_str());
        let b = b.set("public_key", self.public_key.as_str());
        assert(route@ =~= if c.3 {
            seq!['1']
        } else {
            seq!['0']
        });
        let b = b.set("route_allowed_ips", route);
        let b = b.set("persistent_keepalive", "25");
        let ghost head = b.cmds();
        assert(head =~= seq![
            UciCmd::SetValue(
                p,
                seq!['w', 'i', 'r', 'e', 'g', 'u', 'a', 'r', 'd', '_'] + spec_section_prefix() + interface_name@,
            ),
            set_opt(
                p,
                seq!['d', 'e', 's', 'c', 'r', 'i', 'p', 't', 'i', 'o', 'n'],
                spec_name_prefix() + c.0,
            ),
            set_opt(p, seq!['p', 'u', 'b', 'l', 'i', 'c', '_', 'k', 'e', 'y'], c.1),
            set_opt(
                p,
                seq!['r', 'o', 'u', 't', 'e', '_', 'a', 'l', 'l', 'o', 'w', 'e', 'd', '_', 'i', 'p', 's'],
                if c.3 {
                    seq!['1']
                } else {
                    seq!['0']
                },
            ),
            set_opt(
                p,
                seq!['p', 'e', 'r', 's', 'i', 's', 't', 'e', 'n', 't', '_', 'k', 'e', 'e', 'p', 'a', 'l', 'i', 'v', 'e'],
                seq!['2', '5'],
            ),
        ]);
        let host = match self.endpoint_host {
            Some(h) => Some(h.to_string()),
            None => None,
        };
        let b = match &host {
            Some(h) => b.set("endpoint_host", h.as_str()),
            None => b,
        };
        let ghost mid = b.cmds();
        assert(mid =~= head + (match c.4 {
            Some(h) => seq![set_opt(p, seq!['e', 'n', 'd', 'p', 'o', 'i', 'n', 't', '_', 'h', 'o', 's', 't'], ipv4_text(h))],
            None => seq![],
        }));
        let port = match self.endpoint_port {
            Some(q) => Some(q.to_string()),
            None => None,
        };
        let b = match &port {
            Some(q) => b.set("endpoint_port", q.as_str()),
            None => b,
        };
        assert(b.cmds() =~= mid + (match c.5 {
            Some(port) => seq![set_opt(p, seq!['e', 'n', 'd', 'p', 'o', 'i', 'n', 't', '_', 'p', 'o', 'r', 't'], dec(port as nat))],
            None => seq![],
        }));
        let allowed = network_strings(&self.allowed_ips);
        assert(self.allowed_ips@.map_values(|n: Ipv4Network| cidr_text(n@)) =~= c.2.map_values(
            |n: (u32, u8)| cidr_text(n),
        ));
        let b = b.extend_list("allowed_ips", allowed);
        b.build()
    }
}

impl WgInterface {
    /// The commands that write this interface, then its peers.
    pub fn to_uci_commands(&self) -> (r: Vec<UciBatchCommand>)
        ensures
            cmds_view(r@) == wg_interface_cmds(self@),
    {
        proof {
            reveal_strlit("network");
            reveal_strlit("interface");
            reveal_strlit("proto");
            reveal_strlit("wireguard");
            reveal_strlit("private_key");
            reveal_strlit("listen_port");
            reveal_strlit("address");
        }
        assert("network"@ =~= spec_network_file_name());
        assert("interface"@ =~= seq!['i', 'n', 't', 'e', 'r', 'f', 'a', 'c', 'e']);
        assert("proto"@ =~= seq!['p', 'r', 'o', 't', 'o']);
        assert("wireguard"@ =~= seq!['w', 'i', 'r', 'e', 'g', 'u', 'a', 'r', 'd']);
        assert("private_key"@ =~= seq!['p', 'r', 'i', 'v', 'a', 't', 'e', '_', 'k', 'e', 'y']);
        assert("listen_port"@ =~= seq!['l', 'i', 's', 't', 'e', 'n', '_', 'p', 'o', 'r', 't']);
        assert("address"@ =~= seq!['a', 'd', 'd', 'r', 'e', 's', 's']);
        let ghost v = self@;
        let ghost p = section_path(spec_network_file_name(), self.name@);
        let port = self.listen_port.to_string();
        let b = UciSectionBuilder::new("network", self.name.as_str(), "interface");
        let b = b.set("proto", "wireguard");
        let b = b.set("private_key", self.private_key.as_str());
        let b = b.set("listen_port", port.as_str());
        assert(b.cmds() =~= seq![
            UciCmd::SetValue(p, seq!['i', 'n', 't', 'e', 'r', 'f', 'a', 'c', 'e']),
            set_opt(p, seq!['p', 'r', 'o', 't', 'o'], seq!['w', 'i', 'r', 'e', 'g', 'u', 'a', 'r', 'd']),
            set_opt(p, seq!['p', 'r', 'i', 'v', 'a', 't', 'e', '_', 'k', 'e', 'y'], v.1),
            set_opt(p, seq!['l', 'i', 's', 't', 'e', 'n', '_', 'p', 'o', 'r', 't'], dec(v.2 as nat)),
        ]);
        let addrs = interface_strings(&self.addresses);
        assert(self.addresses@.map_values(|n: Ipv4Interface| cidr_text(n@)) =~= v.3.map_values(
            |n: (u32, u8)| cidr_text(n),
        ));
        let b = b.extend_list("address", addrs);
        let mut r = b.build();
        let ghost head = cmds_view(r@);
        let ghost cv = wg_clients_view(self.clients@);
        let mut i: usize = 0;
        while i < self.clients.len()
            invariant
                i <= self.clients@.len(),
                cv == wg_clients_view(self.clients@),
                cmds_view(r@) == head + cv.take(i as int).flat_map(wg_client_cmds_fn(self.name@)),
            decreases self.clients@.len() - i,
        {
            append_cmds(&mut r, self.clients[i].to_uci_commands(self.name.as_str()));
            assert(cv[i as int] == self.clients@[i as int]@);
            i = i + 1;
        }
        assert(cv.take(cv.len() as int) =~= cv);
        r
    }
}

pub open spec fn peer_client_fn() -> spec_fn((Identifier, NodeVpnInterfaceClient)) -> WgClientView {
    |c: (Identifier, NodeVpnInterfaceClient)|
        (c.0@, c.1.public_key@, seq![(c.1.ip@, 32u8)], false, None::<u32>, None::<u16>)
}

pub open spec fn vpn_global_client_fn(own: Seq<char>, name: Seq<char>) -> spec_fn((Identifier, Client)) -> Option<
    WgClientView,
> {
    |c: (Identifier, Client)|
        match c.1.public_key {
            None => None,
            Some(pk) => match lookup(c.1.ips@, own) {
                None => None,
                Some(nets) => match lookup(nets@, name) {
                    None => None,
                    Some(ip) => Some((c.0@, pk@, seq![(ip@, 32u8)], false, None::<u32>, None::<u16>)),
                },
            },
        }
}

/// The interface for a VPN interface of node `own`: its own peers, then the clients with a
/// public key and an address on it.
pub open spec fn vpn_interface_view(
    name: Seq<char>,
    vpn: NodeVpnInterface,
    own: Seq<char>,
    config: Config,
    key: Seq<char>,
) -> WgInterfaceView {
    (
        name,
        key,
        vpn.listen_port@,
        seq![vpn.address@],
        vpn.clients@.map_values(peer_client_fn()) + config.clients@.filter_map(
            vpn_global_client_fn(own, name),
        ),
    )
}

pub open spec fn mesh_client_fn() -> spec_fn((Identifier, Client)) -> Option<WgClientView> {
    |c: (Identifier, Client)|
        match (c.1.public_key, c.1.mesh_ip) {
            (Some(pk), Some(m)) => Some((c.0@, pk@, seq![(m@, 32u8)], false, None::<u32>, None::<u16>)),
            _ => None,
        }
}

pub open spec fn node_peer_fn(own: Seq<char>) -> spec_fn((Identifier, Node)) -> Option<WgClientView> {
    |n: (Identifier, Node)|
        if n.0@ == own {
            None
        } else {
            Some(
                (
                    n.0@,
                    n.1.public_key@,
                    seq![(n.1.mesh_ip@, 32u8)] + local_networks(n.1),
                    true,
                    Some(n.1.endpoint@),
                    Some(n.1.listen_port@),
                ),
            )
        }
}

/// The mesh interface of node `own`: its mesh address with the mesh network's prefix; as
/// peers every other node (routing to its mesh address and networks, at its endpoint), then
/// every client with a public key and a mesh address.
pub open spec fn mesh_interface_view(config: Config, own: Seq<char>, key: Seq<char>) -> WgInterfaceView {
    let node = lookup(config.nodes@, own)->0;
    (
        spec_mesh_interface_name(),
        key,
        node.listen_port@,
        seq![(node.mesh_ip@, config.mesh_network@.1)],
        config.nodes@.filter_map(node_peer_fn(own)) + config.clients@.filter_map(mesh_client_fn()),
    )
}

pub open spec fn vpn_interface_fn(own: Seq<char>, config: Config, key: Seq<char>) -> spec_fn(
    (Identifier, NodeVpnInterface),
) -> WgInterfaceView {
    |v: (Identifier, NodeVpnInterface)| vpn_interface_view(v.0@, v.1, own, config, key)
}

/// The interfaces of node `own`: the mesh interface, then one per VPN interface.
pub open spec fn node_interfaces(config: Config, own: Seq<char>, key: Seq<char>) -> Seq<WgInterfaceView> {
    seq![mesh_interface_view(config, own, key)] + lookup(config.nodes@, own)->0.vpn_interfaces@.map_values(
        vpn_interface_fn(own, config, key),
    )
}

pub open spec fn wg_interface_cmds_fn() -> spec_fn(WgInterfaceView) -> Seq<UciCmd> {
    |i: WgInterfaceView| wg_interface_cmds(i)
}

/// The network commands of node `own`.
pub open spec fn network_commands(config: Config, own: Seq<char>, key: Seq<char>) -> Seq<UciCmd> {
    node_interfaces(config, own, key).flat_map(wg_interface_cmds_fn())
}

/// What the network configuration of node `own` needs: the node exists and its mesh address
/// is a host address of the mesh network.
pub open spec fn network_ready(config: Config, own: Seq<char>) -> bool {
    &&& lookup(config.nodes@, own) is Some
    &&& host_on(lookup(config.nodes@, own)->0.mesh_ip@, config.mesh_network@.1)
}

fn build_vpn_interface(
    name: &Identifier,
    vpn: &NodeVpnInterface,
    own_name: &Identifier,
    config: &Config,
    private_key: &str,
) -> (r: WgInterface)
    ensures
        r@ == vpn_interface_view(name@, *vpn, own_name@, *config, private_key@),
{
    let mut clients: Vec<WgClient> = Vec::new();
    let mut i: usize = 0;
    while i < vpn.clients.len()
        invariant
            i <= vpn.clients@.len(),
            wg_clients_view(clients@) == vpn.clients@.take(i as int).map_values(peer_client_fn()),
        decreases vpn.clients@.len() - i,
    {
        let c = &vpn.clients[i];
        let mut allowed: Vec<Ipv4Network> = Vec::new();
        allowed.push(Ipv4Network::host(c.1.ip));
        let w = WgClient {
            description: c.0.to_string(),
            allowed_ips: allowed,
            public_key: c.1.public_key.clone(),
            route_allowed_ips: false,
            endpoint_host: None,
            endpoint_port: None,
        };
        assert(w@ == peer_client_fn()(*c)) by {
            assert(nets_view(w.allowed_ips@) =~= seq![(c.1.ip@, 32u8)]);
        }
        let ghost before = clients@;
        clients.push(w);
        proof {
            assert(vpn.clients@.take(i + 1) =~= vpn.clients@.take(i as int).push(vpn.clients@[i as int]));
            assert(wg_clients_view(clients@) =~= wg_clients_view(before).push(w@));
        }
        i = i + 1;
    }
    assert(vpn.clients@.take(vpn.clients@.len() as int) =~= vpn.clients@);
    let ghost head = wg_clients_view(clients@);
    let ghost f = vpn_global_client_fn(own_name@, name@);
    let mut k: usize = 0;
    while k < config.clients.len()
        invariant
            k <= config.clients@.len(),
            f == vpn_global_client_fn(own_name@, name@),
            wg_clients_view(clients@) == head + config.clients@.take(k as int).filter_map(f),
        decreases config.clients@.len() - k,
    {
        let c = &config.clients[k];
        let ghost before = clients@;
        match &c.1.public_key {
            Some(pk) => match find_key(&c.1.ips, own_name) {
                Some(ni) => match find_key(&c.1.ips[ni].1, name) {
                    Some(li) => {
                        let ip = c.1.ips[ni].1[li].1;
                        let mut allowed: Vec<Ipv4Network> = Vec::new();
                        allowed.push(Ipv4Network::host(ip));
                        let w = WgClient {
                            allowed_ips: allowed,
                            description: c.0.to_string(),
                            endpoint_host: None,
                            endpoint_port: None,
                            public_key: pk.clone(),
                            route_allowed_ips: false,
                        };
                        assert(nets_view(w.allowed_ips@) =~= seq![(ip@, 32u8)]);
                        clients.push(w);
                        assert(wg_clients_view(clients@) =~= wg_clients_view(before).push(w@));
                    },
                    None => {},
                },
                None => {},
            },
            None => {},
        }
        k = k + 1;
    }
    assert(config.clients@.take(config.clients@.len() as int) =~= config.clients@);
    let mut addresses: Vec<Ipv4Interface> = Vec::new();
    addresses.push(vpn.address);
    assert(ifaces_view(addresses@) =~= seq![vpn.address@]);
    WgInterface {
        name: name.to_string(),
        addresses,
        listen_port: vpn.listen_port,
        private_key: to_string(private_key),
        clients,
    }
}

fn build_mesh_clients(config: &Config) -> (r: Vec<WgClient>)
    ensures
        wg_clients_view(r@) == config.clients@.filter_map(mesh_client_fn()),
{
    let mut clients: Vec<WgClient> = Vec::new();
    let mut k: usize = 0;
    while k < config.clients.len()
        invariant
            k <= config.clients@.len(),
            wg_clients_view(clients@) == config.clients@.take(k as int).filter_map(mesh_client_fn()),
        decreases config.clients@.len() - k,
    {
        let c = &config.clients[k];
        let ghost before = clients@;
        match (&c.1.public_key, c.1.mesh_ip) {
            (Some(pk), Some(m)) => {
                let mut allowed: Vec<Ipv4Network> = Vec::new();
                allowed.push(Ipv4Network::host(m));
                let w = WgClient {
                    description: c.0.to_string(),
                    public_key: pk.clone(),
                    allowed_ips: allowed,
                    route_allowed_ips: false,
                    endpoint_host: None,
                    endpoint_port: None,
                };
                assert(nets_view(w.allowed_ips@) =~= seq![(m@, 32u8)]);
                clients.push(w);
                assert(wg_clients_view(clients@) =~= wg_clients_view(before).push(w@));
            },
            _ => {},
        }
        k = k + 1;
    }
    assert(config.clients@.take(config.clients@.len() as int) =~= config.clients@);
    clients
}

fn build_node_interfaces(own_name: &Identifier, config: &Config, private_key: &str) -> (r: Vec<WgInterface>)
    requires
        network_ready(*config, own_name@),
    ensures
        wg_interfaces_view(r@) == node_interfaces(*config, own_name@, private_key@),
{
    let oi = match find_key(&config.nodes, own_name) {
        Some(i) => i,
        None => {
            proof {
                assert(false);
            }
            return Vec::new();
        },
    };
    let own_node = &config.nodes[oi].1;
    let mut clients: Vec<WgClient> = Vec::new();
    let mut ni: usize = 0;
    while ni < config.nodes.len()
        invariant
            ni <= config.nodes@.len(),
            wg_clients_view(clients@) == config.nodes@.take(ni as int).filter_map(node_peer_fn(own_name@)),
        decreases config.nodes@.len() - ni,
    {
        let n = &config.nodes[ni];
        let ghost before = clients@;
        if !n.0.same(own_name) {
            let mut allowed: Vec<Ipv4Network> = Vec::new();
            allowed.push(Ipv4Network::host(n.1.mesh_ip));
            let nets = n.1.networks();
            let mut nets = nets;
            let ghost nv = nets@;
            allowed.append(&mut nets);
            assert(nets_view(allowed@) =~= seq![(n.1.mesh_ip@, 32u8)] + local_networks(n.1)) by {
                assert forall|j: int| 0 <= j < local_networks(n.1).len() implies nets_view(allowed@)[j + 1]
                    == local_networks(n.1)[j] by {
                    assert(allowed@[j + 1] == nv[j]);
                }
            }
            let w = WgClient {
                description: n.0.to_string(),
                public_key: n.1.public_key.clone(),
                allowed_ips: allowed,
                route_allowed_ips: true,
                endpoint_host: Some(n.1.endpoint),
                endpoint_port: Some(n.1.listen_port),
            };
            clients.push(w);
            assert(wg_clients_view(clients@) =~= wg_clients_view(before).push(w@));
        }
        ni = ni + 1;
    }
    assert(config.nodes@.take(config.nodes@.len() as int) =~= config.nodes@);
    let mesh_clients = build_mesh_clients(config);
    let ghost cv0 = wg_clients_view(clients@);
    let ghost cv1 = wg_clients_view(mesh_clients@);
    let mut mesh_clients = mesh_clients;
    clients.append(&mut mesh_clients);
    assert(wg_clients_view(clients@) =~= cv0 + cv1);
    let address = match Ipv4Interface::from_ip(own_node.mesh_ip, config.mesh_network.prefix()) {
        Ok(a) => a,
        Err(_) => {
            proof {
                assert(false);
            }
            Ipv4Interface::host(own_node.mesh_ip)
        },
    };
    let mut addresses: Vec<Ipv4Interface> = Vec::new();
    addresses.push(address);
    assert(ifaces_view(addresses@) =~= seq![(own_node.mesh_ip@, config.mesh_network@.1)]);
    let mesh = WgInterface {
        addresses,
        listen_port: own_node.listen_port,
        private_key: to_string(private_key),
        name: to_string(mesh_interface_name()),
        clients,
    };
    let mut interfaces: Vec<WgInterface> = Vec::new();
    interfaces.push(mesh);
    assert(wg_interfaces_view(interfaces@) =~= seq![mesh_interface_view(*config, own_name@, private_key@)]);
    let ghost head = wg_interfaces_view(interfaces@);
    let mut vi: usize = 0;
    while vi < own_node.vpn_interfaces.len()
        invariant
            vi <= own_node.vpn_interfaces@.len(),
            wg_interfaces_view(interfaces@) == head + own_node.vpn_interfaces@.take(vi as int).map_values(
                vpn_interface_fn(own_name@, *config, private_key@),
            ),
        decreases own_node.vpn_interfaces@.len() - vi,
    {
        let v = &own_node.vpn_interfaces[vi];
        let w = build_vpn_interface(&v.0, &v.1, own_name, config, private_key);
        let ghost before = interfaces@;
        interfaces.push(w);
        proof {
            assert(own_node.vpn_interfaces@.take(vi + 1) =~= own_node.vpn_interfaces@.take(vi as int).push(
                own_node.vpn_interfaces@[vi as int],
            ));
            assert(wg_interfaces_view(interfaces@) =~= wg_interfaces_view(before).push(w@));
        }
        vi = vi + 1;
    }
    assert(own_node.vpn_interfaces@.take(own_node.vpn_interfaces@.len() as int) =~= own_node.vpn_interfaces@);
    interfaces
}

/// Writes the network configuration file, with the router's private key.
pub struct NetworkManager {
    pub private_key: String,
}

impl NetworkManager {
    /// The configuration file this manager writes.
    pub fn config_file(&self) -> (r: &'static str)
        ensures
            r@ == spec_network_file_name(),
    {
        proof {
            reveal_strlit("network");
        }
        "network"
    }

    /// Whether the network configuration of node `own_name` can be generated: the node exists
    /// and its mesh address is a host address of the mesh network.
    pub fn is_ready(&self, config: &Config, own_name: &Identifier) -> (r: bool)
        ensures
            r == network_ready(*config, own_name@),
    {
        match find_key(&config.nodes, own_name) {
            Some(i) => is_host_on(config.nodes[i].1.mesh_ip, config.mesh_network.prefix()),
            None => false,
        }
    }

    /// The commands that write the network configuration of node `own_name`.
    pub fn generate_commands(&self, config: &Config, own_name: &Identifier) -> (r: Vec<UciBatchCommand>)
        requires
            network_ready(*config, own_name@),
        ensures
            cmds_view(r@) == network_commands(*config, own_name@, self.private_key@),
    {
        let interfaces = build_node_interfaces(own_name, config, self.private_key.as_str());
        let ghost iv = wg_interfaces_view(interfaces@);
        let mut r: Vec<UciBatchCommand> = Vec::new();
        let mut i: usize = 0;
        while i < interfaces.len()
            invariant
                i <= interfaces@.len(),
                iv == wg_interfaces_view(interfaces@),
                cmds_view(r@) == iv.take(i as int).flat_map(wg_interface_cmds_fn()),
            decreases interfaces@.len() - i,
        {
            append_cmds(&mut r, interfaces[i].to_uci_commands());
            assert(iv[i as int] == interfaces@[i as int]@);
            i = i + 1;
        }
        assert(iv.take(iv.len() as int) =~= iv);
        r
    }
}

proof fn lemma_client_section_own(c: WgClientView, iface: Seq<char>)
    ensures
        all_own(wg_client_cmds(c, iface), spec_network_file_name()),
{
    let f = spec_network_file_name();
    lemma_section_paths_own(f, c.0);
    let cmds = wg_client_cmds(c, iface);
    assert forall|k: int| 0 <= k < cmds.len() implies writes_own(#[trigger] cmds[k], f) by {}
}

/// An interface and its peers are written inside sections splot owns in `network`.
#[verifier::spinoff_prover]
pub proof fn lemma_interface_sections_own(i: WgInterfaceView)
    ensures
        all_own(wg_interface_cmds(i), spec_network_file_name()),
{
    let f = spec_network_file_name();
    let cf = wg_client_cmds_fn(i.0);
    assert forall|j: int| 0 <= j < i.4.len() implies all_own(cf(#[trigger] i.4[j]), f) by {
        lemma_client_section_own(i.4[j], i.0);
    }
    lemma_all_own_flat_map(i.4, cf, f);
    lemma_section_paths_own(f, i.0);
    let cmds = wg_interface_cmds(i);
    let tail = i.4.flat_map(cf);
    let head_len = cmds.len() - tail.len();
    assert forall|k: int| 0 <= k < cmds.len() implies writes_own(#[trigger] cmds[k], f) by {
        if k >= head_len {
            assert(cmds[k] == tail[k - head_len]);
        }
    }
}

/// Every network command of a node writes inside a section splot owns in `network`.
pub proof fn lemma_network_commands_own(config: Config, own: Seq<char>, key: Seq<char>)
    ensures
        all_own(network_commands(config, own, key), spec_network_file_name()),
{
    let s = node_interfaces(config, own, key);
    assert forall|j: int| 0 <= j < s.len() implies all_own(wg_interface_cmds_fn()(#[trigger] s[j]), spec_network_file_name()) by {
        lemma_interface_sections_own(s[j]);
    }
    lemma_all_own_flat_map(s, wg_interface_cmds_fn(), spec_network_file_name());
}

/// Every other node is a peer of the mesh interface, reached at its endpoint, with its mesh
/// address and the network of each of its zones and VPN interfaces among the addresses
/// routed to it and accepted from it.
pub proof fn lemma_mesh_peers_carry_node_networks(config: Config, own: Seq<char>, key: Seq<char>, ni: int)
    requires
        0 <= ni < config.nodes@.len(),
        config.nodes@[ni].0@ != own,
    ensures
        exists|p: WgClientView|
            #[trigger] node_interfaces(config, own, key)[0].4.contains(p) && p.0 == config.nodes@[ni].0@ && p.1
                == config.nodes@[ni].1.public_key@ && p.3 && p.4 == Some(config.nodes@[ni].1.endpoint@) && p.2.contains(
                (config.nodes@[ni].1.mesh_ip@, 32u8),
            ) && (forall|zi: int|
                0 <= zi < config.nodes@[ni].1.zones@.len() ==> p.2.contains(
                    network_of((#[trigger] config.nodes@[ni].1.zones@[zi]).1.address@),
                )) && (forall|vi: int|
                0 <= vi < config.nodes@[ni].1.vpn_interfaces@.len() ==> p.2.contains(
                    network_of((#[trigger] config.nodes@[ni].1.vpn_interfaces@[vi]).1.address@),
                )),
{
    let n = config.nodes@[ni];
    let f = node_peer_fn(own);
    let p = f(n)->0;
    lemma_filter_map_has(config.nodes@, f, ni);
    let nodes_part = config.nodes@.filter_map(f);
    let peers = node_interfaces(config, own, key)[0].4;
    let w = choose|w: int| 0 <= w < nodes_part.len() && nodes_part[w] == p;
    assert(peers == nodes_part + config.clients@.filter_map(mesh_client_fn()));
    assert(peers[w] == p);
    let nets = local_networks(n.1);
    let zc = n.1.zones@.len();
    assert(p.2 == seq![(n.1.mesh_ip@, 32u8)] + nets);
    assert(p.2[0] == (n.1.mesh_ip@, 32u8));
    assert forall|zi: int| 0 <= zi < zc implies p.2.contains(network_of((#[trigger] n.1.zones@[zi]).1.address@)) by {
        assert(node_addresses(n.1)[zi] == n.1.zones@[zi].1.address);
        assert(p.2[zi + 1] == network_of(n.1.zones@[zi].1.address@));
    }
    assert forall|vi: int| 0 <= vi < n.1.vpn_interfaces@.len() implies p.2.contains(
        network_of((#[trigger] n.1.vpn_interfaces@[vi]).1.address@),
    ) by {
        assert(node_addresses(n.1)[zc + vi] == n.1.vpn_interfaces@[vi].1.address);
        assert(p.2[zc + vi + 1] == network_of(n.1.vpn_interfaces@[vi].1.address@));
    }
    assert(peers.contains(p));
}

/// Roaming clients join the mesh: every client with a public key and a mesh address is a
/// peer of the mesh interface, with its mesh address as the one address routed to it and
/// accepted from it.
pub proof fn lemma_mesh_clients_are_peers(config: Config, own: Seq<char>, key: Seq<char>, ci: int)
    requires
        0 <= ci < config.clients@.len(),
        config.clients@[ci].1.public_key is Some,
        config.clients@[ci].1.mesh_ip is Some,
    ensures
        node_interfaces(config, own, key)[0].4.contains(
            (
                config.clients@[ci].0@,
                config.clients@[ci].1.public_key->0@,
                seq![(config.clients@[ci].1.mesh_ip->0@, 32u8)],
                false,
                None::<u32>,
                None::<u16>,
            ),
        ),
{
    let c = config.clients@[ci];
    let p = mesh_client_fn()(c)->0;
    lemma_filter_map_has(config.clients@, mesh_client_fn(), ci);
    let cp = config.clients@.filter_map(mesh_client_fn());
    let w = choose|w: int| 0 <= w < cp.len() && cp[w] == p;
    let np = config.nodes@.filter_map(node_peer_fn(own));
    let peers = node_interfaces(config, own, key)[0].4;
    assert(peers == np + cp);
    assert(peers[np.len() + w] == p);
}

/// Each VPN interface of node `own` is an interface of its own, holding the router's
/// address on it and, as peers, each of its declared peers at its address, and each client
/// with a public key and an address on that interface at that address.
pub proof fn lemma_vpn_interfaces_carry_peers(config: Config, own: Seq<char>, key: Seq<char>, vi: int)
    requires
        lookup(config.nodes@, own) is Some,
        0 <= vi < lookup(config.nodes@, own)->0.vpn_interfaces@.len(),
    ensures
        ({
            let v = lookup(config.nodes@, own)->0.vpn_interfaces@[vi];
            let i = node_interfaces(config, own, key)[vi + 1];
            &&& i.0 == v.0@
            &&& i.3 == seq![v.1.address@]
            &&& forall|pi: int|
                0 <= pi < v.1.clients@.len() ==> i.4.contains(
                    (
                        (#[trigger] v.1.clients@[pi]).0@,
                        v.1.clients@[pi].1.public_key@,
                        seq![(v.1.clients@[pi].1.ip@, 32u8)],
                        false,
                        None::<u32>,
                        None::<u16>,
                    ),
                )
            &&& forall|ci: int|
                0 <= ci < config.clients@.len() && (#[trigger] config.clients@[ci]).1.public_key is Some && lookup(
                    config.clients@[ci].1.ips@,
                    own,
                ) is Some && lookup(lookup(config.clients@[ci].1.ips@, own)->0@, v.0@) is Some ==> i.4.contains(
                    (
                        config.clients@[ci].0@,
                        config.clients@[ci].1.public_key->0@,
                        seq![(lookup(lookup(config.clients@[ci].1.ips@, own)->0@, v.0@)->0@, 32u8)],
                        false,
                        None::<u32>,
                        None::<u16>,
                    ),
                )
        }),
{
    let node = lookup(config.nodes@, own)->0;
    let v = node.vpn_interfaces@[vi];
    let i = node_interfaces(config, own, key)[vi + 1];
    assert(i == vpn_interface_fn(own, config, key)(v));
    let own_peers = v.1.clients@.map_values(peer_client_fn());
    let g = vpn_global_client_fn(own, v.0@);
    assert(i.4 == own_peers + config.clients@.filter_map(g));
    assert forall|pi: int| 0 <= pi < v.1.clients@.len() implies i.4.contains(
        (
            (#[trigger] v.1.clients@[pi]).0@,
            v.1.clients@[pi].1.public_key@,
            seq![(v.1.clients@[pi].1.ip@, 32u8)],
            false,
            None::<u32>,
            None::<u16>,
        ),
    ) by {
        assert(i.4[pi] == own_peers[pi]);
    }
    assert forall|ci: int|
        0 <= ci < config.clients@.len() && (#[trigger] config.clients@[ci]).1.public_key is Some && lookup(
            config.clients@[ci].1.ips@,
            own,
        ) is Some && lookup(lookup(config.clients@[ci].1.ips@, own)->0@, v.0@) is Some implies i.4.contains(
        (
            config.clients@[ci].0@,
            config.clients@[ci].1.public_key->0@,
            seq![(lookup(lookup(config.clients@[ci].1.ips@, own)->0@, v.0@)->0@, 32u8)],
            false,
            None::<u32>,
            None::<u16>,
        ),
    ) by {
        let c = config.clients@[ci];
        let x = g(c)->0;
        lemma_filter_map_has(config.clients@, g, ci);
        let gp = config.clients@.filter_map(g);
        let w = choose|w: int| 0 <= w < gp.len() && gp[w] == x;
        assert(i.4[own_peers.len() + w] == x);
    }
}

} // verus!
