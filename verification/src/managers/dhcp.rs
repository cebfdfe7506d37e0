//! Static DHCP leases for the devices of the node's zones and for the clients that have an
//! address on one of them.

use vstd::prelude::*;

use crate::config::{Client, Config, Node, NodeZone, NodeZoneDevice, is_zone_of};
use crate::entries::{dedup, find_key, lemma_filter_map_has, lemma_flat_map_has, lookup};
use crate::managers::{
    UciSectionBuilder, add_list_cmds, all_own, lemma_all_own_flat_map, lemma_section_paths_own, mac_strings, option_path,
    section_path, set_opt, writes_own,
};
use crate::naming::name_prefixed;
use crate::consts::spec_name_prefix;
use crate::text::{sorted_of, to_string};
use crate::types::identifier::Identifier;
use crate::types::ip::{Ipv4Addr, ipv4_text};
use crate::types::mac::{MacAddress, mac_text};
use crate::uci::{UciBatchCommand, UciCmd, append_cmds, cmds_view};

verus! {

broadcast use {vstd::seq_lib::group_seq_properties, vstd::seq::Seq::group_seq_extra};

/// `dhcp`
pub open spec fn spec_dhcp_file_name() -> Seq<char> {
    seq!['d', 'h', 'c', 'p']
}

/// A static lease: an address handed to the hosts with the given MAC addresses.
#[derive(Debug)]
pub struct DhcpStaticLease {
    pub name: String,
    pub macs: Vec<MacAddress>,
    pub ip: Ipv4Addr,
}

/// What a lease says: name, MAC addresses, address.
pub type LeaseView = (Seq<char>, Seq<Seq<u8>>, u32);

/// The views of a sequence of MAC addresses.
pub open spec fn macs_view(s: Seq<MacAddress>) -> Seq<Seq<u8>> {
    s.map_values(|m: MacAddress| m@)
}

impl View for DhcpStaticLease {
    type V = LeaseView;

    open spec fn view(&self) -> LeaseView {
        (self.name@, macs_view(self.macs@), self.ip@)
    }
}

/// The views of a sequence of leases.
pub open spec fn leases_view(s: Seq<DhcpStaticLease>) -> Seq<LeaseView> {
    s.map_values(|l: DhcpStaticLease| l@)
}

/// The commands that write a lease: its name and address, then its MAC addresses in
/// `String` order.
pub open spec fn lease_cmds(l: LeaseView) -> Seq<UciCmd> {
    let p = section_path(spec_dhcp_file_name(), l.0);
    seq![
        UciCmd::SetValue(p, seq!['h', 'o', 's', 't']),
        set_opt(p, seq!['n', 'a', 'm', 'e'], spec_name_prefix() + l.0),
        set_opt(p, seq!['i', 'p'], ipv4_text(l.2)),
    ] + add_list_cmds(
        option_path(p, seq!['m', 'a', 'c']),
        sorted_of(l.1.map_values(|m: Seq<u8>| mac_text(m))),
    )
}

impl DhcpStaticLease {
    /// The commands that write this lease.
    pub fn to_uci_commands(&self) -> (r: Vec<UciBatchCommand>)
        ensures
            cmds_view(r@) == lease_cmds(self@),
    {
        proof {
            reveal_strlit("dhcp");
            reveal_strlit("host");
            reveal_strlit("name");
            reveal_strlit("ip");
            reveal_strlit("mac");
        }
        assert("dhcp"@ =~= spec_dhcp_file_name());
        assert("host"@ =~= seq!['h', 'o', 's', 't']);
        assert("name"@ =~= seq!['n', 'a', 'm', 'e']);
        assert("ip"@ =~= seq!['i', 'p']);
        assert("mac"@ =~= seq!['m', 'a', 'c']);
        let ghost p = section_path(spec_dhcp_file_name(), self.name@);
        let label = name_prefixed(self.name.as_str());
        let ip = self.ip.to_string();
        let macs = mac_strings(&self.macs);
        assert(self.macs@.map_values(|m: MacAddress| mac_text(m@)) =~= macs_view(self.macs@).map_values(
            |m: Seq<u8>| mac_text(m),
        ));
        let b = UciSectionBuilder::new("dhcp", self.name.as_str(), "host");
        let b = b.set("name", label.as_str());
        let b = b.set("ip", ip.as_str());
        assert(b.cmds() =~= seq![
            UciCmd::SetValue(p, seq!['h', 'o', 's', 't']),
            set_opt(p, seq!['n', 'a', 'm', 'e'], spec_name_prefix() + self.name@),
            set_opt(p, seq!['i', 'p'], ipv4_text(self.ip@)),
        ]);
        let b = b.extend_list("mac", macs);
        b.build()
    }
}

/// Each MAC address once, at its first position.
fn unique_macs(v: &Vec<MacAddress>) -> (r: Vec<MacAddress>)
    ensures
        macs_view(r@) == dedup(macs_view(v@)),
{
    let ghost vv = macs_view(v@);
    let mut r: Vec<MacAddress> = Vec::new();
    let mut i: usize = 0;
    while i < v.len()
        invariant
            i <= v@.len(),
            vv == macs_view(v@),
            macs_view(r@) == dedup(vv.take(i as int)),
        decreases v@.len() - i,
    {
        let mut found = false;
        let mut j: usize = 0;
        while j < r.len()
            invariant
                j <= r@.len(),
                i < v@.len(),
                found == macs_view(r@).take(j as int).contains(v@[i as int]@),
            decreases r@.len() - j,
        {
            if r[j].same(&v[i]) {
                found = true;
            }
            proof {
                assert(macs_view(r@).take(j + 1) =~= macs_view(r@).take(j as int).push(r@[j as int]@));
            }
            j = j + 1;
        }
        assert(macs_view(r@).take(r@.len() as int) =~= macs_view(r@));
        assert(vv.take(i + 1).drop_last() =~= vv.take(i as int));
        assert(vv.take(i + 1).last() == v@[i as int]@);
        let ghost before = r@;
        if !found {
            r.push(v[i]);
            assert(macs_view(r@) =~= macs_view(before).push(v@[i as int]@));
        }
        i = i + 1;
    }
    assert(vv.take(vv.len() as int) =~= vv);
    r
}

pub open spec fn device_lease_fn() -> spec_fn((Identifier, NodeZoneDevice)) -> Option<LeaseView> {
    |d: (Identifier, NodeZoneDevice)|
        if d.1.macs@.len() == 0 {
            None
        } else {
            Some((d.0@, dedup(macs_view(d.1.macs@)), d.1.ip@))
        }
}

pub open spec fn zone_leases_fn() -> spec_fn((Identifier, NodeZone)) -> Seq<LeaseView> {
    |z: (Identifier, NodeZone)| z.1.devices@.filter_map(device_lease_fn())
}

/// The leases of the devices of node `own`'s zones that have MAC addresses.
pub open spec fn device_leases(config: Config, own: Seq<char>) -> Seq<LeaseView> {
    lookup(config.nodes@, own)->0.zones@.flat_map(zone_leases_fn())
}

pub open spec fn client_net_lease_fn(name: Seq<char>, client: Client, node: Node) -> spec_fn(
    (Identifier, Ipv4Addr),
) -> Option<LeaseView> {
    |e: (Identifier, Ipv4Addr)|
        if is_zone_of(node, e.0@) {
            Some((name, dedup(macs_view(client.macs@)), e.1@))
        } else {
            None
        }
}

pub open spec fn client_leases_fn(node: Node, own: Seq<char>) -> spec_fn((Identifier, Client)) -> Seq<
    LeaseView,
> {
    |c: (Identifier, Client)|
        if c.1.macs@.len() == 0 {
            seq![]
        } else {
            match lookup(c.1.ips@, own) {
                None => seq![],
                Some(nets) => nets@.filter_map(client_net_lease_fn(c.0@, c.1, node)),
            }
        }
}

/// The leases of the clients with MAC addresses, one per address they have on a zone of
/// node `own`.
pub open spec fn client_leases(config: Config, own: Seq<char>) -> Seq<LeaseView> {
    config.clients@.flat_map(client_leases_fn(lookup(config.nodes@, own)->0, own))
}

/// The DHCP commands of node `own`: device leases, then client leases.
pub open spec fn dhcp_commands(config: Config, own: Seq<char>) -> Seq<UciCmd> {
    (device_leases(config, own) + client_leases(config, own)).flat_map(|l: LeaseView| lease_cmds(l))
}

fn get_static_leases(node: &Node) -> (r: Vec<DhcpStaticLease>)
    ensures
        leases_view(r@) == node.zones@.flat_map(zone_leases_fn()),
{
    let mut r: Vec<DhcpStaticLease> = Vec::new();
    let mut zi: usize = 0;
    while zi < node.zones.len()
        invariant
            zi <= node.zones@.len(),
            leases_view(r@) == node.zones@.take(zi as int).flat_map(zone_leases_fn()),
        decreases node.zones@.len() - zi,
    {
        let z = &node.zones[zi];
        let ghost before = leases_view(r@);
        let mut di: usize = 0;
        while di < z.1.devices.len()
            invariant
                di <= z.1.devices@.len(),
                leases_view(r@) == before + z.1.devices@.take(di as int).filter_map(device_lease_fn()),
            decreases z.1.devices@.len() - di,
        {
            let d = &z.1.devices[di];
            let ghost pre = r@;
            if d.1.macs.len() != 0 {
                let lease = DhcpStaticLease {
                    ip: d.1.ip,
                    macs: unique_macs(d.1.macs.items()),
                    name: d.0.to_string(),
                };
                r.push(lease);
                assert(leases_view(r@) =~= leases_view(pre).push(r@.last()@));
            }
            di = di + 1;
        }
        assert(z.1.devices@.take(z.1.devices@.len() as int) =~= z.1.devices@);
        zi = zi + 1;
    }
    assert(node.zones@.take(node.zones@.len() as int) =~= node.zones@);
    r
}

fn get_client_static_leases(config: &Config, node: &Node, own_name: &Identifier) -> (r: Vec<DhcpStaticLease>)
    ensures
        leases_view(r@) == config.clients@.flat_map(client_leases_fn(*node, own_name@)),
{
    let mut r: Vec<DhcpStaticLease> = Vec::new();
    let mut ci: usize = 0;
    while ci < config.clients.len()
        invariant
            ci <= config.clients@.len(),
            leases_view(r@) == config.clients@.take(ci as int).flat_map(client_leases_fn(*node, own_name@)),
        decreases config.clients@.len() - ci,
    {
        let c = &config.clients[ci];
        if c.1.macs.len() != 0 {
            match find_key(&c.1.ips, own_name) {
                Some(k) => {
                    let nets = &c.1.ips[k].1;
                    let ghost before = leases_view(r@);
                    let ghost f = client_net_lease_fn(c.0@, c.1, *node);
                    let mut j: usize = 0;
                    while j < nets.len()
                        invariant
                            j <= nets@.len(),
                            f == client_net_lease_fn(c.0@, c.1, *node),
                            leases_view(r@) == before + nets@.take(j as int).filter_map(f),
                        decreases nets@.len() - j,
                    {
                        let e = &nets[j];
                        let ghost pre = r@;
                        match node.network_by_name(&e.0) {
                            Some(crate::config::ZoneOrVpnInterface::Zone(_)) => {
                                let lease = DhcpStaticLease {
                                    macs: unique_macs(c.1.macs.items()),
                                    ip: e.1,
                                    name: c.0.to_string(),
                                };
                                r.push(lease);
                                assert(leases_view(r@) =~= leases_view(pre).push(r@.last()@));
                            },
                            _ => {},
                        }
                        j = j + 1;
                    }
                    assert(nets@.take(nets@.len() as int) =~= nets@);
                },
                None => {
                    assert(leases_view(r@) =~= leases_view(r@) + client_leases_fn(*node, own_name@)(*c));
                },
            }
        } else {
            assert(leases_view(r@) =~= leases_view(r@) + client_leases_fn(*node, own_name@)(*c));
        }
        ci = ci + 1;
    }
    assert(config.clients@.take(config.clients@.len() as int) =~= config.clients@);
    r
}

/// Writes the DHCP configuration file.
pub struct DhcpManager;

impl DhcpManager {
    /// The configuration file this manager writes.
    pub fn config_file(&self) -> (r: &'static str)
        ensures
            r@ == spec_dhcp_file_name(),
    {
        proof {
            reveal_strlit("dhcp");
        }
        "dhcp"
    }

    /// Whether the DHCP configuration of node `own_name` can be generated: the node exists.
    pub fn is_ready(&self, config: &Config, own_name: &Identifier) -> (r: bool)
        ensures
            r == (lookup(config.nodes@, own_name@) is Some),
    {
        find_key(&config.nodes, own_name).is_some()
    }

    /// The commands that write the DHCP configuration of node `own_name`.
    pub fn generate_commands(&self, config: &Config, own_name: &Identifier) -> (r: Vec<UciBatchCommand>)
        requires
            lookup(config.nodes@, own_name@) is Some,
        ensures
            cmds_view(r@) == dhcp_commands(*config, own_name@),
    {
        let ni = match find_key(&config.nodes, own_name) {
            Some(i) => i,
            None => {
                proof {
                    assert(false);
                }
                return Vec::new();
            },
        };
        let node = &config.nodes[ni].1;
        let mut leases = get_static_leases(node);
        let ghost lv0 = leases_view(leases@);
        let more = get_client_static_leases(config, node, own_name);
        let ghost lv1 = leases_view(more@);
        let mut more = more;
        leases.append(&mut more);
        let ghost lv = leases_view(leases@);
        assert(lv =~= lv0 + lv1);
        let ghost f = |l: LeaseView| lease_cmds(l);
        let mut r: Vec<UciBatchCommand> = Vec::new();
        let mut i: usize = 0;
        while i < leases.len()
            invariant
                i <= leases@.len(),
                lv == leases_view(leases@),
                f == (|l: LeaseView| lease_cmds(l)),
                cmds_view(r@) == lv.take(i as int).flat_map(f),
            decreases leases@.len() - i,
        {
            append_cmds(&mut r, leases[i].to_uci_commands());
            assert(lv[i as int] == leases@[i as int]@);
            i = i + 1;
        }
        assert(lv.take(lv.len() as int) =~= lv);
        r
    }
}

/// A lease is written inside a section splot owns in `dhcp`.
pub proof fn lemma_lease_section_own(l: LeaseView)
    ensures
        all_own(lease_cmds(l), spec_dhcp_file_name()),
{
    let f = spec_dhcp_file_name();
    lemma_section_paths_own(f, l.0);
    assert forall|i: int| 0 <= i < lease_cmds(l).len() implies writes_own(#[trigger] lease_cmds(l)[i], f) by {}
}

/// Every DHCP command of a node writes inside a section splot owns in `dhcp`.
pub proof fn lemma_dhcp_commands_own(config: Config, own: Seq<char>)
    ensures
        all_own(dhcp_commands(config, own), spec_dhcp_file_name()),
{
    let f = |l: LeaseView| lease_cmds(l);
    let s = device_leases(config, own) + client_leases(config, own);
    assert forall|j: int| 0 <= j < s.len() implies all_own(f(#[trigger] s[j]), spec_dhcp_file_name()) by {
        lemma_lease_section_own(s[j]);
    }
    lemma_all_own_flat_map(s, f, spec_dhcp_file_name());
    assert(dhcp_commands(config, own) == s.flat_map(f));
}

/// The texts of MAC addresses.
pub open spec fn mac_texts(ms: Seq<Seq<u8>>) -> Seq<Seq<char>> {
    ms.map_values(|m: Seq<u8>| mac_text(m))
}

/// Every command of one lease is among the DHCP commands.
proof fn lemma_lease_written(config: Config, own: Seq<char>, l: LeaseView)
    requires
        device_leases(config, own).contains(l) || client_leases(config, own).contains(l),
    ensures
        forall|q: int| 0 <= q < lease_cmds(l).len() ==> dhcp_commands(config, own).contains(#[trigger] lease_cmds(l)[q]),
{
    let all = device_leases(config, own) + client_leases(config, own);
    let idx = if device_leases(config, own).contains(l) {
        choose|w: int| 0 <= w < device_leases(config, own).len() && device_leases(config, own)[w] == l
    } else {
        let w = choose|w: int| 0 <= w < client_leases(config, own).len() && client_leases(config, own)[w] == l;
        device_leases(config, own).len() + w
    };
    assert(all[idx] == l);
    let f = |x: LeaseView| lease_cmds(x);
    assert forall|q: int| 0 <= q < lease_cmds(l).len() implies dhcp_commands(config, own).contains(
        #[trigger] lease_cmds(l)[q],
    ) by {
        assert(f(all[idx]) == lease_cmds(l));
        lemma_flat_map_has(all, f, idx, q);
    }
}

/// Roaming clients keep their address behind the configured node: every client with MAC
/// addresses and an address on a zone of node `own` gets a host section named after it,
/// holding that address and each of its MAC addresses.
pub proof fn lemma_client_leases_written(config: Config, own: Seq<char>, ci: int, k: int)
    requires
        0 <= ci < config.clients@.len(),
        config.clients@[ci].1.macs@.len() > 0,
        lookup(config.clients@[ci].1.ips@, own) is Some,
        0 <= k < lookup(config.clients@[ci].1.ips@, own)->0@.len(),
        is_zone_of(lookup(config.nodes@, own)->0, lookup(config.clients@[ci].1.ips@, own)->0@[k].0@),
    ensures
        ({
            let p = section_path(spec_dhcp_file_name(), config.clients@[ci].0@);
            let ip = lookup(config.clients@[ci].1.ips@, own)->0@[k].1@;
            let macs = dedup(macs_view(config.clients@[ci].1.macs@));
            &&& dhcp_commands(config, own).contains(UciCmd::SetValue(p, seq!['h', 'o', 's', 't']))
            &&& dhcp_commands(config, own).contains(
                set_opt(p, seq!['n', 'a', 'm', 'e'], spec_name_prefix() + config.clients@[ci].0@),
            )
            &&& dhcp_commands(config, own).contains(set_opt(p, seq!['i', 'p'], ipv4_text(ip)))
            &&& forall|q: int|
                0 <= q < sorted_of(mac_texts(macs)).len() ==> dhcp_commands(
                    config,
                    own,
                ).contains(
                    UciCmd::AddList(
                        option_path(p, seq!['m', 'a', 'c']),
                        #[trigger] sorted_of(mac_texts(macs))[q],
                    ),
                )
        }),
{
    let node = lookup(config.nodes@, own)->0;
    let c = config.clients@[ci];
    let nets = lookup(c.1.ips@, own)->0@;
    let l = (c.0@, dedup(macs_view(c.1.macs@)), nets[k].1@);
    let g = client_net_lease_fn(c.0@, c.1, node);
    assert(g(nets[k]) == Some(l));
    lemma_filter_map_has(nets, g, k);
    let cl = client_leases_fn(node, own);
    assert(cl(c) == nets.filter_map(g));
    let w = choose|w: int| 0 <= w < nets.filter_map(g).len() && nets.filter_map(g)[w] == l;
    lemma_flat_map_has(config.clients@, cl, ci, w);
    lemma_lease_written(config, own, l);
    let cmds = lease_cmds(l);
    assert(cmds[0] == UciCmd::SetValue(section_path(spec_dhcp_file_name(), c.0@), seq!['h', 'o', 's', 't']));
    assert(cmds[1] == set_opt(section_path(spec_dhcp_file_name(), c.0@), seq!['n', 'a', 'm', 'e'], spec_name_prefix() + c.0@));
    assert(cmds[2] == set_opt(section_path(spec_dhcp_file_name(), c.0@), seq!['i', 'p'], ipv4_text(nets[k].1@)));
    let texts = sorted_of(mac_texts(l.1));
    assert(mac_texts(l.1) =~= l.1.map_values(|m: Seq<u8>| mac_text(m)));
    assert forall|q: int| 0 <= q < texts.len() implies dhcp_commands(config, own).contains(
        UciCmd::AddList(option_path(section_path(spec_dhcp_file_name(), c.0@), seq!['m', 'a', 'c']), #[trigger] texts[q]),
    ) by {
        assert(cmds[3 + q] == UciCmd::AddList(
            option_path(section_path(spec_dhcp_file_name(), c.0@), seq!['m', 'a', 'c']),
            texts[q],
        ));
    }
}

/// Devices keep their address: every device with MAC addresses on a zone of node `own` gets
/// a host section named after it, holding its address and each of its MAC addresses.
pub proof fn lemma_device_leases_written(config: Config, own: Seq<char>, zi: int, di: int)
    requires
        lookup(config.nodes@, own) is Some,
        0 <= zi < lookup(config.nodes@, own)->0.zones@.len(),
        0 <= di < lookup(config.nodes@, own)->0.zones@[zi].1.devices@.len(),
        lookup(config.nodes@, own)->0.zones@[zi].1.devices@[di].1.macs@.len() > 0,
    ensures
        ({
            let d = lookup(config.nodes@, own)->0.zones@[zi].1.devices@[di];
            let p = section_path(spec_dhcp_file_name(), d.0@);
            let macs = dedup(macs_view(d.1.macs@));
            &&& dhcp_commands(config, own).contains(UciCmd::SetValue(p, seq!['h', 'o', 's', 't']))
            &&& dhcp_commands(config, own).contains(set_opt(p, seq!['n', 'a', 'm', 'e'], spec_name_prefix() + d.0@))
            &&& dhcp_commands(config, own).contains(set_opt(p, seq!['i', 'p'], ipv4_text(d.1.ip@)))
            &&& forall|q: int|
                0 <= q < sorted_of(mac_texts(macs)).len() ==> dhcp_commands(config, own).contains(
                    UciCmd::AddList(option_path(p, seq!['m', 'a', 'c']), #[trigger] sorted_of(mac_texts(macs))[q]),
                )
        }),
{
    let node = lookup(config.nodes@, own)->0;
    let z = node.zones@[zi];
    let d = z.1.devices@[di];
    let l = (d.0@, dedup(macs_view(d.1.macs@)), d.1.ip@);
    assert(device_lease_fn()(d) == Some(l));
    lemma_filter_map_has(z.1.devices@, device_lease_fn(), di);
    assert(zone_leases_fn()(z) == z.1.devices@.filter_map(device_lease_fn()));
    let w = choose|w: int|
        0 <= w < z.1.devices@.filter_map(device_lease_fn()).len() && z.1.devices@.filter_map(device_lease_fn())[w]
            == l;
    lemma_flat_map_has(node.zones@, zone_leases_fn(), zi, w);
    lemma_lease_written(config, own, l);
    let p = section_path(spec_dhcp_file_name(), d.0@);
    let cmds = lease_cmds(l);
    assert(cmds[0] == UciCmd::SetValue(p, seq!['h', 'o', 's', 't']));
    assert(cmds[1] == set_opt(p, seq!['n', 'a', 'm', 'e'], spec_name_prefix() + d.0@));
    assert(cmds[2] == set_opt(p, seq!['i', 'p'], ipv4_text(d.1.ip@)));
    let texts = sorted_of(mac_texts(l.1));
    assert(mac_texts(l.1) =~= l.1.map_values(|m: Seq<u8>| mac_text(m)));
    assert forall|q: int| 0 <= q < texts.len() implies dhcp_commands(config, own).contains(
        UciCmd::AddList(option_path(p, seq!['m', 'a', 'c']), #[trigger] texts[q]),
    ) by {
        assert(cmds[3 + q] == UciCmd::AddList(option_path(p, seq!['m', 'a', 'c']), texts[q]));
    }
}

} // verus!
