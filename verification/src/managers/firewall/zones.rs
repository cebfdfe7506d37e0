//! The firewall zones splot manages: the mesh zone and one per VPN interface of the node.
//! Zones of the node's own LANs are left to the operator.

use vstd::prelude::*;

use crate::config::{Config, NodeVpnInterface};
use crate::consts::{mesh_interface_name, spec_mesh_interface_name, spec_section_prefix};
use crate::entries::{find_key, lookup};
use crate::managers::firewall::types::FirewallAction;
use crate::naming::{interface, mesh_interface};
use crate::text::{strings_view, to_string};
use crate::types::identifier::Identifier;

verus! {

broadcast use {vstd::seq_lib::group_seq_properties, vstd::seq::Seq::group_seq_extra};

/// A firewall zone with its networks and default policies.
#[derive(Debug)]
pub struct FirewallZone {
    pub name: String,
    pub network: Vec<String>,
    pub input: FirewallAction,
    pub output: FirewallAction,
    pub forward: FirewallAction,
}

/// What a zone says: name, networks, input, output and forward policies.
pub type ZoneView = (Seq<char>, Seq<Seq<char>>, FirewallAction, FirewallAction, FirewallAction);

impl View for FirewallZone {
    type V = ZoneView;

    open spec fn view(&self) -> ZoneView {
        (self.name@, strings_view(self.network@), self.input, self.output, self.forward)
    }
}

/// The views of a sequence of zones.
pub open spec fn zones_view(s: Seq<FirewallZone>) -> Seq<ZoneView> {
    s.map_values(|z: FirewallZone| z@)
}

impl Default for FirewallZone {
    /// A zone without name or network that drops what comes in and what passes through, and
    /// accepts what the router itself sends.
    fn default() -> (r: Self)
        ensures
            r.name@ == Seq::<char>::empty(),
            r.network@.len() == 0,
            r.input == FirewallAction::Drop,
            r.output == FirewallAction::Accept,
            r.forward == FirewallAction::Drop,
    {
        FirewallZone {
            forward: FirewallAction::Drop,
            input: FirewallAction::Drop,
            output: FirewallAction::Accept,
            name: String::new(),
            network: Vec::new(),
        }
    }
}

/// A zone named `name` over the one network `network`, with the default policies.
pub open spec fn managed_zone(name: Seq<char>, network: Seq<char>) -> ZoneView {
    (name, seq![network], FirewallAction::Drop, FirewallAction::Accept, FirewallAction::Drop)
}

pub open spec fn vpn_zone_fn() -> spec_fn((Identifier, NodeVpnInterface)) -> ZoneView {
    |e: (Identifier, NodeVpnInterface)| managed_zone(e.0@, spec_section_prefix() + e.0@)
}

/// The zones of node `own`: the mesh zone over the mesh interface, then one zone per VPN
/// interface over that interface.
pub open spec fn firewall_zones(config: Config, own: Seq<char>) -> Seq<ZoneView> {
    seq![managed_zone(spec_mesh_interface_name(), spec_section_prefix() + spec_mesh_interface_name())]
        + lookup(config.nodes@, own)->0.vpn_interfaces@.map_values(vpn_zone_fn())
}

/// Every managed zone drops unsolicited input and forwarded traffic and accepts the router's
/// own output: access is granted only by explicit rules.
pub proof fn lemma_zones_zero_trust(config: Config, own: Seq<char>, i: int)
    requires
        0 <= i < firewall_zones(config, own).len(),
    ensures
        firewall_zones(config, own)[i].2 == FirewallAction::Drop,
        firewall_zones(config, own)[i].3 == FirewallAction::Accept,
        firewall_zones(config, own)[i].4 == FirewallAction::Drop,
{
}

/// The zones splot manages on node `own_name`.
pub fn get_firewall_zones(config: &Config, own_name: &Identifier) -> (r: Vec<FirewallZone>)
    requires
        lookup(config.nodes@, own_name@) is Some,
    ensures
        zones_view(r@) == firewall_zones(*config, own_name@),
{
    let ni = match find_key(&config.nodes, own_name) {
        Some(i) => i,
        None => {
            proof {
                assert(false);
            }
            return Vec::new();
        },
    };
    let node = &config.nodes[ni].1;
    let mut zones: Vec<FirewallZone> = Vec::new();
    let mut network: Vec<String> = Vec::new();
    network.push(mesh_interface());
    zones.push(
        FirewallZone {
            name: to_string(mesh_interface_name()),
            network,
            ..Default::default()
        },
    );
    assert(zones_view(zones@) =~= seq![
        managed_zone(spec_mesh_interface_name(), spec_section_prefix() + spec_mesh_interface_name()),
    ]);
    let ghost head = zones_view(zones@);
    let mut i: usize = 0;
    while i < node.vpn_interfaces.len()
        invariant
            i <= node.vpn_interfaces@.len(),
            zones_view(zones@) == head + node.vpn_interfaces@.take(i as int).map_values(vpn_zone_fn()),
        decreases node.vpn_interfaces@.len() - i,
    {
        let v = &node.vpn_interfaces[i];
        let mut network: Vec<String> = Vec::new();
        network.push(interface(v.0.as_str()));
        let z = FirewallZone { name: v.0.to_string(), network, ..Default::default() };
        assert(z@ == vpn_zone_fn()(*v)) by {
            assert(strings_view(z.network@) =~= seq![spec_section_prefix() + v.0@]);
        }
        let ghost before = zones@;
        zones.push(z);
        proof {
            assert(node.vpn_interfaces@.take(i + 1) =~= node.vpn_interfaces@.take(i as int).push(
                node.vpn_interfaces@[i as int],
            ));
            assert(zones_view(zones@) =~= zones_view(before).push(vpn_zone_fn()(*v)));
        }
        i = i + 1;
    }
    assert(node.vpn_interfaces@.take(node.vpn_interfaces@.len() as int) =~= node.vpn_interfaces@);
    zones
}

} // verus!
