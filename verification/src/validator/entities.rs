//! Clients: the nodes and networks their addresses name must exist, and their MAC addresses
//! and public key must match how they are reached.

use vstd::prelude::*;

use crate::config::{Client, Config, Node, ZoneOrVpnInterface, has_network, is_vpn_of, is_zone_of};
use crate::entries::{find_key, lookup};
use crate::types::config_location::{ClientIpLoc, ClientLoc, ConfigLocation};
use crate::types::identifier::Identifier;
use crate::types::ip::Ipv4Addr;
use crate::validator::types::{ErrorView, ValidationError, ValidationReport, ValidationWarning, errors_view};

verus! {

broadcast use {vstd::seq_lib::group_seq_properties, vstd::seq::Seq::group_seq_extra};

pub open spec fn missing_network_fn(client: Identifier, node_name: Identifier, node: Node) -> spec_fn(
    (Identifier, Ipv4Addr),
) -> Option<ErrorView> {
    |n: (Identifier, Ipv4Addr)|
        if has_network(node, n.0@) {
            None
        } else {
            Some(
                ErrorView::NodeNetworkMissing {
                    node_name,
                    network_name: n.0,
                    at: ConfigLocation::Client(client, ClientLoc::Ip(node_name, ClientIpLoc::Network(n.0))),
                },
            )
        }
}

#[verifier::opaque]
pub open spec fn client_node_fn(config: Config, client: Identifier) -> spec_fn(
    (Identifier, Vec<(Identifier, Ipv4Addr)>),
) -> Seq<ErrorView> {
    |e: (Identifier, Vec<(Identifier, Ipv4Addr)>)|
        match lookup(config.nodes@, e.0@) {
            None => seq![
                ErrorView::NodeMissing {
                    node_name: e.0,
                    at: ConfigLocation::Client(client, ClientLoc::Ip(e.0, ClientIpLoc::Root)),
                },
            ],
            Some(node) => e.1@.filter_map(missing_network_fn(client, e.0, node)),
        }
}

#[verifier::opaque]
pub open spec fn client_networks_fn(config: Config) -> spec_fn((Identifier, Client)) -> Seq<ErrorView> {
    |c: (Identifier, Client)| c.1.ips@.flat_map(client_node_fn(config, c.0))
}

/// The client has an address on a zone (`zone`) or on a VPN interface (`!zone`) of an
/// existing node.
pub open spec fn has_ips_of_type(client: Client, config: Config, zone: bool) -> bool {
    exists|k: int, j: int|
        0 <= k < client.ips@.len() && 0 <= j < client.ips@[k].1@.len() && (lookup(
            config.nodes@,
            client.ips@[k].0@,
        ) matches Some(node) && if zone {
            is_zone_of(node, (#[trigger] client.ips@[k].1@[j]).0@)
        } else {
            is_vpn_of(node, client.ips@[k].1@[j].0@)
        })
}

pub open spec fn mac_error_fn(config: Config) -> spec_fn((Identifier, Client)) -> Option<ErrorView> {
    |c: (Identifier, Client)|
        if has_ips_of_type(c.1, config, true) && c.1.macs@.len() == 0 {
            Some(ErrorView::MacMissing { at: ConfigLocation::Client(c.0, ClientLoc::Macs) })
        } else {
            None
        }
}

pub open spec fn mac_warning_fn(config: Config) -> spec_fn((Identifier, Client)) -> Option<ValidationWarning> {
    |c: (Identifier, Client)|
        if !has_ips_of_type(c.1, config, true) && c.1.macs@.len() != 0 {
            Some(ValidationWarning::UnusedMac { at: ConfigLocation::Client(c.0, ClientLoc::Macs) })
        } else {
            None
        }
}

pub open spec fn key_error_fn(config: Config) -> spec_fn((Identifier, Client)) -> Option<ErrorView> {
    |c: (Identifier, Client)|
        {
            let vpn = has_ips_of_type(c.1, config, false);
            let mesh = c.1.mesh_ip is Some;
            if c.1.public_key is None && (vpn || mesh) {
                Some(
                    ErrorView::PublicKeyMissing {
                        required_for_mesh: mesh,
                        required_for_vpn_interface: vpn,
                        at: ConfigLocation::Client(c.0, ClientLoc::PublicKey),
                    },
                )
            } else {
                None
            }
        }
}

pub open spec fn key_warning_fn(config: Config) -> spec_fn((Identifier, Client)) -> Option<ValidationWarning> {
    |c: (Identifier, Client)|
        if c.1.public_key is Some && !has_ips_of_type(c.1, config, false) && c.1.mesh_ip is None {
            Some(ValidationWarning::UnusedPublicKey { at: ConfigLocation::Client(c.0, ClientLoc::PublicKey) })
        } else {
            None
        }
}

pub open spec fn unreachable_client_fn() -> spec_fn((Identifier, Client)) -> Option<ValidationWarning> {
    |c: (Identifier, Client)|
        if c.1.ips@.len() == 0 && c.1.mesh_ip is None {
            Some(ValidationWarning::UnreachableClient { at: ConfigLocation::Client(c.0, ClientLoc::Root) })
        } else {
            None
        }
}

/// The errors about clients: unknown nodes and networks in their addresses, then missing MAC
/// addresses (needed for the leases of zone addresses), then missing public keys (needed
/// for a mesh or VPN address).
pub open spec fn entity_errors(config: Config) -> Seq<ErrorView> {
    config.clients@.flat_map(client_networks_fn(config)) + config.clients@.filter_map(mac_error_fn(config))
        + config.clients@.filter_map(key_error_fn(config))
}

/// The warnings about clients: MAC addresses without zone address, public keys without mesh
/// or VPN address, clients without any address.
pub open spec fn entity_warnings(config: Config) -> Seq<ValidationWarning> {
    config.clients@.filter_map(mac_warning_fn(config)) + config.clients@.filter_map(key_warning_fn(config))
        + config.clients@.filter_map(unreachable_client_fn())
}

fn client_has_ips_of_type(client: &Client, config: &Config, zone: bool) -> (r: bool)
    ensures
        r == has_ips_of_type(*client, *config, zone),
{
    let mut k: usize = 0;
    while k < client.ips.len()
        invariant
            k <= client.ips@.len(),
            forall|a: int, j: int|
                0 <= a < k && 0 <= j < client.ips@[a].1@.len() ==> !(lookup(config.nodes@, client.ips@[a].0@) matches Some(
                    node,
                ) && if zone {
                    is_zone_of(node, (#[trigger] client.ips@[a].1@[j]).0@)
                } else {
                    is_vpn_of(node, client.ips@[a].1@[j].0@)
                }),
        decreases client.ips@.len() - k,
    {
        let e = &client.ips[k];
        match find_key(&config.nodes, &e.0) {
            Some(ni) => {
                let node = &config.nodes[ni].1;
                let mut j: usize = 0;
                while j < e.1.len()
                    invariant
                        j <= e.1@.len(),
                        k < client.ips@.len(),
                        *e == client.ips@[k as int],
                        lookup(config.nodes@, e.0@) == Some(*node),
                        forall|b: int|
                            0 <= b < j ==> !(if zone {
                                is_zone_of(*node, (#[trigger] e.1@[b]).0@)
                            } else {
                                is_vpn_of(*node, e.1@[b].0@)
                            }),
                    decreases e.1@.len() - j,
                {
                    let hit = match node.network_by_name(&e.1[j].0) {
                        Some(ZoneOrVpnInterface::Zone(_)) => zone,
                        Some(ZoneOrVpnInterface::VpnInterface(_)) => !zone,
                        None => false,
                    };
                    if hit {
                        assert(client.ips@[k as int].1@[j as int] == e.1@[j as int]);
                        return true;
                    }
                    j = j + 1;
                }
            },
            None => {},
        }
        k = k + 1;
    }
    false
}

fn missing_networks(
    client: &Identifier,
    node_name: &Identifier,
    nets: &Vec<(Identifier, Ipv4Addr)>,
    node: &Node,
    report: &mut ValidationReport,
)
    ensures
        errors_view(final(report).errors@) == errors_view(old(report).errors@) + nets@.filter_map(
            missing_network_fn(*client, *node_name, *node),
        ),
        final(report).warnings@ == old(report).warnings@,
{
    let ghost before = errors_view(report.errors@);
    let ghost f = missing_network_fn(*client, *node_name, *node);
    let mut j: usize = 0;
    while j < nets.len()
        invariant
            j <= nets@.len(),
            f == missing_network_fn(*client, *node_name, *node),
            report.warnings@ == old(report).warnings@,
            before == errors_view(old(report).errors@),
            errors_view(report.errors@) == before + nets@.take(j as int).filter_map(f),
        decreases nets@.len() - j,
    {
        let n = &nets[j];
        if node.network_by_name(&n.0).is_none() {
            report.push_error(ValidationError::NodeNetworkMissing {
                node_name: node_name.clone(),
                network_name: n.0.clone(),
                at: ConfigLocation::Client(
                    client.clone(),
                    ClientLoc::Ip(node_name.clone(), ClientIpLoc::Network(n.0.clone())),
                ),
            });
        }
        j = j + 1;
    }
    assert(nets@.take(nets@.len() as int) =~= nets@);
}

fn check_one_client_networks(config: &Config, c: &(Identifier, Client), report: &mut ValidationReport)
    ensures
        errors_view(final(report).errors@) == errors_view(old(report).errors@) + client_networks_fn(
            *config,
        )(*c),
        final(report).warnings@ == old(report).warnings@,
{
    let ghost cb = errors_view(report.errors@);
    proof {
        reveal(client_networks_fn);
    }
    let mut k: usize = 0;
    while k < c.1.ips.len()
        invariant
            k <= c.1.ips@.len(),
            report.warnings@ == old(report).warnings@,
            errors_view(report.errors@) == cb + c.1.ips@.take(k as int).flat_map(client_node_fn(*config, c.0)),
        decreases c.1.ips@.len() - k,
    {
        let e = &c.1.ips[k];
        match find_key(&config.nodes, &e.0) {
            None => {
                let ghost before = errors_view(report.errors@);
                report.push_error(ValidationError::NodeMissing {
                    node_name: e.0.clone(),
                    at: ConfigLocation::Client(c.0.clone(), ClientLoc::Ip(e.0.clone(), ClientIpLoc::Root)),
                });
                proof {
                    reveal(client_node_fn);
                }
                assert(errors_view(report.errors@) =~= before + client_node_fn(*config, c.0)(*e));
            },
            Some(ni) => {
                let node = &config.nodes[ni].1;
                let ghost before = errors_view(report.errors@);
                missing_networks(&c.0, &e.0, &e.1, node, report);
                proof {
                    reveal(client_node_fn);
                }
                assert(errors_view(report.errors@) == before + client_node_fn(*config, c.0)(*e));
            },
        }
        k = k + 1;
    }
    assert(c.1.ips@.take(c.1.ips@.len() as int) =~= c.1.ips@);
}

fn check_client_networks(config: &Config, report: &mut ValidationReport)
    ensures
        errors_view(final(report).errors@) == errors_view(old(report).errors@) + config.clients@.flat_map(
            client_networks_fn(*config),
        ),
        final(report).warnings@ == old(report).warnings@,
{
    let ghost eb = errors_view(report.errors@);
    let mut ci: usize = 0;
    while ci < config.clients.len()
        invariant
            ci <= config.clients@.len(),
            eb == errors_view(old(report).errors@),
            report.warnings@ == old(report).warnings@,
            errors_view(report.errors@) == eb + config.clients@.take(ci as int).flat_map(
                client_networks_fn(*config),
            ),
        decreases config.clients@.len() - ci,
    {
        check_one_client_networks(config, &config.clients[ci], report);
        ci = ci + 1;
    }
    assert(config.clients@.take(config.clients@.len() as int) =~= config.clients@);
}

/// Checks the clients.
pub fn check_entities(config: &Config, report: &mut ValidationReport)
    ensures
        errors_view(final(report).errors@) == errors_view(old(report).errors@) + entity_errors(*config),
        final(report).warnings@ == old(report).warnings@ + entity_warnings(*config),
{
    check_client_networks(config, report);
    let ghost e1 = errors_view(report.errors@);
    let ghost w0 = report.warnings@;
    let mut ci: usize = 0;
    while ci < config.clients.len()
        invariant
            ci <= config.clients@.len(),
            errors_view(report.errors@) == e1 + config.clients@.take(ci as int).filter_map(mac_error_fn(*config)),
            report.warnings@ == w0 + config.clients@.take(ci as int).filter_map(mac_warning_fn(*config)),
        decreases config.clients@.len() - ci,
    {
        let c = &config.clients[ci];
        let in_zone = client_has_ips_of_type(&c.1, config, true);
        let no_macs = c.1.macs.is_empty();
        if in_zone && no_macs {
            report.push_error(ValidationError::MacMissing { at: ConfigLocation::Client(c.0.clone(), ClientLoc::Macs) });
        } else if !in_zone && !no_macs {
            report.push_warning(ValidationWarning::UnusedMac { at: ConfigLocation::Client(c.0.clone(), ClientLoc::Macs) });
        }
        ci = ci + 1;
    }
    assert(config.clients@.take(config.clients@.len() as int) =~= config.clients@);
    let ghost e2 = errors_view(report.errors@);
    let ghost w1 = report.warnings@;
    let mut ci: usize = 0;
    while ci < config.clients.len()
        invariant
            ci <= config.clients@.len(),
            errors_view(report.errors@) == e2 + config.clients@.take(ci as int).filter_map(key_error_fn(*config)),
            report.warnings@ == w1 + config.clients@.take(ci as int).filter_map(key_warning_fn(*config)),
        decreases config.clients@.len() - ci,
    {
        let c = &config.clients[ci];
        let in_vpn = client_has_ips_of_type(&c.1, config, false);
        let has_key = c.1.public_key.is_some();
        let mesh = c.1.mesh_ip.is_some();
        if !has_key && (in_vpn || mesh) {
            report.push_error(ValidationError::PublicKeyMissing {
                required_for_mesh: mesh,
                required_for_vpn_interface: in_vpn,
                at: ConfigLocation::Client(c.0.clone(), ClientLoc::PublicKey),
            });
        } else if has_key && !in_vpn && !mesh {
            report.push_warning(
                ValidationWarning::UnusedPublicKey { at: ConfigLocation::Client(c.0.clone(), ClientLoc::PublicKey) },
            );
        }
        ci = ci + 1;
    }
    assert(config.clients@.take(config.clients@.len() as int) =~= config.clients@);
    let ghost w2 = report.warnings@;
    let mut ci: usize = 0;
    while ci < config.clients.len()
        invariant
            ci <= config.clients@.len(),
            errors_view(report.errors@) == e2 + config.clients@.filter_map(key_error_fn(*config)),
            report.warnings@ == w2 + config.clients@.take(ci as int).filter_map(unreachable_client_fn()),
        decreases config.clients@.len() - ci,
    {
        let c = &config.clients[ci];
        if c.1.ips.len() == 0 && c.1.mesh_ip.is_none() {
            report.push_warning(
                ValidationWarning::UnreachableClient { at: ConfigLocation::Client(c.0.clone(), ClientLoc::Root) },
            );
        }
        ci = ci + 1;
    }
    assert(config.clients@.take(config.clients@.len() as int) =~= config.clients@);
}

} // verus!
