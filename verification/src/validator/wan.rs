//! WAN exposure: every `wan.via` target must be a node with a WAN zone, a client must be
//! reachable through each of its targets, only client services may use the qualified form,
//! and a WAN zone must be used and must not take the name of another zone of its node.

use vstd::prelude::*;

use crate::config::{Client, Config, Node, Service, ServiceHost, WanErrorView, WanResolveError, config_services, host_location, resolve_target};
use crate::consts::{mesh_interface_name, spec_mesh_interface_name};
use crate::entries::{find_key, has_key, lookup};
use crate::text::str_eq;
use crate::types::config_location::{ConfigLocation, NodeLoc, ServiceLoc, VpnLoc, WanLoc, ZoneLoc};
use crate::types::identifier::Identifier;
use crate::types::wan_via_target::{WanViaTarget, via_node};
use crate::validator::names::{contains_id, ids_view};
use crate::validator::types::{ErrorView, ValidationError, ValidationReport, ValidationWarning, errors_view};

verus! {

broadcast use {vstd::seq_lib::group_seq_properties, vstd::seq::Seq::group_seq_extra};

/// The node a target names.
pub open spec fn via_node_id(v: WanViaTarget) -> Identifier {
    match v {
        WanViaTarget::Bare(n) => n,
        WanViaTarget::Qualified(q) => q.node,
    }
}

/// The network a qualified target names (the node, for a bare one).
pub open spec fn via_local_id(v: WanViaTarget) -> Identifier {
    match v {
        WanViaTarget::Bare(n) => n,
        WanViaTarget::Qualified(q) => q.local,
    }
}

/// The client hosting a service, if a client does.
pub open spec fn client_of(config: Config, h: ServiceHost) -> Option<Client> {
    match h {
        ServiceHost::Client { client_name, .. } => lookup(config.clients@, client_name@),
        _ => None,
    }
}

/// The error for a client that cannot be reached through `via`.
pub open spec fn resolve_error(e: WanErrorView, via: WanViaTarget, at: ConfigLocation) -> ErrorView {
    match e {
        WanErrorView::AmbiguousVpn(c) => ErrorView::WanViaAmbiguous { node: via_node_id(via), candidates: c, at },
        WanErrorView::QualifiedNetworkMissing(_) => ErrorView::WanViaNetworkMissing {
            node: via_node_id(via),
            network: via_local_id(via),
            at,
        },
        WanErrorView::Unreachable => ErrorView::WanViaUnreachable { node: via_node_id(via), at },
        WanErrorView::QualifiedClientNotOnNetwork(_) => ErrorView::WanViaClientNotOnNetwork {
            node: via_node_id(via),
            network: via_local_id(via),
            at,
        },
    }
}

/// The errors of one `wan.via` target: an unknown node; a node without WAN zone; then, for
/// a client's service, the client not being reachable through the target, and for any other
/// service, the qualified form.
#[verifier::opaque]
pub open spec fn via_errors(config: Config, client: Option<Client>, via: WanViaTarget, at: ConfigLocation) -> Seq<
    ErrorView,
> {
    match lookup(config.nodes@, via_node(via@)) {
        None => seq![ErrorView::InvalidWanVia { node_name: via_node_id(via), at }],
        Some(node) => (if node.wan_zone is None {
            seq![ErrorView::WanViaNodeNoWanZone { node_name: via_node_id(via), at }]
        } else {
            seq![]
        }) + match client {
            Some(c) => match resolve_target(c, via, node) {
                Ok(_) => seq![],
                Err(e) => seq![resolve_error(e, via, at)],
            },
            None => if via is Qualified {
                seq![ErrorView::WanViaQualifiedOnNonClient { at }]
            } else {
                seq![]
            },
        },
    }
}

pub open spec fn via_errors_fn(config: Config, client: Option<Client>, at: ConfigLocation) -> spec_fn(WanViaTarget) -> Seq<
    ErrorView,
> {
    |v: WanViaTarget| via_errors(config, client, v, at)
}

pub open spec fn service_wan_fn(config: Config) -> spec_fn((Service, ServiceHost)) -> Seq<ErrorView> {
    |p: (Service, ServiceHost)|
        match p.0.wan {
            None => seq![],
            Some(w) => w.via@.flat_map(
                via_errors_fn(config, client_of(config, p.1), host_location(p.1, ServiceLoc::Wan(WanLoc::Via))),
            ),
        }
}

/// The nodes a service names in its `wan.via`, in order.
pub open spec fn via_names(s: Service) -> Seq<Seq<char>> {
    match s.wan {
        Some(w) => w.via@.map_values(|v: WanViaTarget| via_node(v@)),
        None => seq![],
    }
}

pub open spec fn via_names_fn() -> spec_fn((Service, ServiceHost)) -> Seq<Seq<char>> {
    |p: (Service, ServiceHost)| via_names(p.0)
}

/// Some service names node `name` in its `wan.via`.
pub open spec fn wan_used(config: Config, name: Seq<char>) -> bool {
    config_services(config).flat_map(via_names_fn()).contains(name)
}

pub open spec fn unused_wan_fn(config: Config) -> spec_fn((Identifier, Node)) -> Option<ValidationWarning> {
    |n: (Identifier, Node)|
        if n.1.wan_zone is Some && !wan_used(config, n.0@) {
            Some(ValidationWarning::UnusedWanZone { at: ConfigLocation::Node(n.0, NodeLoc::WanZone) })
        } else {
            None
        }
}

pub open spec fn wan_zone_fn() -> spec_fn((Identifier, Node)) -> Seq<ErrorView> {
    |n: (Identifier, Node)|
        match n.1.wan_zone {
            None => seq![],
            Some(wz) => {
                let at = ConfigLocation::Node(n.0, NodeLoc::WanZone);
                if wz@ == spec_mesh_interface_name() {
                    seq![ErrorView::WanZoneReservedName { wan_zone: wz, at }]
                } else {
                    (if has_key(n.1.zones@, wz@) {
                        seq![
                            ErrorView::WanZoneNameCollision {
                                wan_zone: wz,
                                with: ConfigLocation::Node(n.0, NodeLoc::Zone(wz, ZoneLoc::Root)),
                                at,
                            },
                        ]
                    } else {
                        seq![]
                    }) + (if has_key(n.1.vpn_interfaces@, wz@) {
                        seq![
                            ErrorView::WanZoneNameCollision {
                                wan_zone: wz,
                                with: ConfigLocation::Node(n.0, NodeLoc::VpnInterface(wz, VpnLoc::Root)),
                                at,
                            },
                        ]
                    } else {
                        seq![]
                    })
                }
            },
        }
}

/// The WAN errors: each service's targets in turn, then each node's WAN zone name.
pub open spec fn wan_errors(config: Config) -> Seq<ErrorView> {
    config_services(config).flat_map(service_wan_fn(config)) + config.nodes@.flat_map(wan_zone_fn())
}

/// The WAN warnings: each node whose WAN zone no service uses.
pub open spec fn wan_warnings(config: Config) -> Seq<ValidationWarning> {
    config.nodes@.filter_map(unused_wan_fn(config))
}

fn check_via(
    config: &Config,
    client: Option<&Client>,
    via: &WanViaTarget,
    at: &ConfigLocation,
    report: &mut ValidationReport,
)
    ensures
        errors_view(final(report).errors@) == errors_view(old(report).errors@) + via_errors(
            *config,
            match client {
                Some(c) => Some(*c),
                None => None,
            },
            *via,
            *at,
        ),
        final(report).warnings@ == old(report).warnings@,
{
    reveal(via_errors);
    let ghost eb = errors_view(report.errors@);
    let node_name = via.node();
    let ni = match find_key(&config.nodes, node_name) {
        Some(i) => i,
        None => {
            report.push_error(ValidationError::InvalidWanVia { node_name: node_name.clone(), at: at.clone() });
            return ;
        },
    };
    let node = &config.nodes[ni].1;
    if node.wan_zone.is_none() {
        report.push_error(ValidationError::WanViaNodeNoWanZone { node_name: node_name.clone(), at: at.clone() });
    }
    let ghost mid = errors_view(report.errors@);
    match client {
        Some(c) => {
            match c.resolve_wan_target(via, node) {
                Ok(_) => {},
                Err(err) => {
                    let e = match err {
                        WanResolveError::AmbiguousVpn { candidates } => ValidationError::WanViaAmbiguous {
                            node: node_name.clone(),
                            candidates,
                            at: at.clone(),
                        },
                        WanResolveError::QualifiedNetworkMissing { network: _ } => {
                            let local = match via {
                                WanViaTarget::Qualified(q) => q.local.clone(),
                                WanViaTarget::Bare(n) => n.clone(),
                            };
                            ValidationError::WanViaNetworkMissing { node: node_name.clone(), network: local, at: at.clone() }
                        },
                        WanResolveError::Unreachable => ValidationError::WanViaUnreachable {
                            node: node_name.clone(),
                            at: at.clone(),
                        },
                        WanResolveError::QualifiedClientNotOnNetwork { network: _ } => {
                            let local = match via {
                                WanViaTarget::Qualified(q) => q.local.clone(),
                                WanViaTarget::Bare(n) => n.clone(),
                            };
                            ValidationError::WanViaClientNotOnNetwork {
                                node: node_name.clone(),
                                network: local,
                                at: at.clone(),
                            }
                        },
                    };
                    report.push_error(e);
                },
            }
        },
        None => {
            match via {
                WanViaTarget::Qualified(_) => {
                    report.push_error(ValidationError::WanViaQualifiedOnNonClient { at: at.clone() });
                },
                WanViaTarget::Bare(_) => {},
            }
        },
    }
}

#[verifier::spinoff_prover]
#[verifier::rlimit(80)]
fn check_service_wan(
    config: &Config,
    service: &Service,
    host: &ServiceHost,
    used: &mut Vec<Identifier>,
    report: &mut ValidationReport,
)
    ensures
        errors_view(final(report).errors@) == errors_view(old(report).errors@) + service_wan_fn(*config)(
            (*service, *host),
        ),
        final(report).warnings@ == old(report).warnings@,
        ids_view(final(used)@) == ids_view(old(used)@) + via_names(*service),
{
    let client: Option<&Client> = match host {
        ServiceHost::Client { client_name, .. } => match find_key(&config.clients, client_name) {
            Some(k) => Some(&config.clients[k].1),
            None => None,
        },
        _ => None,
    };
    let ghost cv = match client {
        Some(c) => Some(*c),
        None => None::<Client>,
    };
    assert(cv == client_of(*config, *host));
    let ghost before = errors_view(report.errors@);
    let ghost ub = ids_view(used@);
    match &service.wan {
        None => {
            assert(ids_view(used@) =~= ub + via_names(*service));
        },
        Some(w) => {
            let at = host.to_location(ServiceLoc::Wan(WanLoc::Via));
            let targets = w.via.iter();
            let ghost f = via_errors_fn(*config, cv, at);
            let ghost g = |v: WanViaTarget| via_node(v@);
            let mut k: usize = 0;
            while k < targets.len()
                invariant
                    k <= targets@.len(),
                    targets@ == w.via@,
                    f == via_errors_fn(*config, cv, at),
                    g == (|v: WanViaTarget| via_node(v@)),
                    cv == match client {
                        Some(c) => Some(*c),
                        None => None::<Client>,
                    },
                    report.warnings@ == old(report).warnings@,
                    errors_view(report.errors@) == before + targets@.take(k as int).flat_map(f),
                    ids_view(used@) == ub + targets@.take(k as int).map_values(g),
                decreases targets@.len() - k,
            {
                check_via(config, client, &targets[k], &at, report);
                proof {
                    assert(targets@.take(k + 1) =~= targets@.take(k as int).push(targets@[k as int]));
                    targets@.take(k as int).lemma_flat_map_push(f, targets@[k as int]);
                }
                let ghost uo = ids_view(used@);
                used.push(targets[k].node().clone());
                assert(ids_view(used@) =~= uo.push(g(targets@[k as int])));
                assert(targets@.take(k + 1).map_values(g) =~= targets@.take(k as int).map_values(g).push(
                    g(targets@[k as int]),
                ));
                k = k + 1;
            }
            assert(targets@.take(targets@.len() as int) =~= targets@);
            assert(targets@.map_values(g) =~= via_names(*service));
        },
    }
}

#[verifier::spinoff_prover]
#[verifier::rlimit(40)]
fn check_services_wan(config: &Config, report: &mut ValidationReport)
    ensures
        errors_view(final(report).errors@) == errors_view(old(report).errors@) + config_services(
            *config,
        ).flat_map(service_wan_fn(*config)),
        final(report).warnings@ == old(report).warnings@ + wan_warnings(*config),
{
    let services = config.services();
    let ghost sv = services@.map_values(|p: (&Service, ServiceHost)| (*p.0, p.1));
    let ghost eb = errors_view(report.errors@);
    let mut used: Vec<Identifier> = Vec::new();
    let mut i: usize = 0;
    while i < services.len()
        invariant
            i <= services@.len(),
            sv == services@.map_values(|p: (&Service, ServiceHost)| (*p.0, p.1)),
            sv == config_services(*config),
            eb == errors_view(old(report).errors@),
            report.warnings@ == old(report).warnings@,
            errors_view(report.errors@) == eb + sv.take(i as int).flat_map(service_wan_fn(*config)),
            ids_view(used@) == sv.take(i as int).flat_map(via_names_fn()),
        decreases services@.len() - i,
    {
        let (service, host) = (&services[i].0, &services[i].1);
        assert(sv[i as int] == (**service, *host));
        check_service_wan(config, service, host, &mut used, report);
        proof {
            assert(sv.take(i + 1) =~= sv.take(i as int).push(sv[i as int]));
            sv.take(i as int).lemma_flat_map_push(service_wan_fn(*config), sv[i as int]);
            sv.take(i as int).lemma_flat_map_push(via_names_fn(), sv[i as int]);
        }
        i = i + 1;
    }
    assert(sv.take(sv.len() as int) =~= sv);
    warn_unused_wan_zones(config, &used, report);
}

fn warn_unused_wan_zones(config: &Config, used: &Vec<Identifier>, report: &mut ValidationReport)
    requires
        ids_view(used@) == config_services(*config).flat_map(via_names_fn()),
    ensures
        final(report).errors@ == old(report).errors@,
        final(report).warnings@ == old(report).warnings@ + wan_warnings(*config),
{
    let ghost wb = report.warnings@;
    let ghost f = unused_wan_fn(*config);
    let mut ni: usize = 0;
    while ni < config.nodes.len()
        invariant
            ni <= config.nodes@.len(),
            f == unused_wan_fn(*config),
            wb == old(report).warnings@,
            ids_view(used@) == config_services(*config).flat_map(via_names_fn()),
            report.errors@ == old(report).errors@,
            report.warnings@ == wb + config.nodes@.take(ni as int).filter_map(f),
        decreases config.nodes@.len() - ni,
    {
        let n = &config.nodes[ni];
        let is_used = contains_id(used, &n.0);
        assert(is_used == wan_used(*config, n.0@));
        if n.1.wan_zone.is_some() && !is_used {
            report.push_warning(ValidationWarning::UnusedWanZone { at: ConfigLocation::Node(n.0.clone(), NodeLoc::WanZone) });
        }
        proof {
            config.nodes@.lemma_filter_map_take_succ(f, ni as int);
        }
        ni = ni + 1;
    }
    assert(config.nodes@.take(config.nodes@.len() as int) =~= config.nodes@);
}

fn check_wan_zone(config: &Config, report: &mut ValidationReport)
    ensures
        errors_view(final(report).errors@) == errors_view(old(report).errors@) + config.nodes@.flat_map(
            wan_zone_fn(),
        ),
        final(report).warnings@ == old(report).warnings@,
{
    let ghost eb = errors_view(report.errors@);
    let mut ni: usize = 0;
    while ni < config.nodes.len()
        invariant
            ni <= config.nodes@.len(),
            report.warnings@ == old(report).warnings@,
            errors_view(report.errors@) == eb + config.nodes@.take(ni as int).flat_map(wan_zone_fn()),
        decreases config.nodes@.len() - ni,
    {
        let n = &config.nodes[ni];
        let ghost before = errors_view(report.errors@);
        match &n.1.wan_zone {
            None => {},
            Some(wz) => {
                let at = ConfigLocation::Node(n.0.clone(), NodeLoc::WanZone);
                if str_eq(wz.as_str(), mesh_interface_name()) {
                    report.push_error(ValidationError::WanZoneReservedName { wan_zone: wz.clone(), at });
                } else {
                    if find_key(&n.1.zones, wz).is_some() {
                        report.push_error(ValidationError::WanZoneNameCollision {
                            wan_zone: wz.clone(),
                            with: ConfigLocation::Node(n.0.clone(), NodeLoc::Zone(wz.clone(), ZoneLoc::Root)),
                            at: at.clone(),
                        });
                    }
                    let ghost mid = errors_view(report.errors@);
                    if find_key(&n.1.vpn_interfaces, wz).is_some() {
                        report.push_error(ValidationError::WanZoneNameCollision {
                            wan_zone: wz.clone(),
                            with: ConfigLocation::Node(n.0.clone(), NodeLoc::VpnInterface(wz.clone(), VpnLoc::Root)),
                            at,
                        });
                    }
                    assert(errors_view(report.errors@) =~= before + wan_zone_fn()(*n));
                }
            },
        }
        ni = ni + 1;
    }
    assert(config.nodes@.take(config.nodes@.len() as int) =~= config.nodes@);
}

/// Checks the WAN exposure of the services and the nodes' WAN zones.
pub fn check_wan(config: &Config, report: &mut ValidationReport)
    ensures
        errors_view(final(report).errors@) == errors_view(old(report).errors@) + wan_errors(*config),
        final(report).warnings@ == old(report).warnings@ + wan_warnings(*config),
{
    check_services_wan(config, report);
    check_wan_zone(config, report);
}

} // verus!
