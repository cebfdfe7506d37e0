//! Names: every node, client, zone, device, VPN interface and VPN peer is a reference that
//! `allowFrom` may use, and references must not collide.
//!
//! Nodes and clients share the global namespace; the zones, devices, VPN interfaces and VPN
//! peers of a node share that node's local namespace, are referred to as `Node.local`, must
//! not shadow a global name, and must not start with the name of a node followed by `_`.

use vstd::prelude::*;

use crate::config::{Client, Config, Node, NodeVpnInterface, NodeVpnInterfaceClient, NodeZone, NodeZoneDevice};
use crate::text::{chars_of, chars_start_with, concat2, starts_with, strings_view};
use crate::types::allow_from_ref::{AllowFromRef, AllowFromRefView};
use crate::types::config_location::{ClientLoc, ConfigLocation, DeviceLoc, NodeLoc, VpnClientLoc, VpnLoc, ZoneLoc};
use crate::types::identifier::Identifier;
use crate::validator::types::{ErrorView, ValidationError, ValidationReport, errors_view};

verus! {

broadcast use {vstd::seq_lib::group_seq_properties, vstd::seq::Seq::group_seq_extra};

/// One name to register, in the order the configuration is walked.
#[derive(Debug)]
pub enum NameEvent {
    /// A client's name.
    Global { name: Identifier, at: ConfigLocation },
    /// A node's name; it opens the node's local namespace.
    NodeStart { name: Identifier, at: ConfigLocation },
    /// A local name inside node `node`.
    Local { node: Identifier, name: Identifier, at: ConfigLocation },
}

impl Clone for NameEvent {
    fn clone(&self) -> (r: Self)
        ensures
            r == *self,
    {
        match self {
            NameEvent::Global { name, at } => NameEvent::Global { name: name.clone(), at: at.clone() },
            NameEvent::NodeStart { name, at } => NameEvent::NodeStart { name: name.clone(), at: at.clone() },
            NameEvent::Local { node, name, at } => NameEvent::Local {
                node: node.clone(),
                name: name.clone(),
                at: at.clone(),
            },
        }
    }
}


pub open spec fn client_name_fn() -> spec_fn((Identifier, Client)) -> NameEvent {
    |c: (Identifier, Client)| NameEvent::Global { name: c.0, at: ConfigLocation::Client(c.0, ClientLoc::Root) }
}

pub open spec fn device_name_fn(node: Identifier, zone: Identifier) -> spec_fn((Identifier, NodeZoneDevice)) -> NameEvent {
    |d: (Identifier, NodeZoneDevice)|
        NameEvent::Local {
            node,
            name: d.0,
            at: ConfigLocation::Node(node, NodeLoc::Zone(zone, ZoneLoc::Device(d.0, DeviceLoc::Root))),
        }
}

pub open spec fn zone_name_fn(node: Identifier) -> spec_fn((Identifier, NodeZone)) -> Seq<NameEvent> {
    |z: (Identifier, NodeZone)|
        seq![
            NameEvent::Local {
                node,
                name: z.0,
                at: ConfigLocation::Node(node, NodeLoc::Zone(z.0, ZoneLoc::Root)),
            },
        ] + z.1.devices@.map_values(device_name_fn(node, z.0))
}

pub open spec fn peer_name_fn(node: Identifier, vpn: Identifier) -> spec_fn((Identifier, NodeVpnInterfaceClient)) -> NameEvent {
    |c: (Identifier, NodeVpnInterfaceClient)|
        NameEvent::Local {
            node,
            name: c.0,
            at: ConfigLocation::Node(node, NodeLoc::VpnInterface(vpn, VpnLoc::Client(c.0, VpnClientLoc::Root))),
        }
}

pub open spec fn vpn_name_fn(node: Identifier) -> spec_fn((Identifier, NodeVpnInterface)) -> Seq<NameEvent> {
    |v: (Identifier, NodeVpnInterface)|
        seq![
            NameEvent::Local {
                node,
                name: v.0,
                at: ConfigLocation::Node(node, NodeLoc::VpnInterface(v.0, VpnLoc::Root)),
            },
        ] + v.1.clients@.map_values(peer_name_fn(node, v.0))
}

pub open spec fn node_name_fn() -> spec_fn((Identifier, Node)) -> Seq<NameEvent> {
    |n: (Identifier, Node)|
        seq![NameEvent::NodeStart { name: n.0, at: ConfigLocation::Node(n.0, NodeLoc::Root) }]
            + n.1.zones@.flat_map(zone_name_fn(n.0)) + n.1.vpn_interfaces@.flat_map(vpn_name_fn(n.0))
}

/// The names of the configuration in the order they are registered: clients, then each
/// node followed by its zones (each followed by its devices) and VPN interfaces (each
/// followed by its peers).
pub open spec fn name_events(config: Config) -> Seq<NameEvent> {
    config.clients@.map_values(client_name_fn()) + config.nodes@.flat_map(node_name_fn())
}

/// The name an event registers, if it is a global one (a client's or a node's).
pub open spec fn global_name_fn() -> spec_fn(NameEvent) -> Option<Seq<char>> {
    |e: NameEvent|
        match e {
            NameEvent::Global { name, .. } => Some(name@),
            NameEvent::NodeStart { name, .. } => Some(name@),
            NameEvent::Local { .. } => None,
        }
}

/// The name an event registers, if it is a local one (a zone's, a device's, a VPN
/// interface's or a VPN peer's).
pub open spec fn local_name_fn() -> spec_fn(NameEvent) -> Option<Seq<char>> {
    |e: NameEvent|
        match e {
            NameEvent::Local { name, .. } => Some(name@),
            _ => None,
        }
}

/// The global names of the configuration: every client's and every node's name.
pub open spec fn global_names(config: Config) -> Seq<Seq<char>> {
    name_events(config).filter_map(global_name_fn())
}

/// The local names of the configuration: every zone, device, VPN interface and VPN peer
/// name of every node.
pub open spec fn local_names(config: Config) -> Seq<Seq<char>> {
    name_events(config).filter_map(local_name_fn())
}

/// The reserved prefixes: each node's name followed by `_`.
pub open spec fn node_prefixes(config: Config) -> Seq<Seq<char>> {
    config.nodes@.map_values(|n: (Identifier, Node)| n.0@ + seq!['_'])
}

/// `i` is the first prefix that `name` starts with.
pub open spec fn first_prefix(name: Seq<char>, prefixes: Seq<Seq<char>>, i: int) -> bool {
    &&& 0 <= i < prefixes.len()
    &&& starts_with(name, prefixes[i])
    &&& forall|j: int| 0 <= j < i ==> !starts_with(name, prefixes[j])
}

/// The registered references, the current node's local names, and the errors so far.
pub struct NamesState {
    pub refs: Seq<AllowFromRefView>,
    pub local: Seq<Seq<char>>,
    pub errors: Seq<ErrorView>,
}

/// Registers a global name.
pub open spec fn add_global(st: NamesState, name: Identifier, at: ConfigLocation) -> NamesState {
    if st.refs.contains(AllowFromRefView::Bare(name@)) {
        NamesState { errors: st.errors.push(ErrorView::GlobalNameCollision { name, at }), ..st }
    } else {
        NamesState { refs: st.refs.push(AllowFromRefView::Bare(name@)), ..st }
    }
}

/// Registers one name: a reserved prefix, a name already used in the node, a qualified name
/// already registered, or a local name equal to any of the `globals` is an error.
pub open spec fn name_step(st: NamesState, e: NameEvent, prefixes: Seq<Seq<char>>, globals: Seq<Seq<char>>) -> NamesState {
    match e {
        NameEvent::Global { name, at } => add_global(st, name, at),
        NameEvent::NodeStart { name, at } => add_global(NamesState { local: seq![name@], ..st }, name, at),
        NameEvent::Local { node, name, at } => if exists|i: int| first_prefix(name@, prefixes, i) {
            let i = choose|i: int| first_prefix(name@, prefixes, i);
            NamesState {
                errors: st.errors.push(ErrorView::InvalidPrefix { name, prefix: prefixes[i], at }),
                ..st
            }
        } else if st.local.contains(name@) {
            NamesState { errors: st.errors.push(ErrorView::LocalNameCollision { name, at }), ..st }
        } else {
            let st2 = NamesState { local: st.local.push(name@), ..st };
            if st2.refs.contains(AllowFromRefView::Nested(node@, name@)) {
                NamesState { errors: st2.errors.push(ErrorView::GlobalNameCollision { name, at }), ..st2 }
            } else if globals.contains(name@) {
                NamesState { errors: st2.errors.push(ErrorView::LocalShadowsGlobal { name, at }), ..st2 }
            } else {
                NamesState { refs: st2.refs.push(AllowFromRefView::Nested(node@, name@)), ..st2 }
            }
        },
    }
}

/// The state after registering `events` in order, starting with only `$node` registered.
pub open spec fn names_run(events: Seq<NameEvent>, prefixes: Seq<Seq<char>>, globals: Seq<Seq<char>>) -> NamesState
    decreases events.len(),
{
    if events.len() == 0 {
        NamesState { refs: seq![AllowFromRefView::SelfNode], local: seq![], errors: seq![] }
    } else {
        name_step(names_run(events.drop_last(), prefixes, globals), events.last(), prefixes, globals)
    }
}

/// The outcome of the names check on a configuration.
pub open spec fn names_outcome(config: Config) -> NamesState {
    names_run(name_events(config), node_prefixes(config), global_names(config))
}

fn name_events_of(config: &Config) -> (r: Vec<NameEvent>)
    ensures
        r@ == name_events(*config),
{
    let mut r: Vec<NameEvent> = Vec::new();
    let mut ci: usize = 0;
    while ci < config.clients.len()
        invariant
            ci <= config.clients@.len(),
            r@ == config.clients@.take(ci as int).map_values(client_name_fn()),
        decreases config.clients@.len() - ci,
    {
        let c = &config.clients[ci];
        r.push(NameEvent::Global { name: c.0.clone(), at: ConfigLocation::Client(c.0.clone(), ClientLoc::Root) });
        proof {
            assert(config.clients@.take(ci + 1) =~= config.clients@.take(ci as int).push(*c));
            assert(config.clients@.take(ci + 1).map_values(client_name_fn()) =~= config.clients@.take(
                ci as int,
            ).map_values(client_name_fn()).push(client_name_fn()(*c)));
        }
        ci = ci + 1;
    }
    assert(config.clients@.take(config.clients@.len() as int) =~= config.clients@);
    let ghost head = r@;
    let mut ni: usize = 0;
    while ni < config.nodes.len()
        invariant
            ni <= config.nodes@.len(),
            head == config.clients@.map_values(client_name_fn()),
            r@ == head + config.nodes@.take(ni as int).flat_map(node_name_fn()),
        decreases config.nodes@.len() - ni,
    {
        let n = &config.nodes[ni];
        let ghost before = r@;
        r.push(NameEvent::NodeStart { name: n.0.clone(), at: ConfigLocation::Node(n.0.clone(), NodeLoc::Root) });
        let ghost after_start = r@;
        let mut zi: usize = 0;
        while zi < n.1.zones.len()
            invariant
                zi <= n.1.zones@.len(),
                r@ == after_start + n.1.zones@.take(zi as int).flat_map(zone_name_fn(n.0)),
            decreases n.1.zones@.len() - zi,
        {
            let z = &n.1.zones[zi];
            let ghost zb = r@;
            r.push(NameEvent::Local {
                node: n.0.clone(),
                name: z.0.clone(),
                at: ConfigLocation::Node(n.0.clone(), NodeLoc::Zone(z.0.clone(), ZoneLoc::Root)),
            });
            let ghost zs = r@;
            let mut di: usize = 0;
            while di < z.1.devices.len()
                invariant
                    di <= z.1.devices@.len(),
                    r@ == zs + z.1.devices@.take(di as int).map_values(device_name_fn(n.0, z.0)),
                decreases z.1.devices@.len() - di,
            {
                let d = &z.1.devices[di];
                r.push(NameEvent::Local {
                    node: n.0.clone(),
                    name: d.0.clone(),
                    at: ConfigLocation::Node(
                        n.0.clone(),
                        NodeLoc::Zone(z.0.clone(), ZoneLoc::Device(d.0.clone(), DeviceLoc::Root)),
                    ),
                });
                proof {
                    assert(z.1.devices@.take(di + 1) =~= z.1.devices@.take(di as int).push(*d));
                    assert(z.1.devices@.take(di + 1).map_values(device_name_fn(n.0, z.0)) =~= z.1.devices@.take(
                        di as int,
                    ).map_values(device_name_fn(n.0, z.0)).push(device_name_fn(n.0, z.0)(*d)));
                }
                di = di + 1;
            }
            assert(z.1.devices@.take(z.1.devices@.len() as int) =~= z.1.devices@);
            assert(r@ =~= zb + zone_name_fn(n.0)(*z));
            zi = zi + 1;
        }
        assert(n.1.zones@.take(n.1.zones@.len() as int) =~= n.1.zones@);
        let ghost after_zones = r@;
        let mut vi: usize = 0;
        while vi < n.1.vpn_interfaces.len()
            invariant
                vi <= n.1.vpn_interfaces@.len(),
                r@ == after_zones + n.1.vpn_interfaces@.take(vi as int).flat_map(vpn_name_fn(n.0)),
            decreases n.1.vpn_interfaces@.len() - vi,
        {
            let v = &n.1.vpn_interfaces[vi];
            let ghost vb = r@;
            r.push(NameEvent::Local {
                node: n.0.clone(),
                name: v.0.clone(),
                at: ConfigLocation::Node(n.0.clone(), NodeLoc::VpnInterface(v.0.clone(), VpnLoc::Root)),
            });
            let ghost vs = r@;
            let mut pi: usize = 0;
            while pi < v.1.clients.len()
                invariant
                    pi <= v.1.clients@.len(),
                    r@ == vs + v.1.clients@.take(pi as int).map_values(peer_name_fn(n.0, v.0)),
                decreases v.1.clients@.len() - pi,
            {
                let p = &v.1.clients[pi];
                r.push(NameEvent::Local {
                    node: n.0.clone(),
                    name: p.0.clone(),
                    at: ConfigLocation::Node(
                        n.0.clone(),
                        NodeLoc::VpnInterface(v.0.clone(), VpnLoc::Client(p.0.clone(), VpnClientLoc::Root)),
                    ),
                });
                proof {
                    assert(v.1.clients@.take(pi + 1) =~= v.1.clients@.take(pi as int).push(*p));
                    assert(v.1.clients@.take(pi + 1).map_values(peer_name_fn(n.0, v.0)) =~= v.1.clients@.take(
                        pi as int,
                    ).map_values(peer_name_fn(n.0, v.0)).push(peer_name_fn(n.0, v.0)(*p)));
                }
                pi = pi + 1;
            }
            assert(v.1.clients@.take(v.1.clients@.len() as int) =~= v.1.clients@);
            assert(r@ =~= vb + vpn_name_fn(n.0)(*v));
            vi = vi + 1;
        }
        assert(n.1.vpn_interfaces@.take(n.1.vpn_interfaces@.len() as int) =~= n.1.vpn_interfaces@);
        assert(r@ =~= before + node_name_fn()(*n));
        ni = ni + 1;
    }
    assert(config.nodes@.take(config.nodes@.len() as int) =~= config.nodes@);
    r
}

/// The local names of the configuration, in the order they are declared.
pub(crate) fn local_names_of(config: &Config) -> (r: Vec<Identifier>)
    ensures
        ids_view(r@) == local_names(*config),
{
    let events = name_events_of(config);
    let mut out: Vec<Identifier> = Vec::new();
    let mut i: usize = 0;
    while i < events.len()
        invariant
            i <= events@.len(),
            events@ == name_events(*config),
            ids_view(out@) == events@.take(i as int).filter_map(local_name_fn()),
        decreases events@.len() - i,
    {
        let ghost ob = out@;
        assert(events@.take(i + 1).drop_last() =~= events@.take(i as int));
        assert(events@.take(i + 1).last() == events@[i as int]);
        match &events[i] {
            NameEvent::Local { name, .. } => {
                out.push(name.clone());
                assert(ids_view(out@) =~= ids_view(ob).push(name@));
            },
            _ => {},
        }
        i = i + 1;
    }
    assert(events@.take(events@.len() as int) =~= events@);
    out
}

/// The views of a sequence of references.
pub open spec fn refs_view(s: Seq<AllowFromRef>) -> Seq<AllowFromRefView> {
    s.map_values(|r: AllowFromRef| r@)
}

/// The views of a sequence of identifiers.
pub open spec fn ids_view(s: Seq<Identifier>) -> Seq<Seq<char>> {
    s.map_values(|r: Identifier| r@)
}

/// Whether a reference is among `refs`.
pub fn contains_ref(refs: &Vec<AllowFromRef>, r: &AllowFromRef) -> (b: bool)
    ensures
        b == refs_view(refs@).contains(r@),
{
    let mut i: usize = 0;
    while i < refs.len()
        invariant
            i <= refs@.len(),
            forall|j: int| 0 <= j < i ==> refs_view(refs@)[j] != r@,
        decreases refs@.len() - i,
    {
        if refs[i].same(r) {
            assert(refs_view(refs@)[i as int] == r@);
            return true;
        }
        i = i + 1;
    }
    false
}

pub fn contains_id(ids: &Vec<Identifier>, x: &Identifier) -> (b: bool)
    ensures
        b == ids_view(ids@).contains(x@),
{
    let mut i: usize = 0;
    while i < ids.len()
        invariant
            i <= ids@.len(),
            forall|j: int| 0 <= j < i ==> ids_view(ids@)[j] != x@,
        decreases ids@.len() - i,
    {
        if ids[i].same(x) {
            assert(ids_view(ids@)[i as int] == x@);
            return true;
        }
        i = i + 1;
    }
    false
}

fn find_prefix(name: &Identifier, prefixes: &Vec<String>) -> (r: Option<usize>)
    ensures
        match r {
            Some(i) => first_prefix(name@, strings_view(prefixes@), i as int),
            None => !exists|i: int| #[trigger] first_prefix(name@, strings_view(prefixes@), i),
        },
{
    let ghost pv = strings_view(prefixes@);
    let v = chars_of(name.as_str());
    let mut i: usize = 0;
    while i < prefixes.len()
        invariant
            i <= prefixes@.len(),
            pv == strings_view(prefixes@),
            v@ == name@,
            forall|j: int| 0 <= j < i ==> !starts_with(name@, pv[j]),
        decreases prefixes@.len() - i,
    {
        let pc = chars_of(prefixes[i].as_str());
        if chars_start_with(&v, &pc) {
            assert(first_prefix(name@, pv, i as int));
            return Some(i);
        }
        i = i + 1;
    }
    None
}

/// Registers every name of the configuration; returns the registered references.
pub fn validate_names(config: &Config, report: &mut ValidationReport) -> (r: Vec<AllowFromRef>)
    ensures
        errors_view(final(report).errors@) == errors_view(old(report).errors@) + names_outcome(
            *config,
        ).errors,
        final(report).warnings@ == old(report).warnings@,
        refs_view(r@) == names_outcome(*config).refs,
{
    let mut prefixes: Vec<String> = Vec::new();
    let mut k: usize = 0;
    while k < config.nodes.len()
        invariant
            k <= config.nodes@.len(),
            strings_view(prefixes@) == config.nodes@.take(k as int).map_values(
                |n: (Identifier, Node)| n.0@ + seq!['_'],
            ),
        decreases config.nodes@.len() - k,
    {
        proof {
            reveal_strlit("_");
        }
        assert("_"@ =~= seq!['_']);
        let ghost before = prefixes@;
        prefixes.push(concat2(config.nodes[k].0.as_str(), "_"));
        proof {
            assert(config.nodes@.take(k + 1) =~= config.nodes@.take(k as int).push(config.nodes@[k as int]));
            assert(strings_view(prefixes@) =~= strings_view(before).push(
                config.nodes@[k as int].0@ + seq!['_'],
            ));
        }
        k = k + 1;
    }
    assert(config.nodes@.take(config.nodes@.len() as int) =~= config.nodes@);
    let ghost pv = node_prefixes(*config);
    let events = name_events_of(config);
    let ghost gv = global_names(*config);
    let mut globals: Vec<Identifier> = Vec::new();
    let mut g: usize = 0;
    while g < events.len()
        invariant
            g <= events@.len(),
            events@ == name_events(*config),
            ids_view(globals@) == events@.take(g as int).filter_map(global_name_fn()),
        decreases events@.len() - g,
    {
        let ghost gb = globals@;
        assert(events@.take(g + 1).drop_last() =~= events@.take(g as int));
        assert(events@.take(g + 1).last() == events@[g as int]);
        match &events[g] {
            NameEvent::Global { name, .. } => {
                globals.push(name.clone());
                assert(ids_view(globals@) =~= ids_view(gb).push(name@));
            },
            NameEvent::NodeStart { name, .. } => {
                globals.push(name.clone());
                assert(ids_view(globals@) =~= ids_view(gb).push(name@));
            },
            NameEvent::Local { .. } => {},
        }
        g = g + 1;
    }
    assert(events@.take(events@.len() as int) =~= events@);
    let ghost base = errors_view(report.errors@);
    let mut refs: Vec<AllowFromRef> = Vec::new();
    refs.push(AllowFromRef::SelfNode);
    let mut local: Vec<Identifier> = Vec::new();
    assert(refs_view(refs@) =~= seq![AllowFromRefView::SelfNode]);
    assert(ids_view(local@) =~= Seq::<Seq<char>>::empty());
    assert(errors_view(report.errors@) =~= base + Seq::<ErrorView>::empty());
    let mut i: usize = 0;
    while i < events.len()
        invariant
            i <= events@.len(),
            events@ == name_events(*config),
            strings_view(prefixes@) == pv,
            pv == node_prefixes(*config),
            ids_view(globals@) == gv,
            gv == global_names(*config),
            report.warnings@ == old(report).warnings@,
            base == errors_view(old(report).errors@),
            ({
                let st = names_run(events@.take(i as int), pv, gv);
                &&& refs_view(refs@) == st.refs
                &&& ids_view(local@) == st.local
                &&& errors_view(report.errors@) == base + st.errors
            }),
        decreases events@.len() - i,
    {
        let ghost st = names_run(events@.take(i as int), pv, gv);
        assert(events@.take(i + 1).drop_last() =~= events@.take(i as int));
        assert(events@.take(i + 1).last() == events@[i as int]);
        let ghost rb = refs@;
        let ghost lb = local@;
        let ghost eb = report.errors@;
        match &events[i] {
            NameEvent::Global { name, at } => {
                let bare = AllowFromRef::Bare(name.clone());
                if contains_ref(&refs, &bare) {
                    report.push_error(ValidationError::GlobalNameCollision { name: name.clone(), at: at.clone() });
                } else {
                    refs.push(bare);
                    assert(refs_view(refs@) =~= refs_view(rb).push(AllowFromRefView::Bare(name@)));
                }
            },
            NameEvent::NodeStart { name, at } => {
                local = Vec::new();
                local.push(name.clone());
                assert(ids_view(local@) =~= seq![name@]);
                let bare = AllowFromRef::Bare(name.clone());
                if contains_ref(&refs, &bare) {
                    report.push_error(ValidationError::GlobalNameCollision { name: name.clone(), at: at.clone() });
                } else {
                    refs.push(bare);
                    assert(refs_view(refs@) =~= refs_view(rb).push(AllowFromRefView::Bare(name@)));
                }
            },
            NameEvent::Local { node, name, at } => {
                match find_prefix(name, &prefixes) {
                    Some(p) => {
                        proof {
                            let c = choose|j: int| first_prefix(name@, pv, j);
                            if c < p {
                                assert(!starts_with(name@, pv[c]));
                            }
                            if c > p {
                                assert(!starts_with(name@, pv[p as int]));
                            }
                        }
                        report.push_error(ValidationError::InvalidPrefix {
                            name: name.clone(),
                            prefix: prefixes[p].clone(),
                            at: at.clone(),
                        });
                    },
                    None => {
                        if contains_id(&local, name) {
                            report.push_error(ValidationError::LocalNameCollision { name: name.clone(), at: at.clone() });
                        } else {
                            local.push(name.clone());
                            assert(ids_view(local@) =~= ids_view(lb).push(name@));
                            let nested = AllowFromRef::nested(node.clone(), name.clone());
                            if contains_ref(&refs, &nested) {
                                report.push_error(
                                    ValidationError::GlobalNameCollision { name: name.clone(), at: at.clone() },
                                );
                            } else if contains_id(&globals, name) {
                                report.push_error(
                                    ValidationError::LocalShadowsGlobal { name: name.clone(), at: at.clone() },
                                );
                            } else {
                                refs.push(nested);
                                assert(refs_view(refs@) =~= refs_view(rb).push(
                                    AllowFromRefView::Nested(node@, name@),
                                ));
                            }
                        }
                    },
                }
            },
        }
        i = i + 1;
    }
    assert(events@.take(events@.len() as int) =~= events@);
    refs
}

/// A local name equal to one of the `globals` always leaves an error behind.
proof fn lemma_shadow_is_reported(events: Seq<NameEvent>, prefixes: Seq<Seq<char>>, globals: Seq<Seq<char>>, i: int)
    requires
        0 <= i < events.len(),
        events[i] is Local,
        globals.contains(events[i]->Local_name@),
    ensures
        names_run(events, prefixes, globals).errors.len() > 0,
    decreases events.len(),
{
    let rest = events.drop_last();
    let st = names_run(rest, prefixes, globals);
    if i < events.len() - 1 {
        assert(rest[i] == events[i]);
        lemma_shadow_is_reported(rest, prefixes, globals, i);
        lemma_errors_grow(st, events.last(), prefixes, globals);
    }
}

/// Registering a name never removes an error.
proof fn lemma_errors_grow(st: NamesState, e: NameEvent, prefixes: Seq<Seq<char>>, globals: Seq<Seq<char>>)
    ensures
        name_step(st, e, prefixes, globals).errors.len() >= st.errors.len(),
{
}

/// Names do not cross namespaces: when the names check reports no error, no zone, device,
/// VPN interface or VPN peer of any node has the name of a node or a client, whatever the
/// order in which nodes and clients are declared.
pub proof fn lemma_no_local_shadows_global(config: Config)
    requires
        names_outcome(config).errors.len() == 0,
    ensures
        forall|k: int| 0 <= k < local_names(config).len() ==> !global_names(config).contains(#[trigger] local_names(config)[k]),
{
    let events = name_events(config);
    assert forall|k: int| 0 <= k < local_names(config).len() implies !global_names(config).contains(
        #[trigger] local_names(config)[k],
    ) by {
        let x = local_names(config)[k];
        assert(local_names(config).contains(x));
        events.lemma_filter_map_contains(local_name_fn(), x);
        let t = choose|t: NameEvent| #[trigger] events.contains(t) && local_name_fn()(t) == Some(x);
        let i = choose|i: int| 0 <= i < events.len() && events[i] == t;
        if global_names(config).contains(x) {
            lemma_shadow_is_reported(events, node_prefixes(config), global_names(config), i);
        }
    }
}

/// Registering a name never removes a registered reference, and a global name is registered
/// once its event is seen (by this event or an earlier one).
proof fn lemma_globals_registered(events: Seq<NameEvent>, prefixes: Seq<Seq<char>>, globals: Seq<Seq<char>>)
    ensures
        forall|i: int|
            0 <= i < events.len() && (#[trigger] global_name_fn()(events[i])) is Some ==> names_run(
                events,
                prefixes,
                globals,
            ).refs.contains(AllowFromRefView::Bare(global_name_fn()(events[i])->0)),
    decreases events.len(),
{
    if events.len() > 0 {
        let rest = events.drop_last();
        lemma_globals_registered(rest, prefixes, globals);
        let st = names_run(rest, prefixes, globals);
        let st2 = names_run(events, prefixes, globals);
        assert forall|x: AllowFromRefView| st.refs.contains(x) implies st2.refs.contains(x) by {
            let j = choose|j: int| 0 <= j < st.refs.len() && st.refs[j] == x;
            assert(st2.refs[j] == x);
        }
        assert forall|i: int|
            0 <= i < events.len() && (#[trigger] global_name_fn()(events[i])) is Some implies st2.refs.contains(
                AllowFromRefView::Bare(global_name_fn()(events[i])->0),
            ) by {
            if i < events.len() - 1 {
                assert(rest[i] == events[i]);
            } else {
                let x = AllowFromRefView::Bare(global_name_fn()(events[i])->0);
                if !st.refs.contains(x) {
                    assert(st2.refs[st.refs.len() as int] == x);
                }
            }
        }
    }
}

/// Every global name of the configuration ends up registered as a bare reference.
pub proof fn lemma_global_names_registered(config: Config)
    ensures
        forall|k: int| 0 <= k < global_names(config).len() ==> names_outcome(config).refs.contains(
            AllowFromRefView::Bare(#[trigger] global_names(config)[k]),
        ),
{
    let events = name_events(config);
    lemma_globals_registered(events, node_prefixes(config), global_names(config));
    assert forall|k: int| 0 <= k < global_names(config).len() implies names_outcome(config).refs.contains(
        AllowFromRefView::Bare(#[trigger] global_names(config)[k]),
    ) by {
        let x = global_names(config)[k];
        assert(global_names(config).contains(x));
        events.lemma_filter_map_contains(global_name_fn(), x);
        let t = choose|t: NameEvent| #[trigger] events.contains(t) && global_name_fn()(t) == Some(x);
        let i = choose|i: int| 0 <= i < events.len() && events[i] == t;
        assert(global_name_fn()(events[i]) is Some);
    }
}

} // verus!
