//! Tags: a tag is a global reference too, and must not be the name of anything.

use vstd::prelude::*;

use crate::config::{Client, Config, Node, NodeVpnInterface, NodeVpnInterfaceClient, NodeZone, NodeZoneDevice};
use crate::types::allow_from_ref::{AllowFromRef, AllowFromRefView};
use crate::types::config_location::{ClientLoc, ConfigLocation, DeviceLoc, NodeLoc, VpnClientLoc, VpnLoc, ZoneLoc};
use crate::types::identifier::Identifier;
use crate::validator::names::{contains_id, contains_ref, ids_view, local_names, local_names_of, refs_view};
use crate::validator::types::{ErrorView, ValidationError, ValidationReport, errors_view};

verus! {

broadcast use {vstd::seq_lib::group_seq_properties, vstd::seq::Seq::group_seq_extra};

/// Each tag of a list, with the place it is declared.
pub open spec fn tags_at(tags: Seq<Identifier>, at: ConfigLocation) -> Seq<(Identifier, ConfigLocation)> {
    tags.map_values(|t: Identifier| (t, at))
}

pub open spec fn client_tags_fn() -> spec_fn((Identifier, Client)) -> Seq<(Identifier, ConfigLocation)> {
    |c: (Identifier, Client)| tags_at(c.1.tags@, ConfigLocation::Client(c.0, ClientLoc::Tags))
}

pub open spec fn device_tags_fn(node: Identifier, zone: Identifier) -> spec_fn((Identifier, NodeZoneDevice)) -> Seq<
    (Identifier, ConfigLocation),
> {
    |d: (Identifier, NodeZoneDevice)|
        tags_at(
            d.1.tags@,
            ConfigLocation::Node(node, NodeLoc::Zone(zone, ZoneLoc::Device(d.0, DeviceLoc::Tags))),
        )
}

pub open spec fn zone_tags_fn(node: Identifier) -> spec_fn((Identifier, NodeZone)) -> Seq<(Identifier, ConfigLocation)> {
    |z: (Identifier, NodeZone)|
        tags_at(z.1.tags@, ConfigLocation::Node(node, NodeLoc::Zone(z.0, ZoneLoc::Tags)))
            + z.1.devices@.flat_map(device_tags_fn(node, z.0))
}

pub open spec fn peer_tags_fn(node: Identifier, vpn: Identifier) -> spec_fn((Identifier, NodeVpnInterfaceClient)) -> Seq<
    (Identifier, ConfigLocation),
> {
    |c: (Identifier, NodeVpnInterfaceClient)|
        tags_at(
            c.1.tags@,
            ConfigLocation::Node(node, NodeLoc::VpnInterface(vpn, VpnLoc::Client(c.0, VpnClientLoc::Tags))),
        )
}

pub open spec fn vpn_tags_fn(node: Identifier) -> spec_fn((Identifier, NodeVpnInterface)) -> Seq<(Identifier, ConfigLocation)> {
    |v: (Identifier, NodeVpnInterface)|
        tags_at(v.1.tags@, ConfigLocation::Node(node, NodeLoc::VpnInterface(v.0, VpnLoc::Tags)))
            + v.1.clients@.flat_map(peer_tags_fn(node, v.0))
}

pub open spec fn node_tags_fn() -> spec_fn((Identifier, Node)) -> Seq<(Identifier, ConfigLocation)> {
    |n: (Identifier, Node)|
        tags_at(n.1.tags@, ConfigLocation::Node(n.0, NodeLoc::Tags)) + n.1.zones@.flat_map(zone_tags_fn(n.0))
            + n.1.vpn_interfaces@.flat_map(vpn_tags_fn(n.0))
}

/// Every tag of the configuration with where it is declared: clients' first, then each
/// node's, its zones' and devices', its VPN interfaces' and peers'.
pub open spec fn tag_events(config: Config) -> Seq<(Identifier, ConfigLocation)> {
    config.clients@.flat_map(client_tags_fn()) + config.nodes@.flat_map(node_tags_fn())
}

/// A tag collides with a name when it is a registered global name or the name of a zone,
/// device, VPN interface or VPN peer of any node.
pub open spec fn tag_collides(refs: Seq<AllowFromRefView>, locals: Seq<Seq<char>>, t: Identifier) -> bool {
    refs.contains(AllowFromRefView::Bare(t@)) || locals.contains(t@)
}

pub open spec fn tag_error_fn(refs: Seq<AllowFromRefView>, locals: Seq<Seq<char>>) -> spec_fn((Identifier, ConfigLocation)) -> Option<ErrorView> {
    |e: (Identifier, ConfigLocation)|
        if tag_collides(refs, locals, e.0) {
            Some(ErrorView::TagWithNameCollision { tag: e.0, at: e.1 })
        } else {
            None
        }
}

pub open spec fn tag_ref_fn(refs: Seq<AllowFromRefView>, locals: Seq<Seq<char>>) -> spec_fn((Identifier, ConfigLocation)) -> Option<AllowFromRefView> {
    |e: (Identifier, ConfigLocation)|
        if tag_collides(refs, locals, e.0) {
            None
        } else {
            Some(AllowFromRefView::Bare(e.0@))
        }
}

/// A tag that is a registered global name, or any node's local name, is an error.
pub open spec fn tag_errors(config: Config, refs: Seq<AllowFromRefView>) -> Seq<ErrorView> {
    tag_events(config).filter_map(tag_error_fn(refs, local_names(config)))
}

/// The tags that are not registered names, as references.
pub open spec fn tag_refs(config: Config, refs: Seq<AllowFromRefView>) -> Seq<AllowFromRefView> {
    tag_events(config).filter_map(tag_ref_fn(refs, local_names(config)))
}

fn push_tags(out: &mut Vec<(Identifier, ConfigLocation)>, tags: &Vec<Identifier>, at: &ConfigLocation)
    ensures
        final(out)@ == old(out)@ + tags_at(tags@, *at),
{
    let ghost o = out@;
    let mut i: usize = 0;
    while i < tags.len()
        invariant
            i <= tags@.len(),
            out@ == o + tags_at(tags@.take(i as int), *at),
        decreases tags@.len() - i,
    {
        out.push((tags[i].clone(), at.clone()));
        proof {
            assert(tags@.take(i + 1) =~= tags@.take(i as int).push(tags@[i as int]));
            assert(tags_at(tags@.take(i + 1), *at) =~= tags_at(tags@.take(i as int), *at).push(
                (tags@[i as int], *at),
            ));
        }
        i = i + 1;
    }
    assert(tags@.take(tags@.len() as int) =~= tags@);
}

fn tag_events_of(config: &Config) -> (r: Vec<(Identifier, ConfigLocation)>)
    ensures
        r@ == tag_events(*config),
{
    let mut r: Vec<(Identifier, ConfigLocation)> = Vec::new();
    let mut ci: usize = 0;
    while ci < config.clients.len()
        invariant
            ci <= config.clients@.len(),
            r@ == config.clients@.take(ci as int).flat_map(client_tags_fn()),
        decreases config.clients@.len() - ci,
    {
        let c = &config.clients[ci];
        push_tags(&mut r, c.1.tags.items(), &ConfigLocation::Client(c.0.clone(), ClientLoc::Tags));
        ci = ci + 1;
    }
    assert(config.clients@.take(config.clients@.len() as int) =~= config.clients@);
    let ghost head = r@;
    let mut ni: usize = 0;
    while ni < config.nodes.len()
        invariant
            ni <= config.nodes@.len(),
            head == config.clients@.flat_map(client_tags_fn()),
            r@ == head + config.nodes@.take(ni as int).flat_map(node_tags_fn()),
        decreases config.nodes@.len() - ni,
    {
        let n = &config.nodes[ni];
        let ghost before = r@;
        push_tags(&mut r, n.1.tags.items(), &ConfigLocation::Node(n.0.clone(), NodeLoc::Tags));
        let ghost after = r@;
        let mut zi: usize = 0;
        while zi < n.1.zones.len()
            invariant
                zi <= n.1.zones@.len(),
                r@ == after + n.1.zones@.take(zi as int).flat_map(zone_tags_fn(n.0)),
            decreases n.1.zones@.len() - zi,
        {
            let z = &n.1.zones[zi];
            let ghost zb = r@;
            push_tags(
                &mut r,
                z.1.tags.items(),
                &ConfigLocation::Node(n.0.clone(), NodeLoc::Zone(z.0.clone(), ZoneLoc::Tags)),
            );
            let ghost zs = r@;
            let mut di: usize = 0;
            while di < z.1.devices.len()
                invariant
                    di <= z.1.devices@.len(),
                    r@ == zs + z.1.devices@.take(di as int).flat_map(device_tags_fn(n.0, z.0)),
                decreases z.1.devices@.len() - di,
            {
                let d = &z.1.devices[di];
                push_tags(
                    &mut r,
                    d.1.tags.items(),
                    &ConfigLocation::Node(
                        n.0.clone(),
                        NodeLoc::Zone(z.0.clone(), ZoneLoc::Device(d.0.clone(), DeviceLoc::Tags)),
                    ),
                );
                di = di + 1;
            }
            assert(z.1.devices@.take(z.1.devices@.len() as int) =~= z.1.devices@);
            assert(r@ =~= zb + zone_tags_fn(n.0)(*z));
            zi = zi + 1;
        }
        assert(n.1.zones@.take(n.1.zones@.len() as int) =~= n.1.zones@);
        let ghost after_zones = r@;
        let mut vi: usize = 0;
        while vi < n.1.vpn_interfaces.len()
            invariant
                vi <= n.1.vpn_interfaces@.len(),
                r@ == after_zones + n.1.vpn_interfaces@.take(vi as int).flat_map(vpn_tags_fn(n.0)),
            decreases n.1.vpn_interfaces@.len() - vi,
        {
            let v = &n.1.vpn_interfaces[vi];
            let ghost vb = r@;
            push_tags(
                &mut r,
                v.1.tags.items(),
                &ConfigLocation::Node(n.0.clone(), NodeLoc::VpnInterface(v.0.clone(), VpnLoc::Tags)),
            );
            let ghost vs = r@;
            let mut pi: usize = 0;
            while pi < v.1.clients.len()
                invariant
                    pi <= v.1.clients@.len(),
                    r@ == vs + v.1.clients@.take(pi as int).flat_map(peer_tags_fn(n.0, v.0)),
                decreases v.1.clients@.len() - pi,
            {
                let p = &v.1.clients[pi];
                push_tags(
                    &mut r,
                    p.1.tags.items(),
                    &ConfigLocation::Node(
                        n.0.clone(),
                        NodeLoc::VpnInterface(v.0.clone(), VpnLoc::Client(p.0.clone(), VpnClientLoc::Tags)),
                    ),
                );
                pi = pi + 1;
            }
            assert(v.1.clients@.take(v.1.clients@.len() as int) =~= v.1.clients@);
            assert(r@ =~= vb + vpn_tags_fn(n.0)(*v));
            vi = vi + 1;
        }
        assert(n.1.vpn_interfaces@.take(n.1.vpn_interfaces@.len() as int) =~= n.1.vpn_interfaces@);
        assert(r@ =~= before + node_tags_fn()(*n));
        ni = ni + 1;
    }
    assert(config.nodes@.take(config.nodes@.len() as int) =~= config.nodes@);
    r
}

/// Checks the tags against the registered references; returns the tags as references.
pub fn validate_tags(config: &Config, report: &mut ValidationReport, global_refs: &Vec<AllowFromRef>) -> (r: Vec<
    AllowFromRef,
>)
    ensures
        errors_view(final(report).errors@) == errors_view(old(report).errors@) + tag_errors(
            *config,
            refs_view(global_refs@),
        ),
        final(report).warnings@ == old(report).warnings@,
        refs_view(r@) == tag_refs(*config, refs_view(global_refs@)),
{
    let ghost rv = refs_view(global_refs@);
    let ghost lv = local_names(*config);
    let locals = local_names_of(config);
    let events = tag_events_of(config);
    let ghost base = errors_view(report.errors@);
    let mut tags: Vec<AllowFromRef> = Vec::new();
    let mut i: usize = 0;
    while i < events.len()
        invariant
            i <= events@.len(),
            events@ == tag_events(*config),
            rv == refs_view(global_refs@),
            lv == local_names(*config),
            ids_view(locals@) == lv,
            report.warnings@ == old(report).warnings@,
            base == errors_view(old(report).errors@),
            errors_view(report.errors@) == base + events@.take(i as int).filter_map(tag_error_fn(rv, lv)),
            refs_view(tags@) == events@.take(i as int).filter_map(tag_ref_fn(rv, lv)),
        decreases events@.len() - i,
    {
        let e = &events[i];
        let bare = AllowFromRef::Bare(e.0.clone());
        let ghost tb = tags@;
        if contains_ref(global_refs, &bare) || contains_id(&locals, &e.0) {
            report.push_error(ValidationError::TagWithNameCollision { tag: e.0.clone(), at: e.1.clone() });
        } else {
            tags.push(bare);
            assert(refs_view(tags@) =~= refs_view(tb).push(AllowFromRefView::Bare(e.0@)));
        }
        i = i + 1;
    }
    assert(events@.take(events@.len() as int) =~= events@);
    tags
}

/// A sequence that yields nothing under `f` has no element that `f` keeps.
pub(crate) proof fn lemma_filter_map_none<A, B>(s: Seq<A>, f: spec_fn(A) -> Option<B>, k: int)
    requires
        s.filter_map(f).len() == 0,
        0 <= k < s.len(),
    ensures
        f(s[k]) is None,
    decreases s.len(),
{
    let rest = s.drop_last();
    if f(s.last()) is Some {
        assert(s.filter_map(f).len() == rest.filter_map(f).len() + 1);
    } else if k < s.len() - 1 {
        assert(rest[k] == s[k]);
        lemma_filter_map_none(rest, f, k);
    }
}

/// Tags do not collide with names: when the tag check reports no error, no tag anywhere in
/// the configuration is a registered global name or the name of a zone, device, VPN
/// interface or VPN peer of any node.
pub proof fn lemma_tags_apart_from_names(config: Config, refs: Seq<AllowFromRefView>)
    requires
        tag_errors(config, refs).len() == 0,
    ensures
        forall|k: int| 0 <= k < tag_events(config).len() ==> !tag_collides(refs, local_names(config), #[trigger] tag_events(config)[k].0),
{
    assert forall|k: int| 0 <= k < tag_events(config).len() implies !tag_collides(
        refs,
        local_names(config),
        #[trigger] tag_events(config)[k].0,
    ) by {
        lemma_filter_map_none(tag_events(config), tag_error_fn(refs, local_names(config)), k);
    }
}

} // verus!
