//! Where in the configuration a diagnostic points, rendered as a dotted path such as
//! `nodes.Home.zones.lan.address`.

use vstd::prelude::*;

use crate::text::{push_str, to_string};
use crate::types::identifier::Identifier;

verus! {

broadcast use vstd::seq_lib::group_seq_properties;

/// A place in the configuration.
#[derive(Debug)]
pub enum ConfigLocation {
    MeshNetwork,
    Node(Identifier, NodeLoc),
    Client(Identifier, ClientLoc),
}

/// A place inside a node.
#[derive(Debug)]
pub enum NodeLoc {
    Root,
    PublicKey,
    Endpoint,
    ListenPort,
    MeshIp,
    Tags,
    WanZone,
    Zone(Identifier, ZoneLoc),
    VpnInterface(Identifier, VpnLoc),
    Service(Identifier, ServiceLoc),
}

/// A place inside a service.
#[derive(Debug)]
pub enum ServiceLoc {
    Root,
    Port,
    Proto,
    AllowFrom,
    Wan(WanLoc),
}

/// A place inside a service's `wan` section.
#[derive(Debug)]
pub enum WanLoc {
    Root,
    Via,
    Sources,
}

/// A place inside a zone.
#[derive(Debug)]
pub enum ZoneLoc {
    Root,
    Address,
    Tags,
    Device(Identifier, DeviceLoc),
}

/// A place inside a zone device.
#[derive(Debug)]
pub enum DeviceLoc {
    Root,
    Ip,
    Macs,
    Tags,
    Service(Identifier, ServiceLoc),
}

/// A place inside a VPN interface.
#[derive(Debug)]
pub enum VpnLoc {
    Root,
    ListenPort,
    Address,
    Tags,
    Client(Identifier, VpnClientLoc),
}

/// A place inside a VPN interface client.
#[derive(Debug)]
pub enum VpnClientLoc {
    Root,
    PublicKey,
    Ip,
    Tags,
    Service(Identifier, ServiceLoc),
}

/// A place inside a global client.
#[derive(Debug)]
pub enum ClientLoc {
    Root,
    MeshIp,
    PublicKey,
    Macs,
    Tags,
    Ip(Identifier, ClientIpLoc),
    Service(Identifier, ServiceLoc),
}

/// A place inside a client's `ips` entry for one node.
#[derive(Debug)]
pub enum ClientIpLoc {
    Root,
    Network(Identifier),
}

impl Clone for ConfigLocation {
    fn clone(&self) -> (r: Self)
        ensures
            r == *self,
    {
        match self {
            ConfigLocation::MeshNetwork => ConfigLocation::MeshNetwork,
            ConfigLocation::Node(a, b) => ConfigLocation::Node(a.clone(), b.clone()),
            ConfigLocation::Client(a, b) => ConfigLocation::Client(a.clone(), b.clone()),
        }
    }
}

impl Clone for NodeLoc {
    fn clone(&self) -> (r: Self)
        ensures
            r == *self,
    {
        match self {
            NodeLoc::Root => NodeLoc::Root,
            NodeLoc::PublicKey => NodeLoc::PublicKey,
            NodeLoc::Endpoint => NodeLoc::Endpoint,
            NodeLoc::ListenPort => NodeLoc::ListenPort,
            NodeLoc::MeshIp => NodeLoc::MeshIp,
            NodeLoc::Tags => NodeLoc::Tags,
            NodeLoc::WanZone => NodeLoc::WanZone,
            NodeLoc::Zone(a, b) => NodeLoc::Zone(a.clone(), b.clone()),
            NodeLoc::VpnInterface(a, b) => NodeLoc::VpnInterface(a.clone(), b.clone()),
            NodeLoc::Service(a, b) => NodeLoc::Service(a.clone(), b.clone()),
        }
    }
}

impl Clone for ServiceLoc {
    fn clone(&self) -> (r: Self)
        ensures
            r == *self,
    {
        match self {
            ServiceLoc::Root => ServiceLoc::Root,
            ServiceLoc::Port => ServiceLoc::Port,
            ServiceLoc::Proto => ServiceLoc::Proto,
            ServiceLoc::AllowFrom => ServiceLoc::AllowFrom,
            ServiceLoc::Wan(a) => ServiceLoc::Wan(a.clone()),
        }
    }
}

impl Clone for WanLoc {
    fn clone(&self) -> (r: Self)
        ensures
            r == *self,
    {
        match self {
            WanLoc::Root => WanLoc::Root,
            WanLoc::Via => WanLoc::Via,
            WanLoc::Sources => WanLoc::Sources,
        }
    }
}

impl Clone for ZoneLoc {
    fn clone(&self) -> (r: Self)
        ensures
            r == *self,
    {
        match self {
            ZoneLoc::Root => ZoneLoc::Root,
            ZoneLoc::Address => ZoneLoc::Address,
            ZoneLoc::Tags => ZoneLoc::Tags,
            ZoneLoc::Device(a, b) => ZoneLoc::Device(a.clone(), b.clone()),
        }
    }
}

impl Clone for DeviceLoc {
    fn clone(&self) -> (r: Self)
        ensures
            r == *self,
    {
        match self {
            DeviceLoc::Root => DeviceLoc::Root,
            DeviceLoc::Ip => DeviceLoc::Ip,
            DeviceLoc::Macs => DeviceLoc::Macs,
            DeviceLoc::Tags => DeviceLoc::Tags,
            DeviceLoc::Service(a, b) => DeviceLoc::Service(a.clone(), b.clone()),
        }
    }
}

impl Clone for VpnLoc {
    fn clone(&self) -> (r: Self)
        ensures
            r == *self,
    {
        match self {
            VpnLoc::Root => VpnLoc::Root,
            VpnLoc::ListenPort => VpnLoc::ListenPort,
            VpnLoc::Address => VpnLoc::Address,
            VpnLoc::Tags => VpnLoc::Tags,
            VpnLoc::Client(a, b) => VpnLoc::Client(a.clone(), b.clone()),
        }
    }
}

impl Clone for VpnClientLoc {
    fn clone(&self) -> (r: Self)
        ensures
            r == *self,
    {
        match self {
            VpnClientLoc::Root => VpnClientLoc::Root,
            VpnClientLoc::PublicKey => VpnClientLoc::PublicKey,
            VpnClientLoc::Ip => VpnClientLoc::Ip,
            VpnClientLoc::Tags => VpnClientLoc::Tags,
            VpnClientLoc::Service(a, b) => VpnClientLoc::Service(a.clone(), b.clone()),
        }
    }
}

impl Clone for ClientLoc {
    fn clone(&self) -> (r: Self)
        ensures
            r == *self,
    {
        match self {
            ClientLoc::Root => ClientLoc::Root,
            ClientLoc::MeshIp => ClientLoc::MeshIp,
            ClientLoc::PublicKey => ClientLoc::PublicKey,
            ClientLoc::Macs => ClientLoc::Macs,
            ClientLoc::Tags => ClientLoc::Tags,
            ClientLoc::Ip(a, b) => ClientLoc::Ip(a.clone(), b.clone()),
            ClientLoc::Service(a, b) => ClientLoc::Service(a.clone(), b.clone()),
        }
    }
}

impl Clone for ClientIpLoc {
    fn clone(&self) -> (r: Self)
        ensures
            r == *self,
    {
        match self {
            ClientIpLoc::Root => ClientIpLoc::Root,
            ClientIpLoc::Network(a) => ClientIpLoc::Network(a.clone()),
        }
    }
}

/// `.` followed by `s`.
pub open spec fn dot(s: Seq<char>) -> Seq<char> {
    seq!['.'] + s
}

pub open spec fn wan_loc_text(l: WanLoc) -> Seq<char> {
    match l {
        WanLoc::Root => seq![],
        WanLoc::Via => dot(seq!['v', 'i', 'a']),
        WanLoc::Sources => dot(seq!['s', 'o', 'u', 'r', 'c', 'e', 's']),
    }
}

pub open spec fn service_loc_text(l: ServiceLoc) -> Seq<char> {
    match l {
        ServiceLoc::Root => seq![],
        ServiceLoc::Port => dot(seq!['p', 'o', 'r', 't']),
        ServiceLoc::Proto => dot(seq!['p', 'r', 'o', 't', 'o']),
        ServiceLoc::AllowFrom => dot(seq!['a', 'l', 'l', 'o', 'w', 'F', 'r', 'o', 'm']),
        ServiceLoc::Wan(w) => dot(seq!['w', 'a', 'n']) + wan_loc_text(w),
    }
}

/// `.services.<name>` followed by the place inside the service.
pub open spec fn services_text(name: Seq<char>, l: ServiceLoc) -> Seq<char> {
    dot(seq!['s', 'e', 'r', 'v', 'i', 'c', 'e', 's']) + dot(name) + service_loc_text(l)
}

pub open spec fn device_loc_text(l: DeviceLoc) -> Seq<char> {
    match l {
        DeviceLoc::Root => seq![],
        DeviceLoc::Ip => dot(seq!['i', 'p']),
        DeviceLoc::Macs => dot(seq!['m', 'a', 'c', 's']),
        DeviceLoc::Tags => dot(seq!['t', 'a', 'g', 's']),
        DeviceLoc::Service(n, s) => services_text(n@, s),
    }
}

pub open spec fn zone_loc_text(l: ZoneLoc) -> Seq<char> {
    match l {
        ZoneLoc::Root => seq![],
        ZoneLoc::Address => dot(seq!['a', 'd', 'd', 'r', 'e', 's', 's']),
        ZoneLoc::Tags => dot(seq!['t', 'a', 'g', 's']),
        ZoneLoc::Device(n, d) => dot(seq!['d', 'e', 'v', 'i', 'c', 'e', 's']) + dot(n@)
            + device_loc_text(d),
    }
}

pub open spec fn vpn_client_loc_text(l: VpnClientLoc) -> Seq<char> {
    match l {
        VpnClientLoc::Root => seq![],
        VpnClientLoc::PublicKey => dot(seq!['p', 'u', 'b', 'l', 'i', 'c', 'K', 'e', 'y']),
        VpnClientLoc::Ip => dot(seq!['i', 'p']),
        VpnClientLoc::Tags => dot(seq!['t', 'a', 'g', 's']),
        VpnClientLoc::Service(n, s) => services_text(n@, s),
    }
}

pub open spec fn vpn_loc_text(l: VpnLoc) -> Seq<char> {
    match l {
        VpnLoc::Root => seq![],
        VpnLoc::ListenPort => dot(seq!['l', 'i', 's', 't', 'e', 'n', 'P', 'o', 'r', 't']),
        VpnLoc::Address => dot(seq!['a', 'd', 'd', 'r', 'e', 's', 's']),
        VpnLoc::Tags => dot(seq!['t', 'a', 'g', 's']),
        VpnLoc::Client(n, c) => dot(seq!['c', 'l', 'i', 'e', 'n', 't', 's']) + dot(n@)
            + vpn_client_loc_text(c),
    }
}

pub open spec fn node_loc_text(l: NodeLoc) -> Seq<char> {
    match l {
        NodeLoc::Root => seq![],
        NodeLoc::PublicKey => dot(seq!['p', 'u', 'b', 'l', 'i', 'c', 'K', 'e', 'y']),
        NodeLoc::Endpoint => dot(seq!['e', 'n', 'd', 'p', 'o', 'i', 'n', 't']),
        NodeLoc::ListenPort => dot(seq!['l', 'i', 's', 't', 'e', 'n', 'P', 'o', 'r', 't']),
        NodeLoc::MeshIp => dot(seq!['m', 'e', 's', 'h', 'I', 'p']),
        NodeLoc::Tags => dot(seq!['t', 'a', 'g', 's']),
        NodeLoc::WanZone => dot(seq!['w', 'a', 'n', 'Z', 'o', 'n', 'e']),
        NodeLoc::Zone(n, z) => dot(seq!['z', 'o', 'n', 'e', 's']) + dot(n@) + zone_loc_text(z),
        NodeLoc::VpnInterface(n, v) => dot(
            seq!['v', 'p', 'n', 'I', 'n', 't', 'e', 'r', 'f', 'a', 'c', 'e', 's'],
        ) + dot(n@) + vpn_loc_text(v),
        NodeLoc::Service(n, s) => services_text(n@, s),
    }
}

pub open spec fn client_ip_loc_text(l: ClientIpLoc) -> Seq<char> {
    match l {
        ClientIpLoc::Root => seq![],
        ClientIpLoc::Network(n) => dot(n@),
    }
}

pub open spec fn client_loc_text(l: ClientLoc) -> Seq<char> {
    match l {
        ClientLoc::Root => seq![],
        ClientLoc::MeshIp => dot(seq!['m', 'e', 's', 'h', 'I', 'p']),
        ClientLoc::PublicKey => dot(seq!['p', 'u', 'b', 'l', 'i', 'c', 'K', 'e', 'y']),
        ClientLoc::Macs => dot(seq!['m', 'a', 'c', 's']),
        ClientLoc::Tags => dot(seq!['t', 'a', 'g', 's']),
        ClientLoc::Ip(n, i) => dot(seq!['i', 'p', 's']) + dot(n@) + client_ip_loc_text(i),
        ClientLoc::Service(n, s) => services_text(n@, s),
    }
}

/// The dotted path of a location.
pub open spec fn location_text(l: ConfigLocation) -> Seq<char> {
    match l {
        ConfigLocation::MeshNetwork => seq!['m', 'e', 's', 'h', 'N', 'e', 't', 'w', 'o', 'r', 'k'],
        ConfigLocation::Node(n, nl) => seq!['n', 'o', 'd', 'e', 's'] + dot(n@) + node_loc_text(nl),
        ConfigLocation::Client(n, cl) => seq!['c', 'l', 'i', 'e', 'n', 't', 's'] + dot(n@)
            + client_loc_text(cl),
    }
}

/// Appends `.` and the identifier.
fn push_dot_id(s: &mut String, id: &Identifier)
    ensures
        final(s)@ == old(s)@ + dot(id@),
{
    push_str(s, ".");
    proof {
        reveal_strlit(".");
    }
    push_str(s, id.as_str());
}

/// Appends a literal segment.
fn push_lit(s: &mut String, lit: &str)
    ensures
        final(s)@ == old(s)@ + lit@,
{
    push_str(s, lit);
}

impl WanLoc {
    /// Appends the rendering of this place.
    pub fn write_to(&self, s: &mut String)
        ensures
            final(s)@ == old(s)@ + wan_loc_text(*self),
    {
        match self {
            WanLoc::Root => {
                assert(old(s)@ + seq![] =~= old(s)@);
            },
            WanLoc::Via => {
                proof {
                    reveal_strlit(".via");
                }
                push_lit(s, ".via");
            },
            WanLoc::Sources => {
                proof {
                    reveal_strlit(".sources");
                }
                push_lit(s, ".sources");
            },
        }
    }
}

impl ServiceLoc {
    /// Appends the rendering of this place.
    pub fn write_to(&self, s: &mut String)
        ensures
            final(s)@ == old(s)@ + service_loc_text(*self),
    {
        match self {
            ServiceLoc::Root => {
                assert(old(s)@ + seq![] =~= old(s)@);
            },
            ServiceLoc::Port => {
                proof {
                    reveal_strlit(".port");
                }
                push_lit(s, ".port");
            },
            ServiceLoc::Proto => {
                proof {
                    reveal_strlit(".proto");
                }
                push_lit(s, ".proto");
            },
            ServiceLoc::AllowFrom => {
                proof {
                    reveal_strlit(".allowFrom");
                }
                push_lit(s, ".allowFrom");
            },
            ServiceLoc::Wan(w) => {
                proof {
                    reveal_strlit(".wan");
                }
                push_lit(s, ".wan");
                w.write_to(s);
                assert(final(s)@ =~= old(s)@ + service_loc_text(*self));
            },
        }
    }
}

/// Appends `.services.<name>` and the place inside the service.
fn push_services(s: &mut String, name: &Identifier, l: &ServiceLoc)
    ensures
        final(s)@ == old(s)@ + services_text(name@, *l),
{
    proof {
        reveal_strlit(".services");
    }
    push_lit(s, ".services");
    push_dot_id(s, name);
    l.write_to(s);
    assert(final(s)@ =~= old(s)@ + services_text(name@, *l));
}

impl DeviceLoc {
    /// Appends the rendering of this place.
    pub fn write_to(&self, s: &mut String)
        ensures
            final(s)@ == old(s)@ + device_loc_text(*self),
    {
        match self {
            DeviceLoc::Root => {
                assert(old(s)@ + seq![] =~= old(s)@);
            },
            DeviceLoc::Ip => {
                proof {
                    reveal_strlit(".ip");
                }
                push_lit(s, ".ip");
            },
            DeviceLoc::Macs => {
                proof {
                    reveal_strlit(".macs");
                }
                push_lit(s, ".macs");
            },
            DeviceLoc::Tags => {
                proof {
                    reveal_strlit(".tags");
                }
                push_lit(s, ".tags");
            },
            DeviceLoc::Service(n, l) => {
                push_services(s, n, l);
            },
        }
    }
}

impl ZoneLoc {
    /// Appends the rendering of this place.
    pub fn write_to(&self, s: &mut String)
        ensures
            final(s)@ == old(s)@ + zone_loc_text(*self),
    {
        match self {
            ZoneLoc::Root => {
                assert(old(s)@ + seq![] =~= old(s)@);
            },
            ZoneLoc::Address => {
                proof {
                    reveal_strlit(".address");
                }
                push_lit(s, ".address");
            },
            ZoneLoc::Tags => {
                proof {
                    reveal_strlit(".tags");
                }
                push_lit(s, ".tags");
            },
            ZoneLoc::Device(n, d) => {
                proof {
                    reveal_strlit(".devices");
                }
                push_lit(s, ".devices");
                push_dot_id(s, n);
                d.write_to(s);
                assert(final(s)@ =~= old(s)@ + zone_loc_text(*self));
            },
        }
    }
}

impl VpnClientLoc {
    /// Appends the rendering of this place.
    pub fn write_to(&self, s: &mut String)
        ensures
            final(s)@ == old(s)@ + vpn_client_loc_text(*self),
    {
        match self {
            VpnClientLoc::Root => {
                assert(old(s)@ + seq![] =~= old(s)@);
            },
            VpnClientLoc::PublicKey => {
                proof {
                    reveal_strlit(".publicKey");
                }
                push_lit(s, ".publicKey");
            },
            VpnClientLoc::Ip => {
                proof {
                    reveal_strlit(".ip");
                }
                push_lit(s, ".ip");
            },
            VpnClientLoc::Tags => {
                proof {
                    reveal_strlit(".tags");
                }
                push_lit(s, ".tags");
            },
            VpnClientLoc::Service(n, l) => {
                push_services(s, n, l);
            },
        }
    }
}

impl VpnLoc {
    /// Appends the rendering of this place.
    pub fn write_to(&self, s: &mut String)
        ensures
            final(s)@ == old(s)@ + vpn_loc_text(*self),
    {
        match self {
            VpnLoc::Root => {
                assert(old(s)@ + seq![] =~= old(s)@);
            },
            VpnLoc::ListenPort => {
                proof {
                    reveal_strlit(".listenPort");
                }
                push_lit(s, ".listenPort");
            },
            VpnLoc::Address => {
                proof {
                    reveal_strlit(".address");
                }
                push_lit(s, ".address");
            },
            VpnLoc::Tags => {
                proof {
                    reveal_strlit(".tags");
                }
                push_lit(s, ".tags");
            },
            VpnLoc::Client(n, c) => {
                proof {
                    reveal_strlit(".clients");
                }
                push_lit(s, ".clients");
                push_dot_id(s, n);
                c.write_to(s);
                assert(final(s)@ =~= old(s)@ + vpn_loc_text(*self));
            },
        }
    }
}

impl NodeLoc {
    /// Appends the rendering of this place.
    pub fn write_to(&self, s: &mut String)
        ensures
            final(s)@ == old(s)@ + node_loc_text(*self),
    {
        match self {
            NodeLoc::Root => {
                assert(old(s)@ + seq![] =~= old(s)@);
            },
            NodeLoc::PublicKey => {
                proof {
                    reveal_strlit(".publicKey");
                }
                push_lit(s, ".publicKey");
            },
            NodeLoc::Endpoint => {
                proof {
                    reveal_strlit(".endpoint");
                }
                push_lit(s, ".endpoint");
            },
            NodeLoc::ListenPort => {
                proof {
                    reveal_strlit(".listenPort");
                }
                push_lit(s, ".listenPort");
            },
            NodeLoc::MeshIp => {
                proof {
                    reveal_strlit(".meshIp");
                }
                push_lit(s, ".meshIp");
            },
            NodeLoc::Tags => {
                proof {
                    reveal_strlit(".tags");
                }
                push_lit(s, ".tags");
            },
            NodeLoc::WanZone => {
                proof {
                    reveal_strlit(".wanZone");
                }
                push_lit(s, ".wanZone");
            },
            NodeLoc::Zone(n, z) => {
                proof {
                    reveal_strlit(".zones");
                }
                push_lit(s, ".zones");
                push_dot_id(s, n);
                z.write_to(s);
                assert(final(s)@ =~= old(s)@ + node_loc_text(*self));
            },
            NodeLoc::VpnInterface(n, v) => {
                proof {
                    reveal_strlit(".vpnInterfaces");
                }
                push_lit(s, ".vpnInterfaces");
                push_dot_id(s, n);
                v.write_to(s);
                assert(final(s)@ =~= old(s)@ + node_loc_text(*self));
            },
            NodeLoc::Service(n, l) => {
                push_services(s, n, l);
            },
        }
    }
}

impl ClientIpLoc {
    /// Appends the rendering of this place.
    pub fn write_to(&self, s: &mut String)
        ensures
            final(s)@ == old(s)@ + client_ip_loc_text(*self),
    {
        match self {
            ClientIpLoc::Root => {
                assert(old(s)@ + seq![] =~= old(s)@);
            },
            ClientIpLoc::Network(n) => {
                push_dot_id(s, n);
            },
        }
    }
}

impl ClientLoc {
    /// Appends the rendering of this place.
    pub fn write_to(&self, s: &mut String)
        ensures
            final(s)@ == old(s)@ + client_loc_text(*self),
    {
        match self {
            ClientLoc::Root => {
                assert(old(s)@ + seq![] =~= old(s)@);
            },
            ClientLoc::MeshIp => {
                proof {
                    reveal_strlit(".meshIp");
                }
                push_lit(s, ".meshIp");
            },
            ClientLoc::PublicKey => {
                proof {
                    reveal_strlit(".publicKey");
                }
                push_lit(s, ".publicKey");
            },
            ClientLoc::Macs => {
                proof {
                    reveal_strlit(".macs");
                }
                push_lit(s, ".macs");
            },
            ClientLoc::Tags => {
                proof {
                    reveal_strlit(".tags");
                }
                push_lit(s, ".tags");
            },
            ClientLoc::Ip(n, i) => {
                proof {
                    reveal_strlit(".ips");
                }
                push_lit(s, ".ips");
                push_dot_id(s, n);
                i.write_to(s);
                assert(final(s)@ =~= old(s)@ + client_loc_text(*self));
            },
            ClientLoc::Service(n, l) => {
                push_services(s, n, l);
            },
        }
    }
}

impl ConfigLocation {
    /// Appends the dotted path of this location.
    pub fn write_to(&self, s: &mut String)
        ensures
            final(s)@ == old(s)@ + location_text(*self),
    {
        match self {
            ConfigLocation::MeshNetwork => {
                proof {
                    reveal_strlit("meshNetwork");
                }
                push_lit(s, "meshNetwork");
            },
            ConfigLocation::Node(n, l) => {
                proof {
                    reveal_strlit("nodes");
                }
                push_lit(s, "nodes");
                push_dot_id(s, n);
                l.write_to(s);
                assert(final(s)@ =~= old(s)@ + location_text(*self));
            },
            ConfigLocation::Client(n, l) => {
                proof {
                    reveal_strlit("clients");
                }
                push_lit(s, "clients");
                push_dot_id(s, n);
                l.write_to(s);
                assert(final(s)@ =~= old(s)@ + location_text(*self));
            },
        }
    }

    /// The dotted path of this location, e.g. `nodes.Home.zones.lan.address`.
    pub fn to_string(&self) -> (r: String)
        ensures
            r@ == location_text(*self),
    {
        let mut s = String::new();
        self.write_to(&mut s);
        assert(s@ =~= location_text(*self));
        s
    }
}

} // verus!
