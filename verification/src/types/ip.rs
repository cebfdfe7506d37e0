//! IPv4 addresses, interface addresses (`ip/prefix` of a host) and networks.

use vstd::prelude::*;

use crate::text::{chars_of, concat2, dec, push_char, push_str, split_once, split_once_chars, u32_to_dec};
use crate::types::port::{parse_unsigned, parse_unsigned_chars, scan_digits, scan_digits_chars};
use crate::types::schema_helpers::SameValue;

verus! {

broadcast use vstd::seq_lib::group_seq_properties;

/// A string is not an IPv4 address in dotted-quad form.
#[derive(Debug, Clone, Copy, PartialEq, Eq, Structural)]
pub struct AddrParseError;

impl AddrParseError {
    /// The error message.
    pub fn to_string(&self) -> (s: String)
        ensures
            s@ == addr_parse_error_text(),
    {
        proof {
            reveal_strlit("invalid IPv4 address syntax");
        }
        crate::text::to_string("invalid IPv4 address syntax")
    }
}

/// The message of `AddrParseError`.
pub open spec fn addr_parse_error_text() -> Seq<char> {
    seq![
        'i', 'n', 'v', 'a', 'l', 'i', 'd', ' ', 'I', 'P', 'v', '4', ' ', 'a', 'd', 'd', 'r',
        'e', 's', 's', ' ', 's', 'y', 'n', 't', 'a', 'x',
    ]
}

/// The value of one part of a dotted quad: one to three digits, no leading zero, at most 255.
pub open spec fn quad_part(p: Seq<char>) -> Option<nat> {
    if 1 <= p.len() <= 3 && (p.len() == 1 || p[0] != '0') {
        match scan_digits(p, 0, 255) {
            Ok(v) => Some(v),
            Err(_) => None,
        }
    } else {
        None
    }
}

/// The address `a.b.c.d` as a number.
pub open spec fn quad_value(a: nat, b: nat, c: nat, d: nat) -> nat {
    a * 16777216 + b * 65536 + c * 256 + d
}

/// The outcome of parsing `s` as `a.b.c.d`: exactly four parts, each as `quad_part` says.
pub open spec fn ipv4_parse(s: Seq<char>) -> Option<u32> {
    match split_once(s, '.') {
        None => None,
        Some((p0, r1)) => match split_once(r1, '.') {
            None => None,
            Some((p1, r2)) => match split_once(r2, '.') {
                None => None,
                Some((p2, p3)) => if p3.contains('.') {
                    None
                } else {
                    match (quad_part(p0), quad_part(p1), quad_part(p2), quad_part(p3)) {
                        (Some(a), Some(b), Some(c), Some(d)) => Some(
                            quad_value(a, b, c, d) as u32,
                        ),
                        _ => None,
                    }
                },
            },
        },
    }
}

/// The four octets of an address, most significant first.
pub open spec fn octets_of(bits: u32) -> (nat, nat, nat, nat) {
    (
        (bits / 16777216) as nat,
        ((bits / 65536) % 256) as nat,
        ((bits / 256) % 256) as nat,
        (bits % 256) as nat,
    )
}

/// The octets of `a.b.c.d` are `a`, `b`, `c` and `d`.
pub proof fn lemma_octets_of_quad(a: nat, b: nat, c: nat, d: nat)
    requires
        a < 256,
        b < 256,
        c < 256,
        d < 256,
    ensures
        quad_value(a, b, c, d) <= 0xffff_ffff,
        octets_of(quad_value(a, b, c, d) as u32) == (a, b, c, d),
{
    let x = quad_value(a, b, c, d) as int;
    assert(x <= 0xffff_ffff);
    let bits = x as u32;
    assert(bits as int == x);
    let (ai, bi, ci, di) = (a as int, b as int, c as int, d as int);
    vstd::arithmetic::div_mod::lemma_fundamental_div_mod_converse(
        x,
        16777216,
        ai,
        bi * 65536 + ci * 256 + di,
    );
    vstd::arithmetic::div_mod::lemma_fundamental_div_mod_converse(x, 65536, ai * 256 + bi, ci * 256 + di);
    vstd::arithmetic::div_mod::lemma_fundamental_div_mod_converse(ai * 256 + bi, 256, ai, bi);
    vstd::arithmetic::div_mod::lemma_fundamental_div_mod_converse(
        x,
        256,
        ai * 65536 + bi * 256 + ci,
        di,
    );
    vstd::arithmetic::div_mod::lemma_fundamental_div_mod_converse(
        ai * 65536 + bi * 256 + ci,
        256,
        ai * 256 + bi,
        ci,
    );
}

/// The dotted-quad text of an address.
pub open spec fn ipv4_text(bits: u32) -> Seq<char> {
    let o = octets_of(bits);
    dec(o.0) + seq!['.'] + dec(o.1) + seq!['.'] + dec(o.2) + seq!['.'] + dec(o.3)
}

/// An IPv4 address.
#[derive(Debug, Clone, Copy, Hash, PartialEq, Eq, Structural)]
pub struct Ipv4Addr(u32);

impl View for Ipv4Addr {
    type V = u32;

    closed spec fn view(&self) -> u32 {
        self.0
    }
}

fn parse_quad_part(p: &String) -> (r: Option<u32>)
    ensures
        match quad_part(p@) {
            Some(v) => r matches Some(x) && x as nat == v,
            None => r is None,
        },
        r matches Some(v) ==> v <= 255,
{
    let v = chars_of(p.as_str());
    if v.len() < 1 || v.len() > 3 || (v.len() != 1 && v[0] == '0') {
        return None;
    }
    assert(v@.skip(0) =~= v@);
    match scan_digits_chars(&v, 0, 255) {
        Ok(n) => Some(n),
        Err(_) => None,
    }
}

impl Ipv4Addr {
    /// The address `a.b.c.d`.
    pub fn new(a: u8, b: u8, c: u8, d: u8) -> (r: Ipv4Addr)
        ensures
            r@ == quad_value(a as nat, b as nat, c as nat, d as nat),
            octets_of(r@) == (a as nat, b as nat, c as nat, d as nat),
    {
        proof {
            lemma_octets_of_quad(a as nat, b as nat, c as nat, d as nat);
        }
        let bits: u32 = (a as u32) * 16777216 + (b as u32) * 65536 + (c as u32) * 256 + (d as u32);
        Ipv4Addr(bits)
    }

    /// The address with the given bits, most significant octet first.
    pub fn from_bits(bits: u32) -> (r: Ipv4Addr)
        ensures
            r@ == bits,
    {
        Ipv4Addr(bits)
    }

    /// The address as a number, most significant octet first.
    pub fn to_bits(&self) -> (r: u32)
        ensures
            r == self@,
    {
        self.0
    }

    /// Parses `a.b.c.d`.
    pub fn parse(s: &str) -> (r: Result<Ipv4Addr, AddrParseError>)
        ensures
            match ipv4_parse(s@) {
                Some(bits) => r matches Ok(a) && a@ == bits,
                None => r is Err,
            },
    {
        let v = chars_of(s);
        let (p0, r1) = match split_once_chars(&v, '.') {
            Some(x) => x,
            None => return Err(AddrParseError),
        };
        let v1 = chars_of(r1.as_str());
        let (p1, r2) = match split_once_chars(&v1, '.') {
            Some(x) => x,
            None => return Err(AddrParseError),
        };
        let v2 = chars_of(r2.as_str());
        let (p2, p3) = match split_once_chars(&v2, '.') {
            Some(x) => x,
            None => return Err(AddrParseError),
        };
        let v3 = chars_of(p3.as_str());
        if crate::text::find_char(&v3, '.').is_some() {
            return Err(AddrParseError);
        }
        let a = match parse_quad_part(&p0) {
            Some(x) => x,
            None => return Err(AddrParseError),
        };
        let b = match parse_quad_part(&p1) {
            Some(x) => x,
            None => return Err(AddrParseError),
        };
        let c = match parse_quad_part(&p2) {
            Some(x) => x,
            None => return Err(AddrParseError),
        };
        let d = match parse_quad_part(&p3) {
            Some(x) => x,
            None => return Err(AddrParseError),
        };
        proof {
            lemma_octets_of_quad(a as nat, b as nat, c as nat, d as nat);
            assert(split_once(s@, '.') == Some((p0@, r1@)));
            assert(split_once(r1@, '.') == Some((p1@, r2@)));
            assert(split_once(r2@, '.') == Some((p2@, p3@)));
            assert(!p3@.contains('.'));
            assert(quad_part(p0@) == Some(a as nat));
            assert(quad_part(p1@) == Some(b as nat));
            assert(quad_part(p2@) == Some(c as nat));
            assert(quad_part(p3@) == Some(d as nat));
        }
        let bits: u32 = a * 16777216 + b * 65536 + c * 256 + d;
        assert(bits == quad_value(a as nat, b as nat, c as nat, d as nat));
        Ok(Ipv4Addr(bits))
    }

    /// `a.b.c.d`.
    pub fn to_string(&self) -> (s: String)
        ensures
            s@ == ipv4_text(self@),
    {
        let bits = self.0;
        let mut s = u32_to_dec(bits / 16777216);
        push_char(&mut s, '.');
        let t = u32_to_dec((bits / 65536) % 256);
        push_str(&mut s, t.as_str());
        push_char(&mut s, '.');
        let t = u32_to_dec((bits / 256) % 256);
        push_str(&mut s, t.as_str());
        push_char(&mut s, '.');
        let t = u32_to_dec(bits % 256);
        push_str(&mut s, t.as_str());
        s
    }
}

impl std::str::FromStr for Ipv4Addr {
    type Err = AddrParseError;

    fn from_str(s: &str) -> (r: Result<Ipv4Addr, AddrParseError>)
        ensures
            match ipv4_parse(s@) {
                Some(bits) => r matches Ok(a) && a@ == bits,
                None => r is Err,
            },
    {
        Ipv4Addr::parse(s)
    }
}

/// The network mask of a prefix length: `prefix` leading one bits.
pub open spec fn mask(prefix: u8) -> u32 {
    if prefix == 0 {
        0
    } else if prefix >= 32 {
        0xffff_ffffu32
    } else {
        0xffff_ffffu32 << ((32 - prefix) as u32)
    }
}

fn mask_from_prefix(prefix: u8) -> (r: u32)
    ensures
        r == mask(prefix),
{
    if prefix == 0 {
        0
    } else if prefix >= 32 {
        0xffff_ffff
    } else {
        0xffff_ffffu32 << ((32 - prefix) as u32)
    }
}

/// `ip` lies in the network `(addr, prefix)`.
pub open spec fn net_contains(net: (u32, u8), ip: u32) -> bool {
    (mask(net.1) & ip) == net.0
}

/// `ip` lies in the same network as the interface `(addr, prefix)`.
pub open spec fn same_network(iface: (u32, u8), ip: u32) -> bool {
    (ip & mask(iface.1)) == (iface.0 & mask(iface.1))
}

/// The network an interface address lies in.
pub open spec fn network_of(iface: (u32, u8)) -> (u32, u8) {
    (iface.0 & mask(iface.1), iface.1)
}

/// Two networks overlap: one of them holds the other's address.
pub open spec fn nets_overlap(a: (u32, u8), b: (u32, u8)) -> bool {
    net_contains(a, b.0) || net_contains(b, a.0)
}

/// The text `a.b.c.d/prefix`.
pub open spec fn cidr_text(c: (u32, u8)) -> Seq<char> {
    ipv4_text(c.0) + seq!['/'] + dec(c.1 as nat)
}

/// Which kind of fault a string in CIDR form has.
pub enum CidrFault {
    IpParse,
    InvalidPrefix,
    NoPrefix,
}

/// The outcome of parsing `s` as `a.b.c.d/prefix`: split at the first `/`; the prefix must
/// be a number up to 32; then the address must parse.
pub open spec fn cidr_parse(s: Seq<char>) -> Result<(u32, u8), CidrFault> {
    match split_once(s, '/') {
        None => Err(CidrFault::NoPrefix),
        Some((ip, p)) => match parse_unsigned(p, 255) {
            Err(_) => Err(CidrFault::InvalidPrefix),
            Ok(prefix) => if prefix > 32 {
                Err(CidrFault::InvalidPrefix)
            } else {
                match ipv4_parse(ip) {
                    None => Err(CidrFault::IpParse),
                    Some(a) => Ok((a, prefix as u8)),
                }
            },
        },
    }
}

/// Why a string is not in CIDR form; each error holds the string.
#[derive(Debug, Clone)]
pub enum ParseCidrError {
    IpParse(String, AddrParseError),
    InvalidPrefix(String),
    NoPrefix(String),
}

impl ParseCidrError {
    /// The kind of fault.
    pub open spec fn fault(&self) -> CidrFault {
        match self {
            ParseCidrError::IpParse(..) => CidrFault::IpParse,
            ParseCidrError::InvalidPrefix(_) => CidrFault::InvalidPrefix,
            ParseCidrError::NoPrefix(_) => CidrFault::NoPrefix,
        }
    }

    /// The string the error is about.
    pub open spec fn subject(&self) -> Seq<char> {
        match self {
            ParseCidrError::IpParse(s, _) => s@,
            ParseCidrError::InvalidPrefix(s) => s@,
            ParseCidrError::NoPrefix(s) => s@,
        }
    }
}

fn parse_cidr(s: &str) -> (r: Result<(Ipv4Addr, u8), ParseCidrError>)
    ensures
        match r {
            Ok((a, p)) => cidr_parse(s@) == Ok::<(u32, u8), CidrFault>((a@, p)),
            Err(e) => cidr_parse(s@) == Err::<(u32, u8), CidrFault>(e.fault()) && e.subject()
                == s@,
        },
{
    let v = chars_of(s);
    let (ip, prefix) = match split_once_chars(&v, '/') {
        Some(x) => x,
        None => return Err(ParseCidrError::NoPrefix(s.to_owned())),
    };
    let pv = chars_of(prefix.as_str());
    let prefix = match parse_unsigned_chars(&pv, 255) {
        Ok(p) => p,
        Err(_) => return Err(ParseCidrError::InvalidPrefix(s.to_owned())),
    };
    if prefix > 32 {
        return Err(ParseCidrError::InvalidPrefix(s.to_owned()));
    }
    let addr = match Ipv4Addr::parse(ip.as_str()) {
        Ok(a) => a,
        Err(e) => return Err(ParseCidrError::IpParse(s.to_owned(), e)),
    };
    Ok((addr, prefix as u8))
}

fn cidr_to_string(addr: Ipv4Addr, prefix: u8) -> (s: String)
    ensures
        s@ == cidr_text((addr@, prefix)),
{
    let mut s = addr.to_string();
    push_char(&mut s, '/');
    let p = u32_to_dec(prefix as u32);
    push_str(&mut s, p.as_str());
    s
}

/// Why a string is not an interface address.
#[derive(Debug, Clone)]
pub enum Ipv4InterfaceError {
    ParseCidrError(ParseCidrError),
    IsNetworkAddress(Ipv4Addr, u8),
}

/// `(addr, prefix)` names a whole network rather than a host in it (a /32 never does).
pub open spec fn is_network_address(addr: u32, prefix: u8) -> bool {
    prefix < 32 && (addr & mask(prefix)) == addr
}

/// An address of a host together with the prefix of its network, e.g. `192.168.1.1/24`.
#[derive(Debug, Clone, Copy, Hash, PartialEq, Eq, Structural)]
pub struct Ipv4Interface {
    addr: Ipv4Addr,
    prefix: u8,
}

impl View for Ipv4Interface {
    type V = (u32, u8);

    closed spec fn view(&self) -> (u32, u8) {
        (self.addr@, self.prefix)
    }
}

fn validate_interface_addr(ip: Ipv4Addr, prefix: u8) -> (r: Result<Ipv4Interface, Ipv4InterfaceError>)
    ensures
        match r {
            Ok(i) => !is_network_address(ip@, prefix) && i@ == (ip@, prefix),
            Err(Ipv4InterfaceError::IsNetworkAddress(a, p)) => is_network_address(ip@, prefix)
                && a == ip && p == prefix,
            Err(_) => false,
        },
{
    let bits = ip.to_bits();
    let m = mask_from_prefix(prefix);
    if prefix < 32 && (bits & m) == bits {
        return Err(Ipv4InterfaceError::IsNetworkAddress(ip, prefix));
    }
    Ok(Ipv4Interface { addr: ip, prefix })
}

/// The host address of an interface.
pub closed spec fn iface_ip(i: Ipv4Interface) -> Ipv4Addr {
    i.addr
}

/// The network an interface lies in.
pub closed spec fn iface_network(i: Ipv4Interface) -> Ipv4Network {
    Ipv4Network { addr: Ipv4Addr(i.addr.0 & mask(i.prefix)), prefix: i.prefix }
}

impl Ipv4Interface {
    /// Parses `a.b.c.d/prefix`, refusing network addresses.
    pub fn parse(s: &str) -> (r: Result<Ipv4Interface, Ipv4InterfaceError>)
        ensures
            match r {
                Ok(i) => cidr_parse(s@) == Ok::<(u32, u8), CidrFault>(i@) && !is_network_address(
                    i@.0,
                    i@.1,
                ),
                Err(Ipv4InterfaceError::ParseCidrError(e)) => cidr_parse(s@) == Err::<
                    (u32, u8),
                    CidrFault,
                >(e.fault()) && e.subject() == s@,
                Err(Ipv4InterfaceError::IsNetworkAddress(a, p)) => cidr_parse(s@) == Ok::<
                    (u32, u8),
                    CidrFault,
                >((a@, p)) && is_network_address(a@, p),
            },
    {
        let (addr, prefix) = match parse_cidr(s) {
            Ok(x) => x,
            Err(e) => return Err(Ipv4InterfaceError::ParseCidrError(e)),
        };
        validate_interface_addr(addr, prefix)
    }

    /// The interface `ip/prefix`, unless the prefix is over 32 or `ip` is the network address.
    pub fn from_ip(ip: Ipv4Addr, prefix: u8) -> (r: Result<Ipv4Interface, Ipv4InterfaceError>)
        ensures
            match r {
                Ok(i) => prefix <= 32 && !is_network_address(ip@, prefix) && i@ == (ip@, prefix),
                Err(Ipv4InterfaceError::ParseCidrError(ParseCidrError::InvalidPrefix(s))) => prefix
                    > 32 && s@ == dec(prefix as nat),
                Err(Ipv4InterfaceError::IsNetworkAddress(a, p)) => prefix <= 32
                    && is_network_address(ip@, prefix) && a == ip && p == prefix,
                Err(_) => false,
            },
    {
        if prefix > 32 {
            return Err(
                Ipv4InterfaceError::ParseCidrError(
                    ParseCidrError::InvalidPrefix(u32_to_dec(prefix as u32)),
                ),
            );
        }
        validate_interface_addr(ip, prefix)
    }

    /// The host address `ip/32`.
    pub fn host(ip: Ipv4Addr) -> (r: Ipv4Interface)
        ensures
            r@ == (ip@, 32u8),
    {
        Ipv4Interface { addr: ip, prefix: 32 }
    }

    /// The network mask.
    pub fn mask(&self) -> (r: u32)
        ensures
            r == mask(self@.1),
    {
        mask_from_prefix(self.prefix)
    }

    /// The network this address lies in.
    pub fn network(&self) -> (r: Ipv4Network)
        ensures
            r@ == network_of(self@),
            r == iface_network(*self),
    {
        Ipv4Network { addr: Ipv4Addr(self.addr.0 & self.mask()), prefix: self.prefix }
    }

    /// The host address.
    pub fn ip(&self) -> (r: Ipv4Addr)
        ensures
            r@ == self@.0,
            r == iface_ip(*self),
    {
        self.addr
    }

    /// The prefix length.
    pub fn prefix(&self) -> (r: u8)
        ensures
            r == self@.1,
    {
        self.prefix
    }

    /// Whether `ip` lies in the same network as this address.
    pub fn is_in_same_network(&self, ip: Ipv4Addr) -> (r: bool)
        ensures
            r == same_network(self@, ip@),
    {
        let m = self.mask();
        (ip.0 & m) == (self.addr.0 & m)
    }

    /// `a.b.c.d/prefix`.
    pub fn to_string(&self) -> (s: String)
        ensures
            s@ == cidr_text(self@),
    {
        cidr_to_string(self.addr, self.prefix)
    }
}

impl std::str::FromStr for Ipv4Interface {
    type Err = Ipv4InterfaceError;

    fn from_str(s: &str) -> (r: Result<Ipv4Interface, Ipv4InterfaceError>)
        ensures
            match r {
                Ok(i) => cidr_parse(s@) == Ok::<(u32, u8), CidrFault>(i@) && !is_network_address(
                    i@.0,
                    i@.1,
                ),
                Err(Ipv4InterfaceError::ParseCidrError(e)) => cidr_parse(s@) == Err::<
                    (u32, u8),
                    CidrFault,
                >(e.fault()) && e.subject() == s@,
                Err(Ipv4InterfaceError::IsNetworkAddress(a, p)) => cidr_parse(s@) == Ok::<
                    (u32, u8),
                    CidrFault,
                >((a@, p)) && is_network_address(a@, p),
            },
    {
        Ipv4Interface::parse(s)
    }
}

/// Why a string is not a network.
#[derive(Debug, Clone)]
pub enum Ipv4NetworkError {
    ParseCidrError(ParseCidrError),
    NotANetworkAddress(Ipv4Addr, u8),
}

/// A network `a.b.c.d/prefix` whose host bits are zero.
#[derive(Debug, Clone, Copy, Hash, PartialEq, Eq, Structural)]
pub struct Ipv4Network {
    addr: Ipv4Addr,
    prefix: u8,
}

impl View for Ipv4Network {
    type V = (u32, u8);

    closed spec fn view(&self) -> (u32, u8) {
        (self.addr@, self.prefix)
    }
}

impl Ipv4Network {
    /// Parses `a.b.c.d/prefix`, refusing addresses with host bits set.
    pub fn parse(s: &str) -> (r: Result<Ipv4Network, Ipv4NetworkError>)
        ensures
            match r {
                Ok(n) => cidr_parse(s@) == Ok::<(u32, u8), CidrFault>(n@) && (n@.0 & mask(n@.1))
                    == n@.0,
                Err(Ipv4NetworkError::ParseCidrError(e)) => cidr_parse(s@) == Err::<
                    (u32, u8),
                    CidrFault,
                >(e.fault()) && e.subject() == s@,
                Err(Ipv4NetworkError::NotANetworkAddress(a, p)) => cidr_parse(s@) == Ok::<
                    (u32, u8),
                    CidrFault,
                >((a@, p)) && (a@ & mask(p)) != a@,
            },
    {
        let (addr, prefix) = match parse_cidr(s) {
            Ok(x) => x,
            Err(e) => return Err(Ipv4NetworkError::ParseCidrError(e)),
        };
        let bits = addr.to_bits();
        let m = mask_from_prefix(prefix);
        if (bits & m) != bits {
            return Err(Ipv4NetworkError::NotANetworkAddress(addr, prefix));
        }
        Ok(Ipv4Network { addr, prefix })
    }

    /// The network of the single host `ip`: `ip/32`.
    pub fn host(ip: Ipv4Addr) -> (r: Ipv4Network)
        ensures
            r@ == (ip@, 32u8),
    {
        Ipv4Network { addr: ip, prefix: 32 }
    }

    /// The network address.
    pub fn ip(&self) -> (r: Ipv4Addr)
        ensures
            r@ == self@.0,
    {
        self.addr
    }

    /// The prefix length.
    pub fn prefix(&self) -> (r: u8)
        ensures
            r == self@.1,
    {
        self.prefix
    }

    /// The network mask.
    pub fn mask(&self) -> (r: u32)
        ensures
            r == mask(self@.1),
    {
        mask_from_prefix(self.prefix)
    }

    /// Whether `ip` lies in this network.
    pub fn contains(&self, ip: Ipv4Addr) -> (r: bool)
        ensures
            r == net_contains(self@, ip@),
    {
        (self.mask() & ip.0) == self.addr.0
    }

    /// Whether the two networks overlap.
    pub fn overlap(&self, other: Ipv4Network) -> (r: bool)
        ensures
            r == nets_overlap(self@, other@),
    {
        self.contains(other.addr) || other.contains(self.addr)
    }

    /// `a.b.c.d/prefix`.
    pub fn to_string(&self) -> (s: String)
        ensures
            s@ == cidr_text(self@),
    {
        cidr_to_string(self.addr, self.prefix)
    }

    /// Compares two networks.
    pub fn same(&self, other: &Ipv4Network) -> (r: bool)
        ensures
            r == (self@ == other@),
    {
        self.addr.0 == other.addr.0 && self.prefix == other.prefix
    }
}

impl std::str::FromStr for Ipv4Network {
    type Err = Ipv4NetworkError;

    fn from_str(s: &str) -> (r: Result<Ipv4Network, Ipv4NetworkError>)
        ensures
            match r {
                Ok(n) => cidr_parse(s@) == Ok::<(u32, u8), CidrFault>(n@) && (n@.0 & mask(n@.1))
                    == n@.0,
                Err(Ipv4NetworkError::ParseCidrError(e)) => cidr_parse(s@) == Err::<
                    (u32, u8),
                    CidrFault,
                >(e.fault()) && e.subject() == s@,
                Err(Ipv4NetworkError::NotANetworkAddress(a, p)) => cidr_parse(s@) == Ok::<
                    (u32, u8),
                    CidrFault,
                >((a@, p)) && (a@ & mask(p)) != a@,
            },
    {
        Ipv4Network::parse(s)
    }
}

/// An interface's own address lies in its network, and an address lies in that network
/// exactly when it lies in the same network as the interface.
pub proof fn lemma_network_of_interface(iface: (u32, u8), ip: u32)
    ensures
        net_contains(network_of(iface), iface.0),
        net_contains(network_of(iface), ip) == same_network(iface, ip),
{
    let m = mask(iface.1);
    let a = iface.0;
    assert((m & a) == (a & m)) by (bit_vector);
    assert((m & ip) == (ip & m)) by (bit_vector);
}

/// A host network holds its own address and no other.
pub proof fn lemma_host_network(ip: u32, x: u32)
    ensures
        net_contains((ip, 32u8), x) == (x == ip),
{
    assert((0xffff_ffffu32 & x) == x) by (bit_vector);
}

/// Overlap of networks is symmetric.
pub proof fn lemma_overlap_symmetric(a: (u32, u8), b: (u32, u8))
    ensures
        nets_overlap(a, b) == nets_overlap(b, a),
{
}

/// The message of a CIDR error.
pub open spec fn cidr_error_text(e: ParseCidrError) -> Seq<char> {
    match e {
        ParseCidrError::IpParse(a, _) => "invalid address '"@ + a@ + "': "@ + addr_parse_error_text(),
        ParseCidrError::InvalidPrefix(p) => "invalid prefix "@ + p@ + ": must be 0-32"@,
        ParseCidrError::NoPrefix(a) => "missing '/' in: '"@ + a@ + "'"@,
    }
}

impl ParseCidrError {
    /// The message, e.g. `missing '/' in: '10.0.0.1'`.
    pub fn to_string(&self) -> (r: String)
        ensures
            r@ == cidr_error_text(*self),
    {
        match self {
            ParseCidrError::IpParse(a, e) => {
                let mut s = crate::text::to_string("invalid address '");
                push_str(&mut s, a.as_str());
                push_str(&mut s, "': ");
                push_str(&mut s, e.to_string().as_str());
                s
            },
            ParseCidrError::InvalidPrefix(p) => {
                let mut s = crate::text::to_string("invalid prefix ");
                push_str(&mut s, p.as_str());
                push_str(&mut s, ": must be 0-32");
                s
            },
            ParseCidrError::NoPrefix(a) => {
                let mut s = crate::text::to_string("missing '/' in: '");
                push_str(&mut s, a.as_str());
                push_str(&mut s, "'");
                s
            },
        }
    }
}

/// The message of an interface address error.
pub open spec fn interface_error_text(e: Ipv4InterfaceError) -> Seq<char> {
    match e {
        Ipv4InterfaceError::ParseCidrError(c) => cidr_error_text(c),
        Ipv4InterfaceError::IsNetworkAddress(a, p) => cidr_text((a@, p)) + " is a network address, expected host address"@,
    }
}

impl Ipv4InterfaceError {
    /// The message, e.g. `192.168.1.0/24 is a network address, expected host address`.
    pub fn to_string(&self) -> (r: String)
        ensures
            r@ == interface_error_text(*self),
    {
        match self {
            Ipv4InterfaceError::ParseCidrError(c) => c.to_string(),
            Ipv4InterfaceError::IsNetworkAddress(a, p) => {
                let mut s = cidr_to_string(*a, *p);
                push_str(&mut s, " is a network address, expected host address");
                s
            },
        }
    }
}

/// The message of a network address error.
pub open spec fn network_error_text(e: Ipv4NetworkError) -> Seq<char> {
    match e {
        Ipv4NetworkError::ParseCidrError(c) => cidr_error_text(c),
        Ipv4NetworkError::NotANetworkAddress(a, p) => cidr_text((a@, p)) + " is not a network address"@,
    }
}

impl Ipv4NetworkError {
    /// The message, e.g. `10.0.0.1/24 is not a network address`.
    pub fn to_string(&self) -> (r: String)
        ensures
            r@ == network_error_text(*self),
    {
        match self {
            Ipv4NetworkError::ParseCidrError(c) => c.to_string(),
            Ipv4NetworkError::NotANetworkAddress(a, p) => {
                let mut s = cidr_to_string(*a, *p);
                push_str(&mut s, " is not a network address");
                s
            },
        }
    }
}

impl SameValue for Ipv4Network {
    type Meaning = (u32, u8);

    open spec fn meaning(&self) -> (u32, u8) {
        self@
    }

    fn same_value(&self, other: &Self) -> (r: bool) {
        self.same(other)
    }
}

} // verus!
