//! Ports, port ranges, and a service's port with optional external→internal mapping.

use vstd::prelude::*;

use crate::text::{chars_of, concat3, dec, push_str, split_once, split_once_chars, to_string, u32_to_dec};

verus! {

broadcast use vstd::seq_lib::group_seq_properties;

/// Why a string is not a decimal number of the expected width (the kinds of `std`'s
/// `ParseIntError` that an unsigned type can report).
#[derive(Debug, Clone, Copy, PartialEq, Eq, Structural)]
pub enum ParseIntError {
    Empty,
    InvalidDigit,
    PosOverflow,
}

/// An ASCII decimal digit.
pub open spec fn is_digit(c: char) -> bool {
    '0' <= c && c <= '9'
}

/// The value of a decimal digit.
pub open spec fn digit_value(c: char) -> nat {
    (c as u32 - '0' as u32) as nat
}

/// Reads the digits `d` after `acc`, left to right, as `str::parse` does for an unsigned
/// type bounded by `max`: the first non-digit is an invalid digit, and going past `max`
/// is an overflow, whichever comes first.
pub open spec fn scan_digits(d: Seq<char>, acc: nat, max: nat) -> Result<nat, ParseIntError>
    decreases d.len(),
{
    if d.len() == 0 {
        Ok(acc)
    } else if !is_digit(d[0]) {
        Err(ParseIntError::InvalidDigit)
    } else if acc * 10 + digit_value(d[0]) > max {
        Err(ParseIntError::PosOverflow)
    } else {
        scan_digits(d.drop_first(), acc * 10 + digit_value(d[0]), max)
    }
}

/// The outcome of parsing `s` as an unsigned number no greater than `max`: an optional
/// leading `+`, then at least one digit.
pub open spec fn parse_unsigned(s: Seq<char>, max: nat) -> Result<nat, ParseIntError> {
    if s.len() == 0 {
        Err(ParseIntError::Empty)
    } else if s[0] == '+' {
        if s.len() == 1 {
            Err(ParseIntError::InvalidDigit)
        } else {
            scan_digits(s.drop_first(), 0, max)
        }
    } else {
        scan_digits(s, 0, max)
    }
}

/// A scan that succeeds stays within `max`.
pub proof fn lemma_scan_bounded(d: Seq<char>, acc: nat, max: nat)
    requires
        acc <= max,
    ensures
        scan_digits(d, acc, max) matches Ok(v) ==> v <= max,
    decreases d.len(),
{
    if d.len() > 0 && is_digit(d[0]) && acc * 10 + digit_value(d[0]) <= max {
        lemma_scan_bounded(d.drop_first(), acc * 10 + digit_value(d[0]), max);
    }
}

/// Reads the digits of `v` from `start` on, as `scan_digits` does from 0.
pub fn scan_digits_chars(v: &Vec<char>, start: usize, max: u32) -> (r: Result<u32, ParseIntError>)
    requires
        start <= v.len(),
    ensures
        match r {
            Ok(n) => scan_digits(v@.skip(start as int), 0, max as nat) == Ok::<nat, ParseIntError>(
                n as nat,
            ),
            Err(e) => scan_digits(v@.skip(start as int), 0, max as nat) == Err::<
                nat,
                ParseIntError,
            >(e),
        },
        r matches Ok(n) ==> n <= max,
{
    let mut i: usize = start;
    let mut acc: u32 = 0;
    while i < v.len()
        invariant
            start <= i <= v.len(),
            acc <= max,
            scan_digits(v@.skip(start as int), 0, max as nat) == scan_digits(
                v@.skip(i as int),
                acc as nat,
                max as nat,
            ),
        decreases v.len() - i,
    {
        let c = v[i];
        let ghost rest = v@.skip(i as int);
        assert(rest[0] == c);
        if !('0' <= c && c <= '9') {
            return Err(ParseIntError::InvalidDigit);
        }
        let d = (c as u32) - ('0' as u32);
        let next: u64 = (acc as u64) * 10 + (d as u64);
        if next > max as u64 {
            return Err(ParseIntError::PosOverflow);
        }
        acc = next as u32;
        assert(rest.drop_first() =~= v@.skip(i + 1));
        i = i + 1;
    }
    Ok(acc)
}

/// Parses an unsigned decimal number no greater than `max`.
pub fn parse_unsigned_chars(v: &Vec<char>, max: u32) -> (r: Result<u32, ParseIntError>)
    ensures
        match r {
            Ok(n) => parse_unsigned(v@, max as nat) == Ok::<nat, ParseIntError>(n as nat),
            Err(e) => parse_unsigned(v@, max as nat) == Err::<nat, ParseIntError>(e),
        },
        r matches Ok(n) ==> n <= max,
{
    if v.len() == 0 {
        return Err(ParseIntError::Empty);
    }
    if v[0] == '+' {
        if v.len() == 1 {
            return Err(ParseIntError::InvalidDigit);
        }
        assert(v@.skip(1) =~= v@.drop_first());
        scan_digits_chars(v, 1, max)
    } else {
        assert(v@.skip(0) =~= v@);
        scan_digits_chars(v, 0, max)
    }
}

/// Why a string is not a port.
#[derive(Debug, Clone, Copy)]
pub enum ParsePortError {
    InvalidFormat(ParseIntError),
    CannotBeZero,
}

/// The outcome of parsing `s` as a port: a number from 1 to 65535.
pub open spec fn port_outcome(s: Seq<char>) -> Result<u16, ParsePortError> {
    match parse_unsigned(s, 65535) {
        Err(e) => Err(ParsePortError::InvalidFormat(e)),
        Ok(n) => if n == 0 {
            Err(ParsePortError::CannotBeZero)
        } else {
            Ok(n as u16)
        },
    }
}

/// A TCP or UDP port number, never 0.
#[derive(Clone, Copy, Hash, PartialEq, Eq, Structural, Debug, PartialOrd, Ord)]
pub struct Port(u16);

impl View for Port {
    type V = u16;

    closed spec fn view(&self) -> u16 {
        self.0
    }
}

impl Port {
    #[verifier::type_invariant]
    spec fn non_zero(self) -> bool {
        self.0 != 0
    }

    /// Parses a port.
    pub fn parse(s: &str) -> (r: Result<Port, ParsePortError>)
        ensures
            match r {
                Ok(p) => port_outcome(s@) == Ok::<u16, ParsePortError>(p@),
                Err(e) => port_outcome(s@) == Err::<u16, ParsePortError>(e),
            },
    {
        let v = chars_of(s);
        Port::parse_chars(&v)
    }

    fn parse_chars(v: &Vec<char>) -> (r: Result<Port, ParsePortError>)
        ensures
            match r {
                Ok(p) => port_outcome(v@) == Ok::<u16, ParsePortError>(p@),
                Err(e) => port_outcome(v@) == Err::<u16, ParsePortError>(e),
            },
    {
        match parse_unsigned_chars(v, 65535) {
            Err(e) => Err(ParsePortError::InvalidFormat(e)),
            Ok(n) => if n == 0 {
                Err(ParsePortError::CannotBeZero)
            } else {
                Ok(Port(n as u16))
            },
        }
    }

    /// The port with the given number, unless it is 0.
    pub fn new(value: u16) -> (r: Option<Port>)
        ensures
            r matches Some(p) ==> p@ == value,
            r is None <==> value == 0,
    {
        if value == 0 {
            None
        } else {
            Some(Port(value))
        }
    }

    /// The port number.
    pub fn value(&self) -> (r: u16)
        ensures
            r == self@,
            r != 0,
    {
        proof {
            use_type_invariant(self);
        }
        self.0
    }

    /// The port number in decimal.
    pub fn to_string(&self) -> (r: String)
        ensures
            r@ == dec(self@ as nat),
    {
        u32_to_dec(self.0 as u32)
    }
}

impl std::str::FromStr for Port {
    type Err = ParsePortError;

    fn from_str(s: &str) -> (r: Result<Port, ParsePortError>)
        ensures
            match r {
                Ok(p) => port_outcome(s@) == Ok::<u16, ParsePortError>(p@),
                Err(e) => port_outcome(s@) == Err::<u16, ParsePortError>(e),
            },
    {
        Port::parse(s)
    }
}

/// Why a string is not a port range.
#[derive(Debug, Clone, Copy)]
pub enum ParsePortRangeError {
    InvalidPort(ParsePortError),
    InvalidRange,
    NoDelimiter,
}

/// The outcome of parsing `s` as a range `from-to`: split at the first `-`, both ends ports
/// (the lower first), and `from < to`.
pub open spec fn range_outcome(s: Seq<char>) -> Result<(u16, u16), ParsePortRangeError> {
    match split_once(s, '-') {
        None => Err(ParsePortRangeError::NoDelimiter),
        Some((a, b)) => match (port_outcome(a), port_outcome(b)) {
            (Err(e), _) => Err(ParsePortRangeError::InvalidPort(e)),
            (Ok(_), Err(e)) => Err(ParsePortRangeError::InvalidPort(e)),
            (Ok(from), Ok(to)) => if from >= to {
                Err(ParsePortRangeError::InvalidRange)
            } else {
                Ok((from, to))
            },
        },
    }
}

/// An inclusive range of ports `from-to` with `from < to`.
#[derive(Clone, Copy, Debug, PartialEq, Eq, Structural, Hash)]
pub struct PortRange {
    from: Port,
    to: Port,
}

impl View for PortRange {
    type V = (u16, u16);

    closed spec fn view(&self) -> (u16, u16) {
        (self.from@, self.to@)
    }
}

/// The number of ports after the first one.
pub open spec fn range_width(r: (u16, u16)) -> int {
    r.1 - r.0
}

/// `p` lies in `r`.
pub open spec fn range_contains(r: (u16, u16), p: u16) -> bool {
    r.0 <= p <= r.1
}

/// `a` and `b` share a port.
pub open spec fn ranges_overlap(a: (u16, u16), b: (u16, u16)) -> bool {
    a.0 <= b.1 && a.1 >= b.0
}

impl PortRange {
    #[verifier::type_invariant]
    spec fn ordered(self) -> bool {
        self.from@ < self.to@
    }

    /// Parses a range `from-to`.
    pub fn parse(s: &str) -> (r: Result<PortRange, ParsePortRangeError>)
        ensures
            match r {
                Ok(p) => range_outcome(s@) == Ok::<(u16, u16), ParsePortRangeError>(p@),
                Err(e) => range_outcome(s@) == Err::<(u16, u16), ParsePortRangeError>(e),
            },
    {
        let v = chars_of(s);
        let (a, b) = match split_once_chars(&v, '-') {
            Some(parts) => parts,
            None => return Err(ParsePortRangeError::NoDelimiter),
        };
        let from = match Port::parse(a.as_str()) {
            Ok(p) => p,
            Err(e) => return Err(ParsePortRangeError::InvalidPort(e)),
        };
        let to = match Port::parse(b.as_str()) {
            Ok(p) => p,
            Err(e) => return Err(ParsePortRangeError::InvalidPort(e)),
        };
        if from.value() >= to.value() {
            return Err(ParsePortRangeError::InvalidRange);
        }
        Ok(PortRange { from, to })
    }

    /// The number of ports after the first one.
    pub fn width(&self) -> (r: u16)
        ensures
            r == range_width(self@),
    {
        proof {
            use_type_invariant(self);
        }
        self.to.value() - self.from.value()
    }

    /// The first port; it comes before the last one.
    pub fn from(&self) -> (r: Port)
        ensures
            r@ == self@.0,
            self@.0 < self@.1,
    {
        proof {
            use_type_invariant(self);
        }
        self.from
    }

    /// The last port; it comes after the first one.
    pub fn to(&self) -> (r: Port)
        ensures
            r@ == self@.1,
            self@.0 < self@.1,
    {
        proof {
            use_type_invariant(self);
        }
        self.to
    }

    /// Whether `port` lies in the range.
    pub fn contains(&self, port: Port) -> (r: bool)
        ensures
            r == range_contains(self@, port@),
    {
        self.from.value() <= port.value() && self.to.value() >= port.value()
    }

    /// Whether the two ranges share a port.
    pub fn overlaps(&self, other: PortRange) -> (r: bool)
        ensures
            r == ranges_overlap(self@, other@),
    {
        self.from.value() <= other.to.value() && self.to.value() >= other.from.value()
    }

    /// `from-to`.
    pub fn to_string(&self) -> (r: String)
        ensures
            r@ == dec(self@.0 as nat) + seq!['-'] + dec(self@.1 as nat),
    {
        let a = self.from.to_string();
        let b = self.to.to_string();
        proof {
            reveal_strlit("-");
        }
        concat3(a.as_str(), "-", b.as_str())
    }
}

impl std::str::FromStr for PortRange {
    type Err = ParsePortRangeError;

    fn from_str(s: &str) -> (r: Result<PortRange, ParsePortRangeError>)
        ensures
            match r {
                Ok(p) => range_outcome(s@) == Ok::<(u16, u16), ParsePortRangeError>(p@),
                Err(e) => range_outcome(s@) == Err::<(u16, u16), ParsePortRangeError>(e),
            },
    {
        PortRange::parse(s)
    }
}

/// Why a string is neither a port nor a range.
#[derive(Debug, Clone, Copy)]
pub enum ParsePortOrRangeError {
    InvalidPort(ParsePortError),
    InvalidRange(ParsePortRangeError),
}

/// A single port or a range of ports.
#[derive(Clone, Copy, Debug, PartialEq, Eq, Structural, Hash)]
pub enum PortOrRange {
    Single(Port),
    Range(PortRange),
}

/// What a `PortOrRange` stands for.
pub enum PorView {
    Single(u16),
    Range(u16, u16),
}

impl View for PortOrRange {
    type V = PorView;

    open spec fn view(&self) -> PorView {
        match self {
            PortOrRange::Single(p) => PorView::Single(p@),
            PortOrRange::Range(r) => PorView::Range(r@.0, r@.1),
        }
    }
}

/// The lowest and highest port.
pub open spec fn por_bounds(p: PorView) -> (u16, u16) {
    match p {
        PorView::Single(port) => (port, port),
        PorView::Range(a, b) => (a, b),
    }
}

/// The text of a port or range.
pub open spec fn por_text(p: PorView) -> Seq<char> {
    match p {
        PorView::Single(port) => dec(port as nat),
        PorView::Range(a, b) => dec(a as nat) + seq!['-'] + dec(b as nat),
    }
}

/// The outcome of parsing `s` as a port or range: a range if `s` holds a `-`, else a port.
pub open spec fn por_parse(s: Seq<char>) -> Result<PorView, ParsePortOrRangeError> {
    match range_outcome(s) {
        Ok(bounds) => Ok(PorView::Range(bounds.0, bounds.1)),
        Err(ParsePortRangeError::NoDelimiter) => match port_outcome(s) {
            Ok(n) => Ok(PorView::Single(n)),
            Err(e) => Err(ParsePortOrRangeError::InvalidPort(e)),
        },
        Err(e) => Err(ParsePortOrRangeError::InvalidRange(e)),
    }
}

/// `r`, seen through views.
pub open spec fn por_result_view(r: Result<PortOrRange, ParsePortOrRangeError>) -> Result<PorView, ParsePortOrRangeError> {
    match r {
        Ok(p) => Ok(p@),
        Err(e) => Err(e),
    }
}

/// Two ports or ranges conflict when their bounds overlap.
pub open spec fn por_conflict(a: PorView, b: PorView) -> bool {
    ranges_overlap(por_bounds(a), por_bounds(b))
}

/// The first port of a port or range is at most its last.
pub open spec fn por_ordered(p: PorView) -> bool {
    por_bounds(p).0 <= por_bounds(p).1
}

/// The ports that a port or range covers.
pub open spec fn por_ports(p: PorView) -> Set<u16> {
    Set::new(|q: u16| por_bounds(p).0 <= q && q <= por_bounds(p).1)
}

impl PortOrRange {
    /// Parses a port or a range.
    pub fn parse(s: &str) -> (r: Result<PortOrRange, ParsePortOrRangeError>)
        ensures
            por_result_view(r) == por_parse(s@),
    {
        match PortRange::parse(s) {
            Ok(range) => Ok(PortOrRange::Range(range)),
            Err(ParsePortRangeError::NoDelimiter) => match Port::parse(s) {
                Ok(p) => Ok(PortOrRange::Single(p)),
                Err(e) => Err(ParsePortOrRangeError::InvalidPort(e)),
            },
            Err(e) => Err(ParsePortOrRangeError::InvalidRange(e)),
        }
    }

    /// Whether the two share a port.
    pub fn conflicts(&self, other: PortOrRange) -> (r: bool)
        ensures
            r == por_conflict(self@, other@),
            por_ordered(self@),
            por_ordered(other@),
    {
        proof {
            match self {
                PortOrRange::Range(range) => use_type_invariant(range),
                _ => {},
            }
            match other {
                PortOrRange::Range(range) => use_type_invariant(range),
                _ => {},
            }
        }
        match (self, other) {
            (PortOrRange::Single(port), PortOrRange::Single(other)) => port.value()
                == other.value(),
            (PortOrRange::Single(port), PortOrRange::Range(others)) => others.contains(*port),
            (PortOrRange::Range(range), PortOrRange::Single(other)) => range.contains(other),
            (PortOrRange::Range(range), PortOrRange::Range(others)) => range.overlaps(others),
        }
    }

    /// The port or range as written: `22` or `22-80`.
    pub fn to_string(&self) -> (r: String)
        ensures
            r@ == por_text(self@),
    {
        match self {
            PortOrRange::Single(p) => p.to_string(),
            PortOrRange::Range(r) => r.to_string(),
        }
    }
}

/// Conflict between ports and ranges is symmetric.
pub proof fn lemma_conflict_symmetric(a: PorView, b: PorView)
    ensures
        por_conflict(a, b) == por_conflict(b, a),
{
}

/// Every port or range conflicts with itself.
pub proof fn lemma_conflict_reflexive(a: PorView)
    requires
        por_ordered(a),
    ensures
        por_conflict(a, a),
{
}

/// Two ports or ranges conflict exactly when some port lies in both.
pub proof fn lemma_conflict_is_shared_port(a: PorView, b: PorView)
    requires
        por_ordered(a),
        por_ordered(b),
    ensures
        por_conflict(a, b) == exists|q: u16| por_ports(a).contains(q) && por_ports(b).contains(q),
{
    if por_conflict(a, b) {
        let lo = if por_bounds(a).0 <= por_bounds(b).0 { por_bounds(b).0 } else { por_bounds(a).0 };
        assert(por_ports(a).contains(lo) && por_ports(b).contains(lo));
    }
}

impl std::str::FromStr for PortOrRange {
    type Err = ParsePortOrRangeError;

    fn from_str(s: &str) -> (r: Result<PortOrRange, ParsePortOrRangeError>)
        ensures
            por_result_view(r) == por_parse(s@),
    {
        PortOrRange::parse(s)
    }
}

/// Why a string is not a service port.
#[derive(Debug, Clone, Copy)]
pub enum ParseServicePortError {
    InvalidPort(ParsePortError),
    InvalidRange(ParsePortRangeError),
    MismatchedRangeWidths { external: PortRange, internal: PortRange },
    SingleToRangeTranslation { external: Port, internal: PortRange },
}

impl ParseServicePortError {
    /// The service-port error for a port-or-range error.
    pub fn from_port_or_range(value: ParsePortOrRangeError) -> (r: Self)
        ensures
            r@ == service_error_of(value),
    {
        match value {
            ParsePortOrRangeError::InvalidPort(err) => ParseServicePortError::InvalidPort(err),
            ParsePortOrRangeError::InvalidRange(err) => ParseServicePortError::InvalidRange(err),
        }
    }
}

/// A service's port: the same port (or range) outside and inside, or a mapping from an
/// external port or range to an internal one.
#[derive(Clone, Copy, Debug, PartialEq, Eq, Structural, Hash)]
pub enum ServicePort {
    Same(PortOrRange),
    Translation { external: Port, internal: Port },
    RangeCollapse { external: PortRange, internal: Port },
    RangeMap { external: PortRange, internal: PortRange },
}

/// What a `ServicePort` stands for.
pub enum ServicePortView {
    Same(PorView),
    Translation(u16, u16),
    RangeCollapse((u16, u16), u16),
    RangeMap((u16, u16), (u16, u16)),
}

impl View for ServicePort {
    type V = ServicePortView;

    open spec fn view(&self) -> ServicePortView {
        match self {
            ServicePort::Same(p) => ServicePortView::Same(p@),
            ServicePort::Translation { external, internal } => ServicePortView::Translation(
                external@,
                internal@,
            ),
            ServicePort::RangeCollapse { external, internal } => ServicePortView::RangeCollapse(
                external@,
                internal@,
            ),
            ServicePort::RangeMap { external, internal } => ServicePortView::RangeMap(
                external@,
                internal@,
            ),
        }
    }
}

/// What a `ParseServicePortError` stands for.
pub enum ServicePortErrorView {
    InvalidPort(ParsePortError),
    InvalidRange(ParsePortRangeError),
    MismatchedRangeWidths((u16, u16), (u16, u16)),
    SingleToRangeTranslation(u16, (u16, u16)),
}

impl View for ParseServicePortError {
    type V = ServicePortErrorView;

    open spec fn view(&self) -> ServicePortErrorView {
        match self {
            ParseServicePortError::InvalidPort(e) => ServicePortErrorView::InvalidPort(*e),
            ParseServicePortError::InvalidRange(e) => ServicePortErrorView::InvalidRange(*e),
            ParseServicePortError::MismatchedRangeWidths { external, internal } => {
                ServicePortErrorView::MismatchedRangeWidths(external@, internal@)
            },
            ParseServicePortError::SingleToRangeTranslation { external, internal } => {
                ServicePortErrorView::SingleToRangeTranslation(external@, internal@)
            },
        }
    }
}

/// The service-port error for a port-or-range error.
pub open spec fn service_error_of(e: ParsePortOrRangeError) -> ServicePortErrorView {
    match e {
        ParsePortOrRangeError::InvalidPort(err) => ServicePortErrorView::InvalidPort(err),
        ParsePortOrRangeError::InvalidRange(err) => ServicePortErrorView::InvalidRange(err),
    }
}

/// The outcome of parsing `s` as a service port: without `:` one port or range for both
/// sides; with `:` the external part (before the first `:`) and then the internal part,
/// combined as port→port, range→port, or range→range of the same width; port→range is
/// refused.
pub open spec fn service_port_parse(s: Seq<char>) -> Result<ServicePortView, ServicePortErrorView> {
    match split_once(s, ':') {
        None => match por_parse(s) {
            Ok(p) => Ok(ServicePortView::Same(p)),
            Err(e) => Err(service_error_of(e)),
        },
        Some((ext, inner)) => match (por_parse(ext), por_parse(inner)) {
            (Err(e), _) => Err(service_error_of(e)),
            (Ok(_), Err(e)) => Err(service_error_of(e)),
            (Ok(PorView::Single(e)), Ok(PorView::Single(i))) => Ok(
                ServicePortView::Translation(e, i),
            ),
            (Ok(PorView::Range(a, b)), Ok(PorView::Single(i))) => Ok(
                ServicePortView::RangeCollapse((a, b), i),
            ),
            (Ok(PorView::Range(a, b)), Ok(PorView::Range(c, d))) => if range_width((a, b))
                != range_width((c, d)) {
                Err(ServicePortErrorView::MismatchedRangeWidths((a, b), (c, d)))
            } else {
                Ok(ServicePortView::RangeMap((a, b), (c, d)))
            },
            (Ok(PorView::Single(e)), Ok(PorView::Range(c, d))) => Err(
                ServicePortErrorView::SingleToRangeTranslation(e, (c, d)),
            ),
        },
    }
}

/// `r`, seen through views.
pub open spec fn service_result_view(r: Result<ServicePort, ParseServicePortError>) -> Result<ServicePortView, ServicePortErrorView> {
    match r {
        Ok(p) => Ok(p@),
        Err(e) => Err(e@),
    }
}

/// The internal port or range of a service port.
pub open spec fn service_internal(p: ServicePortView) -> PorView {
    match p {
        ServicePortView::Same(x) => x,
        ServicePortView::Translation(_, i) => PorView::Single(i),
        ServicePortView::RangeCollapse(_, i) => PorView::Single(i),
        ServicePortView::RangeMap(_, i) => PorView::Range(i.0, i.1),
    }
}

/// The external port or range of a service port.
pub open spec fn service_external(p: ServicePortView) -> PorView {
    match p {
        ServicePortView::Same(x) => x,
        ServicePortView::Translation(e, _) => PorView::Single(e),
        ServicePortView::RangeCollapse(e, _) => PorView::Range(e.0, e.1),
        ServicePortView::RangeMap(e, _) => PorView::Range(e.0, e.1),
    }
}

/// The text of a service port.
pub open spec fn service_port_text(p: ServicePortView) -> Seq<char> {
    match p {
        ServicePortView::Same(x) => por_text(x),
        _ => por_text(service_external(p)) + seq![':'] + por_text(service_internal(p)),
    }
}

impl ServicePort {
    /// Parses a service port: `22`, `22-80`, `8080:80`, `1000-2000:80` or `1000-2000:3000-4000`.
    pub fn parse(s: &str) -> (r: Result<ServicePort, ParseServicePortError>)
        ensures
            service_result_view(r) == service_port_parse(s@),
    {
        let v = chars_of(s);
        match split_once_chars(&v, ':') {
            None => match PortOrRange::parse(s) {
                Ok(p) => Ok(ServicePort::Same(p)),
                Err(e) => Err(ParseServicePortError::from_port_or_range(e)),
            },
            Some((ext, inner)) => {
                let external = match PortOrRange::parse(ext.as_str()) {
                    Ok(p) => p,
                    Err(e) => return Err(ParseServicePortError::from_port_or_range(e)),
                };
                let internal = match PortOrRange::parse(inner.as_str()) {
                    Ok(p) => p,
                    Err(e) => return Err(ParseServicePortError::from_port_or_range(e)),
                };
                match (external, internal) {
                    (PortOrRange::Single(external), PortOrRange::Single(internal)) => {
                        Ok(ServicePort::Translation { external, internal })
                    },
                    (PortOrRange::Range(external), PortOrRange::Single(internal)) => {
                        Ok(ServicePort::RangeCollapse { external, internal })
                    },
                    (PortOrRange::Range(external), PortOrRange::Range(internal)) => {
                        if external.width() != internal.width() {
                            return Err(
                                ParseServicePortError::MismatchedRangeWidths { external, internal },
                            );
                        }
                        Ok(ServicePort::RangeMap { external, internal })
                    },
                    (PortOrRange::Single(external), PortOrRange::Range(internal)) => {
                        Err(ParseServicePortError::SingleToRangeTranslation { external, internal })
                    },
                }
            },
        }
    }

    /// The port or range the service listens on.
    pub fn internal(&self) -> (r: PortOrRange)
        ensures
            r@ == service_internal(self@),
    {
        match self {
            ServicePort::Same(p) => *p,
            ServicePort::Translation { internal, .. } => PortOrRange::Single(*internal),
            ServicePort::RangeCollapse { internal, .. } => PortOrRange::Single(*internal),
            ServicePort::RangeMap { internal, .. } => PortOrRange::Range(*internal),
        }
    }

    /// The port or range exposed on the WAN side.
    pub fn external(&self) -> (r: PortOrRange)
        ensures
            r@ == service_external(self@),
    {
        match self {
            ServicePort::Same(p) => *p,
            ServicePort::Translation { external, .. } => PortOrRange::Single(*external),
            ServicePort::RangeCollapse { external, .. } => PortOrRange::Range(*external),
            ServicePort::RangeMap { external, .. } => PortOrRange::Range(*external),
        }
    }

    /// The port as written: `ext:int`, or the one port or range.
    pub fn to_string(&self) -> (r: String)
        ensures
            r@ == service_port_text(self@),
    {
        match self {
            ServicePort::Same(p) => p.to_string(),
            _ => {
                let e = self.external().to_string();
                let i = self.internal().to_string();
                proof {
                    reveal_strlit(":");
                }
                concat3(e.as_str(), ":", i.as_str())
            },
        }
    }
}

/// A service port that maps a range onto a range maps it one to one: both have the same width.
pub proof fn lemma_range_map_same_width(s: Seq<char>)
    ensures
        service_port_parse(s) matches Ok(ServicePortView::RangeMap(e, i)) ==> range_width(e)
            == range_width(i),
{
}

impl std::str::FromStr for ServicePort {
    type Err = ParseServicePortError;

    fn from_str(s: &str) -> (r: Result<ServicePort, ParseServicePortError>)
        ensures
            service_result_view(r) == service_port_parse(s@),
    {
        ServicePort::parse(s)
    }
}

/// The message of an integer error, as std words it.
pub open spec fn int_error_text(e: ParseIntError) -> Seq<char> {
    match e {
        ParseIntError::Empty => "cannot parse integer from empty string"@,
        ParseIntError::InvalidDigit => "invalid digit found in string"@,
        ParseIntError::PosOverflow => "number too large to fit in target type"@,
    }
}

/// The message of a port error.
pub open spec fn port_error_text(e: ParsePortError) -> Seq<char> {
    match e {
        ParsePortError::InvalidFormat(i) => "invalid port format: "@ + int_error_text(i),
        ParsePortError::CannotBeZero => "port number cannot be 0"@,
    }
}

/// The message of a port range error.
pub open spec fn range_error_text(e: ParsePortRangeError) -> Seq<char> {
    match e {
        ParsePortRangeError::InvalidPort(p) => "invalid port: "@ + port_error_text(p),
        ParsePortRangeError::InvalidRange => "range is invalid, it should be {lower}-{higher}"@,
        ParsePortRangeError::NoDelimiter => "missing '-' in port range"@,
    }
}

/// The message of a port-or-range error.
pub open spec fn por_error_text(e: ParsePortOrRangeError) -> Seq<char> {
    match e {
        ParsePortOrRangeError::InvalidPort(p) => "invalid port: "@ + port_error_text(p),
        ParsePortOrRangeError::InvalidRange(r) => "invalid port range: "@ + range_error_text(r),
    }
}

/// `from-to`.
pub open spec fn range_text(r: (u16, u16)) -> Seq<char> {
    dec(r.0 as nat) + seq!['-'] + dec(r.1 as nat)
}

/// The message of a service port error.
pub open spec fn service_port_error_text(e: ParseServicePortError) -> Seq<char> {
    match e {
        ParseServicePortError::InvalidPort(p) => "invalid port: "@ + port_error_text(p),
        ParseServicePortError::InvalidRange(r) => "invalid port range: "@ + range_error_text(r),
        ParseServicePortError::MismatchedRangeWidths { external, internal } =>
            "both ranges should have same width: "@ + range_text(external@) + " and "@ + range_text(internal@),
        ParseServicePortError::SingleToRangeTranslation { external, internal } =>
            "invalid translation: should never be port:range ("@ + dec(external@ as nat) + ":"@ + range_text(
                internal@,
            ) + ")"@,
    }
}

impl ParseIntError {
    /// The message, as std words it.
    pub fn to_string(&self) -> (r: String)
        ensures
            r@ == int_error_text(*self),
    {
        match self {
            ParseIntError::Empty => to_string("cannot parse integer from empty string"),
            ParseIntError::InvalidDigit => to_string("invalid digit found in string"),
            ParseIntError::PosOverflow => to_string("number too large to fit in target type"),
        }
    }
}

impl ParsePortError {
    /// The message, e.g. `port number cannot be 0`.
    pub fn to_string(&self) -> (r: String)
        ensures
            r@ == port_error_text(*self),
    {
        match self {
            ParsePortError::InvalidFormat(i) => {
                let mut s = to_string("invalid port format: ");
                push_str(&mut s, i.to_string().as_str());
                s
            },
            ParsePortError::CannotBeZero => to_string("port number cannot be 0"),
        }
    }
}

impl ParsePortRangeError {
    /// The message, e.g. `missing '-' in port range`.
    pub fn to_string(&self) -> (r: String)
        ensures
            r@ == range_error_text(*self),
    {
        match self {
            ParsePortRangeError::InvalidPort(p) => {
                let mut s = to_string("invalid port: ");
                push_str(&mut s, p.to_string().as_str());
                s
            },
            ParsePortRangeError::InvalidRange => to_string("range is invalid, it should be {lower}-{higher}"),
            ParsePortRangeError::NoDelimiter => to_string("missing '-' in port range"),
        }
    }
}

impl ParsePortOrRangeError {
    /// The message, e.g. `invalid port: port number cannot be 0`.
    pub fn to_string(&self) -> (r: String)
        ensures
            r@ == por_error_text(*self),
    {
        match self {
            ParsePortOrRangeError::InvalidPort(p) => {
                let mut s = to_string("invalid port: ");
                push_str(&mut s, p.to_string().as_str());
                s
            },
            ParsePortOrRangeError::InvalidRange(r) => {
                let mut s = to_string("invalid port range: ");
                push_str(&mut s, r.to_string().as_str());
                s
            },
        }
    }
}

impl ParseServicePortError {
    /// The message, e.g. `both ranges should have same width: 1000-2000 and 3000-4500`.
    pub fn to_string(&self) -> (r: String)
        ensures
            r@ == service_port_error_text(*self),
    {
        match self {
            ParseServicePortError::InvalidPort(p) => {
                let mut s = to_string("invalid port: ");
                push_str(&mut s, p.to_string().as_str());
                s
            },
            ParseServicePortError::InvalidRange(r) => {
                let mut s = to_string("invalid port range: ");
                push_str(&mut s, r.to_string().as_str());
                s
            },
            ParseServicePortError::MismatchedRangeWidths { external, internal } => {
                let mut s = to_string("both ranges should have same width: ");
                push_str(&mut s, external.to_string().as_str());
                push_str(&mut s, " and ");
                push_str(&mut s, internal.to_string().as_str());
                s
            },
            ParseServicePortError::SingleToRangeTranslation { external, internal } => {
                let mut s = to_string("invalid translation: should never be port:range (");
                push_str(&mut s, external.to_string().as_str());
                push_str(&mut s, ":");
                push_str(&mut s, internal.to_string().as_str());
                push_str(&mut s, ")");
                s
            },
        }
    }
}

} // verus!
