//! Diagnostics of the validator: errors, warnings, and where they point.

use vstd::prelude::*;

use crate::text::{chars_of, lemma_path_lt_total, lemma_path_lt_transitive, path_less, path_lt, push_str, to_string};
use crate::types::allow_from_ref::{AllowFromRef, allow_from_text};
use crate::types::config_location::{ConfigLocation, location_text};
use crate::types::identifier::Identifier;
use crate::types::ip::{Ipv4Addr, Ipv4Network, cidr_text, ipv4_text};
use crate::types::port::{PorView, PortOrRange, por_text};

verus! {

broadcast use vstd::seq_lib::group_seq_properties;

/// A dotted path of segments.
#[derive(Debug, Clone)]
pub struct ConfigPath(Vec<String>);

impl View for ConfigPath {
    type V = Seq<Seq<char>>;

    closed spec fn view(&self) -> Seq<Seq<char>> {
        self.0@.map_values(|s: String| s@)
    }
}

/// The segments joined with `.`.
pub open spec fn join_dots(s: Seq<Seq<char>>) -> Seq<char>
    decreases s.len(),
{
    if s.len() == 0 {
        seq![]
    } else if s.len() == 1 {
        s[0]
    } else {
        join_dots(s.drop_last()) + seq!['.'] + s.last()
    }
}

/// The text of a path: `<root>` when empty, else the segments joined with `.`.
pub open spec fn config_path_text(s: Seq<Seq<char>>) -> Seq<char> {
    if s.len() == 0 {
        seq!['<', 'r', 'o', 'o', 't', '>']
    } else {
        join_dots(s)
    }
}

impl ConfigPath {
    /// The path of the given segments.
    pub fn new(segments: Vec<String>) -> (r: ConfigPath)
        ensures
            r@ == segments@.map_values(|s: String| s@),
    {
        ConfigPath(segments)
    }

    /// The path followed by more segments.
    pub fn extend(self, segments: Vec<String>) -> (r: ConfigPath)
        ensures
            r@ == self@ + segments@.map_values(|s: String| s@),
    {
        let mut v = self.0;
        let ghost a = v@;
        let ghost b = segments@;
        let mut segments = segments;
        v.append(&mut segments);
        let r = ConfigPath(v);
        assert(r@ =~= a.map_values(|s: String| s@) + b.map_values(|s: String| s@));
        r
    }

    /// `<root>`, or the segments joined with `.`.
    pub fn to_string(&self) -> (r: String)
        ensures
            r@ == config_path_text(self@),
    {
        let ghost sv = self@;
        if self.0.len() == 0 {
            proof {
                reveal_strlit("<root>");
            }
            return to_string("<root>");
        }
        let mut s = self.0[0].clone();
        assert(join_dots(sv.take(1)) == sv.take(1)[0]);
        let mut i: usize = 1;
        while i < self.0.len()
            invariant
                1 <= i <= self.0@.len(),
                sv == self@,
                sv.len() == self.0@.len(),
                forall|j: int| 0 <= j < sv.len() ==> sv[j] == self.0@[j]@,
                s@ == join_dots(sv.take(i as int)),
            decreases self.0@.len() - i,
        {
            proof {
                reveal_strlit(".");
            }
            push_str(&mut s, ".");
            push_str(&mut s, self.0[i].as_str());
            assert(sv.take(i + 1).drop_last() =~= sv.take(i as int));
            i = i + 1;
        }
        assert(sv.take(sv.len() as int) =~= sv);
        s
    }
}

/// An error in the configuration.
#[derive(Debug)]
pub enum ValidationError {
    GlobalNameCollision { name: Identifier, at: ConfigLocation },
    LocalShadowsGlobal { name: Identifier, at: ConfigLocation },
    LocalNameCollision { name: Identifier, at: ConfigLocation },
    InvalidPrefix { name: Identifier, prefix: String, at: ConfigLocation },
    TagWithNameCollision { tag: Identifier, at: ConfigLocation },
    UnknownRef { reference: AllowFromRef, at: ConfigLocation },
    IpOutsideSubnet { ip: Ipv4Addr, network: Ipv4Network, at: ConfigLocation },
    NetworkCollision { network: Ipv4Network, conflicting_with: Ipv4Network, at: ConfigLocation },
    IpCollision { ip: Ipv4Addr, at: ConfigLocation, with: ConfigLocation },
    NodeClientManyZones { zone_name: Identifier, existing_zone: ConfigLocation, at: ConfigLocation },
    MacMissing { at: ConfigLocation },
    PublicKeyMissing {
        required_for_mesh: bool,
        required_for_vpn_interface: bool,
        at: ConfigLocation,
    },
    NodeMissing { node_name: Identifier, at: ConfigLocation },
    NodeNetworkMissing { node_name: Identifier, network_name: Identifier, at: ConfigLocation },
    PortCollision { port: PortOrRange, at: ConfigLocation, with: ConfigLocation },
    InvalidWanVia { node_name: Identifier, at: ConfigLocation },
    WanViaNodeNoWanZone { node_name: Identifier, at: ConfigLocation },
    WanViaQualifiedOnNonClient { at: ConfigLocation },
    WanViaNetworkMissing { node: Identifier, network: Identifier, at: ConfigLocation },
    WanViaClientNotOnNetwork { node: Identifier, network: Identifier, at: ConfigLocation },
    WanViaAmbiguous { node: Identifier, candidates: Vec<Identifier>, at: ConfigLocation },
    WanViaUnreachable { node: Identifier, at: ConfigLocation },
    WanZoneReservedName { wan_zone: Identifier, at: ConfigLocation },
    WanZoneNameCollision { wan_zone: Identifier, with: ConfigLocation, at: ConfigLocation },
}

/// What an error says; the prefix and the candidates are given as text.
pub enum ErrorView {
    GlobalNameCollision { name: Identifier, at: ConfigLocation },
    LocalShadowsGlobal { name: Identifier, at: ConfigLocation },
    LocalNameCollision { name: Identifier, at: ConfigLocation },
    InvalidPrefix { name: Identifier, prefix: Seq<char>, at: ConfigLocation },
    TagWithNameCollision { tag: Identifier, at: ConfigLocation },
    UnknownRef { reference: AllowFromRef, at: ConfigLocation },
    IpOutsideSubnet { ip: Ipv4Addr, network: Ipv4Network, at: ConfigLocation },
    NetworkCollision { network: Ipv4Network, conflicting_with: Ipv4Network, at: ConfigLocation },
    IpCollision { ip: Ipv4Addr, at: ConfigLocation, with: ConfigLocation },
    NodeClientManyZones { zone_name: Identifier, existing_zone: ConfigLocation, at: ConfigLocation },
    MacMissing { at: ConfigLocation },
    PublicKeyMissing {
        required_for_mesh: bool,
        required_for_vpn_interface: bool,
        at: ConfigLocation,
    },
    NodeMissing { node_name: Identifier, at: ConfigLocation },
    NodeNetworkMissing { node_name: Identifier, network_name: Identifier, at: ConfigLocation },
    PortCollision { port: PorView, at: ConfigLocation, with: ConfigLocation },
    InvalidWanVia { node_name: Identifier, at: ConfigLocation },
    WanViaNodeNoWanZone { node_name: Identifier, at: ConfigLocation },
    WanViaQualifiedOnNonClient { at: ConfigLocation },
    WanViaNetworkMissing { node: Identifier, network: Identifier, at: ConfigLocation },
    WanViaClientNotOnNetwork { node: Identifier, network: Identifier, at: ConfigLocation },
    WanViaAmbiguous { node: Identifier, candidates: Seq<Seq<char>>, at: ConfigLocation },
    WanViaUnreachable { node: Identifier, at: ConfigLocation },
    WanZoneReservedName { wan_zone: Identifier, at: ConfigLocation },
    WanZoneNameCollision { wan_zone: Identifier, with: ConfigLocation, at: ConfigLocation },
}

impl View for ValidationError {
    type V = ErrorView;

    open spec fn view(&self) -> ErrorView {
        match *self {
            ValidationError::GlobalNameCollision { name, at } => ErrorView::GlobalNameCollision {
                name,
                at,
            },
            ValidationError::LocalShadowsGlobal { name, at } => ErrorView::LocalShadowsGlobal {
                name,
                at,
            },
            ValidationError::LocalNameCollision { name, at } => ErrorView::LocalNameCollision {
                name,
                at,
            },
            ValidationError::InvalidPrefix { name, prefix, at } => ErrorView::InvalidPrefix {
                name,
                prefix: prefix@,
                at,
            },
            ValidationError::TagWithNameCollision { tag, at } => ErrorView::TagWithNameCollision {
                tag,
                at,
            },
            ValidationError::UnknownRef { reference, at } => ErrorView::UnknownRef { reference, at },
            ValidationError::IpOutsideSubnet { ip, network, at } => ErrorView::IpOutsideSubnet {
                ip,
                network,
                at,
            },
            ValidationError::NetworkCollision { network, conflicting_with, at } =>
                ErrorView::NetworkCollision { network, conflicting_with, at },
            ValidationError::IpCollision { ip, at, with } => ErrorView::IpCollision { ip, at, with },
            ValidationError::NodeClientManyZones { zone_name, existing_zone, at } =>
                ErrorView::NodeClientManyZones { zone_name, existing_zone, at },
            ValidationError::MacMissing { at } => ErrorView::MacMissing { at },
            ValidationError::PublicKeyMissing {
                required_for_mesh,
                required_for_vpn_interface,
                at,
            } => ErrorView::PublicKeyMissing { required_for_mesh, required_for_vpn_interface, at },
            ValidationError::NodeMissing { node_name, at } => ErrorView::NodeMissing { node_name, at },
            ValidationError::NodeNetworkMissing { node_name, network_name, at } =>
                ErrorView::NodeNetworkMissing { node_name, network_name, at },
            ValidationError::PortCollision { port, at, with } => ErrorView::PortCollision {
                port: port@,
                at,
                with,
            },
            ValidationError::InvalidWanVia { node_name, at } => ErrorView::InvalidWanVia {
                node_name,
                at,
            },
            ValidationError::WanViaNodeNoWanZone { node_name, at } => ErrorView::WanViaNodeNoWanZone {
                node_name,
                at,
            },
            ValidationError::WanViaQualifiedOnNonClient { at } =>
                ErrorView::WanViaQualifiedOnNonClient { at },
            ValidationError::WanViaNetworkMissing { node, network, at } =>
                ErrorView::WanViaNetworkMissing { node, network, at },
            ValidationError::WanViaClientNotOnNetwork { node, network, at } =>
                ErrorView::WanViaClientNotOnNetwork { node, network, at },
            ValidationError::WanViaAmbiguous { node, candidates, at } => ErrorView::WanViaAmbiguous {
                node,
                candidates: candidates@.map_values(|c: Identifier| c@),
                at,
            },
            ValidationError::WanViaUnreachable { node, at } => ErrorView::WanViaUnreachable { node, at },
            ValidationError::WanZoneReservedName { wan_zone, at } => ErrorView::WanZoneReservedName {
                wan_zone,
                at,
            },
            ValidationError::WanZoneNameCollision { wan_zone, with, at } =>
                ErrorView::WanZoneNameCollision { wan_zone, with, at },
        }
    }
}

/// Where an error points.
pub open spec fn error_at(e: ErrorView) -> ConfigLocation {
    match e {
        ErrorView::GlobalNameCollision { at, .. } => at,
        ErrorView::LocalShadowsGlobal { at, .. } => at,
        ErrorView::LocalNameCollision { at, .. } => at,
        ErrorView::InvalidPrefix { at, .. } => at,
        ErrorView::TagWithNameCollision { at, .. } => at,
        ErrorView::UnknownRef { at, .. } => at,
        ErrorView::IpOutsideSubnet { at, .. } => at,
        ErrorView::NetworkCollision { at, .. } => at,
        ErrorView::IpCollision { at, .. } => at,
        ErrorView::NodeClientManyZones { at, .. } => at,
        ErrorView::MacMissing { at } => at,
        ErrorView::PublicKeyMissing { at, .. } => at,
        ErrorView::NodeMissing { at, .. } => at,
        ErrorView::NodeNetworkMissing { at, .. } => at,
        ErrorView::PortCollision { at, .. } => at,
        ErrorView::InvalidWanVia { at, .. } => at,
        ErrorView::WanViaNodeNoWanZone { at, .. } => at,
        ErrorView::WanViaQualifiedOnNonClient { at } => at,
        ErrorView::WanViaNetworkMissing { at, .. } => at,
        ErrorView::WanViaClientNotOnNetwork { at, .. } => at,
        ErrorView::WanViaAmbiguous { at, .. } => at,
        ErrorView::WanViaUnreachable { at, .. } => at,
        ErrorView::WanZoneReservedName { at, .. } => at,
        ErrorView::WanZoneNameCollision { at, .. } => at,
    }
}

impl ValidationError {
    /// Where this error points.
    pub fn path(&self) -> (r: &ConfigLocation)
        ensures
            *r == error_at(self@),
    {
        match self {
            ValidationError::GlobalNameCollision { at, .. } => at,
            ValidationError::LocalShadowsGlobal { at, .. } => at,
            ValidationError::LocalNameCollision { at, .. } => at,
            ValidationError::InvalidPrefix { at, .. } => at,
            ValidationError::TagWithNameCollision { at, .. } => at,
            ValidationError::UnknownRef { at, .. } => at,
            ValidationError::IpOutsideSubnet { at, .. } => at,
            ValidationError::NetworkCollision { at, .. } => at,
            ValidationError::IpCollision { at, .. } => at,
            ValidationError::NodeClientManyZones { at, .. } => at,
            ValidationError::MacMissing { at } => at,
            ValidationError::PublicKeyMissing { at, .. } => at,
            ValidationError::NodeMissing { at, .. } => at,
            ValidationError::NodeNetworkMissing { at, .. } => at,
            ValidationError::PortCollision { at, .. } => at,
            ValidationError::InvalidWanVia { at, .. } => at,
            ValidationError::WanViaNodeNoWanZone { at, .. } => at,
            ValidationError::WanViaQualifiedOnNonClient { at } => at,
            ValidationError::WanViaNetworkMissing { at, .. } => at,
            ValidationError::WanViaClientNotOnNetwork { at, .. } => at,
            ValidationError::WanViaAmbiguous { at, .. } => at,
            ValidationError::WanViaUnreachable { at, .. } => at,
            ValidationError::WanZoneReservedName { at, .. } => at,
            ValidationError::WanZoneNameCollision { at, .. } => at,
        }
    }
}

/// A warning about the configuration.
#[derive(Debug, Clone)]
pub enum ValidationWarning {
    UnusedMac { at: ConfigLocation },
    UnusedPublicKey { at: ConfigLocation },
    UnreachableClient { at: ConfigLocation },
    UnreachableService { at: ConfigLocation },
    UnusedWanZone { at: ConfigLocation },
}

/// Where a warning points.
pub open spec fn warning_at(w: ValidationWarning) -> ConfigLocation {
    match w {
        ValidationWarning::UnusedMac { at } => at,
        ValidationWarning::UnusedPublicKey { at } => at,
        ValidationWarning::UnreachableClient { at } => at,
        ValidationWarning::UnreachableService { at } => at,
        ValidationWarning::UnusedWanZone { at } => at,
    }
}

impl ValidationWarning {
    /// Where this warning points.
    pub fn path(&self) -> (r: &ConfigLocation)
        ensures
            *r == warning_at(*self),
    {
        match self {
            ValidationWarning::UnusedMac { at } => at,
            ValidationWarning::UnusedPublicKey { at } => at,
            ValidationWarning::UnreachableClient { at } => at,
            ValidationWarning::UnreachableService { at } => at,
            ValidationWarning::UnusedWanZone { at } => at,
        }
    }
}

/// The views of a sequence of errors.
pub open spec fn errors_view(s: Seq<ValidationError>) -> Seq<ErrorView> {
    s.map_values(|e: ValidationError| e@)
}

/// The errors and warnings found in a configuration.
#[derive(Debug)]
pub struct ValidationReport {
    pub warnings: Vec<ValidationWarning>,
    pub errors: Vec<ValidationError>,
}

impl Default for ValidationReport {
    fn default() -> (r: Self)
        ensures
            r.warnings@.len() == 0,
            r.errors@.len() == 0,
    {
        ValidationReport { warnings: Vec::new(), errors: Vec::new() }
    }
}


/// The text of each key.
pub open spec fn keys_view(keys: Seq<Vec<char>>) -> Seq<Seq<char>> {
    keys.map_values(|k: Vec<char>| k@)
}

/// The item at position `a` goes before the one at `b`: its key comes first, or the keys
/// are equal and it came first.
pub open spec fn key_before(keys: Seq<Seq<char>>, a: int, b: int) -> bool {
    path_lt(keys[a], keys[b]) || (keys[a] == keys[b] && a < b)
}

/// `out` holds the items at positions `perm` of `items`, each position taken once, in an
/// order where keys ascend and items with equal keys keep their order.
pub open spec fn sorted_by_positions<T>(out: Seq<T>, items: Seq<T>, keys: Seq<Seq<char>>, perm: Seq<int>) -> bool {
    &&& out.len() == perm.len()
    &&& forall|i: int| 0 <= i < perm.len() ==> 0 <= #[trigger] perm[i] < items.len() && out[i] == items[perm[i]]
    &&& forall|i: int, j: int| 0 <= i < j < perm.len() ==> #[trigger] perm[i] != #[trigger] perm[j]
    &&& forall|i: int, j: int| 0 <= i < j < perm.len() ==> key_before(keys, #[trigger] perm[i], #[trigger] perm[j])
}

/// `out` is `items` sorted stably by `keys`: every item once, keys ascending in the order
/// of dotted paths, and items with equal keys in their original order.
pub open spec fn stably_sorted<T>(out: Seq<T>, items: Seq<T>, keys: Seq<Seq<char>>) -> bool {
    &&& out.len() == items.len()
    &&& exists|perm: Seq<int>| #[trigger] sorted_by_positions(out, items, keys, perm)
}

/// Sorts `items` stably by their `keys`, one key per item.
fn sort_by_keys<T>(items: Vec<T>, keys: Vec<Vec<char>>) -> (r: Vec<T>)
    requires
        keys@.len() == items@.len(),
    ensures
        stably_sorted(r@, items@, keys_view(keys@)),
{
    let ghost orig = items@;
    let ghost kv = keys_view(keys@);
    let ghost n = orig.len();
    assert(items@.len() == items.len());
    let mut items = items;
    let mut keys = keys;
    let mut out: Vec<T> = Vec::new();
    let mut out_keys: Vec<Vec<char>> = Vec::new();
    let ghost mut perm: Seq<int> = seq![];
    let mut k: usize = 0;
    while items.len() > 0
        invariant
            n == orig.len(),
            n <= usize::MAX,
            kv.len() == n,
            k <= n,
            items@ == orig.skip(k as int),
            keys@.len() == items@.len(),
            keys_view(keys@) == kv.skip(k as int),
            out@.len() == k,
            out_keys@.len() == k,
            perm.len() == k,
            forall|i: int| 0 <= i < k ==> 0 <= #[trigger] perm[i] < k && keys_view(out_keys@)[i] == kv[perm[i]],
            sorted_by_positions(out@, orig, kv, perm),
        decreases items@.len(),
    {
        let x = items.remove(0);
        let ghost kb = keys@;
        let kx = keys.remove(0);
        assert(orig.skip(k as int)[0] == orig[k as int]);
        assert(keys_view(kb)[0] == kv[k as int]);
        assert(keys_view(keys@) =~= kv.skip(k + 1));
        assert(items@ =~= orig.skip(k + 1));
        let mut p: usize = 0;
        loop
            invariant
                p <= out_keys@.len(),
                out_keys@.len() == k,
                kx@ == kv[k as int],
                forall|m: int| 0 <= m < p ==> !path_lt(kx@, #[trigger] keys_view(out_keys@)[m]),
            ensures
                p <= out_keys@.len(),
                forall|m: int| 0 <= m < p ==> !path_lt(kx@, #[trigger] keys_view(out_keys@)[m]),
                p < out_keys@.len() ==> path_lt(kx@, keys_view(out_keys@)[p as int]),
            decreases out_keys@.len() - p,
        {
            if p == out_keys.len() {
                break;
            }
            if path_less(&kx, &out_keys[p]) {
                break;
            }
            p = p + 1;
        }
        let ghost old_perm = perm;
        let ghost old_keys = keys_view(out_keys@);
        let ghost old_out = out@;
        out.insert(p, x);
        out_keys.insert(p, kx);
        proof {
            perm = old_perm.insert(p as int, k as int);
            assert(keys_view(out_keys@) =~= old_keys.insert(p as int, kv[k as int]));
            assert forall|i: int, j: int| 0 <= i < j < perm.len() implies key_before(
                kv,
                #[trigger] perm[i],
                #[trigger] perm[j],
            ) by {
                if j == p {
                    // an earlier item, whose key does not come after x's
                    assert(perm[i] == old_perm[i]);
                    assert(old_keys[i] == kv[old_perm[i]]);
                    lemma_path_lt_total(kv[k as int], kv[old_perm[i]]);
                } else if i == p {
                    // a later item, whose key comes after x's
                    assert(perm[j] == old_perm[j - 1]);
                    assert(old_keys[j - 1] == kv[old_perm[j - 1]]);
                    assert(old_keys[p as int] == kv[old_perm[p as int]]);
                    if j - 1 > p {
                        assert(key_before(kv, old_perm[p as int], old_perm[j - 1]));
                        if path_lt(kv[old_perm[p as int]], kv[old_perm[j - 1]]) {
                            lemma_path_lt_transitive(kv[k as int], kv[old_perm[p as int]], kv[old_perm[j - 1]]);
                        }
                    }
                } else {
                    let oi = if i < p { i } else { i - 1 };
                    let oj = if j < p { j } else { j - 1 };
                    assert(perm[i] == old_perm[oi] && perm[j] == old_perm[oj]);
                    assert(key_before(kv, old_perm[oi], old_perm[oj]));
                }
            }
            assert forall|i: int, j: int| 0 <= i < j < perm.len() implies #[trigger] perm[i] != #[trigger] perm[j] by {
                if i != p && j != p {
                    let oi = if i < p { i } else { i - 1 };
                    let oj = if j < p { j } else { j - 1 };
                    assert(perm[i] == old_perm[oi] && perm[j] == old_perm[oj]);
                } else if i == p {
                    assert(perm[j] == old_perm[j - 1]);
                } else {
                    assert(perm[i] == old_perm[i]);
                }
            }
            assert forall|i: int| 0 <= i < perm.len() implies 0 <= #[trigger] perm[i] < orig.len() && out@[i] == orig[perm[i]] by {
                if i < p {
                    assert(perm[i] == old_perm[i] && out@[i] == old_out[i]);
                } else if i > p {
                    assert(perm[i] == old_perm[i - 1] && out@[i] == old_out[i - 1]);
                }
            }
            assert forall|i: int| 0 <= i < k + 1 implies 0 <= #[trigger] perm[i] < k + 1 && keys_view(out_keys@)[i] == kv[perm[i]] by {
                if i < p {
                    assert(perm[i] == old_perm[i]);
                } else if i > p {
                    assert(perm[i] == old_perm[i - 1]);
                }
            }
        }
        k = k + 1;
    }
    assert(sorted_by_positions(out@, orig, kv, perm));
    out
}

/// The key of each error: the text of the place it points to.
pub open spec fn error_keys(s: Seq<ValidationError>) -> Seq<Seq<char>> {
    s.map_values(|e: ValidationError| location_text(error_at(e@)))
}

/// The key of each warning: the text of the place it points to.
pub open spec fn warning_keys(s: Seq<ValidationWarning>) -> Seq<Seq<char>> {
    s.map_values(|w: ValidationWarning| location_text(warning_at(w)))
}

impl ValidationReport {
    /// Orders the errors and the warnings by the place they point to, path segment by path
    /// segment; those at the same place keep the order in which they were found.
    pub fn sort(&mut self)
        ensures
            stably_sorted(final(self).errors@, old(self).errors@, error_keys(old(self).errors@)),
            stably_sorted(final(self).warnings@, old(self).warnings@, warning_keys(old(self).warnings@)),
    {
        let mut errors: Vec<ValidationError> = Vec::new();
        std::mem::swap(&mut errors, &mut self.errors);
        let mut ek: Vec<Vec<char>> = Vec::new();
        let mut i: usize = 0;
        while i < errors.len()
            invariant
                i <= errors@.len(),
                keys_view(ek@) == error_keys(errors@).take(i as int),
            decreases errors@.len() - i,
        {
            let text = errors[i].path().to_string();
            let ghost eb = ek@;
            ek.push(chars_of(text.as_str()));
            assert(keys_view(ek@) =~= keys_view(eb).push(location_text(error_at(errors@[i as int]@))));
            assert(error_keys(errors@).take(i + 1) =~= error_keys(errors@).take(i as int).push(
                location_text(error_at(errors@[i as int]@)),
            ));
            i = i + 1;
        }
        assert(error_keys(errors@).take(errors@.len() as int) =~= error_keys(errors@));
        self.errors = sort_by_keys(errors, ek);
        let mut warnings: Vec<ValidationWarning> = Vec::new();
        std::mem::swap(&mut warnings, &mut self.warnings);
        let mut wk: Vec<Vec<char>> = Vec::new();
        let mut j: usize = 0;
        while j < warnings.len()
            invariant
                j <= warnings@.len(),
                keys_view(wk@) == warning_keys(warnings@).take(j as int),
            decreases warnings@.len() - j,
        {
            let text = warnings[j].path().to_string();
            let ghost wb = wk@;
            wk.push(chars_of(text.as_str()));
            assert(keys_view(wk@) =~= keys_view(wb).push(location_text(warning_at(warnings@[j as int]))));
            assert(warning_keys(warnings@).take(j + 1) =~= warning_keys(warnings@).take(j as int).push(
                location_text(warning_at(warnings@[j as int])),
            ));
            j = j + 1;
        }
        assert(warning_keys(warnings@).take(warnings@.len() as int) =~= warning_keys(warnings@));
        self.warnings = sort_by_keys(warnings, wk);
    }

    /// Adds an error.
    pub fn push_error(&mut self, e: ValidationError)
        ensures
            errors_view(final(self).errors@) == errors_view(old(self).errors@).push(e@),
            final(self).warnings@ == old(self).warnings@,
    {
        let ghost o = self.errors@;
        self.errors.push(e);
        assert(errors_view(self.errors@) =~= errors_view(o).push(e@));
    }

    /// Adds a warning.
    pub fn push_warning(&mut self, w: ValidationWarning)
        ensures
            final(self).warnings@ == old(self).warnings@.push(w),
            final(self).errors@ == old(self).errors@,
    {
        self.warnings.push(w);
    }
}

/// Segments joined with `, `.
pub open spec fn join_commas(s: Seq<Seq<char>>) -> Seq<char>
    decreases s.len(),
{
    if s.len() == 0 {
        seq![]
    } else if s.len() == 1 {
        s[0]
    } else {
        join_commas(s.drop_last()) + ", "@ + s.last()
    }
}

/// Why a public key is required.
pub open spec fn key_reasons(mesh: bool, vpn: bool) -> Seq<char> {
    if mesh && vpn {
        "client has a mesh IP"@ + ", "@ + "client has a VPN interface IP"@
    } else if mesh {
        "client has a mesh IP"@
    } else if vpn {
        "client has a VPN interface IP"@
    } else {
        seq![]
    }
}

/// What an error says, after its location.
pub open spec fn error_body(e: ErrorView) -> Seq<char> {
    match e {
        ErrorView::GlobalNameCollision { name, .. } => "name '"@ + name@
            + "' is already used as another global name (node, client, or tag)"@,
        ErrorView::LocalShadowsGlobal { name, .. } => "local name "@ + name@ + " conflicts with global "@ + name@
            + " - rename one to avoid ambiguity"@,
        ErrorView::LocalNameCollision { name, .. } => "name '"@ + name@ + "' is already used in the same node"@,
        ErrorView::InvalidPrefix { name, prefix, .. } => "name '"@ + name@ + "' uses reserved prefix '"@ + prefix
            + "'"@,
        ErrorView::TagWithNameCollision { tag, .. } => "tag '"@ + tag@
            + "' collides with a name used elsewhere in the global namespace"@,
        ErrorView::UnknownRef { reference, .. } => "unknown identifier '"@ + allow_from_text(reference@) + "'"@,
        ErrorView::IpOutsideSubnet { ip, network, .. } => "IP "@ + ipv4_text(ip@) + " is outside subnet "@
            + cidr_text(network@),
        ErrorView::NetworkCollision { network, conflicting_with, .. } => "subnet "@ + cidr_text(network@)
            + " overlaps with another subnet "@ + cidr_text(conflicting_with@),
        ErrorView::IpCollision { ip, with, .. } => "IP "@ + ipv4_text(ip@) + " is already used at "@
            + location_text(with),
        ErrorView::NodeClientManyZones { zone_name, existing_zone, .. } => "client has IP on zone '"@ + zone_name@
            + "', but already has an IP on another zone at "@ + location_text(existing_zone)
            + " (max one zone per (client, node))"@,
        ErrorView::MacMissing { .. } => "client has zone IPs but no macs — MAC required for DHCP lease generation"@,
        ErrorView::PublicKeyMissing { required_for_mesh, required_for_vpn_interface, .. } => "public key required ("@
            + key_reasons(required_for_mesh, required_for_vpn_interface) + ")"@,
        ErrorView::NodeMissing { node_name, .. } => "node '"@ + node_name@ + "' does not exist"@,
        ErrorView::NodeNetworkMissing { node_name, network_name, .. } => "node '"@ + node_name@
            + "' has no network named '"@ + network_name@ + "'"@,
        ErrorView::PortCollision { port, with, .. } => "port "@ + por_text(port) + " collides with "@
            + location_text(with),
        ErrorView::InvalidWanVia { node_name, .. } => "unknown node '"@ + node_name@ + "'"@,
        ErrorView::WanViaNodeNoWanZone { node_name, .. } => "node '"@ + node_name@
            + "' does not have wanZone defined"@,
        ErrorView::WanViaQualifiedOnNonClient { .. } => "qualified wan target form ({Node}.{Network}) is only allowed on services hosted by a global client — node/device/vpn-client services have a single unambiguous target and don't need disambiguation"@,
        ErrorView::WanViaNetworkMissing { node, network, .. } => "qualified wan target references network '"@
            + network@ + "' on node '"@ + node@
            + "', but no such zone or VPN interface exists on that node"@,
        ErrorView::WanViaClientNotOnNetwork { node, network, .. } => "qualified wan target '"@ + node@ + "."@
            + network@ + "' requires this client to have an IP at ips."@ + node@ + "."@ + network@
            + " — none declared"@,
        ErrorView::WanViaAmbiguous { node, candidates, .. } => "client is reachable via multiple VPN interfaces on node '"@
            + node@ + "' ("@ + join_commas(candidates) + "). Use the qualified form (e.g. '"@ + node@ + "."@
            + candidates[0] + "') to disambiguate"@,
        ErrorView::WanViaUnreachable { node, .. } => "client has no reachable address on node '"@ + node@
            + "' (no meshIp, no zone IP, no VPN IP on this node). Either declare an IP for this client on the node, or use a different wan.via target"@,
        ErrorView::WanZoneReservedName { wan_zone, .. } => "wanZone '"@ + wan_zone@
            + "' is the name of the splot-managed mesh interface — wanZone must not match it"@,
        ErrorView::WanZoneNameCollision { wan_zone, with, .. } => "wanZone '"@ + wan_zone@
            + "' collides with another zone at "@ + location_text(with)
            + " — wanZone must not match any zone, VPN interface, or the splot-managed mesh interface on the same node"@,
    }
}

/// The message of an error: its location, `: `, and what it says.
pub open spec fn error_text(e: ErrorView) -> Seq<char> {
    location_text(error_at(e)) + ": "@ + error_body(e)
}

/// What a warning says, after its location.
pub open spec fn warning_body(w: ValidationWarning) -> Seq<char> {
    match w {
        ValidationWarning::UnusedMac { .. } => "macs are declared but client has no zone IPs that would use them"@,
        ValidationWarning::UnusedPublicKey { .. } => "publicKey is declared but client has no mesh IP and no VPN interface IPs"@,
        ValidationWarning::UnreachableClient { .. } => "client has no IPs anywhere — nothing routes to it"@,
        ValidationWarning::UnreachableService { .. } => "service has neither 'allowFrom' nor 'wan' — no source can reach it"@,
        ValidationWarning::UnusedWanZone { .. } => "wanZone is declared but no service exposes this node in 'wan.via' — either reference this node from a service's wan.via, or remove wanZone"@,
    }
}

/// The message of a warning: its location, `: `, and what it says.
pub open spec fn warning_text(w: ValidationWarning) -> Seq<char> {
    location_text(warning_at(w)) + ": "@ + warning_body(w)
}

/// Appends the identifiers joined with `, `.
fn push_joined(s: &mut String, ids: &Vec<Identifier>)
    ensures
        final(s)@ == old(s)@ + join_commas(ids@.map_values(|c: Identifier| c@)),
{
    let ghost v = ids@.map_values(|c: Identifier| c@);
    let ghost s0 = s@;
    let mut i: usize = 0;
    while i < ids.len()
        invariant
            i <= ids@.len(),
            v == ids@.map_values(|c: Identifier| c@),
            s@ == s0 + join_commas(v.take(i as int)),
        decreases ids@.len() - i,
    {
        if i > 0 {
            push_str(s, ", ");
        }
        push_str(s, ids[i].as_str());
        proof {
            assert(v.take(i + 1).drop_last() =~= v.take(i as int));
            if i == 0 {
                assert(v.take(0) =~= Seq::<Seq<char>>::empty());
            }
        }
        i = i + 1;
    }
    assert(v.take(v.len() as int) =~= v);
}

#[verifier::spinoff_prover]
#[verifier::rlimit(40)]
fn push_error_body(e: &ValidationError, s: &mut String)
    requires
        e matches ValidationError::WanViaAmbiguous { candidates, .. } ==> candidates@.len() > 0,
    ensures
        final(s)@ == old(s)@ + error_body(e@),
{
    match e {
        ValidationError::GlobalNameCollision { name, .. } => {
            push_str(s, "name '");
            push_str(s, name.as_str());
            push_str(s, "' is already used as another global name (node, client, or tag)");
        },
        ValidationError::LocalShadowsGlobal { name, .. } => {
            push_str(s, "local name ");
            push_str(s, name.as_str());
            push_str(s, " conflicts with global ");
            push_str(s, name.as_str());
            push_str(s, " - rename one to avoid ambiguity");
        },
        ValidationError::LocalNameCollision { name, .. } => {
            push_str(s, "name '");
            push_str(s, name.as_str());
            push_str(s, "' is already used in the same node");
        },
        ValidationError::InvalidPrefix { name, prefix, .. } => {
            push_str(s, "name '");
            push_str(s, name.as_str());
            push_str(s, "' uses reserved prefix '");
            push_str(s, prefix.as_str());
            push_str(s, "'");
        },
        ValidationError::TagWithNameCollision { tag, .. } => {
            push_str(s, "tag '");
            push_str(s, tag.as_str());
            push_str(s, "' collides with a name used elsewhere in the global namespace");
        },
        ValidationError::UnknownRef { reference, .. } => {
            push_str(s, "unknown identifier '");
            push_str(s, reference.to_string().as_str());
            push_str(s, "'");
        },
        ValidationError::IpOutsideSubnet { ip, network, .. } => {
            push_str(s, "IP ");
            push_str(s, ip.to_string().as_str());
            push_str(s, " is outside subnet ");
            push_str(s, network.to_string().as_str());
        },
        ValidationError::NetworkCollision { network, conflicting_with, .. } => {
            push_str(s, "subnet ");
            push_str(s, network.to_string().as_str());
            push_str(s, " overlaps with another subnet ");
            push_str(s, conflicting_with.to_string().as_str());
        },
        ValidationError::IpCollision { ip, with, .. } => {
            push_str(s, "IP ");
            push_str(s, ip.to_string().as_str());
            push_str(s, " is already used at ");
            with.write_to(s);
        },
        ValidationError::NodeClientManyZones { zone_name, existing_zone, .. } => {
            push_str(s, "client has IP on zone '");
            push_str(s, zone_name.as_str());
            push_str(s, "', but already has an IP on another zone at ");
            existing_zone.write_to(s);
            push_str(s, " (max one zone per (client, node))");
        },
        ValidationError::MacMissing { .. } => {
            push_str(s, "client has zone IPs but no macs — MAC required for DHCP lease generation");
        },
        ValidationError::PublicKeyMissing { required_for_mesh, required_for_vpn_interface, .. } => {
            push_str(s, "public key required (");
            if *required_for_mesh {
                push_str(s, "client has a mesh IP");
            }
            if *required_for_mesh && *required_for_vpn_interface {
                push_str(s, ", ");
            }
            if *required_for_vpn_interface {
                push_str(s, "client has a VPN interface IP");
            }
            push_str(s, ")");
        },
        ValidationError::NodeMissing { node_name, .. } => {
            push_str(s, "node '");
            push_str(s, node_name.as_str());
            push_str(s, "' does not exist");
        },
        ValidationError::NodeNetworkMissing { node_name, network_name, .. } => {
            push_str(s, "node '");
            push_str(s, node_name.as_str());
            push_str(s, "' has no network named '");
            push_str(s, network_name.as_str());
            push_str(s, "'");
        },
        ValidationError::PortCollision { port, with, .. } => {
            push_str(s, "port ");
            push_str(s, port.to_string().as_str());
            push_str(s, " collides with ");
            with.write_to(s);
        },
        ValidationError::InvalidWanVia { node_name, .. } => {
            push_str(s, "unknown node '");
            push_str(s, node_name.as_str());
            push_str(s, "'");
        },
        ValidationError::WanViaNodeNoWanZone { node_name, .. } => {
            push_str(s, "node '");
            push_str(s, node_name.as_str());
            push_str(s, "' does not have wanZone defined");
        },
        ValidationError::WanViaQualifiedOnNonClient { .. } => {
            push_str(s, "qualified wan target form ({Node}.{Network}) is only allowed on services hosted by a global client — node/device/vpn-client services have a single unambiguous target and don't need disambiguation");
        },
        ValidationError::WanViaNetworkMissing { node, network, .. } => {
            push_str(s, "qualified wan target references network '");
            push_str(s, network.as_str());
            push_str(s, "' on node '");
            push_str(s, node.as_str());
            push_str(s, "', but no such zone or VPN interface exists on that node");
        },
        ValidationError::WanViaClientNotOnNetwork { node, network, .. } => {
            push_str(s, "qualified wan target '");
            push_str(s, node.as_str());
            push_str(s, ".");
            push_str(s, network.as_str());
            push_str(s, "' requires this client to have an IP at ips.");
            push_str(s, node.as_str());
            push_str(s, ".");
            push_str(s, network.as_str());
            push_str(s, " — none declared");
        },
        ValidationError::WanViaAmbiguous { node, candidates, .. } => {
            push_str(s, "client is reachable via multiple VPN interfaces on node '");
            push_str(s, node.as_str());
            push_str(s, "' (");
            push_joined(s, candidates);
            push_str(s, "). Use the qualified form (e.g. '");
            push_str(s, node.as_str());
            push_str(s, ".");
            push_str(s, candidates[0].as_str());
            push_str(s, "') to disambiguate");
        },
        ValidationError::WanViaUnreachable { node, .. } => {
            push_str(s, "client has no reachable address on node '");
            push_str(s, node.as_str());
            push_str(s, "' (no meshIp, no zone IP, no VPN IP on this node). Either declare an IP for this client on the node, or use a different wan.via target");
        },
        ValidationError::WanZoneReservedName { wan_zone, .. } => {
            push_str(s, "wanZone '");
            push_str(s, wan_zone.as_str());
            push_str(s, "' is the name of the splot-managed mesh interface — wanZone must not match it");
        },
        ValidationError::WanZoneNameCollision { wan_zone, with, .. } => {
            push_str(s, "wanZone '");
            push_str(s, wan_zone.as_str());
            push_str(s, "' collides with another zone at ");
            with.write_to(s);
            push_str(s, " — wanZone must not match any zone, VPN interface, or the splot-managed mesh interface on the same node");
        },
    }
}

impl ValidationError {
    /// The message: the location, `: `, and what is wrong there. An ambiguity lists at
    /// least one candidate.
    pub fn to_string(&self) -> (r: String)
        requires
            self matches ValidationError::WanViaAmbiguous { candidates, .. } ==> candidates@.len() > 0,
        ensures
            r@ == error_text(self@),
    {
        let mut s = String::new();
        self.path().write_to(&mut s);
        push_str(&mut s, ": ");
        push_error_body(self, &mut s);
        s
    }
}

impl ValidationWarning {
    /// The message: the location, `: `, and what is doubtful there.
    pub fn to_string(&self) -> (r: String)
        ensures
            r@ == warning_text(*self),
    {
        let mut s = String::new();
        self.path().write_to(&mut s);
        push_str(&mut s, ": ");
        match self {
            ValidationWarning::UnusedMac { .. } => {
                push_str(&mut s, "macs are declared but client has no zone IPs that would use them");
            },
            ValidationWarning::UnusedPublicKey { .. } => {
                push_str(&mut s, "publicKey is declared but client has no mesh IP and no VPN interface IPs");
            },
            ValidationWarning::UnreachableClient { .. } => {
                push_str(&mut s, "client has no IPs anywhere — nothing routes to it");
            },
            ValidationWarning::UnreachableService { .. } => {
                push_str(&mut s, "service has neither 'allowFrom' nor 'wan' — no source can reach it");
            },
            ValidationWarning::UnusedWanZone { .. } => {
                push_str(&mut s, "wanZone is declared but no service exposes this node in 'wan.via' — either reference this node from a service's wan.via, or remove wanZone");
            },
        }
        s
    }
}

} // verus!
