//! The UCI commands that write firewall sections.

use vstd::prelude::*;

use crate::consts::{firewall_file_name, spec_firewall_file_name, spec_name_prefix};
use crate::managers::firewall::rules::{FirewallRule, RuleView, nets_view};
use crate::managers::firewall::types::action_text;
use crate::managers::firewall::redirect::{FirewallRedirect, RedirectView};
use crate::types::ip::ipv4_text;
use crate::types::zone_ref::zone_name;
use crate::managers::firewall::zones::{FirewallZone, ZoneView};
use crate::text::strings_view;
use crate::managers::{
    UciSectionBuilder, add_list_cmds, all_own, lemma_section_paths_own, network_strings, option_path, protocol_strings,
    section_path, set_opt, writes_own,
};
use crate::naming::name_prefixed;
use crate::protocol::{Protocol, protocol_text};
use crate::text::sorted_of;
use crate::types::ip::{Ipv4Network, cidr_text};
use crate::types::port::por_text;
use crate::uci::{UciBatchCommand, UciCmd, cmds_view};

verus! {

/// The commands that write a rule: its options, then its destination, source and protocol
/// lists, each in `String` order.
pub open spec fn rule_cmds(r: RuleView) -> Seq<UciCmd> {
    let p = section_path(spec_firewall_file_name(), r.0);
    seq![
        UciCmd::SetValue(p, seq!['r', 'u', 'l', 'e']),
        set_opt(p, seq!['n', 'a', 'm', 'e'], spec_name_prefix() + r.0),
        set_opt(p, seq!['s', 'r', 'c'], seq!['*']),
        set_opt(p, seq!['d', 'e', 's', 't'], seq!['*']),
        set_opt(p, seq!['d', 'e', 's', 't', '_', 'p', 'o', 'r', 't'], por_text(r.3)),
        set_opt(p, seq!['t', 'a', 'r', 'g', 'e', 't'], action_text(r.5)),
    ] + add_list_cmds(
        option_path(p, seq!['d', 'e', 's', 't', '_', 'i', 'p']),
        sorted_of(r.4.map_values(|n: (u32, u8)| cidr_text(n))),
    ) + add_list_cmds(
        option_path(p, seq!['s', 'r', 'c', '_', 'i', 'p']),
        sorted_of(r.1.map_values(|n: (u32, u8)| cidr_text(n))),
    ) + add_list_cmds(
        option_path(p, seq!['p', 'r', 'o', 't', 'o']),
        sorted_of(r.2.map_values(|x: Protocol| protocol_text(x))),
    )
}

impl FirewallRule {
    /// The commands that write this rule.
    #[verifier::spinoff_prover]
    #[verifier::rlimit(30)]
    pub fn to_uci_commands(&self) -> (r: Vec<UciBatchCommand>)
        ensures
            cmds_view(r@) == rule_cmds(self@),
    {
        proof {
            reveal_strlit("rule");
            reveal_strlit("name");
            reveal_strlit("src");
            reveal_strlit("dest");
            reveal_strlit("*");
            reveal_strlit("dest_port");
            reveal_strlit("target");
            reveal_strlit("dest_ip");
            reveal_strlit("src_ip");
            reveal_strlit("proto");
        }
        let dest_ip = network_strings(&self.dest_ip);
        let src_ip = network_strings(&self.src_ip);
        let proto = protocol_strings(&self.proto);
        assert(self.dest_ip@.map_values(|n: Ipv4Network| cidr_text(n@)) =~= nets_view(self.dest_ip@).map_values(
            |n: (u32, u8)| cidr_text(n),
        ));
        assert(self.src_ip@.map_values(|n: Ipv4Network| cidr_text(n@)) =~= nets_view(self.src_ip@).map_values(
            |n: (u32, u8)| cidr_text(n),
        ));
        let label = name_prefixed(self.name.as_str());
        let port = self.dest_port.to_string();
        let ghost p = section_path(spec_firewall_file_name(), self.name@);
        assert("rule"@ =~= seq!['r', 'u', 'l', 'e']);
        assert("name"@ =~= seq!['n', 'a', 'm', 'e']);
        assert("src"@ =~= seq!['s', 'r', 'c']);
        assert("dest"@ =~= seq!['d', 'e', 's', 't']);
        assert("*"@ =~= seq!['*']);
        assert("dest_port"@ =~= seq!['d', 'e', 's', 't', '_', 'p', 'o', 'r', 't']);
        assert("target"@ =~= seq!['t', 'a', 'r', 'g', 'e', 't']);
        assert("dest_ip"@ =~= seq!['d', 'e', 's', 't', '_', 'i', 'p']);
        assert("src_ip"@ =~= seq!['s', 'r', 'c', '_', 'i', 'p']);
        assert("proto"@ =~= seq!['p', 'r', 'o', 't', 'o']);
        let b = UciSectionBuilder::new(firewall_file_name(), self.name.as_str(), "rule");
        let b = b.set("name", label.as_str());
        let b = b.set("src", "*");
        let b = b.set("dest", "*");
        let b = b.set("dest_port", port.as_str());
        let b = b.set("target", self.target.as_str());
        assert(b.cmds() =~= seq![
            UciCmd::SetValue(p, seq!['r', 'u', 'l', 'e']),
            set_opt(p, seq!['n', 'a', 'm', 'e'], spec_name_prefix() + self.name@),
            set_opt(p, seq!['s', 'r', 'c'], seq!['*']),
            set_opt(p, seq!['d', 'e', 's', 't'], seq!['*']),
            set_opt(p, seq!['d', 'e', 's', 't', '_', 'p', 'o', 'r', 't'], por_text(self.dest_port@)),
            set_opt(p, seq!['t', 'a', 'r', 'g', 'e', 't'], action_text(self.target)),
        ]);
        let b = b.extend_list("dest_ip", dest_ip);
        let b = b.extend_list("src_ip", src_ip);
        let b = b.extend_list("proto", proto);
        let r = b.build();
        r
    }
}

/// The commands that write a zone: its name and policies, then its networks in `String`
/// order.
pub open spec fn zone_cmds(z: ZoneView) -> Seq<UciCmd> {
    let p = section_path(spec_firewall_file_name(), z.0);
    seq![
        UciCmd::SetValue(p, seq!['z', 'o', 'n', 'e']),
        set_opt(p, seq!['n', 'a', 'm', 'e'], spec_name_prefix() + z.0),
        set_opt(p, seq!['i', 'n', 'p', 'u', 't'], action_text(z.2)),
        set_opt(p, seq!['o', 'u', 't', 'p', 'u', 't'], action_text(z.3)),
        set_opt(p, seq!['f', 'o', 'r', 'w', 'a', 'r', 'd'], action_text(z.4)),
    ] + add_list_cmds(option_path(p, seq!['n', 'e', 't', 'w', 'o', 'r', 'k']), sorted_of(z.1))
}

impl FirewallZone {
    /// The commands that write this zone.
    pub fn to_uci_commands(&self) -> (r: Vec<UciBatchCommand>)
        ensures
            cmds_view(r@) == zone_cmds(self@),
    {
        proof {
            reveal_strlit("zone");
            reveal_strlit("name");
            reveal_strlit("input");
            reveal_strlit("output");
            reveal_strlit("forward");
            reveal_strlit("network");
        }
        assert("zone"@ =~= seq!['z', 'o', 'n', 'e']);
        assert("name"@ =~= seq!['n', 'a', 'm', 'e']);
        assert("input"@ =~= seq!['i', 'n', 'p', 'u', 't']);
        assert("output"@ =~= seq!['o', 'u', 't', 'p', 'u', 't']);
        assert("forward"@ =~= seq!['f', 'o', 'r', 'w', 'a', 'r', 'd']);
        assert("network"@ =~= seq!['n', 'e', 't', 'w', 'o', 'r', 'k']);
        let ghost p = section_path(spec_firewall_file_name(), self.name@);
        let label = name_prefixed(self.name.as_str());
        let b = UciSectionBuilder::new(firewall_file_name(), self.name.as_str(), "zone");
        let b = b.set("name", label.as_str());
        let b = b.set("input", self.input.as_str());
        let b = b.set("output", self.output.as_str());
        let b = b.set("forward", self.forward.as_str());
        assert(b.cmds() =~= seq![
            UciCmd::SetValue(p, seq!['z', 'o', 'n', 'e']),
            set_opt(p, seq!['n', 'a', 'm', 'e'], spec_name_prefix() + self.name@),
            set_opt(p, seq!['i', 'n', 'p', 'u', 't'], action_text(self.input)),
            set_opt(p, seq!['o', 'u', 't', 'p', 'u', 't'], action_text(self.output)),
            set_opt(p, seq!['f', 'o', 'r', 'w', 'a', 'r', 'd'], action_text(self.forward)),
        ]);
        let b = b.extend_list("network", self.network.clone());
        b.build()
    }
}

/// The commands that write a redirect.
pub open spec fn redirect_cmds(r: RedirectView) -> Seq<UciCmd> {
    let p = section_path(spec_firewall_file_name(), r.0);
    seq![
        UciCmd::SetValue(p, seq!['r', 'e', 'd', 'i', 'r', 'e', 'c', 't']),
        set_opt(p, seq!['n', 'a', 'm', 'e'], spec_name_prefix() + r.0),
        set_opt(p, seq!['t', 'a', 'r', 'g', 'e', 't'], seq!['D', 'N', 'A', 'T']),
        set_opt(p, seq!['s', 'r', 'c'], zone_name(r.2)),
        set_opt(p, seq!['s', 'r', 'c', '_', 'd', 'p', 'o', 'r', 't'], por_text(r.3)),
    ] + add_list_cmds(
        option_path(p, seq!['s', 'r', 'c', '_', 'i', 'p']),
        sorted_of(r.4.map_values(|n: (u32, u8)| cidr_text(n))),
    ) + seq![
        set_opt(p, seq!['d', 'e', 's', 't'], zone_name(r.7)),
        set_opt(p, seq!['d', 'e', 's', 't', '_', 'i', 'p'], ipv4_text(r.5)),
        set_opt(p, seq!['d', 'e', 's', 't', '_', 'p', 'o', 'r', 't'], por_text(r.6)),
    ] + add_list_cmds(
        option_path(p, seq!['p', 'r', 'o', 't', 'o']),
        sorted_of(r.1.map_values(|x: Protocol| protocol_text(x))),
    )
}

impl FirewallRedirect {
    /// The commands that write this redirect.
    #[verifier::spinoff_prover]
    pub fn to_uci_commands(&self) -> (r: Vec<UciBatchCommand>)
        ensures
            cmds_view(r@) == redirect_cmds(self@),
    {
        proof {
            reveal_strlit("redirect");
            reveal_strlit("name");
            reveal_strlit("target");
            reveal_strlit("DNAT");
            reveal_strlit("src");
            reveal_strlit("src_dport");
            reveal_strlit("src_ip");
            reveal_strlit("dest");
            reveal_strlit("dest_ip");
            reveal_strlit("dest_port");
            reveal_strlit("proto");
        }
        assert("redirect"@ =~= seq!['r', 'e', 'd', 'i', 'r', 'e', 'c', 't']);
        assert("name"@ =~= seq!['n', 'a', 'm', 'e']);
        assert("target"@ =~= seq!['t', 'a', 'r', 'g', 'e', 't']);
        assert("DNAT"@ =~= seq!['D', 'N', 'A', 'T']);
        assert("src"@ =~= seq!['s', 'r', 'c']);
        assert("src_dport"@ =~= seq!['s', 'r', 'c', '_', 'd', 'p', 'o', 'r', 't']);
        assert("src_ip"@ =~= seq!['s', 'r', 'c', '_', 'i', 'p']);
        assert("dest"@ =~= seq!['d', 'e', 's', 't']);
        assert("dest_ip"@ =~= seq!['d', 'e', 's', 't', '_', 'i', 'p']);
        assert("dest_port"@ =~= seq!['d', 'e', 's', 't', '_', 'p', 'o', 'r', 't']);
        assert("proto"@ =~= seq!['p', 'r', 'o', 't', 'o']);
        let ghost p = section_path(spec_firewall_file_name(), self.name@);
        let src_ip = network_strings(&self.src_ip);
        let proto = protocol_strings(&self.proto);
        assert(self.src_ip@.map_values(|n: Ipv4Network| cidr_text(n@)) =~= nets_view(self.src_ip@).map_values(
            |n: (u32, u8)| cidr_text(n),
        ));
        let label = name_prefixed(self.name.as_str());
        let src_zone = self.src.to_string();
        let src_dport = self.src_dport.to_string();
        let dest_zone = self.dest.to_string();
        let dest_ip = self.dest_ip.to_string();
        let dest_port = self.dest_port.to_string();
        let b = UciSectionBuilder::new(firewall_file_name(), self.name.as_str(), "redirect");
        let b = b.set("name", label.as_str());
        let b = b.set("target", "DNAT");
        let b = b.set("src", src_zone.as_str());
        let b = b.set("src_dport", src_dport.as_str());
        assert(b.cmds() =~= seq![
            UciCmd::SetValue(p, seq!['r', 'e', 'd', 'i', 'r', 'e', 'c', 't']),
            set_opt(p, seq!['n', 'a', 'm', 'e'], spec_name_prefix() + self.name@),
            set_opt(p, seq!['t', 'a', 'r', 'g', 'e', 't'], seq!['D', 'N', 'A', 'T']),
            set_opt(p, seq!['s', 'r', 'c'], zone_name(self.src@)),
            set_opt(p, seq!['s', 'r', 'c', '_', 'd', 'p', 'o', 'r', 't'], por_text(self.src_dport@)),
        ]);
        let b = b.extend_list("src_ip", src_ip);
        let ghost mid = b.cmds();
        let b = b.set("dest", dest_zone.as_str());
        let b = b.set("dest_ip", dest_ip.as_str());
        let b = b.set("dest_port", dest_port.as_str());
        assert(b.cmds() =~= mid + seq![
            set_opt(p, seq!['d', 'e', 's', 't'], zone_name(self.dest@)),
            set_opt(p, seq!['d', 'e', 's', 't', '_', 'i', 'p'], ipv4_text(self.dest_ip@)),
            set_opt(p, seq!['d', 'e', 's', 't', '_', 'p', 'o', 'r', 't'], por_text(self.dest_port@)),
        ]);
        let b = b.extend_list("proto", proto);
        b.build()
    }
}

/// A rule is written inside a section splot owns in `firewall`.
pub proof fn lemma_rule_section_own(r: RuleView)
    ensures
        all_own(rule_cmds(r), spec_firewall_file_name()),
{
    let f = spec_firewall_file_name();
    lemma_section_paths_own(f, r.0);
    assert forall|i: int| 0 <= i < rule_cmds(r).len() implies writes_own(#[trigger] rule_cmds(r)[i], f) by {}
}

/// A zone is written inside a section splot owns in `firewall`.
pub proof fn lemma_zone_section_own(z: ZoneView)
    ensures
        all_own(zone_cmds(z), spec_firewall_file_name()),
{
    let f = spec_firewall_file_name();
    lemma_section_paths_own(f, z.0);
    assert forall|i: int| 0 <= i < zone_cmds(z).len() implies writes_own(#[trigger] zone_cmds(z)[i], f) by {}
}

/// A redirect is written inside a section splot owns in `firewall`.
pub proof fn lemma_redirect_section_own(d: RedirectView)
    ensures
        all_own(redirect_cmds(d), spec_firewall_file_name()),
{
    let f = spec_firewall_file_name();
    lemma_section_paths_own(f, d.0);
    assert forall|i: int| 0 <= i < redirect_cmds(d).len() implies writes_own(#[trigger] redirect_cmds(d)[i], f) by {}
}

} // verus!
