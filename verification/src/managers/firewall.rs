//! The firewall configuration: zones, rules, redirects.

pub mod redirect;
pub mod render;
pub mod rules;
pub mod tag_resolution;
pub mod types;
pub mod zones;

use vstd::prelude::*;

use crate::config::Config;
use crate::consts::{firewall_file_name, spec_firewall_file_name};
use crate::managers::firewall::redirect::{FirewallRedirect, RedirectView, firewall_redirects, get_firewall_redirects, redirects_view};
use crate::managers::firewall::render::{
    lemma_redirect_section_own, lemma_rule_section_own, lemma_zone_section_own, redirect_cmds, rule_cmds, zone_cmds,
};
use crate::managers::{all_own, lemma_all_own_concat, lemma_all_own_flat_map};
use crate::managers::firewall::rules::{FirewallRule, RuleView, check_egress_ready, check_ingress_ready, egress_ready, egress_rules, get_firewall_egress_rules, get_firewall_ingress_rules, ingress_ready, ingress_rules, rules_view};
use crate::managers::firewall::tag_resolution::{build_tags_resolution_map, tag_resolution};
use crate::managers::firewall::types::bindings_view;
use crate::managers::firewall::zones::{FirewallZone, ZoneView, firewall_zones, get_firewall_zones, zones_view};
use crate::types::identifier::Identifier;
use crate::uci::{UciBatchCommand, UciCmd, append_cmds, cmds_view};

verus! {

broadcast use {vstd::seq_lib::group_seq_properties, vstd::seq::Seq::group_seq_extra};

/// Writes the firewall configuration file.
pub struct FirewallManager;

pub open spec fn zone_cmds_fn() -> spec_fn(ZoneView) -> Seq<UciCmd> {
    |z: ZoneView| zone_cmds(z)
}

pub open spec fn rule_cmds_fn() -> spec_fn(RuleView) -> Seq<UciCmd> {
    |r: RuleView| rule_cmds(r)
}

pub open spec fn redirect_cmds_fn() -> spec_fn(RedirectView) -> Seq<UciCmd> {
    |r: RedirectView| redirect_cmds(r)
}

/// What the firewall configuration of node `own` needs: the node exists and the destination
/// addresses of its rules are host addresses of their networks. A reference that resolves to
/// no address gives no source, and a rule left with no source is not written.
pub open spec fn firewall_ready(config: Config, own: Seq<char>) -> bool {
    &&& ingress_ready(config, own, tag_resolution(config, own))
    &&& egress_ready(config, own, tag_resolution(config, own))
}

/// The firewall commands of node `own`: its zones, its ingress then egress rules, then its
/// redirects.
pub open spec fn firewall_commands(config: Config, own: Seq<char>) -> Seq<UciCmd> {
    let binds = tag_resolution(config, own);
    firewall_zones(config, own).flat_map(zone_cmds_fn()) + ingress_rules(config, own, binds).flat_map(
        rule_cmds_fn(),
    ) + egress_rules(config, own, binds).flat_map(rule_cmds_fn()) + firewall_redirects(
        config,
        own,
    ).flat_map(redirect_cmds_fn())
}

fn zones_commands(zones: &Vec<FirewallZone>) -> (r: Vec<UciBatchCommand>)
    ensures
        cmds_view(r@) == zones_view(zones@).flat_map(zone_cmds_fn()),
{
    let ghost zv = zones_view(zones@);
    let mut r: Vec<UciBatchCommand> = Vec::new();
    let mut i: usize = 0;
    while i < zones.len()
        invariant
            i <= zones@.len(),
            zv == zones_view(zones@),
            cmds_view(r@) == zv.take(i as int).flat_map(zone_cmds_fn()),
        decreases zones@.len() - i,
    {
        append_cmds(&mut r, zones[i].to_uci_commands());
        assert(zv[i as int] == zones@[i as int]@);
        i = i + 1;
    }
    assert(zv.take(zv.len() as int) =~= zv);
    r
}

fn rules_commands(rules: &Vec<FirewallRule>) -> (r: Vec<UciBatchCommand>)
    ensures
        cmds_view(r@) == rules_view(rules@).flat_map(rule_cmds_fn()),
{
    let ghost rv = rules_view(rules@);
    let mut r: Vec<UciBatchCommand> = Vec::new();
    let mut i: usize = 0;
    while i < rules.len()
        invariant
            i <= rules@.len(),
            rv == rules_view(rules@),
            cmds_view(r@) == rv.take(i as int).flat_map(rule_cmds_fn()),
        decreases rules@.len() - i,
    {
        append_cmds(&mut r, rules[i].to_uci_commands());
        assert(rv[i as int] == rules@[i as int]@);
        i = i + 1;
    }
    assert(rv.take(rv.len() as int) =~= rv);
    r
}

fn redirects_commands(redirects: &Vec<FirewallRedirect>) -> (r: Vec<UciBatchCommand>)
    ensures
        cmds_view(r@) == redirects_view(redirects@).flat_map(redirect_cmds_fn()),
{
    let ghost rv = redirects_view(redirects@);
    let mut r: Vec<UciBatchCommand> = Vec::new();
    let mut i: usize = 0;
    while i < redirects.len()
        invariant
            i <= redirects@.len(),
            rv == redirects_view(redirects@),
            cmds_view(r@) == rv.take(i as int).flat_map(redirect_cmds_fn()),
        decreases redirects@.len() - i,
    {
        append_cmds(&mut r, redirects[i].to_uci_commands());
        assert(rv[i as int] == redirects@[i as int]@);
        i = i + 1;
    }
    assert(rv.take(rv.len() as int) =~= rv);
    r
}

impl FirewallManager {
    /// The configuration file this manager writes.
    pub fn config_file(&self) -> (r: &'static str)
        ensures
            r@ == spec_firewall_file_name(),
    {
        firewall_file_name()
    }

    /// Whether the firewall configuration of node `own_name` can be generated: every
    /// `allowFrom` reference of the services concerned resolves, and the device and client
    /// addresses on zones are host addresses of their zone.
    pub fn is_ready(&self, config: &Config, own_name: &Identifier) -> (r: bool)
        ensures
            r == firewall_ready(*config, own_name@),
    {
        let tags = build_tags_resolution_map(config, own_name);
        check_ingress_ready(config, own_name, &tags) && check_egress_ready(config, own_name, &tags)
    }

    /// The commands that write the firewall configuration of node `own_name`.
    pub fn generate_commands(&self, config: &Config, own_name: &Identifier) -> (r: Vec<UciBatchCommand>)
        requires
            firewall_ready(*config, own_name@),
        ensures
            cmds_view(r@) == firewall_commands(*config, own_name@),
    {
        let tags = build_tags_resolution_map(config, own_name);
        let zones = get_firewall_zones(config, own_name);
        let ingress = get_firewall_ingress_rules(config, own_name, &tags);
        let egress = get_firewall_egress_rules(config, own_name, &tags);
        let redirects = get_firewall_redirects(config, own_name);
        let mut r = zones_commands(&zones);
        append_cmds(&mut r, rules_commands(&ingress));
        append_cmds(&mut r, rules_commands(&egress));
        append_cmds(&mut r, redirects_commands(&redirects));
        r
    }
}

/// Every firewall command of a node writes inside a section splot owns in `firewall`.
pub proof fn lemma_firewall_commands_own(config: Config, own: Seq<char>)
    ensures
        all_own(firewall_commands(config, own), spec_firewall_file_name()),
{
    let f = spec_firewall_file_name();
    let binds = tag_resolution(config, own);
    let zones = firewall_zones(config, own);
    let ingress = ingress_rules(config, own, binds);
    let egress = egress_rules(config, own, binds);
    let redirects = firewall_redirects(config, own);
    assert forall|j: int| 0 <= j < zones.len() implies all_own(zone_cmds_fn()(#[trigger] zones[j]), f) by {
        lemma_zone_section_own(zones[j]);
    }
    assert forall|j: int| 0 <= j < ingress.len() implies all_own(rule_cmds_fn()(#[trigger] ingress[j]), f) by {
        lemma_rule_section_own(ingress[j]);
    }
    assert forall|j: int| 0 <= j < egress.len() implies all_own(rule_cmds_fn()(#[trigger] egress[j]), f) by {
        lemma_rule_section_own(egress[j]);
    }
    assert forall|j: int| 0 <= j < redirects.len() implies all_own(redirect_cmds_fn()(#[trigger] redirects[j]), f) by {
        lemma_redirect_section_own(redirects[j]);
    }
    lemma_all_own_flat_map(zones, zone_cmds_fn(), f);
    lemma_all_own_flat_map(ingress, rule_cmds_fn(), f);
    lemma_all_own_flat_map(egress, rule_cmds_fn(), f);
    lemma_all_own_flat_map(redirects, redirect_cmds_fn(), f);
    lemma_all_own_concat(zones.flat_map(zone_cmds_fn()), ingress.flat_map(rule_cmds_fn()), f);
    lemma_all_own_concat(
        zones.flat_map(zone_cmds_fn()) + ingress.flat_map(rule_cmds_fn()),
        egress.flat_map(rule_cmds_fn()),
        f,
    );
    lemma_all_own_concat(
        zones.flat_map(zone_cmds_fn()) + ingress.flat_map(rule_cmds_fn()) + egress.flat_map(rule_cmds_fn()),
        redirects.flat_map(redirect_cmds_fn()),
        f,
    );
}

} // verus!
