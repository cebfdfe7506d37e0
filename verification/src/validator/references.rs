//! References: every `allowFrom` entry must name something registered, and a service that
//! nothing can reach is worth a warning.

use vstd::prelude::*;

use crate::config::{Config, Service, ServiceHost, config_services, host_location};
use crate::types::allow_from_ref::{AllowFromRef, AllowFromRefView};
use crate::types::config_location::ServiceLoc;
use crate::validator::names::{contains_ref, refs_view};
use crate::validator::types::{ErrorView, ValidationError, ValidationReport, ValidationWarning, errors_view};

verus! {

broadcast use {vstd::seq_lib::group_seq_properties, vstd::seq::Seq::group_seq_extra};

/// Neither `allowFrom` nor a `wan.via` target gives a way in.
pub open spec fn unreachable_service(s: Service) -> bool {
    s.allow_from@.len() == 0 && !(s.wan matches Some(w) && w.via@.len() > 0)
}

pub open spec fn unreachable_fn() -> spec_fn((Service, ServiceHost)) -> Option<ValidationWarning> {
    |p: (Service, ServiceHost)|
        if unreachable_service(p.0) {
            Some(ValidationWarning::UnreachableService { at: host_location(p.1, ServiceLoc::Root) })
        } else {
            None
        }
}

pub open spec fn unknown_ref_fn(known: Seq<AllowFromRefView>, host: ServiceHost) -> spec_fn(AllowFromRef) -> Option<ErrorView> {
    |r: AllowFromRef|
        if known.contains(r@) {
            None
        } else {
            Some(ErrorView::UnknownRef { reference: r, at: host_location(host, ServiceLoc::AllowFrom) })
        }
}

pub open spec fn service_refs_fn(known: Seq<AllowFromRefView>) -> spec_fn((Service, ServiceHost)) -> Seq<ErrorView> {
    |p: (Service, ServiceHost)| p.0.allow_from@.filter_map(unknown_ref_fn(known, p.1))
}

/// Each `allowFrom` entry that is not among the known references, service by service.
pub open spec fn reference_errors(config: Config, known: Seq<AllowFromRefView>) -> Seq<ErrorView> {
    config_services(config).flat_map(service_refs_fn(known))
}

/// The services that nothing can reach.
pub open spec fn reference_warnings(config: Config) -> Seq<ValidationWarning> {
    config_services(config).filter_map(unreachable_fn())
}

/// Checks every service's references against `known_references`.
pub fn check_references_resolution(config: &Config, known_references: &Vec<AllowFromRef>, report: &mut ValidationReport)
    ensures
        errors_view(final(report).errors@) == errors_view(old(report).errors@) + reference_errors(
            *config,
            refs_view(known_references@),
        ),
        final(report).warnings@ == old(report).warnings@ + reference_warnings(*config),
{
    let ghost kv = refs_view(known_references@);
    let services = config.services();
    let ghost sv = services@.map_values(|p: (&Service, ServiceHost)| (*p.0, p.1));
    let ghost eb = errors_view(report.errors@);
    let ghost wb = report.warnings@;
    let mut i: usize = 0;
    while i < services.len()
        invariant
            i <= services@.len(),
            sv == services@.map_values(|p: (&Service, ServiceHost)| (*p.0, p.1)),
            sv == config_services(*config),
            kv == refs_view(known_references@),
            eb == errors_view(old(report).errors@),
            wb == old(report).warnings@,
            errors_view(report.errors@) == eb + sv.take(i as int).flat_map(service_refs_fn(kv)),
            report.warnings@ == wb + sv.take(i as int).filter_map(unreachable_fn()),
        decreases services@.len() - i,
    {
        let (service, host) = (&services[i].0, &services[i].1);
        assert(sv[i as int] == (**service, *host));
        let has_lan = service.allow_from.len() != 0;
        let has_wan = match &service.wan {
            Some(w) => !w.via.is_empty(),
            None => false,
        };
        if !has_lan && !has_wan {
            report.push_warning(ValidationWarning::UnreachableService { at: host.to_location(ServiceLoc::Root) });
        }
        let allow = service.allow_from.items();
        let ghost before = errors_view(report.errors@);
        let ghost f = unknown_ref_fn(kv, *host);
        let mut k: usize = 0;
        while k < allow.len()
            invariant
                k <= allow@.len(),
                allow@ == service.allow_from@,
                kv == refs_view(known_references@),
                f == unknown_ref_fn(kv, *host),
                report.warnings@ == wb + sv.take(i + 1).filter_map(unreachable_fn()),
                errors_view(report.errors@) == before + allow@.take(k as int).filter_map(f),
            decreases allow@.len() - k,
        {
            if !contains_ref(known_references, &allow[k]) {
                report.push_error(ValidationError::UnknownRef {
                    reference: allow[k].clone(),
                    at: host.to_location(ServiceLoc::AllowFrom),
                });
            }
            k = k + 1;
        }
        assert(allow@.take(allow@.len() as int) =~= allow@);
        i = i + 1;
    }
    assert(sv.take(sv.len() as int) =~= sv);
}

} // verus!
