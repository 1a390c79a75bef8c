//! The core transform of a scrape: the fetched records become a registry
//! of gauges, and the registry becomes the metrics text.

use vstd::prelude::*;
use vstd::string::*;
use crate::model::{healthy, License, LicenseView, StatusReport, StatusReportView};
use crate::registry::{
    family_wf, lemma_upsert_wf, metric_wf, registration_description, registry_text, upsert,
    GaugeFamily, GaugeFamilyView, Metric, MetricView, Registry, RegistrationError, SampleView,
    ScalarGauge, ScalarGaugeView,
};
use crate::text::{i64_text, int_text};
use crate::upstream::{upstream_description, UpstreamError};

verus! {

/// Why a scrape failed to assemble.
#[derive(Debug)]
pub enum AssemblyError {
    /// A fetch against the upstream failed; the whole scrape is abandoned.
    Upstream(UpstreamError),
    /// A metric name collision inside the registry. The fixed, distinct
    /// gauge names make this unreachable, and the assembler's contract
    /// proves it is never returned.
    Registration(RegistrationError),
}

/// The textual description an assembly failure carries.
pub open spec fn assembly_description(e: AssemblyError) -> Seq<char> {
    match e {
        AssemblyError::Upstream(u) => upstream_description(u),
        AssemblyError::Registration(r) => registration_description(r),
    }
}

impl AssemblyError {
    /// The carried description.
    pub fn describe(&self) -> (s: String)
        ensures
            s@ == assembly_description(*self),
    {
        match self {
            AssemblyError::Upstream(u) => u.describe(),
            AssemblyError::Registration(r) => r.describe(),
        }
    }
}

/// The health gauge's value: 1 exactly when the server is healthy.
pub open spec fn health_value(s: StatusReportView) -> int {
    if healthy(s) {
        1
    } else {
        0
    }
}

/// The labeled sample one license contributes: the stringified lease id
/// and the holder's user, hostname and domain, with value 0 when the
/// lease is revoked and 1 otherwise.
pub open spec fn license_sample(l: LicenseView) -> SampleView {
    SampleView {
        label_values: seq![
            int_text(l.floating_lease_id),
            l.client_entitlement_context.environment_user,
            l.client_entitlement_context.environment_hostname,
            l.client_entitlement_context.environment_domain,
        ],
        value: if l.is_revoked {
            0
        } else {
            1
        },
    }
}

/// The family samples of a lease list: each license's sample placed in
/// order, the last write winning on a repeated label tuple.
pub open spec fn license_samples(ls: Seq<LicenseView>) -> Seq<SampleView>
    decreases ls.len(),
{
    if ls.len() == 0 {
        Seq::empty()
    } else {
        upsert(license_samples(ls.drop_last()), license_sample(ls.last()))
    }
}

/// The lease label dimensions, in order.
pub open spec fn lease_label_names() -> Seq<Seq<char>> {
    seq!["lease_id"@, "lease_user"@, "lease_hostname"@, "lease_domain"@]
}

/// The health gauge of a scrape.
pub open spec fn health_gauge(s: StatusReportView) -> ScalarGaugeView {
    ScalarGaugeView { name: "uls_health"@, help: "Health of the ULS"@, value: health_value(s) }
}

/// The uptime gauge of a scrape.
pub open spec fn uptime_gauge(s: StatusReportView) -> ScalarGaugeView {
    ScalarGaugeView {
        name: "uls_uptime_ms"@,
        help: "Uptime of the ULS in ms"@,
        value: s.server_up_time_ms,
    }
}

/// The lease gauge family of a healthy scrape.
pub open spec fn lease_family(ls: Seq<LicenseView>) -> GaugeFamilyView {
    GaugeFamilyView {
        name: "uls_license_leased"@,
        help: "Currently leased ULS License"@,
        label_names: lease_label_names(),
        samples: license_samples(ls),
    }
}

/// The metrics one scrape registers: the health and uptime gauges always,
/// and the lease family exactly when a lease list was fetched.
pub open spec fn assembled_metrics(
    s: StatusReportView,
    leases: Option<Seq<LicenseView>>,
) -> Seq<MetricView> {
    let scalars = seq![
        MetricView::Scalar(health_gauge(s)),
        MetricView::Scalar(uptime_gauge(s)),
    ];
    match leases {
        Option::None => scalars,
        Option::Some(ls) => scalars.push(MetricView::Family(lease_family(ls))),
    }
}

/// The whole metrics text of one scrape.
pub open spec fn assembled_text(s: StatusReportView, leases: Option<Seq<LicenseView>>) -> Seq<
    char,
> {
    registry_text(assembled_metrics(s, leases))
}

/// The lease argument as the assembler's contract speaks of it.
pub open spec fn leases_view(leases: Option<&Vec<License>>) -> Option<Seq<LicenseView>> {
    match leases {
        Option::None => Option::None,
        Option::Some(v) => Option::Some(v.deep_view()),
    }
}

/// Builds and encodes the scrape's registry. The lease list must be given
/// exactly when the report is healthy — it is fetched under no other
/// condition. Registration cannot fail on the fixed, distinct gauge names,
/// so the result is the assembled text, always.
pub fn assemble(status: &StatusReport, leases: Option<&Vec<License>>) -> (r: Result<
    String,
    AssemblyError,
>)
    requires
        (leases is Some) <==> healthy(status@),
    ensures
        r is Ok,
        r matches Ok(t) ==> t@ == assembled_text(status@, leases_view(leases)),
{
    let mut reg = Registry::new();

    let hv: i64 = if status.is_healthy() {
        1
    } else {
        0
    };
    let health = ScalarGauge {
        name: String::from_str("uls_health"),
        help: String::from_str("Health of the ULS"),
        value: hv,
    };
    let ghost m1 = health@;
    proof {
        reveal_strlit("uls_health");
        reveal_strlit("uls_uptime_ms");
        reveal_strlit("uls_license_leased");
        assert("uls_health"@.len() == 10);
        assert("uls_uptime_ms"@.len() == 13);
        assert("uls_license_leased"@.len() == 18);
    }
    match reg.register(Metric::Scalar(health)) {
        Ok(()) => {},
        Err(e) => {
            return Err(AssemblyError::Registration(e));
        },
    }
    proof {
        assert(reg@ =~= seq![MetricView::Scalar(m1)]);
    }

    let uptime = ScalarGauge {
        name: String::from_str("uls_uptime_ms"),
        help: String::from_str("Uptime of the ULS in ms"),
        value: status.server_up_time_ms,
    };
    let ghost m2 = uptime@;
    match reg.register(Metric::Scalar(uptime)) {
        Ok(()) => {},
        Err(e) => {
            return Err(AssemblyError::Registration(e));
        },
    }
    proof {
        assert(reg@ =~= seq![MetricView::Scalar(m1), MetricView::Scalar(m2)]);
    }

    match leases {
        Option::None => {
            let text = reg.encode();
            proof {
                assert(reg@ =~= assembled_metrics(status@, leases_view(leases)));
            }
            Ok(text)
        },
        Option::Some(ls) => {
            let mut names: Vec<String> = Vec::new();
            names.push(String::from_str("lease_id"));
            names.push(String::from_str("lease_user"));
            names.push(String::from_str("lease_hostname"));
            names.push(String::from_str("lease_domain"));
            let samples: Vec<crate::registry::Sample> = Vec::new();
            let mut family = GaugeFamily {
                name: String::from_str("uls_license_leased"),
                help: String::from_str("Currently leased ULS License"),
                label_names: names,
                samples,
            };
            proof {
                assert(family@.label_names =~= lease_label_names());
                assert(family@.samples =~= Seq::<SampleView>::empty());
                assert(family@.samples =~= license_samples(ls.deep_view().take(0)));
            }

            let k = ls.len();
            let mut j: usize = 0;
            while j < k
                invariant
                    j <= k,
                    k == ls@.len(),
                    family@.name == "uls_license_leased"@,
                    family@.help == "Currently leased ULS License"@,
                    family@.label_names == lease_label_names(),
                    family@.samples == license_samples(ls.deep_view().take(j as int)),
                    family_wf(family@),
                decreases k - j,
            {
                proof {
                    assert(ls.deep_view()[j as int] == ls@[j as int]@);
                }
                let lic = &ls[j];
                let mut vals: Vec<String> = Vec::new();
                let id_text = i64_text(lic.floating_lease_id as i64);
                vals.push(id_text);
                vals.push(lic.client_entitlement_context.environment_user.clone());
                vals.push(lic.client_entitlement_context.environment_hostname.clone());
                vals.push(lic.client_entitlement_context.environment_domain.clone());
                let v: i64 = if lic.is_revoked {
                    0
                } else {
                    1
                };
                let ghost target = SampleView {
                    label_values: vals.deep_view(),
                    value: v as int,
                };
                proof {
                    assert(vals.deep_view() =~= license_sample(ls.deep_view()[j as int]).label_values);
                    assert(target =~= license_sample(ls.deep_view()[j as int]));
                    assert(vals.deep_view().len() == 4);
                    assert(lease_label_names().len() == 4);
                    lemma_upsert_wf(family@.samples, target, 4);
                }
                family.set(vals, v);
                proof {
                    assert(ls.deep_view().take(j + 1 as int).drop_last() =~= ls.deep_view().take(
                        j as int,
                    ));
                    assert(ls.deep_view().take(j + 1 as int).last() == ls.deep_view()[j as int]);
                    assert(family@.samples == license_samples(ls.deep_view().take(j + 1 as int)));
                }
                j = j + 1;
            }
            proof {
                assert(ls.deep_view().take(k as int) =~= ls.deep_view());
            }

            let ghost m3 = family@;
            match reg.register(Metric::Family(family)) {
                Ok(()) => {},
                Err(e) => {
                    return Err(AssemblyError::Registration(e));
                },
            }
            proof {
                assert(reg@ =~= seq![
                    MetricView::Scalar(m1),
                    MetricView::Scalar(m2),
                    MetricView::Family(m3),
                ]);
                assert forall|i: int| 0 <= i < reg@.len() implies metric_wf(#[trigger] reg@[i]) by {
                    if i == 2 {
                        assert(metric_wf(MetricView::Family(m3)));
                    }
                }
            }
            let text = reg.encode();
            proof {
                assert(reg@ =~= assembled_metrics(status@, leases_view(leases)));
            }
            Ok(text)
        },
    }
}

} // verus!
