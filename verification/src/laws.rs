//! The library's stated laws: proofs that the scrape pipeline's contracts
//! add up to the behaviour an operator relies on.

use vstd::prelude::*;
use crate::assemble::{
    assembled_metrics, assembled_text, health_gauge, health_value, lease_family, license_sample,
    license_samples, uptime_gauge,
};
use crate::model::{healthy, LicenseView, StatusReportView};
use crate::registry::{
    find_sample, lemma_find_sample, registry_text, scalar_text, upsert, MetricView,
};
use crate::text::{contains_text, int_text, lemma_contains_middle};

verus! {

/// A scrape's text is a function of the fetched records alone: repeated
/// scrapes against an unchanged upstream produce identical text.
pub proof fn lemma_scrape_idempotent(
    s1: StatusReportView,
    l1: Option<Seq<LicenseView>>,
    s2: StatusReportView,
    l2: Option<Seq<LicenseView>>,
)
    requires
        s1 == s2,
        l1 == l2,
    ensures
        assembled_text(s1, l1) == assembled_text(s2, l2),
{
}

/// An unhealthy scrape's text is exactly the health gauge's block followed
/// by the uptime gauge's block — no lease family stands anywhere in it —
/// and it carries the whole lines `uls_health 0` and `uls_uptime_ms` with
/// the reported uptime.
pub proof fn lemma_unhealthy_scrape(s: StatusReportView)
    requires
        !healthy(s),
    ensures
        assembled_text(s, Option::None) == scalar_text(health_gauge(s)) + scalar_text(
            uptime_gauge(s),
        ),
        contains_text(assembled_text(s, Option::None), "uls_health 0\n"@),
        contains_text(
            assembled_text(s, Option::None),
            "uls_uptime_ms "@ + int_text(s.server_up_time_ms) + "\n"@,
        ),
{
    let ms = assembled_metrics(s, Option::None);
    let t1 = scalar_text(health_gauge(s));
    let t2 = scalar_text(uptime_gauge(s));
    let s0 = Seq::<MetricView>::empty();
    let s1 = seq![MetricView::Scalar(health_gauge(s))];
    assert(registry_text(s0) == Seq::<char>::empty());
    assert(s1.drop_last() =~= s0);
    assert(s1.last() == MetricView::Scalar(health_gauge(s)));
    assert(registry_text(s1) =~= t1);
    assert(ms.drop_last() =~= s1);
    assert(ms.last() == MetricView::Scalar(uptime_gauge(s)));
    let t = assembled_text(s, Option::None);
    assert(t =~= t1 + t2);

    reveal_strlit("uls_health");
    reveal_strlit(" ");
    reveal_strlit("\n");
    reveal_strlit("uls_health 0\n");
    assert(health_value(s) == 0);
    assert(int_text(0) == seq![crate::text::digit_char(0)]);
    let mid1 = "uls_health"@ + " "@ + int_text(0) + "\n"@;
    assert(mid1 =~= "uls_health 0\n"@);
    let pre1 = crate::registry::help_line(health_gauge(s).name, health_gauge(s).help)
        + crate::registry::type_line(health_gauge(s).name);
    assert(t =~= pre1 + mid1 + t2);
    lemma_contains_middle(pre1, mid1, t2);
    assert(contains_text(t, "uls_health 0\n"@));

    reveal_strlit("uls_uptime_ms");
    reveal_strlit("uls_uptime_ms ");
    let v = s.server_up_time_ms;
    let mid2 = "uls_uptime_ms "@ + int_text(v) + "\n"@;
    let pre2 = t1 + crate::registry::help_line(uptime_gauge(s).name, uptime_gauge(s).help)
        + crate::registry::type_line(uptime_gauge(s).name);
    assert("uls_uptime_ms"@ + " "@ =~= "uls_uptime_ms "@);
    assert(t =~= pre2 + mid2 + Seq::<char>::empty());
    lemma_contains_middle(pre2, mid2, Seq::<char>::empty());
    assert(contains_text(t, mid2));
}

/// A healthy scrape's text carries the whole line `uls_health 1`, whatever
/// the lease list holds.
pub proof fn lemma_healthy_scrape(s: StatusReportView, ls: Seq<LicenseView>)
    requires
        healthy(s),
    ensures
        contains_text(assembled_text(s, Option::Some(ls)), "uls_health 1\n"@),
{
    let ms = assembled_metrics(s, Option::Some(ls));
    let t1 = scalar_text(health_gauge(s));
    let t2 = scalar_text(uptime_gauge(s));
    let t3 = crate::registry::family_text(lease_family(ls));
    let s0 = Seq::<MetricView>::empty();
    let s1 = seq![MetricView::Scalar(health_gauge(s))];
    let s2 = seq![MetricView::Scalar(health_gauge(s)), MetricView::Scalar(uptime_gauge(s))];
    assert(registry_text(s0) == Seq::<char>::empty());
    assert(s1.drop_last() =~= s0);
    assert(s1.last() == MetricView::Scalar(health_gauge(s)));
    assert(registry_text(s1) =~= t1);
    assert(s2.drop_last() =~= s1);
    assert(s2.last() == MetricView::Scalar(uptime_gauge(s)));
    assert(registry_text(s2) =~= t1 + t2);
    assert(ms.drop_last() =~= s2);
    assert(ms.last() == MetricView::Family(lease_family(ls)));
    let t = assembled_text(s, Option::Some(ls));
    assert(t =~= t1 + t2 + t3);

    reveal_strlit("uls_health");
    reveal_strlit(" ");
    reveal_strlit("\n");
    reveal_strlit("uls_health 1\n");
    assert(health_value(s) == 1);
    assert(int_text(1) == seq![crate::text::digit_char(1)]);
    let mid1 = "uls_health"@ + " "@ + int_text(1) + "\n"@;
    assert(mid1 =~= "uls_health 1\n"@);
    let pre1 = crate::registry::help_line(health_gauge(s).name, health_gauge(s).help)
        + crate::registry::type_line(health_gauge(s).name);
    assert(t =~= pre1 + mid1 + (t2 + t3));
    lemma_contains_middle(pre1, mid1, t2 + t3);
    assert(contains_text(t, "uls_health 1\n"@));
}

/// The position of the last license in the list bearing the given label
/// tuple, or -1 when no license bears it.
pub open spec fn last_with_labels(ls: Seq<LicenseView>, labels: Seq<Seq<char>>) -> int
    decreases ls.len(),
{
    if ls.len() == 0 {
        -1
    } else if license_sample(ls.last()).label_values == labels {
        ls.len() - 1
    } else {
        last_with_labels(ls.drop_last(), labels)
    }
}

/// Last write wins: the assembled family holds one sample per distinct
/// label tuple of the lease list — no tuple is repeated, every license's
/// tuple is present, and the sample at a tuple is exactly the sample of
/// the last license bearing it.
pub proof fn lemma_license_samples(ls: Seq<LicenseView>)
    ensures
        forall|i1: int, i2: int|
            0 <= i1 < i2 < license_samples(ls).len() ==> (#[trigger] license_samples(
                ls,
            )[i1]).label_values != (#[trigger] license_samples(ls)[i2]).label_values,
        forall|j: int|
            0 <= j < ls.len() ==> find_sample(
                license_samples(ls),
                (#[trigger] license_sample(ls[j])).label_values,
            ) != -1,
        forall|i: int|
            0 <= i < license_samples(ls).len() ==> {
                let jj = last_with_labels(ls, (#[trigger] license_samples(ls)[i]).label_values);
                0 <= jj < ls.len() && license_samples(ls)[i] == license_sample(ls[jj])
            },
    decreases ls.len(),
{
    if ls.len() == 0 {
    } else {
        let dls = ls.drop_last();
        let sam = license_samples(dls);
        let s = license_sample(ls.last());
        let sam2 = license_samples(ls);
        lemma_license_samples(dls);
        lemma_find_sample(sam, s.label_values);
        let f = find_sample(sam, s.label_values);
        assert(sam2 == upsert(sam, s));
        assert(ls.last() == ls[ls.len() - 1]);
        assert(forall|j: int| 0 <= j < dls.len() ==> #[trigger] dls[j] == ls[j]);

        if f == -1 {
            assert(sam2 == sam.push(s));
            assert forall|i1: int, i2: int| 0 <= i1 < i2 < sam2.len() implies sam2[i1].label_values
                != sam2[i2].label_values by {
                if i2 == sam.len() as int {
                    assert(sam2[i2] == s);
                    assert(sam2[i1] == sam[i1]);
                    assert(sam[i1].label_values != s.label_values);
                } else {
                    assert(sam2[i1] == sam[i1]);
                    assert(sam2[i2] == sam[i2]);
                }
            }
            assert forall|j: int| 0 <= j < ls.len() implies find_sample(
                sam2,
                license_sample(ls[j]).label_values,
            ) != -1 by {
                let labels = license_sample(ls[j]).label_values;
                lemma_find_sample(sam2, labels);
                if j == ls.len() - 1 {
                    assert(sam2[sam.len() as int] == s);
                    assert(sam2[sam.len() as int].label_values == labels);
                } else {
                    assert(license_sample(dls[j]).label_values == labels);
                    let w = find_sample(sam, labels);
                    lemma_find_sample(sam, labels);
                    assert(w != -1);
                    assert(sam2[w] == sam[w]);
                    assert(sam2[w].label_values == labels);
                }
            }
            assert forall|i: int| #![trigger sam2[i]] 0 <= i < sam2.len() implies {
                let jj = last_with_labels(ls, sam2[i].label_values);
                0 <= jj < ls.len() && sam2[i] == license_sample(ls[jj])
            } by {
                let labels = sam2[i].label_values;
                if i == sam.len() as int {
                    assert(sam2[i] == s);
                    assert(last_with_labels(ls, labels) == ls.len() - 1);
                } else {
                    assert(sam2[i] == sam[i]);
                    assert(sam[i].label_values != s.label_values);
                    assert(last_with_labels(ls, labels) == last_with_labels(dls, labels));
                    let jj = last_with_labels(dls, labels);
                    assert(0 <= jj < dls.len() && sam[i] == license_sample(dls[jj]));
                    assert(dls[jj] == ls[jj]);
                }
            }
        } else {
            assert(sam2 == sam.update(f, s));
            assert(0 <= f < sam.len());
            assert(sam[f].label_values == s.label_values);
            assert forall|i1: int, i2: int| 0 <= i1 < i2 < sam2.len() implies sam2[i1].label_values
                != sam2[i2].label_values by {
                if i1 == f {
                    assert(sam2[i1] == s);
                    assert(sam2[i2] == sam[i2]);
                    assert(sam[f].label_values != sam[i2].label_values);
                } else if i2 == f {
                    assert(sam2[i2] == s);
                    assert(sam2[i1] == sam[i1]);
                    assert(sam[i1].label_values != sam[f].label_values);
                } else {
                    assert(sam2[i1] == sam[i1]);
                    assert(sam2[i2] == sam[i2]);
                }
            }
            assert forall|j: int| 0 <= j < ls.len() implies find_sample(
                sam2,
                license_sample(ls[j]).label_values,
            ) != -1 by {
                let labels = license_sample(ls[j]).label_values;
                lemma_find_sample(sam2, labels);
                if j == ls.len() - 1 {
                    assert(sam2[f].label_values == labels);
                } else {
                    assert(license_sample(dls[j]).label_values == labels);
                    let w = find_sample(sam, labels);
                    lemma_find_sample(sam, labels);
                    assert(w != -1);
                    if w == f {
                        assert(sam2[f].label_values == s.label_values);
                        assert(sam[f].label_values == labels);
                    } else {
                        assert(sam2[w] == sam[w]);
                        assert(sam2[w].label_values == labels);
                    }
                }
            }
            assert forall|i: int| #![trigger sam2[i]] 0 <= i < sam2.len() implies {
                let jj = last_with_labels(ls, sam2[i].label_values);
                0 <= jj < ls.len() && sam2[i] == license_sample(ls[jj])
            } by {
                let labels = sam2[i].label_values;
                if i == f {
                    assert(sam2[i] == s);
                    assert(last_with_labels(ls, labels) == ls.len() - 1);
                } else {
                    assert(sam2[i] == sam[i]);
                    assert(sam[i].label_values != sam[f].label_values);
                    assert(sam[i].label_values != s.label_values);
                    assert(last_with_labels(ls, labels) == last_with_labels(dls, labels));
                    let jj = last_with_labels(dls, labels);
                    assert(0 <= jj < dls.len() && sam[i] == license_sample(dls[jj]));
                    assert(dls[jj] == ls[jj]);
                }
            }
        }
    }
}

/// With pairwise distinct label tuples the family maps the lease list one
/// to one: there are exactly as many samples as licenses, and the i-th
/// sample is the i-th license's — value 0 exactly when that lease is
/// revoked.
pub proof fn lemma_distinct_tuples(ls: Seq<LicenseView>)
    requires
        forall|j1: int, j2: int|
            0 <= j1 < j2 < ls.len() ==> (#[trigger] license_sample(ls[j1])).label_values != (
            #[trigger] license_sample(ls[j2])).label_values,
    ensures
        license_samples(ls).len() == ls.len(),
        forall|i: int|
            0 <= i < ls.len() ==> license_samples(ls)[i] == license_sample(#[trigger] ls[i]),
    decreases ls.len(),
{
    if ls.len() == 0 {
    } else {
        let dls = ls.drop_last();
        let sam = license_samples(dls);
        let s = license_sample(ls.last());
        assert(forall|j: int| 0 <= j < dls.len() ==> #[trigger] dls[j] == ls[j]);
        lemma_distinct_tuples(dls);
        lemma_find_sample(sam, s.label_values);
        assert(ls.last() == ls[ls.len() - 1]);
        if find_sample(sam, s.label_values) != -1 {
            let w = find_sample(sam, s.label_values);
            assert(0 <= w < sam.len());
            assert(sam.len() == dls.len());
            assert(sam[w] == license_sample(dls[w]));
            assert(dls[w] == ls[w]);
            assert(license_sample(ls[w]).label_values != license_sample(
                ls[ls.len() - 1],
            ).label_values);
            assert(false);
        }
        assert(license_samples(ls) == sam.push(s));
        assert forall|i: int| 0 <= i < ls.len() implies license_samples(ls)[i] == license_sample(
            #[trigger] ls[i],
        ) by {
            if i < ls.len() - 1 {
                assert(license_samples(ls)[i] == sam[i]);
                assert(sam[i] == license_sample(dls[i]));
                assert(dls[i] == ls[i]);
            } else {
                assert(license_samples(ls)[i] == s);
            }
        }
    }
}

} // verus!
