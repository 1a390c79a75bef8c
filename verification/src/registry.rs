//! The per-scrape metric registry: gauges registered under distinct names,
//! a labeled gauge family with last-write-wins samples, and the encoder
//! that renders everything to the metrics text format.

use vstd::prelude::*;
use vstd::string::*;
use crate::text::{escaped, int_text, i64_text, append_escaped};

verus! {

/// One labeled sample of a gauge family.
pub struct Sample {
    pub label_values: Vec<String>,
    pub value: i64,
}

#[verifier::ext_equal]
pub ghost struct SampleView {
    pub label_values: Seq<Seq<char>>,
    pub value: int,
}

impl View for Sample {
    type V = SampleView;

    open spec fn view(&self) -> SampleView {
        SampleView { label_values: self.label_values.deep_view(), value: self.value as int }
    }
}

impl DeepView for Sample {
    type V = SampleView;

    open spec fn deep_view(&self) -> SampleView {
        self.view()
    }
}

/// A single-valued gauge.
pub struct ScalarGauge {
    pub name: String,
    pub help: String,
    pub value: i64,
}

#[verifier::ext_equal]
pub ghost struct ScalarGaugeView {
    pub name: Seq<char>,
    pub help: Seq<char>,
    pub value: int,
}

impl View for ScalarGauge {
    type V = ScalarGaugeView;

    open spec fn view(&self) -> ScalarGaugeView {
        ScalarGaugeView { name: self.name@, help: self.help@, value: self.value as int }
    }
}

/// A gauge family: one sample per registered label tuple.
pub struct GaugeFamily {
    pub name: String,
    pub help: String,
    pub label_names: Vec<String>,
    pub samples: Vec<Sample>,
}

#[verifier::ext_equal]
pub ghost struct GaugeFamilyView {
    pub name: Seq<char>,
    pub help: Seq<char>,
    pub label_names: Seq<Seq<char>>,
    pub samples: Seq<SampleView>,
}

impl View for GaugeFamily {
    type V = GaugeFamilyView;

    open spec fn view(&self) -> GaugeFamilyView {
        GaugeFamilyView {
            name: self.name@,
            help: self.help@,
            label_names: self.label_names.deep_view(),
            samples: self.samples.deep_view(),
        }
    }
}

/// A registered metric.
pub enum Metric {
    Scalar(ScalarGauge),
    Family(GaugeFamily),
}

#[verifier::ext_equal]
pub ghost enum MetricView {
    Scalar(ScalarGaugeView),
    Family(GaugeFamilyView),
}

impl View for Metric {
    type V = MetricView;

    open spec fn view(&self) -> MetricView {
        match self {
            Metric::Scalar(g) => MetricView::Scalar(g@),
            Metric::Family(f) => MetricView::Family(f@),
        }
    }
}

impl DeepView for Metric {
    type V = MetricView;

    open spec fn deep_view(&self) -> MetricView {
        self.view()
    }
}

/// The in-memory registry: metrics in registration order.
pub struct Registry {
    metrics: Vec<Metric>,
}

impl View for Registry {
    type V = Seq<MetricView>;

    closed spec fn view(&self) -> Seq<MetricView> {
        self.metrics.deep_view()
    }
}

/// A metric name collision on registration.
#[derive(Debug)]
pub struct RegistrationError {
    pub name: String,
}

/// The description a registration failure carries.
pub open spec fn registration_description(e: RegistrationError) -> Seq<char> {
    "duplicate metric name "@ + e.name@
}

impl RegistrationError {
    /// The colliding name, behind a fixed prefix.
    pub fn describe(&self) -> (s: String)
        ensures
            s@ == registration_description(*self),
    {
        let mut s = String::from_str("duplicate metric name ");
        s.append(self.name.as_str());
        s
    }
}

// ---------------------------------------------------------------------------
// The rendered text, stated as spec functions over the views.
// ---------------------------------------------------------------------------

/// The `# HELP` line of a metric.
pub open spec fn help_line(name: Seq<char>, help: Seq<char>) -> Seq<char> {
    "# HELP "@ + name + " "@ + help + "\n"@
}

/// The `# TYPE` line of a metric; every metric here is a gauge.
pub open spec fn type_line(name: Seq<char>) -> Seq<char> {
    "# TYPE "@ + name + " gauge\n"@
}

/// A scalar gauge: its two comment lines and its one sample line.
pub open spec fn scalar_text(g: ScalarGaugeView) -> Seq<char> {
    help_line(g.name, g.help) + type_line(g.name) + g.name + " "@ + int_text(g.value) + "\n"@
}

/// One `name="value"` pair, the value quoted and escaped.
pub open spec fn label_pair_text(name: Seq<char>, value: Seq<char>) -> Seq<char> {
    name + "=\""@ + escaped(value) + "\""@
}

/// The comma-separated label pairs of one sample.
pub open spec fn label_pairs_text(names: Seq<Seq<char>>, values: Seq<Seq<char>>) -> Seq<char>
    decreases names.len(),
{
    if names.len() == 0 {
        Seq::empty()
    } else if names.len() == 1 {
        label_pair_text(names[0], values[0])
    } else {
        label_pairs_text(names.drop_last(), values.drop_last()) + ","@ + label_pair_text(
            names.last(),
            values.last(),
        )
    }
}

/// One labeled sample line.
pub open spec fn sample_text(name: Seq<char>, label_names: Seq<Seq<char>>, s: SampleView) -> Seq<
    char,
> {
    name + "{"@ + label_pairs_text(label_names, s.label_values) + "} "@ + int_text(s.value) + "\n"@
}

/// The sample lines of a family, in sample order.
pub open spec fn samples_text(
    name: Seq<char>,
    label_names: Seq<Seq<char>>,
    samples: Seq<SampleView>,
) -> Seq<char>
    decreases samples.len(),
{
    if samples.len() == 0 {
        Seq::empty()
    } else {
        samples_text(name, label_names, samples.drop_last()) + sample_text(
            name,
            label_names,
            samples.last(),
        )
    }
}

/// A gauge family: its two comment lines and its sample lines.
pub open spec fn family_text(f: GaugeFamilyView) -> Seq<char> {
    help_line(f.name, f.help) + type_line(f.name) + samples_text(f.name, f.label_names, f.samples)
}

/// Any registered metric.
pub open spec fn metric_text(m: MetricView) -> Seq<char> {
    match m {
        MetricView::Scalar(g) => scalar_text(g),
        MetricView::Family(f) => family_text(f),
    }
}

/// The whole registry, in registration order.
pub open spec fn registry_text(ms: Seq<MetricView>) -> Seq<char>
    decreases ms.len(),
{
    if ms.len() == 0 {
        Seq::empty()
    } else {
        registry_text(ms.drop_last()) + metric_text(ms.last())
    }
}

// ---------------------------------------------------------------------------
// Well-formedness: every sample carries one value per label dimension.
// ---------------------------------------------------------------------------

pub open spec fn family_wf(f: GaugeFamilyView) -> bool {
    forall|i: int|
        0 <= i < f.samples.len() ==> (#[trigger] f.samples[i]).label_values.len()
            == f.label_names.len()
}

pub open spec fn metric_wf(m: MetricView) -> bool {
    match m {
        MetricView::Scalar(g) => true,
        MetricView::Family(f) => family_wf(f),
    }
}

pub open spec fn registry_wf(ms: Seq<MetricView>) -> bool {
    forall|i: int| 0 <= i < ms.len() ==> metric_wf(#[trigger] ms[i])
}

// ---------------------------------------------------------------------------
// Last-write-wins sample placement.
// ---------------------------------------------------------------------------

/// The first index holding the given label tuple, or -1 when absent.
pub open spec fn find_sample(samples: Seq<SampleView>, labels: Seq<Seq<char>>) -> int
    decreases samples.len(),
{
    if samples.len() == 0 {
        -1
    } else if samples[0].label_values == labels {
        0
    } else if find_sample(samples.drop_first(), labels) == -1 {
        -1
    } else {
        find_sample(samples.drop_first(), labels) + 1
    }
}

/// Setting a sample: overwrite the sample holding the same label tuple,
/// else append a new one.
pub open spec fn upsert(samples: Seq<SampleView>, s: SampleView) -> Seq<SampleView> {
    if find_sample(samples, s.label_values) == -1 {
        samples.push(s)
    } else {
        samples.update(find_sample(samples, s.label_values), s)
    }
}

/// `find_sample` returns -1 exactly when the tuple is absent, and the
/// least matching index otherwise.
pub proof fn lemma_find_sample(samples: Seq<SampleView>, labels: Seq<Seq<char>>)
    ensures
        find_sample(samples, labels) == -1 <==> (forall|k: int|
            0 <= k < samples.len() ==> (#[trigger] samples[k]).label_values != labels),
        find_sample(samples, labels) != -1 ==> 0 <= find_sample(samples, labels) < samples.len()
            && samples[find_sample(samples, labels)].label_values == labels && (forall|k: int|
            0 <= k < find_sample(samples, labels) ==> (#[trigger] samples[k]).label_values
                != labels),
    decreases samples.len(),
{
    if samples.len() == 0 {
    } else if samples[0].label_values == labels {
    } else {
        let rest = samples.drop_first();
        lemma_find_sample(rest, labels);
        assert forall|k: int| 1 <= k < samples.len() implies samples[k] == rest[k - 1] by {
            assert(rest[k - 1] == samples[k]);
        }
    }
}

/// `upsert` keeps every sample's label arity when the new sample has the
/// family's arity.
pub proof fn lemma_upsert_wf(samples: Seq<SampleView>, s: SampleView, arity: nat)
    requires
        forall|i: int|
            0 <= i < samples.len() ==> (#[trigger] samples[i]).label_values.len() == arity,
        s.label_values.len() == arity,
    ensures
        forall|i: int|
            0 <= i < upsert(samples, s).len() ==> (#[trigger] upsert(samples, s)[i]).label_values.len()
                == arity,
{
    lemma_find_sample(samples, s.label_values);
}

// ---------------------------------------------------------------------------
// Executable operations.
// ---------------------------------------------------------------------------

/// Element-wise equality of two label tuples.
fn labels_match(a: &Vec<String>, b: &Vec<String>) -> (r: bool)
    ensures
        r == (a.deep_view() == b.deep_view()),
{
    if a.len() != b.len() {
        proof {
            assert(a.deep_view().len() == a@.len());
            assert(b.deep_view().len() == b@.len());
        }
        return false;
    }
    let n = a.len();
    let mut i: usize = 0;
    while i < n
        invariant
            i <= n,
            n == a@.len(),
            n == b@.len(),
            forall|k: int| 0 <= k < i ==> a.deep_view()[k] == b.deep_view()[k],
        decreases n - i,
    {
        let same = a[i] == b[i];
        if !same {
            proof {
                assert(a.deep_view()[i as int] == a@[i as int]@);
                assert(b.deep_view()[i as int] == b@[i as int]@);
            }
            return false;
        }
        i = i + 1;
    }
    proof {
        assert(a.deep_view() =~= b.deep_view());
    }
    true
}

impl GaugeFamily {
    /// Sets the sample at the given label tuple: the tuple's earlier sample,
    /// if any, is overwritten (last write wins), else a sample is appended.
    pub fn set(&mut self, label_values: Vec<String>, value: i64)
        ensures
            final(self)@.name == old(self)@.name,
            final(self)@.help == old(self)@.help,
            final(self)@.label_names == old(self)@.label_names,
            final(self)@.samples == upsert(
                old(self)@.samples,
                SampleView { label_values: label_values.deep_view(), value: value as int },
            ),
    {
        let ghost target = SampleView {
            label_values: label_values.deep_view(),
            value: value as int,
        };
        let n = self.samples.len();
        let mut i: usize = 0;
        while i < n
            invariant
                i <= n,
                n == self.samples@.len(),
                *self == *old(self),
                target == (SampleView {
                    label_values: label_values.deep_view(),
                    value: value as int,
                }),
                forall|k: int|
                    0 <= k < i ==> (#[trigger] old(self)@.samples[k]).label_values
                        != target.label_values,
            decreases n - i,
        {
            proof {
                assert(self@.samples[i as int] == self.samples@[i as int]@);
            }
            if labels_match(&self.samples[i].label_values, &label_values) {
                proof {
                    lemma_find_sample(old(self)@.samples, target.label_values);
                    assert(old(self)@.samples[i as int].label_values == target.label_values);
                    assert(find_sample(old(self)@.samples, target.label_values) == i as int);
                    assert(upsert(old(self)@.samples, target) == old(self)@.samples.update(
                        i as int,
                        target,
                    ));
                }
                let slot = vstd::std_specs::vec::vec_index_mut(&mut self.samples, i);
                slot.value = value;
                proof {
                    assert(self.samples@[i as int]@ == target);
                    assert(self@.samples =~= old(self)@.samples.update(i as int, target));
                }
                return;
            }
            i = i + 1;
        }
        proof {
            lemma_find_sample(old(self)@.samples, target.label_values);
            assert(find_sample(old(self)@.samples, target.label_values) == -1);
        }
        self.samples.push(Sample { label_values, value });
        proof {
            assert(self@.samples =~= old(self)@.samples.push(target));
        }
    }
}

/// The name a metric is registered under.
pub open spec fn metric_name(m: MetricView) -> Seq<char> {
    match m {
        MetricView::Scalar(g) => g.name,
        MetricView::Family(f) => f.name,
    }
}

/// Whether some registered metric carries the given name.
pub open spec fn has_name(ms: Seq<MetricView>, name: Seq<char>) -> bool {
    exists|i: int| 0 <= i < ms.len() && metric_name(#[trigger] ms[i]) == name
}

impl Metric {
    /// The name this metric is registered under.
    pub fn name(&self) -> (n: &String)
        ensures
            n@ == metric_name(self@),
    {
        match self {
            Metric::Scalar(g) => &g.name,
            Metric::Family(f) => &f.name,
        }
    }
}

impl Registry {
    /// An empty registry.
    pub fn new() -> (r: Registry)
        ensures
            r@ == Seq::<MetricView>::empty(),
    {
        let r = Registry { metrics: Vec::new() };
        proof {
            assert(r@ =~= Seq::<MetricView>::empty());
        }
        r
    }

    /// Registers a metric. Succeeds exactly when no metric of the same name
    /// is present; a collision leaves the registry unchanged and names the
    /// colliding metric.
    pub fn register(&mut self, m: Metric) -> (r: Result<(), RegistrationError>)
        ensures
            !has_name(old(self)@, metric_name(m@)) ==> r is Ok && final(self)@ == old(self)@.push(
                m@,
            ),
            has_name(old(self)@, metric_name(m@)) ==> r is Err && final(self)@ == old(self)@
                && r->Err_0.name@ == metric_name(m@),
    {
        let n = self.metrics.len();
        let mut i: usize = 0;
        while i < n
            invariant
                i <= n,
                n == self.metrics@.len(),
                *self == *old(self),
                forall|k: int| 0 <= k < i ==> metric_name(#[trigger] old(self)@[k]) != metric_name(m@),
            decreases n - i,
        {
            proof {
                assert(self@[i as int] == self.metrics@[i as int]@);
            }
            let same = *self.metrics[i].name() == *m.name();
            if same {
                return Err(RegistrationError { name: m.name().clone() });
            }
            i = i + 1;
        }
        self.metrics.push(m);
        proof {
            assert(final(self)@ =~= old(self)@.push(m@));
        }
        Ok(())
    }

    /// Renders every registered metric, in registration order.
    pub fn encode(&self) -> (s: String)
        requires
            registry_wf(self@),
        ensures
            s@ == registry_text(self@),
    {
        let mut out = String::new();
        let n = self.metrics.len();
        let mut i: usize = 0;
        while i < n
            invariant
                i <= n,
                n == self.metrics@.len(),
                registry_wf(self@),
                out@ == registry_text(self@.take(i as int)),
            decreases n - i,
        {
            proof {
                assert(self@[i as int] == self.metrics@[i as int]@);
                assert(metric_wf(self@[i as int]));
            }
            let m = &self.metrics[i];
            match m {
                Metric::Scalar(g) => {
                    append_scalar(&mut out, g);
                },
                Metric::Family(f) => {
                    append_family(&mut out, f);
                },
            }
            proof {
                assert(self@.take(i + 1 as int).drop_last() =~= self@.take(i as int));
                assert(self@.take(i + 1 as int).last() == self@[i as int]);
                assert(out@ == registry_text(self@.take(i + 1 as int)));
            }
            i = i + 1;
        }
        proof {
            assert(self@.take(n as int) =~= self@);
        }
        out
    }
}

/// Appends a scalar gauge's help line, type line and sample line.
fn append_scalar(out: &mut String, g: &ScalarGauge)
    ensures
        final(out)@ == old(out)@ + scalar_text(g@),
{
    out.append("# HELP ");
    out.append(g.name.as_str());
    out.append(" ");
    out.append(g.help.as_str());
    out.append("\n");
    out.append("# TYPE ");
    out.append(g.name.as_str());
    out.append(" gauge\n");
    out.append(g.name.as_str());
    out.append(" ");
    let v = i64_text(g.value);
    out.append(v.as_str());
    out.append("\n");
    proof {
        assert(out@ =~= old(out)@ + scalar_text(g@));
    }
}

/// Appends one labeled sample line.
fn append_sample(out: &mut String, name: &String, label_names: &Vec<String>, s: &Sample)
    requires
        s.label_values@.len() == label_names@.len(),
    ensures
        final(out)@ == old(out)@ + sample_text(name@, label_names.deep_view(), s@),
{
    out.append(name.as_str());
    out.append("{");
    let ghost names = label_names.deep_view();
    let ghost values = s@.label_values;
    let k = label_names.len();
    let mut j: usize = 0;
    while j < k
        invariant
            j <= k,
            k == label_names@.len(),
            k == s.label_values@.len(),
            names == label_names.deep_view(),
            values == s@.label_values,
            out@ == old(out)@ + name@ + "{"@ + label_pairs_text(
                names.take(j as int),
                values.take(j as int),
            ),
        decreases k - j,
    {
        if j > 0 {
            out.append(",");
        }
        out.append(label_names[j].as_str());
        out.append("=\"");
        append_escaped(out, s.label_values[j].as_str());
        out.append("\"");
        proof {
            assert(names[j as int] == label_names@[j as int]@);
            assert(values[j as int] == s.label_values@[j as int]@);
            assert(names.take(j + 1 as int).drop_last() =~= names.take(j as int));
            assert(values.take(j + 1 as int).drop_last() =~= values.take(j as int));
            assert(names.take(j + 1 as int).last() == names[j as int]);
            assert(values.take(j + 1 as int).last() == values[j as int]);
            if j == 0 {
                assert(label_pairs_text(names.take(1), values.take(1)) == label_pair_text(
                    names[0],
                    values[0],
                ));
                assert(out@ =~= old(out)@ + name@ + "{"@ + label_pairs_text(
                    names.take(j + 1 as int),
                    values.take(j + 1 as int),
                ));
            } else {
                assert(out@ =~= old(out)@ + name@ + "{"@ + label_pairs_text(
                    names.take(j + 1 as int),
                    values.take(j + 1 as int),
                ));
            }
        }
        j = j + 1;
    }
    out.append("} ");
    let v = i64_text(s.value);
    out.append(v.as_str());
    out.append("\n");
    proof {
        assert(names.take(k as int) =~= names);
        assert(values.take(k as int) =~= values);
        assert(out@ =~= old(out)@ + sample_text(name@, label_names.deep_view(), s@));
    }
}

/// Appends a gauge family's help line, type line and sample lines.
fn append_family(out: &mut String, f: &GaugeFamily)
    requires
        family_wf(f@),
    ensures
        final(out)@ == old(out)@ + family_text(f@),
{
    out.append("# HELP ");
    out.append(f.name.as_str());
    out.append(" ");
    out.append(f.help.as_str());
    out.append("\n");
    out.append("# TYPE ");
    out.append(f.name.as_str());
    out.append(" gauge\n");
    proof {
        assert(out@ =~= old(out)@ + help_line(f@.name, f@.help) + type_line(f@.name));
    }
    let ghost head = out@;
    let n = f.samples.len();
    let mut i: usize = 0;
    while i < n
        invariant
            i <= n,
            n == f.samples@.len(),
            family_wf(f@),
            out@ == head + samples_text(f@.name, f@.label_names, f@.samples.take(i as int)),
        decreases n - i,
    {
        proof {
            assert(f@.samples[i as int] == f.samples@[i as int]@);
        }
        append_sample(out, &f.name, &f.label_names, &f.samples[i]);
        proof {
            assert(f@.samples.take(i + 1 as int).drop_last() =~= f@.samples.take(i as int));
            assert(f@.samples.take(i + 1 as int).last() == f@.samples[i as int]);
            assert(out@ == head + samples_text(
                f@.name,
                f@.label_names,
                f@.samples.take(i + 1 as int),
            ));
        }
        i = i + 1;
    }
    proof {
        assert(f@.samples.take(n as int) =~= f@.samples);
        assert(out@ =~= old(out)@ + family_text(f@));
    }
}

} // verus!
