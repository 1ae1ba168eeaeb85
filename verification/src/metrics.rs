//! The instrumentation surface: typed counters and gauges that evaluators
//! may report to an (optional, external) flight-recorder collaborator.
//!
//! The core never reads the reported values; it only produces registration
//! records and metric values. Floating-point metric payloads are outside
//! this verified core.

use vstd::prelude::*;

verus! {

/// The kind of a registered metric.
#[derive(Clone, Copy, Debug, PartialEq, Eq, Structural)]
pub enum MetricKind {
    U64Gauge,
    I64Gauge,
    U64Counter,
    I64Counter,
}

/// A metric payload.
#[derive(Clone, Copy, Debug, PartialEq, Eq, Structural)]
pub enum MetricData {
    U64Value(u64),
    I64Value(i64),
}

/// A registration record handed to the flight recorder at process start.
#[derive(Clone, Copy, Debug)]
pub enum Registration {
    Metric { metric_id: u32, label: &'static str, kind: MetricKind },
}

/// One reported measurement.
#[derive(Clone, Copy, Debug, PartialEq, Eq, Structural)]
pub struct MetricValue {
    pub metric_id: u32,
    pub value: Option<MetricData>,
}

/// Trait for values that can be encoded as metric values.
pub trait IntoMetricValue: Sized {
    /// The payload this value encodes to.
    spec fn spec_metric_value(self) -> MetricData;

    fn into_metric_value(self) -> (r: MetricData)
        ensures
            r == self.spec_metric_value(),
    ;
}

impl IntoMetricValue for u64 {
    open spec fn spec_metric_value(self) -> MetricData {
        MetricData::U64Value(self)
    }

    fn into_metric_value(self) -> (r: MetricData)
        ensures
            r == self.spec_metric_value(),
    {
        MetricData::U64Value(self)
    }
}

impl IntoMetricValue for i64 {
    open spec fn spec_metric_value(self) -> MetricData {
        MetricData::I64Value(self)
    }

    fn into_metric_value(self) -> (r: MetricData)
        ensures
            r == self.spec_metric_value(),
    {
        MetricData::I64Value(self)
    }
}

/// Ties a metric-kind marker type to the kind tag it registers under.
pub trait MetricKindTrait<T: IntoMetricValue>: Sized {
    /// The kind tag this marker registers under.
    spec fn spec_kind() -> MetricKind;

    fn kind(t: core::marker::PhantomData<T>) -> (k: MetricKind)
        ensures
            k == Self::spec_kind(),
    ;
}

/// Marker for gauges: metrics whose latest value is reported.
pub struct GaugeKind;

/// Marker for counters: metrics whose values accumulate.
pub struct CounterKind;

impl MetricKindTrait<u64> for GaugeKind {
    open spec fn spec_kind() -> MetricKind {
        MetricKind::U64Gauge
    }

    fn kind(t: core::marker::PhantomData<u64>) -> (k: MetricKind)
        ensures
            k == <GaugeKind as MetricKindTrait<u64>>::spec_kind(),
    {
        MetricKind::U64Gauge
    }
}

impl MetricKindTrait<i64> for GaugeKind {
    open spec fn spec_kind() -> MetricKind {
        MetricKind::I64Gauge
    }

    fn kind(t: core::marker::PhantomData<i64>) -> (k: MetricKind)
        ensures
            k == <GaugeKind as MetricKindTrait<i64>>::spec_kind(),
    {
        MetricKind::I64Gauge
    }
}

impl MetricKindTrait<u64> for CounterKind {
    open spec fn spec_kind() -> MetricKind {
        MetricKind::U64Counter
    }

    fn kind(t: core::marker::PhantomData<u64>) -> (k: MetricKind)
        ensures
            k == <CounterKind as MetricKindTrait<u64>>::spec_kind(),
    {
        MetricKind::U64Counter
    }
}

impl MetricKindTrait<i64> for CounterKind {
    open spec fn spec_kind() -> MetricKind {
        MetricKind::I64Counter
    }

    fn kind(t: core::marker::PhantomData<i64>) -> (k: MetricKind)
        ensures
            k == <CounterKind as MetricKindTrait<i64>>::spec_kind(),
    {
        MetricKind::I64Counter
    }
}

/// A declared metric: a label, a small integer identifier, and a kind.
pub struct Metric<T, K> where T: IntoMetricValue, K: MetricKindTrait<T> {
    label: &'static str,
    metric_id: u32,
    _phantom: core::marker::PhantomData<(T, K)>,
}

impl<T, K> Metric<T, K> where T: IntoMetricValue, K: MetricKindTrait<T> {
    /// The label this metric was declared with.
    pub closed spec fn spec_label(&self) -> Seq<char> {
        self.label@
    }

    /// The identifier this metric was declared with.
    pub closed spec fn spec_metric_id(&self) -> u32 {
        self.metric_id
    }

    pub fn new(label: &'static str, metric_id: u32) -> (r: Self)
        ensures
            r.spec_label() == label@,
            r.spec_metric_id() == metric_id,
    {
        Metric { label, metric_id, _phantom: core::marker::PhantomData }
    }

    /// The registration record to hand to the flight recorder at startup.
    pub fn registration(self) -> (r: Registration)
        ensures
            r matches Registration::Metric { metric_id, label, kind }
                && metric_id == self.spec_metric_id()
                && label@ == self.spec_label()
                && kind == K::spec_kind(),
    {
        Registration::Metric {
            metric_id: self.metric_id,
            label: self.label,
            kind: K::kind(core::marker::PhantomData),
        }
    }

    /// One measurement of this metric.
    pub fn value(&self, value: T) -> (r: MetricValue)
        ensures
            r.metric_id == self.spec_metric_id(),
            r.value == Some(value.spec_metric_value()),
    {
        MetricValue {
            metric_id: self.metric_id,
            value: Some(value.into_metric_value()),
        }
    }
}

/// A gauge over the payload type `T`.
pub type Gauge<T> = Metric<T, GaugeKind>;

/// A counter over the payload type `T`.
pub type Counter<T> = Metric<T, CounterKind>;

} // verus!
