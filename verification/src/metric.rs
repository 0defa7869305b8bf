//! The tagged value shapes a metric can store.

use vstd::prelude::*;

verus! {

/// A stored metric value.
///
/// The `Object` variant holds a canonicalized serialized document rather
/// than a typed structure: schema validation is the concern of a higher
/// layer, the engine only stores and returns the canonical text.
#[derive(Debug, PartialEq)]
pub enum Metric {
    Boolean(bool),
    Counter(i32),
    Text(String),
    Object(String),
}

/// Mathematical model of a [`Metric`]: strings become character sequences.
pub enum MetricModel {
    Boolean(bool),
    Counter(i32),
    Text(Seq<char>),
    Object(Seq<char>),
}

impl Clone for Metric {
    fn clone(&self) -> (r: Self)
        ensures
            r@ == self@,
    {
        match self {
            Metric::Boolean(b) => Metric::Boolean(*b),
            Metric::Counter(c) => Metric::Counter(*c),
            Metric::Text(s) => Metric::Text(s.clone()),
            Metric::Object(s) => Metric::Object(s.clone()),
        }
    }
}

impl View for Metric {
    type V = MetricModel;

    open spec fn view(&self) -> MetricModel {
        match self {
            Metric::Boolean(b) => MetricModel::Boolean(*b),
            Metric::Counter(c) => MetricModel::Counter(*c),
            Metric::Text(s) => MetricModel::Text(s@),
            Metric::Object(s) => MetricModel::Object(s@),
        }
    }
}

/// How a write combines with a value already stored under the same key.
#[derive(Clone, Copy, Debug, PartialEq, Eq, Structural)]
pub enum MergePolicy {
    /// Overwrite whatever was stored before.
    Overwrite,
    /// Accumulate: counters add (saturating); for any other pairing the
    /// new value overwrites.
    Accumulate,
}

/// What accumulating `new` onto `prior` stores.
///
/// Counter accumulation saturates at the representable bounds; the engine
/// reports the saturation separately as an overflow error.
pub open spec fn merged_value(prior: Option<MetricModel>, new: MetricModel, policy: MergePolicy) -> MetricModel {
    match policy {
        MergePolicy::Overwrite => new,
        MergePolicy::Accumulate => match (prior, new) {
            (Option::Some(MetricModel::Counter(a)), MetricModel::Counter(b)) => {
                if a + b > i32::MAX {
                    MetricModel::Counter(i32::MAX)
                } else if a + b < i32::MIN {
                    MetricModel::Counter(i32::MIN)
                } else {
                    MetricModel::Counter((a + b) as i32)
                }
            },
            (_, n) => n,
        },
    }
}

/// Whether accumulating `new` onto `prior` overflows the counter range.
pub open spec fn merge_overflows(prior: Option<MetricModel>, new: MetricModel, policy: MergePolicy) -> bool {
    match policy {
        MergePolicy::Overwrite => false,
        MergePolicy::Accumulate => match (prior, new) {
            (Option::Some(MetricModel::Counter(a)), MetricModel::Counter(b)) => a + b > i32::MAX
                || a + b < i32::MIN,
            _ => false,
        },
    }
}

/// Executable merge, proved against [`merged_value`]; the second result
/// reports whether the accumulation overflowed (see [`merge_overflows`]).
pub fn merge_metric(prior: Option<&Metric>, new: Metric, policy: MergePolicy) -> (r: (
    Metric,
    bool,
))
    ensures
        r.0@ == merged_value(prior_model(prior), new@, policy),
        r.1 == merge_overflows(prior_model(prior), new@, policy),
{
    match policy {
        MergePolicy::Overwrite => (new, false),
        MergePolicy::Accumulate => {
            match (prior, &new) {
                (Option::Some(Metric::Counter(a)), Metric::Counter(b)) => {
                    match (*a).checked_add(*b) {
                        Option::Some(c) => (Metric::Counter(c), false),
                        Option::None => {
                            if *b >= 0 {
                                (Metric::Counter(i32::MAX), true)
                            } else {
                                (Metric::Counter(i32::MIN), true)
                            }
                        },
                    }
                },
                _ => (new, false),
            }
        },
    }
}

/// The model of an optional prior value.
pub open spec fn prior_model(prior: Option<&Metric>) -> Option<MetricModel> {
    match prior {
        Option::Some(p) => Option::Some(p@),
        Option::None => Option::None,
    }
}

} // verus!
