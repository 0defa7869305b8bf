//! The representative metric type: a structured ("object") metric whose
//! value is a canonicalized serialized document.
//!
//! Every operation follows the generic metric contract: mutations are
//! enqueued as tasks and never signal failure to the caller; validation
//! happens when the task executes; the test-only accessors drain the
//! queue first so asynchronous recording becomes observable.

use vstd::prelude::*;
use crate::common::{identifier_of, meta_well_formed, CommonMetricData, MetricMeta};
use crate::dispatcher::{enqueue_spec, DispatcherModel, DispatcherState, Task, TaskModel};
use crate::error::{num_errors_of, ErrorType};
use crate::glean::{apply_task, apply_tasks, glean_inv, Glean};
use crate::json::{json_canon, json_valid, value_text_of, value_to_text};
use crate::metric::{Metric, MetricModel, MergePolicy};
use crate::storage::{lookup_value, EntryModel};

verus! {

/// A structured metric.
///
/// The stored value is the canonical serialization of a structured
/// payload; schema validation is the concern of a higher layer.
#[derive(Clone, Debug)]
pub struct ObjectMetric {
    meta: CommonMetricData,
}

impl View for ObjectMetric {
    type V = MetricMeta;

    closed spec fn view(&self) -> MetricMeta {
        self.meta@
    }
}

/// The stored document text of the metric described by `meta` in `ping`.
pub open spec fn object_value_of(
    s: Seq<EntryModel>,
    meta: MetricMeta,
    ping: Seq<char>,
) -> Option<Seq<char>> {
    match lookup_value(s, ping, identifier_of(meta)) {
        Option::Some(MetricModel::Object(o)) => Option::Some(o),
        _ => Option::None,
    }
}

/// The task that setting the structured payload `v` produces: when `v`'s
/// serialization survives a re-parse, a recording of that text; otherwise
/// an `InvalidValue` error record.
pub open spec fn object_set_task(meta: MetricMeta, v: serde_json::Value) -> TaskModel {
    if json_valid(value_text_of(v)) {
        TaskModel::Record {
            meta: meta,
            value: MetricModel::Object(value_text_of(v)),
            policy: MergePolicy::Overwrite,
        }
    } else {
        TaskModel::RecordError { meta: meta, error: ErrorType::InvalidValue }
    }
}

impl ObjectMetric {
    /// Creates a new structured metric from its declaration.
    pub fn new(meta: CommonMetricData) -> (r: Self)
        requires
            meta_well_formed(meta@),
        ensures
            r@ == meta@,
    {
        ObjectMetric { meta }
    }

    /// The metric's declaration.
    pub fn meta(&self) -> (r: &CommonMetricData)
        ensures
            r@ == self@,
    {
        &self.meta
    }

    /// Records the structured value now, bypassing the queue: the worker
    /// side of [`ObjectMetric::set`].  Serialization failures record an
    /// `InvalidValue` error instead of a value.
    pub fn set_sync(&self, glean: &mut Glean, value: serde_json::Value)
        requires
            glean_inv(old(glean)@),
        ensures
            glean_inv(final(glean)@),
            final(glean)@.dispatcher == old(glean)@.dispatcher,
            final(glean)@.core == apply_task(old(glean)@.core, object_set_task(self@, value)),
            json_valid(value_text_of(value)) ==> json_canon(value_text_of(value)) == value_text_of(
                value,
            ),
    {
        match value_to_text(&value) {
            Option::Some(text) => {
                let t = Task::Record {
                    meta: self.meta.clone(),
                    value: Metric::Object(text),
                    policy: MergePolicy::Overwrite,
                };
                proof {
                    assert(t@ == object_set_task(self@, value));
                }
                glean.execute_task(t);
            },
            Option::None => {
                glean.execute_task(
                    Task::RecordError { meta: self.meta.clone(), error: ErrorType::InvalidValue },
                );
            },
        }
    }

    /// Sets the metric to the given structure: enqueues the recording
    /// and returns immediately.  The already-parsed payload is serialized
    /// eagerly — a pure in-memory step that neither blocks nor signals
    /// failure to the caller; validation of *textual* payloads stays on
    /// the worker (see [`ObjectMetric::set_str`]).
    pub fn set(&self, glean: &mut Glean, value: serde_json::Value)
        ensures
            final(glean)@.core == old(glean)@.core,
            final(glean)@.dispatcher == enqueue_spec(
                old(glean)@.dispatcher,
                object_set_task(self@, value),
            ),
            json_valid(value_text_of(value)) ==> json_canon(value_text_of(value)) == value_text_of(
                value,
            ),
    {
        match value_to_text(&value) {
            Option::Some(text) => {
                let t = Task::Record {
                    meta: self.meta.clone(),
                    value: Metric::Object(text),
                    policy: MergePolicy::Overwrite,
                };
                proof {
                    assert(t@ == object_set_task(self@, value));
                }
                glean.enqueue_task(t);
            },
            Option::None => {
                glean.enqueue_task(
                    Task::RecordError { meta: self.meta.clone(), error: ErrorType::InvalidValue },
                );
            },
        }
    }

    /// Sets the metric from a string in JSON encoding: the text is
    /// validated and canonicalized on the worker when the task executes,
    /// never on the calling thread.
    pub fn set_str(&self, glean: &mut Glean, value: String)
        ensures
            final(glean)@.core == old(glean)@.core,
            final(glean)@.dispatcher == enqueue_spec(
                old(glean)@.dispatcher,
                TaskModel::SetObjectRaw { meta: self@, text: value@ },
            ),
    {
        glean.enqueue_task(Task::SetObjectRaw { meta: self.meta.clone(), text: value });
    }

    /// Records an `InvalidValue` error for this metric, for callers that
    /// validate against a schema themselves.
    pub fn record_invalid_value(&self, glean: &mut Glean)
        ensures
            final(glean)@.core == old(glean)@.core,
            final(glean)@.dispatcher == enqueue_spec(
                old(glean)@.dispatcher,
                TaskModel::RecordError { meta: self@, error: ErrorType::InvalidValue },
            ),
    {
        glean.enqueue_task(
            Task::RecordError { meta: self.meta.clone(), error: ErrorType::InvalidValue },
        );
    }

    /// The current stored value in the queried ping (the first declared
    /// ping when none is given), without draining the queue.
    pub fn get_value(&self, glean: &Glean, ping_name: Option<&String>) -> (r: Option<String>)
        requires
            meta_well_formed(self@),
        ensures
            r.deep_view() == object_value_of(
                glean@.core.storage,
                self@,
                match ping_name {
                    Option::Some(p) => p@,
                    Option::None => self@.send_in_pings[0],
                },
            ),
    {
        let ping = match ping_name {
            Option::Some(p) => p.clone(),
            Option::None => self.meta.first_ping(),
        };
        let id = self.meta.identifier();
        match glean.storage().get(&ping, &id) {
            Option::Some(Metric::Object(o)) => Option::Some(o),
            _ => Option::None,
        }
    }

    /// **Test-only.**  Drains the queue until it is idle, then reads the
    /// stored serialized document; the stored value is not cleared.
    pub fn test_get_value(&self, glean: &mut Glean, ping_name: Option<String>) -> (r: Option<
        String,
    >)
        requires
            meta_well_formed(self@),
            glean_inv(old(glean)@),
        ensures
            glean_inv(final(glean)@),
            old(glean)@.dispatcher.state == DispatcherState::Live ==> final(glean)@.core
                == apply_tasks(old(glean)@.core, old(glean)@.dispatcher.queue)
                && final(glean)@.dispatcher == (DispatcherModel {
                queue: Seq::<TaskModel>::empty(),
                ..old(glean)@.dispatcher
            }),
            old(glean)@.dispatcher.state != DispatcherState::Live
                ==> final(glean)@ == old(glean)@,
            r.deep_view() == object_value_of(
                final(glean)@.core.storage,
                self@,
                match ping_name {
                    Option::Some(p) => p@,
                    Option::None => self@.send_in_pings[0],
                },
            ),
    {
        glean.process_pending();
        match ping_name {
            Option::Some(p) => self.get_value(glean, Option::Some(&p)),
            Option::None => self.get_value(glean, Option::None),
        }
    }

    /// **Test-only.**  Drains the queue until it is idle, then reads the
    /// number of errors of the given kind recorded for this metric in its
    /// first ping.
    pub fn test_get_num_recorded_errors(&self, glean: &mut Glean, error: ErrorType) -> (r: i32)
        requires
            meta_well_formed(self@),
            glean_inv(old(glean)@),
        ensures
            glean_inv(final(glean)@),
            old(glean)@.dispatcher.state == DispatcherState::Live ==> final(glean)@.core
                == apply_tasks(old(glean)@.core, old(glean)@.dispatcher.queue)
                && final(glean)@.dispatcher == (DispatcherModel {
                queue: Seq::<TaskModel>::empty(),
                ..old(glean)@.dispatcher
            }),
            old(glean)@.dispatcher.state != DispatcherState::Live
                ==> final(glean)@ == old(glean)@,
            r as int == num_errors_of(
                final(glean)@.core.storage,
                error,
                self@,
                self@.send_in_pings[0],
            ),
    {
        glean.process_pending();
        let ping = self.meta.first_ping();
        crate::error::get_num_errors(glean.storage(), &self.meta, error, &ping)
    }
}

} // verus!
