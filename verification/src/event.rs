//! Timing events: one measurement each, stamped with the time at which it
//! was seen.

use crate::duration::Duration;
use vstd::prelude::*;

verus! {

/// One measurement reported by a running job. `timestamp` is the time
/// since the start of the sweep at which the report was seen, `time` the
/// measured span: always above zero in an event that extraction made.
#[derive(Clone, Debug, PartialEq, Eq)]
pub enum BenchmarkEvent {
    /// One forward and backward pass, of iteration `iteration`.
    IterForwardBackward { timestamp: Duration, iteration: u32, time: Duration },
    /// The forward pass of the layer named `layer`.
    LayerForward { timestamp: Duration, layer: String, time: Duration },
    /// The backward pass of the layer named `layer`.
    LayerBackward { timestamp: Duration, layer: String, time: Duration },
    /// The mean forward pass over the run.
    AvgForward { timestamp: Duration, time: Duration },
    /// The mean backward pass over the run.
    AvgBackward { timestamp: Duration, time: Duration },
    /// The mean forward and backward pass over the run.
    AvgForwardBackward { timestamp: Duration, time: Duration },
}

/// An event as plain values: spans in nanoseconds, names as characters.
pub enum EventModel {
    IterForwardBackward { timestamp: nat, iteration: u32, time: nat },
    LayerForward { timestamp: nat, layer: Seq<char>, time: nat },
    LayerBackward { timestamp: nat, layer: Seq<char>, time: nat },
    AvgForward { timestamp: nat, time: nat },
    AvgBackward { timestamp: nat, time: nat },
    AvgForwardBackward { timestamp: nat, time: nat },
}

impl EventModel {
    /// The measured span, in nanoseconds.
    pub open spec fn time(self) -> nat {
        match self {
            EventModel::IterForwardBackward { time, .. } => time,
            EventModel::LayerForward { time, .. } => time,
            EventModel::LayerBackward { time, .. } => time,
            EventModel::AvgForward { time, .. } => time,
            EventModel::AvgBackward { time, .. } => time,
            EventModel::AvgForwardBackward { time, .. } => time,
        }
    }

    /// The time at which the event was seen, in nanoseconds.
    pub open spec fn timestamp(self) -> nat {
        match self {
            EventModel::IterForwardBackward { timestamp, .. } => timestamp,
            EventModel::LayerForward { timestamp, .. } => timestamp,
            EventModel::LayerBackward { timestamp, .. } => timestamp,
            EventModel::AvgForward { timestamp, .. } => timestamp,
            EventModel::AvgBackward { timestamp, .. } => timestamp,
            EventModel::AvgForwardBackward { timestamp, .. } => timestamp,
        }
    }
}

impl View for BenchmarkEvent {
    type V = EventModel;

    open spec fn view(&self) -> EventModel {
        match self {
            BenchmarkEvent::IterForwardBackward { timestamp, iteration, time } => {
                EventModel::IterForwardBackward {
                    timestamp: timestamp@,
                    iteration: *iteration,
                    time: time@,
                }
            },
            BenchmarkEvent::LayerForward { timestamp, layer, time } => EventModel::LayerForward {
                timestamp: timestamp@,
                layer: layer@,
                time: time@,
            },
            BenchmarkEvent::LayerBackward { timestamp, layer, time } => EventModel::LayerBackward {
                timestamp: timestamp@,
                layer: layer@,
                time: time@,
            },
            BenchmarkEvent::AvgForward { timestamp, time } => EventModel::AvgForward {
                timestamp: timestamp@,
                time: time@,
            },
            BenchmarkEvent::AvgBackward { timestamp, time } => EventModel::AvgBackward {
                timestamp: timestamp@,
                time: time@,
            },
            BenchmarkEvent::AvgForwardBackward { timestamp, time } => {
                EventModel::AvgForwardBackward { timestamp: timestamp@, time: time@ }
            },
        }
    }
}

impl DeepView for BenchmarkEvent {
    type V = EventModel;

    open spec fn deep_view(&self) -> EventModel {
        self@
    }
}

impl BenchmarkEvent {
    /// The measured span.
    pub fn time(&self) -> (span: Duration)
        ensures
            span@ == self@.time(),
    {
        match self {
            BenchmarkEvent::IterForwardBackward { time, .. } => *time,
            BenchmarkEvent::LayerForward { time, .. } => *time,
            BenchmarkEvent::LayerBackward { time, .. } => *time,
            BenchmarkEvent::AvgForward { time, .. } => *time,
            BenchmarkEvent::AvgBackward { time, .. } => *time,
            BenchmarkEvent::AvgForwardBackward { time, .. } => *time,
        }
    }

    /// The time at which the event was seen.
    pub fn timestamp(&self) -> (seen: Duration)
        ensures
            seen@ == self@.timestamp(),
    {
        match self {
            BenchmarkEvent::IterForwardBackward { timestamp, .. } => *timestamp,
            BenchmarkEvent::LayerForward { timestamp, .. } => *timestamp,
            BenchmarkEvent::LayerBackward { timestamp, .. } => *timestamp,
            BenchmarkEvent::AvgForward { timestamp, .. } => *timestamp,
            BenchmarkEvent::AvgBackward { timestamp, .. } => *timestamp,
            BenchmarkEvent::AvgForwardBackward { timestamp, .. } => *timestamp,
        }
    }
}

} // verus!
