//! From the results of a sweep to the rows of its two tables: the jobs that
//! failed, each with the description of its failure, and the jobs that
//! succeeded, each with its three mean times.

use crate::config::{RunConfig, RunConfigModel};
use crate::duration::Duration;
use crate::event::{BenchmarkEvent, EventModel};
use vstd::prelude::*;

verus! {

/// What one job gave: its events, or the description of its failure.
#[derive(Debug, PartialEq, Eq)]
pub struct RunResult {
    pub config: RunConfig,
    pub result: Result<Vec<BenchmarkEvent>, String>,
}

/// The result of a job as plain values.
pub struct RunResultModel {
    pub config: RunConfigModel,
    pub result: Result<Seq<EventModel>, Seq<char>>,
}

impl View for RunResult {
    type V = RunResultModel;

    open spec fn view(&self) -> RunResultModel {
        RunResultModel {
            config: self.config@,
            result: match self.result {
                Ok(events) => Ok(events.deep_view()),
                Err(text) => Err(text@),
            },
        }
    }
}

impl DeepView for RunResult {
    type V = RunResultModel;

    open spec fn deep_view(&self) -> RunResultModel {
        self@
    }
}

/// The three mean times that a job reports at its end.
#[derive(Clone, Copy, Debug, PartialEq, Eq, Structural)]
pub enum Aggregate {
    Forward,
    Backward,
    Total,
}

/// Whether `event` reports the mean time `which`.
pub open spec fn reports(event: EventModel, which: Aggregate) -> bool {
    match which {
        Aggregate::Forward => event is AvgForward,
        Aggregate::Backward => event is AvgBackward,
        Aggregate::Total => event is AvgForwardBackward,
    }
}

/// The mean time `which` that `events` report, in nanoseconds: that of the
/// last event that reports it, if any does.
pub open spec fn last_average(events: Seq<EventModel>, which: Aggregate) -> Option<nat>
    decreases events.len(),
{
    if events.len() == 0 {
        None
    } else if reports(events.last(), which) {
        Some(events.last().time())
    } else {
        last_average(events.drop_last(), which)
    }
}

/// The mean times of one job.
#[derive(Clone, Copy, Debug, PartialEq, Eq)]
pub struct Averages {
    pub forward: Duration,
    pub backward: Duration,
    pub total: Duration,
}

/// The mean times of one job, in nanoseconds.
pub struct AveragesModel {
    pub forward: nat,
    pub backward: nat,
    pub total: nat,
}

impl View for Averages {
    type V = AveragesModel;

    open spec fn view(&self) -> AveragesModel {
        AveragesModel { forward: self.forward@, backward: self.backward@, total: self.total@ }
    }
}

/// The three mean times that `events` report, or the first of the three
/// that they do not report.
pub open spec fn averages_of(events: Seq<EventModel>) -> Result<AveragesModel, Aggregate> {
    match last_average(events, Aggregate::Forward) {
        None => Err(Aggregate::Forward),
        Some(forward) => match last_average(events, Aggregate::Backward) {
            None => Err(Aggregate::Backward),
            Some(backward) => match last_average(events, Aggregate::Total) {
                None => Err(Aggregate::Total),
                Some(total) => Ok(AveragesModel { forward, backward, total }),
            },
        },
    }
}

/// The three mean times among the events of a job. A job that reports one
/// of them more than once is taken at its last word; a job that does not
/// report one of them is at fault.
pub fn averages(events: &Vec<BenchmarkEvent>) -> (found: Result<Averages, Aggregate>)
    ensures
        match found {
            Ok(means) => averages_of(events.deep_view()) == Ok::<AveragesModel, Aggregate>(
                means@,
            ),
            Err(missing) => averages_of(events.deep_view()) == Err::<AveragesModel, Aggregate>(
                missing,
            ),
        },
{
    let ghost models = events.deep_view();
    let mut forward: Option<Duration> = None;
    let mut backward: Option<Duration> = None;
    let mut total: Option<Duration> = None;
    let mut i: usize = 0;
    while i < events.len()
        invariant
            i <= events.len(),
            models == events.deep_view(),
            span_of(forward) == last_average(models.take(i as int), Aggregate::Forward),
            span_of(backward) == last_average(models.take(i as int), Aggregate::Backward),
            span_of(total) == last_average(models.take(i as int), Aggregate::Total),
        decreases events.len() - i,
    {
        assert(models.take(i + 1).drop_last() =~= models.take(i as int));
        assert(models.take(i + 1).last() == events[i as int]@);
        match &events[i] {
            BenchmarkEvent::AvgForward { time, .. } => {
                forward = Some(*time);
            },
            BenchmarkEvent::AvgBackward { time, .. } => {
                backward = Some(*time);
            },
            BenchmarkEvent::AvgForwardBackward { time, .. } => {
                total = Some(*time);
            },
            _ => {},
        }
        i += 1;
    }
    assert(models.take(events.len() as int) =~= models);
    match forward {
        None => Err(Aggregate::Forward),
        Some(forward) => match backward {
            None => Err(Aggregate::Backward),
            Some(backward) => match total {
                None => Err(Aggregate::Total),
                Some(total) => Ok(Averages { forward, backward, total }),
            },
        },
    }
}

/// The span in nanoseconds, if there is one.
pub open spec fn span_of(span: Option<Duration>) -> Option<nat> {
    match span {
        Some(d) => Some(d@),
        None => None,
    }
}

/// A row of the table of failed jobs.
#[derive(Clone, Debug, PartialEq, Eq)]
pub struct RunErrorRecord {
    pub container: String,
    pub net: String,
    pub batch_size: u32,
    pub gpu: u32,
    pub error: String,
}

/// A row of the table of failed jobs as plain values.
pub struct RunErrorRecordModel {
    pub config: RunConfigModel,
    pub error: Seq<char>,
}

impl View for RunErrorRecord {
    type V = RunErrorRecordModel;

    open spec fn view(&self) -> RunErrorRecordModel {
        RunErrorRecordModel {
            config: RunConfigModel {
                container: self.container@,
                net: self.net@,
                batch_size: self.batch_size,
                gpu: self.gpu,
            },
            error: self.error@,
        }
    }
}

impl DeepView for RunErrorRecord {
    type V = RunErrorRecordModel;

    open spec fn deep_view(&self) -> RunErrorRecordModel {
        self@
    }
}

/// A row of the table of jobs that succeeded.
#[derive(Clone, Debug, PartialEq, Eq)]
pub struct RunAverageRecord {
    pub container: String,
    pub net: String,
    pub batch_size: u32,
    pub gpu: u32,
    pub forward: Duration,
    pub backward: Duration,
    pub total: Duration,
}

/// A row of the table of jobs that succeeded as plain values.
pub struct RunAverageRecordModel {
    pub config: RunConfigModel,
    pub means: AveragesModel,
}

impl View for RunAverageRecord {
    type V = RunAverageRecordModel;

    open spec fn view(&self) -> RunAverageRecordModel {
        RunAverageRecordModel {
            config: RunConfigModel {
                container: self.container@,
                net: self.net@,
                batch_size: self.batch_size,
                gpu: self.gpu,
            },
            means: AveragesModel {
                forward: self.forward@,
                backward: self.backward@,
                total: self.total@,
            },
        }
    }
}

impl DeepView for RunAverageRecord {
    type V = RunAverageRecordModel;

    open spec fn deep_view(&self) -> RunAverageRecordModel {
        self@
    }
}

/// A job that succeeded without reporting one of its mean times.
#[derive(Clone, Copy, Debug, PartialEq, Eq, Structural)]
pub struct MissingAggregate {
    /// The place of the job among the results, counted from 0.
    pub job: usize,
    /// The first mean time that it lacks.
    pub which: Aggregate,
}

/// The rows of the table of failed jobs: one for each result that is a
/// failure, in the order of the results.
pub open spec fn error_rows(results: Seq<RunResultModel>) -> Seq<RunErrorRecordModel>
    decreases results.len(),
{
    if results.len() == 0 {
        Seq::empty()
    } else {
        let before = error_rows(results.drop_last());
        match results.last().result {
            Err(error) => before.push(RunErrorRecordModel { config: results.last().config, error }),
            Ok(_) => before,
        }
    }
}

/// The rows of the table of jobs that succeeded: one for each result that
/// holds events, in the order of the results. The first such result that
/// lacks a mean time is a fault, and then there are no rows.
pub open spec fn average_rows(results: Seq<RunResultModel>) -> Result<
    Seq<RunAverageRecordModel>,
    MissingAggregate,
>
    decreases results.len(),
{
    if results.len() == 0 {
        Ok(Seq::empty())
    } else {
        match average_rows(results.drop_last()) {
            Err(fault) => Err(fault),
            Ok(before) => match results.last().result {
                Err(_) => Ok(before),
                Ok(events) => match averages_of(events) {
                    Err(which) => Err(
                        MissingAggregate { job: (results.len() - 1) as usize, which },
                    ),
                    Ok(means) => Ok(
                        before.push(RunAverageRecordModel { config: results.last().config, means }),
                    ),
                },
            },
        }
    }
}

/// The rows of the table of failed jobs.
pub fn failed_records(results: &Vec<RunResult>) -> (rows: Vec<RunErrorRecord>)
    ensures
        rows.deep_view() == error_rows(results.deep_view()),
{
    let ghost models = results.deep_view();
    let mut rows: Vec<RunErrorRecord> = Vec::new();
    let mut i: usize = 0;
    assert(rows.deep_view() =~= error_rows(models.take(0)));
    while i < results.len()
        invariant
            i <= results.len(),
            models == results.deep_view(),
            rows.deep_view() == error_rows(models.take(i as int)),
        decreases results.len() - i,
    {
        assert(models.take(i + 1).drop_last() =~= models.take(i as int));
        assert(models.take(i + 1).last() == results[i as int]@);
        let entry = &results[i];
        match &entry.result {
            Err(text) => {
                let ghost before = rows.deep_view();
                let row = RunErrorRecord {
                    container: entry.config.container.clone(),
                    net: entry.config.net.clone(),
                    batch_size: entry.config.batch_size,
                    gpu: entry.config.gpu,
                    error: text.clone(),
                };
                rows.push(row);
                assert(rows.deep_view() =~= before.push(row@));
            },
            Ok(_) => {},
        }
        i += 1;
    }
    assert(models.take(results.len() as int) =~= models);
    rows
}

/// The rows of the table of jobs that succeeded.
pub fn average_records(results: &Vec<RunResult>) -> (rows: Result<
    Vec<RunAverageRecord>,
    MissingAggregate,
>)
    ensures
        match rows {
            Ok(rows) => average_rows(results.deep_view()) == Ok::<
                Seq<RunAverageRecordModel>,
                MissingAggregate,
            >(rows.deep_view()),
            Err(fault) => average_rows(results.deep_view()) == Err::<
                Seq<RunAverageRecordModel>,
                MissingAggregate,
            >(fault),
        },
{
    let ghost models = results.deep_view();
    let mut rows: Vec<RunAverageRecord> = Vec::new();
    let mut i: usize = 0;
    assert(rows.deep_view() =~= Seq::<RunAverageRecordModel>::empty());
    while i < results.len()
        invariant
            i <= results.len(),
            models == results.deep_view(),
            average_rows(models.take(i as int)) == Ok::<
                Seq<RunAverageRecordModel>,
                MissingAggregate,
            >(rows.deep_view()),
        decreases results.len() - i,
    {
        assert(models.take(i + 1).drop_last() =~= models.take(i as int));
        assert(models.take(i + 1).last() == results[i as int]@);
        let entry = &results[i];
        match &entry.result {
            Err(_) => {},
            Ok(events) => match averages(events) {
                Err(which) => {
                    proof {
                        lemma_fault_stays(models, i + 1);
                    }
                    return Err(MissingAggregate { job: i, which });
                },
                Ok(means) => {
                    let ghost before = rows.deep_view();
                    let row = RunAverageRecord {
                        container: entry.config.container.clone(),
                        net: entry.config.net.clone(),
                        batch_size: entry.config.batch_size,
                        gpu: entry.config.gpu,
                        forward: means.forward,
                        backward: means.backward,
                        total: means.total,
                    };
                    rows.push(row);
                    assert(rows.deep_view() =~= before.push(row@));
                },
            },
        }
        i += 1;
    }
    assert(models.take(results.len() as int) =~= models);
    Ok(rows)
}

/// Every job has its row: where no job that succeeded lacks a mean time,
/// the two tables together have as many rows as there are results.
pub proof fn lemma_every_job_has_its_row(results: Seq<RunResultModel>)
    requires
        average_rows(results) is Ok,
    ensures
        error_rows(results).len() + average_rows(results).unwrap().len() == results.len(),
    decreases results.len(),
{
    if results.len() > 0 {
        lemma_every_job_has_its_row(results.drop_last());
    }
}

/// A fault among the first results is the fault of all of them.
pub proof fn lemma_fault_stays(results: Seq<RunResultModel>, upto: int)
    requires
        0 <= upto <= results.len(),
        average_rows(results.take(upto)) is Err,
    ensures
        average_rows(results) == average_rows(results.take(upto)),
    decreases results.len() - upto,
{
    if upto == results.len() {
        assert(results.take(upto) =~= results);
    } else {
        assert(results.drop_last().take(upto) =~= results.take(upto));
        lemma_fault_stays(results.drop_last(), upto);
    }
}

} // verus!
