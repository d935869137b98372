use driver::config::RunConfig;
use driver::duration::Duration;
use driver::event::BenchmarkEvent;
use driver::tabulate::{
    average_records, averages, failed_records, Aggregate, Averages, MissingAggregate,
    RunAverageRecord, RunErrorRecord, RunResult,
};

fn ms(millis: u32) -> Duration {
    Duration::new(0, millis * 1_000_000).unwrap()
}

fn at() -> Duration {
    Duration::new(1, 0).unwrap()
}

fn forward(millis: u32) -> BenchmarkEvent {
    BenchmarkEvent::AvgForward { timestamp: at(), time: ms(millis) }
}

fn backward(millis: u32) -> BenchmarkEvent {
    BenchmarkEvent::AvgBackward { timestamp: at(), time: ms(millis) }
}

fn total(millis: u32) -> BenchmarkEvent {
    BenchmarkEvent::AvgForwardBackward { timestamp: at(), time: ms(millis) }
}

fn layer(millis: u32) -> BenchmarkEvent {
    BenchmarkEvent::LayerForward { timestamp: at(), layer: "conv1".to_string(), time: ms(millis) }
}

fn iteration(millis: u32) -> BenchmarkEvent {
    BenchmarkEvent::IterForwardBackward { timestamp: at(), iteration: 3, time: ms(millis) }
}

fn job(gpu: u32) -> RunConfig {
    RunConfig { container: "benchmark-cct".to_string(), net: "cifar10_quick".to_string(), batch_size: 64, gpu }
}

fn ok(gpu: u32, events: Vec<BenchmarkEvent>) -> RunResult {
    RunResult { config: job(gpu), result: Ok(events) }
}

fn failed(gpu: u32, text: &str) -> RunResult {
    RunResult { config: job(gpu), result: Err(text.to_string()) }
}

#[test]
fn the_three_averages_are_found_among_other_events() {
    let events = vec![iteration(9), layer(8), forward(1), layer(7), backward(2), total(3), iteration(6)];
    assert_eq!(
        averages(&events),
        Ok(Averages { forward: ms(1), backward: ms(2), total: ms(3) })
    );
}

#[test]
fn an_average_reported_twice_is_taken_at_its_last_word() {
    let events = vec![forward(1), backward(2), total(3), total(30), forward(10)];
    assert_eq!(
        averages(&events),
        Ok(Averages { forward: ms(10), backward: ms(2), total: ms(30) })
    );
}

#[test]
fn an_average_that_is_not_reported_is_missed() {
    assert_eq!(averages(&vec![]), Err(Aggregate::Forward));
    assert_eq!(averages(&vec![backward(2), total(3)]), Err(Aggregate::Forward));
    assert_eq!(averages(&vec![forward(1), total(3)]), Err(Aggregate::Backward));
    assert_eq!(averages(&vec![forward(1), backward(2)]), Err(Aggregate::Total));
    assert_eq!(averages(&vec![total(3)]), Err(Aggregate::Forward));
    assert_eq!(averages(&vec![forward(1), layer(2), iteration(3)]), Err(Aggregate::Backward));
}

#[test]
fn failed_jobs_make_the_rows_of_the_first_table() {
    let results = vec![
        failed(0, "child process unexpectedly terminated"),
        ok(1, vec![forward(1), backward(2), total(3)]),
        failed(2, "child process terminated with non-zero exit code 1"),
        ok(3, vec![]),
    ];
    assert_eq!(
        failed_records(&results),
        vec![
            RunErrorRecord {
                container: "benchmark-cct".to_string(),
                net: "cifar10_quick".to_string(),
                batch_size: 64,
                gpu: 0,
                error: "child process unexpectedly terminated".to_string(),
            },
            RunErrorRecord {
                container: "benchmark-cct".to_string(),
                net: "cifar10_quick".to_string(),
                batch_size: 64,
                gpu: 2,
                error: "child process terminated with non-zero exit code 1".to_string(),
            },
        ]
    );
    assert_eq!(failed_records(&vec![]), vec![]);
    assert_eq!(failed_records(&vec![ok(0, vec![])]), vec![]);
}

#[test]
fn jobs_that_succeeded_make_the_rows_of_the_second_table() {
    let results = vec![
        ok(0, vec![forward(1), backward(2), total(3)]),
        failed(1, "child process unexpectedly terminated"),
        ok(2, vec![total(6), layer(1), backward(5), forward(4)]),
    ];
    assert_eq!(
        average_records(&results),
        Ok(vec![
            RunAverageRecord {
                container: "benchmark-cct".to_string(),
                net: "cifar10_quick".to_string(),
                batch_size: 64,
                gpu: 0,
                forward: ms(1),
                backward: ms(2),
                total: ms(3),
            },
            RunAverageRecord {
                container: "benchmark-cct".to_string(),
                net: "cifar10_quick".to_string(),
                batch_size: 64,
                gpu: 2,
                forward: ms(4),
                backward: ms(5),
                total: ms(6),
            },
        ])
    );
    assert_eq!(average_records(&vec![]), Ok(vec![]));
    assert_eq!(average_records(&vec![failed(0, "x")]), Ok(vec![]));
}

#[test]
fn a_job_that_succeeded_without_an_average_is_a_fault() {
    let results = vec![
        ok(0, vec![forward(1), backward(2), total(3)]),
        failed(1, "x"),
        ok(2, vec![forward(1), total(3)]),
        ok(3, vec![]),
    ];
    assert_eq!(
        average_records(&results),
        Err(MissingAggregate { job: 2, which: Aggregate::Backward })
    );
    assert_eq!(
        average_records(&vec![ok(7, vec![])]),
        Err(MissingAggregate { job: 0, which: Aggregate::Forward })
    );
}
