use driver::config::RunConfig;
use driver::duration::Duration;
use driver::event::BenchmarkEvent;
use driver::sweep::{configurations, plan_sweep, Sweep};
use driver::tabulate::RunResult;

fn names(values: &[&str]) -> Vec<String> {
    values.iter().map(|v| v.to_string()).collect()
}

fn job(container: &str, gpu: u32, net: &str, batch_size: u32) -> RunConfig {
    RunConfig { container: container.to_string(), net: net.to_string(), batch_size, gpu }
}

fn sorted(mut jobs: Vec<RunConfig>) -> Vec<(String, u32, String, u32)> {
    let mut keys: Vec<(String, u32, String, u32)> =
        jobs.drain(..).map(|j| (j.container, j.gpu, j.net, j.batch_size)).collect();
    keys.sort();
    keys
}

fn small() -> (Vec<String>, Vec<u32>, Vec<String>, Vec<u32>) {
    (
        names(&["benchmark-caffe", "benchmark-cct"]),
        vec![0, 1],
        names(&["alexnet", "cifar10_quick"]),
        vec![1, 2, 4],
    )
}

#[test]
fn a_space_of_two_two_two_and_three_has_twenty_four_jobs() {
    let (containers, gpus, nets, batch_sizes) = small();
    let grid = configurations(&containers, &gpus, &nets, &batch_sizes);
    assert_eq!(grid.len(), 24);
    for (i, first) in grid.iter().enumerate() {
        for second in &grid[i + 1..] {
            assert_ne!(first, second);
            assert!(!first.same_as(second));
        }
    }
    for container in &containers {
        for gpu in &gpus {
            for net in &nets {
                for batch_size in &batch_sizes {
                    let wanted = job(container, *gpu, net, *batch_size);
                    assert_eq!(grid.iter().filter(|j| **j == wanted).count(), 1);
                }
            }
        }
    }
}

#[test]
fn a_sweep_of_two_two_two_and_three_gives_twenty_four_results() {
    let (containers, gpus, nets, batch_sizes) = small();
    let plan = plan_sweep(&containers, &gpus, &nets, &batch_sizes);
    assert_eq!(plan.len(), 24);
    assert_eq!(
        sorted(plan.clone()),
        sorted(configurations(&containers, &gpus, &nets, &batch_sizes))
    );
    let mut sweep = Sweep::new(plan.clone());
    let mut runs = 0;
    while let Some(config) = sweep.next() {
        assert_eq!(config, plan[runs]);
        runs += 1;
        sweep = sweep.record(Err(format!("job {}", runs)));
    }
    assert_eq!(runs, 24);
    let results: Vec<RunResult> = sweep.finish().unwrap();
    assert_eq!(results.len(), 24);
    for (i, result) in results.iter().enumerate() {
        assert_eq!(result.config, plan[i]);
        assert_eq!(result.result, Err(format!("job {}", i + 1)));
    }
    let configs: Vec<RunConfig> = results.iter().map(|r| r.config.duplicate()).collect();
    let keys = sorted(configs);
    for pair in keys.windows(2) {
        assert_ne!(pair[0], pair[1]);
    }
    assert_eq!(keys, sorted(configurations(&containers, &gpus, &nets, &batch_sizes)));
}

#[test]
fn batch_sizes_change_fastest_and_containers_slowest() {
    let grid = configurations(&names(&["a", "b"]), &vec![0, 1], &names(&["x", "y"]), &vec![8, 16]);
    let expected = vec![
        job("a", 0, "x", 8),
        job("a", 0, "x", 16),
        job("a", 0, "y", 8),
        job("a", 0, "y", 16),
        job("a", 1, "x", 8),
        job("a", 1, "x", 16),
        job("a", 1, "y", 8),
        job("a", 1, "y", 16),
        job("b", 0, "x", 8),
        job("b", 0, "x", 16),
        job("b", 0, "y", 8),
        job("b", 0, "y", 16),
        job("b", 1, "x", 8),
        job("b", 1, "x", 16),
        job("b", 1, "y", 8),
        job("b", 1, "y", 16),
    ];
    assert_eq!(grid, expected);
}

#[test]
fn a_part_without_values_leaves_no_jobs() {
    assert_eq!(configurations(&names(&["a"]), &vec![], &names(&["x"]), &vec![1]), vec![]);
    assert_eq!(configurations(&vec![], &vec![0], &names(&["x"]), &vec![1]), vec![]);
    assert_eq!(configurations(&names(&["a"]), &vec![0], &vec![], &vec![1]), vec![]);
    assert_eq!(configurations(&names(&["a"]), &vec![0], &names(&["x"]), &vec![]), vec![]);
    assert_eq!(plan_sweep(&names(&["a"]), &vec![0], &names(&["x"]), &vec![]), vec![]);
    assert_eq!(Sweep::new(vec![]).finish(), Some(vec![]));
}

#[test]
fn a_value_named_twice_gives_its_jobs_twice() {
    let grid = configurations(&names(&["a", "a"]), &vec![0], &names(&["x"]), &vec![1, 1]);
    assert_eq!(grid, vec![job("a", 0, "x", 1); 4]);
}

#[test]
fn the_order_of_a_sweep_keeps_every_job() {
    let containers = names(&["a", "b", "c"]);
    let gpus = vec![0, 1, 2, 3];
    let nets = names(&["x", "y", "z"]);
    let batch_sizes = vec![1, 2, 4, 8, 16];
    let grid = configurations(&containers, &gpus, &nets, &batch_sizes);
    assert_eq!(grid.len(), 180);
    let mut moved = false;
    for _ in 0..8 {
        let plan = plan_sweep(&containers, &gpus, &nets, &batch_sizes);
        moved = moved || plan != grid;
        assert_eq!(sorted(plan), sorted(grid.clone()));
    }
    assert!(moved);
}

#[test]
fn a_sweep_takes_one_result_for_each_job_and_no_more() {
    let plan = vec![job("a", 0, "x", 1), job("b", 1, "y", 2)];
    let sweep = Sweep::new(plan.clone());
    assert_eq!(sweep.next(), Some(job("a", 0, "x", 1)));
    let event = BenchmarkEvent::AvgForward {
        timestamp: Duration::zero(),
        time: Duration::new(0, 1).unwrap(),
    };
    let sweep = sweep.record(Ok(vec![event.clone()]));
    assert_eq!(sweep.next(), Some(job("b", 1, "y", 2)));
    let sweep = sweep.record(Err("failed".to_string()));
    assert_eq!(sweep.next(), None);
    let sweep = sweep.record(Err("one too many".to_string()));
    assert_eq!(sweep.next(), None);
    assert_eq!(
        sweep.finish(),
        Some(vec![
            RunResult { config: job("a", 0, "x", 1), result: Ok(vec![event]) },
            RunResult { config: job("b", 1, "y", 2), result: Err("failed".to_string()) },
        ])
    );
    let sweep = Sweep::new(plan).record(Err("failed".to_string()));
    assert_eq!(sweep.finish(), None);
}

#[test]
fn jobs_are_the_same_when_every_part_is() {
    let base = job("a", 0, "x", 1);
    assert!(base.same_as(&job("a", 0, "x", 1)));
    assert!(base.same_as(&base.duplicate()));
    assert!(!base.same_as(&job("b", 0, "x", 1)));
    assert!(!base.same_as(&job("a", 1, "x", 1)));
    assert!(!base.same_as(&job("a", 0, "y", 1)));
    assert!(!base.same_as(&job("a", 0, "x", 2)));
    assert_eq!(base.duplicate(), base);
}
