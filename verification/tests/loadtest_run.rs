use nexora::loadtest::config::LoadTestConfig;
use nexora::loadtest::result::latency_stats;
use nexora::loadtest::runner::{ramp_up_plan, simulate_requests};

#[test]
fn build_result_calculates_percentiles() {
    let latencies: Vec<u64> = (1..=100).collect();
    let r = latency_stats(latencies);
    assert_eq!(r.min_latency_us, 1);
    assert_eq!(r.max_latency_us, 100);
    assert_eq!(r.p95_latency_us, 95);
    assert_eq!(r.p99_latency_us, 99);
}

#[test]
fn build_result_empty() {
    let r = latency_stats(vec![]);
    assert_eq!(r.avg_latency_us, 0);
    assert_eq!(r.p95_latency_us, 0);
}

#[test]
fn build_result_avg() {
    let latencies = vec![100, 200, 300, 400, 500];
    let r = latency_stats(latencies);
    assert_eq!(r.avg_latency_us, 300);
}

#[test]
fn stats_sort_unsorted_input() {
    let r = latency_stats(vec![50, 10, 40, 20, 30]);
    assert_eq!(r.min_latency_us, 10);
    assert_eq!(r.max_latency_us, 50);
    assert_eq!(r.avg_latency_us, 30);
    // ceil(5 * 95 / 100) = 5: the largest value.
    assert_eq!(r.p95_latency_us, 50);
    assert_eq!(r.p99_latency_us, 50);
}

#[test]
fn simulated_run_counts_timeouts() {
    let config = LoadTestConfig::new("http://test").with_total(100);
    let run = simulate_requests(&config);
    assert_eq!(run.failed, 4);
    assert_eq!(run.timeouts, 4);
    assert_eq!(run.successful, 96);
    assert_eq!(run.latencies_us[0], 100);
    assert_eq!(run.latencies_us[1], 160);
    let stats = latency_stats(run.latencies_us);
    assert!(stats.p99_latency_us >= stats.p95_latency_us);
    assert!(stats.max_latency_us >= stats.min_latency_us);
}

#[test]
fn ramp_up_steps() {
    let plan = ramp_up_plan(5, 20, 3);
    assert_eq!(plan, vec![(5, 50), (10, 100), (15, 150)]);
    let flat = ramp_up_plan(7, 3, 2);
    assert_eq!(flat, vec![(7, 70), (8, 80)]);
}
