//! The simulated load test: which requests fail, what latencies the others
//! have, and how a ramp-up is divided into steps.
//!
//! Request `i` (from 0) has latency `100 + (i % 10) * 50 + (i % 100) * 10`
//! microseconds; every twentieth request after the first times out.

use vstd::prelude::*;
use crate::loadtest::config::LoadTestConfig;

verus! {

/// The simulated latency of request `i`, in microseconds.
pub open spec fn simulated_latency(i: nat) -> nat {
    100 + (i % 10) * 50 + (i % 100) * 10
}

/// Whether request `i` times out.
pub open spec fn simulated_timeout(i: nat) -> bool {
    i % 20 == 0 && i > 0
}

/// The latencies of the first `n` requests that succeed, in order.
pub open spec fn simulated_latencies(n: nat) -> Seq<u64>
    decreases n,
{
    if n == 0 {
        Seq::empty()
    } else {
        let i = (n - 1) as nat;
        if simulated_timeout(i) {
            simulated_latencies(i)
        } else {
            simulated_latencies(i).push(simulated_latency(i) as u64)
        }
    }
}

/// How many of the first `n` requests time out.
pub open spec fn simulated_timeouts(n: nat) -> nat
    decreases n,
{
    if n == 0 {
        0
    } else {
        let i = (n - 1) as nat;
        simulated_timeouts(i) + if simulated_timeout(i) {
            1nat
        } else {
            0nat
        }
    }
}

/// The outcome of a simulated run.
#[derive(Debug)]
pub struct SimulatedRun {
    /// Latencies of the successful requests, in order (microseconds).
    pub latencies_us: Vec<u64>,
    /// Successful requests.
    pub successful: usize,
    /// Failed requests.
    pub failed: usize,
    /// Failures by kind: all are timeouts.
    pub timeouts: usize,
}

/// Simulate the requests of a run.
pub fn simulate_requests(config: &LoadTestConfig) -> (r: SimulatedRun)
    ensures
        r.latencies_us@ == simulated_latencies(config.total as nat),
        r.failed == simulated_timeouts(config.total as nat),
        r.timeouts == r.failed,
        r.successful + r.failed == config.total,
        r.successful == r.latencies_us@.len(),
{
    let total = config.total;
    let mut latencies: Vec<u64> = Vec::new();
    let mut successful: usize = 0;
    let mut failed: usize = 0;
    let mut i: usize = 0;
    while i < total
        invariant
            i <= total,
            latencies@ == simulated_latencies(i as nat),
            failed == simulated_timeouts(i as nat),
            successful + failed == i,
            successful == latencies@.len(),
        decreases total - i,
    {
        let latency: u64 = 100 + ((i % 10) as u64) * 50 + ((i % 100) as u64) * 10;
        if i % 20 == 0 && i > 0 {
            failed = failed + 1;
        } else {
            successful = successful + 1;
            latencies.push(latency);
        }
        i = i + 1;
    }
    SimulatedRun { latencies_us: latencies, successful, failed, timeouts: failed }
}

/// The concurrency of step `step` of a ramp-up from `start` to `end` in
/// `steps` steps.
pub open spec fn ramp_concurrency(start: nat, end: nat, steps: nat, step: nat) -> nat {
    let size = if end > start {
        ((end - start) as nat) / (if steps > 1 {
            steps
        } else {
            1
        })
    } else {
        1
    };
    start + step * size
}

/// The steps of a ramp-up: for each, the concurrency and the total number
/// of requests (ten per worker).
pub fn ramp_up_plan(start_concurrent: usize, end_concurrent: usize, steps: usize) -> (plan: Vec<(usize, usize)>)
    requires
        (start_concurrent + steps) * 10 <= usize::MAX,
        end_concurrent * 10 <= usize::MAX,
    ensures
        plan@.len() == steps,
        forall|k: int| 0 <= k < steps ==> #[trigger] plan@[k].0 == ramp_concurrency(
            start_concurrent as nat,
            end_concurrent as nat,
            steps as nat,
            k as nat,
        ) && plan@[k].1 == plan@[k].0 * 10,
{
    let size: usize = if end_concurrent > start_concurrent {
        (end_concurrent - start_concurrent) / (if steps > 1 {
            steps
        } else {
            1
        })
    } else {
        1
    };
    let mut plan: Vec<(usize, usize)> = Vec::new();
    let mut step: usize = 0;
    while step < steps
        invariant
            step <= steps,
            plan@.len() == step,
            size == (if end_concurrent > start_concurrent {
                ((end_concurrent - start_concurrent) as nat) / (if steps > 1 {
                    steps as nat
                } else {
                    1nat
                })
            } else {
                1nat
            }),
            (start_concurrent + steps) * 10 <= usize::MAX,
            end_concurrent * 10 <= usize::MAX,
            forall|k: int| 0 <= k < step ==> #[trigger] plan@[k].0 == ramp_concurrency(
                start_concurrent as nat,
                end_concurrent as nat,
                steps as nat,
                k as nat,
            ) && plan@[k].1 == plan@[k].0 * 10,
        decreases steps - step,
    {
        proof {
            if end_concurrent > start_concurrent {
                let d = (end_concurrent - start_concurrent) as nat;
                let q = if steps > 1 { steps as nat } else { 1nat };
                assert(step < q);
                assert(step * (d / q) <= d) by (nonlinear_arith)
                    requires
                        step < q,
                        q >= 1,
                ;
            }
        }
        let concurrent = start_concurrent + step * size;
        plan.push((concurrent, concurrent * 10));
        step = step + 1;
    }
    plan
}

/// The load test runner.
#[derive(Debug, Clone, Copy)]
pub struct LoadTest;

impl LoadTest {
    /// The configurations of a ramp-up against `url`: step `k` runs
    /// `ramp_concurrency(start, end, steps, k)` workers (at least one) and
    /// ten requests per worker (at least one request), with the defaults
    /// otherwise.
    pub fn ramp_up_configs(url: &str, start_concurrent: usize, end_concurrent: usize, steps: usize) -> (v: Vec<
        LoadTestConfig,
    >)
        requires
            (start_concurrent + steps) * 10 <= usize::MAX,
            end_concurrent * 10 <= usize::MAX,
        ensures
            v@.len() == steps,
            forall|k: int|
                0 <= k < steps ==> {
                    let c = ramp_concurrency(start_concurrent as nat, end_concurrent as nat, steps as nat, k as nat);
                    &&& #[trigger] v@[k].url@ == url@
                    &&& v@[k].method@ == "GET"@
                    &&& v@[k].concurrent == (if c >= 1 {
                        c
                    } else {
                        1
                    })
                    &&& v@[k].total == (if c * 10 >= 1 {
                        c * 10
                    } else {
                        1
                    })
                    &&& v@[k].timeout_ms == 5000
                    &&& v@[k].headers@.len() == 0
                    &&& v@[k].body.is_none()
                },
    {
        let plan = ramp_up_plan(start_concurrent, end_concurrent, steps);
        let mut v: Vec<LoadTestConfig> = Vec::new();
        let mut k: usize = 0;
        while k < plan.len()
            invariant
                k <= plan@.len(),
                plan@.len() == steps,
                v@.len() == k,
                forall|j: int| 0 <= j < steps ==> #[trigger] plan@[j].0 == ramp_concurrency(
                    start_concurrent as nat,
                    end_concurrent as nat,
                    steps as nat,
                    j as nat,
                ) && plan@[j].1 == plan@[j].0 * 10,
                forall|j: int|
                    0 <= j < k ==> {
                        let c = ramp_concurrency(
                            start_concurrent as nat,
                            end_concurrent as nat,
                            steps as nat,
                            j as nat,
                        );
                        &&& #[trigger] v@[j].url@ == url@
                        &&& v@[j].method@ == "GET"@
                        &&& v@[j].concurrent == (if c >= 1 {
                            c
                        } else {
                            1
                        })
                        &&& v@[j].total == (if c * 10 >= 1 {
                            c * 10
                        } else {
                            1
                        })
                        &&& v@[j].timeout_ms == 5000
                        &&& v@[j].headers@.len() == 0
                        &&& v@[j].body.is_none()
                    },
            decreases plan@.len() - k,
        {
            let (concurrent, total) = plan[k];
            let c = LoadTestConfig::new(url).with_concurrent(concurrent).with_total(total);
            v.push(c);
            k = k + 1;
        }
        v
    }
}

} // verus!
