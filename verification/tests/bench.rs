use nexora::bench::{
    bench, bench_billing, bench_event_bus, bench_notification_dispatch, bench_result, bench_wasm_manifest_validate,
    wasm_manifest_valid,
};

#[test]
fn event_bus_bench_runs() {
    let r = bench_event_bus();
    assert_eq!(r.len(), 1);
}

#[test]
fn notification_bench_runs() {
    let r = bench_notification_dispatch();
    assert_eq!(r.len(), 1);
}

#[test]
fn bench_result_arithmetic() {
    let r = bench_result("x", 4, 1000);
    assert_eq!(r.per_op_ns, 250);
    assert_eq!(r.ops_per_sec, 4_000_000);
    let fast = bench_result("y", 10, 5);
    assert_eq!(fast.per_op_ns, 0);
    assert_eq!(fast.ops_per_sec, u64::MAX);
    let none = bench_result("z", 0, 5);
    assert_eq!(none.per_op_ns, 0);
}

#[test]
fn bench_result_line() {
    let r = bench_result("op", 12, 1200);
    let line = r.to_string();
    assert_eq!(
        line,
        format!("{:<45} {:>10} iters  {:>10} ns/op  {:>14} ops/sec", "op", 12, 100, 10_000_000)
    );
}

#[test]
fn bench_runs_closure() {
    let r = bench("noop", 1000, || {});
    assert_eq!(r.iterations, 1000);
    assert_eq!(r.name, "noop");
}

#[test]
fn wasm_manifest_bench_runs() {
    let r = bench_wasm_manifest_validate();
    assert_eq!(r.len(), 1);
}

#[test]
fn wasm_manifest_limits() {
    assert!(wasm_manifest_valid("com.bench.plugin", "1.0.0", 1_000_000, 33_554_432, 5000));
    assert!(wasm_manifest_valid("a", "1", 1, 268_435_456, 30_000));
    assert!(!wasm_manifest_valid("", "1", 1, 1, 1));
    assert!(!wasm_manifest_valid("a", "", 1, 1, 1));
    assert!(!wasm_manifest_valid("a", "1", 0, 1, 1));
    assert!(!wasm_manifest_valid("a", "1", 1, 268_435_457, 1));
    assert!(!wasm_manifest_valid("a", "1", 1, 1, 30_001));
    assert!(!wasm_manifest_valid("a", "1", 1, 0, 1));
}

#[test]
fn billing_bench_runs() {
    let r = bench_billing(|inv| format!("{}:{}", inv.id, inv.total_minor));
    assert_eq!(r.len(), 1);
    assert_eq!(r[0].name, "billing_invoice_serialize_json");
    assert_eq!(r[0].iterations, 100_000);
}
