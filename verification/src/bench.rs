//! Throughput measurements: how long an operation takes over many
//! iterations, and the suites that measure the platform's own hot paths.

use vstd::prelude::*;
use crate::auth::token::{
    ed25519_check, ed25519_sign, encode_token_bytes, frame, SessionToken, TokenClaims, TokenVerifier,
    DEFAULT_TOKEN_TTL_NANOS,
};
use crate::billing::types::{Invoice, InvoiceItem, InvoiceStatus};
use crate::platform::events::EventBus;
use crate::sys::{monotonic_now, nanos_since, now_unix_nanos};
use crate::text::{decimal, decimal_text, push_char, push_str};

verus! {

/// The result of one benchmark.
#[derive(Debug, Clone)]
pub struct BenchResult {
    /// Benchmark name.
    pub name: String,
    /// Iterations run.
    pub iterations: u64,
    /// Total time, in nanoseconds.
    pub total_ns: u64,
    /// Time per operation, in nanoseconds.
    pub per_op_ns: u64,
    /// Operations per second (`u64::MAX` when an operation took no
    /// measurable time).
    pub ops_per_sec: u64,
}

/// Time per operation: 0 without iterations.
pub open spec fn per_op(iters: u64, total_ns: u64) -> u64 {
    if iters > 0 {
        (total_ns / iters) as u64
    } else {
        0
    }
}

/// Operations per second at `per_op_ns` nanoseconds each.
pub open spec fn ops_per_second(per_op_ns: u64) -> u64 {
    if per_op_ns > 0 {
        (1_000_000_000u64 / per_op_ns) as u64
    } else {
        u64::MAX
    }
}

/// The result of running `iters` iterations in `total_ns` nanoseconds.
pub fn bench_result(name: &str, iters: u64, total_ns: u64) -> (r: BenchResult)
    ensures
        r.name@ == name@,
        r.iterations == iters,
        r.total_ns == total_ns,
        r.per_op_ns == per_op(iters, total_ns),
        r.ops_per_sec == ops_per_second(r.per_op_ns),
{
    let per_op_ns = if iters > 0 {
        total_ns / iters
    } else {
        0
    };
    let ops_per_sec = if per_op_ns > 0 {
        1_000_000_000 / per_op_ns
    } else {
        u64::MAX
    };
    BenchResult { name: name.to_owned(), iterations: iters, total_ns, per_op_ns, ops_per_sec }
}

/// Whether a result's time per operation and rate follow from its
/// iterations and total time.
pub open spec fn measured(r: BenchResult) -> bool {
    r.per_op_ns == per_op(r.iterations, r.total_ns) && r.ops_per_sec == ops_per_second(r.per_op_ns)
}

/// `n` spaces.
pub open spec fn spaces(n: nat) -> Seq<char>
    decreases n,
{
    if n == 0 {
        Seq::empty()
    } else {
        spaces((n - 1) as nat).push(' ')
    }
}

/// `s` padded with spaces on the right to at least `width` characters.
pub open spec fn pad_right(s: Seq<char>, width: nat) -> Seq<char> {
    if s.len() < width {
        s + spaces((width - s.len()) as nat)
    } else {
        s
    }
}

/// `s` padded with spaces on the left to at least `width` characters.
pub open spec fn pad_left(s: Seq<char>, width: nat) -> Seq<char> {
    if s.len() < width {
        spaces((width - s.len()) as nat) + s
    } else {
        s
    }
}

fn push_spaces(s: &mut String, n: usize)
    ensures
        final(s)@ == old(s)@ + spaces(n as nat),
{
    let mut i: usize = 0;
    while i < n
        invariant
            i <= n,
            s@ == old(s)@ + spaces(i as nat),
        decreases n - i,
    {
        push_char(s, ' ');
        assert(old(s)@ + spaces((i + 1) as nat) =~= (old(s)@ + spaces(i as nat)).push(' '));
        i = i + 1;
    }
}

fn push_padded_left(s: &mut String, t: &str, width: usize)
    ensures
        final(s)@ == old(s)@ + pad_left(t@, width as nat),
{
    let n = t.unicode_len();
    if n < width {
        push_spaces(s, width - n);
    }
    push_str(s, t);
    assert(final(s)@ =~= old(s)@ + pad_left(t@, width as nat));
}

impl BenchResult {
    /// One line: the name padded to 45 characters, then the iterations,
    /// the time per operation and the operations per second, right-aligned
    /// in 10, 10 and 14 characters.
    pub fn to_string(&self) -> (s: String)
        ensures
            s@ == pad_right(self.name@, 45) + " "@ + pad_left(decimal_text(self.iterations as nat), 10)
                + " iters  "@ + pad_left(decimal_text(self.per_op_ns as nat), 10) + " ns/op  "@ + pad_left(
                decimal_text(self.ops_per_sec as nat),
                14,
            ) + " ops/sec"@,
    {
        let mut s = String::new();
        push_str(&mut s, self.name.as_str());
        let n = self.name.unicode_len();
        if n < 45 {
            push_spaces(&mut s, 45 - n);
        }
        assert(s@ =~= pad_right(self.name@, 45));
        push_str(&mut s, " ");
        let iters = decimal(self.iterations);
        push_padded_left(&mut s, iters.as_str(), 10);
        push_str(&mut s, " iters  ");
        let per = decimal(self.per_op_ns);
        push_padded_left(&mut s, per.as_str(), 10);
        push_str(&mut s, " ns/op  ");
        let ops = decimal(self.ops_per_sec);
        push_padded_left(&mut s, ops.as_str(), 14);
        push_str(&mut s, " ops/sec");
        s
    }
}

/// Run `f` `iters` times and measure the throughput.
pub fn bench<F: Fn()>(name: &str, iters: u64, f: F) -> (r: BenchResult)
    requires
        f.requires(()),
        forall|x: ()| #[trigger] f.ensures((), x) ==> f.requires(()),
    ensures
        r.name@ == name@,
        r.iterations == iters,
        r.per_op_ns == per_op(iters, r.total_ns),
        r.ops_per_sec == ops_per_second(r.per_op_ns),
{
    let start = monotonic_now();
    let mut i: u64 = 0;
    while i < iters
        invariant
            i <= iters,
            f.requires(()),
            forall|x: ()| #[trigger] f.ensures((), x) ==> f.requires(()),
        decreases iters - i,
    {
        f();
        i = i + 1;
    }
    let total_ns = nanos_since(&start);
    bench_result(name, iters, total_ns)
}

/// The event bus suite: one million publications on a bus of capacity
/// 1024.
pub fn bench_event_bus() -> (r: Vec<BenchResult>)
    ensures
        r@.len() == 1,
        r@[0].name@ == "event_bus_publish"@,
        r@[0].iterations == 1_000_000,
        forall|i: int| 0 <= i < r@.len() ==> #[trigger] measured(r@[i]),
{
    let mut bus = EventBus::with_capacity(1024);
    let payload = "benchmark.event.payload";
    let iters: u64 = 1_000_000;
    let start = monotonic_now();
    let mut i: u64 = 0;
    while i < iters
        invariant
            i <= iters,
            iters == 1_000_000,
            bus.wf(),
            bus.events().len() == i,
        decreases iters - i,
    {
        let _id = bus.publish("bench.tick", payload);
        i = i + 1;
    }
    let total_ns = nanos_since(&start);
    let mut out: Vec<BenchResult> = Vec::new();
    out.push(bench_result("event_bus_publish", iters, total_ns));
    out
}

/// The notification suite: dispatching one payload to ten channels, one
/// hundred thousand times.
pub fn bench_notification_dispatch() -> (r: Vec<BenchResult>)
    ensures
        r@.len() == 1,
        r@[0].name@ == "notification_dispatch_10_channels"@,
        r@[0].iterations == 100_000,
        forall|i: int| 0 <= i < r@.len() ==> #[trigger] measured(r@[i]),
{
    let mut channels: Vec<String> = Vec::new();
    let mut c: u64 = 0;
    while c < 10
        invariant
            c <= 10,
            channels@.len() == c,
        decreases 10 - c,
    {
        let mut name = "channel-".to_owned();
        let digits = decimal(c);
        push_str(&mut name, digits.as_str());
        channels.push(name);
        c = c + 1;
    }
    let payload = "notification payload";
    let iters: u64 = 100_000;
    let start = monotonic_now();
    let mut i: u64 = 0;
    while i < iters
        invariant
            i <= iters,
            channels@.len() == 10,
        decreases iters - i,
    {
        let mut count: u32 = 0;
        let mut j: usize = 0;
        while j < channels.len()
            invariant
                j <= channels@.len(),
                channels@.len() == 10,
                count == j,
            decreases channels@.len() - j,
        {
            let _ = (channels[j].unicode_len(), payload.unicode_len());
            count = count + 1;
            j = j + 1;
        }
        i = i + 1;
    }
    let total_ns = nanos_since(&start);
    let mut out: Vec<BenchResult> = Vec::new();
    out.push(bench_result("notification_dispatch_10_channels", iters, total_ns));
    out
}

/// The Ed25519 suite: signing a 256-byte message ten thousand times with
/// the key of seed `0x11..`, then checking the signature as often. The
/// signer measured is ed25519-dalek's, not the identity signer of the
/// platform's protocol crate.
pub fn bench_ed25519() -> (r: Vec<BenchResult>)
    ensures
        r@.len() == 2,
        r@[0].name@ == "ed25519_sign_256b"@,
        r@[0].iterations == 10_000,
        r@[1].name@ == "ed25519_verify_256b"@,
        r@[1].iterations == 10_000,
        forall|i: int| 0 <= i < r@.len() ==> #[trigger] measured(r@[i]),
{
    let seed = [0x11u8; 32];
    let msg: Vec<u8> = vec![0u8; 256];
    let sign = bench("ed25519_sign_256b", 10_000, || {
        let _sig = ed25519_sign(&seed, msg.as_slice());
    });
    let signature = ed25519_sign(&seed, msg.as_slice());
    let verify = bench("ed25519_verify_256b", 10_000, || {
        let _ok = ed25519_check(&seed, msg.as_slice(), &signature);
    });
    let mut out: Vec<BenchResult> = Vec::new();
    out.push(sign);
    out.push(verify);
    out
}

/// Whether a WASM plugin manifest is acceptable: an id and a version,
/// some fuel, a memory budget of at most 256 MiB and a timeout of at most
/// thirty seconds.
pub open spec fn wasm_manifest_ok(id: Seq<char>, version: Seq<char>, fuel: u64, memory_bytes: u64, timeout_ms: u64) -> bool {
    &&& id.len() > 0
    &&& version.len() > 0
    &&& fuel > 0
    &&& memory_bytes > 0 && memory_bytes <= 268_435_456
    &&& timeout_ms > 0 && timeout_ms <= 30_000
}

/// Whether a WASM plugin manifest is acceptable.
pub fn wasm_manifest_valid(id: &str, version: &str, fuel: u64, memory_bytes: u64, timeout_ms: u64) -> (b: bool)
    ensures
        b == wasm_manifest_ok(id@, version@, fuel, memory_bytes, timeout_ms),
{
    id.unicode_len() > 0 && version.unicode_len() > 0 && fuel > 0 && memory_bytes > 0 && memory_bytes
        <= 268_435_456 && timeout_ms > 0 && timeout_ms <= 30_000
}

/// The WASM manifest suite: validating the manifest of
/// `com.bench.plugin` 1.0.0 (fuel one million, 32 MiB, five seconds) one
/// hundred thousand times.
pub fn bench_wasm_manifest_validate() -> (r: Vec<BenchResult>)
    ensures
        r@.len() == 1,
        r@[0].name@ == "wasm_manifest_validate"@,
        r@[0].iterations == 100_000,
        forall|i: int| 0 <= i < r@.len() ==> #[trigger] measured(r@[i]),
{
    let id = "com.bench.plugin";
    let version = "1.0.0";
    let fuel: u64 = 1_000_000;
    let memory_bytes: u64 = 33_554_432;
    let timeout_ms: u64 = 5000;
    let validate = bench("wasm_manifest_validate", 100_000, || {
        let _ok = wasm_manifest_valid(id, version, fuel, memory_bytes, timeout_ms);
    });
    let mut out: Vec<BenchResult> = Vec::new();
    out.push(validate);
    out
}

/// The token suite: issuing ten thousand tokens for one user (claims,
/// their bytes from `encode`, the signature and the text form), then
/// checking ten thousand tokens, each against a fresh verifier, taken in
/// turn from a thousand issued beforehand.
pub fn bench_auth_token<F: Fn(&TokenClaims) -> Vec<u8>>(encode: F) -> (r: Vec<BenchResult>)
    requires
        forall|c: &TokenClaims| #[trigger] encode.requires((c,)),
    ensures
        r@.len() == 2,
        r@[0].name@ == "auth_token_issue"@,
        r@[0].iterations == 10_000,
        r@[1].name@ == "auth_token_verify"@,
        r@[1].iterations == 10_000,
        forall|i: int| 0 <= i < r@.len() ==> #[trigger] measured(r@[i]),
{
    let user = "user-bench";
    let mut verifier = TokenVerifier::new();
    let iters: u64 = 10_000;
    let start = monotonic_now();
    let mut i: u64 = 0;
    while i < iters
        invariant
            i <= iters,
            iters == 10_000,
            verifier.wf(),
            verifier.version_of(user@) matches Some(v) ==> v <= i,
            forall|c: &TokenClaims| #[trigger] encode.requires((c,)),
        decreases iters - i,
    {
        let claims = verifier.issue_claims_at(user, DEFAULT_TOKEN_TTL_NANOS, now_unix_nanos());
        let bytes = encode(&claims);
        let signature = verifier.sign(bytes.as_slice());
        let _text = encode_token_bytes(frame(bytes.as_slice(), &signature).as_slice());
        i = i + 1;
    }
    let issue = bench_result("auth_token_issue", iters, nanos_since(&start));
    let mut issued: Vec<(TokenClaims, Vec<u8>, [u8; 64])> = Vec::new();
    let mut k: u64 = 0;
    while k < 1_000
        invariant
            k <= 1_000,
            verifier.wf(),
            verifier.version_of(user@) matches Some(v) ==> v <= 10_000 + k,
            issued@.len() == k,
            forall|c: &TokenClaims| #[trigger] encode.requires((c,)),
        decreases 1_000 - k,
    {
        let claims = verifier.issue_claims_at(user, DEFAULT_TOKEN_TTL_NANOS, now_unix_nanos());
        let bytes = encode(&claims);
        let signature = verifier.sign(bytes.as_slice());
        issued.push((claims, bytes, signature));
        k = k + 1;
    }
    let start = monotonic_now();
    let mut j: u64 = 0;
    while j < iters
        invariant
            j <= iters,
            iters == 10_000,
            issued@.len() == 1_000,
        decreases iters - j,
    {
        let t = &issued[(j % 1_000) as usize];
        let other = TokenVerifier::new();
        let token = SessionToken { claims: t.0.duplicate(), signature: t.2 };
        let _checked = other.verify_at(&token, t.1.as_slice(), now_unix_nanos());
        j = j + 1;
    }
    let verify = bench_result("auth_token_verify", iters, nanos_since(&start));
    let mut out: Vec<BenchResult> = Vec::new();
    out.push(issue);
    out.push(verify);
    out
}

/// The billing suite: the serialised form of one open invoice of one line
/// (`serialize` gives it), one hundred thousand times.
pub fn bench_billing<G: Fn(&Invoice) -> String>(serialize: G) -> (r: Vec<BenchResult>)
    requires
        forall|i: &Invoice| #[trigger] serialize.requires((i,)),
    ensures
        r@.len() == 1,
        r@[0].name@ == "billing_invoice_serialize_json"@,
        r@[0].iterations == 100_000,
        forall|i: int| 0 <= i < r@.len() ==> #[trigger] measured(r@[i]),
{
    let mut items: Vec<InvoiceItem> = Vec::new();
    items.push(
        InvoiceItem {
            description: "Benchmark plan".to_owned(),
            package_id: None,
            quantity: 1,
            unit_price_minor: 9999,
            total_minor: 9999,
            currency: "USD".to_owned(),
        },
    );
    let invoice = Invoice {
        id: "inv-bench-001".to_owned(),
        customer_id: "cust-bench".to_owned(),
        customer_name: "Bench Customer".to_owned(),
        items,
        total_minor: 9999,
        currency: "USD".to_owned(),
        status: InvoiceStatus::Open,
        created_at: 1_700_000_000_000_000_000,
        due_at: 1_700_259_200_000_000_000,
        paid_at: None,
        subscription_id: None,
        payment_ids: Vec::new(),
    };
    let iters: u64 = 100_000;
    let start = monotonic_now();
    let mut i: u64 = 0;
    while i < iters
        invariant
            i <= iters,
            iters == 100_000,
            forall|inv: &Invoice| #[trigger] serialize.requires((inv,)),
        decreases iters - i,
    {
        let _s = serialize(&invoice);
        i = i + 1;
    }
    let mut out: Vec<BenchResult> = Vec::new();
    out.push(bench_result("billing_invoice_serialize_json", iters, nanos_since(&start)));
    out
}

/// Run the benchmark suites that this library holds, in order: Ed25519 signing
/// and checking, event bus publication, token issue and check (claims
/// bytes from `encode_claims`), invoice serialisation (by
/// `serialize_invoice`), notification dispatch and WASM manifest
/// validation. The suites of the wire protocol (frame encoding, AEAD) and
/// of the marketplace's integrity hash belong to other crates and are not
/// among them.
pub fn run_library_suites<F: Fn(&TokenClaims) -> Vec<u8>, G: Fn(&Invoice) -> String>(
    encode_claims: F,
    serialize_invoice: G,
) -> (r: Vec<BenchResult>)
    requires
        forall|c: &TokenClaims| #[trigger] encode_claims.requires((c,)),
        forall|i: &Invoice| #[trigger] serialize_invoice.requires((i,)),
    ensures
        r@.len() == 8,
        r@[0].name@ == "ed25519_sign_256b"@,
        r@[1].name@ == "ed25519_verify_256b"@,
        r@[2].name@ == "event_bus_publish"@,
        r@[3].name@ == "auth_token_issue"@,
        r@[4].name@ == "auth_token_verify"@,
        r@[5].name@ == "billing_invoice_serialize_json"@,
        r@[6].name@ == "notification_dispatch_10_channels"@,
        r@[7].name@ == "wasm_manifest_validate"@,
        forall|i: int| 0 <= i < r@.len() ==> #[trigger] r@[i].iterations > 0,
        forall|i: int| 0 <= i < r@.len() ==> #[trigger] measured(r@[i]),
{
    let mut out: Vec<BenchResult> = Vec::new();
    out.append(&mut bench_ed25519());
    out.append(&mut bench_event_bus());
    out.append(&mut bench_auth_token(encode_claims));
    out.append(&mut bench_billing(serialize_invoice));
    out.append(&mut bench_notification_dispatch());
    out.append(&mut bench_wasm_manifest_validate());
    out
}

} // verus!
