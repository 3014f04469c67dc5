//! Per-address rate limiting over a fixed window.
//!
//! Each client address has a request count and the start of its window.
//! A request whose window has run out (more than `window_nanos` since it
//! started) opens a new window; the request is admitted while the count,
//! this request included, stays within `max_requests`.

use vstd::prelude::*;
use crate::scan::{chars_of, find_chars, find_from, trim, trimmed_string};
use crate::sys::{monotonic_now, nanos_since};
use crate::table::{Record, Table, models};

verus! {

/// Requests admitted per window by default.
pub const DEFAULT_MAX_REQUESTS: usize = 100;

/// Default window: one minute, in nanoseconds.
pub const DEFAULT_WINDOW_NANOS: u64 = 60_000_000_000;

/// Rate limiting settings.
#[derive(Debug, Clone, Copy, PartialEq, Eq)]
pub struct RateLimitConfig {
    /// Requests admitted per window.
    pub max_requests: usize,
    /// Length of the window, in nanoseconds.
    pub window_nanos: u64,
}

/// `std::time::Duration::from_nanos`. The type is opaque here, so nothing
/// is stated of the value.
#[verifier::external_body]
fn duration_from_nanos(nanos: u64) -> (d: std::time::Duration) {
    std::time::Duration::from_nanos(nanos)
}

impl Default for RateLimitConfig {
    fn default() -> (c: RateLimitConfig)
        ensures
            c.max_requests == DEFAULT_MAX_REQUESTS,
            c.window_nanos == DEFAULT_WINDOW_NANOS,
    {
        RateLimitConfig { max_requests: DEFAULT_MAX_REQUESTS, window_nanos: DEFAULT_WINDOW_NANOS }
    }
}

impl RateLimitConfig {
    /// The window as a `Duration`.
    pub fn window(&self) -> std::time::Duration {
        duration_from_nanos(self.window_nanos)
    }
}

/// The counter of one client address.
#[derive(Debug)]
pub struct IpState {
    /// The address.
    pub ip: String,
    /// Requests counted in the current window.
    pub count: usize,
    /// Start of the current window (monotonic nanoseconds).
    pub window_start: u64,
}

impl Record for IpState {
    type Model = (Seq<char>, usize, u64);

    open spec fn model(&self) -> (Seq<char>, usize, u64) {
        (self.ip@, self.count, self.window_start)
    }

    open spec fn model_key(m: (Seq<char>, usize, u64)) -> Seq<char> {
        m.0
    }

    fn key(&self) -> (k: &str) {
        self.ip.as_str()
    }

    fn copy(&self) -> (r: IpState) {
        IpState { ip: self.ip.clone(), count: self.count, window_start: self.window_start }
    }
}

/// Time from `start` to `now`; 0 when `now` is earlier.
pub open spec fn elapsed(start: u64, now: u64) -> int {
    if now >= start {
        now - start
    } else {
        0
    }
}

/// The counter of `ip` after one more request at `now`: a new window
/// (count 1) if there was none or it has run out, else one more in the
/// same window (the count stops at `usize::MAX`).
pub open spec fn counted(
    states: Map<Seq<char>, (Seq<char>, usize, u64)>,
    ip: Seq<char>,
    now: u64,
    window: u64,
) -> (Seq<char>, usize, u64) {
    if states.contains_key(ip) && elapsed(states[ip].2, now) <= window {
        let c = states[ip].1;
        (ip, if c < usize::MAX { (c + 1) as usize } else { c }, states[ip].2)
    } else {
        (ip, 1, now)
    }
}

/// Requests left for `ip` at `now`: all of them without a live window.
pub open spec fn remaining_for(
    states: Map<Seq<char>, (Seq<char>, usize, u64)>,
    ip: Seq<char>,
    now: u64,
    config: RateLimitConfig,
) -> usize {
    if states.contains_key(ip) && elapsed(states[ip].2, now) <= config.window_nanos {
        if states[ip].1 <= config.max_requests {
            (config.max_requests - states[ip].1) as usize
        } else {
            0
        }
    } else {
        config.max_requests
    }
}

/// Whether a counter is kept by a cleanup at `now`: its window started at
/// most two windows ago.
pub open spec fn kept(start: u64, now: u64, window: u64) -> bool {
    elapsed(start, now) <= 2 * window
}

/// The admission decision for one request.
#[derive(Debug, Clone, Copy, PartialEq, Eq)]
pub struct RateLimitDecision {
    /// Whether the request is admitted.
    pub allowed: bool,
    /// The configured limit.
    pub limit: usize,
    /// Requests left in the window after this one.
    pub remaining: usize,
}

/// The rate limiter: settings and one counter per address.
#[derive(Debug)]
pub struct RateLimiter {
    config: RateLimitConfig,
    origin: std::time::Instant,
    states: Table<IpState>,
}

impl RateLimiter {
    /// The counters by address.
    pub closed spec fn states(&self) -> Map<Seq<char>, (Seq<char>, usize, u64)> {
        self.states.map()
    }

    /// The settings.
    pub closed spec fn settings(&self) -> RateLimitConfig {
        self.config
    }

    /// Well-formedness: one counter per address.
    pub closed spec fn wf(&self) -> bool {
        self.states.wf()
    }

    /// A limiter without counters.
    pub fn new(config: RateLimitConfig) -> (l: RateLimiter)
        ensures
            l.wf(),
            l.settings() == config,
            l.states() == Map::<Seq<char>, (Seq<char>, usize, u64)>::empty(),
    {
        RateLimiter { config, origin: monotonic_now(), states: Table::new() }
    }

    /// Count a request from `ip` at time `now`; whether it is admitted.
    pub fn check_at(&mut self, ip: &str, now: u64) -> (allowed: bool)
        requires
            old(self).wf(),
        ensures
            final(self).wf(),
            final(self).settings() == old(self).settings(),
            final(self).states() == old(self).states().insert(
                ip@,
                counted(old(self).states(), ip@, now, old(self).settings().window_nanos),
            ),
            allowed == (counted(old(self).states(), ip@, now, old(self).settings().window_nanos).1
                <= old(self).settings().max_requests),
    {
        let (count, start) = match self.states.find(ip) {
            Some(i) => {
                let e = self.states.at(i);
                let since = if now >= e.window_start { now - e.window_start } else { 0 };
                if since > self.config.window_nanos {
                    (1usize, now)
                } else {
                    (e.count.saturating_add(1), e.window_start)
                }
            },
            None => (1usize, now),
        };
        self.states.upsert(IpState { ip: ip.to_owned(), count, window_start: start });
        count <= self.config.max_requests
    }

    /// Count a request from `ip` now; whether it is admitted.
    pub fn check(&mut self, ip: &str) -> (allowed: bool)
        requires
            old(self).wf(),
        ensures
            final(self).wf(),
            final(self).settings() == old(self).settings(),
            exists|now: u64|
                {
                    &&& final(self).states() == old(self).states().insert(
                        ip@,
                        #[trigger] counted(old(self).states(), ip@, now, old(self).settings().window_nanos),
                    )
                    &&& allowed == (counted(old(self).states(), ip@, now, old(self).settings().window_nanos).1
                        <= old(self).settings().max_requests)
                },
    {
        let now = nanos_since(&self.origin);
        self.check_at(ip, now)
    }

    /// Requests left for `ip` at time `now`.
    pub fn remaining_at(&self, ip: &str, now: u64) -> (n: usize)
        requires
            self.wf(),
        ensures
            n == remaining_for(self.states(), ip@, now, self.settings()),
    {
        match self.states.find(ip) {
            Some(i) => {
                let e = self.states.at(i);
                let since = if now >= e.window_start { now - e.window_start } else { 0 };
                if since > self.config.window_nanos {
                    self.config.max_requests
                } else {
                    self.config.max_requests.saturating_sub(e.count)
                }
            },
            None => self.config.max_requests,
        }
    }

    /// Requests left for `ip` now.
    pub fn remaining(&self, ip: &str) -> (n: usize)
        requires
            self.wf(),
        ensures
            exists|now: u64| n == #[trigger] remaining_for(self.states(), ip@, now, self.settings()),
    {
        self.remaining_at(ip, nanos_since(&self.origin))
    }

    /// Count a request from `ip` at `now` and report the decision with the
    /// requests left afterwards.
    pub fn decide_at(&mut self, ip: &str, now: u64) -> (d: RateLimitDecision)
        requires
            old(self).wf(),
        ensures
            final(self).wf(),
            final(self).settings() == old(self).settings(),
            final(self).states() == old(self).states().insert(
                ip@,
                counted(old(self).states(), ip@, now, old(self).settings().window_nanos),
            ),
            d.allowed == (counted(old(self).states(), ip@, now, old(self).settings().window_nanos).1
                <= old(self).settings().max_requests),
            d.limit == old(self).settings().max_requests,
            d.remaining == remaining_for(final(self).states(), ip@, now, old(self).settings()),
    {
        let allowed = self.check_at(ip, now);
        let remaining = self.remaining_at(ip, now);
        RateLimitDecision { allowed, limit: self.config.max_requests, remaining }
    }

    /// Count a request from `ip` now and report the decision.
    pub fn decide(&mut self, ip: &str) -> (d: RateLimitDecision)
        requires
            old(self).wf(),
        ensures
            final(self).wf(),
            final(self).settings() == old(self).settings(),
            d.limit == old(self).settings().max_requests,
            exists|now: u64|
                {
                    &&& final(self).states() == old(self).states().insert(
                        ip@,
                        #[trigger] counted(old(self).states(), ip@, now, old(self).settings().window_nanos),
                    )
                    &&& d.allowed == (counted(old(self).states(), ip@, now, old(self).settings().window_nanos).1
                        <= old(self).settings().max_requests)
                    &&& d.remaining == remaining_for(final(self).states(), ip@, now, old(self).settings())
                },
    {
        let now = nanos_since(&self.origin);
        self.decide_at(ip, now)
    }

    /// Drop the counters whose window started more than two windows before
    /// `now`; how many were dropped.
    pub fn cleanup_at(&mut self, now: u64) -> (removed: usize)
        requires
            old(self).wf(),
        ensures
            final(self).wf(),
            final(self).settings() == old(self).settings(),
            forall|k: Seq<char>| #[trigger] final(self).states().contains_key(k) <==> old(self).states().contains_key(k)
                && kept(old(self).states()[k].2, now, old(self).settings().window_nanos),
            forall|k: Seq<char>| #[trigger] final(self).states().contains_key(k) ==> final(self).states()[k]
                == old(self).states()[k],
            removed == old(self).states().len() - final(self).states().len(),
    {
        let all = self.states.all();
        let ghost seq = models(all@);
        let ghost w = self.config.window_nanos;
        proof {
            self.states.lemma_map();
            self.states.lemma_distinct();
        }
        let mut removed: usize = 0;
        let mut i: usize = 0;
        while i < all.len()
            invariant
                self.wf(),
                self.config == old(self).config,
                w == self.config.window_nanos,
                i <= all@.len(),
                seq == models(all@),
                seq.len() == old(self).states().len(),
                forall|a: int, b: int| 0 <= a < b < seq.len() ==> seq[a].0 != seq[b].0,
                forall|k: Seq<char>| #[trigger] old(self).states().contains_key(k) <==> exists|q: int|
                    0 <= q < seq.len() && seq[q].0 == k,
                forall|q: int| 0 <= q < seq.len() ==> #[trigger] old(self).states()[seq[q].0] == seq[q],
                forall|k: Seq<char>| #[trigger] self.states().contains_key(k) <==> old(self).states().contains_key(k)
                    && (kept(old(self).states()[k].2, now, w) || !exists|q: int| 0 <= q < i && seq[q].0 == k),
                forall|k: Seq<char>| #[trigger] self.states().contains_key(k) ==> self.states()[k] == old(self).states()[k],
                removed + self.states().len() == old(self).states().len(),
                self.states().dom().finite(),
            decreases all@.len() - i,
        {
            assert(seq[i as int] == all@[i as int].model());
            let start = all[i].window_start;
            let since: u128 = if now >= start { (now - start) as u128 } else { 0 };
            let keep = since <= 2 * (self.config.window_nanos as u128);
            let ghost before = self.states();
            if !keep {
                proof {
                    assert(old(self).states().contains_key(seq[i as int].0));
                    assert(!kept(old(self).states()[seq[i as int].0].2, now, w));
                    assert forall|q: int| 0 <= q < i implies seq[q].0 != seq[i as int].0 by {}
                    assert(self.states().contains_key(seq[i as int].0));
                }
                let r = self.states.remove(all[i].ip.as_str());
                proof {
                    self.states.lemma_map();
                }
                removed = removed + 1;
            }
            proof {
                assert forall|k: Seq<char>| #[trigger] self.states().contains_key(k) <==> old(self).states().contains_key(k)
                    && (kept(old(self).states()[k].2, now, w) || !exists|q: int| 0 <= q < i + 1 && seq[q].0 == k) by {
                    if k == seq[i as int].0 {
                        assert(old(self).states().contains_key(k));
                    } else {
                        assert(before.contains_key(k) == self.states().contains_key(k));
                        if exists|q: int| 0 <= q < i + 1 && seq[q].0 == k {
                            let q = choose|q: int| 0 <= q < i + 1 && seq[q].0 == k;
                            assert(q < i);
                        }
                    }
                }
            }
            i = i + 1;
        }
        proof {
            assert forall|k: Seq<char>| #[trigger] self.states().contains_key(k) <==> old(self).states().contains_key(k)
                && kept(old(self).states()[k].2, now, w) by {
                if old(self).states().contains_key(k) {
                    let q = choose|q: int| 0 <= q < seq.len() && seq[q].0 == k;
                    assert(exists|q: int| 0 <= q < i && seq[q].0 == k);
                }
            }
        }
        removed
    }

    /// Drop the counters whose window started more than two windows ago.
    pub fn cleanup(&mut self) -> (removed: usize)
        requires
            old(self).wf(),
        ensures
            final(self).wf(),
            final(self).settings() == old(self).settings(),
            forall|k: Seq<char>| #[trigger] final(self).states().contains_key(k) ==> old(self).states().contains_key(k)
                && final(self).states()[k] == old(self).states()[k],
            removed == old(self).states().len() - final(self).states().len(),
    {
        let now = nanos_since(&self.origin);
        self.cleanup_at(now)
    }

    /// The settings.
    pub fn config(&self) -> (c: RateLimitConfig)
        ensures
            c == self.settings(),
    {
        self.config
    }

    /// Number of addresses with a counter.
    pub fn active_ips(&self) -> (n: usize)
        requires
            self.wf(),
        ensures
            n == self.states().len(),
    {
        self.states.len()
    }
}

/// Once an address is refused, every later request in the same window is
/// refused too: the count of a window never goes down.
pub proof fn lemma_refusal_persists(
    states: Map<Seq<char>, (Seq<char>, usize, u64)>,
    ip: Seq<char>,
    first: u64,
    later: u64,
    config: RateLimitConfig,
)
    requires
        counted(states, ip, first, config.window_nanos).1 > config.max_requests,
        elapsed(counted(states, ip, first, config.window_nanos).2, later) <= config.window_nanos,
    ensures
        ({
            let after = states.insert(ip, counted(states, ip, first, config.window_nanos));
            counted(after, ip, later, config.window_nanos).1 > config.max_requests
                && remaining_for(after, ip, later, config) == 0
        }),
{
}

/// The characters of `s` before the first `sep`; all of them without one.
pub open spec fn before_first(s: Seq<char>, sep: char) -> Seq<char> {
    match find_from(s, seq![sep], 0) {
        Some(i) => s.take(i),
        None => s,
    }
}

/// The client address of a request, from its `X-Forwarded-For` header
/// (first entry, trimmed) or else its `X-Real-IP` header (trimmed), each
/// given when present and readable as text; `"unknown"` without either.
pub fn extract_ip(forwarded_for: Option<&str>, real_ip: Option<&str>) -> (ip: String)
    ensures
        ip@ == match forwarded_for {
            Some(f) => trim(before_first(f@, ',')),
            None => match real_ip {
                Some(r) => trim(r@),
                None => "unknown"@,
            },
        },
{
    match forwarded_for {
        Some(f) => {
            let v = chars_of(f);
            let sep: Vec<char> = vec![','];
            assert(sep@ == seq![',']);
            let end = match find_chars(&v, &sep, 0) {
                Some(i) => {
                    proof {
                        crate::scan::lemma_find_from(v@, sep@, 0);
                    }
                    i
                },
                None => v.len(),
            };
            let s = trimmed_string(&v, 0, end);
            assert(v@.subrange(0, end as int) =~= before_first(f@, ','));
            s
        },
        None => match real_ip {
            Some(r) => {
                let v = chars_of(r);
                let s = trimmed_string(&v, 0, v.len());
                assert(v@.subrange(0, v@.len() as int) =~= r@);
                s
            },
            None => "unknown".to_owned(),
        },
    }
}


/// The table after checks of `ip` at the times `times`, in order.
pub open spec fn after_checks(
    states: Map<Seq<char>, (Seq<char>, usize, u64)>,
    ip: Seq<char>,
    times: Seq<u64>,
    window: u64,
) -> Map<Seq<char>, (Seq<char>, usize, u64)>
    decreases times.len(),
{
    if times.len() == 0 {
        states
    } else {
        let s = after_checks(states, ip, times.drop_last(), window);
        s.insert(ip, counted(s, ip, times.last(), window))
    }
}

proof fn lemma_prefix_count(
    states: Map<Seq<char>, (Seq<char>, usize, u64)>,
    ip: Seq<char>,
    times: Seq<u64>,
    window: u64,
    n: int,
)
    requires
        !states.contains_key(ip),
        1 <= n <= times.len(),
        times.len() < usize::MAX,
        forall|j: int| 0 <= j < times.len() ==> elapsed(times[0], #[trigger] times[j]) <= window,
    ensures
        after_checks(states, ip, times.take(n), window).contains_key(ip),
        after_checks(states, ip, times.take(n), window)[ip] == (ip, n as usize, times[0]),
    decreases n,
{
    let t = times.take(n);
    assert(t.drop_last() =~= times.take(n - 1));
    assert(t.last() == times[n - 1]);
    let prev = after_checks(states, ip, t.drop_last(), window);
    if n == 1 {
        assert(t.drop_last().len() == 0);
        assert(prev == states);
        assert(counted(prev, ip, times[0], window) == (ip, 1usize, times[0]));
    } else {
        lemma_prefix_count(states, ip, times, window, n - 1);
        assert(prev[ip] == (ip, (n - 1) as usize, times[0]));
        assert(elapsed(times[0], times[n - 1]) <= window);
        assert(counted(prev, ip, times[n - 1], window) == (ip, n as usize, times[0]));
    }
}

/// Calls for one address leave the other addresses as they were.
pub proof fn lemma_checks_keep_others(
    states: Map<Seq<char>, (Seq<char>, usize, u64)>,
    ip: Seq<char>,
    times: Seq<u64>,
    window: u64,
    other: Seq<char>,
)
    requires
        other != ip,
    ensures
        after_checks(states, ip, times, window).contains_key(other) == states.contains_key(other),
        states.contains_key(other) ==> after_checks(states, ip, times, window)[other] == states[other],
    decreases times.len(),
{
    if times.len() > 0 {
        lemma_checks_keep_others(states, ip, times.drop_last(), window, other);
    }
}

/// Within one window, an address not seen before has its checks counted
/// one by one: when every check falls within the window of the first, the
/// check number `k` (from 0) counts `k + 1` requests, so it is allowed
/// exactly when `k + 1` is at most the limit. Checks of other addresses
/// neither see nor change this count (`lemma_checks_keep_others`).
pub proof fn lemma_window_counts(
    states: Map<Seq<char>, (Seq<char>, usize, u64)>,
    ip: Seq<char>,
    times: Seq<u64>,
    config: RateLimitConfig,
)
    requires
        !states.contains_key(ip),
        times.len() < usize::MAX,
        forall|j: int| 0 <= j < times.len() ==> elapsed(times[0], #[trigger] times[j]) <= config.window_nanos,
    ensures
        forall|k: int|
            0 <= k < times.len() ==> #[trigger] counted(
                after_checks(states, ip, times.take(k), config.window_nanos),
                ip,
                times[k],
                config.window_nanos,
            ) == (ip, (k + 1) as usize, times[0]),
        forall|k: int|
            0 <= k < times.len() ==> (counted(
                after_checks(states, ip, times.take(k), config.window_nanos),
                ip,
                times[k],
                config.window_nanos,
            ).1 <= config.max_requests) == (k + 1 <= config.max_requests),
{
    assert forall|k: int| 0 <= k < times.len() implies #[trigger] counted(
        after_checks(states, ip, times.take(k), config.window_nanos),
        ip,
        times[k],
        config.window_nanos,
    ) == (ip, (k + 1) as usize, times[0]) by {
        if k == 0 {
            assert(times.take(0).len() == 0);
        } else {
            lemma_prefix_count(states, ip, times, config.window_nanos, k);
            assert(elapsed(times[0], times[k]) <= config.window_nanos);
        }
    }
}

} // verus!
