//! Load test configuration.

use vstd::prelude::*;

verus! {

/// Load test configuration.
#[derive(Debug)]
pub struct LoadTestConfig {
    /// Target URL.
    pub url: String,
    /// HTTP method (GET, POST, ...).
    pub method: String,
    /// Number of concurrent workers.
    pub concurrent: usize,
    /// Total number of requests.
    pub total: usize,
    /// Timeout of each request in milliseconds.
    pub timeout_ms: u64,
    /// Extra headers.
    pub headers: Vec<(String, String)>,
    /// Request body (for POST).
    pub body: Option<String>,
}

/// The URL of the default configuration.
pub open spec fn default_url() -> Seq<char> {
    "http://localhost:8080/api/health"@
}

impl Default for LoadTestConfig {
    /// `GET http://localhost:8080/api/health`, 10 workers, 100 requests,
    /// 5000 ms timeout, no headers, no body.
    fn default() -> (c: LoadTestConfig)
        ensures
            c.url@ == default_url(),
            c.method@ == "GET"@,
            c.concurrent == 10,
            c.total == 100,
            c.timeout_ms == 5000,
            c.headers@.len() == 0,
            c.body.is_none(),
    {
        LoadTestConfig {
            url: "http://localhost:8080/api/health".to_owned(),
            method: "GET".to_owned(),
            concurrent: 10,
            total: 100,
            timeout_ms: 5000,
            headers: Vec::new(),
            body: None,
        }
    }
}

impl LoadTestConfig {
    /// The default configuration aimed at `url`.
    pub fn new(url: &str) -> (c: LoadTestConfig)
        ensures
            c.url@ == url@,
            c.method@ == "GET"@,
            c.concurrent == 10,
            c.total == 100,
            c.timeout_ms == 5000,
            c.headers@.len() == 0,
            c.body.is_none(),
    {
        let mut c = LoadTestConfig::default();
        c.url = url.to_owned();
        c
    }

    /// Set the number of concurrent workers (at least 1).
    pub fn with_concurrent(self, concurrent: usize) -> (c: LoadTestConfig)
        ensures
            c == (LoadTestConfig {
                concurrent: if concurrent >= 1 {
                    concurrent
                } else {
                    1
                },
                ..self
            }),
    {
        let mut c = self;
        c.concurrent = if concurrent >= 1 {
            concurrent
        } else {
            1
        };
        c
    }

    /// Set the total number of requests (at least 1).
    pub fn with_total(self, total: usize) -> (c: LoadTestConfig)
        ensures
            c == (LoadTestConfig {
                total: if total >= 1 {
                    total
                } else {
                    1
                },
                ..self
            }),
    {
        let mut c = self;
        c.total = if total >= 1 {
            total
        } else {
            1
        };
        c
    }

    /// Set the HTTP method.
    pub fn with_method(self, method: &str) -> (c: LoadTestConfig)
        ensures
            c.method@ == method@,
            c.url == self.url && c.concurrent == self.concurrent && c.total == self.total,
            c.timeout_ms == self.timeout_ms && c.headers == self.headers && c.body == self.body,
    {
        let mut c = self;
        c.method = method.to_owned();
        c
    }

    /// Set the timeout in milliseconds.
    pub fn with_timeout(self, ms: u64) -> (c: LoadTestConfig)
        ensures
            c == (LoadTestConfig { timeout_ms: ms, ..self }),
    {
        let mut c = self;
        c.timeout_ms = ms;
        c
    }

    /// Add a header.
    pub fn with_header(self, key: &str, value: &str) -> (c: LoadTestConfig)
        ensures
            c.headers@.len() == self.headers@.len() + 1,
            forall|i: int| 0 <= i < self.headers@.len() ==> c.headers@[i] == self.headers@[i],
            c.headers@.last().0@ == key@ && c.headers@.last().1@ == value@,
            c.url == self.url && c.method == self.method && c.concurrent == self.concurrent,
            c.total == self.total && c.timeout_ms == self.timeout_ms && c.body == self.body,
    {
        let mut c = self;
        c.headers.push((key.to_owned(), value.to_owned()));
        c
    }

    /// Set the request body.
    pub fn with_body(self, body: &str) -> (c: LoadTestConfig)
        ensures
            c.body.is_some() && c.body.unwrap()@ == body@,
            c.url == self.url && c.method == self.method && c.concurrent == self.concurrent,
            c.total == self.total && c.timeout_ms == self.timeout_ms && c.headers == self.headers,
    {
        let mut c = self;
        c.body = Some(body.to_owned());
        c
    }

    /// Requests per concurrent worker: `total / concurrent`, at least 1.
    /// The number of workers must not be zero (the division would panic).
    pub fn requests_per_worker(&self) -> (n: usize)
        requires
            self.concurrent > 0,
        ensures
            n == if self.total / self.concurrent >= 1 {
                self.total / self.concurrent
            } else {
                1
            },
    {
        let q = self.total / self.concurrent;
        if q >= 1 {
            q
        } else {
            1
        }
    }
}

} // verus!
