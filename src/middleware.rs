use vstd::prelude::*;
use std::sync::Arc;
use crate::errors::{decimal, decimal_spec};
use crate::http::StatusCode;
use crate::response::{headers_view, str_eq_string, without_name, HeaderView, ResponseWriter};
use crate::types::Method;

verus! {

/// `hs` after setting header `k` to `v`, replacing those of that name.
pub open spec fn with_header(hs: Seq<HeaderView>, k: Seq<char>, v: Seq<char>) -> Seq<HeaderView> {
    without_name(hs, k).push((k, v))
}

/// Settings of the CORS middleware.
pub struct CorsConfig {
    pub allowed_origins: Vec<String>,
    pub allow_all: bool,
    pub allow_methods: String,
    pub allow_headers: String,
    pub allow_credentials: bool,
    pub max_age: Option<u32>,
}

impl Default for CorsConfig {
    /// Any origin, the usual methods, `Content-Type` and `Authorization`
    /// headers, no credentials, and a day of caching.
    fn default() -> (r: Self)
        ensures
            r.allowed_origins@.len() == 1,
            r.allowed_origins@[0]@ == "*"@,
            r.allow_all,
            r.allow_methods@ == "GET, POST, PUT, PATCH, DELETE, OPTIONS, HEAD"@,
            r.allow_headers@ == "Content-Type, Authorization"@,
            !r.allow_credentials,
            r.max_age == Some(86400u32),
    {
        let mut allowed_origins: Vec<String> = Vec::new();
        allowed_origins.push(String::from_str("*"));
        CorsConfig {
            allowed_origins,
            allow_all: true,
            allow_methods: String::from_str("GET, POST, PUT, PATCH, DELETE, OPTIONS, HEAD"),
            allow_headers: String::from_str("Content-Type, Authorization"),
            allow_credentials: false,
            max_age: Some(86400),
        }
    }
}

/// The allowed origins of a configuration, as text.
pub open spec fn origins_view(cfg: CorsConfig) -> Seq<Seq<char>> {
    cfg.allowed_origins@.map_values(|s: String| s@)
}

/// The headers after the CORS middleware ran on a request from `origin`.
pub open spec fn cors_headers(cfg: CorsConfig, origin: Option<Seq<char>>, hs: Seq<HeaderView>) -> Seq<HeaderView> {
    let h1 = with_header(hs, "Access-Control-Allow-Methods"@, cfg.allow_methods@);
    let h2 = with_header(h1, "Access-Control-Allow-Headers"@, cfg.allow_headers@);
    let h3 = if cfg.allow_all {
        with_header(h2, "Access-Control-Allow-Origin"@, "*"@)
    } else {
        match origin {
            Some(o) => if origins_view(cfg).contains(o) {
                with_header(h2, "Access-Control-Allow-Origin"@, o)
            } else {
                h2
            },
            None => h2,
        }
    };
    let h4 = if cfg.allow_credentials {
        with_header(h3, "Access-Control-Allow-Credentials"@, "true"@)
    } else {
        h3
    };
    match cfg.max_age {
        Some(n) => with_header(h4, "Access-Control-Max-Age"@, decimal_spec(n as nat)),
        None => h4,
    }
}

/// The CORS middleware.
pub struct Cors {
    pub config: Arc<CorsConfig>,
}

impl Cors {
    /// Adds the CORS headers for a request from `origin` (the value of its
    /// `Origin` header, if any) with `method`; a preflight `OPTIONS` request
    /// gets `204 No Content`.
    pub fn apply(&self, origin: Option<&str>, method: Option<Method>, res: &mut ResponseWriter)
        ensures
            headers_view(final(res).headers@) == cors_headers(
                *self.config,
                match origin {
                    Some(o) => Some(o@),
                    None => None,
                },
                headers_view(old(res).headers@),
            ),
            method == Some(Method::OPTIONS) ==> final(res).status == StatusCode::NoContent,
            method != Some(Method::OPTIONS) ==> final(res).status == old(res).status,
            final(res).body == old(res).body,
            final(res).has_error == old(res).has_error,
    {
        let cfg: &CorsConfig = &*self.config;
        res.set_header("Access-Control-Allow-Methods", cfg.allow_methods.as_str());
        res.set_header("Access-Control-Allow-Headers", cfg.allow_headers.as_str());
        if cfg.allow_all {
            res.set_header("Access-Control-Allow-Origin", "*");
        } else if let Some(o) = origin {
            if contains_str(&cfg.allowed_origins, o) {
                res.set_header("Access-Control-Allow-Origin", o);
            }
        }
        if cfg.allow_credentials {
            res.set_header("Access-Control-Allow-Credentials", "true");
        }
        if let Some(max) = cfg.max_age {
            let digits = decimal(max as u64);
            res.set_header("Access-Control-Max-Age", digits.as_str());
        }
        if method == Some(Method::OPTIONS) {
            res.status(StatusCode::NoContent);
        }
    }
}

/// Whether `list` holds the text `s`.
pub fn contains_str(list: &Vec<String>, s: &str) -> (r: bool)
    ensures
        r == list@.map_values(|x: String| x@).contains(s@),
{
    let ghost v = list@.map_values(|x: String| x@);
    let mut i: usize = 0;
    while i < list.len()
        invariant
            v == list@.map_values(|x: String| x@),
            i <= list@.len(),
            forall|j: int| 0 <= j < i ==> v[j] != s@,
        decreases list.len() - i,
    {
        if str_eq_string(&list[i], s) {
            assert(v[i as int] == s@);
            return true;
        }
        i = i + 1;
    }
    false
}

/// Headers that ask browsers for safer defaults.
pub open spec fn helmet_headers(hs: Seq<HeaderView>) -> Seq<HeaderView> {
    let h1 = with_header(hs, "X-DNS-Prefetch-Control"@, "off"@);
    let h2 = with_header(h1, "X-Frame-Options"@, "SAMEORIGIN"@);
    let h3 = with_header(h2, "X-Content-Type-Options"@, "nosniff"@);
    let h4 = with_header(h3, "Referrer-Policy"@, "no-referrer"@);
    with_header(h4, "Permissions-Policy"@, "geolocation=(), microphone=()"@)
}

/// Sets the security headers of [`helmet_headers`].
pub fn helmet(res: &mut ResponseWriter)
    ensures
        headers_view(final(res).headers@) == helmet_headers(headers_view(old(res).headers@)),
        final(res).status == old(res).status,
        final(res).body == old(res).body,
        final(res).has_error == old(res).has_error,
{
    res.set_header("X-DNS-Prefetch-Control", "off");
    res.set_header("X-Frame-Options", "SAMEORIGIN");
    res.set_header("X-Content-Type-Options", "nosniff");
    res.set_header("Referrer-Policy", "no-referrer");
    res.set_header("Permissions-Policy", "geolocation=(), microphone=()");
}

/// Settings of the rate limiter: at most `requests` requests per client in
/// each window of `per_seconds` seconds.
#[derive(Clone, Copy, Debug, PartialEq, Eq, Structural)]
pub struct RateLimiterConfig {
    pub requests: u32,
    pub per_seconds: u64,
}

/// What the rate limiter decided for one request of a client.
#[derive(Clone, Copy, Debug, PartialEq, Eq, Structural)]
pub struct RateDecision {
    /// The client's request count to store.
    pub count: u32,
    /// Whether the window starts again now.
    pub window_reset: bool,
    /// Whether the request may go on.
    pub allowed: bool,
}

impl RateLimiterConfig {
    /// Decides on a request of a client that has made `count` requests in a
    /// window that began `elapsed_secs` seconds ago. A window older than
    /// `per_seconds` starts again from zero; a client at the limit is
    /// refused and its count is kept.
    pub fn decide(&self, count: u32, elapsed_secs: u64) -> (r: RateDecision)
        ensures
            r.window_reset == (elapsed_secs > self.per_seconds),
            r.allowed == ((if r.window_reset { 0 } else { count }) < self.requests),
            r.allowed ==> r.count == (if r.window_reset { 0 } else { count }) + 1,
            !r.allowed ==> r.count == (if r.window_reset { 0 } else { count }),
    {
        let window_reset = elapsed_secs > self.per_seconds;
        let current: u32 = if window_reset {
            0
        } else {
            count
        };
        if current >= self.requests {
            RateDecision { count: current, window_reset, allowed: false }
        } else {
            RateDecision { count: current + 1, window_reset, allowed: true }
        }
    }
}

/// The response for a client over its rate limit.
pub fn too_many_requests(res: &mut ResponseWriter)
    ensures
        final(res).status == StatusCode::TooManyRequests,
        final(res).body@ == "Too Many Requests"@,
        final(res).has_error == old(res).has_error,
        final(res).headers == old(res).headers,
{
    res.status(StatusCode::TooManyRequests).send("Too Many Requests");
}

} // verus!
