//! The configuration of a run: the request method, the redirect policy and
//! the validated settings that the other parts work from.

use vstd::prelude::*;
use vstd::string::StringExecFns;
use crate::admission::{Admission, AdmissionView};
use crate::dispatch::{Dispatcher, DispatcherView};
use crate::headers::{headers_of, parse_from_json_string_headers, Fields, HeaderSet};
use crate::pacing::RateLimiter;
use crate::text::{characters, has_prefix, parse_u32, parsed_u32, same_text};

verus! {

/// How redirects are followed.
#[derive(Clone, Copy, Debug, PartialEq, Eq, Structural)]
pub enum RedirectPolicy {
    /// Redirects are not followed.
    Never,
    /// Redirects are followed up to the client's own bound.
    Default,
    /// Redirects are followed up to the given number of hops.
    Limit(u32),
}

/// The request method.
#[derive(Clone, Copy, Debug, PartialEq, Eq, Structural)]
pub enum Method {
    Get,
    Post,
}

/// The lowercase form of a text after `str::to_lowercase` of the standard
/// library, which follows the Unicode character database.
pub uninterp spec fn lowercase_of(text: Seq<char>) -> Seq<char>;

/// `str::to_lowercase` of the standard library. The contract names its
/// result `lowercase_of` of the text and claims nothing else of it.
#[verifier::external_body]
fn lowercase(text: &str) -> (r: String)
    ensures
        r@ == lowercase_of(text@),
{
    text.to_lowercase()
}

/// The redirect policy that the text `s` stands for, given its lowercase
/// form, or the message that says why it stands for none.
///
/// `none` and `default` count in any mix of cases. A limit is written
/// `limit=` in lower case, followed by the number of hops.
pub open spec fn redirect_policy_of(s: Seq<char>, lowered: Seq<char>) -> Result<
    RedirectPolicy,
    Seq<char>,
> {
    if lowered == "none"@ {
        Ok(RedirectPolicy::Never)
    } else if lowered == "default"@ {
        Ok(RedirectPolicy::Default)
    } else if "limit="@.is_prefix_of(s) {
        match parsed_u32(s.skip("limit="@.len() as int)) {
            Some(hops) => Ok(RedirectPolicy::Limit(hops)),
            None => Err("Invalid number for Limit (expected Limit=<number>)"@),
        }
    } else {
        Err("Invalid value '"@ + s + "'. Expected: None, Default, Limit=<number>"@)
    }
}

/// Whether a result of parsing is the one that the specification `expected`
/// gives: the same policy, or a message of the same characters.
pub open spec fn policy_result_is(
    r: Result<RedirectPolicy, String>,
    expected: Result<RedirectPolicy, Seq<char>>,
) -> bool {
    match r {
        Ok(policy) => expected == Ok::<RedirectPolicy, Seq<char>>(policy),
        Err(message) => expected == Err::<RedirectPolicy, Seq<char>>(message@),
    }
}

impl RedirectPolicy {
    /// Reads a redirect policy from the text `s`, whose lowercase form is
    /// `lowered`.
    pub fn from_lowered(s: &str, lowered: &str) -> (r: Result<RedirectPolicy, String>)
        ensures
            policy_result_is(r, redirect_policy_of(s@, lowered@)),
    {
        if same_text(lowered, "none") {
            return Ok(RedirectPolicy::Never);
        }
        if same_text(lowered, "default") {
            return Ok(RedirectPolicy::Default);
        }
        let text = characters(s);
        let prefix = characters("limit=");
        if has_prefix(text.as_slice(), prefix.as_slice()) {
            match parse_u32(text.as_slice(), prefix.len()) {
                Some(hops) => Ok(RedirectPolicy::Limit(hops)),
                None => Err("Invalid number for Limit (expected Limit=<number>)".to_owned()),
            }
        } else {
            let mut message = "Invalid value '".to_owned();
            message.append(s);
            message.append("'. Expected: None, Default, Limit=<number>");
            Err(message)
        }
    }

    /// Reads a redirect policy from a text.
    pub fn from_str(s: &str) -> (r: Result<RedirectPolicy, String>)
        ensures
            policy_result_is(r, redirect_policy_of(s@, lowercase_of(s@))),
    {
        let lowered = lowercase(s);
        RedirectPolicy::from_lowered(s, lowered.as_str())
    }
}

impl core::str::FromStr for RedirectPolicy {
    type Err = String;

    /// Reads a redirect policy from a text, as `RedirectPolicy::from_str`
    /// does.
    fn from_str(s: &str) -> (r: Result<RedirectPolicy, String>)
        ensures
            policy_result_is(r, redirect_policy_of(s@, lowercase_of(s@))),
    {
        RedirectPolicy::from_str(s)
    }
}

/// Reads a redirect policy from a command-line argument.
pub fn parse_redirect_policy(s: &str) -> (r: Result<RedirectPolicy, String>)
    ensures
        policy_result_is(r, redirect_policy_of(s@, lowercase_of(s@))),
{
    RedirectPolicy::from_str(s)
}

/// Why a configuration was turned down.
#[derive(Clone, Copy, Debug, PartialEq, Eq, Structural)]
pub enum ConfigError {
    /// The method is neither `GET` nor `POST`.
    UnsupportedMethod,
    /// The concurrency limit is zero.
    ZeroConcurrency,
    /// The distance between two paced requests is zero.
    ZeroRatePeriod,
}

impl ConfigError {
    /// The message that a failure is reported with.
    pub fn message(&self) -> (m: String)
        ensures
            m@ == match *self {
                ConfigError::UnsupportedMethod => "Invalid HTTP method"@,
                ConfigError::ZeroConcurrency => "The number of concurrent requests must be at least 1"@,
                ConfigError::ZeroRatePeriod => "The rate limit leaves no time between two requests"@,
            },
    {
        match self {
            ConfigError::UnsupportedMethod => "Invalid HTTP method".to_owned(),
            ConfigError::ZeroConcurrency => "The number of concurrent requests must be at least 1".to_owned(),
            ConfigError::ZeroRatePeriod => "The rate limit leaves no time between two requests".to_owned(),
        }
    }
}

/// The method that a text names: `GET` or `POST`, in upper case.
pub open spec fn method_of(s: Seq<char>) -> Option<Method> {
    if s == "GET"@ {
        Some(Method::Get)
    } else if s == "POST"@ {
        Some(Method::Post)
    } else {
        None
    }
}

impl Method {
    /// Reads a method from its name.
    pub fn parse(s: &str) -> (r: Result<Method, ConfigError>)
        ensures
            match r {
                Ok(m) => method_of(s@) == Some(m),
                Err(e) => method_of(s@) is None && e == ConfigError::UnsupportedMethod,
            },
    {
        if same_text(s, "GET") {
            Ok(Method::Get)
        } else if same_text(s, "POST") {
            Ok(Method::Post)
        } else {
            Err(ConfigError::UnsupportedMethod)
        }
    }
}

/// The time after which a request is given up, in seconds.
pub const REQUEST_TIMEOUT_SECONDS: u64 = 60;

/// The pause between the setup of a run and its start, in seconds.
pub const SETTLE_SECONDS: u64 = 2;

/// What the HTTP client of a run is built with.
#[derive(Clone, Copy, Debug, PartialEq, Eq, Structural)]
pub struct ClientSettings {
    /// The time after which a request is given up, in seconds.
    pub timeout_seconds: u64,
    /// Whether small packets are sent at once.
    pub tcp_nodelay: bool,
    /// How redirects are followed.
    pub redirect_policy: RedirectPolicy,
}

/// The settings of the client for a redirect policy. They are the same for
/// every concurrency.
pub fn construct_client_settings(redirect_policy: RedirectPolicy, concurrent_requests: u32) -> (r:
    ClientSettings)
    ensures
        r == (ClientSettings {
            timeout_seconds: REQUEST_TIMEOUT_SECONDS,
            tcp_nodelay: true,
            redirect_policy,
        }),
{
    ClientSettings { timeout_seconds: REQUEST_TIMEOUT_SECONDS, tcp_nodelay: true, redirect_policy }
}

/// The number of worker threads for a requested number: at least one.
pub fn worker_threads(tasks: u8) -> (n: usize)
    ensures
        n == if tasks == 0 {
            1
        } else {
            tasks as int
        },
{
    if tasks == 0 {
        1
    } else {
        tasks as usize
    }
}

/// The limit on open file descriptors that a run asks for. Where the
/// current limit is below the number of concurrent requests, it is raised by
/// `multiplier` descriptors for each of them; else it is left alone.
pub fn descriptor_limit(soft: u64, concurrent_requests: u32, multiplier: u32) -> (r: Option<u64>)
    ensures
        r == if soft < concurrent_requests {
            Some((soft + concurrent_requests * multiplier) as u64)
        } else {
            None
        },
        r matches Some(limit) ==> limit == soft + concurrent_requests * multiplier,
{
    if soft < concurrent_requests as u64 {
        assert(concurrent_requests * multiplier <= 0xFFFF_FFFF * 0xFFFF_FFFF) by (nonlinear_arith)
            requires
                0 <= concurrent_requests <= 0xFFFF_FFFF,
                0 <= multiplier <= 0xFFFF_FFFF,
        ;
        Some(soft + (concurrent_requests as u64) * (multiplier as u64))
    } else {
        None
    }
}

/// The body that a request carries: a `POST` carries the configured body,
/// a `GET` carries none.
pub open spec fn body_of(method: Method, data: Option<Seq<char>>) -> Option<Seq<char>> {
    match method {
        Method::Post => data,
        Method::Get => None,
    }
}

/// The mathematical content of a configuration.
pub struct LoadTestConfigView {
    pub title: Seq<char>,
    pub url: Seq<char>,
    pub method: Method,
    pub data: Option<Seq<char>>,
    pub headers: Fields,
    pub concurrency: nat,
    pub workers: nat,
    pub run_seconds: nat,
    pub delay_millis: Option<nat>,
    pub rate_period: Option<nat>,
    pub redirect_policy: RedirectPolicy,
}

/// The delay in milliseconds that a requested delay leads to: its low 64
/// bits.
pub open spec fn delay_of(sleep: Option<u128>) -> Option<nat> {
    match sleep {
        Some(ms) => Some((ms % 0x1_0000_0000_0000_0000) as nat),
        None => None,
    }
}

/// The period as a mathematical number.
pub open spec fn period_of(rate_period: Option<u64>) -> Option<nat> {
    match rate_period {
        Some(p) => Some(p as nat),
        None => None,
    }
}

/// The configuration that the given settings lead to, or why there is
/// none. The method is looked at first, then the concurrency, then the rate.
pub open spec fn config_of(
    title: Seq<char>,
    url: Seq<char>,
    method: Seq<char>,
    data: Option<Seq<char>>,
    headers: Option<Seq<char>>,
    concurrent_requests: u32,
    tasks: u8,
    run_time: u32,
    sleep: Option<u128>,
    rate_period: Option<u64>,
    redirect_policy: RedirectPolicy,
) -> Result<LoadTestConfigView, ConfigError> {
    match method_of(method) {
        None => Err(ConfigError::UnsupportedMethod),
        Some(m) => if concurrent_requests == 0 {
            Err(ConfigError::ZeroConcurrency)
        } else if rate_period == Some(0u64) {
            Err(ConfigError::ZeroRatePeriod)
        } else {
            Ok(
                LoadTestConfigView {
                    title,
                    url,
                    method: m,
                    data,
                    headers: headers_of(headers),
                    concurrency: concurrent_requests as nat,
                    workers: if tasks == 0 {
                        1
                    } else {
                        tasks as nat
                    },
                    run_seconds: run_time as nat,
                    delay_millis: delay_of(sleep),
                    rate_period: period_of(rate_period),
                    redirect_policy,
                },
            )
        },
    }
}

/// The validated configuration of a run.
#[derive(Debug)]
pub struct LoadTestConfig {
    title: String,
    url: String,
    method: Method,
    data: Option<String>,
    headers: HeaderSet,
    concurrency: u32,
    workers: usize,
    run_seconds: u32,
    delay_millis: Option<u64>,
    rate_period: Option<u64>,
    redirect_policy: RedirectPolicy,
}

impl View for LoadTestConfig {
    type V = LoadTestConfigView;

    closed spec fn view(&self) -> LoadTestConfigView {
        LoadTestConfigView {
            title: self.title@,
            url: self.url@,
            method: self.method,
            data: self.data.deep_view(),
            headers: self.headers@,
            concurrency: self.concurrency as nat,
            workers: self.workers as nat,
            run_seconds: self.run_seconds as nat,
            delay_millis: match self.delay_millis {
                Some(ms) => Some(ms as nat),
                None => None,
            },
            rate_period: period_of(self.rate_period),
            redirect_policy: self.redirect_policy,
        }
    }
}

impl LoadTestConfig {
    #[verifier::type_invariant]
    spec fn inv(self) -> bool {
        &&& self.concurrency >= 1
        &&& self.workers >= 1
        &&& self.rate_period != Some(0u64)
    }

    /// Validates the settings of a run. The method is `GET` or `POST`, the
    /// concurrency at least one, and the period between two paced requests,
    /// in nanoseconds, not zero. The headers are read from the text of a
    /// JSON object.
    pub fn new(
        title: String,
        url: String,
        method: &str,
        data: Option<String>,
        headers: Option<String>,
        concurrent_requests: u32,
        tasks: u8,
        run_time: u32,
        sleep: Option<u128>,
        rate_period: Option<u64>,
        redirect_policy: RedirectPolicy,
    ) -> (r: Result<LoadTestConfig, ConfigError>)
        ensures
            match r {
                Ok(config) => config_of(
                    title@,
                    url@,
                    method@,
                    data.deep_view(),
                    headers.deep_view(),
                    concurrent_requests,
                    tasks,
                    run_time,
                    sleep,
                    rate_period,
                    redirect_policy,
                ) == Ok::<LoadTestConfigView, ConfigError>(config@),
                Err(e) => config_of(
                    title@,
                    url@,
                    method@,
                    data.deep_view(),
                    headers.deep_view(),
                    concurrent_requests,
                    tasks,
                    run_time,
                    sleep,
                    rate_period,
                    redirect_policy,
                ) == Err::<LoadTestConfigView, ConfigError>(e),
            },
    {
        let method = match Method::parse(method) {
            Ok(m) => m,
            Err(e) => {
                return Err(e);
            },
        };
        if concurrent_requests == 0 {
            return Err(ConfigError::ZeroConcurrency);
        }
        match rate_period {
            Some(p) => {
                if p == 0 {
                    return Err(ConfigError::ZeroRatePeriod);
                }
            },
            None => {},
        }
        let delay_millis = match sleep {
            Some(ms) => Some((ms % 0x1_0000_0000_0000_0000) as u64),
            None => None,
        };
        Ok(
            LoadTestConfig {
                title,
                url,
                method,
                data,
                headers: parse_from_json_string_headers(headers),
                concurrency: concurrent_requests,
                workers: worker_threads(tasks),
                run_seconds: run_time,
                delay_millis,
                rate_period,
                redirect_policy,
            },
        )
    }

    /// The title of the run.
    pub fn title(&self) -> (r: &String)
        ensures
            r@ == self@.title,
    {
        &self.title
    }

    /// The target of the requests.
    pub fn url(&self) -> (r: &String)
        ensures
            r@ == self@.url,
    {
        &self.url
    }

    /// The request method.
    pub fn method(&self) -> (r: Method)
        ensures
            r == self@.method,
    {
        self.method
    }

    /// The body that each request carries: the configured body for a
    /// `POST`, none for a `GET`.
    pub fn body(&self) -> (r: Option<&String>)
        ensures
            r.deep_view() == body_of(self@.method, self@.data),
    {
        match self.method {
            Method::Post => self.data.as_ref(),
            Method::Get => None,
        }
    }

    /// The header fields that each request carries.
    pub fn headers(&self) -> (r: &HeaderSet)
        ensures
            r@ == self@.headers,
    {
        &self.headers
    }

    /// The concurrency limit; at least one.
    pub fn concurrency(&self) -> (n: u32)
        ensures
            n == self@.concurrency,
            n >= 1,
    {
        proof {
            use_type_invariant(self);
        }
        self.concurrency
    }

    /// The number of worker threads; at least one.
    pub fn workers(&self) -> (n: usize)
        ensures
            n == self@.workers,
            n >= 1,
    {
        proof {
            use_type_invariant(self);
        }
        self.workers
    }

    /// The length of the run in seconds.
    pub fn run_seconds(&self) -> (n: u32)
        ensures
            n == self@.run_seconds,
    {
        self.run_seconds
    }

    /// The pause before each request, in milliseconds, if there is one.
    pub fn delay_millis(&self) -> (r: Option<u64>)
        ensures
            match r {
                Some(ms) => self@.delay_millis == Some(ms as nat),
                None => self@.delay_millis is None,
            },
    {
        self.delay_millis
    }

    /// The distance between two paced requests, in nanoseconds, if the rate
    /// is limited; never zero.
    pub fn rate_period(&self) -> (r: Option<u64>)
        ensures
            period_of(r) == self@.rate_period,
            r != Some(0u64),
    {
        proof {
            use_type_invariant(self);
        }
        self.rate_period
    }

    /// How redirects are followed.
    pub fn redirect_policy(&self) -> (r: RedirectPolicy)
        ensures
            r == self@.redirect_policy,
    {
        self.redirect_policy
    }

    /// The settings that the client of the run is built with.
    pub fn client_settings(&self) -> (r: ClientSettings)
        ensures
            r == (ClientSettings {
                timeout_seconds: REQUEST_TIMEOUT_SECONDS,
                tcp_nodelay: true,
                redirect_policy: self@.redirect_policy,
            }),
    {
        construct_client_settings(self.redirect_policy, self.concurrency)
    }

    /// The permit source of the run: as many slots as the concurrency limit.
    pub fn admission(&self) -> (r: Admission)
        ensures
            r@ == AdmissionView::initial(self@.concurrency),
    {
        proof {
            use_type_invariant(self);
        }
        Admission::new(self.concurrency as usize).unwrap()
    }

    /// The dispatcher of the run, before its start: it allows as many
    /// outstanding tasks as the concurrency limit and paces by the
    /// configured period.
    pub fn dispatcher(&self) -> (r: Dispatcher)
        ensures
            r@ == DispatcherView::initial(
                self@.concurrency,
                self@.run_seconds,
                self@.rate_period,
            ),
            r@.wf(),
    {
        proof {
            use_type_invariant(self);
        }
        let pacer = match self.rate_period {
            Some(p) => RateLimiter::every(0, p),
            None => RateLimiter::unlimited(),
        };
        Dispatcher::new(self.concurrency as usize, self.run_seconds, pacer).unwrap()
    }
}

} // verus!
