use gau_rs::config::{
    construct_client_settings, descriptor_limit, parse_redirect_policy, worker_threads,
    ClientSettings, ConfigError, LoadTestConfig, Method, RedirectPolicy, REQUEST_TIMEOUT_SECONDS,
};

fn invalid(text: &str) -> Result<RedirectPolicy, String> {
    Err(format!("Invalid value '{}'. Expected: None, Default, Limit=<number>", text))
}

fn invalid_number() -> Result<RedirectPolicy, String> {
    Err("Invalid number for Limit (expected Limit=<number>)".to_string())
}

#[test]
fn none_and_default_in_any_case() {
    for text in ["none", "None", "NONE", "nOnE"] {
        assert_eq!(parse_redirect_policy(text), Ok(RedirectPolicy::Never));
    }
    for text in ["default", "Default", "DEFAULT", "deFault"] {
        assert_eq!(parse_redirect_policy(text), Ok(RedirectPolicy::Default));
    }
}

#[test]
fn limits() {
    assert_eq!(parse_redirect_policy("limit=5"), Ok(RedirectPolicy::Limit(5)));
    assert_eq!(parse_redirect_policy("limit=0"), Ok(RedirectPolicy::Limit(0)));
    assert_eq!(parse_redirect_policy("limit=+12"), Ok(RedirectPolicy::Limit(12)));
    assert_eq!(parse_redirect_policy("limit=010"), Ok(RedirectPolicy::Limit(10)));
    assert_eq!(parse_redirect_policy("limit=4294967295"), Ok(RedirectPolicy::Limit(u32::MAX)));
}

#[test]
fn limits_that_are_no_numbers() {
    for text in ["limit=", "limit=abc", "limit=-1", "limit=4294967296", "limit= 5", "limit=5 ", "limit=1.5"] {
        assert_eq!(parse_redirect_policy(text), invalid_number(), "{:?}", text);
    }
}

#[test]
fn the_prefix_of_a_limit_is_in_lower_case() {
    for text in ["Limit=5", "LIMIT=5", "limit", "limit 5", "", "follow", "nonee", " none", "limi=5"] {
        assert_eq!(parse_redirect_policy(text), invalid(text), "{:?}", text);
    }
}

#[test]
fn from_str_and_from_lowered_agree() {
    for text in ["none", "Default", "limit=3", "Limit=3", "limit=x", "else"] {
        let lowered = text.to_lowercase();
        assert_eq!(RedirectPolicy::from_str(text), parse_redirect_policy(text));
        assert_eq!(RedirectPolicy::from_lowered(text, &lowered), parse_redirect_policy(text));
    }
}

#[test]
fn from_lowered_looks_at_both_texts() {
    // The lowercase form decides on none and default, the text itself on a limit.
    assert_eq!(RedirectPolicy::from_lowered("anything", "none"), Ok(RedirectPolicy::Never));
    assert_eq!(RedirectPolicy::from_lowered("limit=5", "default"), Ok(RedirectPolicy::Default));
    assert_eq!(RedirectPolicy::from_lowered("limit=9", "whatever"), Ok(RedirectPolicy::Limit(9)));
    assert_eq!(RedirectPolicy::from_lowered("NONE", "NONE"), invalid("NONE"));
}

#[test]
fn methods() {
    assert_eq!(Method::parse("GET"), Ok(Method::Get));
    assert_eq!(Method::parse("POST"), Ok(Method::Post));
    for text in ["get", "Post", "PUT", "", "GET ", "DELETE"] {
        assert_eq!(Method::parse(text), Err(ConfigError::UnsupportedMethod));
    }
    assert_eq!(ConfigError::UnsupportedMethod.message(), "Invalid HTTP method");
}

#[test]
fn every_error_has_its_message() {
    assert_eq!(
        ConfigError::ZeroConcurrency.message(),
        "The number of concurrent requests must be at least 1"
    );
    assert_eq!(
        ConfigError::ZeroRatePeriod.message(),
        "The rate limit leaves no time between two requests"
    );
}

#[test]
fn client_settings() {
    let expected = ClientSettings {
        timeout_seconds: 60,
        tcp_nodelay: true,
        redirect_policy: RedirectPolicy::Limit(3),
    };
    assert_eq!(construct_client_settings(RedirectPolicy::Limit(3), 1), expected);
    assert_eq!(construct_client_settings(RedirectPolicy::Limit(3), 1000), expected);
    assert_eq!(REQUEST_TIMEOUT_SECONDS, 60);
    assert_eq!(
        construct_client_settings(RedirectPolicy::Never, 1).redirect_policy,
        RedirectPolicy::Never
    );
}

#[test]
fn at_least_one_worker() {
    assert_eq!(worker_threads(0), 1);
    assert_eq!(worker_threads(1), 1);
    assert_eq!(worker_threads(8), 8);
    assert_eq!(worker_threads(255), 255);
}

#[test]
fn descriptor_limits() {
    assert_eq!(descriptor_limit(1024, 100, 4), None);
    assert_eq!(descriptor_limit(100, 100, 4), None);
    assert_eq!(descriptor_limit(99, 100, 4), Some(499));
    assert_eq!(descriptor_limit(0, 1, 0), Some(0));
    assert_eq!(
        descriptor_limit(u32::MAX as u64 - 1, u32::MAX, u32::MAX),
        Some(u32::MAX as u64 - 1 + (u32::MAX as u64) * (u32::MAX as u64))
    );
}

fn config(
    method: &str,
    data: Option<&str>,
    concurrent_requests: u32,
    tasks: u8,
    sleep: Option<u128>,
    rate_period: Option<u64>,
) -> Result<LoadTestConfig, ConfigError> {
    LoadTestConfig::new(
        "title".to_string(),
        "http://localhost:8080/".to_string(),
        method,
        data.map(|d| d.to_string()),
        Some("{\"Accept\": \"text/plain\"}".to_string()),
        concurrent_requests,
        tasks,
        30,
        sleep,
        rate_period,
        RedirectPolicy::Limit(2),
    )
}

#[test]
fn a_valid_configuration() {
    let config = config("POST", Some("payload"), 16, 0, Some(250), Some(1_000_000)).unwrap();
    assert_eq!(config.title(), "title");
    assert_eq!(config.url(), "http://localhost:8080/");
    assert_eq!(config.method(), Method::Post);
    assert_eq!(config.body(), Some(&"payload".to_string()));
    assert_eq!(config.concurrency(), 16);
    assert_eq!(config.workers(), 1);
    assert_eq!(config.run_seconds(), 30);
    assert_eq!(config.delay_millis(), Some(250));
    assert_eq!(config.rate_period(), Some(1_000_000));
    assert_eq!(config.redirect_policy(), RedirectPolicy::Limit(2));
    assert_eq!(config.headers().len(), 1);
    assert_eq!(config.headers().fields()[0], ("accept".to_string(), "text/plain".to_string()));
    assert_eq!(config.client_settings().redirect_policy, RedirectPolicy::Limit(2));
    assert_eq!(config.client_settings().timeout_seconds, 60);
    assert_eq!(config.admission().capacity(), 16);
    assert_eq!(config.admission().held(), 0);
    assert_eq!(config.dispatcher().limit(), 16);
    assert_eq!(config.dispatcher().outstanding(), 0);
}

#[test]
fn a_get_carries_no_body() {
    let config = config("GET", Some("payload"), 1, 4, None, None).unwrap();
    assert_eq!(config.method(), Method::Get);
    assert_eq!(config.body(), None);
    assert_eq!(config.workers(), 4);
    assert_eq!(config.delay_millis(), None);
    assert_eq!(config.rate_period(), None);
    let post = self::config("POST", None, 1, 4, None, None).unwrap();
    assert_eq!(post.body(), None);
}

#[test]
fn configurations_that_are_turned_down() {
    assert_eq!(config("PUT", None, 1, 1, None, None).err(), Some(ConfigError::UnsupportedMethod));
    assert_eq!(config("GET", None, 0, 1, None, None).err(), Some(ConfigError::ZeroConcurrency));
    assert_eq!(config("GET", None, 1, 1, None, Some(0)).err(), Some(ConfigError::ZeroRatePeriod));
    // The method is looked at first, then the concurrency.
    assert_eq!(config("PUT", None, 0, 1, None, Some(0)).err(), Some(ConfigError::UnsupportedMethod));
    assert_eq!(config("GET", None, 0, 1, None, Some(0)).err(), Some(ConfigError::ZeroConcurrency));
}

#[test]
fn a_long_delay_keeps_its_low_64_bits() {
    let config = config("GET", None, 1, 1, Some((1u128 << 64) + 5), None).unwrap();
    assert_eq!(config.delay_millis(), Some(5));
    let config = self::config("GET", None, 1, 1, Some(u64::MAX as u128), None).unwrap();
    assert_eq!(config.delay_millis(), Some(u64::MAX));
}

#[test]
fn a_policy_can_be_parsed_from_a_text() {
    assert_eq!("none".parse::<RedirectPolicy>(), Ok(RedirectPolicy::Never));
    assert_eq!("limit=7".parse::<RedirectPolicy>(), Ok(RedirectPolicy::Limit(7)));
    assert_eq!("Limit=7".parse::<RedirectPolicy>(), invalid("Limit=7"));
}
