use infoclimat_pipelines::meteofrance::{
    backoff_seconds, build_product_url, classify_response, FetchRetryState, FetchStep,
    RetryAction, TokenCache, UtcInstant, AromeOmTerritory, AROME_OM_API_NAMESPACE,
    DEFAULT_RATELIMIT_DELAY_S, PUBLIC_API_BASE,
};
use infoclimat_pipelines::time::{Date, DateTime};

fn utc(year: i32, month: u32, day: u32, hour: u32, minute: u32, second: u32) -> DateTime {
    DateTime { date: Date { year, month, day }, hour, minute, second, nanosecond: 0 }
}

#[test]
fn url_format_matches_meteofrance_spec() {
    let rt = utc(2026, 5, 28, 0, 0, 0);
    let url = build_product_url(
        PUBLIC_API_BASE,
        "DPPaquetAROME-OM",
        "AROME-INDIEN",
        "0.025",
        "SP1",
        rt,
        "00H06H",
    );
    assert_eq!(
        url,
        "https://public-api.meteofrance.fr/previnum/DPPaquetAROME-OM/v1/models/AROME-INDIEN/grids/0.025/packages/SP1/productARO?referencetime=2026-05-28T00:00:00Z&time=00H06H&format=grib2"
    );
}

#[test]
fn url_trims_trailing_slash_on_base() {
    let rt = utc(2026, 1, 1, 6, 0, 0);
    let url = build_product_url("https://x.example/", "NS", "M", "0.1", "SP1", rt, "07H12H");
    assert!(!url.contains("example//"));
    assert!(url.contains("time=07H12H"));
}

#[test]
fn url_of_the_territory_uses_its_model_and_grid() {
    let t = AromeOmTerritory::Reunion;
    let url = build_product_url(
        "https://b//",
        AROME_OM_API_NAMESPACE,
        t.model_id(),
        t.grid_id(),
        "SP2",
        utc(2026, 2, 3, 21, 0, 0),
        "012H",
    );
    assert_eq!(
        url,
        "https://b/previnum/DPPaquetAROME-OM/v1/models/AROME-OM-INDIEN/grids/0.025/packages/SP2/productARO?referencetime=2026-02-03T21:00:00Z&time=012H&format=grib2"
    );
}

#[test]
fn reunion_model_is_arome_om_indien() {
    assert_eq!(AromeOmTerritory::Reunion.model_id(), "AROME-OM-INDIEN");
    assert_eq!(AromeOmTerritory::Reunion.grid_id(), "0.025");
}

#[test]
fn classify_200_is_ok() {
    assert_eq!(classify_response(200, None, 0), RetryAction::Success);
}

#[test]
fn classify_206_is_ok() {
    assert_eq!(classify_response(206, None, 0), RetryAction::Success);
}

#[test]
fn classify_401_refreshes_token() {
    assert_eq!(classify_response(401, None, 0), RetryAction::RefreshTokenAndRetry);
}

#[test]
fn classify_429_with_retry_after() {
    assert_eq!(
        classify_response(429, Some("12"), 0),
        RetryAction::BackoffAndRetry { delay_s: 12 }
    );
}

#[test]
fn classify_429_without_retry_after_uses_default() {
    assert_eq!(
        classify_response(429, None, 0),
        RetryAction::BackoffAndRetry { delay_s: DEFAULT_RATELIMIT_DELAY_S }
    );
}

#[test]
fn classify_5xx_is_transient_retry_with_attempt() {
    assert_eq!(classify_response(503, None, 2), RetryAction::TransientRetry { attempt: 2 });
}

#[test]
fn classify_4xx_hard_fails() {
    match classify_response(403, None, 0) {
        RetryAction::Fail(_) => (),
        other => panic!("expected Fail, got {other:?}"),
    }
}

#[test]
fn classify_retry_after_is_trimmed_and_validated() {
    assert_eq!(
        classify_response(429, Some("  +7 "), 0),
        RetryAction::BackoffAndRetry { delay_s: 7 }
    );
    assert_eq!(
        classify_response(429, Some("soon"), 0),
        RetryAction::BackoffAndRetry { delay_s: 30 }
    );
    assert_eq!(classify_response(404, None, 0), RetryAction::Fail("hard http 404".to_string()));
    assert_eq!(classify_response(599, None, 1), RetryAction::TransientRetry { attempt: 1 });
    assert_eq!(classify_response(600, None, 1), RetryAction::Fail("hard http 600".to_string()));
}

#[test]
fn backoff_grows_exponentially_then_caps() {
    assert_eq!(backoff_seconds(0), 1);
    assert_eq!(backoff_seconds(1), 4);
    assert_eq!(backoff_seconds(2), 16);
    assert_eq!(backoff_seconds(3), 64);
    assert_eq!(backoff_seconds(99), 64);
}

#[test]
fn fetch_policy_refreshes_once_then_fails_on_repeated_401() {
    let mut st = FetchRetryState::new();
    assert_eq!(st.next_step(401, None), FetchStep::RefreshToken);
    assert_eq!(st.next_step(401, None), FetchStep::FailRepeatedAuth);
}

#[test]
fn fetch_policy_backs_off_three_times_on_5xx() {
    let mut st = FetchRetryState::new();
    assert_eq!(st.next_step(502, None), FetchStep::Wait { secs: 1 });
    assert_eq!(st.next_step(502, None), FetchStep::Wait { secs: 4 });
    assert_eq!(st.next_step(502, None), FetchStep::Wait { secs: 16 });
    assert_eq!(st.next_step(502, None), FetchStep::FailTransient);
    assert_eq!(st.next_step(200, None), FetchStep::ReadBody);
}

#[test]
fn fetch_policy_waits_three_times_on_429() {
    let mut st = FetchRetryState::new();
    assert_eq!(st.next_step(429, Some("5")), FetchStep::Wait { secs: 5 });
    assert_eq!(st.next_step(429, None), FetchStep::Wait { secs: 30 });
    assert_eq!(st.next_step(429, Some("2")), FetchStep::Wait { secs: 2 });
    assert_eq!(st.next_step(429, Some("9")), FetchStep::FailRateLimited { retry_after_s: 9 });
    assert_eq!(
        st.next_step(418, None),
        FetchStep::FailHard { message: "hard http 418".to_string() }
    );
}

#[test]
fn token_is_reused_until_the_refresh_margin() {
    let mut cache = TokenCache::new();
    let t0 = UtcInstant { secs: 1_780_000_000, nanos: 0 };
    assert_eq!(cache.valid_token(t0), None);
    cache.store("abc".to_string(), 3600, t0);
    assert_eq!(cache.valid_token(t0), Some("abc".to_string()));
    let just_before = UtcInstant { secs: 1_780_000_000 + 3600 - 61, nanos: 999_999_999 };
    assert_eq!(cache.valid_token(just_before), Some("abc".to_string()));
    let at_margin = UtcInstant { secs: 1_780_000_000 + 3600 - 60, nanos: 0 };
    assert_eq!(cache.valid_token(at_margin), None);
}
