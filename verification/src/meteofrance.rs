//! Decisions of the Météo-France API client: classification of HTTP
//! responses, backoff schedule, the retry policy of a package download, and
//! the bearer-token cache.

use vstd::prelude::*;

use crate::text::{chars_of, parse_uint, push_decimal, trim_bounds};

verus! {

/// What to do after an HTTP response.
#[derive(Debug, Clone, PartialEq, Eq)]
pub enum RetryAction {
    /// Success status: consume the body.
    Success,
    /// Expired token: refresh it once and replay.
    RefreshTokenAndRetry,
    /// Throttling: wait `delay_s` seconds (`Retry-After`, else the default).
    BackoffAndRetry { delay_s: u64 },
    /// Transient error (5xx): exponential backoff and replay.
    TransientRetry { attempt: u32 },
    /// Hard error: propagate.
    Fail(String),
}

/// Delay used when a 429 response carries no usable `Retry-After`.
pub const DEFAULT_RATELIMIT_DELAY_S: u64 = 30;

/// Delay announced by a `Retry-After` header: its trimmed value parsed as an
/// unsigned integer, else the default delay.
pub open spec fn retry_after_delay(header: Option<Seq<char>>) -> u64 {
    match header {
        Some(h) => match crate::text::parse_uint_spec(crate::text::trim_spec(h), u64::MAX as nat) {
            Some(n) => n as u64,
            None => DEFAULT_RATELIMIT_DELAY_S,
        },
        None => DEFAULT_RATELIMIT_DELAY_S,
    }
}

/// Message of a hard failure for `status`: `hard http <status>`.
pub open spec fn hard_failure_message(status: u16) -> Seq<char> {
    seq!['h', 'a', 'r', 'd', ' ', 'h', 't', 't', 'p', ' '] + crate::text::decimal(status as nat)
}

/// Classification of an HTTP response.
pub open spec fn classify_spec(
    status: u16,
    retry_after: Option<Seq<char>>,
    attempt: u32,
    r: RetryAction,
) -> bool {
    if status == 200 || status == 206 {
        r == RetryAction::Success
    } else if status == 401 {
        r == RetryAction::RefreshTokenAndRetry
    } else if status == 429 {
        r == RetryAction::BackoffAndRetry { delay_s: retry_after_delay(retry_after) }
    } else if 500 <= status <= 599 {
        r == RetryAction::TransientRetry { attempt }
    } else {
        r matches RetryAction::Fail(m) && m@ == hard_failure_message(status)
    }
}

/// View of an optional header value.
pub open spec fn opt_view(h: Option<&str>) -> Option<Seq<char>> {
    match h {
        Some(s) => Some(s@),
        None => None,
    }
}

/// Parses a `Retry-After` header value (trimmed, unsigned seconds).
fn parse_retry_after(h: &str) -> (r: Option<u64>)
    ensures
        match crate::text::parse_uint_spec(crate::text::trim_spec(h@), u64::MAX as nat) {
            Some(n) => r == Some(n as u64),
            None => r is None,
        },
{
    let v = chars_of(h);
    let (a, b) = trim_bounds(&v, 0, v.len());
    proof {
        assert(v@.subrange(0, v@.len() as int) =~= h@);
    }
    parse_uint(&v, a, b, u64::MAX)
}

/// Classifies an HTTP response into a [`RetryAction`].
pub fn classify_response(status: u16, retry_after_header: Option<&str>, attempt: u32) -> (r:
    RetryAction)
    ensures
        classify_spec(status, opt_view(retry_after_header), attempt, r),
        500 <= status <= 599 ==> r == (RetryAction::TransientRetry { attempt }),
        (status == 200 || status == 206) <==> r == RetryAction::Success,
        status == 401 <==> r == RetryAction::RefreshTokenAndRetry,
        status == 429 <==> (r is BackoffAndRetry),
        (r is Fail) <==> !(status == 200 || status == 206 || status == 401 || status == 429 || (500
            <= status <= 599)),
{
    if status == 200 || status == 206 {
        RetryAction::Success
    } else if status == 401 {
        RetryAction::RefreshTokenAndRetry
    } else if status == 429 {
        let delay_s = match retry_after_header {
            Some(h) => match parse_retry_after(h) {
                Some(n) => n,
                None => DEFAULT_RATELIMIT_DELAY_S,
            },
            None => DEFAULT_RATELIMIT_DELAY_S,
        };
        RetryAction::BackoffAndRetry { delay_s }
    } else if 500 <= status && status <= 599 {
        RetryAction::TransientRetry { attempt }
    } else {
        let mut m = String::new();
        m.push('h');
        m.push('a');
        m.push('r');
        m.push('d');
        m.push(' ');
        m.push('h');
        m.push('t');
        m.push('t');
        m.push('p');
        m.push(' ');
        push_decimal(&mut m, status as u64);
        proof {
            assert(m@ =~= hard_failure_message(status));
        }
        RetryAction::Fail(m)
    }
}

/// Exponential backoff schedule: 1, 4, 16, then 64 seconds.
pub open spec fn backoff_spec(attempt: u32) -> u64 {
    if attempt == 0 {
        1
    } else if attempt == 1 {
        4
    } else if attempt == 2 {
        16
    } else {
        64
    }
}

/// Exponential backoff: 1, 4, 16, 64 seconds, capped at 64.
pub fn backoff_seconds(attempt: u32) -> (r: u64)
    ensures
        r == backoff_spec(attempt),
{
    match attempt {
        0 => 1,
        1 => 4,
        2 => 16,
        _ => 64,
    }
}

/// The backoff never shrinks from one attempt to the next, and never exceeds
/// 64 seconds.
pub proof fn backoff_is_monotone_and_capped(a: u32, b: u32)
    requires
        a <= b,
    ensures
        backoff_spec(a) <= backoff_spec(b),
        backoff_spec(b) <= 64,
        backoff_spec(a) >= 1,
{
}

/// Number of retries allowed for transient (5xx) errors.
pub const MAX_TRANSIENT_RETRIES: u32 = 3;

/// Number of retries allowed after a 429.
pub const MAX_RATELIMIT_RETRIES: u32 = 3;

/// Retry bookkeeping of one package download.
#[derive(Debug, Clone, Copy, PartialEq, Eq)]
pub struct FetchRetryState {
    pub transient_attempt: u32,
    pub ratelimit_attempt: u32,
    pub already_refreshed_for_401: bool,
}

/// Next thing the download loop does after a response.
#[derive(Debug, Clone, PartialEq, Eq)]
pub enum FetchStep {
    /// Success: read and return the body.
    ReadBody,
    /// Force a token refresh, then replay the request.
    RefreshToken,
    /// Sleep `secs` seconds, then replay the request.
    Wait { secs: u64 },
    /// Second 401 in a row: authentication failure.
    FailRepeatedAuth,
    /// Too many 429: rate-limited failure announcing the last delay.
    FailRateLimited { retry_after_s: u64 },
    /// Too many 5xx: HTTP failure with the response body.
    FailTransient,
    /// Hard HTTP failure; the body is appended to `message`.
    FailHard { message: String },
}

/// Whether a step replays the request.
pub open spec fn is_retry(s: FetchStep) -> bool {
    s is RefreshToken || s is Wait
}

/// Invariant of the retry bookkeeping.
pub open spec fn fetch_state_wf(st: FetchRetryState) -> bool {
    st.transient_attempt <= MAX_TRANSIENT_RETRIES && st.ratelimit_attempt <= MAX_RATELIMIT_RETRIES
}

/// Replays still allowed from a state.
pub open spec fn retry_budget(st: FetchRetryState) -> nat {
    ((MAX_TRANSIENT_RETRIES - st.transient_attempt) + (MAX_RATELIMIT_RETRIES
        - st.ratelimit_attempt) + (if st.already_refreshed_for_401 {
        0int
    } else {
        1int
    })) as nat
}

/// The download policy after a response with `status`: one token refresh on
/// 401, at most three waits on 429, at most three exponential backoffs on
/// 5xx, and a hard failure on any other non-success status.
pub open spec fn fetch_step_spec(
    st: FetchRetryState,
    status: u16,
    retry_after: Option<Seq<char>>,
    next: FetchRetryState,
    step: FetchStep,
) -> bool {
    if status == 200 || status == 206 {
        step == FetchStep::ReadBody && next == st
    } else if status == 401 {
        if st.already_refreshed_for_401 {
            step == FetchStep::FailRepeatedAuth && next == st
        } else {
            step == FetchStep::RefreshToken && next == (FetchRetryState {
                already_refreshed_for_401: true,
                ..st
            })
        }
    } else if status == 429 {
        if st.ratelimit_attempt >= MAX_RATELIMIT_RETRIES {
            step == (FetchStep::FailRateLimited { retry_after_s: retry_after_delay(retry_after) })
                && next == st
        } else {
            step == (FetchStep::Wait { secs: retry_after_delay(retry_after) }) && next == (
            FetchRetryState { ratelimit_attempt: (st.ratelimit_attempt + 1) as u32, ..st })
        }
    } else if 500 <= status <= 599 {
        if st.transient_attempt >= MAX_TRANSIENT_RETRIES {
            step == FetchStep::FailTransient && next == st
        } else {
            step == (FetchStep::Wait { secs: backoff_spec(st.transient_attempt) }) && next == (
            FetchRetryState { transient_attempt: (st.transient_attempt + 1) as u32, ..st })
        }
    } else {
        step matches FetchStep::FailHard { message } && message@ == hard_failure_message(status)
            && next == st
    }
}

impl FetchRetryState {
    /// State before the first request.
    pub fn new() -> (st: Self)
        ensures
            st.transient_attempt == 0,
            st.ratelimit_attempt == 0,
            !st.already_refreshed_for_401,
            fetch_state_wf(st),
            retry_budget(st) == 7,
    {
        FetchRetryState { transient_attempt: 0, ratelimit_attempt: 0, already_refreshed_for_401: false }
    }

    /// Decides the next step after a response, and updates the bookkeeping.
    pub fn next_step(&mut self, status: u16, retry_after: Option<&str>) -> (step: FetchStep)
        requires
            fetch_state_wf(*old(self)),
        ensures
            fetch_step_spec(*old(self), status, opt_view(retry_after), *final(self), step),
            fetch_state_wf(*final(self)),
            is_retry(step) ==> retry_budget(*final(self)) < retry_budget(*old(self)),
            (500 <= status <= 599 && old(self).transient_attempt < MAX_TRANSIENT_RETRIES) ==> step
                == (FetchStep::Wait { secs: backoff_spec(old(self).transient_attempt) }),
            (500 <= status <= 599 && old(self).transient_attempt >= MAX_TRANSIENT_RETRIES) ==> step
                == FetchStep::FailTransient,
            (step is FailHard) <==> !(status == 200 || status == 206 || status == 401 || status
                == 429 || (500 <= status <= 599)),
    {
        let action = classify_response(status, retry_after, self.transient_attempt);
        match action {
            RetryAction::Success => FetchStep::ReadBody,
            RetryAction::RefreshTokenAndRetry => {
                if self.already_refreshed_for_401 {
                    FetchStep::FailRepeatedAuth
                } else {
                    self.already_refreshed_for_401 = true;
                    FetchStep::RefreshToken
                }
            },
            RetryAction::BackoffAndRetry { delay_s } => {
                if self.ratelimit_attempt >= MAX_RATELIMIT_RETRIES {
                    FetchStep::FailRateLimited { retry_after_s: delay_s }
                } else {
                    self.ratelimit_attempt = self.ratelimit_attempt + 1;
                    FetchStep::Wait { secs: delay_s }
                }
            },
            RetryAction::TransientRetry { attempt } => {
                if attempt >= MAX_TRANSIENT_RETRIES {
                    FetchStep::FailTransient
                } else {
                    let secs = backoff_seconds(attempt);
                    self.transient_attempt = self.transient_attempt + 1;
                    FetchStep::Wait { secs }
                }
            },
            RetryAction::Fail(message) => FetchStep::FailHard { message },
        }
    }
}

/// A download replays its request at most seven times: every replay spends
/// budget, and a fresh download starts with a budget of seven.
pub proof fn fetch_replays_are_bounded(
    st: FetchRetryState,
    status: u16,
    retry_after: Option<Seq<char>>,
    next: FetchRetryState,
    step: FetchStep,
)
    requires
        fetch_state_wf(st),
        fetch_step_spec(st, status, retry_after, next, step),
    ensures
        fetch_state_wf(next),
        is_retry(step) ==> retry_budget(next) < retry_budget(st),
        !is_retry(step) ==> next == st,
        retry_budget(st) <= 7,
{
}

/// Every server error (500 to 599, both included) is transient and keeps
/// the attempt it was given; the only hard failures are the statuses other
/// than 200, 206, 401, 429 and 5xx.
pub proof fn server_errors_are_transient(
    status: u16,
    retry_after: Option<Seq<char>>,
    attempt: u32,
    r: RetryAction,
)
    requires
        classify_spec(status, retry_after, attempt, r),
    ensures
        500 <= status <= 599 ==> r == (RetryAction::TransientRetry { attempt }),
        (r is Fail) <==> !(status == 200 || status == 206 || status == 401 || status == 429 || (500
            <= status <= 599)),
        (r is Success) <==> (status == 200 || status == 206),
{
}

/// A download that meets a server error backs off 1, 4 and 16 seconds on
/// its first three server errors, then fails; a fresh download waits one
/// second after its first server error.
pub proof fn server_errors_back_off_then_fail(
    st: FetchRetryState,
    status: u16,
    retry_after: Option<Seq<char>>,
    next: FetchRetryState,
    step: FetchStep,
)
    requires
        fetch_state_wf(st),
        fetch_step_spec(st, status, retry_after, next, step),
        500 <= status <= 599,
    ensures
        st.transient_attempt == 0 ==> step == (FetchStep::Wait { secs: 1 }),
        st.transient_attempt == 1 ==> step == (FetchStep::Wait { secs: 4 }),
        st.transient_attempt == 2 ==> step == (FetchStep::Wait { secs: 16 }),
        st.transient_attempt >= MAX_TRANSIENT_RETRIES ==> step == FetchStep::FailTransient,
        next.transient_attempt == (if st.transient_attempt < MAX_TRANSIENT_RETRIES {
            st.transient_attempt + 1
        } else {
            st.transient_attempt as int
        }),
{
}

/// Identifier of an AROME-OM territory in the API.
#[derive(Debug, Clone, Copy, PartialEq, Eq, Structural)]
pub enum AromeOmTerritory {
    Reunion,
}

impl AromeOmTerritory {
    /// Model identifier used in the URL path (`AROME-OM-INDIEN` for the
    /// Indian Ocean domain, as the API names it).
    pub fn model_id(&self) -> (r: &'static str)
        ensures
            r@ == seq!['A', 'R', 'O', 'M', 'E', '-', 'O', 'M', '-', 'I', 'N', 'D', 'I', 'E', 'N'],
    {
        proof {
            reveal_strlit("AROME-OM-INDIEN");
        }
        match self {
            AromeOmTerritory::Reunion => "AROME-OM-INDIEN",
        }
    }

    /// Grid identifier used in the URL path (0.025° for every territory).
    pub fn grid_id(&self) -> (r: &'static str)
        ensures
            r@ == seq!['0', '.', '0', '2', '5'],
    {
        proof {
            reveal_strlit("0.025");
        }
        "0.025"
    }
}

// ----- bearer-token cache -------------------------------------------------

/// Largest Unix timestamp of a `chrono::DateTime<Utc>` (end of year 262142).
pub const MAX_UTC_TIMESTAMP: i64 = 8210266876799;

/// Smallest Unix timestamp of a `chrono::DateTime<Utc>` (start of year -262143).
pub const MIN_UTC_TIMESTAMP: i64 = -8334601315200;

/// Margin before expiry from which a cached token is refreshed.
pub const TOKEN_REFRESH_MARGIN_S: i64 = 60;

/// An instant: seconds since the Unix epoch (UTC) and nanoseconds.
#[derive(Debug, Clone, Copy, PartialEq, Eq, Structural)]
pub struct UtcInstant {
    pub secs: i64,
    pub nanos: u32,
}

/// An instant that `chrono::DateTime<Utc>` holds, outside a leap second.
pub open spec fn instant_wf(t: UtcInstant) -> bool {
    MIN_UTC_TIMESTAMP <= t.secs <= MAX_UTC_TIMESTAMP && t.nanos < 1_000_000_000
}

/// `a` strictly before `b`.
pub open spec fn instant_lt(a: UtcInstant, b: UtcInstant) -> bool {
    a.secs < b.secs || (a.secs == b.secs && a.nanos < b.nanos)
}

/// `t` moved by `secs` seconds.
pub open spec fn instant_plus(t: UtcInstant, secs: int) -> UtcInstant {
    UtcInstant { secs: (t.secs + secs) as i64, nanos: t.nanos }
}

/// A token and the instant at which it expires.
#[derive(Debug, Clone)]
pub struct CachedToken {
    pub token: String,
    pub expires_at: UtcInstant,
}

/// The cached bearer token of the Météo-France portal, if any.
#[derive(Debug, Clone)]
pub struct TokenCache {
    pub cached: Option<CachedToken>,
}

/// The token that a read of the cache at `now` hands out: the cached one
/// while it expires more than the margin after `now`.
pub open spec fn valid_token_spec(c: TokenCache, now: UtcInstant) -> Option<Seq<char>> {
    match c.cached {
        Some(ct) => if instant_lt(instant_plus(now, TOKEN_REFRESH_MARGIN_S as int), ct.expires_at) {
            Some(ct.token@)
        } else {
            None
        },
        None => None,
    }
}

impl TokenCache {
    /// An empty cache.
    pub fn new() -> (c: Self)
        ensures
            c.cached is None,
    {
        TokenCache { cached: None }
    }

    /// The cached token if it expires more than [`TOKEN_REFRESH_MARGIN_S`]
    /// seconds after `now` (fast path); none when a refresh is due.
    pub fn valid_token(&self, now: UtcInstant) -> (r: Option<String>)
        requires
            instant_wf(now),
        ensures
            match valid_token_spec(*self, now) {
                Some(t) => r matches Some(s) && s@ == t,
                None => r is None,
            },
    {
        match &self.cached {
            Some(ct) => {
                let limit = now.secs + TOKEN_REFRESH_MARGIN_S;
                if limit < ct.expires_at.secs || (limit == ct.expires_at.secs && now.nanos
                    < ct.expires_at.nanos) {
                    Some(crate::text::copy_string(&ct.token))
                } else {
                    None
                }
            },
            None => None,
        }
    }

    /// Records a token obtained at `now` that the server declares valid for
    /// `expires_in` seconds.
    pub fn store(&mut self, token: String, expires_in: u64, now: UtcInstant)
        requires
            instant_wf(now),
            now.secs + expires_in <= MAX_UTC_TIMESTAMP,
        ensures
            final(self).cached matches Some(ct) && ct.token@ == token@ && ct.expires_at
                == instant_plus(now, expires_in as int),
            instant_wf(instant_plus(now, expires_in as int)),
    {
        let expires_at = UtcInstant { secs: now.secs + expires_in as i64, nanos: now.nanos };
        self.cached = Some(CachedToken { token, expires_at });
    }
}

/// A token stored at `now` for `expires_in` seconds is handed out by every
/// read made before the margin preceding its expiry, and by none after.
pub proof fn token_read_after_store(
    token: Seq<char>,
    expires_in: int,
    now: UtcInstant,
    c: TokenCache,
    later: UtcInstant,
)
    requires
        instant_wf(now),
        instant_wf(later),
        0 <= expires_in,
        now.secs + expires_in <= MAX_UTC_TIMESTAMP,
        c.cached matches Some(ct) && ct.token@ == token && ct.expires_at == instant_plus(
            now,
            expires_in,
        ),
    ensures
        later.secs + TOKEN_REFRESH_MARGIN_S < now.secs + expires_in ==> valid_token_spec(c, later)
            == Some(token),
        later.secs + TOKEN_REFRESH_MARGIN_S >= now.secs + expires_in + 1 ==> valid_token_spec(
            c,
            later,
        ) is None,
        valid_token_spec(c, later) is Some ==> instant_lt(
            instant_plus(later, TOKEN_REFRESH_MARGIN_S as int),
            c.cached->0.expires_at,
        ),
{
}

// ----- product URL --------------------------------------------------------

/// Base URL of the public Météo-France API.
pub const PUBLIC_API_BASE: &'static str = "https://public-api.meteofrance.fr";

/// OAuth2 token endpoint of the Météo-France portal.
pub const TOKEN_ENDPOINT: &'static str = "https://portail-api.meteofrance.fr/token";

/// API namespace of the AROME-OM packages.
pub const AROME_OM_API_NAMESPACE: &'static str = "DPPaquetAROME-OM";

/// URL of a GRIB2 file of the AROME-OM package API.
pub open spec fn product_url_spec(
    base: Seq<char>,
    ns: Seq<char>,
    model: Seq<char>,
    grid: Seq<char>,
    package: Seq<char>,
    reference_time: crate::time::DateTime,
    time_window: Seq<char>,
) -> Seq<char> {
    crate::keys::trim_end_char(base, '/') + "/previnum/"@ + ns + "/v1/models/"@ + model
        + "/grids/"@ + grid + "/packages/"@ + package + "/productARO?referencetime="@
        + crate::time::iso_z_text(reference_time) + "&time="@ + time_window + "&format=grib2"@
}

/// Builds the URL of a GRIB2 file of the AROME-OM package API:
/// `{base}/previnum/{ns}/v1/models/{model}/grids/{grid}/packages/{package}/productARO?referencetime={%Y-%m-%dT%H:%M:%SZ}&time={window}&format=grib2`,
/// without the trailing `/` of `base`.
pub fn build_product_url(
    base: &str,
    api_namespace: &str,
    model: &str,
    grid: &str,
    package: &str,
    reference_time: crate::time::DateTime,
    time_window: &str,
) -> (r: String)
    requires
        crate::time::datetime_wf(reference_time),
    ensures
        r@ == product_url_spec(
            base@,
            api_namespace@,
            model@,
            grid@,
            package@,
            reference_time,
            time_window@,
        ),
{
    let mut s = crate::keys::trim_end_slashes(base);
    s.append("/previnum/");
    s.append(api_namespace);
    s.append("/v1/models/");
    s.append(model);
    s.append("/grids/");
    s.append(grid);
    s.append("/packages/");
    s.append(package);
    s.append("/productARO?referencetime=");
    crate::time::push_iso_z(&mut s, reference_time);
    s.append("&time=");
    s.append(time_window);
    s.append("&format=grib2");
    proof {
        assert(s@ =~= product_url_spec(
            base@,
            api_namespace@,
            model@,
            grid@,
            package@,
            reference_time,
            time_window@,
        ));
    }
    s
}

} // verus!
