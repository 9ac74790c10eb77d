//! The decisions of the local API gateway: who may call it, how many calls
//! a window admits, what a chat request becomes, what the metrics endpoint
//! says.

use vstd::prelude::*;
use std::collections::VecDeque;
use crate::engine::{
    any_blocked, any_invalid, messages_prepared, refusal_reason, redaction_applies, request_allowed,
    PolicyEngine,
};
use crate::text::{decimal, decimal_string, str_eq};
use crate::types::{Message, MessageRole, ModelRequest, PolicyDecision};

verus! {

#[verifier::external_type_specification]
#[verifier::external_body]
pub struct ExInstant(std::time::Instant);

/// `std::time::Instant::now`; nothing is claimed of the instant.
#[verifier::external_body]
fn instant_now() -> (t: std::time::Instant) {
    std::time::Instant::now()
}

/// `Instant::elapsed` in whole nanoseconds (`Duration::as_nanos`); nothing is
/// claimed of the time it reads.
#[verifier::external_body]
fn nanos_since(origin: &std::time::Instant) -> (n: u128) {
    origin.elapsed().as_nanos()
}

// ----- metrics --------------------------------------------------------------

/// A reading of the gateway's counters.
#[derive(Debug, Clone, Copy, Default)]
pub struct GatewayMetrics {
    pub requests_total: u64,
    pub active_requests: u64,
    pub error_responses_total: u64,
    pub auth_failures_total: u64,
    pub rate_limited_total: u64,
}

/// The Prometheus text exposition of a reading: for each counter a `TYPE`
/// line and a sample line.
pub open spec fn metrics_text(m: GatewayMetrics) -> Seq<char> {
    "# TYPE acer_gateway_requests_total counter\nacer_gateway_requests_total "@ + decimal(
        m.requests_total as nat,
    ) + "\n"@ + "# TYPE acer_gateway_active_requests gauge\nacer_gateway_active_requests "@ + decimal(
        m.active_requests as nat,
    ) + "\n"@ + "# TYPE acer_gateway_error_responses_total counter\nacer_gateway_error_responses_total "@
        + decimal(m.error_responses_total as nat) + "\n"@
        + "# TYPE acer_gateway_auth_failures_total counter\nacer_gateway_auth_failures_total "@ + decimal(
        m.auth_failures_total as nat,
    ) + "\n"@ + "# TYPE acer_gateway_rate_limited_total counter\nacer_gateway_rate_limited_total "@
        + decimal(m.rate_limited_total as nat) + "\n"@
}

impl GatewayMetrics {
    /// All counters at zero.
    pub fn new() -> (m: GatewayMetrics)
        ensures
            m.requests_total == 0,
            m.active_requests == 0,
            m.error_responses_total == 0,
            m.auth_failures_total == 0,
            m.rate_limited_total == 0,
    {
        GatewayMetrics {
            requests_total: 0,
            active_requests: 0,
            error_responses_total: 0,
            auth_failures_total: 0,
            rate_limited_total: 0,
        }
    }

    /// The body of the metrics endpoint for this reading.
    pub fn render(&self) -> (s: String)
        ensures
            s@ == metrics_text(*self),
    {
        let mut s = String::new();
        s.append("# TYPE acer_gateway_requests_total counter\nacer_gateway_requests_total ");
        s.append(decimal_string(self.requests_total).as_str());
        s.append("\n");
        s.append("# TYPE acer_gateway_active_requests gauge\nacer_gateway_active_requests ");
        s.append(decimal_string(self.active_requests).as_str());
        s.append("\n");
        s.append("# TYPE acer_gateway_error_responses_total counter\nacer_gateway_error_responses_total ");
        s.append(decimal_string(self.error_responses_total).as_str());
        s.append("\n");
        s.append("# TYPE acer_gateway_auth_failures_total counter\nacer_gateway_auth_failures_total ");
        s.append(decimal_string(self.auth_failures_total).as_str());
        s.append("\n");
        s.append("# TYPE acer_gateway_rate_limited_total counter\nacer_gateway_rate_limited_total ");
        s.append(decimal_string(self.rate_limited_total).as_str());
        s.append("\n");
        assert(s@ =~= metrics_text(*self));
        s
    }
}

// ----- rate limiting --------------------------------------------------------

/// What a rate limiter holds: its limit, its window in nanoseconds and the
/// times (nanoseconds on its own clock) of the requests it admitted and
/// still counts.
pub struct LimiterRecord {
    pub max_requests: u64,
    pub window_nanos: u128,
    pub requests: Seq<u128>,
}

/// A request admitted at `t` no longer counts at `now`: more than the window
/// has passed since.
pub open spec fn expired(t: u128, now: u128, window: u128) -> bool {
    now > t && now - t > window
}

/// The admitted requests left once the leading expired ones are dropped.
pub open spec fn prune(requests: Seq<u128>, now: u128, window: u128) -> Seq<u128>
    decreases requests.len(),
{
    if requests.len() > 0 && expired(requests[0], now, window) {
        prune(requests.drop_first(), now, window)
    } else {
        requests
    }
}

/// The limiter after a request at `now`, and whether it was admitted: a
/// request is admitted exactly when fewer than the limit still count.
pub open spec fn step(state: LimiterRecord, now: u128) -> (LimiterRecord, bool) {
    let kept = prune(state.requests, now, state.window_nanos);
    if kept.len() >= state.max_requests {
        (LimiterRecord { requests: kept, ..state }, false)
    } else {
        (LimiterRecord { requests: kept.push(now), ..state }, true)
    }
}

/// The limiter after requests at each of `times` in turn.
pub open spec fn after_requests(state: LimiterRecord, times: Seq<u128>) -> LimiterRecord
    decreases times.len(),
{
    if times.len() == 0 {
        state
    } else {
        step(after_requests(state, times.drop_last()), times.last()).0
    }
}

/// Dropping expired requests keeps a suffix of them.
pub proof fn lemma_prune_suffix(requests: Seq<u128>, now: u128, window: u128)
    ensures
        prune(requests, now, window).len() <= requests.len(),
        prune(requests, now, window) == requests.subrange(
            requests.len() - prune(requests, now, window).len(),
            requests.len() as int,
        ),
    decreases requests.len(),
{
    if requests.len() > 0 && expired(requests[0], now, window) {
        lemma_prune_suffix(requests.drop_first(), now, window);
        let p = prune(requests.drop_first(), now, window);
        assert(requests.drop_first().subrange(requests.len() - 1 - p.len(), requests.len() - 1) =~= requests.subrange(
            requests.len() - p.len(),
            requests.len() as int,
        ));
    } else {
        assert(requests.subrange(0, requests.len() as int) =~= requests);
    }
}

/// A limiter never counts more requests than its limit.
pub proof fn lemma_step_within_limit(state: LimiterRecord, now: u128)
    requires
        state.requests.len() <= state.max_requests,
    ensures
        step(state, now).0.requests.len() <= state.max_requests,
        step(state, now).0.max_requests == state.max_requests,
        step(state, now).0.window_nanos == state.window_nanos,
{
    lemma_prune_suffix(state.requests, now, state.window_nanos);
}

/// A limiter with nothing admitted yet.
pub open spec fn fresh_limiter(max_requests: u64, window_nanos: u128) -> LimiterRecord {
    LimiterRecord { max_requests, window_nanos, requests: Seq::empty() }
}

/// The clock readings never go back.
pub open spec fn non_decreasing(times: Seq<u128>) -> bool {
    forall|i: int, j: int| 0 <= i <= j < times.len() ==> times[i] <= times[j]
}

/// The limiter just before the request at `times[n]`.
pub open spec fn state_before(start: LimiterRecord, times: Seq<u128>, n: int) -> LimiterRecord {
    after_requests(start, times.take(n))
}

/// Whether the request at `times[n]` is admitted.
pub open spec fn admitted_at(start: LimiterRecord, times: Seq<u128>, n: int) -> bool {
    step(state_before(start, times, n), times[n]).1
}

/// The times of the admitted requests among the first `n`, in order.
pub open spec fn admitted_times(start: LimiterRecord, times: Seq<u128>, n: int) -> Seq<u128>
    decreases n,
{
    if n <= 0 {
        Seq::empty()
    } else if admitted_at(start, times, n - 1) {
        admitted_times(start, times, n - 1).push(times[n - 1])
    } else {
        admitted_times(start, times, n - 1)
    }
}

/// How many of the requests at `times[a]`, ..., `times[b - 1]` are admitted.
pub open spec fn admitted_between(start: LimiterRecord, times: Seq<u128>, a: int, b: int) -> nat
    decreases b - a,
{
    if b <= a {
        0
    } else {
        admitted_between(start, times, a, b - 1) + if admitted_at(start, times, b - 1) { 1nat } else { 0nat }
    }
}

/// Dropping expired requests drops only expired ones.
proof fn lemma_prune_drops_expired(requests: Seq<u128>, now: u128, window: u128)
    ensures
        forall|i: int| 0 <= i < requests.len() - prune(requests, now, window).len() ==> expired(#[trigger] requests[i], now, window),
    decreases requests.len(),
{
    lemma_prune_suffix(requests, now, window);
    if requests.len() > 0 && expired(requests[0], now, window) {
        let rest = requests.drop_first();
        lemma_prune_drops_expired(rest, now, window);
        assert forall|i: int| 0 <= i < requests.len() - prune(requests, now, window).len() implies expired(#[trigger] requests[i], now, window) by {
            if i > 0 {
                assert(requests[i] == rest[i - 1]);
            }
        }
    }
}

proof fn lemma_state_step(start: LimiterRecord, times: Seq<u128>, n: int)
    requires
        0 <= n < times.len(),
    ensures
        state_before(start, times, n + 1) == step(state_before(start, times, n), times[n]).0,
{
    assert(times.take(n + 1).drop_last() =~= times.take(n));
}

/// What the limiter counts is the admitted requests with a prefix dropped,
/// and every dropped one had expired by the latest request.
proof fn lemma_limiter_history(start: LimiterRecord, times: Seq<u128>, n: int) -> (d: int)
    requires
        start.requests.len() == 0,
        non_decreasing(times),
        0 <= n <= times.len(),
    ensures
        0 <= d <= admitted_times(start, times, n).len(),
        state_before(start, times, n).requests == admitted_times(start, times, n).subrange(
            d,
            admitted_times(start, times, n).len() as int,
        ),
        state_before(start, times, n).max_requests == start.max_requests,
        state_before(start, times, n).window_nanos == start.window_nanos,
        n > 0 ==> forall|e: int| 0 <= e < d ==> expired(#[trigger] admitted_times(start, times, n)[e], times[n - 1], start.window_nanos),
    decreases n,
{
    if n == 0 {
        assert(times.take(0) =~= Seq::<u128>::empty());
        assert(admitted_times(start, times, 0).subrange(0, 0) =~= start.requests);
        0
    } else {
        let m = n - 1;
        let d0 = lemma_limiter_history(start, times, m);
        lemma_state_step(start, times, m);
        let st = state_before(start, times, m);
        let now = times[m];
        let w = start.window_nanos;
        let am = admitted_times(start, times, m);
        let rec = st.requests;
        lemma_prune_suffix(rec, now, w);
        lemma_prune_drops_expired(rec, now, w);
        let kept = prune(rec, now, w);
        let dd = d0 + (rec.len() - kept.len());
        let an = admitted_times(start, times, n);
        assert forall|e: int| 0 <= e < dd implies expired(#[trigger] an[e], now, w) by {
            assert(an[e] == am[e]);
            if e < d0 {
                if m > 0 {
                    assert(expired(am[e], times[m - 1], w));
                    assert(times[m - 1] <= now);
                }
            } else {
                assert(am[e] == rec[e - d0]);
            }
        }
        if admitted_at(start, times, m) {
            assert(state_before(start, times, n).requests =~= an.subrange(dd, an.len() as int));
        } else {
            assert(state_before(start, times, n).requests =~= an.subrange(dd, an.len() as int));
        }
        dd
    }
}

/// The admitted requests among the first `j` are those among the first `a`
/// followed by the ones admitted from `a` on, which arrived no earlier than
/// `times[a]` and no later than `times[j - 1]`.
proof fn lemma_admitted_segment(start: LimiterRecord, times: Seq<u128>, a: int, j: int)
    requires
        non_decreasing(times),
        0 <= a <= j <= times.len(),
    ensures
        admitted_times(start, times, j).len() == admitted_times(start, times, a).len() + admitted_between(start, times, a, j),
        forall|e: int| admitted_times(start, times, a).len() <= e < admitted_times(start, times, j).len()
            ==> times[a] <= #[trigger] admitted_times(start, times, j)[e] && admitted_times(start, times, j)[e] <= times[j - 1],
    decreases j - a,
{
    if j > a {
        lemma_admitted_segment(start, times, a, j - 1);
        let prev = admitted_times(start, times, j - 1);
        let cur = admitted_times(start, times, j);
        assert forall|e: int| admitted_times(start, times, a).len() <= e < cur.len()
            implies times[a] <= #[trigger] cur[e] && cur[e] <= times[j - 1] by {
            if e < prev.len() {
                assert(cur[e] == prev[e]);
                assert(times[j - 2] <= times[j - 1]);
            }
        }
    }
}

/// A request admitted within a window that starts at `times[a]` finds fewer
/// than the limit admitted before it in that window.
proof fn lemma_admit_leaves_room(start: LimiterRecord, times: Seq<u128>, a: int, j: int)
    requires
        start.requests.len() == 0,
        non_decreasing(times),
        0 <= a <= j < times.len(),
        times[j] - times[a] <= start.window_nanos,
        admitted_at(start, times, j),
    ensures
        admitted_between(start, times, a, j) < start.max_requests,
{
    let d = lemma_limiter_history(start, times, j);
    lemma_admitted_segment(start, times, a, j);
    let st = state_before(start, times, j);
    let now = times[j];
    let w = start.window_nanos;
    let aj = admitted_times(start, times, j);
    let la = admitted_times(start, times, a).len() as int;
    let rec = st.requests;
    lemma_prune_suffix(rec, now, w);
    lemma_prune_drops_expired(rec, now, w);
    let kept = prune(rec, now, w);
    assert(kept.len() < st.max_requests);
    let c = admitted_between(start, times, a, j);
    if c > 0 {
        let dd = d + (rec.len() - kept.len());
        assert(la < aj.len());
        let t = aj[la];
        assert(times[a] <= t && t <= times[j - 1]);
        assert(times[j - 1] <= now);
        assert(!expired(t, now, w));
        if dd > la {
            if la < d {
                assert(expired(aj[la], times[j - 1], w));
            } else {
                assert(aj[la] == rec[la - d]);
            }
        }
    }
}

/// However long the history, no window admits more than the limit: of
/// requests arriving in order at non-decreasing times on a limiter that
/// started empty, at most `max_requests` of those arriving within any
/// stretch of `window_nanos` nanoseconds are admitted.
pub proof fn lemma_any_window_admits_at_most_limit(
    max_requests: u64,
    window_nanos: u128,
    times: Seq<u128>,
    a: int,
    b: int,
)
    requires
        non_decreasing(times),
        0 <= a < b <= times.len(),
        times[b - 1] - times[a] <= window_nanos,
    ensures
        admitted_between(fresh_limiter(max_requests, window_nanos), times, a, b) <= max_requests,
    decreases b - a,
{
    let start = fresh_limiter(max_requests, window_nanos);
    if b - 1 > a {
        assert(times[b - 2] <= times[b - 1]);
        lemma_any_window_admits_at_most_limit(max_requests, window_nanos, times, a, b - 1);
    }
    if admitted_at(start, times, b - 1) {
        lemma_admit_leaves_room(start, times, a, b - 1);
    }
}

/// Admits at most `max_requests` requests in any sliding window.
pub struct GatewayRateLimiter {
    max_requests: u64,
    window_nanos: u128,
    origin: std::time::Instant,
    requests: VecDeque<u128>,
}

impl View for GatewayRateLimiter {
    type V = LimiterRecord;

    closed spec fn view(&self) -> LimiterRecord {
        LimiterRecord { max_requests: self.max_requests, window_nanos: self.window_nanos, requests: self.requests@ }
    }
}

impl GatewayRateLimiter {
    /// A limiter that admits `max_requests` requests per window of
    /// `window_nanos` nanoseconds, with none admitted yet.
    pub fn new(max_requests: u64, window_nanos: u128) -> (l: GatewayRateLimiter)
        ensures
            l@ == (LimiterRecord { max_requests, window_nanos, requests: Seq::empty() }),
    {
        GatewayRateLimiter { max_requests, window_nanos, origin: instant_now(), requests: VecDeque::new() }
    }

    /// Decides a request arriving at `now` (nanoseconds on the limiter's
    /// clock): drops the requests that no longer count, then admits the new
    /// one if fewer than the limit remain.
    pub fn check_at(&mut self, now: u128) -> (b: bool)
        ensures
            (final(self)@, b) == step(old(self)@, now),
    {
        let ghost orig = self.requests@;
        let window = self.window_nanos;
        loop
            invariant
                window == self.window_nanos,
                self.max_requests == old(self).max_requests,
                self.window_nanos == old(self).window_nanos,
                orig == old(self)@.requests,
                prune(self.requests@, now, window) == prune(orig, now, window),
            ensures
                self.requests@ == prune(orig, now, window),
                self.max_requests == old(self).max_requests,
                self.window_nanos == old(self).window_nanos,
            decreases self.requests@.len(),
        {
            if self.requests.len() == 0 {
                break;
            }
            let front = self.requests[0];
            if !(now > front && now - front > window) {
                break;
            }
            let ghost before = self.requests@;
            self.requests.pop_front();
            assert(self.requests@ =~= before.drop_first());
        }
        let count = self.requests.len();
        if count as u64 >= self.max_requests {
            return false;
        }
        self.requests.push_back(now);
        true
    }

    /// Decides a request arriving now, by the limiter's own clock.
    pub fn check(&mut self) -> (b: bool)
        ensures
            exists|now: u128| (final(self)@, b) == step(old(self)@, now),
    {
        let now = nanos_since(&self.origin);
        self.check_at(now)
    }
}

// ----- access ---------------------------------------------------------------

/// Whether a caller presenting these headers may use the gateway: any caller
/// when no token is configured, otherwise one whose `Authorization` header
/// is `Bearer ` followed by the token or whose `x-api-key` header is the
/// token.
pub open spec fn authorized(expected: Option<Seq<char>>, authorization: Option<Seq<char>>, api_key: Option<Seq<char>>) -> bool {
    match expected {
        None => true,
        Some(e) => authorization == Some("Bearer "@ + e) || api_key == Some(e),
    }
}

/// The view of an optional string slice.
pub open spec fn opt_str(s: Option<&str>) -> Option<Seq<char>> {
    match s {
        Some(v) => Some(v@),
        None => None,
    }
}

/// Checks the `Authorization` and `x-api-key` header values against the
/// configured token.
pub fn is_authorized(expected: Option<&str>, authorization: Option<&str>, api_key: Option<&str>) -> (b: bool)
    ensures
        b == authorized(opt_str(expected), opt_str(authorization), opt_str(api_key)),
{
    match expected {
        None => true,
        Some(e) => {
            let bearer_ok = match authorization {
                Some(a) => {
                    let mut wanted = String::from_str("Bearer ");
                    wanted.append(e);
                    str_eq(a, wanted.as_str())
                },
                None => false,
            };
            let key_ok = match api_key {
                Some(k) => str_eq(k, e),
                None => false,
            };
            bearer_ok || key_ok
        },
    }
}

// ----- chat requests --------------------------------------------------------

/// The role a chat message names; unknown names are read as the user.
pub open spec fn role_named(name: Seq<char>) -> MessageRole {
    if name == "system"@ {
        MessageRole::System
    } else if name == "user"@ {
        MessageRole::User
    } else if name == "assistant"@ {
        MessageRole::Assistant
    } else if name == "tool"@ {
        MessageRole::Tool
    } else {
        MessageRole::User
    }
}

/// Reads a role name of the chat API.
pub fn role_from_name(name: &str) -> (r: MessageRole)
    ensures
        r == role_named(name@),
{
    if str_eq(name, "system") {
        MessageRole::System
    } else if str_eq(name, "user") {
        MessageRole::User
    } else if str_eq(name, "assistant") {
        MessageRole::Assistant
    } else if str_eq(name, "tool") {
        MessageRole::Tool
    } else {
        MessageRole::User
    }
}

/// One message of a chat completion request as the API receives it.
pub struct ChatMessageIn {
    pub role: String,
    pub content: String,
    pub name: Option<String>,
}

/// The model request a chat completion request stands for.
pub fn chat_model_request(
    model: String,
    messages: Vec<ChatMessageIn>,
    temperature_bits: Option<u32>,
    max_tokens: Option<usize>,
    stream: Option<bool>,
) -> (r: ModelRequest)
    ensures
        r.model == model,
        r.temperature_bits == temperature_bits,
        r.max_tokens == max_tokens,
        r.stream == stream,
        r.messages@.len() == messages@.len(),
        forall|i: int|
            0 <= i < messages@.len() ==> {
                &&& (#[trigger] r.messages@[i]).role == role_named(messages@[i].role@)
                &&& r.messages@[i].content == messages@[i].content
                &&& r.messages@[i].name == messages@[i].name
            },
{
    let ghost input = messages@;
    let mut rest = messages;
    let mut out: Vec<Message> = Vec::new();
    let mut taken: Vec<Message> = Vec::new();
    while rest.len() > 0
        invariant
            rest@ == input.take(rest@.len() as int),
            rest@.len() <= input.len(),
            taken@.len() == input.len() - rest@.len(),
            forall|i: int|
                0 <= i < taken@.len() ==> {
                    let j = input.len() - 1 - i;
                    &&& (#[trigger] taken@[i]).role == role_named(input[j].role@)
                    &&& taken@[i].content == input[j].content
                    &&& taken@[i].name == input[j].name
                },
        decreases rest@.len(),
    {
        let ghost n = rest@.len();
        let m = rest.pop().unwrap();
        assert(m == input[n - 1]);
        let role = role_from_name(m.role.as_str());
        taken.push(Message { role, content: m.content, name: m.name });
        assert(rest@ =~= input.take(n - 1));
    }
    let ghost rev = taken@;
    while taken.len() > 0
        invariant
            taken@ == rev.take(taken@.len() as int),
            rev.len() == input.len(),
            out@.len() == rev.len() - taken@.len(),
            forall|i: int|
                0 <= i < rev.len() ==> {
                    let j = input.len() - 1 - i;
                    &&& (#[trigger] rev[i]).role == role_named(input[j].role@)
                    &&& rev[i].content == input[j].content
                    &&& rev[i].name == input[j].name
                },
            forall|i: int| 0 <= i < out@.len() ==> #[trigger] out@[i] == rev[rev.len() - 1 - i],
        decreases taken@.len(),
    {
        let ghost n = taken@.len();
        let m = taken.pop().unwrap();
        assert(m == rev[n - 1]);
        out.push(m);
        assert(taken@ =~= rev.take(n - 1));
    }
    assert forall|i: int| 0 <= i < input.len() implies {
        &&& (#[trigger] out@[i]).role == role_named(input[i].role@)
        &&& out@[i].content == input[i].content
        &&& out@[i].name == input[i].name
    } by {
        assert(out@[i] == rev[rev.len() - 1 - i]);
    }
    ModelRequest { model, messages: out, temperature_bits, max_tokens, stream }
}

/// A refused gateway request: the HTTP status and the error message.
#[derive(Debug)]
pub struct GatewayRefusal {
    pub status: u16,
    pub message: String,
}

/// Runs a chat request through the policy engine. Refuses with 400 when the
/// policy cannot be applied, with 403 and the policy's reason when the
/// request is not allowed; otherwise returns the prepared request and the
/// decision.
pub fn authorize_chat(engine: &PolicyEngine, request: &ModelRequest) -> (r: Result<(ModelRequest, PolicyDecision), GatewayRefusal>)
    ensures
        ({
            let rules = engine.rules();
            let msgs = request.messages@;
            let model = request.model@;
            let blocked = any_blocked(rules.block_patterns, msgs);
            let invalid = any_invalid(rules.block_patterns, msgs);
            &&& invalid ==> (r matches Err(f) && f.status == 400 && "Policy validation failed: "@.is_prefix_of(f.message@))
            &&& !invalid && !request_allowed(rules, model, request.max_tokens, blocked) ==> (r matches Err(f) && f.status == 403
                && f.message@ == match refusal_reason(rules, model, request.max_tokens, blocked) {
                    Some(m) => m,
                    None => "Policy violation"@,
                })
            &&& !invalid && request_allowed(rules, model, request.max_tokens, blocked) ==> (r matches Ok((p, d)) && {
                &&& d.allowed
                &&& p.model@ == model
                &&& p.temperature_bits == request.temperature_bits
                &&& p.max_tokens == request.max_tokens
                &&& p.stream == request.stream
                &&& messages_prepared(
                    engine.redaction_patterns(),
                    msgs,
                    p.messages@,
                    redaction_applies(rules, model, blocked),
                )
            })
        }),
{
    match engine.prepare_request(request) {
        Err(e) => {
            let mut m = String::from_str("Policy validation failed: ");
            m.append(e.to_string().as_str());
            assert("Policy validation failed: "@.is_prefix_of(m@)) by {
                assert(m@.subrange(0, "Policy validation failed: "@.len() as int) =~= "Policy validation failed: "@);
            }
            Err(GatewayRefusal { status: 400, message: m })
        },
        Ok((prepared, decision)) => {
            if !decision.allowed {
                let message = match decision.reason {
                    Some(reason) => reason,
                    None => String::from_str("Policy violation"),
                };
                Err(GatewayRefusal { status: 403, message })
            } else {
                Ok((prepared, decision))
            }
        },
    }
}

} // verus!
