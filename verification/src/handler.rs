//! The course of one request, decision by decision.
//!
//! The caller does what only it can do: it receives the request, asks the
//! persistent store, talks to the upstream. In between it asks here what
//! comes next.

use crate::cache::{lookup, CacheView};
use crate::config::ProviderView;
use crate::error::AppError;
use crate::json::upstream_error;
use crate::router::{parse_model, route, route_message, routed, Endpoint, Route, RouteError};
use crate::service::{classify_upstream, UpstreamStatus};
use crate::state::AppState;
use crate::stream::{replay, replays, Replay};
use crate::trusted::json::{
    bool_at, json_bool_at, json_quoted, json_string_at, json_value_at, json_with_string_at,
    some_text, string_at, value_at, with_string_at,
};
use vstd::prelude::*;

verus! {

/// The largest request body that is read, in bytes.
pub const MAX_BODY_BYTES: usize = 10_485_760;

/// What the gateway needs to know of a request.
#[derive(Debug)]
pub struct RequestInfo {
    /// The `model` field, where the body has one that is a text.
    pub model: Option<String>,
    /// The `stream` field, where the body has one that is a boolean.
    pub stream: Option<bool>,
    /// The fingerprint of the `messages` field.
    pub fingerprint: String,
    /// Which upstream address the request is for.
    pub endpoint: Endpoint,
    /// Whether the request came in on the endpoint that strips think blocks.
    pub no_think: bool,
}

/// The fingerprint of a request: its `messages`, written out compactly;
/// `null` where it has none.
pub open spec fn fingerprint_of(body: Seq<char>) -> Seq<char> {
    match json_value_at(body, "/messages"@) {
        Some(messages) => messages,
        None => "null"@,
    }
}

/// Whether `r` is what a request body reads as: a body that is no JSON is
/// an error; of any other the model, the stream flag and the fingerprint
/// are taken.
pub open spec fn request_read(
    body: Seq<char>,
    endpoint: Endpoint,
    no_think: bool,
    r: Result<RequestInfo, AppError>,
) -> bool {
    match json_string_at(body, "/model"@) {
        None => r is Err && r->Err_0 is Json && r->Err_0->Json_0@
            == "request body is not valid JSON"@,
        Some(model) => {
            &&& r is Ok
            &&& some_text(r->Ok_0.model) == model
            &&& r->Ok_0.stream == json_bool_at(body, "/stream"@)
            &&& r->Ok_0.fingerprint@ == fingerprint_of(body)
            &&& r->Ok_0.endpoint == endpoint
            &&& r->Ok_0.no_think == no_think
        },
    }
}

/// Reads a request body.
pub fn read_request(body: &str, endpoint: Endpoint, no_think: bool) -> (r: Result<
    RequestInfo,
    AppError,
>)
    ensures
        request_read(body@, endpoint, no_think, r),
{
    let model = match string_at(body, "/model") {
        Some(model) => model,
        None => {
            return Err(AppError::Json(String::from_str("request body is not valid JSON")));
        },
    };
    let stream = bool_at(body, "/stream");
    let fingerprint = match value_at(body, "/messages") {
        Some(messages) => messages,
        None => String::from_str("null"),
    };
    Ok(RequestInfo { model, stream, fingerprint, endpoint, no_think })
}

/// The body to send upstream: the request body with the route's model
/// name in place of the client's. `None` where the body is no JSON or has
/// no model.
pub fn upstream_body(body: &str, route: &Route) -> (r: Option<String>)
    ensures
        some_text(r) == json_with_string_at(body@, "/model"@, route.model@),
{
    with_string_at(body, "/model", route.model.as_str())
}

/// What the persistent store said of a fingerprint.
#[derive(Debug)]
pub enum StoreAnswer {
    /// It was not asked yet.
    NotAsked,
    /// It has no answer.
    Miss,
    /// It has this answer.
    Hit(String),
}

/// Where a replayed answer came from.
#[derive(Debug, Clone, Copy, PartialEq, Eq, Structural)]
pub enum CacheSource {
    Memory,
    Db,
}

impl CacheSource {
    /// The tag under which a hit is logged.
    pub fn tag(&self) -> (t: &'static str)
        ensures
            t@ == match *self {
                CacheSource::Memory => "memory"@,
                CacheSource::Db => "db"@,
            },
    {
        match self {
            CacheSource::Memory => "memory",
            CacheSource::Db => "db",
        }
    }
}

/// What comes next for a request.
#[derive(Debug)]
pub enum Step {
    /// Answer with this status and message.
    Refuse { status: u16, message: String },
    /// Ask the persistent store for the fingerprint, then come back.
    AskStore,
    /// Answer from the cache; no upstream is called.
    Replay { source: CacheSource, replay: Replay },
    /// Send the request upstream along this route.
    Forward { route: Route, strip_think: bool },
}

/// Whether a request asks for a stream.
pub open spec fn wants_stream(stream: Option<bool>) -> bool {
    stream == Some(true)
}

/// Whether `step` replays `answer` from `source`, or refuses where the
/// answer cannot be written as JSON.
pub open spec fn replayed(step: Step, source: CacheSource, answer: Seq<char>, stream: bool) -> bool {
    match json_quoted(answer) {
        Some(content) => step matches Step::Replay { source: s, replay: r } && s == source
            && replays(r, content, stream),
        None => step matches Step::Refuse { status, message } && status == 500 && message@
            == "cached answer cannot be replayed"@,
    }
}

/// Whether `step` is what routing came to: the route, or a refusal with
/// status 500 and the words of the routing failure.
pub open spec fn forwarded(
    step: Step,
    no_think: bool,
    ps: Seq<ProviderView>,
    model: Seq<char>,
    endpoint: Endpoint,
    providers_before: Map<Seq<char>, u64>,
    keys_before: Map<Seq<char>, u64>,
    providers_after: Map<Seq<char>, u64>,
    keys_after: Map<Seq<char>, u64>,
) -> bool {
    match step {
        Step::Forward { route, strip_think } => {
            &&& routed(
                ps,
                parse_model(model),
                endpoint,
                providers_before,
                keys_before,
                Ok(route),
                providers_after,
                keys_after,
            )
            &&& strip_think == (no_think && route.think)
        },
        Step::Refuse { status, message } => {
            &&& status == 500
            &&& exists|e: RouteError|
                routed(
                    ps,
                    parse_model(model),
                    endpoint,
                    providers_before,
                    keys_before,
                    Err(e),
                    providers_after,
                    keys_after,
                ) && message@ == #[trigger] route_message(e)
        },
        _ => false,
    }
}

/// What [`completions`] decides and leaves behind.
///
/// A request without a model is refused with status 400. A completion
/// request whose fingerprint is cached, in memory or in the store, is
/// replayed, and then no count changes and no route is made. Where memory
/// has no answer and a store exists that was not asked, it is asked.
/// Everything else is routed.
pub open spec fn decided(
    ps: Seq<ProviderView>,
    cache: CacheView,
    request: RequestInfo,
    store: StoreAnswer,
    has_store: bool,
    providers_before: Map<Seq<char>, u64>,
    keys_before: Map<Seq<char>, u64>,
    step: Step,
    providers_after: Map<Seq<char>, u64>,
    keys_after: Map<Seq<char>, u64>,
) -> bool {
    let unchanged = providers_after == providers_before && keys_after == keys_before;
    let cached = request.endpoint == Endpoint::Completions;
    if request.model is None {
        &&& unchanged
        &&& step matches Step::Refuse { status, message }
        &&& status == 400
        &&& message@ == "Missing or invalid model field"@
    } else if cached && lookup(cache.entries, request.fingerprint@) is Some {
        &&& unchanged
        &&& replayed(
            step,
            CacheSource::Memory,
            lookup(cache.entries, request.fingerprint@)->0,
            wants_stream(request.stream),
        )
    } else if cached && store is Hit {
        &&& unchanged
        &&& replayed(step, CacheSource::Db, store->Hit_0@, wants_stream(request.stream))
    } else if cached && has_store && store is NotAsked {
        &&& unchanged
        &&& step is AskStore
    } else {
        forwarded(
            step,
            request.no_think,
            ps,
            request.model->0@,
            request.endpoint,
            providers_before,
            keys_before,
            providers_after,
            keys_after,
        )
    }
}

/// After a cache hit no upstream request is made: the step is no route,
/// and no provider or key is counted.
pub proof fn lemma_cache_hit_calls_no_upstream(
    ps: Seq<ProviderView>,
    cache: CacheView,
    request: RequestInfo,
    store: StoreAnswer,
    has_store: bool,
    providers_before: Map<Seq<char>, u64>,
    keys_before: Map<Seq<char>, u64>,
    step: Step,
    providers_after: Map<Seq<char>, u64>,
    keys_after: Map<Seq<char>, u64>,
)
    requires
        decided(
            ps,
            cache,
            request,
            store,
            has_store,
            providers_before,
            keys_before,
            step,
            providers_after,
            keys_after,
        ),
        request.model is Some,
        request.endpoint == Endpoint::Completions,
        lookup(cache.entries, request.fingerprint@) is Some || store is Hit,
    ensures
        !(step is Forward),
        !(step is AskStore),
        providers_after == providers_before,
        keys_after == keys_before,
{
}

fn replay_step(source: CacheSource, answer: &str, stream: bool) -> (step: Step)
    ensures
        replayed(step, source, answer@, stream),
{
    match replay(answer, stream) {
        Some(r) => Step::Replay { source, replay: r },
        None => Step::Refuse {
            status: 500,
            message: String::from_str("cached answer cannot be replayed"),
        },
    }
}

/// Decides what comes next for a request that has passed authentication.
pub fn completions(
    state: &mut AppState,
    request: &RequestInfo,
    store: &StoreAnswer,
    has_store: bool,
) -> (step: Step)
    ensures
        decided(
            old(state).config@.providers,
            old(state).cache@,
            *request,
            *store,
            has_store,
            old(state).provider_counts(),
            old(state).key_counts(),
            step,
            final(state).provider_counts(),
            final(state).key_counts(),
        ),
        final(state).config == old(state).config,
        final(state).cache == old(state).cache,
        final(state).ip_ban_manager == old(state).ip_ban_manager,
{
    let model = match &request.model {
        Some(model) => model,
        None => {
            return Step::Refuse {
                status: 400,
                message: String::from_str("Missing or invalid model field"),
            };
        },
    };
    let stream = match request.stream {
        Some(s) => s,
        None => false,
    };
    if request.endpoint == Endpoint::Completions {
        if let Some(answer) = state.cache.get(request.fingerprint.as_str()) {
            return replay_step(CacheSource::Memory, answer.as_str(), stream);
        }
        match store {
            StoreAnswer::Hit(answer) => {
                return replay_step(CacheSource::Db, answer.as_str(), stream);
            },
            StoreAnswer::NotAsked => {
                if has_store {
                    return Step::AskStore;
                }
            },
            StoreAnswer::Miss => {},
        }
    }
    match route(
        &state.config,
        &mut state.provider_usage,
        &mut state.key_usage,
        model.as_str(),
        request.endpoint,
    ) {
        Ok(route) => {
            let strip_think = request.no_think && route.think;
            Step::Forward { route, strip_think }
        },
        Err(e) => {
            let message = String::from_str(e.message());
            assert(message@ == route_message(e));
            Step::Refuse { status: 500, message }
        },
    }
}

/// What to do with an upstream's answer.
#[derive(Debug)]
pub enum Relay {
    /// Pass the body on to the client.
    Pass,
    /// Answer with this status and JSON body; `invalid_key` says that the
    /// upstream turned the key down.
    Fail { status: u16, body: Option<String>, invalid_key: bool },
}

/// Whether `relay` is the answer to an upstream that replied with `status`:
/// a success passes; anything else becomes status 500 with a body that
/// holds the upstream's words and the provider's name.
pub open spec fn relayed(relay: Relay, status: u16, text: Seq<char>, provider: Seq<char>) -> bool {
    if 200 <= status < 300 {
        relay is Pass
    } else {
        &&& relay matches Relay::Fail { status: code, body, invalid_key }
        &&& code == 500
        &&& invalid_key == (status == 401 || status == 403)
        &&& match (json_quoted(text), json_quoted(provider)) {
            (Some(e), Some(p)) => body is Some && body->0@ == crate::json::upstream_error_body(
                e,
                p,
            ),
            _ => body is None,
        }
    }
}

/// Decides what to do with an upstream's answer, given its HTTP status and,
/// for a failure, the text of its body.
pub fn relay_upstream(status: u16, text: &str, provider: &str) -> (relay: Relay)
    ensures
        relayed(relay, status, text@, provider@),
{
    match classify_upstream(status) {
        UpstreamStatus::Success => Relay::Pass,
        UpstreamStatus::InvalidKey => Relay::Fail {
            status: 500,
            body: upstream_error(text, provider),
            invalid_key: true,
        },
        UpstreamStatus::Failure => Relay::Fail {
            status: 500,
            body: upstream_error(text, provider),
            invalid_key: false,
        },
    }
}

/// Whether a body of `len` bytes is read at all.
pub fn body_fits(len: usize) -> (fits: bool)
    ensures
        fits == (len <= MAX_BODY_BYTES),
{
    len <= MAX_BODY_BYTES
}

} // verus!
