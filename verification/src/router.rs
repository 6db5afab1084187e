//! Choosing the provider, the key and the upstream model name for a request.
//!
//! Among the providers that can serve a model the one used least so far is
//! taken, the earlier one on a tie; within it the key used least so far.
//! Choosing and counting happen under one exclusive borrow of the counts,
//! so no two requests see the same minimum and both count it.

use crate::config::{Config, Provider, ProviderView};
use crate::text::{
    chars_of, find_sub, first_index_of, has_sub, lemma_first_occurrence_unique, same_text,
};
use crate::trusted::maps::{counter_entries, counter_get, counter_insert};
use dashmap::DashMap;
use vstd::prelude::*;

verus! {

/// A model name as a client writes it.
#[derive(Debug)]
pub enum ModelName {
    /// An alias, served by whichever provider lists it.
    Alias(String),
    /// `provider:model`: the named provider, and the model name as it goes
    /// upstream.
    Pinned { provider: String, model: String },
}

/// Mathematical value of a [`ModelName`].
pub enum ModelRef {
    Alias(Seq<char>),
    Pinned { provider: Seq<char>, model: Seq<char> },
}

impl View for ModelName {
    type V = ModelRef;

    open spec fn view(&self) -> ModelRef {
        match self {
            ModelName::Alias(a) => ModelRef::Alias(a@),
            ModelName::Pinned { provider, model } => ModelRef::Pinned {
                provider: provider@,
                model: model@,
            },
        }
    }
}

/// The one-character text that separates provider and model.
pub open spec fn colon() -> Seq<char> {
    seq![':']
}

/// How a model name reads: split at its first colon if it has one.
pub open spec fn parse_model(name: Seq<char>) -> ModelRef {
    if has_sub(name, colon()) {
        let at = first_index_of(name, colon());
        ModelRef::Pinned {
            provider: name.subrange(0, at),
            model: name.subrange(at + 1, name.len() as int),
        }
    } else {
        ModelRef::Alias(name)
    }
}

/// Reads a model name.
pub fn parse_model_name(name: &str) -> (m: ModelName)
    ensures
        m@ == parse_model(name@),
{
    let chars = chars_of(name);
    let mut sep: Vec<char> = Vec::new();
    sep.push(':');
    assert(sep@ =~= colon());
    match find_sub(&chars, &sep) {
        Some(at) => {
            let n = chars.len();
            proof {
                lemma_first_occurrence_unique(name@, colon(), at as int);
                assert(colon().len() == 1);
                assert(at + 1 <= n);
            }
            let provider = name.substring_char(0, at);
            let model = name.substring_char(at + 1, n);
            ModelName::Pinned {
                provider: String::from_str(provider),
                model: String::from_str(model),
            }
        },
        None => ModelName::Alias(String::from_str(name)),
    }
}

/// Whether entry `j` of the provider is its first with the given alias.
pub open spec fn first_model_entry(p: ProviderView, alias: Seq<char>, j: int) -> bool {
    &&& 0 <= j < p.models.len()
    &&& p.models[j].alias == alias
    &&& forall|t: int| 0 <= t < j ==> (#[trigger] p.models[t]).alias != alias
}

/// Whether the provider lists the alias.
pub open spec fn serves(p: ProviderView, alias: Seq<char>) -> bool {
    exists|j: int| 0 <= j < p.models.len() && (#[trigger] p.models[j]).alias == alias
}

/// Whether the provider can take a request for the model.
pub open spec fn is_candidate(p: ProviderView, m: ModelRef) -> bool {
    match m {
        ModelRef::Alias(alias) => serves(p, alias),
        ModelRef::Pinned { provider, model } => p.name == provider,
    }
}

/// Whether any provider can take a request for the model.
pub open spec fn has_candidate(ps: Seq<ProviderView>, m: ModelRef) -> bool {
    exists|i: int| 0 <= i < ps.len() && is_candidate(#[trigger] ps[i], m)
}

/// The usage counted under `key`: zero where nothing was counted yet.
pub open spec fn count_of(counts: Map<Seq<char>, u64>, key: Seq<char>) -> u64 {
    if counts.contains_key(key) {
        counts[key]
    } else {
        0
    }
}

/// A count after one more use. A count that has reached `u64::MAX` stays.
pub open spec fn bumped(count: u64) -> u64 {
    if count < u64::MAX {
        (count + 1) as u64
    } else {
        count
    }
}

/// The counts after one more use of `key`.
pub open spec fn counts_after_use(counts: Map<Seq<char>, u64>, key: Seq<char>) -> Map<
    Seq<char>,
    u64,
> {
    counts.insert(key, bumped(count_of(counts, key)))
}

/// Whether provider `i` is the one to take: a candidate that no candidate
/// undercuts and that no earlier candidate equals in usage.
pub open spec fn least_used_provider(
    ps: Seq<ProviderView>,
    counts: Map<Seq<char>, u64>,
    m: ModelRef,
    i: int,
) -> bool {
    &&& 0 <= i < ps.len()
    &&& is_candidate(ps[i], m)
    &&& forall|j: int|
        0 <= j < ps.len() && is_candidate(#[trigger] ps[j], m) ==> count_of(counts, ps[i].name)
            <= count_of(counts, ps[j].name)
    &&& forall|j: int|
        0 <= j < i && is_candidate(#[trigger] ps[j], m) ==> count_of(counts, ps[i].name)
            < count_of(counts, ps[j].name)
}

/// Whether key `k` is the one to take: no key undercuts it and no earlier
/// key equals it in usage.
pub open spec fn least_used_key(keys: Seq<Seq<char>>, counts: Map<Seq<char>, u64>, k: int) -> bool {
    &&& 0 <= k < keys.len()
    &&& forall|j: int|
        0 <= j < keys.len() ==> count_of(counts, keys[k]) <= count_of(counts, #[trigger] keys[j])
    &&& forall|j: int|
        0 <= j < k ==> count_of(counts, keys[k]) < count_of(counts, #[trigger] keys[j])
}

/// At most one provider is the one to take.
pub proof fn lemma_least_used_provider_unique(
    ps: Seq<ProviderView>,
    counts: Map<Seq<char>, u64>,
    m: ModelRef,
    i: int,
    j: int,
)
    requires
        least_used_provider(ps, counts, m, i),
        least_used_provider(ps, counts, m, j),
    ensures
        i == j,
{
    if i < j {
        assert(is_candidate(ps[i], m));
    }
    if j < i {
        assert(is_candidate(ps[j], m));
    }
}

/// At most one key is the one to take.
pub proof fn lemma_least_used_key_unique(
    keys: Seq<Seq<char>>,
    counts: Map<Seq<char>, u64>,
    i: int,
    j: int,
)
    requires
        least_used_key(keys, counts, i),
        least_used_key(keys, counts, j),
    ensures
        i == j,
{
    if i < j {
        assert(count_of(counts, keys[j]) < count_of(counts, keys[i]));
    }
    if j < i {
        assert(count_of(counts, keys[i]) < count_of(counts, keys[j]));
    }
}

/// The usage counted under `key`.
pub fn usage_of(counts: &DashMap<String, u64>, key: &str) -> (n: u64)
    ensures
        n == count_of(counter_entries(*counts), key@),
{
    match counter_get(counts, key) {
        Some(n) => n,
        None => 0,
    }
}

/// Counts one more use of `key`.
pub fn count_use(counts: &mut DashMap<String, u64>, key: &str)
    ensures
        counter_entries(*final(counts)) == counts_after_use(counter_entries(*old(counts)), key@),
{
    let n = usage_of(counts, key);
    let next = if n < u64::MAX {
        n + 1
    } else {
        n
    };
    counter_insert(counts, String::from_str(key), next);
}

/// The first entry of the provider with the given alias.
pub fn find_model(p: &Provider, alias: &str) -> (found: Option<usize>)
    ensures
        found is Some <==> serves(p@, alias@),
        found is Some ==> first_model_entry(p@, alias@, found->0 as int),
{
    let mut j: usize = 0;
    while j < p.models.len()
        invariant
            j <= p.models@.len(),
            p@.models.len() == p.models@.len(),
            forall|t: int| 0 <= t < j ==> (#[trigger] p@.models[t]).alias != alias@,
        decreases p.models@.len() - j,
    {
        assert(p@.models[j as int] == p.models@[j as int]@);
        if same_text(p.models[j].alias.as_str(), alias) {
            return Some(j);
        }
        j += 1;
    }
    None
}

/// Whether the provider can take a request for the model.
pub fn can_serve(p: &Provider, m: &ModelName) -> (yes: bool)
    ensures
        yes == is_candidate(p@, m@),
{
    match m {
        ModelName::Alias(alias) => find_model(p, alias.as_str()).is_some(),
        ModelName::Pinned { provider, model } => same_text(p.name.as_str(), provider.as_str()),
    }
}

/// The provider to take for the model, by position, if any can take it.
pub fn select_provider(config: &Config, counts: &DashMap<String, u64>, m: &ModelName) -> (chosen:
    Option<usize>)
    ensures
        chosen is Some <==> has_candidate(config@.providers, m@),
        chosen is Some ==> least_used_provider(
            config@.providers,
            counter_entries(*counts),
            m@,
            chosen->0 as int,
        ),
{
    let ghost ps = config@.providers;
    let ghost cs = counter_entries(*counts);
    let mut best: Option<usize> = None;
    let mut best_count: u64 = 0;
    let mut i: usize = 0;
    while i < config.providers.len()
        invariant
            ps == config@.providers,
            cs == counter_entries(*counts),
            ps.len() == config.providers@.len(),
            i <= ps.len(),
            best is None ==> forall|j: int| 0 <= j < i ==> !is_candidate(#[trigger] ps[j], m@),
            best is Some ==> {
                let b = best->0 as int;
                &&& 0 <= b < i
                &&& is_candidate(ps[b], m@)
                &&& best_count == count_of(cs, ps[b].name)
                &&& forall|j: int|
                    0 <= j < i && is_candidate(#[trigger] ps[j], m@) ==> best_count <= count_of(
                        cs,
                        ps[j].name,
                    )
                &&& forall|j: int|
                    0 <= j < b && is_candidate(#[trigger] ps[j], m@) ==> best_count < count_of(
                        cs,
                        ps[j].name,
                    )
            },
        decreases ps.len() - i,
    {
        assert(ps[i as int] == config.providers@[i as int]@);
        let p = &config.providers[i];
        if can_serve(p, m) {
            let n = usage_of(counts, p.name.as_str());
            if best.is_none() || n < best_count {
                best = Some(i);
                best_count = n;
            }
        }
        i += 1;
    }
    best
}

/// The key to take among `keys`, by position, if there is any key.
pub fn select_key(p: &Provider, counts: &DashMap<String, u64>) -> (chosen: Option<usize>)
    ensures
        chosen is Some <==> p@.keys.len() > 0,
        chosen is Some ==> least_used_key(p@.keys, counter_entries(*counts), chosen->0 as int),
{
    let ghost keys = p@.keys;
    let ghost cs = counter_entries(*counts);
    let mut best: Option<usize> = None;
    let mut best_count: u64 = 0;
    let mut i: usize = 0;
    while i < p.keys.len()
        invariant
            keys == p@.keys,
            cs == counter_entries(*counts),
            keys.len() == p.keys@.len(),
            i <= keys.len(),
            best is None ==> i == 0,
            best is Some ==> {
                let b = best->0 as int;
                &&& 0 <= b < i
                &&& best_count == count_of(cs, keys[b])
                &&& forall|j: int| 0 <= j < i ==> best_count <= count_of(cs, #[trigger] keys[j])
                &&& forall|j: int| 0 <= j < b ==> best_count < count_of(cs, #[trigger] keys[j])
            },
        decreases keys.len() - i,
    {
        assert(keys[i as int] == p.keys@[i as int]@);
        let n = usage_of(counts, p.keys[i].as_str());
        if best.is_none() || n < best_count {
            best = Some(i);
            best_count = n;
        }
        i += 1;
    }
    best
}

/// Which upstream address a request goes to.
#[derive(Debug, Clone, Copy, PartialEq, Eq, Structural)]
pub enum Endpoint {
    Completions,
    Embeddings,
}

/// The provider's address for the endpoint, if it has one.
pub open spec fn endpoint_of(p: ProviderView, endpoint: Endpoint) -> Option<Seq<char>> {
    match endpoint {
        Endpoint::Completions => p.completions,
        Endpoint::Embeddings => p.embeddings,
    }
}

/// The model name that goes upstream: the right side of a pinned name, else
/// the model of the provider's first entry with the alias.
pub open spec fn upstream_model(p: ProviderView, m: ModelRef, name: Seq<char>) -> bool {
    match m {
        ModelRef::Alias(alias) => exists|j: int|
            first_model_entry(p, alias, j) && name == (#[trigger] p.models[j]).model,
        ModelRef::Pinned { provider, model } => name == model,
    }
}

/// Whether the upstream opens its output with a think block: so the first
/// entry with the alias says; a pinned name selects no entry.
pub open spec fn upstream_thinks(p: ProviderView, m: ModelRef, think: bool) -> bool {
    match m {
        ModelRef::Alias(alias) => exists|j: int|
            first_model_entry(p, alias, j) && think == ((#[trigger] p.models[j]).think == Some(
                true,
            )),
        ModelRef::Pinned { provider, model } => !think,
    }
}

/// The model name to send to a provider that can take the model, and
/// whether its output opens with a think block.
pub(crate) fn upstream_name(p: &Provider, m: &ModelName) -> (r: (String, bool))
    requires
        is_candidate(p@, m@),
    ensures
        upstream_model(p@, m@, r.0@),
        upstream_thinks(p@, m@, r.1),
{
    match m {
        ModelName::Alias(alias) => {
            let found = find_model(p, alias.as_str());
            assert(found is Some);
            let j = found.unwrap();
            assert(p@.models[j as int] == p.models@[j as int]@);
            let entry = &p.models[j];
            let think = match entry.think {
                Some(t) => t,
                None => false,
            };
            (entry.model.clone(), think)
        },
        ModelName::Pinned { provider, model } => (model.clone(), false),
    }
}

/// Where a request goes.
#[derive(Debug)]
pub struct Route {
    /// Position of the provider in the configuration.
    pub provider: usize,
    /// Its name.
    pub provider_name: String,
    /// Its address for the endpoint.
    pub url: String,
    /// The key to present to it.
    pub key: String,
    /// The model name to send to it.
    pub model: String,
    /// Whether its output opens with a think block.
    pub think: bool,
}

/// Why a request goes nowhere.
#[derive(Debug, Clone, Copy, PartialEq, Eq, Structural)]
pub enum RouteError {
    /// No provider handles the model.
    NoProvider,
    /// The provider to take has no address for the endpoint.
    NoEndpoint { provider: usize },
    /// The provider to take has no key.
    NoKey { provider: usize },
}

/// What [`route`] returns and leaves behind, given what it found: on
/// success exactly the chosen provider's and the chosen key's counts have
/// gone up by one (a count at `u64::MAX` stays); on failure no count has
/// changed.
pub open spec fn routed(
    ps: Seq<ProviderView>,
    m: ModelRef,
    endpoint: Endpoint,
    providers_before: Map<Seq<char>, u64>,
    keys_before: Map<Seq<char>, u64>,
    r: Result<Route, RouteError>,
    providers_after: Map<Seq<char>, u64>,
    keys_after: Map<Seq<char>, u64>,
) -> bool {
    match r {
        Ok(route) => {
            let i = route.provider as int;
            &&& least_used_provider(ps, providers_before, m, i)
            &&& route.provider_name@ == ps[i].name
            &&& endpoint_of(ps[i], endpoint) == Some(route.url@)
            &&& exists|k: int|
                least_used_key(ps[i].keys, keys_before, k) && route.key@ == #[trigger] ps[i].keys[k]
            &&& upstream_model(ps[i], m, route.model@)
            &&& upstream_thinks(ps[i], m, route.think)
            &&& providers_after == counts_after_use(providers_before, ps[i].name)
            &&& keys_after == counts_after_use(keys_before, route.key@)
        },
        Err(e) => {
            &&& providers_after == providers_before
            &&& keys_after == keys_before
            &&& match e {
                RouteError::NoProvider => !has_candidate(ps, m),
                RouteError::NoEndpoint { provider } => {
                    &&& least_used_provider(ps, providers_before, m, provider as int)
                    &&& endpoint_of(ps[provider as int], endpoint) is None
                },
                RouteError::NoKey { provider } => {
                    &&& least_used_provider(ps, providers_before, m, provider as int)
                    &&& endpoint_of(ps[provider as int], endpoint) is Some
                    &&& ps[provider as int].keys.len() == 0
                },
            }
        },
    }
}

/// A routed request counts exactly once against its provider and exactly
/// once against its key: those two counts go up by one, every other count
/// stays.
pub proof fn lemma_route_counts_once(
    ps: Seq<ProviderView>,
    m: ModelRef,
    endpoint: Endpoint,
    providers_before: Map<Seq<char>, u64>,
    keys_before: Map<Seq<char>, u64>,
    route: Route,
    providers_after: Map<Seq<char>, u64>,
    keys_after: Map<Seq<char>, u64>,
    other: Seq<char>,
)
    requires
        routed(
            ps,
            m,
            endpoint,
            providers_before,
            keys_before,
            Ok(route),
            providers_after,
            keys_after,
        ),
    ensures
        count_of(providers_after, route.provider_name@) == bumped(
            count_of(providers_before, route.provider_name@),
        ),
        count_of(keys_after, route.key@) == bumped(count_of(keys_before, route.key@)),
        other != route.provider_name@ ==> count_of(providers_after, other) == count_of(
            providers_before,
            other,
        ),
        other != route.key@ ==> count_of(keys_after, other) == count_of(keys_before, other),
{
}

/// Routing succeeds whenever some provider can take the model and every
/// provider has a key and an address for the endpoint.
pub proof fn lemma_route_succeeds(
    ps: Seq<ProviderView>,
    m: ModelRef,
    endpoint: Endpoint,
    providers_before: Map<Seq<char>, u64>,
    keys_before: Map<Seq<char>, u64>,
    r: Result<Route, RouteError>,
    providers_after: Map<Seq<char>, u64>,
    keys_after: Map<Seq<char>, u64>,
)
    requires
        routed(ps, m, endpoint, providers_before, keys_before, r, providers_after, keys_after),
        has_candidate(ps, m),
        forall|i: int|
            0 <= i < ps.len() ==> (#[trigger] ps[i]).keys.len() > 0 && endpoint_of(ps[i], endpoint)
                is Some,
    ensures
        r is Ok,
{
}

/// Counting a use lowers no count.
pub proof fn lemma_counts_never_fall(counts: Map<Seq<char>, u64>, key: Seq<char>, other: Seq<char>)
    ensures
        count_of(counts_after_use(counts, key), other) >= count_of(counts, other),
{
}

/// A request that is not routed counts against nobody.
pub proof fn lemma_failed_route_counts_nothing(
    ps: Seq<ProviderView>,
    m: ModelRef,
    endpoint: Endpoint,
    providers_before: Map<Seq<char>, u64>,
    keys_before: Map<Seq<char>, u64>,
    e: RouteError,
    providers_after: Map<Seq<char>, u64>,
    keys_after: Map<Seq<char>, u64>,
)
    requires
        routed(ps, m, endpoint, providers_before, keys_before, Err(e), providers_after, keys_after),
    ensures
        providers_after == providers_before,
        keys_after == keys_before,
{
}

/// Routes a request for `model`: picks the provider and the key used least
/// so far, counts one use of each, and resolves the upstream model name.
pub fn route(
    config: &Config,
    provider_usage: &mut DashMap<String, u64>,
    key_usage: &mut DashMap<String, u64>,
    model: &str,
    endpoint: Endpoint,
) -> (r: Result<Route, RouteError>)
    ensures
        routed(
            config@.providers,
            parse_model(model@),
            endpoint,
            counter_entries(*old(provider_usage)),
            counter_entries(*old(key_usage)),
            r,
            counter_entries(*final(provider_usage)),
            counter_entries(*final(key_usage)),
        ),
{
    let name = parse_model_name(model);
    let i = match select_provider(config, provider_usage, &name) {
        Some(i) => i,
        None => {
            return Err(RouteError::NoProvider);
        },
    };
    assert(config@.providers[i as int] == config.providers@[i as int]@);
    let p = &config.providers[i];
    let address = match endpoint {
        Endpoint::Completions => &p.endpoints.completions,
        Endpoint::Embeddings => &p.endpoints.embeddings,
    };
    let url = match address {
        Some(url) => url.clone(),
        None => {
            return Err(RouteError::NoEndpoint { provider: i });
        },
    };
    let k = match select_key(p, key_usage) {
        Some(k) => k,
        None => {
            return Err(RouteError::NoKey { provider: i });
        },
    };
    assert(p@.keys[k as int] == p.keys@[k as int]@);
    let (upstream, think) = upstream_name(p, &name);
    count_use(provider_usage, p.name.as_str());
    count_use(key_usage, p.keys[k].as_str());
    Ok(
        Route {
            provider: i,
            provider_name: p.name.clone(),
            url,
            key: p.keys[k].clone(),
            model: upstream,
            think,
        },
    )
}

/// Whether provider `i` is the first that can take the model.
pub open spec fn first_candidate(ps: Seq<ProviderView>, m: ModelRef, i: int) -> bool {
    &&& 0 <= i < ps.len()
    &&& is_candidate(ps[i], m)
    &&& forall|j: int| 0 <= j < i ==> !is_candidate(#[trigger] ps[j], m)
}

/// The first provider that can take the model, by position.
pub fn find_candidate(config: &Config, m: &ModelName) -> (found: Option<usize>)
    ensures
        found is Some <==> has_candidate(config@.providers, m@),
        found is Some ==> first_candidate(config@.providers, m@, found->0 as int),
{
    let mut i: usize = 0;
    while i < config.providers.len()
        invariant
            i <= config.providers@.len(),
            config@.providers.len() == config.providers@.len(),
            forall|j: int| 0 <= j < i ==> !is_candidate(#[trigger] config@.providers[j], m@),
        decreases config.providers@.len() - i,
    {
        assert(config@.providers[i as int] == config.providers@[i as int]@);
        if can_serve(&config.providers[i], m) {
            return Some(i);
        }
        i += 1;
    }
    None
}

/// The words of a routing failure.
pub open spec fn route_message(e: RouteError) -> Seq<char> {
    match e {
        RouteError::NoProvider => "no provider handles this model"@,
        RouteError::NoEndpoint { provider } => "the provider has no endpoint for this request"@,
        RouteError::NoKey { provider } => "the provider has no API key"@,
    }
}

impl RouteError {
    /// The words that explain the failure to the client.
    pub fn message(&self) -> (text: &'static str)
        ensures
            text@ == route_message(*self),
    {
        match self {
            RouteError::NoProvider => "no provider handles this model",
            RouteError::NoEndpoint { provider } => "the provider has no endpoint for this request",
            RouteError::NoKey { provider } => "the provider has no API key",
        }
    }
}

} // verus!
