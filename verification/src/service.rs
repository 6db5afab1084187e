//! The forwarding service: routing of a request and the account it keeps.

use crate::config::Provider;
use crate::error::AppError;
use crate::router::{
    count_use, counts_after_use, least_used_key, parse_model, route, route_message, routed,
    select_key, Endpoint, Route, RouteError,
};
use crate::state::AppState;
use crate::trusted::maps::counter_pairs;
use vstd::prelude::*;

verus! {

/// How often a provider was used.
#[derive(Debug)]
pub struct ProviderUsage {
    pub provider: String,
    pub usage: u64,
}

/// How an upstream answered, by its HTTP status.
#[derive(Debug, Clone, Copy, PartialEq, Eq, Structural)]
pub enum UpstreamStatus {
    /// 2xx: the body is the answer.
    Success,
    /// 401 or 403: the key was turned down; the body is an error text.
    InvalidKey,
    /// Anything else: the body is an error text.
    Failure,
}

/// Reads an upstream's HTTP status.
pub fn classify_upstream(status: u16) -> (class: UpstreamStatus)
    ensures
        class == (if 200 <= status < 300 {
            UpstreamStatus::Success
        } else if status == 401 || status == 403 {
            UpstreamStatus::InvalidKey
        } else {
            UpstreamStatus::Failure
        }),
{
    if status >= 200 && status < 300 {
        UpstreamStatus::Success
    } else if status == 401 || status == 403 {
        UpstreamStatus::InvalidKey
    } else {
        UpstreamStatus::Failure
    }
}

/// The message that says a provider has no key.
pub open spec fn no_key_message(name: Seq<char>) -> Seq<char> {
    "No API keys configured for provider '"@ + name + "'"@
}

/// The forwarding service over the shared state.
pub struct AIService {
    pub state: AppState,
}

impl AIService {
    /// The service over `state`.
    pub fn new(state: AppState) -> (s: AIService)
        ensures
            s.state == state,
    {
        AIService { state }
    }

    /// The key of `provider` used least so far, the earlier one on a tie.
    /// Nothing is counted.
    pub fn select_api_key(&self, provider: &Provider) -> (r: Result<String, AppError>)
        ensures
            match r {
                Ok(key) => exists|k: int|
                    least_used_key(provider@.keys, self.state.key_counts(), k) && key@
                        == #[trigger] provider@.keys[k],
                Err(e) => provider@.keys.len() == 0 && e is Validation && e->Validation_0@
                    == no_key_message(provider@.name),
            },
    {
        match select_key(provider, &self.state.key_usage) {
            Some(k) => {
                assert(provider@.keys[k as int] == provider.keys@[k as int]@);
                Ok(provider.keys[k].clone())
            },
            None => {
                let mut text = String::from_str("No API keys configured for provider '");
                text.append(provider.name.as_str());
                text.append("'");
                Err(AppError::Validation(text))
            },
        }
    }

    /// Counts one use of `provider` and one of `api_key`.
    pub fn update_usage_stats(&mut self, provider: &Provider, api_key: &str)
        ensures
            final(self).state.provider_counts() == counts_after_use(
                old(self).state.provider_counts(),
                provider@.name,
            ),
            final(self).state.key_counts() == counts_after_use(
                old(self).state.key_counts(),
                api_key@,
            ),
            final(self).state.config == old(self).state.config,
            final(self).state.ip_ban_manager == old(self).state.ip_ban_manager,
            final(self).state.cache == old(self).state.cache,
    {
        count_use(&mut self.state.provider_usage, provider.name.as_str());
        count_use(&mut self.state.key_usage, api_key);
    }

    /// Routes a request for `model` and says what to send where: the
    /// provider and key used least so far, each counted once, and the model
    /// name to put in place of the client's. A request that goes nowhere
    /// counts nothing and is answered with status 500.
    pub fn forward_request_with_model_replacement(&mut self, model: &str, endpoint: Endpoint) -> (r:
        Result<Route, RouteError>)
        ensures
            routed(
                old(self).state.config@.providers,
                parse_model(model@),
                endpoint,
                old(self).state.provider_counts(),
                old(self).state.key_counts(),
                r,
                final(self).state.provider_counts(),
                final(self).state.key_counts(),
            ),
            final(self).state.config == old(self).state.config,
            final(self).state.ip_ban_manager == old(self).state.ip_ban_manager,
            final(self).state.cache == old(self).state.cache,
    {
        route(
            &self.state.config,
            &mut self.state.provider_usage,
            &mut self.state.key_usage,
            model,
            endpoint,
        )
    }

    /// The usage of every provider counted so far, each once, in no
    /// particular order.
    pub fn get_usage_stats(&self) -> (stats: Vec<ProviderUsage>)
        ensures
            forall|i: int|
                0 <= i < stats@.len() ==> self.state.provider_counts().contains_key(
                    #[trigger] stats@[i].provider@,
                ) && self.state.provider_counts()[stats@[i].provider@] == stats@[i].usage,
            forall|name: Seq<char>| #[trigger]
                self.state.provider_counts().contains_key(name) ==> exists|i: int|
                    0 <= i < stats@.len() && #[trigger] stats@[i].provider@ == name,
            forall|i: int, j: int|
                0 <= i < j < stats@.len() ==> #[trigger] stats@[i].provider@
                    != #[trigger] stats@[j].provider@,
    {
        let pairs = counter_pairs(&self.state.provider_usage);
        let ghost all = pairs@;
        let mut stats: Vec<ProviderUsage> = Vec::new();
        let n = pairs.len();
        let mut i: usize = 0;
        while i < n
            invariant
                n == all.len(),
                i <= n,
                pairs@.len() == n,
                stats@.len() == i,
                forall|j: int| i <= j < n ==> #[trigger] pairs@[j] == all[j],
                forall|j: int|
                    0 <= j < i ==> (#[trigger] stats@[j]).provider@ == all[j].0@ && stats@[j].usage
                        == all[j].1,
            decreases n - i,
        {
            let usage = pairs[i].1;
            let provider = pairs[i].0.clone();
            stats.push(ProviderUsage { provider, usage });
            i += 1;
        }
        assert forall|name: Seq<char>| #[trigger]
            self.state.provider_counts().contains_key(name) implies exists|i: int|
            0 <= i < stats@.len() && #[trigger] stats@[i].provider@ == name by {
            let w = choose|w: int| 0 <= w < all.len() && #[trigger] all[w].0@ == name;
            assert(stats@[w].provider@ == name);
        }
        stats
    }
}

/// Handles a chat request on the plain forwarding path: routes the
/// model that the body names. A body without a model is a validation
/// error; a model that goes nowhere is an internal one.
pub fn chat_completions(service: &mut AIService, model: Option<&str>, endpoint: Endpoint) -> (r:
    Result<Route, AppError>)
    ensures
        match model {
            None => {
                &&& r is Err
                &&& r->Err_0 is Validation
                &&& r->Err_0->Validation_0@ == "Missing or invalid model field"@
                &&& final(service).state.provider_counts() == old(service).state.provider_counts()
                &&& final(service).state.key_counts() == old(service).state.key_counts()
            },
            Some(name) => match r {
                Ok(route) => routed(
                    old(service).state.config@.providers,
                    parse_model(name@),
                    endpoint,
                    old(service).state.provider_counts(),
                    old(service).state.key_counts(),
                    Ok(route),
                    final(service).state.provider_counts(),
                    final(service).state.key_counts(),
                ),
                Err(e) => exists|cause: RouteError|
                    routed(
                        old(service).state.config@.providers,
                        parse_model(name@),
                        endpoint,
                        old(service).state.provider_counts(),
                        old(service).state.key_counts(),
                        Err(cause),
                        final(service).state.provider_counts(),
                        final(service).state.key_counts(),
                    ) && e is Internal && e->Internal_0@ == #[trigger] route_message(cause),
            },
        },
        final(service).state.config == old(service).state.config,
        final(service).state.ip_ban_manager == old(service).state.ip_ban_manager,
        final(service).state.cache == old(service).state.cache,
{
    let name = match model {
        Some(name) => name,
        None => {
            return Err(
                AppError::Validation(String::from_str("Missing or invalid model field")),
            );
        },
    };
    match service.forward_request_with_model_replacement(name, endpoint) {
        Ok(route) => Ok(route),
        Err(cause) => {
            let text = String::from_str(cause.message());
            assert(text@ == route_message(cause));
            Err(AppError::Internal(text))
        },
    }
}

} // verus!
