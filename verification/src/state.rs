//! The state that all requests share: configuration, usage counts, ban
//! records and the cache of answers.

use crate::ban::{IpBanManager, KeyView, NANOS_PER_HOUR};
use crate::cache::{after_insert, well_formed, ResponseCache};
use crate::config::{Config, Provider};
use crate::router::{
    find_candidate, first_candidate, has_candidate, least_used_provider, parse_model,
    parse_model_name, select_provider, upstream_model, upstream_name,
};
use crate::trusted::maps::{counter_entries, counter_new, no_counters};
use dashmap::DashMap;
use vstd::prelude::*;

verus! {

/// Failed authentications within one window that ban a client.
pub const MAX_AUTH_FAILURES: u32 = 5;

/// The shared state of the gateway.
pub struct AppState {
    /// The current configuration snapshot.
    pub config: Config,
    /// Requests routed to each provider, by name.
    pub provider_usage: DashMap<String, u64>,
    /// Requests sent with each key.
    pub key_usage: DashMap<String, u64>,
    /// Failed authentications and bans.
    pub ip_ban_manager: IpBanManager,
    /// Answers given so far.
    pub cache: ResponseCache,
}

impl AppState {
    /// The usage counted per provider name.
    pub open spec fn provider_counts(&self) -> Map<Seq<char>, u64> {
        counter_entries(self.provider_usage)
    }

    /// The usage counted per key.
    pub open spec fn key_counts(&self) -> Map<Seq<char>, u64> {
        counter_entries(self.key_usage)
    }

    /// The state at start-up: nothing counted, nobody banned, nothing
    /// cached. The cache keeps `cache_size` answers, none where the
    /// configuration does not say.
    pub fn new(config: Config) -> (s: AppState)
        ensures
            s.config == config,
            s.provider_counts() == no_counters(),
            s.key_counts() == no_counters(),
            s.ip_ban_manager@.failures == Map::<KeyView, (u32, u128)>::empty(),
            s.ip_ban_manager@.banned == Set::<KeyView>::empty(),
            s.ip_ban_manager@.max_failures == MAX_AUTH_FAILURES,
            s.ip_ban_manager@.window == NANOS_PER_HOUR,
            s.cache@.entries == Seq::<(Seq<char>, Seq<char>)>::empty(),
            s.cache@.capacity == (match config.cache_size {
                Some(n) => n as nat,
                None => 0nat,
            }),
            well_formed(s.cache@),
    {
        let capacity = match config.cache_size {
            Some(n) => n,
            None => 0,
        };
        AppState {
            config,
            provider_usage: counter_new(),
            key_usage: counter_new(),
            ip_ban_manager: IpBanManager::new(MAX_AUTH_FAILURES),
            cache: ResponseCache::new(capacity),
        }
    }

    /// Puts a freshly read configuration in place of the current one, as a
    /// whole. Nothing else changes.
    pub fn reload_config(&mut self, fresh: Config)
        ensures
            final(self).config == fresh,
            final(self).provider_usage == old(self).provider_usage,
            final(self).key_usage == old(self).key_usage,
            final(self).ip_ban_manager == old(self).ip_ban_manager,
            final(self).cache == old(self).cache,
    {
        self.config = fresh;
    }

    /// Keeps the answer that a request got, for later requests with the
    /// same fingerprint.
    pub fn record_answer(&mut self, fingerprint: String, answer: String)
        ensures
            final(self).cache@ == after_insert(old(self).cache@, fingerprint@, answer@),
            well_formed(final(self).cache@),
            final(self).config == old(self).config,
            final(self).provider_usage == old(self).provider_usage,
            final(self).key_usage == old(self).key_usage,
            final(self).ip_ban_manager == old(self).ip_ban_manager,
    {
        self.cache.insert(fingerprint, answer);
    }

    /// The provider that a request for `model` would go to now: the one
    /// used least among those that can take it. Nothing is counted.
    pub fn get_provider_by_model(&self, model: &str) -> (found: Option<&Provider>)
        ensures
            found is Some <==> has_candidate(self.config@.providers, parse_model(model@)),
            found is Some ==> exists|i: int|
                least_used_provider(
                    self.config@.providers,
                    self.provider_counts(),
                    parse_model(model@),
                    i,
                ) && *found->0 == #[trigger] self.config.providers@[i],
    {
        let name = parse_model_name(model);
        match select_provider(&self.config, &self.provider_usage, &name) {
            Some(i) => Some(&self.config.providers[i]),
            None => None,
        }
    }

    /// The upstream name of `alias` with the first provider that can take
    /// it; for a pinned name its right side, provided the provider exists.
    pub fn get_model_mapping(&self, alias: &str) -> (name: Option<String>)
        ensures
            name is Some <==> has_candidate(self.config@.providers, parse_model(alias@)),
            name is Some ==> exists|i: int|
                first_candidate(self.config@.providers, parse_model(alias@), i) && upstream_model(
                    #[trigger] self.config@.providers[i],
                    parse_model(alias@),
                    name->0@,
                ),
    {
        let parsed = parse_model_name(alias);
        match find_candidate(&self.config, &parsed) {
            Some(i) => {
                assert(self.config@.providers[i as int] == self.config.providers@[i as int]@);
                let (upstream, _think) = upstream_name(&self.config.providers[i], &parsed);
                Some(upstream)
            },
            None => None,
        }
    }
}

} // verus!
