//! What the administrative endpoints report and do.

use crate::config::{Config, ConfigError, ProviderView};
use crate::error::AppError;
use crate::state::AppState;
use crate::trusted::maps::{counter_clear, no_counters};
use vstd::prelude::*;

verus! {

/// One entry of the model catalog.
#[derive(Debug)]
pub struct ModelInfo {
    /// The alias that clients use.
    pub id: String,
    pub object: &'static str,
    pub created: u64,
    pub owned_by: &'static str,
}

/// The aliases of the first `n` providers, in order, provider by provider.
pub open spec fn aliases_upto(ps: Seq<ProviderView>, n: int) -> Seq<Seq<char>>
    decreases n,
{
    if n <= 0 || n > ps.len() {
        Seq::<Seq<char>>::empty()
    } else {
        aliases_upto(ps, n - 1) + Seq::new(ps[n - 1].models.len(), |j: int| ps[n - 1].models[j].alias)
    }
}

/// The aliases of all providers, in order. An alias that several providers
/// serve is listed once for each.
pub open spec fn all_aliases(ps: Seq<ProviderView>) -> Seq<Seq<char>> {
    aliases_upto(ps, ps.len() as int)
}

/// The catalog: one entry for every alias of every provider, in the order
/// of the configuration.
pub fn list_models(config: &Config) -> (catalog: Vec<ModelInfo>)
    ensures
        catalog@.len() == all_aliases(config@.providers).len(),
        forall|t: int|
            0 <= t < catalog@.len() ==> {
                &&& (#[trigger] catalog@[t]).id@ == all_aliases(config@.providers)[t]
                &&& catalog@[t].object@ == "model"@
                &&& catalog@[t].created == 0
                &&& catalog@[t].owned_by@ == "ai_forward"@
            },
{
    let ghost ps = config@.providers;
    let mut catalog: Vec<ModelInfo> = Vec::new();
    let mut i: usize = 0;
    while i < config.providers.len()
        invariant
            ps == config@.providers,
            ps.len() == config.providers@.len(),
            i <= ps.len(),
            catalog@.len() == aliases_upto(ps, i as int).len(),
            forall|t: int|
                0 <= t < catalog@.len() ==> {
                    &&& (#[trigger] catalog@[t]).id@ == aliases_upto(ps, i as int)[t]
                    &&& catalog@[t].object@ == "model"@
                    &&& catalog@[t].created == 0
                    &&& catalog@[t].owned_by@ == "ai_forward"@
                },
        decreases ps.len() - i,
    {
        assert(ps[i as int] == config.providers@[i as int]@);
        let p = &config.providers[i];
        let ghost before = aliases_upto(ps, i as int);
        let ghost own = Seq::new(ps[i as int].models.len(), |j: int| ps[i as int].models[j].alias);
        assert(aliases_upto(ps, i + 1) == before + own);
        let mut j: usize = 0;
        while j < p.models.len()
            invariant
                p == &config.providers@[i as int],
                p@ == ps[i as int],
                p@.models.len() == p.models@.len(),
                own.len() == p.models@.len(),
                own == Seq::new(ps[i as int].models.len(), |j: int| ps[i as int].models[j].alias),
                j <= p.models@.len(),
                catalog@.len() == before.len() + j,
                forall|t: int|
                    0 <= t < catalog@.len() ==> {
                        &&& (#[trigger] catalog@[t]).id@ == (before + own)[t]
                        &&& catalog@[t].object@ == "model"@
                        &&& catalog@[t].created == 0
                        &&& catalog@[t].owned_by@ == "ai_forward"@
                    },
            decreases p.models@.len() - j,
        {
            assert(p@.models[j as int] == p.models@[j as int]@);
            catalog.push(
                ModelInfo {
                    id: p.models[j].alias.clone(),
                    object: "model",
                    created: 0,
                    owned_by: "ai_forward",
                },
            );
            j += 1;
        }
        i += 1;
    }
    catalog
}

/// Clears both usage maps and, where the configuration could be read
/// afresh, puts it in place. Where it could not, the current
/// configuration stays and the failure is reported.
pub fn reset_stats(state: &mut AppState, fresh: Result<Config, ConfigError>) -> (r: Result<
    (),
    AppError,
>)
    ensures
        final(state).provider_counts() == no_counters(),
        final(state).key_counts() == no_counters(),
        final(state).ip_ban_manager == old(state).ip_ban_manager,
        final(state).cache == old(state).cache,
        match fresh {
            Ok(config) => r is Ok && final(state).config == config,
            Err(e) => r == Err::<(), AppError>(AppError::Config(e)) && final(state).config
                == old(state).config,
        },
{
    counter_clear(&mut state.provider_usage);
    counter_clear(&mut state.key_usage);
    match fresh {
        Ok(config) => {
            state.reload_config(config);
            Ok(())
        },
        Err(e) => Err(AppError::Config(e)),
    }
}

} // verus!
