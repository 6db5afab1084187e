//! The gateway's configuration and the rules a configuration must meet.

use vstd::prelude::*;

verus! {

/// Why a configuration was turned down, in words.
#[derive(Debug)]
pub struct ConfigError(pub String);

/// One model that a provider serves.
#[derive(Debug, Clone)]
pub struct Model {
    /// Name shown to clients.
    pub alias: String,
    /// Name sent upstream.
    pub model: String,
    /// Whether the upstream opens its output with a think block.
    pub think: Option<bool>,
}

/// The upstream addresses of a provider.
#[derive(Debug, Clone)]
pub struct Endpoints {
    pub completions: Option<String>,
    pub embeddings: Option<String>,
}

/// An upstream provider.
#[derive(Debug, Clone)]
pub struct Provider {
    pub name: String,
    pub models: Vec<Model>,
    pub endpoints: Endpoints,
    pub keys: Vec<String>,
}

/// Logging options; the gateway logic itself never reads them.
#[derive(Debug, Clone)]
pub struct LogConfig {
    pub level: String,
    pub file: String,
    pub max_files: Option<usize>,
    pub max_file_size: Option<u64>,
}

/// A configuration snapshot.
#[derive(Debug, Clone)]
pub struct Config {
    /// Bearer token that every protected request must carry.
    pub auth: String,
    pub port: u16,
    pub providers: Vec<Provider>,
    pub log: Option<LogConfig>,
    /// Address of the persistent store, if one is used.
    pub database: Option<String>,
    /// Number of exchanges the in-memory cache keeps.
    pub cache_size: Option<usize>,
}

/// Mathematical value of a [`Model`].
pub struct ModelView {
    pub alias: Seq<char>,
    pub model: Seq<char>,
    pub think: Option<bool>,
}

/// Mathematical value of a [`Provider`].
pub struct ProviderView {
    pub name: Seq<char>,
    pub models: Seq<ModelView>,
    pub completions: Option<Seq<char>>,
    pub embeddings: Option<Seq<char>>,
    pub keys: Seq<Seq<char>>,
}

/// Mathematical value of a [`Config`], without the logging options.
pub struct ConfigView {
    pub auth: Seq<char>,
    pub port: u16,
    pub providers: Seq<ProviderView>,
    pub database: Option<Seq<char>>,
    pub cache_size: Option<usize>,
}

/// Mathematical value of an optional text.
pub open spec fn text_of(s: Option<String>) -> Option<Seq<char>> {
    match s {
        Some(t) => Some(t@),
        None => None,
    }
}

impl View for Model {
    type V = ModelView;

    open spec fn view(&self) -> ModelView {
        ModelView { alias: self.alias@, model: self.model@, think: self.think }
    }
}

impl View for Provider {
    type V = ProviderView;

    open spec fn view(&self) -> ProviderView {
        ProviderView {
            name: self.name@,
            models: Seq::new(self.models@.len(), |i: int| self.models@[i]@),
            completions: text_of(self.endpoints.completions),
            embeddings: text_of(self.endpoints.embeddings),
            keys: Seq::new(self.keys@.len(), |i: int| self.keys@[i]@),
        }
    }
}

impl View for Config {
    type V = ConfigView;

    open spec fn view(&self) -> ConfigView {
        ConfigView {
            auth: self.auth@,
            port: self.port,
            providers: Seq::new(self.providers@.len(), |i: int| self.providers@[i]@),
            database: text_of(self.database),
            cache_size: self.cache_size,
        }
    }
}

/// What is wrong with a provider, if anything: no key, or no endpoint.
pub open spec fn provider_problem(p: ProviderView) -> Option<Seq<char>> {
    if p.keys.len() == 0 {
        Some("Provider '"@ + p.name + "' must have at least one API key"@)
    } else if p.completions is None && p.embeddings is None {
        Some(
            "Provider '"@ + p.name
                + "' must have at least one endpoint (completions or embeddings)"@,
        )
    } else {
        None
    }
}

/// The problem of the first provider at or after `from` that has one.
pub open spec fn first_provider_problem(ps: Seq<ProviderView>, from: int) -> Option<Seq<char>>
    decreases ps.len() - from,
{
    if from < 0 || from >= ps.len() {
        None
    } else if provider_problem(ps[from]) is Some {
        provider_problem(ps[from])
    } else {
        first_provider_problem(ps, from + 1)
    }
}

/// The first rule that a configuration breaks, in words, if it breaks any.
pub open spec fn first_problem(c: ConfigView) -> Option<Seq<char>> {
    if c.auth.len() == 0 {
        Some("Auth token cannot be empty"@)
    } else if c.providers.len() == 0 {
        Some("At least one provider must be configured"@)
    } else {
        first_provider_problem(c.providers, 0)
    }
}

/// A configuration is valid when it has a token, at least one provider, and
/// every provider has a key and an endpoint.
pub open spec fn is_valid(c: ConfigView) -> bool {
    &&& c.auth.len() > 0
    &&& c.providers.len() > 0
    &&& forall|i: int|
        0 <= i < c.providers.len() ==> (#[trigger] c.providers[i]).keys.len() > 0 && (
        c.providers[i].completions is Some || c.providers[i].embeddings is Some)
}

/// No provider from `from` on has a problem exactly when each of them has a
/// key and an endpoint.
pub proof fn lemma_no_provider_problem(ps: Seq<ProviderView>, from: int)
    requires
        0 <= from,
    ensures
        first_provider_problem(ps, from) is None <==> forall|i: int|
            from <= i < ps.len() ==> (#[trigger] ps[i]).keys.len() > 0 && (ps[i].completions is Some
                || ps[i].embeddings is Some),
    decreases ps.len() - from,
{
    if from < ps.len() {
        lemma_no_provider_problem(ps, from + 1);
        if provider_problem(ps[from]) is Some {
            assert(!(ps[from].keys.len() > 0 && (ps[from].completions is Some
                || ps[from].embeddings is Some)));
        }
    }
}

/// A configuration breaks no rule exactly when it is valid.
pub proof fn lemma_valid_iff_no_problem(c: ConfigView)
    ensures
        is_valid(c) <==> first_problem(c) is None,
{
    lemma_no_provider_problem(c.providers, 0);
}

fn provider_message(name: &str, rest: &str) -> (m: String)
    ensures
        m@ == "Provider '"@ + name@ + rest@,
{
    let mut m = String::from_str("Provider '");
    m.append(name);
    m.append(rest);
    m
}

impl Provider {
    /// Checks one provider: it needs a key and an endpoint.
    pub fn validate(&self) -> (r: Result<(), ConfigError>)
        ensures
            match provider_problem(self@) {
                Some(m) => r is Err && r->Err_0.0@ == m,
                None => r is Ok,
            },
    {
        if self.keys.len() == 0 {
            return Err(
                ConfigError(
                    provider_message(self.name.as_str(), "' must have at least one API key"),
                ),
            );
        }
        if self.endpoints.completions.is_none() && self.endpoints.embeddings.is_none() {
            return Err(
                ConfigError(
                    provider_message(
                        self.name.as_str(),
                        "' must have at least one endpoint (completions or embeddings)",
                    ),
                ),
            );
        }
        Ok(())
    }
}

impl Config {
    /// Checks the configuration and names the first rule it breaks.
    pub fn validate(&self) -> (r: Result<(), ConfigError>)
        ensures
            r is Ok <==> is_valid(self@),
            match first_problem(self@) {
                Some(m) => r is Err && r->Err_0.0@ == m,
                None => r is Ok,
            },
    {
        proof {
            lemma_valid_iff_no_problem(self@);
        }
        if self.auth.as_str().is_empty() {
            return Err(ConfigError(String::from_str("Auth token cannot be empty")));
        }
        if self.providers.len() == 0 {
            return Err(ConfigError(String::from_str("At least one provider must be configured")));
        }
        let mut i: usize = 0;
        while i < self.providers.len()
            invariant
                i <= self.providers@.len(),
                self@.auth.len() > 0,
                self@.providers.len() == self.providers@.len() > 0,
                first_provider_problem(self@.providers, 0) == first_provider_problem(
                    self@.providers,
                    i as int,
                ),
            decreases self.providers@.len() - i,
        {
            assert(self@.providers[i as int] == self.providers@[i as int]@);
            let checked = self.providers[i].validate();
            if checked.is_err() {
                return checked;
            }
            i += 1;
        }
        Ok(())
    }
}

} // verus!
