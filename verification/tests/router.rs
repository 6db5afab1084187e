use ai_forward::config::{Config, Endpoints, Model, Provider};
use ai_forward::router::{
    count_use, find_candidate, parse_model_name, route, select_key, select_provider, usage_of,
    Endpoint, ModelName, RouteError,
};
use ai_forward::service::{chat_completions, classify_upstream, AIService, UpstreamStatus};
use ai_forward::state::AppState;
use dashmap::DashMap;

fn model(alias: &str, real: &str, think: Option<bool>) -> Model {
    Model { alias: alias.to_string(), model: real.to_string(), think }
}

fn provider(name: &str, models: Vec<Model>, keys: &[&str]) -> Provider {
    Provider {
        name: name.to_string(),
        models,
        endpoints: Endpoints {
            completions: Some(format!("http://{}/chat", name)),
            embeddings: None,
        },
        keys: keys.iter().map(|k| k.to_string()).collect(),
    }
}

fn config(providers: Vec<Provider>) -> Config {
    Config {
        auth: "secret".to_string(),
        port: 8080,
        providers,
        log: None,
        database: None,
        cache_size: Some(4),
    }
}

fn two_providers() -> Config {
    config(vec![
        provider("A", vec![model("m", "real-A", None)], &["a1"]),
        provider("B", vec![model("m", "real-B", None)], &["b1"]),
    ])
}

#[test]
fn a_plain_name_is_an_alias() {
    match parse_model_name("gpt-4") {
        ModelName::Alias(a) => assert_eq!(a, "gpt-4"),
        ModelName::Pinned { .. } => panic!("not pinned"),
    }
}

#[test]
fn a_name_is_split_at_its_first_colon() {
    match parse_model_name("B:custom:x") {
        ModelName::Pinned { provider, model } => {
            assert_eq!(provider, "B");
            assert_eq!(model, "custom:x");
        },
        ModelName::Alias(_) => panic!("pinned"),
    }
    match parse_model_name(":") {
        ModelName::Pinned { provider, model } => {
            assert_eq!(provider, "");
            assert_eq!(model, "");
        },
        ModelName::Alias(_) => panic!("pinned"),
    }
    match parse_model_name("提供者:模型") {
        ModelName::Pinned { provider, model } => {
            assert_eq!(provider, "提供者");
            assert_eq!(model, "模型");
        },
        ModelName::Alias(_) => panic!("pinned"),
    }
}

#[test]
fn counts_start_at_zero_and_go_up_by_one() {
    let mut counts: DashMap<String, u64> = DashMap::new();
    assert_eq!(usage_of(&counts, "k"), 0);
    count_use(&mut counts, "k");
    count_use(&mut counts, "k");
    count_use(&mut counts, "other");
    assert_eq!(usage_of(&counts, "k"), 2);
    assert_eq!(usage_of(&counts, "other"), 1);
    assert_eq!(counts.len(), 2);
}

#[test]
fn a_count_stops_at_the_largest_number() {
    let mut counts: DashMap<String, u64> = DashMap::new();
    counts.insert("k".to_string(), u64::MAX - 1);
    count_use(&mut counts, "k");
    assert_eq!(usage_of(&counts, "k"), u64::MAX);
    count_use(&mut counts, "k");
    assert_eq!(usage_of(&counts, "k"), u64::MAX);
}

#[test]
fn the_first_of_two_unused_providers_is_taken_then_the_second() {
    let c = two_providers();
    let mut providers: DashMap<String, u64> = DashMap::new();
    let mut keys: DashMap<String, u64> = DashMap::new();
    let first = route(&c, &mut providers, &mut keys, "m", Endpoint::Completions).unwrap();
    assert_eq!(first.provider, 0);
    assert_eq!(first.provider_name, "A");
    assert_eq!(usage_of(&providers, "A"), 1);
    assert_eq!(usage_of(&providers, "B"), 0);
    let second = route(&c, &mut providers, &mut keys, "m", Endpoint::Completions).unwrap();
    assert_eq!(second.provider, 1);
    assert_eq!(second.provider_name, "B");
    assert_eq!(second.model, "real-B");
    assert_eq!(second.key, "b1");
    assert_eq!(second.url, "http://B/chat");
}

#[test]
fn four_requests_alternate_between_two_providers() {
    let mut service = AIService::new(AppState::new(two_providers()));
    let mut seen = Vec::new();
    for _ in 0..4 {
        let r = service
            .forward_request_with_model_replacement("m", Endpoint::Completions)
            .unwrap();
        let count = usage_of(&service.state.provider_usage, r.provider_name.as_str());
        seen.push((r.provider_name, count));
    }
    let expected = vec![
        ("A".to_string(), 1),
        ("B".to_string(), 1),
        ("A".to_string(), 2),
        ("B".to_string(), 2),
    ];
    assert_eq!(seen, expected);
    assert_eq!(usage_of(&service.state.key_usage, "a1"), 2);
    assert_eq!(usage_of(&service.state.key_usage, "b1"), 2);
}

#[test]
fn a_pinned_name_forces_the_provider_and_passes_the_model_on() {
    let c = config(vec![
        provider("A", vec![model("chat", "real-A", None)], &["a1"]),
        provider("B", vec![model("chat", "real-B", Some(true))], &["b1"]),
    ]);
    let mut providers: DashMap<String, u64> = DashMap::new();
    let mut keys: DashMap<String, u64> = DashMap::new();
    providers.insert("B".to_string(), 100);
    let r = route(&c, &mut providers, &mut keys, "B:custom-x", Endpoint::Completions).unwrap();
    assert_eq!(r.provider_name, "B");
    assert_eq!(r.model, "custom-x");
    assert!(!r.think);
    assert_eq!(usage_of(&providers, "B"), 101);
    assert_eq!(usage_of(&providers, "A"), 0);
    assert_eq!(usage_of(&keys, "b1"), 1);
}

#[test]
fn the_less_used_provider_is_taken() {
    let c = two_providers();
    let mut providers: DashMap<String, u64> = DashMap::new();
    let mut keys: DashMap<String, u64> = DashMap::new();
    providers.insert("A".to_string(), 3);
    providers.insert("B".to_string(), 2);
    let name = parse_model_name("m");
    assert_eq!(select_provider(&c, &providers, &name), Some(1));
    assert_eq!(find_candidate(&c, &name), Some(0));
    let r = route(&c, &mut providers, &mut keys, "m", Endpoint::Completions).unwrap();
    assert_eq!(r.provider_name, "B");
    let r = route(&c, &mut providers, &mut keys, "m", Endpoint::Completions).unwrap();
    assert_eq!(r.provider_name, "A");
}

#[test]
fn the_least_used_key_is_taken_the_earlier_one_on_a_tie() {
    let p = provider("A", vec![model("m", "r", None)], &["k1", "k2", "k3"]);
    let counts: DashMap<String, u64> = DashMap::new();
    assert_eq!(select_key(&p, &counts), Some(0));
    counts.insert("k1".to_string(), 2);
    counts.insert("k2".to_string(), 1);
    counts.insert("k3".to_string(), 1);
    assert_eq!(select_key(&p, &counts), Some(1));
    counts.insert("k2".to_string(), 5);
    assert_eq!(select_key(&p, &counts), Some(2));
    let none = provider("N", vec![], &[]);
    assert_eq!(select_key(&none, &counts), None);
}

#[test]
fn keys_take_turns() {
    let c = config(vec![provider("A", vec![model("m", "r", Some(true))], &["k1", "k2"])]);
    let mut providers: DashMap<String, u64> = DashMap::new();
    let mut keys: DashMap<String, u64> = DashMap::new();
    let mut used = Vec::new();
    for _ in 0..4 {
        let r = route(&c, &mut providers, &mut keys, "m", Endpoint::Completions).unwrap();
        assert!(r.think);
        used.push(r.key);
    }
    assert_eq!(used, vec!["k1", "k2", "k1", "k2"]);
    assert_eq!(usage_of(&providers, "A"), 4);
}

#[test]
fn an_unknown_model_goes_nowhere_and_counts_nothing() {
    let c = two_providers();
    let mut providers: DashMap<String, u64> = DashMap::new();
    let mut keys: DashMap<String, u64> = DashMap::new();
    let e = route(&c, &mut providers, &mut keys, "other", Endpoint::Completions).unwrap_err();
    assert_eq!(e, RouteError::NoProvider);
    assert_eq!(e.message(), "no provider handles this model");
    let e = route(&c, &mut providers, &mut keys, "C:m", Endpoint::Completions).unwrap_err();
    assert_eq!(e, RouteError::NoProvider);
    assert!(providers.is_empty());
    assert!(keys.is_empty());
}

#[test]
fn a_missing_endpoint_or_key_goes_nowhere_and_counts_nothing() {
    let c = config(vec![provider("A", vec![model("m", "r", None)], &[])]);
    let mut providers: DashMap<String, u64> = DashMap::new();
    let mut keys: DashMap<String, u64> = DashMap::new();
    let e = route(&c, &mut providers, &mut keys, "m", Endpoint::Embeddings).unwrap_err();
    assert_eq!(e, RouteError::NoEndpoint { provider: 0 });
    let e = route(&c, &mut providers, &mut keys, "m", Endpoint::Completions).unwrap_err();
    assert_eq!(e, RouteError::NoKey { provider: 0 });
    assert!(providers.is_empty());
    assert!(keys.is_empty());
}

#[test]
fn the_first_entry_with_the_alias_names_the_upstream_model() {
    let c = config(vec![provider(
        "A",
        vec![model("x", "rx", None), model("m", "first", Some(false)), model("m", "second", Some(true))],
        &["k"],
    )]);
    let mut providers: DashMap<String, u64> = DashMap::new();
    let mut keys: DashMap<String, u64> = DashMap::new();
    let r = route(&c, &mut providers, &mut keys, "m", Endpoint::Completions).unwrap();
    assert_eq!(r.model, "first");
    assert!(!r.think);
}

#[test]
fn state_answers_questions_without_counting() {
    let state = AppState::new(config(vec![
        provider("A", vec![model("chat", "real-A", None)], &["a1"]),
        provider("B", vec![model("chat", "real-B", None), model("only-b", "rb", None)], &["b1"]),
    ]));
    state.provider_usage.insert("A".to_string(), 1);
    assert_eq!(state.get_provider_by_model("chat").unwrap().name, "B");
    assert_eq!(state.get_provider_by_model("A:anything").unwrap().name, "A");
    assert!(state.get_provider_by_model("nothing").is_none());
    assert_eq!(state.get_model_mapping("chat"), Some("real-A".to_string()));
    assert_eq!(state.get_model_mapping("only-b"), Some("rb".to_string()));
    assert_eq!(state.get_model_mapping("B:custom-x"), Some("custom-x".to_string()));
    assert_eq!(state.get_model_mapping("C:custom-x"), None);
    assert_eq!(state.get_model_mapping("nothing"), None);
    assert_eq!(usage_of(&state.provider_usage, "A"), 1);
    assert_eq!(usage_of(&state.provider_usage, "B"), 0);
}

#[test]
fn the_service_picks_keys_and_keeps_account() {
    let p = provider("A", vec![model("m", "r", None)], &["k1", "k2"]);
    let mut service = AIService::new(AppState::new(config(vec![provider(
        "A",
        vec![model("m", "r", None)],
        &["k1", "k2"],
    )])));
    assert_eq!(service.select_api_key(&p).unwrap(), "k1");
    service.update_usage_stats(&p, "k1");
    assert_eq!(service.select_api_key(&p).unwrap(), "k2");
    let stats = service.get_usage_stats();
    assert_eq!(stats.len(), 1);
    assert_eq!(stats[0].provider, "A");
    assert_eq!(stats[0].usage, 1);
    let bare = provider("bare", vec![], &[]);
    let e = service.select_api_key(&bare).unwrap_err();
    assert_eq!(e.describe(), "Validation error: No API keys configured for provider 'bare'");
    assert_eq!(e.status(), 400);
}

#[test]
fn usage_stats_list_every_provider_once() {
    let mut service = AIService::new(AppState::new(two_providers()));
    for _ in 0..3 {
        service.forward_request_with_model_replacement("m", Endpoint::Completions).unwrap();
    }
    let mut stats: Vec<(String, u64)> =
        service.get_usage_stats().into_iter().map(|s| (s.provider, s.usage)).collect();
    stats.sort();
    assert_eq!(stats, vec![("A".to_string(), 2), ("B".to_string(), 1)]);
}

#[test]
fn upstream_statuses() {
    assert_eq!(classify_upstream(200), UpstreamStatus::Success);
    assert_eq!(classify_upstream(204), UpstreamStatus::Success);
    assert_eq!(classify_upstream(299), UpstreamStatus::Success);
    assert_eq!(classify_upstream(199), UpstreamStatus::Failure);
    assert_eq!(classify_upstream(300), UpstreamStatus::Failure);
    assert_eq!(classify_upstream(401), UpstreamStatus::InvalidKey);
    assert_eq!(classify_upstream(403), UpstreamStatus::InvalidKey);
    assert_eq!(classify_upstream(500), UpstreamStatus::Failure);
}

#[test]
fn the_plain_forwarding_path() {
    let mut service = AIService::new(AppState::new(two_providers()));
    let missing = chat_completions(&mut service, None, Endpoint::Completions).unwrap_err();
    assert_eq!(missing.status(), 400);
    assert_eq!(missing.describe(), "Validation error: Missing or invalid model field");
    let unknown = chat_completions(&mut service, Some("other"), Endpoint::Completions).unwrap_err();
    assert_eq!(unknown.status(), 500);
    assert_eq!(unknown.describe(), "Internal error: no provider handles this model");
    assert!(service.state.provider_usage.is_empty());
    let route = chat_completions(&mut service, Some("m"), Endpoint::Completions).unwrap();
    assert_eq!(route.provider_name, "A");
    assert_eq!(route.model, "real-A");
    assert_eq!(usage_of(&service.state.provider_usage, "A"), 1);
    assert_eq!(usage_of(&service.state.key_usage, "a1"), 1);
}
