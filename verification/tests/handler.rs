use ai_forward::admin::reset_stats;
use ai_forward::config::{Config, ConfigError, Endpoints, Model, Provider};
use ai_forward::handler::{
    body_fits, completions, read_request, relay_upstream, upstream_body, CacheSource, Relay,
    RequestInfo, Step, StoreAnswer, MAX_BODY_BYTES,
};
use ai_forward::router::{usage_of, Endpoint};
use ai_forward::state::AppState;
use ai_forward::stream::Replay;

const HI: &str = "[{\"content\":\"hi\",\"role\":\"user\"}]";

fn state(cache_size: usize) -> AppState {
    AppState::new(Config {
        auth: "secret".to_string(),
        port: 8080,
        providers: vec![Provider {
            name: "P".to_string(),
            models: vec![
                Model { alias: "gpt".to_string(), model: "real-gpt".to_string(), think: None },
                Model { alias: "deep".to_string(), model: "real-deep".to_string(), think: Some(true) },
            ],
            endpoints: Endpoints {
                completions: Some("http://p/chat".to_string()),
                embeddings: Some("http://p/embed".to_string()),
            },
            keys: vec!["k".to_string()],
        }],
        log: None,
        database: None,
        cache_size: Some(cache_size),
    })
}

fn request(model: Option<&str>, stream: Option<bool>) -> RequestInfo {
    RequestInfo {
        model: model.map(|m| m.to_string()),
        stream,
        fingerprint: HI.to_string(),
        endpoint: Endpoint::Completions,
        no_think: false,
    }
}

#[test]
fn a_streaming_request_is_answered_from_the_cache() {
    let mut s = state(8);
    let earlier = read_request(
        "{\"messages\":[{\"role\":\"user\",\"content\":\"hi\"}]}",
        Endpoint::Completions,
        false,
    )
    .unwrap();
    s.record_answer(earlier.fingerprint, "hello".to_string());
    let asked = read_request(
        "{\"model\":\"gpt\",\"stream\":true,\"messages\":[{\"role\":\"user\",\"content\":\"hi\"}]}",
        Endpoint::Completions,
        false,
    )
    .unwrap();
    let step = completions(&mut s, &asked, &StoreAnswer::NotAsked, true);
    match step {
        Step::Replay { source, replay: Replay::Events { payloads } } => {
            assert_eq!(source, CacheSource::Memory);
            assert_eq!(source.tag(), "memory");
            assert_eq!(payloads.len(), 2);
            let v: serde_json::Value = serde_json::from_str(&payloads[0]).unwrap();
            assert_eq!(v["choices"][0]["delta"]["content"].as_str(), Some("hello"));
            assert_eq!(payloads[1], "[DONE]");
        },
        other => panic!("unexpected {:?}", other),
    }
    assert_eq!(ai_forward::stream::content_type(Some(true)), "text/event-stream");
    assert_eq!(usage_of(&s.provider_usage, "P"), 0);
    assert_eq!(usage_of(&s.key_usage, "k"), 0);
}

#[test]
fn a_repeated_request_counts_once() {
    let mut s = state(8);
    let first = completions(&mut s, &request(Some("gpt"), None), &StoreAnswer::NotAsked, false);
    let model = match first {
        Step::Forward { route, strip_think } => {
            assert!(!strip_think);
            route.model
        },
        other => panic!("unexpected {:?}", other),
    };
    assert_eq!(model, "real-gpt");
    s.record_answer(HI.to_string(), "the answer".to_string());
    let second = completions(&mut s, &request(Some("gpt"), None), &StoreAnswer::NotAsked, false);
    match second {
        Step::Replay { source: CacheSource::Memory, replay: Replay::Json { body } } => {
            let v: serde_json::Value = serde_json::from_str(&body).unwrap();
            assert_eq!(v["choices"][0]["message"]["content"].as_str(), Some("the answer"));
            assert_eq!(v["choices"][0]["message"]["role"].as_str(), Some("assistant"));
        },
        other => panic!("unexpected {:?}", other),
    }
    assert_eq!(usage_of(&s.provider_usage, "P"), 1);
    assert_eq!(usage_of(&s.key_usage, "k"), 1);
}

#[test]
fn a_request_without_a_model_is_refused() {
    let mut s = state(8);
    s.record_answer(HI.to_string(), "hello".to_string());
    match completions(&mut s, &request(None, Some(true)), &StoreAnswer::NotAsked, true) {
        Step::Refuse { status, message } => {
            assert_eq!(status, 400);
            assert_eq!(message, "Missing or invalid model field");
        },
        other => panic!("unexpected {:?}", other),
    }
}

#[test]
fn the_store_is_asked_after_memory_and_before_routing() {
    let mut s = state(8);
    let r = request(Some("gpt"), None);
    assert!(matches!(completions(&mut s, &r, &StoreAnswer::NotAsked, true), Step::AskStore));
    assert_eq!(usage_of(&s.provider_usage, "P"), 0);
    match completions(&mut s, &r, &StoreAnswer::Hit("stored".to_string()), true) {
        Step::Replay { source, replay: Replay::Json { body } } => {
            assert_eq!(source, CacheSource::Db);
            assert_eq!(source.tag(), "db");
            assert_eq!(
                body,
                "{\"choices\":[{\"message\":{\"content\":\"stored\",\"role\":\"assistant\"}}]}"
            );
        },
        other => panic!("unexpected {:?}", other),
    }
    assert_eq!(usage_of(&s.provider_usage, "P"), 0);
    assert!(matches!(completions(&mut s, &r, &StoreAnswer::Miss, true), Step::Forward { .. }));
    assert_eq!(usage_of(&s.provider_usage, "P"), 1);
}

#[test]
fn memory_is_asked_before_the_store() {
    let mut s = state(8);
    s.record_answer(HI.to_string(), "from memory".to_string());
    let r = request(Some("gpt"), None);
    match completions(&mut s, &r, &StoreAnswer::Hit("from store".to_string()), true) {
        Step::Replay { source, .. } => assert_eq!(source, CacheSource::Memory),
        other => panic!("unexpected {:?}", other),
    }
}

#[test]
fn an_unknown_model_is_refused_with_500() {
    let mut s = state(8);
    match completions(&mut s, &request(Some("nope"), None), &StoreAnswer::Miss, false) {
        Step::Refuse { status, message } => {
            assert_eq!(status, 500);
            assert_eq!(message, "no provider handles this model");
        },
        other => panic!("unexpected {:?}", other),
    }
    assert_eq!(usage_of(&s.provider_usage, "P"), 0);
}

#[test]
fn think_blocks_are_stripped_only_where_asked_and_needed() {
    let mut s = state(0);
    let mut r = request(Some("deep"), Some(true));
    match completions(&mut s, &r, &StoreAnswer::Miss, false) {
        Step::Forward { route, strip_think } => {
            assert!(route.think);
            assert!(!strip_think);
        },
        other => panic!("unexpected {:?}", other),
    }
    r.no_think = true;
    match completions(&mut s, &r, &StoreAnswer::Miss, false) {
        Step::Forward { strip_think, .. } => assert!(strip_think),
        other => panic!("unexpected {:?}", other),
    }
    r.model = Some("gpt".to_string());
    match completions(&mut s, &r, &StoreAnswer::Miss, false) {
        Step::Forward { strip_think, .. } => assert!(!strip_think),
        other => panic!("unexpected {:?}", other),
    }
}

#[test]
fn embeddings_are_never_answered_from_the_cache() {
    let mut s = state(8);
    s.record_answer(HI.to_string(), "hello".to_string());
    let mut r = request(Some("gpt"), None);
    r.endpoint = Endpoint::Embeddings;
    match completions(&mut s, &r, &StoreAnswer::NotAsked, true) {
        Step::Forward { route, .. } => assert_eq!(route.url, "http://p/embed"),
        other => panic!("unexpected {:?}", other),
    }
}

#[test]
fn an_upstream_failure_is_surfaced_and_still_counted() {
    let mut s = state(8);
    let provider = match completions(&mut s, &request(Some("gpt"), None), &StoreAnswer::Miss, false) {
        Step::Forward { route, .. } => route.provider_name,
        other => panic!("unexpected {:?}", other),
    };
    match relay_upstream(500, "upstream down", provider.as_str()) {
        Relay::Fail { status, body, invalid_key } => {
            assert_eq!(status, 500);
            assert_eq!(body.unwrap(), "{\"error\":\"upstream down\",\"provider\":\"P\"}");
            assert!(!invalid_key);
        },
        Relay::Pass => panic!("passed"),
    }
    assert_eq!(usage_of(&s.provider_usage, "P"), 1);
    assert_eq!(usage_of(&s.key_usage, "k"), 1);
}

#[test]
fn upstream_answers() {
    assert!(matches!(relay_upstream(200, "", "P"), Relay::Pass));
    assert!(matches!(relay_upstream(201, "ignored", "P"), Relay::Pass));
    assert!(matches!(relay_upstream(401, "bad key", "P"), Relay::Fail { status: 500, invalid_key: true, .. }));
    assert!(matches!(relay_upstream(403, "bad key", "P"), Relay::Fail { status: 500, invalid_key: true, .. }));
    assert!(matches!(relay_upstream(404, "x", "P"), Relay::Fail { status: 500, invalid_key: false, .. }));
    assert!(matches!(relay_upstream(302, "x", "P"), Relay::Fail { status: 500, invalid_key: false, .. }));
}

#[test]
fn body_limit() {
    assert_eq!(MAX_BODY_BYTES, 10 * 1024 * 1024);
    assert!(body_fits(0));
    assert!(body_fits(MAX_BODY_BYTES));
    assert!(!body_fits(MAX_BODY_BYTES + 1));
}

#[test]
fn reset_clears_the_counts_and_swaps_the_configuration() {
    let mut s = state(8);
    completions(&mut s, &request(Some("gpt"), None), &StoreAnswer::Miss, false);
    assert_eq!(usage_of(&s.provider_usage, "P"), 1);
    let mut fresh = state(8).config;
    fresh.auth = "rotated".to_string();
    assert!(reset_stats(&mut s, Ok(fresh)).is_ok());
    assert!(s.provider_usage.is_empty());
    assert!(s.key_usage.is_empty());
    assert_eq!(s.config.auth, "rotated");
}

#[test]
fn a_failed_reload_clears_the_counts_and_keeps_the_configuration() {
    let mut s = state(8);
    completions(&mut s, &request(Some("gpt"), None), &StoreAnswer::Miss, false);
    let e = reset_stats(&mut s, Err(ConfigError("Failed to parse config: eof".to_string()))).unwrap_err();
    assert_eq!(e.status(), 500);
    assert_eq!(e.describe(), "Configuration error: Failed to parse config: eof");
    assert!(s.provider_usage.is_empty());
    assert!(s.key_usage.is_empty());
    assert_eq!(s.config.auth, "secret");
}

#[test]
fn reload_swaps_the_configuration_only() {
    let mut s = state(8);
    completions(&mut s, &request(Some("gpt"), None), &StoreAnswer::Miss, false);
    let mut fresh = state(8).config;
    fresh.port = 9;
    s.reload_config(fresh);
    assert_eq!(s.config.port, 9);
    assert_eq!(usage_of(&s.provider_usage, "P"), 1);
}

#[test]
fn a_new_state_is_empty() {
    let s = state(3);
    assert!(s.provider_usage.is_empty());
    assert!(s.key_usage.is_empty());
    assert_eq!(s.cache.len(), 0);
    assert_eq!(s.cache.capacity(), 3);
    assert!(!s.ip_ban_manager.is_banned("203.0.113.7"));
}

#[test]
fn a_request_body_is_read() {
    let body = "{\"model\":\"gpt\",\"stream\":true,\"messages\":[{\"role\":\"user\",\"content\":\"hi\"}]}";
    let r = read_request(body, Endpoint::Completions, true).unwrap();
    assert_eq!(r.model, Some("gpt".to_string()));
    assert_eq!(r.stream, Some(true));
    assert_eq!(r.fingerprint, HI);
    assert_eq!(r.endpoint, Endpoint::Completions);
    assert!(r.no_think);
}

#[test]
fn a_request_body_may_lack_fields() {
    let r = read_request("{\"input\":\"text\",\"model\":7,\"stream\":\"yes\"}", Endpoint::Embeddings, false).unwrap();
    assert_eq!(r.model, None);
    assert_eq!(r.stream, None);
    assert_eq!(r.fingerprint, "null");
    assert_eq!(r.endpoint, Endpoint::Embeddings);
    assert!(!r.no_think);
}

#[test]
fn a_body_that_is_no_json_is_refused() {
    let e = read_request("{\"model\":", Endpoint::Completions, false).unwrap_err();
    assert_eq!(e.status(), 400);
    assert_eq!(e.describe(), "JSON error: request body is not valid JSON");
    assert!(read_request("", Endpoint::Completions, false).is_err());
}

#[test]
fn the_same_messages_have_the_same_fingerprint() {
    let a = read_request("{\"model\":\"a\",\"messages\":[ {\"role\":\"user\", \"content\":\"hi\"} ]}", Endpoint::Completions, false).unwrap();
    let b = read_request("{\"messages\":[{\"role\":\"user\",\"content\":\"hi\"}],\"model\":\"b\",\"stream\":false}", Endpoint::Completions, false).unwrap();
    let c = read_request("{\"model\":\"a\",\"messages\":[{\"role\":\"user\",\"content\":\"hi!\"}]}", Endpoint::Completions, false).unwrap();
    assert_eq!(a.fingerprint, b.fingerprint);
    assert_ne!(a.fingerprint, c.fingerprint);
}

#[test]
fn the_upstream_body_names_the_upstream_model() {
    let mut s = state(8);
    let body = "{\"model\":\"gpt\",\"messages\":[],\"temperature\":0.5}";
    let request = read_request(body, Endpoint::Completions, false).unwrap();
    let route = match completions(&mut s, &request, &StoreAnswer::Miss, false) {
        Step::Forward { route, .. } => route,
        other => panic!("unexpected {:?}", other),
    };
    let sent = upstream_body(body, &route).unwrap();
    let v: serde_json::Value = serde_json::from_str(&sent).unwrap();
    assert_eq!(v["model"].as_str(), Some("real-gpt"));
    assert_eq!(v["temperature"].as_f64(), Some(0.5));
    assert_eq!(v["messages"].as_array().map(|a| a.len()), Some(0));
    assert_eq!(upstream_body("{\"messages\":[]}", &route), None);
    assert_eq!(upstream_body("nonsense", &route), None);
}

#[test]
fn a_pinned_model_goes_upstream_by_its_own_name() {
    let mut s = state(8);
    let body = "{\"model\":\"P:custom-x\",\"messages\":[]}";
    let request = read_request(body, Endpoint::Completions, false).unwrap();
    let route = match completions(&mut s, &request, &StoreAnswer::Miss, false) {
        Step::Forward { route, .. } => route,
        other => panic!("unexpected {:?}", other),
    };
    assert_eq!(upstream_body(body, &route).unwrap(), "{\"messages\":[],\"model\":\"custom-x\"}");
}
