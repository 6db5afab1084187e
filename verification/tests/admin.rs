use ai_forward::admin::list_models;
use ai_forward::config::{Config, ConfigError, Endpoints, Model, Provider};
use ai_forward::error::AppError;
use ai_forward::models::{ChatResponse, Choice, ContentPart, Message, MessageContent};
use ai_forward::text::{chars_of, find_last_sub, find_sub, matches_at, same_text};

fn provider(name: &str, aliases: &[&str]) -> Provider {
    Provider {
        name: name.to_string(),
        models: aliases
            .iter()
            .map(|a| Model { alias: a.to_string(), model: format!("real-{}", a), think: None })
            .collect(),
        endpoints: Endpoints { completions: Some("http://up".to_string()), embeddings: None },
        keys: vec!["k".to_string()],
    }
}

#[test]
fn the_catalog_lists_every_alias_of_every_provider() {
    let c = Config {
        auth: "secret".to_string(),
        port: 1,
        providers: vec![provider("A", &["x", "y"]), provider("B", &[]), provider("C", &["x", "z"])],
        log: None,
        database: None,
        cache_size: None,
    };
    let catalog = list_models(&c);
    let ids: Vec<&str> = catalog.iter().map(|m| m.id.as_str()).collect();
    assert_eq!(ids, vec!["x", "y", "x", "z"]);
    for m in &catalog {
        assert_eq!(m.object, "model");
        assert_eq!(m.created, 0);
        assert_eq!(m.owned_by, "ai_forward");
    }
}

#[test]
fn the_catalog_of_no_providers_is_empty() {
    let c = Config {
        auth: "secret".to_string(),
        port: 1,
        providers: vec![],
        log: None,
        database: None,
        cache_size: None,
    };
    assert!(list_models(&c).is_empty());
}

#[test]
fn errors_and_their_answers() {
    let cases = vec![
        (AppError::Database("d".to_string()), 500, "Database error occurred", "Database", "Database error: d"),
        (AppError::Http("h".to_string()), 502, "Upstream service error", "Http", "HTTP error: h"),
        (AppError::Json("j".to_string()), 400, "Invalid JSON format", "Json", "JSON error: j"),
        (
            AppError::Config(ConfigError("c".to_string())),
            500,
            "Configuration error",
            "Config",
            "Configuration error: c",
        ),
        (AppError::Validation("v".to_string()), 400, "Validation failed", "Validation", "Validation error: v"),
        (AppError::Internal("i".to_string()), 500, "Internal server error", "Internal", "Internal error: i"),
    ];
    for (e, status, message, kind, text) in cases {
        assert_eq!(e.status(), status);
        assert_eq!(e.public_message(), message);
        assert_eq!(e.kind(), kind);
        assert_eq!(e.describe(), text);
    }
}

fn response(choices: Vec<Choice>) -> ChatResponse {
    ChatResponse {
        id: "id".to_string(),
        object: "chat.completion".to_string(),
        created: 1,
        model: "m".to_string(),
        choices,
        usage: None,
    }
}

#[test]
fn the_first_text_of_a_completion() {
    let text = Choice {
        index: 0,
        message: Message { role: "assistant".to_string(), content: MessageContent::Text("hi".to_string()) },
        finish_reason: None,
    };
    let parts = Choice {
        index: 0,
        message: Message {
            role: "assistant".to_string(),
            content: MessageContent::Array(vec![ContentPart {
                content_type: "text".to_string(),
                text: Some("hi".to_string()),
                image_url: None,
            }]),
        },
        finish_reason: None,
    };
    assert_eq!(response(vec![]).first_text(), None);
    assert_eq!(response(vec![text]).first_text(), Some(&"hi".to_string()));
    assert_eq!(response(vec![parts]).first_text(), None);
}

#[test]
fn searching_text() {
    let s = chars_of("abcabc");
    assert_eq!(s, vec!['a', 'b', 'c', 'a', 'b', 'c']);
    assert_eq!(find_sub(&s, &chars_of("bc")), Some(1));
    assert_eq!(find_last_sub(&s, &chars_of("bc")), Some(4));
    assert_eq!(find_sub(&s, &chars_of("cb")), None);
    assert_eq!(find_last_sub(&s, &chars_of("cb")), None);
    assert_eq!(find_sub(&s, &chars_of("")), Some(0));
    assert_eq!(find_last_sub(&s, &chars_of("")), Some(6));
    assert_eq!(find_sub(&s, &chars_of("abcabcd")), None);
    assert_eq!(find_sub(&chars_of(""), &chars_of("")), Some(0));
    assert_eq!(find_sub(&chars_of(""), &chars_of("a")), None);
    assert_eq!(find_sub(&s, &chars_of("abcabc")), Some(0));
    assert!(matches_at(&s, &chars_of("cab"), 2));
    assert!(!matches_at(&s, &chars_of("cab"), 3));
    assert!(!matches_at(&s, &chars_of("c"), 6));
    assert!(matches_at(&s, &chars_of(""), 6));
    assert!(!matches_at(&s, &chars_of(""), 7));
    assert_eq!(chars_of("héllo").len(), 5);
}

#[test]
fn comparing_text() {
    assert!(same_text("", ""));
    assert!(same_text("abc", "abc"));
    assert!(!same_text("abc", "abd"));
    assert!(!same_text("abc", "ab"));
    assert!(!same_text("ab", "abc"));
    assert!(same_text("模型", "模型"));
}
