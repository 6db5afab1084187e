use ai_forward::json::{upstream_error, write_sse_frame};
use ai_forward::stream::{
    content_type, read_delta, replay, replay_quoted, shape_reply, strip_think, Delta, Emit, Replay,
    StreamProcessor, ThinkFilter,
};

fn content(text: &str) -> Delta {
    Delta::Content(text.to_string())
}

fn rewritten(e: Emit) -> String {
    match e {
        Emit::Rewrite(text) => text,
        Emit::Forward => panic!("forwarded"),
    }
}

fn is_forward(e: Emit) -> bool {
    matches!(e, Emit::Forward)
}

#[test]
fn content_types() {
    assert_eq!(content_type(Some(true)), "text/event-stream");
    assert_eq!(content_type(Some(false)), "application/json");
    assert_eq!(content_type(None), "application/json");
}

#[test]
fn a_think_block_split_over_events_is_taken_out() {
    let mut f = ThinkFilter::new();
    assert_eq!(f.push("<think>pla"), "");
    assert!(f.is_thinking());
    assert_eq!(f.push("n</think>\n\nanswer-1 "), "answer-1 ");
    assert!(!f.is_thinking());
    assert_eq!(f.push("answer-2"), "answer-2");
}

#[test]
fn an_open_think_block_holds_everything_back() {
    let mut f = ThinkFilter::new();
    assert_eq!(f.push("<th"), "");
    assert_eq!(f.push("ink>still going"), "");
    assert_eq!(f.push(" and going </think>"), "");
    assert_eq!(f.push("\n"), "");
    assert!(f.is_thinking());
    assert_eq!(f.push("\nfinal"), "final");
    assert!(!f.is_thinking());
    assert_eq!(f.push("<think>later</think>\n\n"), "<think>later</think>\n\n");
}

#[test]
fn short_buffers_wait() {
    let mut f = ThinkFilter::new();
    assert_eq!(f.push("He"), "");
    assert_eq!(f.push("l"), "");
    assert!(f.is_thinking());
    assert_eq!(f.push("lo"), "Hello");
    assert!(!f.is_thinking());
    assert_eq!(f.push(" world"), " world");
}

#[test]
fn text_without_a_think_block_passes_once_it_is_long_enough() {
    let mut f = ThinkFilter::new();
    assert_eq!(f.push("Hello there"), "Hello there");
    assert!(!f.is_thinking());
    let mut g = ThinkFilter::new();
    assert_eq!(g.push("<thx"), "");
    assert_eq!(g.push("四个字符"), "");
    assert!(g.is_thinking());
    let mut h = ThinkFilter::new();
    assert_eq!(h.push("<tx>"), "<tx>");
    let mut three = ThinkFilter::new();
    assert_eq!(three.push("abc"), "");
    assert_eq!(three.push(""), "");
    assert_eq!(three.push("d"), "abcd");
}

#[test]
fn only_the_first_closing_tag_counts_in_a_stream() {
    let mut f = ThinkFilter::new();
    assert_eq!(f.push("<think>a</think>\n\nb</think>\n\nc"), "b</think>\n\nc");
    let mut g = ThinkFilter::new();
    assert_eq!(g.push("</think>\n\n"), "");
    assert!(!g.is_thinking());
}

#[test]
fn a_complete_answer_keeps_what_follows_the_last_closing_tag() {
    assert_eq!(strip_think("<think>plan</think>\n\nanswer"), "answer");
    assert_eq!(strip_think("no thinking here"), "no thinking here");
    assert_eq!(strip_think("<think>a</think>\n\nb</think>\n\nc"), "c");
    assert_eq!(strip_think("<think>a</think>\n\n"), "");
    assert_eq!(strip_think("<think>a</think>\nb"), "<think>a</think>\nb");
    assert_eq!(strip_think(""), "");
    assert_eq!(strip_think("思考</think>\n\n答案"), "答案");
}

#[test]
fn a_cached_answer_is_replayed_as_two_events() {
    match replay("hello", true) {
        Some(Replay::Events { payloads }) => {
            assert_eq!(payloads.len(), 2);
            assert_eq!(
                payloads[0],
                "{\"choices\":[{\"delta\":{\"content\":\"hello\",\"role\":\"assistant\"}}]}"
            );
            let v: serde_json::Value = serde_json::from_str(&payloads[0]).unwrap();
            assert_eq!(v["choices"][0]["delta"]["content"].as_str(), Some("hello"));
            assert_eq!(v["choices"][0]["delta"]["role"].as_str(), Some("assistant"));
            assert_eq!(payloads[1], "[DONE]");
        },
        other => panic!("unexpected {:?}", other),
    }
}

#[test]
fn a_cached_answer_is_replayed_as_one_body() {
    match replay("say \"hi\"\n", false) {
        Some(Replay::Json { body }) => {
            assert_eq!(
                body,
                "{\"choices\":[{\"message\":{\"content\":\"say \\\"hi\\\"\\n\",\"role\":\"assistant\"}}]}"
            );
            let v: serde_json::Value = serde_json::from_str(&body).unwrap();
            assert_eq!(v["choices"][0]["message"]["content"].as_str(), Some("say \"hi\"\n"));
        },
        other => panic!("unexpected {:?}", other),
    }
}

#[test]
fn a_quoted_answer_is_put_in_place_as_it_is() {
    match replay_quoted("\"x\"", false) {
        Replay::Json { body } => {
            assert_eq!(body, "{\"choices\":[{\"message\":{\"content\":\"x\",\"role\":\"assistant\"}}]}")
        },
        other => panic!("unexpected {:?}", other),
    }
    match replay_quoted("\"x\"", true) {
        Replay::Events { payloads } => {
            assert_eq!(
                payloads,
                vec![
                    "{\"choices\":[{\"delta\":{\"content\":\"x\",\"role\":\"assistant\"}}]}".to_string(),
                    "[DONE]".to_string()
                ]
            )
        },
        other => panic!("unexpected {:?}", other),
    }
}

#[test]
fn frames_and_error_bodies() {
    assert_eq!(write_sse_frame("[DONE]"), "data: [DONE]\n\n");
    assert_eq!(write_sse_frame(""), "data: \n\n");
    assert_eq!(
        upstream_error("upstream down", "P").unwrap(),
        "{\"error\":\"upstream down\",\"provider\":\"P\"}"
    );
    let body = upstream_error("a \"b\" \\ c", "p\n").unwrap();
    let v: serde_json::Value = serde_json::from_str(&body).unwrap();
    assert_eq!(v["error"].as_str(), Some("a \"b\" \\ c"));
    assert_eq!(v["provider"].as_str(), Some("p\n"));
}

#[test]
fn a_plain_stream_is_forwarded_and_collected() {
    let mut p = StreamProcessor::new(false);
    assert!(is_forward(p.on_event(&content("Hel"))));
    assert!(is_forward(p.on_event(&Delta::NoContent)));
    assert!(is_forward(p.on_event(&content("lo"))));
    assert!(!p.is_finished());
    assert!(is_forward(p.on_event(&Delta::Unparsed)));
    assert!(p.is_finished());
    assert_eq!(p.collected(), "Hello");
    assert!(is_forward(p.on_event(&content(" late"))));
    assert_eq!(p.collected(), "Hello");
}

#[test]
fn a_stripped_stream_is_rewritten_and_collected_whole() {
    let mut p = StreamProcessor::new(true);
    assert_eq!(rewritten(p.on_event(&content("<think>pla"))), "");
    assert!(is_forward(p.on_event(&Delta::NoContent)));
    assert_eq!(rewritten(p.on_event(&content("n</think>\n\nanswer-1 "))), "answer-1 ");
    assert_eq!(rewritten(p.on_event(&content("answer-2"))), "answer-2");
    assert!(is_forward(p.on_event(&Delta::Unparsed)));
    assert!(p.is_finished());
    assert_eq!(p.collected(), "<think>plan</think>\n\nanswer-1 answer-2");
}

#[test]
fn a_new_processor_has_collected_nothing() {
    let p = StreamProcessor::new(true);
    assert!(!p.is_finished());
    assert_eq!(p.collected(), "");
}

#[test]
fn event_data_is_read() {
    assert!(matches!(read_delta("[DONE]"), Delta::Unparsed));
    assert!(matches!(read_delta(""), Delta::Unparsed));
    assert!(matches!(read_delta("{}"), Delta::NoContent));
    assert!(matches!(read_delta("{\"choices\":[]}"), Delta::NoContent));
    assert!(matches!(read_delta("{\"choices\":[{\"delta\":{\"content\":7}}]}"), Delta::NoContent));
    assert!(matches!(read_delta("{\"choices\":[{\"delta\":{\"role\":\"assistant\"}}]}"), Delta::NoContent));
    match read_delta("{\"choices\":[{\"delta\":{\"content\":\"a\\nb\"}},{\"delta\":{\"content\":\"x\"}}]}") {
        Delta::Content(c) => assert_eq!(c, "a\nb"),
        other => panic!("unexpected {:?}", other),
    }
}

fn event(content: &str) -> String {
    let quoted = serde_json::to_string(content).unwrap();
    format!("{{\"choices\":[{{\"delta\":{{\"content\":{}}},\"index\":0}}],\"id\":\"c1\"}}", quoted)
}

fn content_of(data: &str) -> String {
    let v: serde_json::Value = serde_json::from_str(data).unwrap();
    v["choices"][0]["delta"]["content"].as_str().unwrap().to_string()
}

#[test]
fn a_think_block_is_taken_out_of_the_events() {
    let mut p = StreamProcessor::new(true);
    let first = p.on_data(&event("<think>pla"));
    assert_eq!(content_of(&first), "");
    let second = p.on_data(&event("n</think>\n\nanswer-1 "));
    assert_eq!(content_of(&second), "answer-1 ");
    let third = p.on_data(&event("answer-2"));
    assert_eq!(content_of(&third), "answer-2");
    let v: serde_json::Value = serde_json::from_str(&second).unwrap();
    assert_eq!(v["id"].as_str(), Some("c1"));
    assert_eq!(v["choices"][0]["index"].as_u64(), Some(0));
    assert_eq!(p.on_data("[DONE]"), "[DONE]");
    assert!(p.is_finished());
    assert_eq!(p.collected(), "<think>plan</think>\n\nanswer-1 answer-2");
}

#[test]
fn events_of_a_plain_stream_go_out_as_they_came() {
    let mut p = StreamProcessor::new(false);
    let spaced = "{ \"choices\": [ { \"delta\": { \"content\": \"<think>x\" } } ] }";
    assert_eq!(p.on_data(spaced), spaced);
    assert_eq!(p.on_data("{\"usage\":null}"), "{\"usage\":null}");
    assert_eq!(p.on_data("not json"), "not json");
    assert_eq!(p.collected(), "<think>x");
    assert!(p.is_finished());
}

#[test]
fn a_complete_answer_is_passed_on_and_kept() {
    let reply = "{\"choices\":[{\"message\":{\"content\":\"<think>p</think>\\n\\nanswer\",\"role\":\"assistant\"}}],\"model\":\"m\"}";
    let plain = shape_reply(reply, false).unwrap();
    assert_eq!(plain.body, reply);
    assert_eq!(plain.answer, Some("<think>p</think>\n\nanswer".to_string()));
    let stripped = shape_reply(reply, true).unwrap();
    assert_eq!(stripped.answer, Some("<think>p</think>\n\nanswer".to_string()));
    assert_eq!(
        stripped.body,
        "{\"choices\":[{\"message\":{\"content\":\"answer\",\"role\":\"assistant\"}}],\"model\":\"m\"}"
    );
}

#[test]
fn an_answer_without_text_is_passed_on_untouched() {
    let reply = "{\"data\": [1, 2, 3]}";
    let shaped = shape_reply(reply, true).unwrap();
    assert_eq!(shaped.body, reply);
    assert_eq!(shaped.answer, None);
}

#[test]
fn an_answer_that_is_no_json_is_an_error() {
    let e = shape_reply("<html>", false).unwrap_err();
    assert_eq!(e.status(), 500);
    assert_eq!(e.describe(), "Internal error: upstream answer is not valid JSON");
}

#[test]
fn only_an_ended_answer_is_kept() {
    let mut p = StreamProcessor::new(false);
    p.on_data(&event("par"));
    p.on_data(&event("tial"));
    assert_eq!(p.collected(), "partial");
    assert_eq!(p.into_answer(), None);
    let mut q = StreamProcessor::new(false);
    q.on_data(&event("whole"));
    q.on_data("[DONE]");
    assert_eq!(q.into_answer(), Some("whole".to_string()));
    let mut empty = StreamProcessor::new(true);
    empty.on_data("[DONE]");
    assert_eq!(empty.into_answer(), Some(String::new()));
}
