use llmstream::llm::DecodeError;
use llmstream::llm::Provider;
use llmstream::llm::StreamDecoder;
use llmstream::llm::StreamResponse;
use llmstream::llm::Usage;

fn contents(events: &[Result<StreamResponse, DecodeError>]) -> String {
    let mut s = String::new();
    for e in events {
        if let Ok(ev) = e {
            if let Some(c) = ev.get_content() {
                s.push_str(&c);
            }
        }
    }
    s
}

#[test]
fn line_frame_yields_content_delta() {
    let mut d = StreamDecoder::new(Provider::Groq);
    let evs = d.feed(
        "data: {\"choices\":[{\"delta\":{\"content\":\"Hi\"},\"finish_reason\":null}]}\n",
    );
    assert_eq!(evs.len(), 1);
    let ev = evs[0].as_ref().unwrap();
    assert_eq!(ev.get_content(), Some("Hi".to_string()));
    assert!(!ev.is_finished());
}

#[test]
fn sentinel_line_produces_no_event() {
    let mut d = StreamDecoder::new(Provider::OpenRouter);
    let evs = d.feed("data: [DONE]\n");
    assert!(evs.is_empty());
}

#[test]
fn keep_alive_lines_are_discarded() {
    let mut d = StreamDecoder::new(Provider::Groq);
    let evs = d.feed(": keep-alive\n\n");
    assert!(evs.is_empty());
}

#[test]
fn chunk_boundaries_do_not_change_line_output() {
    let whole = "data: {\"choices\":[{\"delta\":{\"content\":\"ab\"},\"finish_reason\":null}]}\ndata: {\"choices\":[{\"delta\":{\"content\":\"cd\"},\"finish_reason\":\"stop\"}]}\n";
    let mut base = StreamDecoder::new(Provider::Groq);
    let mut base_events = base.feed(whole);
    base_events.extend(base.finish());
    let expected = contents(&base_events);
    assert_eq!(expected, "abcd");
    for cut in 0..whole.len() {
        if !whole.is_char_boundary(cut) {
            continue;
        }
        let mut d = StreamDecoder::new(Provider::Groq);
        let mut evs = d.feed(&whole[..cut]);
        evs.extend(d.feed(&whole[cut..]));
        evs.extend(d.finish());
        assert_eq!(contents(&evs), expected, "cut at {}", cut);
    }
}

#[test]
fn whole_object_split_anywhere_yields_one_event() {
    let payload = "{\"message\":{\"role\":\"assistant\",\"content\":\"Hi\"},\"done\":true}";
    for cut in 0..payload.len() {
        let mut d = StreamDecoder::new(Provider::Ollama);
        let mut evs = d.feed(&payload[..cut]);
        evs.extend(d.feed(&payload[cut..]));
        assert_eq!(evs.len(), 1, "cut at {}", cut);
        let ev = evs[0].as_ref().unwrap();
        assert_eq!(ev.get_content(), Some("Hi".to_string()));
        assert!(ev.is_finished());
    }
}

#[test]
fn two_objects_in_one_chunk_yield_two_events() {
    let mut d = StreamDecoder::new(Provider::Ollama);
    let evs = d.feed(
        "{\"message\":{\"role\":\"a\",\"content\":\"x\"},\"done\":false}\n{\"message\":{\"role\":\"a\",\"content\":\"y\"},\"done\":true}\n",
    );
    assert_eq!(evs.len(), 2);
    assert_eq!(contents(&evs), "xy");
}

#[test]
fn malformed_frame_reports_error_and_session_goes_on() {
    let mut d = StreamDecoder::new(Provider::Groq);
    let evs = d.feed("data: {not json}\n");
    assert_eq!(evs.len(), 1);
    assert!(evs[0].is_err());
    let evs = d.feed(
        "data: {\"choices\":[{\"delta\":{\"content\":\"ok\"},\"finish_reason\":null}]}\n",
    );
    assert_eq!(evs.len(), 1);
    assert_eq!(evs[0].as_ref().unwrap().get_content(), Some("ok".to_string()));
}

#[test]
fn finish_flushes_unterminated_line() {
    let mut d = StreamDecoder::new(Provider::Groq);
    let evs = d.feed("data: {\"choices\":[{\"delta\":{\"content\":\"zz\"},\"finish_reason\":null}]}");
    assert!(evs.is_empty());
    let evs = d.finish();
    assert_eq!(evs.len(), 1);
    assert_eq!(evs[0].as_ref().unwrap().get_content(), Some("zz".to_string()));
}

#[test]
fn finish_reports_error_for_garbage_object_tail() {
    let mut d = StreamDecoder::new(Provider::Ollama);
    let evs = d.feed("noise without an object");
    assert!(evs.is_empty());
    let evs = d.finish();
    assert_eq!(evs.len(), 1);
    assert!(evs[0].is_err());
}

#[test]
fn finish_reason_stop_marks_finished() {
    let mut d = StreamDecoder::new(Provider::SambaNova);
    let evs = d.feed("data: {\"choices\":[{\"delta\":{},\"finish_reason\":\"stop\"}]}\n");
    assert!(evs[0].as_ref().unwrap().is_finished());
    let evs = d.feed("data: {\"choices\":[{\"delta\":{},\"finish_reason\":\"length\"}]}\n");
    assert!(!evs[0].as_ref().unwrap().is_finished());
}

#[test]
fn usage_block_is_reported() {
    let mut d = StreamDecoder::new(Provider::Groq);
    let evs = d.feed(
        "data: {\"choices\":[],\"usage\":{\"prompt_tokens\":3,\"completion_tokens\":7,\"total_tokens\":10}}\n",
    );
    let u = evs[0].as_ref().unwrap().get_usage().unwrap();
    assert_eq!(u.prompt_tokens, Some(3));
    assert_eq!(u.completion_tokens, Some(7));
    assert_eq!(u.total_tokens, Some(10));
}

#[test]
fn ollama_counters_become_usage_estimate() {
    let mut d = StreamDecoder::new(Provider::Ollama);
    let evs = d.feed(
        "{\"message\":{\"role\":\"a\",\"content\":\"\"},\"done\":true,\"prompt_eval_count\":4,\"eval_count\":6,\"total_duration\":999}",
    );
    let u = evs[0].as_ref().unwrap().get_usage().unwrap();
    assert_eq!(u.prompt_tokens, Some(4));
    assert_eq!(u.completion_tokens, Some(6));
    assert_eq!(u.total_tokens, Some(10));
}

#[test]
fn usage_estimate_wraps_to_32_bits() {
    let big = (1u64 << 32) + 5;
    let resp = StreamResponse::OllamaStyle {
        model: String::new(),
        created_at: String::new(),
        message: llmstream::llm::Message { role: "a".to_string(), content: String::new() },
        done: true,
        done_reason: None,
        total_duration: Some(1),
        load_duration: None,
        prompt_eval_count: Some(big),
        prompt_eval_duration: None,
        eval_count: Some(1),
        eval_duration: None,
    };
    let u = resp.get_usage().unwrap();
    assert_eq!(u.prompt_tokens, Some(5));
    assert_eq!(u.completion_tokens, Some(1));
    assert_eq!(u.total_tokens, Some(6));
}

#[test]
fn empty_choices_has_no_content_and_is_not_finished() {
    let resp = StreamResponse::OpenAIStyle {
        id: String::new(),
        provider: None,
        model: String::new(),
        choices: Vec::new(),
        usage: Some(Usage { prompt_tokens: None, completion_tokens: None, total_tokens: None }),
    };
    assert_eq!(resp.get_content(), None);
    assert!(!resp.is_finished());
}

#[test]
fn provider_base_urls() {
    assert_eq!(
        Provider::OpenRouter.base_url(),
        "https://openrouter.ai/api/v1/chat/completions"
    );
    assert_eq!(Provider::Ollama.base_url(), "http://localhost:11434/api/chat");
    assert_eq!(Provider::Groq.default_model(), "qwen-qwq-32b");
    assert_eq!(Provider::SambaNova.api_key_env_var(), "SAMBANOVA_API_KEY");
}

#[test]
fn string_escapes_in_frames_are_decoded() {
    let mut d = StreamDecoder::new(Provider::Groq);
    let evs = d.feed(
        "data: {\"choices\":[{\"delta\":{\"content\":\"a\\nb\\u0041\\ud83d\\ude00\"},\"finish_reason\":null}]}\n",
    );
    assert_eq!(
        evs[0].as_ref().unwrap().get_content(),
        Some("a\nbA\u{1F600}".to_string())
    );
}
