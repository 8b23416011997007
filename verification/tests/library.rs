use crustly::llama_cpp::decode::drain_valid_utf8;
use crustly::llama_cpp::generate::{
    begin_stream, generation_error, plan_generation, CompleteRun, GenerationPlan, GenerationStage,
    Job, NextStep, StreamRun,
};
use crustly::llama_cpp::prompt::{build_prompt, chat_messages};
use crustly::llama_cpp::provider::{
    panic_message, panic_to_provider_error, plan_worker, settle_complete, settle_stream,
    worker_gone, LlamaCppProvider, LlamaCppProviderConfig, LoadOutcome, PanicPayload, WorkerGone,
};
use crustly::llama_cpp::sampling::{
    build_sampler, fixed_seed, maybe_swap_to_constrained_sampler, try_build_constrained_sampler,
    SamplerSetup, SamplerStage, SamplingDefaults,
};
use crustly::llama_cpp::worker::{Action, LoadStage, Received, Worker};
use crustly::qwen::provider::{QwenProvider, ToolCallParser};
use crustly::qwen::response::QwenError;
use crustly::qwen::stream::{
    byte_payloads, lines, sse_payloads, QwenFunctionCallDelta, QwenMessageDelta, QwenStreamChoice,
    QwenStreamChunk, QwenToolCallDelta,
};
use crustly::ids;
use crustly::text;
use crustly::types::{
    ContentBlock, ContentDelta, Float32, LLMRequest, Message, PerfMetrics, ProviderError, Role,
    StopReason, StreamEvent, TokenUsage, Tool,
};
use crustly::qwen::response::QwenUsage;
use serde_json::Value;

fn json(text: &str) -> Value {
    serde_json::from_str(text).expect("valid JSON")
}

fn single(x: f32) -> Float32 {
    Float32 { bits: x.to_bits() }
}

fn user(text: &str) -> Message {
    Message {
        role: Role::User,
        content: vec![ContentBlock::Text { text: text.to_string() }],
    }
}

fn tool(name: &str) -> Tool {
    Tool {
        name: name.to_string(),
        description: "A tool".to_string(),
        input_schema: json(r#"{"type":"object"}"#),
    }
}

fn metrics() -> PerfMetrics {
    PerfMetrics {
        load_duration_ms: Some(1),
        prompt_eval_duration_ms: Some(2),
        eval_duration_ms: Some(3),
        total_duration_ms: Some(6),
        model_was_loaded: Some(true),
    }
}

#[test]
fn white_space_is_what_std_takes_for_it() {
    for c in '\0'..=char::MAX {
        assert_eq!(text::is_whitespace(c), c.is_whitespace(), "{:x}", c as u32);
    }
}

#[test]
fn text_is_trimmed_as_std_trims_it() {
    for s in ["", " ", "a", "  a b\t\n", "\u{3000}x\u{85}", "\u{200b}y "] {
        assert_eq!(text::trim(s), s.trim());
    }
}

#[test]
fn text_is_searched_as_std_searches_it() {
    let haystacks = ["", "abc", "ababab", "日本語日本", "aaa"];
    let needles = ["", "a", "ab", "本", "語日", "zz", "aaaa"];
    for h in haystacks {
        for n in needles {
            assert_eq!(text::contains(h, n), h.contains(n));
            assert_eq!(text::starts_with(h, n), h.starts_with(n));
            assert_eq!(text::ends_with(h, n), h.ends_with(n));
            assert_eq!(text::same(h, n), h == n);
            assert_eq!(text::find_after(h, 0, n), h.find(n));
        }
    }
    assert_eq!(text::find_after("日本語日本", 3, "日"), Some(9));
}

#[test]
fn lines_are_those_of_std() {
    for s in ["", "\n", "a", "a\n", "a\r\nb", "a\n\nb\r", "\r\n\r\n", "x\ry\n"] {
        let want: Vec<String> = s.lines().map(|l| l.to_string()).collect();
        assert_eq!(lines(s), want, "{s:?}");
    }
}

#[test]
fn text_is_split_and_joined() {
    let parts: Vec<String> =
        text::split("a\nb\n\nc", "\n").into_iter().map(|v| v.into_iter().collect()).collect();
    assert_eq!(parts, ["a", "b", "", "c"]);
    assert_eq!(text::join(&parts, "\n"), "a\nb\n\nc");
    assert_eq!(text::join(&Vec::new(), ", "), "");
    assert_eq!(text::take_chars("日本語", 2), "日本");
    assert_eq!(text::take_chars("ab", 9), "ab");
}

#[test]
fn numbers_are_read_as_std_reads_them() {
    for s in [
        "", "+", "-1", "0", "7", "+7", "++7", "007", "12a", " 1", "1 ", "18446744073709551615",
        "18446744073709551616", "00000000000000000000000018446744073709551615",
        "99999999999999999999", "184467440737095516150", "1.5", "٣",
    ] {
        assert_eq!(text::parse_number(s), s.parse::<u64>().ok(), "{s:?}");
    }
}

#[test]
fn reading_a_number_undoes_writing_it() {
    for n in [0, 9, 10, 1024, u64::MAX] {
        assert_eq!(text::decimal_string(n), n.to_string());
        assert_eq!(text::parse_number(&text::decimal_string(n)), Some(n));
    }
}

#[test]
fn call_identifiers_have_their_shape() {
    assert_eq!(
        ids::call_id_from("01234567-89ab-cdef-0123-456789abcdef"),
        "call_0123456789abcdef01234567"
    );
    let a = ids::generate_call_id();
    let b = ids::generate_call_id();
    assert_ne!(a, b);
    for id in [a, b] {
        assert!(id.starts_with("call_"));
        assert_eq!(id.len(), 29);
        assert!(id[5..].chars().all(|c| c.is_ascii_hexdigit() && !c.is_uppercase()));
    }
}

#[test]
fn the_names_of_offered_tools_are_listed() {
    let mut request = LLMRequest::new("m", vec![user("hi")]);
    assert!(request.tool_names().is_empty());
    request.tools = Some(vec![tool("read_file"), tool("bash")]);
    assert_eq!(request.tool_names(), ["read_file", "bash"]);
}

#[test]
fn only_a_clean_key_makes_a_header() {
    let provider = QwenProvider::dashscope_intl("  key  ".to_string());
    assert_eq!(
        provider.headers().unwrap(),
        vec![
            ("authorization".to_string(), "Bearer key".to_string()),
            ("content-type".to_string(), "application/json".to_string()),
        ]
    );
    let broken = QwenProvider::dashscope_intl("ke\ny".to_string());
    assert!(matches!(broken.headers(), Err(ProviderError::InvalidApiKey)));
    let local = QwenProvider::local("http://localhost:8000/v1".to_string());
    assert_eq!(
        local.headers().unwrap(),
        vec![("content-type".to_string(), "application/json".to_string())]
    );
}

#[test]
fn errors_of_the_endpoint_are_told() {
    let provider = QwenProvider::local("http://localhost:8000/v1".to_string());
    let described = || {
        Some(QwenError {
            message: "slow down".to_string(),
            error_type: Some("rate_limit".to_string()),
        })
    };
    let e = provider.handle_error(429, Some("30"), "{}", described());
    assert!(matches!(
        e,
        ProviderError::RateLimitExceeded(m) if m == "slow down (retry after 30 seconds)"
    ));
    let e = provider.handle_error(429, Some("soon"), "{}", described());
    assert!(matches!(
        e,
        ProviderError::RateLimitExceeded(m) if m == "slow down (rate limited, please retry later)"
    ));
    let e = provider.handle_error(429, Some("+5"), "", None);
    assert!(matches!(
        e,
        ProviderError::RateLimitExceeded(m) if m == "Rate limit exceeded (retry after 5 seconds)"
    ));
    let e = provider.handle_error(429, None, "", None);
    assert!(matches!(
        e,
        ProviderError::RateLimitExceeded(m) if m == "Rate limit exceeded, please retry later"
    ));
    let e = provider.handle_error(400, None, "{}", described());
    assert!(matches!(
        e,
        ProviderError::ApiError { status: 400, message, error_type: Some(t) }
            if message == "slow down" && t == "rate_limit"
    ));
    let e = provider.handle_error(500, None, " \n", None);
    assert!(matches!(
        e,
        ProviderError::ApiError { status: 500, message, error_type: None } if message == "Unknown error"
    ));
    let long = "é".repeat(2000);
    let e = provider.handle_error(503, None, &long, None);
    assert!(matches!(
        e,
        ProviderError::ApiError { status: 503, message, .. } if message == "é".repeat(1024)
    ));
}

fn string_of(v: &Value, key: &str) -> Option<String> {
    v.get(key).and_then(|s| s.as_str()).map(|s| s.to_string())
}

fn chunk_of(v: &Value) -> Option<QwenStreamChunk> {
    let choices = v.get("choices")?.as_array()?;
    Some(QwenStreamChunk {
        id: string_of(v, "id")?,
        model: string_of(v, "model"),
        choices: choices
            .iter()
            .map(|c| QwenStreamChoice {
                index: 0,
                delta: c.get("delta").map(|d| QwenMessageDelta {
                    role: string_of(d, "role"),
                    content: string_of(d, "content"),
                    tool_calls: d
                        .get("tool_calls")
                        .and_then(|t| t.as_array())
                        .map(|calls| {
                            calls
                                .iter()
                                .map(|t| QwenToolCallDelta {
                                    index: t["index"].as_u64().unwrap() as usize,
                                    id: string_of(t, "id"),
                                    function: t.get("function").map(|f| QwenFunctionCallDelta {
                                        name: string_of(f, "name"),
                                        arguments: string_of(f, "arguments"),
                                    }),
                                })
                                .collect()
                        })
                        .unwrap_or_default(),
                }),
                finish_reason: string_of(c, "finish_reason"),
            })
            .collect(),
        usage: v.get("usage").map(|u| QwenUsage {
            prompt_tokens: u["prompt_tokens"].as_u64().unwrap() as u32,
            completion_tokens: u["completion_tokens"].as_u64().unwrap() as u32,
        }),
    })
}

fn stream(provider: &QwenProvider, body: &[u8], request: LLMRequest) -> Vec<StreamEvent> {
    let known_tools = request.tool_names();
    let chunks: Vec<QwenStreamChunk> = byte_payloads(body)
        .iter()
        .filter_map(|p| serde_json::from_str::<Value>(p).ok())
        .filter_map(|v| chunk_of(&v))
        .collect();
    provider.stream_events(&chunks, request.model, &known_tools)
}

#[test]
fn stream_assembles_openai_style_tool_call_across_sse_chunks() {
    let body = [
        "data: {\"id\":\"chatcmpl-1\",\"model\":\"qwen3-8b\",\"choices\":[{\"index\":0,\"delta\":{\"role\":\"assistant\",\"content\":\"\"}}]}\n\n",
        "data: {\"id\":\"chatcmpl-1\",\"choices\":[{\"index\":0,\"delta\":{\"tool_calls\":[{\"index\":0,\"id\":\"call_1\",\"function\":{\"name\":\"read_file\",\"arguments\":\"{\\\"path\\\":\"}}]}}]}\n\n",
        "data: {\"id\":\"chatcmpl-1\",\"choices\":[{\"index\":0,\"delta\":{\"tool_calls\":[{\"index\":0,\"function\":{\"arguments\":\"\\\"src/main.rs\\\"}\"}}]}}]}\n\n",
        "data: {\"id\":\"chatcmpl-1\",\"choices\":[{\"index\":0,\"finish_reason\":\"tool_calls\"}],\"usage\":{\"prompt_tokens\":7,\"completion_tokens\":12}}\n\n",
        "data: [DONE]\n\n",
    ]
    .concat();

    let provider = QwenProvider::local("http://localhost".to_string());
    let request = LLMRequest::new("qwen3-8b", vec![user("read src/main.rs")]);
    let events = stream(&provider, body.as_bytes(), request);

    let tool = events
        .iter()
        .find_map(|e| match e {
            StreamEvent::ContentBlockStart {
                content_block: ContentBlock::ToolUse { name, input, .. },
                ..
            } => Some((name.clone(), input.clone())),
            _ => None,
        })
        .expect("assembled tool call must surface as a ToolUse block");
    assert_eq!(tool.0, "read_file");
    assert_eq!(tool.1, json(r#"{"path": "src/main.rs"}"#));

    let usage = events
        .iter()
        .find_map(|e| match e {
            StreamEvent::MessageDelta { usage, .. } => Some(*usage),
            _ => None,
        })
        .expect("usage must be present in the terminal MessageDelta");
    assert_eq!(usage.input_tokens, 7);
    assert_eq!(usage.output_tokens, 12);
}

#[test]
fn stream_skips_malformed_sse_chunk_and_continues() {
    let body = [
        "data: {this is not valid json}\n\n",
        "data: {\"id\":\"chatcmpl-2\",\"model\":\"qwen3-8b\",\"choices\":[{\"index\":0,\"delta\":{\"content\":\"Hello there!\"},\"finish_reason\":\"stop\"}]}\n\n",
        "data: [DONE]\n\n",
    ]
    .concat();

    let provider = QwenProvider::local("http://localhost".to_string());
    let request = LLMRequest::new("qwen3-8b", vec![user("hi")]);
    let events = stream(&provider, body.as_bytes(), request);

    let text: String = events
        .iter()
        .filter_map(|e| match e {
            StreamEvent::ContentBlockDelta { delta: ContentDelta::TextDelta { text }, .. } => {
                Some(text.clone())
            }
            _ => None,
        })
        .collect();
    assert_eq!(text, "Hello there!");
    assert!(matches!(
        &events[0],
        StreamEvent::MessageStart { message } if message.id == "chatcmpl-2" && message.model == "qwen3-8b"
    ));
}

#[test]
fn a_stream_without_chunks_gets_a_fresh_identifier() {
    let provider = QwenProvider::local("http://localhost".to_string());
    let events = provider.stream_events(&Vec::new(), "asked-for".to_string(), &[]);
    match &events[0] {
        StreamEvent::MessageStart { message } => {
            assert!(message.id.starts_with("qwen-stream-"));
            assert_eq!(message.id.len(), "qwen-stream-".len() + 36);
            assert_eq!(message.model, "asked-for");
        }
        other => panic!("unexpected event {other:?}"),
    }
    assert!(matches!(events.last(), Some(StreamEvent::MessageStop)));
}

#[test]
fn payloads_end_at_the_line_that_says_so() {
    assert_eq!(
        sse_payloads("event: x\ndata: one\r\n\ndata: two\ndata: [DONE]\ndata: three\n"),
        ["one", "two"]
    );
    assert_eq!(byte_payloads(b"data: a\xffb\n"), ["a\u{fffd}b"]);
    assert!(byte_payloads(b"").is_empty());
}

#[test]
fn two_calls_in_one_fence_are_both_found() {
    let provider = QwenProvider::local("http://localhost".to_string())
        .with_tool_parser(ToolCallParser::OpenAI);
    let known = vec!["read_file".to_string()];
    let text = "Before\n```json\n{\"name\": \"read_file\", \"arguments\": {\"path\": \"a\"}}\n{\"name\": \"read_file\", \"arguments\": {\"path\": \"b\"}}\n```\nAfter";
    let (calls, rest) = provider.parse_fallback_tool_calls(text, &known);
    assert_eq!(calls.len(), 2);
    assert!(rest.contains("Before"));
    assert!(rest.contains("After"));
    assert!(!rest.contains("read_file"));
}

#[test]
fn a_prompt_that_leaves_no_room_is_refused() {
    assert!(matches!(
        plan_generation(100, 100, None),
        Err(ProviderError::ContextLengthExceeded(100))
    ));
    let plan = plan_generation(100, 4096, None).unwrap();
    assert_eq!(plan, GenerationPlan { max_tokens: 2048, prompt_tokens: 100 });
    assert_eq!(plan_generation(4000, 4096, None).unwrap().max_tokens, 96);
    assert_eq!(plan_generation(10, 4096, Some(5)).unwrap().max_tokens, 5);
}

#[test]
fn steps_that_fail_are_told() {
    let want = [
        (GenerationStage::Tokenize, "failed to tokenize prompt: x", true),
        (GenerationStage::PromptBatch, "failed to build prompt batch: x", true),
        (GenerationStage::Prefill, "prefill decode failed: x", false),
        (GenerationStage::ExtendBatch, "failed to extend batch: x", false),
        (GenerationStage::Decode, "decode failed: x", false),
    ];
    for (stage, message, invalid) in want {
        match generation_error(stage, "x") {
            ProviderError::InvalidRequest(m) => assert!(invalid && m == message),
            ProviderError::Internal(m) => assert!(!invalid && m == message),
            other => panic!("unexpected error {other:?}"),
        }
    }
}

fn job(tools: bool, grammar: bool, stop: Vec<String>, max_tokens: u32) -> Job {
    let mut request = LLMRequest::new("m", vec![user("hi")]);
    if tools {
        request.tools = Some(vec![tool("bash")]);
    }
    request.stop = Some(stop);
    Job::new(&request, grammar, GenerationPlan { max_tokens, prompt_tokens: 10 })
}

fn setup() -> SamplerSetup {
    SamplerSetup { n_vocab: 32_000, defaults: SamplingDefaults::default(), seed: Some(42) }
}

#[test]
fn a_sampler_for_tool_calls_is_tried_once() {
    let (setup, request) = (setup(), LLMRequest::new("m", vec![]));
    let before = vec![SamplerStage::Greedy];
    let mut sampler = before.clone();
    let mut tried = false;
    let mut look = |commits: bool, possible: bool, grammar: bool, tried: &mut bool| {
        let tokens = [5, 6, 7];
        let swapped = maybe_swap_to_constrained_sampler(
            &setup, &request, commits, possible, tried, grammar, &tokens, &mut sampler,
        );
        (swapped, sampler.clone())
    };
    assert_eq!(look(true, false, true, &mut tried), (false, before.clone()));
    assert!(!tried);
    assert_eq!(look(false, true, true, &mut tried), (false, before.clone()));
    assert!(!tried);

    let mut failed = false;
    assert_eq!(look(true, true, false, &mut failed), (false, before.clone()));
    assert!(failed);
    assert_eq!(look(true, true, true, &mut failed), (false, before.clone()));
    assert!(failed);

    let (swapped, chain) = look(true, true, true, &mut tried);
    assert!(swapped && tried);
    assert_eq!(chain[0], SamplerStage::Grammar);
    assert_eq!(chain[chain.len() - 1], SamplerStage::Dist(45));
    assert_eq!(look(true, true, true, &mut tried), (false, chain));
}

#[test]
fn a_complete_run_stops_at_the_limit() {
    let job = job(false, false, Vec::new(), 2);
    let mut run = CompleteRun::new();
    assert_eq!(job.first_step(), NextStep::Sample);
    assert_eq!(run.on_token(&job, 1, false, Some(b"he".to_vec())), NextStep::Decode(10));
    assert_eq!(run.on_token(&job, 2, false, Some(b"y".to_vec())), NextStep::Finish);
    let r = run.finish(&job, None, "shown-name", metrics());
    assert_eq!(r.model, "shown-name");
    assert!(r.id.starts_with("llama-cpp-"));
    assert_eq!(r.stop_reason, Some(StopReason::MaxTokens));
    assert_eq!(r.usage, TokenUsage { input_tokens: 10, output_tokens: 2 });
    assert!(matches!(&r.content[..], [ContentBlock::Text { text }] if text == "hey"));
    assert_eq!(r.perf_metrics, Some(metrics()));
}

#[test]
fn a_complete_run_stops_at_a_stop_sequence() {
    let job = job(false, false, vec!["END".to_string()], 100);
    let mut run = CompleteRun::new();
    run.on_token(&job, 1, false, Some(b"it is the E".to_vec()));
    assert_eq!(run.on_token(&job, 2, false, Some(b"ND".to_vec())), NextStep::Finish);
    assert_eq!(run.stop_reason, StopReason::StopSequence);
    assert_eq!(run.text_so_far(), "it is the END");
}

#[test]
fn a_complete_run_that_is_a_call_gives_no_text() {
    let job = job(true, true, Vec::new(), 100);
    assert!(job.swap_possible);
    let mut run = CompleteRun::new();
    assert_eq!(run.on_token(&job, 7, false, Some(b"{\"name\"".to_vec())), NextStep::Classify);
    let (setup, request) = (setup(), LLMRequest::new("m", vec![]));
    let mut sampler = vec![SamplerStage::Greedy];
    assert_eq!(
        run.on_classified(&job, true, &setup, &request, true, &mut sampler),
        (true, NextStep::Decode(10))
    );
    assert!(run.swap_tried);
    assert_eq!(sampler[0], SamplerStage::Grammar);
    assert_eq!(sampler[sampler.len() - 1], SamplerStage::Dist(43));
    assert_eq!(run.on_token(&job, 8, false, None), NextStep::Decode(11));
    assert_eq!(run.tokens, vec![7]);
    assert_eq!(run.on_token(&job, 9, true, None), NextStep::Finish);
    let call = Some(("bash".to_string(), json(r#"{"command":"ls"}"#)));
    let r = run.finish(&job, call, "m", metrics());
    assert_eq!(r.stop_reason, Some(StopReason::ToolUse));
    assert!(matches!(
        &r.content[..],
        [ContentBlock::ToolUse { id, name, .. }] if name == "bash" && id.len() == 36
    ));
}

fn text_of(events: &[StreamEvent]) -> String {
    events
        .iter()
        .filter_map(|e| match e {
            StreamEvent::ContentBlockDelta { delta: ContentDelta::TextDelta { text }, .. } => {
                Some(text.clone())
            }
            _ => None,
        })
        .collect()
}

#[test]
fn a_stream_run_gives_out_all_text_once() {
    let job = job(false, false, Vec::new(), 100);
    let mut run = StreamRun::new();
    let mut all = Vec::new();
    let bytes = "日本語!".as_bytes();
    for (i, piece) in bytes.chunks(2).enumerate() {
        let (events, next) = run.on_token(&job, i as i32, false, Some(piece.to_vec()));
        assert_eq!(next, NextStep::Decode(10 + i as i32));
        all.extend(events);
    }
    let (events, next) = run.on_token(&job, 99, true, None);
    assert_eq!(next, NextStep::Finish);
    all.extend(events);
    run.take_rest();
    all.extend(run.finish(&job, None, metrics()));
    assert_eq!(text_of(&all), "日本語!");
    let starts = all
        .iter()
        .filter(|e| matches!(e, StreamEvent::ContentBlockStart { .. }))
        .count();
    assert_eq!(starts, 1);
    assert!(matches!(all.last(), Some(StreamEvent::MessageStop)));
}

#[test]
fn a_stream_run_replaces_what_never_became_a_character() {
    let job = job(false, false, Vec::new(), 100);
    let mut run = StreamRun::new();
    let (mut all, _) = run.on_token(&job, 1, false, Some(vec![b'a', 0xe6]));
    run.take_rest();
    assert_eq!(run.full_text, "a\u{fffd}");
    all.extend(run.finish(&job, None, metrics()));
    assert_eq!(text_of(&all), "a\u{fffd}");
}

#[test]
fn a_stream_run_withholds_what_may_be_a_call() {
    let job = job(true, false, Vec::new(), 100);
    let mut run = StreamRun::new();
    let (events, next) = run.on_token(&job, 1, false, Some(b"{\"name\":".to_vec()));
    assert!(events.is_empty());
    assert_eq!(next, NextStep::Classify);
    let (setup, request) = (setup(), LLMRequest::new("m", vec![]));
    let mut sampler = vec![SamplerStage::Greedy];
    let (swap, events, _) =
        run.on_classified(&job, true, true, &setup, &request, true, &mut sampler);
    assert!(!swap);
    assert!(!run.swap_tried);
    assert_eq!(sampler, vec![SamplerStage::Greedy]);
    assert!(events.is_empty());
    assert_eq!(run.withheld, "{\"name\":");
    run.take_rest();
    let call = Some(("bash".to_string(), json("{}")));
    let closing = run.finish(&job, call, metrics());
    assert_eq!(text_of(&closing), "");
    assert!(matches!(
        &closing[0],
        StreamEvent::ContentBlockStart { index: 0, content_block: ContentBlock::ToolUse { .. } }
    ));
    assert!(matches!(
        &closing[2],
        StreamEvent::MessageDelta { delta, .. } if delta.stop_reason == Some(StopReason::ToolUse)
    ));
}

#[test]
fn a_stream_run_gives_out_what_is_no_call_after_all() {
    let job = job(true, false, Vec::new(), 100);
    let mut run = StreamRun::new();
    run.on_token(&job, 1, false, Some(b"{ not".to_vec()));
    let (setup, request) = (setup(), LLMRequest::new("m", vec![]));
    let mut sampler = Vec::new();
    let (_, events, _) =
        run.on_classified(&job, true, false, &setup, &request, false, &mut sampler);
    assert!(events.is_empty());
    run.on_token(&job, 2, false, Some(b" json".to_vec()));
    let (_, events, _) =
        run.on_classified(&job, false, false, &setup, &request, false, &mut sampler);
    assert_eq!(text_of(&events), "{ not json");
    let closing = run.finish(&job, None, metrics());
    assert_eq!(text_of(&closing), "");
    assert!(matches!(&closing[0], StreamEvent::ContentBlockStop { index: 0 }));
}

#[test]
fn a_stream_begins_with_the_model_that_is_loaded() {
    let plan = GenerationPlan { max_tokens: 5, prompt_tokens: 3 };
    match begin_stream("loaded-model", &plan) {
        StreamEvent::MessageStart { message } => {
            assert_eq!(message.model, "loaded-model");
            assert!(message.id.starts_with("llama-cpp-"));
            assert_eq!(message.usage, TokenUsage { input_tokens: 3, output_tokens: 0 });
        }
        other => panic!("unexpected event {other:?}"),
    }
}

#[test]
fn bytes_that_are_drained_are_gone_and_the_others_stay() {
    let mut buffer = vec![b'a', 0xff, b'b'];
    assert_eq!(drain_valid_utf8(&mut buffer), Some("a".to_string()));
    assert_eq!(buffer, vec![0xff, b'b']);
    assert_eq!(drain_valid_utf8(&mut buffer), None);
    assert_eq!(buffer, vec![0xff, b'b']);
}

#[test]
fn a_prompt_without_a_template_is_a_transcript() {
    let mut request = LLMRequest::new("m", vec![user("hi")]);
    request.system = Some("be terse".to_string());
    request.messages.push(Message {
        role: Role::Assistant,
        content: vec![
            ContentBlock::Thinking { thinking: "hm".to_string() },
            ContentBlock::Text { text: "one".to_string() },
            ContentBlock::Text { text: "two".to_string() },
        ],
    });
    request.messages.push(Message { role: Role::User, content: Vec::new() });
    assert_eq!(chat_messages(&request).len(), 3);
    assert_eq!(
        build_prompt(&request, None),
        "<|system|>\nbe terse\n<|user|>\nhi\n<|assistant|>\none\ntwo\n<|assistant|>\n"
    );
    assert_eq!(build_prompt(&request, Some("templated".to_string())), "templated");
}

#[test]
fn a_seed_that_does_not_fit_counts_as_none() {
    assert_eq!(fixed_seed(Some(7), Some(1)), Some(7));
    assert_eq!(fixed_seed(Some(-1), Some(1)), Some(1));
    assert_eq!(fixed_seed(Some(1 << 40), None), None);
    assert_eq!(fixed_seed(Some(0xffff_ffff), None), Some(0xffff_ffff));
}

#[test]
fn a_temperature_of_zero_takes_the_likeliest_token() {
    let defaults = SamplingDefaults::default();
    let mut request = LLMRequest::new("m", Vec::new());
    for t in [0.0, -0.0, -1.0, f32::NEG_INFINITY] {
        request.temperature = Some(single(t));
        let chain = build_sampler(100, &defaults, &request, None, 0, true);
        assert_eq!(chain, vec![SamplerStage::Grammar, SamplerStage::Greedy]);
    }
    request.temperature = Some(single(0.5));
    request.seed = Some(9);
    let chain = build_sampler(100, &defaults, &request, None, 0, false);
    assert_eq!(
        chain,
        vec![
            SamplerStage::Penalties {
                n_vocab: 100,
                last_n: 64,
                repeat: single(1.1),
                frequency: single(0.0),
                presence: single(0.0),
            },
            SamplerStage::TopK(40),
            SamplerStage::TopP(single(0.95), 1),
            SamplerStage::Temp(single(0.5)),
            SamplerStage::Dist(9),
        ]
    );
    let again = try_build_constrained_sampler(100, true, &[1, 2, 3], &defaults, &request, None);
    assert_eq!(again.unwrap().last(), Some(&SamplerStage::Dist(12)));
}

#[test]
fn without_a_seed_the_draws_differ() {
    let defaults = SamplingDefaults::default();
    let request = LLMRequest::new("m", Vec::new());
    let seeds: Vec<SamplerStage> = (0..8)
        .map(|_| *build_sampler(100, &defaults, &request, None, 0, false).last().unwrap())
        .collect();
    assert!(seeds.iter().any(|s| *s != seeds[0]));
}

#[test]
fn the_worker_reports_once_and_reloads_after_idling() {
    let (mut worker, first) = Worker::new(Some(60));
    assert!(matches!(first, Action::Load));
    assert!(matches!(worker.on_loaded(4096), Action::ReportReady(4096)));
    assert!(matches!(worker.on_reported(true), Action::TryReceive));
    assert!(matches!(worker.on_polled(Received::Nothing, 59), Action::Rest));
    assert!(matches!(worker.on_polled(Received::Job, 59), Action::Serve));
    assert!(matches!(worker.on_served(), Action::TryReceive));
    assert!(matches!(worker.on_polled(Received::Nothing, 60), Action::UnloadAndReceive));
    assert!(matches!(worker.on_received(true), Action::Load));
    assert!(matches!(worker.on_loaded(4096), Action::ServeCarriedOver));
    assert!(matches!(worker.on_polled(Received::Closed, 0), Action::Exit));
}

#[test]
fn the_worker_tells_why_the_first_load_failed() {
    let (mut worker, _) = Worker::new(None);
    assert!(matches!(
        worker.on_load_failed(LoadStage::Model, "NullResult"),
        Action::ReportFailureAndExit(m) if m == "failed to load GGUF file: NullResult"
    ));
    assert!(matches!(worker.on_load_failed(LoadStage::Backend, "x"), Action::Exit));
}

fn config(path: &str) -> LlamaCppProviderConfig {
    LlamaCppProviderConfig {
        model_path: path.to_string(),
        display_name: None,
        n_ctx: 4096,
        n_gpu_layers: 3,
        n_threads: None,
        chat_template: None,
        temperature: Some(single(0.1)),
        top_p: None,
        top_k: Some(u32::MAX),
        repeat_penalty: None,
        seed: Some(5),
        idle_unload_secs: Some(30),
    }
}

#[test]
fn a_provider_is_there_once_its_model_is_loaded() {
    let init = plan_worker(&config("/m/a.gguf"), true, None, Some(8), &Vec::new()).unwrap();
    assert_eq!(init.display_name, "llama-cpp-model");
    assert_eq!(init.n_threads, 8);
    assert_eq!(init.sampling_defaults.top_k, -1);
    assert_eq!(init.sampling_defaults.temperature, single(0.1));
    assert!(init.warn_no_gpu);
    let provider = LlamaCppProvider::loaded(&init, LoadOutcome::Ready(2048)).unwrap();
    assert_eq!(provider.context_window("anything"), Some(2048));
    assert_eq!(provider.supported_models(), ["llama-cpp-model"]);
    let failed = LlamaCppProvider::loaded(&init, LoadOutcome::Failed("bad magic".to_string()));
    assert!(matches!(
        failed,
        Err(ProviderError::Internal(m)) if m == "failed to load llama.cpp model '/m/a.gguf': bad magic"
    ));
    assert!(matches!(
        LlamaCppProvider::loaded(&init, LoadOutcome::Silent),
        Err(ProviderError::Internal(m))
            if m == "llama.cpp worker thread exited before reporting load status"
    ));
    match plan_worker(&config("/m/none.gguf"), false, None, None, &Vec::new()) {
        Err(ProviderError::ModelNotFound(m)) => assert_eq!(
            m,
            "llama.cpp model file not found: /m/none.gguf. Check `providers.llama_cpp.model_path` in config.toml."
        ),
        other => panic!("unexpected {other:?}"),
    }
}

#[test]
fn a_panic_is_told_as_an_error() {
    assert_eq!(panic_message(&PanicPayload::Other), "non-string panic payload");
    assert!(matches!(
        panic_to_provider_error(&PanicPayload::Owned("boom".to_string())),
        ProviderError::Internal(m) if m == "llama.cpp inference panicked: boom"
    ));
    assert!(matches!(
        settle_complete(Err(PanicPayload::Str("boom".to_string()))),
        Err(ProviderError::Internal(_))
    ));
    assert!(settle_stream(Ok(())).is_none());
    assert!(settle_stream(Err(PanicPayload::Other)).is_some());
    assert!(matches!(
        worker_gone(WorkerGone::BeforeSending),
        ProviderError::Internal(m) if m == "llama.cpp worker thread is no longer running"
    ));
    assert!(matches!(
        worker_gone(WorkerGone::BeforeAnswering),
        ProviderError::Internal(m)
            if m == "llama.cpp worker thread dropped the request without responding"
    ));
}
