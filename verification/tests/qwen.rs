use crustly::qwen::markup::{FN_ARGS, FN_EXIT, FN_NAME, FN_RESULT, QWEN_FN_STOP_WORDS};
use crustly::qwen::provider::{QwenProvider, ToolCallParser, DASHSCOPE_INTL_URL};
use crustly::qwen::request::QwenMessage;
use crustly::qwen::response::{QwenChoice, QwenResponse, QwenUsage};
use crustly::qwen::stream::{
    llm_response_to_stream_events, tool_call_index_in_bounds, MAX_TOOL_CALL_INDEX,
};
use crustly::text::find_after;
use crustly::types::{
    ContentBlock, ContentDelta, Float32, LLMRequest, Message, Role, StopReason, StreamEvent, Tool,
};

fn json(text: &str) -> serde_json::Value {
    serde_json::from_str(text).expect("valid JSON")
}

fn single(x: f32) -> Float32 {
    Float32 { bits: x.to_bits() }
}

fn user(text: &str) -> Message {
    Message {
        role: Role::User,
        content: vec![ContentBlock::Text { text: text.to_string() }],
    }
}

#[test]
fn find_after_ignores_a_match_before_start() {
    let haystack = "b...a...b";
    let start = haystack.find('a').unwrap();
    assert_eq!(find_after(haystack, start, "b"), Some(8));
}

#[test]
fn find_after_returns_none_when_nothing_matches_after_start() {
    let haystack = "b...a";
    let start = haystack.find('a').unwrap();
    assert_eq!(find_after(haystack, start, "b"), None);
}

#[test]
fn find_after_returns_an_absolute_offset_not_a_relative_one() {
    let haystack = "xxxxSTARTyyyEND";
    let start = haystack.find("START").unwrap();
    let end = find_after(haystack, start, "END").unwrap();
    assert_eq!(&haystack[end..], "END");
}

fn stream_events_from_buffered_content(
    provider: &QwenProvider,
    content: &str,
    known_tools: &[String],
) -> Vec<StreamEvent> {
    let synthetic = QwenResponse {
        id: "qwen-stream-test".to_string(),
        model: "qwen3-8b".to_string(),
        choices: vec![QwenChoice {
            index: 0,
            message: QwenMessage {
                role: "assistant".to_string(),
                content: Some(content.to_string()),
                tool_calls: None,
                tool_call_id: None,
            },
            finish_reason: Some("stop".to_string()),
        }],
        usage: QwenUsage {
            prompt_tokens: 5,
            completion_tokens: 10,
        },
    };
    let llm_response = provider.from_qwen_response(synthetic, known_tools);
    llm_response_to_stream_events(llm_response)
}

#[test]
fn streaming_assembles_hermes_tool_call_from_buffered_text() {
    let provider = QwenProvider::local("http://localhost:8000/v1/chat/completions".to_string());
    let content = "Let me read that.\n\
         <tool_call>\n{\"name\": \"read_file\", \"arguments\": {\"path\": \"src/main.rs\"}}\n</tool_call>";

    let events = stream_events_from_buffered_content(&provider, content, &[]);

    let tool = events.iter().find_map(|e| match e {
        StreamEvent::ContentBlockStart {
            content_block: ContentBlock::ToolUse { name, input, .. },
            ..
        } => Some((name.clone(), input.clone())),
        _ => None,
    });
    let (name, input) = tool.expect("streamed Hermes tool call must become a ToolUse block");
    assert_eq!(name, "read_file");
    assert_eq!(input, json(r#"{"path": "src/main.rs"}"#));

    let stop = events.iter().find_map(|e| match e {
        StreamEvent::MessageDelta { delta, .. } => delta.stop_reason,
        _ => None,
    });
    assert_eq!(stop, Some(StopReason::ToolUse));
}

#[test]
fn streaming_plain_text_roundtrips_without_tool_calls() {
    let provider = QwenProvider::local("http://localhost:8000/v1/chat/completions".to_string());
    let events = stream_events_from_buffered_content(&provider, "Hello there!", &[]);

    let text: String = events
        .iter()
        .filter_map(|e| match e {
            StreamEvent::ContentBlockDelta {
                delta: ContentDelta::TextDelta { text },
                ..
            } => Some(text.clone()),
            _ => None,
        })
        .collect();
    assert_eq!(text, "Hello there!");
    assert!(!events.iter().any(|e| matches!(
        e,
        StreamEvent::ContentBlockStart {
            content_block: ContentBlock::ToolUse { .. },
            ..
        }
    )));
}

#[test]
fn test_qwen_provider_creation() {
    let provider = QwenProvider::dashscope_intl("test-key".to_string());
    assert_eq!(provider.name(), "qwen");
    assert_eq!(provider.base_url, DASHSCOPE_INTL_URL);
}

#[test]
fn test_local_provider_creation() {
    let provider = QwenProvider::local("http://localhost:8000/v1/chat/completions".to_string());
    assert_eq!(provider.api_key, "not-needed");
    assert_eq!(provider.tool_parser, ToolCallParser::Hermes);
}

#[test]
fn test_tool_parser_configuration() {
    let provider = QwenProvider::local("http://localhost:8000/v1/chat/completions".to_string())
        .with_tool_parser(ToolCallParser::OpenAI);
    assert_eq!(provider.tool_parser, ToolCallParser::OpenAI);
}

#[test]
fn test_thinking_mode_configuration() {
    let provider = QwenProvider::local("http://localhost:8000/v1/chat/completions".to_string())
        .with_thinking(true)
        .with_thinking_budget(5000);
    assert!(provider.thinking_config.enabled);
    assert_eq!(provider.thinking_config.budget_tokens, Some(5000));
}

#[test]
fn test_hermes_tool_call_parsing() {
    let provider = QwenProvider::local("http://localhost:8000/v1/chat/completions".to_string());

    let text = r#"I'll help you read that file.
<tool_call>
{"name": "read_file", "arguments": {"path": "/home/user/test.txt"}}
</tool_call>"#;

    let calls = provider.parse_hermes_tool_calls(text);
    assert_eq!(calls.len(), 1);
    assert_eq!(calls[0].1, "read_file");
    assert_eq!(calls[0].2["path"], "/home/user/test.txt");
}

#[test]
fn test_multiple_hermes_tool_calls() {
    let provider = QwenProvider::local("http://localhost:8000/v1/chat/completions".to_string());

    let text = r#"Let me read and then write.
<tool_call>
{"name": "read_file", "arguments": {"path": "input.txt"}}
</tool_call>
<tool_call>
{"name": "write_file", "arguments": {"path": "output.txt", "content": "done"}}
</tool_call>"#;

    let calls = provider.parse_hermes_tool_calls(text);
    assert_eq!(calls.len(), 2);
    assert_eq!(calls[0].1, "read_file");
    assert_eq!(calls[1].1, "write_file");
}

#[test]
fn test_hermes_malformed_json_is_skipped_without_panicking() {
    let provider = QwenProvider::local("http://localhost:8000/v1/chat/completions".to_string());

    let text = r#"I'll read that file.
<tool_call>
{"name": "read_file", "arguments": {path: unquoted}}
</tool_call>"#;

    let calls = provider.parse_hermes_tool_calls(text);
    assert!(calls.is_empty());
}

#[test]
fn test_hermes_json_missing_required_fields_is_skipped() {
    let provider = QwenProvider::local("http://localhost:8000/v1/chat/completions".to_string());

    let text = r#"<tool_call>
{"foo": "bar"}
</tool_call>"#;

    let calls = provider.parse_hermes_tool_calls(text);
    assert!(calls.is_empty());
}

#[test]
fn test_from_qwen_response_drops_truncated_trailing_hermes_tag_from_display() {
    let provider = QwenProvider::local("http://localhost:8000/v1/chat/completions".to_string());

    let content = "First I'll read the file.\n\
         <tool_call>\n{\"name\": \"read_file\", \"arguments\": {\"path\": \"src/main.rs\"}}\n</tool_call>\n\
         Now let me write the result.\n\
         <tool_call>\n{\"name\": \"write_file\", \"arguments\": {\"path\": \"out.txt\", \"content\": \"a very long argument that got cut off mid-stream because max_tokens was reached before the closing tag could be emitted";

    let response = QwenResponse {
        id: "qwen-truncated-test".to_string(),
        model: "qwen3-8b".to_string(),
        choices: vec![QwenChoice {
            index: 0,
            message: QwenMessage {
                role: "assistant".to_string(),
                content: Some(content.to_string()),
                tool_calls: None,
                tool_call_id: None,
            },
            finish_reason: Some("length".to_string()),
        }],
        usage: QwenUsage {
            prompt_tokens: 5,
            completion_tokens: 10,
        },
    };

    let known_tools = vec!["read_file".to_string(), "write_file".to_string()];
    let llm_response = provider.from_qwen_response(response, &known_tools);

    let names: Vec<String> = llm_response
        .content
        .iter()
        .filter_map(|b| match b {
            ContentBlock::ToolUse { name, .. } => Some(name.clone()),
            _ => None,
        })
        .collect();
    assert_eq!(names, vec!["read_file"]);

    for block in &llm_response.content {
        if let ContentBlock::Text { text } = block {
            assert!(
                !text.contains("<tool_call>"),
                "truncated tool_call tag leaked into displayed text: {text:?}"
            );
            assert!(
                !text.contains("write_file"),
                "truncated tool call's raw JSON leaked into displayed text: {text:?}"
            );
        }
    }
}

#[test]
fn test_from_qwen_response_stray_closing_tag_before_real_call_does_not_loop_forever() {
    let provider = QwenProvider::local("http://localhost:8000/v1/chat/completions".to_string());

    let content = "As discussed, a stray </tool_call> can show up in text. \
         Now the real one:\n\
         <tool_call>\n{\"name\": \"read_file\", \"arguments\": {\"path\": \"src/main.rs\"}}\n</tool_call>\n\
         All done.";

    let response = QwenResponse {
        id: "qwen-stray-close-tag-test".to_string(),
        model: "qwen3-8b".to_string(),
        choices: vec![QwenChoice {
            index: 0,
            message: QwenMessage {
                role: "assistant".to_string(),
                content: Some(content.to_string()),
                tool_calls: None,
                tool_call_id: None,
            },
            finish_reason: Some("stop".to_string()),
        }],
        usage: QwenUsage {
            prompt_tokens: 5,
            completion_tokens: 10,
        },
    };

    let known_tools = vec!["read_file".to_string()];
    let llm_response = provider.from_qwen_response(response, &known_tools);

    let names: Vec<String> = llm_response
        .content
        .iter()
        .filter_map(|b| match b {
            ContentBlock::ToolUse { name, .. } => Some(name.clone()),
            _ => None,
        })
        .collect();
    assert_eq!(names, vec!["read_file"]);
}

#[test]
fn test_thinking_extraction() {
    let provider = QwenProvider::local("http://localhost:8000/v1/chat/completions".to_string())
        .with_thinking(true);

    let text = r#"<think>
The user wants me to analyze this code. Let me think about the best approach...
</think>
Here's my analysis of the code."#;

    let (thinking, remaining) = provider.extract_thinking(text);
    assert!(thinking.is_some());
    assert!(thinking.unwrap().contains("analyze this code"));
    assert!(remaining.contains("Here's my analysis"));
    assert!(!remaining.contains("<think>"));
}

#[test]
fn test_thinking_extraction_out_of_order_tags_does_not_panic() {
    let provider = QwenProvider::local("http://localhost:8000/v1/chat/completions".to_string())
        .with_thinking(true);

    let text =
        "Explaining tags: first </think> comes up, then <think>real thought</think> follows.";

    let (thinking, remaining) = provider.extract_thinking(text);
    assert_eq!(thinking, Some("real thought".to_string()));
    assert!(!remaining.contains("<think>"));
}

#[test]
fn test_supported_models() {
    let provider = QwenProvider::dashscope_intl("test-key".to_string());
    let models = provider.supported_models();
    assert!(models.contains(&"qwen3-8b".to_string()));
    assert!(models.contains(&"qwen2.5-coder-14b-instruct".to_string()));
    assert!(models.contains(&"qwen-max".to_string()));
    assert!(models.contains(&"qwen3-coder-next".to_string()));
    assert!(models.contains(&"qwen3.6-27b".to_string()));
}

#[test]
fn test_context_window() {
    let provider = QwenProvider::dashscope_intl("test-key".to_string());
    assert_eq!(provider.context_window("qwen3-8b"), Some(131_072));
    assert_eq!(provider.context_window("qwen-max"), Some(32_768));
    assert_eq!(provider.context_window("qwen3-coder-next"), Some(262_144));
    assert_eq!(provider.context_window("qwen3.6-27b"), Some(262_144));
}

fn cost(provider: &QwenProvider, model: &str, input_tokens: u32, output_tokens: u32) -> f64 {
    match provider.price(model) {
        Some((input, output)) => {
            f64::from(input_tokens) / 1_000_000.0 * (f64::from(input) / 10.0)
                + f64::from(output_tokens) / 1_000_000.0 * (f64::from(output) / 10.0)
        }
        None => 0.0,
    }
}

#[test]
fn test_calculate_cost_local() {
    let provider = QwenProvider::local("http://localhost:8000/v1/chat/completions".to_string());
    assert_eq!(cost(&provider, "qwen3-8b", 1000, 1000), 0.0);
}

#[test]
fn test_calculate_cost_cloud() {
    let provider = QwenProvider::dashscope_intl("test-key".to_string());
    let cost = cost(&provider, "qwen-turbo", 1_000_000, 1_000_000);
    assert!((cost - 0.9).abs() < 0.01);
}

#[test]
fn test_calculate_cost_unknown_cloud_model_returns_zero() {
    let provider = QwenProvider::dashscope_intl("test-key".to_string());
    assert_eq!(cost(&provider, "qwen3-coder-next", 1000, 1000), 0.0);
}

#[test]
fn the_listed_prices_are_those_of_the_cloud() {
    let cloud = QwenProvider::dashscope_cn("test-key".to_string());
    assert_eq!(cloud.price("qwen-max"), Some((24, 96)));
    assert_eq!(cloud.price("qwen-plus"), Some((8, 20)));
    assert_eq!(cloud.price("qwen-turbo"), Some((3, 6)));
    let local = QwenProvider::local("http://localhost:8000".to_string());
    assert_eq!(local.price("qwen-max"), None);
}

#[test]
fn test_tool_call_index_in_bounds() {
    assert!(tool_call_index_in_bounds(0));
    assert!(tool_call_index_in_bounds(MAX_TOOL_CALL_INDEX));
    assert!(!tool_call_index_in_bounds(MAX_TOOL_CALL_INDEX + 1));
    assert!(!tool_call_index_in_bounds(500_000_000));
}

#[test]
fn test_custom_default_model() {
    let provider = QwenProvider::local("http://localhost:8000/v1/chat/completions".to_string())
        .with_default_model("qwen2.5-coder-14b-instruct".to_string());
    assert_eq!(provider.default_model(), "qwen2.5-coder-14b-instruct");
}

#[test]
fn test_sampling_defaults_qwen25_coder_local() {
    let provider = QwenProvider::local("http://localhost:8000/v1/chat/completions".to_string());
    let request = LLMRequest::new("qwen2.5-coder-7b-instruct", vec![user("hello")]);

    let qwen_request = provider.to_qwen_request(request);
    assert_eq!(qwen_request.top_p, Some(single(0.8)));
    assert_eq!(qwen_request.top_k, None);
    assert_eq!(qwen_request.repetition_penalty, Some(single(1.05)));
}

#[test]
fn test_sampling_defaults_qwen3_non_thinking() {
    let provider = QwenProvider::local("http://localhost:8000/v1/chat/completions".to_string());
    let request = LLMRequest::new("qwen3-8b", vec![user("hello")]);

    let qwen_request = provider.to_qwen_request(request);
    assert_eq!(qwen_request.top_p, Some(single(0.8)));
    assert_eq!(qwen_request.top_k, Some(20));
    assert_eq!(qwen_request.repetition_penalty, None);
}

#[test]
fn test_sampling_defaults_qwen3_thinking() {
    let provider = QwenProvider::local("http://localhost:8000/v1/chat/completions".to_string())
        .with_thinking(true);
    let request = LLMRequest::new("qwen3-32b", vec![user("hello")]);

    let qwen_request = provider.to_qwen_request(request);
    assert_eq!(qwen_request.top_p, Some(single(0.95)));
    assert_eq!(qwen_request.top_k, Some(20));
}

#[test]
fn test_sampling_defaults_dashscope_omits_vendor_extensions() {
    let provider = QwenProvider::dashscope_intl("test-key".to_string());
    let request = LLMRequest::new("qwen-plus", vec![user("hello")]);

    let qwen_request = provider.to_qwen_request(request);
    assert_eq!(qwen_request.top_p, Some(single(0.8)));
    assert_eq!(qwen_request.top_k, None);
    assert_eq!(qwen_request.repetition_penalty, None);
}

#[test]
fn test_sampling_explicit_request_top_p_wins() {
    let provider = QwenProvider::local("http://localhost:8000/v1/chat/completions".to_string());
    let mut request = LLMRequest::new("qwen2.5-coder-7b-instruct", vec![user("hello")]);
    request.top_p = Some(single(0.42));

    let qwen_request = provider.to_qwen_request(request);
    assert_eq!(qwen_request.top_p, Some(single(0.42)));
}

#[test]
fn test_sampling_config_override_wins_over_defaults() {
    let provider = QwenProvider::dashscope_intl("test-key".to_string()).with_sampling(
        Some(single(0.5)),
        Some(40),
        Some(single(1.2)),
    );
    let request = LLMRequest::new("qwen-plus", vec![user("hello")]);

    let qwen_request = provider.to_qwen_request(request);
    assert_eq!(qwen_request.top_p, Some(single(0.5)));
    assert_eq!(qwen_request.top_k, Some(40));
    assert_eq!(qwen_request.repetition_penalty, Some(single(1.2)));
}

#[test]
fn test_hermes_tools_format() {
    let provider = QwenProvider::local("http://localhost:8000/v1/chat/completions".to_string());

    let tools = vec![Tool {
        name: "read_file".to_string(),
        description: "Read a file from disk".to_string(),
        input_schema: json(r#"{"type": "object", "properties": {"path": {"type": "string"}}, "required": ["path"]}"#),
    }];

    let formatted = provider.format_hermes_tools(&tools);
    assert!(formatted.contains("<tools>"));
    assert!(formatted.contains("</tools>"));
    assert!(formatted.contains("read_file"));
    assert!(formatted.contains("<tool_call>"));
}

#[test]
fn test_native_qwen_parser_configuration() {
    let provider = QwenProvider::local("http://localhost:8000/v1/chat/completions".to_string())
        .with_tool_parser(ToolCallParser::NativeQwen);
    assert_eq!(provider.tool_parser, ToolCallParser::NativeQwen);
}

#[test]
fn test_native_qwen_tool_call_parsing() {
    let provider = QwenProvider::local("http://localhost:8000/v1/chat/completions".to_string())
        .with_tool_parser(ToolCallParser::NativeQwen);

    let text = format!(
        "I'll read that file for you.\n{}: read_file\n{}: {{\"path\": \"/home/user/test.txt\"}}",
        FN_NAME, FN_ARGS
    );

    let calls = provider.parse_native_qwen_tool_calls(&text);
    assert_eq!(calls.len(), 1);
    assert_eq!(calls[0].1, "read_file");
    assert_eq!(calls[0].2["path"], "/home/user/test.txt");
}

#[test]
fn test_multiple_native_qwen_tool_calls() {
    let provider = QwenProvider::local("http://localhost:8000/v1/chat/completions".to_string())
        .with_tool_parser(ToolCallParser::NativeQwen);

    let text = format!(
        "Let me read and write.\n{}: read_file\n{}: {{\"path\": \"input.txt\"}}\n{}: write_file\n{}: {{\"path\": \"output.txt\", \"content\": \"done\"}}",
        FN_NAME, FN_ARGS, FN_NAME, FN_ARGS
    );

    let calls = provider.parse_native_qwen_tool_calls(&text);
    assert_eq!(calls.len(), 2);
    assert_eq!(calls[0].1, "read_file");
    assert_eq!(calls[1].1, "write_file");
}

#[test]
fn test_native_qwen_tools_format() {
    let provider = QwenProvider::local("http://localhost:8000/v1/chat/completions".to_string())
        .with_tool_parser(ToolCallParser::NativeQwen);

    let tools = vec![Tool {
        name: "bash".to_string(),
        description: "Execute shell commands".to_string(),
        input_schema: json(r#"{"type": "object", "properties": {"command": {"type": "string"}}, "required": ["command"]}"#),
    }];

    let formatted = provider.format_native_qwen_tools(&tools);
    assert!(formatted.contains("<tool_info>"));
    assert!(formatted.contains("</tool_info>"));
    assert!(formatted.contains("bash"));
    assert!(formatted.contains(FN_NAME));
    assert!(formatted.contains(FN_ARGS));
}

#[test]
fn test_native_qwen_result_format() {
    let provider = QwenProvider::local("http://localhost:8000/v1/chat/completions".to_string())
        .with_tool_parser(ToolCallParser::NativeQwen);

    let result = provider.format_native_qwen_result("File content here");
    assert!(result.contains(FN_RESULT));
    assert!(result.contains(FN_EXIT));
    assert!(result.contains("File content here"));
}

#[test]
fn test_clean_incomplete_markers() {
    let provider = QwenProvider::local("http://localhost:8000/v1/chat/completions".to_string())
        .with_tool_parser(ToolCallParser::NativeQwen);

    let text = "Some text ✿FUN";
    let cleaned = provider.clean_incomplete_markers(text);
    assert_eq!(cleaned, "Some text ");

    let text = "Complete text";
    let cleaned = provider.clean_incomplete_markers(text);
    assert_eq!(cleaned, "Complete text");
}

#[test]
fn a_whole_marker_at_the_end_stays() {
    let provider = QwenProvider::local("http://localhost:8000/v1/chat/completions".to_string());
    for marker in [FN_NAME, FN_ARGS, FN_RESULT, FN_EXIT] {
        let text = format!("x {marker}");
        assert_eq!(provider.clean_incomplete_markers(&text), text);
    }
    assert_eq!(provider.clean_incomplete_markers("x ✿FUNCTION✿✿AR"), "x ✿FUNCTION✿");
    assert_eq!(provider.clean_incomplete_markers("x ✿FUNCTION✿ y ✿"), "x ✿FUNCTION✿ y ");
    assert_eq!(provider.clean_incomplete_markers("x ✿FUNCTION"), "x ");
    assert_eq!(provider.clean_incomplete_markers(""), "");
}

#[test]
fn test_fallback_parses_bare_json_tool_call() {
    let provider = QwenProvider::local("http://localhost:8000/v1/chat/completions".to_string());

    let text = r#"I'll read that file for you.
{"name": "read_file", "arguments": {"path": "/home/user/test.txt"}}"#;
    let known_tools = vec!["read_file".to_string()];

    let (calls, clean_text) = provider.parse_fallback_tool_calls(text, &known_tools);
    assert_eq!(calls.len(), 1);
    assert_eq!(calls[0].1, "read_file");
    assert_eq!(calls[0].2["path"], "/home/user/test.txt");
    assert!(!clean_text.contains("read_file"));
}

#[test]
fn test_fallback_rejects_unregistered_tool_name() {
    let provider = QwenProvider::local("http://localhost:8000/v1/chat/completions".to_string());

    let text = r#"A payload for this event looks like {"name": "page_view", "arguments": {"url": "/home"}}."#;
    let known_tools = vec!["read_file".to_string(), "list_files".to_string()];

    let (calls, clean_text) = provider.parse_fallback_tool_calls(text, &known_tools);
    assert!(calls.is_empty());
    assert_eq!(clean_text, text);
}

#[test]
fn test_fallback_parses_fenced_json_tool_call() {
    let provider = QwenProvider::local("http://localhost:8000/v1/chat/completions".to_string());

    let text = "Let me check that.\n```json\n{\"name\": \"list_files\", \"arguments\": {\"dir\": \"src\"}}\n```";
    let known_tools = vec!["list_files".to_string()];

    let (calls, clean_text) = provider.parse_fallback_tool_calls(text, &known_tools);
    assert_eq!(calls.len(), 1);
    assert_eq!(calls[0].1, "list_files");
    assert_eq!(calls[0].2["dir"], "src");
    assert!(!clean_text.contains("```"));
}

#[test]
fn test_fallback_does_not_corrupt_unrelated_fenced_code_block() {
    let provider = QwenProvider::local("http://localhost:8000/v1/chat/completions".to_string());
    let known_tools = vec!["list_files".to_string()];

    let text = "Here's an example:\n```python\nprint(1)\n```\nAlso: {\"name\": \"list_files\", \"arguments\": {\"dir\": \"src\"}}";

    let (calls, clean_text) = provider.parse_fallback_tool_calls(text, &known_tools);
    assert_eq!(calls.len(), 1);
    assert!(
        clean_text.contains("```python\nprint(1)\n```"),
        "unrelated fenced block must survive intact, got: {clean_text:?}"
    );
}

#[test]
fn test_fallback_ignores_unrelated_json() {
    let provider = QwenProvider::local("http://localhost:8000/v1/chat/completions".to_string());

    let text =
        "Here's an example config:\n```json\n{\"host\": \"localhost\", \"port\": 8000}\n```";

    let (calls, _) = provider.parse_fallback_tool_calls(text, &[]);
    assert!(calls.is_empty());
}

#[test]
fn test_find_json_objects_recovers_nested_object_after_failed_outer_parse() {
    let text = r#"Note {oops: {"name": "read_file", "arguments": {"path": "x"}}} end"#;

    let objects = QwenProvider::find_json_objects(text);
    let found = objects
        .iter()
        .any(|(_, _, value)| value.get("name").and_then(|v| v.as_str()) == Some("read_file"));
    assert!(
        found,
        "the validly-formed nested tool-call object must still be found, got: {objects:?}"
    );
}

#[test]
fn test_from_qwen_response_uses_fallback_when_no_hermes_tags() {
    let provider = QwenProvider::local("http://localhost:8000/v1/chat/completions".to_string());

    let response = QwenResponse {
        id: "qwen-fallback-test".to_string(),
        model: "qwen2.5-coder-7b-instruct".to_string(),
        choices: vec![QwenChoice {
            index: 0,
            message: QwenMessage {
                role: "assistant".to_string(),
                content: Some(
                    r#"{"name": "read_file", "arguments": {"path": "src/main.rs"}}"#
                        .to_string(),
                ),
                tool_calls: None,
                tool_call_id: None,
            },
            finish_reason: Some("stop".to_string()),
        }],
        usage: QwenUsage {
            prompt_tokens: 5,
            completion_tokens: 10,
        },
    };

    let known_tools = vec!["read_file".to_string()];
    let llm_response = provider.from_qwen_response(response, &known_tools);
    let tool = llm_response.content.iter().find_map(|b| match b {
        ContentBlock::ToolUse { name, input, .. } => Some((name.clone(), input.clone())),
        _ => None,
    });
    let (name, input) = tool.expect("fallback JSON tool call must become a ToolUse block");
    assert_eq!(name, "read_file");
    assert_eq!(input, json(r#"{"path": "src/main.rs"}"#));
    assert_eq!(llm_response.stop_reason, Some(StopReason::ToolUse));
}

#[test]
fn test_from_qwen_response_openai_parser_still_detects_fallback_json() {
    let provider = QwenProvider::local("http://localhost:8000/v1/chat/completions".to_string())
        .with_tool_parser(ToolCallParser::OpenAI);

    let response = QwenResponse {
        id: "qwen-openai-fallback-test".to_string(),
        model: "qwen2.5-coder-7b-instruct".to_string(),
        choices: vec![QwenChoice {
            index: 0,
            message: QwenMessage {
                role: "assistant".to_string(),
                content: Some(
                    r#"{"name": "read_file", "arguments": {"path": "src/main.rs"}}"#
                        .to_string(),
                ),
                tool_calls: None,
                tool_call_id: None,
            },
            finish_reason: Some("stop".to_string()),
        }],
        usage: QwenUsage {
            prompt_tokens: 5,
            completion_tokens: 10,
        },
    };

    let known_tools = vec!["read_file".to_string()];
    let llm_response = provider.from_qwen_response(response, &known_tools);
    let tool = llm_response.content.iter().find_map(|b| match b {
        ContentBlock::ToolUse { name, input, .. } => Some((name.clone(), input.clone())),
        _ => None,
    });
    let (name, _) =
        tool.expect("fallback JSON tool call must be detected under the OpenAI parser too");
    assert_eq!(name, "read_file");
}

#[test]
fn test_from_qwen_response_detects_bare_json_call_mixed_with_hermes_call() {
    let provider = QwenProvider::local("http://localhost:8000/v1/chat/completions".to_string());

    let content = "First I'll read the file.\n\
         <tool_call>\n{\"name\": \"read_file\", \"arguments\": {\"path\": \"src/main.rs\"}}\n</tool_call>\n\
         Then I'll list the directory: {\"name\": \"list_files\", \"arguments\": {\"dir\": \"src\"}}";

    let response = QwenResponse {
        id: "qwen-mixed-format-test".to_string(),
        model: "qwen2.5-coder-7b-instruct".to_string(),
        choices: vec![QwenChoice {
            index: 0,
            message: QwenMessage {
                role: "assistant".to_string(),
                content: Some(content.to_string()),
                tool_calls: None,
                tool_call_id: None,
            },
            finish_reason: Some("stop".to_string()),
        }],
        usage: QwenUsage {
            prompt_tokens: 5,
            completion_tokens: 10,
        },
    };

    let known_tools = vec!["read_file".to_string(), "list_files".to_string()];
    let llm_response = provider.from_qwen_response(response, &known_tools);
    let names: Vec<String> = llm_response
        .content
        .iter()
        .filter_map(|b| match b {
            ContentBlock::ToolUse { name, .. } => Some(name.clone()),
            _ => None,
        })
        .collect();
    assert_eq!(names, vec!["read_file", "list_files"]);
}

#[test]
fn test_sampling_defaults_unrecognized_model_name_is_conservative() {
    let provider = QwenProvider::local("http://localhost:8000/v1/chat/completions".to_string());
    let request = LLMRequest::new("acme-ft-v2", vec![user("hello")]);

    let qwen_request = provider.to_qwen_request(request);
    assert_eq!(qwen_request.top_p, Some(single(0.8)));
    assert_eq!(qwen_request.top_k, None);
    assert_eq!(qwen_request.repetition_penalty, None);
}

#[test]
fn test_stop_words_defined() {
    assert_eq!(QWEN_FN_STOP_WORDS.len(), 2);
    assert!(QWEN_FN_STOP_WORDS.contains(&"✿RESULT✿"));
    assert!(QWEN_FN_STOP_WORDS.contains(&"✿RETURN✿"));
}

#[test]
fn hermes_calls_that_were_written_are_read_back() {
    let provider = QwenProvider::local("http://localhost:8000/v1/chat/completions".to_string());
    let inputs = [
        ("read_file", r#"{"path":"src/main.rs","lines":[1,2,{"to":null}]}"#),
        ("größe_ermitteln", r#"{"text":"say \"<tool_call>\" \\ and a line\n"}"#),
        ("list", "{}"),
        ("echo", "-1.5e3"),
    ];
    let mut content = vec![ContentBlock::Text { text: "Two things:".to_string() }];
    for (i, (name, input)) in inputs.iter().enumerate() {
        content.push(ContentBlock::ToolUse {
            id: format!("call_{i}"),
            name: name.to_string(),
            input: json(input),
        });
        content.push(ContentBlock::Text { text: format!("part {i}") });
    }
    let request =
        LLMRequest::new("qwen3-8b", vec![Message { role: Role::Assistant, content }]);
    let qwen_request = provider.to_qwen_request(request);
    assert_eq!(qwen_request.messages.len(), 1);
    let text = qwen_request.messages[0].content.clone().unwrap();
    assert!(text.starts_with(
        "Two things:\npart 0\npart 1\npart 2\npart 3\n<tool_call>\n{\"name\": \"read_file\", \"arguments\": {"
    ));

    let calls = provider.parse_hermes_tool_calls(&text);
    assert_eq!(calls.len(), inputs.len());
    for (call, (name, input)) in calls.iter().zip(inputs) {
        assert_eq!(call.1, name);
        assert_eq!(call.2, json(input));
    }
}

#[test]
fn a_closing_tag_in_an_input_ends_the_call_early() {
    let provider = QwenProvider::local("http://localhost:8000/v1/chat/completions".to_string());
    let content = vec![ContentBlock::ToolUse {
        id: "call_0".to_string(),
        name: "echo".to_string(),
        input: json(r#"{"text":"</tool_call>"}"#),
    }];
    let request =
        LLMRequest::new("qwen3-8b", vec![Message { role: Role::Assistant, content }]);
    let text = provider.to_qwen_request(request).messages[0].content.clone().unwrap();
    assert!(provider.parse_hermes_tool_calls(&text).is_empty());
}

#[test]
fn native_calls_that_were_written_are_read_back() {
    let provider = QwenProvider::local("http://localhost:8000/v1/chat/completions".to_string())
        .with_tool_parser(ToolCallParser::NativeQwen);
    let inputs = [
        ("read_file", r#"{"path":"a: b\n","lines":[1,2]}"#),
        ("say: hello", r#"{"text":"a ✿ flower"}"#),
        ("list", "{}"),
    ];
    let mut content = vec![ContentBlock::Text { text: "Here: ✿".to_string() }];
    for (i, (name, input)) in inputs.iter().enumerate() {
        content.push(ContentBlock::ToolUse {
            id: format!("call_{i}"),
            name: name.to_string(),
            input: json(input),
        });
    }
    let request =
        LLMRequest::new("qwen3-8b", vec![Message { role: Role::Assistant, content }]);
    let text = provider.to_qwen_request(request).messages[0].content.clone().unwrap();
    assert!(text.starts_with("Here: ✿\n✿FUNCTION✿: read_file\n✿ARGS✿: {"));

    let calls = provider.parse_native_qwen_tool_calls(&text);
    assert_eq!(calls.len(), inputs.len());
    for (call, (name, input)) in calls.iter().zip(inputs) {
        assert_eq!(call.1, name);
        assert_eq!(call.2, json(input));
    }
}
