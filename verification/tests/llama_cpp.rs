use crustly::llama_cpp::decode::drain_valid_utf8;
use crustly::llama_cpp::prompt::{merged_system_prompt, tool_instructions_block};
use crustly::llama_cpp::provider::{
    gpu_backend_compiled_in, plan_worker, LlamaCppProviderConfig,
};
use crustly::llama_cpp::sampling::{
    build_sampler, try_build_constrained_sampler, SamplerStage, SamplingDefaults,
};
use crustly::types::{LLMRequest, ProviderError, Tool};

fn json(text: &str) -> serde_json::Value {
    serde_json::from_str(text).expect("valid JSON")
}

fn config(model_path: &str) -> LlamaCppProviderConfig {
    LlamaCppProviderConfig {
        model_path: model_path.to_string(),
        display_name: None,
        n_ctx: 4096,
        n_gpu_layers: 0,
        n_threads: None,
        chat_template: None,
        temperature: None,
        top_p: None,
        top_k: None,
        repeat_penalty: None,
        seed: None,
        idle_unload_secs: None,
    }
}

fn drawn_seed(chain: &[SamplerStage]) -> Option<u32> {
    chain.iter().find_map(|s| match s {
        SamplerStage::Dist(seed) => Some(*seed),
        _ => None,
    })
}

#[test]
fn new_reports_model_not_found_for_a_missing_path() {
    let config = config("/nonexistent/path/to/model.gguf");

    let err = plan_worker(&config, false, Some("model".to_string()), None, &Vec::new())
        .expect_err("missing file must error");
    assert!(matches!(err, ProviderError::ModelNotFound(_)));
}

#[test]
fn display_name_defaults_to_the_file_stem() {
    let path = std::path::PathBuf::from("/models/qwen2.5-coder-7b-instruct-q4_k_m.gguf");
    let derived = path.file_stem().map(|s| s.to_string_lossy().into_owned());
    let config = config("/models/qwen2.5-coder-7b-instruct-q4_k_m.gguf");
    let init = plan_worker(&config, true, derived, None, &Vec::new()).expect("the file is there");
    assert_eq!(init.display_name, "qwen2.5-coder-7b-instruct-q4_k_m");
}

#[test]
fn sampling_defaults_match_documented_values() {
    let d = SamplingDefaults::default();
    assert_eq!(f32::from_bits(d.temperature.bits), 0.8);
    assert_eq!(f32::from_bits(d.top_p.bits), 0.95);
    assert_eq!(d.top_k, 40);
    assert_eq!(f32::from_bits(d.repeat_penalty.bits), 1.1);
}

#[test]
fn build_sampler_seed_offset_changes_the_resolved_seed() {
    let defaults = SamplingDefaults::default();
    let request = LLMRequest::new("llama-cpp-model", vec![]);

    let unshifted = build_sampler(32_000, &defaults, &request, Some(42), 0, false);
    let shifted = build_sampler(32_000, &defaults, &request, Some(42), 17, false);

    assert_eq!(drawn_seed(&unshifted), Some(42));
    assert_eq!(drawn_seed(&shifted), Some(42u32.wrapping_add(17)));
    assert_ne!(drawn_seed(&unshifted), drawn_seed(&shifted));
}

#[test]
fn gpu_backend_compiled_in_is_false_in_this_cpu_only_test_build() {
    assert!(!gpu_backend_compiled_in(&vec!["llama-cpp".to_string()]));
}

#[test]
fn any_gpu_backend_counts() {
    assert!(!gpu_backend_compiled_in(&Vec::new()));
    assert!(!gpu_backend_compiled_in(&vec!["llama-cpp-llguidance".to_string()]));
    for backend in ["cuda", "metal", "vulkan", "rocm", "opencl", "mkl"] {
        let features = vec!["llama-cpp".to_string(), format!("llama-cpp-{backend}")];
        assert!(gpu_backend_compiled_in(&features));
    }
}

#[test]
fn layers_for_a_gpu_that_is_not_there_are_warned_of() {
    let warns = |layers: u32, features: &[&str]| {
        let mut c = config("/models/a.gguf");
        c.n_gpu_layers = layers;
        let features = features.iter().map(|f| f.to_string()).collect();
        plan_worker(&c, true, None, None, &features).expect("the file is there").warn_no_gpu
    };
    assert!(warns(1, &["llama-cpp"]));
    assert!(!warns(0, &["llama-cpp"]));
    assert!(!warns(1, &["llama-cpp", "llama-cpp-vulkan"]));
    assert!(!warns(0, &["llama-cpp-metal"]));
}

#[test]
fn drain_valid_utf8_full_ascii_chunk() {
    let mut buf = b"hello".to_vec();
    assert_eq!(drain_valid_utf8(&mut buf), Some("hello".to_string()));
    assert!(buf.is_empty());
}

#[test]
fn drain_valid_utf8_empty_buffer_returns_none() {
    let mut buf = Vec::new();
    assert_eq!(drain_valid_utf8(&mut buf), None);
}

#[test]
fn drain_valid_utf8_holds_back_an_incomplete_multibyte_sequence() {
    let full = "café".as_bytes().to_vec();
    let (first, second) = full.split_at(full.len() - 1);

    let mut buf = first.to_vec();
    assert_eq!(drain_valid_utf8(&mut buf), Some("caf".to_string()));
    assert_eq!(buf.len(), 1, "the incomplete lead byte must be retained");

    buf.extend_from_slice(second);
    assert_eq!(drain_valid_utf8(&mut buf), Some("é".to_string()));
    assert!(buf.is_empty());
}

#[test]
fn drain_valid_utf8_multiple_tokens_reassemble_correctly() {
    let pieces: Vec<Vec<u8>> = "日本語".as_bytes().chunks(2).map(|c| c.to_vec()).collect();

    let mut buf = Vec::new();
    let mut reassembled = String::new();
    for piece in pieces {
        buf.extend_from_slice(&piece);
        if let Some(chunk) = drain_valid_utf8(&mut buf) {
            reassembled.push_str(&chunk);
        }
    }
    assert!(buf.is_empty(), "no bytes should be stranded at the end");
    assert_eq!(reassembled, "日本語");
}

#[test]
fn drain_valid_utf8_never_panics_on_arbitrary_bytes() {
    for byte in 0u8..=255 {
        let mut buf = vec![byte, byte, byte];
        let _ = drain_valid_utf8(&mut buf);
    }
}

fn bash_tool() -> Tool {
    Tool {
        name: "bash".to_string(),
        description: "Run a shell command".to_string(),
        input_schema: json(
            r#"{"type": "object", "properties": {"command": {"type": "string"}}, "required": ["command"]}"#,
        ),
    }
}

#[test]
fn merged_system_prompt_with_neither_is_none() {
    assert_eq!(merged_system_prompt(None, None), None);
}

#[test]
fn merged_system_prompt_system_only_is_unchanged() {
    assert_eq!(merged_system_prompt(Some("be terse"), None), Some("be terse".to_string()));
}

#[test]
fn merged_system_prompt_empty_tools_list_behaves_like_none() {
    assert_eq!(merged_system_prompt(Some("be terse"), Some(&[])), Some("be terse".to_string()));
    assert_eq!(merged_system_prompt(None, Some(&[])), None);
}

#[test]
fn merged_system_prompt_tools_only_still_produces_instructions() {
    let tools = [bash_tool()];
    let merged = merged_system_prompt(None, Some(&tools)).expect("tools alone must inject");
    assert!(merged.contains("bash"));
    assert!(merged.contains("Run a shell command"));
}

#[test]
fn merged_system_prompt_combines_system_and_tools_with_system_first() {
    let tools = [bash_tool()];
    let merged = merged_system_prompt(Some("be terse"), Some(&tools)).expect("both present");
    let system_pos = merged.find("be terse").expect("system text present");
    let tools_pos = merged.find("bash").expect("tool name present");
    assert!(
        system_pos < tools_pos,
        "system prompt must come before the tool instructions"
    );
}

#[test]
fn tool_instructions_block_names_every_offered_tool() {
    let tools = [
        bash_tool(),
        Tool {
            name: "read_file".to_string(),
            description: "Read a file".to_string(),
            input_schema: json(r#"{"type": "object"}"#),
        },
    ];
    let block = tool_instructions_block(&tools);
    assert!(block.contains("bash"));
    assert!(block.contains("read_file"));
    assert!(block.contains("\"name\""));
    assert!(block.contains("\"arguments\""));
}

#[test]
fn try_build_constrained_sampler_without_the_feature_is_always_none() {
    let request = LLMRequest::new("llama-cpp-model", vec![]);

    let sampler = try_build_constrained_sampler(
        32_000,
        false,
        &[],
        &SamplingDefaults::default(),
        &request,
        None,
    );
    assert!(sampler.is_none());
}
