//! The provider's settings, and what follows from them.

use crate::ids;
use crate::qwen::calls;
use crate::qwen::calls::Call;
use crate::qwen::markup;
use crate::qwen::written;
use crate::text;
use crate::types::{Float32, ProviderError};
use serde_json::Value;
use vstd::prelude::*;
use vstd::string::*;

verus! {

/// DashScope's endpoint outside China.
pub const DASHSCOPE_INTL_URL: &'static str =
    "https://dashscope-intl.aliyuncs.com/compatible-mode/v1/chat/completions";

/// DashScope's endpoint in China.
pub const DASHSCOPE_CN_URL: &'static str =
    "https://dashscope.aliyuncs.com/compatible-mode/v1/chat/completions";

/// The API key that stands for a local deployment, which needs none.
pub const LOCAL_API_KEY: &'static str = "not-needed";

/// 0.8 in single precision.
pub const POINT_EIGHT: u32 = 0x3f4c_cccd;

/// 0.95 in single precision.
pub const POINT_NINE_FIVE: u32 = 0x3f73_3333;

/// 1.05 in single precision.
pub const ONE_POINT_O_FIVE: u32 = 0x3f86_6666;

/// How tool calls are written in a conversation with a model.
#[derive(Clone, Copy, PartialEq, Eq, Structural, Debug)]
pub enum ToolCallParser {
    /// As separate fields of the message.
    OpenAI,
    /// As JSON between `<tool_call>` tags in the text.
    Hermes,
    /// With `✿FUNCTION✿`, `✿ARGS✿` and like markers in the text.
    NativeQwen,
}

/// Whether a model is asked to reason in `<think>` tags.
#[derive(Clone, Copy, PartialEq, Eq, Structural, Debug)]
pub struct ThinkingConfig {
    /// Whether it is asked to.
    pub enabled: bool,
    /// How many tokens it may spend on it.
    pub budget_tokens: Option<u32>,
}

impl Default for ThinkingConfig {
    fn default() -> (r: Self)
        ensures
            !r.enabled,
            r.budget_tokens is None,
    {
        ThinkingConfig { enabled: false, budget_tokens: None }
    }
}

/// Sampling values set by the user, each of which replaces a default.
#[derive(Clone, Copy, PartialEq, Eq, Structural, Debug)]
pub struct SamplingOverrides {
    pub top_p: Option<Float32>,
    pub top_k: Option<u32>,
    pub repetition_penalty: Option<Float32>,
}

/// Default sampling values: `top_p`, `top_k` and the repetition penalty.
pub type Sampling = (Option<Float32>, Option<u32>, Option<Float32>);

/// Settings of a Qwen provider.
#[derive(Clone, Debug)]
pub struct QwenProvider {
    pub api_key: String,
    pub base_url: String,
    pub custom_default_model: Option<String>,
    pub tool_parser: ToolCallParser,
    pub thinking_config: ThinkingConfig,
    pub sampling: SamplingOverrides,
}

/// A byte that a header value may hold.
pub open spec fn header_byte(b: u8) -> bool {
    (b >= 32 && b != 127) || b == 9
}

/// Whether every byte of `s` in UTF-8 is one that a header value may hold.
pub open spec fn header_text(s: Seq<char>) -> bool {
    let bytes = vstd::utf8::encode_utf8(s);
    forall|i: int| 0 <= i < bytes.len() ==> header_byte(#[trigger] bytes[i])
}

/// Whether `reqwest::header::HeaderValue::from_str` takes `s`: it takes any
/// text without control characters other than the tab.
#[verifier::external_body]
pub(crate) fn is_header_value(s: &str) -> (r: bool)
    ensures
        r == header_text(s@),
{
    reqwest::header::HeaderValue::from_str(s).is_ok()
}

/// The default sampling values for a model with the lower-case name `lower`.
///
/// Qwen3 takes a `top_k` of 20 and, when it reasons, a higher `top_p`; it takes
/// no repetition penalty. Qwen2 and coder models take a repetition penalty and
/// no `top_k`. Of a model of no known family only `top_p` is set.
pub open spec fn family_sampling(lower: Seq<char>, thinking: bool) -> Sampling {
    if text::find_from(lower, 0, "qwen3"@) is Some {
        (
            Some(
                Float32 {
                    bits: if thinking {
                        POINT_NINE_FIVE
                    } else {
                        POINT_EIGHT
                    },
                },
            ),
            Some(20),
            None,
        )
    } else if text::find_from(lower, 0, "qwen2"@) is Some || text::find_from(lower, 0, "coder"@)
        is Some {
        (
            Some(Float32 { bits: POINT_EIGHT }),
            None,
            Some(Float32 { bits: ONE_POINT_O_FIVE }),
        )
    } else {
        (Some(Float32 { bits: POINT_EIGHT }), None, None)
    }
}

/// The default sampling values for a model with the lower-case name `lower`.
pub fn sampling_for_family(lower: &str, thinking: bool) -> (r: Sampling)
    ensures
        r == family_sampling(lower@, thinking),
{
    if text::contains(lower, "qwen3") {
        let bits: u32 = if thinking {
            POINT_NINE_FIVE
        } else {
            POINT_EIGHT
        };
        (Some(Float32 { bits }), Some(20), None)
    } else if text::contains(lower, "qwen2") || text::contains(lower, "coder") {
        (Some(Float32 { bits: POINT_EIGHT }), None, Some(Float32 { bits: ONE_POINT_O_FIVE }))
    } else {
        (Some(Float32 { bits: POINT_EIGHT }), None, None)
    }
}

/// The models that are listed.
pub open spec fn listed_models() -> Seq<Seq<char>> {
    seq![
        "qwen3-coder-next"@,
        "qwen3.6-27b"@,
        "qwen3-235b-a22b"@,
        "qwen3-32b"@,
        "qwen3-14b"@,
        "qwen3-8b"@,
        "qwen2.5-coder-32b-instruct"@,
        "qwen2.5-coder-14b-instruct"@,
        "qwen2.5-coder-7b-instruct"@,
        "qwen2.5-72b-instruct"@,
        "qwen2.5-32b-instruct"@,
        "qwen2.5-14b-instruct"@,
        "qwen2.5-7b-instruct"@,
        "qwen-max"@,
        "qwen-plus"@,
        "qwen-turbo"@,
    ]
}

/// The context window of a listed model, in tokens.
pub open spec fn listed_window(model: Seq<char>) -> Option<u32> {
    if model == "qwen3-coder-next"@ || model == "qwen3.6-27b"@ {
        Some(262_144)
    } else if model == "qwen-max"@ {
        Some(32_768)
    } else if listed_models().contains(model) {
        Some(131_072)
    } else {
        None
    }
}

/// Prices per million tokens in tenths of a dollar: of input and of output.
pub open spec fn listed_price(model: Seq<char>) -> Option<(u32, u32)> {
    if model == "qwen-max"@ {
        Some((24, 96))
    } else if model == "qwen-plus"@ {
        Some((8, 20))
    } else if model == "qwen-turbo"@ {
        Some((3, 6))
    } else {
        None
    }
}

impl QwenProvider {
    /// Whether the provider is a local deployment.
    pub open spec fn local_deployment(&self) -> bool {
        self.api_key@ == LOCAL_API_KEY@
    }

    /// The context window of `model`, in tokens.
    pub open spec fn window_of(&self, model: Seq<char>) -> u32 {
        match listed_window(model) {
            Some(n) => n,
            None => if self.local_deployment() {
                8_192
            } else {
                32_768
            },
        }
    }

    /// What a million tokens of `model` cost, of input and of output.
    pub open spec fn price_of(&self, model: Seq<char>) -> Option<(u32, u32)> {
        if self.local_deployment() {
            None
        } else {
            listed_price(model)
        }
    }

    /// Whether `model` can be asked for.
    pub open spec fn takes_model(&self, model: Seq<char>) -> bool {
        self.local_deployment() || listed_models().contains(model) || text::begins_with(
            model,
            "qwen"@,
        )
    }

    /// The headers of a request, each a name and a value.
    pub open spec fn header_pairs(&self) -> Seq<(Seq<char>, Seq<char>)> {
        if self.local_deployment() {
            seq![("content-type"@, "application/json"@)]
        } else {
            seq![("authorization"@, self.bearer()), ("content-type"@, "application/json"@)]
        }
    }

    /// A provider for DashScope outside China.
    pub fn dashscope_intl(api_key: String) -> (r: Self)
        ensures
            r.api_key == api_key,
            r.base_url@ == DASHSCOPE_INTL_URL@,
            r.custom_default_model is None,
            r.tool_parser == ToolCallParser::OpenAI,
            r.thinking_config == (ThinkingConfig { enabled: false, budget_tokens: None }),
            r.sampling == (SamplingOverrides { top_p: None, top_k: None, repetition_penalty: None }),
    {
        Self::with_base_url(api_key, DASHSCOPE_INTL_URL.to_string())
    }

    /// A provider for DashScope in China.
    pub fn dashscope_cn(api_key: String) -> (r: Self)
        ensures
            r.api_key == api_key,
            r.base_url@ == DASHSCOPE_CN_URL@,
            r.custom_default_model is None,
            r.tool_parser == ToolCallParser::OpenAI,
            r.thinking_config == (ThinkingConfig { enabled: false, budget_tokens: None }),
            r.sampling == (SamplingOverrides { top_p: None, top_k: None, repetition_penalty: None }),
    {
        Self::with_base_url(api_key, DASHSCOPE_CN_URL.to_string())
    }

    /// A provider for a local deployment, which reads Hermes tool calls.
    pub fn local(base_url: String) -> (r: Self)
        ensures
            r.local_deployment(),
            r.base_url == base_url,
            r.custom_default_model is None,
            r.tool_parser == ToolCallParser::Hermes,
            r.thinking_config == (ThinkingConfig { enabled: false, budget_tokens: None }),
            r.sampling == (SamplingOverrides { top_p: None, top_k: None, repetition_penalty: None }),
    {
        QwenProvider {
            api_key: LOCAL_API_KEY.to_string(),
            base_url,
            custom_default_model: None,
            tool_parser: ToolCallParser::Hermes,
            thinking_config: ThinkingConfig::default(),
            sampling: SamplingOverrides { top_p: None, top_k: None, repetition_penalty: None },
        }
    }

    /// A provider for the endpoint `base_url`, which reads tool calls from
    /// separate fields.
    pub fn with_base_url(api_key: String, base_url: String) -> (r: Self)
        ensures
            r.api_key == api_key,
            r.base_url == base_url,
            r.custom_default_model is None,
            r.tool_parser == ToolCallParser::OpenAI,
            r.thinking_config == (ThinkingConfig { enabled: false, budget_tokens: None }),
            r.sampling == (SamplingOverrides { top_p: None, top_k: None, repetition_penalty: None }),
    {
        QwenProvider {
            api_key,
            base_url,
            custom_default_model: None,
            tool_parser: ToolCallParser::OpenAI,
            thinking_config: ThinkingConfig::default(),
            sampling: SamplingOverrides { top_p: None, top_k: None, repetition_penalty: None },
        }
    }

    /// The provider with `model` as its default model.
    pub fn with_default_model(self, model: String) -> (r: Self)
        ensures
            r == (QwenProvider { custom_default_model: Some(model), ..self }),
    {
        QwenProvider { custom_default_model: Some(model), ..self }
    }

    /// The provider with `parser` as the form of its tool calls.
    pub fn with_tool_parser(self, parser: ToolCallParser) -> (r: Self)
        ensures
            r == (QwenProvider { tool_parser: parser, ..self }),
    {
        QwenProvider { tool_parser: parser, ..self }
    }

    /// The form of tool calls.
    pub fn tool_parser(&self) -> (r: ToolCallParser)
        ensures
            r == self.tool_parser,
    {
        self.tool_parser
    }

    /// The provider with these sampling values in place of the defaults.
    pub fn with_sampling(
        self,
        top_p: Option<Float32>,
        top_k: Option<u32>,
        repetition_penalty: Option<Float32>,
    ) -> (r: Self)
        ensures
            r == (QwenProvider {
                sampling: (SamplingOverrides { top_p, top_k, repetition_penalty }),
                ..self
            }),
    {
        QwenProvider {
            sampling: SamplingOverrides { top_p, top_k, repetition_penalty },
            ..self
        }
    }

    /// The provider with reasoning switched on or off.
    pub fn with_thinking(self, enabled: bool) -> (r: Self)
        ensures
            r == (QwenProvider {
                thinking_config: (ThinkingConfig {
                    enabled,
                    budget_tokens: self.thinking_config.budget_tokens,
                }),
                ..self
            }),
    {
        let budget_tokens = self.thinking_config.budget_tokens;
        QwenProvider { thinking_config: ThinkingConfig { enabled, budget_tokens }, ..self }
    }

    /// The provider with a budget for reasoning.
    pub fn with_thinking_budget(self, budget_tokens: u32) -> (r: Self)
        ensures
            r == (QwenProvider {
                thinking_config: (ThinkingConfig {
                    enabled: self.thinking_config.enabled,
                    budget_tokens: Some(budget_tokens),
                }),
                ..self
            }),
    {
        let enabled = self.thinking_config.enabled;
        QwenProvider {
            thinking_config: ThinkingConfig { enabled, budget_tokens: Some(budget_tokens) },
            ..self
        }
    }

    /// Whether the provider is a local deployment.
    pub fn is_local(&self) -> (r: bool)
        ensures
            r == self.local_deployment(),
    {
        text::same(self.api_key.as_str(), LOCAL_API_KEY)
    }

    /// A fresh tool-call identifier.
    pub fn generate_call_id() -> (r: String)
        ensures
            ids::is_call_id(r@),
    {
        ids::generate_call_id()
    }

    /// The value of the authorization header.
    pub open spec fn bearer(&self) -> Seq<char> {
        "Bearer "@ + text::trimmed(self.api_key@)
    }

    /// The headers of a request, each a name and a value. A local deployment
    /// gets no authorization header. A key that holds control characters when
    /// the white space around it is taken off is refused.
    pub fn headers(&self) -> (r: Result<Vec<(String, String)>, ProviderError>)
        ensures
            match r {
                Ok(h) => if self.local_deployment() {
                    markup::pair_texts(h@) == seq![("content-type"@, "application/json"@)]
                } else {
                    markup::pair_texts(h@) == seq![
                        ("authorization"@, self.bearer()),
                        ("content-type"@, "application/json"@),
                    ]
                },
                Err(e) => e is InvalidApiKey,
            },
            r is Ok <==> self.local_deployment() || header_text(self.bearer()),
            r matches Ok(h) ==> markup::pair_texts(h@) == self.header_pairs(),
    {
        let mut headers: Vec<(String, String)> = Vec::new();
        if !self.is_local() {
            let mut value = "Bearer ".to_string();
            let key = text::trim(self.api_key.as_str());
            value.append(key.as_str());
            if !is_header_value(value.as_str()) {
                return Err(ProviderError::InvalidApiKey);
            }
            headers.push(("authorization".to_string(), value));
        }
        headers.push(("content-type".to_string(), "application/json".to_string()));
        proof {
            if self.local_deployment() {
                assert(markup::pair_texts(headers@) =~= seq![
                    ("content-type"@, "application/json"@),
                ]);
            } else {
                assert(markup::pair_texts(headers@) =~= seq![
                    ("authorization"@, self.bearer()),
                    ("content-type"@, "application/json"@),
                ]);
            }
        }
        Ok(headers)
    }

    /// The Hermes tool calls in `text`, each under a fresh identifier. Calls that
    /// were written into it are read back, one for each, in the same order.
    pub fn parse_hermes_tool_calls(&self, text: &str) -> (r: Vec<Call>)
        ensures
            calls::calls_fit(r@, calls::hermes_calls(text@)),
            written::are_read_back(text@, r@),
    {
        calls::parse_hermes(text)
    }

    /// The native tool calls in `text`, each under a fresh identifier.
    pub fn parse_native_qwen_tool_calls(&self, text: &str) -> (r: Vec<Call>)
        ensures
            calls::calls_fit(r@, calls::native_calls(text@)),
    {
        calls::parse_native(text)
    }

    /// The calls to the tools `known_tools` that stand in `text` as plain JSON
    /// objects, each under a fresh identifier, and the text without them.
    pub fn parse_fallback_tool_calls(&self, text: &str, known_tools: &[String]) -> (r: (
        Vec<Call>,
        String,
    ))
        ensures
            calls::calls_fit(r.0@, calls::fallback_calls(text@, text::texts(known_tools@))),
            r.1@ == calls::fallback_text(text@, text::texts(known_tools@)),
            r.0@.len() == 0 ==> r.1@ == text@,
    {
        proof {
            calls::lemma_nothing_found(text@, text::texts(known_tools@));
        }
        calls::parse_fallback(text, known_tools)
    }

    /// The JSON objects in `text`, each with the byte positions where it begins
    /// and ends.
    pub fn find_json_objects(text: &str) -> (r: Vec<(usize, usize, Value)>)
        ensures
            r@.len() == calls::objects_from(text@, 0).len(),
            forall|i: int|
                0 <= i < r@.len() ==> {
                    let f = calls::objects_from(text@, 0)[i];
                    (#[trigger] r@[i]).0 == text::byte_len(text@.take(f.start)) && r@[i].1
                        == text::byte_len(text@.take(f.end)) && r@[i].2 == f.value
                },
    {
        let v = text::chars_of(text);
        let found = calls::find_json_objects(&v);
        let ghost all = calls::objects_from(text@, 0);
        let mut out: Vec<(usize, usize, Value)> = Vec::new();
        let mut i: usize = 0;
        while i < found.len()
            invariant
                i <= found@.len(),
                v@ == text@,
                all == calls::objects_from(text@, 0),
                calls::found_views(found@) == all,
                forall|k: int|
                    0 <= k < found@.len() ==> (#[trigger] found@[k]).0 < found@[k].1 <= v@.len(),
                out@.len() == i,
                forall|k: int|
                    0 <= k < i ==> (#[trigger] out@[k]).0 == text::byte_len(
                        text@.take(all[k].start),
                    ) && out@[k].1 == text::byte_len(text@.take(all[k].end)) && out@[k].2
                        == all[k].value,
            decreases found@.len() - i,
        {
            let head = text::string_of(&v, 0, found[i].0);
            let upto = text::string_of(&v, 0, found[i].1);
            proof {
                assert(all[i as int] == calls::found_views(found@)[i as int]);
                assert(head@ == text@.take(all[i as int].start));
                assert(upto@ == text@.take(all[i as int].end));
            }
            out.push(
                (
                    head.as_str().as_bytes().len(),
                    upto.as_str().as_bytes().len(),
                    found[i].2.clone(),
                ),
            );
            i = i + 1;
        }
        out
    }

    /// The reasoning in `text` and the text around it. Nothing is taken out
    /// where reasoning is switched off or no closed `<think>` block is there.
    pub fn extract_thinking(&self, text: &str) -> (r: (Option<String>, String))
        ensures
            match markup::thinking_parts(text@) {
                Some(p) if self.thinking_config.enabled => r.0 is Some && r.0.unwrap()@ == p.0
                    && r.1@ == p.1,
                _ => r.0 is None && r.1@ == text@,
            },
    {
        if !self.thinking_config.enabled {
            return (None, text.to_string());
        }
        match markup::split_thinking(text) {
            Some((thinking, remaining)) => (Some(thinking), remaining),
            None => (None, text.to_string()),
        }
    }

    /// `text` without a native marker's beginning at its end. A whole marker
    /// stays.
    pub fn clean_incomplete_markers(&self, text: &str) -> (r: String)
        ensures
            r@ == markup::without_incomplete_markers(text@),
            markup::ends_whole(text@) ==> r@ == text@,
    {
        markup::clean_markers(text)
    }

    /// `value` for a local deployment, and nothing for another.
    pub fn local_only<T>(is_local: bool, value: Option<T>) -> (r: Option<T>)
        ensures
            r == (if is_local {
                value
            } else {
                None
            }),
    {
        if is_local {
            value
        } else {
            None
        }
    }

    /// The default sampling values for `model`.
    pub fn default_sampling(model: &str, thinking_enabled: bool) -> (r: Sampling)
        ensures
            r == family_sampling(text::lowercase(model@), thinking_enabled),
    {
        let lower = text::to_lowercase(model);
        sampling_for_family(lower.as_str(), thinking_enabled)
    }

    /// Whether responses can be streamed: they can.
    pub fn supports_streaming(&self) -> (r: bool)
        ensures
            r,
    {
        true
    }

    /// Whether tools can be offered: they can.
    pub fn supports_tools(&self) -> (r: bool)
        ensures
            r,
    {
        true
    }

    /// Whether images can be sent: they cannot.
    pub fn supports_vision(&self) -> (r: bool)
        ensures
            !r,
    {
        false
    }

    /// The provider's name.
    pub fn name(&self) -> (r: &'static str)
        ensures
            r@ == "qwen"@,
    {
        "qwen"
    }

    /// The model used when a request names none.
    pub fn default_model(&self) -> (r: &str)
        ensures
            r@ == (match self.custom_default_model {
                Some(m) => m@,
                None => "qwen3-8b"@,
            }),
    {
        match &self.custom_default_model {
            Some(m) => m.as_str(),
            None => "qwen3-8b",
        }
    }

    /// The models that are listed.
    pub fn supported_models(&self) -> (r: Vec<String>)
        ensures
            text::texts(r@) == listed_models(),
    {
        let r: Vec<String> = vec![
            "qwen3-coder-next".to_string(),
            "qwen3.6-27b".to_string(),
            "qwen3-235b-a22b".to_string(),
            "qwen3-32b".to_string(),
            "qwen3-14b".to_string(),
            "qwen3-8b".to_string(),
            "qwen2.5-coder-32b-instruct".to_string(),
            "qwen2.5-coder-14b-instruct".to_string(),
            "qwen2.5-coder-7b-instruct".to_string(),
            "qwen2.5-72b-instruct".to_string(),
            "qwen2.5-32b-instruct".to_string(),
            "qwen2.5-14b-instruct".to_string(),
            "qwen2.5-7b-instruct".to_string(),
            "qwen-max".to_string(),
            "qwen-plus".to_string(),
            "qwen-turbo".to_string(),
        ];
        assert(text::texts(r@) =~= listed_models());
        r
    }

    /// Whether `model` can be asked for: any by a local deployment, elsewhere
    /// those listed and those whose name begins with `qwen`.
    pub fn validate_model(&self, model: &str) -> (r: bool)
        ensures
            r == (self.local_deployment() || listed_models().contains(model@) || text::begins_with(
                model@,
                "qwen"@,
            )),
            r == self.takes_model(model@),
    {
        if self.is_local() {
            return true;
        }
        let models = self.supported_models();
        calls::is_known(&models, model) || text::starts_with(model, "qwen")
    }

    /// The context window of `model`, in tokens. For a model that is not listed
    /// it is 8192 on a local deployment and 32768 elsewhere.
    pub fn context_window(&self, model: &str) -> (r: Option<u32>)
        ensures
            r == (match listed_window(model@) {
                Some(n) => Some(n),
                None => Some(
                    if self.local_deployment() {
                        8_192u32
                    } else {
                        32_768u32
                    },
                ),
            }),
            r == Some(self.window_of(model@)),
    {
        if text::same(model, "qwen3-coder-next") || text::same(model, "qwen3.6-27b") {
            return Some(262_144);
        }
        if text::same(model, "qwen-max") {
            return Some(32_768);
        }
        let models = self.supported_models();
        if calls::is_known(&models, model) {
            return Some(131_072);
        }
        if self.is_local() {
            Some(8_192)
        } else {
            Some(32_768)
        }
    }

    /// What a million tokens of input and of output cost, in tenths of a
    /// dollar. A local deployment costs nothing, and neither does a model whose
    /// price is not known.
    pub fn price(&self, model: &str) -> (r: Option<(u32, u32)>)
        ensures
            r == (if self.local_deployment() {
                None
            } else {
                listed_price(model@)
            }),
            r == self.price_of(model@),
    {
        if self.is_local() {
            return None;
        }
        if text::same(model, "qwen-max") {
            Some((24, 96))
        } else if text::same(model, "qwen-plus") {
            Some((8, 20))
        } else if text::same(model, "qwen-turbo") {
            Some((3, 6))
        } else {
            None
        }
    }
}

} // verus!
