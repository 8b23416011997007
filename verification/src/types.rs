//! Requests, responses and stream events that every provider speaks in.

use serde_json::Value;
use crate::text;
use vstd::prelude::*;

verus! {

/// A single-precision floating-point number, kept as its IEEE 754 bit pattern.
/// The library passes such numbers on and never computes with them.
#[derive(Clone, Copy, PartialEq, Eq, Structural, Debug)]
pub struct Float32 {
    pub bits: u32,
}

/// A double-precision floating-point number, kept as its IEEE 754 bit pattern.
#[derive(Clone, Copy, PartialEq, Eq, Structural, Debug)]
pub struct Float64 {
    pub bits: u64,
}

/// Who a message comes from.
#[derive(Clone, Copy, PartialEq, Eq, Structural, Debug)]
pub enum Role {
    System,
    User,
    Assistant,
}

/// One piece of a message.
#[derive(Debug)]
pub enum ContentBlock {
    Text { text: String },
    Image { media_type: String, data: String },
    ToolUse { id: String, name: String, input: Value },
    ToolResult { tool_use_id: String, content: String, is_error: Option<bool> },
    Thinking { thinking: String },
}

/// What a [`ContentBlock`] holds.
pub enum BlockView {
    Text { text: Seq<char> },
    Image { media_type: Seq<char>, data: Seq<char> },
    ToolUse { id: Seq<char>, name: Seq<char>, input: Value },
    ToolResult { tool_use_id: Seq<char>, content: Seq<char>, is_error: Option<bool> },
    Thinking { thinking: Seq<char> },
}

impl View for ContentBlock {
    type V = BlockView;

    open spec fn view(&self) -> BlockView {
        match *self {
            ContentBlock::Text { text } => BlockView::Text { text: text@ },
            ContentBlock::Image { media_type, data } => BlockView::Image {
                media_type: media_type@,
                data: data@,
            },
            ContentBlock::ToolUse { id, name, input } => BlockView::ToolUse {
                id: id@,
                name: name@,
                input,
            },
            ContentBlock::ToolResult { tool_use_id, content, is_error } => BlockView::ToolResult {
                tool_use_id: tool_use_id@,
                content: content@,
                is_error,
            },
            ContentBlock::Thinking { thinking } => BlockView::Thinking { thinking: thinking@ },
        }
    }
}

impl Clone for ContentBlock {
    fn clone(&self) -> (r: Self)
        ensures
            r@ == self@,
    {
        match self {
            ContentBlock::Text { text } => ContentBlock::Text { text: text.clone() },
            ContentBlock::Image { media_type, data } => ContentBlock::Image {
                media_type: media_type.clone(),
                data: data.clone(),
            },
            ContentBlock::ToolUse { id, name, input } => ContentBlock::ToolUse {
                id: id.clone(),
                name: name.clone(),
                input: input.clone(),
            },
            ContentBlock::ToolResult { tool_use_id, content, is_error } => ContentBlock::ToolResult {
                tool_use_id: tool_use_id.clone(),
                content: content.clone(),
                is_error: *is_error,
            },
            ContentBlock::Thinking { thinking } => ContentBlock::Thinking {
                thinking: thinking.clone(),
            },
        }
    }
}

/// What the blocks of a list hold.
pub open spec fn block_views(blocks: Seq<ContentBlock>) -> Seq<BlockView> {
    Seq::new(blocks.len(), |i: int| blocks[i]@)
}

/// One message of a conversation.
#[derive(Clone, Debug)]
pub struct Message {
    pub role: Role,
    pub content: Vec<ContentBlock>,
}

/// A tool offered to a model.
#[derive(Clone, Debug)]
pub struct Tool {
    pub name: String,
    pub description: String,
    pub input_schema: Value,
}

/// A request to a provider.
#[derive(Clone, Debug)]
pub struct LLMRequest {
    pub model: String,
    pub messages: Vec<Message>,
    pub system: Option<String>,
    pub tools: Option<Vec<Tool>>,
    pub max_tokens: Option<u32>,
    pub temperature: Option<Float32>,
    pub top_p: Option<Float32>,
    pub seed: Option<i64>,
    pub frequency_penalty: Option<Float32>,
    pub presence_penalty: Option<Float32>,
    pub stop: Option<Vec<String>>,
    pub stream: bool,
}

/// The names of the tools that are offered.
pub open spec fn offered(tools: Option<Vec<Tool>>) -> Seq<Seq<char>> {
    match tools {
        Some(t) => Seq::new(t@.len(), |i: int| t@[i].name@),
        None => Seq::empty(),
    }
}

impl LLMRequest {
    /// The names of the tools that the request offers.
    pub fn tool_names(&self) -> (r: Vec<String>)
        ensures
            text::texts(r@) == offered(self.tools),
    {
        let mut out: Vec<String> = Vec::new();
        assert(text::texts(out@) =~= Seq::empty());
        if let Some(tools) = &self.tools {
            let mut i: usize = 0;
            while i < tools.len()
                invariant
                    i <= tools@.len(),
                    text::texts(out@) == Seq::new(i as nat, |k: int| tools@[k].name@),
                decreases tools@.len() - i,
            {
                let ghost before = text::texts(out@);
                out.push(tools[i].name.clone());
                assert(text::texts(out@) =~= before.push(tools@[i as int].name@));
                i = i + 1;
                assert(text::texts(out@) =~= Seq::new(i as nat, |k: int| tools@[k].name@));
            }
        }
        out
    }

    /// A request for `model` with `messages` and nothing else set.
    pub fn new(model: &str, messages: Vec<Message>) -> (r: Self)
        ensures
            r.model@ == model@,
            r.messages == messages,
            r.system is None,
            r.tools is None,
            r.max_tokens is None,
            r.temperature is None,
            r.top_p is None,
            r.seed is None,
            r.frequency_penalty is None,
            r.presence_penalty is None,
            r.stop is None,
            !r.stream,
    {
        LLMRequest {
            model: model.to_string(),
            messages,
            system: None,
            tools: None,
            max_tokens: None,
            temperature: None,
            top_p: None,
            seed: None,
            frequency_penalty: None,
            presence_penalty: None,
            stop: None,
            stream: false,
        }
    }
}

/// Why a model stopped.
#[derive(Clone, Copy, PartialEq, Eq, Structural, Debug)]
pub enum StopReason {
    EndTurn,
    MaxTokens,
    StopSequence,
    ToolUse,
}

/// Tokens that a request took.
#[derive(Clone, Copy, PartialEq, Eq, Structural, Debug)]
pub struct TokenUsage {
    pub input_tokens: u32,
    pub output_tokens: u32,
}

/// Tokens that a provider kept in its prompt cache.
#[derive(Clone, Copy, PartialEq, Eq, Structural, Debug)]
pub struct CacheMetrics {
    pub cache_creation_tokens: u32,
    pub cache_read_tokens: u32,
}

/// Where the time of a request went.
#[derive(Clone, Copy, PartialEq, Eq, Structural, Debug)]
pub struct PerfMetrics {
    pub load_duration_ms: Option<u64>,
    pub prompt_eval_duration_ms: Option<u64>,
    pub eval_duration_ms: Option<u64>,
    pub total_duration_ms: Option<u64>,
    pub model_was_loaded: Option<bool>,
}

/// A complete response.
#[derive(Clone, Debug)]
pub struct LLMResponse {
    pub id: String,
    pub model: String,
    pub content: Vec<ContentBlock>,
    pub stop_reason: Option<StopReason>,
    pub usage: TokenUsage,
    pub cache_metrics: Option<CacheMetrics>,
    pub perf_metrics: Option<PerfMetrics>,
}

/// The head of a streamed message.
#[derive(Clone, Debug)]
pub struct StreamMessage {
    pub id: String,
    pub model: String,
    pub role: Role,
    pub usage: TokenUsage,
}

/// A piece added to a streamed block.
#[derive(Clone, Debug)]
pub enum ContentDelta {
    TextDelta { text: String },
    ThinkingDelta { thinking: String },
}

/// What changes of a message when it ends.
#[derive(Clone, Debug)]
pub struct MessageDelta {
    pub stop_reason: Option<StopReason>,
    pub stop_sequence: Option<String>,
}

/// One event of a streamed response.
#[derive(Clone, Debug)]
pub enum StreamEvent {
    MessageStart { message: StreamMessage },
    ContentBlockStart { index: usize, content_block: ContentBlock },
    ContentBlockDelta { index: usize, delta: ContentDelta },
    ContentBlockStop { index: usize },
    MessageDelta { delta: MessageDelta, usage: TokenUsage, perf_metrics: Option<PerfMetrics> },
    MessageStop,
}

/// What a [`StreamEvent`] holds.
pub enum EventView {
    MessageStart { id: Seq<char>, model: Seq<char>, role: Role, usage: TokenUsage },
    BlockStart { index: nat, block: BlockView },
    TextDelta { index: nat, text: Seq<char> },
    ThinkingDelta { index: nat, thinking: Seq<char> },
    BlockStop { index: nat },
    MessageDelta {
        stop_reason: Option<StopReason>,
        stop_sequence: Option<Seq<char>>,
        usage: TokenUsage,
        perf_metrics: Option<PerfMetrics>,
    },
    MessageStop,
}

/// The text of an optional string.
pub open spec fn opt_text(s: Option<String>) -> Option<Seq<char>> {
    match s {
        Some(s) => Some(s@),
        None => None,
    }
}

impl View for StreamEvent {
    type V = EventView;

    open spec fn view(&self) -> EventView {
        match *self {
            StreamEvent::MessageStart { message } => EventView::MessageStart {
                id: message.id@,
                model: message.model@,
                role: message.role,
                usage: message.usage,
            },
            StreamEvent::ContentBlockStart { index, content_block } => EventView::BlockStart {
                index: index as nat,
                block: content_block@,
            },
            StreamEvent::ContentBlockDelta { index, delta } => match delta {
                ContentDelta::TextDelta { text } => EventView::TextDelta {
                    index: index as nat,
                    text: text@,
                },
                ContentDelta::ThinkingDelta { thinking } => EventView::ThinkingDelta {
                    index: index as nat,
                    thinking: thinking@,
                },
            },
            StreamEvent::ContentBlockStop { index } => EventView::BlockStop { index: index as nat },
            StreamEvent::MessageDelta { delta, usage, perf_metrics } => EventView::MessageDelta {
                stop_reason: delta.stop_reason,
                stop_sequence: opt_text(delta.stop_sequence),
                usage,
                perf_metrics,
            },
            StreamEvent::MessageStop => EventView::MessageStop,
        }
    }
}

/// What the events of a list hold.
pub open spec fn event_views(events: Seq<StreamEvent>) -> Seq<EventView> {
    Seq::new(events.len(), |i: int| events[i]@)
}

/// Why a provider could not answer.
#[derive(Clone, Debug)]
pub enum ProviderError {
    InvalidApiKey,
    InvalidRequest(String),
    ModelNotFound(String),
    ContextLengthExceeded(u32),
    RateLimitExceeded(String),
    ApiError { status: u16, message: String, error_type: Option<String> },
    StreamError(String),
    Internal(String),
}

/// What a [`ProviderError`] holds.
pub enum ErrorView {
    InvalidApiKey,
    InvalidRequest(Seq<char>),
    ModelNotFound(Seq<char>),
    ContextLengthExceeded(u32),
    RateLimitExceeded(Seq<char>),
    ApiError { status: u16, message: Seq<char>, error_type: Option<Seq<char>> },
    StreamError(Seq<char>),
    Internal(Seq<char>),
}

impl View for ProviderError {
    type V = ErrorView;

    open spec fn view(&self) -> ErrorView {
        match *self {
            ProviderError::InvalidApiKey => ErrorView::InvalidApiKey,
            ProviderError::InvalidRequest(m) => ErrorView::InvalidRequest(m@),
            ProviderError::ModelNotFound(m) => ErrorView::ModelNotFound(m@),
            ProviderError::ContextLengthExceeded(n) => ErrorView::ContextLengthExceeded(n),
            ProviderError::RateLimitExceeded(m) => ErrorView::RateLimitExceeded(m@),
            ProviderError::ApiError { status, message, error_type } => ErrorView::ApiError {
                status,
                message: message@,
                error_type: opt_text(error_type),
            },
            ProviderError::StreamError(m) => ErrorView::StreamError(m@),
            ProviderError::Internal(m) => ErrorView::Internal(m@),
        }
    }
}

} // verus!
