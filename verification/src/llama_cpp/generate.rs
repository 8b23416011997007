//! From tokens to an answer, token by token.
//!
//! The model is sampled outside of the library. Each function here takes what
//! came of one step and says what to do next.

use crate::ids;
use crate::llama_cpp::decode;
use crate::llama_cpp::sampling;
use crate::llama_cpp::sampling::{SamplerSetup, SamplerStage};
use crate::text;
use crate::types;
use crate::types::{
    BlockView, ContentBlock, ContentDelta, EventView, LLMRequest, LLMResponse, MessageDelta,
    PerfMetrics, ProviderError, Role, StopReason, StreamEvent, StreamMessage, TokenUsage,
};
use serde_json::Value;
use vstd::prelude::*;
use vstd::string::*;

verus! {

/// How many tokens are generated where a request sets no limit.
pub const DEFAULT_MAX_TOKENS: u32 = 2_048;

/// How far a generation may go.
#[derive(Clone, Copy, PartialEq, Eq, Structural, Debug)]
pub struct GenerationPlan {
    pub max_tokens: u32,
    pub prompt_tokens: u32,
}

/// How many tokens may be generated where `requested` are asked for, behind a
/// prompt of `prompt_tokens` tokens in a window of `n_ctx`.
pub open spec fn token_limit(prompt_tokens: u32, n_ctx: u32, requested: Option<u32>) -> int {
    let wanted = match requested {
        Some(n) => n as int,
        None => DEFAULT_MAX_TOKENS as int,
    };
    if wanted <= n_ctx - prompt_tokens {
        wanted
    } else {
        n_ctx - prompt_tokens
    }
}

/// What is generated stays within the window and within what is asked for, and is
/// no less than both allow. Where nothing is asked for, 2048 tokens are.
pub proof fn as_much_as_fits_is_generated(prompt_tokens: u32, n_ctx: u32, wanted: u32)
    requires
        prompt_tokens < n_ctx,
    ensures
        0 <= token_limit(prompt_tokens, n_ctx, Some(wanted)) <= wanted,
        prompt_tokens + token_limit(prompt_tokens, n_ctx, Some(wanted)) <= n_ctx,
        token_limit(prompt_tokens, n_ctx, Some(wanted)) == wanted || prompt_tokens + token_limit(
            prompt_tokens,
            n_ctx,
            Some(wanted),
        ) == n_ctx,
        token_limit(prompt_tokens, n_ctx, None) == token_limit(prompt_tokens, n_ctx, Some(2_048)),
{
}

/// The limits for a prompt of `prompt_tokens` tokens in a window of `n_ctx`. A
/// prompt that leaves no room in the window is refused.
pub fn plan_generation(prompt_tokens: u32, n_ctx: u32, requested: Option<u32>) -> (r: Result<
    GenerationPlan,
    ProviderError,
>)
    ensures
        match r {
            Ok(p) => prompt_tokens < n_ctx && p.prompt_tokens == prompt_tokens && p.max_tokens == ({
                let wanted = match requested {
                    Some(n) => n as int,
                    None => DEFAULT_MAX_TOKENS as int,
                };
                if wanted <= n_ctx - prompt_tokens {
                    wanted
                } else {
                    n_ctx - prompt_tokens
                }
            }) && p.prompt_tokens + p.max_tokens <= n_ctx && p.max_tokens == token_limit(
                prompt_tokens,
                n_ctx,
                requested,
            ),
            Err(e) => prompt_tokens >= n_ctx && e@ == types::ErrorView::ContextLengthExceeded(
                prompt_tokens,
            ),
        },
{
    if prompt_tokens >= n_ctx {
        return Err(ProviderError::ContextLengthExceeded(prompt_tokens));
    }
    let wanted: u32 = match requested {
        Some(n) => n,
        None => DEFAULT_MAX_TOKENS,
    };
    let room: u32 = n_ctx - prompt_tokens;
    let max_tokens: u32 = if wanted <= room {
        wanted
    } else {
        room
    };
    Ok(GenerationPlan { max_tokens, prompt_tokens })
}

/// A step of a generation that can fail.
#[derive(Clone, Copy, PartialEq, Eq, Structural, Debug)]
pub enum GenerationStage {
    Tokenize,
    PromptBatch,
    Prefill,
    ExtendBatch,
    Decode,
}

/// What is said of a step that failed.
pub open spec fn failure(stage: GenerationStage, detail: Seq<char>) -> types::ErrorView {
    match stage {
        GenerationStage::Tokenize => types::ErrorView::InvalidRequest(
            "failed to tokenize prompt: "@ + detail,
        ),
        GenerationStage::PromptBatch => types::ErrorView::InvalidRequest(
            "failed to build prompt batch: "@ + detail,
        ),
        GenerationStage::Prefill => types::ErrorView::Internal("prefill decode failed: "@ + detail),
        GenerationStage::ExtendBatch => types::ErrorView::Internal(
            "failed to extend batch: "@ + detail,
        ),
        GenerationStage::Decode => types::ErrorView::Internal("decode failed: "@ + detail),
    }
}

/// The error for a step that failed.
pub fn generation_error(stage: GenerationStage, detail: &str) -> (r: ProviderError)
    ensures
        r@ == failure(stage, detail@),
{
    let mut message = match stage {
        GenerationStage::Tokenize => "failed to tokenize prompt: ".to_string(),
        GenerationStage::PromptBatch => "failed to build prompt batch: ".to_string(),
        GenerationStage::Prefill => "prefill decode failed: ".to_string(),
        GenerationStage::ExtendBatch => "failed to extend batch: ".to_string(),
        GenerationStage::Decode => "decode failed: ".to_string(),
    };
    message.append(detail);
    match stage {
        GenerationStage::Tokenize | GenerationStage::PromptBatch => ProviderError::InvalidRequest(
            message,
        ),
        _ => ProviderError::Internal(message),
    }
}

/// What to do next.
#[derive(Clone, Copy, PartialEq, Eq, Structural, Debug)]
pub enum NextStep {
    /// Sample the next token.
    Sample,
    /// Say whether the text is, or may become, a tool call.
    Classify,
    /// Decode the token that was sampled, at this position.
    Decode(i32),
    /// Nothing more is generated.
    Finish,
}

/// Whether `t` ends with one of the stop sequences.
pub open spec fn at_stop(t: Seq<char>, stop: Seq<String>) -> bool {
    exists|i: int| 0 <= i < stop.len() && text::finishes_with(t, (#[trigger] stop[i])@)
}

fn hits_stop(t: &str, stop: &Vec<String>) -> (r: bool)
    ensures
        r == at_stop(t@, stop@),
{
    let mut i: usize = 0;
    while i < stop.len()
        invariant
            i <= stop@.len(),
            forall|k: int| 0 <= k < i ==> !text::finishes_with(t@, (#[trigger] stop@[k])@),
        decreases stop@.len() - i,
    {
        if text::ends_with(t, stop[i].as_str()) {
            return true;
        }
        i = i + 1;
    }
    false
}

/// What a generation is asked for.
#[derive(Debug)]
pub struct Job {
    /// The stop sequences.
    pub stop: Vec<String>,
    /// Whether tools are offered.
    pub has_tools: bool,
    /// Whether a sampler that only writes valid tool calls can take over.
    pub swap_possible: bool,
    pub plan: GenerationPlan,
}

impl Job {
    /// The positions of all tokens fit, and a sampler for tool calls is only
    /// there for tools.
    pub open spec fn wf(&self) -> bool {
        self.plan.prompt_tokens + self.plan.max_tokens <= i32::MAX && (self.swap_possible
            ==> self.has_tools)
    }

    /// The job for `request`.
    pub fn new(request: &LLMRequest, grammar_available: bool, plan: GenerationPlan) -> (r: Self)
        requires
            plan.prompt_tokens + plan.max_tokens <= i32::MAX,
        ensures
            r.wf(),
            r.plan == plan,
            r.has_tools == (match request.tools {
                Some(t) => t@.len() > 0,
                None => false,
            }),
            r.swap_possible == (r.has_tools && grammar_available),
            text::texts(r.stop@) == (match request.stop {
                Some(s) => text::texts(s@),
                None => Seq::empty(),
            }),
    {
        let has_tools = match &request.tools {
            Some(t) => t.len() > 0,
            None => false,
        };
        let mut stop: Vec<String> = Vec::new();
        assert(text::texts(stop@) =~= Seq::empty());
        if let Some(s) = &request.stop {
            let mut i: usize = 0;
            while i < s.len()
                invariant
                    i <= s@.len(),
                    stop@.len() == i,
                    forall|k: int| 0 <= k < i ==> (#[trigger] stop@[k])@ == s@[k]@,
                decreases s@.len() - i,
            {
                stop.push(s[i].clone());
                i = i + 1;
            }
            assert(text::texts(stop@) =~= text::texts(s@));
        }
        Job { stop, has_tools, swap_possible: has_tools && grammar_available, plan }
    }

    /// What follows a token, of which there are `count` now: nothing at the
    /// limit, and otherwise the token is decoded.
    pub open spec fn after(&self, count: u32) -> NextStep {
        if count >= self.plan.max_tokens {
            NextStep::Finish
        } else {
            NextStep::Decode((self.plan.prompt_tokens + count - 1) as i32)
        }
    }

    fn next_after(&self, count: u32) -> (r: NextStep)
        requires
            self.wf(),
            0 < count,
        ensures
            r == self.after(count),
    {
        if count >= self.plan.max_tokens {
            NextStep::Finish
        } else {
            NextStep::Decode((self.plan.prompt_tokens + (count - 1)) as i32)
        }
    }

    /// What comes first: nothing, where nothing may be generated.
    pub fn first_step(&self) -> (r: NextStep)
        ensures
            r == (if self.plan.max_tokens == 0 {
                NextStep::Finish
            } else {
                NextStep::Sample
            }),
    {
        if self.plan.max_tokens == 0 {
            NextStep::Finish
        } else {
            NextStep::Sample
        }
    }
}

/// The bytes of a token, or none where the token has none.
pub open spec fn piece_bytes(piece: Option<Vec<u8>>) -> Seq<u8> {
    match piece {
        Some(p) => p@,
        None => Seq::empty(),
    }
}

fn append_piece(bytes: &mut Vec<u8>, piece: &Option<Vec<u8>>)
    ensures
        final(bytes)@ == old(bytes)@ + piece_bytes(*piece),
{
    match piece {
        Some(p) => {
            bytes.extend_from_slice(p.as_slice());
            assert(bytes@ =~= old(bytes)@ + p@);
        },
        None => {
            assert(bytes@ =~= old(bytes)@ + Seq::empty());
        },
    }
}

/// A generation whose answer is given in one piece.
#[derive(Debug)]
pub struct CompleteRun {
    pub bytes: Vec<u8>,
    pub tokens: Vec<i32>,
    pub count: u32,
    pub swap_tried: bool,
    pub stop_reason: StopReason,
}

/// What a [`CompleteRun`] holds.
pub struct RunView {
    pub bytes: Seq<u8>,
    pub tokens: Seq<i32>,
    pub count: u32,
    pub swap_tried: bool,
    pub stop_reason: StopReason,
}

impl View for CompleteRun {
    type V = RunView;

    open spec fn view(&self) -> RunView {
        RunView {
            bytes: self.bytes@,
            tokens: self.tokens@,
            count: self.count,
            swap_tried: self.swap_tried,
            stop_reason: self.stop_reason,
        }
    }
}

impl RunView {
    /// The generation, and what to do next, when a token came with these bytes.
    pub open spec fn with_token(self, job: Job, id: i32, ends: bool, piece: Seq<u8>) -> (
        RunView,
        NextStep,
    ) {
        if ends {
            (RunView { stop_reason: StopReason::EndTurn, ..self }, NextStep::Finish)
        } else {
            let live = job.swap_possible && !self.swap_tried;
            let next = RunView {
                bytes: self.bytes + piece,
                tokens: if live {
                    self.tokens.push(id)
                } else {
                    self.tokens
                },
                count: (self.count + 1) as u32,
                ..self
            };
            if at_stop(decode::utf8_lossy(next.bytes), job.stop@) {
                (RunView { stop_reason: StopReason::StopSequence, ..next }, NextStep::Finish)
            } else if live {
                (next, NextStep::Classify)
            } else {
                next.moved_on(job)
            }
        }
    }

    /// The generation, and what to do next, where nothing but its limit ends it.
    pub open spec fn moved_on(self, job: Job) -> (RunView, NextStep) {
        let step = job.after(self.count);
        (
            if step == NextStep::Finish {
                RunView { stop_reason: StopReason::MaxTokens, ..self }
            } else {
                self
            },
            step,
        )
    }

    /// The generation, and what to do next, when its text was found to commit to a
    /// tool call or not to.
    pub open spec fn classified(self, job: Job, commits: bool) -> (RunView, NextStep) {
        RunView {
            swap_tried: self.swap_tried || (job.swap_possible && commits),
            ..self
        }.moved_on(job)
    }
}

/// The blocks of a response with the text `text`. A tool call that the text was
/// found to be counts only where tools were offered.
pub open spec fn response_blocks(
    has_tools: bool,
    call: Option<(Seq<char>, Seq<char>, Value)>,
    text: Seq<char>,
) -> Seq<BlockView> {
    match call {
        Some((id, name, input)) if has_tools => seq![BlockView::ToolUse { id, name, input }],
        _ => if text.len() == 0 {
            Seq::empty()
        } else {
            seq![BlockView::Text { text }]
        },
    }
}

impl CompleteRun {
    /// A generation of no tokens.
    pub fn new() -> (r: Self)
        ensures
            r.bytes@ == Seq::<u8>::empty(),
            r.tokens@ == Seq::<i32>::empty(),
            r.count == 0,
            !r.swap_tried,
            r.stop_reason == StopReason::EndTurn,
    {
        CompleteRun {
            bytes: Vec::new(),
            tokens: Vec::new(),
            count: 0,
            swap_tried: false,
            stop_reason: StopReason::EndTurn,
        }
    }

    /// Whether a sampler for tool calls may still take over.
    pub open spec fn swap_live(&self, job: &Job) -> bool {
        job.swap_possible && !self.swap_tried
    }

    /// The text so far.
    pub open spec fn text(&self) -> Seq<char> {
        decode::utf8_lossy(self.bytes@)
    }

    /// Takes a token: its number, whether it ends the answer, and its bytes.
    pub fn on_token(&mut self, job: &Job, id: i32, ends: bool, piece: Option<Vec<u8>>) -> (r:
        NextStep)
        requires
            job.wf(),
            old(self).count < job.plan.max_tokens,
        ensures
            final(self).swap_tried == old(self).swap_tried,
            ends ==> r == NextStep::Finish && final(self).stop_reason == StopReason::EndTurn
                && final(self).bytes@ == old(self).bytes@ && final(self).tokens@ == old(self).tokens@
                && final(self).count == old(self).count,
            !ends ==> {
                let at_end = at_stop(final(self).text(), job.stop@);
                let live = old(self).swap_live(job);
                &&& final(self).bytes@ == old(self).bytes@ + piece_bytes(piece)
                &&& final(self).count == old(self).count + 1
                &&& final(self).tokens@ == (if live {
                    old(self).tokens@.push(id)
                } else {
                    old(self).tokens@
                })
                &&& r == (if at_end {
                    NextStep::Finish
                } else if live {
                    NextStep::Classify
                } else {
                    job.after(final(self).count)
                })
                &&& final(self).stop_reason == (if at_end {
                    StopReason::StopSequence
                } else if !live && r == NextStep::Finish {
                    StopReason::MaxTokens
                } else {
                    old(self).stop_reason
                })
            },
            (final(self)@, r) == old(self)@.with_token(*job, id, ends, piece_bytes(piece)),
    {
        if ends {
            self.stop_reason = StopReason::EndTurn;
            return NextStep::Finish;
        }
        let live = job.swap_possible && !self.swap_tried;
        append_piece(&mut self.bytes, &piece);
        if live {
            self.tokens.push(id);
        }
        self.count = self.count + 1;
        if job.stop.len() > 0 {
            let so_far = decode::lossy_text(&self.bytes);
            if hits_stop(so_far.as_str(), &job.stop) {
                self.stop_reason = StopReason::StopSequence;
                return NextStep::Finish;
            }
        }
        if live {
            return NextStep::Classify;
        }
        let next = job.next_after(self.count);
        if next == NextStep::Finish {
            self.stop_reason = StopReason::MaxTokens;
        }
        next
    }

    /// Takes whether the text so far commits to a call of an offered tool. If it
    /// does, a sampler for tool calls takes over now, where there is a grammar for
    /// the tools, and is not tried again. The result says whether it took over.
    pub fn on_classified(
        &mut self,
        job: &Job,
        commits: bool,
        setup: &SamplerSetup,
        request: &LLMRequest,
        grammar_available: bool,
        sampler: &mut Vec<SamplerStage>,
    ) -> (r: (bool, NextStep))
        requires
            job.wf(),
            0 < old(self).count,
        ensures
            r.0 == (old(self).swap_live(job) && commits && grammar_available),
            r.0 ==> sampling::is_chain(
                final(sampler)@,
                setup.n_vocab,
                setup.defaults,
                *request,
                setup.seed,
                (old(self).tokens@.len() % 0x1_0000_0000) as u32,
                true,
            ),
            !r.0 ==> *final(sampler) == *old(sampler),
            r.1 == job.after(old(self).count),
            final(self).swap_tried == (old(self).swap_tried || (job.swap_possible && commits)),
            final(self).bytes@ == old(self).bytes@,
            final(self).tokens@ == old(self).tokens@,
            final(self).count == old(self).count,
            final(self).stop_reason == (if r.1 == NextStep::Finish {
                StopReason::MaxTokens
            } else {
                old(self).stop_reason
            }),
            (final(self)@, r.1) == old(self)@.classified(*job, commits),
    {
        let swapped = sampling::maybe_swap_to_constrained_sampler(
            setup,
            request,
            commits,
            job.swap_possible,
            &mut self.swap_tried,
            grammar_available,
            self.tokens.as_slice(),
            sampler,
        );
        let next = job.next_after(self.count);
        if next == NextStep::Finish {
            self.stop_reason = StopReason::MaxTokens;
        }
        (swapped, next)
    }

    /// The text so far.
    pub fn text_so_far(&self) -> (r: String)
        ensures
            r@ == self.text(),
    {
        decode::lossy_text(&self.bytes)
    }

    /// The response. `recovered` is the tool call that the text was found to
    /// be; it counts only where tools were offered.
    pub fn finish_with(
        self,
        job: &Job,
        recovered: Option<(String, Value)>,
        model: &str,
        response_uuid: &str,
        call_uuid: &str,
        metrics: PerfMetrics,
    ) -> (r: LLMResponse)
        ensures
            r.id@ == "llama-cpp-"@ + response_uuid@,
            r.model@ == model@,
            types::block_views(r.content@) == (match recovered {
                Some(c) if job.has_tools => seq![
                    BlockView::ToolUse { id: call_uuid@, name: c.0@, input: c.1 },
                ],
                _ => if self.text().len() == 0 {
                    Seq::empty()
                } else {
                    seq![BlockView::Text { text: self.text() }]
                },
            }),
            types::block_views(r.content@) == response_blocks(
                job.has_tools,
                match recovered {
                    Some(c) => Some((call_uuid@, c.0@, c.1)),
                    None => None,
                },
                self.text(),
            ),
            r.stop_reason == (match recovered {
                Some(_) if job.has_tools => Some(StopReason::ToolUse),
                _ => Some(self.stop_reason),
            }),
            r.stop_reason == Some(StopReason::ToolUse) || r.stop_reason == Some(self.stop_reason),
            r.content@.len() > 0 && r.content@[0]@ is ToolUse ==> r.stop_reason == Some(
                StopReason::ToolUse,
            ),
            r.usage == (TokenUsage {
                input_tokens: job.plan.prompt_tokens,
                output_tokens: self.count,
            }),
            r.cache_metrics is None,
            r.perf_metrics == Some(metrics),
    {
        let text = decode::lossy_text(&self.bytes);
        let mut id = "llama-cpp-".to_string();
        id.append(response_uuid);
        let mut content: Vec<ContentBlock> = Vec::new();
        let mut stop_reason = self.stop_reason;
        assert(types::block_views(content@) =~= Seq::empty());
        let call = if job.has_tools {
            recovered
        } else {
            None
        };
        match call {
            Some((name, input)) => {
                content.push(ContentBlock::ToolUse { id: call_uuid.to_string(), name, input });
                stop_reason = StopReason::ToolUse;
                assert(types::block_views(content@) =~= seq![
                    BlockView::ToolUse { id: call_uuid@, name: name@, input },
                ]);
            },
            None => {
                if !text.as_str().is_empty() {
                    content.push(ContentBlock::Text { text });
                    assert(types::block_views(content@) =~= seq![
                        BlockView::Text { text: self.text() },
                    ]);
                }
            },
        }
        LLMResponse {
            id,
            model: model.to_string(),
            content,
            stop_reason: Some(stop_reason),
            usage: TokenUsage {
                input_tokens: job.plan.prompt_tokens,
                output_tokens: self.count,
            },
            cache_metrics: None,
            perf_metrics: Some(metrics),
        }
    }

    /// The response, under fresh identifiers.
    pub fn finish(
        self,
        job: &Job,
        recovered: Option<(String, Value)>,
        model: &str,
        metrics: PerfMetrics,
    ) -> (r: LLMResponse)
        ensures
            exists|u: Seq<char>| ids::is_uuid(u) && r.id@ == #[trigger] ("llama-cpp-"@ + u),
            r.model@ == model@,
            match recovered {
                Some(c) if job.has_tools => exists|u: Seq<char>| #[trigger]
                    ids::is_uuid(u) && types::block_views(r.content@) == seq![
                        BlockView::ToolUse { id: u, name: c.0@, input: c.1 },
                    ],
                _ => types::block_views(r.content@) == (if self.text().len() == 0 {
                    Seq::empty()
                } else {
                    seq![BlockView::Text { text: self.text() }]
                }),
            },
            r.stop_reason == (match recovered {
                Some(_) if job.has_tools => Some(StopReason::ToolUse),
                _ => Some(self.stop_reason),
            }),
            r.usage == (TokenUsage {
                input_tokens: job.plan.prompt_tokens,
                output_tokens: self.count,
            }),
            r.cache_metrics is None,
            r.perf_metrics == Some(metrics),
    {
        let response_uuid = ids::new_uuid_text();
        let call_uuid = ids::new_uuid_text();
        self.finish_with(
            job,
            recovered,
            model,
            response_uuid.as_str(),
            call_uuid.as_str(),
            metrics,
        )
    }
}

/// A generation whose answer is given piece by piece.
#[derive(Debug)]
pub struct StreamRun {
    /// Bytes that are not a complete character yet.
    pub pending_utf8: Vec<u8>,
    /// The whole text so far.
    pub full_text: String,
    /// The end of it that was not given out yet, as it may be a tool call.
    pub withheld: String,
    /// Whether the text block has begun.
    pub started: bool,
    pub tokens: Vec<i32>,
    pub count: u32,
    pub swap_tried: bool,
    pub stop_reason: StopReason,
}

/// The events that give out `t` in the text block, which they begin if need be.
pub open spec fn flush_events(started: bool, t: Seq<char>) -> Seq<EventView> {
    let delta = EventView::TextDelta { index: 0, text: t };
    if started {
        seq![delta]
    } else {
        seq![
            EventView::BlockStart { index: 0, block: BlockView::Text { text: Seq::empty() } },
            delta,
        ]
    }
}

/// What a [`StreamRun`] holds.
pub struct StreamView {
    pub pending: Seq<u8>,
    pub full: Seq<char>,
    pub withheld: Seq<char>,
    pub started: bool,
    pub tokens: Seq<i32>,
    pub count: u32,
    pub swap_tried: bool,
    pub stop_reason: StopReason,
}

impl View for StreamRun {
    type V = StreamView;

    open spec fn view(&self) -> StreamView {
        StreamView {
            pending: self.pending_utf8@,
            full: self.full_text@,
            withheld: self.withheld@,
            started: self.started,
            tokens: self.tokens@,
            count: self.count,
            swap_tried: self.swap_tried,
            stop_reason: self.stop_reason,
        }
    }
}

impl StreamView {
    /// The generation with a token taken in, before anything is given out.
    pub open spec fn taken_in(self, job: Job, id: i32, piece: Seq<u8>) -> StreamView {
        let bytes = self.pending + piece;
        let n = decode::valid_len(bytes);
        let fresh = if n > 0 {
            vstd::utf8::decode_utf8(bytes.take(n))
        } else {
            Seq::empty()
        };
        StreamView {
            pending: bytes.skip(n),
            full: self.full + fresh,
            withheld: self.withheld + fresh,
            tokens: if job.swap_possible && !self.swap_tried {
                self.tokens.push(id)
            } else {
                self.tokens
            },
            count: (self.count + 1) as u32,
            ..self
        }
    }

    /// The generation with all of its text given out.
    pub open spec fn flushed(self) -> StreamView {
        StreamView { withheld: Seq::empty(), started: true, ..self }
    }

    /// The generation, and what to do next: nothing at a stop sequence, and nothing
    /// at the limit.
    pub open spec fn moved_on(self, job: Job) -> (StreamView, NextStep) {
        if at_stop(self.full, job.stop@) {
            (StreamView { stop_reason: StopReason::StopSequence, ..self }, NextStep::Finish)
        } else if job.after(self.count) == NextStep::Finish {
            (StreamView { stop_reason: StopReason::MaxTokens, ..self }, NextStep::Finish)
        } else {
            (self, job.after(self.count))
        }
    }

    /// The generation, what is given out, and what to do next, when a token came
    /// with these bytes.
    pub open spec fn with_token(self, job: Job, id: i32, ends: bool, piece: Seq<u8>) -> (
        StreamView,
        Seq<EventView>,
        NextStep,
    ) {
        let next = self.taken_in(job, id, piece);
        let some = decode::valid_len(self.pending + piece) > 0;
        if ends {
            (
                StreamView { stop_reason: StopReason::EndTurn, ..self },
                Seq::empty(),
                NextStep::Finish,
            )
        } else if some && job.has_tools {
            (next, Seq::empty(), NextStep::Classify)
        } else if some {
            let (after, step) = next.flushed().moved_on(job);
            (after, flush_events(self.started, next.withheld), step)
        } else {
            let (after, step) = next.moved_on(job);
            (after, Seq::empty(), step)
        }
    }

    /// The generation, what is given out, and what to do next, when it was found
    /// whether its text may be a tool call, and whether it commits to one.
    pub open spec fn classified(self, job: Job, may_be_call: bool, commits: bool) -> (
        StreamView,
        Seq<EventView>,
        NextStep,
    ) {
        let tried = StreamView {
            swap_tried: self.swap_tried || (job.swap_possible && commits),
            ..self
        };
        if may_be_call {
            let (after, step) = tried.moved_on(job);
            (after, Seq::empty(), step)
        } else {
            let (after, step) = tried.flushed().moved_on(job);
            (after, flush_events(self.started, self.withheld), step)
        }
    }
}

/// The text that events give out.
pub open spec fn given_out(events: Seq<EventView>) -> Seq<char>
    decreases events.len(),
{
    if events.len() == 0 {
        Seq::empty()
    } else {
        let before = given_out(events.drop_last());
        match events.last() {
            EventView::TextDelta { text, .. } => before + text,
            _ => before,
        }
    }
}

proof fn lemma_given_out_push(events: Seq<EventView>, e: EventView)
    ensures
        given_out(events.push(e)) == (match e {
            EventView::TextDelta { text, .. } => given_out(events) + text,
            _ => given_out(events),
        }),
{
    assert(events.push(e).drop_last() =~= events);
}

proof fn lemma_flush_gives_out(started: bool, t: Seq<char>)
    ensures
        given_out(flush_events(started, t)) == t,
{
    let none = Seq::<EventView>::empty();
    let start = EventView::BlockStart { index: 0, block: BlockView::Text { text: Seq::empty() } };
    let delta = EventView::TextDelta { index: 0, text: t };
    if started {
        lemma_given_out_push(none, delta);
        assert(flush_events(started, t) =~= none.push(delta));
    } else {
        lemma_given_out_push(none, start);
        lemma_given_out_push(none.push(start), delta);
        assert(flush_events(started, t) =~= none.push(start).push(delta));
    }
    assert(Seq::<char>::empty() + t =~= t);
}

/// The events at the end of a stream.
pub open spec fn closing_events(
    started: bool,
    withheld: Seq<char>,
    call: Option<(Seq<char>, Seq<char>, Value)>,
    stop_reason: StopReason,
    usage: TokenUsage,
    metrics: PerfMetrics,
) -> Seq<EventView> {
    let flush = if call is None && withheld.len() > 0 {
        flush_events(started, withheld)
    } else {
        Seq::empty()
    };
    let begun = started || flush.len() > 0;
    let stop = if begun {
        seq![EventView::BlockStop { index: 0 }]
    } else {
        Seq::empty()
    };
    let index: nat = if begun {
        1
    } else {
        0
    };
    let tool = match call {
        Some((id, name, input)) => seq![
            EventView::BlockStart { index, block: BlockView::ToolUse { id, name, input } },
            EventView::BlockStop { index },
        ],
        None => Seq::empty(),
    };
    flush + stop + tool + seq![
        EventView::MessageDelta {
            stop_reason: Some(
                if call is Some {
                    StopReason::ToolUse
                } else {
                    stop_reason
                },
            ),
            stop_sequence: None,
            usage,
            perf_metrics: Some(metrics),
        },
        EventView::MessageStop,
    ]
}

/// The event that begins a stream.
pub fn message_start(message_uuid: &str, model: &str, plan: &GenerationPlan) -> (r: StreamEvent)
    ensures
        r@ == (EventView::MessageStart {
            id: "llama-cpp-"@ + message_uuid@,
            model: model@,
            role: Role::Assistant,
            usage: (TokenUsage { input_tokens: plan.prompt_tokens, output_tokens: 0 }),
        }),
{
    let mut id = "llama-cpp-".to_string();
    id.append(message_uuid);
    StreamEvent::MessageStart {
        message: StreamMessage {
            id,
            model: model.to_string(),
            role: Role::Assistant,
            usage: TokenUsage { input_tokens: plan.prompt_tokens, output_tokens: 0 },
        },
    }
}

/// The event that begins a stream, under a fresh identifier.
pub fn begin_stream(model: &str, plan: &GenerationPlan) -> (r: StreamEvent)
    ensures
        exists|u: Seq<char>| #[trigger]
            ids::is_uuid(u) && r@ == (EventView::MessageStart {
                id: "llama-cpp-"@ + u,
                model: model@,
                role: Role::Assistant,
                usage: (TokenUsage { input_tokens: plan.prompt_tokens, output_tokens: 0 }),
            }),
{
    let uuid = ids::new_uuid_text();
    message_start(uuid.as_str(), model, plan)
}

fn push_flush(events: &mut Vec<StreamEvent>, started: bool, t: String)
    ensures
        types::event_views(final(events)@) == types::event_views(old(events)@) + flush_events(
            started,
            t@,
        ),
{
    let ghost before = types::event_views(events@);
    if !started {
        let empty = String::new();
        assert(empty@ =~= Seq::empty());
        events.push(
            StreamEvent::ContentBlockStart {
                index: 0,
                content_block: ContentBlock::Text { text: empty },
            },
        );
    }
    events.push(
        StreamEvent::ContentBlockDelta { index: 0, delta: ContentDelta::TextDelta { text: t } },
    );
    assert(types::event_views(events@) =~= before + flush_events(started, t@));
}

impl StreamRun {
    /// A generation of no tokens.
    pub fn new() -> (r: Self)
        ensures
            r.wf(),
            r.pending_utf8@ == Seq::<u8>::empty(),
            r.full_text@ == Seq::<char>::empty(),
            r.withheld@ == Seq::<char>::empty(),
            !r.started,
            r.tokens@ == Seq::<i32>::empty(),
            r.count == 0,
            !r.swap_tried,
            r.stop_reason == StopReason::EndTurn,
    {
        let r = StreamRun {
            pending_utf8: Vec::new(),
            full_text: String::new(),
            withheld: String::new(),
            started: false,
            tokens: Vec::new(),
            count: 0,
            swap_tried: false,
            stop_reason: StopReason::EndTurn,
        };
        assert(r.full_text@ =~= r.given() + r.withheld@);
        r
    }

    /// What was given out so far: the text without what is withheld.
    pub open spec fn given(&self) -> Seq<char> {
        self.full_text@.take(self.full_text@.len() - self.withheld@.len())
    }

    /// What is withheld is the end of the text, and nothing was given out
    /// before the text block began.
    pub open spec fn wf(&self) -> bool {
        &&& self.withheld@.len() <= self.full_text@.len()
        &&& self.full_text@ == self.given() + self.withheld@
        &&& !self.started ==> self.given().len() == 0
    }

    /// Whether a sampler for tool calls may still take over.
    pub open spec fn swap_live(&self, job: &Job) -> bool {
        job.swap_possible && !self.swap_tried
    }

    /// What follows a token.
    pub open spec fn after(&self, job: &Job) -> NextStep {
        if at_stop(self.full_text@, job.stop@) {
            NextStep::Finish
        } else {
            job.after(self.count)
        }
    }

    /// Why the generation stops where it does.
    pub open spec fn reason_after(&self, job: &Job, before: StopReason) -> StopReason {
        if at_stop(self.full_text@, job.stop@) {
            StopReason::StopSequence
        } else if job.after(self.count) == NextStep::Finish {
            StopReason::MaxTokens
        } else {
            before
        }
    }

    /// Sets the reason to stop, if there is one, and says what follows.
    fn step(&mut self, job: &Job) -> (r: NextStep)
        requires
            job.wf(),
            0 < old(self).count,
        ensures
            r == old(self).after(job),
            final(self).stop_reason == old(self).reason_after(job, old(self).stop_reason),
            final(self).pending_utf8 == old(self).pending_utf8,
            final(self).full_text == old(self).full_text,
            final(self).withheld == old(self).withheld,
            final(self).started == old(self).started,
            final(self).tokens == old(self).tokens,
            final(self).count == old(self).count,
            final(self).swap_tried == old(self).swap_tried,
    {
        if hits_stop(self.full_text.as_str(), &job.stop) {
            self.stop_reason = StopReason::StopSequence;
            return NextStep::Finish;
        }
        let next = job.next_after(self.count);
        if next == NextStep::Finish {
            self.stop_reason = StopReason::MaxTokens;
        }
        next
    }

    /// Gives out what is withheld.
    fn flush(&mut self, events: &mut Vec<StreamEvent>)
        requires
            old(self).wf(),
        ensures
            final(self).wf(),
            types::event_views(final(events)@) == types::event_views(old(events)@) + flush_events(
                old(self).started,
                old(self).withheld@,
            ),
            final(self).withheld@ == Seq::<char>::empty(),
            final(self).started,
            final(self).given() == old(self).full_text@,
            final(self).pending_utf8 == old(self).pending_utf8,
            final(self).full_text == old(self).full_text,
            final(self).tokens == old(self).tokens,
            final(self).count == old(self).count,
            final(self).swap_tried == old(self).swap_tried,
            final(self).stop_reason == old(self).stop_reason,
    {
        let held = self.withheld.clone();
        push_flush(events, self.started, held);
        self.started = true;
        self.withheld = String::new();
        proof {
            assert(self.withheld@ =~= Seq::empty());
            assert(self.given() =~= self.full_text@);
            assert(self.full_text@ =~= self.given() + self.withheld@);
        }
    }

    /// The bytes that a token makes complete.
    pub open spec fn fresh(&self, piece: Option<Vec<u8>>) -> Seq<char> {
        let bytes = self.pending_utf8@ + piece_bytes(piece);
        vstd::utf8::decode_utf8(bytes.take(decode::valid_len(bytes)))
    }

    /// Whether a token completes a character.
    pub open spec fn completes(&self, piece: Option<Vec<u8>>) -> bool {
        decode::valid_len(self.pending_utf8@ + piece_bytes(piece)) > 0
    }

    /// Takes a token: its number, whether it ends the answer, and its bytes.
    ///
    /// Text that it completes is given out at once where no tools are offered.
    /// Where they are, it is withheld until it is known whether it may be a
    /// tool call.
    pub fn on_token(&mut self, job: &Job, id: i32, ends: bool, piece: Option<Vec<u8>>) -> (r: (
        Vec<StreamEvent>,
        NextStep,
    ))
        requires
            job.wf(),
            old(self).wf(),
            old(self).count < job.plan.max_tokens,
        ensures
            final(self).wf(),
            final(self).swap_tried == old(self).swap_tried,
            ends ==> r.0@.len() == 0 && r.1 == NextStep::Finish && *final(self) == (StreamRun {
                stop_reason: StopReason::EndTurn,
                ..*old(self)
            }),
            !ends ==> {
                let bytes = old(self).pending_utf8@ + piece_bytes(piece);
                let n = decode::valid_len(bytes);
                let asks = old(self).completes(piece) && job.has_tools;
                let gives = old(self).completes(piece) && !job.has_tools;
                let held = old(self).withheld@ + old(self).fresh(piece);
                &&& final(self).count == old(self).count + 1
                &&& final(self).tokens@ == (if old(self).swap_live(job) {
                    old(self).tokens@.push(id)
                } else {
                    old(self).tokens@
                })
                &&& final(self).pending_utf8@ == bytes.skip(n)
                &&& final(self).full_text@ == (if old(self).completes(piece) {
                    old(self).full_text@ + old(self).fresh(piece)
                } else {
                    old(self).full_text@
                })
                &&& final(self).withheld@ == (if asks {
                    held
                } else if gives {
                    Seq::empty()
                } else {
                    old(self).withheld@
                })
                &&& final(self).started == (old(self).started || gives)
                &&& types::event_views(r.0@) == (if gives {
                    flush_events(old(self).started, held)
                } else {
                    Seq::empty()
                })
                &&& r.1 == (if asks {
                    NextStep::Classify
                } else {
                    final(self).after(job)
                })
                &&& final(self).stop_reason == (if asks {
                    old(self).stop_reason
                } else {
                    final(self).reason_after(job, old(self).stop_reason)
                })
            },
            final(self).given() == old(self).given() + given_out(types::event_views(r.0@)),
            (final(self)@, types::event_views(r.0@), r.1) == old(self)@.with_token(
                *job,
                id,
                ends,
                piece_bytes(piece),
            ),
    {
        let mut events: Vec<StreamEvent> = Vec::new();
        proof {
            assert(types::event_views(events@) =~= Seq::empty());
            assert(self.given() + given_out(Seq::empty()) =~= self.given());
        }
        if ends {
            self.stop_reason = StopReason::EndTurn;
            return (events, NextStep::Finish);
        }
        append_piece(&mut self.pending_utf8, &piece);
        if job.swap_possible && !self.swap_tried {
            self.tokens.push(id);
        }
        self.count = self.count + 1;
        let ghost bytes = self.pending_utf8@;
        match decode::drain_valid_utf8(&mut self.pending_utf8) {
            Some(chunk) => {
                self.full_text.append(chunk.as_str());
                self.withheld.append(chunk.as_str());
                proof {
                    assert(self.given() =~= old(self).given());
                    assert(self.full_text@ =~= self.given() + self.withheld@);
                }
                if job.has_tools {
                    return (events, NextStep::Classify);
                }
                let ghost mid = *self;
                self.flush(&mut events);
                proof {
                    lemma_flush_gives_out(old(self).started, mid.withheld@);
                    assert(types::event_views(events@) =~= flush_events(
                        old(self).started,
                        mid.withheld@,
                    ));
                }
            },
            None => {
                assert(bytes.skip(0) =~= bytes);
            },
        }
        let next = self.step(job);
        (events, next)
    }

    /// Takes whether what is withheld may be a tool call, and whether the whole
    /// text commits to a call of an offered tool. If it does, a sampler for tool
    /// calls takes over now, where there is a grammar for the tools, and is not
    /// tried again. What cannot be a tool call is given out. The result says
    /// whether the sampler took over.
    pub fn on_classified(
        &mut self,
        job: &Job,
        may_be_call: bool,
        commits: bool,
        setup: &SamplerSetup,
        request: &LLMRequest,
        grammar_available: bool,
        sampler: &mut Vec<SamplerStage>,
    ) -> (r: (bool, Vec<StreamEvent>, NextStep))
        requires
            job.wf(),
            old(self).wf(),
            0 < old(self).count,
        ensures
            final(self).wf(),
            r.0 == (old(self).swap_live(job) && commits && grammar_available),
            r.0 ==> sampling::is_chain(
                final(sampler)@,
                setup.n_vocab,
                setup.defaults,
                *request,
                setup.seed,
                (old(self).tokens@.len() % 0x1_0000_0000) as u32,
                true,
            ),
            !r.0 ==> *final(sampler) == *old(sampler),
            final(self).swap_tried == (old(self).swap_tried || (job.swap_possible && commits)),
            types::event_views(r.1@) == (if may_be_call {
                Seq::empty()
            } else {
                flush_events(old(self).started, old(self).withheld@)
            }),
            final(self).withheld@ == (if may_be_call {
                old(self).withheld@
            } else {
                Seq::empty()
            }),
            final(self).started == (old(self).started || !may_be_call),
            r.2 == old(self).after(job),
            final(self).stop_reason == old(self).reason_after(job, old(self).stop_reason),
            final(self).full_text@ == old(self).full_text@,
            final(self).pending_utf8@ == old(self).pending_utf8@,
            final(self).tokens@ == old(self).tokens@,
            final(self).count == old(self).count,
            final(self).given() == old(self).given() + given_out(types::event_views(r.1@)),
            (final(self)@, types::event_views(r.1@), r.2) == old(self)@.classified(
                *job,
                may_be_call,
                commits,
            ),
    {
        let mut events: Vec<StreamEvent> = Vec::new();
        proof {
            assert(types::event_views(events@) =~= Seq::empty());
            assert(self.given() + given_out(Seq::empty()) =~= self.given());
        }
        let swapped = sampling::maybe_swap_to_constrained_sampler(
            setup,
            request,
            commits,
            job.swap_possible,
            &mut self.swap_tried,
            grammar_available,
            self.tokens.as_slice(),
            sampler,
        );
        if !may_be_call {
            self.flush(&mut events);
            proof {
                lemma_flush_gives_out(old(self).started, old(self).withheld@);
                assert(types::event_views(events@) =~= flush_events(
                    old(self).started,
                    old(self).withheld@,
                ));
            }
        }
        let next = self.step(job);
        (swapped, events, next)
    }

    /// Takes in the bytes that never became a complete character, with a
    /// replacement for what is missing.
    pub fn take_rest(&mut self)
        requires
            old(self).wf(),
        ensures
            final(self).wf(),
            ({
                let rest = if old(self).pending_utf8@.len() == 0 {
                    Seq::empty()
                } else {
                    decode::utf8_lossy(old(self).pending_utf8@)
                };
                &&& final(self).full_text@ == old(self).full_text@ + rest
                &&& final(self).withheld@ == old(self).withheld@ + rest
            }),
            final(self).pending_utf8@ == Seq::<u8>::empty(),
            final(self).given() == old(self).given(),
            final(self).started == old(self).started,
            final(self).tokens == old(self).tokens,
            final(self).count == old(self).count,
            final(self).swap_tried == old(self).swap_tried,
            final(self).stop_reason == old(self).stop_reason,
    {
        if self.pending_utf8.len() > 0 {
            let rest = decode::lossy_text(&self.pending_utf8);
            self.full_text.append(rest.as_str());
            self.withheld.append(rest.as_str());
            self.pending_utf8 = Vec::new();
        }
        proof {
            assert(self.pending_utf8@ =~= Seq::empty());
            assert(self.full_text@ + Seq::empty() =~= self.full_text@);
            assert(self.withheld@ + Seq::empty() =~= self.withheld@);
            assert(self.given() =~= old(self).given());
            assert(self.full_text@ =~= self.given() + self.withheld@);
        }
    }

    /// The events at the end. `recovered` is the tool call that the withheld
    /// text was found to be; it counts only where tools were offered. Text that
    /// is no call is given out, so that all of the text has been.
    pub fn finish_with(
        self,
        job: &Job,
        recovered: Option<(String, Value)>,
        call_uuid: &str,
        metrics: PerfMetrics,
    ) -> (r: Vec<StreamEvent>)
        requires
            self.wf(),
        ensures
            types::event_views(r@) == closing_events(
                self.started,
                self.withheld@,
                match recovered {
                    Some(c) if job.has_tools => Some((call_uuid@, c.0@, c.1)),
                    _ => None,
                },
                self.stop_reason,
                (TokenUsage { input_tokens: job.plan.prompt_tokens, output_tokens: self.count }),
                metrics,
            ),
    {
        let mut events: Vec<StreamEvent> = Vec::new();
        assert(types::event_views(events@) =~= Seq::empty());
        let mut started = self.started;
        let mut stop_reason = self.stop_reason;
        let call = if job.has_tools {
            recovered
        } else {
            None
        };
        if call.is_none() && !self.withheld.as_str().is_empty() {
            push_flush(&mut events, started, self.withheld.clone());
            started = true;
        }
        let ghost flush = types::event_views(events@);
        if started {
            events.push(StreamEvent::ContentBlockStop { index: 0 });
        }
        let ghost stopped = types::event_views(events@);
        assert(stopped =~= flush + (if started {
            seq![EventView::BlockStop { index: 0 }]
        } else {
            Seq::empty()
        }));
        if let Some((name, input)) = call {
            let index: usize = if started {
                1
            } else {
                0
            };
            events.push(
                StreamEvent::ContentBlockStart {
                    index,
                    content_block: ContentBlock::ToolUse { id: call_uuid.to_string(), name, input },
                },
            );
            events.push(StreamEvent::ContentBlockStop { index });
            stop_reason = StopReason::ToolUse;
            assert(types::event_views(events@) =~= stopped + seq![
                EventView::BlockStart {
                    index: index as nat,
                    block: BlockView::ToolUse { id: call_uuid@, name: name@, input },
                },
                EventView::BlockStop { index: index as nat },
            ]);
        }
        let ghost tooled = types::event_views(events@);
        events.push(
            StreamEvent::MessageDelta {
                delta: MessageDelta { stop_reason: Some(stop_reason), stop_sequence: None },
                usage: TokenUsage {
                    input_tokens: job.plan.prompt_tokens,
                    output_tokens: self.count,
                },
                perf_metrics: Some(metrics),
            },
        );
        events.push(StreamEvent::MessageStop);
        proof {
            let all = types::event_views(events@);
            assert(all =~= tooled + seq![all[all.len() - 2], EventView::MessageStop]);
            assert(all =~= closing_events(
                self.started,
                self.withheld@,
                match recovered {
                    Some(c) if job.has_tools => Some((call_uuid@, c.0@, c.1)),
                    _ => None,
                },
                self.stop_reason,
                TokenUsage { input_tokens: job.plan.prompt_tokens, output_tokens: self.count },
                metrics,
            ));
        }
        events
    }

    /// The events at the end, with a fresh identifier for a tool call.
    pub fn finish(
        self,
        job: &Job,
        recovered: Option<(String, Value)>,
        metrics: PerfMetrics,
    ) -> (r: Vec<StreamEvent>)
        requires
            self.wf(),
        ensures
            exists|u: Seq<char>| #[trigger]
                ids::is_uuid(u) && types::event_views(r@) == closing_events(
                    self.started,
                    self.withheld@,
                    match recovered {
                        Some(c) if job.has_tools => Some((u, c.0@, c.1)),
                        _ => None,
                    },
                    self.stop_reason,
                    (TokenUsage { input_tokens: job.plan.prompt_tokens, output_tokens: self.count }),
                    metrics,
                ),
    {
        let uuid = ids::new_uuid_text();
        self.finish_with(job, recovered, uuid.as_str(), metrics)
    }
}

/// When a stream ends without a tool call, all of its text has been given out,
/// each part once and in order.
pub proof fn a_stream_gives_out_all_text(
    run: StreamRun,
    usage: TokenUsage,
    metrics: PerfMetrics,
)
    requires
        run.wf(),
    ensures
        run.given() + given_out(
            closing_events(run.started, run.withheld@, None, run.stop_reason, usage, metrics),
        ) == run.full_text@,
{
    let flush = if run.withheld@.len() > 0 {
        flush_events(run.started, run.withheld@)
    } else {
        Seq::empty()
    };
    let begun = run.started || flush.len() > 0;
    let delta = EventView::MessageDelta {
        stop_reason: Some(run.stop_reason),
        stop_sequence: None,
        usage,
        perf_metrics: Some(metrics),
    };
    let stopped = if begun {
        flush.push(EventView::BlockStop { index: 0 })
    } else {
        flush
    };
    let all = closing_events(run.started, run.withheld@, None, run.stop_reason, usage, metrics);
    assert(all =~= stopped.push(delta).push(EventView::MessageStop));
    lemma_flush_gives_out(run.started, run.withheld@);
    lemma_given_out_push(flush, EventView::BlockStop { index: 0 });
    lemma_given_out_push(stopped, delta);
    lemma_given_out_push(stopped.push(delta), EventView::MessageStop);
    if run.withheld@.len() == 0 {
        assert(run.withheld@ =~= Seq::empty());
        assert(given_out(flush) =~= Seq::empty());
    }
}

/// When a stream ends with a tool call, no part of the call has been given out
/// as text.
pub proof fn a_tool_call_is_not_given_out(
    run: StreamRun,
    call: (Seq<char>, Seq<char>, Value),
    usage: TokenUsage,
    metrics: PerfMetrics,
)
    requires
        run.wf(),
    ensures
        given_out(
            closing_events(run.started, run.withheld@, Some(call), run.stop_reason, usage, metrics),
        ) == Seq::<char>::empty(),
{
    let none = Seq::<EventView>::empty();
    let index: nat = if run.started {
        1
    } else {
        0
    };
    let start = EventView::BlockStart {
        index,
        block: BlockView::ToolUse { id: call.0, name: call.1, input: call.2 },
    };
    let end = EventView::BlockStop { index };
    let delta = EventView::MessageDelta {
        stop_reason: Some(StopReason::ToolUse),
        stop_sequence: None,
        usage,
        perf_metrics: Some(metrics),
    };
    let stopped = if run.started {
        none.push(EventView::BlockStop { index: 0 })
    } else {
        none
    };
    let all = closing_events(
        run.started,
        run.withheld@,
        Some(call),
        run.stop_reason,
        usage,
        metrics,
    );
    assert(all =~= stopped.push(start).push(end).push(delta).push(EventView::MessageStop));
    lemma_given_out_push(none, EventView::BlockStop { index: 0 });
    lemma_given_out_push(stopped, start);
    lemma_given_out_push(stopped.push(start), end);
    lemma_given_out_push(stopped.push(start).push(end), delta);
    lemma_given_out_push(stopped.push(start).push(end).push(delta), EventView::MessageStop);
    assert(given_out(none) =~= Seq::empty());
}

} // verus!
