//! What holds of every generation: how a token is chosen, when it ends and why,
//! and what is told at its end.

use crate::llama_cpp::decode;
use crate::llama_cpp::generate;
use crate::llama_cpp::generate::{GenerationStage, Job, NextStep, RunView, StreamRun, StreamView};
use crate::llama_cpp::provider;
use crate::llama_cpp::provider::PanicPayload;
use crate::llama_cpp::sampling;
use crate::llama_cpp::sampling::{SamplerStage, SamplingDefaults};
use crate::llama_cpp::worker;
use crate::llama_cpp::worker::LoadStage;
use crate::text;
use crate::types;
use crate::types::{
    BlockView, EventView, Float32, LLMRequest, PerfMetrics, StopReason, TokenUsage,
};
use serde_json::Value;
use vstd::prelude::*;

verus! {

/// A text is at a stop sequence exactly if it ends with one of them: whatever
/// stands before it, and whichever of them it is.
pub proof fn a_stop_sequence_at_the_end_counts(
    before: Seq<char>,
    stop: Seq<String>,
    i: int,
    t: Seq<char>,
)
    requires
        0 <= i < stop.len(),
    ensures
        generate::at_stop(before + stop[i]@, stop),
        generate::at_stop(t, stop) ==> exists|k: int, lead: Seq<char>|
            0 <= k < stop.len() && t == #[trigger] (lead + (#[trigger] stop[k])@),
{
    let whole = before + stop[i]@;
    let n = stop[i]@.len() as int;
    assert(whole.subrange(whole.len() - n, whole.len() as int) =~= stop[i]@);
    assert(text::finishes_with(whole, stop[i]@));
    if generate::at_stop(t, stop) {
        let k = choose|k: int|
            0 <= k < stop.len() && text::finishes_with(t, (#[trigger] stop[k])@);
        let lead = t.take(t.len() - stop[k]@.len());
        assert(t =~= lead + stop[k]@);
    }
}

/// Without stop sequences no text is at one.
pub proof fn without_stop_sequences_none_is_met(t: Seq<char>, stop: Seq<String>)
    requires
        stop.len() == 0,
    ensures
        !generate::at_stop(t, stop),
{
}

/// The first token goes to the position right behind the prompt, each further one
/// to the next position, and after as many tokens as are allowed none follows.
pub proof fn tokens_go_one_behind_the_other(job: Job, count: u32)
    requires
        job.wf(),
        0 < count,
    ensures
        count >= job.plan.max_tokens ==> job.after(count) == NextStep::Finish,
        count < job.plan.max_tokens ==> (job.after(count) matches NextStep::Decode(p) && p
            == job.plan.prompt_tokens + count - 1),
        job.plan.max_tokens > 1 ==> (job.after(1) matches NextStep::Decode(p) && p
            == job.plan.prompt_tokens),
{
}

/// A streamed generation ends at a stop sequence before it ends at its limit, and
/// tells which of the two it was. It does not end before.
pub proof fn an_end_has_its_reason(run: StreamRun, job: Job, before: StopReason)
    requires
        job.wf(),
        0 < run.count,
    ensures
        generate::at_stop(run.full_text@, job.stop@) ==> run.after(&job) == NextStep::Finish
            && run.reason_after(&job, before) == StopReason::StopSequence,
        !generate::at_stop(run.full_text@, job.stop@) && run.count >= job.plan.max_tokens
            ==> run.after(&job) == NextStep::Finish && run.reason_after(&job, before)
            == StopReason::MaxTokens,
        !generate::at_stop(run.full_text@, job.stop@) && run.count < job.plan.max_tokens
            ==> run.after(&job) is Decode && run.reason_after(&job, before) == before,
{
}

/// A token adds its bytes, and one without bytes adds none. A sampler for tool
/// calls may take over as long as it is possible and was not tried.
pub proof fn tokens_add_their_bytes(bytes: Vec<u8>, run: StreamRun, job: Job)
    ensures
        generate::piece_bytes(Some(bytes)) == bytes@,
        generate::piece_bytes(None).len() == 0,
        run.swap_live(&job) <==> job.swap_possible && !run.swap_tried,
{
}

/// A token that ends the answer adds nothing to it. Any other adds its bytes and
/// counts; the generation ends there if its text is at a stop sequence, or else if
/// no more tokens are allowed, and says which of the two it was.
pub proof fn a_generation_goes_on_token_by_token(
    run: RunView,
    job: Job,
    id: i32,
    piece: Seq<u8>,
)
    requires
        job.wf(),
        run.count < job.plan.max_tokens,
    ensures
        run.with_token(job, id, true, piece) == (
            RunView { stop_reason: StopReason::EndTurn, ..run },
            NextStep::Finish,
        ),
        ({
            let (next, step) = run.with_token(job, id, false, piece);
            let stopped = generate::at_stop(decode::utf8_lossy(run.bytes + piece), job.stop@);
            let live = job.swap_possible && !run.swap_tried;
            &&& next.bytes == run.bytes + piece
            &&& next.count == run.count + 1
            &&& next.swap_tried == run.swap_tried
            &&& live ==> next.tokens == run.tokens.push(id)
            &&& !live ==> next.tokens == run.tokens
            &&& stopped ==> step == NextStep::Finish && next.stop_reason == StopReason::StopSequence
            &&& !stopped && live ==> step == NextStep::Classify && next.stop_reason
                == run.stop_reason
            &&& !stopped && !live && run.count + 1 == job.plan.max_tokens ==> step
                == NextStep::Finish && next.stop_reason == StopReason::MaxTokens
            &&& !stopped && !live && run.count + 1 < job.plan.max_tokens ==> (
            step matches NextStep::Decode(p) && p == job.plan.prompt_tokens + run.count)
                && next.stop_reason == run.stop_reason
        }),
{
}

/// Text that commits to a call has the sampler for calls tried, which is never
/// taken back; apart from that the generation goes on as without it.
pub proof fn a_commitment_is_never_taken_back(run: RunView, job: Job, commits: bool)
    requires
        job.wf(),
        0 < run.count,
    ensures
        ({
            let (next, step) = run.classified(job, commits);
            &&& next.bytes == run.bytes
            &&& next.tokens == run.tokens
            &&& next.count == run.count
            &&& run.swap_tried ==> next.swap_tried
            &&& commits && job.swap_possible ==> next.swap_tried
            &&& !commits ==> next.swap_tried == run.swap_tried
            &&& !job.swap_possible ==> next.swap_tried == run.swap_tried
            &&& run.count >= job.plan.max_tokens ==> step == NextStep::Finish && next.stop_reason
                == StopReason::MaxTokens
            &&& run.count < job.plan.max_tokens ==> step is Decode && next.stop_reason
                == run.stop_reason
        }),
{
}

/// Where no tools were offered text is never taken for a call. A call is the only
/// block of its response; text is one block, as it is, and no text is no block.
pub proof fn a_response_is_a_call_or_its_text(
    has_tools: bool,
    call: (Seq<char>, Seq<char>, Value),
    said: Seq<char>,
)
    ensures
        generate::response_blocks(true, Some(call), said) == seq![
            BlockView::ToolUse { id: call.0, name: call.1, input: call.2 },
        ],
        generate::response_blocks(false, Some(call), said) == generate::response_blocks(
            has_tools,
            None,
            said,
        ),
        said.len() > 0 ==> generate::response_blocks(has_tools, None, said) == seq![
            BlockView::Text { text: said },
        ],
        said.len() == 0 ==> generate::response_blocks(has_tools, None, said).len() == 0,
{
}

/// Text is given out in the first block, which begins with it and only once.
pub proof fn text_is_given_out_in_one_block(said: Seq<char>)
    ensures
        generate::flush_events(true, said) == seq![EventView::TextDelta { index: 0, text: said }],
        generate::flush_events(false, said) == seq![
            EventView::BlockStart { index: 0, block: BlockView::Text { text: Seq::empty() } },
            EventView::TextDelta { index: 0, text: said },
        ],
{
}

/// The characters that a token completes are the bytes that waited and its own, as
/// far as they are text; what is left of them waits. It completes none exactly if
/// they do not begin with a whole character.
pub proof fn no_byte_is_lost_between_tokens(run: StreamRun, piece: Option<Vec<u8>>)
    ensures
        ({
            let bytes = run.pending_utf8@ + generate::piece_bytes(piece);
            let n = decode::valid_len(bytes);
            &&& vstd::utf8::encode_utf8(run.fresh(piece)) + bytes.skip(n) == bytes
            &&& run.completes(piece) <==> exists|k: int|
                0 < k <= bytes.len() && vstd::utf8::valid_utf8(#[trigger] bytes.take(k))
        }),
{
    let bytes = run.pending_utf8@ + generate::piece_bytes(piece);
    let n = decode::valid_len(bytes);
    decode::valid_len_is_largest(bytes);
    vstd::utf8::decode_utf8_encode_utf8(bytes.take(n));
    assert(bytes.take(n) + bytes.skip(n) =~= bytes);
}

/// Whether a run ends here, and why: at a stop sequence before its limit.
pub open spec fn ends_rightly(
    job: Job,
    said: Seq<char>,
    count: int,
    before: StopReason,
    after: StopReason,
    step: NextStep,
) -> bool {
    let stopped = generate::at_stop(said, job.stop@);
    &&& stopped ==> step == NextStep::Finish && after == StopReason::StopSequence
    &&& !stopped && count >= job.plan.max_tokens ==> step == NextStep::Finish && after
        == StopReason::MaxTokens
    &&& !stopped && count < job.plan.max_tokens ==> (step matches NextStep::Decode(p) && p
        == job.plan.prompt_tokens + count - 1) && after == before
}

/// Without tools the text that a token completes is given out at once, with all
/// that was held back. With tools it is held back until it is known whether it may
/// be a call, and nothing is given out. A token that completes nothing gives
/// nothing out.
pub proof fn text_is_held_back_for_tools_alone(
    run: StreamView,
    job: Job,
    id: i32,
    piece: Seq<u8>,
)
    requires
        job.wf(),
        run.count < job.plan.max_tokens,
    ensures
        run.with_token(job, id, true, piece) == (
            StreamView { stop_reason: StopReason::EndTurn, ..run },
            Seq::<EventView>::empty(),
            NextStep::Finish,
        ),
        ({
            let (next, events, step) = run.with_token(job, id, false, piece);
            let bytes = run.pending + piece;
            let n = decode::valid_len(bytes);
            let fresh = vstd::utf8::decode_utf8(bytes.take(n));
            let count = run.count + 1;
            &&& next.count == count
            &&& next.pending == bytes.skip(n)
            &&& next.swap_tried == run.swap_tried
            &&& next.tokens == (if job.swap_possible && !run.swap_tried {
                run.tokens.push(id)
            } else {
                run.tokens
            })
            &&& n == 0 ==> {
                &&& next.full == run.full
                &&& next.withheld == run.withheld
                &&& next.started == run.started
                &&& events.len() == 0
                &&& ends_rightly(job, run.full, count, run.stop_reason, next.stop_reason, step)
            }
            &&& n > 0 && job.has_tools ==> {
                &&& next.full == run.full + fresh
                &&& next.withheld == run.withheld + fresh
                &&& next.started == run.started
                &&& next.stop_reason == run.stop_reason
                &&& events.len() == 0
                &&& step == NextStep::Classify
            }
            &&& n > 0 && !job.has_tools ==> {
                &&& next.full == run.full + fresh
                &&& next.withheld.len() == 0
                &&& next.started
                &&& events == generate::flush_events(run.started, run.withheld + fresh)
                &&& ends_rightly(
                    job,
                    run.full + fresh,
                    count,
                    run.stop_reason,
                    next.stop_reason,
                    step,
                )
            }
        }),
{
    decode::valid_len_is_largest(run.pending + piece);
}

/// Text that may be a call stays held back; text that cannot be one is given out,
/// all of it. Either way none of it is lost, and the sampler for calls counts as
/// tried where the text commits to one.
pub proof fn text_that_is_no_call_is_given_out(run: StreamView, job: Job, commits: bool)
    requires
        job.wf(),
        0 < run.count,
    ensures
        ({
            let (next, events, step) = run.classified(job, true, commits);
            &&& events.len() == 0
            &&& next.withheld == run.withheld
            &&& next.started == run.started
            &&& next.full == run.full
            &&& next.pending == run.pending
            &&& next.tokens == run.tokens
            &&& next.count == run.count
            &&& next.swap_tried == (run.swap_tried || (job.swap_possible && commits))
            &&& ends_rightly(
                job,
                run.full,
                run.count as int,
                run.stop_reason,
                next.stop_reason,
                step,
            )
        }),
        ({
            let (next, events, step) = run.classified(job, false, commits);
            &&& events == generate::flush_events(run.started, run.withheld)
            &&& next.withheld.len() == 0
            &&& next.started
            &&& next.full == run.full
            &&& next.pending == run.pending
            &&& next.tokens == run.tokens
            &&& next.count == run.count
            &&& next.swap_tried == (run.swap_tried || (job.swap_possible && commits))
            &&& ends_rightly(
                job,
                run.full,
                run.count as int,
                run.stop_reason,
                next.stop_reason,
                step,
            )
        }),
{
}

/// A stream ends with its reason, its usage and where the time went. Text that
/// was held back is given out before that, unless it was a tool call; the block
/// of text is ended if it was begun, and a tool call has the next number.
pub proof fn a_stream_ends_in_order(
    started: bool,
    withheld: Seq<char>,
    id: Seq<char>,
    name: Seq<char>,
    input: Value,
    reason: StopReason,
    usage: TokenUsage,
    metrics: PerfMetrics,
)
    ensures
        ({
            let told = |r: StopReason|
                EventView::MessageDelta {
                    stop_reason: Some(r),
                    stop_sequence: None,
                    usage,
                    perf_metrics: Some(metrics),
                };
            let stop = EventView::MessageStop;
            let text = EventView::TextDelta { index: 0, text: withheld };
            let begin = EventView::BlockStart {
                index: 0,
                block: BlockView::Text { text: Seq::empty() },
            };
            let end = EventView::BlockStop { index: 0 };
            let call = BlockView::ToolUse { id, name, input };
            let plain = generate::closing_events(started, withheld, None, reason, usage, metrics);
            let called = generate::closing_events(
                started,
                withheld,
                Some((id, name, input)),
                reason,
                usage,
                metrics,
            );
            &&& !started && withheld.len() == 0 ==> plain == seq![told(reason), stop]
            &&& started && withheld.len() == 0 ==> plain == seq![end, told(reason), stop]
            &&& !started && withheld.len() > 0 ==> plain == seq![
                begin,
                text,
                end,
                told(reason),
                stop,
            ]
            &&& started && withheld.len() > 0 ==> plain == seq![text, end, told(reason), stop]
            &&& !started ==> called == seq![
                EventView::BlockStart { index: 0, block: call },
                EventView::BlockStop { index: 0 },
                told(StopReason::ToolUse),
                stop,
            ]
            &&& started ==> called == seq![
                end,
                EventView::BlockStart { index: 1, block: call },
                EventView::BlockStop { index: 1 },
                told(StopReason::ToolUse),
                stop,
            ]
        }),
{
}

/// The greedy choice is made exactly where the temperature is zero or below, and
/// nothing else is needed for it; otherwise a token is drawn from the seed behind
/// the penalties, the two cuts and the temperature. A grammar comes first.
pub proof fn samplers_are_put_together(
    n_vocab: i32,
    d: SamplingDefaults,
    r: LLMRequest,
    seed: u32,
)
    ensures
        ({
            let t = if r.temperature is Some {
                r.temperature.unwrap()
            } else {
                d.temperature
            };
            let free = sampling::chain(n_vocab, d, r, seed, false);
            &&& sampling::chain(n_vocab, d, r, seed, true) == seq![SamplerStage::Grammar] + free
            &&& sampling::at_most_zero(t) ==> free == seq![SamplerStage::Greedy]
            &&& !sampling::at_most_zero(t) ==> {
                &&& free.len() == 5
                &&& free[0] == (SamplerStage::Penalties {
                    n_vocab,
                    last_n: 64,
                    repeat: d.repeat_penalty,
                    frequency: if r.frequency_penalty is Some {
                        r.frequency_penalty.unwrap()
                    } else {
                        Float32 { bits: 0 }
                    },
                    presence: if r.presence_penalty is Some {
                        r.presence_penalty.unwrap()
                    } else {
                        Float32 { bits: 0 }
                    },
                })
                &&& free[1] == SamplerStage::TopK(d.top_k)
                &&& free[2] == SamplerStage::TopP(
                    if r.top_p is Some {
                        r.top_p.unwrap()
                    } else {
                        d.top_p
                    },
                    1,
                )
                &&& free[3] == SamplerStage::Temp(t)
                &&& free[4] == SamplerStage::Dist(seed)
            }
        }),
{
    let free = sampling::chain(n_vocab, d, r, seed, false);
    assert(sampling::chain(n_vocab, d, r, seed, true) =~= seq![SamplerStage::Grammar] + free);
}

/// Both zeros, every negative number and minus infinity are at most zero. No
/// positive number is, and nothing that is no number.
pub proof fn zero_and_below_are_told_by_their_bits(x: Float32)
    ensures
        x.bits == 0 ==> sampling::at_most_zero(x),
        0 < x.bits < 0x8000_0000 ==> !sampling::at_most_zero(x),
        0x8000_0000 <= x.bits <= 0xff80_0000 ==> sampling::at_most_zero(x),
        x.bits > 0xff80_0000 ==> !sampling::at_most_zero(x),
{
}

/// The seed of a request wins over the provider's, and that over a random one. The
/// draw is from that seed, moved on by as much as is asked for.
pub proof fn the_nearest_seed_wins(
    stages: Seq<SamplerStage>,
    n_vocab: i32,
    d: SamplingDefaults,
    r: LLMRequest,
    default_seed: Option<u32>,
    offset: u32,
    grammar: bool,
)
    requires
        sampling::is_chain(stages, n_vocab, d, r, default_seed, offset, grammar),
    ensures
        r.seed matches Some(s) ==> (0 <= s <= 0xffff_ffff ==> stages == sampling::chain(
            n_vocab,
            d,
            r,
            sampling::shifted(s as u32, offset),
            grammar,
        )),
        r.seed is None ==> (default_seed matches Some(s) ==> stages == sampling::chain(
            n_vocab,
            d,
            r,
            sampling::shifted(s, offset),
            grammar,
        )),
        exists|seed: u32|
            stages == #[trigger] sampling::chain(n_vocab, d, r, seed, grammar),
{
}

/// What is drawn from where nothing is set: a temperature of 0.8, the likeliest
/// tokens up to 0.95, and tokens that occurred before at a penalty of 1.1, each as
/// its bits.
pub proof fn sampling_has_its_defaults()
    ensures
        sampling::DEFAULT_TEMPERATURE == 0x3f4c_cccd,
        sampling::DEFAULT_TOP_P == 0x3f73_3333,
        sampling::DEFAULT_REPEAT_PENALTY == 0x3f8c_cccd,
{
}

/// A seed of a request counts exactly where it fits, and as it is.
pub proof fn a_seed_counts_where_it_fits(seed: i64)
    ensures
        0 <= seed <= 0xffff_ffff ==> (sampling::request_seed(Some(seed)) matches Some(s) && s
            == seed),
        seed < 0 || seed > 0xffff_ffff ==> sampling::request_seed(Some(seed)) is None,
        sampling::request_seed(None) is None,
{
}

/// Moving a seed on twice is moving it on by both at once, and different seeds
/// stay different.
pub proof fn seeds_move_on(a: u32, b: u32, x: u32, y: u32)
    ensures
        sampling::shifted(sampling::shifted(a, x), y) == sampling::shifted(
            a,
            sampling::shifted(x, y),
        ),
        a != b ==> sampling::shifted(a, x) != sampling::shifted(b, x),
        a + x <= u32::MAX ==> sampling::shifted(a, x) == a + x,
{
    lemma_shifted(a, x);
    lemma_shifted(b, x);
    lemma_shifted(x, y);
    lemma_shifted(sampling::shifted(a, x), y);
    lemma_shifted(a, sampling::shifted(x, y));
}

proof fn lemma_shifted(a: u32, b: u32)
    ensures
        sampling::shifted(a, b) == (if a + b <= u32::MAX {
            a + b
        } else {
            a + b - 0x1_0000_0000
        }),
{
}

/// What went wrong in a step is told with the step: a prompt that cannot be taken
/// is the request's fault, anything behind it is not.
pub proof fn failed_steps_are_told_apart(detail: Seq<char>)
    ensures
        generate::failure(GenerationStage::Tokenize, detail) == types::ErrorView::InvalidRequest(
            "failed to tokenize prompt: "@ + detail,
        ),
        generate::failure(GenerationStage::PromptBatch, detail)
            == types::ErrorView::InvalidRequest("failed to build prompt batch: "@ + detail),
        generate::failure(GenerationStage::Prefill, detail) == types::ErrorView::Internal(
            "prefill decode failed: "@ + detail,
        ),
        generate::failure(GenerationStage::ExtendBatch, detail) == types::ErrorView::Internal(
            "failed to extend batch: "@ + detail,
        ),
        generate::failure(GenerationStage::Decode, detail) == types::ErrorView::Internal(
            "decode failed: "@ + detail,
        ),
        worker::load_failure(LoadStage::Backend, detail) == "failed to init llama.cpp backend: "@
            + detail,
        worker::load_failure(LoadStage::Model, detail) == "failed to load GGUF file: "@ + detail,
        worker::load_failure(LoadStage::Context, detail) == "failed to create llama.cpp context: "@
            + detail,
{
}

/// The name that was set is shown, or else that of the file, or else a general
/// one.
pub proof fn a_set_name_is_shown(set: Seq<char>, stem: Seq<char>, any: Option<Seq<char>>)
    ensures
        provider::shown_name(Some(set), any) == set,
        provider::shown_name(None, Some(stem)) == stem,
        provider::shown_name(None, None) == "llama-cpp-model"@,
{
}

/// A number with its highest bit clear stays what it is; the others are the
/// negative ones, in their order. Different numbers stay different.
pub proof fn signs_follow_the_highest_bit(k: u32, j: u32)
    ensures
        k < 0x8000_0000 ==> provider::as_signed(k) == k,
        k >= 0x8000_0000 ==> provider::as_signed(k) < 0 && provider::as_signed(k) + 0x1_0000_0000
            == k,
        k != j ==> provider::as_signed(k) != provider::as_signed(j),
{
}

/// A build has a GPU backend as soon as one of its features is one, wherever it
/// stands; and features of another name are none.
pub proof fn any_backend_counts(x: Seq<String>, y: Seq<String>, f: String)
    requires
        f@ == "llama-cpp-cuda"@ || f@ == "llama-cpp-metal"@ || f@ == "llama-cpp-vulkan"@ || f@
            == "llama-cpp-rocm"@ || f@ == "llama-cpp-opencl"@ || f@ == "llama-cpp-mkl"@,
    ensures
        provider::has_gpu_backend(x.push(f) + y),
        provider::has_gpu_backend(x + y) == (provider::has_gpu_backend(x)
            || provider::has_gpu_backend(y)),
        !provider::has_gpu_backend(Seq::empty()),
        forall|g: Seq<char>|
            g != "llama-cpp-cuda"@ && g != "llama-cpp-metal"@ && g != "llama-cpp-vulkan"@ && g
                != "llama-cpp-rocm"@ && g != "llama-cpp-opencl"@ && g != "llama-cpp-mkl"@
                ==> !#[trigger] provider::is_gpu_backend(g),
{
    let all = x.push(f) + y;
    assert(all[x.len() as int] == f);
    assert(provider::is_gpu_backend(all[x.len() as int]@));
    if provider::has_gpu_backend(x) {
        let i = choose|i: int|
            0 <= i < x.len() && provider::is_gpu_backend((#[trigger] x[i])@);
        assert((x + y)[i] == x[i]);
    }
    if provider::has_gpu_backend(y) {
        let i = choose|i: int|
            0 <= i < y.len() && provider::is_gpu_backend((#[trigger] y[i])@);
        assert((x + y)[x.len() + i] == y[i]);
    }
    if provider::has_gpu_backend(x + y) {
        let i = choose|i: int|
            0 <= i < (x + y).len() && provider::is_gpu_backend((#[trigger] (x + y)[i])@);
        if i < x.len() {
            assert(provider::is_gpu_backend(x[i]@));
        } else {
            assert(provider::is_gpu_backend(y[i - x.len()]@));
        }
    }
}

/// What a panic says is told where it says anything.
pub proof fn a_panic_is_told(s: String)
    ensures
        provider::panic_text(PanicPayload::Str(s)) == s@,
        provider::panic_text(PanicPayload::Owned(s)) == s@,
        provider::panic_text(PanicPayload::Other) == "non-string panic payload"@,
{
}

} // verus!
