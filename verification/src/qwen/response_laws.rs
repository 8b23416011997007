//! What holds of every answer that is read: why it ended, which blocks it has,
//! and what is said of a request that failed.

use crate::json;
use crate::qwen::calls;
use crate::qwen::calls::CallView;
use crate::qwen::markup;
use crate::qwen::provider::{QwenProvider, ToolCallParser};
use crate::qwen::request::{MessageView, ToolCallView};
use crate::qwen::response;
use crate::qwen::response::{Expected, QwenError, QwenResponse};
use crate::text;
use crate::types;
use crate::types::{BlockView, StopReason};
use vstd::prelude::*;

verus! {

/// Whether a block is expected to be a tool call.
pub open spec fn is_call(e: Expected) -> bool {
    match e {
        Expected::Given(b) => b is ToolUse,
        Expected::Generated(_) => true,
    }
}

/// Whether one of the blocks is expected to be a tool call.
pub open spec fn any_call(e: Seq<Expected>) -> bool {
    exists|i: int| 0 <= i < e.len() && is_call(#[trigger] e[i])
}

proof fn lemma_any_call_concat(x: Seq<Expected>, y: Seq<Expected>)
    ensures
        any_call(x + y) == (any_call(x) || any_call(y)),
{
    if any_call(x) {
        let i = choose|i: int| 0 <= i < x.len() && is_call(#[trigger] x[i]);
        assert((x + y)[i] == x[i]);
    }
    if any_call(y) {
        let i = choose|i: int| 0 <= i < y.len() && is_call(#[trigger] y[i]);
        assert((x + y)[x.len() + i] == y[i]);
    }
    if any_call(x + y) {
        let i = choose|i: int| 0 <= i < (x + y).len() && is_call(#[trigger] (x + y)[i]);
        if i < x.len() {
            assert(is_call(x[i]));
        } else {
            assert(is_call(y[i - x.len()]));
        }
    }
}

proof fn lemma_generated(c: Seq<CallView>)
    ensures
        any_call(response::generated(c)) == (c.len() > 0),
{
    if c.len() > 0 {
        assert(is_call(response::generated(c)[0]));
    }
}

proof fn lemma_text_block(t: Seq<char>)
    ensures
        !any_call(response::text_block(t)),
{
}

proof fn lemma_fallback_says(t: Seq<char>, known: Seq<Seq<char>>)
    ensures
        response::fallback_blocks(t, known).1 == any_call(response::fallback_blocks(t, known).0),
{
    let found = calls::fallback_calls(t, known);
    let shown = text::trimmed(calls::fallback_text(t, known));
    lemma_text_block(t);
    lemma_text_block(shown);
    lemma_generated(found);
    lemma_any_call_concat(response::text_block(shown), response::generated(found));
}

proof fn lemma_answer_says(parser: ToolCallParser, t: Seq<char>, known: Seq<Seq<char>>)
    ensures
        response::answer_blocks(parser, t, known).1 == any_call(
            response::answer_blocks(parser, t, known).0,
        ),
{
    lemma_fallback_says(t, known);
    match parser {
        ToolCallParser::Hermes => {
            let h = calls::hermes_calls(t);
            let rest = markup::without_hermes(t);
            let f = calls::fallback_calls(rest, known);
            let shown = response::text_block(text::trimmed(calls::fallback_text(rest, known)));
            lemma_generated(h);
            lemma_generated(f);
            lemma_any_call_concat(shown, response::generated(h));
            lemma_any_call_concat(shown + response::generated(h), response::generated(f));
        },
        ToolCallParser::NativeQwen => {
            let c = calls::native_calls(t);
            let shown = response::text_block(response::native_display(t));
            lemma_text_block(response::native_display(t));
            lemma_text_block(markup::without_incomplete_markers(t));
            lemma_generated(c);
            lemma_any_call_concat(shown, response::generated(c));
        },
        ToolCallParser::OpenAI => {},
    }
}

/// A message counts as one with tool calls exactly where one of its blocks is a
/// tool call.
pub proof fn calls_are_told_by_the_blocks(
    p: QwenProvider,
    m: MessageView,
    known: Seq<Seq<char>>,
)
    ensures
        response::message_blocks(p, m, known).1 <==> any_call(
            response::message_blocks(p, m, known).0,
        ),
{
    let said = match m.content {
        Some(t) => response::text_blocks(p, t, known),
        None => (Seq::empty(), false),
    };
    if let Some(t) = m.content {
        lemma_answer_says(p.tool_parser, t, known);
        if let Some((thinking, rest)) = markup::thinking_parts(t) {
            lemma_answer_says(p.tool_parser, rest, known);
            let head = seq![
                Expected::Given(BlockView::Text { text: response::THINKING_LABEL@ + thinking }),
            ];
            assert(!any_call(head));
            lemma_any_call_concat(head, response::answer_blocks(p.tool_parser, rest, known).0);
        }
    }
    assert(said.1 == any_call(said.0));
    let fields = response::field_blocks(m.tool_calls);
    if fields.len() > 0 {
        assert(is_call(fields[0]));
    }
    lemma_any_call_concat(said.0, fields);
}

/// Blocks that are as expected hold a tool call exactly where one is expected.
pub proof fn lemma_fitting_calls(b: Seq<BlockView>, e: Seq<Expected>)
    requires
        response::blocks_fit(b, e),
    ensures
        any_call(e) <==> exists|i: int| 0 <= i < b.len() && (#[trigger] b[i]) is ToolUse,
{
    assert forall|i: int| 0 <= i < b.len() implies is_call(e[i]) == ((#[trigger] b[i])
        is ToolUse) by {
        assert(response::block_fits(b[i], e[i]));
    }
    if any_call(e) {
        let i = choose|i: int| 0 <= i < e.len() && is_call(#[trigger] e[i]);
        assert(b[i] is ToolUse);
    }
}

/// Without a tool call an answer that ended by itself is an end of turn, one that
/// was cut off has reached its limit, and one that ended for a call is a call.
/// Anything else is no reason that is known. With a tool call the answer has
/// ended for that call, whatever the endpoint says.
pub proof fn reasons_are_told_apart(other: Seq<char>, any: Option<Seq<char>>)
    requires
        other != "stop"@,
        other != "length"@,
        other != "tool_calls"@,
        other != "function_call"@,
    ensures
        response::stop_reason(false, Some("stop"@)) == Some(StopReason::EndTurn),
        response::stop_reason(false, Some("length"@)) == Some(StopReason::MaxTokens),
        response::stop_reason(false, Some("tool_calls"@)) == Some(StopReason::ToolUse),
        response::stop_reason(false, Some("function_call"@)) == Some(StopReason::ToolUse),
        response::stop_reason(false, Some(other)) is None,
        response::stop_reason(false, None) is None,
        response::stop_reason(true, any) == Some(StopReason::ToolUse),
        response::stop_reason(false, any) == Some(StopReason::EndTurn) ==> any == Some("stop"@),
        response::stop_reason(false, any) == Some(StopReason::MaxTokens) ==> any == Some(
            "length"@,
        ),
{
    reveal_strlit("stop");
    reveal_strlit("length");
    reveal_strlit("tool_calls");
    reveal_strlit("function_call");
    assert("stop"@.len() == 4);
    assert("length"@.len() == 6);
    assert("tool_calls"@.len() == 10);
    assert("function_call"@.len() == 13);
}

/// The first choice is the answer. A response without one is an empty answer that
/// ended with an error.
pub proof fn the_first_choice_is_the_answer(r: QwenResponse)
    ensures
        r.choices@.len() > 0 ==> response::first_choice(r) == (
            r.choices@[0].message@,
            types::opt_text(r.choices@[0].finish_reason),
        ),
        r.choices@.len() == 0 ==> {
            let (m, reason) = response::first_choice(r);
            &&& m.role == "assistant"@
            &&& m.content matches Some(t) && t.len() == 0
            &&& m.tool_calls is None
            &&& m.tool_call_id is None
            &&& reason == Some("error"@)
        },
{
}

/// Every tool call that came in a field of its own is a block, under its own
/// identifier and in its order, behind the blocks of the text. Its input is what
/// its arguments are as JSON, and an empty object where they are not JSON.
pub proof fn calls_in_fields_are_kept(
    p: QwenProvider,
    m: MessageView,
    v: Seq<ToolCallView>,
    known: Seq<Seq<char>>,
)
    requires
        m.tool_calls == Some(v),
    ensures
        ({
            let all = response::message_blocks(p, m, known).0;
            let said = response::message_blocks(p, MessageView { tool_calls: None, ..m }, known).0;
            &&& all.len() == said.len() + v.len()
            &&& forall|i: int| 0 <= i < said.len() ==> #[trigger] all[i] == said[i]
            &&& forall|i: int|
                0 <= i < v.len() ==> ((#[trigger] all[said.len() + i]) matches Expected::Given(b)
                    && (b matches BlockView::ToolUse { id, name, input } && id == v[i].id && name
                    == v[i].name && input == (match json::json_value(v[i].arguments) {
                    Some(x) => x,
                    None => json::empty_json(),
                })))
        }),
        m.content is None ==> response::message_blocks(p, m, known).0.len() == v.len(),
{
    let all = response::message_blocks(p, m, known).0;
    let said = response::message_blocks(p, MessageView { tool_calls: None, ..m }, known).0;
    assert(all =~= said + response::each_field(v));
}

/// A message without text and without calls has no blocks.
pub proof fn nothing_said_is_no_block(p: QwenProvider, m: MessageView, known: Seq<Seq<char>>)
    requires
        m.tool_calls is None,
        m.content matches Some(t) ==> t.len() == 0,
    ensures
        response::message_blocks(p, m, known).0.len() == 0,
        !response::message_blocks(p, m, known).1,
{
}

/// The text of an answer that holds neither reasoning nor calls is one block, as
/// it is. In native form the beginning of a marker at its end is not shown.
pub proof fn plain_text_is_one_block(p: QwenProvider, t: Seq<char>, known: Seq<Seq<char>>)
    requires
        t.len() > 0,
        !p.thinking_config.enabled || markup::thinking_parts(t) is None,
    ensures
        p.tool_parser == ToolCallParser::OpenAI && calls::fallback_calls(t, known).len() == 0
            ==> response::text_blocks(p, t, known) == (
            seq![Expected::Given(BlockView::Text { text: t })],
            false,
        ),
        p.tool_parser == ToolCallParser::Hermes && calls::hermes_calls(t).len() == 0
            && calls::fallback_calls(t, known).len() == 0 ==> response::text_blocks(p, t, known)
            == (seq![Expected::Given(BlockView::Text { text: t })], false),
        p.tool_parser == ToolCallParser::NativeQwen && calls::native_calls(t).len() == 0
            && markup::without_incomplete_markers(t) == t ==> response::text_blocks(p, t, known)
            == (seq![Expected::Given(BlockView::Text { text: t })], false),
{
}

/// Whether the last blocks are the calls `c`, in their order, and what is left is
/// at most one block, with the text `shown`.
pub open spec fn text_and_calls(e: Seq<Expected>, shown: Seq<char>, c: Seq<CallView>) -> bool {
    let n = if shown.len() == 0 {
        0int
    } else {
        1
    };
    &&& e.len() == n + c.len()
    &&& shown.len() > 0 ==> e[0] == Expected::Given(BlockView::Text { text: shown })
    &&& forall|i: int| 0 <= i < c.len() ==> #[trigger] e[n + i] == Expected::Generated(c[i])
}

/// Every call that is found in the text of an answer is a block, in the order the
/// calls stand in, behind one block with the text around them.
pub proof fn calls_in_text_are_kept(
    parser: ToolCallParser,
    t: Seq<char>,
    known: Seq<Seq<char>>,
)
    ensures
        parser == ToolCallParser::OpenAI && calls::fallback_calls(t, known).len() > 0
            ==> text_and_calls(
            response::answer_blocks(parser, t, known).0,
            text::trimmed(calls::fallback_text(t, known)),
            calls::fallback_calls(t, known),
        ),
        parser == ToolCallParser::Hermes && calls::hermes_calls(t).len() == 0
            && calls::fallback_calls(t, known).len() > 0 ==> text_and_calls(
            response::answer_blocks(parser, t, known).0,
            text::trimmed(calls::fallback_text(t, known)),
            calls::fallback_calls(t, known),
        ),
        parser == ToolCallParser::Hermes && calls::hermes_calls(t).len() > 0 ==> text_and_calls(
            response::answer_blocks(parser, t, known).0,
            text::trimmed(calls::fallback_text(markup::without_hermes(t), known)),
            calls::hermes_calls(t) + calls::fallback_calls(markup::without_hermes(t), known),
        ),
        parser == ToolCallParser::NativeQwen && calls::native_calls(t).len() > 0 ==> text_and_calls(
            response::answer_blocks(parser, t, known).0,
            response::native_display(t),
            calls::native_calls(t),
        ),
{
}

/// Reasoning that is read is shown first, in a block of its own, and the rest is
/// read as if it had come alone. Where reasoning is off, nothing is taken out.
pub proof fn reasoning_is_shown_first(
    p: QwenProvider,
    t: Seq<char>,
    known: Seq<Seq<char>>,
    thinking: Seq<char>,
    rest: Seq<char>,
)
    requires
        t.len() > 0,
    ensures
        p.thinking_config.enabled && markup::thinking_parts(t) == Some((thinking, rest)) ==> {
            let all = response::text_blocks(p, t, known);
            &&& all.0.len() > 0
            &&& all.0[0] == Expected::Given(BlockView::Text { text: "💭 *Thinking:* "@ + thinking })
            &&& all.0.skip(1) == response::answer_blocks(p.tool_parser, rest, known).0
            &&& all.1 == response::answer_blocks(p.tool_parser, rest, known).1
        },
        !p.thinking_config.enabled || markup::thinking_parts(t) is None ==> response::text_blocks(
            p,
            t,
            known,
        ) == response::answer_blocks(p.tool_parser, t, known),
{
    if markup::thinking_parts(t) == Some((thinking, rest)) {
        assert(response::text_blocks(p, t, known).0.skip(1) =~= response::answer_blocks(
            p.tool_parser,
            rest,
            known,
        ).0 || !p.thinking_config.enabled);
    }
}

/// Too many requests are told apart from every other failure, with the time to
/// wait where it is known; of any other failure its status and what the endpoint
/// says of it are told.
pub proof fn failures_are_told_apart(
    status: u16,
    seconds: u64,
    body: Seq<char>,
    e: QwenError,
    retry_after: Option<u64>,
)
    ensures
        status != 429 ==> response::error_for(status, retry_after, body, Some(e))
            == (types::ErrorView::ApiError {
            status,
            message: e.message@,
            error_type: types::opt_text(e.error_type),
        }),
        status != 429 && text::trimmed(body).len() == 0 ==> response::error_for(
            status,
            retry_after,
            body,
            None,
        ) == (types::ErrorView::ApiError {
            status,
            message: "Unknown error"@,
            error_type: None,
        }),
        status != 429 && text::trimmed(body).len() > 0 ==> response::error_for(
            status,
            retry_after,
            body,
            None,
        ) == (types::ErrorView::ApiError {
            status,
            message: if body.len() <= 1024 {
                body
            } else {
                body.take(1024)
            },
            error_type: None,
        }),
        response::error_for(429, Some(seconds), body, Some(e))
            == types::ErrorView::RateLimitExceeded(
            e.message@ + " (retry after "@ + text::decimal(seconds as nat) + " seconds)"@,
        ),
        response::error_for(429, None, body, Some(e)) == types::ErrorView::RateLimitExceeded(
            e.message@ + " (rate limited, please retry later)"@,
        ),
        response::error_for(429, Some(seconds), body, None) == types::ErrorView::RateLimitExceeded(
            "Rate limit exceeded (retry after "@ + text::decimal(seconds as nat) + " seconds)"@,
        ),
        response::error_for(429, None, body, None) == types::ErrorView::RateLimitExceeded(
            "Rate limit exceeded, please retry later"@,
        ),
{
}

} // verus!
