//! How an answer of a Qwen model is read.

use crate::ids;
use crate::json;
use crate::qwen::calls;
use crate::qwen::calls::{Call, CallView};
use crate::qwen::markup;
use crate::qwen::markup::{FN_EXIT, FN_RESULT};
use crate::qwen::provider::{QwenProvider, ToolCallParser};
use crate::qwen::request;
use crate::qwen::request::{MessageView, QwenMessage, QwenToolCall, ToolCallView};
use crate::qwen::response_laws;
use crate::text;
use crate::types;
use crate::types::{BlockView, ContentBlock, LLMResponse, ProviderError, StopReason, TokenUsage};
use vstd::prelude::*;
use vstd::string::*;

verus! {

/// Tokens that a request took, as the endpoint counts them.
#[derive(Clone, Copy, PartialEq, Eq, Structural, Debug)]
pub struct QwenUsage {
    pub prompt_tokens: u32,
    pub completion_tokens: u32,
}

/// One of the answers in a response.
#[derive(Clone, Debug)]
pub struct QwenChoice {
    pub index: u32,
    pub message: QwenMessage,
    pub finish_reason: Option<String>,
}

/// A response of the endpoint.
#[derive(Clone, Debug)]
pub struct QwenResponse {
    pub id: String,
    pub model: String,
    pub choices: Vec<QwenChoice>,
    pub usage: QwenUsage,
}

/// The error that the endpoint describes in the body of a response.
#[derive(Clone, Debug)]
pub struct QwenError {
    pub message: String,
    pub error_type: Option<String>,
}

/// What stands before the reasoning of a model where it is shown.
pub const THINKING_LABEL: &'static str = "💭 *Thinking:* ";

/// A block as it is expected: its identifier is either given or generated.
pub enum Expected {
    Given(BlockView),
    Generated(CallView),
}

/// Whether a block is as expected.
pub open spec fn block_fits(b: BlockView, e: Expected) -> bool {
    match e {
        Expected::Given(x) => b == x,
        Expected::Generated(c) => match b {
            BlockView::ToolUse { id, name, input } => ids::is_call_id(id) && name == c.name && input
                == c.input,
            _ => false,
        },
    }
}

/// Whether blocks are as expected, in order.
pub open spec fn blocks_fit(b: Seq<BlockView>, e: Seq<Expected>) -> bool {
    b.len() == e.len() && forall|i: int| 0 <= i < b.len() ==> block_fits(#[trigger] b[i], e[i])
}

/// A text block, if there is text.
pub open spec fn text_block(t: Seq<char>) -> Seq<Expected> {
    if t.len() == 0 {
        Seq::empty()
    } else {
        seq![Expected::Given(BlockView::Text { text: t })]
    }
}

/// A block for each call, under a generated identifier.
pub open spec fn generated(c: Seq<CallView>) -> Seq<Expected> {
    Seq::new(c.len(), |i: int| Expected::Generated(c[i]))
}

/// The blocks for text in which calls stand as plain JSON, and whether there
/// are such calls.
pub open spec fn fallback_blocks(t: Seq<char>, known: Seq<Seq<char>>) -> (Seq<Expected>, bool) {
    let found = calls::fallback_calls(t, known);
    if found.len() > 0 {
        (text_block(text::trimmed(calls::fallback_text(t, known))) + generated(found), true)
    } else {
        (text_block(t), false)
    }
}

/// Text with native calls, without them and without markers.
pub open spec fn native_display(t: Seq<char>) -> Seq<char> {
    let a = markup::without_native_calls(t);
    let b = markup::without_from(a, 0, FN_RESULT@);
    let c = markup::without_from(b, 0, FN_EXIT@);
    text::trimmed(markup::without_incomplete_markers(c))
}

/// The blocks for the text `t` that is left when the reasoning is taken out,
/// and whether it holds tool calls.
pub open spec fn answer_blocks(
    parser: ToolCallParser,
    t: Seq<char>,
    known: Seq<Seq<char>>,
) -> (Seq<Expected>, bool) {
    match parser {
        ToolCallParser::Hermes => if calls::hermes_calls(t).len() > 0 {
            let rest = markup::without_hermes(t);
            (
                text_block(text::trimmed(calls::fallback_text(rest, known))) + generated(
                    calls::hermes_calls(t),
                ) + generated(calls::fallback_calls(rest, known)),
                true,
            )
        } else {
            fallback_blocks(t, known)
        },
        ToolCallParser::NativeQwen => if calls::native_calls(t).len() > 0 {
            (text_block(native_display(t)) + generated(calls::native_calls(t)), true)
        } else {
            (text_block(markup::without_incomplete_markers(t)), false)
        },
        ToolCallParser::OpenAI => fallback_blocks(t, known),
    }
}

/// The blocks for the text of an answer, and whether it holds tool calls.
pub open spec fn text_blocks(p: QwenProvider, content: Seq<char>, known: Seq<Seq<char>>) -> (
    Seq<Expected>,
    bool,
) {
    if content.len() == 0 {
        (Seq::empty(), false)
    } else {
        match markup::thinking_parts(content) {
            Some((thinking, rest)) if p.thinking_config.enabled => {
                let (blocks, has_calls) = answer_blocks(p.tool_parser, rest, known);
                (
                    seq![Expected::Given(BlockView::Text { text: THINKING_LABEL@ + thinking })]
                        + blocks,
                    has_calls,
                )
            },
            _ => answer_blocks(p.tool_parser, content, known),
        }
    }
}

/// The block for a tool call that came in a field of its own. Arguments that
/// are not JSON count as an empty object.
pub open spec fn field_block(c: ToolCallView) -> Expected {
    Expected::Given(
        BlockView::ToolUse {
            id: c.id,
            name: c.name,
            input: match json::json_value(c.arguments) {
                Some(v) => v,
                None => json::empty_json(),
            },
        },
    )
}

/// A block for each tool call of a list.
pub open spec fn each_field(v: Seq<ToolCallView>) -> Seq<Expected> {
    Seq::new(v.len(), |i: int| field_block(v[i]))
}

/// The blocks for the tool calls that came in fields of their own.
pub open spec fn field_blocks(c: Option<Seq<ToolCallView>>) -> Seq<Expected> {
    match c {
        Some(v) => each_field(v),
        None => Seq::empty(),
    }
}

/// Why the model stopped.
pub open spec fn stop_reason(has_calls: bool, finish_reason: Option<Seq<char>>) -> Option<
    StopReason,
> {
    if has_calls {
        Some(StopReason::ToolUse)
    } else {
        match finish_reason {
            Some(r) => if r == "stop"@ {
                Some(StopReason::EndTurn)
            } else if r == "length"@ {
                Some(StopReason::MaxTokens)
            } else if r == "tool_calls"@ || r == "function_call"@ {
                Some(StopReason::ToolUse)
            } else {
                None
            },
            None => None,
        }
    }
}

/// Why the model stopped: for a tool call, where there is one, and otherwise
/// for the reason that the endpoint gives.
pub fn stop_reason_for(has_calls: bool, finish_reason: &Option<String>) -> (r: Option<StopReason>)
    ensures
        r == stop_reason(has_calls, types::opt_text(*finish_reason)),
{
    if has_calls {
        return Some(StopReason::ToolUse);
    }
    match finish_reason {
        Some(s) => if text::same(s.as_str(), "stop") {
            Some(StopReason::EndTurn)
        } else if text::same(s.as_str(), "length") {
            Some(StopReason::MaxTokens)
        } else if text::same(s.as_str(), "tool_calls") || text::same(s.as_str(), "function_call") {
            Some(StopReason::ToolUse)
        } else {
            None
        },
        None => None,
    }
}

proof fn lemma_fit_concat(
    a: Seq<BlockView>,
    x: Seq<Expected>,
    b: Seq<BlockView>,
    y: Seq<Expected>,
)
    requires
        blocks_fit(a, x),
        blocks_fit(b, y),
    ensures
        blocks_fit(a + b, x + y),
{
}

/// What the calls of a list hold as blocks.
pub open spec fn call_blocks(c: Seq<Call>) -> Seq<BlockView> {
    Seq::new(c.len(), |i: int| BlockView::ToolUse { id: c[i].0@, name: c[i].1@, input: c[i].2 })
}

/// Adds a text block, if there is text.
pub fn push_text(blocks: &mut Vec<ContentBlock>, t: String)
    ensures
        types::block_views(final(blocks)@) == types::block_views(old(blocks)@) + (if t@.len() == 0 {
            Seq::empty()
        } else {
            seq![BlockView::Text { text: t@ }]
        }),
{
    let ghost start = types::block_views(blocks@);
    if !t.as_str().is_empty() {
        blocks.push(ContentBlock::Text { text: t });
        assert(types::block_views(blocks@) =~= start + seq![BlockView::Text { text: t@ }]);
    } else {
        assert(start =~= start + Seq::empty());
    }
}

/// Adds a block for each call.
pub fn push_calls(blocks: &mut Vec<ContentBlock>, c: &Vec<Call>)
    ensures
        types::block_views(final(blocks)@) == types::block_views(old(blocks)@) + call_blocks(c@),
{
    let ghost start = types::block_views(blocks@);
    let mut i: usize = 0;
    assert(start + call_blocks(c@).take(0) =~= start);
    while i < c.len()
        invariant
            i <= c@.len(),
            types::block_views(blocks@) == start + call_blocks(c@).take(i as int),
        decreases c@.len() - i,
    {
        let ghost before = types::block_views(blocks@);
        blocks.push(
            ContentBlock::ToolUse {
                id: c[i].0.clone(),
                name: c[i].1.clone(),
                input: c[i].2.clone(),
            },
        );
        proof {
            assert(types::block_views(blocks@) =~= before.push(call_blocks(c@)[i as int]));
            assert(types::block_views(blocks@) =~= start + call_blocks(c@).take(i as int + 1));
        }
        i = i + 1;
    }
    assert(call_blocks(c@).take(c@.len() as int) =~= call_blocks(c@));
}

proof fn lemma_calls_fit(c: Seq<Call>, e: Seq<CallView>)
    requires
        calls::calls_fit(c, e),
    ensures
        blocks_fit(call_blocks(c), generated(e)),
{
    assert forall|i: int| 0 <= i < c.len() implies block_fits(
        #[trigger] call_blocks(c)[i],
        generated(e)[i],
    ) by {
        assert(calls::call_fits(c[i], e[i]));
    }
}

spec fn shown_thinking(thinking: Option<String>) -> Seq<Expected> {
    match thinking {
        Some(t) => seq![Expected::Given(BlockView::Text { text: THINKING_LABEL@ + t@ })],
        None => Seq::empty(),
    }
}

/// The start of a block list: the reasoning, where it is shown.
fn thinking_block(thinking: Option<String>) -> (r: Vec<ContentBlock>)
    ensures
        types::block_views(r@) == (match thinking {
            Some(t) => seq![BlockView::Text { text: THINKING_LABEL@ + t@ }],
            None => Seq::empty(),
        }),
{
    let mut blocks: Vec<ContentBlock> = Vec::new();
    match thinking {
        Some(t) => {
            let mut shown = THINKING_LABEL.to_string();
            shown.append(t.as_str());
            blocks.push(ContentBlock::Text { text: shown });
            assert(types::block_views(blocks@) =~= seq![
                BlockView::Text { text: THINKING_LABEL@ + t@ },
            ]);
        },
        None => {
            assert(types::block_views(blocks@) =~= Seq::empty());
        },
    }
    blocks
}

/// The message that the answer is taken from and the reason it ended: those of
/// the first choice, or else an empty message and an error.
pub open spec fn first_choice(r: QwenResponse) -> (MessageView, Option<Seq<char>>) {
    if r.choices@.len() == 0 {
        (request::plain_message("assistant"@, Some(Seq::empty())), Some("error"@))
    } else {
        (r.choices@[0].message@, types::opt_text(r.choices@[0].finish_reason))
    }
}

/// The blocks of a message, and whether it holds tool calls.
pub open spec fn message_blocks(p: QwenProvider, m: MessageView, known: Seq<Seq<char>>) -> (
    Seq<Expected>,
    bool,
) {
    let (blocks, has_calls) = match m.content {
        Some(t) => text_blocks(p, t, known),
        None => (Seq::empty(), false),
    };
    (blocks + field_blocks(m.tool_calls), has_calls || field_blocks(m.tool_calls).len() > 0)
}

proof fn lemma_reasons()
    ensures
        "stop"@ != "length"@,
        "stop"@ != "tool_calls"@,
        "stop"@ != "function_call"@,
        "length"@ != "tool_calls"@,
        "length"@ != "function_call"@,
        "error"@ != "stop"@,
        "error"@ != "length"@,
        "error"@ != "tool_calls"@,
        "error"@ != "function_call"@,
{
    reveal_strlit("stop");
    reveal_strlit("length");
    reveal_strlit("tool_calls");
    reveal_strlit("function_call");
    reveal_strlit("error");
    assert("stop"@.len() == 4);
    assert("error"@.len() == 5);
    assert("length"@.len() == 6);
    assert("tool_calls"@.len() == 10);
    assert("function_call"@.len() == 13);
}

impl QwenProvider {
    /// Adds the blocks for `remaining`: the calls in it that stand as plain JSON
    /// and the text around them, or else the text as it is.
    fn push_fallback_or_text(
        &self,
        remaining: String,
        known_tools: &[String],
        blocks: &mut Vec<ContentBlock>,
    ) -> (has_calls: bool)
        ensures
            has_calls == fallback_blocks(remaining@, text::texts(known_tools@)).1,
            forall|x: Seq<Expected>|
                blocks_fit(types::block_views(old(blocks)@), x) ==> #[trigger] blocks_fit(
                    types::block_views(final(blocks)@),
                    x + fallback_blocks(remaining@, text::texts(known_tools@)).0,
                ),
    {
        let ghost known = text::texts(known_tools@);
        let ghost start = types::block_views(blocks@);
        let (found, clean) = self.parse_fallback_tool_calls(remaining.as_str(), known_tools);
        if found.len() > 0 {
            let shown = text::trim(clean.as_str());
            push_text(blocks, shown);
            push_calls(blocks, &found);
            proof {
                lemma_calls_fit(found@, calls::fallback_calls(remaining@, known));
                let text_part = if shown@.len() == 0 {
                    Seq::empty()
                } else {
                    seq![BlockView::Text { text: shown@ }]
                };
                assert(blocks_fit(text_part, text_block(shown@)));
                assert forall|x: Seq<Expected>| blocks_fit(start, x) implies #[trigger] blocks_fit(
                    types::block_views(blocks@),
                    x + fallback_blocks(remaining@, known).0,
                ) by {
                    lemma_fit_concat(start, x, text_part, text_block(shown@));
                    lemma_fit_concat(
                        start + text_part,
                        x + text_block(shown@),
                        call_blocks(found@),
                        generated(calls::fallback_calls(remaining@, known)),
                    );
                    assert(x + fallback_blocks(remaining@, known).0 =~= x + text_block(shown@)
                        + generated(calls::fallback_calls(remaining@, known)));
                }
            }
            true
        } else {
            let ghost shown = remaining@;
            push_text(blocks, remaining);
            proof {
                let text_part = if shown.len() == 0 {
                    Seq::empty()
                } else {
                    seq![BlockView::Text { text: shown }]
                };
                assert(blocks_fit(text_part, text_block(shown)));
                assert forall|x: Seq<Expected>| blocks_fit(start, x) implies #[trigger] blocks_fit(
                    types::block_views(blocks@),
                    x + fallback_blocks(shown, known).0,
                ) by {
                    lemma_fit_concat(start, x, text_part, text_block(shown));
                }
            }
            false
        }
    }

    /// Adds the blocks for the text that is left when the reasoning is taken
    /// out.
    fn push_answer(
        &self,
        remaining: String,
        known_tools: &[String],
        blocks: &mut Vec<ContentBlock>,
    ) -> (has_calls: bool)
        ensures
            has_calls == answer_blocks(
                self.tool_parser,
                remaining@,
                text::texts(known_tools@),
            ).1,
            forall|x: Seq<Expected>|
                blocks_fit(types::block_views(old(blocks)@), x) ==> #[trigger] blocks_fit(
                    types::block_views(final(blocks)@),
                    x + answer_blocks(self.tool_parser, remaining@, text::texts(known_tools@)).0,
                ),
    {
        let ghost known = text::texts(known_tools@);
        let ghost start = types::block_views(blocks@);
        match self.tool_parser {
            ToolCallParser::Hermes => {
                let hermes = self.parse_hermes_tool_calls(remaining.as_str());
                if hermes.len() == 0 {
                    return self.push_fallback_or_text(remaining, known_tools, blocks);
                }
                let rest = markup::strip_hermes(remaining.as_str());
                let (extra, clean) = self.parse_fallback_tool_calls(rest.as_str(), known_tools);
                let shown = text::trim(clean.as_str());
                push_text(blocks, shown);
                push_calls(blocks, &hermes);
                push_calls(blocks, &extra);
                proof {
                    let hc = calls::hermes_calls(remaining@);
                    let fc = calls::fallback_calls(rest@, known);
                    lemma_calls_fit(hermes@, hc);
                    lemma_calls_fit(extra@, fc);
                    let text_part = if shown@.len() == 0 {
                        Seq::empty()
                    } else {
                        seq![BlockView::Text { text: shown@ }]
                    };
                    assert(blocks_fit(text_part, text_block(shown@)));
                    assert forall|x: Seq<Expected>|
                        blocks_fit(start, x) implies #[trigger] blocks_fit(
                        types::block_views(blocks@),
                        x + answer_blocks(self.tool_parser, remaining@, known).0,
                    ) by {
                        lemma_fit_concat(start, x, text_part, text_block(shown@));
                        lemma_fit_concat(
                            start + text_part,
                            x + text_block(shown@),
                            call_blocks(hermes@),
                            generated(hc),
                        );
                        lemma_fit_concat(
                            start + text_part + call_blocks(hermes@),
                            x + text_block(shown@) + generated(hc),
                            call_blocks(extra@),
                            generated(fc),
                        );
                        assert(x + answer_blocks(self.tool_parser, remaining@, known).0 =~= x
                            + text_block(shown@) + generated(hc) + generated(fc));
                    }
                }
                true
            },
            ToolCallParser::NativeQwen => {
                let native = self.parse_native_qwen_tool_calls(remaining.as_str());
                let has_calls = native.len() > 0;
                let shown = if has_calls {
                    proof {
                        reveal_strlit("✿RESULT✿");
                        reveal_strlit("✿RETURN✿");
                    }
                    let a = markup::strip_native_calls(remaining.as_str());
                    let b = markup::remove_all(a.as_str(), FN_RESULT);
                    let c = markup::remove_all(b.as_str(), FN_EXIT);
                    let d = self.clean_incomplete_markers(c.as_str());
                    text::trim(d.as_str())
                } else {
                    self.clean_incomplete_markers(remaining.as_str())
                };
                push_text(blocks, shown);
                push_calls(blocks, &native);
                proof {
                    let nc = calls::native_calls(remaining@);
                    lemma_calls_fit(native@, nc);
                    let text_part = if shown@.len() == 0 {
                        Seq::empty()
                    } else {
                        seq![BlockView::Text { text: shown@ }]
                    };
                    assert(blocks_fit(text_part, text_block(shown@)));
                    assert forall|x: Seq<Expected>|
                        blocks_fit(start, x) implies #[trigger] blocks_fit(
                        types::block_views(blocks@),
                        x + answer_blocks(self.tool_parser, remaining@, known).0,
                    ) by {
                        lemma_fit_concat(start, x, text_part, text_block(shown@));
                        lemma_fit_concat(
                            start + text_part,
                            x + text_block(shown@),
                            call_blocks(native@),
                            generated(nc),
                        );
                        assert(x + answer_blocks(self.tool_parser, remaining@, known).0 =~= x
                            + text_block(shown@) + generated(nc));
                    }
                }
                has_calls
            },
            ToolCallParser::OpenAI => self.push_fallback_or_text(remaining, known_tools, blocks),
        }
    }

    /// The blocks for the text of an answer, and whether it holds tool calls.
    pub fn read_text(&self, content: &str, known_tools: &[String]) -> (r: (Vec<ContentBlock>, bool))
        ensures
            blocks_fit(
                types::block_views(r.0@),
                text_blocks(*self, content@, text::texts(known_tools@)).0,
            ),
            r.1 == text_blocks(*self, content@, text::texts(known_tools@)).1,
    {
        if content.is_empty() {
            let none: Vec<ContentBlock> = Vec::new();
            return (none, false);
        }
        let (thinking, remaining) = self.extract_thinking(content);
        let ghost head = shown_thinking(thinking);
        let mut blocks = thinking_block(thinking);
        let ghost rest = remaining@;
        let has_calls = self.push_answer(remaining, known_tools, &mut blocks);
        proof {
            let answer = answer_blocks(self.tool_parser, rest, text::texts(known_tools@)).0;
            assert(blocks_fit(types::block_views(blocks@), head + answer));
            if thinking is None {
                assert(head + answer =~= answer);
            }
        }
        (blocks, has_calls)
    }

    /// Adds the blocks for the tool calls that came in fields of their own.
    fn push_fields(&self, tool_calls: &Vec<QwenToolCall>, blocks: &mut Vec<ContentBlock>)
        ensures
            forall|x: Seq<Expected>|
                blocks_fit(types::block_views(old(blocks)@), x) ==> #[trigger] blocks_fit(
                    types::block_views(final(blocks)@),
                    x + each_field(request::tool_call_views(tool_calls@)),
                ),
    {
        let ghost start = types::block_views(blocks@);
        let ghost all = each_field(request::tool_call_views(tool_calls@));
        let ghost mut added: Seq<BlockView> = Seq::empty();
        let mut i: usize = 0;
        assert(start + added =~= start);
        while i < tool_calls.len()
            invariant
                i <= tool_calls@.len(),
                all == each_field(request::tool_call_views(tool_calls@)),
                added.len() == i,
                blocks_fit(added, all.take(i as int)),
                types::block_views(blocks@) == start + added,
            decreases tool_calls@.len() - i,
        {
            let c = &tool_calls[i];
            let input = match json::parse_json(c.function.arguments.as_str()) {
                Some(v) => v,
                None => json::empty_object(),
            };
            let block = ContentBlock::ToolUse {
                id: c.id.clone(),
                name: c.function.name.clone(),
                input,
            };
            let ghost before = types::block_views(blocks@);
            blocks.push(block);
            proof {
                assert(types::block_views(blocks@) =~= before.push(block@));
                added = added.push(block@);
                assert(types::block_views(blocks@) =~= start + added);
                assert(block_fits(block@, all[i as int]));
                assert(all.take(i as int + 1) =~= all.take(i as int).push(all[i as int]));
            }
            i = i + 1;
        }
        proof {
            assert(all.take(tool_calls@.len() as int) =~= all);
            assert forall|x: Seq<Expected>| blocks_fit(start, x) implies #[trigger] blocks_fit(
                types::block_views(blocks@),
                x + all,
            ) by {
                lemma_fit_concat(start, x, added, all);
            }
        }
    }

    /// The endpoint's response in the library's own form. `known_tools` are the
    /// tools that were offered; only calls to them are taken from plain JSON.
    pub fn from_qwen_response(&self, response: QwenResponse, known_tools: &[String]) -> (r:
        LLMResponse)
        ensures
            r.id == response.id,
            r.model == response.model,
            blocks_fit(
                types::block_views(r.content@),
                message_blocks(*self, first_choice(response).0, text::texts(known_tools@)).0,
            ),
            r.stop_reason == stop_reason(
                message_blocks(*self, first_choice(response).0, text::texts(known_tools@)).1,
                first_choice(response).1,
            ),
            (exists|i: int| 0 <= i < r.content@.len() && (#[trigger] r.content@[i])@ is ToolUse)
                ==> r.stop_reason == Some(StopReason::ToolUse),
            (forall|i: int| 0 <= i < r.content@.len() ==> !((#[trigger] r.content@[i])@ is ToolUse))
                && response.choices@.len() > 0 ==> match response.choices@[0].finish_reason {
                Some(reason) => {
                    &&& reason@ == "stop"@ <==> r.stop_reason == Some(StopReason::EndTurn)
                    &&& reason@ == "length"@ <==> r.stop_reason == Some(StopReason::MaxTokens)
                    &&& reason@ == "tool_calls"@ || reason@ == "function_call"@
                        <==> r.stop_reason == Some(StopReason::ToolUse)
                    &&& r.stop_reason != Some(StopReason::StopSequence)
                },
                None => r.stop_reason is None,
            },
            response.choices@.len() == 0 ==> r.content@.len() == 0 && r.stop_reason is None,
            r.usage == (TokenUsage {
                input_tokens: response.usage.prompt_tokens,
                output_tokens: response.usage.completion_tokens,
            }),
            r.cache_metrics is None,
            r.perf_metrics is None,
    {
        let ghost known = text::texts(known_tools@);
        let mut blocks: Vec<ContentBlock> = Vec::new();
        let mut has_calls = false;
        let mut finish_reason: Option<String> = Some("error".to_string());
        let ghost answer = match first_choice(response).0.content {
            Some(t) => text_blocks(*self, t, known),
            None => (Seq::empty(), false),
        };
        assert(types::block_views(blocks@) =~= Seq::empty());
        if response.choices.len() > 0 {
            let choice = &response.choices[0];
            if let Some(content) = &choice.message.content {
                let (text_part, found) = self.read_text(content.as_str(), known_tools);
                blocks = text_part;
                has_calls = found;
            }
            assert(blocks_fit(types::block_views(blocks@), answer.0));
            if let Some(tool_calls) = &choice.message.tool_calls {
                if tool_calls.len() > 0 {
                    has_calls = true;
                }
                self.push_fields(tool_calls, &mut blocks);
            } else {
                assert(answer.0 + field_blocks(choice.message@.tool_calls) =~= answer.0);
            }
            finish_reason = choice.finish_reason.clone();
        } else {
            assert(answer.0 + Seq::<Expected>::empty() =~= Seq::empty());
        }
        let stop = stop_reason_for(has_calls, &finish_reason);
        proof {
            let m = first_choice(response).0;
            let made = types::block_views(blocks@);
            response_laws::calls_are_told_by_the_blocks(*self, m, known);
            response_laws::lemma_fitting_calls(made, message_blocks(*self, m, known).0);
            assert(forall|i: int| 0 <= i < made.len() ==> made[i] == (#[trigger] blocks@[i])@);
            lemma_reasons();
        }
        LLMResponse {
            id: response.id,
            model: response.model,
            content: blocks,
            stop_reason: stop,
            usage: TokenUsage {
                input_tokens: response.usage.prompt_tokens,
                output_tokens: response.usage.completion_tokens,
            },
            cache_metrics: None,
            perf_metrics: None,
        }
    }
}

/// The message for a request that came too soon.
pub open spec fn rate_limit_message(described: Option<Seq<char>>, retry_after: Option<u64>) -> Seq<
    char,
> {
    match (described, retry_after) {
        (Some(m), Some(s)) => m + " (retry after "@ + text::decimal(s as nat) + " seconds)"@,
        (Some(m), None) => m + " (rate limited, please retry later)"@,
        (None, Some(s)) => "Rate limit exceeded (retry after "@ + text::decimal(s as nat)
            + " seconds)"@,
        (None, None) => "Rate limit exceeded, please retry later"@,
    }
}

/// The message for a body that describes no error: its first 1024 characters,
/// if it is more than white space.
pub open spec fn body_message(body: Seq<char>) -> Seq<char> {
    if text::trimmed(body).len() == 0 {
        "Unknown error"@
    } else {
        text::at_most(body, 1024)
    }
}

/// The error for a response with status `status`. Where the body describes an
/// error, that is told; too many requests are told apart.
pub open spec fn error_for(
    status: u16,
    retry_after: Option<u64>,
    body: Seq<char>,
    described: Option<QwenError>,
) -> types::ErrorView {
    let message = match described {
        Some(e) => Some(e.message@),
        None => None,
    };
    if status == 429 {
        types::ErrorView::RateLimitExceeded(rate_limit_message(message, retry_after))
    } else {
        types::ErrorView::ApiError {
            status,
            message: match message {
                Some(m) => m,
                None => body_message(body),
            },
            error_type: match described {
                Some(e) => types::opt_text(e.error_type),
                None => None,
            },
        }
    }
}

/// The error for a response with status `status`. `described` is the error that
/// the body `body` describes, if it does, and `retry_after` the seconds that
/// the response asks to wait.
pub fn api_error(
    status: u16,
    retry_after: Option<u64>,
    body: &str,
    described: Option<QwenError>,
) -> (r: ProviderError)
    ensures
        r@ == error_for(status, retry_after, body@, described),
{
    match described {
        Some(e) => {
            if status == 429 {
                let mut message = e.message;
                match retry_after {
                    Some(s) => {
                        let seconds = text::decimal_string(s);
                        message.append(" (retry after ");
                        message.append(seconds.as_str());
                        message.append(" seconds)");
                    },
                    None => {
                        message.append(" (rate limited, please retry later)");
                    },
                }
                ProviderError::RateLimitExceeded(message)
            } else {
                ProviderError::ApiError { status, message: e.message, error_type: e.error_type }
            }
        },
        None => {
            if status == 429 {
                let message = match retry_after {
                    Some(s) => {
                        let seconds = text::decimal_string(s);
                        let mut m = "Rate limit exceeded (retry after ".to_string();
                        m.append(seconds.as_str());
                        m.append(" seconds)");
                        m
                    },
                    None => "Rate limit exceeded, please retry later".to_string(),
                };
                ProviderError::RateLimitExceeded(message)
            } else {
                let shown = text::trim(body);
                let message = if shown.as_str().is_empty() {
                    "Unknown error".to_string()
                } else {
                    text::take_chars(body, 1024)
                };
                ProviderError::ApiError { status, message, error_type: None }
            }
        },
    }
}

impl QwenProvider {
    /// The error for a response that is none of success. `retry_after` is the
    /// header of that name, if there is one.
    pub fn handle_error(
        &self,
        status: u16,
        retry_after: Option<&str>,
        body: &str,
        described: Option<QwenError>,
    ) -> (r: ProviderError)
        ensures
            r@ == error_for(
                status,
                match retry_after {
                    Some(s) => text::number(s@),
                    None => None,
                },
                body@,
                described,
            ),
    {
        let seconds: Option<u64> = match retry_after {
            Some(s) => text::parse_number(s),
            None => None,
        };
        api_error(status, seconds, body, described)
    }
}

} // verus!
