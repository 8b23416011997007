//! Streamed answers: the chunks that come in, and the events that go out.

use crate::ids;
use crate::llama_cpp::decode;
use crate::qwen::request;
use crate::qwen::request::{QwenFunctionCall, QwenMessage, QwenToolCall, ToolCallView};
use crate::qwen::provider::QwenProvider;
use crate::qwen::response;
use crate::qwen::response::{QwenChoice, QwenResponse, QwenUsage};
use crate::qwen::stream_laws;
use crate::text;
use crate::types;
use crate::types::{
    BlockView, ContentBlock, ContentDelta, EventView, LLMResponse, MessageDelta, Role, StreamEvent,
    StreamMessage, TokenUsage,
};
use vstd::prelude::*;
use vstd::string::*;

verus! {

/// The largest index that a streamed tool-call fragment may carry.
pub const MAX_TOOL_CALL_INDEX: usize = 128;

/// Whether a streamed tool-call fragment may grow the list of calls up to its
/// index.
pub fn tool_call_index_in_bounds(idx: usize) -> (r: bool)
    ensures
        r == (idx <= MAX_TOOL_CALL_INDEX),
{
    idx <= MAX_TOOL_CALL_INDEX
}

/// The lines of `s` from `pos` on. A line ends with a line feed, which a
/// carriage return may stand before, or with the text.
pub open spec fn lines_from(s: Seq<char>, pos: int) -> Seq<Seq<char>>
    decreases s.len() - pos,
{
    if pos < 0 || pos >= s.len() {
        Seq::empty()
    } else {
        match text::find_from(s, pos, "\n"@) {
            Some(i) => {
                proof {
                    reveal_strlit("\n");
                    text::find_from_is_first(s, pos, "\n"@);
                }
                seq![text::without_return(s.subrange(pos, i))] + lines_from(s, i + 1)
            },
            None => seq![s.skip(pos)],
        }
    }
}

/// The payloads among the lines of an event stream: what follows `data: `, up
/// to the line that says that the stream is done.
pub open spec fn payloads(lines: Seq<Seq<char>>) -> Seq<Seq<char>>
    decreases lines.len(),
{
    if lines.len() == 0 {
        Seq::empty()
    } else {
        let line = lines[0];
        let rest = lines.skip(1);
        if !text::begins_with(line, "data: "@) {
            payloads(rest)
        } else if line.skip(6) == "[DONE]"@ {
            Seq::empty()
        } else {
            seq![line.skip(6)] + payloads(rest)
        }
    }
}

/// The lines of `text`.
pub fn lines(text: &str) -> (r: Vec<String>)
    ensures
        text::texts(r@) == lines_from(text@, 0),
{
    let v = text::chars_of(text);
    let feed = text::chars_of("\n");
    let mut out: Vec<String> = Vec::new();
    let mut pos: usize = 0;
    proof {
        reveal_strlit("\n");
        assert(text::texts(out@) =~= Seq::empty());
    }
    while pos < v.len()
        invariant
            v@ == text@,
            feed@ == "\n"@,
            "\n"@.len() == 1,
            pos <= v@.len(),
            text::texts(out@) + lines_from(v@, pos as int) == lines_from(v@, 0),
        decreases v@.len() - pos,
    {
        let ghost before = text::texts(out@);
        match text::find_chars(&v, pos, &feed) {
            Some(i) => {
                proof {
                    text::find_from_is_first(v@, pos as int, "\n"@);
                }
                let end: usize = if i > pos && v[i - 1] == '\r' {
                    i - 1
                } else {
                    i
                };
                let line = text::string_of(&v, pos, end);
                proof {
                    assert(line@ =~= text::without_return(v@.subrange(pos as int, i as int)));
                    let rest = lines_from(v@, i + 1);
                    assert(before.push(line@) + rest =~= before + (seq![line@] + rest));
                }
                out.push(line);
                assert(text::texts(out@) =~= before.push(line@));
                pos = i + 1;
            },
            None => {
                let line = text::string_of(&v, pos, v.len());
                assert(line@ =~= v@.skip(pos as int));
                out.push(line);
                assert(text::texts(out@) =~= before + seq![line@]);
                return out;
            },
        }
    }
    assert(text::texts(out@) + lines_from(v@, pos as int) =~= text::texts(out@));
    out
}

/// The payloads of the event stream `text`, in order.
pub fn sse_payloads(text: &str) -> (r: Vec<String>)
    ensures
        text::texts(r@) == payloads(lines_from(text@, 0)),
{
    let all = lines(text);
    let ghost views = text::texts(all@);
    let mut out: Vec<String> = Vec::new();
    let mut i: usize = 0;
    proof {
        reveal_strlit("data: ");
        assert(text::texts(out@) =~= Seq::empty());
        assert(views.skip(0) =~= views);
    }
    while i < all.len()
        invariant
            i <= all@.len(),
            views == text::texts(all@),
            views == lines_from(text@, 0),
            "data: "@.len() == 6,
            text::texts(out@) + payloads(views.skip(i as int)) == payloads(views),
        decreases all@.len() - i,
    {
        let ghost before = text::texts(out@);
        let ghost here = views.skip(i as int);
        proof {
            assert(here[0] == all@[i as int]@);
            assert(here.skip(1) =~= views.skip(i as int + 1));
        }
        if text::starts_with(all[i].as_str(), "data: ") {
            let line = text::chars_of(all[i].as_str());
            let payload = text::string_of(&line, 6, line.len());
            assert(payload@ =~= all@[i as int]@.skip(6));
            if text::same(payload.as_str(), "[DONE]") {
                assert(payloads(here) =~= Seq::<Seq<char>>::empty());
                assert(text::texts(out@) + payloads(here) =~= text::texts(out@));
                return out;
            }
            out.push(payload);
            proof {
                let rest = payloads(here.skip(1));
                assert(text::texts(out@) =~= before.push(payload@));
                assert(before.push(payload@) + rest =~= before + (seq![payload@] + rest));
            }
        }
        i = i + 1;
    }
    assert(views.skip(all@.len() as int) =~= Seq::empty());
    assert(text::texts(out@) + payloads(views.skip(all@.len() as int)) =~= text::texts(out@));
    out
}

/// A fragment of a function call.
#[derive(Clone, Debug)]
pub struct QwenFunctionCallDelta {
    pub name: Option<String>,
    pub arguments: Option<String>,
}

/// A fragment of a tool call, for the call at `index`.
#[derive(Clone, Debug)]
pub struct QwenToolCallDelta {
    pub index: usize,
    pub id: Option<String>,
    pub function: Option<QwenFunctionCallDelta>,
}

/// A piece of a streamed message.
#[derive(Clone, Debug)]
pub struct QwenMessageDelta {
    pub role: Option<String>,
    pub content: Option<String>,
    pub tool_calls: Vec<QwenToolCallDelta>,
}

/// One of the answers in a chunk.
#[derive(Clone, Debug)]
pub struct QwenStreamChoice {
    pub index: u32,
    pub delta: Option<QwenMessageDelta>,
    pub finish_reason: Option<String>,
}

/// A chunk of a streamed response.
#[derive(Clone, Debug)]
pub struct QwenStreamChunk {
    pub id: String,
    pub model: Option<String>,
    pub choices: Vec<QwenStreamChoice>,
    pub usage: Option<QwenUsage>,
}

/// A response put together from its chunks.
#[derive(Debug)]
pub struct StreamAssembly {
    pub content: String,
    pub id: Option<String>,
    pub model: Option<String>,
    pub finish_reason: Option<String>,
    pub usage: Option<QwenUsage>,
    pub calls: Vec<QwenToolCall>,
}

/// What a [`StreamAssembly`] holds.
pub struct AssemblyView {
    pub content: Seq<char>,
    pub id: Option<Seq<char>>,
    pub model: Option<Seq<char>>,
    pub finish_reason: Option<Seq<char>>,
    pub usage: Option<QwenUsage>,
    pub calls: Seq<ToolCallView>,
}

impl View for StreamAssembly {
    type V = AssemblyView;

    open spec fn view(&self) -> AssemblyView {
        AssemblyView {
            content: self.content@,
            id: types::opt_text(self.id),
            model: types::opt_text(self.model),
            finish_reason: types::opt_text(self.finish_reason),
            usage: self.usage,
            calls: request::tool_call_views(self.calls@),
        }
    }
}

/// A tool call of which nothing is known yet.
pub open spec fn blank_call() -> ToolCallView {
    ToolCallView {
        id: Seq::empty(),
        kind: "function"@,
        name: Seq::empty(),
        arguments: Seq::empty(),
    }
}

/// The calls, made at least `n` long with blank ones.
pub open spec fn grown(calls: Seq<ToolCallView>, n: int) -> Seq<ToolCallView> {
    if calls.len() >= n {
        calls
    } else {
        calls + Seq::new((n - calls.len()) as nat, |i: int| blank_call())
    }
}

/// A call with a fragment added: an identifier and a name replace those before,
/// arguments go behind those before.
pub open spec fn with_fragment(c: ToolCallView, d: QwenToolCallDelta) -> ToolCallView {
    ToolCallView {
        id: match d.id {
            Some(id) => id@,
            None => c.id,
        },
        kind: c.kind,
        name: match d.function {
            Some(f) => match f.name {
                Some(n) => n@,
                None => c.name,
            },
            None => c.name,
        },
        arguments: match d.function {
            Some(f) => match f.arguments {
                Some(a) => c.arguments + a@,
                None => c.arguments,
            },
            None => c.arguments,
        },
    }
}

/// The calls with a fragment added. One whose index is too large is ignored.
pub open spec fn calls_with(calls: Seq<ToolCallView>, d: QwenToolCallDelta) -> Seq<ToolCallView> {
    if d.index > MAX_TOOL_CALL_INDEX {
        calls
    } else {
        let g = grown(calls, d.index + 1);
        g.update(d.index as int, with_fragment(g[d.index as int], d))
    }
}

/// The calls with the fragments added, one after the other.
pub open spec fn calls_with_all(
    calls: Seq<ToolCallView>,
    d: Seq<QwenToolCallDelta>,
) -> Seq<ToolCallView>
    decreases d.len(),
{
    if d.len() == 0 {
        calls
    } else {
        calls_with(calls_with_all(calls, d.drop_last()), d.last())
    }
}

/// The text that a chunk adds.
pub open spec fn chunk_text(chunk: QwenStreamChunk) -> Seq<char> {
    if chunk.choices@.len() == 0 {
        Seq::empty()
    } else {
        match chunk.choices@[0].delta {
            Some(d) => match d.content {
                Some(t) => t@,
                None => Seq::empty(),
            },
            None => Seq::empty(),
        }
    }
}

/// An assembly with a chunk added. The identifier and the model are those of
/// the first chunk; the usage and the reason are the last that were given.
pub open spec fn with_chunk(a: AssemblyView, chunk: QwenStreamChunk) -> AssemblyView {
    AssemblyView {
        content: a.content + chunk_text(chunk),
        id: match a.id {
            Some(id) => Some(id),
            None => Some(chunk.id@),
        },
        model: match a.id {
            Some(_) => a.model,
            None => types::opt_text(chunk.model),
        },
        usage: match chunk.usage {
            Some(u) => Some(u),
            None => a.usage,
        },
        finish_reason: if chunk.choices@.len() == 0 {
            a.finish_reason
        } else {
            match chunk.choices@[0].finish_reason {
                Some(r) if r@.len() > 0 => Some(r@),
                _ => a.finish_reason,
            }
        },
        calls: if chunk.choices@.len() == 0 {
            a.calls
        } else {
            match chunk.choices@[0].delta {
                Some(d) => calls_with_all(a.calls, d.tool_calls@),
                None => a.calls,
            }
        },
    }
}

/// An assembly with chunks added, one after the other.
pub open spec fn with_chunks(a: AssemblyView, chunks: Seq<QwenStreamChunk>) -> AssemblyView
    decreases chunks.len(),
{
    if chunks.len() == 0 {
        a
    } else {
        with_chunk(with_chunks(a, chunks.drop_last()), chunks.last())
    }
}

/// An assembly of no chunks.
pub open spec fn nothing_yet() -> AssemblyView {
    AssemblyView {
        content: Seq::empty(),
        id: None,
        model: None,
        finish_reason: None,
        usage: None,
        calls: Seq::empty(),
    }
}

/// The texts that the chunks add, one after the other.
pub open spec fn all_text(chunks: Seq<QwenStreamChunk>) -> Seq<char>
    decreases chunks.len(),
{
    if chunks.len() == 0 {
        Seq::empty()
    } else {
        all_text(chunks.drop_last()) + chunk_text(chunks.last())
    }
}

/// The text of a streamed response is the text of its chunks in their order,
/// and however large an index a fragment carries, the list of tool calls stays
/// short.
pub proof fn chunks_keep_text_and_bound(chunks: Seq<QwenStreamChunk>)
    ensures
        with_chunks(nothing_yet(), chunks).content == all_text(chunks),
        with_chunks(nothing_yet(), chunks).calls.len() <= MAX_TOOL_CALL_INDEX + 1,
    decreases chunks.len(),
{
    if chunks.len() > 0 {
        chunks_keep_text_and_bound(chunks.drop_last());
        let before = with_chunks(nothing_yet(), chunks.drop_last());
        if chunks.last().choices@.len() > 0 {
            if let Some(d) = chunks.last().choices@[0].delta {
                lemma_calls_bounded(before.calls, d.tool_calls@);
            }
        }
    }
}

proof fn lemma_calls_bounded(calls: Seq<ToolCallView>, d: Seq<QwenToolCallDelta>)
    requires
        calls.len() <= MAX_TOOL_CALL_INDEX + 1,
    ensures
        calls_with_all(calls, d).len() <= MAX_TOOL_CALL_INDEX + 1,
    decreases d.len(),
{
    if d.len() > 0 {
        lemma_calls_bounded(calls, d.drop_last());
    }
}

/// A call that has an identifier and a name.
pub open spec fn is_complete(c: ToolCallView) -> bool {
    c.id.len() > 0 && c.name.len() > 0
}

/// The calls that have an identifier and a name, in order.
pub open spec fn complete_calls(calls: Seq<ToolCallView>) -> Seq<ToolCallView>
    decreases calls.len(),
{
    if calls.len() == 0 {
        Seq::empty()
    } else if is_complete(calls.last()) {
        complete_calls(calls.drop_last()).push(calls.last())
    } else {
        complete_calls(calls.drop_last())
    }
}

/// The only message of an assembled response.
pub open spec fn assembled_message(a: AssemblyView) -> request::MessageView {
    let calls = complete_calls(a.calls);
    request::MessageView {
        role: "assistant"@,
        content: Some(a.content),
        tool_calls: if calls.len() == 0 {
            None
        } else {
            Some(calls)
        },
        tool_call_id: None,
    }
}

fn blank() -> (r: QwenToolCall)
    ensures
        r@ == blank_call(),
{
    let c = QwenToolCall {
        id: String::new(),
        kind: "function".to_string(),
        function: QwenFunctionCall { name: String::new(), arguments: String::new() },
    };
    proof {
        assert(c.id@ =~= Seq::empty());
        assert(c.function.name@ =~= Seq::empty());
        assert(c.function.arguments@ =~= Seq::empty());
    }
    c
}

impl StreamAssembly {
    /// An assembly of no chunks.
    pub fn new() -> (r: Self)
        ensures
            r@ == nothing_yet(),
    {
        let r = StreamAssembly {
            content: String::new(),
            id: None,
            model: None,
            finish_reason: None,
            usage: None,
            calls: Vec::new(),
        };
        proof {
            assert(r.content@ =~= Seq::empty());
            assert(request::tool_call_views(r.calls@) =~= Seq::empty());
        }
        r
    }

    /// Adds a fragment of a tool call.
    fn add_fragment(&mut self, d: &QwenToolCallDelta)
        ensures
            final(self)@ == (AssemblyView {
                calls: calls_with(old(self)@.calls, *d),
                ..old(self)@
            }),
    {
        if !tool_call_index_in_bounds(d.index) {
            return;
        }
        let ghost start = request::tool_call_views(self.calls@);
        while self.calls.len() <= d.index
            invariant
                d.index <= MAX_TOOL_CALL_INDEX,
                start.len() <= self.calls@.len(),
                self.calls@.len() <= start.len() || self.calls@.len() <= d.index + 1,
                request::tool_call_views(self.calls@) == grown(start, self.calls@.len() as int),
                self.content == old(self).content,
                self.id == old(self).id,
                self.model == old(self).model,
                self.finish_reason == old(self).finish_reason,
                self.usage == old(self).usage,
            decreases d.index + 1 - self.calls@.len(),
        {
            let ghost before = request::tool_call_views(self.calls@);
            self.calls.push(blank());
            assert(request::tool_call_views(self.calls@) =~= before.push(blank_call()));
            assert(request::tool_call_views(self.calls@) =~= grown(start, self.calls@.len() as int));
        }
        let ghost g = request::tool_call_views(self.calls@);
        proof {
            assert(g =~= grown(start, d.index + 1));
            assert(g[d.index as int] == self.calls@[d.index as int]@);
        }
        let current = &self.calls[d.index];
        let id = match &d.id {
            Some(id) => id.clone(),
            None => current.id.clone(),
        };
        let mut name = current.function.name.clone();
        let mut arguments = current.function.arguments.clone();
        if let Some(f) = &d.function {
            if let Some(n) = &f.name {
                name = n.clone();
            }
            if let Some(a) = &f.arguments {
                arguments.append(a.as_str());
            }
        }
        let kind = current.kind.clone();
        let next = QwenToolCall { id, kind, function: QwenFunctionCall { name, arguments } };
        assert(next@ == with_fragment(g[d.index as int], *d));
        self.calls.set(d.index, next);
        assert(request::tool_call_views(self.calls@) =~= g.update(d.index as int, next@));
    }

    /// Adds a chunk.
    pub fn add_chunk(&mut self, chunk: &QwenStreamChunk)
        ensures
            final(self)@ == with_chunk(old(self)@, *chunk),
    {
        let ghost start = self@;
        if self.id.is_none() {
            self.id = Some(chunk.id.clone());
            self.model = chunk.model.clone();
        }
        if chunk.usage.is_some() {
            self.usage = chunk.usage;
        }
        if chunk.choices.len() > 0 {
            let choice = &chunk.choices[0];
            if let Some(reason) = &choice.finish_reason {
                if !reason.as_str().is_empty() {
                    self.finish_reason = Some(reason.clone());
                }
            }
            if let Some(delta) = &choice.delta {
                if let Some(content) = &delta.content {
                    self.content.append(content.as_str());
                }
                let ghost mid = self@;
                let mut i: usize = 0;
                assert(delta.tool_calls@.take(0) =~= Seq::empty());
                while i < delta.tool_calls.len()
                    invariant
                        i <= delta.tool_calls@.len(),
                        self@ == (AssemblyView {
                            calls: calls_with_all(mid.calls, delta.tool_calls@.take(i as int)),
                            ..mid
                        }),
                    decreases delta.tool_calls@.len() - i,
                {
                    self.add_fragment(&delta.tool_calls[i]);
                    proof {
                        let next = delta.tool_calls@.take(i as int + 1);
                        assert(next.drop_last() =~= delta.tool_calls@.take(i as int));
                        assert(next.last() == delta.tool_calls@[i as int]);
                    }
                    i = i + 1;
                }
                assert(delta.tool_calls@.take(delta.tool_calls@.len() as int)
                    =~= delta.tool_calls@);
            }
        }
        assert(self@.content =~= with_chunk(start, *chunk).content);
    }

    /// The response that the chunks make up. A response whose chunks gave no
    /// identifier gets `fallback_id`, one whose chunks gave no model gets
    /// `requested_model`. Calls without an identifier or a name are dropped.
    pub fn finish_with_id(self, requested_model: String, fallback_id: String) -> (r: QwenResponse)
        ensures
            r.id@ == (match self@.id {
                Some(id) => id,
                None => fallback_id@,
            }),
            r.model@ == (match self@.model {
                Some(m) => m,
                None => requested_model@,
            }),
            r.choices@.len() == 1,
            r.choices@[0].index == 0,
            r.choices@[0].message@ == assembled_message(self@),
            r.choices@[0].message@.content == Some(self@.content),
            stream_laws::calls_in(r.choices@[0].message@) == self@.calls.filter(
                stream_laws::has_id_and_name(),
            ),
            types::opt_text(r.choices@[0].finish_reason) == self@.finish_reason,
            r.usage == (match self@.usage {
                Some(u) => u,
                None => (QwenUsage { prompt_tokens: 0, completion_tokens: 0 }),
            }),
    {
        let ghost start = self@;
        let mut kept: Vec<QwenToolCall> = Vec::new();
        let mut i: usize = 0;
        proof {
            assert(request::tool_call_views(kept@) =~= Seq::empty());
            assert(start.calls.take(0) =~= Seq::empty());
        }
        while i < self.calls.len()
            invariant
                i <= self.calls@.len(),
                start == self@,
                request::tool_call_views(kept@) == complete_calls(start.calls.take(i as int)),
            decreases self.calls@.len() - i,
        {
            let c = &self.calls[i];
            let ghost before = request::tool_call_views(kept@);
            proof {
                let next = start.calls.take(i as int + 1);
                assert(next.drop_last() =~= start.calls.take(i as int));
                assert(next.last() == c@);
            }
            if !c.id.as_str().is_empty() && !c.function.name.as_str().is_empty() {
                let copy = QwenToolCall {
                    id: c.id.clone(),
                    kind: c.kind.clone(),
                    function: QwenFunctionCall {
                        name: c.function.name.clone(),
                        arguments: c.function.arguments.clone(),
                    },
                };
                kept.push(copy);
                assert(request::tool_call_views(kept@) =~= before.push(c@));
            }
            i = i + 1;
        }
        proof {
            assert(start.calls.take(self.calls@.len() as int) =~= start.calls);
            stream_laws::no_complete_call_is_lost(start);
        }
        let tool_calls: Option<Vec<QwenToolCall>> = if kept.len() == 0 {
            None
        } else {
            Some(kept)
        };
        let message = QwenMessage {
            role: "assistant".to_string(),
            content: Some(self.content),
            tool_calls,
            tool_call_id: None,
        };
        let id = match self.id {
            Some(id) => id,
            None => fallback_id,
        };
        let model = match self.model {
            Some(m) => m,
            None => requested_model,
        };
        let usage = match self.usage {
            Some(u) => u,
            None => QwenUsage { prompt_tokens: 0, completion_tokens: 0 },
        };
        QwenResponse {
            id,
            model,
            choices: vec![QwenChoice { index: 0, message, finish_reason: self.finish_reason }],
            usage,
        }
    }

    /// The response that the chunks make up. A response whose chunks gave no
    /// identifier gets a fresh one.
    pub fn finish(self, requested_model: String) -> (r: QwenResponse)
        ensures
            match self@.id {
                Some(id) => r.id@ == id,
                None => exists|u: Seq<char>| ids::is_uuid(u) && r.id@ == #[trigger] ("qwen-stream-"@ + u),
            },
            r.model@ == (match self@.model {
                Some(m) => m,
                None => requested_model@,
            }),
            r.choices@.len() == 1,
            r.choices@[0].message@ == assembled_message(self@),
            types::opt_text(r.choices@[0].finish_reason) == self@.finish_reason,
            r.usage == (match self@.usage {
                Some(u) => u,
                None => (QwenUsage { prompt_tokens: 0, completion_tokens: 0 }),
            }),
    {
        let uuid = ids::new_uuid_text();
        let mut fallback_id = "qwen-stream-".to_string();
        fallback_id.append(uuid.as_str());
        self.finish_with_id(requested_model, fallback_id)
    }
}

/// The events for the block at `index`. Text and reasoning come as a delta, if
/// there is any; another block comes whole.
pub open spec fn block_events(index: nat, b: BlockView) -> Seq<EventView> {
    match b {
        BlockView::Text { text } => {
            let start = EventView::BlockStart {
                index,
                block: BlockView::Text { text: Seq::empty() },
            };
            if text.len() == 0 {
                seq![start, EventView::BlockStop { index }]
            } else {
                seq![start, EventView::TextDelta { index, text }, EventView::BlockStop { index }]
            }
        },
        BlockView::Thinking { thinking } => {
            let start = EventView::BlockStart {
                index,
                block: BlockView::Thinking { thinking: Seq::empty() },
            };
            if thinking.len() == 0 {
                seq![start, EventView::BlockStop { index }]
            } else {
                seq![
                    start,
                    EventView::ThinkingDelta { index, thinking },
                    EventView::BlockStop { index },
                ]
            }
        },
        _ => seq![EventView::BlockStart { index, block: b }, EventView::BlockStop { index }],
    }
}

/// The events for the blocks, numbered from zero.
pub open spec fn all_block_events(blocks: Seq<BlockView>) -> Seq<EventView>
    decreases blocks.len(),
{
    if blocks.len() == 0 {
        Seq::empty()
    } else {
        all_block_events(blocks.drop_last()) + block_events(
            (blocks.len() - 1) as nat,
            blocks.last(),
        )
    }
}

/// The events for a response.
pub open spec fn response_events(r: LLMResponse) -> Seq<EventView> {
    seq![
        EventView::MessageStart {
            id: r.id@,
            model: r.model@,
            role: Role::Assistant,
            usage: TokenUsage { input_tokens: 0, output_tokens: 0 },
        },
    ] + all_block_events(types::block_views(r.content@)) + seq![
        EventView::MessageDelta {
            stop_reason: r.stop_reason,
            stop_sequence: None,
            usage: r.usage,
            perf_metrics: None,
        },
        EventView::MessageStop,
    ]
}

/// The blocks `blocks` with an event added: a start adds a block, a delta adds
/// to the last one.
pub open spec fn with_event(blocks: Seq<BlockView>, e: EventView) -> Seq<BlockView> {
    match e {
        EventView::BlockStart { block, .. } => blocks.push(block),
        EventView::TextDelta { text, .. } => match blocks.last() {
            BlockView::Text { text: t } => blocks.update(
                blocks.len() - 1,
                BlockView::Text { text: t + text },
            ),
            _ => blocks,
        },
        EventView::ThinkingDelta { thinking, .. } => match blocks.last() {
            BlockView::Thinking { thinking: t } => blocks.update(
                blocks.len() - 1,
                BlockView::Thinking { thinking: t + thinking },
            ),
            _ => blocks,
        },
        _ => blocks,
    }
}

/// The blocks that a consumer puts together from events.
pub open spec fn rebuilt(events: Seq<EventView>) -> Seq<BlockView>
    decreases events.len(),
{
    if events.len() == 0 {
        Seq::empty()
    } else {
        with_event(rebuilt(events.drop_last()), events.last())
    }
}

proof fn lemma_rebuilt_step(events: Seq<EventView>, e: EventView)
    ensures
        rebuilt(events.push(e)) == with_event(rebuilt(events), e),
{
    assert(events.push(e).drop_last() =~= events);
}

/// A consumer that puts the events of a response together has the blocks of
/// that response: nothing is lost or changed on the way.
pub proof fn events_rebuild_the_response(r: LLMResponse)
    ensures
        rebuilt(response_events(r)) == types::block_views(r.content@),
{
    let blocks = types::block_views(r.content@);
    let start = EventView::MessageStart {
        id: r.id@,
        model: r.model@,
        role: Role::Assistant,
        usage: TokenUsage { input_tokens: 0, output_tokens: 0 },
    };
    let delta = EventView::MessageDelta {
        stop_reason: r.stop_reason,
        stop_sequence: None,
        usage: r.usage,
        perf_metrics: None,
    };
    lemma_rebuilt_step(Seq::empty(), start);
    assert(rebuilt(Seq::empty()) =~= Seq::<BlockView>::empty());
    assert(seq![start] =~= Seq::empty().push(start));
    lemma_rebuilt_blocks(seq![start], blocks);
    let body = seq![start] + all_block_events(blocks);
    assert(response_events(r) =~= body.push(delta).push(EventView::MessageStop));
    lemma_rebuilt_step(body, delta);
    lemma_rebuilt_step(body.push(delta), EventView::MessageStop);
}

proof fn lemma_rebuilt_blocks(head: Seq<EventView>, blocks: Seq<BlockView>)
    requires
        rebuilt(head) == Seq::<BlockView>::empty(),
    ensures
        rebuilt(head + all_block_events(blocks)) == blocks,
    decreases blocks.len(),
{
    if blocks.len() == 0 {
        assert(head + all_block_events(blocks) =~= head);
        assert(blocks =~= Seq::empty());
    } else {
        lemma_rebuilt_blocks(head, blocks.drop_last());
        let before = head + all_block_events(blocks.drop_last());
        let index = (blocks.len() - 1) as nat;
        let b = blocks.last();
        let events = block_events(index, b);
        assert(head + all_block_events(blocks) =~= before + events);
        let one = before.push(events[0]);
        lemma_rebuilt_step(before, events[0]);
        if events.len() == 2 {
            assert(before + events =~= one.push(events[1]));
            lemma_rebuilt_step(one, events[1]);
            match b {
                BlockView::Text { text } => {
                    assert(text =~= Seq::empty());
                },
                BlockView::Thinking { thinking } => {
                    assert(thinking =~= Seq::empty());
                },
                _ => {},
            }
            assert(rebuilt(before + events) =~= blocks.drop_last().push(b));
            assert(blocks.drop_last().push(b) =~= blocks);
        } else {
            let two = one.push(events[1]);
            assert(before + events =~= two.push(events[2]));
            lemma_rebuilt_step(one, events[1]);
            lemma_rebuilt_step(two, events[2]);
            match b {
                BlockView::Text { text } => {
                    assert(Seq::<char>::empty() + text =~= text);
                },
                BlockView::Thinking { thinking } => {
                    assert(Seq::<char>::empty() + thinking =~= thinking);
                },
                _ => {},
            }
            assert(rebuilt(before + events) =~= blocks.drop_last().push(b));
            assert(blocks.drop_last().push(b) =~= blocks);
        }
    }
}

/// Adds the events for the block at `index`.
fn push_block_events(events: &mut Vec<StreamEvent>, index: usize, b: &ContentBlock)
    ensures
        types::event_views(final(events)@) == types::event_views(old(events)@) + block_events(
            index as nat,
            b@,
        ),
{
    let ghost start = types::event_views(events@);
    match b {
        ContentBlock::Text { text } => {
            let empty = String::new();
            assert(empty@ =~= Seq::empty());
            events.push(
                StreamEvent::ContentBlockStart {
                    index,
                    content_block: ContentBlock::Text { text: empty },
                },
            );
            if !text.as_str().is_empty() {
                events.push(
                    StreamEvent::ContentBlockDelta {
                        index,
                        delta: ContentDelta::TextDelta { text: text.clone() },
                    },
                );
            }
            events.push(StreamEvent::ContentBlockStop { index });
        },
        ContentBlock::Thinking { thinking } => {
            let empty = String::new();
            assert(empty@ =~= Seq::empty());
            events.push(
                StreamEvent::ContentBlockStart {
                    index,
                    content_block: ContentBlock::Thinking { thinking: empty },
                },
            );
            if !thinking.as_str().is_empty() {
                events.push(
                    StreamEvent::ContentBlockDelta {
                        index,
                        delta: ContentDelta::ThinkingDelta { thinking: thinking.clone() },
                    },
                );
            }
            events.push(StreamEvent::ContentBlockStop { index });
        },
        _ => {
            events.push(StreamEvent::ContentBlockStart { index, content_block: b.clone() });
            events.push(StreamEvent::ContentBlockStop { index });
        },
    }
    assert(types::event_views(events@) =~= start + block_events(index as nat, b@));
}

/// The events for a response, in order.
pub fn llm_response_to_stream_events(response: LLMResponse) -> (r: Vec<StreamEvent>)
    ensures
        types::event_views(r@) == response_events(response),
        rebuilt(types::event_views(r@)) == types::block_views(response.content@),
{
    let ghost blocks = types::block_views(response.content@);
    let ghost first = response_events(response).take(1);
    let mut events: Vec<StreamEvent> = Vec::new();
    events.push(
        StreamEvent::MessageStart {
            message: StreamMessage {
                id: response.id.clone(),
                model: response.model.clone(),
                role: Role::Assistant,
                usage: TokenUsage { input_tokens: 0, output_tokens: 0 },
            },
        },
    );
    let mut index: usize = 0;
    proof {
        assert(types::event_views(events@) =~= first);
        assert(blocks.take(0) =~= Seq::empty());
        assert(first + all_block_events(blocks.take(0)) =~= first);
    }
    while index < response.content.len()
        invariant
            index <= response.content@.len(),
            blocks == types::block_views(response.content@),
            types::event_views(events@) == first + all_block_events(blocks.take(index as int)),
        decreases response.content@.len() - index,
    {
        push_block_events(&mut events, index, &response.content[index]);
        proof {
            let next = blocks.take(index as int + 1);
            assert(next.drop_last() =~= blocks.take(index as int));
            assert(next.last() == response.content@[index as int]@);
            assert(types::event_views(events@) =~= first + all_block_events(next));
        }
        index = index + 1;
    }
    let ghost body = types::event_views(events@);
    assert(blocks.take(response.content@.len() as int) =~= blocks);
    events.push(
        StreamEvent::MessageDelta {
            delta: MessageDelta { stop_reason: response.stop_reason, stop_sequence: None },
            usage: response.usage,
            perf_metrics: None,
        },
    );
    events.push(StreamEvent::MessageStop);
    proof {
        let end = types::event_views(events@);
        assert(end =~= body.push(end[end.len() - 2]).push(end[end.len() - 1]));
        assert(first =~= seq![response_events(response)[0]]);
        assert(end =~= response_events(response));
        events_rebuild_the_response(response);
    }
    events
}

/// The payloads of an event stream, in order, from its bytes. Bytes that are no
/// text are replaced.
pub fn byte_payloads(bytes: &[u8]) -> (r: Vec<String>)
    ensures
        text::texts(r@) == payloads(lines_from(decode::utf8_lossy(bytes@), 0)),
        vstd::utf8::valid_utf8(bytes@) ==> text::texts(r@) == payloads(
            lines_from(vstd::utf8::decode_utf8(bytes@), 0),
        ),
{
    let text = decode::lossy_text(bytes);
    sse_payloads(text.as_str())
}

impl QwenProvider {
    /// The events for a response that came in `chunks`. The chunks are put
    /// together first and then read as a response that came in one piece, so
    /// that tool calls are found alike in both.
    pub fn stream_events(
        &self,
        chunks: &Vec<QwenStreamChunk>,
        requested_model: String,
        known_tools: &[String],
    ) -> (r: Vec<StreamEvent>)
        ensures
            ({
                let a = with_chunks(nothing_yet(), chunks@);
                let events = types::event_views(r@);
                let (blocks, has_calls) = response::message_blocks(
                    *self,
                    assembled_message(a),
                    text::texts(known_tools@),
                );
                let usage = match a.usage {
                    Some(u) => u,
                    None => QwenUsage { prompt_tokens: 0, completion_tokens: 0 },
                };
                &&& response::blocks_fit(rebuilt(events), blocks)
                &&& events.len() >= 3
                &&& events == seq![events[0]] + all_block_events(rebuilt(events)) + seq![
                    EventView::MessageDelta {
                        stop_reason: response::stop_reason(has_calls, a.finish_reason),
                        stop_sequence: None,
                        usage: TokenUsage {
                            input_tokens: usage.prompt_tokens,
                            output_tokens: usage.completion_tokens,
                        },
                        perf_metrics: None,
                    },
                    EventView::MessageStop,
                ]
                &&& events[0] matches EventView::MessageStart { id, model, role, usage } && {
                    &&& role == Role::Assistant
                    &&& usage == (TokenUsage { input_tokens: 0, output_tokens: 0 })
                    &&& model == (match a.model {
                        Some(m) => m,
                        None => requested_model@,
                    })
                    &&& match a.id {
                        Some(given) => id == given,
                        None => exists|u: Seq<char>|
                            ids::is_uuid(u) && id == #[trigger] ("qwen-stream-"@ + u),
                    }
                }
            }),
    {
        let mut assembly = StreamAssembly::new();
        let mut i: usize = 0;
        assert(chunks@.take(0) =~= Seq::empty());
        while i < chunks.len()
            invariant
                i <= chunks@.len(),
                assembly@ == with_chunks(nothing_yet(), chunks@.take(i as int)),
            decreases chunks@.len() - i,
        {
            assembly.add_chunk(&chunks[i]);
            proof {
                let next = chunks@.take(i as int + 1);
                assert(next.drop_last() =~= chunks@.take(i as int));
                assert(next.last() == chunks@[i as int]);
            }
            i = i + 1;
        }
        assert(chunks@.take(chunks@.len() as int) =~= chunks@);
        let whole = assembly.finish(requested_model);
        let read = self.from_qwen_response(whole, known_tools);
        llm_response_to_stream_events(read)
    }
}

} // verus!
