//! What holds of every streamed answer: what is read from the wire, what the
//! chunks add up to, and what the events tell of it.

use crate::qwen::request;
use crate::qwen::request::ToolCallView;
use crate::qwen::stream;
use crate::qwen::stream::{AssemblyView, QwenStreamChunk, QwenToolCallDelta};
use crate::text;
use crate::types;
use crate::types::{BlockView, EventView, LLMResponse, Role, TokenUsage};
use vstd::prelude::*;

verus! {

/// Whether a call has an identifier and a name.
pub open spec fn has_id_and_name() -> spec_fn(ToolCallView) -> bool {
    |c: ToolCallView| c.id.len() > 0 && c.name.len() > 0
}

/// The tool calls of a message.
pub open spec fn calls_in(m: request::MessageView) -> Seq<ToolCallView> {
    match m.tool_calls {
        Some(calls) => calls,
        None => Seq::empty(),
    }
}

proof fn lemma_complete_calls(calls: Seq<ToolCallView>)
    ensures
        stream::complete_calls(calls) == calls.filter(has_id_and_name()),
    decreases calls.len(),
{
    reveal(Seq::filter);
    if calls.len() > 0 {
        lemma_complete_calls(calls.drop_last());
    } else {
        assert(calls =~= Seq::empty());
    }
}

/// Every call that has an identifier and a name is in the assembled message, as
/// often and in the order it came, and no other is. A message without such a
/// call has no list of calls. The text is the text that came.
pub proof fn no_complete_call_is_lost(a: AssemblyView)
    ensures
        calls_in(stream::assembled_message(a)) == a.calls.filter(has_id_and_name()),
        forall|i: int|
            0 <= i < a.calls.len() && a.calls[i].id.len() > 0 && a.calls[i].name.len() > 0
                ==> calls_in(stream::assembled_message(a)).contains(#[trigger] a.calls[i]),
        forall|k: int|
            0 <= k < calls_in(stream::assembled_message(a)).len() ==> {
                let c = #[trigger] calls_in(stream::assembled_message(a))[k];
                c.id.len() > 0 && c.name.len() > 0 && a.calls.contains(c)
            },
        stream::assembled_message(a).tool_calls is None <==> (forall|i: int|
            0 <= i < a.calls.len() ==> (#[trigger] a.calls[i]).id.len() == 0
                || a.calls[i].name.len() == 0),
        stream::assembled_message(a).role == "assistant"@,
        stream::assembled_message(a).content == Some(a.content),
        stream::assembled_message(a).tool_call_id is None,
{
    lemma_complete_calls(a.calls);
    a.calls.filter_lemma(has_id_and_name());
    let kept = calls_in(stream::assembled_message(a));
    assert forall|i: int|
        0 <= i < a.calls.len() && a.calls[i].id.len() > 0 && a.calls[i].name.len()
            > 0 implies kept.contains(#[trigger] a.calls[i]) by {
        assert(has_id_and_name()(a.calls[i]));
        assert(a.calls.filter(has_id_and_name()).contains(a.calls[i]));
    }
    assert forall|k: int| 0 <= k < kept.len() implies {
        let c = #[trigger] kept[k];
        c.id.len() > 0 && c.name.len() > 0 && a.calls.contains(c)
    } by {
        let c = a.calls.filter(has_id_and_name())[k];
        assert(has_id_and_name()(c));
        a.calls.lemma_filter_contains_rev(has_id_and_name(), c);
    }
    if kept.len() > 0 {
        let c = kept[0];
        assert(a.calls.contains(c));
        let i = choose|i: int| 0 <= i < a.calls.len() && a.calls[i] == c;
        assert(a.calls[i].id.len() > 0);
    }
}

/// What is kept of a list of calls does not depend on what stands around it.
pub proof fn calls_are_kept_one_by_one(a: AssemblyView, x: Seq<ToolCallView>, y: Seq<ToolCallView>)
    ensures
        calls_in(stream::assembled_message(AssemblyView { calls: x + y, ..a })) == calls_in(
            stream::assembled_message(AssemblyView { calls: x, ..a }),
        ) + calls_in(stream::assembled_message(AssemblyView { calls: y, ..a })),
{
    lemma_complete_calls(x);
    lemma_complete_calls(y);
    lemma_complete_calls(x + y);
    Seq::filter_distributes_over_add(x, y, has_id_and_name());
}

/// A fragment of a tool call goes to the call at its index: an identifier or a
/// name in it counts from now on, and arguments in it go behind those that came
/// before. No other call changes, and calls that are not known yet begin empty.
/// A fragment with an index above 128 changes nothing.
pub proof fn a_fragment_goes_to_its_own_call(calls: Seq<ToolCallView>, d: QwenToolCallDelta)
    ensures
        d.index > 128 ==> stream::calls_with(calls, d) == calls,
        d.index <= 128 ==> {
            let next = stream::calls_with(calls, d);
            let i = d.index as int;
            &&& next.len() == (if calls.len() > i {
                calls.len() as int
            } else {
                i + 1
            })
            &&& forall|j: int| 0 <= j < calls.len() && j != i ==> #[trigger] next[j] == calls[j]
            &&& forall|j: int|
                calls.len() <= j < i ==> (#[trigger] next[j]).id.len() == 0 && next[j].name.len()
                    == 0 && next[j].arguments.len() == 0 && next[j].kind == "function"@
            &&& next[i].kind == (if i < calls.len() {
                calls[i].kind
            } else {
                "function"@
            })
            &&& d.id matches Some(id) ==> next[i].id == id@
            &&& d.id is None && i < calls.len() ==> next[i].id == calls[i].id
            &&& d.id is None && i >= calls.len() ==> next[i].id.len() == 0
            &&& d.function matches Some(f) ==> {
                &&& f.name matches Some(n) ==> next[i].name == n@
                &&& f.name is None && i < calls.len() ==> next[i].name == calls[i].name
                &&& f.name is None && i >= calls.len() ==> next[i].name.len() == 0
                &&& f.arguments matches Some(t) ==> next[i].arguments == (if i < calls.len() {
                    calls[i].arguments + t@
                } else {
                    t@
                })
                &&& f.arguments is None && i < calls.len() ==> next[i].arguments
                    == calls[i].arguments
                &&& f.arguments is None && i >= calls.len() ==> next[i].arguments.len() == 0
            }
            &&& d.function is None && i < calls.len() ==> next[i].name == calls[i].name
                && next[i].arguments == calls[i].arguments
            &&& d.function is None && i >= calls.len() ==> next[i].name.len() == 0
                && next[i].arguments.len() == 0
        },
{
    if d.index <= 128 {
        if let Some(f) = d.function {
            if let Some(t) = f.arguments {
                assert(Seq::<char>::empty() + t@ =~= t@);
            }
        }
    }
}

/// Fragments are taken one after the other, however they are put together.
pub proof fn fragments_come_one_after_the_other(
    calls: Seq<ToolCallView>,
    x: Seq<QwenToolCallDelta>,
    y: Seq<QwenToolCallDelta>,
    d: QwenToolCallDelta,
)
    ensures
        stream::calls_with_all(calls, Seq::empty()) == calls,
        stream::calls_with_all(calls, seq![d]) == stream::calls_with(calls, d),
        stream::calls_with_all(calls, x + y) == stream::calls_with_all(
            stream::calls_with_all(calls, x),
            y,
        ),
    decreases y.len(),
{
    assert(seq![d].drop_last() =~= Seq::empty());
    assert(stream::calls_with_all(calls, Seq::<QwenToolCallDelta>::empty()) == calls);
    if y.len() == 0 {
        assert(x + y =~= x);
    } else {
        fragments_come_one_after_the_other(calls, x, y.drop_last(), d);
        assert((x + y).drop_last() =~= x + y.drop_last());
        assert((x + y).last() == y.last());
    }
}

/// The arguments that fragments hold for the call at `i`, one behind the other.
pub open spec fn arguments_for(d: Seq<QwenToolCallDelta>, i: int) -> Seq<char>
    decreases d.len(),
{
    if d.len() == 0 {
        Seq::empty()
    } else {
        let here = if d[0].index == i && d[0].function is Some
            && d[0].function.unwrap().arguments is Some {
            d[0].function.unwrap().arguments.unwrap()@
        } else {
            Seq::empty()
        };
        here + arguments_for(d.skip(1), i)
    }
}

/// However the arguments of a call are cut into fragments, and whatever other
/// calls come in between, they are the fragments for that call in their order.
pub proof fn arguments_come_together(calls: Seq<ToolCallView>, d: Seq<QwenToolCallDelta>, i: int)
    requires
        0 <= i < calls.len(),
        i <= 128,
    ensures
        stream::calls_with_all(calls, d).len() >= calls.len(),
        stream::calls_with_all(calls, d)[i].arguments == calls[i].arguments + arguments_for(d, i),
    decreases d.len(),
{
    if d.len() == 0 {
        assert(calls[i].arguments + arguments_for(d, i) =~= calls[i].arguments);
    } else {
        let next = stream::calls_with(calls, d[0]);
        fragments_come_one_after_the_other(calls, seq![d[0]], d.skip(1), d[0]);
        assert(seq![d[0]] + d.skip(1) =~= d);
        arguments_come_together(next, d.skip(1), i);
        let rest = arguments_for(d.skip(1), i);
        assert(next[i].arguments + rest =~= calls[i].arguments + arguments_for(d, i));
    }
}

/// A chunk adds the text of its first choice, and its fragments. The first chunk
/// gives the identifier and the model; a later usage, and a later reason that is
/// not empty, replaces an earlier one.
pub proof fn a_chunk_adds_to_what_came(a: AssemblyView, chunk: QwenStreamChunk)
    ensures
        ({
            let next = stream::with_chunk(a, chunk);
            &&& a.id is None ==> next.id == Some(chunk.id@) && next.model == types::opt_text(
                chunk.model,
            )
            &&& a.id is Some ==> next.id == a.id && next.model == a.model
            &&& chunk.usage is Some ==> next.usage == chunk.usage
            &&& chunk.usage is None ==> next.usage == a.usage
            &&& chunk.choices@.len() == 0 ==> next.content == a.content && next.finish_reason
                == a.finish_reason && next.calls == a.calls
            &&& chunk.choices@.len() > 0 ==> {
                let first = chunk.choices@[0];
                &&& first.finish_reason matches Some(r) ==> next.finish_reason == (if r@.len() > 0 {
                    Some(r@)
                } else {
                    a.finish_reason
                })
                &&& first.finish_reason is None ==> next.finish_reason == a.finish_reason
                &&& first.delta is None ==> next.content == a.content && next.calls == a.calls
                &&& first.delta matches Some(d) ==> {
                    &&& d.content matches Some(t) ==> next.content == a.content + t@
                    &&& d.content is None ==> next.content == a.content
                    &&& d.tool_calls@.len() == 0 ==> next.calls == a.calls
                    &&& d.tool_calls@.len() > 0 ==> next.calls == stream::calls_with_all(
                        stream::calls_with(a.calls, d.tool_calls@[0]),
                        d.tool_calls@.skip(1),
                    )
                }
            }
        }),
{
    assert(a.content + Seq::<char>::empty() =~= a.content);
    if chunk.choices@.len() > 0 {
        if let Some(d) = chunk.choices@[0].delta {
            let f = d.tool_calls@;
            if f.len() > 0 {
                fragments_come_one_after_the_other(a.calls, seq![f[0]], f.skip(1), f[0]);
                assert(seq![f[0]] + f.skip(1) =~= f);
            }
        }
    }
}

/// Chunks are taken one after the other, however they are put together, and the
/// assembly begins with nothing.
pub proof fn chunks_come_one_after_the_other(
    a: AssemblyView,
    x: Seq<QwenStreamChunk>,
    y: Seq<QwenStreamChunk>,
    c: QwenStreamChunk,
)
    ensures
        stream::with_chunks(a, Seq::empty()) == a,
        stream::with_chunks(a, seq![c]) == stream::with_chunk(a, c),
        stream::with_chunks(a, x + y) == stream::with_chunks(stream::with_chunks(a, x), y),
        stream::nothing_yet().content.len() == 0,
        stream::nothing_yet().calls.len() == 0,
        stream::nothing_yet().id is None,
        stream::nothing_yet().model is None,
        stream::nothing_yet().finish_reason is None,
        stream::nothing_yet().usage is None,
    decreases y.len(),
{
    assert(seq![c].drop_last() =~= Seq::empty());
    assert(stream::with_chunks(a, Seq::<QwenStreamChunk>::empty()) == a);
    if y.len() == 0 {
        assert(x + y =~= x);
    } else {
        chunks_come_one_after_the_other(a, x, y.drop_last(), c);
        assert((x + y).drop_last() =~= x + y.drop_last());
        assert((x + y).last() == y.last());
    }
}

/// The identifier and the model of a streamed answer are those of its first
/// chunk.
pub proof fn the_first_chunk_names_the_answer(chunks: Seq<QwenStreamChunk>)
    requires
        chunks.len() > 0,
    ensures
        stream::with_chunks(stream::nothing_yet(), chunks).id == Some(chunks[0].id@),
        stream::with_chunks(stream::nothing_yet(), chunks).model == types::opt_text(
            chunks[0].model,
        ),
    decreases chunks.len(),
{
    if chunks.len() > 1 {
        the_first_chunk_names_the_answer(chunks.drop_last());
    } else {
        assert(chunks.drop_last() =~= Seq::empty());
        let none = Seq::<QwenStreamChunk>::empty();
        assert(stream::with_chunks(stream::nothing_yet(), none) == stream::nothing_yet());
    }
}

/// Whether a chunk says why the answer ended.
pub open spec fn gives_a_reason(c: QwenStreamChunk) -> bool {
    c.choices@.len() > 0 && c.choices@[0].finish_reason is Some
        && c.choices@[0].finish_reason.unwrap()@.len() > 0
}

/// The usage and the reason of a streamed answer are the last that were given.
pub proof fn the_last_usage_and_reason_count(
    a: AssemblyView,
    chunks: Seq<QwenStreamChunk>,
    k: int,
)
    requires
        0 <= k < chunks.len(),
    ensures
        chunks[k].usage is Some && (forall|j: int|
            k < j < chunks.len() ==> (#[trigger] chunks[j]).usage is None) ==> stream::with_chunks(
            a,
            chunks,
        ).usage == chunks[k].usage,
        gives_a_reason(chunks[k]) && (forall|j: int|
            k < j < chunks.len() ==> !gives_a_reason(#[trigger] chunks[j])) ==> stream::with_chunks(a, chunks).finish_reason == Some(
            chunks[k].choices@[0].finish_reason.unwrap()@,
        ),
    decreases chunks.len(),
{
    if k < chunks.len() - 1 {
        let before = chunks.drop_last();
        the_last_usage_and_reason_count(a, before, k);
        assert(before[k] == chunks[k]);
        assert forall|j: int| k < j < before.len() implies #[trigger] before[j] == chunks[j] by {}
    }
}

proof fn lemma_lines_in_rest(h: Seq<char>, p: int, pos: int)
    requires
        0 <= p <= h.len(),
        0 <= pos,
    ensures
        stream::lines_from(h, p + pos) == stream::lines_from(h.skip(p), pos),
    decreases h.len() - p - pos,
{
    reveal_strlit("\n");
    let t = h.skip(p);
    if pos < t.len() {
        text::lemma_find_in_rest(h, p, pos, "\n"@);
        text::find_from_is_first(t, pos, "\n"@);
        match text::find_from(t, pos, "\n"@) {
            Some(i) => {
                lemma_lines_in_rest(h, p, i + 1);
                assert(h.subrange(p + pos, p + i) =~= t.subrange(pos, i));
            },
            None => {
                assert(h.skip(p + pos) =~= t.skip(pos));
            },
        }
    }
}

/// A line ends at the first line feed: what stands before it is the line,
/// without the carriage return that may end it, and the lines behind it are
/// those of the text behind it. Text without a line feed is one line.
pub proof fn a_line_ends_at_its_line_feed(x: Seq<char>, y: Seq<char>)
    requires
        !x.contains('\n'),
    ensures
        x.len() == 0 || x.last() != '\r' ==> stream::lines_from(x + "\n"@ + y, 0) == seq![x]
            + stream::lines_from(y, 0),
        stream::lines_from(x + "\r\n"@ + y, 0) == seq![x] + stream::lines_from(y, 0),
        x.len() > 0 ==> stream::lines_from(x, 0) == seq![x],
        stream::lines_from(Seq::empty(), 0) == Seq::<Seq<char>>::empty(),
{
    reveal_strlit("\n");
    reveal_strlit("\r\n");
    lemma_first_line(x, y);
    let z = x.push('\r');
    assert forall|i: int| 0 <= i < z.len() implies z[i] != '\n' by {
        if i < x.len() {
            assert(x.contains(x[i]));
        }
    }
    lemma_first_line(z, y);
    assert(z.drop_last() =~= x);
    assert(z + "\n"@ + y =~= x + "\r\n"@ + y);
    if x.len() > 0 {
        text::find_from_is_first(x, 0, "\n"@);
        if let Some(i) = text::find_from(x, 0, "\n"@) {
            assert(x.subrange(i, i + 1)[0] == x[i]);
        }
        assert(x.skip(0) =~= x);
    }
}

proof fn lemma_first_line(x: Seq<char>, y: Seq<char>)
    requires
        !x.contains('\n'),
    ensures
        stream::lines_from(x + "\n"@ + y, 0) == seq![text::without_return(x)] + stream::lines_from(
            y,
            0,
        ),
{
    reveal_strlit("\n");
    let h = x + "\n"@ + y;
    let n = x.len() as int;
    text::find_from_is_first(h, 0, "\n"@);
    assert(h.subrange(n, n + 1) =~= "\n"@);
    assert(text::occurs_at(h, "\n"@, n));
    let i = text::find_from(h, 0, "\n"@).unwrap();
    assert(h.subrange(i, i + 1)[0] == h[i]);
    assert(i == n);
    assert(h.subrange(0, n) =~= x);
    assert(h.skip(n + 1) =~= y);
    lemma_lines_in_rest(h, n + 1, 0);
}

/// What an event stream holds is what stands behind `data: ` in its lines, up to
/// the line that says it is done. Other lines do not count.
pub proof fn data_lines_are_payloads(p: Seq<char>, other: Seq<char>, rest: Seq<Seq<char>>)
    ensures
        p != "[DONE]"@ ==> stream::payloads(seq!["data: "@ + p] + rest) == seq![p]
            + stream::payloads(rest),
        stream::payloads(seq!["data: [DONE]"@] + rest) == Seq::<Seq<char>>::empty(),
        other.len() < 6 || other.take(6) != "data: "@ ==> stream::payloads(seq![other] + rest)
            == stream::payloads(rest),
        stream::payloads(Seq::empty()) == Seq::<Seq<char>>::empty(),
{
    reveal_strlit("data: ");
    reveal_strlit("[DONE]");
    reveal_strlit("data: [DONE]");
    let line = "data: "@ + p;
    let a = seq![line] + rest;
    assert(a[0] == line);
    assert(a.skip(1) =~= rest);
    assert(line.subrange(0, 6) =~= "data: "@);
    assert(line.skip(6) =~= p);
    let b = seq!["data: [DONE]"@] + rest;
    assert(b[0] == "data: [DONE]"@);
    assert("data: [DONE]"@.subrange(0, 6) =~= "data: "@);
    assert("data: [DONE]"@.skip(6) =~= "[DONE]"@);
    let c = seq![other] + rest;
    assert(c[0] == other);
    assert(c.skip(1) =~= rest);
    if other.len() >= 6 {
        assert(other.subrange(0, 6) =~= other.take(6));
    }
}

/// Payloads as they are sent: each in a line of its own, with an empty line
/// behind it.
pub open spec fn sent(payloads: Seq<Seq<char>>) -> Seq<char>
    decreases payloads.len(),
{
    if payloads.len() == 0 {
        Seq::empty()
    } else {
        "data: "@ + payloads[0] + "\n"@ + ("\n"@ + sent(payloads.skip(1)))
    }
}

/// Every payload that is sent is read back, in its order, and whatever follows
/// the line that says the stream is done is not read.
pub proof fn sent_payloads_are_read_back(p: Seq<Seq<char>>, behind: Seq<char>)
    requires
        forall|i: int|
            0 <= i < p.len() ==> !(#[trigger] p[i]).contains('\n') && p[i] != "[DONE]"@ && (
            p[i].len() == 0 || p[i].last() != '\r'),
    ensures
        stream::payloads(stream::lines_from(sent(p), 0)) == p,
        stream::payloads(stream::lines_from(sent(p) + "data: [DONE]"@ + "\n"@ + behind, 0)) == p,
{
    reveal_strlit("data: [DONE]");
    lemma_sent(p, Seq::empty());
    assert(sent(p) + Seq::<char>::empty() =~= sent(p));
    assert(p + Seq::<Seq<char>>::empty() =~= p);
    a_line_ends_at_its_line_feed(Seq::empty(), Seq::empty());
    data_lines_are_payloads(Seq::empty(), Seq::empty(), Seq::empty());
    let done = "data: [DONE]"@;
    lemma_sent(p, done + "\n"@ + behind);
    a_line_ends_at_its_line_feed(done, behind);
    data_lines_are_payloads(Seq::empty(), Seq::empty(), stream::lines_from(behind, 0));
    assert(sent(p) + (done + "\n"@ + behind) =~= sent(p) + done + "\n"@ + behind);
}

proof fn lemma_sent(p: Seq<Seq<char>>, t: Seq<char>)
    requires
        forall|i: int|
            0 <= i < p.len() ==> !(#[trigger] p[i]).contains('\n') && p[i] != "[DONE]"@ && (
            p[i].len() == 0 || p[i].last() != '\r'),
    ensures
        stream::payloads(stream::lines_from(sent(p) + t, 0)) == p + stream::payloads(
            stream::lines_from(t, 0),
        ),
    decreases p.len(),
{
    if p.len() == 0 {
        assert(sent(p) + t =~= t);
        assert(p + stream::payloads(stream::lines_from(t, 0)) =~= stream::payloads(
            stream::lines_from(t, 0),
        ));
    } else {
        reveal_strlit("data: ");
        reveal_strlit("\n");
        let rest = p.skip(1);
        let tail = sent(rest) + t;
        let line = "data: "@ + p[0];
        let empty = Seq::<char>::empty();
        assert forall|i: int| 0 <= i < line.len() implies line[i] != '\n' by {
            if i >= 6 {
                assert(p[0].contains(p[0][i - 6]));
            }
        }
        lemma_sent(rest, t);
        a_line_ends_at_its_line_feed(line, "\n"@ + tail);
        a_line_ends_at_its_line_feed(empty, tail);
        assert(empty + "\n"@ + tail =~= "\n"@ + tail);
        assert(sent(p) + t =~= line + "\n"@ + ("\n"@ + tail));
        let lines = stream::lines_from(tail, 0);
        data_lines_are_payloads(p[0], empty, seq![empty] + lines);
        data_lines_are_payloads(p[0], empty, lines);
        assert(p + stream::payloads(stream::lines_from(t, 0)) =~= seq![p[0]] + (rest
            + stream::payloads(stream::lines_from(t, 0))));
    }
}

/// How many blocks events begin.
pub open spec fn begun(events: Seq<EventView>) -> nat
    decreases events.len(),
{
    if events.len() == 0 {
        0
    } else {
        begun(events.drop_last()) + if events.last() is BlockStart {
            1nat
        } else {
            0
        }
    }
}

/// How many blocks events end.
pub open spec fn ended(events: Seq<EventView>) -> nat
    decreases events.len(),
{
    if events.len() == 0 {
        0
    } else {
        ended(events.drop_last()) + if events.last() is BlockStop {
            1nat
        } else {
            0
        }
    }
}

/// Whether `e` may come next when `events` have come: a block begins only where
/// none is open, with the next number, and with no text yet; what is added and
/// the end carry the number of the open block, and nothing is added that is
/// empty.
pub open spec fn may_come_next(events: Seq<EventView>, e: EventView) -> bool {
    match e {
        EventView::MessageStart { .. } => events.len() == 0,
        EventView::BlockStart { index, block } => begun(events) == ended(events) && index == begun(
            events,
        ) && match block {
            BlockView::Text { text } => text.len() == 0,
            BlockView::Thinking { thinking } => thinking.len() == 0,
            _ => true,
        },
        EventView::TextDelta { index, text } => begun(events) == ended(events) + 1 && index
            == ended(events) && text.len() > 0,
        EventView::ThinkingDelta { index, thinking } => begun(events) == ended(events) + 1
            && index == ended(events) && thinking.len() > 0,
        EventView::BlockStop { index } => begun(events) == ended(events) + 1 && index == ended(
            events,
        ),
        EventView::MessageDelta { .. } => begun(events) == ended(events),
        EventView::MessageStop => begun(events) == ended(events),
    }
}

/// Whether every event may come where it comes.
pub open spec fn in_order(events: Seq<EventView>) -> bool
    decreases events.len(),
{
    events.len() == 0 || (in_order(events.drop_last()) && may_come_next(
        events.drop_last(),
        events.last(),
    ))
}

proof fn lemma_next(events: Seq<EventView>, e: EventView)
    requires
        in_order(events),
        may_come_next(events, e),
    ensures
        in_order(events.push(e)),
        begun(events.push(e)) == begun(events) + if e is BlockStart {
            1nat
        } else {
            0
        },
        ended(events.push(e)) == ended(events) + if e is BlockStop {
            1nat
        } else {
            0
        },
{
    assert(events.push(e).drop_last() =~= events);
}

proof fn lemma_block_in_order(head: Seq<EventView>, index: nat, b: BlockView)
    requires
        in_order(head),
        begun(head) == index,
        ended(head) == index,
    ensures
        in_order(head + stream::block_events(index, b)),
        begun(head + stream::block_events(index, b)) == index + 1,
        ended(head + stream::block_events(index, b)) == index + 1,
{
    let events = stream::block_events(index, b);
    lemma_next(head, events[0]);
    let one = head.push(events[0]);
    lemma_next(one, events[1]);
    let two = one.push(events[1]);
    if events.len() == 2 {
        assert(head + events =~= two);
    } else {
        lemma_next(two, events[2]);
        assert(head + events =~= two.push(events[2]));
    }
}

proof fn lemma_blocks_in_order(head: Seq<EventView>, blocks: Seq<BlockView>)
    requires
        in_order(head),
        begun(head) == 0,
        ended(head) == 0,
    ensures
        in_order(head + stream::all_block_events(blocks)),
        begun(head + stream::all_block_events(blocks)) == blocks.len(),
        ended(head + stream::all_block_events(blocks)) == blocks.len(),
    decreases blocks.len(),
{
    if blocks.len() == 0 {
        assert(head + stream::all_block_events(blocks) =~= head);
    } else {
        lemma_blocks_in_order(head, blocks.drop_last());
        let before = head + stream::all_block_events(blocks.drop_last());
        let index = (blocks.len() - 1) as nat;
        lemma_block_in_order(before, index, blocks.last());
        assert(head + stream::all_block_events(blocks) =~= before + stream::block_events(
            index,
            blocks.last(),
        ));
    }
}

/// The events of a response begin with its identifier and its model and end with
/// why it stopped and what it took. In between its blocks come one after the
/// other, numbered from zero, each of them ended before the next begins.
pub proof fn events_tell_all_of_a_response(r: LLMResponse)
    ensures
        ({
            let events = stream::response_events(r);
            let n = events.len();
            &&& n >= 3
            &&& events[0] == (EventView::MessageStart {
                id: r.id@,
                model: r.model@,
                role: Role::Assistant,
                usage: TokenUsage { input_tokens: 0, output_tokens: 0 },
            })
            &&& events[n - 2] == (EventView::MessageDelta {
                stop_reason: r.stop_reason,
                stop_sequence: None,
                usage: r.usage,
                perf_metrics: None,
            })
            &&& events[n - 1] is MessageStop
            &&& in_order(events)
            &&& begun(events) == r.content@.len()
            &&& ended(events) == r.content@.len()
            &&& forall|i: int|
                0 < i < n - 2 ==> (#[trigger] events[i]) is BlockStart || events[i] is TextDelta
                    || events[i] is ThinkingDelta || events[i] is BlockStop
        }),
{
    let events = stream::response_events(r);
    let blocks = types::block_views(r.content@);
    let none = Seq::<EventView>::empty();
    let start = events[0];
    let n = events.len() as int;
    lemma_next(none, start);
    assert(seq![start] =~= none.push(start));
    lemma_blocks_in_order(seq![start], blocks);
    let body = seq![start] + stream::all_block_events(blocks);
    lemma_next(body, events[n - 2]);
    lemma_next(body.push(events[n - 2]), events[n - 1]);
    assert(events =~= body.push(events[n - 2]).push(events[n - 1]));
    lemma_only_block_events(blocks);
    assert forall|i: int| 0 < i < n - 2 implies (#[trigger] events[i]) is BlockStart
        || events[i] is TextDelta || events[i] is ThinkingDelta || events[i] is BlockStop by {
        assert(events[i] == stream::all_block_events(blocks)[i - 1]);
    }
}

proof fn lemma_only_block_events(blocks: Seq<BlockView>)
    ensures
        forall|i: int|
            0 <= i < stream::all_block_events(blocks).len() ==> {
                let e = #[trigger] stream::all_block_events(blocks)[i];
                e is BlockStart || e is TextDelta || e is ThinkingDelta || e is BlockStop
            },
    decreases blocks.len(),
{
    if blocks.len() > 0 {
        lemma_only_block_events(blocks.drop_last());
        let before = stream::all_block_events(blocks.drop_last());
        let all = stream::all_block_events(blocks);
        assert forall|i: int| 0 <= i < all.len() implies {
            let e = #[trigger] all[i];
            e is BlockStart || e is TextDelta || e is ThinkingDelta || e is BlockStop
        } by {
            if i < before.len() {
                assert(all[i] == before[i]);
            }
        }
    }
}

} // verus!
