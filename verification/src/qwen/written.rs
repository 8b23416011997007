//! Tool calls that were written into a text, and how they are read from it again.

use crate::json;
use crate::qwen::calls;
use crate::qwen::calls::{Call, CallView};
use crate::qwen::markup;
use crate::qwen::markup::{CALL_CLOSE, CALL_OPEN, FN_ARGS, FN_EXIT, FN_NAME, FN_RESULT};
use crate::qwen::provider::ToolCallParser;
use crate::qwen::request;
use crate::text;
use crate::types::Message;
use serde_json::Value;
use vstd::prelude::*;

verus! {

/// The object in which the tool call `u` is written.
pub open spec fn use_object(u: (Seq<char>, Seq<char>, Value)) -> Seq<char> {
    json::call_object(u.1, json::json_text(u.2))
}

/// The tool call `u` without its identifier.
pub open spec fn use_call(u: (Seq<char>, Seq<char>, Value)) -> CallView {
    CallView { name: u.1, input: u.2 }
}

/// Tool calls without their identifiers.
pub open spec fn use_calls(uses: Seq<(Seq<char>, Seq<char>, Value)>) -> Seq<CallView> {
    Seq::new(uses.len(), |i: int| use_call(uses[i]))
}

/// The text `lead` with tool calls written behind it.
pub open spec fn with_calls(
    parser: ToolCallParser,
    lead: Seq<char>,
    uses: Seq<(Seq<char>, Seq<char>, Value)>,
) -> Seq<char> {
    lead + request::call_texts(parser, uses)
}

/// The text `lead` with tool calls written behind it in Hermes form.
pub open spec fn hermes_text(
    lead: Seq<char>,
    uses: Seq<(Seq<char>, Seq<char>, Value)>,
) -> Seq<char> {
    with_calls(ToolCallParser::Hermes, lead, uses)
}

/// Whether no tag but those around the calls is taken for one: the text before
/// them opens none, and none of them closes one.
pub open spec fn tags_are_clear(
    lead: Seq<char>,
    uses: Seq<(Seq<char>, Seq<char>, Value)>,
) -> bool {
    &&& text::find_from(lead, 0, CALL_OPEN@) is None
    &&& forall|i: int|
        0 <= i < uses.len() ==> text::find_from(use_object(#[trigger] uses[i]), 0, CALL_CLOSE@)
            is None
}

/// Whether the name of the tool call `u` needs no escape, and its input is read
/// back from the text that it is displayed as.
pub open spec fn reads_back(u: (Seq<char>, Seq<char>, Value)) -> bool {
    &&& json::is_plain(u.1)
    &&& json::is_nested_json(json::json_text(u.2))
    &&& json::json_value(json::json_text(u.2)) == Some(u.2)
}

/// Whether `r` are the tool calls that were written into `text`, wherever such
/// were written and no tag is in the way.
pub open spec fn are_read_back(text: Seq<char>, r: Seq<Call>) -> bool {
    forall|lead: Seq<char>, uses: Seq<(Seq<char>, Seq<char>, Value)>|
        text == #[trigger] hermes_text(lead, uses) && tags_are_clear(lead, uses) && (forall|i: int|
            0 <= i < uses.len() ==> reads_back(#[trigger] uses[i])) ==> calls::calls_fit(
            r,
            use_calls(uses),
        )
}

proof fn lemma_found(h: Seq<char>, start: int, n: Seq<char>, i: int)
    requires
        0 <= start <= i,
        text::occurs_at(h, n, i),
        forall|j: int| start <= j < i ==> !text::occurs_at(h, n, j),
    ensures
        text::find_from(h, start, n) == Some(i),
{
    text::find_from_is_first(h, start, n);
}

proof fn lemma_tags()
    ensures
        CALL_OPEN@.len() == 11,
        CALL_CLOSE@.len() == 12,
        !CALL_OPEN@.contains('\n'),
        !CALL_CLOSE@.contains('\n'),
{
    reveal_strlit("<tool_call>");
    reveal_strlit("</tool_call>");
    let open = seq!['<', 't', 'o', 'o', 'l', '_', 'c', 'a', 'l', 'l', '>'];
    let close = seq!['<', '/', 't', 'o', 'o', 'l', '_', 'c', 'a', 'l', 'l', '>'];
    assert(CALL_OPEN@ =~= open);
    assert(CALL_CLOSE@ =~= close);
}

/// A text does not stand across a character that is not in it.
proof fn lemma_across(h: Seq<char>, n: Seq<char>, i: int, at: int)
    requires
        0 <= at < h.len(),
        !n.contains(h[at]),
        i <= at < i + n.len(),
    ensures
        !text::occurs_at(h, n, i),
{
    if text::occurs_at(h, n, i) {
        assert(h.subrange(i, i + n.len())[at - i] == h[at]);
        assert(n[at - i] == h[at]);
    }
}

/// A text that does not stand in a part of `h` does not stand there in `h`.
proof fn lemma_inside(h: Seq<char>, from: int, part: Seq<char>, n: Seq<char>, i: int)
    requires
        0 <= from,
        from + part.len() <= h.len(),
        h.subrange(from, from + part.len()) == part,
        text::find_from(part, 0, n) is None,
        from <= i,
        i + n.len() <= from + part.len(),
    ensures
        !text::occurs_at(h, n, i),
{
    text::find_from_is_first(part, 0, n);
    if text::occurs_at(h, n, i) {
        assert(part.subrange(i - from, i - from + n.len()) =~= h.subrange(i, i + n.len()));
        assert(text::occurs_at(part, n, i - from));
    }
}

/// An object between line feeds is what is left without the white space.
proof fn lemma_trimmed(name: Seq<char>, arguments: Seq<char>)
    ensures
        text::trimmed(seq!['\n'] + json::call_object(name, arguments) + seq!['\n'])
            == json::call_object(name, arguments),
{
    let o = json::call_object(name, arguments);
    reveal_strlit("{\"name\": \"");
    reveal_strlit("\", \"arguments\": ");
    reveal_strlit("}");
    assert(o[0] == '{');
    assert(o.last() == '}');
    let s = seq!['\n'] + o + seq!['\n'];
    let t = o + seq!['\n'];
    assert(s.subrange(1, s.len() as int) =~= t);
    reveal_with_fuel(text::trimmed_start, 2);
    reveal_with_fuel(text::trimmed_end, 2);
    assert(s[0] == '\n');
    assert(t[0] == '{');
    assert(text::trimmed_start(s) == t);
    assert(t.last() == '\n');
    assert(t.drop_last() =~= o);
}

/// What a written call is made of.
proof fn lemma_shape(u: (Seq<char>, Seq<char>, Value))
    ensures
        request::call_text(ToolCallParser::Hermes, u) == seq!['\n'] + CALL_OPEN@ + (seq!['\n']
            + use_object(u) + seq!['\n']) + CALL_CLOSE@,
{
    reveal_strlit("<tool_call>");
    reveal_strlit("</tool_call>");
    reveal_strlit("\n<tool_call>\n");
    reveal_strlit("\n</tool_call>");
    assert("\n<tool_call>\n"@ =~= seq!['\n'] + CALL_OPEN@ + seq!['\n']);
    assert("\n</tool_call>"@ =~= seq!['\n'] + CALL_CLOSE@);
    assert(request::call_text(ToolCallParser::Hermes, u) =~= seq!['\n'] + CALL_OPEN@ + (seq!['\n']
        + use_object(u) + seq!['\n']) + CALL_CLOSE@);
}

/// What stands in `h` stands there in each of its parts.
proof fn lemma_part(h: Seq<char>, n: Seq<char>, i: int, from: int, to: int)
    requires
        text::occurs_at(h, n, i),
        0 <= from <= to <= n.len(),
    ensures
        h.subrange(i + from, i + to) == n.subrange(from, to),
{
    assert(h.subrange(i + from, i + to) =~= h.subrange(i, i + n.len()).subrange(from, to));
}

/// Where the parts of a call stand that is written at `p`.
proof fn lemma_places(s: Seq<char>, p: int, u: (Seq<char>, Seq<char>, Value))
    requires
        0 <= p,
        text::occurs_at(s, request::call_text(ToolCallParser::Hermes, u), p),
    ensures
        ({
            let o = use_object(u);
            let end = p + 14 + o.len();
            &&& request::call_text(ToolCallParser::Hermes, u).len() == end + 12 - p
            &&& end + 12 <= s.len()
            &&& s[p] == '\n'
            &&& s.subrange(p + 1, p + 12) == CALL_OPEN@
            &&& s[p + 12] == '\n'
            &&& s.subrange(p + 13, end - 1) == o
            &&& s[end - 1] == '\n'
            &&& s.subrange(p + 12, end) == seq!['\n'] + o + seq!['\n']
            &&& s.subrange(end, end + 12) == CALL_CLOSE@
        }),
{
    lemma_shape(u);
    lemma_tags();
    let o = use_object(u);
    let c = request::call_text(ToolCallParser::Hermes, u);
    let inner = seq!['\n'] + o + seq!['\n'];
    let size = inner.len() as int;
    let end = p + 12 + size;
    lemma_part(s, c, p, 0, 1);
    lemma_part(s, c, p, 1, 12);
    lemma_part(s, c, p, 12, 12 + size);
    lemma_part(s, c, p, 12 + size, 24 + size);
    assert(c.subrange(0, 1) =~= seq!['\n']);
    assert(c.subrange(1, 12) =~= CALL_OPEN@);
    assert(c.subrange(12, 12 + size) =~= inner);
    assert(c.subrange(12 + size, 24 + size) =~= CALL_CLOSE@);
    assert(s[p] == s.subrange(p, p + 1)[0]);
    assert(s[p + 12] == s.subrange(p + 12, end)[0]);
    assert(s[end - 1] == s.subrange(p + 12, end)[size - 1]);
    assert(s.subrange(p + 13, end - 1) =~= inner.subrange(1, size - 1));
    assert(inner.subrange(1, size - 1) =~= o);
}

/// The closing tag of a call is the first behind its opening tag.
proof fn lemma_close(s: Seq<char>, p: int, o: Seq<char>)
    requires
        0 <= p,
        p + 26 + o.len() <= s.len(),
        s[p + 12] == '\n',
        s.subrange(p + 13, p + 13 + o.len()) == o,
        s[p + 13 + o.len()] == '\n',
        s.subrange(p + 14 + o.len(), p + 26 + o.len()) == CALL_CLOSE@,
        text::find_from(o, 0, CALL_CLOSE@) is None,
    ensures
        text::find_from(s, p + 1, CALL_CLOSE@) == Some(p + 14 + o.len()),
{
    lemma_tags();
    let end = p + 14 + o.len();
    assert forall|j: int| p + 1 <= j < end implies !text::occurs_at(s, CALL_CLOSE@, j) by {
        if j <= p + 12 {
            lemma_across(s, CALL_CLOSE@, j, p + 12);
        } else if j + 12 <= end - 1 {
            lemma_inside(s, p + 13, o, CALL_CLOSE@, j);
        } else {
            lemma_across(s, CALL_CLOSE@, j, end - 1);
        }
    }
    lemma_found(s, p + 1, CALL_CLOSE@, end);
}

/// A call that is written at `p` is the first that is found from there on.
proof fn lemma_body(s: Seq<char>, p: int, u: (Seq<char>, Seq<char>, Value))
    requires
        0 <= p,
        text::occurs_at(s, request::call_text(ToolCallParser::Hermes, u), p),
        text::find_from(use_object(u), 0, CALL_CLOSE@) is None,
    ensures
        text::find_from(s, p, CALL_OPEN@) == Some(p + 1),
        markup::hermes_bodies_from(s, p) == seq![use_object(u)] + markup::hermes_bodies_from(
            s,
            p + request::call_text(ToolCallParser::Hermes, u).len(),
        ),
{
    lemma_places(s, p, u);
    lemma_tags();
    lemma_across(s, CALL_OPEN@, p, p);
    lemma_found(s, p, CALL_OPEN@, p + 1);
    lemma_close(s, p, use_object(u));
    lemma_trimmed(u.1, json::json_text(u.2));
}

/// The calls `k..` are found where they were written.
proof fn lemma_bodies_from(lead: Seq<char>, uses: Seq<(Seq<char>, Seq<char>, Value)>, k: int)
    requires
        0 <= k <= uses.len(),
        tags_are_clear(lead, uses),
    ensures
        markup::hermes_bodies_from(
            hermes_text(lead, uses),
            hermes_text(lead, uses.take(k)).len() as int,
        ) == Seq::new((uses.len() - k) as nat, |i: int| use_object(uses[k + i])),
        k < uses.len() ==> text::find_from(
            hermes_text(lead, uses),
            hermes_text(lead, uses.take(k)).len() as int,
            CALL_OPEN@,
        ) == Some(hermes_text(lead, uses.take(k)).len() + 1int),
    decreases uses.len() - k,
{
    let s = hermes_text(lead, uses);
    let p = hermes_text(lead, uses.take(k)).len() as int;
    let objects = Seq::new((uses.len() - k) as nat, |i: int| use_object(uses[k + i]));
    if k == uses.len() {
        assert(uses.take(k) =~= uses);
        lemma_tags();
        assert(text::find_from(s, p, CALL_OPEN@) is None);
        assert(objects =~= Seq::empty());
    } else {
        lemma_prefix(ToolCallParser::Hermes, lead, uses, k + 1);
        assert(uses.take(k + 1).drop_last() =~= uses.take(k));
        assert(uses.take(k + 1).last() == uses[k]);
        let next = hermes_text(lead, uses.take(k + 1));
        let c = request::call_text(ToolCallParser::Hermes, uses[k]);
        assert(next =~= hermes_text(lead, uses.take(k)) + c);
        assert(s.subrange(p, p + c.len()) =~= c) by {
            assert(s.take(next.len() as int) == next);
            assert forall|i: int| 0 <= i < c.len() implies s[p + i] == #[trigger] c[i] by {
                assert(s.take(next.len() as int)[p + i] == next[p + i]);
            }
        }
        lemma_body(s, p, uses[k]);
        lemma_bodies_from(lead, uses, k + 1);
        let rest = Seq::new((uses.len() - k - 1) as nat, |i: int| use_object(uses[k + 1 + i]));
        assert(objects =~= seq![use_object(uses[k])] + rest);
    }
}

/// The text up to the call `k` is the beginning of the whole.
proof fn lemma_prefix(
    parser: ToolCallParser,
    lead: Seq<char>,
    uses: Seq<(Seq<char>, Seq<char>, Value)>,
    k: int,
)
    requires
        0 <= k <= uses.len(),
    ensures
        with_calls(parser, lead, uses.take(k)).len() <= with_calls(parser, lead, uses).len(),
        with_calls(parser, lead, uses).take(with_calls(parser, lead, uses.take(k)).len() as int)
            == with_calls(parser, lead, uses.take(k)),
    decreases uses.len() - k,
{
    let s = with_calls(parser, lead, uses);
    let a = with_calls(parser, lead, uses.take(k));
    if k == uses.len() {
        assert(uses.take(k) =~= uses);
        assert(s.take(a.len() as int) =~= a);
    } else {
        lemma_prefix(parser, lead, uses, k + 1);
        assert(uses.take(k + 1).drop_last() =~= uses.take(k));
        let b = with_calls(parser, lead, uses.take(k + 1));
        assert(b =~= a + request::call_text(parser, uses[k]));
        assert(s.take(a.len() as int) =~= s.take(b.len() as int).take(a.len() as int));
        assert(b.take(a.len() as int) =~= a);
    }
}

/// The bodies that are found in a text are the objects that were written into
/// it, in order.
pub proof fn written_objects_are_found(
    lead: Seq<char>,
    uses: Seq<(Seq<char>, Seq<char>, Value)>,
)
    requires
        tags_are_clear(lead, uses),
    ensures
        markup::hermes_bodies_from(hermes_text(lead, uses), 0) == Seq::new(
            uses.len(),
            |i: int| use_object(uses[i]),
        ),
{
    let s = hermes_text(lead, uses);
    let objects = Seq::new(uses.len(), |i: int| use_object(uses[i]));
    lemma_bodies_from(lead, uses, 0);
    assert(uses.take(0) =~= Seq::empty());
    assert(hermes_text(lead, uses.take(0)) =~= lead);
    let p = lead.len() as int;
    assert(markup::hermes_bodies_from(s, p) =~= objects);
    if uses.len() == 0 {
        assert(s =~= lead);
        assert(markup::hermes_bodies_from(s, 0) =~= objects);
    } else {
        lemma_tags();
        assert(s.subrange(0, p) =~= lead);
        text::find_from_is_first(s, p, CALL_OPEN@);
        assert(s[p] == '\n') by {
            lemma_prefix(ToolCallParser::Hermes, lead, uses, 1);
            lemma_shape(uses[0]);
            assert(uses.take(1).drop_last() =~= Seq::empty());
            let b = hermes_text(lead, uses.take(1));
            assert(b =~= lead + request::call_text(ToolCallParser::Hermes, uses[0]));
            assert(s.take(b.len() as int)[p] == s[p]);
        }
        assert forall|j: int| 0 <= j < p + 1 implies !text::occurs_at(s, CALL_OPEN@, j) by {
            if j + 11 <= p {
                lemma_inside(s, 0, lead, CALL_OPEN@, j);
            } else {
                lemma_across(s, CALL_OPEN@, j, p);
            }
        }
        lemma_found(s, 0, CALL_OPEN@, p + 1);
    }
}

/// Objects that each hold a call hold these calls, in order.
pub proof fn lemma_calls(uses: Seq<(Seq<char>, Seq<char>, Value)>)
    requires
        forall|i: int|
            0 <= i < uses.len() ==> json::json_value(use_object(#[trigger] uses[i])) is Some
                && calls::named_call(json::json_value(use_object(uses[i])).unwrap()) == Some(
                use_call(uses[i]),
            ),
    ensures
        calls::calls_in_bodies(Seq::new(uses.len(), |i: int| use_object(uses[i]))) == use_calls(
            uses,
        ),
    decreases uses.len(),
{
    let bodies = Seq::new(uses.len(), |i: int| use_object(uses[i]));
    if uses.len() > 0 {
        let before = uses.drop_last();
        assert forall|i: int| 0 <= i < before.len() implies json::json_value(
            use_object(#[trigger] before[i]),
        ) is Some && calls::named_call(json::json_value(use_object(before[i])).unwrap()) == Some(
            use_call(before[i]),
        ) by {
            assert(before[i] == uses[i]);
        }
        lemma_calls(before);
        assert(bodies.drop_last() =~= Seq::new(before.len(), |i: int| use_object(before[i])));
        assert(bodies.last() == use_object(uses[uses.len() - 1]));
        assert(use_calls(uses) =~= use_calls(before).push(use_call(uses[uses.len() - 1])));
    } else {
        assert(use_calls(uses) =~= Seq::empty());
    }
}

/// An object that was written for a call that reads back is read as that call.
pub proof fn lemma_reads_back(u: (Seq<char>, Seq<char>, Value))
    requires
        reads_back(u),
        json::holds_call(use_object(u), json::json_value(use_object(u))),
    ensures
        json::json_value(use_object(u)) is Some,
        calls::named_call(json::json_value(use_object(u)).unwrap()) == Some(use_call(u)),
{
}

/// The tool calls of a message that are written into its text in Hermes form are
/// read from that text again: one for each, in the same order, with the same name
/// and the same input. This takes that each written object is read as the call it
/// was written for, and that no other tag is in the way.
pub proof fn written_calls_are_read_back(m: Message)
    requires
        request::tool_uses(m.content@).len() > 0,
        tags_are_clear(
            text::joined(request::text_parts(m.content@), "\n"@),
            request::tool_uses(m.content@),
        ),
        forall|i: int|
            0 <= i < request::tool_uses(m.content@).len() ==> json::json_value(
                use_object(#[trigger] request::tool_uses(m.content@)[i]),
            ) is Some && calls::named_call(
                json::json_value(use_object(request::tool_uses(m.content@)[i])).unwrap(),
            ) == Some(use_call(request::tool_uses(m.content@)[i])),
    ensures
        request::message_for(ToolCallParser::Hermes, m).len() == 1,
        request::message_for(ToolCallParser::Hermes, m)[0].content matches Some(content)
            && calls::hermes_calls(content) == use_calls(request::tool_uses(m.content@)),
{
    let lead = text::joined(request::text_parts(m.content@), "\n"@);
    let uses = request::tool_uses(m.content@);
    written_objects_are_found(lead, uses);
    lemma_calls(uses);
}

/// Whether `s` neither begins nor ends with white space, and is not empty.
pub open spec fn is_bare(s: Seq<char>) -> bool {
    s.len() > 0 && !text::is_space(s[0]) && !text::is_space(s.last())
}

/// Whether no marker but those of the calls is taken for one: there is none in
/// the text before them, in a name or in an input. A name is in one line, and
/// neither it nor the text of an input has white space around it.
pub open spec fn markers_are_clear(
    lead: Seq<char>,
    uses: Seq<(Seq<char>, Seq<char>, Value)>,
) -> bool {
    &&& text::find_from(lead, 0, FN_NAME@) is None
    &&& forall|i: int| 0 <= i < uses.len() ==> is_clear(#[trigger] uses[i])
}

/// Whether neither the name nor the input of the tool call `u` is taken for
/// anything else when it is written in native form.
pub open spec fn is_clear(u: (Seq<char>, Seq<char>, Value)) -> bool {
    let input = json::json_text(u.2);
    &&& is_bare(u.1)
    &&& !u.1.contains('\n')
    &&& text::find_from(u.1, 0, FN_NAME@) is None
    &&& text::find_from(u.1, 0, FN_ARGS@) is None
    &&& is_bare(input)
    &&& text::find_from(input, 0, FN_NAME@) is None
    &&& text::find_from(input, 0, FN_RESULT@) is None
    &&& text::find_from(input, 0, FN_EXIT@) is None
}

/// The text `lead` with tool calls written behind it in native form.
pub open spec fn native_text(
    lead: Seq<char>,
    uses: Seq<(Seq<char>, Seq<char>, Value)>,
) -> Seq<char> {
    with_calls(ToolCallParser::NativeQwen, lead, uses)
}

/// What stands behind the function marker of the tool call `u`.
spec fn use_piece(u: (Seq<char>, Seq<char>, Value)) -> Seq<char> {
    seq![':', ' '] + u.1 + seq!['\n'] + FN_ARGS@ + seq![':', ' '] + json::json_text(u.2)
}

/// A separator of native calls: no marker holds one.
spec fn is_separator(c: char) -> bool {
    c == '\n' || c == ':' || c == ' '
}

proof fn lemma_markers()
    ensures
        FN_NAME@.len() == 10,
        FN_ARGS@.len() == 6,
        FN_RESULT@.len() == 8,
        FN_EXIT@.len() == 8,
        forall|c: char| #[trigger] is_separator(c) ==> !FN_NAME@.contains(c),
        forall|c: char| #[trigger] is_separator(c) ==> !FN_ARGS@.contains(c),
        forall|c: char| #[trigger] is_separator(c) ==> !FN_RESULT@.contains(c),
        forall|c: char| #[trigger] is_separator(c) ==> !FN_EXIT@.contains(c),
{
    reveal_strlit("✿FUNCTION✿");
    reveal_strlit("✿ARGS✿");
    reveal_strlit("✿RESULT✿");
    reveal_strlit("✿RETURN✿");
    assert(FN_NAME@ =~= seq!['✿', 'F', 'U', 'N', 'C', 'T', 'I', 'O', 'N', '✿']);
    assert(FN_ARGS@ =~= seq!['✿', 'A', 'R', 'G', 'S', '✿']);
    assert(FN_RESULT@ =~= seq!['✿', 'R', 'E', 'S', 'U', 'L', 'T', '✿']);
    assert(FN_EXIT@ =~= seq!['✿', 'R', 'E', 'T', 'U', 'R', 'N', '✿']);
}

proof fn lemma_native_shape(u: (Seq<char>, Seq<char>, Value))
    ensures
        request::call_text(ToolCallParser::NativeQwen, u) == seq!['\n'] + FN_NAME@ + use_piece(u),
{
    reveal_strlit("\n");
    reveal_strlit(": ");
    assert("\n"@ =~= seq!['\n']);
    assert(": "@ =~= seq![':', ' ']);
    assert(request::call_text(ToolCallParser::NativeQwen, u) =~= seq!['\n'] + FN_NAME@ + use_piece(
        u,
    ));
}

proof fn lemma_bare(s: Seq<char>)
    requires
        is_bare(s),
    ensures
        text::trimmed(s) == s,
        text::trimmed_start(s) == s,
        text::trimmed(s + seq!['\n']) == s,
        text::trimmed_start(seq![' '] + s) == s,
        text::trimmed(seq![' '] + s) == s,
{
    reveal_with_fuel(text::trimmed_start, 2);
    reveal_with_fuel(text::trimmed_end, 2);
    let t = s + seq!['\n'];
    assert(t[0] == s[0]);
    assert(t.last() == '\n');
    assert(t.drop_last() =~= s);
    let u = seq![' '] + s;
    assert(u[0] == ' ');
    assert(u.subrange(1, u.len() as int) =~= s);
}

/// A text without separators that stands in neither the name nor the input of a
/// call, and is not the argument marker, does not stand behind the marker.
proof fn lemma_not_in_piece(u: (Seq<char>, Seq<char>, Value), n: Seq<char>)
    requires
        n.len() > 6,
        forall|c: char| #[trigger] is_separator(c) ==> !n.contains(c),
        text::find_from(u.1, 0, n) is None,
        text::find_from(json::json_text(u.2), 0, n) is None,
    ensures
        text::find_from(use_piece(u), 0, n) is None,
{
    lemma_markers();
    let p = use_piece(u);
    let name = u.1;
    let input = json::json_text(u.2);
    let a = 3 + name.len() as int;
    let b = a + 8;
    assert(p.subrange(2, a - 1) =~= name);
    assert(p.subrange(b, b + input.len()) =~= input);
    assert(is_separator(p[0]));
    assert(is_separator(p[1]));
    assert(is_separator(p[a - 1]));
    assert(is_separator(p[a + 6]));
    assert(is_separator(p[a + 7]));
    assert forall|j: int| 0 <= j implies !text::occurs_at(p, n, j) by {
        if j + n.len() <= p.len() {
            if j < 2 {
                lemma_across(p, n, j, j);
            } else if j < a - 1 {
                if j + n.len() <= a - 1 {
                    lemma_inside(p, 2, name, n, j);
                } else {
                    lemma_across(p, n, j, a - 1);
                }
            } else if j == a - 1 {
                lemma_across(p, n, j, j);
            } else if j < a + 6 {
                lemma_across(p, n, j, a + 6);
            } else if j < b {
                lemma_across(p, n, j, j);
            } else {
                lemma_inside(p, b, input, n, j);
            }
        }
    }
    text::find_from_is_first(p, 0, n);
}

/// A name is found at the start of the line it is alone in.
proof fn lemma_name(name: Seq<char>, rest: Seq<char>)
    requires
        is_bare(name),
        !name.contains('\n'),
    ensures
        markup::native_name(name + seq!['\n'] + rest) == name,
{
    reveal_strlit("\n");
    assert("\n"@ =~= seq!['\n']);
    let line = name + seq!['\n'] + rest;
    let end = name.len() as int;
    assert(line.subrange(end, end + 1) =~= "\n"@);
    assert forall|j: int| 0 <= j < end implies !text::occurs_at(line, "\n"@, j) by {
        if text::occurs_at(line, "\n"@, j) {
            assert(line.subrange(j, j + 1)[0] == name[j]);
            assert(name.contains(name[j]));
        }
    }
    lemma_found(line, 0, "\n"@, end);
    assert(line.take(end) =~= name);
    lemma_bare(name);
}

/// The argument marker of a call is the first in what stands behind its function
/// marker.
proof fn lemma_args_marker(u: (Seq<char>, Seq<char>, Value))
    requires
        is_clear(u),
    ensures
        text::find_from(use_piece(u), 0, FN_ARGS@) == Some(3 + u.1.len() as int),
{
    lemma_markers();
    let p = use_piece(u);
    let name = u.1;
    let a = 3 + name.len() as int;
    assert(p.subrange(a, a + 6) =~= FN_ARGS@);
    assert(p.subrange(2, a - 1) =~= name);
    assert(is_separator(p[0]));
    assert(is_separator(p[1]));
    assert(is_separator(p[a - 1]));
    assert forall|j: int| 0 <= j < a implies !text::occurs_at(p, FN_ARGS@, j) by {
        if j < 2 {
            lemma_across(p, FN_ARGS@, j, j);
        } else if j + 6 <= a - 1 {
            lemma_inside(p, 2, name, FN_ARGS@, j);
        } else {
            lemma_across(p, FN_ARGS@, j, a - 1);
        }
    }
    lemma_found(p, 0, FN_ARGS@, a);
}

/// The text of an input is found behind the colon that follows the marker.
proof fn lemma_args(input: Seq<char>)
    requires
        is_bare(input),
        text::find_from(input, 0, FN_NAME@) is None,
        text::find_from(input, 0, FN_RESULT@) is None,
        text::find_from(input, 0, FN_EXIT@) is None,
    ensures
        markup::native_args(seq![':', ' '] + input) == input,
{
    lemma_markers();
    reveal_strlit(":");
    assert(":"@ =~= seq![':']);
    let section = seq![':', ' '] + input;
    assert(section.subrange(0, 1) =~= ":"@);
    lemma_found(section, 0, ":"@, 0);
    let t = section.skip(1);
    assert(t =~= seq![' '] + input);
    lemma_behind_space(input, FN_NAME@);
    lemma_behind_space(input, FN_RESULT@);
    lemma_behind_space(input, FN_EXIT@);
    assert(t.take(t.len() as int) =~= t);
    lemma_bare(input);
}

/// Behind the marker of a call its name and the text of its input are found.
proof fn lemma_call_text(u: (Seq<char>, Seq<char>, Value))
    requires
        is_clear(u),
    ensures
        markup::native_call_text(use_piece(u)) == Some((u.1, json::json_text(u.2))),
        markup::native_call_text(use_piece(u) + seq!['\n']) == Some((u.1, json::json_text(u.2))),
{
    lemma_markers();
    reveal_strlit(":");
    assert(":"@ =~= seq![':']);
    let p = use_piece(u);
    let name = u.1;
    let input = json::json_text(u.2);
    assert(p.last() == input.last());
    lemma_bare(p);
    assert(p.subrange(0, 1) =~= ":"@);
    lemma_found(p, 0, ":"@, 0);
    let rest = FN_ARGS@ + seq![':', ' '] + input;
    let line = name + seq!['\n'] + rest;
    assert(p.skip(1) =~= seq![' '] + line);
    assert(line[0] == name[0]);
    assert(line.last() == input.last());
    lemma_bare(line);
    lemma_name(name, rest);
    lemma_args_marker(u);
    assert(p.skip(9 + name.len() as int) =~= seq![':', ' '] + input);
    lemma_args(input);
}

proof fn lemma_behind_space(s: Seq<char>, n: Seq<char>)
    requires
        n.len() > 0,
        forall|c: char| #[trigger] is_separator(c) ==> !n.contains(c),
        text::find_from(s, 0, n) is None,
    ensures
        text::find_from(seq![' '] + s, 0, n) is None,
{
    let t = seq![' '] + s;
    assert(t.subrange(1, t.len() as int) =~= s);
    assert(is_separator(t[0]));
    assert forall|j: int| 0 <= j implies !text::occurs_at(t, n, j) by {
        if j + n.len() <= t.len() {
            if j == 0 {
                lemma_across(t, n, 0, 0);
            } else {
                lemma_inside(t, 1, s, n, j);
            }
        }
    }
    text::find_from_is_first(t, 0, n);
}

/// The piece between the marker of the call `k` and the next one, or the end.
spec fn piece_at(uses: Seq<(Seq<char>, Seq<char>, Value)>, k: int) -> Seq<char> {
    if k + 1 < uses.len() {
        use_piece(uses[k]) + seq!['\n']
    } else {
        use_piece(uses[k])
    }
}

/// Where the call `k` stands in the text.
proof fn lemma_native_place(lead: Seq<char>, uses: Seq<(Seq<char>, Seq<char>, Value)>, k: int)
    requires
        0 <= k < uses.len(),
    ensures
        ({
            let p = native_text(lead, uses.take(k)).len() as int;
            let next = native_text(lead, uses.take(k + 1)).len() as int;
            &&& next == p + 11 + use_piece(uses[k]).len()
            &&& next <= native_text(lead, uses).len()
            &&& native_text(lead, uses)[p] == '\n'
            &&& native_text(lead, uses).subrange(p + 1, p + 11) == FN_NAME@
            &&& native_text(lead, uses).subrange(p + 11, next) == use_piece(uses[k])
        }),
{
    lemma_markers();
    lemma_native_shape(uses[k]);
    lemma_prefix(ToolCallParser::NativeQwen, lead, uses, k + 1);
    assert(uses.take(k + 1).drop_last() =~= uses.take(k));
    let s = native_text(lead, uses);
    let a = native_text(lead, uses.take(k));
    let b = native_text(lead, uses.take(k + 1));
    let c = request::call_text(ToolCallParser::NativeQwen, uses[k]);
    let p = a.len() as int;
    let next = b.len() as int;
    assert(b =~= a + c);
    assert(s.take(next) == b);
    assert(b[p] == c[0]);
    assert(s.take(next)[p] == s[p]);
    assert(s.subrange(p + 1, p + 11) =~= b.subrange(p + 1, p + 11));
    assert(b.subrange(p + 1, p + 11) =~= c.subrange(1, 11));
    assert(c.subrange(1, 11) =~= FN_NAME@);
    assert(s.subrange(p + 11, next) =~= b.subrange(p + 11, next));
    assert(b.subrange(p + 11, next) =~= c.subrange(11, c.len() as int));
    assert(c.subrange(11, c.len() as int) =~= use_piece(uses[k]));
}

/// The pieces behind the markers of the calls `k..`.
proof fn lemma_pieces_from(lead: Seq<char>, uses: Seq<(Seq<char>, Seq<char>, Value)>, k: int)
    requires
        0 <= k < uses.len(),
        markers_are_clear(lead, uses),
    ensures
        text::split_from(
            native_text(lead, uses),
            native_text(lead, uses.take(k)).len() + 11int,
            FN_NAME@,
        ) == Seq::new((uses.len() - k) as nat, |i: int| piece_at(uses, k + i)),
    decreases uses.len() - k,
{
    lemma_markers();
    lemma_native_place(lead, uses, k);
    let s = native_text(lead, uses);
    let q = native_text(lead, uses.take(k)).len() + 11int;
    let next = native_text(lead, uses.take(k + 1)).len() as int;
    let piece = use_piece(uses[k]);
    let pieces = Seq::new((uses.len() - k) as nat, |i: int| piece_at(uses, k + i));
    assert(is_clear(uses[k]));
    lemma_not_in_piece(uses[k], FN_NAME@);
    if k + 1 == uses.len() {
        assert(uses.take(k + 1) =~= uses);
        assert forall|j: int| q <= j implies !text::occurs_at(s, FN_NAME@, j) by {
            if j + 10 <= s.len() {
                lemma_inside(s, q, piece, FN_NAME@, j);
            }
        }
        text::find_from_is_first(s, q, FN_NAME@);
        assert(s.skip(q) =~= piece);
        assert(pieces =~= seq![piece]);
    } else {
        lemma_native_place(lead, uses, k + 1);
        lemma_pieces_from(lead, uses, k + 1);
        assert(is_separator(s[next]));
        assert forall|j: int| q <= j < next + 1 implies !text::occurs_at(s, FN_NAME@, j) by {
            if j + 10 <= next {
                lemma_inside(s, q, piece, FN_NAME@, j);
            } else {
                lemma_across(s, FN_NAME@, j, next);
            }
        }
        lemma_found(s, q, FN_NAME@, next + 1);
        assert(s.subrange(q, next + 1) =~= piece + seq!['\n']);
        let rest = Seq::new((uses.len() - k - 1) as nat, |i: int| piece_at(uses, k + 1 + i));
        assert(pieces =~= seq![piece_at(uses, k)] + rest);
    }
}

/// Pieces that each hold a call hold these calls, in order.
proof fn lemma_native_texts(uses: Seq<(Seq<char>, Seq<char>, Value)>, pieces: Seq<Seq<char>>)
    requires
        pieces.len() == uses.len(),
        forall|i: int|
            0 <= i < uses.len() ==> markup::native_call_text(#[trigger] pieces[i]) == Some(
                (uses[i].1, json::json_text(uses[i].2)),
            ),
        forall|i: int|
            0 <= i < uses.len() ==> json::json_value(json::json_text((#[trigger] uses[i]).2))
                == Some(uses[i].2),
    ensures
        calls::calls_in_pairs(markup::native_texts_of(pieces)) == use_calls(uses),
    decreases uses.len(),
{
    if uses.len() > 0 {
        let before = uses.drop_last();
        lemma_native_texts(before, pieces.drop_last());
        let pairs = markup::native_texts_of(pieces);
        let u = uses[uses.len() - 1];
        assert(pieces.last() == pieces[uses.len() - 1]);
        assert(pairs.drop_last() =~= markup::native_texts_of(pieces.drop_last()));
        assert(pairs.last() == (u.1, json::json_text(u.2)));
        assert(use_calls(uses) =~= use_calls(before).push(use_call(u)));
    } else {
        assert(use_calls(uses) =~= Seq::empty());
    }
}

/// The tool calls of a message that are written into its text in native form are
/// read from that text again: one for each, in the same order, with the same name
/// and the same input. This takes that each input is read from the text that it is
/// displayed as, and that no other marker is in the way.
pub proof fn native_calls_are_read_back(m: Message)
    requires
        request::tool_uses(m.content@).len() > 0,
        markers_are_clear(
            text::joined(request::text_parts(m.content@), "\n"@),
            request::tool_uses(m.content@),
        ),
        forall|i: int|
            0 <= i < request::tool_uses(m.content@).len() ==> json::json_value(
                json::json_text((#[trigger] request::tool_uses(m.content@)[i]).2),
            ) == Some(request::tool_uses(m.content@)[i].2),
    ensures
        request::message_for(ToolCallParser::NativeQwen, m).len() == 1,
        request::message_for(ToolCallParser::NativeQwen, m)[0].content matches Some(content)
            && calls::native_calls(content) == use_calls(request::tool_uses(m.content@)),
{
    let lead = text::joined(request::text_parts(m.content@), "\n"@);
    let uses = request::tool_uses(m.content@);
    let s = native_text(lead, uses);
    let p = lead.len() as int;
    lemma_markers();
    lemma_native_place(lead, uses, 0);
    lemma_pieces_from(lead, uses, 0);
    assert(uses.take(0) =~= Seq::empty());
    assert(native_text(lead, uses.take(0)) =~= lead);
    assert(s.subrange(0, p) =~= lead);
    assert(is_separator(s[p]));
    assert forall|j: int| 0 <= j < p + 1 implies !text::occurs_at(s, FN_NAME@, j) by {
        if j + 10 <= p {
            lemma_inside(s, 0, lead, FN_NAME@, j);
        } else {
            lemma_across(s, FN_NAME@, j, p);
        }
    }
    lemma_found(s, 0, FN_NAME@, p + 1);
    let pieces = Seq::new(uses.len(), |i: int| piece_at(uses, i));
    assert(text::split_from(s, p + 11, FN_NAME@) =~= pieces);
    assert(text::split_from(s, 0, FN_NAME@).skip(1) =~= pieces);
    assert forall|i: int| 0 <= i < uses.len() implies markup::native_call_text(
        #[trigger] pieces[i],
    ) == Some((uses[i].1, json::json_text(uses[i].2))) by {
        assert(is_clear(uses[i]));
        lemma_call_text(uses[i]);
    }
    lemma_native_texts(uses, pieces);
}

} // verus!
