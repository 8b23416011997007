//! What holds of every request to a Qwen model: nothing that was said, called or
//! answered is left out of it, and each part stands where the model looks for it.

use crate::json;
use crate::qwen::provider;
use crate::qwen::provider::{QwenProvider, ToolCallParser};
use crate::qwen::request;
use crate::qwen::request::MessageView;
use crate::text;
use crate::types;
use crate::types::{ContentBlock, Float32, LLMRequest, Message, Role, Tool};
use serde_json::Value;
use vstd::prelude::*;

verus! {

/// Whether `part` stands somewhere in `whole`.
pub open spec fn holds(whole: Seq<char>, part: Seq<char>) -> bool {
    exists|before: Seq<char>, after: Seq<char>| whole == #[trigger] (before + part + after)
}

/// The message for a tool result holds what the tool said, in every form, and
/// what is said around it is fixed; it names the call that is answered wherever
/// the form has a place for it.
pub proof fn a_result_is_told_whole(id: Seq<char>, said: Seq<char>)
    ensures
        request::result_message(ToolCallParser::Hermes, (id, said)) == (MessageView {
            role: "user"@,
            content: Some(
                "<tool_response>\nTool call ID: "@ + id + "\nResult: "@ + said
                    + "\n</tool_response>"@,
            ),
            tool_calls: None,
            tool_call_id: None,
        }),
        request::result_message(ToolCallParser::NativeQwen, (id, said)) == (MessageView {
            role: "user"@,
            content: Some("\n✿RESULT✿: "@ + said + "\n✿RETURN✿:"@),
            tool_calls: None,
            tool_call_id: None,
        }),
        request::result_message(ToolCallParser::OpenAI, (id, said)) == (MessageView {
            role: "tool"@,
            content: Some(said),
            tool_calls: None,
            tool_call_id: Some(id),
        }),
        forall|parser: ToolCallParser|
            (#[trigger] request::result_message(parser, (id, said))).content matches Some(c)
                && holds(c, said),
{
    reveal_strlit("\n");
    reveal_strlit("✿RESULT✿");
    reveal_strlit(": ");
    reveal_strlit("✿RETURN✿");
    reveal_strlit(":");
    reveal_strlit("\n✿RESULT✿: ");
    reveal_strlit("\n✿RETURN✿:");
    assert(request::native_result(said) =~= "\n✿RESULT✿: "@ + said + "\n✿RETURN✿:"@);
    let head = "<tool_response>\nTool call ID: "@ + id + "\nResult: "@;
    assert(holds(head + said + "\n</tool_response>"@, said));
    assert(holds("\n✿RESULT✿: "@ + said + "\n✿RETURN✿:"@, said));
    let none = Seq::<char>::empty();
    assert(said =~= none + said + none);
    assert(holds(said, said));
    assert forall|parser: ToolCallParser|
        (#[trigger] request::result_message(parser, (id, said))).content matches Some(c) && holds(
            c,
            said,
        ) by {
        match parser {
            ToolCallParser::Hermes => {},
            ToolCallParser::NativeQwen => {},
            ToolCallParser::OpenAI => {},
        }
    }
}

/// Results that say different things give different messages.
pub proof fn different_results_stay_different(
    parser: ToolCallParser,
    id: Seq<char>,
    x: Seq<char>,
    y: Seq<char>,
)
    requires
        x != y,
    ensures
        request::result_message(parser, (id, x)) != request::result_message(parser, (id, y)),
{
    a_result_is_told_whole(id, x);
    a_result_is_told_whole(id, y);
    match parser {
        ToolCallParser::Hermes => {
            lemma_same_middle(
                "<tool_response>\nTool call ID: "@ + id + "\nResult: "@,
                x,
                y,
                "\n</tool_response>"@,
            );
        },
        ToolCallParser::NativeQwen => {
            lemma_same_middle("\n✿RESULT✿: "@, x, y, "\n✿RETURN✿:"@);
        },
        ToolCallParser::OpenAI => {},
    }
}

proof fn lemma_same_middle(a: Seq<char>, x: Seq<char>, y: Seq<char>, b: Seq<char>)
    ensures
        a + x + b == a + y + b ==> x == y,
{
    let p = a + x + b;
    let q = a + y + b;
    if p == q {
        assert(p.len() == q.len());
        let n = a.len() as int;
        assert(p.subrange(n, n + x.len()) =~= x);
        assert(q.subrange(n, n + y.len()) =~= y);
    }
}

/// What a message says, calls and answers is what its blocks do, each of them in
/// its order, whatever stands between them.
pub proof fn blocks_count_one_by_one(x: Seq<ContentBlock>, y: Seq<ContentBlock>)
    ensures
        request::text_parts(x + y) == request::text_parts(x) + request::text_parts(y),
        request::tool_uses(x + y) == request::tool_uses(x) + request::tool_uses(y),
        request::tool_results(x + y) == request::tool_results(x) + request::tool_results(y),
    decreases y.len(),
{
    if y.len() == 0 {
        assert(x + y =~= x);
        assert(request::text_parts(x) + request::text_parts(y) =~= request::text_parts(x));
        assert(request::tool_uses(x) + request::tool_uses(y) =~= request::tool_uses(x));
        assert(request::tool_results(x) + request::tool_results(y) =~= request::tool_results(x));
    } else {
        blocks_count_one_by_one(x, y.drop_last());
        assert((x + y).drop_last() =~= x + y.drop_last());
        assert((x + y).last() == y.last());
        let z = y.drop_last();
        assert(request::text_parts(x + y) =~= request::text_parts(x) + request::text_parts(y));
        assert(request::tool_uses(x + y) =~= request::tool_uses(x) + request::tool_uses(y));
        assert(request::tool_results(x + y) =~= request::tool_results(x) + request::tool_results(y));
    }
}

/// A block of text is said, a call is called and a result is answered. An image
/// or reasoning is none of these.
pub proof fn a_block_counts_as_what_it_is(b: ContentBlock)
    ensures
        request::text_parts(seq![b]) == (match b {
            ContentBlock::Text { text } => seq![text@],
            _ => Seq::empty(),
        }),
        request::tool_uses(seq![b]) == (match b {
            ContentBlock::ToolUse { id, name, input } => seq![(id@, name@, input)],
            _ => Seq::empty(),
        }),
        request::tool_results(seq![b]) == (match b {
            ContentBlock::ToolResult { tool_use_id, content, .. } => seq![(tool_use_id@, content@)],
            _ => Seq::empty(),
        }),
{
    let none = Seq::<ContentBlock>::empty();
    assert(seq![b].drop_last() =~= none);
    assert(request::text_parts(none) =~= Seq::empty());
    assert(request::tool_uses(none) =~= Seq::empty());
    assert(request::tool_results(none) =~= Seq::empty());
    match b {
        ContentBlock::Text { text } => {
            assert(request::text_parts(seq![b]) =~= seq![text@]);
        },
        ContentBlock::ToolUse { id, name, input } => {
            assert(request::tool_uses(seq![b]) =~= seq![(id@, name@, input)]);
        },
        ContentBlock::ToolResult { tool_use_id, content, .. } => {
            assert(request::tool_results(seq![b]) =~= seq![(tool_use_id@, content@)]);
        },
        _ => {},
    }
}

/// What the endpoint calls the one who speaks.
pub open spec fn called(role: Role) -> Seq<char> {
    match role {
        Role::System => "system"@,
        Role::User => "user"@,
        Role::Assistant => "assistant"@,
    }
}

/// A message without calls and results is one message of the same role that says
/// its texts, a line each.
pub proof fn plain_messages_say_their_text(parser: ToolCallParser, m: Message)
    requires
        request::tool_uses(m.content@).len() == 0,
        request::tool_results(m.content@).len() == 0,
    ensures
        request::message_for(parser, m) == seq![
            MessageView {
                role: called(m.role),
                content: Some(text::joined(request::text_parts(m.content@), "\n"@)),
                tool_calls: None,
                tool_call_id: None,
            },
        ],
{
}

/// A message with results, and without calls, is one message for each result, in
/// their order.
pub proof fn every_result_has_its_message(parser: ToolCallParser, m: Message)
    requires
        request::tool_uses(m.content@).len() == 0,
        request::tool_results(m.content@).len() > 0,
    ensures
        request::message_for(parser, m).len() == request::tool_results(m.content@).len(),
        forall|i: int|
            0 <= i < request::tool_results(m.content@).len() ==> #[trigger] request::message_for(
                parser,
                m,
            )[i] == request::result_message(parser, request::tool_results(m.content@)[i]),
{
}

/// Where calls have fields of their own, a message with calls holds each of them
/// in its order, under its identifier, with its arguments as JSON; and it says
/// its texts, if it has any.
pub proof fn calls_go_into_their_fields(m: Message)
    requires
        request::tool_uses(m.content@).len() > 0,
    ensures
        ({
            let out = request::message_for(ToolCallParser::OpenAI, m);
            let uses = request::tool_uses(m.content@);
            let texts = request::text_parts(m.content@);
            &&& out.len() == 1
            &&& out[0].role == called(m.role)
            &&& out[0].tool_call_id is None
            &&& out[0].content is None <==> texts.len() == 0
            &&& out[0].content matches Some(c) ==> c == text::joined(texts, "\n"@)
            &&& out[0].tool_calls matches Some(calls) && calls.len() == uses.len() && forall|i: int|
                0 <= i < uses.len() ==> (#[trigger] calls[i]).id == uses[i].0 && calls[i].name
                    == uses[i].1 && calls[i].kind == "function"@ && calls[i].arguments
                    == json::json_text(uses[i].2)
        }),
{
}

/// Elsewhere the calls are written behind the text of the message, and the
/// message has no other place for them.
pub proof fn calls_are_written_behind_the_text(parser: ToolCallParser, m: Message)
    requires
        request::tool_uses(m.content@).len() > 0,
        parser != ToolCallParser::OpenAI,
    ensures
        request::message_for(parser, m) == seq![
            MessageView {
                role: called(m.role),
                content: Some(
                    text::joined(request::text_parts(m.content@), "\n"@) + request::call_texts(
                        parser,
                        request::tool_uses(m.content@),
                    ),
                ),
                tool_calls: None,
                tool_call_id: None,
            },
        ],
{
}

/// Calls are written one behind the other, each with its name and its arguments.
pub proof fn calls_are_written_one_by_one(
    parser: ToolCallParser,
    x: Seq<(Seq<char>, Seq<char>, Value)>,
    y: Seq<(Seq<char>, Seq<char>, Value)>,
    u: (Seq<char>, Seq<char>, Value),
)
    ensures
        request::call_texts(parser, x + y) == request::call_texts(parser, x) + request::call_texts(
            parser,
            y,
        ),
        request::call_texts(ToolCallParser::Hermes, seq![u])
            == "\n<tool_call>\n{\"name\": \""@ + u.1 + "\", \"arguments\": "@ + json::json_text(u.2)
            + "}\n</tool_call>"@,
        request::call_texts(ToolCallParser::NativeQwen, seq![u]) == "\n✿FUNCTION✿: "@ + u.1
            + "\n✿ARGS✿: "@ + json::json_text(u.2),
    decreases y.len(),
{
    let none = Seq::<(Seq<char>, Seq<char>, Value)>::empty();
    assert(seq![u].drop_last() =~= none);
    assert(request::call_texts(ToolCallParser::Hermes, none) =~= Seq::<char>::empty());
    assert(request::call_texts(ToolCallParser::NativeQwen, none) =~= Seq::<char>::empty());
    lemma_call_text(u);
    if y.len() == 0 {
        assert(x + y =~= x);
        assert(request::call_texts(parser, x) + request::call_texts(parser, y)
            =~= request::call_texts(parser, x));
    } else {
        calls_are_written_one_by_one(parser, x, y.drop_last(), u);
        assert((x + y).drop_last() =~= x + y.drop_last());
        assert((x + y).last() == y.last());
        assert(request::call_texts(parser, x + y) =~= request::call_texts(parser, x)
            + request::call_texts(parser, y));
    }
}

proof fn lemma_call_text(u: (Seq<char>, Seq<char>, Value))
    ensures
        Seq::<char>::empty() + request::call_text(ToolCallParser::Hermes, u)
            == "\n<tool_call>\n{\"name\": \""@ + u.1 + "\", \"arguments\": "@ + json::json_text(u.2)
            + "}\n</tool_call>"@,
        Seq::<char>::empty() + request::call_text(ToolCallParser::NativeQwen, u)
            == "\n✿FUNCTION✿: "@ + u.1 + "\n✿ARGS✿: "@ + json::json_text(u.2),
{
    reveal_strlit("\n<tool_call>\n");
    reveal_strlit("{\"name\": \"");
    reveal_strlit("\n<tool_call>\n{\"name\": \"");
    assert("\n<tool_call>\n{\"name\": \""@ =~= "\n<tool_call>\n"@ + "{\"name\": \""@);
    reveal_strlit("}");
    reveal_strlit("\n</tool_call>");
    reveal_strlit("}\n</tool_call>");
    assert("}\n</tool_call>"@ =~= "}"@ + "\n</tool_call>"@);
    reveal_strlit("\n");
    reveal_strlit("✿FUNCTION✿");
    reveal_strlit("✿ARGS✿");
    reveal_strlit(": ");
    reveal_strlit("\n✿FUNCTION✿: ");
    reveal_strlit("\n✿ARGS✿: ");
    assert("\n✿FUNCTION✿: "@ =~= "\n"@ + "✿FUNCTION✿"@ + ": "@);
    assert("\n✿ARGS✿: "@ =~= "\n"@ + "✿ARGS✿"@ + ": "@);
    let a = json::json_text(u.2);
    assert(Seq::<char>::empty() + request::call_text(ToolCallParser::Hermes, u)
        =~= "\n<tool_call>\n"@ + "{\"name\": \""@ + u.1 + "\", \"arguments\": "@ + a + ("}"@
        + "\n</tool_call>"@));
    assert(Seq::<char>::empty() + request::call_text(ToolCallParser::NativeQwen, u) =~= "\n"@
        + "✿FUNCTION✿"@ + ": "@ + u.1 + ("\n"@ + "✿ARGS✿"@ + ": "@) + a);
}

/// A conversation is sent message by message, in its order: none is left out,
/// and none depends on another.
pub proof fn conversations_are_sent_whole(
    parser: ToolCallParser,
    x: Seq<Message>,
    y: Seq<Message>,
    m: Message,
)
    ensures
        request::conversation(parser, x + y) == request::conversation(parser, x)
            + request::conversation(parser, y),
        request::conversation(parser, seq![m]) == request::message_for(parser, m),
        request::message_for(parser, m).len() > 0,
    decreases y.len(),
{
    let none = Seq::<Message>::empty();
    assert(seq![m].drop_last() =~= none);
    assert(request::conversation(parser, none) =~= Seq::empty());
    assert(request::conversation(parser, seq![m]) =~= request::message_for(parser, m));
    if y.len() == 0 {
        assert(x + y =~= x);
        assert(request::conversation(parser, x) + request::conversation(parser, y)
            =~= request::conversation(parser, x));
    } else {
        conversations_are_sent_whole(parser, x, y.drop_last(), m);
        assert((x + y).drop_last() =~= x + y.drop_last());
        assert((x + y).last() == y.last());
        assert(request::conversation(parser, x + y) =~= request::conversation(parser, x)
            + request::conversation(parser, y));
    }
}

/// A request begins with its system prompt, if there is one, and goes on with
/// the whole conversation.
pub proof fn a_request_begins_with_its_system_prompt(p: QwenProvider, r: LLMRequest)
    ensures
        request::system_prompt(p, r).len() == 0 ==> request::request_messages(p, r)
            == request::conversation(p.tool_parser, r.messages@),
        request::system_prompt(p, r).len() > 0 ==> {
            let out = request::request_messages(p, r);
            &&& out.len() == 1 + request::conversation(p.tool_parser, r.messages@).len()
            &&& out[0].role == "system"@
            &&& out[0].content == Some(request::system_prompt(p, r))
            &&& out[0].tool_calls is None
            &&& out[0].tool_call_id is None
            &&& out.skip(1) == request::conversation(p.tool_parser, r.messages@)
        },
{
    let out = request::request_messages(p, r);
    let rest = request::conversation(p.tool_parser, r.messages@);
    if request::system_prompt(p, r).len() == 0 {
        assert(out =~= rest);
    } else {
        assert(out.skip(1) =~= rest);
    }
}

/// The own system prompt of a request is kept in the one that is sent: in front
/// where no tools are described, and behind the tools, with an empty line
/// between, where they are.
pub proof fn the_own_system_prompt_is_kept(p: QwenProvider, r: LLMRequest, own: Seq<char>)
    requires
        types::opt_text(r.system) == Some(own),
    ensures
        holds(request::system_prompt(p, r), own),
        p.tool_parser == ToolCallParser::OpenAI || r.tools is None || r.tools.unwrap()@.len() == 0
            ==> request::system_prompt(p, r) == own + request::thinking_instruction(
            p.thinking_config.enabled,
            p.thinking_config.budget_tokens,
        ),
        p.tool_parser == ToolCallParser::Hermes && r.tools is Some && r.tools.unwrap()@.len() > 0
            && own.len() > 0 ==> request::system_prompt(p, r) == request::hermes_instructions(
            r.tools.unwrap()@,
        ) + "\n\n"@ + own + request::thinking_instruction(
            p.thinking_config.enabled,
            p.thinking_config.budget_tokens,
        ),
        p.tool_parser == ToolCallParser::NativeQwen && r.tools is Some && r.tools.unwrap()@.len()
            > 0 && own.len() > 0 ==> request::system_prompt(p, r) == request::native_instructions(
            r.tools.unwrap()@,
        ) + "\n\n"@ + own + request::thinking_instruction(
            p.thinking_config.enabled,
            p.thinking_config.budget_tokens,
        ),
{
    let last = request::thinking_instruction(
        p.thinking_config.enabled,
        p.thinking_config.budget_tokens,
    );
    let none = Seq::<char>::empty();
    let all = request::system_prompt(p, r);
    let head = request::system_with_tools(p.tool_parser, own, request::offered(r));
    assert(all == head + last);
    if own.len() == 0 {
        assert(own =~= none);
        assert(all =~= none + own + all);
        assert(holds(all, own));
    } else if head == own {
        assert(all =~= none + own + last);
        assert(holds(all, own));
    } else {
        let tools = request::offered(r).unwrap();
        let before = if p.tool_parser == ToolCallParser::Hermes {
            request::hermes_instructions(tools) + "\n\n"@
        } else {
            request::native_instructions(tools) + "\n\n"@
        };
        assert(all == before + own + last);
        assert(holds(all, own));
    }
}

/// Reasoning is asked for exactly where it is on, with its budget where it has
/// one.
pub proof fn reasoning_is_asked_for_where_it_is_on(budget: u32)
    ensures
        request::thinking_instruction(false, None).len() == 0,
        request::thinking_instruction(false, Some(budget)).len() == 0,
        request::thinking_instruction(true, None)
            == "\n\nIMPORTANT: You have thinking mode enabled. Use <think></think> tags to show your reasoning process before providing your final answer."@,
        request::thinking_instruction(true, Some(budget))
            == "\n\nIMPORTANT: You have thinking mode enabled. Use <think></think> tags to show your reasoning process. Budget: "@
            + text::decimal(budget as nat) + " tokens for thinking."@,
{
}

/// Every tool that is offered is listed, in its order, with its name, its
/// description and the schema of its input.
pub proof fn tools_are_listed_one_by_one(x: Seq<Tool>, y: Seq<Tool>, t: Tool)
    ensures
        request::hermes_tool_list(x + y) == request::hermes_tool_list(x)
            + request::hermes_tool_list(y),
        request::native_tool_list(x + y) == request::native_tool_list(x)
            + request::native_tool_list(y),
        request::hermes_tool_list(seq![t])
            == "{\"type\": \"function\", \"function\": {\"name\": \""@ + t.name@
            + "\", \"description\": \""@ + request::escaped_quotes(t.description@)
            + "\", \"parameters\": "@ + json::json_text(t.input_schema) + "}}\n"@,
        request::native_tool_list(seq![t]) == "### "@ + t.name@ + "\n\n"@ + t.name@ + ": "@
            + t.description@ + " Parameters: "@ + json::json_text(t.input_schema)
            + " Format the arguments as a JSON object.\n\n"@,
    decreases y.len(),
{
    let none = Seq::<Tool>::empty();
    assert(seq![t].drop_last() =~= none);
    assert(request::hermes_tool_list(none) =~= Seq::<char>::empty());
    assert(request::native_tool_list(none) =~= Seq::<char>::empty());
    assert(request::hermes_tool_list(seq![t]) =~= request::hermes_tool(t));
    assert(request::native_tool_list(seq![t]) =~= request::native_tool(t));
    if y.len() == 0 {
        assert(x + y =~= x);
        assert(request::hermes_tool_list(x) + request::hermes_tool_list(y)
            =~= request::hermes_tool_list(x));
        assert(request::native_tool_list(x) + request::native_tool_list(y)
            =~= request::native_tool_list(x));
    } else {
        tools_are_listed_one_by_one(x, y.drop_last(), t);
        assert((x + y).drop_last() =~= x + y.drop_last());
        assert((x + y).last() == y.last());
        assert(request::hermes_tool_list(x + y) =~= request::hermes_tool_list(x)
            + request::hermes_tool_list(y));
        assert(request::native_tool_list(x + y) =~= request::native_tool_list(x)
            + request::native_tool_list(y));
    }
}

/// The instructions for tools hold the whole list of them, between what
/// introduces it and what says how a tool is called.
pub proof fn instructions_hold_the_list(tools: Seq<Tool>)
    ensures
        request::hermes_instructions(tools) == request::HERMES_INTRO@ + request::hermes_tool_list(
            tools,
        ) + request::HERMES_OUTRO@,
        request::native_instructions(tools) == request::NATIVE_INTRO@ + request::native_tool_list(
            tools,
        ) + request::native_outro(),
        holds(request::hermes_instructions(tools), request::hermes_tool_list(tools)),
        holds(request::native_instructions(tools), request::native_tool_list(tools)),
{
    assert(holds(
        request::HERMES_INTRO@ + request::hermes_tool_list(tools) + request::HERMES_OUTRO@,
        request::hermes_tool_list(tools),
    ));
    assert(holds(
        request::NATIVE_INTRO@ + request::native_tool_list(tools) + request::native_outro(),
        request::native_tool_list(tools),
    ));
}

/// The native instructions say with which markers a call is written and with which
/// one the answer begins.
pub proof fn native_instructions_name_the_markers()
    ensures
        request::native_outro()
            == "</tool_info>\n\nFor each function call, return a line with the function name prefixed by '"@
            + "✿FUNCTION✿"@ + ":', followed by a line with arguments prefixed by '"@ + "✿ARGS✿"@
            + ":'.\nExample:\n"@ + "✿FUNCTION✿"@ + ": function_name\n"@ + "✿ARGS✿"@
            + ": {\"arg1\": \"value1\"}\n\nWhen you have received the results and are ready to respond to the user, output '"@
            + "✿RETURN✿"@ + ":' followed by your final response."@,
{
}

/// Quotation marks get a backslash before them, and nothing else changes.
pub proof fn only_quotes_are_escaped(x: Seq<char>, y: Seq<char>, c: char)
    ensures
        request::escaped_quotes(x + y) == request::escaped_quotes(x) + request::escaped_quotes(y),
        request::escaped_quotes(seq!['"']) == seq!['\\', '"'],
        c != '"' ==> request::escaped_quotes(seq![c]) == seq![c],
        request::escaped_quotes(Seq::empty()) == Seq::<char>::empty(),
    decreases y.len(),
{
    let none = Seq::<char>::empty();
    assert(request::escaped_quotes(none) =~= none);
    assert(seq!['"'].drop_last() =~= none);
    assert(seq![c].drop_last() =~= none);
    assert(none.push('\\').push('"') =~= seq!['\\', '"']);
    assert(none.push(c) =~= seq![c]);
    if y.len() == 0 {
        assert(x + y =~= x);
        assert(request::escaped_quotes(x) + request::escaped_quotes(y) =~= request::escaped_quotes(
            x,
        ));
    } else {
        only_quotes_are_escaped(x, y.drop_last(), c);
        assert((x + y).drop_last() =~= x + y.drop_last());
        assert((x + y).last() == y.last());
        assert(request::escaped_quotes(x + y) =~= request::escaped_quotes(x)
            + request::escaped_quotes(y));
    }
}

/// Each family of models has its own defaults. Reasoning raises `top_p` for
/// Qwen3 and for nothing else.
pub proof fn families_have_their_own_defaults(lower: Seq<char>, thinking: bool)
    ensures
        text::find_from(lower, 0, "qwen3"@) is Some ==> provider::family_sampling(lower, thinking)
            == (
            Some(
                if thinking {
                    Float32 { bits: 0x3f73_3333 }
                } else {
                    Float32 { bits: 0x3f4c_cccd }
                },
            ),
            Some(20u32),
            None::<Float32>,
        ),
        text::find_from(lower, 0, "qwen3"@) is None && (text::find_from(lower, 0, "qwen2"@) is Some
            || text::find_from(lower, 0, "coder"@) is Some) ==> provider::family_sampling(
            lower,
            thinking,
        ) == (
            Some(Float32 { bits: 0x3f4c_cccd }),
            None::<u32>,
            Some(Float32 { bits: 0x3f86_6666 }),
        ),
        text::find_from(lower, 0, "qwen3"@) is None && text::find_from(lower, 0, "qwen2"@) is None
            && text::find_from(lower, 0, "coder"@) is None ==> provider::family_sampling(
            lower,
            thinking,
        ) == (Some(Float32 { bits: 0x3f4c_cccd }), None::<u32>, None::<Float32>),
{
}

/// What a request sets wins over what the provider sets, and that over the default
/// of the model. The defaults of `top_k` and of the repetition penalty go to local
/// deployments only.
pub proof fn the_nearest_setting_wins(p: QwenProvider, r: LLMRequest)
    ensures
        ({
            let sent = request::request_sampling(p, r);
            let d = provider::family_sampling(
                text::lowercase(r.model@),
                p.thinking_config.enabled,
            );
            &&& r.top_p is Some ==> sent.0 == r.top_p
            &&& r.top_p is None && p.sampling.top_p is Some ==> sent.0 == p.sampling.top_p
            &&& r.top_p is None && p.sampling.top_p is None ==> sent.0 == d.0
            &&& p.sampling.top_k is Some ==> sent.1 == p.sampling.top_k
            &&& p.sampling.top_k is None && p.api_key@ == "not-needed"@ ==> sent.1 == d.1
            &&& p.sampling.top_k is None && p.api_key@ != "not-needed"@ ==> sent.1 is None
            &&& p.sampling.repetition_penalty is Some ==> sent.2 == p.sampling.repetition_penalty
            &&& p.sampling.repetition_penalty is None && p.api_key@ == "not-needed"@ ==> sent.2
                == d.2
            &&& p.sampling.repetition_penalty is None && p.api_key@ != "not-needed"@ ==> sent.2
                is None
        }),
{
}

/// A value that is set wins over its replacement, which counts where none is
/// set.
pub proof fn what_is_set_wins<T>(x: T, y: Option<T>)
    ensures
        request::first_of(Some(x), y) == Some(x),
        request::first_of(None, y) == y,
{
}

} // verus!
