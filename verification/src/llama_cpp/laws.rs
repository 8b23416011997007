//! What holds of every prompt: nothing that was said is left out of it, and each
//! part stands where the model looks for it.

use crate::json;
use crate::llama_cpp::prompt;
use crate::qwen::request;
use crate::text;
use crate::types::{LLMRequest, Message, Role, Tool};
use vstd::prelude::*;

verus! {

/// What a message says: its texts, a line each.
pub open spec fn said_by(m: Message) -> Seq<char> {
    text::joined(request::text_parts(m.content@), "\n"@)
}

/// What the model knows the one who speaks as.
pub open spec fn known_as(role: Role) -> Seq<char> {
    match role {
        Role::System => "system"@,
        Role::User => "user"@,
        Role::Assistant => "assistant"@,
    }
}

/// A conversation goes into the prompt message by message, in its order: each
/// one that says anything is there, under its role, and none depends on another.
pub proof fn conversations_are_told_whole(x: Seq<Message>, y: Seq<Message>, m: Message)
    ensures
        prompt::chat_of(x + y) == prompt::chat_of(x) + prompt::chat_of(y),
        said_by(m).len() > 0 ==> prompt::chat_of(seq![m]) == seq![(known_as(m.role), said_by(m))],
        said_by(m).len() == 0 ==> prompt::chat_of(seq![m]).len() == 0,
        prompt::chat_of(Seq::empty()).len() == 0,
    decreases y.len(),
{
    let none = Seq::<Message>::empty();
    assert(seq![m].drop_last() =~= none);
    assert(prompt::chat_of(none) =~= Seq::empty());
    if said_by(m).len() > 0 {
        assert(prompt::chat_of(seq![m]) =~= seq![(known_as(m.role), said_by(m))]);
    }
    if y.len() == 0 {
        assert(x + y =~= x);
        assert(prompt::chat_of(x) + prompt::chat_of(y) =~= prompt::chat_of(x));
    } else {
        conversations_are_told_whole(x, y.drop_last(), m);
        assert((x + y).drop_last() =~= x + y.drop_last());
        assert((x + y).last() == y.last());
        assert(prompt::chat_of(x + y) =~= prompt::chat_of(x) + prompt::chat_of(y));
    }
}

/// No message that says anything is missing from the prompt's messages.
pub proof fn no_message_is_missing(messages: Seq<Message>, i: int)
    requires
        0 <= i < messages.len(),
        said_by(messages[i]).len() > 0,
    ensures
        prompt::chat_of(messages).contains((known_as(messages[i].role), said_by(messages[i]))),
{
    let x = messages.take(i);
    let y = messages.skip(i + 1);
    let m = messages[i];
    conversations_are_told_whole(x, seq![m], m);
    conversations_are_told_whole(x + seq![m], y, m);
    assert(x + seq![m] + y =~= messages);
    let all = prompt::chat_of(messages);
    let k = prompt::chat_of(x).len() as int;
    assert(all[k] == (known_as(m.role), said_by(m)));
}

/// The messages of a prompt are written one behind the other, each behind the
/// name of its role.
pub proof fn messages_are_written_one_by_one(
    x: Seq<(Seq<char>, Seq<char>)>,
    y: Seq<(Seq<char>, Seq<char>)>,
    role: Seq<char>,
    said: Seq<char>,
)
    ensures
        prompt::transcript(x + y) == prompt::transcript(x) + prompt::transcript(y),
        prompt::transcript(seq![(role, said)]) == "<|"@ + role + "|>\n"@ + said + "\n"@,
        prompt::transcript(Seq::empty()) == Seq::<char>::empty(),
    decreases y.len(),
{
    let none = Seq::<(Seq<char>, Seq<char>)>::empty();
    assert(seq![(role, said)].drop_last() =~= none);
    assert(prompt::transcript(none) =~= Seq::<char>::empty());
    assert(prompt::transcript(seq![(role, said)]) =~= "<|"@ + role + "|>\n"@ + said + "\n"@);
    if y.len() == 0 {
        assert(x + y =~= x);
        assert(prompt::transcript(x) + prompt::transcript(y) =~= prompt::transcript(x));
    } else {
        messages_are_written_one_by_one(x, y.drop_last(), role, said);
        assert((x + y).drop_last() =~= x + y.drop_last());
        assert((x + y).last() == y.last());
        assert(prompt::transcript(x + y) =~= prompt::transcript(x) + prompt::transcript(y));
    }
}

/// Every tool that is offered is listed, in its order, with its name, its
/// description and the schema of its input.
pub proof fn tools_are_listed_one_by_one(x: Seq<Tool>, y: Seq<Tool>, t: Tool)
    ensures
        prompt::tool_lines(x + y) == prompt::tool_lines(x) + prompt::tool_lines(y),
        prompt::tool_lines(seq![t]) == "- "@ + t.name@ + ": "@ + t.description@
            + "\n  Parameters (JSON Schema): "@ + json::json_text(t.input_schema) + "\n"@,
    decreases y.len(),
{
    let none = Seq::<Tool>::empty();
    assert(seq![t].drop_last() =~= none);
    assert(prompt::tool_lines(none) =~= Seq::<char>::empty());
    assert(prompt::tool_lines(seq![t]) =~= prompt::tool_line(t));
    if y.len() == 0 {
        assert(x + y =~= x);
        assert(prompt::tool_lines(x) + prompt::tool_lines(y) =~= prompt::tool_lines(x));
    } else {
        tools_are_listed_one_by_one(x, y.drop_last(), t);
        assert((x + y).drop_last() =~= x + y.drop_last());
        assert((x + y).last() == y.last());
        assert(prompt::tool_lines(x + y) =~= prompt::tool_lines(x) + prompt::tool_lines(y));
    }
}

/// Where tools are offered, the system prompt ends with the list of them, behind
/// the prompt's own text and the instructions for calling one.
pub proof fn the_list_of_tools_ends_the_system_prompt(system: Seq<char>, tools: Seq<Tool>)
    requires
        tools.len() > 0,
    ensures
        prompt::merged_system(Some(system), tools) == Some(
            system + "\n\n"@ + prompt::TOOLS_INTRO@ + prompt::tool_lines(tools),
        ),
        prompt::merged_system(None, tools) == Some(
            prompt::TOOLS_INTRO@ + prompt::tool_lines(tools),
        ),
{
    assert(system + "\n\n"@ + (prompt::TOOLS_INTRO@ + prompt::tool_lines(tools)) =~= system
        + "\n\n"@ + prompt::TOOLS_INTRO@ + prompt::tool_lines(tools));
}

/// What is offered is the list of tools, and nothing where there is no list.
pub proof fn the_list_is_what_is_offered(tools: &[Tool])
    ensures
        prompt::listed_tools(Some(tools)) == tools@,
        prompt::listed_tools(None).len() == 0,
{
}

/// A prompt begins with the system prompt, if there is any, and goes on with the
/// whole conversation.
pub proof fn a_prompt_begins_with_the_system_prompt(r: LLMRequest)
    ensures
        ({
            let tools = match r.tools {
                Some(t) => t@,
                None => Seq::empty(),
            };
            let own = match r.system {
                Some(s) => Some(s@),
                None => None,
            };
            match prompt::merged_system(own, tools) {
                Some(s) => prompt::request_chat(r) == seq![("system"@, s)] + prompt::chat_of(
                    r.messages@,
                ),
                None => prompt::request_chat(r) == prompt::chat_of(r.messages@),
            }
        }),
        r.system is None && r.tools is None ==> prompt::request_chat(r) == prompt::chat_of(
            r.messages@,
        ),
{
    assert(Seq::<(Seq<char>, Seq<char>)>::empty() + prompt::chat_of(r.messages@)
        =~= prompt::chat_of(r.messages@));
}

} // verus!
