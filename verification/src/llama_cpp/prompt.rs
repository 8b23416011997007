//! The prompt that a model is given.

use crate::json;
use crate::qwen::request;
use crate::text;
use crate::types::{ContentBlock, LLMRequest, Message, Role, Tool};
use vstd::prelude::*;
use vstd::string::*;

verus! {

/// What stands before the list of tools.
pub const TOOLS_INTRO: &'static str =
    "You have access to the following tools. To call one, respond with ONLY a single JSON object of the form {\"name\": \"<tool_name>\", \"arguments\": {...}} and nothing else - no explanation, no code fence, no extra text. If you don't need a tool, just answer normally.\n\nAvailable tools:\n";

/// How a tool is listed.
pub open spec fn tool_line(t: Tool) -> Seq<char> {
    "- "@ + t.name@ + ": "@ + t.description@ + "\n  Parameters (JSON Schema): "@ + json::json_text(
        t.input_schema,
    ) + "\n"@
}

/// How tools are listed.
pub open spec fn tool_lines(tools: Seq<Tool>) -> Seq<char>
    decreases tools.len(),
{
    if tools.len() == 0 {
        Seq::empty()
    } else {
        tool_lines(tools.drop_last()) + tool_line(tools.last())
    }
}

/// The instructions for tools.
pub fn tool_instructions_block(tools: &[Tool]) -> (r: String)
    ensures
        r@ == TOOLS_INTRO@ + tool_lines(tools@),
{
    let mut out = TOOLS_INTRO.to_string();
    let mut i: usize = 0;
    assert(TOOLS_INTRO@ + tool_lines(tools@.take(0)) =~= TOOLS_INTRO@);
    while i < tools.len()
        invariant
            i <= tools@.len(),
            out@ == TOOLS_INTRO@ + tool_lines(tools@.take(i as int)),
        decreases tools@.len() - i,
    {
        let ghost start = out@;
        let t = &tools[i];
        let schema = json::write_json(&t.input_schema);
        out.append("- ");
        out.append(t.name.as_str());
        out.append(": ");
        out.append(t.description.as_str());
        out.append("\n  Parameters (JSON Schema): ");
        out.append(schema.as_str());
        out.append("\n");
        proof {
            assert(tools@.take(i as int + 1).drop_last() =~= tools@.take(i as int));
            assert(out@ =~= start + tool_line(tools@[i as int]));
            assert(out@ =~= TOOLS_INTRO@ + tool_lines(tools@.take(i as int + 1)));
        }
        i = i + 1;
    }
    assert(tools@.take(tools@.len() as int) =~= tools@);
    out
}

/// The system prompt with the instructions for tools behind it. There is none
/// without a system prompt and without tools.
pub open spec fn merged_system(system: Option<Seq<char>>, tools: Seq<Tool>) -> Option<Seq<char>> {
    let block = TOOLS_INTRO@ + tool_lines(tools);
    match system {
        Some(s) => if tools.len() > 0 {
            Some(s + "\n\n"@ + block)
        } else {
            Some(s)
        },
        None => if tools.len() > 0 {
            Some(block)
        } else {
            None
        },
    }
}

/// The tools that are offered: none where there is no list.
pub open spec fn listed_tools(tools: Option<&[Tool]>) -> Seq<Tool> {
    match tools {
        Some(t) => t@,
        None => Seq::empty(),
    }
}

/// The system prompt with the instructions for tools behind it.
pub fn merged_system_prompt(system: Option<&str>, tools: Option<&[Tool]>) -> (r: Option<String>)
    ensures
        match r {
            Some(s) => merged_system(
                match system {
                    Some(x) => Some(x@),
                    None => None,
                },
                listed_tools(tools),
            ) == Some(s@),
            None => merged_system(
                match system {
                    Some(x) => Some(x@),
                    None => None,
                },
                listed_tools(tools),
            ) is None,
        },
{
    let block: Option<String> = match tools {
        Some(t) => if t.len() > 0 {
            Some(tool_instructions_block(t))
        } else {
            None
        },
        None => None,
    };
    match system {
        Some(s) => {
            let mut out = s.to_string();
            if let Some(b) = block {
                out.append("\n\n");
                out.append(b.as_str());
            }
            Some(out)
        },
        None => block,
    }
}

/// A message of the prompt: whose it is, and what it says.
pub type ChatMessage = (String, String);

/// What chat messages hold.
pub open spec fn chat_views(v: Seq<ChatMessage>) -> Seq<(Seq<char>, Seq<char>)> {
    Seq::new(v.len(), |i: int| (v[i].0@, v[i].1@))
}

/// The messages for a conversation: the texts of each message, a line each. A
/// message without text is left out.
pub open spec fn chat_of(messages: Seq<Message>) -> Seq<(Seq<char>, Seq<char>)>
    decreases messages.len(),
{
    if messages.len() == 0 {
        Seq::empty()
    } else {
        let before = chat_of(messages.drop_last());
        let m = messages.last();
        let said = text::joined(request::text_parts(m.content@), "\n"@);
        if said.len() > 0 {
            before.push((request::role_name(m.role), said))
        } else {
            before
        }
    }
}

/// The system prompt of `request`, tools and all.
pub open spec fn request_system(r: LLMRequest) -> Option<Seq<char>> {
    merged_system(
        match r.system {
            Some(s) => Some(s@),
            None => None,
        },
        match r.tools {
            Some(t) => t@,
            None => Seq::empty(),
        },
    )
}

/// All the messages for `request`.
pub open spec fn request_chat(r: LLMRequest) -> Seq<(Seq<char>, Seq<char>)> {
    let head = match request_system(r) {
        Some(s) => seq![("system"@, s)],
        None => Seq::empty(),
    };
    head + chat_of(r.messages@)
}

fn role_of(role: Role) -> (r: String)
    ensures
        r@ == request::role_name(role),
{
    match role {
        Role::System => "system".to_string(),
        Role::User => "user".to_string(),
        Role::Assistant => "assistant".to_string(),
    }
}

/// The texts of a message, a line each.
fn said_in(m: &Message) -> (r: String)
    ensures
        r@ == text::joined(request::text_parts(m.content@), "\n"@),
{
    let mut parts: Vec<String> = Vec::new();
    let mut i: usize = 0;
    assert(text::texts(parts@) =~= Seq::empty());
    while i < m.content.len()
        invariant
            i <= m.content@.len(),
            text::texts(parts@) == request::text_parts(m.content@.take(i as int)),
        decreases m.content@.len() - i,
    {
        let ghost before = text::texts(parts@);
        proof {
            assert(m.content@.take(i as int + 1).drop_last() =~= m.content@.take(i as int));
            assert(m.content@.take(i as int + 1).last() == m.content@[i as int]);
        }
        if let ContentBlock::Text { text } = &m.content[i] {
            parts.push(text.clone());
            assert(text::texts(parts@) =~= before.push(text@));
        }
        i = i + 1;
    }
    assert(m.content@.take(m.content@.len() as int) =~= m.content@);
    text::join(&parts, "\n")
}

/// All the messages for `request`.
pub fn chat_messages(request: &LLMRequest) -> (r: Vec<ChatMessage>)
    ensures
        chat_views(r@) == request_chat(*request),
{
    let mut out: Vec<ChatMessage> = Vec::new();
    let system: Option<&str> = match &request.system {
        Some(s) => Some(s.as_str()),
        None => None,
    };
    let tools: Option<&[Tool]> = match &request.tools {
        Some(t) => Some(t.as_slice()),
        None => None,
    };
    if let Some(s) = merged_system_prompt(system, tools) {
        out.push(("system".to_string(), s));
    }
    let ghost head = chat_views(out@);
    proof {
        match request_system(*request) {
            Some(s) => assert(head =~= seq![("system"@, s)]),
            None => assert(head =~= Seq::empty()),
        }
        assert(head + chat_of(request.messages@.take(0)) =~= head);
    }
    let mut i: usize = 0;
    while i < request.messages.len()
        invariant
            i <= request.messages@.len(),
            chat_views(out@) == head + chat_of(request.messages@.take(i as int)),
        decreases request.messages@.len() - i,
    {
        let m = &request.messages[i];
        let ghost before = chat_views(out@);
        let said = said_in(m);
        let ghost so_far = chat_of(request.messages@.take(i as int));
        proof {
            let next = request.messages@.take(i as int + 1);
            assert(next.drop_last() =~= request.messages@.take(i as int));
            assert(next.last() == *m);
        }
        if !said.as_str().is_empty() {
            let ghost entry = (request::role_name(m.role), said@);
            out.push((role_of(m.role), said));
            assert(chat_views(out@) =~= before.push(entry));
            assert(before.push(entry) =~= head + so_far.push(entry));
        }
        i = i + 1;
    }
    assert(request.messages@.take(request.messages@.len() as int) =~= request.messages@);
    out
}

/// The messages one behind the other, each behind the name of its role.
pub open spec fn transcript(chat: Seq<(Seq<char>, Seq<char>)>) -> Seq<char>
    decreases chat.len(),
{
    if chat.len() == 0 {
        Seq::empty()
    } else {
        transcript(chat.drop_last()) + "<|"@ + chat.last().0 + "|>\n"@ + chat.last().1 + "\n"@
    }
}

/// The prompt for messages without a chat template: the messages, and the
/// beginning of the answer.
pub fn manual_prompt(chat: &Vec<ChatMessage>) -> (r: String)
    ensures
        r@ == transcript(chat_views(chat@)) + "<|assistant|>\n"@,
{
    let ghost all = chat_views(chat@);
    let mut out = String::new();
    let mut i: usize = 0;
    assert(out@ =~= transcript(all.take(0)));
    while i < chat.len()
        invariant
            i <= chat@.len(),
            all == chat_views(chat@),
            out@ == transcript(all.take(i as int)),
        decreases chat@.len() - i,
    {
        proof {
            let next = all.take(i as int + 1);
            assert(next.drop_last() =~= all.take(i as int));
            assert(next.last() == (chat@[i as int].0@, chat@[i as int].1@));
        }
        out.append("<|");
        out.append(chat[i].0.as_str());
        out.append("|>\n");
        out.append(chat[i].1.as_str());
        out.append("\n");
        i = i + 1;
    }
    assert(all.take(chat@.len() as int) =~= all);
    out.append("<|assistant|>\n");
    out
}

/// The prompt for `request`: what the model's chat template made of the
/// messages, where it made anything, and otherwise a plain transcript.
pub fn build_prompt(request: &LLMRequest, applied: Option<String>) -> (r: String)
    ensures
        r@ == (match applied {
            Some(p) => p@,
            None => transcript(request_chat(*request)) + "<|assistant|>\n"@,
        }),
{
    match applied {
        Some(p) => p,
        None => {
            let chat = chat_messages(request);
            manual_prompt(&chat)
        },
    }
}

/// A system prompt stays in front, and a list of no tools adds nothing to it.
pub proof fn system_prompt_comes_first(system: Seq<char>, tools: Seq<Tool>)
    ensures
        merged_system(Some(system), tools) is Some,
        text::begins_with(merged_system(Some(system), tools).unwrap(), system),
        tools.len() == 0 ==> merged_system(Some(system), tools) == Some(system),
        tools.len() == 0 ==> merged_system(None, tools) is None,
{
    let merged = merged_system(Some(system), tools).unwrap();
    assert(merged.subrange(0, system.len() as int) =~= system);
}

} // verus!
