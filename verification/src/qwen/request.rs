//! What is sent to a Qwen model.

use crate::json;
use crate::qwen::markup::{FN_ARGS, FN_EXIT, FN_NAME, FN_RESULT};
use crate::qwen::provider;
use crate::qwen::provider::{QwenProvider, Sampling, ToolCallParser};
use crate::text;
use crate::types;
use crate::types::{ContentBlock, Float32, LLMRequest, Message, Role, Tool};
use serde_json::Value;
use vstd::prelude::*;
use vstd::string::*;

verus! {

/// A function and its arguments, as JSON text.
#[derive(Clone, Debug)]
pub struct QwenFunctionCall {
    pub name: String,
    pub arguments: String,
}

/// A tool call in a field of its own.
#[derive(Clone, Debug)]
pub struct QwenToolCall {
    pub id: String,
    pub kind: String,
    pub function: QwenFunctionCall,
}

/// What a [`QwenToolCall`] holds.
pub struct ToolCallView {
    pub id: Seq<char>,
    pub kind: Seq<char>,
    pub name: Seq<char>,
    pub arguments: Seq<char>,
}

impl View for QwenToolCall {
    type V = ToolCallView;

    open spec fn view(&self) -> ToolCallView {
        ToolCallView {
            id: self.id@,
            kind: self.kind@,
            name: self.function.name@,
            arguments: self.function.arguments@,
        }
    }
}

/// What the tool calls of a list hold.
pub open spec fn tool_call_views(v: Seq<QwenToolCall>) -> Seq<ToolCallView> {
    Seq::new(v.len(), |i: int| v[i]@)
}

/// A message as the endpoint takes it.
#[derive(Clone, Debug)]
pub struct QwenMessage {
    pub role: String,
    pub content: Option<String>,
    pub tool_calls: Option<Vec<QwenToolCall>>,
    pub tool_call_id: Option<String>,
}

/// What a [`QwenMessage`] holds.
pub struct MessageView {
    pub role: Seq<char>,
    pub content: Option<Seq<char>>,
    pub tool_calls: Option<Seq<ToolCallView>>,
    pub tool_call_id: Option<Seq<char>>,
}

impl View for QwenMessage {
    type V = MessageView;

    open spec fn view(&self) -> MessageView {
        MessageView {
            role: self.role@,
            content: types::opt_text(self.content),
            tool_calls: match self.tool_calls {
                Some(calls) => Some(tool_call_views(calls@)),
                None => None,
            },
            tool_call_id: types::opt_text(self.tool_call_id),
        }
    }
}

/// What the messages of a list hold.
pub open spec fn message_views(v: Seq<QwenMessage>) -> Seq<MessageView> {
    Seq::new(v.len(), |i: int| v[i]@)
}

/// A function offered as a tool.
#[derive(Clone, Debug)]
pub struct QwenFunction {
    pub name: String,
    pub description: String,
    pub parameters: Value,
}

/// A tool as the endpoint takes it.
#[derive(Clone, Debug)]
pub struct QwenTool {
    pub kind: String,
    pub function: QwenFunction,
}

/// A request as the endpoint takes it.
#[derive(Clone, Debug)]
pub struct QwenRequest {
    pub model: String,
    pub messages: Vec<QwenMessage>,
    pub temperature: Option<Float32>,
    pub top_p: Option<Float32>,
    pub top_k: Option<u32>,
    pub repetition_penalty: Option<Float32>,
    pub max_tokens: Option<u32>,
    pub stream: Option<bool>,
    pub tools: Option<Vec<QwenTool>>,
}

/// What stands before the Hermes list of tools.
pub const HERMES_INTRO: &'static str =
    "You are a function calling AI model. You are provided with function signatures within <tools></tools> XML tags. You may call one or more functions to assist with the user query. Don't make assumptions about what values to plug into functions. Here are the available tools:\n<tools>\n";

/// What stands behind the Hermes list of tools.
pub const HERMES_OUTRO: &'static str =
    "</tools>\n\nUse the following pydantic model json schema for each tool call you will make: {\"properties\": {\"arguments\": {\"title\": \"Arguments\", \"type\": \"object\"}, \"name\": {\"title\": \"Name\", \"type\": \"string\"}}, \"required\": [\"arguments\", \"name\"], \"title\": \"FunctionCall\", \"type\": \"object\"}\n\nFor each function call return a json object with function name and arguments within <tool_call></tool_call> XML tags as follows:\n<tool_call>\n{\"name\": <function-name>, \"arguments\": <args-dict>}\n</tool_call>";

/// What stands before the native list of tools.
pub const NATIVE_INTRO: &'static str =
    "# Tools\n\nYou may call one or more functions to assist with the user query.\n\nYou are provided with function signatures within <tool_info></tool_info> XML tags:\n<tool_info>\n";

/// How reasoning is asked for where it has no budget.
pub const THINKING: &'static str =
    "\n\nIMPORTANT: You have thinking mode enabled. Use <think></think> tags to show your reasoning process before providing your final answer.";

/// How reasoning is asked for, up to its budget.
pub const THINKING_BUDGET: &'static str =
    "\n\nIMPORTANT: You have thinking mode enabled. Use <think></think> tags to show your reasoning process. Budget: ";

/// `s` with a backslash before each double quote.
pub open spec fn escaped_quotes(s: Seq<char>) -> Seq<char>
    decreases s.len(),
{
    if s.len() == 0 {
        Seq::empty()
    } else if s.last() == '"' {
        escaped_quotes(s.drop_last()).push('\\').push('"')
    } else {
        escaped_quotes(s.drop_last()).push(s.last())
    }
}

/// `s` with a backslash before each double quote.
pub fn escape_quotes(s: &str) -> (r: String)
    ensures
        r@ == escaped_quotes(s@),
{
    let v = text::chars_of(s);
    let mut out = String::new();
    let mut i: usize = 0;
    while i < v.len()
        invariant
            i <= v@.len(),
            out@ == escaped_quotes(v@.take(i as int)),
        decreases v@.len() - i,
    {
        proof {
            assert(v@.take(i as int + 1).drop_last() =~= v@.take(i as int));
        }
        if v[i] == '"' {
            out.push('\\');
        }
        out.push(v[i]);
        i = i + 1;
    }
    assert(v@.take(v@.len() as int) =~= v@);
    out
}

/// How a tool is listed in Hermes form.
pub open spec fn hermes_tool(t: Tool) -> Seq<char> {
    "{\"type\": \"function\", \"function\": {\"name\": \""@ + t.name@ + "\", \"description\": \""@
        + escaped_quotes(t.description@) + "\", \"parameters\": "@ + json::json_text(t.input_schema)
        + "}}\n"@
}

/// How tools are listed in Hermes form.
pub open spec fn hermes_tool_list(tools: Seq<Tool>) -> Seq<char>
    decreases tools.len(),
{
    if tools.len() == 0 {
        Seq::empty()
    } else {
        hermes_tool_list(tools.drop_last()) + hermes_tool(tools.last())
    }
}

/// The Hermes instructions for tools.
pub open spec fn hermes_instructions(tools: Seq<Tool>) -> Seq<char> {
    HERMES_INTRO@ + hermes_tool_list(tools) + HERMES_OUTRO@
}

/// How a tool is listed in native form.
pub open spec fn native_tool(t: Tool) -> Seq<char> {
    "### "@ + t.name@ + "\n\n"@ + t.name@ + ": "@ + t.description@ + " Parameters: "@
        + json::json_text(t.input_schema) + " Format the arguments as a JSON object.\n\n"@
}

/// How tools are listed in native form.
pub open spec fn native_tool_list(tools: Seq<Tool>) -> Seq<char>
    decreases tools.len(),
{
    if tools.len() == 0 {
        Seq::empty()
    } else {
        native_tool_list(tools.drop_last()) + native_tool(tools.last())
    }
}

/// What stands behind the native list of tools.
pub open spec fn native_outro() -> Seq<char> {
    "</tool_info>\n\nFor each function call, return a line with the function name prefixed by '"@
        + FN_NAME@ + ":', followed by a line with arguments prefixed by '"@ + FN_ARGS@
        + ":'.\nExample:\n"@ + FN_NAME@ + ": function_name\n"@ + FN_ARGS@
        + ": {\"arg1\": \"value1\"}\n\nWhen you have received the results and are ready to respond to the user, output '"@
        + FN_EXIT@ + ":' followed by your final response."@
}

/// The native instructions for tools.
pub open spec fn native_instructions(tools: Seq<Tool>) -> Seq<char> {
    NATIVE_INTRO@ + native_tool_list(tools) + native_outro()
}

/// The tools' part of the system prompt, with the request's own behind it.
pub open spec fn system_with_tools(
    parser: ToolCallParser,
    system: Seq<char>,
    tools: Option<Seq<Tool>>,
) -> Seq<char> {
    match tools {
        Some(t) if t.len() > 0 && parser != ToolCallParser::OpenAI => {
            let instructions = if parser == ToolCallParser::Hermes {
                hermes_instructions(t)
            } else {
                native_instructions(t)
            };
            if system.len() == 0 {
                instructions
            } else {
                instructions + "\n\n"@ + system
            }
        },
        _ => system,
    }
}

/// How reasoning is asked for.
pub open spec fn thinking_instruction(enabled: bool, budget: Option<u32>) -> Seq<char> {
    if !enabled {
        Seq::empty()
    } else {
        match budget {
            Some(n) => THINKING_BUDGET@ + text::decimal(n as nat) + " tokens for thinking."@,
            None => THINKING@,
        }
    }
}

/// The tools of a request.
pub open spec fn offered(request: LLMRequest) -> Option<Seq<Tool>> {
    match request.tools {
        Some(t) => Some(t@),
        None => None,
    }
}

/// The system prompt of `request`.
pub open spec fn system_prompt(p: QwenProvider, request: LLMRequest) -> Seq<char> {
    let own = match request.system {
        Some(s) => s@,
        None => Seq::empty(),
    };
    system_with_tools(p.tool_parser, own, offered(request)) + thinking_instruction(
        p.thinking_config.enabled,
        p.thinking_config.budget_tokens,
    )
}

/// What a role is called.
pub open spec fn role_name(role: Role) -> Seq<char> {
    match role {
        Role::User => "user"@,
        Role::Assistant => "assistant"@,
        Role::System => "system"@,
    }
}

/// The texts among the blocks, in order.
pub open spec fn text_parts(blocks: Seq<ContentBlock>) -> Seq<Seq<char>>
    decreases blocks.len(),
{
    if blocks.len() == 0 {
        Seq::empty()
    } else {
        let before = text_parts(blocks.drop_last());
        match blocks.last() {
            ContentBlock::Text { text } => before.push(text@),
            _ => before,
        }
    }
}

/// The tool calls among the blocks, in order: identifier, name and input.
pub open spec fn tool_uses(blocks: Seq<ContentBlock>) -> Seq<(Seq<char>, Seq<char>, Value)>
    decreases blocks.len(),
{
    if blocks.len() == 0 {
        Seq::empty()
    } else {
        let before = tool_uses(blocks.drop_last());
        match blocks.last() {
            ContentBlock::ToolUse { id, name, input } => before.push((id@, name@, input)),
            _ => before,
        }
    }
}

/// The tool results among the blocks, in order: the call they answer and what
/// they say.
pub open spec fn tool_results(blocks: Seq<ContentBlock>) -> Seq<(Seq<char>, Seq<char>)>
    decreases blocks.len(),
{
    if blocks.len() == 0 {
        Seq::empty()
    } else {
        let before = tool_results(blocks.drop_last());
        match blocks.last() {
            ContentBlock::ToolResult { tool_use_id, content, .. } => before.push(
                (tool_use_id@, content@),
            ),
            _ => before,
        }
    }
}

/// A tool call written into the text.
pub open spec fn call_text(parser: ToolCallParser, u: (Seq<char>, Seq<char>, Value)) -> Seq<char> {
    if parser == ToolCallParser::Hermes {
        "\n<tool_call>\n"@ + json::call_object(u.1, json::json_text(u.2)) + "\n</tool_call>"@
    } else {
        "\n"@ + FN_NAME@ + ": "@ + u.1 + "\n"@ + FN_ARGS@ + ": "@ + json::json_text(u.2)
    }
}

/// Tool calls written into the text, one behind the other.
pub open spec fn call_texts(
    parser: ToolCallParser,
    uses: Seq<(Seq<char>, Seq<char>, Value)>,
) -> Seq<char>
    decreases uses.len(),
{
    if uses.len() == 0 {
        Seq::empty()
    } else {
        call_texts(parser, uses.drop_last()) + call_text(parser, uses.last())
    }
}

/// A tool call in a field of its own.
pub open spec fn call_field(u: (Seq<char>, Seq<char>, Value)) -> ToolCallView {
    ToolCallView { id: u.0, kind: "function"@, name: u.1, arguments: json::json_text(u.2) }
}

/// A message with nothing but text.
pub open spec fn plain_message(role: Seq<char>, content: Option<Seq<char>>) -> MessageView {
    MessageView { role, content, tool_calls: None, tool_call_id: None }
}

/// A tool result in native form.
pub open spec fn native_result(content: Seq<char>) -> Seq<char> {
    "\n"@ + FN_RESULT@ + ": "@ + content + "\n"@ + FN_EXIT@ + ":"@
}

/// The message for a tool result.
pub open spec fn result_message(parser: ToolCallParser, t: (Seq<char>, Seq<char>)) -> MessageView {
    match parser {
        ToolCallParser::Hermes => plain_message(
            "user"@,
            Some(
                "<tool_response>\nTool call ID: "@ + t.0 + "\nResult: "@ + t.1
                    + "\n</tool_response>"@,
            ),
        ),
        ToolCallParser::NativeQwen => plain_message("user"@, Some(native_result(t.1))),
        ToolCallParser::OpenAI => MessageView {
            role: "tool"@,
            content: Some(t.1),
            tool_calls: None,
            tool_call_id: Some(t.0),
        },
    }
}

/// The messages for one message of the conversation. One with tool calls
/// becomes one message that holds them, one with tool results becomes one
/// message for each, and any other becomes its text.
pub open spec fn message_for(parser: ToolCallParser, m: Message) -> Seq<MessageView> {
    let texts = text_parts(m.content@);
    let uses = tool_uses(m.content@);
    let results = tool_results(m.content@);
    let role = role_name(m.role);
    if uses.len() > 0 {
        if parser == ToolCallParser::OpenAI {
            seq![
                MessageView {
                    role,
                    content: if texts.len() == 0 {
                        None
                    } else {
                        Some(text::joined(texts, "\n"@))
                    },
                    tool_calls: Some(Seq::new(uses.len(), |i: int| call_field(uses[i]))),
                    tool_call_id: None,
                },
            ]
        } else {
            seq![plain_message(role, Some(text::joined(texts, "\n"@) + call_texts(parser, uses)))]
        }
    } else if results.len() > 0 {
        Seq::new(results.len(), |i: int| result_message(parser, results[i]))
    } else {
        seq![plain_message(role, Some(text::joined(texts, "\n"@)))]
    }
}

/// The messages for a conversation.
pub open spec fn conversation(parser: ToolCallParser, messages: Seq<Message>) -> Seq<MessageView>
    decreases messages.len(),
{
    if messages.len() == 0 {
        Seq::empty()
    } else {
        conversation(parser, messages.drop_last()) + message_for(parser, messages.last())
    }
}

/// All the messages of `request`: the system prompt, if there is one, and the
/// conversation.
pub open spec fn request_messages(p: QwenProvider, request: LLMRequest) -> Seq<MessageView> {
    let system = system_prompt(p, request);
    let head = if system.len() == 0 {
        Seq::empty()
    } else {
        seq![plain_message("system"@, Some(system))]
    };
    head + conversation(p.tool_parser, request.messages@)
}

/// The sampling values that are sent for `request`: `top_p`, `top_k` and the
/// repetition penalty.
pub open spec fn request_sampling(p: QwenProvider, request: LLMRequest) -> Sampling {
    let defaults = provider::family_sampling(
        text::lowercase(request.model@),
        p.thinking_config.enabled,
    );
    (
        first_of(request.top_p, first_of(p.sampling.top_p, defaults.0)),
        first_of(
            p.sampling.top_k,
            if p.local_deployment() {
                defaults.1
            } else {
                None
            },
        ),
        first_of(
            p.sampling.repetition_penalty,
            if p.local_deployment() {
                defaults.2
            } else {
                None
            },
        ),
    )
}

/// Whether `t` is the tool `o` as the endpoint takes it.
pub open spec fn tool_fits(t: QwenTool, o: Tool) -> bool {
    t.kind@ == "function"@ && t.function.name@ == o.name@ && t.function.description@
        == o.description@ && t.function.parameters == o.input_schema
}

/// The first value that is there.
pub open spec fn first_of<T>(a: Option<T>, b: Option<T>) -> Option<T> {
    match a {
        Some(x) => Some(x),
        None => b,
    }
}

fn first<T>(a: Option<T>, b: Option<T>) -> (r: Option<T>)
    ensures
        r == first_of(a, b),
{
    match a {
        Some(x) => Some(x),
        None => b,
    }
}

fn role_string(role: Role) -> (r: String)
    ensures
        r@ == role_name(role),
{
    match role {
        Role::User => "user".to_string(),
        Role::Assistant => "assistant".to_string(),
        Role::System => "system".to_string(),
    }
}

fn message(role: String, content: Option<String>) -> (r: QwenMessage)
    ensures
        r@ == plain_message(role@, types::opt_text(content)),
{
    QwenMessage { role, content, tool_calls: None, tool_call_id: None }
}

/// The blocks of a message, parted by what they are.
struct Parts {
    texts: Vec<String>,
    uses: Vec<(String, String, Value)>,
    results: Vec<(String, String)>,
}

spec fn use_views(v: Seq<(String, String, Value)>) -> Seq<(Seq<char>, Seq<char>, Value)> {
    Seq::new(v.len(), |i: int| (v[i].0@, v[i].1@, v[i].2))
}

spec fn result_views(v: Seq<(String, String)>) -> Seq<(Seq<char>, Seq<char>)> {
    Seq::new(v.len(), |i: int| (v[i].0@, v[i].1@))
}

fn part_blocks(blocks: &Vec<ContentBlock>) -> (r: Parts)
    ensures
        text::texts(r.texts@) == text_parts(blocks@),
        use_views(r.uses@) == tool_uses(blocks@),
        result_views(r.results@) == tool_results(blocks@),
{
    let mut texts: Vec<String> = Vec::new();
    let mut uses: Vec<(String, String, Value)> = Vec::new();
    let mut results: Vec<(String, String)> = Vec::new();
    let mut i: usize = 0;
    proof {
        assert(text::texts(texts@) =~= Seq::empty());
        assert(use_views(uses@) =~= Seq::empty());
        assert(result_views(results@) =~= Seq::empty());
    }
    while i < blocks.len()
        invariant
            i <= blocks@.len(),
            text::texts(texts@) == text_parts(blocks@.take(i as int)),
            use_views(uses@) == tool_uses(blocks@.take(i as int)),
            result_views(results@) == tool_results(blocks@.take(i as int)),
        decreases blocks@.len() - i,
    {
        let ghost t0 = text::texts(texts@);
        let ghost u0 = use_views(uses@);
        let ghost r0 = result_views(results@);
        proof {
            assert(blocks@.take(i as int + 1).drop_last() =~= blocks@.take(i as int));
            assert(blocks@.take(i as int + 1).last() == blocks@[i as int]);
        }
        match &blocks[i] {
            ContentBlock::Text { text } => {
                texts.push(text.clone());
                assert(text::texts(texts@) =~= t0.push(text@));
            },
            ContentBlock::ToolUse { id, name, input } => {
                uses.push((id.clone(), name.clone(), input.clone()));
                assert(use_views(uses@) =~= u0.push((id@, name@, *input)));
            },
            ContentBlock::ToolResult { tool_use_id, content, .. } => {
                results.push((tool_use_id.clone(), content.clone()));
                assert(result_views(results@) =~= r0.push((tool_use_id@, content@)));
            },
            ContentBlock::Image { .. } => {},
            ContentBlock::Thinking { .. } => {},
        }
        i = i + 1;
    }
    assert(blocks@.take(blocks@.len() as int) =~= blocks@);
    Parts { texts, uses, results }
}

fn append_call(out: &mut String, parser: ToolCallParser, name: &str, input: &Value)
    ensures
        forall|id: Seq<char>|
            final(out)@ == old(out)@ + #[trigger] call_text(parser, (id, name@, *input)),
{
    let ghost start = out@;
    let args = json::write_json(input);
    if parser == ToolCallParser::Hermes {
        out.append("\n<tool_call>\n");
        out.append("{\"name\": \"");
        out.append(name);
        out.append("\", \"arguments\": ");
        out.append(args.as_str());
        out.append("}");
        out.append("\n</tool_call>");
    } else {
        out.append("\n");
        out.append(FN_NAME);
        out.append(": ");
        out.append(name);
        out.append("\n");
        out.append(FN_ARGS);
        out.append(": ");
        out.append(args.as_str());
    }
    assert forall|id: Seq<char>| out@ == start + #[trigger] call_text(parser, (id, name@, *input)) by {
        assert(out@ =~= start + call_text(parser, (id, name@, *input)));
    }
}

/// The text of a message with the tool calls written into it.
fn text_with_calls(parser: ToolCallParser, parts: &Parts) -> (r: String)
    ensures
        r@ == text::joined(text::texts(parts.texts@), "\n"@) + call_texts(
            parser,
            use_views(parts.uses@),
        ),
{
    let mut content = text::join(&parts.texts, "\n");
    let ghost start = content@;
    let ghost all = use_views(parts.uses@);
    let mut i: usize = 0;
    assert(start + call_texts(parser, all.take(0)) =~= start);
    while i < parts.uses.len()
        invariant
            i <= parts.uses@.len(),
            all == use_views(parts.uses@),
            content@ == start + call_texts(parser, all.take(i as int)),
        decreases parts.uses@.len() - i,
    {
        append_call(&mut content, parser, parts.uses[i].1.as_str(), &parts.uses[i].2);
        proof {
            let u = all[i as int];
            assert(all.take(i as int + 1).drop_last() =~= all.take(i as int));
            assert(all.take(i as int + 1).last() == u);
            assert(start + (call_texts(parser, all.take(i as int)) + call_text(parser, u)) =~= (start
                + call_texts(parser, all.take(i as int))) + call_text(parser, u));
        }
        i = i + 1;
    }
    assert(all.take(parts.uses@.len() as int) =~= all);
    content
}

/// The tool calls of a message in fields of their own.
fn call_fields(parts: &Parts) -> (r: Vec<QwenToolCall>)
    ensures
        tool_call_views(r@) == Seq::new(
            parts.uses@.len(),
            |i: int| call_field(use_views(parts.uses@)[i]),
        ),
{
    let ghost all = use_views(parts.uses@);
    let mut out: Vec<QwenToolCall> = Vec::new();
    let mut i: usize = 0;
    while i < parts.uses.len()
        invariant
            i <= parts.uses@.len(),
            all == use_views(parts.uses@),
            out@.len() == i,
            forall|k: int| 0 <= k < i ==> (#[trigger] out@[k])@ == call_field(all[k]),
        decreases parts.uses@.len() - i,
    {
        let u = &parts.uses[i];
        assert(all[i as int] == (u.0@, u.1@, u.2));
        out.push(
            QwenToolCall {
                id: u.0.clone(),
                kind: "function".to_string(),
                function: QwenFunctionCall { name: u.1.clone(), arguments: json::write_json(&u.2) },
            },
        );
        i = i + 1;
    }
    assert(tool_call_views(out@) =~= Seq::new(all.len(), |i: int| call_field(all[i])));
    out
}

impl QwenProvider {
    /// The Hermes instructions for `tools`.
    pub fn format_hermes_tools(&self, tools: &[Tool]) -> (r: String)
        ensures
            r@ == hermes_instructions(tools@),
    {
        let mut out = HERMES_INTRO.to_string();
        let mut i: usize = 0;
        assert(HERMES_INTRO@ + hermes_tool_list(tools@.take(0)) =~= HERMES_INTRO@);
        while i < tools.len()
            invariant
                i <= tools@.len(),
                out@ == HERMES_INTRO@ + hermes_tool_list(tools@.take(i as int)),
            decreases tools@.len() - i,
        {
            let ghost start = out@;
            let t = &tools[i];
            let description = escape_quotes(t.description.as_str());
            let schema = json::write_json(&t.input_schema);
            out.append("{\"type\": \"function\", \"function\": {\"name\": \"");
            out.append(t.name.as_str());
            out.append("\", \"description\": \"");
            out.append(description.as_str());
            out.append("\", \"parameters\": ");
            out.append(schema.as_str());
            out.append("}}\n");
            proof {
                assert(tools@.take(i as int + 1).drop_last() =~= tools@.take(i as int));
                assert(out@ =~= start + hermes_tool(tools@[i as int]));
                assert(out@ =~= HERMES_INTRO@ + hermes_tool_list(tools@.take(i as int + 1)));
            }
            i = i + 1;
        }
        assert(tools@.take(tools@.len() as int) =~= tools@);
        out.append(HERMES_OUTRO);
        out
    }

    /// The native instructions for `tools`.
    pub fn format_native_qwen_tools(&self, tools: &[Tool]) -> (r: String)
        ensures
            r@ == native_instructions(tools@),
    {
        let mut out = NATIVE_INTRO.to_string();
        let mut i: usize = 0;
        assert(NATIVE_INTRO@ + native_tool_list(tools@.take(0)) =~= NATIVE_INTRO@);
        while i < tools.len()
            invariant
                i <= tools@.len(),
                out@ == NATIVE_INTRO@ + native_tool_list(tools@.take(i as int)),
            decreases tools@.len() - i,
        {
            let ghost start = out@;
            let t = &tools[i];
            let schema = json::write_json(&t.input_schema);
            out.append("### ");
            out.append(t.name.as_str());
            out.append("\n\n");
            out.append(t.name.as_str());
            out.append(": ");
            out.append(t.description.as_str());
            out.append(" Parameters: ");
            out.append(schema.as_str());
            out.append(" Format the arguments as a JSON object.\n\n");
            proof {
                assert(tools@.take(i as int + 1).drop_last() =~= tools@.take(i as int));
                assert(out@ =~= start + native_tool(tools@[i as int]));
                assert(out@ =~= NATIVE_INTRO@ + native_tool_list(tools@.take(i as int + 1)));
            }
            i = i + 1;
        }
        assert(tools@.take(tools@.len() as int) =~= tools@);
        let ghost start = out@;
        out.append(
            "</tool_info>\n\nFor each function call, return a line with the function name prefixed by '",
        );
        out.append(FN_NAME);
        out.append(":', followed by a line with arguments prefixed by '");
        out.append(FN_ARGS);
        out.append(":'.\nExample:\n");
        out.append(FN_NAME);
        out.append(": function_name\n");
        out.append(FN_ARGS);
        out.append(
            ": {\"arg1\": \"value1\"}\n\nWhen you have received the results and are ready to respond to the user, output '",
        );
        out.append(FN_EXIT);
        out.append(":' followed by your final response.");
        assert(out@ =~= start + native_outro());
        out
    }

    /// A tool result in native form.
    pub fn format_native_qwen_result(&self, result: &str) -> (r: String)
        ensures
            r@ == native_result(result@),
    {
        let mut out = "\n".to_string();
        out.append(FN_RESULT);
        out.append(": ");
        out.append(result);
        out.append("\n");
        out.append(FN_EXIT);
        out.append(":");
        out
    }

    /// The system prompt of `request`.
    pub fn system_content(&self, request: &LLMRequest) -> (r: String)
        ensures
            r@ == system_prompt(*self, *request),
    {
        let mut system = match &request.system {
            Some(s) => s.clone(),
            None => String::new(),
        };
        assert(request.system is None ==> system@ =~= Seq::empty());
        if self.tool_parser != ToolCallParser::OpenAI {
            if let Some(tools) = &request.tools {
                if tools.len() > 0 {
                    let mut instructions = if self.tool_parser == ToolCallParser::Hermes {
                        self.format_hermes_tools(tools)
                    } else {
                        self.format_native_qwen_tools(tools)
                    };
                    if !system.as_str().is_empty() {
                        instructions.append("\n\n");
                        instructions.append(system.as_str());
                    }
                    system = instructions;
                }
            }
        }
        let ghost start = system@;
        if self.thinking_config.enabled {
            match self.thinking_config.budget_tokens {
                Some(n) => {
                    let number = text::decimal_string(n as u64);
                    system.append(THINKING_BUDGET);
                    system.append(number.as_str());
                    system.append(" tokens for thinking.");
                },
                None => {
                    system.append(THINKING);
                },
            }
        }
        assert(system@ =~= start + thinking_instruction(
            self.thinking_config.enabled,
            self.thinking_config.budget_tokens,
        ));
        system
    }

    /// Adds the messages for one message of the conversation.
    fn push_message(&self, out: &mut Vec<QwenMessage>, m: &Message)
        ensures
            message_views(final(out)@) == message_views(old(out)@) + message_for(
                self.tool_parser,
                *m,
            ),
    {
        let ghost start = message_views(out@);
        let parts = part_blocks(&m.content);
        let role = role_string(m.role);
        let ghost uses = tool_uses(m.content@);
        let ghost results = tool_results(m.content@);
        if parts.uses.len() > 0 {
            if self.tool_parser == ToolCallParser::OpenAI {
                let content: Option<String> = if parts.texts.len() == 0 {
                    None
                } else {
                    Some(text::join(&parts.texts, "\n"))
                };
                let calls = call_fields(&parts);
                out.push(
                    QwenMessage { role, content, tool_calls: Some(calls), tool_call_id: None },
                );
            } else {
                let content = text_with_calls(self.tool_parser, &parts);
                out.push(message(role, Some(content)));
            }
            proof {
                assert(message_views(out@) =~= start.push(out@.last()@));
                assert(message_views(out@) =~= start + message_for(self.tool_parser, *m));
            }
        } else if parts.results.len() > 0 {
            let mut i: usize = 0;
            let ghost all = result_views(parts.results@);
            assert(start + Seq::new(0, |k: int| result_message(self.tool_parser, all[k]))
                =~= start);
            while i < parts.results.len()
                invariant
                    i <= parts.results@.len(),
                    all == result_views(parts.results@),
                    message_views(out@) == start + Seq::new(
                        i as nat,
                        |k: int| result_message(self.tool_parser, all[k]),
                    ),
                decreases parts.results@.len() - i,
            {
                let t = &parts.results[i];
                let ghost before = message_views(out@);
                assert(all[i as int] == (t.0@, t.1@));
                let next = match self.tool_parser {
                    ToolCallParser::Hermes => {
                        let mut content = "<tool_response>\nTool call ID: ".to_string();
                        content.append(t.0.as_str());
                        content.append("\nResult: ");
                        content.append(t.1.as_str());
                        content.append("\n</tool_response>");
                        message("user".to_string(), Some(content))
                    },
                    ToolCallParser::NativeQwen => {
                        let content = self.format_native_qwen_result(t.1.as_str());
                        message("user".to_string(), Some(content))
                    },
                    ToolCallParser::OpenAI => QwenMessage {
                        role: "tool".to_string(),
                        content: Some(t.1.clone()),
                        tool_calls: None,
                        tool_call_id: Some(t.0.clone()),
                    },
                };
                assert(next@ == result_message(self.tool_parser, all[i as int]));
                out.push(next);
                proof {
                    assert(message_views(out@) =~= before.push(next@));
                    assert(message_views(out@) =~= start + Seq::new(
                        (i + 1) as nat,
                        |k: int| result_message(self.tool_parser, all[k]),
                    ));
                }
                i = i + 1;
            }
            assert(message_views(out@) =~= start + message_for(self.tool_parser, *m));
        } else {
            let content = text::join(&parts.texts, "\n");
            out.push(message(role, Some(content)));
            proof {
                assert(message_views(out@) =~= start.push(out@.last()@));
                assert(message_views(out@) =~= start + message_for(self.tool_parser, *m));
            }
        }
    }

    /// The tools of a request as the endpoint takes them. They are sent only
    /// where tool calls have fields of their own.
    fn request_tools(&self, request: &LLMRequest) -> (r: Option<Vec<QwenTool>>)
        ensures
            match r {
                Some(t) => self.tool_parser == ToolCallParser::OpenAI && request.tools is Some
                    && t@.len() == request.tools.unwrap()@.len() && forall|i: int|
                    0 <= i < t@.len() ==> tool_fits(#[trigger] t@[i], request.tools.unwrap()@[i]),
                None => self.tool_parser != ToolCallParser::OpenAI || request.tools is None,
            },
    {
        if self.tool_parser != ToolCallParser::OpenAI {
            return None;
        }
        match &request.tools {
            Some(tools) => {
                let mut out: Vec<QwenTool> = Vec::new();
                let mut i: usize = 0;
                while i < tools.len()
                    invariant
                        i <= tools@.len(),
                        out@.len() == i,
                        forall|k: int| 0 <= k < i ==> tool_fits(#[trigger] out@[k], tools@[k]),
                    decreases tools@.len() - i,
                {
                    let t = &tools[i];
                    out.push(
                        QwenTool {
                            kind: "function".to_string(),
                            function: QwenFunction {
                                name: t.name.clone(),
                                description: t.description.clone(),
                                parameters: t.input_schema.clone(),
                            },
                        },
                    );
                    i = i + 1;
                }
                Some(out)
            },
            None => None,
        }
    }

    /// `request` as the endpoint takes it.
    ///
    /// A sampling value of the request wins over the provider's, and that over
    /// the model's default. The defaults of `top_k` and the repetition penalty
    /// are sent to local deployments only.
    pub fn to_qwen_request(&self, request: LLMRequest) -> (r: QwenRequest)
        ensures
            r.model == request.model,
            message_views(r.messages@) == request_messages(*self, request),
            r.temperature == request.temperature,
            ({
                let defaults = provider::family_sampling(
                    text::lowercase(request.model@),
                    self.thinking_config.enabled,
                );
                let local = self.local_deployment();
                &&& r.top_p == first_of(request.top_p, first_of(self.sampling.top_p, defaults.0))
                &&& r.top_k == first_of(
                    self.sampling.top_k,
                    if local {
                        defaults.1
                    } else {
                        None
                    },
                )
                &&& r.repetition_penalty == first_of(
                    self.sampling.repetition_penalty,
                    if local {
                        defaults.2
                    } else {
                        None
                    },
                )
            }),
            (r.top_p, r.top_k, r.repetition_penalty) == request_sampling(*self, request),
            request.top_p is Some ==> r.top_p == request.top_p,
            request.top_p is None && self.sampling.top_p is Some ==> r.top_p == self.sampling.top_p,
            self.sampling.top_k is Some ==> r.top_k == self.sampling.top_k,
            self.sampling.repetition_penalty is Some ==> r.repetition_penalty
                == self.sampling.repetition_penalty,
            !self.local_deployment() && self.sampling.top_k is None ==> r.top_k is None,
            !self.local_deployment() && self.sampling.repetition_penalty is None
                ==> r.repetition_penalty is None,
            r.max_tokens == request.max_tokens,
            r.stream == Some(request.stream),
            match r.tools {
                Some(t) => self.tool_parser == ToolCallParser::OpenAI && request.tools is Some
                    && t@.len() == request.tools.unwrap()@.len() && forall|i: int|
                    0 <= i < t@.len() ==> tool_fits(#[trigger] t@[i], request.tools.unwrap()@[i])
                        && t@[i].kind@ == "function"@ && t@[i].function.name@
                        == request.tools.unwrap()@[i].name@ && t@[i].function.description@
                        == request.tools.unwrap()@[i].description@ && t@[i].function.parameters
                        == request.tools.unwrap()@[i].input_schema,
                None => self.tool_parser != ToolCallParser::OpenAI || request.tools is None,
            },
    {
        let mut messages: Vec<QwenMessage> = Vec::new();
        let system = self.system_content(&request);
        if !system.as_str().is_empty() {
            messages.push(message("system".to_string(), Some(system)));
        }
        let ghost head = message_views(messages@);
        proof {
            if system@.len() == 0 {
                assert(head =~= Seq::empty());
            } else {
                assert(head =~= seq![plain_message("system"@, Some(system@))]);
            }
            assert(head + conversation(self.tool_parser, request.messages@.take(0)) =~= head);
        }
        let mut i: usize = 0;
        while i < request.messages.len()
            invariant
                i <= request.messages@.len(),
                message_views(messages@) == head + conversation(
                    self.tool_parser,
                    request.messages@.take(i as int),
                ),
            decreases request.messages@.len() - i,
        {
            self.push_message(&mut messages, &request.messages[i]);
            proof {
                let so_far = request.messages@.take(i as int);
                let next = request.messages@.take(i as int + 1);
                assert(next.drop_last() =~= so_far);
                assert(next.last() == request.messages@[i as int]);
                assert(message_views(messages@) =~= head + conversation(self.tool_parser, next));
            }
            i = i + 1;
        }
        assert(request.messages@.take(request.messages@.len() as int) =~= request.messages@);
        let tools = self.request_tools(&request);
        let is_local = self.is_local();
        let (default_top_p, default_top_k, default_penalty) = Self::default_sampling(
            request.model.as_str(),
            self.thinking_config.enabled,
        );
        let top_p = first(request.top_p, first(self.sampling.top_p, default_top_p));
        let top_k = first(self.sampling.top_k, Self::local_only(is_local, default_top_k));
        let repetition_penalty = first(
            self.sampling.repetition_penalty,
            Self::local_only(is_local, default_penalty),
        );
        QwenRequest {
            temperature: request.temperature,
            max_tokens: request.max_tokens,
            stream: Some(request.stream),
            model: request.model,
            messages,
            top_p,
            top_k,
            repetition_penalty,
            tools,
        }
    }
}

} // verus!
