//! The Gemini command line: how it is started, and what it writes.
use vstd::prelude::*;

use crate::digits;
use crate::digits::dec_usize;
use crate::errors::CoreError;
use crate::json;
use crate::json::{Json, json_to_string, JsonV, parse_json_str};
use crate::markdown;
use crate::text;
use crate::text::{cat2, cat3, cat4, cat5, own, str_eq, str_trim};

verus! {

// ---------------------------------------------------------------------------
// What it writes
// ---------------------------------------------------------------------------

/// What a line says.
#[derive(Debug, Clone, PartialEq, Eq)]
pub enum ParsedEvent {
    /// A session has begun.
    Init { session_id: String, model: Option<String> },
    /// The agent says something.
    AssistantMessage { text: String },
    /// The agent uses a tool.
    ToolUse { tool: String, input: String },
    /// A tool has come to a result.
    ToolResult { tool: String, output: String },
    /// The task is done.
    Result,
    /// The task has failed.
    Error { message: String },
    /// Something else.
    Other,
    /// Nothing.
    Skip,
}

#[verifier::ext_equal]
pub enum ParsedEventV {
    Init { session_id: Seq<char>, model: Option<Seq<char>> },
    AssistantMessage { text: Seq<char> },
    ToolUse { tool: Seq<char>, input: Seq<char> },
    ToolResult { tool: Seq<char>, output: Seq<char> },
    Result,
    Error { message: Seq<char> },
    Other,
    Skip,
}

impl View for ParsedEvent {
    type V = ParsedEventV;

    open spec fn view(&self) -> ParsedEventV {
        match *self {
            ParsedEvent::Init { session_id, model } => ParsedEventV::Init {
                session_id: session_id@,
                model: text::oview(model),
            },
            ParsedEvent::AssistantMessage { text } => ParsedEventV::AssistantMessage {
                text: text@,
            },
            ParsedEvent::ToolUse { tool, input } => ParsedEventV::ToolUse {
                tool: tool@,
                input: input@,
            },
            ParsedEvent::ToolResult { tool, output } => ParsedEventV::ToolResult {
                tool: tool@,
                output: output@,
            },
            ParsedEvent::Result => ParsedEventV::Result,
            ParsedEvent::Error { message } => ParsedEventV::Error { message: message@ },
            ParsedEvent::Other => ParsedEventV::Other,
            ParsedEvent::Skip => ParsedEventV::Skip,
        }
    }
}

/// A document as text: a string as it is, anything else written out.
pub open spec fn plain(v: JsonV) -> Seq<char> {
    match v {
        JsonV::Str(s) => s,
        _ => json::json_string(v),
    }
}

/// A member as text; empty where it is missing.
pub open spec fn plain_at(v: JsonV, key: Seq<char>) -> Seq<char> {
    if v.has(key) {
        plain(v.at(key))
    } else {
        Seq::empty()
    }
}

/// What a tool has come to, with the status where that is not success.
pub open spec fn tool_output(output: Seq<char>, status: Seq<char>) -> Seq<char> {
    if status.len() == 0 || status == "success"@ {
        output
    } else if output.len() == 0 {
        "[status: "@ + status + "]"@
    } else {
        output + "\n[status: "@ + status + "]"@
    }
}

/// What a document says.
pub open spec fn event_of(v: JsonV) -> ParsedEventV {
    let kind = v.str_at("type"@);
    if kind == Some("init"@) {
        ParsedEventV::Init {
            session_id: text::or_text(v.str_at("session_id"@), Seq::empty()),
            model: v.str_at("model"@),
        }
    } else if kind == Some("message"@) {
        if v.str_at("role"@) == Some("assistant"@) {
            ParsedEventV::AssistantMessage { text: plain_at(v, "content"@) }
        } else {
            ParsedEventV::Other
        }
    } else if kind == Some("tool_use"@) {
        ParsedEventV::ToolUse {
            tool: text::or_text(v.str_at("tool_name"@), "tool"@),
            input: if v.has("parameters"@) {
                json::json_string(v.at("parameters"@))
            } else {
                Seq::empty()
            },
        }
    } else if kind == Some("tool_result"@) {
        ParsedEventV::ToolResult {
            tool: text::or_text(text::first_of(v.str_at("tool_name"@), v.str_at("tool_id"@)), "tool"@),
            output: tool_output(
                plain_at(v, "output"@),
                text::or_text(v.str_at("status"@), Seq::empty()),
            ),
        }
    } else if kind == Some("result"@) {
        ParsedEventV::Result
    } else if kind == Some("error"@) {
        ParsedEventV::Error { message: text::or_text(v.str_at("message"@), "error"@) }
    } else {
        ParsedEventV::Other
    }
}

/// What a line says.
pub open spec fn line_event(line: Seq<char>) -> ParsedEventV {
    if text::trim(line).len() == 0 {
        ParsedEventV::Skip
    } else {
        match json::parsed_text(text::trim(line)) {
            Some(v) => event_of(v),
            None => ParsedEventV::Skip,
        }
    }
}

/// A document as text: a string as it is, anything else written out.
pub fn text_of(v: &Json) -> (r: String)
    ensures
        r@ == plain(v@),
{
    match v {
        Json::Str(s) => s.clone(),
        _ => json_to_string(v),
    }
}

fn text_at(v: &Json, key: &str) -> (r: String)
    ensures
        r@ == plain_at(v@, key@),
{
    match v.get(key) {
        Some(j) => text_of(j),
        None => String::new(),
    }
}

fn str_or(o: Option<&str>, d: &str) -> (r: String)
    ensures
        r@ == text::or_text(text::sview(o), d@),
{
    match o {
        Some(s) => s.to_owned(),
        None => d.to_owned(),
    }
}

fn str_or_empty(o: Option<&str>) -> (r: String)
    ensures
        r@ == text::or_text(text::sview(o), Seq::empty()),
{
    match o {
        Some(s) => s.to_owned(),
        None => String::new(),
    }
}

fn with_status(output: String, status: &str) -> (r: String)
    ensures
        r@ == tool_output(output@, status@),
{
    if status.is_empty() || str_eq(status, "success") {
        output
    } else if output.as_str().is_empty() {
        cat3("[status: ", status, "]")
    } else {
        cat4(output.as_str(), "\n[status: ", status, "]")
    }
}

/// What a document says.
pub fn read_event(v: &Json) -> (r: ParsedEvent)
    ensures
        r@ == event_of(v@),
{
    let kind = match v.str_at("type") {
        Some(k) => k,
        None => {
            return ParsedEvent::Other;
        },
    };
    if str_eq(kind, "init") {
        ParsedEvent::Init {
            session_id: str_or_empty(v.str_at("session_id")),
            model: own(v.str_at("model")),
        }
    } else if str_eq(kind, "message") {
        if crate::text::opt_is(v.str_at("role"), "assistant") {
            ParsedEvent::AssistantMessage { text: text_at(v, "content") }
        } else {
            ParsedEvent::Other
        }
    } else if str_eq(kind, "tool_use") {
        ParsedEvent::ToolUse {
            tool: str_or(v.str_at("tool_name"), "tool"),
            input: match v.get("parameters") {
                Some(p) => json_to_string(p),
                None => String::new(),
            },
        }
    } else if str_eq(kind, "tool_result") {
        let status = str_or_empty(v.str_at("status"));
        ParsedEvent::ToolResult {
            tool: str_or(
                crate::text::either(v.str_at("tool_name"), v.str_at("tool_id")),
                "tool",
            ),
            output: with_status(text_at(v, "output"), status.as_str()),
        }
    } else if str_eq(kind, "result") {
        ParsedEvent::Result
    } else if str_eq(kind, "error") {
        ParsedEvent::Error { message: str_or(v.str_at("message"), "error") }
    } else {
        ParsedEvent::Other
    }
}

/// What a line says.
pub fn parse_line(line: &str) -> (r: ParsedEvent)
    ensures
        r@ == line_event(line@),
{
    let line = str_trim(line);
    if line.as_str().is_empty() {
        return ParsedEvent::Skip;
    }
    match parse_json_str(line.as_str()) {
        Some(v) => read_event(&v),
        None => ParsedEvent::Skip,
    }
}

/// What a line means for a running task.
#[derive(Debug, Clone, PartialEq, Eq)]
pub enum CliEvent {
    /// The session by its identity.
    Session(String),
    /// The agent says something.
    Text(String),
    /// The agent uses a tool.
    ToolUse { tool: String, input: String, session: Option<String> },
    /// A tool has come to a result.
    ToolResult { tool: String, output: String },
    /// The task is done.
    Terminal { session: Option<String> },
    /// The task has failed.
    Error { text: String, session: Option<String> },
    /// Nothing.
    Skip,
}

#[verifier::ext_equal]
pub enum CliEventV {
    Session(Seq<char>),
    Text(Seq<char>),
    ToolUse { tool: Seq<char>, input: Seq<char>, session: Option<Seq<char>> },
    ToolResult { tool: Seq<char>, output: Seq<char> },
    Terminal { session: Option<Seq<char>> },
    Error { text: Seq<char>, session: Option<Seq<char>> },
    Skip,
}

impl View for CliEvent {
    type V = CliEventV;

    open spec fn view(&self) -> CliEventV {
        match *self {
            CliEvent::Session(s) => CliEventV::Session(s@),
            CliEvent::Text(t) => CliEventV::Text(t@),
            CliEvent::ToolUse { tool, input, session } => CliEventV::ToolUse {
                tool: tool@,
                input: input@,
                session: text::oview(session),
            },
            CliEvent::ToolResult { tool, output } => CliEventV::ToolResult {
                tool: tool@,
                output: output@,
            },
            CliEvent::Terminal { session } => CliEventV::Terminal { session: text::oview(session) },
            CliEvent::Error { text, session } => CliEventV::Error {
                text: text@,
                session: text::oview(session),
            },
            CliEvent::Skip => CliEventV::Skip,
        }
    }
}

/// What an event means for a running task.
pub open spec fn task_event(e: ParsedEventV) -> CliEventV {
    match e {
        ParsedEventV::Init { session_id, .. } => CliEventV::Session(session_id),
        ParsedEventV::AssistantMessage { text } => if text.len() == 0 {
            CliEventV::Skip
        } else {
            CliEventV::Text(text)
        },
        ParsedEventV::ToolUse { tool, input } => CliEventV::ToolUse { tool, input, session: None },
        ParsedEventV::ToolResult { tool, output } => CliEventV::ToolResult { tool, output },
        ParsedEventV::Result => CliEventV::Terminal { session: None },
        ParsedEventV::Error { message } => CliEventV::Error { text: message, session: None },
        ParsedEventV::Other => CliEventV::Skip,
        ParsedEventV::Skip => CliEventV::Skip,
    }
}

/// What a line means for a running task.
pub fn gemini_parse(line: &str) -> (r: CliEvent)
    ensures
        r@ == task_event(line_event(line@)),
{
    match parse_line(line) {
        ParsedEvent::Init { session_id, model } => CliEvent::Session(session_id),
        ParsedEvent::AssistantMessage { text } => if text.as_str().is_empty() {
            CliEvent::Skip
        } else {
            CliEvent::Text(text)
        },
        ParsedEvent::ToolUse { tool, input } => CliEvent::ToolUse { tool, input, session: None },
        ParsedEvent::ToolResult { tool, output } => CliEvent::ToolResult { tool, output },
        ParsedEvent::Result => CliEvent::Terminal { session: None },
        ParsedEvent::Error { message } => CliEvent::Error { text: message, session: None },
        ParsedEvent::Other => CliEvent::Skip,
        ParsedEvent::Skip => CliEvent::Skip,
    }
}

// ---------------------------------------------------------------------------
// How it is started
// ---------------------------------------------------------------------------

/// The name of the agent.
pub const NAME: &'static str = "gemini";

/// The most bytes of a prompt that can be handed over on the command line.
pub const MAX_PROMPT_BYTES: usize = 65536;

/// How an agent lets its tools be approved.
#[derive(Debug, Clone, Copy, PartialEq, Eq, Structural)]
pub enum PermissionCapability {
    /// Each use can be asked about in a chat.
    Interactive,
    /// Only by the agent's own settings.
    NativeOnly,
    /// Not at all.
    Unsupported,
}

/// The agent that is run by the Gemini command line.
#[derive(Debug, Clone, Copy, PartialEq, Eq)]
pub struct GeminiBackend;

impl Default for GeminiBackend {
    fn default() -> (r: GeminiBackend)
        ensures
            r == GeminiBackend,
    {
        GeminiBackend::new()
    }
}

impl GeminiBackend {
    /// The agent. It keeps no state.
    pub fn new() -> (r: GeminiBackend)
        ensures
            r == GeminiBackend,
    {
        GeminiBackend
    }

    /// The name of the agent.
    pub fn name(&self) -> (r: &'static str)
        ensures
            r@ == NAME@,
    {
        NAME
    }

    /// Its tools can only be approved by its own settings.
    pub fn permission_capability(&self) -> (r: PermissionCapability)
        ensures
            r == PermissionCapability::NativeOnly,
    {
        PermissionCapability::NativeOnly
    }
}

/// Whether a tool writes or executes. Which tools do is a choice of this library:
/// [`approval_for`] takes either answer.
pub open spec fn writes_or_executes(tool: Seq<char>) -> bool {
    tool == "Edit"@ || tool == "MultiEdit"@ || tool == "Write"@ || tool == "Bash"@
}

/// Whether the tools are not limited: no list, or one with a star in it.
pub open spec fn unlimited(tools: Seq<Seq<char>>) -> bool {
    tools.len() == 0 || tools.contains("*"@)
}

/// Whether the agent may change anything.
pub open spec fn may_write(tools: Seq<Seq<char>>) -> bool {
    unlimited(tools) || exists|i: int|
        0 <= i < tools.len() && writes_or_executes(#[trigger] tools[i])
}

/// How the agent's own approval is set, and whether it runs in its sandbox, by whether it may
/// change anything.
pub open spec fn approval_of(write: bool) -> (Seq<char>, bool) {
    if write {
        ("auto_edit"@, false)
    } else {
        ("plan"@, true)
    }
}

/// How the agent's own approval is set, and whether it runs in its sandbox, by whether it may
/// change anything.
pub fn approval_for(write: bool) -> (r: (&'static str, bool))
    ensures
        (r.0@, r.1) == approval_of(write),
{
    if write {
        ("auto_edit", false)
    } else {
        ("plan", true)
    }
}

/// How the agent's own approval is set, and whether it runs in its sandbox.
pub open spec fn approval(tools: Seq<Seq<char>>) -> (Seq<char>, bool) {
    approval_of(may_write(tools))
}

/// How the agent's own approval is set, and whether it runs in its sandbox.
pub fn pick_approval(allowed_tools: &[String]) -> (r: (&'static str, bool))
    ensures
        (r.0@, r.1) == approval(text::views(allowed_tools@)),
{
    let ghost tools = text::views(allowed_tools@);
    assert(tools.len() == allowed_tools@.len());
    let mut write = allowed_tools.len() == 0;
    let mut i: usize = 0;
    while i < allowed_tools.len()
        invariant
            i <= allowed_tools@.len(),
            tools == text::views(allowed_tools@),
            write == (tools.len() == 0 || exists|k: int|
                0 <= k < i && (#[trigger] tools[k] == "*"@ || writes_or_executes(tools[k]))),
        decreases allowed_tools@.len() - i,
    {
        let t = allowed_tools[i].as_str();
        assert(t@ == tools[i as int]);
        if str_eq(t, "*") || str_eq(t, "Edit") || str_eq(t, "MultiEdit") || str_eq(t, "Write")
            || str_eq(t, "Bash") {
            write = true;
            assert(tools[i as int] == "*"@ || writes_or_executes(tools[i as int]));
        }
        i += 1;
    }
    proof {
        if write && tools.len() > 0 {
            let k = choose|k: int|
                0 <= k < i && (#[trigger] tools[k] == "*"@ || writes_or_executes(tools[k]));
            assert(tools[k] == "*"@ || writes_or_executes(tools[k]));
            if tools[k] == "*"@ {
                assert(tools.contains("*"@));
            }
        }
        if may_write(tools) && tools.len() > 0 {
            if tools.contains("*"@) {
                let k = choose|k: int| 0 <= k < tools.len() && tools[k] == "*"@;
                assert(tools[k] == "*"@);
            } else {
                let k = choose|k: int|
                    0 <= k < tools.len() && writes_or_executes(#[trigger] tools[k]);
                assert(tools[k] == tools[k]);
            }
        }
    }
    approval_for(write)
}

/// The arguments of the command: where to go on, how tools are approved, and the prompt,
/// bound to its flag.
pub open spec fn arguments(
    prompt: Seq<char>,
    session: Option<Seq<char>>,
    tools: Seq<Seq<char>>,
) -> Seq<Seq<char>> {
    seq!["-p"@, "-o"@, "stream-json"@] + (match session {
        Some(s) => seq!["--resume"@, s],
        None => Seq::empty(),
    }) + seq!["--approval-mode"@, approval(tools).0] + (if approval(tools).1 {
        seq!["-s"@]
    } else {
        Seq::empty()
    }) + seq!["--skip-trust"@, "--prompt="@ + prompt]
}

/// Why a prompt is too long.
pub open spec fn too_long(prompt: Seq<char>) -> Seq<char> {
    "prompt 过长（"@ + digits::dec(markdown::byte_len(prompt) as int) + " 字节 > 上限 "@ + digits::dec(
        MAX_PROMPT_BYTES as int,
    ) + "）：gemini CLI 不支持从 stdin 传参，请缩短内容或拆分多轮发送"@
}

fn push_text(out: &mut Vec<String>, s: &str)
    ensures
        text::views(final(out)@) == text::views(old(out)@).push(s@),
{
    out.push(s.to_owned());
    assert(text::views(out@) =~= text::views(old(out)@).push(s@));
}

/// The arguments of the command. A prompt that is too long for it is turned down.
pub fn run_arguments(prompt: &str, session: Option<&str>, allowed_tools: &[String]) -> (r: Result<
    Vec<String>,
    CoreError,
>)
    ensures
        r is Ok <==> markdown::byte_len(prompt@) <= MAX_PROMPT_BYTES,
        r matches Ok(args) ==> text::views(args@) == arguments(
            prompt@,
            text::sview(session),
            text::views(allowed_tools@),
        ),
        r matches Err(e) ==> e is Backend && e@ == too_long(prompt@),
{
    let size: usize = prompt.as_bytes().len();
    if size > MAX_PROMPT_BYTES {
        return Err(
            CoreError::Backend(
                cat5(
                    "prompt 过长（",
                    dec_usize(size).as_str(),
                    " 字节 > 上限 ",
                    dec_usize(MAX_PROMPT_BYTES).as_str(),
                    "）：gemini CLI 不支持从 stdin 传参，请缩短内容或拆分多轮发送",
                ),
            ),
        );
    }
    let (mode, sandbox) = pick_approval(allowed_tools);
    let mut args: Vec<String> = Vec::new();
    push_text(&mut args, "-p");
    push_text(&mut args, "-o");
    push_text(&mut args, "stream-json");
    match session {
        Some(s) => {
            push_text(&mut args, "--resume");
            push_text(&mut args, s);
        },
        None => {},
    }
    push_text(&mut args, "--approval-mode");
    push_text(&mut args, mode);
    if sandbox {
        push_text(&mut args, "-s");
    }
    push_text(&mut args, "--skip-trust");
    push_text(&mut args, cat2("--prompt=", prompt).as_str());
    assert(text::views(args@) =~= arguments(prompt@, text::sview(session), text::views(allowed_tools@)));
    Ok(args)
}

// ---------------------------------------------------------------------------
// Laws
// ---------------------------------------------------------------------------

/// Whatever the tools, the agent never approves everything by itself; and where it may
/// change nothing, it runs in its sandbox.
pub proof fn law_never_yolo(tools: Seq<Seq<char>>)
    ensures
        approval(tools).0 != "yolo"@,
        approval(tools).0 == "auto_edit"@ || approval(tools).0 == "plan"@,
        approval(tools).1 <==> !may_write(tools),
        approval(tools).1 ==> approval(tools).0 == "plan"@,
{
    reveal_strlit("yolo");
    reveal_strlit("plan");
    reveal_strlit("auto_edit");
    assert("plan"@[0] == 'p');
    assert("yolo"@[0] == 'y');
    assert("auto_edit"@.len() != "yolo"@.len());
}

/// No list of tools means the same as a star.
pub proof fn law_no_list_is_a_star()
    ensures
        approval(Seq::empty()) == approval(seq!["*"@]),
{
    assert(seq!["*"@][0] == "*"@);
    assert(seq!["*"@].contains("*"@));
}

/// A prompt is never taken for an option, whatever it begins with: it stands last, behind
/// its own flag.
pub proof fn law_prompt_bound_to_flag(
    prompt: Seq<char>,
    session: Option<Seq<char>>,
    tools: Seq<Seq<char>>,
)
    ensures
        arguments(prompt, session, tools).last() == "--prompt="@ + prompt,
        crate::text::begins(arguments(prompt, session, tools).last(), "--prompt="@),
{
    crate::text::lemma_after_own_prefix("--prompt="@, prompt);
}

/// Whether a line holds a document of a kind.
pub open spec fn line_of_kind(line: Seq<char>, v: JsonV, kind: Seq<char>) -> bool {
    &&& text::trim(line).len() > 0
    &&& json::parsed_text(text::trim(line)) == Some(v)
    &&& v.str_at("type"@) == Some(kind)
}

proof fn lemma_kinds_differ()
    ensures
        "init"@.len() == 4,
        "message"@.len() == 7,
        "tool_use"@.len() == 8,
        "tool_result"@.len() == 11,
        "result"@.len() == 6,
        "error"@.len() == 5,
{
    reveal_strlit("init");
    reveal_strlit("message");
    reveal_strlit("tool_use");
    reveal_strlit("tool_result");
    reveal_strlit("result");
    reveal_strlit("error");
}

/// A line that tells of an error fails the task, with the reason that it gives: it never ends
/// the task as done, and is never passed over.
pub proof fn law_error_fails_the_task(line: Seq<char>, v: JsonV)
    requires
        line_of_kind(line, v, "error"@),
    ensures
        task_event(line_event(line)) matches CliEventV::Error { text, session } && session is None && (
        match v.str_at("message"@) {
            Some(m) => text == m,
            None => text == "error"@,
        }),
{
    lemma_kinds_differ();
}

/// A task ends as done by a line that tells of its result, and by no other.
pub proof fn law_only_a_result_ends_the_task(line: Seq<char>)
    ensures
        task_event(line_event(line)) is Terminal <==> exists|v: JsonV| #[trigger]
            line_of_kind(line, v, "result"@),
        task_event(line_event(line)) is Error <==> exists|v: JsonV| #[trigger]
            line_of_kind(line, v, "error"@),
{
    lemma_kinds_differ();
    if text::trim(line).len() > 0 {
        match json::parsed_text(text::trim(line)) {
            Some(v) => {
                if v.str_at("type"@) == Some("result"@) {
                    assert(line_of_kind(line, v, "result"@));
                }
                if v.str_at("type"@) == Some("error"@) {
                    assert(line_of_kind(line, v, "error"@));
                }
            },
            None => {},
        }
    }
}

/// What the agent says is handed on word for word; what anybody else says is not.
pub proof fn law_agent_is_quoted(line: Seq<char>, v: JsonV, said: Seq<char>)
    requires
        line_of_kind(line, v, "message"@),
        v.at("content"@) == JsonV::Str(said),
        said.len() > 0,
    ensures
        v.str_at("role"@) == Some("assistant"@) ==> task_event(line_event(line))
            == CliEventV::Text(said),
        v.str_at("role"@) != Some("assistant"@) ==> task_event(line_event(line)) is Skip,
{
    lemma_kinds_differ();
}

/// The session that a line names is the one with which the task goes on.
pub proof fn law_session_is_kept(line: Seq<char>, v: JsonV, id: Seq<char>)
    requires
        line_of_kind(line, v, "init"@),
        v.str_at("session_id"@) == Some(id),
    ensures
        task_event(line_event(line)) == CliEventV::Session(id),
{
    lemma_kinds_differ();
}

/// A use of a tool is told by the name of the tool and what it is used on.
pub proof fn law_tool_use_is_told(line: Seq<char>, v: JsonV, name: Seq<char>)
    requires
        line_of_kind(line, v, "tool_use"@),
        v.str_at("tool_name"@) == Some(name),
    ensures
        task_event(line_event(line)) matches CliEventV::ToolUse { tool, input, session } && tool == name
            && session is None && (v.has("parameters"@) ==> input == json::json_string(v.at("parameters"@)))
            && (!v.has("parameters"@) ==> input.len() == 0),
{
    lemma_kinds_differ();
}

/// The result of a tool is told with all that the tool put out; a status other than success
/// is told as well, behind it.
pub proof fn law_tool_result_is_told(line: Seq<char>, v: JsonV, name: Seq<char>, said: Seq<char>)
    requires
        line_of_kind(line, v, "tool_result"@),
        v.str_at("tool_name"@) == Some(name) || (v.str_at("tool_name"@) is None && v.str_at(
            "tool_id"@,
        ) == Some(name)),
        v.at("output"@) == JsonV::Str(said),
    ensures
        task_event(line_event(line)) matches CliEventV::ToolResult { tool, output } && tool == name
            && text::begins(output, said) && (match v.str_at("status"@) {
            Some(status) => if status.len() == 0 || status == "success"@ {
                output == said
            } else {
                text::ends(output, "[status: "@ + status + "]"@)
            },
            None => output == said,
        }),
{
    lemma_kinds_differ();
    match v.str_at("status"@) {
        Some(status) => {
            let mark = "[status: "@ + status + "]"@;
            reveal_strlit("[status: ");
            reveal_strlit("\n[status: ");
            let a = "\n[status: "@;
            assert(a =~= seq!['\n'] + "[status: "@);
            let long = said + a + status + "]"@;
            assert(long =~= said + seq!['\n'] + mark);
            assert(long.subrange(0, said.len() as int) =~= said);
            assert(long.subrange(long.len() - mark.len(), long.len() as int) =~= mark);
            assert(mark.subrange(0, mark.len() as int) =~= mark);
            assert(mark.subrange(0, 0) =~= Seq::empty());
            if said.len() == 0 {
                assert(said =~= Seq::empty());
            }
        },
        None => {},
    }
    assert(said.subrange(0, said.len() as int) =~= said);
}

/// A line that holds no document is passed over.
pub proof fn law_noise_is_passed_over(line: Seq<char>)
    requires
        text::trim(line).len() == 0 || json::parsed_text(text::trim(line)) is None,
    ensures
        task_event(line_event(line)) is Skip,
{
}

/// An agent that is given nothing but tools that neither write nor run anything plans only, in
/// its sandbox; one that is given a tool that does, or no list, may edit, outside of it.
pub proof fn law_tools_set_the_approval(tools: Seq<Seq<char>>)
    ensures
        (tools.len() > 0 && forall|i: int|
            0 <= i < tools.len() ==> (#[trigger] tools[i]) != "Edit"@ && tools[i] != "MultiEdit"@
                && tools[i] != "Write"@ && tools[i] != "Bash"@ && tools[i] != "*"@) ==> approval(tools)
            == ("plan"@, true),
        (tools.len() == 0 || tools.contains("Edit"@) || tools.contains("MultiEdit"@) || tools.contains(
            "Write"@,
        ) || tools.contains("Bash"@) || tools.contains("*"@)) ==> approval(tools) == (
            "auto_edit"@,
            false,
        ),
{
    if tools.contains("Edit"@) {
        let k = choose|k: int| 0 <= k < tools.len() && tools[k] == "Edit"@;
        assert(writes_or_executes(tools[k]));
    }
    if tools.contains("MultiEdit"@) {
        let k = choose|k: int| 0 <= k < tools.len() && tools[k] == "MultiEdit"@;
        assert(writes_or_executes(tools[k]));
    }
    if tools.contains("Write"@) {
        let k = choose|k: int| 0 <= k < tools.len() && tools[k] == "Write"@;
        assert(writes_or_executes(tools[k]));
    }
    if tools.contains("Bash"@) {
        let k = choose|k: int| 0 <= k < tools.len() && tools[k] == "Bash"@;
        assert(writes_or_executes(tools[k]));
    }
}

/// Whether a flag stands among arguments with a value behind it.
pub open spec fn flagged(args: Seq<Seq<char>>, flag: Seq<char>, value: Seq<char>) -> bool {
    exists|i: int| 0 <= i < args.len() - 1 && #[trigger] args[i] == flag && args[i + 1] == value
}

/// The agent is started without a person at hand, for output that can be read line by line; it
/// goes on with the session that is given, and approves by itself as its tools allow.
pub proof fn law_agent_is_started_as_asked(
    prompt: Seq<char>,
    session: Option<Seq<char>>,
    tools: Seq<Seq<char>>,
)
    ensures
        arguments(prompt, session, tools)[0] == "-p"@,
        flagged(arguments(prompt, session, tools), "-o"@, "stream-json"@),
        session matches Some(s) ==> flagged(arguments(prompt, session, tools), "--resume"@, s),
        session is None ==> forall|i: int|
            0 <= i < arguments(prompt, session, tools).len() - 1 ==> #[trigger] arguments(
                prompt,
                session,
                tools,
            )[i] != "--resume"@,
        flagged(arguments(prompt, session, tools), "--approval-mode"@, approval(tools).0),
        approval(tools).1 ==> arguments(prompt, session, tools).contains("-s"@),
        arguments(prompt, session, tools).contains("--skip-trust"@),
        arguments(prompt, session, tools).len() == 7 + (if session is Some {
            2int
        } else {
            0
        }) + (if approval(tools).1 {
            1int
        } else {
            0
        }),
{
    let args = arguments(prompt, session, tools);
    let n: int = if session is Some {
        5
    } else {
        3
    };
    assert(args[1] == "-o"@ && args[2] == "stream-json"@);
    if session is Some {
        assert(args[3] == "--resume"@ && args[4] == session->0);
    } else {
        reveal_strlit("--resume");
        reveal_strlit("-p");
        reveal_strlit("-o");
        reveal_strlit("-s");
        reveal_strlit("stream-json");
        reveal_strlit("--approval-mode");
        reveal_strlit("--skip-trust");
        reveal_strlit("plan");
        reveal_strlit("auto_edit");
        assert("--resume"@.len() == 8 && "--skip-trust"@.len() == 12);
    }
    assert(args[n] == "--approval-mode"@ && args[n + 1] == approval(tools).0);
    if approval(tools).1 {
        assert(args[n + 2] == "-s"@);
        assert(args[n + 3] == "--skip-trust"@);
    } else {
        assert(args[n + 2] == "--skip-trust"@);
    }
}

/// What the agent says, or a tool puts out, other than as a text is written out as a document.
pub proof fn law_documents_are_written_out(line: Seq<char>, v: JsonV)
    ensures
        line_of_kind(line, v, "message"@) && v.str_at("role"@) == Some("assistant"@) && v.has("content"@)
            && !(v.at("content"@) is Str) && json::json_string(v.at("content"@)).len() > 0
            ==> task_event(line_event(line)) == CliEventV::Text(json::json_string(v.at("content"@))),
        line_of_kind(line, v, "tool_result"@) && v.str_at("status"@) is None && v.has("output"@)
            && !(v.at("output"@) is Str) ==> (task_event(line_event(line)) matches CliEventV::ToolResult {
            output,
            ..
        } && output == json::json_string(v.at("output"@))),
        line_of_kind(line, v, "tool_use"@) && v.str_at("tool_name"@) is None ==> (task_event(
            line_event(line),
        ) matches CliEventV::ToolUse { tool, .. } && tool == "tool"@),
{
    lemma_kinds_differ();
}

} // verus!
