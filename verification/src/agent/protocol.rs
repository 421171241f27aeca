//! The stream-JSON protocol of the coding-agent CLI: input lines sent to it, output
//! lines read from it, and the updates the interface shows.
use vstd::prelude::*;
use vstd::string::*;
use vstd::utf8::is_ascii_chars;

use crate::doc::JsonValue;
use crate::text::{owned, str_eq};

verus! {

/// A user message line sent to the CLI: `{"type":"user","message":{"role":"user","content":...}}`.
#[derive(Debug, Clone)]
pub struct UserInput {
    pub msg_type: String,
    pub message: UserMessage,
}

/// The message part of a user input line.
#[derive(Debug, Clone)]
pub struct UserMessage {
    pub role: String,
    pub content: String,
}

impl UserInput {
    /// A user message with the given content.
    pub fn new(content: &str) -> (u: Self)
        ensures
            u.msg_type@ == "user"@,
            u.message.role@ == "user"@,
            u.message.content@ == content@,
    {
        UserInput {
            msg_type: owned("user"),
            message: UserMessage { role: owned("user"), content: owned(content) },
        }
    }
}

/// An output line of the CLI, as read from JSON.  Absent fields are `None`.
#[derive(Clone, Debug)]
pub struct OutputMessage {
    pub msg_type: String,
    pub subtype: Option<String>,
    pub session_id: Option<String>,
    pub message: Option<AssistantMessage>,
    pub result: Option<String>,
    pub is_error: Option<bool>,
    pub tools: Option<Vec<String>>,
    pub model: Option<String>,
    pub cwd: Option<String>,
}

/// The assistant message of an output line.
#[derive(Clone, Debug)]
pub struct AssistantMessage {
    pub id: Option<String>,
    pub model: Option<String>,
    pub role: Option<String>,
    pub content: Vec<ContentBlock>,
    pub stop_reason: Option<String>,
}

/// A content block of an assistant message; block types the protocol does not know
/// read as `Unknown`.
#[derive(Clone, Debug)]
pub enum ContentBlock {
    Text { text: String },
    ToolUse { id: String, name: String, input: JsonValue },
    ToolResult { tool_use_id: String, content: JsonValue },
    Unknown,
}

/// What the interface learns from an output line.
#[derive(Clone, Debug)]
pub enum SessionUpdate {
    /// The session started.
    SessionInit { session_id: String, model: String, tools: Vec<String> },
    /// A piece of assistant text.
    AssistantText { text: String },
    /// The assistant uses a tool.
    ToolUse { tool_id: String, tool_name: String, input: JsonValue },
    /// The reply is complete.
    MessageComplete { result: String },
    /// The CLI reported an error.
    Error { message: String },
}

/// The kind of a tool, for display.
#[derive(Debug, Clone, Copy, PartialEq, Eq, Structural)]
pub enum ToolKind {
    Bash,
    Execute,
    Read,
    Edit,
    Create,
    Search,
    Web,
    Unknown,
}

/// The state of a tool call.
#[derive(Debug, Clone, Copy, PartialEq, Eq, Structural)]
pub enum ToolCallStatus {
    Pending,
    WaitingForConfirmation,
    InProgress,
    Completed,
    Failed,
}

/// A tool call shown in the interface.
#[derive(Debug, Clone)]
pub struct ToolCall {
    pub tool_call_id: String,
    pub title: String,
    pub kind: ToolKind,
    pub status: ToolCallStatus,
    pub content: Option<String>,
}

/// The lower-case form `str::to_lowercase` gives of a text.
pub uninterp spec fn lowercase_of(s: Seq<char>) -> Seq<char>;

/// The ASCII lower-case form of a character.
pub open spec fn ascii_lower(c: char) -> char {
    if 'A' <= c <= 'Z' { ((c as u32) + 32) as char } else { c }
}

/// Lower-cases a text (`str::to_lowercase`).  Stated: the result is named
/// `lowercase_of(s)`; for ASCII text it maps `A`..`Z` to `a`..`z` and keeps the rest.
#[verifier::external_body]
fn to_lowercase(s: &str) -> (r: String)
    ensures
        r@ == lowercase_of(s@),
        is_ascii_chars(s@) ==> r@ == s@.map_values(|c: char| ascii_lower(c)),
{
    s.to_lowercase()
}

/// The kind of a tool by its lower-cased name.
pub open spec fn tool_kind_of(lower: Seq<char>) -> ToolKind {
    if lower == "bash"@ { ToolKind::Bash }
    else if lower == "execute"@ || lower == "task"@ { ToolKind::Execute }
    else if lower == "read"@ { ToolKind::Read }
    else if lower == "edit"@ { ToolKind::Edit }
    else if lower == "write"@ { ToolKind::Create }
    else if lower == "glob"@ || lower == "grep"@ { ToolKind::Search }
    else if lower == "webfetch"@ || lower == "websearch"@ { ToolKind::Web }
    else { ToolKind::Unknown }
}

impl ToolKind {
    /// The kind of a tool by its name, ignoring case.
    pub fn from_name(name: &str) -> (k: ToolKind)
        ensures
            k == tool_kind_of(lowercase_of(name@)),
            is_ascii_chars(name@) ==> k == tool_kind_of(name@.map_values(|c: char| ascii_lower(c))),
    {
        let lower = to_lowercase(name);
        let l = lower.as_str();
        if str_eq(l, "bash") { ToolKind::Bash }
        else if str_eq(l, "execute") || str_eq(l, "task") { ToolKind::Execute }
        else if str_eq(l, "read") { ToolKind::Read }
        else if str_eq(l, "edit") { ToolKind::Edit }
        else if str_eq(l, "write") { ToolKind::Create }
        else if str_eq(l, "glob") || str_eq(l, "grep") { ToolKind::Search }
        else if str_eq(l, "webfetch") || str_eq(l, "websearch") { ToolKind::Web }
        else { ToolKind::Unknown }
    }
}

impl<'a> From<&'a str> for ToolKind {
    fn from(name: &'a str) -> (k: ToolKind) {
        ToolKind::from_name(name)
    }
}

impl<'a> vstd::std_specs::convert::FromSpecImpl<&'a str> for ToolKind {
    open spec fn obeys_from_spec() -> bool {
        true
    }

    open spec fn from_spec(v: &'a str) -> ToolKind {
        tool_kind_of(lowercase_of(v@))
    }
}

} // verus!

verus! {

/// The content of a session update, with texts as character sequences.
pub enum UpdateSpec {
    SessionInit { session_id: Seq<char>, model: Seq<char>, tools: Seq<Seq<char>> },
    AssistantText { text: Seq<char> },
    ToolUse { tool_id: Seq<char>, tool_name: Seq<char>, input: JsonValue },
    MessageComplete { result: Seq<char> },
    Error { message: Seq<char> },
}

/// The texts of a list of strings.
pub open spec fn texts(v: Seq<String>) -> Seq<Seq<char>> {
    v.map_values(|s: String| s@)
}

impl SessionUpdate {
    /// The content of an update.
    pub open spec fn spec(self) -> UpdateSpec {
        match self {
            SessionUpdate::SessionInit { session_id, model, tools } =>
                UpdateSpec::SessionInit { session_id: session_id@, model: model@, tools: texts(tools@) },
            SessionUpdate::AssistantText { text } => UpdateSpec::AssistantText { text: text@ },
            SessionUpdate::ToolUse { tool_id, tool_name, input } =>
                UpdateSpec::ToolUse { tool_id: tool_id@, tool_name: tool_name@, input },
            SessionUpdate::MessageComplete { result } => UpdateSpec::MessageComplete { result: result@ },
            SessionUpdate::Error { message } => UpdateSpec::Error { message: message@ },
        }
    }
}

/// The contents of a list of updates.
pub open spec fn update_specs(v: Seq<SessionUpdate>) -> Seq<UpdateSpec> {
    v.map_values(|u: SessionUpdate| u.spec())
}

/// The updates the content blocks of an assistant message give: one per text block and
/// per tool-use block, in order; other blocks give none.
pub open spec fn block_updates(bs: Seq<ContentBlock>) -> Seq<UpdateSpec>
    decreases bs.len(),
{
    if bs.len() == 0 {
        Seq::empty()
    } else {
        let prefix = block_updates(bs.drop_last());
        match bs.last() {
            ContentBlock::Text { text } => prefix.push(UpdateSpec::AssistantText { text: text@ }),
            ContentBlock::ToolUse { id, name, input } =>
                prefix.push(UpdateSpec::ToolUse { tool_id: id@, tool_name: name@, input }),
            _ => prefix,
        }
    }
}

/// A text or, when absent, a default.
pub open spec fn text_or(o: Option<String>, d: Seq<char>) -> Seq<char> {
    match o {
        Some(s) => s@,
        None => d,
    }
}

/// The updates an output line gives.
///
/// - `system` with subtype `init`: the session start, absent fields read as empty;
/// - `assistant`: the updates of its content blocks (none without a message);
/// - `result`: an error when `is_error` is true (text "Unknown error" without a
///   result), else completion with the result (empty without one);
/// - anything else: none.
pub open spec fn output_updates(msg: OutputMessage) -> Seq<UpdateSpec> {
    if msg.msg_type@ == "system"@ && opt_text(msg.subtype) == Some("init"@) {
        seq![UpdateSpec::SessionInit {
            session_id: text_or(msg.session_id, Seq::empty()),
            model: text_or(msg.model, Seq::empty()),
            tools: match msg.tools { Some(t) => texts(t@), None => Seq::empty() },
        }]
    } else if msg.msg_type@ == "assistant"@ {
        match msg.message {
            Some(m) => block_updates(m.content@),
            None => Seq::empty(),
        }
    } else if msg.msg_type@ == "result"@ {
        let failed = match msg.is_error {
            Some(b) => b,
            None => false,
        };
        if failed {
            seq![UpdateSpec::Error { message: text_or(msg.result, "Unknown error"@) }]
        } else {
            seq![UpdateSpec::MessageComplete { result: text_or(msg.result, Seq::empty()) }]
        }
    } else {
        Seq::empty()
    }
}

/// The text of an optional string.
pub open spec fn opt_text(o: Option<String>) -> Option<Seq<char>> {
    match o {
        Some(s) => Some(s@),
        None => None,
    }
}

fn string_or(o: Option<String>, d: &str) -> (r: String)
    ensures
        r@ == text_or(o, d@),
{
    match o {
        Some(s) => s,
        None => owned(d),
    }
}

/// Turns an output line into the updates it carries.
pub fn parse_output_message(msg: OutputMessage) -> (updates: Vec<SessionUpdate>)
    ensures
        update_specs(updates@) == output_updates(msg),
{
    let ghost m0 = msg;
    proof {
        reveal_strlit("");
        reveal_strlit("init");
        reveal_strlit("system");
        reveal_strlit("assistant");
        reveal_strlit("result");
        assert(""@ =~= Seq::<char>::empty());
    }
    let mut updates: Vec<SessionUpdate> = Vec::new();
    let is_init = match &msg.subtype {
        Some(s) => str_eq(s.as_str(), "init"),
        None => false,
    };
    if str_eq(msg.msg_type.as_str(), "system") && is_init {
        let tools = match msg.tools {
            Some(t) => t,
            None => Vec::new(),
        };
        assert(texts(tools@) =~= match m0.tools {
            Some(t) => texts(t@),
            None => Seq::empty(),
        });
        updates.push(SessionUpdate::SessionInit {
            session_id: string_or(msg.session_id, ""),
            model: string_or(msg.model, ""),
            tools,
        });
        assert(update_specs(updates@) =~= output_updates(m0));
    } else if str_eq(msg.msg_type.as_str(), "assistant") {
        match msg.message {
            Some(message) => {
                let mut content = message.content;
                let ghost all = content@;
                assert(all.len() == content.len());
                assert(all.take(0) =~= Seq::<ContentBlock>::empty());
                assert(all.skip(0) =~= all);
                let mut i: usize = 0;
                while content.len() > 0
                    invariant
                        content@ == all.skip(i as int),
                        i <= all.len(),
                        all.len() <= usize::MAX,
                        update_specs(updates@) == block_updates(all.take(i as int)),
                    decreases content.len(),
                {
                    let block = content.remove(0);
                    let ghost before = updates@;
                    assert(block == all[i as int]);
                    match block {
                        ContentBlock::Text { text } => {
                            updates.push(SessionUpdate::AssistantText { text });
                        },
                        ContentBlock::ToolUse { id, name, input } => {
                            updates.push(SessionUpdate::ToolUse { tool_id: id, tool_name: name, input });
                        },
                        _ => {},
                    }
                    assert(all.take(i + 1).drop_last() == all.take(i as int));
                    assert(update_specs(updates@) =~= block_updates(all.take(i + 1))) by {
                        assert(updates@ =~= before || updates@ =~= before.push(updates@.last()));
                    }
                    i += 1;
                }
                assert(all.take(i as int) == all);
            },
            None => {},
        }
    } else if str_eq(msg.msg_type.as_str(), "result") {
        let failed = match msg.is_error {
            Some(b) => b,
            None => false,
        };
        if failed {
            updates.push(SessionUpdate::Error { message: string_or(msg.result, "Unknown error") });
        } else {
            updates.push(SessionUpdate::MessageComplete { result: string_or(msg.result, "") });
        }
        assert(update_specs(updates@) =~= output_updates(m0));
    }
    updates
}

} // verus!
