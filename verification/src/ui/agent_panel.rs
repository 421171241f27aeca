//! The state of the coding-agent panel: the conversation, the connection state,
//! the permission mode and the tool calls in progress, and how updates change them.
use vstd::prelude::*;

use crate::agent::connection::SessionInfo;
use crate::agent::protocol::{lowercase_of, tool_kind_of, SessionUpdate, ToolCall, ToolCallStatus, ToolKind};
use crate::doc::{json_get, json_str, JsonValue};
use crate::matching::{captures_view, regex_captures, regex_captures_of};
use crate::text::{chars_of, contains_seq, owned, str_contains, string_of, trim, trim_chars};

verus! {

/// Who wrote a message.
#[derive(Clone, Copy, Debug, PartialEq, Eq, Structural)]
pub enum MessageRole {
    User,
    Assistant,
    System,
}

/// A message of the conversation.
#[derive(Clone, Debug)]
pub struct AgentMessage {
    pub id: usize,
    pub role: MessageRole,
    pub content: String,
}

/// The state of the connection to the CLI.
#[derive(Clone, Debug)]
pub enum AgentConnectionState {
    Disconnected,
    Connecting,
    Connected,
    Error(String),
}

/// How the CLI asks for permission.
#[derive(Clone, Copy, Debug, PartialEq, Eq, Structural)]
pub enum PermissionMode {
    /// It asks each time.
    Default,
    /// It asks never.
    BypassPermissions,
    /// It plans and waits for approval.
    PlanMode,
}

impl Default for PermissionMode {
    fn default() -> (m: Self)
        ensures
            m == PermissionMode::Default,
    {
        PermissionMode::Default
    }
}

/// A message as plain values: id, role, text.
pub open spec fn message_view(m: AgentMessage) -> (usize, MessageRole, Seq<char>) {
    (m.id, m.role, m.content@)
}

/// The messages as plain values.
pub open spec fn messages_view(ms: Seq<AgentMessage>) -> Seq<(usize, MessageRole, Seq<char>)> {
    ms.map_values(|m: AgentMessage| message_view(m))
}

/// A tool call as plain values: id, title, kind, status, content.
pub open spec fn tool_call_view(t: ToolCall) -> (Seq<char>, Seq<char>, ToolKind, ToolCallStatus, Option<Seq<char>>) {
    (t.tool_call_id@, t.title@, t.kind, t.status, match t.content {
        Some(c) => Some(c@),
        None => None,
    })
}

/// The tool calls as plain values.
pub open spec fn tool_calls_view(ts: Seq<ToolCall>) -> Seq<(Seq<char>, Seq<char>, ToolKind, ToolCallStatus, Option<Seq<char>>)> {
    ts.map_values(|t: ToolCall| tool_call_view(t))
}

/// The arguments the CLI is started with in a permission mode.
pub open spec fn mode_args(m: PermissionMode) -> Seq<Seq<char>> {
    match m {
        PermissionMode::Default => Seq::empty(),
        PermissionMode::BypassPermissions => seq!["--dangerously-skip-permissions"@],
        PermissionMode::PlanMode => seq!["--plan"@],
    }
}

/// The mode after `m` in the cycle Default, Bypass, Plan.
pub open spec fn next_mode(m: PermissionMode) -> PermissionMode {
    match m {
        PermissionMode::Default => PermissionMode::BypassPermissions,
        PermissionMode::BypassPermissions => PermissionMode::PlanMode,
        PermissionMode::PlanMode => PermissionMode::Default,
    }
}

/// The label of a permission mode.
pub open spec fn mode_label(m: PermissionMode) -> Seq<char> {
    match m {
        PermissionMode::Default => "Default"@,
        PermissionMode::BypassPermissions => "Bypass"@,
        PermissionMode::PlanMode => "Plan"@,
    }
}

/// What a tool call's title shows of its input: the first of `command`, `file_path`
/// and `pattern` that is present, when it is a string; `...` otherwise.
pub open spec fn tool_argument(input: JsonValue) -> Seq<char> {
    let v = if json_get(input, "command"@) is Some {
        json_get(input, "command"@)
    } else if json_get(input, "file_path"@) is Some {
        json_get(input, "file_path"@)
    } else {
        json_get(input, "pattern"@)
    };
    match v {
        Some(x) => match json_str(x) {
            Some(s) => s,
            None => "..."@,
        },
        None => "..."@,
    }
}

/// The title of a tool call: `name: argument`.
pub open spec fn tool_title(name: Seq<char>, input: JsonValue) -> Seq<char> {
    name + ": "@ + tool_argument(input)
}

/// The text of every `@terminal` replaced by `with`, left to right.
pub open spec fn replace_mentions(s: Seq<char>, with: Seq<char>) -> Seq<char>
    decreases s.len(),
{
    if s.len() == 0 {
        s
    } else if s.len() >= 9 && s.take(9) == "@terminal"@ {
        with + replace_mentions(s.skip(9), with)
    } else {
        seq![s[0]] + replace_mentions(s.skip(1), with)
    }
}

/// What a `@terminal` mention becomes: the terminal's text in `<terminal_output>`
/// tags, or `[No active terminal]`.
pub open spec fn mention_text(terminal: Option<Seq<char>>) -> Seq<char> {
    match terminal {
        Some(t) => "<terminal_output>\n"@ + t + "\n</terminal_output>"@,
        None => "[No active terminal]"@,
    }
}

/// The panel's state.
pub struct AgentPanel {
    session_info: Option<SessionInfo>,
    connection_state: AgentConnectionState,
    permission_mode: PermissionMode,
    messages: Vec<AgentMessage>,
    pending_tool_calls: Vec<ToolCall>,
    skip_first_response: bool,
    next_message_id: usize,
    awaiting_response: bool,
    thinking_dots: usize,
}

impl AgentPanel {
    /// What the CLI reported when the session started.
    pub closed spec fn spec_session_info(&self) -> Option<SessionInfo> {
        self.session_info
    }

    /// The connection state.
    pub closed spec fn spec_state(&self) -> AgentConnectionState {
        self.connection_state
    }

    /// The permission mode.
    pub closed spec fn spec_mode(&self) -> PermissionMode {
        self.permission_mode
    }

    /// The messages shown: id, role and text.
    pub closed spec fn spec_messages(&self) -> Seq<(usize, MessageRole, Seq<char>)> {
        messages_view(self.messages@)
    }

    /// The tool calls not finished yet.
    pub closed spec fn spec_pending(&self) -> Seq<(Seq<char>, Seq<char>, ToolKind, ToolCallStatus, Option<Seq<char>>)> {
        tool_calls_view(self.pending_tool_calls@)
    }

    /// Whether the reply to the CLI's first, internal prompt is still to be skipped.
    pub closed spec fn spec_skip(&self) -> bool {
        self.skip_first_response
    }

    /// The id the next message gets.
    pub closed spec fn spec_next_id(&self) -> usize {
        self.next_message_id
    }

    /// Whether a reply is awaited.
    pub closed spec fn spec_awaiting(&self) -> bool {
        self.awaiting_response
    }

    /// The frame of the waiting animation.
    pub closed spec fn spec_dots(&self) -> usize {
        self.thinking_dots
    }

    /// Whether two panels differ at most in the messages.
    pub open spec fn same_but_messages(&self, other: &AgentPanel) -> bool {
        &&& self.spec_session_info() == other.spec_session_info()
        &&& self.spec_state() == other.spec_state()
        &&& self.spec_mode() == other.spec_mode()
        &&& self.spec_pending() == other.spec_pending()
        &&& self.spec_skip() == other.spec_skip()
        &&& self.spec_awaiting() == other.spec_awaiting()
        &&& self.spec_dots() == other.spec_dots()
    }

    /// `new` is `old` with a message of `role` and `text` added under the next id.
    pub open spec fn added(old: &AgentPanel, new: &AgentPanel, role: MessageRole, text: Seq<char>) -> bool {
        &&& new.spec_messages() == old.spec_messages().push((old.spec_next_id(), role, text))
        &&& new.spec_next_id() == old.spec_next_id() + 1
    }

    /// A panel with no conversation, not connected, in bypass mode.
    pub fn new() -> (p: Self)
        ensures
            p.spec_session_info() is None,
            p.spec_state() is Disconnected,
            p.spec_mode() == PermissionMode::BypassPermissions,
            p.spec_messages().len() == 0,
            p.spec_pending().len() == 0,
            !p.spec_skip(),
            p.spec_next_id() == 0,
            !p.spec_awaiting(),
            p.spec_dots() == 0,
    {
        AgentPanel {
            session_info: None,
            connection_state: AgentConnectionState::Disconnected,
            permission_mode: PermissionMode::BypassPermissions,
            messages: Vec::new(),
            pending_tool_calls: Vec::new(),
            skip_first_response: false,
            next_message_id: 0,
            awaiting_response: false,
            thinking_dots: 0,
        }
    }

    fn add_message(&mut self, role: MessageRole, content: String)
        requires
            old(self).spec_next_id() < usize::MAX,
        ensures
            Self::added(&*old(self), &*final(self), role, content@),
            final(self).same_but_messages(&*old(self)),
    {
        let id = self.next_message_id;
        self.next_message_id += 1;
        let ghost before = self.messages@;
        self.messages.push(AgentMessage { id, role, content });
        assert(messages_view(self.messages@) =~= messages_view(before).push((id, role, content@)));
    }

    /// The session the CLI reported.
    pub fn session_info(&self) -> (r: &Option<SessionInfo>)
        ensures
            *r == self.spec_session_info(),
    {
        &self.session_info
    }

    /// The connection state.
    pub fn connection_state(&self) -> (r: &AgentConnectionState)
        ensures
            *r == self.spec_state(),
    {
        &self.connection_state
    }

    /// The permission mode.
    pub fn permission_mode(&self) -> (m: PermissionMode)
        ensures
            m == self.spec_mode(),
    {
        self.permission_mode
    }

    /// The conversation.
    pub fn messages(&self) -> (r: &[AgentMessage])
        ensures
            messages_view(r@) == self.spec_messages(),
    {
        self.messages.as_slice()
    }

    /// The tool calls in progress.
    pub fn pending_tool_calls(&self) -> (r: &[ToolCall])
        ensures
            tool_calls_view(r@) == self.spec_pending(),
    {
        self.pending_tool_calls.as_slice()
    }

    /// The id the next message gets.
    pub fn next_message_id(&self) -> (n: usize)
        ensures
            n == self.spec_next_id(),
    {
        self.next_message_id
    }

    /// Whether a reply is awaited.
    pub fn awaiting_response(&self) -> (b: bool)
        ensures
            b == self.spec_awaiting(),
    {
        self.awaiting_response
    }

    /// The frame of the waiting animation.
    pub fn thinking_dots(&self) -> (d: usize)
        ensures
            d == self.spec_dots(),
    {
        self.thinking_dots
    }

    /// Starts connecting, unless connected or connecting already (`None`, nothing
    /// changes).  The conversation restarts with `Connecting...`; the result holds the
    /// arguments the CLI gets for the permission mode.
    pub fn begin_connect(&mut self) -> (r: Option<Vec<&'static str>>)
        ensures
            (old(self).spec_state() is Connected || old(self).spec_state() is Connecting) ==> r is None
                && final(self).spec_messages() == old(self).spec_messages()
                && final(self).spec_next_id() == old(self).spec_next_id()
                && final(self).same_but_messages(&*old(self)),
            !(old(self).spec_state() is Connected || old(self).spec_state() is Connecting) ==> {
                &&& r matches Some(args) && args@.map_values(|a: &str| a@) == mode_args(old(self).spec_mode())
                &&& final(self).spec_state() is Connecting
                &&& final(self).spec_messages() == seq![(0usize, MessageRole::System, "Connecting..."@)]
                &&& final(self).spec_next_id() == 1
                &&& final(self).spec_session_info() == old(self).spec_session_info()
                &&& final(self).spec_mode() == old(self).spec_mode()
                &&& final(self).spec_pending() == old(self).spec_pending()
                &&& final(self).spec_skip() == old(self).spec_skip()
                &&& final(self).spec_awaiting() == old(self).spec_awaiting()
                &&& final(self).spec_dots() == old(self).spec_dots()
            },
    {
        match self.connection_state {
            AgentConnectionState::Connected | AgentConnectionState::Connecting => {
                return None;
            },
            _ => {},
        }
        self.connection_state = AgentConnectionState::Connecting;
        self.messages = Vec::new();
        self.next_message_id = 0;
        self.add_message(MessageRole::System, owned("Connecting..."));
        let mut args: Vec<&'static str> = Vec::new();
        match self.permission_mode {
            PermissionMode::Default => {},
            PermissionMode::BypassPermissions => args.push("--dangerously-skip-permissions"),
            PermissionMode::PlanMode => args.push("--plan"),
        }
        assert(args@.map_values(|a: &str| a@) =~= mode_args(self.permission_mode));
        Some(args)
    }

    /// The CLI started: the reply to its first, internal prompt will be skipped.
    pub fn connect_succeeded(&mut self)
        ensures
            final(self).spec_skip(),
            final(self).spec_session_info() == old(self).spec_session_info(),
            final(self).spec_state() == old(self).spec_state(),
            final(self).spec_mode() == old(self).spec_mode(),
            final(self).spec_messages() == old(self).spec_messages(),
            final(self).spec_pending() == old(self).spec_pending(),
            final(self).spec_next_id() == old(self).spec_next_id(),
            final(self).spec_awaiting() == old(self).spec_awaiting(),
            final(self).spec_dots() == old(self).spec_dots(),
    {
        self.skip_first_response = true;
    }

    /// The CLI could not be started: the state holds the error, and the conversation
    /// says `Failed: ` and the error.
    pub fn connect_failed(&mut self, error: String)
        requires
            old(self).spec_next_id() < usize::MAX,
        ensures
            final(self).spec_state() matches AgentConnectionState::Error(e) && e@ == error@,
            Self::added(&*old(self), &*final(self), MessageRole::System, "Failed: "@ + error@),
            final(self).spec_session_info() == old(self).spec_session_info(),
            final(self).spec_mode() == old(self).spec_mode(),
            final(self).spec_pending() == old(self).spec_pending(),
            final(self).spec_skip() == old(self).spec_skip(),
            final(self).spec_awaiting() == old(self).spec_awaiting(),
            final(self).spec_dots() == old(self).spec_dots(),
    {
        let mut text = owned("Failed: ");
        text.append(error.as_str());
        self.connection_state = AgentConnectionState::Error(error);
        self.add_message(MessageRole::System, text);
    }

    /// Moves to the next permission mode; only while disconnected.
    pub fn cycle_permission_mode(&mut self)
        ensures
            old(self).spec_state() is Disconnected ==> final(self).spec_mode() == next_mode(old(self).spec_mode()),
            !(old(self).spec_state() is Disconnected) ==> final(self).spec_mode() == old(self).spec_mode(),
            final(self).spec_session_info() == old(self).spec_session_info(),
            final(self).spec_state() == old(self).spec_state(),
            final(self).spec_messages() == old(self).spec_messages(),
            final(self).spec_pending() == old(self).spec_pending(),
            final(self).spec_skip() == old(self).spec_skip(),
            final(self).spec_next_id() == old(self).spec_next_id(),
            final(self).spec_awaiting() == old(self).spec_awaiting(),
            final(self).spec_dots() == old(self).spec_dots(),
    {
        match self.connection_state {
            AgentConnectionState::Disconnected => {},
            _ => {
                return;
            },
        }
        self.permission_mode = match self.permission_mode {
            PermissionMode::Default => PermissionMode::BypassPermissions,
            PermissionMode::BypassPermissions => PermissionMode::PlanMode,
            PermissionMode::PlanMode => PermissionMode::Default,
        };
    }

    /// The label of the permission mode.
    pub fn permission_mode_label(&self) -> (l: &'static str)
        ensures
            l@ == mode_label(self.spec_mode()),
    {
        match self.permission_mode {
            PermissionMode::Default => "Default",
            PermissionMode::BypassPermissions => "Bypass",
            PermissionMode::PlanMode => "Plan",
        }
    }

    /// The connection was closed by the user: no session, disconnected, and the
    /// conversation says `Disconnected.`.
    pub fn disconnected(&mut self)
        requires
            old(self).spec_next_id() < usize::MAX,
        ensures
            final(self).spec_session_info() is None,
            final(self).spec_state() is Disconnected,
            Self::added(&*old(self), &*final(self), MessageRole::System, "Disconnected."@),
            final(self).spec_mode() == old(self).spec_mode(),
            final(self).spec_pending() == old(self).spec_pending(),
            final(self).spec_skip() == old(self).spec_skip(),
            final(self).spec_awaiting() == old(self).spec_awaiting(),
            final(self).spec_dots() == old(self).spec_dots(),
    {
        self.session_info = None;
        self.connection_state = AgentConnectionState::Disconnected;
        self.add_message(MessageRole::System, owned("Disconnected."));
    }

    /// The CLI's update stream ended: disconnected, and the conversation says
    /// `Connection closed.`.
    pub fn connection_closed(&mut self)
        requires
            old(self).spec_next_id() < usize::MAX,
        ensures
            final(self).spec_state() is Disconnected,
            Self::added(&*old(self), &*final(self), MessageRole::System, "Connection closed."@),
            final(self).spec_session_info() == old(self).spec_session_info(),
            final(self).spec_mode() == old(self).spec_mode(),
            final(self).spec_pending() == old(self).spec_pending(),
            final(self).spec_skip() == old(self).spec_skip(),
            final(self).spec_awaiting() == old(self).spec_awaiting(),
            final(self).spec_dots() == old(self).spec_dots(),
    {
        self.connection_state = AgentConnectionState::Disconnected;
        self.add_message(MessageRole::System, owned("Connection closed."));
    }

    /// Takes what the user typed: nothing when it is blank; else the trimmed text is
    /// added as the user's message and returned.
    pub fn submit_input(&mut self, raw: &str) -> (r: Option<String>)
        requires
            old(self).spec_next_id() < usize::MAX,
        ensures
            trim(raw@).len() == 0 ==> r is None && final(self).spec_messages() == old(self).spec_messages()
                && final(self).spec_next_id() == old(self).spec_next_id(),
            trim(raw@).len() > 0 ==> (r matches Some(t) && t@ == trim(raw@))
                && Self::added(&*old(self), &*final(self), MessageRole::User, trim(raw@)),
            final(self).same_but_messages(&*old(self)),
    {
        let chars = chars_of(raw);
        let t = trim_chars(&chars);
        if t.len() == 0 {
            return None;
        }
        let content = string_of(&t);
        let shown = string_of(&t);
        self.add_message(MessageRole::User, shown);
        Some(content)
    }

    /// The message went to the CLI: a reply is awaited and the animation restarts.
    pub fn message_sent(&mut self)
        ensures
            final(self).spec_awaiting(),
            final(self).spec_dots() == 0,
            final(self).spec_session_info() == old(self).spec_session_info(),
            final(self).spec_state() == old(self).spec_state(),
            final(self).spec_mode() == old(self).spec_mode(),
            final(self).spec_messages() == old(self).spec_messages(),
            final(self).spec_pending() == old(self).spec_pending(),
            final(self).spec_skip() == old(self).spec_skip(),
            final(self).spec_next_id() == old(self).spec_next_id(),
    {
        self.awaiting_response = true;
        self.thinking_dots = 0;
    }

    /// Sending failed: the conversation says `Error: ` and the error.
    pub fn send_failed(&mut self, error: &str)
        requires
            old(self).spec_next_id() < usize::MAX,
        ensures
            Self::added(&*old(self), &*final(self), MessageRole::System, "Error: "@ + error@),
            final(self).same_but_messages(&*old(self)),
    {
        let mut text = owned("Error: ");
        text.append(error);
        self.add_message(MessageRole::System, text);
    }

    /// There is no connection to send on: the conversation says `Not connected`.
    pub fn not_connected(&mut self)
        requires
            old(self).spec_next_id() < usize::MAX,
        ensures
            Self::added(&*old(self), &*final(self), MessageRole::System, "Not connected"@),
            final(self).same_but_messages(&*old(self)),
    {
        self.add_message(MessageRole::System, owned("Not connected"));
    }

    /// Advances the waiting animation (three frames) while a reply is awaited.
    pub fn tick(&mut self)
        ensures
            old(self).spec_awaiting() ==> final(self).spec_dots() == (old(self).spec_dots() + 1) % 3,
            !old(self).spec_awaiting() ==> final(self).spec_dots() == old(self).spec_dots(),
            final(self).spec_session_info() == old(self).spec_session_info(),
            final(self).spec_state() == old(self).spec_state(),
            final(self).spec_mode() == old(self).spec_mode(),
            final(self).spec_messages() == old(self).spec_messages(),
            final(self).spec_pending() == old(self).spec_pending(),
            final(self).spec_skip() == old(self).spec_skip(),
            final(self).spec_next_id() == old(self).spec_next_id(),
            final(self).spec_awaiting() == old(self).spec_awaiting(),
    {
        if self.awaiting_response {
            self.thinking_dots = (self.thinking_dots % 3 + 1) % 3;
        }
    }
}

} // verus!

verus! {

/// The title of a tool call from its name and input.
fn tool_call_title(tool_name: &str, input: &JsonValue) -> (t: String)
    ensures
        t@ == tool_title(tool_name@, *input),
{
    let v = match input.get("command") {
        Some(x) => Some(x),
        None => match input.get("file_path") {
            Some(x) => Some(x),
            None => input.get("pattern"),
        },
    };
    let arg: &str = match v {
        Some(x) => match x.as_str() {
            Some(s) => s,
            None => "...",
        },
        None => "...",
    };
    let mut t = owned(tool_name);
    t.append(": ");
    t.append(arg);
    t
}

impl AgentPanel {
    /// Applies an update from the CLI.
    ///
    /// - session start: the session is recorded and the state is connected; a first
    ///   message `Connecting...` from the system becomes `Connected (model)`, an empty
    ///   conversation gets that message, other conversations stay;
    /// - assistant text: ignored while the first reply is skipped; else no reply is
    ///   awaited any more, and the text extends a last assistant message or starts one;
    /// - tool use: a tool call in progress is added, titled by the tool's name and input;
    /// - completion: ends the skipping of the first reply; else no reply is awaited and
    ///   the tool calls are cleared;
    /// - error: no reply is awaited, and the conversation says `Error: ` and the message.
    pub fn handle_update(&mut self, update: SessionUpdate)
        requires
            old(self).spec_next_id() < usize::MAX,
        ensures
            final(self).spec_mode() == old(self).spec_mode(),
            final(self).spec_dots() == old(self).spec_dots(),
            match update {
                SessionUpdate::SessionInit { session_id, model, tools } => {
                    &&& final(self).spec_session_info() == Some(SessionInfo { session_id, model, tools })
                    &&& final(self).spec_state() is Connected
                    &&& final(self).spec_pending() == old(self).spec_pending()
                    &&& final(self).spec_skip() == old(self).spec_skip()
                    &&& final(self).spec_awaiting() == old(self).spec_awaiting()
                    &&& if old(self).spec_messages().len() == 0 {
                        Self::added(&*old(self), &*final(self), MessageRole::System, "Connected ("@ + model@ + ")"@)
                    } else if old(self).spec_messages()[0].1 == MessageRole::System
                        && old(self).spec_messages()[0].2 == "Connecting..."@ {
                        &&& final(self).spec_messages() == old(self).spec_messages().update(0,
                            (old(self).spec_messages()[0].0, MessageRole::System, "Connected ("@ + model@ + ")"@))
                        &&& final(self).spec_next_id() == old(self).spec_next_id()
                    } else {
                        &&& final(self).spec_messages() == old(self).spec_messages()
                        &&& final(self).spec_next_id() == old(self).spec_next_id()
                    }
                },
                SessionUpdate::AssistantText { text } => {
                    &&& final(self).spec_session_info() == old(self).spec_session_info()
                    &&& final(self).spec_state() == old(self).spec_state()
                    &&& final(self).spec_pending() == old(self).spec_pending()
                    &&& final(self).spec_skip() == old(self).spec_skip()
                    &&& if old(self).spec_skip() {
                        &&& final(self).spec_messages() == old(self).spec_messages()
                        &&& final(self).spec_next_id() == old(self).spec_next_id()
                        &&& final(self).spec_awaiting() == old(self).spec_awaiting()
                    } else {
                        &&& !final(self).spec_awaiting()
                        &&& if old(self).spec_messages().len() > 0
                            && old(self).spec_messages().last().1 == MessageRole::Assistant {
                            let last = old(self).spec_messages().last();
                            &&& final(self).spec_messages() == old(self).spec_messages().update(
                                old(self).spec_messages().len() - 1, (last.0, last.1, last.2 + text@))
                            &&& final(self).spec_next_id() == old(self).spec_next_id()
                        } else {
                            Self::added(&*old(self), &*final(self), MessageRole::Assistant, text@)
                        }
                    }
                },
                SessionUpdate::ToolUse { tool_id, tool_name, input } => {
                    &&& final(self).spec_pending() == old(self).spec_pending().push((tool_id@,
                        tool_title(tool_name@, input), tool_kind_of(lowercase_of(tool_name@)),
                        ToolCallStatus::InProgress, None))
                    &&& final(self).spec_session_info() == old(self).spec_session_info()
                    &&& final(self).spec_state() == old(self).spec_state()
                    &&& final(self).spec_messages() == old(self).spec_messages()
                    &&& final(self).spec_next_id() == old(self).spec_next_id()
                    &&& final(self).spec_skip() == old(self).spec_skip()
                    &&& final(self).spec_awaiting() == old(self).spec_awaiting()
                },
                SessionUpdate::MessageComplete { .. } => {
                    &&& final(self).spec_session_info() == old(self).spec_session_info()
                    &&& final(self).spec_state() == old(self).spec_state()
                    &&& final(self).spec_messages() == old(self).spec_messages()
                    &&& final(self).spec_next_id() == old(self).spec_next_id()
                    &&& !final(self).spec_skip()
                    &&& if old(self).spec_skip() {
                        &&& final(self).spec_pending() == old(self).spec_pending()
                        &&& final(self).spec_awaiting() == old(self).spec_awaiting()
                    } else {
                        &&& final(self).spec_pending().len() == 0
                        &&& !final(self).spec_awaiting()
                    }
                },
                SessionUpdate::Error { message } => {
                    &&& Self::added(&*old(self), &*final(self), MessageRole::System, "Error: "@ + message@)
                    &&& !final(self).spec_awaiting()
                    &&& final(self).spec_session_info() == old(self).spec_session_info()
                    &&& final(self).spec_state() == old(self).spec_state()
                    &&& final(self).spec_pending() == old(self).spec_pending()
                    &&& final(self).spec_skip() == old(self).spec_skip()
                },
            },
    {
        match update {
            SessionUpdate::SessionInit { session_id, model, tools } => {
                let mut connected = owned("Connected (");
                connected.append(model.as_str());
                connected.append(")");
                self.session_info = Some(SessionInfo { session_id, model, tools });
                self.connection_state = AgentConnectionState::Connected;
                if self.messages.len() == 0 {
                    self.add_message(MessageRole::System, connected);
                } else {
                    let first_is_connecting = self.messages[0].role == MessageRole::System
                        && crate::text::str_eq(self.messages[0].content.as_str(), "Connecting...");
                    if first_is_connecting {
                        let ghost before = self.messages@;
                        let first = self.messages.remove(0);
                        self.messages.insert(0, AgentMessage { id: first.id, role: first.role, content: connected });
                        assert(messages_view(self.messages@) =~= messages_view(before).update(0,
                            (before[0].id, MessageRole::System, connected@)));
                    }
                }
            },
            SessionUpdate::AssistantText { text } => {
                if self.skip_first_response {
                    return;
                }
                self.awaiting_response = false;
                let n = self.messages.len();
                if n > 0 && self.messages[n - 1].role == MessageRole::Assistant {
                    let ghost before = self.messages@;
                    let mut last = self.messages.remove(n - 1);
                    last.content.append(text.as_str());
                    self.messages.push(last);
                    assert(messages_view(self.messages@) =~= messages_view(before).update(n - 1,
                        (before[n - 1].id, before[n - 1].role, before[n - 1].content@ + text@)));
                } else {
                    self.add_message(MessageRole::Assistant, text);
                }
            },
            SessionUpdate::ToolUse { tool_id, tool_name, input } => {
                let title = tool_call_title(tool_name.as_str(), &input);
                let kind = ToolKind::from_name(tool_name.as_str());
                let ghost before = self.pending_tool_calls@;
                let call = ToolCall {
                    tool_call_id: tool_id,
                    title,
                    kind,
                    status: ToolCallStatus::InProgress,
                    content: None,
                };
                self.pending_tool_calls.push(call);
                assert(tool_calls_view(self.pending_tool_calls@) =~= tool_calls_view(before).push(tool_call_view(call)));
            },
            SessionUpdate::MessageComplete { .. } => {
                if self.skip_first_response {
                    self.skip_first_response = false;
                    return;
                }
                self.awaiting_response = false;
                self.pending_tool_calls = Vec::new();
                assert(tool_calls_view(self.pending_tool_calls@) =~= Seq::empty());
            },
            SessionUpdate::Error { message } => {
                self.awaiting_response = false;
                let mut text = owned("Error: ");
                text.append(message.as_str());
                self.add_message(MessageRole::System, text);
            },
        }
    }
}

/// The message with every `@terminal` replaced by the terminal's text in
/// `<terminal_output>` tags, or by `[No active terminal]` when there is no terminal.
pub fn expand_terminal_context(content: &str, terminal: Option<&str>) -> (r: String)
    ensures
        r@ == replace_mentions(content@, mention_text(match terminal {
            Some(t) => Some(t@),
            None => None,
        })),
{
    let ghost with = mention_text(match terminal {
        Some(t) => Some(t@),
        None => None,
    });
    let mut w = match terminal {
        Some(t) => {
            let mut w = owned("<terminal_output>\n");
            w.append(t);
            w.append("\n</terminal_output>");
            w
        },
        None => owned("[No active terminal]"),
    };
    let wc = chars_of(w.as_str());
    let s = chars_of(content);
    let pat = chars_of("@terminal");
    proof { reveal_strlit("@terminal"); }
    assert(pat@.len() == 9);
    let mut out: Vec<char> = Vec::new();
    let mut i: usize = 0;
    assert(s@.skip(0) =~= s@);
    while i < s.len()
        invariant
            i <= s.len(),
            s@ == content@,
            wc@ == with,
            pat@ == "@terminal"@,
            pat@.len() == 9,
            out@ + replace_mentions(s@.skip(i as int), with) == replace_mentions(content@, with),
        decreases s.len() - i,
    {
        let ghost rest = s@.skip(i as int);
        let mut hit = s.len() >= 9 && i <= s.len() - 9;
        if hit {
            let mut k: usize = 0;
            while k < 9
                invariant
                    k <= 9,
                    i + 9 <= s.len(),
                    pat@.len() == 9,
                    hit == forall|m: int| 0 <= m < k ==> s@[i + m] == pat@[m],
                decreases 9 - k,
            {
                if s[i + k] != pat[k] {
                    hit = false;
                }
                k += 1;
            }
        }
        if hit {
            assert(rest.take(9) =~= "@terminal"@) by {
                assert forall|m: int| 0 <= m < 9 implies rest.take(9)[m] == pat@[m] by {
                    assert(rest.take(9)[m] == s@[i + m]);
                }
            }
            assert(rest.skip(9) =~= s@.skip(i + 9));
            let mut j: usize = 0;
            let ghost out0 = out@;
            while j < wc.len()
                invariant
                    j <= wc.len(),
                    out@ == out0 + wc@.take(j as int),
                decreases wc.len() - j,
            {
                out.push(wc[j]);
                assert(wc@.take(j + 1) =~= wc@.take(j as int).push(wc@[j as int]));
                j += 1;
            }
            assert(wc@.take(wc.len() as int) =~= wc@);
            assert(out@ + replace_mentions(s@.skip(i + 9), with) =~= out0 + replace_mentions(rest, with));
            i += 9;
        } else {
            assert(!(rest.len() >= 9 && rest.take(9) == "@terminal"@)) by {
                if rest.len() >= 9 && rest.take(9) == "@terminal"@ {
                    assert forall|m: int| 0 <= m < 9 implies s@[i + m] == pat@[m] by {
                        assert(rest.take(9)[m] == s@[i + m]);
                    }
                }
            }
            assert(rest.skip(1) =~= s@.skip(i + 1));
            let ghost out0 = out@;
            out.push(s[i]);
            assert(out@ + replace_mentions(s@.skip(i + 1), with) =~= out0 + replace_mentions(rest, with));
            i += 1;
        }
    }
    assert(s@.skip(s.len() as int) =~= Seq::<char>::empty());
    assert(out@ =~= replace_mentions(content@, with));
    string_of(&out)
}

/// The command tags of a reply: for each match of `<cmd>...</cmd>` (regex
/// `<cmd>([^<]+)</cmd>`), its byte span and its trimmed command, where that is not empty.
pub open spec fn command_tags(caps: Seq<(Option<(usize, usize)>, Option<Seq<char>>)>) -> Seq<(usize, usize, Seq<char>)>
    decreases caps.len(),
{
    if caps.len() == 0 {
        Seq::empty()
    } else {
        let rest = command_tags(caps.drop_last());
        match caps.last() {
            (Some((start, end)), Some(cmd)) => if trim(cmd).len() > 0 {
                rest.push((start, end, trim(cmd)))
            } else {
                rest
            },
            _ => rest,
        }
    }
}

/// The command tags `<cmd>...</cmd>` of a reply: byte start, byte end and the trimmed
/// command of each, empty commands left out.
pub fn parse_commands(text: &str) -> (r: Vec<(usize, usize, String)>)
    ensures
        regex_captures_of("<cmd>([^<]+)</cmd>"@, text@) matches Some(caps)
            ==> r@.map_values(|c: (usize, usize, String)| (c.0, c.1, c.2@)) == command_tags(caps),
        regex_captures_of("<cmd>([^<]+)</cmd>"@, text@) is None ==> r@.len() == 0,
{
    let mut r: Vec<(usize, usize, String)> = Vec::new();
    let caps = regex_captures("<cmd>([^<]+)</cmd>", text);
    match caps {
        None => r,
        Some(caps) => {
            let ghost cv = caps@.map_values(|c: (Option<(usize, usize)>, Option<String>)| (c.0, match c.1 {
                Some(s) => Some(s@),
                None => None,
            }));
            let mut i: usize = 0;
            assert(cv.take(0) =~= Seq::<(Option<(usize, usize)>, Option<Seq<char>>)>::empty());
            while i < caps.len()
                invariant
                    i <= caps.len(),
                    cv == caps@.map_values(|c: (Option<(usize, usize)>, Option<String>)| (c.0, match c.1 {
                        Some(s) => Some(s@),
                        None => None,
                    })),
                    r@.map_values(|c: (usize, usize, String)| (c.0, c.1, c.2@)) == command_tags(cv.take(i as int)),
                decreases caps.len() - i,
            {
                let ghost before = r@;
                assert(cv.take(i + 1).drop_last() =~= cv.take(i as int));
                assert(cv.take(i + 1).last() == cv[i as int]);
                match &caps[i].0 {
                    Some((start, end)) => match &caps[i].1 {
                        Some(cmd) => {
                            let cs = chars_of(cmd.as_str());
                            let t = trim_chars(&cs);
                            if t.len() > 0 {
                                let c = string_of(&t);
                                r.push((*start, *end, c));
                                assert(r@.map_values(|c: (usize, usize, String)| (c.0, c.1, c.2@))
                                    =~= before.map_values(|c: (usize, usize, String)| (c.0, c.1, c.2@)).push((*start, *end, t@)));
                            }
                        },
                        None => {},
                    },
                    None => {},
                }
                i += 1;
            }
            assert(cv.take(caps.len() as int) =~= cv);
            r
        },
    }
}

} // verus!
