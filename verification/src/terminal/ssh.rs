//! SSH connections: their errors and states, host key checking against the lines of a
//! `known_hosts` file, and the reconnection schedule.
use vstd::prelude::*;

use crate::matching::{regex_is_match, regex_match_of};
use crate::session::models::{AuthMethod, SshSession};
use crate::text::{
    chars_eq, chars_of, decimal, owned, split_chars, split_on, split_words, string_of, trim,
    trim_chars, u64_decimal, words,
};

verus! {

/// Errors of SSH operations.
#[derive(Debug)]
pub enum SshError {
    ConnectionFailed(String),
    /// The connection did not come up within this many seconds.
    ConnectionTimeout(u64),
    AuthenticationFailed(String),
    HostKeyVerificationFailed(String),
    /// An I/O error, by its message.
    IoError(String),
    ChannelClosed,
    ResizeFailed(String),
    NotConnected,
    SshError(String),
}

/// Seconds to wait for a connection.
pub const CONNECTION_TIMEOUT_SECS: u64 = 5;
/// Seconds of inactivity after which a connection is dropped.
pub const INACTIVITY_TIMEOUT_SECS: u64 = 300;
/// Seconds between keepalive messages.
pub const KEEPALIVE_INTERVAL_SECS: u64 = 30;
/// Unanswered keepalives after which a connection is dropped.
pub const KEEPALIVE_MAX: usize = 3;
/// Reconnection attempts before giving up.
pub const MAX_RECONNECT_ATTEMPTS: u32 = 3;
/// Seconds before the first reconnection attempt.
pub const INITIAL_RECONNECT_DELAY_SECS: u64 = 1;

/// The size of the remote pseudo-terminal.
#[derive(Debug, Clone, Copy, Default)]
pub struct TerminalSize {
    pub cols: u16,
    pub rows: u16,
    pub pixel_width: u16,
    pub pixel_height: u16,
}

impl TerminalSize {
    /// A size in characters, without pixel dimensions.
    pub fn new(cols: u16, rows: u16) -> (s: Self)
        ensures
            s.cols == cols,
            s.rows == rows,
            s.pixel_width == 0,
            s.pixel_height == 0,
    {
        TerminalSize { cols, rows, pixel_width: 0, pixel_height: 0 }
    }
}

/// The state of an SSH connection.
#[derive(Debug, Clone, Copy, PartialEq, Eq, Structural)]
pub enum ConnectionState {
    Disconnected,
    Connecting,
    Connected,
    Disconnecting,
    Failed,
}

/// Whether a connection in this state is alive.
pub fn is_alive(state: ConnectionState) -> (b: bool)
    ensures
        b == (state == ConnectionState::Connected),
{
    state == ConnectionState::Connected
}

/// The outcome of checking a server's host key.
#[derive(Debug, Clone, PartialEq, Eq)]
pub enum HostKeyStatus {
    /// The key matches the `known_hosts` entry.
    Verified,
    /// The host was not known and its key was recorded.
    TrustOnFirstUse,
    /// The host is known with another key of the same type.
    Mismatch,
    /// The key could not be checked.
    Error(String),
}

/// Whether the connection proceeds after a host key check: everything but a mismatch
/// is accepted (a check that could not be made degrades to acceptance).
pub fn accept_host_key(status: &HostKeyStatus) -> (b: bool)
    ensures
        b == !(*status is Mismatch),
{
    match status {
        HostKeyStatus::Mismatch => false,
        _ => true,
    }
}

/// The description of a connection: `user@host:port`.
pub fn description(config: &SshSession) -> (d: String)
    ensures
        d@ == config.username@ + "@"@ + config.host@ + ":"@ + decimal(config.port as nat),
{
    let mut d = config.username.clone();
    d.append("@");
    d.append(config.host.as_str());
    d.append(":");
    let p = u64_decimal(config.port as u64);
    d.append(p.as_str());
    d
}

/// The delay before reconnection attempt `attempt` (counted from 1): one second,
/// doubling after each failed attempt.
pub open spec fn reconnect_delay_of(attempt: nat) -> nat
    decreases attempt,
{
    if attempt <= 1 { INITIAL_RECONNECT_DELAY_SECS as nat } else { 2 * reconnect_delay_of((attempt - 1) as nat) }
}

/// The delay in seconds before reconnection attempt `attempt`.
pub fn reconnect_delay(attempt: u32) -> (d: u64)
    requires
        1 <= attempt <= MAX_RECONNECT_ATTEMPTS,
    ensures
        d == reconnect_delay_of(attempt as nat),
{
    let mut d: u64 = INITIAL_RECONNECT_DELAY_SECS;
    let mut a: u32 = 1;
    while a < attempt
        invariant
            1 <= a <= attempt <= MAX_RECONNECT_ATTEMPTS,
            d == reconnect_delay_of(a as nat),
            d == (if a == 1 { 1u64 } else if a == 2 { 2u64 } else { 4u64 }),
        decreases attempt - a,
    {
        d = d * 2;
        a += 1;
        assert(reconnect_delay_of(a as nat) == 2 * reconnect_delay_of((a - 1) as nat));
    }
    d
}

/// The message of the error after the last reconnection attempt failed.
pub fn reconnect_failure() -> (e: SshError)
    ensures
        e matches SshError::ConnectionFailed(m) && m@ == "Failed to reconnect after "@ + decimal(MAX_RECONNECT_ATTEMPTS as nat) + " attempts"@,
{
    let mut m = owned("Failed to reconnect after ");
    let n = u64_decimal(MAX_RECONNECT_ATTEMPTS as u64);
    m.append(n.as_str());
    m.append(" attempts");
    SshError::ConnectionFailed(m)
}

/// What a reconnection does after an attempt.
pub enum ReconnectAction {
    /// The attempt connected.
    Connected,
    /// Wait this many seconds, then make attempt `attempt`.
    Retry { attempt: u32, delay_secs: u64 },
    /// The last attempt failed: give up with this error.
    GiveUp(SshError),
}

/// The step after reconnection attempt `attempt` (counted from 1): done when it connected;
/// else the next attempt after twice the previous delay, until the last attempt has failed.
pub fn reconnect_next(attempt: u32, connected: bool) -> (a: ReconnectAction)
    requires
        1 <= attempt <= MAX_RECONNECT_ATTEMPTS,
    ensures
        connected ==> a is Connected,
        !connected && attempt < MAX_RECONNECT_ATTEMPTS ==> a == (ReconnectAction::Retry {
            attempt: (attempt + 1) as u32,
            delay_secs: reconnect_delay_of((attempt + 1) as nat) as u64,
        }),
        !connected && attempt == MAX_RECONNECT_ATTEMPTS ==> (a matches ReconnectAction::GiveUp(
            SshError::ConnectionFailed(m),
        ) && m@ == "Failed to reconnect after "@ + decimal(MAX_RECONNECT_ATTEMPTS as nat) + " attempts"@),
{
    if connected {
        ReconnectAction::Connected
    } else if attempt < MAX_RECONNECT_ATTEMPTS {
        ReconnectAction::Retry { attempt: attempt + 1, delay_secs: reconnect_delay(attempt + 1) }
    } else {
        ReconnectAction::GiveUp(reconnect_failure())
    }
}

/// What a `known_hosts` file says of a host and a key.
#[derive(Debug, Clone, Copy, PartialEq, Eq, Structural)]
pub enum KnownHostMatch {
    /// A line for the host holds this very key.
    Verified,
    /// A line for the host holds another key of the same type.
    Mismatch,
    /// No line decides: the host is new for this key type.
    Unknown,
}

/// The text with each `*` replaced by `.*`.
pub open spec fn star_to_regex(s: Seq<char>) -> Seq<char>
    decreases s.len(),
{
    if s.len() == 0 {
        Seq::empty()
    } else {
        star_to_regex(s.drop_last()) + if s.last() == '*' { seq!['.', '*'] } else { seq![s.last()] }
    }
}

/// The index of the first `c` in `s`, or -1.
pub open spec fn index_of(s: Seq<char>, c: char) -> int
    decreases s.len(),
{
    if s.len() == 0 {
        -1
    } else if s[0] == c {
        0
    } else if index_of(s.drop_first(), c) < 0 {
        -1
    } else {
        index_of(s.drop_first(), c) + 1
    }
}

/// A host pattern without the brackets of the `[host]:port` form.
pub open spec fn strip_brackets(p: Seq<char>) -> Seq<char> {
    if p.len() > 0 && p[0] == '[' && index_of(p, ']') >= 0 {
        p.subrange(1, index_of(p, ']'))
    } else {
        p
    }
}

/// Whether one comma-separated entry of a host field names `host`: hashed entries
/// (`|...`) never do; otherwise the entry, without `[...]:port` brackets, equals the
/// host or, when it holds `*`, matches it as a wildcard pattern.
pub open spec fn entry_matches(entry: Seq<char>, host: Seq<char>) -> bool {
    let t = trim(entry);
    if t.len() > 0 && t[0] == '|' {
        false
    } else {
        let h = strip_brackets(t);
        h == host || (h.contains('*')
            && regex_match_of(seq!['^'] + star_to_regex(h) + seq!['$'], host) == Some(true))
    }
}

/// Whether a host field of `known_hosts` names `host`.
pub open spec fn host_field_matches(field: Seq<char>, host: Seq<char>) -> bool {
    exists|i: int| 0 <= i < split_on(field, ',').len() && entry_matches(#[trigger] split_on(field, ',')[i], host)
}

/// What one line of `known_hosts` says, if anything: blank lines, comments and lines of
/// fewer than three fields say nothing, nor do lines of other hosts or key types.
pub open spec fn line_verdict(line: Seq<char>, host: Seq<char>, key_type: Seq<char>, key_data: Seq<char>)
    -> Option<KnownHostMatch>
{
    let t = trim(line);
    let parts = words(t);
    if t.len() == 0 || t[0] == '#' || parts.len() < 3 {
        None
    } else if !host_field_matches(parts[0], host) {
        None
    } else if parts[1] == key_type && parts[2] == key_data {
        Some(KnownHostMatch::Verified)
    } else if parts[1] == key_type {
        Some(KnownHostMatch::Mismatch)
    } else {
        None
    }
}

/// What the first deciding line says.
pub open spec fn lines_verdict(lines: Seq<Seq<char>>, host: Seq<char>, key_type: Seq<char>, key_data: Seq<char>)
    -> KnownHostMatch
    decreases lines.len(),
{
    if lines.len() == 0 {
        KnownHostMatch::Unknown
    } else {
        match line_verdict(lines[0], host, key_type, key_data) {
            Some(v) => v,
            None => lines_verdict(lines.drop_first(), host, key_type, key_data),
        }
    }
}

/// What the text of a `known_hosts` file says of a host and a key.
pub open spec fn known_hosts_verdict(contents: Seq<char>, host: Seq<char>, key_type: Seq<char>, key_data: Seq<char>)
    -> KnownHostMatch
{
    lines_verdict(split_on(contents, '\n'), host, key_type, key_data)
}

fn contains_char(s: &[char], c: char) -> (b: bool)
    ensures
        b == s@.contains(c),
{
    let mut i: usize = 0;
    while i < s.len()
        invariant
            i <= s.len(),
            forall|j: int| 0 <= j < i ==> s@[j] != c,
        decreases s.len() - i,
    {
        if s[i] == c {
            return true;
        }
        i += 1;
    }
    false
}

proof fn lemma_index_of(s: Seq<char>, c: char)
    ensures
        -1 <= index_of(s, c) < s.len(),
        index_of(s, c) >= 0 ==> s[index_of(s, c)] == c && forall|j: int| 0 <= j < index_of(s, c) ==> s[j] != c,
        index_of(s, c) < 0 ==> forall|j: int| 0 <= j < s.len() ==> s[j] != c,
    decreases s.len(),
{
    if s.len() > 0 && s[0] != c {
        lemma_index_of(s.drop_first(), c);
        assert forall|j: int| 0 < j < s.len() implies s[j] == s.drop_first()[j - 1] by {}
    }
}

fn find_char(s: &[char], c: char) -> (r: Option<usize>)
    ensures
        match r {
            Some(i) => i as int == index_of(s@, c) && i < s@.len(),
            None => index_of(s@, c) < 0,
        },
{
    proof { lemma_index_of(s@, c); }
    let mut i: usize = 0;
    while i < s.len()
        invariant
            i <= s.len(),
            forall|j: int| 0 <= j < i ==> s@[j] != c,
            -1 <= index_of(s@, c) < s@.len(),
            index_of(s@, c) >= 0 ==> s@[index_of(s@, c)] == c && forall|j: int| 0 <= j < index_of(s@, c) ==> s@[j] != c,
            index_of(s@, c) < 0 ==> forall|j: int| 0 <= j < s@.len() ==> s@[j] != c,
        decreases s.len() - i,
    {
        if s[i] == c {
            return Some(i);
        }
        i += 1;
    }
    None
}

fn wildcard_regex(h: &[char]) -> (r: String)
    ensures
        r@ == seq!['^'] + star_to_regex(h@) + seq!['$'],
{
    let mut v: Vec<char> = Vec::new();
    v.push('^');
    let mut i: usize = 0;
    assert(h@.take(0) =~= Seq::<char>::empty());
    while i < h.len()
        invariant
            i <= h.len(),
            v@ == seq!['^'] + star_to_regex(h@.take(i as int)),
        decreases h.len() - i,
    {
        assert(h@.take(i + 1).drop_last() =~= h@.take(i as int));
        if h[i] == '*' {
            v.push('.');
            v.push('*');
        } else {
            v.push(h[i]);
        }
        assert(v@ =~= seq!['^'] + star_to_regex(h@.take(i + 1)));
        i += 1;
    }
    assert(h@.take(h.len() as int) =~= h@);
    v.push('$');
    string_of(&v)
}

fn entry_matches_exec(entry: &[char], host: &[char]) -> (b: bool)
    ensures
        b == entry_matches(entry@, host@),
{
    let t = trim_chars(entry);
    if t.len() > 0 && t[0] == '|' {
        return false;
    }
    let h: Vec<char> = if t.len() > 0 && t[0] == '[' {
        match find_char(&t, ']') {
            Some(end) => {
                let mut v: Vec<char> = Vec::new();
                let mut k: usize = 1;
                while k < end
                    invariant
                        1 <= k <= end,
                        end < t.len(),
                        v@ == t@.subrange(1, k as int),
                    decreases end - k,
                {
                    v.push(t[k]);
                    assert(t@.subrange(1, k + 1) =~= t@.subrange(1, k as int).push(t@[k as int]));
                    k += 1;
                }
                v
            },
            None => t,
        }
    } else {
        t
    };
    if chars_eq(&h, host) {
        return true;
    }
    if contains_char(&h, '*') {
        let re = wildcard_regex(&h);
        let text = string_of(host);
        match regex_is_match(re.as_str(), text.as_str()) {
            Some(true) => true,
            _ => false,
        }
    } else {
        false
    }
}

/// Whether a host field of `known_hosts` (a comma-separated list of host patterns)
/// names `hostname`.
pub fn host_matches(pattern: &str, hostname: &str) -> (b: bool)
    ensures
        b == host_field_matches(pattern@, hostname@),
{
    let p = chars_of(pattern);
    let host = chars_of(hostname);
    let entries = split_chars(&p, ',');
    let ghost es = entries@.map_values(|e: Vec<char>| e@);
    let mut i: usize = 0;
    while i < entries.len()
        invariant
            i <= entries.len(),
            es == entries@.map_values(|e: Vec<char>| e@),
            es == split_on(pattern@, ','),
            host@ == hostname@,
            forall|j: int| 0 <= j < i ==> !entry_matches(#[trigger] es[j], hostname@),
        decreases entries.len() - i,
    {
        if entry_matches_exec(&entries[i], &host) {
            assert(es[i as int] == entries@[i as int]@);
            return true;
        }
        i += 1;
    }
    false
}

/// What the text of a `known_hosts` file says of `hostname` and a key of type
/// `key_type` with base64 data `key_data`.
pub fn lookup_known_host(contents: &str, hostname: &str, key_type: &str, key_data: &str) -> (r: KnownHostMatch)
    ensures
        r == known_hosts_verdict(contents@, hostname@, key_type@, key_data@),
{
    let all = chars_of(contents);
    let kt = chars_of(key_type);
    let kd = chars_of(key_data);
    let lines = split_chars(&all, '\n');
    let ghost ls = lines@.map_values(|l: Vec<char>| l@);
    let mut i: usize = 0;
    assert(ls.skip(0) =~= ls);
    while i < lines.len()
        invariant
            i <= lines.len(),
            ls == lines@.map_values(|l: Vec<char>| l@),
            ls == split_on(contents@, '\n'),
            kt@ == key_type@,
            kd@ == key_data@,
            lines_verdict(ls, hostname@, key_type@, key_data@)
                == lines_verdict(ls.skip(i as int), hostname@, key_type@, key_data@),
        decreases lines.len() - i,
    {
        let ghost line = ls[i as int];
        assert(ls.skip(i as int)[0] == line);
        assert(ls.skip(i as int).drop_first() =~= ls.skip(i + 1));
        let t = trim_chars(&lines[i]);
        let parts = split_words(&t);
        let ghost ps = parts@.map_values(|p: Vec<char>| p@);
        if t.len() > 0 && t[0] != '#' && parts.len() >= 3 {
            let field = string_of(&parts[0]);
            assert(ps[0] == parts@[0]@);
            assert(ps[1] == parts@[1]@);
            assert(ps[2] == parts@[2]@);
            if host_matches(field.as_str(), hostname) {
                let same_type = chars_eq(&parts[1], &kt);
                if same_type && chars_eq(&parts[2], &kd) {
                    return KnownHostMatch::Verified;
                } else if same_type {
                    return KnownHostMatch::Mismatch;
                }
            }
        }
        i += 1;
    }
    KnownHostMatch::Unknown
}

/// The line that records a host's key: `host key-type key-data` and a newline.
pub fn known_hosts_entry(hostname: &str, key_type: &str, key_data: &str) -> (e: String)
    ensures
        e@ == hostname@ + " "@ + key_type@ + " "@ + key_data@ + "\n"@,
{
    let mut e = owned(hostname);
    e.append(" ");
    e.append(key_type);
    e.append(" ");
    e.append(key_data);
    e.append("\n");
    e
}

} // verus!

verus! {

/// The host key status that a `known_hosts` verdict settles: a verified or mismatched
/// key; `None` for a host not yet known, whose key is then recorded.
pub fn status_of_lookup(m: KnownHostMatch) -> (r: Option<HostKeyStatus>)
    ensures
        m is Verified ==> r == Some(HostKeyStatus::Verified),
        m is Mismatch ==> r == Some(HostKeyStatus::Mismatch),
        m is Unknown ==> r is None,
{
    match m {
        KnownHostMatch::Verified => Some(HostKeyStatus::Verified),
        KnownHostMatch::Mismatch => Some(HostKeyStatus::Mismatch),
        KnownHostMatch::Unknown => None,
    }
}

} // verus!

verus! {

/// An SSH connection's configuration, state and terminal size.
pub struct SshBackend {
    config: SshSession,
    state: ConnectionState,
    size: TerminalSize,
    read_buffer: Vec<u8>,
}

/// What waiting on the SSH channel gave.
pub enum ChannelEvent {
    /// There is no channel to read from.
    NoChannel,
    /// Output of the remote process.
    Data(Vec<u8>),
    /// Error output of the remote process.
    ExtendedData(Vec<u8>),
    /// The remote side sent end of file.
    Eof,
    /// The remote side closed the channel.
    Close,
    /// The remote process exited with this status.
    ExitStatus(u32),
    /// Another protocol message (a window adjustment, a success reply).
    Other,
    /// The channel is gone.
    Closed,
    /// Nothing arrived within the wait.
    TimedOut,
}

/// The credentials that an authentication attempt hands to the server.
pub enum AuthRequest {
    Password { username: String, password: String },
    PrivateKey { username: String, path: String, passphrase: Option<String> },
    Agent { username: String },
}

/// The attempt for a session's authentication method. A password method without a password
/// fails with `AuthenticationFailed("Password not provided")`.
pub fn auth_request(config: &SshSession) -> (r: Result<AuthRequest, SshError>)
    ensures
        match config.auth {
            AuthMethod::Password { password: Some(p), .. } => r matches Ok(
                AuthRequest::Password { username, password },
            ) && username@ == config.username@ && password@ == p@,
            AuthMethod::Password { password: None, .. } => r matches Err(
                SshError::AuthenticationFailed(m),
            ) && m@ == "Password not provided"@,
            AuthMethod::PrivateKey { path: kp, passphrase: pp, .. } => r matches Ok(
                AuthRequest::PrivateKey { username, path, passphrase },
            ) && username@ == config.username@ && path@ == kp@ && passphrase == pp,
            AuthMethod::Agent => r matches Ok(AuthRequest::Agent { username }) && username@
                == config.username@,
        },
{
    match &config.auth {
        AuthMethod::Password { password, .. } => match password {
            Some(p) => Ok(AuthRequest::Password { username: config.username.clone(), password: p.clone() }),
            None => Err(SshError::AuthenticationFailed(owned("Password not provided"))),
        },
        AuthMethod::PrivateKey { path, passphrase, .. } => Ok(
            AuthRequest::PrivateKey {
                username: config.username.clone(),
                path: path.clone(),
                passphrase: passphrase.clone(),
            },
        ),
        AuthMethod::Agent => Ok(AuthRequest::Agent { username: config.username.clone() }),
    }
}

/// The error of a private key that could not be loaded, by the loader's message.
pub fn key_load_failure(message: &str) -> (e: SshError)
    ensures
        e matches SshError::AuthenticationFailed(m) && m@ == "Failed to load private key: "@ + message@,
{
    let mut m = owned("Failed to load private key: ");
    m.append(message);
    SshError::AuthenticationFailed(m)
}

/// Why the SSH agent could not be used.
pub enum AgentFailure {
    /// `SSH_AUTH_SOCK` is not set.
    NoSocket,
    /// Connecting to the agent failed with this message.
    Connect(String),
    /// Asking the agent for its identities failed with this message.
    Identities(String),
}

/// The text of an agent failure.
pub open spec fn agent_failure_text(f: AgentFailure) -> Seq<char> {
    match f {
        AgentFailure::NoSocket => "SSH_AUTH_SOCK not set"@,
        AgentFailure::Connect(e) => "Failed to connect to agent: "@ + e@,
        AgentFailure::Identities(e) => "Failed to get identities: "@ + e@,
    }
}

/// The error of an agent authentication that could not be tried: the agent's own
/// authentication error, in words, behind "Agent authentication failed: ".
pub fn agent_failure(f: AgentFailure) -> (e: SshError)
    ensures
        e matches SshError::AuthenticationFailed(m) && m@ == "Agent authentication failed: Authentication failed: "@
            + agent_failure_text(f),
{
    let mut m = owned("Agent authentication failed: Authentication failed: ");
    match f {
        AgentFailure::NoSocket => m.append("SSH_AUTH_SOCK not set"),
        AgentFailure::Connect(e) => {
            m.append("Failed to connect to agent: ");
            m.append(e.as_str());
        },
        AgentFailure::Identities(e) => {
            m.append("Failed to get identities: ");
            m.append(e.as_str());
        },
    }
    SshError::AuthenticationFailed(m)
}

/// The verdict of a password or key attempt: the server's answer, or its error, by its
/// message, as `AuthenticationFailed`.
pub fn auth_outcome(outcome: Result<bool, String>) -> (r: Result<bool, SshError>)
    ensures
        match outcome {
            Ok(b) => r == Ok::<bool, SshError>(b),
            Err(e) => r matches Err(SshError::AuthenticationFailed(m)) && m == e,
        },
{
    match outcome {
        Ok(b) => Ok(b),
        Err(e) => Err(SshError::AuthenticationFailed(e)),
    }
}

/// Whether one agent identity's attempt ends the search: the server accepted it. A refusal
/// or an error moves on to the next identity; when none is left the agent attempt fails.
pub fn identity_accepted(outcome: &Result<bool, String>) -> (b: bool)
    ensures
        b == (*outcome == Ok::<bool, String>(true)),
{
    match outcome {
        Ok(true) => true,
        _ => false,
    }
}

/// What happened during a connection attempt.
pub enum ConnectEvent {
    /// The transport to the server is up.
    TransportReady,
    /// The transport failed with this message.
    TransportFailed(String),
    /// The transport did not come up within the connection timeout.
    TransportTimedOut,
    /// Authentication ended: the server's verdict, or an error.
    Authenticated(Result<bool, SshError>),
    ChannelOpened,
    ChannelFailed(String),
    PtyGranted,
    PtyFailed(String),
    ShellStarted,
    ShellFailed(String),
}

/// What a connection attempt does next.
pub enum ConnectAction {
    Authenticate,
    OpenChannel,
    /// Ask for a pseudo-terminal of this type and size.
    RequestPty { term: String, cols: u32, rows: u32, pixel_width: u32, pixel_height: u32 },
    RequestShell,
    /// The shell runs: the connection is up.
    Connected,
    /// The attempt ends with this error.
    Failed(SshError),
}

/// How many bytes a read of `data` into a buffer of `buf_len` bytes copies.
pub open spec fn copy_len(buf_len: nat, data_len: nat) -> nat {
    if buf_len < data_len { buf_len } else { data_len }
}

/// A buffer after the first bytes of `data` were copied into it.
pub open spec fn copied_into(buf: Seq<u8>, data: Seq<u8>) -> Seq<u8> {
    let n = copy_len(buf.len(), data.len()) as int;
    data.take(n) + buf.skip(n)
}

/// A read loses no byte and reorders none: the bytes a read copies into the front of the
/// reader's buffer, followed by the bytes it keeps for the next read, are the bytes it
/// took (the leftover bytes, or the data from the channel), in order; and it copies as
/// many as fit, none past the buffer.
pub proof fn lemma_read_keeps_every_byte(buf: Seq<u8>, data: Seq<u8>)
    ensures
        copy_len(buf.len(), data.len()) <= buf.len(),
        copy_len(buf.len(), data.len()) <= data.len(),
        copy_len(buf.len(), data.len()) == buf.len() || copy_len(buf.len(), data.len()) == data.len(),
        copied_into(buf, data).len() == buf.len(),
        copied_into(buf, data).take(copy_len(buf.len(), data.len()) as int)
            + data.skip(copy_len(buf.len(), data.len()) as int) == data,
{
    let n = copy_len(buf.len(), data.len()) as int;
    assert(copied_into(buf, data).take(n) =~= data.take(n));
    assert(data.take(n) + data.skip(n) =~= data);
}

/// Copies as many leading bytes of `data` as fit into `buf`, and says how many.
fn copy_prefix(buf: &mut [u8], data: &[u8]) -> (n: usize)
    ensures
        n == copy_len(old(buf)@.len(), data@.len()),
        final(buf)@ == copied_into(old(buf)@, data@),
{
    let n: usize = if buf.len() < data.len() { buf.len() } else { data.len() };
    let mut i: usize = 0;
    while i < n
        invariant
            i <= n,
            n <= data@.len(),
            n <= old(buf)@.len(),
            buf@.len() == old(buf)@.len(),
            buf@ =~= data@.take(i as int) + old(buf)@.skip(i as int),
        decreases n - i,
    {
        buf[i] = data[i];
        i += 1;
        assert(buf@ =~= data@.take(i as int) + old(buf)@.skip(i as int));
    }
    n
}

impl SshBackend {
    /// The session configuration.
    pub closed spec fn spec_config(&self) -> SshSession {
        self.config
    }

    /// The connection state.
    pub closed spec fn spec_state(&self) -> ConnectionState {
        self.state
    }

    /// The terminal size.
    pub closed spec fn spec_size(&self) -> TerminalSize {
        self.size
    }

    /// Bytes that arrived but did not fit into the reader's buffer yet.
    pub closed spec fn spec_read_buffer(&self) -> Seq<u8> {
        self.read_buffer@
    }

    /// A backend that has not connected, sized 80x24.
    pub fn new(config: SshSession) -> (b: Self)
        ensures
            b.spec_config() == config,
            b.spec_state() == ConnectionState::Disconnected,
            b.spec_size().cols == 80 && b.spec_size().rows == 24,
            b.spec_size().pixel_width == 0 && b.spec_size().pixel_height == 0,
            b.spec_read_buffer() == Seq::<u8>::empty(),
    {
        SshBackend {
            config,
            state: ConnectionState::Disconnected,
            size: TerminalSize::new(80, 24),
            read_buffer: Vec::new(),
        }
    }

    /// Hands out bytes left over from an earlier read: as many as fit into `buf`, from the
    /// front. With nothing left over it returns `None` and changes nothing; the caller then
    /// waits on the channel.
    pub fn read_buffered(&mut self, buf: &mut [u8]) -> (r: Option<usize>)
        ensures
            old(self).spec_read_buffer().len() == 0 ==> r is None && final(buf)@ == old(buf)@
                && final(self).spec_read_buffer() == old(self).spec_read_buffer(),
            old(self).spec_read_buffer().len() > 0 ==> r == Some(
                copy_len(old(buf)@.len(), old(self).spec_read_buffer().len()) as usize,
            ) && final(buf)@ == copied_into(old(buf)@, old(self).spec_read_buffer())
                && final(self).spec_read_buffer() == old(self).spec_read_buffer().skip(
                copy_len(old(buf)@.len(), old(self).spec_read_buffer().len()) as int,
            ),
            final(self).spec_state() == old(self).spec_state(),
            final(self).spec_config() == old(self).spec_config(),
            final(self).spec_size() == old(self).spec_size(),
    {
        if self.read_buffer.len() == 0 {
            return None;
        }
        let n = copy_prefix(buf, self.read_buffer.as_slice());
        let rest = self.read_buffer.split_off(n);
        self.read_buffer = rest;
        assert(self.read_buffer@ =~= old(self).read_buffer@.skip(n as int));
        Some(n)
    }

    /// Takes what waiting on the channel gave, once the leftover bytes are used up: data goes
    /// into `buf` as far as it fits and the rest is kept for the next read; end of file, a
    /// close or the remote process's exit end the connection with a read of nothing; another
    /// message or no message reads nothing; a vanished channel ends the connection with
    /// `ChannelClosed`, and no channel at all is `NotConnected`.
    pub fn read_event(&mut self, event: ChannelEvent, buf: &mut [u8]) -> (r: Result<usize, SshError>)
        ensures
            final(self).spec_config() == old(self).spec_config(),
            final(self).spec_size() == old(self).spec_size(),
            match event {
                ChannelEvent::Data(d) | ChannelEvent::ExtendedData(d) => {
                    let n = copy_len(old(buf)@.len(), d@.len());
                    &&& r == Ok::<usize, SshError>(n as usize)
                    &&& final(buf)@ == copied_into(old(buf)@, d@)
                    &&& final(self).spec_read_buffer() == old(self).spec_read_buffer() + d@.skip(n as int)
                    &&& final(self).spec_state() == old(self).spec_state()
                },
                ChannelEvent::Eof | ChannelEvent::Close | ChannelEvent::ExitStatus(_) => {
                    &&& r == Ok::<usize, SshError>(0)
                    &&& final(buf)@ == old(buf)@
                    &&& final(self).spec_read_buffer() == old(self).spec_read_buffer()
                    &&& final(self).spec_state() == ConnectionState::Disconnected
                },
                ChannelEvent::Other | ChannelEvent::TimedOut => {
                    &&& r == Ok::<usize, SshError>(0)
                    &&& final(buf)@ == old(buf)@
                    &&& final(self).spec_read_buffer() == old(self).spec_read_buffer()
                    &&& final(self).spec_state() == old(self).spec_state()
                },
                ChannelEvent::Closed => {
                    &&& r matches Err(SshError::ChannelClosed)
                    &&& final(buf)@ == old(buf)@
                    &&& final(self).spec_read_buffer() == old(self).spec_read_buffer()
                    &&& final(self).spec_state() == ConnectionState::Disconnected
                },
                ChannelEvent::NoChannel => {
                    &&& r matches Err(SshError::NotConnected)
                    &&& final(buf)@ == old(buf)@
                    &&& final(self).spec_read_buffer() == old(self).spec_read_buffer()
                    &&& final(self).spec_state() == old(self).spec_state()
                },
            },
    {
        match event {
            ChannelEvent::Data(d) | ChannelEvent::ExtendedData(d) => {
                let n = copy_prefix(buf, d.as_slice());
                let mut data = d;
                let mut rest = data.split_off(n);
                self.read_buffer.append(&mut rest);
                Ok(n)
            },
            ChannelEvent::Eof | ChannelEvent::Close | ChannelEvent::ExitStatus(_) => {
                self.state = ConnectionState::Disconnected;
                Ok(0)
            },
            ChannelEvent::Other | ChannelEvent::TimedOut => Ok(0),
            ChannelEvent::Closed => {
                self.state = ConnectionState::Disconnected;
                Err(SshError::ChannelClosed)
            },
            ChannelEvent::NoChannel => Err(SshError::NotConnected),
        }
    }

    /// Starts a connection attempt: the state becomes `Connecting`, and the address to
    /// connect to, `host:port`, comes back.
    pub fn begin_connect(&mut self) -> (addr: String)
        ensures
            addr@ == old(self).spec_config().host@ + ":"@ + decimal(old(self).spec_config().port as nat),
            final(self).spec_state() == ConnectionState::Connecting,
            final(self).spec_config() == old(self).spec_config(),
            final(self).spec_size() == old(self).spec_size(),
            final(self).spec_read_buffer() == old(self).spec_read_buffer(),
    {
        self.state = ConnectionState::Connecting;
        let mut addr = self.config.host.clone();
        addr.append(":");
        let p = u64_decimal(self.config.port as u64);
        addr.append(p.as_str());
        addr
    }

    /// The next step of a connection attempt. After the transport comes up it authenticates,
    /// then opens a channel, asks for an `xterm-256color` pseudo-terminal of the current size,
    /// then for a shell, and is connected once the shell runs. A failed step ends the attempt
    /// with its error and the state `Failed`; an authentication error ends it as it came and
    /// leaves the state as it was.
    pub fn connect_step(&mut self, event: ConnectEvent) -> (a: ConnectAction)
        ensures
            final(self).spec_config() == old(self).spec_config(),
            final(self).spec_size() == old(self).spec_size(),
            final(self).spec_read_buffer() == old(self).spec_read_buffer(),
            match event {
                ConnectEvent::TransportReady => a is Authenticate && final(self).spec_state()
                    == old(self).spec_state(),
                ConnectEvent::TransportFailed(e) => a matches ConnectAction::Failed(
                    SshError::ConnectionFailed(m),
                ) && m == e && final(self).spec_state() == ConnectionState::Failed,
                ConnectEvent::TransportTimedOut => a matches ConnectAction::Failed(
                    SshError::ConnectionTimeout(t),
                ) && t == CONNECTION_TIMEOUT_SECS && final(self).spec_state()
                    == ConnectionState::Failed,
                ConnectEvent::Authenticated(Ok(true)) => a is OpenChannel && final(self).spec_state()
                    == old(self).spec_state(),
                ConnectEvent::Authenticated(Ok(false)) => a matches ConnectAction::Failed(
                    SshError::AuthenticationFailed(m),
                ) && m@ == "Authentication failed"@ && final(self).spec_state()
                    == ConnectionState::Failed,
                ConnectEvent::Authenticated(Err(e)) => a == ConnectAction::Failed(e)
                    && final(self).spec_state() == old(self).spec_state(),
                ConnectEvent::ChannelOpened => a matches ConnectAction::RequestPty {
                    term,
                    cols,
                    rows,
                    pixel_width,
                    pixel_height,
                } && term@ == "xterm-256color"@ && cols == old(self).spec_size().cols
                    && rows == old(self).spec_size().rows && pixel_width
                    == old(self).spec_size().pixel_width && pixel_height
                    == old(self).spec_size().pixel_height && final(self).spec_state()
                    == old(self).spec_state(),
                ConnectEvent::ChannelFailed(e) => a matches ConnectAction::Failed(
                    SshError::SshError(m),
                ) && m@ == "Failed to open channel: "@ + e@ && final(self).spec_state()
                    == ConnectionState::Failed,
                ConnectEvent::PtyGranted => a is RequestShell && final(self).spec_state()
                    == old(self).spec_state(),
                ConnectEvent::PtyFailed(e) => a matches ConnectAction::Failed(SshError::SshError(m))
                    && m@ == "Failed to request PTY: "@ + e@ && final(self).spec_state()
                    == ConnectionState::Failed,
                ConnectEvent::ShellStarted => a is Connected && final(self).spec_state()
                    == ConnectionState::Connected,
                ConnectEvent::ShellFailed(e) => a matches ConnectAction::Failed(
                    SshError::SshError(m),
                ) && m@ == "Failed to request shell: "@ + e@ && final(self).spec_state()
                    == ConnectionState::Failed,
            },
    {
        match event {
            ConnectEvent::TransportReady => ConnectAction::Authenticate,
            ConnectEvent::TransportFailed(e) => {
                self.state = ConnectionState::Failed;
                ConnectAction::Failed(SshError::ConnectionFailed(e))
            },
            ConnectEvent::TransportTimedOut => {
                self.state = ConnectionState::Failed;
                ConnectAction::Failed(SshError::ConnectionTimeout(CONNECTION_TIMEOUT_SECS))
            },
            ConnectEvent::Authenticated(Ok(true)) => ConnectAction::OpenChannel,
            ConnectEvent::Authenticated(Ok(false)) => {
                self.state = ConnectionState::Failed;
                ConnectAction::Failed(SshError::AuthenticationFailed(owned("Authentication failed")))
            },
            ConnectEvent::Authenticated(Err(e)) => ConnectAction::Failed(e),
            ConnectEvent::ChannelOpened => ConnectAction::RequestPty {
                term: owned("xterm-256color"),
                cols: self.size.cols as u32,
                rows: self.size.rows as u32,
                pixel_width: self.size.pixel_width as u32,
                pixel_height: self.size.pixel_height as u32,
            },
            ConnectEvent::ChannelFailed(e) => {
                self.state = ConnectionState::Failed;
                let mut m = owned("Failed to open channel: ");
                m.append(e.as_str());
                ConnectAction::Failed(SshError::SshError(m))
            },
            ConnectEvent::PtyGranted => ConnectAction::RequestShell,
            ConnectEvent::PtyFailed(e) => {
                self.state = ConnectionState::Failed;
                let mut m = owned("Failed to request PTY: ");
                m.append(e.as_str());
                ConnectAction::Failed(SshError::SshError(m))
            },
            ConnectEvent::ShellStarted => {
                self.state = ConnectionState::Connected;
                ConnectAction::Connected
            },
            ConnectEvent::ShellFailed(e) => {
                self.state = ConnectionState::Failed;
                let mut m = owned("Failed to request shell: ");
                m.append(e.as_str());
                ConnectAction::Failed(SshError::SshError(m))
            },
        }
    }

    /// The step after reconnection attempt `attempt` (see `reconnect_next`); giving up
    /// after the last attempt leaves the connection `Failed`, otherwise the state stays.
    pub fn reconnect_step(&mut self, attempt: u32, connected: bool) -> (a: ReconnectAction)
        requires
            1 <= attempt <= MAX_RECONNECT_ATTEMPTS,
        ensures
            connected ==> a is Connected,
            !connected && attempt < MAX_RECONNECT_ATTEMPTS ==> a == (ReconnectAction::Retry {
                attempt: (attempt + 1) as u32,
                delay_secs: reconnect_delay_of((attempt + 1) as nat) as u64,
            }),
            !connected && attempt == MAX_RECONNECT_ATTEMPTS ==> (a matches ReconnectAction::GiveUp(
                SshError::ConnectionFailed(m),
            ) && m@ == "Failed to reconnect after "@ + decimal(MAX_RECONNECT_ATTEMPTS as nat) + " attempts"@),
            a is GiveUp ==> final(self).spec_state() == ConnectionState::Failed,
            !(a is GiveUp) ==> final(self).spec_state() == old(self).spec_state(),
            final(self).spec_config() == old(self).spec_config(),
            final(self).spec_size() == old(self).spec_size(),
            final(self).spec_read_buffer() == old(self).spec_read_buffer(),
    {
        let a = reconnect_next(attempt, connected);
        if let ReconnectAction::GiveUp(_) = &a {
            self.state = ConnectionState::Failed;
        }
        a
    }

    /// Clears the connection state before a reconnection attempt: no leftover bytes, and
    /// the state `Disconnected`.
    pub fn reset_for_reconnect(&mut self)
        ensures
            final(self).spec_read_buffer() == Seq::<u8>::empty(),
            final(self).spec_state() == ConnectionState::Disconnected,
            final(self).spec_config() == old(self).spec_config(),
            final(self).spec_size() == old(self).spec_size(),
    {
        self.read_buffer.clear();
        self.state = ConnectionState::Disconnected;
    }

    /// The state.
    pub fn state(&self) -> (s: ConnectionState)
        ensures
            s == self.spec_state(),
    {
        self.state
    }

    /// Records a change of state.
    pub fn set_state(&mut self, state: ConnectionState)
        ensures
            final(self).spec_state() == state,
            final(self).spec_config() == old(self).spec_config(),
            final(self).spec_size() == old(self).spec_size(),
            final(self).spec_read_buffer() == old(self).spec_read_buffer(),
    {
        self.state = state;
    }

    /// Whether the connection is up.
    pub fn is_alive(&self) -> (b: bool)
        ensures
            b == (self.spec_state() == ConnectionState::Connected),
    {
        is_alive(self.state)
    }

    /// `user@host:port`.
    pub fn description(&self) -> (d: String)
        ensures
            d@ == self.spec_config().username@ + "@"@ + self.spec_config().host@ + ":"@
                + decimal(self.spec_config().port as nat),
    {
        description(&self.config)
    }

    /// The session configuration, for reconnecting.
    pub fn config(&self) -> (c: &SshSession)
        ensures
            *c == self.spec_config(),
    {
        &self.config
    }

    /// The terminal size.
    pub fn size(&self) -> (s: TerminalSize)
        ensures
            s == self.spec_size(),
    {
        self.size
    }

    /// Sets the terminal size.
    pub fn set_size(&mut self, size: TerminalSize)
        ensures
            final(self).spec_size() == size,
            final(self).spec_config() == old(self).spec_config(),
            final(self).spec_state() == old(self).spec_state(),
            final(self).spec_read_buffer() == old(self).spec_read_buffer(),
    {
        self.size = size;
    }
}

} // verus!
