//! Shells in Kubernetes pods: errors, connection state and size.
use vstd::prelude::*;

use crate::session::models::K8sSession;

verus! {

/// Errors of pod exec sessions, outside errors by their messages.
#[derive(Debug)]
pub enum K8sError {
    ConnectionFailed(String),
    KubeError(String),
    ConfigError(String),
    InferConfigError(String),
    /// The pod (namespace, name) was not found.
    PodNotFound(String, String),
    IoError(String),
    ChannelClosed,
    NotConnected,
}

/// The size of the pod's terminal.
#[derive(Debug, Clone, Copy, Default)]
pub struct TerminalSize {
    pub cols: u16,
    pub rows: u16,
}

impl TerminalSize {
    /// A size in characters.
    pub fn new(cols: u16, rows: u16) -> (s: Self)
        ensures
            s.cols == cols,
            s.rows == rows,
    {
        TerminalSize { cols, rows }
    }
}

/// The state of a pod exec session.
#[derive(Debug, Clone, Copy, PartialEq, Eq, Structural)]
pub enum ConnectionState {
    Disconnected,
    Connecting,
    Connected,
    Failed,
}

/// A pod exec session: what to connect to, its state and its size.
pub struct K8sBackend {
    session: K8sSession,
    state: ConnectionState,
    size: TerminalSize,
}

impl K8sBackend {
    /// The session.
    pub closed spec fn spec_session(&self) -> K8sSession {
        self.session
    }

    /// The state.
    pub closed spec fn spec_state(&self) -> ConnectionState {
        self.state
    }

    /// The size the terminal gets when it connects.
    pub closed spec fn spec_size(&self) -> TerminalSize {
        self.size
    }

    /// A backend that has not connected, of size 0x0 until one is set.
    pub fn new(session: K8sSession) -> (b: Self)
        ensures
            b.spec_session() == session,
            b.spec_state() == ConnectionState::Disconnected,
            b.spec_size().cols == 0 && b.spec_size().rows == 0,
    {
        K8sBackend { session, state: ConnectionState::Disconnected, size: TerminalSize { cols: 0, rows: 0 } }
    }

    /// The session.
    pub fn session(&self) -> (s: &K8sSession)
        ensures
            *s == self.spec_session(),
    {
        &self.session
    }

    /// The state.
    pub fn state(&self) -> (s: ConnectionState)
        ensures
            s == self.spec_state(),
    {
        self.state
    }

    /// Sets the size before connecting.
    pub fn set_size(&mut self, size: TerminalSize)
        ensures
            final(self).spec_size() == size,
            final(self).spec_session() == old(self).spec_session(),
            final(self).spec_state() == old(self).spec_state(),
    {
        self.size = size;
    }

    /// Records a change of state.
    pub fn set_state(&mut self, state: ConnectionState)
        ensures
            final(self).spec_state() == state,
            final(self).spec_size() == old(self).spec_size(),
            final(self).spec_session() == old(self).spec_session(),
    {
        self.state = state;
    }

    /// Starts a connection attempt: the state becomes `Connecting`, and the kubeconfig context
    /// to load comes back.
    pub fn begin_connect(&mut self) -> (context: String)
        ensures
            context@ == old(self).spec_session().context@,
            final(self).spec_state() == ConnectionState::Connecting,
            final(self).spec_size() == old(self).spec_size(),
            final(self).spec_session() == old(self).spec_session(),
    {
        self.state = ConnectionState::Connecting;
        self.session.context.clone()
    }

    /// The next step of a connection attempt: once the configuration is loaded, look the pod
    /// up in its namespace; once it is found, run the shell command in it (in the session's
    /// container, if it names one); once attached, size the terminal and be connected. An
    /// error ends the attempt and leaves the state as it was.
    pub fn connect_step(&mut self, event: K8sConnectEvent) -> (a: K8sConnectAction)
        ensures
            final(self).spec_size() == old(self).spec_size(),
            final(self).spec_session() == old(self).spec_session(),
            match event {
                K8sConnectEvent::ConfigLoaded => a matches K8sConnectAction::LookupPod {
                    namespace,
                    pod,
                } && namespace@ == old(self).spec_session().namespace@ && pod@ == old(self).spec_session().pod@ && final(self).spec_state() == old(self).spec_state(),
                K8sConnectEvent::ConfigFailed(e) => a matches K8sConnectAction::Failed(
                    K8sError::ConfigError(m),
                ) && m == e && final(self).spec_state() == old(self).spec_state(),
                K8sConnectEvent::ClientFailed(e) => a matches K8sConnectAction::Failed(
                    K8sError::KubeError(m),
                ) && m == e && final(self).spec_state() == old(self).spec_state(),
                K8sConnectEvent::PodFound => a matches K8sConnectAction::Exec {
                    pod,
                    container,
                    command,
                } && pod@ == old(self).spec_session().pod@ && container == old(self).spec_session().container && command@.len() == 3 && command@[0]@ == "/bin/sh"@
                    && command@[1]@ == "-c"@ && command@[2]@
                    == "command -v bash >/dev/null && exec bash || exec sh"@ && final(self).spec_state() == old(self).spec_state(),
                K8sConnectEvent::PodMissing => a matches K8sConnectAction::Failed(
                    K8sError::PodNotFound(ns, pod),
                ) && ns@ == old(self).spec_session().namespace@ && pod@ == old(self).spec_session().pod@ && final(self).spec_state() == old(self).spec_state(),
                K8sConnectEvent::Attached => a == K8sConnectAction::Start(old(self).spec_size())
                    && final(self).spec_state() == ConnectionState::Connected,
                K8sConnectEvent::AttachFailed(e) => a matches K8sConnectAction::Failed(
                    K8sError::KubeError(m),
                ) && m == e && final(self).spec_state() == old(self).spec_state(),
            },
    {
        match event {
            K8sConnectEvent::ConfigLoaded => K8sConnectAction::LookupPod {
                namespace: self.session.namespace.clone(),
                pod: self.session.pod.clone(),
            },
            K8sConnectEvent::ConfigFailed(e) => K8sConnectAction::Failed(K8sError::ConfigError(e)),
            K8sConnectEvent::ClientFailed(e) => K8sConnectAction::Failed(K8sError::KubeError(e)),
            K8sConnectEvent::PodFound => K8sConnectAction::Exec {
                pod: self.session.pod.clone(),
                container: self.session.container.clone(),
                command: shell_command(),
            },
            K8sConnectEvent::PodMissing => K8sConnectAction::Failed(
                K8sError::PodNotFound(self.session.namespace.clone(), self.session.pod.clone()),
            ),
            K8sConnectEvent::Attached => {
                self.state = ConnectionState::Connected;
                K8sConnectAction::Start(self.size)
            },
            K8sConnectEvent::AttachFailed(e) => K8sConnectAction::Failed(K8sError::KubeError(e)),
        }
    }

    /// The size.
    pub fn size(&self) -> (s: TerminalSize)
        ensures
            s == self.spec_size(),
    {
        self.size
    }
}

/// What happened during a connection attempt, outside errors by their messages.
pub enum K8sConnectEvent {
    /// The kubeconfig of the context is loaded and a client made from it.
    ConfigLoaded,
    /// Loading the kubeconfig failed.
    ConfigFailed(String),
    /// Making a client from the configuration failed.
    ClientFailed(String),
    /// The pod exists.
    PodFound,
    /// Looking the pod up failed.
    PodMissing,
    /// The shell runs, attached to a terminal.
    Attached,
    /// Running the shell failed.
    AttachFailed(String),
}

/// What a connection attempt does next.
pub enum K8sConnectAction {
    /// Look the pod up in the namespace.
    LookupPod { namespace: String, pod: String },
    /// Run the command in the pod, in the container if one is named.
    Exec { pod: String, container: Option<String>, command: Vec<&'static str> },
    /// Send the terminal this size and start moving data: the session is connected.
    Start(TerminalSize),
    /// The attempt ends with this error.
    Failed(K8sError),
}

/// The command run in the pod: bash when it has one, else sh.
pub fn shell_command() -> (c: Vec<&'static str>)
    ensures
        c@.len() == 3,
        c@[0]@ == "/bin/sh"@,
        c@[1]@ == "-c"@,
        c@[2]@ == "command -v bash >/dev/null && exec bash || exec sh"@,
{
    let mut c: Vec<&'static str> = Vec::new();
    c.push("/bin/sh");
    c.push("-c");
    c.push("command -v bash >/dev/null && exec bash || exec sh");
    c
}

} // verus!
