//! Sessions, groups and the data that holds them.
use vstd::prelude::*;

use crate::ids::{new_id, Uuid};
use crate::text::{owned, u64_decimal, decimal};

verus! {

/// How an SSH session authenticates.
#[derive(Debug, Clone)]
pub enum AuthMethod {
    /// Password authentication.  Without a password the user is asked when connecting,
    /// or, with `use_keychain`, it is read from the OS keychain.
    Password { password: Option<String>, use_keychain: bool },
    /// Private key authentication, with an optional passphrase.
    PrivateKey { path: String, passphrase: Option<String>, use_keychain: bool },
    /// SSH agent authentication.
    Agent,
}

impl Default for AuthMethod {
    fn default() -> (a: Self)
        ensures
            a is Agent,
    {
        AuthMethod::Agent
    }
}

/// An SSH session.
#[derive(Debug, Clone)]
pub struct SshSession {
    pub id: Uuid,
    pub name: String,
    pub host: String,
    pub port: u16,
    pub username: String,
    pub auth: AuthMethod,
    pub group_id: Option<Uuid>,
    pub color_tag: Option<String>,
    pub color_scheme: Option<String>,
}

/// The SSH port used when none is given.
pub fn default_port() -> (p: u16)
    ensures
        p == 22,
{
    22
}

impl SshSession {
    /// A new SSH session with a fresh id, port 22, agent authentication and no group.
    pub fn new(name: String, host: String, username: String) -> (s: Self)
        ensures
            s.name == name,
            s.host == host,
            s.username == username,
            s.port == 22,
            s.auth is Agent,
            s.group_id is None,
            s.color_tag is None,
            s.color_scheme is None,
    {
        SshSession {
            id: new_id(),
            name,
            host,
            port: 22,
            username,
            auth: AuthMethod::Agent,
            group_id: None,
            color_tag: None,
            color_scheme: None,
        }
    }

    /// The address to connect to: `host:port`.
    pub fn address(&self) -> (a: String)
        ensures
            a@ == self.host@ + ":"@ + decimal(self.port as nat),
    {
        let mut a = self.host.clone();
        a.append(":");
        let p = u64_decimal(self.port as u64);
        a.append(p.as_str());
        a
    }
}

/// A local terminal session.
#[derive(Debug, Clone)]
pub struct LocalSession {
    pub id: Uuid,
    pub name: String,
    /// The shell to run (the user's default when absent).
    pub shell: Option<String>,
    /// The working directory (the home directory when absent).
    pub working_dir: Option<String>,
    /// Additional environment variables, each name once.
    pub env: Vec<(String, String)>,
    pub group_id: Option<Uuid>,
}

impl Default for LocalSession {
    fn default() -> (s: Self)
        ensures
            s.name@ == "Local Terminal"@,
            s.shell is None,
            s.working_dir is None,
            s.env@.len() == 0,
            s.group_id is None,
    {
        LocalSession {
            id: new_id(),
            name: owned("Local Terminal"),
            shell: None,
            working_dir: None,
            env: Vec::new(),
            group_id: None,
        }
    }
}

impl LocalSession {
    /// A new local session with a fresh id and the given name.
    pub fn new(name: String) -> (s: Self)
        ensures
            s.name == name,
            s.shell is None,
            s.working_dir is None,
            s.env@.len() == 0,
            s.group_id is None,
    {
        LocalSession { id: new_id(), name, shell: None, working_dir: None, env: Vec::new(), group_id: None }
    }
}

/// An AWS SSM Session Manager session.
#[derive(Debug, Clone)]
pub struct SsmSession {
    pub id: Uuid,
    pub name: String,
    /// EC2 instance id (`i-...`) or managed instance id (`mi-...`).
    pub instance_id: String,
    pub region: Option<String>,
    pub profile: Option<String>,
    pub group_id: Option<Uuid>,
    pub color_scheme: Option<String>,
}

impl SsmSession {
    /// A new SSM session with a fresh id and no region, profile or group.
    pub fn new(name: String, instance_id: String) -> (s: Self)
        ensures
            s.name == name,
            s.instance_id == instance_id,
            s.region is None,
            s.profile is None,
            s.group_id is None,
            s.color_scheme is None,
    {
        SsmSession { id: new_id(), name, instance_id, region: None, profile: None, group_id: None, color_scheme: None }
    }

    /// A new SSM session with a fresh id and the given region and profile.
    pub fn with_config(name: String, instance_id: String, region: Option<String>, profile: Option<String>) -> (s: Self)
        ensures
            s.name == name,
            s.instance_id == instance_id,
            s.region == region,
            s.profile == profile,
            s.group_id is None,
            s.color_scheme is None,
    {
        SsmSession { id: new_id(), name, instance_id, region, profile, group_id: None, color_scheme: None }
    }
}

/// A group of sessions; groups nest through `parent_id`.
#[derive(Debug, Clone)]
pub struct SessionGroup {
    pub id: Uuid,
    pub name: String,
    /// The parent group; `None` for a top-level group.
    pub parent_id: Option<Uuid>,
    pub color: Option<String>,
}

impl SessionGroup {
    /// A new top-level group with a fresh id.
    pub fn new(name: String) -> (g: Self)
        ensures
            g.name == name,
            g.parent_id is None,
            g.color is None,
    {
        SessionGroup { id: new_id(), name, parent_id: None, color: None }
    }

    /// A new group inside `parent_id`, with a fresh id.
    pub fn new_nested(name: String, parent_id: Uuid) -> (g: Self)
        ensures
            g.name == name,
            g.parent_id == Some(parent_id),
            g.color is None,
    {
        SessionGroup { id: new_id(), name, parent_id: Some(parent_id), color: None }
    }
}

/// A session of any kind.
#[derive(Debug, Clone)]
pub enum Session {
    Ssh(SshSession),
    Local(LocalSession),
    Ssm(SsmSession),
}

impl Session {
    /// The session's id.
    pub open spec fn spec_id(self) -> Uuid {
        match self {
            Session::Ssh(s) => s.id,
            Session::Local(s) => s.id,
            Session::Ssm(s) => s.id,
        }
    }

    /// The session's name.
    pub open spec fn spec_name(self) -> String {
        match self {
            Session::Ssh(s) => s.name,
            Session::Local(s) => s.name,
            Session::Ssm(s) => s.name,
        }
    }

    /// The session's group.
    pub open spec fn spec_group_id(self) -> Option<Uuid> {
        match self {
            Session::Ssh(s) => s.group_id,
            Session::Local(s) => s.group_id,
            Session::Ssm(s) => s.group_id,
        }
    }

    /// The session's id.
    pub fn id(&self) -> (id: Uuid)
        ensures
            id == self.spec_id(),
    {
        match self {
            Session::Ssh(s) => s.id,
            Session::Local(s) => s.id,
            Session::Ssm(s) => s.id,
        }
    }

    /// The session's display name.
    pub fn name(&self) -> (n: &str)
        ensures
            n@ == self.spec_name()@,
    {
        match self {
            Session::Ssh(s) => s.name.as_str(),
            Session::Local(s) => s.name.as_str(),
            Session::Ssm(s) => s.name.as_str(),
        }
    }

    /// The session's group.
    pub fn group_id(&self) -> (g: Option<Uuid>)
        ensures
            g == self.spec_group_id(),
    {
        match self {
            Session::Ssh(s) => s.group_id,
            Session::Local(s) => s.group_id,
            Session::Ssm(s) => s.group_id,
        }
    }

    /// The session with its group set to `group_id` and all else unchanged.
    pub open spec fn with_group(self, group_id: Option<Uuid>) -> Session {
        match self {
            Session::Ssh(s) => Session::Ssh(SshSession { group_id, ..s }),
            Session::Local(s) => Session::Local(LocalSession { group_id, ..s }),
            Session::Ssm(s) => Session::Ssm(SsmSession { group_id, ..s }),
        }
    }

    /// Moves the session to another group.
    pub fn set_group_id(&mut self, group_id: Option<Uuid>)
        ensures
            *final(self) == old(self).with_group(group_id),
    {
        match self {
            Session::Ssh(s) => s.group_id = group_id,
            Session::Local(s) => s.group_id = group_id,
            Session::Ssm(s) => s.group_id = group_id,
        }
    }
}

} // verus!

verus! {

/// The index of the first session with id `id`, or -1.
pub open spec fn session_pos(ss: Seq<Session>, id: Uuid) -> int
    decreases ss.len(),
{
    if ss.len() == 0 {
        -1
    } else if ss[0].spec_id() == id {
        0
    } else {
        let p = session_pos(ss.drop_first(), id);
        if p < 0 { -1 } else { p + 1 }
    }
}

/// The first session with id `id`.
pub open spec fn lookup_session(ss: Seq<Session>, id: Uuid) -> Option<Session> {
    if session_pos(ss, id) >= 0 { Some(ss[session_pos(ss, id)]) } else { None }
}

/// The index of the first group with id `id`, or -1.
pub open spec fn group_pos(gs: Seq<SessionGroup>, id: Uuid) -> int
    decreases gs.len(),
{
    if gs.len() == 0 {
        -1
    } else if gs[0].id == id {
        0
    } else {
        let p = group_pos(gs.drop_first(), id);
        if p < 0 { -1 } else { p + 1 }
    }
}

/// The first group with id `id`.
pub open spec fn lookup_group(gs: Seq<SessionGroup>, id: Uuid) -> Option<SessionGroup> {
    if group_pos(gs, id) >= 0 { Some(gs[group_pos(gs, id)]) } else { None }
}

/// The sessions whose group is `g`, in order.
pub open spec fn sessions_with_group(ss: Seq<Session>, g: Option<Uuid>) -> Seq<Session>
    decreases ss.len(),
{
    if ss.len() == 0 {
        Seq::empty()
    } else if ss.last().spec_group_id() == g {
        sessions_with_group(ss.drop_last(), g).push(ss.last())
    } else {
        sessions_with_group(ss.drop_last(), g)
    }
}

/// The groups whose parent is `p`, in order.
pub open spec fn groups_with_parent(gs: Seq<SessionGroup>, p: Option<Uuid>) -> Seq<SessionGroup>
    decreases gs.len(),
{
    if gs.len() == 0 {
        Seq::empty()
    } else if gs.last().parent_id == p {
        groups_with_parent(gs.drop_last(), p).push(gs.last())
    } else {
        groups_with_parent(gs.drop_last(), p)
    }
}

/// What the position of a session id says: the first session with that id, or none.
pub proof fn lemma_session_pos(ss: Seq<Session>, id: Uuid)
    ensures
        -1 <= session_pos(ss, id) < ss.len(),
        session_pos(ss, id) >= 0 ==> ss[session_pos(ss, id)].spec_id() == id
            && forall|j: int| 0 <= j < session_pos(ss, id) ==> ss[j].spec_id() != id,
        session_pos(ss, id) < 0 ==> forall|j: int| 0 <= j < ss.len() ==> ss[j].spec_id() != id,
    decreases ss.len(),
{
    if ss.len() > 0 && ss[0].spec_id() != id {
        lemma_session_pos(ss.drop_first(), id);
        assert forall|j: int| 0 < j < ss.len() implies ss[j] == ss.drop_first()[j - 1] by {}
    }
}

/// What the position of a group id says: the first group with that id, or none.
pub proof fn lemma_group_pos(gs: Seq<SessionGroup>, id: Uuid)
    ensures
        -1 <= group_pos(gs, id) < gs.len(),
        group_pos(gs, id) >= 0 ==> gs[group_pos(gs, id)].id == id
            && forall|j: int| 0 <= j < group_pos(gs, id) ==> gs[j].id != id,
        group_pos(gs, id) < 0 ==> forall|j: int| 0 <= j < gs.len() ==> gs[j].id != id,
    decreases gs.len(),
{
    if gs.len() > 0 && gs[0].id != id {
        lemma_group_pos(gs.drop_first(), id);
        assert forall|j: int| 0 < j < gs.len() implies gs[j] == gs.drop_first()[j - 1] by {}
    }
}

/// The first index with id `id` is `i`, given that no earlier session has it.
pub proof fn lemma_session_pos_at(ss: Seq<Session>, id: Uuid, i: int)
    requires
        0 <= i < ss.len(),
        ss[i].spec_id() == id,
        forall|j: int| 0 <= j < i ==> ss[j].spec_id() != id,
    ensures
        session_pos(ss, id) == i,
{
    lemma_session_pos(ss, id);
}

/// The first index with id `id` is `i`, given that no earlier group has it.
pub proof fn lemma_group_pos_at(gs: Seq<SessionGroup>, id: Uuid, i: int)
    requires
        0 <= i < gs.len(),
        gs[i].id == id,
        forall|j: int| 0 <= j < i ==> gs[j].id != id,
    ensures
        group_pos(gs, id) == i,
{
    lemma_group_pos(gs, id);
}

/// All session and group data.
#[derive(Debug, Clone)]
pub struct SessionData {
    pub groups: Vec<SessionGroup>,
    pub sessions: Vec<Session>,
}

impl Default for SessionData {
    fn default() -> (d: Self)
        ensures
            d.groups@.len() == 0,
            d.sessions@.len() == 0,
    {
        SessionData { groups: Vec::new(), sessions: Vec::new() }
    }
}

impl SessionData {
    /// Empty data.
    pub fn new() -> (d: Self)
        ensures
            d.groups@.len() == 0,
            d.sessions@.len() == 0,
    {
        SessionData { groups: Vec::new(), sessions: Vec::new() }
    }

    /// The index of the first session with id `id`.
    pub fn session_index(&self, id: Uuid) -> (r: Option<usize>)
        ensures
            match r {
                Some(i) => i < self.sessions@.len() && i as int == session_pos(self.sessions@, id),
                None => session_pos(self.sessions@, id) < 0,
            },
    {
        let mut i: usize = 0;
        while i < self.sessions.len()
            invariant
                i <= self.sessions.len(),
                forall|j: int| 0 <= j < i ==> self.sessions@[j].spec_id() != id,
            decreases self.sessions.len() - i,
        {
            if self.sessions[i].id() == id {
                proof { lemma_session_pos_at(self.sessions@, id, i as int); }
                return Some(i);
            }
            i += 1;
        }
        proof { lemma_session_pos(self.sessions@, id); }
        None
    }

    /// The index of the first group with id `id`.
    pub fn group_index(&self, id: Uuid) -> (r: Option<usize>)
        ensures
            match r {
                Some(i) => i < self.groups@.len() && i as int == group_pos(self.groups@, id),
                None => group_pos(self.groups@, id) < 0,
            },
    {
        let mut i: usize = 0;
        while i < self.groups.len()
            invariant
                i <= self.groups.len(),
                forall|j: int| 0 <= j < i ==> self.groups@[j].id != id,
            decreases self.groups.len() - i,
        {
            if self.groups[i].id == id {
                proof { lemma_group_pos_at(self.groups@, id, i as int); }
                return Some(i);
            }
            i += 1;
        }
        proof { lemma_group_pos(self.groups@, id); }
        None
    }

    /// The first session with id `id`.
    pub fn find_session(&self, id: Uuid) -> (r: Option<&Session>)
        ensures
            r matches Some(s) ==> lookup_session(self.sessions@, id) == Some(*s),
            r is None ==> lookup_session(self.sessions@, id) is None,
    {
        proof { lemma_session_pos(self.sessions@, id); }
        match self.session_index(id) {
            Some(i) => Some(&self.sessions[i]),
            None => None,
        }
    }

    /// The first group with id `id`.
    pub fn find_group(&self, id: Uuid) -> (r: Option<&SessionGroup>)
        ensures
            r matches Some(g) ==> lookup_group(self.groups@, id) == Some(*g),
            r is None ==> lookup_group(self.groups@, id) is None,
    {
        proof { lemma_group_pos(self.groups@, id); }
        match self.group_index(id) {
            Some(i) => Some(&self.groups[i]),
            None => None,
        }
    }

    fn sessions_where(&self, g: Option<Uuid>) -> (r: Vec<&Session>)
        ensures
            r@.map_values(|s: &Session| *s) == sessions_with_group(self.sessions@, g),
    {
        let mut r: Vec<&Session> = Vec::new();
        let mut i: usize = 0;
        while i < self.sessions.len()
            invariant
                i <= self.sessions.len(),
                r@.map_values(|s: &Session| *s) == sessions_with_group(self.sessions@.take(i as int), g),
            decreases self.sessions.len() - i,
        {
            let ghost before = r@;
            if self.sessions[i].group_id() == g {
                r.push(&self.sessions[i]);
                assert(r@.map_values(|s: &Session| *s) =~= before.map_values(|s: &Session| *s).push(self.sessions@[i as int]));
            }
            assert(self.sessions@.take(i + 1).drop_last() == self.sessions@.take(i as int));
            i += 1;
        }
        assert(self.sessions@.take(self.sessions.len() as int) == self.sessions@);
        r
    }

    /// The sessions in group `group_id`, in order.
    pub fn sessions_in_group(&self, group_id: Uuid) -> (r: Vec<&Session>)
        ensures
            r@.map_values(|s: &Session| *s) == sessions_with_group(self.sessions@, Some(group_id)),
    {
        self.sessions_where(Some(group_id))
    }

    /// The sessions in no group, in order.
    pub fn ungrouped_sessions(&self) -> (r: Vec<&Session>)
        ensures
            r@.map_values(|s: &Session| *s) == sessions_with_group(self.sessions@, None),
    {
        self.sessions_where(None)
    }

    /// The groups whose parent is `parent_id` (top-level groups for `None`), in order.
    pub fn child_groups(&self, parent_id: Option<Uuid>) -> (r: Vec<&SessionGroup>)
        ensures
            r@.map_values(|g: &SessionGroup| *g) == groups_with_parent(self.groups@, parent_id),
    {
        let mut r: Vec<&SessionGroup> = Vec::new();
        let mut i: usize = 0;
        while i < self.groups.len()
            invariant
                i <= self.groups.len(),
                r@.map_values(|g: &SessionGroup| *g) == groups_with_parent(self.groups@.take(i as int), parent_id),
            decreases self.groups.len() - i,
        {
            let ghost before = r@;
            if self.groups[i].parent_id == parent_id {
                r.push(&self.groups[i]);
                assert(r@.map_values(|g: &SessionGroup| *g) =~= before.map_values(|g: &SessionGroup| *g).push(self.groups@[i as int]));
            }
            assert(self.groups@.take(i + 1).drop_last() == self.groups@.take(i as int));
            i += 1;
        }
        assert(self.groups@.take(self.groups.len() as int) == self.groups@);
        r
    }
}

} // verus!

verus! {

/// No two sessions share an id.
pub open spec fn session_ids_unique(ss: Seq<Session>) -> bool {
    forall|i: int, j: int| 0 <= i < j < ss.len() ==> ss[i].spec_id() != ss[j].spec_id()
}

/// A session added under an id that no session has is what a lookup of that id finds.
pub proof fn lemma_lookup_after_add(ss: Seq<Session>, s: Session)
    requires
        lookup_session(ss, s.spec_id()) is None,
    ensures
        lookup_session(ss.push(s), s.spec_id()) == Some(s),
{
    lemma_session_pos(ss, s.spec_id());
    let t = ss.push(s);
    assert forall|j: int| 0 <= j < ss.len() implies t[j].spec_id() != s.spec_id() by {
        assert(t[j] == ss[j]);
    }
    lemma_session_pos_at(t, s.spec_id(), ss.len() as int);
}

/// After a session is replaced by one with the same id, a lookup of that id finds the
/// new one.
pub proof fn lemma_lookup_after_update(ss: Seq<Session>, s: Session)
    requires
        session_pos(ss, s.spec_id()) >= 0,
    ensures
        lookup_session(ss.update(session_pos(ss, s.spec_id()), s), s.spec_id()) == Some(s),
{
    let id = s.spec_id();
    lemma_session_pos(ss, id);
    let p = session_pos(ss, id);
    let t = ss.update(p, s);
    assert forall|j: int| 0 <= j < p implies t[j].spec_id() != id by {
        assert(t[j] == ss[j]);
    }
    lemma_session_pos_at(t, id, p);
}

/// When no two sessions share an id, no session with an id is left after the session
/// with that id is removed.
pub proof fn lemma_lookup_after_remove(ss: Seq<Session>, id: Uuid)
    requires
        session_ids_unique(ss),
        session_pos(ss, id) >= 0,
    ensures
        lookup_session(ss.remove(session_pos(ss, id)), id) is None,
{
    lemma_session_pos(ss, id);
    let p = session_pos(ss, id);
    let t = ss.remove(p);
    lemma_session_pos(t, id);
    if session_pos(t, id) >= 0 {
        let k = session_pos(t, id);
        if k < p {
            assert(t[k] == ss[k]);
        } else {
            assert(t[k] == ss[k + 1]);
        }
    }
}

/// A group added under an id that no group has is what a lookup of that id finds.
pub proof fn lemma_group_lookup_after_add(gs: Seq<SessionGroup>, g: SessionGroup)
    requires
        lookup_group(gs, g.id) is None,
    ensures
        lookup_group(gs.push(g), g.id) == Some(g),
{
    lemma_group_pos(gs, g.id);
    let t = gs.push(g);
    assert forall|j: int| 0 <= j < gs.len() implies t[j].id != g.id by {
        assert(t[j] == gs[j]);
    }
    lemma_group_pos_at(t, g.id, gs.len() as int);
}

} // verus!

verus! {

/// A shell in a Kubernetes pod.
#[derive(Debug, Clone)]
pub struct K8sSession {
    pub id: Uuid,
    pub name: String,
    /// The kubeconfig context.
    pub context: String,
    pub namespace: String,
    pub pod: String,
    /// The container; the pod's default container when absent.
    pub container: Option<String>,
    pub group_id: Option<Uuid>,
}

impl K8sSession {
    /// A session into a pod's default container, with a fresh id and no group.
    pub fn new(name: &str, context: &str, namespace: &str, pod: &str) -> (s: Self)
        ensures
            s.name@ == name@,
            s.context@ == context@,
            s.namespace@ == namespace@,
            s.pod@ == pod@,
            s.container is None,
            s.group_id is None,
    {
        K8sSession {
            id: new_id(),
            name: owned(name),
            context: owned(context),
            namespace: owned(namespace),
            pod: owned(pod),
            container: None,
            group_id: None,
        }
    }

    /// A session into one container of a pod, with a fresh id and no group.
    pub fn with_container(name: &str, context: &str, namespace: &str, pod: &str, container: String) -> (s: Self)
        ensures
            s.name@ == name@,
            s.context@ == context@,
            s.namespace@ == namespace@,
            s.pod@ == pod@,
            s.container == Some(container),
            s.group_id is None,
    {
        K8sSession {
            id: new_id(),
            name: owned(name),
            context: owned(context),
            namespace: owned(namespace),
            pod: owned(pod),
            container: Some(container),
            group_id: None,
        }
    }
}

} // verus!
