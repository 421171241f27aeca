//! The session and group dialogs' forms: what they check and what they build.
use vstd::prelude::*;

use crate::ids::Uuid;
use crate::session::models::{AuthMethod, SessionGroup, SshSession, SsmSession};
use crate::text::{chars_of, owned, string_of, trim, trim_chars};

verus! {

/// The value of a run of decimal digits.
pub open spec fn digits_value(s: Seq<char>) -> nat
    decreases s.len(),
{
    if s.len() == 0 {
        0
    } else {
        digits_value(s.drop_last()) * 10 + ((s.last() as u32) - ('0' as u32)) as nat
    }
}

/// Whether every character is a decimal digit.
pub open spec fn all_digits(s: Seq<char>) -> bool {
    forall|i: int| 0 <= i < s.len() ==> '0' <= #[trigger] s[i] <= '9'
}

/// The port number a text gives (`str::parse::<u16>`): an optional `+`, then at least
/// one digit and nothing else, of value at most 65535.
pub open spec fn parse_u16_spec(s: Seq<char>) -> Option<u16> {
    let d = if s.len() > 0 && s[0] == '+' { s.drop_first() } else { s };
    if d.len() > 0 && all_digits(d) && digits_value(d) <= 65535 {
        Some(digits_value(d) as u16)
    } else {
        None
    }
}

/// Reads a port number as `str::parse::<u16>` does.
pub fn parse_u16(s: &str) -> (r: Option<u16>)
    ensures
        r == parse_u16_spec(s@),
{
    let cs = chars_of(s);
    let start: usize = if cs.len() > 0 && cs[0] == '+' { 1 } else { 0 };
    let ghost d = if s@.len() > 0 && s@[0] == '+' { s@.drop_first() } else { s@ };
    assert(d =~= cs@.skip(start as int));
    if start >= cs.len() {
        return None;
    }
    let mut v: u32 = 0;
    let mut i: usize = start;
    assert(d.take(0) =~= Seq::<char>::empty());
    while i < cs.len()
        invariant
            start <= i <= cs.len(),
            cs@ == s@,
            d == (if s@.len() > 0 && s@[0] == '+' { s@.drop_first() } else { s@ }),
            d == cs@.skip(start as int),
            all_digits(d.take(i - start)),
            v == digits_value(d.take(i - start)),
            v <= 65535,
        decreases cs.len() - i,
    {
        let c = cs[i];
        let ghost t = d.take(i - start);
        assert(d.take(i + 1 - start) =~= t.push(c));
        if c < '0' || c > '9' {
            assert(!all_digits(d)) by {
                assert(d[i - start] == c);
            }
            return None;
        }
        let digit = (c as u32) - ('0' as u32);
        assert(digit < 10);
        let nv = v * 10 + digit;
        assert(all_digits(t.push(c)));
        assert(t.push(c).drop_last() =~= t);
        assert(digits_value(t.push(c)) == nv);
        if nv > 65535 {
            assert(d.take(i + 1 - start) == t.push(c));
            proof {
                let k = i + 1 - start;
                assert forall|j: int| k <= j <= d.len() implies !(all_digits(d.take(j)) && digits_value(d.take(j)) <= 65535)
                    by {
                    lemma_prefix_value_monotone(d, k, j);
                }
                assert(d.take(d.len() as int) =~= d);
            }
            return None;
        }
        v = nv;
        i += 1;
    }
    assert(d.take(cs.len() - start) =~= d);
    Some(v as u16)
}

/// A longer prefix of digits has at least the value of a shorter one.
proof fn lemma_prefix_value_monotone(d: Seq<char>, k: int, j: int)
    requires
        0 <= k <= j <= d.len(),
    ensures
        all_digits(d.take(j)) ==> digits_value(d.take(j)) >= digits_value(d.take(k)),
    decreases j - k,
{
    if k < j && all_digits(d.take(j)) {
        assert(d.take(j).drop_last() =~= d.take(j - 1));
        assert(all_digits(d.take(j - 1))) by {
            assert forall|i: int| 0 <= i < d.take(j - 1).len() implies '0' <= #[trigger] d.take(j - 1)[i] <= '9' by {
                assert(d.take(j - 1)[i] == d.take(j)[i]);
            }
        }
        lemma_prefix_value_monotone(d, k, j - 1);
    }
}

/// Whether `s` starts with `p`.
pub open spec fn starts_with(s: Seq<char>, p: Seq<char>) -> bool {
    p.len() <= s.len() && s.take(p.len() as int) == p
}

fn has_prefix(s: &[char], p: &str) -> (b: bool)
    ensures
        b == starts_with(s@, p@),
{
    let pc = chars_of(p);
    if pc.len() > s.len() {
        return false;
    }
    let mut i: usize = 0;
    while i < pc.len()
        invariant
            i <= pc.len() <= s.len(),
            pc@ == p@,
            forall|j: int| 0 <= j < i ==> s@[j] == pc@[j],
        decreases pc.len() - i,
    {
        if s[i] != pc[i] {
            assert(s@.take(p@.len() as int)[i as int] != p@[i as int]);
            return false;
        }
        i += 1;
    }
    assert(s@.take(p@.len() as int) =~= p@);
    true
}

/// The kind of session a dialog edits.
#[derive(Clone, Copy, Debug, PartialEq, Eq, Structural)]
pub enum SessionType {
    Ssh,
    Ssm,
}

/// The authentication chosen in the dialog.
#[derive(Clone, Copy, Debug, PartialEq, Eq, Structural)]
pub enum AuthType {
    Password,
    PrivateKey,
    Agent,
}

/// What the session dialog's fields hold.
#[derive(Clone, Debug)]
pub struct SessionForm {
    pub session_type: SessionType,
    pub auth_type: AuthType,
    pub name: String,
    pub host: String,
    pub port: String,
    pub username: String,
    pub password: String,
    pub key_path: String,
    pub key_passphrase: String,
    pub save_password: bool,
    pub save_passphrase: bool,
    pub instance_id: String,
    pub region: String,
    pub profile: String,
    /// The group the session goes into.
    pub group_id: Option<Uuid>,
    /// The session being edited, whose id is kept.
    pub session_id: Option<Uuid>,
    pub color_scheme: Option<String>,
}

/// The errors of an instance id: required, and starting with `i-` (EC2) or `mi-`
/// (on-premises).
pub open spec fn instance_id_errors(id: Seq<char>) -> Seq<Seq<char>> {
    let t = trim(id);
    if t.len() == 0 {
        seq!["Instance ID is required"@]
    } else if !starts_with(t, "i-"@) && !starts_with(t, "mi-"@) {
        seq!["Instance ID must start with 'i-' (EC2) or 'mi-' (on-prem)"@]
    } else {
        Seq::empty()
    }
}

/// The errors of the session form, in order: a name is required; an SSH session needs
/// a host, a port number, a user name and, for key authentication, a key path; an SSM
/// session needs a well-formed instance id.
pub open spec fn session_form_errors(f: SessionForm) -> Seq<Seq<char>> {
    let name = if trim(f.name@).len() == 0 { seq!["Name is required"@] } else { Seq::empty() };
    name + match f.session_type {
        SessionType::Ssh => {
            (if trim(f.host@).len() == 0 { seq!["Host is required"@] } else { Seq::empty() })
            + (if parse_u16_spec(trim(f.port@)) is None { seq!["Port must be a valid number (1-65535)"@] } else { Seq::empty() })
            + (if trim(f.username@).len() == 0 { seq!["Username is required"@] } else { Seq::empty() })
            + (if f.auth_type == AuthType::PrivateKey && trim(f.key_path@).len() == 0 {
                seq!["Private key path is required"@]
            } else {
                Seq::empty()
            })
        },
        SessionType::Ssm => instance_id_errors(f.instance_id@),
    }
}

/// The texts of a list of strings.
pub open spec fn error_texts(v: Seq<String>) -> Seq<Seq<char>> {
    v.map_values(|s: String| s@)
}

fn push_error(errors: &mut Vec<String>, e: &str)
    ensures
        error_texts(final(errors)@) == error_texts(old(errors)@).push(e@),
{
    let ghost before = errors@;
    errors.push(owned(e));
    assert(error_texts(errors@) =~= error_texts(before).push(e@));
}

fn is_blank(s: &str) -> (b: bool)
    ensures
        b == (trim(s@).len() == 0),
{
    let cs = chars_of(s);
    trim_chars(&cs).len() == 0
}

fn trimmed(s: &str) -> (r: String)
    ensures
        r@ == trim(s@),
{
    let cs = chars_of(s);
    let t = trim_chars(&cs);
    string_of(&t)
}

fn check_instance_id(errors: &mut Vec<String>, id: &str)
    ensures
        error_texts(final(errors)@) == error_texts(old(errors)@) + instance_id_errors(id@),
{
    let cs = chars_of(id);
    let t = trim_chars(&cs);
    if t.len() == 0 {
        push_error(errors, "Instance ID is required");
        assert(error_texts(errors@) =~= error_texts(old(errors)@) + instance_id_errors(id@));
    } else if !has_prefix(&t, "i-") && !has_prefix(&t, "mi-") {
        push_error(errors, "Instance ID must start with 'i-' (EC2) or 'mi-' (on-prem)");
        assert(error_texts(errors@) =~= error_texts(old(errors)@) + instance_id_errors(id@));
    } else {
        assert(error_texts(errors@) =~= error_texts(old(errors)@) + instance_id_errors(id@));
    }
}

/// The errors of the session form; it is valid when there are none.
pub fn validate_session_form(f: &SessionForm) -> (errors: Vec<String>)
    ensures
        error_texts(errors@) == session_form_errors(*f),
{
    let mut errors: Vec<String> = Vec::new();
    if is_blank(f.name.as_str()) {
        push_error(&mut errors, "Name is required");
    }
    let ghost e0 = error_texts(errors@);
    match f.session_type {
        SessionType::Ssh => {
            if is_blank(f.host.as_str()) {
                push_error(&mut errors, "Host is required");
            }
            let ghost e1 = error_texts(errors@);
            let port = trimmed(f.port.as_str());
            if parse_u16(port.as_str()).is_none() {
                push_error(&mut errors, "Port must be a valid number (1-65535)");
            }
            let ghost e2 = error_texts(errors@);
            if is_blank(f.username.as_str()) {
                push_error(&mut errors, "Username is required");
            }
            let ghost e3 = error_texts(errors@);
            if f.auth_type == AuthType::PrivateKey && is_blank(f.key_path.as_str()) {
                push_error(&mut errors, "Private key path is required");
            }
            assert(error_texts(errors@) =~= session_form_errors(*f));
        },
        SessionType::Ssm => {
            check_instance_id(&mut errors, f.instance_id.as_str());
            assert(error_texts(errors@) =~= session_form_errors(*f));
        },
    }
    errors
}

/// A text, or none when empty.
pub open spec fn nonempty(s: Seq<char>) -> Option<Seq<char>> {
    if s.len() == 0 { None } else { Some(s) }
}

/// The text of an optional string.
pub open spec fn opt_view(o: Option<String>) -> Option<Seq<char>> {
    match o {
        Some(s) => Some(s@),
        None => None,
    }
}

fn no_chars(s: &str) -> (b: bool)
    ensures
        b == (s@.len() == 0),
{
    chars_of(s).len() == 0
}

fn optional(s: &str) -> (r: Option<String>)
    ensures
        opt_view(r) == nonempty(s@),
{
    if no_chars(s) { None } else { Some(owned(s)) }
}

/// The authentication the form describes: a password or a passphrase is kept only when
/// typed; the key path is trimmed.
pub open spec fn form_auth_matches(f: SessionForm, a: AuthMethod) -> bool {
    match f.auth_type {
        AuthType::Password => a matches AuthMethod::Password { password, use_keychain }
            && opt_view(password) == nonempty(f.password@) && use_keychain == f.save_password,
        AuthType::PrivateKey => a matches AuthMethod::PrivateKey { path, passphrase, use_keychain }
            && path@ == trim(f.key_path@) && opt_view(passphrase) == nonempty(f.key_passphrase@)
            && use_keychain == f.save_passphrase,
        AuthType::Agent => a is Agent,
    }
}

/// Whether `s` is the SSH session the form describes, its id aside: trimmed name, host
/// and user name; the port typed (untrimmed), else 22; the form's authentication, group
/// and color scheme; no color tag.
pub open spec fn describes_ssh_session(f: SessionForm, s: SshSession) -> bool {
    &&& s.name@ == trim(f.name@)
    &&& s.host@ == trim(f.host@)
    &&& s.username@ == trim(f.username@)
    &&& s.port == match parse_u16_spec(f.port@) {
        Some(p) => p,
        None => 22u16,
    }
    &&& form_auth_matches(f, s.auth)
    &&& s.group_id == f.group_id
    &&& s.color_scheme == f.color_scheme
    &&& s.color_tag is None
}

/// The SSH session the form describes, with the edited session's id, else a fresh one.
pub fn build_ssh_session(f: &SessionForm) -> (s: SshSession)
    ensures
        describes_ssh_session(*f, s),
        f.session_id matches Some(id) ==> s.id == id,
{
    let auth = match f.auth_type {
        AuthType::Password => AuthMethod::Password {
            password: optional(f.password.as_str()),
            use_keychain: f.save_password,
        },
        AuthType::PrivateKey => AuthMethod::PrivateKey {
            path: trimmed(f.key_path.as_str()),
            passphrase: optional(f.key_passphrase.as_str()),
            use_keychain: f.save_passphrase,
        },
        AuthType::Agent => AuthMethod::Agent,
    };
    let mut s = SshSession::new(trimmed(f.name.as_str()), trimmed(f.host.as_str()), trimmed(f.username.as_str()));
    s.port = match parse_u16(f.port.as_str()) {
        Some(p) => p,
        None => 22,
    };
    s.auth = auth;
    s.group_id = f.group_id;
    s.color_scheme = f.color_scheme.clone();
    if let Some(id) = f.session_id {
        s.id = id;
    }
    s
}

/// The errors of the SSM session form: a name is required, and a well-formed instance id.
pub open spec fn ssm_form_errors(name: Seq<char>, instance_id: Seq<char>) -> Seq<Seq<char>> {
    (if trim(name).len() == 0 { seq!["Name is required"@] } else { Seq::empty() }) + instance_id_errors(instance_id)
}

/// The errors of the SSM session dialog's fields.
pub fn validate_ssm_form(name: &str, instance_id: &str) -> (errors: Vec<String>)
    ensures
        error_texts(errors@) == ssm_form_errors(name@, instance_id@),
{
    let mut errors: Vec<String> = Vec::new();
    if is_blank(name) {
        push_error(&mut errors, "Name is required");
    }
    check_instance_id(&mut errors, instance_id);
    assert(error_texts(errors@) =~= ssm_form_errors(name@, instance_id@));
    errors
}

/// The SSM session the fields describe: trimmed name and instance id; region and
/// profile trimmed, none when empty; the group and color scheme given; the edited
/// session's id, else a fresh one.
pub fn build_ssm_session(
    name: &str,
    instance_id: &str,
    region: &str,
    profile: &str,
    group_id: Option<Uuid>,
    session_id: Option<Uuid>,
    color_scheme: Option<String>,
) -> (s: SsmSession)
    ensures
        s.name@ == trim(name@),
        s.instance_id@ == trim(instance_id@),
        opt_view(s.region) == nonempty(trim(region@)),
        opt_view(s.profile) == nonempty(trim(profile@)),
        s.group_id == group_id,
        s.color_scheme == color_scheme,
        session_id matches Some(id) ==> s.id == id,
{
    let r = trimmed(region);
    let p = trimmed(profile);
    let region = if no_chars(r.as_str()) { None } else { Some(r) };
    let profile = if no_chars(p.as_str()) { None } else { Some(p) };
    let mut s = SsmSession::with_config(trimmed(name), trimmed(instance_id), region, profile);
    s.group_id = group_id;
    s.color_scheme = color_scheme;
    if let Some(id) = session_id {
        s.id = id;
    }
    s
}

/// The errors of the group dialog: a name is required.
pub fn validate_group_name(name: &str) -> (errors: Vec<String>)
    ensures
        error_texts(errors@) == (if trim(name@).len() == 0 { seq!["Name is required"@] } else { Seq::<Seq<char>>::empty() }),
{
    let mut errors: Vec<String> = Vec::new();
    if is_blank(name) {
        push_error(&mut errors, "Name is required");
    }
    assert(error_texts(errors@) =~= (if trim(name@).len() == 0 { seq!["Name is required"@] } else { Seq::<Seq<char>>::empty() }));
    errors
}

/// The group the dialog describes: the name as typed, inside `parent_id` when given,
/// with the chosen color; the edited group's id, else a fresh one.
pub fn build_group(name: &str, parent_id: Option<Uuid>, color: Option<String>, group_id: Option<Uuid>) -> (g: SessionGroup)
    ensures
        g.name@ == name@,
        g.parent_id == parent_id,
        g.color == color,
        group_id matches Some(id) ==> g.id == id,
{
    let mut g = match parent_id {
        Some(p) => SessionGroup::new_nested(owned(name), p),
        None => SessionGroup::new(owned(name)),
    };
    g.color = color;
    if let Some(id) = group_id {
        g.id = id;
    }
    g
}

/// The fields of the group dialog.
pub struct GroupForm {
    /// The edited group; `None` for a new one.
    pub group_id: Option<Uuid>,
    pub parent_id: Option<Uuid>,
    pub name: String,
    pub color: Option<String>,
}

fn copy_text(o: &Option<String>) -> (r: Option<String>)
    ensures
        match (o, r) {
            (Some(a), Some(b)) => a@ == b@,
            (None, None) => true,
            _ => false,
        },
{
    match o {
        Some(s) => Some(s.clone()),
        None => None,
    }
}

impl GroupForm {
    /// The dialog for a new group inside `parent_id`, when given.
    pub fn new(parent_id: Option<Uuid>) -> (f: Self)
        ensures
            f.group_id is None,
            f.parent_id == parent_id,
            f.name@.len() == 0,
            f.color is None,
    {
        GroupForm { group_id: None, parent_id, name: String::new(), color: None }
    }

    /// The dialog editing a group, filled with its fields.
    pub fn edit(group: &SessionGroup) -> (f: Self)
        ensures
            f.group_id == Some(group.id),
            f.parent_id == group.parent_id,
            f.name@ == group.name@,
            match (f.color, group.color) {
                (Some(a), Some(b)) => a@ == b@,
                (None, None) => true,
                _ => false,
            },
    {
        GroupForm { group_id: Some(group.id), parent_id: group.parent_id, name: group.name.clone(), color: copy_text(&group.color) }
    }

    /// The window title: `New Group` or `Edit Group`.
    pub fn window_title(&self) -> (t: &'static str)
        ensures
            self.group_id is None ==> t@ == "New Group"@,
            self.group_id is Some ==> t@ == "Edit Group"@,
    {
        match self.group_id {
            None => "New Group",
            Some(_) => "Edit Group",
        }
    }

    /// The group the dialog describes (see `build_group`).
    pub fn build(&self) -> (g: SessionGroup)
        ensures
            g.name@ == self.name@,
            g.parent_id == self.parent_id,
            match (g.color, self.color) {
                (Some(a), Some(b)) => a@ == b@,
                (None, None) => true,
                _ => false,
            },
            self.group_id matches Some(id) ==> g.id == id,
    {
        build_group(self.name.as_str(), self.parent_id, copy_text(&self.color), self.group_id)
    }
}

/// The colors a group can take: names and hex values.
pub fn group_colors() -> (c: Vec<(&'static str, &'static str)>)
    ensures
        c@.len() == 8,
        c@[0].0@ == "Red"@ && c@[0].1@ == "#f38ba8"@,
        c@[1].0@ == "Orange"@ && c@[1].1@ == "#fab387"@,
        c@[2].0@ == "Yellow"@ && c@[2].1@ == "#f9e2af"@,
        c@[3].0@ == "Green"@ && c@[3].1@ == "#a6e3a1"@,
        c@[4].0@ == "Teal"@ && c@[4].1@ == "#94e2d5"@,
        c@[5].0@ == "Blue"@ && c@[5].1@ == "#89b4fa"@,
        c@[6].0@ == "Purple"@ && c@[6].1@ == "#cba6f7"@,
        c@[7].0@ == "Pink"@ && c@[7].1@ == "#f5c2e7"@,
{
    let mut c: Vec<(&'static str, &'static str)> = Vec::new();
    c.push(("Red", "#f38ba8"));
    c.push(("Orange", "#fab387"));
    c.push(("Yellow", "#f9e2af"));
    c.push(("Green", "#a6e3a1"));
    c.push(("Teal", "#94e2d5"));
    c.push(("Blue", "#89b4fa"));
    c.push(("Purple", "#cba6f7"));
    c.push(("Pink", "#f5c2e7"));
    c
}

} // verus!

verus! {

use crate::text::{decimal, spec_digit_char, u64_decimal, is_ws, trim_start, trim_end};

impl SessionForm {
    /// An empty SSH form: password authentication, port 22, no group.
    pub fn new() -> (f: Self)
        ensures
            f.session_type == SessionType::Ssh,
            f.auth_type == AuthType::Password,
            f.port@ == "22"@,
            f.name@.len() == 0 && f.host@.len() == 0 && f.username@.len() == 0,
            f.password@.len() == 0 && f.key_path@.len() == 0 && f.key_passphrase@.len() == 0,
            f.instance_id@.len() == 0 && f.region@.len() == 0 && f.profile@.len() == 0,
            !f.save_password && !f.save_passphrase,
            f.group_id is None && f.session_id is None && f.color_scheme is None,
    {
        SessionForm {
            session_type: SessionType::Ssh,
            auth_type: AuthType::Password,
            name: String::new(),
            host: String::new(),
            port: owned("22"),
            username: String::new(),
            password: String::new(),
            key_path: String::new(),
            key_passphrase: String::new(),
            save_password: false,
            save_passphrase: false,
            instance_id: String::new(),
            region: String::new(),
            profile: String::new(),
            group_id: None,
            session_id: None,
            color_scheme: None,
        }
    }

    /// An empty form for a session in `group_id`.
    pub fn new_for_group(group_id: Option<Uuid>) -> (f: Self)
        ensures
            f.session_type == SessionType::Ssh,
            f.auth_type == AuthType::Password,
            f.port@ == "22"@,
            f.name@.len() == 0 && f.host@.len() == 0 && f.username@.len() == 0,
            f.group_id == group_id && f.session_id is None && f.color_scheme is None,
    {
        let mut f = Self::new();
        f.group_id = group_id;
        f
    }

    /// The form of an SSH session being edited: its fields, its port in decimal, and
    /// its authentication, secrets shown as typed (empty when absent).
    pub fn edit(session: &SshSession) -> (f: Self)
        ensures
            f.session_type == SessionType::Ssh,
            f.name@ == session.name@,
            f.host@ == session.host@,
            f.port@ == decimal(session.port as nat),
            f.username@ == session.username@,
            f.session_id == Some(session.id),
            f.group_id == session.group_id,
            f.color_scheme == session.color_scheme,
            match session.auth {
                AuthMethod::Password { password, use_keychain } => f.auth_type == AuthType::Password
                    && f.password@ == (match password { Some(p) => p@, None => Seq::empty() })
                    && f.save_password == use_keychain
                    && f.key_path@.len() == 0 && f.key_passphrase@.len() == 0 && !f.save_passphrase,
                AuthMethod::PrivateKey { path, passphrase, use_keychain } => f.auth_type == AuthType::PrivateKey
                    && f.key_path@ == path@
                    && f.key_passphrase@ == (match passphrase { Some(p) => p@, None => Seq::empty() })
                    && f.save_passphrase == use_keychain
                    && f.password@.len() == 0 && !f.save_password,
                AuthMethod::Agent => f.auth_type == AuthType::Agent
                    && f.password@.len() == 0 && f.key_path@.len() == 0 && f.key_passphrase@.len() == 0
                    && !f.save_password && !f.save_passphrase,
            },
    {
        let mut f = Self::new();
        match &session.auth {
            AuthMethod::Password { password, use_keychain } => {
                f.auth_type = AuthType::Password;
                f.password = match password {
                    Some(p) => p.clone(),
                    None => String::new(),
                };
                f.save_password = *use_keychain;
            },
            AuthMethod::PrivateKey { path, passphrase, use_keychain } => {
                f.auth_type = AuthType::PrivateKey;
                f.key_path = path.clone();
                f.key_passphrase = match passphrase {
                    Some(p) => p.clone(),
                    None => String::new(),
                };
                f.save_passphrase = *use_keychain;
            },
            AuthMethod::Agent => {
                f.auth_type = AuthType::Agent;
            },
        }
        f.name = session.name.clone();
        f.host = session.host.clone();
        f.port = u64_decimal(session.port as u64);
        f.username = session.username.clone();
        f.session_id = Some(session.id);
        f.group_id = session.group_id;
        f.color_scheme = session.color_scheme.clone();
        f
    }

    /// The form of an SSM session being edited.
    pub fn edit_ssm(session: &SsmSession) -> (f: Self)
        ensures
            f.session_type == SessionType::Ssm,
            f.name@ == session.name@,
            f.instance_id@ == session.instance_id@,
            f.region@ == (match session.region { Some(r) => r@, None => Seq::empty() }),
            f.profile@ == (match session.profile { Some(p) => p@, None => Seq::empty() }),
            f.session_id == Some(session.id),
            f.group_id == session.group_id,
            f.color_scheme == session.color_scheme,
    {
        let mut f = Self::new();
        f.session_type = SessionType::Ssm;
        f.name = session.name.clone();
        f.instance_id = session.instance_id.clone();
        f.region = match &session.region {
            Some(r) => r.clone(),
            None => String::new(),
        };
        f.profile = match &session.profile {
            Some(p) => p.clone(),
            None => String::new(),
        };
        f.session_id = Some(session.id);
        f.group_id = session.group_id;
        f.color_scheme = session.color_scheme.clone();
        f
    }
}

proof fn lemma_digit_char(d: int)
    requires
        0 <= d < 10,
    ensures
        '0' <= spec_digit_char(d) <= '9',
        (spec_digit_char(d) as u32) - ('0' as u32) == d,
{
}

proof fn lemma_decimal_parses(n: nat)
    ensures
        decimal(n).len() > 0,
        all_digits(decimal(n)),
        digits_value(decimal(n)) == n,
    decreases n,
{
    if n < 10 {
        lemma_digit_char(n as int);
        assert(decimal(n).drop_last() =~= Seq::<char>::empty());
        assert(decimal(n).last() == spec_digit_char(n as int));
        assert(digits_value(decimal(n)) == digits_value(Seq::<char>::empty()) * 10 + ((decimal(n).last() as u32) - ('0' as u32)) as nat);
    } else {
        lemma_decimal_parses(n / 10);
        lemma_digit_char((n % 10) as int);
        let s = decimal(n / 10);
        assert(decimal(n).drop_last() =~= s);
        assert(decimal(n).last() == spec_digit_char((n % 10) as int));
        assert((n / 10) * 10 + n % 10 == n) by (nonlinear_arith);
        assert(digits_value(decimal(n)) == digits_value(s) * 10 + ((decimal(n).last() as u32) - ('0' as u32)) as nat);
        assert(((decimal(n).last() as u32) - ('0' as u32)) as nat == n % 10);
        assert forall|i: int| 0 <= i < decimal(n).len() implies '0' <= #[trigger] decimal(n)[i] <= '9' by {
            if i < s.len() {
                assert(decimal(n)[i] == s[i]);
            }
        }
    }
}

/// The decimal text of a port reads back as that port.
pub proof fn lemma_port_text_roundtrip(p: u16)
    ensures
        parse_u16_spec(decimal(p as nat)) == Some(p),
{
    lemma_decimal_parses(p as nat);
    assert(decimal(p as nat)[0] != '+');
}

/// No white space at either end.
pub open spec fn is_trimmed(s: Seq<char>) -> bool {
    s.len() == 0 || (!is_ws(s[0]) && !is_ws(s.last()))
}

proof fn lemma_trimmed_trim(s: Seq<char>)
    requires
        is_trimmed(s),
    ensures
        trim(s) == s,
{
    assert(trim_start(s) == s);
    assert(trim_end(s) == s);
}

/// Editing an SSH session and saving the form unchanged gives back the session, when
/// its name, host, user name and key path have no surrounding white space and no
/// secret is stored as an empty text.
pub proof fn lemma_edit_then_build(session: SshSession, f: SessionForm, built: SshSession)
    requires
        is_trimmed(session.name@),
        is_trimmed(session.host@),
        is_trimmed(session.username@),
        session.auth matches AuthMethod::PrivateKey { path, .. } ==> is_trimmed(path@),
        session.auth matches AuthMethod::Password { password: Some(p), .. } ==> p@.len() > 0,
        session.auth matches AuthMethod::PrivateKey { passphrase: Some(p), .. } ==> p@.len() > 0,
        // `f` is what `SessionForm::edit(&session)` returns.
        f.session_type == SessionType::Ssh,
        f.name@ == session.name@,
        f.host@ == session.host@,
        f.port@ == decimal(session.port as nat),
        f.username@ == session.username@,
        f.session_id == Some(session.id),
        f.group_id == session.group_id,
        f.color_scheme == session.color_scheme,
        match session.auth {
            AuthMethod::Password { password, use_keychain } => f.auth_type == AuthType::Password
                && f.password@ == (match password { Some(p) => p@, None => Seq::empty() })
                && f.save_password == use_keychain,
            AuthMethod::PrivateKey { path, passphrase, use_keychain } => f.auth_type == AuthType::PrivateKey
                && f.key_path@ == path@
                && f.key_passphrase@ == (match passphrase { Some(p) => p@, None => Seq::empty() })
                && f.save_passphrase == use_keychain,
            AuthMethod::Agent => f.auth_type == AuthType::Agent,
        },
        // `built` is what `build_ssh_session(&f)` returns.
        built.name@ == trim(f.name@),
        built.host@ == trim(f.host@),
        built.username@ == trim(f.username@),
        built.port == match parse_u16_spec(f.port@) {
            Some(p) => p,
            None => 22u16,
        },
        form_auth_matches(f, built.auth),
        built.group_id == f.group_id,
        built.color_scheme == f.color_scheme,
        f.session_id matches Some(id) ==> built.id == id,
    ensures
        built.id == session.id,
        built.name@ == session.name@,
        built.host@ == session.host@,
        built.username@ == session.username@,
        built.port == session.port,
        built.group_id == session.group_id,
        built.color_scheme == session.color_scheme,
        match (session.auth, built.auth) {
            (AuthMethod::Password { password: p1, use_keychain: k1 }, AuthMethod::Password { password: p2, use_keychain: k2 }) =>
                opt_view(p1) == opt_view(p2) && k1 == k2,
            (AuthMethod::PrivateKey { path: a1, passphrase: p1, use_keychain: k1 },
                AuthMethod::PrivateKey { path: a2, passphrase: p2, use_keychain: k2 }) =>
                a1@ == a2@ && opt_view(p1) == opt_view(p2) && k1 == k2,
            (AuthMethod::Agent, AuthMethod::Agent) => true,
            _ => false,
        },
{
    lemma_trimmed_trim(session.name@);
    lemma_trimmed_trim(session.host@);
    lemma_trimmed_trim(session.username@);
    lemma_port_text_roundtrip(session.port);
    match session.auth {
        AuthMethod::PrivateKey { path, .. } => {
            lemma_trimmed_trim(path@);
        },
        _ => {},
    }
}

} // verus!
