//! Secrets of sessions in the OS keychain (through the `keyring` crate).
use vstd::prelude::*;
use vstd::string::*;

use crate::ids::{id_text, uuid_text, Uuid};
use crate::text::owned;

verus! {

/// The service name of the keychain entries.
pub const SERVICE_NAME: &'static str = "redpill-term";

/// The kinds of secrets kept in the keychain.
#[derive(Debug, Clone, Copy, PartialEq, Eq, Structural)]
pub enum CredentialType {
    /// An SSH password.
    Password,
    /// The passphrase of an SSH key.
    Passphrase,
}

impl CredentialType {
    /// The entry-name prefix of a kind of secret.
    pub open spec fn spec_prefix(self) -> Seq<char> {
        match self {
            CredentialType::Password => "password"@,
            CredentialType::Passphrase => "passphrase"@,
        }
    }

    /// The entry-name prefix of this kind of secret.
    pub fn prefix(&self) -> (p: &'static str)
        ensures
            p@ == self.spec_prefix(),
    {
        match self {
            CredentialType::Password => "password",
            CredentialType::Passphrase => "passphrase",
        }
    }
}

/// Errors of keychain access.
#[derive(Debug)]
pub enum CredentialError {
    /// The keychain failed; the text says how.
    KeyringError(String),
    /// No secret is stored under the entry.
    NotFound,
}

/// `keyring::Entry`, a handle on one keychain entry.
#[verifier::external_type_specification]
#[verifier::external_body]
pub struct ExKeyringEntry(keyring::Entry);

/// `keyring::Error`.
#[verifier::external_type_specification]
#[verifier::external_body]
pub struct ExKeyringError(keyring::Error);

/// Maps a keyring error (`From<keyring::Error>`): `NoEntry` becomes `NotFound`, any
/// other error `KeyringError` with the error's text.  Not stated: the error is opaque.
#[verifier::external_body]
pub fn credential_error_from(e: keyring::Error) -> (r: CredentialError) {
    match e {
        keyring::Error::NoEntry => CredentialError::NotFound,
        other => CredentialError::KeyringError(other.to_string()),
    }
}

/// Opens the keychain entry of a service and user (`keyring::Entry::new`).  Whether it
/// succeeds depends on the platform store; nothing is stated.
#[verifier::external_body]
fn entry_new(service: &str, user: &str) -> (r: Result<keyring::Entry, keyring::Error>) {
    keyring::Entry::new(service, user)
}

/// Stores a password in an entry (`keyring::Entry::set_password`); the outcome depends
/// on the platform store.
#[verifier::external_body]
fn entry_set_password(entry: &keyring::Entry, secret: &str) -> (r: Result<(), keyring::Error>) {
    entry.set_password(secret)
}

/// Reads the password of an entry (`keyring::Entry::get_password`); what comes back is
/// whatever the platform store holds.
#[verifier::external_body]
fn entry_get_password(entry: &keyring::Entry) -> (r: Result<String, keyring::Error>) {
    entry.get_password()
}

/// Deletes the password of an entry (`keyring::Entry::delete_credential`).
#[verifier::external_body]
fn entry_delete_credential(entry: &keyring::Entry) -> (r: Result<(), keyring::Error>) {
    entry.delete_credential()
}

/// Secure storage of session secrets in the OS keychain.
pub struct CredentialManager;

impl CredentialManager {
    /// The keychain entry name of a session's secret: `prefix:uuid`.
    pub open spec fn spec_entry_name(session_id: Uuid, cred_type: CredentialType) -> Seq<char> {
        cred_type.spec_prefix() + ":"@ + uuid_text(session_id)
    }

    /// The keychain entry name of a session's secret.
    pub fn entry_name(session_id: Uuid, cred_type: CredentialType) -> (n: String)
        ensures
            n@ == Self::spec_entry_name(session_id, cred_type),
    {
        let mut n = owned(cred_type.prefix());
        n.append(":");
        let id = id_text(session_id);
        n.append(id.as_str());
        n
    }

    /// Stores a secret under the session's entry of the service `redpill-term`.
    pub fn store(session_id: Uuid, cred_type: CredentialType, secret: &str) -> (r: Result<(), CredentialError>) {
        let entry_name = Self::entry_name(session_id, cred_type);
        let entry = match entry_new(SERVICE_NAME, entry_name.as_str()) {
            Ok(e) => e,
            Err(e) => return Err(credential_error_from(e)),
        };
        match entry_set_password(&entry, secret) {
            Ok(()) => Ok(()),
            Err(e) => Err(credential_error_from(e)),
        }
    }

    /// Reads the secret stored under the session's entry.
    pub fn retrieve(session_id: Uuid, cred_type: CredentialType) -> (r: Result<String, CredentialError>) {
        let entry_name = Self::entry_name(session_id, cred_type);
        let entry = match entry_new(SERVICE_NAME, entry_name.as_str()) {
            Ok(e) => e,
            Err(e) => return Err(credential_error_from(e)),
        };
        match entry_get_password(&entry) {
            Ok(s) => Ok(s),
            Err(e) => Err(credential_error_from(e)),
        }
    }

    /// Deletes the secret stored under the session's entry.
    pub fn delete(session_id: Uuid, cred_type: CredentialType) -> (r: Result<(), CredentialError>) {
        let entry_name = Self::entry_name(session_id, cred_type);
        let entry = match entry_new(SERVICE_NAME, entry_name.as_str()) {
            Ok(e) => e,
            Err(e) => return Err(credential_error_from(e)),
        };
        match entry_delete_credential(&entry) {
            Ok(()) => Ok(()),
            Err(e) => Err(credential_error_from(e)),
        }
    }

    /// Whether a secret can be read from the session's entry.
    pub fn credential_exists(session_id: Uuid, cred_type: CredentialType) -> (b: bool) {
        Self::retrieve(session_id, cred_type).is_ok()
    }

    /// Deletes both the password and the passphrase of a session, ignoring failures.
    pub fn delete_all(session_id: Uuid) {
        let _ = Self::delete(session_id, CredentialType::Password);
        let _ = Self::delete(session_id, CredentialType::Passphrase);
    }
}

} // verus!

verus! {

use crate::session::models::{AuthMethod, SshSession};

/// `b` is `a` with another authentication method.
pub open spec fn same_but_auth(a: SshSession, b: SshSession) -> bool {
    &&& a.id == b.id
    &&& a.name == b.name
    &&& a.host == b.host
    &&& a.port == b.port
    &&& a.username == b.username
    &&& a.group_id == b.group_id
    &&& a.color_tag == b.color_tag
    &&& a.color_scheme == b.color_scheme
}

/// What moving secrets into the keychain may leave: a secret marked for the keychain is
/// either gone from the session (stored) or still there (storing failed); anything
/// else stays as it was.
pub open spec fn stored_outcome(old: AuthMethod, new: AuthMethod) -> bool {
    match old {
        AuthMethod::Password { password: Some(p), use_keychain: true } =>
            new == AuthMethod::Password { password: None, use_keychain: true }
            || new == AuthMethod::Password { password: Some(p), use_keychain: true },
        AuthMethod::PrivateKey { path, passphrase: Some(p), use_keychain: true } =>
            new == AuthMethod::PrivateKey { path, passphrase: None, use_keychain: true }
            || new == AuthMethod::PrivateKey { path, passphrase: Some(p), use_keychain: true },
        _ => new == old,
    }
}

/// What reading secrets from the keychain may give: a secret marked for the keychain
/// and absent is filled in when the keychain has it; anything else stays.
pub open spec fn loaded_outcome(old: AuthMethod, new: AuthMethod) -> bool {
    match old {
        AuthMethod::Password { password: None, use_keychain: true } =>
            new matches AuthMethod::Password { password: _, use_keychain: true },
        AuthMethod::PrivateKey { path, passphrase: None, use_keychain: true } =>
            new matches AuthMethod::PrivateKey { path: q, passphrase: _, use_keychain: true } && q == path,
        _ => new == old,
    }
}

/// The authentication after a store of its secret in the keychain: a password or
/// passphrase marked for the keychain is dropped from the session when the store
/// succeeded (`ok`) and kept when it failed; anything else stays as it is.
pub open spec fn stored_auth(auth: AuthMethod, ok: bool) -> AuthMethod {
    match auth {
        AuthMethod::Password { password: Some(_), use_keychain: true } => if ok {
            AuthMethod::Password { password: None, use_keychain: true }
        } else {
            auth
        },
        AuthMethod::PrivateKey { path, passphrase: Some(_), use_keychain: true } => if ok {
            AuthMethod::PrivateKey { path, passphrase: None, use_keychain: true }
        } else {
            auth
        },
        _ => auth,
    }
}

/// The authentication after a read of its secret from the keychain: a password or
/// passphrase marked for the keychain and absent takes the secret read (`got`), if any;
/// anything else stays as it is.
pub open spec fn loaded_auth(auth: AuthMethod, got: Option<String>) -> AuthMethod {
    match (auth, got) {
        (AuthMethod::Password { password: None, use_keychain: true }, Some(p)) =>
            AuthMethod::Password { password: Some(p), use_keychain: true },
        (AuthMethod::PrivateKey { path, passphrase: None, use_keychain: true }, Some(p)) =>
            AuthMethod::PrivateKey { path, passphrase: Some(p), use_keychain: true },
        _ => auth,
    }
}

/// The secret a keychain read gave, if it succeeded.
pub open spec fn read_value(r: Result<String, CredentialError>) -> Option<String> {
    match r {
        Ok(p) => Some(p),
        Err(_) => None,
    }
}

/// What a session's authentication becomes after the keychain answered a store of its
/// secret: on success the secret marked for the keychain leaves the session, so that it
/// is not written to the sessions file; on failure it stays.
pub fn auth_after_store(auth: AuthMethod, r: Result<(), CredentialError>) -> (a: AuthMethod)
    ensures
        a == stored_auth(auth, r is Ok),
{
    let ok = r.is_ok();
    match auth {
        AuthMethod::Password { password: Some(p), use_keychain: true } => if ok {
            AuthMethod::Password { password: None, use_keychain: true }
        } else {
            AuthMethod::Password { password: Some(p), use_keychain: true }
        },
        AuthMethod::PrivateKey { path, passphrase: Some(p), use_keychain: true } => if ok {
            AuthMethod::PrivateKey { path, passphrase: None, use_keychain: true }
        } else {
            AuthMethod::PrivateKey { path, passphrase: Some(p), use_keychain: true }
        },
        other => other,
    }
}

/// What a session's authentication becomes after the keychain answered a read of its
/// secret: a missing secret marked for the keychain takes what was read; when the read
/// failed it stays missing.
pub fn auth_after_load(auth: AuthMethod, r: Result<String, CredentialError>) -> (a: AuthMethod)
    ensures
        a == loaded_auth(auth, read_value(r)),
{
    let got = match r {
        Ok(p) => Some(p),
        Err(_) => None,
    };
    match auth {
        AuthMethod::Password { password: None, use_keychain: true } => match got {
            Some(p) => AuthMethod::Password { password: Some(p), use_keychain: true },
            None => AuthMethod::Password { password: None, use_keychain: true },
        },
        AuthMethod::PrivateKey { path, passphrase: None, use_keychain: true } => match got {
            Some(p) => AuthMethod::PrivateKey { path, passphrase: Some(p), use_keychain: true },
            None => AuthMethod::PrivateKey { path, passphrase: None, use_keychain: true },
        },
        other => other,
    }
}

impl SshSession {
    /// Moves a password or passphrase marked for the keychain into it, clearing it from
    /// the session so that it is not written to the sessions file.  When storing fails
    /// the secret stays in the session; with nothing to store, no keychain call is made.
    pub fn store_credentials_to_keychain(&mut self)
        ensures
            same_but_auth(*old(self), *final(self)),
            stored_outcome(old(self).auth, final(self).auth),
            exists|ok: bool| final(self).auth == #[trigger] stored_auth(old(self).auth, ok),
    {
        let id = self.id;
        let mut auth = AuthMethod::Agent;
        std::mem::swap(&mut auth, &mut self.auth);
        let r = match &auth {
            AuthMethod::Password { password: Some(pwd), use_keychain: true } =>
                Some(CredentialManager::store(id, CredentialType::Password, pwd.as_str())),
            AuthMethod::PrivateKey { passphrase: Some(pp), use_keychain: true, .. } =>
                Some(CredentialManager::store(id, CredentialType::Passphrase, pp.as_str())),
            _ => None,
        };
        let ghost before = auth;
        match r {
            Some(r) => {
                let ghost ok = r is Ok;
                self.auth = auth_after_store(auth, r);
                assert(self.auth == stored_auth(before, ok));
            },
            None => {
                self.auth = auth;
                assert(self.auth == stored_auth(before, true));
            },
        }
    }

    /// Reads a password or passphrase marked for the keychain, when the session does not
    /// hold it already; a missing entry leaves it absent.  With nothing to read, no
    /// keychain call is made.
    pub fn load_credentials_from_keychain(&mut self)
        ensures
            same_but_auth(*old(self), *final(self)),
            loaded_outcome(old(self).auth, final(self).auth),
            exists|got: Option<String>| final(self).auth == #[trigger] loaded_auth(old(self).auth, got),
    {
        let id = self.id;
        let mut auth = AuthMethod::Agent;
        std::mem::swap(&mut auth, &mut self.auth);
        let r = match &auth {
            AuthMethod::Password { password: None, use_keychain: true } =>
                Some(CredentialManager::retrieve(id, CredentialType::Password)),
            AuthMethod::PrivateKey { passphrase: None, use_keychain: true, .. } =>
                Some(CredentialManager::retrieve(id, CredentialType::Passphrase)),
            _ => None,
        };
        let ghost before = auth;
        match r {
            Some(r) => {
                let ghost got = read_value(r);
                self.auth = auth_after_load(auth, r);
                assert(self.auth == loaded_auth(before, got));
            },
            None => {
                self.auth = auth;
                assert(self.auth == loaded_auth(before, None));
            },
        }
    }

    /// Deletes the session's secrets from the keychain.
    pub fn delete_credentials_from_keychain(&self) {
        CredentialManager::delete_all(self.id);
    }
}

} // verus!
