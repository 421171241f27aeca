//! Where session data is kept.
use vstd::prelude::*;

use crate::text::owned;

verus! {

/// Errors of session storage; read and parse errors carry the underlying error's text.
#[derive(Debug)]
pub enum StorageError {
    ReadError(String),
    ParseError(String),
    ConfigDirNotFound,
}

/// The text of a storage error.
pub open spec fn storage_error_text(e: StorageError) -> Seq<char> {
    match e {
        StorageError::ReadError(m) => "Failed to read sessions file: "@ + m@,
        StorageError::ParseError(m) => "Failed to parse sessions file: "@ + m@,
        StorageError::ConfigDirNotFound => "Config directory not found"@,
    }
}

impl StorageError {
    /// The error's message.
    pub fn message(&self) -> (m: String)
        ensures
            m@ == storage_error_text(*self),
    {
        match self {
            StorageError::ReadError(e) => {
                let mut m = owned("Failed to read sessions file: ");
                m.append(e.as_str());
                m
            },
            StorageError::ParseError(e) => {
                let mut m = owned("Failed to parse sessions file: ");
                m.append(e.as_str());
                m
            },
            StorageError::ConfigDirNotFound => owned("Config directory not found"),
        }
    }
}

/// The sessions file of a session store.
#[derive(Debug, Clone)]
pub struct SessionStorage {
    file_path: String,
}

impl SessionStorage {
    /// The path of the sessions file.
    pub closed spec fn path(&self) -> Seq<char> {
        self.file_path@
    }

    /// A store whose sessions file is `file_path`.
    pub fn with_path(file_path: String) -> (s: Self)
        ensures
            s.path() == file_path@,
    {
        SessionStorage { file_path }
    }

    /// The path of the sessions file.
    pub fn file_path(&self) -> (p: &String)
        ensures
            p@ == self.path(),
    {
        &self.file_path
    }
}

} // verus!
