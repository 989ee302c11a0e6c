//! Error taxonomy of the library. Every failure carries a
//! human-readable message; the variant says which stage failed.

use vstd::prelude::*;

verus! {

/// Application error kinds. Connection, authentication and channel
/// failures are retried alike under a channel's backoff policy;
/// configuration and service errors are surfaced to the caller.
#[derive(Debug)]
pub enum AppError {
    /// A configuration value is missing or malformed.
    Config(String),
    /// Establishing an SSH connection failed.
    SshConnection(String),
    /// SSH authentication failed.
    SshAuthentication(String),
    /// Opening or using an SSH channel failed.
    SshChannel(String),
    /// An I/O operation failed.
    Io(String),
    /// A configuration file could not be parsed.
    ConfigParse(String),
    /// The service was asked for a transition its state refuses.
    Service(String),
}

/// The message carried by an error, whatever its kind.
pub open spec fn error_message(e: AppError) -> Seq<char> {
    match e {
        AppError::Config(m) => m@,
        AppError::SshConnection(m) => m@,
        AppError::SshAuthentication(m) => m@,
        AppError::SshChannel(m) => m@,
        AppError::Io(m) => m@,
        AppError::ConfigParse(m) => m@,
        AppError::Service(m) => m@,
    }
}

impl AppError {
    /// The message carried by this error.
    pub fn message(&self) -> (r: &str)
        ensures
            r@ == error_message(*self),
    {
        match self {
            AppError::Config(m) => m.as_str(),
            AppError::SshConnection(m) => m.as_str(),
            AppError::SshAuthentication(m) => m.as_str(),
            AppError::SshChannel(m) => m.as_str(),
            AppError::Io(m) => m.as_str(),
            AppError::ConfigParse(m) => m.as_str(),
            AppError::Service(m) => m.as_str(),
        }
    }
}

impl Clone for AppError {
    fn clone(&self) -> (r: Self)
        ensures
            r == *self,
    {
        match self {
            AppError::Config(m) => AppError::Config(m.clone()),
            AppError::SshConnection(m) => AppError::SshConnection(m.clone()),
            AppError::SshAuthentication(m) => AppError::SshAuthentication(m.clone()),
            AppError::SshChannel(m) => AppError::SshChannel(m.clone()),
            AppError::Io(m) => AppError::Io(m.clone()),
            AppError::ConfigParse(m) => AppError::ConfigParse(m.clone()),
            AppError::Service(m) => AppError::Service(m.clone()),
        }
    }
}

} // verus!
