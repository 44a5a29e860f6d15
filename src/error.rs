use vstd::prelude::*;

verus! {

/// Everything that can go wrong while registering or unregistering a session.
#[derive(Debug)]
pub enum WatchError {
    /// A path could not be read or normalized.
    IoError(std::io::Error),
    /// The notification source refused to start or to watch a path.
    NotifyError(notify_debouncer_full::notify::Error),
    /// A session with this uid is already registered.
    DuplicateUid(usize),
    /// No session with this uid is registered.
    UidNotFound(usize),
    /// The pattern is not valid glob syntax.
    PatternError(String, glob::PatternError),
    /// The pattern is valid but matched nothing.
    ExPatternError(String),
}

/// Results of this library.
pub type WatchResult<T> = Result<T, WatchError>;

#[verifier::external_type_specification]
#[verifier::external_body]
pub struct ExIoError(std::io::Error);

#[verifier::external_type_specification]
#[verifier::external_body]
pub struct ExNotifyError(notify_debouncer_full::notify::Error);

#[verifier::external_type_specification]
#[verifier::external_body]
pub struct ExPatternError(glob::PatternError);

} // verus!
