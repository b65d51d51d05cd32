//! The library's error type.
use vstd::prelude::*;

verus! {

/// The errors of the fuzzer. Those that come from the operating system carry
/// its message as text.
#[derive(Debug, Clone, PartialEq, Eq)]
pub enum Error {
    ConsumeError(String),
    IoError(String),
    CoreIdsUnavailable,
    WritingCrashingInput(String),
    WritingTestcase(String),
    CreatingDir(String),
    TargetNotExecutable(String),
    PathDoesNotExist(String),
    ReadingTestcase(String),
    SpawningTarget(String),
    WaitingForTarget(String),
    NotADir(String),
    NotEmpty(String),
    JoiningThread,
    Fatal(String),
    ConversionError,
}

impl Error {
    /// A `ConsumeError` with the message `s`.
    pub fn new(s: &str) -> (r: Self)
        ensures
            r is ConsumeError,
            r->ConsumeError_0@ == s@,
    {
        Error::ConsumeError(s.to_owned())
    }

    /// True for a `ConsumeError`.
    pub open spec fn is_consume(&self) -> bool {
        self is ConsumeError
    }
}

} // verus!
