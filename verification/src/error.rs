//! Errors, and the line that is logged when the document store fails.

use vstd::prelude::*;

verus! {

/// Why no adapter could be built.
#[derive(Debug, Clone, Copy, PartialEq, Eq, Structural)]
pub enum ConnectionError {
    /// The account key was refused when the credential was built from it.
    InvalidCredential,
}

impl ConnectionError {
    /// The error in words.
    pub fn message(&self) -> (text: String)
        ensures
            text@ == "invalid credential"@,
    {
        "invalid credential".to_owned()
    }
}

/// A failure of the document store, as an operation returns it. It carries the
/// same message whatever went wrong: the detail goes to the log only.
#[derive(Debug, PartialEq, Eq)]
pub struct StoreError {
    pub message: String,
}

impl View for StoreError {
    type V = Seq<char>;

    open spec fn view(&self) -> Seq<char> {
        self.message@
    }
}

/// What a [`Failure`] stands for in specifications.
pub struct FailureText {
    pub log: Seq<char>,
    pub message: Seq<char>,
}

/// A failed request: the line to write to the log, and the error to return.
#[derive(Debug, PartialEq, Eq)]
pub struct Failure {
    pub log: String,
    pub error: StoreError,
}

impl View for Failure {
    type V = FailureText;

    open spec fn view(&self) -> FailureText {
        FailureText { log: self.log@, message: self.error@ }
    }
}

/// The failure that is reported for a store error whose debug text is `detail`.
pub open spec fn failure(detail: Seq<char>) -> FailureText {
    FailureText { log: "key-value error: "@ + detail, message: "{err:?}"@ }
}

/// Turns the debug text of a store error into the line to log and the error to
/// return. The error keeps nothing of the text.
pub fn log_error(err: &str) -> (reported: Failure)
    ensures
        reported@ == failure(err@),
{
    let mut log = "key-value error: ".to_owned();
    log.append(err);
    Failure { log, error: StoreError { message: "{err:?}".to_owned() } }
}

} // verus!
