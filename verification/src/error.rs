//! The failures a workflow command can end with.
use crate::text::join2;
use vstd::prelude::*;

verus! {

/// `git2::Error`: a failure of the backend.
#[verifier::external_type_specification]
#[verifier::external_body]
pub struct ExGitError(git2::Error);

/// `url::ParseError`: why a text is no URL.
#[verifier::external_type_specification]
#[verifier::external_body]
pub struct ExUrlParseError(url::ParseError);

/// The failures a workflow command can end with.
#[derive(Debug)]
pub enum GitFlowError {
    /// The version-control backend refused or failed an operation.
    Git(git2::Error),
    /// The user declined, or the working tree was not in a state to go on.
    Aborted(String),
    /// A branch that a command named does not exist.
    BranchNotFound(String),
    /// The configuration is malformed, or a setting was given a malformed value.
    Config(String),
    /// Something the command needs from its environment is missing.
    Environment(String),
    /// The repository has no remote of this name.
    RemoteNotFound(String),
    /// The address of the remote is no URL.
    Url(url::ParseError),
    /// Any other failure.
    Unknown(String),
}

/// `git2::Error`'s `Display`: the text of a failure of the backend.
///
/// Nothing is claimed of what comes back.
#[verifier::external_body]
fn git_error_text(error: &git2::Error) -> (text: String) {
    error.to_string()
}

/// `url::ParseError`'s `Display`: the text that says why a text is no URL.
///
/// Nothing is claimed of what comes back.
#[verifier::external_body]
fn url_error_text(error: &url::ParseError) -> (text: String) {
    error.to_string()
}

/// What a message begins with, by the kind of the failure.
pub open spec fn message_prefix(e: GitFlowError) -> Seq<char> {
    match e {
        GitFlowError::Git(_) => "Git error: "@,
        GitFlowError::Aborted(_) => "Operation aborted: "@,
        GitFlowError::BranchNotFound(_) => "Branch not found: "@,
        GitFlowError::Config(_) => "Configuration error: "@,
        GitFlowError::Environment(_) => "Environment error: "@,
        GitFlowError::RemoteNotFound(_) => "Remote not found: "@,
        GitFlowError::Url(_) => "Invalid URL: "@,
        GitFlowError::Unknown(_) => "Unknown error: "@,
    }
}

/// The text that a failure carries, where it carries one of its own.
pub open spec fn own_text(e: GitFlowError) -> Option<Seq<char>> {
    match e {
        GitFlowError::Git(_) => None,
        GitFlowError::Aborted(text) => Some(text@),
        GitFlowError::BranchNotFound(text) => Some(text@),
        GitFlowError::Config(text) => Some(text@),
        GitFlowError::Environment(text) => Some(text@),
        GitFlowError::RemoteNotFound(text) => Some(text@),
        GitFlowError::Url(_) => None,
        GitFlowError::Unknown(text) => Some(text@),
    }
}

impl GitFlowError {
    /// The message of the failure: what kind it is, then its text. For a failure
    /// of the backend or of the URL parser the text is theirs.
    pub fn message(&self) -> (r: String)
        ensures
            message_prefix(*self).is_prefix_of(r@),
            own_text(*self) matches Some(text) ==> r@ == message_prefix(*self) + text,
    {
        match self {
            GitFlowError::Git(inner) => join2("Git error: ", git_error_text(inner).as_str()),
            GitFlowError::Aborted(text) => join2("Operation aborted: ", text.as_str()),
            GitFlowError::BranchNotFound(text) => join2("Branch not found: ", text.as_str()),
            GitFlowError::Config(text) => join2("Configuration error: ", text.as_str()),
            GitFlowError::Environment(text) => join2("Environment error: ", text.as_str()),
            GitFlowError::RemoteNotFound(text) => join2("Remote not found: ", text.as_str()),
            GitFlowError::Url(inner) => join2("Invalid URL: ", url_error_text(inner).as_str()),
            GitFlowError::Unknown(text) => join2("Unknown error: ", text.as_str()),
        }
    }
}

} // verus!
