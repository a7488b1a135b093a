//! The sync command: commit what changed, push the branch, and open a pull request
//! for it unless one is open already.
//!
//! The command asks the user, pushes over the network and talks to the hosting
//! service. Those are the caller's part. What is decided between them is decided
//! here, one step at a time.
use crate::configuration::PrInfo;
use crate::error::GitFlowError;
use crate::text::join3;
use crate::tree::{same_name, Name};
use vstd::prelude::*;
use vstd::string::StringExecFns;

verus! {

/// Where the sync command stands.
#[derive(Debug, Clone, Copy, PartialEq, Eq, Structural)]
pub enum SyncPhase {
    /// Nothing was done yet.
    NotStarted,
    /// The state of the working tree is being read.
    CheckingStatus,
    /// The user is asked whether to commit the changes.
    ConfirmingCommit,
    /// The user is asked for the commit message.
    AwaitingMessage,
    /// The changes are being committed.
    Committing,
    /// The branch is being pushed.
    Pushing,
    /// An open pull request of the branch is being looked for.
    FindingPr,
    /// A pull request is being opened.
    CreatingPr,
    /// The pull request is being written to the settings.
    Recording,
    /// The branch is pushed and its pull request is recorded.
    Done,
    /// The user declined to commit the changes.
    Cancelled,
}

/// The sync command between two steps.
#[derive(Debug, Clone, Copy, PartialEq, Eq, Structural)]
pub struct SyncSession {
    /// Whether changes are committed without asking.
    pub yes: bool,
    /// Where the command stands.
    pub phase: SyncPhase,
}

/// What the caller is to do next.
#[derive(Debug, Clone, Copy, PartialEq, Eq, Structural)]
pub enum SyncAction {
    /// Read the state of the working tree, untracked files included, and report
    /// whether anything changed.
    ReadStatus,
    /// Show the changes, ask whether to commit them, and report the answer.
    AskCommit,
    /// Ask for the commit message, and report that it was given.
    AskMessage,
    /// Commit the changes with the message, and report that it is done.
    Commit,
    /// Push the branch, and report that it is done.
    Push,
    /// Look for an open pull request of the branch, and report whether there is one.
    FindPr,
    /// Open a pull request, and report that it is done.
    CreatePr,
    /// Write the pull request to the settings, and report that it is done.
    Record,
    /// Stop: the command has ended, completed or not.
    Finish { completed: bool },
}

/// What the caller reports.
#[derive(Debug, Clone, Copy, PartialEq, Eq, Structural)]
pub enum SyncEvent {
    /// The command begins.
    Begin,
    /// The state of the working tree was read; `dirty` says whether anything
    /// changed.
    Status { dirty: bool },
    /// The user answered the question.
    Answered { yes: bool },
    /// The user gave the commit message.
    Message,
    /// The changes are committed.
    Committed,
    /// The branch is pushed.
    Pushed,
    /// The search for an open pull request ended.
    PrLookup { found: bool },
    /// The pull request is open.
    PrCreated,
    /// The pull request is written to the settings.
    Recorded,
}

/// What a session waits for: the action that it asked for last.
pub open spec fn sync_awaited(s: SyncSession) -> SyncAction {
    match s.phase {
        SyncPhase::NotStarted | SyncPhase::CheckingStatus => SyncAction::ReadStatus,
        SyncPhase::ConfirmingCommit => SyncAction::AskCommit,
        SyncPhase::AwaitingMessage => SyncAction::AskMessage,
        SyncPhase::Committing => SyncAction::Commit,
        SyncPhase::Pushing => SyncAction::Push,
        SyncPhase::FindingPr => SyncAction::FindPr,
        SyncPhase::CreatingPr => SyncAction::CreatePr,
        SyncPhase::Recording => SyncAction::Record,
        SyncPhase::Done => SyncAction::Finish { completed: true },
        SyncPhase::Cancelled => SyncAction::Finish { completed: false },
    }
}

/// The phase after an event, where the session waits for that event.
pub open spec fn sync_next_phase(s: SyncSession, e: SyncEvent) -> Option<SyncPhase> {
    match (s.phase, e) {
        (SyncPhase::NotStarted, SyncEvent::Begin) => Some(SyncPhase::CheckingStatus),
        (SyncPhase::CheckingStatus, SyncEvent::Status { dirty }) => Some(
            if !dirty {
                SyncPhase::Pushing
            } else if s.yes {
                SyncPhase::AwaitingMessage
            } else {
                SyncPhase::ConfirmingCommit
            },
        ),
        (SyncPhase::ConfirmingCommit, SyncEvent::Answered { yes }) => Some(
            if yes {
                SyncPhase::AwaitingMessage
            } else {
                SyncPhase::Cancelled
            },
        ),
        (SyncPhase::AwaitingMessage, SyncEvent::Message) => Some(SyncPhase::Committing),
        (SyncPhase::Committing, SyncEvent::Committed) => Some(SyncPhase::Pushing),
        (SyncPhase::Pushing, SyncEvent::Pushed) => Some(SyncPhase::FindingPr),
        (SyncPhase::FindingPr, SyncEvent::PrLookup { found }) => Some(
            if found {
                SyncPhase::Recording
            } else {
                SyncPhase::CreatingPr
            },
        ),
        (SyncPhase::CreatingPr, SyncEvent::PrCreated) => Some(SyncPhase::Recording),
        (SyncPhase::Recording, SyncEvent::Recorded) => Some(SyncPhase::Done),
        _ => None,
    }
}

/// One step of the sync command: the session after the event, and what the caller
/// is to do next. An event that the session does not wait for changes nothing.
pub open spec fn sync_step(s: SyncSession, e: SyncEvent) -> (SyncSession, SyncAction) {
    match sync_next_phase(s, e) {
        Some(phase) => (SyncSession { phase, ..s }, sync_awaited(SyncSession { phase, ..s })),
        None => (s, sync_awaited(s)),
    }
}

impl SyncSession {
    /// The session of a command that has not begun.
    pub fn new(yes: bool) -> (s: Self)
        ensures
            s.yes == yes,
            s.phase == SyncPhase::NotStarted,
    {
        SyncSession { yes, phase: SyncPhase::NotStarted }
    }

    /// The action that the session asked for last.
    pub fn awaited_action(&self) -> (action: SyncAction)
        ensures
            action == sync_awaited(*self),
    {
        match self.phase {
            SyncPhase::NotStarted => SyncAction::ReadStatus,
            SyncPhase::CheckingStatus => SyncAction::ReadStatus,
            SyncPhase::ConfirmingCommit => SyncAction::AskCommit,
            SyncPhase::AwaitingMessage => SyncAction::AskMessage,
            SyncPhase::Committing => SyncAction::Commit,
            SyncPhase::Pushing => SyncAction::Push,
            SyncPhase::FindingPr => SyncAction::FindPr,
            SyncPhase::CreatingPr => SyncAction::CreatePr,
            SyncPhase::Recording => SyncAction::Record,
            SyncPhase::Done => SyncAction::Finish { completed: true },
            SyncPhase::Cancelled => SyncAction::Finish { completed: false },
        }
    }
}

/// The decisions of the sync command, one step at a time: takes what the caller
/// reports and says what to do next.
///
/// Changes in the working tree are committed first, after the user agreed unless
/// the caller said not to ask; a refusal ends the command. Then the branch is
/// pushed. A pull request is opened only where none is open for the branch, and
/// the one that is found or opened is recorded.
pub fn handle_sync(session: &mut SyncSession, event: SyncEvent) -> (action: SyncAction)
    ensures
        (*final(session), action) == sync_step(*old(session), event),
{
    let next = match (session.phase, event) {
        (SyncPhase::NotStarted, SyncEvent::Begin) => Some(SyncPhase::CheckingStatus),
        (SyncPhase::CheckingStatus, SyncEvent::Status { dirty }) => Some(
            if !dirty {
                SyncPhase::Pushing
            } else if session.yes {
                SyncPhase::AwaitingMessage
            } else {
                SyncPhase::ConfirmingCommit
            },
        ),
        (SyncPhase::ConfirmingCommit, SyncEvent::Answered { yes }) => Some(
            if yes {
                SyncPhase::AwaitingMessage
            } else {
                SyncPhase::Cancelled
            },
        ),
        (SyncPhase::AwaitingMessage, SyncEvent::Message) => Some(SyncPhase::Committing),
        (SyncPhase::Committing, SyncEvent::Committed) => Some(SyncPhase::Pushing),
        (SyncPhase::Pushing, SyncEvent::Pushed) => Some(SyncPhase::FindingPr),
        (SyncPhase::FindingPr, SyncEvent::PrLookup { found }) => Some(
            if found {
                SyncPhase::Recording
            } else {
                SyncPhase::CreatingPr
            },
        ),
        (SyncPhase::CreatingPr, SyncEvent::PrCreated) => Some(SyncPhase::Recording),
        (SyncPhase::Recording, SyncEvent::Recorded) => Some(SyncPhase::Done),
        _ => None,
    };
    if let Some(phase) = next {
        session.phase = phase;
    }
    session.awaited_action()
}

/// The question that goes with an action, for the actions that ask the user.
pub open spec fn sync_question(action: SyncAction) -> Option<Seq<char>> {
    match action {
        SyncAction::AskCommit => Some("Do you want to commit these changes?"@),
        SyncAction::AskMessage => Some("Enter commit message"@),
        _ => None,
    }
}

/// The question to ask the user for `action`, where it is one that asks.
pub fn sync_question_for(action: SyncAction) -> (r: Option<&'static str>)
    ensures
        match r {
            Some(text) => sync_question(action) == Some(text@),
            None => sync_question(action) is None,
        },
{
    match action {
        SyncAction::AskCommit => Some("Do you want to commit these changes?"),
        SyncAction::AskMessage => Some("Enter commit message"),
        _ => None,
    }
}

/// How the command ends for its caller: a refusal of the user is an `Aborted`
/// error.
pub fn sync_result(completed: bool) -> (r: Result<(), GitFlowError>)
    ensures
        r is Ok <==> completed,
        r matches Err(e) ==> (e matches GitFlowError::Aborted(message) && message@
            == "Sync operation cancelled"@),
{
    if completed {
        Ok(())
    } else {
        Err(GitFlowError::Aborted(String::from_str("Sync operation cancelled")))
    }
}

/// Nothing is committed without consent, and nothing is pushed from a working tree
/// with changes that were not committed.
pub proof fn lemma_sync_commits_with_consent(s: SyncSession, e: SyncEvent)
    ensures
        (sync_step(s, e).0.phase == SyncPhase::AwaitingMessage && s.phase
            != SyncPhase::AwaitingMessage) ==> (s.yes || e == (SyncEvent::Answered { yes: true })),
        (sync_step(s, e).0.phase == SyncPhase::Pushing && s.phase != SyncPhase::Pushing) ==> (e
            == (SyncEvent::Status { dirty: false }) || e == SyncEvent::Committed),
        (sync_step(s, e).0.phase == SyncPhase::CreatingPr && s.phase != SyncPhase::CreatingPr) ==> e
            == (SyncEvent::PrLookup { found: false }),
{
}

/// The base branch of the pull request: the one that the caller named, else the
/// parent that was detected.
pub fn base_branch(base_opt: Option<&str>, detected_parent: &str) -> (r: String)
    ensures
        r@ == match base_opt {
            Some(base) => base@,
            None => detected_parent@,
        },
{
    match base_opt {
        Some(base) => String::from_str(base),
        None => String::from_str(detected_parent),
    }
}

/// The title of the pull request: the one that the caller named, else the summary
/// of the last commit.
pub fn pr_title(title_opt: Option<&str>, last_summary: &str) -> (r: String)
    ensures
        r@ == match title_opt {
            Some(title) => title@,
            None => last_summary@,
        },
{
    match title_opt {
        Some(title) => String::from_str(title),
        None => String::from_str(last_summary),
    }
}

/// The filter for the pull requests of a branch: the owner, a colon, the branch.
pub open spec fn head_filter(owner: Name, branch: Name) -> Seq<char> {
    owner + ":"@ + branch
}

/// The filter for the pull requests of `branch` in the repositories of `owner`.
pub fn head_filter_for(owner: &str, branch: &str) -> (r: String)
    ensures
        r@ == head_filter(owner@, branch@),
{
    join3(owner, ":", branch)
}

/// A pull request as the hosting service lists it: the branch it comes from, and
/// what is kept of it.
pub struct ListedPr {
    pub head_ref: String,
    pub info: PrInfo,
}

/// The position of the first pull request among the first `n` that comes from
/// `branch`.
pub open spec fn first_from(listed: Seq<ListedPr>, branch: Name, n: int) -> Option<int>
    decreases n,
{
    if n <= 0 {
        None
    } else {
        match first_from(listed, branch, n - 1) {
            Some(i) => Some(i),
            None => if listed[n - 1].head_ref@ == branch {
                Some(n - 1)
            } else {
                None
            },
        }
    }
}

/// The open pull request of `branch`: the first of the listed ones that comes from
/// it.
pub fn existing_pr(listed: &Vec<ListedPr>, branch: &str) -> (r: Option<usize>)
    ensures
        match r {
            Some(i) => first_from(listed@, branch@, listed.len() as int) == Some(i as int) && i
                < listed.len() && listed[i as int].head_ref@ == branch@,
            None => first_from(listed@, branch@, listed.len() as int) is None,
        },
{
    let mut i: usize = 0;
    while i < listed.len()
        invariant
            i <= listed.len(),
            first_from(listed@, branch@, i as int) is None,
        decreases listed.len() - i,
    {
        if same_name(listed[i].head_ref.as_str(), branch) {
            proof {
                lemma_first_from_found(listed@, branch@, i + 1, listed.len() as int);
            }
            return Some(i);
        }
        i += 1;
    }
    None
}

/// A pull request found among the first is the one found among more.
pub proof fn lemma_first_from_found(listed: Seq<ListedPr>, branch: Name, n: int, more: int)
    requires
        first_from(listed, branch, n) is Some,
        n <= more,
    ensures
        first_from(listed, branch, more) == first_from(listed, branch, n),
    decreases more - n,
{
    if n < more {
        lemma_first_from_found(listed, branch, n, more - 1);
    }
}

/// What is kept of a pull request that was opened: its address, or no text where
/// the service gave none; its number; its title, or the one that was asked for;
/// the time it was opened, or `Unknown`.
pub fn opened_pr_info(
    url: Option<String>,
    number: u64,
    title: Option<String>,
    asked_title: &str,
    created_at: Option<String>,
) -> (info: PrInfo)
    ensures
        info.number == number,
        info.url@ == match url {
            Some(text) => text@,
            None => Seq::<char>::empty(),
        },
        info.title@ == match title {
            Some(text) => text@,
            None => asked_title@,
        },
        info.created_at@ == match created_at {
            Some(text) => text@,
            None => "Unknown"@,
        },
{
    PrInfo {
        url: match url {
            Some(text) => text,
            None => String::new(),
        },
        number,
        title: match title {
            Some(text) => text,
            None => String::from_str(asked_title),
        },
        created_at: match created_at {
            Some(text) => text,
            None => String::from_str("Unknown"),
        },
    }
}

/// What is kept of an open pull request that was found: its address, or no text
/// where the service gave none; its number; its title and the time it was opened,
/// each `Unknown` where the service gave none.
pub fn found_pr_info(
    url: Option<String>,
    number: u64,
    title: Option<String>,
    created_at: Option<String>,
) -> (info: PrInfo)
    ensures
        info.number == number,
        info.url@ == match url {
            Some(text) => text@,
            None => Seq::<char>::empty(),
        },
        info.title@ == match title {
            Some(text) => text@,
            None => "Unknown"@,
        },
        info.created_at@ == match created_at {
            Some(text) => text@,
            None => "Unknown"@,
        },
{
    PrInfo {
        url: match url {
            Some(text) => text,
            None => String::new(),
        },
        number,
        title: match title {
            Some(text) => text,
            None => String::from_str("Unknown"),
        },
        created_at: match created_at {
            Some(text) => text,
            None => String::from_str("Unknown"),
        },
    }
}

} // verus!
