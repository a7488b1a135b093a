//! The state of the working tree: which files differ from the last commit, and the
//! short code that stands for the state of a file.
use crate::error::GitFlowError;
use crate::git::backend::{git_error, list_statuses, status_flags, StatusFlags};
use crate::text::{join3, trim, trimmed};
use crate::tree::same_name;
use vstd::prelude::*;
use vstd::string::StringExecFns;

verus! {

/// The state of one file.
#[derive(Debug)]
pub struct StatusEntry {
    /// The path of the file, from the root of the working tree.
    pub path: String,
    /// The state of the file, as the backend gives it.
    pub status: git2::Status,
}

/// The colour in which a status code is shown.
#[derive(Debug, Clone, Copy, PartialEq, Eq, Structural)]
pub enum StatusColor {
    Green,
    Yellow,
    Red,
    Blue,
    BrightRed,
    Plain,
}

/// A status code with its colour.
#[derive(Debug)]
pub struct StatusLabel {
    pub text: String,
    pub color: StatusColor,
}

/// The first character of the code: what is staged.
pub open spec fn index_mark(f: StatusFlags) -> Seq<char> {
    if f.index_new {
        "A"@
    } else if f.index_modified {
        "M"@
    } else if f.index_deleted {
        "D"@
    } else if f.index_renamed {
        "R"@
    } else if f.index_typechange {
        "T"@
    } else {
        " "@
    }
}

/// The second character of the code: what differs in the working tree.
pub open spec fn worktree_mark(f: StatusFlags) -> Seq<char> {
    if f.wt_new {
        "?"@
    } else if f.wt_modified {
        "M"@
    } else if f.wt_deleted {
        "D"@
    } else if f.wt_renamed {
        "R"@
    } else if f.wt_typechange {
        "T"@
    } else {
        " "@
    }
}

/// The third character of the code: whether the file is in conflict.
pub open spec fn conflict_mark(f: StatusFlags) -> Seq<char> {
    if f.conflicted {
        "C"@
    } else {
        " "@
    }
}

/// The code of a state: the three marks.
pub open spec fn status_code(f: StatusFlags) -> Seq<char> {
    index_mark(f) + worktree_mark(f) + conflict_mark(f)
}

/// The colour of a code, by what is left of it without the blanks around.
pub open spec fn code_color(code: Seq<char>) -> StatusColor {
    let core = trimmed(code);
    if core == "A"@ {
        StatusColor::Green
    } else if core == "M"@ {
        StatusColor::Yellow
    } else if core == "D"@ {
        StatusColor::Red
    } else if core == "??"@ {
        StatusColor::Blue
    } else if core == "C"@ {
        StatusColor::BrightRed
    } else {
        StatusColor::Plain
    }
}

/// The text that is shown for a code: the code itself, but `??` for a code in blue.
pub open spec fn code_text(code: Seq<char>) -> Seq<char> {
    if code_color(code) == StatusColor::Blue {
        "??"@
    } else {
        code
    }
}

/// The mark of what is staged.
fn index_mark_of(f: &StatusFlags) -> (r: &'static str)
    ensures
        r@ == index_mark(*f),
{
    if f.index_new {
        "A"
    } else if f.index_modified {
        "M"
    } else if f.index_deleted {
        "D"
    } else if f.index_renamed {
        "R"
    } else if f.index_typechange {
        "T"
    } else {
        " "
    }
}

/// The mark of what differs in the working tree.
fn worktree_mark_of(f: &StatusFlags) -> (r: &'static str)
    ensures
        r@ == worktree_mark(*f),
{
    if f.wt_new {
        "?"
    } else if f.wt_modified {
        "M"
    } else if f.wt_deleted {
        "D"
    } else if f.wt_renamed {
        "R"
    } else if f.wt_typechange {
        "T"
    } else {
        " "
    }
}

/// The code and the colour for a state of a file.
pub fn status_label(flags: &StatusFlags) -> (label: StatusLabel)
    ensures
        label.text@ == code_text(status_code(*flags)),
        label.color == code_color(status_code(*flags)),
{
    let conflict = if flags.conflicted {
        "C"
    } else {
        " "
    };
    let code = join3(index_mark_of(flags), worktree_mark_of(flags), conflict);
    let core = trim(code.as_str());
    let color = if same_name(core.as_str(), "A") {
        StatusColor::Green
    } else if same_name(core.as_str(), "M") {
        StatusColor::Yellow
    } else if same_name(core.as_str(), "D") {
        StatusColor::Red
    } else if same_name(core.as_str(), "??") {
        StatusColor::Blue
    } else if same_name(core.as_str(), "C") {
        StatusColor::BrightRed
    } else {
        StatusColor::Plain
    };
    let text = if color == StatusColor::Blue {
        String::from_str("??")
    } else {
        code
    };
    StatusLabel { text, color }
}

/// The code and the colour for a status of the backend.
pub fn format_status_entry(status: &git2::Status) -> (label: StatusLabel)
    ensures
        exists|flags: StatusFlags|
            label.text@ == code_text(#[trigger] status_code(flags)) && label.color == code_color(
                status_code(flags),
            ),
{
    let flags = status_flags(status);
    let label = status_label(&flags);
    assert(label.text@ == code_text(status_code(flags)));
    label
}

/// The paths of a listing, where every path of it is readable.
pub open spec fn readable_paths(listed: Seq<(Option<String>, git2::Status)>) -> Option<Seq<Seq<char>>> {
    if forall|i: int| 0 <= i < listed.len() ==> (#[trigger] listed[i]).0 is Some {
        Some(Seq::new(listed.len(), |i: int| listed[i].0->0@))
    } else {
        None
    }
}

/// The paths of a list of entries.
pub open spec fn entry_paths(entries: Seq<StatusEntry>) -> Seq<Seq<char>> {
    Seq::new(entries.len(), |i: int| entries[i].path@)
}

/// The entries of a listing, each with its status; none at all where a path of the
/// listing is not readable.
pub fn entries_of(listed: &Vec<(Option<String>, git2::Status)>) -> (r: Option<Vec<StatusEntry>>)
    ensures
        match r {
            Some(entries) => readable_paths(listed@) == Some(entry_paths(entries@)) && forall|
                i: int,
            |
                0 <= i < entries.len() ==> (#[trigger] entries[i]).status == listed[i].1,
            None => readable_paths(listed@) is None,
        },
{
    let mut entries: Vec<StatusEntry> = Vec::new();
    let mut i: usize = 0;
    while i < listed.len()
        invariant
            i <= listed.len(),
            entries.len() == i,
            forall|k: int| 0 <= k < i ==> (#[trigger] listed[k]).0 is Some,
            forall|k: int| 0 <= k < i ==> (#[trigger] entries[k]).path@ == listed[k].0->0@,
            forall|k: int| 0 <= k < i ==> (#[trigger] entries[k]).status == listed[k].1,
        decreases listed.len() - i,
    {
        match &listed[i].0 {
            Some(path) => {
                entries.push(StatusEntry { path: path.clone(), status: listed[i].1 });
            },
            None => {
                return None;
            },
        }
        i += 1;
    }
    assert(entry_paths(entries@) =~= Seq::new(listed@.len(), |i: int| listed@[i].0->0@));
    Some(entries)
}

/// The entries of a listing of states: all of them, or a failure of the backend's
/// kind where the path of one of them cannot be read.
pub fn status_entries_of(listed: &Vec<(Option<String>, git2::Status)>) -> (r: Result<
    Vec<StatusEntry>,
    GitFlowError,
>)
    ensures
        match readable_paths(listed@) {
            Some(paths) => r matches Ok(entries) && entry_paths(entries@) == paths && forall|
                i: int,
            |
                0 <= i < entries.len() ==> (#[trigger] entries[i]).status == listed[i].1,
            None => r matches Err(e) && e is Git,
        },
{
    match entries_of(listed) {
        Some(entries) => Ok(entries),
        None => Err(GitFlowError::Git(git_error("Invalid path"))),
    }
}

/// The files of the working tree that differ from the last commit, the untracked
/// ones among them where `include_untracked` is set. Fails where the backend
/// fails and where a path is not valid UTF-8: the result is what
/// `status_entries_of` makes of the backend's listing.
pub fn get_repo_status(repo: &git2::Repository, include_untracked: bool) -> (r: Result<
    Vec<StatusEntry>,
    GitFlowError,
>)
    ensures
        r matches Err(e) ==> e is Git,
{
    match list_statuses(repo, include_untracked) {
        Ok(listed) => status_entries_of(&listed),
        Err(e) => Err(GitFlowError::Git(e)),
    }
}

/// Whether anything in the working tree differs from the last commit.
pub fn has_uncommitted_changes(repo: &git2::Repository) -> (r: Result<bool, GitFlowError>)
    ensures
        r matches Err(e) ==> e is Git,
{
    match get_repo_status(repo, true) {
        Ok(entries) => Ok(entries.len() > 0),
        Err(e) => Err(e),
    }
}

/// Whether one of the states is a conflict.
pub fn any_conflicted(flags: &Vec<StatusFlags>) -> (b: bool)
    ensures
        b == exists|i: int| 0 <= i < flags.len() && (#[trigger] flags[i]).conflicted,
{
    let mut i: usize = 0;
    while i < flags.len()
        invariant
            i <= flags.len(),
            forall|k: int| 0 <= k < i ==> !(#[trigger] flags[k]).conflicted,
        decreases flags.len() - i,
    {
        if flags[i].conflicted {
            return true;
        }
        i += 1;
    }
    false
}

/// Whether a file of the working tree is in conflict.
pub fn has_conflicts(repo: &git2::Repository) -> (r: Result<bool, GitFlowError>)
    ensures
        r matches Err(e) ==> e is Git,
{
    let entries = get_repo_status(repo, true)?;
    let mut flags: Vec<StatusFlags> = Vec::new();
    let mut i: usize = 0;
    while i < entries.len()
        invariant
            i <= entries.len(),
        decreases entries.len() - i,
    {
        flags.push(status_flags(&entries[i].status));
        i += 1;
    }
    Ok(any_conflicted(&flags))
}

} // verus!
