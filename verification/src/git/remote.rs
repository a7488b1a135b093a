//! The remote of the repository: which hosted repository its address names.
use crate::error::GitFlowError;
use crate::git::backend::remote_url;
use crate::text::{
    chars_of, contains_text, contains_text_in, find_char, has_prefix, join2, position_of,
    starts_with_text, strip_prefixes, strip_suffixes, text_between, without_prefixes,
    without_suffixes,
};
use crate::tree::Name;
use vstd::prelude::*;
use vstd::string::StringExecFns;

verus! {

/// What `url::Url::parse` and `Url::path_segments` make of an address: nothing
/// where it is no absolute URL, no segments where the URL cannot be a base, else
/// the segments of its path.
pub uninterp spec fn url_path_segments(address: Seq<char>) -> Option<Option<Seq<Seq<char>>>>;

/// `url::Url::parse` on `address`, then `Url::path_segments`: the segments of the
/// path, `None` for a URL that cannot be a base, or the parser's error. The result
/// is the one that the parser gives for this text.
#[verifier::external_body]
pub(crate) fn parse_path_segments(address: &str) -> (r: Result<Option<Vec<String>>, url::ParseError>)
    ensures
        match r {
            Ok(Some(segments)) => url_path_segments(address@) == Some(Some(segments.deep_view())),
            Ok(None) => url_path_segments(address@) == Some(None::<Seq<Seq<char>>>),
            Err(_) => url_path_segments(address@) is None,
        },
{
    let parsed = url::Url::parse(address)?;
    match parsed.path_segments() {
        Some(segments) => Ok(Some(segments.map(String::from).collect())),
        None => Ok(None),
    }
}

/// The owner and the name of a hosted repository.
pub type RepoName = (Seq<char>, Seq<char>);

/// What an address turns out to be.
pub ghost enum RepoLookup {
    /// The address of the repository of this owner and name.
    Found { owner: Seq<char>, name: Seq<char> },
    /// No URL at all.
    NotAUrl,
    /// A URL without a path that could hold an owner and a name.
    NoPath,
    /// Nothing that names a repository.
    Unknown,
}

/// The text before the first slash of `path`.
pub open spec fn first_segment(path: Seq<char>) -> Seq<char> {
    path.subrange(0, position_of(path, '/', 0))
}

/// The text between the first slash of `path` and the next.
pub open spec fn second_segment(path: Seq<char>) -> Seq<char> {
    let start = position_of(path, '/', 0) + 1;
    path.subrange(start, position_of(path, '/', start))
}

/// The repository that an address in the secure-shell form names: the address
/// begins with `git@github.com:`, and what follows holds a slash; the owner stands
/// before the slash, the name after it, up to the next slash and without `.git` at
/// its end.
pub open spec fn ssh_repo(address: Seq<char>) -> Option<RepoName> {
    let path = without_prefixes(address, "git@github.com:"@);
    if has_prefix(address, "git@github.com:"@) && position_of(path, '/', 0) < path.len() {
        Some((first_segment(path), without_suffixes(second_segment(path), ".git"@)))
    } else {
        None
    }
}

/// What an address is, given what the URL parser makes of it. The secure-shell
/// form is looked for first. Any other address that holds `github.com` is read
/// as a URL: the first two segments of its path are the owner and the name, the
/// name without `.git` at its end.
pub open spec fn lookup_repo(address: Seq<char>, parsed: Option<Option<Seq<Seq<char>>>>) -> RepoLookup {
    match ssh_repo(address) {
        Some((owner, name)) => RepoLookup::Found { owner, name },
        None => if contains_text(address, "github.com"@) {
            match parsed {
                None => RepoLookup::NotAUrl,
                Some(None) => RepoLookup::NoPath,
                Some(Some(segments)) => if segments.len() >= 2 {
                    RepoLookup::Found {
                        owner: segments[0],
                        name: without_suffixes(segments[1], ".git"@),
                    }
                } else {
                    RepoLookup::Unknown
                },
            }
        } else {
            RepoLookup::Unknown
        },
    }
}

/// The message of the error for an address that names no repository.
pub open spec fn unknown_message(address: Seq<char>) -> Seq<char> {
    "Could not parse GitHub URL: "@ + address
}

/// Whether a result says what a lookup found.
pub open spec fn reports(r: Result<(String, String), GitFlowError>, lookup: RepoLookup, address: Seq<char>) -> bool {
    match lookup {
        RepoLookup::Found { owner, name } => r matches Ok(pair) && pair.0@ == owner && pair.1@
            == name,
        RepoLookup::NotAUrl => r matches Err(e) && e is Url,
        RepoLookup::NoPath => r matches Err(GitFlowError::Config(message)) && message@
            == "Invalid GitHub URL"@,
        RepoLookup::Unknown => r matches Err(GitFlowError::Config(message)) && message@
            == unknown_message(address),
    }
}

/// The repository that an address in the secure-shell form names.
pub fn ssh_repo_of(address: &str) -> (r: Option<(String, String)>)
    ensures
        match r {
            Some(pair) => ssh_repo(address@) == Some((pair.0@, pair.1@)),
            None => ssh_repo(address@) is None,
        },
{
    if !starts_with_text(address, "git@github.com:") {
        return None;
    }
    let path = strip_prefixes(address, "git@github.com:");
    let chars = chars_of(path.as_str());
    let slash = find_char(&chars, '/', 0);
    if slash >= chars.len() {
        return None;
    }
    let owner = text_between(path.as_str(), 0, slash);
    let end = find_char(&chars, '/', slash + 1);
    let second = text_between(path.as_str(), slash + 1, end);
    Some((owner, strip_suffixes(second.as_str(), ".git")))
}

/// The owner and the name of the repository that `address` names, given what the
/// URL parser made of the address.
pub fn repo_from_parsed(
    address: &str,
    parsed: Result<Option<Vec<String>>, url::ParseError>,
) -> (r: Result<(String, String), GitFlowError>)
    ensures
        reports(
            r,
            lookup_repo(
                address@,
                match parsed {
                    Ok(Some(segments)) => Some(Some(segments.deep_view())),
                    Ok(None) => Some(None),
                    Err(_) => None,
                },
            ),
            address@,
        ),
{
    if let Some(pair) = ssh_repo_of(address) {
        return Ok(pair);
    }
    if contains_text_in(address, "github.com") {
        match parsed {
            Err(e) => {
                return Err(GitFlowError::Url(e));
            },
            Ok(None) => {
                return Err(GitFlowError::Config(String::from_str("Invalid GitHub URL")));
            },
            Ok(Some(segments)) => {
                if segments.len() >= 2 {
                    let owner = segments[0].clone();
                    let name = strip_suffixes(segments[1].as_str(), ".git");
                    assert(segments.deep_view()[0] == segments[0]@);
                    assert(segments.deep_view()[1] == segments[1]@);
                    return Ok((owner, name));
                }
            },
        }
    }
    Err(GitFlowError::Config(join2("Could not parse GitHub URL: ", address)))
}

/// The owner and the name of the repository that `url` names.
pub fn parse_github_url(url: &str) -> (r: Result<(String, String), GitFlowError>)
    ensures
        reports(r, lookup_repo(url@, url_path_segments(url@)), url@),
{
    repo_from_parsed(url, parse_path_segments(url))
}

/// Whether a result says what became of the lookup of a remote: a remote that
/// was not found is reported under its name, one without a readable address as a
/// fault of the configuration, and the address of any other is parsed.
pub open spec fn reports_remote(
    r: Result<(String, String), GitFlowError>,
    name: Seq<char>,
    found: bool,
    address: Option<Seq<char>>,
) -> bool {
    if !found {
        r matches Err(GitFlowError::RemoteNotFound(missing)) && missing@ == name
    } else {
        match address {
            None => r matches Err(GitFlowError::Config(message)) && message@
                == "Remote URL not found"@,
            Some(text) => reports(r, lookup_repo(text, url_path_segments(text)), text),
        }
    }
}

/// The address of a remote as contracts see it.
pub open spec fn address_view(remote: Result<Option<String>, git2::Error>) -> Option<Seq<char>> {
    match remote {
        Ok(Some(address)) => Some(address@),
        _ => None,
    }
}

/// The owner and the name of the repository that the remote `name` names, given
/// what the lookup of the remote gave: its address, nothing where the address
/// cannot be read, or the backend's failure to find the remote.
pub fn repo_from_remote(name: &str, remote: Result<Option<String>, git2::Error>) -> (r: Result<
    (String, String),
    GitFlowError,
>)
    ensures
        reports_remote(r, name@, remote is Ok, address_view(remote)),
{
    match remote {
        Err(_) => Err(GitFlowError::RemoteNotFound(String::from_str(name))),
        Ok(None) => Err(GitFlowError::Config(String::from_str("Remote URL not found"))),
        Ok(Some(address)) => {
            let r = parse_github_url(address.as_str());
            r
        },
    }
}

/// The owner and the name of the repository that the remote `origin` names: the
/// remote is looked up, and what the lookup gives decides as `repo_from_remote`
/// says.
pub fn get_repo_info(repo: &git2::Repository) -> (r: Result<(String, String), GitFlowError>)
    ensures
        exists|found: bool, address: Option<Seq<char>>| #[trigger]
            reports_remote(r, "origin"@, found, address),
        r matches Err(e) ==> (e is RemoteNotFound || e is Config || e is Url),
        r matches Err(GitFlowError::RemoteNotFound(name)) ==> name@ == "origin"@,
{
    let remote = remote_url(repo, "origin");
    let ghost found = remote is Ok;
    let ghost address = address_view(remote);
    let r = repo_from_remote("origin", remote);
    assert(reports_remote(r, "origin"@, found, address));
    r
}

/// What to push for a branch: the branch under its own name.
pub open spec fn refspec(branch: Name) -> Seq<char> {
    "refs/heads/"@ + branch + ":refs/heads/"@ + branch
}

/// What to push for the branch `branch_name`.
pub fn push_refspec(branch_name: &str) -> (r: String)
    ensures
        r@ == refspec(branch_name@),
{
    String::from_str("refs/heads/").concat(branch_name).concat(":refs/heads/").concat(branch_name)
}

} // verus!
