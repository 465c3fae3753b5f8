//! The decisions around a fresh project: whether it may be started, what it
//! is called, whether it joins a workspace, and what the user is told.

use vstd::prelude::*;
use crate::init::{InitError, InitErrorView};
use crate::source::opt_text;

verus! {

/// The package name that `name` stands for; `None` where `name` is no
/// package name.
pub uninterp spec fn normalized_name(name: Seq<char>) -> Option<Seq<char>>;

/// Validates and normalizes a package name.
///
/// Trusted: this is `pep508_rs::PackageName::new`, followed by the name's
/// text. The contract only names that result.
#[verifier::external_body]
fn normalize_name(name: &str) -> (normalized: Option<String>)
    ensures
        opt_text(normalized) == normalized_name(name@),
{
    pep508_rs::PackageName::new(name.to_string()).ok().map(|name| name.to_string())
}

/// The value of the result of naming a project.
pub open spec fn name_view(result: Result<String, InitError>) -> Result<Seq<char>, InitErrorView> {
    match result {
        Ok(name) => Ok(name@),
        Err(error) => Err(error@),
    }
}

/// The name of a fresh project, given the normalized form of the directory's
/// name: the name that was given, else the directory's name as a package
/// name.
pub open spec fn project_name_of(
    given: Option<Seq<char>>,
    directory: Option<Seq<char>>,
    normalized: Option<Seq<char>>,
) -> Result<Seq<char>, InitErrorView> {
    match given {
        Some(name) => Ok(name),
        None => match directory {
            None => Err(InitErrorView::MissingDirectoryName),
            Some(found) => match normalized {
                Some(name) => Ok(name),
                None => Err(InitErrorView::InvalidName(found)),
            },
        },
    }
}

/// Names a fresh project, given the normalized form of the directory's name.
pub fn project_name_with(
    given: Option<String>,
    directory: Option<String>,
    normalized: Option<String>,
) -> (result: Result<String, InitError>)
    ensures
        name_view(result) == project_name_of(
            opt_text(given),
            opt_text(directory),
            opt_text(normalized),
        ),
{
    match given {
        Some(name) => Ok(name),
        None => match directory {
            None => Err(InitError::MissingDirectoryName),
            Some(found) => match normalized {
                Some(name) => Ok(name),
                None => Err(InitError::InvalidName(found)),
            },
        },
    }
}

/// The normalized form of an optional name.
pub open spec fn normalized_opt(name: Option<Seq<char>>) -> Option<Seq<char>> {
    match name {
        Some(found) => normalized_name(found),
        None => None,
    }
}

/// Names a fresh project: by the name that was given, else by the name of
/// its directory, which then has to be a package name.
pub fn project_name(given: Option<String>, directory: Option<String>) -> (result: Result<
    String,
    InitError,
>)
    ensures
        name_view(result) == project_name_of(
            opt_text(given),
            opt_text(directory),
            normalized_opt(opt_text(directory)),
        ),
{
    let normalized = match &directory {
        Some(found) => normalize_name(found.as_str()),
        None => None,
    };
    project_name_with(given, directory, normalized)
}

/// Refuses a directory that holds a manifest already.
pub fn check_uninitialized(manifest_exists: bool, path: String) -> (result: Result<(), InitError>)
    ensures
        manifest_exists ==> (result matches Err(error) && error@
            == InitErrorView::AlreadyInitialized(path@)),
        !manifest_exists ==> result is Ok,
{
    if manifest_exists {
        Err(InitError::AlreadyInitialized(path))
    } else {
        Ok(())
    }
}

/// Whether an empty read-me is to be created: unless the caller declined or
/// one is there.
pub fn needs_readme(no_readme: bool, readme_exists: bool) -> (create: bool)
    ensures
        create == (!no_readme && !readme_exists),
{
    !no_readme && !readme_exists
}

/// What the user is told once the project stands: its name and, where a
/// path was given, the path.
pub open spec fn initialized_text(name: Seq<char>, path: Option<Seq<char>>) -> Seq<char> {
    match path {
        None => "Initialized project `"@ + name + "`"@,
        Some(found) => "Initialized project `"@ + name + "` at `"@ + found + "`"@,
    }
}

/// Writes what the user is told once the project stands.
pub fn initialized_message(name: &String, path: &Option<String>) -> (text: String)
    ensures
        text@ == initialized_text(name@, opt_text(*path)),
{
    let mut text: String = String::from_str("Initialized project `");
    text.append(name.as_str());
    match path {
        None => {
            text.append("`");
        },
        Some(found) => {
            text.append("` at `");
            text.append(found.as_str());
            text.append("`");
        },
    }
    text
}

/// How the search for a workspace around the project ended.
#[derive(Debug, Clone, Copy, PartialEq, Eq, Structural)]
pub enum Discovery {
    /// A workspace was found.
    Found,
    /// There is no manifest above the project, or none of a workspace.
    Missing,
    /// The search failed.
    Failed,
}

/// What is said about a workspace that is not joined.
#[derive(Debug, Clone, Copy, PartialEq, Eq, Structural)]
pub enum Notice {
    /// Nothing.
    Silent,
    /// A workspace was found and is ignored, as asked.
    Ignored,
    /// The caller asked to ignore a workspace, and there is none.
    NothingToIgnore,
    /// The search failed and the failure is ignored, as asked.
    IgnoredFailure,
}

/// Whether the project joins a workspace.
#[derive(Debug, Clone, Copy, PartialEq, Eq, Structural)]
pub enum WorkspaceDecision {
    /// The project is set up as part of the workspace that was found.
    Join,
    /// The project stands alone.
    Alone(Notice),
    /// The search failed and the command fails with it.
    Fail,
}

/// Whether the project joins a workspace: it joins the one that was found
/// unless the caller asked to ignore workspaces; a search that failed fails
/// the command unless the caller asked to ignore workspaces.
pub open spec fn workspace_decision_of(discovery: Discovery, no_workspace: bool) -> WorkspaceDecision {
    match discovery {
        Discovery::Found => if no_workspace {
            WorkspaceDecision::Alone(Notice::Ignored)
        } else {
            WorkspaceDecision::Join
        },
        Discovery::Missing => if no_workspace {
            WorkspaceDecision::Alone(Notice::NothingToIgnore)
        } else {
            WorkspaceDecision::Alone(Notice::Silent)
        },
        Discovery::Failed => if no_workspace {
            WorkspaceDecision::Alone(Notice::IgnoredFailure)
        } else {
            WorkspaceDecision::Fail
        },
    }
}

/// Decides whether the project joins a workspace.
pub fn decide_workspace(discovery: Discovery, no_workspace: bool) -> (decision: WorkspaceDecision)
    ensures
        decision == workspace_decision_of(discovery, no_workspace),
{
    match discovery {
        Discovery::Found => if no_workspace {
            WorkspaceDecision::Alone(Notice::Ignored)
        } else {
            WorkspaceDecision::Join
        },
        Discovery::Missing => if no_workspace {
            WorkspaceDecision::Alone(Notice::NothingToIgnore)
        } else {
            WorkspaceDecision::Alone(Notice::Silent)
        },
        Discovery::Failed => if no_workspace {
            WorkspaceDecision::Alone(Notice::IgnoredFailure)
        } else {
            WorkspaceDecision::Fail
        },
    }
}

/// What the user is told where the search for a workspace failed and fails
/// the command.
pub open spec fn discovery_failure_text() -> Seq<char> {
    "Failed to discover parent workspace; use `uv init --no-workspace` to ignore"@
}

/// What the user is told about a decision on the workspace: the way out,
/// where a failed search fails the command, and nothing otherwise.
pub open spec fn workspace_failure(decision: WorkspaceDecision) -> Option<Seq<char>> {
    match decision {
        WorkspaceDecision::Fail => Some(discovery_failure_text()),
        _ => None,
    }
}

/// Writes what the user is told where a decision on the workspace fails the
/// command.
pub fn workspace_failure_message(decision: WorkspaceDecision) -> (text: Option<String>)
    ensures
        opt_text(text) == workspace_failure(decision),
{
    match decision {
        WorkspaceDecision::Fail => Some(
            String::from_str(
                "Failed to discover parent workspace; use `uv init --no-workspace` to ignore",
            ),
        ),
        _ => None,
    }
}

/// What becomes of the project within the workspace that it joins.
#[derive(Debug, Clone, Copy, PartialEq, Eq, Structural)]
pub enum Membership {
    /// The workspace excludes the project's path: nothing is written.
    Excluded,
    /// The workspace's members cover the project's path already: nothing is
    /// written.
    AlreadyMember,
    /// The project's path is added to the workspace's members.
    Added,
}

/// What becomes of the project within the workspace: an exclusion decides
/// before the members do, and only a path that neither covers is added.
pub open spec fn membership_of(excluded: bool, included: bool) -> Membership {
    if excluded {
        Membership::Excluded
    } else if included {
        Membership::AlreadyMember
    } else {
        Membership::Added
    }
}

/// Decides what becomes of the project within the workspace, from whether
/// the workspace's rules exclude and include the project's path.
pub fn decide_membership(excluded: bool, included: bool) -> (membership: Membership)
    ensures
        membership == membership_of(excluded, included),
{
    if excluded {
        Membership::Excluded
    } else if included {
        Membership::AlreadyMember
    } else {
        Membership::Added
    }
}

/// What the user is told about the project and the workspace.
pub open spec fn membership_text(membership: Membership, name: Seq<char>, workspace: Seq<char>) -> Seq<
    char,
> {
    match membership {
        Membership::Excluded => "Project `"@ + name + "` is excluded by workspace `"@ + workspace
            + "`"@,
        Membership::AlreadyMember => "Project `"@ + name + "` is already a member of workspace `"@
            + workspace + "`"@,
        Membership::Added => "Adding `"@ + name + "` as member of workspace `"@ + workspace + "`"@,
    }
}

/// Writes what the user is told about the project and the workspace.
pub fn membership_message(membership: Membership, name: &String, workspace: &String) -> (text:
    String)
    ensures
        text@ == membership_text(membership, name@, workspace@),
{
    let mut text: String = String::new();
    match membership {
        Membership::Excluded => {
            text.append("Project `");
            text.append(name.as_str());
            text.append("` is excluded by workspace `");
        },
        Membership::AlreadyMember => {
            text.append("Project `");
            text.append(name.as_str());
            text.append("` is already a member of workspace `");
        },
        Membership::Added => {
            text.append("Adding `");
            text.append(name.as_str());
            text.append("` as member of workspace `");
        },
    }
    text.append(workspace.as_str());
    text.append("`");
    text
}

} // verus!
