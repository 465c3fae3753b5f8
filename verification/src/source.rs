//! Where a dependency comes from, and how a requirement's locator and the
//! caller's flags decide it.

use vstd::prelude::*;

verus! {

/// The text of an optional string.
pub open spec fn opt_text(value: Option<String>) -> Option<Seq<char>> {
    match value {
        Some(text) => Some(text@),
        None => None,
    }
}

/// A copy of a string, with the same text.
pub fn copy_text(text: &String) -> (copy: String)
    ensures
        copy@ == text@,
{
    text.clone()
}

/// A copy of an optional string, with the same text.
pub fn copy_opt_text(value: &Option<String>) -> (copy: Option<String>)
    ensures
        opt_text(copy) == opt_text(*value),
{
    match value {
        Some(text) => Some(text.clone()),
        None => None,
    }
}

/// What a requirement declares about its origin, before any flag is applied.
#[derive(Debug, Clone, PartialEq, Eq)]
pub enum RequirementSource {
    /// A bare name with an optional version specifier, such as `>=2.0`.
    Registry { specifier: String },
    /// A repository under version control. `locator` is the URL as declared;
    /// `reference` is the revision that the locator itself pins, if any.
    Git { locator: String, repository: String, reference: Option<String>, subdirectory: Option<String> },
    /// A local path. `directory` tells a source tree from an archive file.
    Path { locator: String, path: String, directory: bool },
    /// A direct URL to an archive.
    Url { locator: String, url: String, subdirectory: Option<String> },
}

/// The mathematical value of a [`RequirementSource`].
pub ghost enum RequirementSourceView {
    Registry { specifier: Seq<char> },
    Git {
        locator: Seq<char>,
        repository: Seq<char>,
        reference: Option<Seq<char>>,
        subdirectory: Option<Seq<char>>,
    },
    Path { locator: Seq<char>, path: Seq<char>, directory: bool },
    Url { locator: Seq<char>, url: Seq<char>, subdirectory: Option<Seq<char>> },
}

impl View for RequirementSource {
    type V = RequirementSourceView;

    open spec fn view(&self) -> RequirementSourceView {
        match *self {
            RequirementSource::Registry { specifier } => RequirementSourceView::Registry {
                specifier: specifier@,
            },
            RequirementSource::Git {
                locator,
                repository,
                reference,
                subdirectory,
            } => RequirementSourceView::Git {
                locator: locator@,
                repository: repository@,
                reference: opt_text(reference),
                subdirectory: opt_text(subdirectory),
            },
            RequirementSource::Path { locator, path, directory } => RequirementSourceView::Path {
                locator: locator@,
                path: path@,
                directory,
            },
            RequirementSource::Url { locator, url, subdirectory } => RequirementSourceView::Url {
                locator: locator@,
                url: url@,
                subdirectory: opt_text(subdirectory),
            },
        }
    }
}

impl RequirementSourceView {
    /// The locator as declared, for every origin but the registry.
    pub open spec fn locator(self) -> Option<Seq<char>> {
        match self {
            RequirementSourceView::Registry { .. } => None,
            RequirementSourceView::Git { locator, .. } => Some(locator),
            RequirementSourceView::Path { locator, .. } => Some(locator),
            RequirementSourceView::Url { locator, .. } => Some(locator),
        }
    }
}

impl RequirementSource {
    /// A copy with the same value.
    pub fn duplicate(&self) -> (copy: RequirementSource)
        ensures
            copy@ == self@,
    {
        match self {
            RequirementSource::Registry { specifier } => RequirementSource::Registry {
                specifier: copy_text(specifier),
            },
            RequirementSource::Git {
                locator,
                repository,
                reference,
                subdirectory,
            } => RequirementSource::Git {
                locator: copy_text(locator),
                repository: copy_text(repository),
                reference: copy_opt_text(reference),
                subdirectory: copy_opt_text(subdirectory),
            },
            RequirementSource::Path { locator, path, directory } => RequirementSource::Path {
                locator: copy_text(locator),
                path: copy_text(path),
                directory: *directory,
            },
            RequirementSource::Url { locator, url, subdirectory } => RequirementSource::Url {
                locator: copy_text(locator),
                url: copy_text(url),
                subdirectory: copy_opt_text(subdirectory),
            },
        }
    }
}

/// The structured origin of a dependency, as the manifest records it.
#[derive(Debug, Clone, PartialEq, Eq)]
pub enum Source {
    /// Resolved through the package index; nothing more is recorded.
    Registry,
    /// A repository under version control, with at most one of `rev`, `tag`
    /// and `branch` set.
    Git {
        url: String,
        subdirectory: Option<String>,
        rev: Option<String>,
        tag: Option<String>,
        branch: Option<String>,
    },
    /// A local path.
    Path { path: String, editable: bool },
    /// Another member of the same workspace.
    Workspace { member: String },
    /// A direct URL to an archive.
    Url { url: String, subdirectory: Option<String> },
}

/// The mathematical value of a [`Source`].
pub ghost enum SourceView {
    Registry,
    Git {
        url: Seq<char>,
        subdirectory: Option<Seq<char>>,
        rev: Option<Seq<char>>,
        tag: Option<Seq<char>>,
        branch: Option<Seq<char>>,
    },
    Path { path: Seq<char>, editable: bool },
    Workspace { member: Seq<char> },
    Url { url: Seq<char>, subdirectory: Option<Seq<char>> },
}

impl View for Source {
    type V = SourceView;

    open spec fn view(&self) -> SourceView {
        match *self {
            Source::Registry => SourceView::Registry,
            Source::Git { url, subdirectory, rev, tag, branch } => SourceView::Git {
                url: url@,
                subdirectory: opt_text(subdirectory),
                rev: opt_text(rev),
                tag: opt_text(tag),
                branch: opt_text(branch),
            },
            Source::Path { path, editable } => SourceView::Path { path: path@, editable },
            Source::Workspace { member } => SourceView::Workspace { member: member@ },
            Source::Url { url, subdirectory } => SourceView::Url {
                url: url@,
                subdirectory: opt_text(subdirectory),
            },
        }
    }
}

impl SourceView {
    /// At most one of the three references of a Git source is set; every
    /// other source meets this trivially.
    pub open spec fn has_single_reference(self) -> bool {
        match self {
            SourceView::Git { rev, tag, branch, .. } => reference_count(rev, tag, branch) <= 1,
            _ => true,
        }
    }
}

/// Why a requirement could not be given a source.
#[derive(Debug, Clone, PartialEq, Eq)]
pub enum SourceError {
    /// A Git locator pins no reference and no reference flag was given. Holds
    /// the locator.
    UnresolvedReference(String),
    /// More than one of the reference flags was given for a Git locator. Holds
    /// the locator.
    Other(String),
}

/// The mathematical value of a [`SourceError`].
pub ghost enum SourceErrorView {
    UnresolvedReference(Seq<char>),
    Other(Seq<char>),
}

impl View for SourceError {
    type V = SourceErrorView;

    open spec fn view(&self) -> SourceErrorView {
        match *self {
            SourceError::UnresolvedReference(locator) => SourceErrorView::UnresolvedReference(
                locator@,
            ),
            SourceError::Other(locator) => SourceErrorView::Other(locator@),
        }
    }
}

/// How many of the three reference flags are set.
pub open spec fn reference_count(
    rev: Option<Seq<char>>,
    tag: Option<Seq<char>>,
    branch: Option<Seq<char>>,
) -> nat {
    (if rev is Some { 1nat } else { 0nat }) + (if tag is Some { 1nat } else { 0nat }) + (if branch is Some {
        1nat
    } else {
        0nat
    })
}

/// The source that a requirement is given, or the reason why it gets none.
///
/// A member of the workspace is a workspace source whatever else is asked. A
/// bare name comes from the registry. A Git locator takes the one reference
/// flag that was given; with no flag it takes the reference that the locator
/// pins, as its revision; with neither it is unresolved, and with several
/// flags it is refused. A path is editable as asked, and by default exactly
/// when it is a directory.
pub open spec fn classified(
    name: Seq<char>,
    source: RequirementSourceView,
    workspace: bool,
    editable: Option<bool>,
    rev: Option<Seq<char>>,
    tag: Option<Seq<char>>,
    branch: Option<Seq<char>>,
) -> Result<SourceView, SourceErrorView> {
    if workspace {
        Ok(SourceView::Workspace { member: name })
    } else {
        match source {
            RequirementSourceView::Registry { .. } => Ok(SourceView::Registry),
            RequirementSourceView::Git { locator, repository, reference, subdirectory } => {
                if reference_count(rev, tag, branch) > 1 {
                    Err(SourceErrorView::Other(locator))
                } else if reference_count(rev, tag, branch) == 1 {
                    Ok(SourceView::Git { url: repository, subdirectory, rev, tag, branch })
                } else if reference is Some {
                    Ok(
                        SourceView::Git {
                            url: repository,
                            subdirectory,
                            rev: reference,
                            tag: None,
                            branch: None,
                        },
                    )
                } else {
                    Err(SourceErrorView::UnresolvedReference(locator))
                }
            },
            RequirementSourceView::Path { path, directory, .. } => Ok(
                SourceView::Path {
                    path,
                    editable: match editable {
                        Some(asked) => asked,
                        None => directory,
                    },
                },
            ),
            RequirementSourceView::Url { url, subdirectory, .. } => Ok(
                SourceView::Url { url, subdirectory },
            ),
        }
    }
}

/// The value of a classification result.
pub open spec fn classification_view(result: Result<Source, SourceError>) -> Result<
    SourceView,
    SourceErrorView,
> {
    match result {
        Ok(source) => Ok(source@),
        Err(error) => Err(error@),
    }
}

impl Source {
    /// Decides the source of the requirement `name` from what it declares and
    /// from the caller's flags.
    pub fn from_requirement(
        name: &String,
        source: &RequirementSource,
        workspace: bool,
        editable: Option<bool>,
        rev: Option<String>,
        tag: Option<String>,
        branch: Option<String>,
    ) -> (result: Result<Source, SourceError>)
        ensures
            classification_view(result) == classified(
                name@,
                source@,
                workspace,
                editable,
                opt_text(rev),
                opt_text(tag),
                opt_text(branch),
            ),
    {
        if workspace {
            return Ok(Source::Workspace { member: copy_text(name) });
        }
        match source {
            RequirementSource::Registry { .. } => Ok(Source::Registry),
            RequirementSource::Git { locator, repository, reference, subdirectory } => {
                let mut given: u8 = 0;
                if rev.is_some() {
                    given = given + 1;
                }
                if tag.is_some() {
                    given = given + 1;
                }
                if branch.is_some() {
                    given = given + 1;
                }
                assert(given == reference_count(opt_text(rev), opt_text(tag), opt_text(branch)));
                if given > 1 {
                    Err(SourceError::Other(copy_text(locator)))
                } else if given == 1 {
                    Ok(
                        Source::Git {
                            url: copy_text(repository),
                            subdirectory: copy_opt_text(subdirectory),
                            rev,
                            tag,
                            branch,
                        },
                    )
                } else {
                    match reference {
                        Some(pinned) => Ok(
                            Source::Git {
                                url: copy_text(repository),
                                subdirectory: copy_opt_text(subdirectory),
                                rev: Some(copy_text(pinned)),
                                tag: None,
                                branch: None,
                            },
                        ),
                        None => Err(SourceError::UnresolvedReference(copy_text(locator))),
                    }
                }
            },
            RequirementSource::Path { path, directory, .. } => {
                let editable = match editable {
                    Some(asked) => asked,
                    None => *directory,
                };
                Ok(Source::Path { path: copy_text(path), editable })
            },
            RequirementSource::Url { url, subdirectory, .. } => Ok(
                Source::Url { url: copy_text(url), subdirectory: copy_opt_text(subdirectory) },
            ),
        }
    }

    /// A copy with the same value.
    pub fn duplicate(&self) -> (copy: Source)
        ensures
            copy@ == self@,
    {
        match self {
            Source::Registry => Source::Registry,
            Source::Git { url, subdirectory, rev, tag, branch } => Source::Git {
                url: copy_text(url),
                subdirectory: copy_opt_text(subdirectory),
                rev: copy_opt_text(rev),
                tag: copy_opt_text(tag),
                branch: copy_opt_text(branch),
            },
            Source::Path { path, editable } => Source::Path {
                path: copy_text(path),
                editable: *editable,
            },
            Source::Workspace { member } => Source::Workspace { member: copy_text(member) },
            Source::Url { url, subdirectory } => Source::Url {
                url: copy_text(url),
                subdirectory: copy_opt_text(subdirectory),
            },
        }
    }
}

/// A Git locator that pins nothing, classified without any reference flag
/// and outside the workspace, is unresolved: no branch is chosen for it.
pub proof fn lemma_unpinned_git_is_unresolved(
    name: Seq<char>,
    locator: Seq<char>,
    repository: Seq<char>,
    subdirectory: Option<Seq<char>>,
    editable: Option<bool>,
)
    ensures
        classified(
            name,
            RequirementSourceView::Git { locator, repository, reference: None, subdirectory },
            false,
            editable,
            None,
            None,
            None,
        ) == Err::<SourceView, SourceErrorView>(SourceErrorView::UnresolvedReference(locator)),
{
}

/// Every source that classification yields holds at most one Git reference.
pub proof fn lemma_classified_has_single_reference(
    name: Seq<char>,
    source: RequirementSourceView,
    workspace: bool,
    editable: Option<bool>,
    rev: Option<Seq<char>>,
    tag: Option<Seq<char>>,
    branch: Option<Seq<char>>,
)
    ensures
        classified(name, source, workspace, editable, rev, tag, branch) matches Ok(found)
            ==> found.has_single_reference(),
{
}

} // verus!
