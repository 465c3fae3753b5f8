//! Installing a tool: which requirement is meant, whether a tool that is
//! installed already is replaced, and what the user is told.

use vstd::prelude::*;
use crate::add::contains_text;
use crate::requirement::{read_requirement_name, requirement_name};
use crate::source::{copy_text, opt_text};
use crate::text::texts;

verus! {

/// Why a tool could not be installed.
#[derive(Debug, Clone, PartialEq, Eq)]
pub enum InstallError {
    /// The text is no requirement. Holds the text.
    InvalidRequirement(String),
    /// The alternate source names the requested package, but the request says
    /// more than the package's name.
    ConflictingRequest { from: String, package: String },
    /// The alternate source names another package than the one requested.
    NameMismatch { from_name: String, package: String },
    /// The tool is installed and nothing asks to replace it.
    AlreadyInstalled { name: String },
    /// The environment does not hold the package that was installed into it.
    MissingDistribution,
    /// The installed package offers no command.
    NoEntryPoints { name: String },
    /// Commands of the tool exist already and may not be overwritten. Holds
    /// the file names.
    ExistingEntryPoints { names: Vec<String> },
}

/// The mathematical value of an [`InstallError`].
pub ghost enum InstallErrorView {
    InvalidRequirement(Seq<char>),
    ConflictingRequest { from: Seq<char>, package: Seq<char> },
    NameMismatch { from_name: Seq<char>, package: Seq<char> },
    AlreadyInstalled { name: Seq<char> },
    MissingDistribution,
    NoEntryPoints { name: Seq<char> },
    ExistingEntryPoints { names: Seq<Seq<char>> },
}

impl View for InstallError {
    type V = InstallErrorView;

    open spec fn view(&self) -> InstallErrorView {
        match *self {
            InstallError::InvalidRequirement(text) => InstallErrorView::InvalidRequirement(text@),
            InstallError::ConflictingRequest { from, package } => {
                InstallErrorView::ConflictingRequest { from: from@, package: package@ }
            },
            InstallError::NameMismatch { from_name, package } => InstallErrorView::NameMismatch {
                from_name: from_name@,
                package: package@,
            },
            InstallError::AlreadyInstalled { name } => InstallErrorView::AlreadyInstalled {
                name: name@,
            },
            InstallError::MissingDistribution => InstallErrorView::MissingDistribution,
            InstallError::NoEntryPoints { name } => InstallErrorView::NoEntryPoints { name: name@ },
            InstallError::ExistingEntryPoints { names } => InstallErrorView::ExistingEntryPoints {
                names: texts(names@),
            },
        }
    }
}

/// The report of an [`InstallError`] to the user. Commands that exist are
/// listed by file name, with a comma between each two, and the sentence
/// agrees with their number.
pub open spec fn install_error_message(error: InstallErrorView) -> Seq<char> {
    match error {
        InstallErrorView::InvalidRequirement(text) => "Failed to parse requirement `"@ + text
            + "`"@,
        InstallErrorView::ConflictingRequest { from, package } => "Package requirement `"@ + from
            + "` provided with `--from` conflicts with install request `"@ + package + "`"@,
        InstallErrorView::NameMismatch { from_name, package } => "Package name `"@ + from_name
            + "` provided with `--from` does not match install request `"@ + package + "`"@,
        InstallErrorView::AlreadyInstalled { name } => "Tool `"@ + name + "` is already installed"@,
        InstallErrorView::MissingDistribution => "Expected at least one requirement"@,
        InstallErrorView::NoEntryPoints { name } => "No entry points found for tool `"@ + name
            + "`"@,
        InstallErrorView::ExistingEntryPoints { names } => if names.len() == 1 {
            "Entry point for tool already exists: "@ + crate::text::join(names, ", "@)
                + " (use `--force` to overwrite)"@
        } else {
            "Entry points for tool already exist: "@ + crate::text::join(names, ", "@)
                + " (use `--force` to overwrite)"@
        },
    }
}

impl InstallError {
    /// Whether the environment that was created for the tool is removed
    /// before the error is reported: where the tool turns out to have no
    /// command, or its commands may not be installed.
    pub fn removes_environment(&self) -> (remove: bool)
        ensures
            remove == (self@ is NoEntryPoints || self@ is ExistingEntryPoints),
    {
        match self {
            InstallError::NoEntryPoints { .. } => true,
            InstallError::ExistingEntryPoints { .. } => true,
            _ => false,
        }
    }

    /// The report of this error to the user.
    pub fn message(&self) -> (text: String)
        ensures
            text@ == install_error_message(self@),
    {
        match self {
            InstallError::InvalidRequirement(found) => {
                let mut text: String = String::from_str("Failed to parse requirement `");
                text.append(found.as_str());
                text.append("`");
                text
            },
            InstallError::ConflictingRequest { from, package } => {
                let mut text: String = String::from_str("Package requirement `");
                text.append(from.as_str());
                text.append("` provided with `--from` conflicts with install request `");
                text.append(package.as_str());
                text.append("`");
                text
            },
            InstallError::NameMismatch { from_name, package } => {
                let mut text: String = String::from_str("Package name `");
                text.append(from_name.as_str());
                text.append("` provided with `--from` does not match install request `");
                text.append(package.as_str());
                text.append("`");
                text
            },
            InstallError::AlreadyInstalled { name } => {
                let mut text: String = String::from_str("Tool `");
                text.append(name.as_str());
                text.append("` is already installed");
                text
            },
            InstallError::MissingDistribution => String::from_str(
                "Expected at least one requirement",
            ),
            InstallError::NoEntryPoints { name } => {
                let mut text: String = String::from_str("No entry points found for tool `");
                text.append(name.as_str());
                text.append("`");
                text
            },
            InstallError::ExistingEntryPoints { names } => {
                let mut text: String = if names.len() == 1 {
                    String::from_str("Entry point for tool already exists: ")
                } else {
                    String::from_str("Entry points for tool already exist: ")
                };
                text.append(crate::text::join_texts(names, ", ").as_str());
                text.append(" (use `--force` to overwrite)");
                text
            },
        }
    }
}

/// The requirement to install and the name of its package.
#[derive(Debug, Clone, PartialEq, Eq)]
pub struct InstallRequest {
    /// The requirement as the caller wrote it.
    pub requirement: String,
    /// The name of the package.
    pub name: String,
}

/// The mathematical value of an [`InstallRequest`].
pub ghost struct InstallRequestView {
    pub requirement: Seq<char>,
    pub name: Seq<char>,
}

impl View for InstallRequest {
    type V = InstallRequestView;

    open spec fn view(&self) -> InstallRequestView {
        InstallRequestView { requirement: self.requirement@, name: self.name@ }
    }
}

/// The value of the result of choosing the requirement to install.
pub open spec fn request_view(result: Result<InstallRequest, InstallError>) -> Result<
    InstallRequestView,
    InstallErrorView,
> {
    match result {
        Ok(request) => Ok(request@),
        Err(error) => Err(error@),
    }
}

/// The requirement to install, given the package names that `from` and
/// `package` parse to.
///
/// Without an alternate source, `package` is the requirement. With one, the
/// alternate source is the requirement, and `package` has to be exactly the
/// name of its package: where it is more than that name, it conflicts with
/// the alternate source if it names the same package, and mismatches it
/// otherwise.
pub open spec fn install_request_of(
    package: Seq<char>,
    from: Option<Seq<char>>,
    from_name: Option<Seq<char>>,
    package_name: Option<Seq<char>>,
) -> Result<InstallRequestView, InstallErrorView> {
    match from {
        Some(source) => match from_name {
            None => Err(InstallErrorView::InvalidRequirement(source)),
            Some(name) => if name == package {
                Ok(InstallRequestView { requirement: source, name })
            } else {
                match package_name {
                    None => Err(InstallErrorView::InvalidRequirement(package)),
                    Some(requested) => if requested == name {
                        Err(InstallErrorView::ConflictingRequest { from: source, package })
                    } else {
                        Err(InstallErrorView::NameMismatch { from_name: name, package })
                    },
                }
            },
        },
        None => match package_name {
            None => Err(InstallErrorView::InvalidRequirement(package)),
            Some(name) => Ok(InstallRequestView { requirement: package, name }),
        },
    }
}

/// Chooses the requirement to install, given the package names that `from`
/// and `package` parse to.
pub fn install_request_with(
    package: &String,
    from: Option<String>,
    from_name: Option<String>,
    package_name: Option<String>,
) -> (result: Result<InstallRequest, InstallError>)
    ensures
        request_view(result) == install_request_of(
            package@,
            opt_text(from),
            opt_text(from_name),
            opt_text(package_name),
        ),
{
    match from {
        Some(source) => match from_name {
            None => Err(InstallError::InvalidRequirement(source)),
            Some(name) => if name == *package {
                Ok(InstallRequest { requirement: source, name })
            } else {
                match package_name {
                    None => Err(InstallError::InvalidRequirement(copy_text(package))),
                    Some(requested) => if requested == name {
                        Err(
                            InstallError::ConflictingRequest {
                                from: source,
                                package: copy_text(package),
                            },
                        )
                    } else {
                        Err(
                            InstallError::NameMismatch {
                                from_name: name,
                                package: copy_text(package),
                            },
                        )
                    },
                }
            },
        },
        None => match package_name {
            None => Err(InstallError::InvalidRequirement(copy_text(package))),
            Some(name) => Ok(InstallRequest { requirement: copy_text(package), name }),
        },
    }
}

/// The package name of an optional requirement.
pub open spec fn requirement_name_opt(text: Option<Seq<char>>) -> Option<Seq<char>> {
    match text {
        Some(found) => requirement_name(found),
        None => None,
    }
}

/// Chooses the requirement to install from the requested package and the
/// alternate source, and reports a request that disagrees with its source
/// before anything is changed.
pub fn install_request(package: &String, from: Option<String>) -> (result: Result<
    InstallRequest,
    InstallError,
>)
    ensures
        request_view(result) == install_request_of(
            package@,
            opt_text(from),
            requirement_name_opt(opt_text(from)),
            requirement_name(package@),
        ),
{
    let from_name = match &from {
        Some(source) => read_requirement_name(source.as_str()),
        None => None,
    };
    let package_name = read_requirement_name(package.as_str());
    install_request_with(package, from, from_name, package_name)
}

/// The requirements of the tool's environment, given which of the further
/// requirements parse: the requirement to install, then the further ones
/// in order; the first further requirement that does not parse fails the
/// list.
pub open spec fn requirements_of(request: Seq<char>, with: Seq<Seq<char>>, count: int) -> Result<
    Seq<Seq<char>>,
    InstallErrorView,
>
    decreases count,
{
    if count <= 0 {
        Ok(seq![request])
    } else {
        match requirements_of(request, with, count - 1) {
            Err(error) => Err(error),
            Ok(before) => if requirement_name(with[count - 1]) is Some {
                Ok(before.push(with[count - 1]))
            } else {
                Err(InstallErrorView::InvalidRequirement(with[count - 1]))
            },
        }
    }
}

/// The value of the result of collecting requirements.
pub open spec fn requirements_view(result: Result<Vec<String>, InstallError>) -> Result<
    Seq<Seq<char>>,
    InstallErrorView,
> {
    match result {
        Ok(found) => Ok(texts(found@)),
        Err(error) => Err(error@),
    }
}

/// Collects the requirements of the tool's environment: the requirement to
/// install and the further requirements `with`, each of which has to parse.
pub fn collect_requirements(request: &String, with: &Vec<String>) -> (result: Result<
    Vec<String>,
    InstallError,
>)
    ensures
        requirements_view(result) == requirements_of(
            request@,
            texts(with@),
            with@.len() as int,
        ),
{
    let mut found: Vec<String> = Vec::new();
    found.push(copy_text(request));
    assert(texts(found@) =~= seq![request@]);
    let mut i: usize = 0;
    while i < with.len()
        invariant
            i <= with.len(),
            requirements_of(request@, texts(with@), i as int) == Ok::<
                Seq<Seq<char>>,
                InstallErrorView,
            >(texts(found@)),
        decreases with.len() - i,
    {
        let ghost before = texts(found@);
        assert(texts(with@)[i as int] == with@[i as int]@);
        match read_requirement_name(with[i].as_str()) {
            Some(_) => {
                found.push(copy_text(&with[i]));
                assert(texts(found@) =~= before.push(with@[i as int]@));
            },
            None => {
                let error = InstallError::InvalidRequirement(copy_text(&with[i]));
                proof {
                    lemma_requirements_fail(request@, texts(with@), i + 1, with@.len() as int);
                }
                return Err(error);
            },
        }
        i = i + 1;
    }
    Ok(found)
}

/// A list of requirements that fails at some length fails with the same
/// error at every greater length.
proof fn lemma_requirements_fail(request: Seq<char>, with: Seq<Seq<char>>, at: int, count: int)
    requires
        at <= count,
        requirements_of(request, with, at) is Err,
    ensures
        requirements_of(request, with, count) == requirements_of(request, with, at),
    decreases count - at,
{
    if at < count {
        lemma_requirements_fail(request, with, at, count - 1);
    }
}

/// Which installed packages are to be installed anew.
#[derive(Debug, Clone, PartialEq, Eq)]
pub enum Reinstall {
    /// None.
    Nothing,
    /// All of them.
    All,
    /// Those of the given names.
    Packages(Vec<String>),
}

/// The mathematical value of a [`Reinstall`].
pub ghost enum ReinstallView {
    Nothing,
    All,
    Packages(Seq<Seq<char>>),
}

impl View for Reinstall {
    type V = ReinstallView;

    open spec fn view(&self) -> ReinstallView {
        match *self {
            Reinstall::Nothing => ReinstallView::Nothing,
            Reinstall::All => ReinstallView::All,
            Reinstall::Packages(names) => ReinstallView::Packages(texts(names@)),
        }
    }
}

/// What happens to the commands of a tool.
#[derive(Debug, Clone, Copy, PartialEq, Eq, Structural)]
pub enum EntryPoints {
    /// The tool is new: its commands are installed, and commands that exist
    /// are in the way.
    Install,
    /// The tool is installed and its commands are replaced.
    Replace,
    /// The tool is installed and only its environment is updated.
    Keep,
    /// The tool is installed and nothing is to be done.
    AlreadyInstalled,
}

/// What happens to the commands of the tool `name`: a tool that is not
/// installed gets them; one that is installed has them replaced where the
/// caller forces it or reinstalls everything or the tool itself, keeps them
/// where only other packages are reinstalled, and is left alone otherwise.
pub open spec fn entry_points_of(installed: bool, force: bool, reinstall: ReinstallView, name: Seq<char>) -> EntryPoints {
    if !installed {
        EntryPoints::Install
    } else if force {
        EntryPoints::Replace
    } else {
        match reinstall {
            ReinstallView::All => EntryPoints::Replace,
            ReinstallView::Packages(names) => if names.contains(name) {
                EntryPoints::Replace
            } else {
                EntryPoints::Keep
            },
            ReinstallView::Nothing => EntryPoints::AlreadyInstalled,
        }
    }
}

/// Decides what happens to the commands of the tool `name`. `installed`
/// tells whether a receipt of the tool exists.
pub fn decide_entry_points(installed: bool, force: bool, reinstall: &Reinstall, name: &String) -> (decision:
    EntryPoints)
    ensures
        decision == entry_points_of(installed, force, reinstall@, name@),
{
    if !installed {
        EntryPoints::Install
    } else if force {
        EntryPoints::Replace
    } else {
        match reinstall {
            Reinstall::All => EntryPoints::Replace,
            Reinstall::Packages(names) => if contains_text(names, name) {
                EntryPoints::Replace
            } else {
                EntryPoints::Keep
            },
            Reinstall::Nothing => EntryPoints::AlreadyInstalled,
        }
    }
}

impl EntryPoints {
    /// Whether the environment is brought up to date at all: not for a tool
    /// that is left alone.
    pub fn updates_environment(self) -> (update: bool)
        ensures
            update == (self != EntryPoints::AlreadyInstalled),
    {
        match self {
            EntryPoints::AlreadyInstalled => false,
            _ => true,
        }
    }

    /// Whether commands are installed once the environment is up to date.
    pub fn installs_commands(self) -> (install: bool)
        ensures
            install == (self == EntryPoints::Install || self == EntryPoints::Replace),
    {
        match self {
            EntryPoints::Install => true,
            EntryPoints::Replace => true,
            _ => false,
        }
    }

    /// Whether files at the places of the commands may be replaced: where
    /// the caller forces it, or the commands of an installed tool are
    /// replaced.
    pub fn may_overwrite(self, force: bool) -> (overwrite: bool)
        ensures
            overwrite == (force || self == EntryPoints::Replace),
    {
        match self {
            EntryPoints::Replace => true,
            _ => force,
        }
    }
}

/// Whether the tool's environment is created anew: unless only some of its
/// packages are reinstalled.
pub fn replaces_environment(reinstall: &Reinstall) -> (replace: bool)
    ensures
        replace == !(reinstall@ is Packages),
{
    match reinstall {
        Reinstall::Packages(_) => false,
        _ => true,
    }
}

/// What the user is told when only the environment of a tool was updated.
pub open spec fn updated_text(name: Seq<char>) -> Seq<char> {
    "Updated environment for tool `"@ + name + "`"@
}

/// Writes what the user is told when only the environment was updated.
pub fn updated_message(name: &String) -> (text: String)
    ensures
        text@ == updated_text(name@),
{
    let mut text: String = String::from_str("Updated environment for tool `");
    text.append(name.as_str());
    text.append("`");
    text
}

/// What the user is told when the commands `names` were installed.
pub open spec fn installed_text(names: Seq<Seq<char>>) -> Seq<char> {
    "Installed: "@ + crate::text::join(names, ", "@)
}

/// Writes what the user is told when the commands `names` were installed.
pub fn installed_message(names: &Vec<String>) -> (text: String)
    ensures
        text@ == installed_text(texts(names@)),
{
    let mut text: String = String::from_str("Installed: ");
    text.append(crate::text::join_texts(names, ", ").as_str());
    text
}

} // verus!
