//! Starting a project: the files that a fresh project consists of and the
//! text of each.

use vstd::prelude::*;
use crate::source::copy_text;

verus! {

/// The kind of project that is started.
#[derive(Debug, Copy, Clone, PartialEq, Eq, Structural)]
pub enum InitProjectKind {
    Application,
    Library,
}

impl Default for InitProjectKind {
    fn default() -> (kind: InitProjectKind)
        ensures
            kind == InitProjectKind::Application,
    {
        InitProjectKind::Application
    }
}

/// Why a project could not be started.
#[derive(Debug, Clone, PartialEq, Eq)]
pub enum InitError {
    /// The directory holds a manifest already. Holds the directory.
    AlreadyInitialized(String),
    /// No name was given and the directory has none to offer.
    MissingDirectoryName,
    /// The directory's name is no package name. Holds the name.
    InvalidName(String),
    /// A library was asked for without packaging.
    LibraryNotPackaged,
}

/// The mathematical value of an [`InitError`].
pub ghost enum InitErrorView {
    AlreadyInitialized(Seq<char>),
    MissingDirectoryName,
    InvalidName(Seq<char>),
    LibraryNotPackaged,
}

impl View for InitError {
    type V = InitErrorView;

    open spec fn view(&self) -> InitErrorView {
        match *self {
            InitError::AlreadyInitialized(path) => InitErrorView::AlreadyInitialized(path@),
            InitError::MissingDirectoryName => InitErrorView::MissingDirectoryName,
            InitError::InvalidName(name) => InitErrorView::InvalidName(name@),
            InitError::LibraryNotPackaged => InitErrorView::LibraryNotPackaged,
        }
    }
}

/// The report of an [`InitError`] to the user.
pub open spec fn init_error_message(error: InitErrorView) -> Seq<char> {
    match error {
        InitErrorView::AlreadyInitialized(path) => "Project is already initialized in `"@ + path
            + "`"@,
        InitErrorView::MissingDirectoryName => "Missing directory name"@,
        InitErrorView::InvalidName(name) => "Not a valid package or extra name: \""@ + name
            + "\". Names must start and end with a letter or digit and may only contain -, _, ., and alphanumeric characters."@,
        InitErrorView::LibraryNotPackaged => "Library projects must be packaged"@,
    }
}

impl InitError {
    /// The report of this error to the user.
    pub fn message(&self) -> (text: String)
        ensures
            text@ == init_error_message(self@),
    {
        match self {
            InitError::AlreadyInitialized(path) => {
                let mut text: String = String::from_str("Project is already initialized in `");
                text.append(path.as_str());
                text.append("`");
                text
            },
            InitError::MissingDirectoryName => String::from_str("Missing directory name"),
            InitError::InvalidName(name) => {
                let mut text: String = String::from_str("Not a valid package or extra name: \"");
                text.append(name.as_str());
                text.append(
                    "\". Names must start and end with a letter or digit and may only contain -, _, ., and alphanumeric characters.",
                );
                text
            },
            InitError::LibraryNotPackaged => String::from_str("Library projects must be packaged"),
        }
    }
}

/// A package name as a module or a directory of installed metadata names
/// it: every `-` is written `_`.
pub open spec fn dist_info_text(name: Seq<char>) -> Seq<char> {
    Seq::new(
        name.len(),
        |i: int|
            if name[i] == '-' {
                '_'
            } else {
                name[i]
            },
    )
}

/// The name of the module of the package `name`.
pub fn dist_info_name(name: &str) -> (module: String)
    ensures
        module@ == dist_info_text(name@),
{
    proof {
        reveal_strlit("_");
    }
    let mut module: String = String::new();
    let count: usize = name.unicode_len();
    let mut i: usize = 0;
    while i < count
        invariant
            i <= count,
            count == name@.len(),
            module@ == dist_info_text(name@).take(i as int),
            "_"@.len() == 1,
            "_"@[0] == '_',
        decreases count - i,
    {
        let character: char = name.get_char(i);
        if character == '-' {
            module.append("_");
        } else {
            module.append(name.substring_char(i, i + 1));
        }
        assert(module@ =~= dist_info_text(name@).take(i + 1));
        i = i + 1;
    }
    assert(dist_info_text(name@).take(count as int) =~= dist_info_text(name@));
    module
}

/// The line of a manifest that names the read-me, where there is one.
pub open spec fn readme_text(no_readme: bool) -> Seq<char> {
    if no_readme {
        Seq::empty()
    } else {
        "\nreadme = \"README.md\""@
    }
}

/// The `[project]` table of a fresh manifest.
pub open spec fn project_text(name: Seq<char>, requires_python: Seq<char>, no_readme: bool) -> Seq<
    char,
> {
    "[project]\nname = \""@ + name
        + "\"\nversion = \"0.1.0\"\ndescription = \"Add your description here\""@ + readme_text(
        no_readme,
    ) + "\nrequires-python = \""@ + requires_python + "\"\ndependencies = []\n"@
}

/// The `[build-system]` table of a fresh manifest.
pub open spec fn build_system_text() -> Seq<char> {
    "[build-system]\nrequires = [\"hatchling\"]\nbuild-backend = \"hatchling.build\"\n"@
}

/// The `[project.scripts]` table of a fresh manifest: one command,
/// `executable_name`, that runs `target` of the package's module.
pub open spec fn project_scripts_text(
    package: Seq<char>,
    executable_name: Seq<char>,
    target: Seq<char>,
) -> Seq<char> {
    "[project.scripts]\n"@ + executable_name + " = \""@ + dist_info_text(package) + ":"@ + target
        + "\"\n"@
}

/// Writes the `[project]` table of a fresh manifest.
pub fn pyproject_project(name: &str, requires_python: &str, no_readme: bool) -> (text: String)
    ensures
        text@ == project_text(name@, requires_python@, no_readme),
{
    let mut text: String = String::from_str("[project]\nname = \"");
    text.append(name);
    text.append("\"\nversion = \"0.1.0\"\ndescription = \"Add your description here\"");
    if !no_readme {
        text.append("\nreadme = \"README.md\"");
    } else {
        assert(text@ =~= text@ + readme_text(no_readme));
    }
    text.append("\nrequires-python = \"");
    text.append(requires_python);
    text.append("\"\ndependencies = []\n");
    text
}

/// Writes the `[build-system]` table of a fresh manifest.
pub fn pyproject_build_system() -> (text: String)
    ensures
        text@ == build_system_text(),
{
    String::from_str(
        "[build-system]\nrequires = [\"hatchling\"]\nbuild-backend = \"hatchling.build\"\n",
    )
}

/// Writes the `[project.scripts]` table of a fresh manifest.
pub fn pyproject_project_scripts(package: &str, executable_name: &str, target: &str) -> (text:
    String)
    ensures
        text@ == project_scripts_text(package@, executable_name@, target@),
{
    let module = dist_info_name(package);
    let mut text: String = String::from_str("[project.scripts]\n");
    text.append(executable_name);
    text.append(" = \"");
    text.append(module.as_str());
    text.append(":");
    text.append(target);
    text.append("\"\n");
    text
}

/// The manifest of a fresh application: the project table and, where the
/// application is packaged, its command and its build system.
pub open spec fn application_manifest_text(
    name: Seq<char>,
    requires_python: Seq<char>,
    no_readme: bool,
    package: bool,
) -> Seq<char> {
    if package {
        project_text(name, requires_python, no_readme) + "\n"@ + project_scripts_text(
            name,
            "hello"@,
            "hello"@,
        ) + "\n"@ + build_system_text()
    } else {
        project_text(name, requires_python, no_readme)
    }
}

/// The manifest of a fresh library: the project table and the build system.
pub open spec fn library_manifest_text(name: Seq<char>, requires_python: Seq<char>, no_readme: bool) -> Seq<
    char,
> {
    project_text(name, requires_python, no_readme) + "\n"@ + build_system_text()
}

/// The module of a packaged application.
pub open spec fn application_module_text(name: Seq<char>) -> Seq<char> {
    "def hello():\n    print(\"Hello from "@ + name + "!\")\n"@
}

/// The script of an application that is not packaged.
pub open spec fn application_script_text(name: Seq<char>) -> Seq<char> {
    "def main():\n    print(\"Hello from "@ + name
        + "!\")\n\n\nif __name__ == \"__main__\":\n    main()\n"@
}

/// The module of a library.
pub open spec fn library_module_text(name: Seq<char>) -> Seq<char> {
    "def hello() -> str:\n    return \"Hello from "@ + name + "!\"\n"@
}

/// The directory of the package's module, below the project.
pub open spec fn module_directory(name: Seq<char>) -> Seq<char> {
    "src/"@ + dist_info_text(name)
}

/// One step of laying out a project, with paths below the project's
/// directory. The empty path is the project's directory itself.
#[derive(Debug, Clone, PartialEq, Eq)]
pub enum FileAction {
    /// Create the directory and all that lead to it.
    CreateDir { path: String },
    /// Write the file, replacing what is there.
    Write { path: String, contents: String },
}

/// The mathematical value of a [`FileAction`].
pub ghost enum FileActionView {
    CreateDir { path: Seq<char> },
    Write { path: Seq<char>, contents: Seq<char> },
}

impl View for FileAction {
    type V = FileActionView;

    open spec fn view(&self) -> FileActionView {
        match *self {
            FileAction::CreateDir { path } => FileActionView::CreateDir { path: path@ },
            FileAction::Write { path, contents } => FileActionView::Write {
                path: path@,
                contents: contents@,
            },
        }
    }
}

/// The values of a list of steps, in order.
pub open spec fn action_views(actions: Seq<FileAction>) -> Seq<FileActionView> {
    Seq::new(actions.len(), |i: int| actions[i]@)
}

/// What the project's directory holds before the project is laid out.
#[derive(Debug, Clone, Copy, PartialEq, Eq, Structural)]
pub struct ExistingFiles {
    /// The module's `__init__.py` is there.
    pub module: bool,
    /// `hello.py` is there.
    pub script: bool,
    /// A file that pins the interpreter's version was found.
    pub version_file: bool,
}

/// The step that pins the interpreter's version, where a version is to be
/// pinned and no file pins one yet.
pub open spec fn pin_steps(python_pin: Option<Seq<char>>, existing: ExistingFiles) -> Seq<
    FileActionView,
> {
    match python_pin {
        Some(version) => if existing.version_file {
            Seq::empty()
        } else {
            seq![FileActionView::Write { path: ".python-version"@, contents: version + "\n"@ }]
        },
        None => Seq::empty(),
    }
}

/// The steps that create the package's module with `contents`, unless the
/// module is there.
pub open spec fn module_steps(name: Seq<char>, contents: Seq<char>, existing: ExistingFiles) -> Seq<
    FileActionView,
> {
    if existing.module {
        Seq::empty()
    } else {
        seq![
            FileActionView::CreateDir { path: module_directory(name) },
            FileActionView::Write { path: module_directory(name) + "/__init__.py"@, contents },
        ]
    }
}

/// The steps that lay out an application: the directory; the module of a
/// packaged application or the script of any other, where missing; the
/// manifest; the pinned version.
pub open spec fn application_steps(
    name: Seq<char>,
    requires_python: Seq<char>,
    python_pin: Option<Seq<char>>,
    no_readme: bool,
    package: bool,
    existing: ExistingFiles,
) -> Seq<FileActionView> {
    seq![FileActionView::CreateDir { path: Seq::empty() }] + (if package {
        module_steps(name, application_module_text(name), existing)
    } else if existing.script {
        Seq::empty()
    } else {
        seq![FileActionView::Write { path: "hello.py"@, contents: application_script_text(name) }]
    }) + seq![
        FileActionView::Write {
            path: "pyproject.toml"@,
            contents: application_manifest_text(name, requires_python, no_readme, package),
        },
    ] + pin_steps(python_pin, existing)
}

/// The steps that lay out a library: the directory, the manifest, the
/// module where missing, the pinned version.
pub open spec fn library_steps(
    name: Seq<char>,
    requires_python: Seq<char>,
    python_pin: Option<Seq<char>>,
    no_readme: bool,
    existing: ExistingFiles,
) -> Seq<FileActionView> {
    seq![
        FileActionView::CreateDir { path: Seq::empty() },
        FileActionView::Write {
            path: "pyproject.toml"@,
            contents: library_manifest_text(name, requires_python, no_readme),
        },
    ] + module_steps(name, library_module_text(name), existing) + pin_steps(python_pin, existing)
}

/// The steps that lay out a project of the given kind, or the reason why it
/// cannot be laid out: a library has to be packaged.
pub open spec fn layout(
    kind: InitProjectKind,
    name: Seq<char>,
    requires_python: Seq<char>,
    python_pin: Option<Seq<char>>,
    no_readme: bool,
    package: bool,
    existing: ExistingFiles,
) -> Result<Seq<FileActionView>, InitErrorView> {
    match kind {
        InitProjectKind::Application => Ok(
            application_steps(name, requires_python, python_pin, no_readme, package, existing),
        ),
        InitProjectKind::Library => if package {
            Ok(library_steps(name, requires_python, python_pin, no_readme, existing))
        } else {
            Err(InitErrorView::LibraryNotPackaged)
        },
    }
}

/// The value of the result of laying out a project.
pub open spec fn layout_view(result: Result<Vec<FileAction>, InitError>) -> Result<
    Seq<FileActionView>,
    InitErrorView,
> {
    match result {
        Ok(actions) => Ok(action_views(actions@)),
        Err(error) => Err(error@),
    }
}

/// The text of an optional string slice.
pub open spec fn opt_str(value: Option<&str>) -> Option<Seq<char>> {
    match value {
        Some(text) => Some(text@),
        None => None,
    }
}

/// Appends the step that pins the interpreter's version.
fn push_pin(actions: &mut Vec<FileAction>, python_pin: Option<&str>, existing: ExistingFiles)
    ensures
        action_views(final(actions)@) == action_views(old(actions)@) + pin_steps(
            opt_str(python_pin),
            existing,
        ),
{
    match python_pin {
        Some(version) => {
            if !existing.version_file {
                let mut contents: String = String::from_str(version);
                contents.append("\n");
                actions.push(
                    FileAction::Write { path: String::from_str(".python-version"), contents },
                );
            }
        },
        None => {},
    }
    assert(action_views(actions@) =~= action_views(old(actions)@) + pin_steps(
        opt_str(python_pin),
        existing,
    ));
}

/// Appends the steps that create the package's module.
fn push_module(actions: &mut Vec<FileAction>, name: &str, contents: String, existing: ExistingFiles)
    ensures
        action_views(final(actions)@) == action_views(old(actions)@) + module_steps(
            name@,
            contents@,
            existing,
        ),
{
    if !existing.module {
        let mut directory: String = String::from_str("src/");
        directory.append(dist_info_name(name).as_str());
        let mut path: String = copy_text(&directory);
        path.append("/__init__.py");
        actions.push(FileAction::CreateDir { path: directory });
        actions.push(FileAction::Write { path, contents });
    }
    assert(action_views(actions@) =~= action_views(old(actions)@) + module_steps(
        name@,
        contents@,
        existing,
    ));
}

impl InitProjectKind {
    /// Whether a project of this kind is packaged unless the caller says
    /// otherwise.
    pub fn packaged_by_default(self) -> (packaged: bool)
        ensures
            packaged == (self == InitProjectKind::Library),
    {
        match self {
            InitProjectKind::Application => false,
            InitProjectKind::Library => true,
        }
    }

    /// The steps that lay out a project of this kind, in the order in which
    /// they are to be taken.
    pub fn init(
        self,
        name: &str,
        requires_python: &str,
        python_pin: Option<&str>,
        no_readme: bool,
        package: bool,
        existing: ExistingFiles,
    ) -> (result: Result<Vec<FileAction>, InitError>)
        ensures
            layout_view(result) == layout(
                self,
                name@,
                requires_python@,
                opt_str(python_pin),
                no_readme,
                package,
                existing,
            ),
    {
        match self {
            InitProjectKind::Application => Ok(
                self.init_application(name, requires_python, python_pin, no_readme, package, existing),
            ),
            InitProjectKind::Library => self.init_library(
                name,
                requires_python,
                python_pin,
                no_readme,
                package,
                existing,
            ),
        }
    }

    /// The steps that lay out an application.
    pub fn init_application(
        self,
        name: &str,
        requires_python: &str,
        python_pin: Option<&str>,
        no_readme: bool,
        package: bool,
        existing: ExistingFiles,
    ) -> (actions: Vec<FileAction>)
        ensures
            action_views(actions@) == application_steps(
                name@,
                requires_python@,
                opt_str(python_pin),
                no_readme,
                package,
                existing,
            ),
    {
        let mut manifest = pyproject_project(name, requires_python, no_readme);
        if package {
            manifest.append("\n");
            manifest.append(pyproject_project_scripts(name, "hello", "hello").as_str());
            manifest.append("\n");
            manifest.append(pyproject_build_system().as_str());
        }
        let mut actions: Vec<FileAction> = Vec::new();
        actions.push(FileAction::CreateDir { path: String::new() });
        let ghost first = action_views(actions@);
        assert(first =~= seq![FileActionView::CreateDir { path: Seq::empty() }]);
        if package {
            let mut module: String = String::from_str("def hello():\n    print(\"Hello from ");
            module.append(name);
            module.append("!\")\n");
            push_module(&mut actions, name, module, existing);
        } else if !existing.script {
            let mut script: String = String::from_str("def main():\n    print(\"Hello from ");
            script.append(name);
            script.append("!\")\n\n\nif __name__ == \"__main__\":\n    main()\n");
            actions.push(FileAction::Write { path: String::from_str("hello.py"), contents: script });
            assert(action_views(actions@) =~= first + seq![
                FileActionView::Write { path: "hello.py"@, contents: application_script_text(name@) },
            ]);
        } else {
            assert(action_views(actions@) =~= first + Seq::<FileActionView>::empty());
        }
        let ghost second = action_views(actions@);
        actions.push(FileAction::Write { path: String::from_str("pyproject.toml"), contents: manifest });
        assert(action_views(actions@) =~= second + seq![
            FileActionView::Write {
                path: "pyproject.toml"@,
                contents: application_manifest_text(name@, requires_python@, no_readme, package),
            },
        ]);
        push_pin(&mut actions, python_pin, existing);
        actions
    }

    /// The steps that lay out a library, which has to be packaged.
    pub fn init_library(
        self,
        name: &str,
        requires_python: &str,
        python_pin: Option<&str>,
        no_readme: bool,
        package: bool,
        existing: ExistingFiles,
    ) -> (result: Result<Vec<FileAction>, InitError>)
        ensures
            layout_view(result) == layout(
                InitProjectKind::Library,
                name@,
                requires_python@,
                opt_str(python_pin),
                no_readme,
                package,
                existing,
            ),
    {
        if !package {
            return Err(InitError::LibraryNotPackaged);
        }
        let mut manifest = pyproject_project(name, requires_python, no_readme);
        manifest.append("\n");
        manifest.append(pyproject_build_system().as_str());
        let mut actions: Vec<FileAction> = Vec::new();
        actions.push(FileAction::CreateDir { path: String::new() });
        actions.push(FileAction::Write { path: String::from_str("pyproject.toml"), contents: manifest });
        assert(action_views(actions@) =~= seq![
            FileActionView::CreateDir { path: Seq::empty() },
            FileActionView::Write {
                path: "pyproject.toml"@,
                contents: library_manifest_text(name@, requires_python@, no_readme),
            },
        ]);
        let mut module: String = String::from_str("def hello() -> str:\n    return \"Hello from ");
        module.append(name);
        module.append("!\"\n");
        push_module(&mut actions, name, module, existing);
        push_pin(&mut actions, python_pin, existing);
        Ok(actions)
    }
}

} // verus!
