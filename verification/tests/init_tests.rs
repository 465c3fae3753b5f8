use uv_project::init::{
    dist_info_name, pyproject_build_system, pyproject_project, pyproject_project_scripts,
    ExistingFiles, FileAction, InitError, InitProjectKind,
};

fn none() -> ExistingFiles {
    ExistingFiles { module: false, script: false, version_file: false }
}

fn write(path: &str, contents: &str) -> FileAction {
    FileAction::Write { path: path.to_string(), contents: contents.to_string() }
}

fn dir(path: &str) -> FileAction {
    FileAction::CreateDir { path: path.to_string() }
}

const PROJECT: &str = "[project]\nname = \"my-app\"\nversion = \"0.1.0\"\ndescription = \"Add your description here\"\nreadme = \"README.md\"\nrequires-python = \">=3.12\"\ndependencies = []\n";
const BUILD: &str = "[build-system]\nrequires = [\"hatchling\"]\nbuild-backend = \"hatchling.build\"\n";
const SCRIPTS: &str = "[project.scripts]\nhello = \"my_app:hello\"\n";

#[test]
fn library_is_packaged_by_default() {
    assert!(InitProjectKind::Library.packaged_by_default());
    assert!(!InitProjectKind::Application.packaged_by_default());
    assert_eq!(InitProjectKind::default(), InitProjectKind::Application);
}

#[test]
fn project_table_with_readme() {
    assert_eq!(pyproject_project("my-app", ">=3.12", false), PROJECT);
}

#[test]
fn project_table_without_readme() {
    assert_eq!(
        pyproject_project("my-app", ">=3.12", true),
        "[project]\nname = \"my-app\"\nversion = \"0.1.0\"\ndescription = \"Add your description here\"\nrequires-python = \">=3.12\"\ndependencies = []\n"
    );
}

#[test]
fn build_system_table() {
    assert_eq!(pyproject_build_system(), BUILD);
}

#[test]
fn scripts_table_names_the_module() {
    assert_eq!(pyproject_project_scripts("my-app", "hello", "hello"), SCRIPTS);
    assert_eq!(
        pyproject_project_scripts("plain", "run", "main"),
        "[project.scripts]\nrun = \"plain:main\"\n"
    );
}

#[test]
fn module_name_replaces_every_dash() {
    assert_eq!(dist_info_name("my-app"), "my_app");
    assert_eq!(dist_info_name("a-b-c"), "a_b_c");
    assert_eq!(dist_info_name("plain"), "plain");
    assert_eq!(dist_info_name(""), "");
    assert_eq!(dist_info_name("-"), "_");
    assert_eq!(dist_info_name("under_score.dot"), "under_score.dot");
}

#[test]
fn plain_application() {
    let actions = InitProjectKind::Application
        .init("my-app", ">=3.12", Some("3.12"), false, false, none())
        .unwrap();
    assert_eq!(
        actions,
        vec![
            dir(""),
            write(
                "hello.py",
                "def main():\n    print(\"Hello from my-app!\")\n\n\nif __name__ == \"__main__\":\n    main()\n"
            ),
            write("pyproject.toml", PROJECT),
            write(".python-version", "3.12\n"),
        ]
    );
}

#[test]
fn packaged_application() {
    let actions =
        InitProjectKind::Application.init("my-app", ">=3.12", None, false, true, none()).unwrap();
    let manifest = format!("{PROJECT}\n{SCRIPTS}\n{BUILD}");
    assert_eq!(
        actions,
        vec![
            dir(""),
            dir("src/my_app"),
            write("src/my_app/__init__.py", "def hello():\n    print(\"Hello from my-app!\")\n"),
            write("pyproject.toml", &manifest),
        ]
    );
}

#[test]
fn application_keeps_files_that_exist() {
    let existing = ExistingFiles { module: true, script: true, version_file: true };
    let plain = InitProjectKind::Application.init_application(
        "my-app",
        ">=3.12",
        Some("3.12"),
        false,
        false,
        existing,
    );
    assert_eq!(plain, vec![dir(""), write("pyproject.toml", PROJECT)]);
    let packaged = InitProjectKind::Application.init_application(
        "my-app",
        ">=3.12",
        Some("3.12"),
        false,
        true,
        existing,
    );
    assert_eq!(packaged.len(), 2);
    assert_eq!(packaged[0], dir(""));
}

#[test]
fn library() {
    let actions =
        InitProjectKind::Library.init("my-app", ">=3.12", Some("3.12.1"), false, true, none()).unwrap();
    let manifest = format!("{PROJECT}\n{BUILD}");
    assert_eq!(
        actions,
        vec![
            dir(""),
            write("pyproject.toml", &manifest),
            dir("src/my_app"),
            write("src/my_app/__init__.py", "def hello() -> str:\n    return \"Hello from my-app!\"\n"),
            write(".python-version", "3.12.1\n"),
        ]
    );
}

#[test]
fn library_keeps_files_that_exist() {
    let existing = ExistingFiles { module: true, script: false, version_file: true };
    let actions = InitProjectKind::Library
        .init_library("my-app", ">=3.12", Some("3.12"), false, true, existing)
        .unwrap();
    let manifest = format!("{PROJECT}\n{BUILD}");
    assert_eq!(actions, vec![dir(""), write("pyproject.toml", &manifest)]);
}

#[test]
fn library_must_be_packaged() {
    let result = InitProjectKind::Library.init("my-app", ">=3.12", None, false, false, none());
    assert_eq!(result, Err(InitError::LibraryNotPackaged));
    assert_eq!(InitError::LibraryNotPackaged.message(), "Library projects must be packaged");
}

#[test]
fn messages_of_init_errors() {
    assert_eq!(
        InitError::AlreadyInitialized("/work/demo".to_string()).message(),
        "Project is already initialized in `/work/demo`"
    );
    assert_eq!(InitError::MissingDirectoryName.message(), "Missing directory name");
    assert_eq!(
        InitError::InvalidName("-bad".to_string()).message(),
        "Not a valid package or extra name: \"-bad\". Names must start and end with a letter or digit and may only contain -, _, ., and alphanumeric characters."
    );
}
