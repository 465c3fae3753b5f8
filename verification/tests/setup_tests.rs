use uv_project::init::InitError;
use uv_project::setup::{
    check_uninitialized, decide_membership, decide_workspace, initialized_message,
    membership_message, needs_readme, project_name, project_name_with,
    workspace_failure_message, Discovery, Membership, Notice, WorkspaceDecision,
};

fn text(value: &str) -> String {
    value.to_string()
}

#[test]
fn given_name_is_taken_as_it_is() {
    assert_eq!(project_name(Some(text("chosen")), Some(text("Directory"))), Ok(text("chosen")));
    assert_eq!(project_name(Some(text("chosen")), None), Ok(text("chosen")));
}

#[test]
fn directory_name_is_normalized() {
    assert_eq!(project_name(None, Some(text("My_Project"))), Ok(text("my-project")));
    assert_eq!(project_name(None, Some(text("friendly.bard"))), Ok(text("friendly-bard")));
    assert_eq!(project_name(None, Some(text("a--b__c"))), Ok(text("a-b-c")));
    assert_eq!(project_name(None, Some(text("plain"))), Ok(text("plain")));
}

#[test]
fn directory_name_that_is_no_package_name_is_refused() {
    assert_eq!(project_name(None, Some(text("-bad"))), Err(InitError::InvalidName(text("-bad"))));
    assert_eq!(
        project_name(None, Some(text("white space"))),
        Err(InitError::InvalidName(text("white space")))
    );
}

#[test]
fn missing_directory_name_is_refused() {
    assert_eq!(project_name(None, None), Err(InitError::MissingDirectoryName));
}

#[test]
fn name_from_a_given_normal_form() {
    assert_eq!(project_name_with(None, Some(text("X")), Some(text("x"))), Ok(text("x")));
    assert_eq!(project_name_with(None, Some(text("X")), None), Err(InitError::InvalidName(text("X"))));
    assert_eq!(project_name_with(None, None, Some(text("x"))), Err(InitError::MissingDirectoryName));
    assert_eq!(project_name_with(Some(text("n")), None, None), Ok(text("n")));
}

#[test]
fn directory_with_a_manifest_is_refused() {
    assert_eq!(check_uninitialized(false, text("/work/demo")), Ok(()));
    let error = check_uninitialized(true, text("/work/demo")).unwrap_err();
    assert_eq!(error, InitError::AlreadyInitialized(text("/work/demo")));
    assert_eq!(error.message(), "Project is already initialized in `/work/demo`");
}

#[test]
fn readme_is_created_unless_declined_or_present() {
    assert!(needs_readme(false, false));
    assert!(!needs_readme(false, true));
    assert!(!needs_readme(true, false));
    assert!(!needs_readme(true, true));
}

#[test]
fn message_after_initialization() {
    assert_eq!(initialized_message(&text("demo"), &None), "Initialized project `demo`");
    assert_eq!(
        initialized_message(&text("demo"), &Some(text("/work/demo"))),
        "Initialized project `demo` at `/work/demo`"
    );
}

#[test]
fn workspace_is_joined_unless_ignored() {
    assert_eq!(decide_workspace(Discovery::Found, false), WorkspaceDecision::Join);
    assert_eq!(decide_workspace(Discovery::Found, true), WorkspaceDecision::Alone(Notice::Ignored));
}

#[test]
fn missing_workspace_is_no_failure() {
    assert_eq!(decide_workspace(Discovery::Missing, false), WorkspaceDecision::Alone(Notice::Silent));
    assert_eq!(
        decide_workspace(Discovery::Missing, true),
        WorkspaceDecision::Alone(Notice::NothingToIgnore)
    );
}

#[test]
fn failed_discovery_fails_unless_ignored() {
    assert_eq!(decide_workspace(Discovery::Failed, false), WorkspaceDecision::Fail);
    assert_eq!(
        decide_workspace(Discovery::Failed, true),
        WorkspaceDecision::Alone(Notice::IgnoredFailure)
    );
}

#[test]
fn exclusion_decides_before_inclusion() {
    assert_eq!(decide_membership(true, true), Membership::Excluded);
    assert_eq!(decide_membership(true, false), Membership::Excluded);
    assert_eq!(decide_membership(false, true), Membership::AlreadyMember);
    assert_eq!(decide_membership(false, false), Membership::Added);
}

#[test]
fn messages_about_membership() {
    let name = text("demo");
    let workspace = text("/work");
    assert_eq!(
        membership_message(Membership::Excluded, &name, &workspace),
        "Project `demo` is excluded by workspace `/work`"
    );
    assert_eq!(
        membership_message(Membership::AlreadyMember, &name, &workspace),
        "Project `demo` is already a member of workspace `/work`"
    );
    assert_eq!(
        membership_message(Membership::Added, &name, &workspace),
        "Adding `demo` as member of workspace `/work`"
    );
}

#[test]
fn failed_discovery_names_the_way_out() {
    assert_eq!(
        workspace_failure_message(WorkspaceDecision::Fail),
        Some(text("Failed to discover parent workspace; use `uv init --no-workspace` to ignore"))
    );
    assert_eq!(workspace_failure_message(WorkspaceDecision::Join), None);
    assert_eq!(workspace_failure_message(WorkspaceDecision::Alone(Notice::IgnoredFailure)), None);
}
