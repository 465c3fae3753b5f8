use uv_project::tool::{
    collect_requirements, decide_entry_points, install_request, install_request_with,
    installed_message, replaces_environment, updated_message, EntryPoints, InstallError,
    InstallRequest, Reinstall,
};

fn text(value: &str) -> String {
    value.to_string()
}

fn names(values: &[&str]) -> Vec<String> {
    values.iter().map(|value| value.to_string()).collect()
}

#[test]
fn package_alone_is_the_request() {
    assert_eq!(
        install_request(&text("black"), None),
        Ok(InstallRequest { requirement: text("black"), name: text("black") })
    );
    assert_eq!(
        install_request(&text("Black[d]>=24"), None),
        Ok(InstallRequest { requirement: text("Black[d]>=24"), name: text("black") })
    );
}

#[test]
fn alternate_source_for_the_named_package() {
    assert_eq!(
        install_request(&text("black"), Some(text("black>=24.1"))),
        Ok(InstallRequest { requirement: text("black>=24.1"), name: text("black") })
    );
    assert_eq!(
        install_request(&text("black"), Some(text("Black @ https://example.com/black.whl"))),
        Ok(InstallRequest {
            requirement: text("Black @ https://example.com/black.whl"),
            name: text("black"),
        })
    );
}

#[test]
fn request_that_says_more_than_the_name_conflicts() {
    let error = install_request(&text("black>=23"), Some(text("black>=24.1"))).unwrap_err();
    assert_eq!(
        error,
        InstallError::ConflictingRequest { from: text("black>=24.1"), package: text("black>=23") }
    );
    assert_eq!(
        error.message(),
        "Package requirement `black>=24.1` provided with `--from` conflicts with install request `black>=23`"
    );
}

#[test]
fn request_in_another_spelling_conflicts() {
    let error = install_request(&text("Black"), Some(text("black>=24.1"))).unwrap_err();
    assert_eq!(
        error,
        InstallError::ConflictingRequest { from: text("black>=24.1"), package: text("Black") }
    );
}

#[test]
fn alternate_source_for_another_package_mismatches() {
    let error = install_request(&text("flake8"), Some(text("black>=24.1"))).unwrap_err();
    assert_eq!(error, InstallError::NameMismatch { from_name: text("black"), package: text("flake8") });
    assert_eq!(
        error.message(),
        "Package name `black` provided with `--from` does not match install request `flake8`"
    );
}

#[test]
fn text_that_is_no_requirement_is_refused() {
    let error = install_request(&text("not a requirement!"), None).unwrap_err();
    assert_eq!(error, InstallError::InvalidRequirement(text("not a requirement!")));
    assert_eq!(error.message(), "Failed to parse requirement `not a requirement!`");
    assert_eq!(
        install_request(&text("black"), Some(text("???"))),
        Err(InstallError::InvalidRequirement(text("???")))
    );
    assert_eq!(
        install_request(&text("???"), Some(text("black"))),
        Err(InstallError::InvalidRequirement(text("???")))
    );
}

#[test]
fn request_from_given_names() {
    assert_eq!(
        install_request_with(&text("a"), Some(text("a>1")), Some(text("a")), None),
        Ok(InstallRequest { requirement: text("a>1"), name: text("a") })
    );
    assert_eq!(
        install_request_with(&text("a>0"), Some(text("a>1")), Some(text("a")), Some(text("a"))),
        Err(InstallError::ConflictingRequest { from: text("a>1"), package: text("a>0") })
    );
    assert_eq!(
        install_request_with(&text("b"), Some(text("a>1")), Some(text("a")), Some(text("b"))),
        Err(InstallError::NameMismatch { from_name: text("a"), package: text("b") })
    );
    assert_eq!(
        install_request_with(&text("b"), None, Some(text("ignored")), Some(text("b"))),
        Ok(InstallRequest { requirement: text("b"), name: text("b") })
    );
}

#[test]
fn further_requirements_follow_the_request() {
    assert_eq!(
        collect_requirements(&text("black>=24"), &names(&["click", "rich>=13"])),
        Ok(names(&["black>=24", "click", "rich>=13"]))
    );
    assert_eq!(collect_requirements(&text("black"), &Vec::new()), Ok(names(&["black"])));
}

#[test]
fn first_invalid_further_requirement_fails_the_list() {
    assert_eq!(
        collect_requirements(&text("black"), &names(&["click", "???", "!!!"])),
        Err(InstallError::InvalidRequirement(text("???")))
    );
}

#[test]
fn new_tool_gets_its_commands() {
    for force in [false, true] {
        assert_eq!(
            decide_entry_points(false, force, &Reinstall::Nothing, &text("black")),
            EntryPoints::Install
        );
        assert_eq!(
            decide_entry_points(false, force, &Reinstall::All, &text("black")),
            EntryPoints::Install
        );
    }
}

#[test]
fn installed_tool_is_left_alone_unless_asked() {
    let name = text("black");
    assert_eq!(decide_entry_points(true, false, &Reinstall::Nothing, &name), EntryPoints::AlreadyInstalled);
    assert_eq!(decide_entry_points(true, true, &Reinstall::Nothing, &name), EntryPoints::Replace);
    assert_eq!(decide_entry_points(true, false, &Reinstall::All, &name), EntryPoints::Replace);
    assert_eq!(
        decide_entry_points(true, false, &Reinstall::Packages(names(&["click", "black"])), &name),
        EntryPoints::Replace
    );
    assert_eq!(
        decide_entry_points(true, false, &Reinstall::Packages(names(&["click"])), &name),
        EntryPoints::Keep
    );
    assert_eq!(
        decide_entry_points(true, true, &Reinstall::Packages(names(&["click"])), &name),
        EntryPoints::Replace
    );
}

#[test]
fn environment_is_kept_when_only_packages_are_reinstalled() {
    assert!(replaces_environment(&Reinstall::Nothing));
    assert!(replaces_environment(&Reinstall::All));
    assert!(!replaces_environment(&Reinstall::Packages(Vec::new())));
    assert!(!replaces_environment(&Reinstall::Packages(names(&["click"]))));
}

#[test]
fn messages_of_the_installation() {
    assert_eq!(updated_message(&text("black")), "Updated environment for tool `black`");
    assert_eq!(installed_message(&names(&["black", "blackd"])), "Installed: black, blackd");
    assert_eq!(installed_message(&names(&["ruff"])), "Installed: ruff");
    assert_eq!(installed_message(&Vec::new()), "Installed: ");
    assert_eq!(
        InstallError::AlreadyInstalled { name: text("black") }.message(),
        "Tool `black` is already installed"
    );
    assert_eq!(
        InstallError::NoEntryPoints { name: text("idna") }.message(),
        "No entry points found for tool `idna`"
    );
}

#[test]
fn message_about_existing_commands_agrees_in_number() {
    assert_eq!(
        InstallError::ExistingEntryPoints { names: names(&["black"]) }.message(),
        "Entry point for tool already exists: black (use `--force` to overwrite)"
    );
    assert_eq!(
        InstallError::ExistingEntryPoints { names: names(&["black", "blackd"]) }.message(),
        "Entry points for tool already exist: black, blackd (use `--force` to overwrite)"
    );
}
