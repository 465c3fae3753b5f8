use uv_project::source::{RequirementSource, Source, SourceError};

fn text(value: &str) -> String {
    value.to_string()
}

fn git(reference: Option<&str>) -> RequirementSource {
    RequirementSource::Git {
        locator: text("git+https://example.com/pkg.git"),
        repository: text("https://example.com/pkg.git"),
        reference: reference.map(text),
        subdirectory: None,
    }
}

#[test]
fn bare_name_comes_from_the_registry() {
    let source = RequirementSource::Registry { specifier: String::new() };
    let found = Source::from_requirement(&text("requests"), &source, false, None, None, None, None);
    assert_eq!(found, Ok(Source::Registry));
}

#[test]
fn registry_ignores_reference_flags() {
    let source = RequirementSource::Registry { specifier: text(">=2.0") };
    let found = Source::from_requirement(
        &text("requests"),
        &source,
        false,
        Some(true),
        Some(text("abc")),
        Some(text("v1")),
        None,
    );
    assert_eq!(found, Ok(Source::Registry));
}

#[test]
fn workspace_member_wins_over_everything() {
    let found = Source::from_requirement(
        &text("sibling"),
        &git(None),
        true,
        Some(false),
        Some(text("abc")),
        Some(text("v1")),
        Some(text("main")),
    );
    assert_eq!(found, Ok(Source::Workspace { member: text("sibling") }));
    let bare = RequirementSource::Registry { specifier: String::new() };
    let found = Source::from_requirement(&text("sibling"), &bare, true, None, None, None, None);
    assert_eq!(found, Ok(Source::Workspace { member: text("sibling") }));
}

#[test]
fn git_url_with_branch_flag() {
    let found =
        Source::from_requirement(&text("pkg"), &git(None), false, None, None, None, Some(text("main")));
    assert_eq!(
        found,
        Ok(Source::Git {
            url: text("https://example.com/pkg.git"),
            subdirectory: None,
            rev: None,
            tag: None,
            branch: Some(text("main")),
        })
    );
}

#[test]
fn git_url_with_tag_flag_overrides_pinned_reference() {
    let found = Source::from_requirement(
        &text("pkg"),
        &git(Some("0123abc")),
        false,
        None,
        None,
        Some(text("v1.0")),
        None,
    );
    assert_eq!(
        found,
        Ok(Source::Git {
            url: text("https://example.com/pkg.git"),
            subdirectory: None,
            rev: None,
            tag: Some(text("v1.0")),
            branch: None,
        })
    );
}

#[test]
fn git_url_with_rev_flag_keeps_subdirectory() {
    let source = RequirementSource::Git {
        locator: text("git+https://example.com/pkg.git#subdirectory=lib"),
        repository: text("https://example.com/pkg.git"),
        reference: None,
        subdirectory: Some(text("lib")),
    };
    let found =
        Source::from_requirement(&text("pkg"), &source, false, None, Some(text("0123abc")), None, None);
    assert_eq!(
        found,
        Ok(Source::Git {
            url: text("https://example.com/pkg.git"),
            subdirectory: Some(text("lib")),
            rev: Some(text("0123abc")),
            tag: None,
            branch: None,
        })
    );
}

#[test]
fn pinned_reference_is_used_as_revision() {
    let found =
        Source::from_requirement(&text("pkg"), &git(Some("0123abc")), false, None, None, None, None);
    assert_eq!(
        found,
        Ok(Source::Git {
            url: text("https://example.com/pkg.git"),
            subdirectory: None,
            rev: Some(text("0123abc")),
            tag: None,
            branch: None,
        })
    );
}

#[test]
fn git_url_without_reference_is_unresolved() {
    let found = Source::from_requirement(&text("pkg"), &git(None), false, None, None, None, None);
    assert_eq!(found, Err(SourceError::UnresolvedReference(text("git+https://example.com/pkg.git"))));
}

#[test]
fn two_reference_flags_are_refused() {
    let found = Source::from_requirement(
        &text("pkg"),
        &git(None),
        false,
        None,
        None,
        Some(text("v1")),
        Some(text("main")),
    );
    assert_eq!(found, Err(SourceError::Other(text("git+https://example.com/pkg.git"))));
    let found = Source::from_requirement(
        &text("pkg"),
        &git(Some("abc")),
        false,
        None,
        Some(text("abc")),
        Some(text("v1")),
        Some(text("main")),
    );
    assert_eq!(found, Err(SourceError::Other(text("git+https://example.com/pkg.git"))));
}

#[test]
fn directory_is_editable_by_default() {
    let source = RequirementSource::Path {
        locator: text("file:///work/lib"),
        path: text("/work/lib"),
        directory: true,
    };
    let found = Source::from_requirement(&text("lib"), &source, false, None, None, None, None);
    assert_eq!(found, Ok(Source::Path { path: text("/work/lib"), editable: true }));
    let found = Source::from_requirement(&text("lib"), &source, false, Some(false), None, None, None);
    assert_eq!(found, Ok(Source::Path { path: text("/work/lib"), editable: false }));
}

#[test]
fn archive_path_is_not_editable_by_default() {
    let source = RequirementSource::Path {
        locator: text("file:///work/lib-1.0.tar.gz"),
        path: text("/work/lib-1.0.tar.gz"),
        directory: false,
    };
    let found = Source::from_requirement(&text("lib"), &source, false, None, None, None, None);
    assert_eq!(found, Ok(Source::Path { path: text("/work/lib-1.0.tar.gz"), editable: false }));
    let found = Source::from_requirement(&text("lib"), &source, false, Some(true), None, None, None);
    assert_eq!(found, Ok(Source::Path { path: text("/work/lib-1.0.tar.gz"), editable: true }));
}

#[test]
fn direct_url_keeps_its_subdirectory() {
    let source = RequirementSource::Url {
        locator: text("https://example.com/pkg-1.0.zip#subdirectory=src"),
        url: text("https://example.com/pkg-1.0.zip"),
        subdirectory: Some(text("src")),
    };
    let found = Source::from_requirement(&text("pkg"), &source, false, None, None, None, None);
    assert_eq!(
        found,
        Ok(Source::Url { url: text("https://example.com/pkg-1.0.zip"), subdirectory: Some(text("src")) })
    );
}

#[test]
fn duplicates_are_equal() {
    let source = git(Some("abc"));
    assert_eq!(source.duplicate(), source);
    let found = Source::Git {
        url: text("u"),
        subdirectory: Some(text("s")),
        rev: Some(text("r")),
        tag: None,
        branch: None,
    };
    assert_eq!(found.duplicate(), found);
}
