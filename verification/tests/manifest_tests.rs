use uv_project::edits::{make_edit, DependencyEdit, DependencyType};
use uv_project::manifest::{
    add_member, apply_edit, enter, fields_of, record, same_fields, table_key, table_path, Field,
    ManifestError,
};
use uv_project::requirement::Requirement;
use uv_project::source::{RequirementSource, Source};

fn text(value: &str) -> String {
    value.to_string()
}

fn edit(name: &str, specifier: &str, source: Option<Source>, dependency_type: DependencyType) -> DependencyEdit {
    let requirement = Requirement {
        name: text(name),
        extras: Vec::new(),
        marker: None,
        source: RequirementSource::Registry { specifier: text(specifier) },
    };
    make_edit(requirement, source, dependency_type, &Vec::new())
}

const MANIFEST: &str = "[project]\nname = \"demo\"\ndependencies = [\"rich>=13\", \"click\"]\n";

#[test]
fn tables_of_the_dependency_types() {
    assert_eq!(table_path(&DependencyType::Production), vec![text("project")]);
    assert_eq!(table_key(&DependencyType::Production), "dependencies");
    assert_eq!(table_path(&DependencyType::Dev), vec![text("tool"), text("uv")]);
    assert_eq!(table_key(&DependencyType::Dev), "dev-dependencies");
    let docs = DependencyType::Optional(text("docs"));
    assert_eq!(table_path(&docs), vec![text("project"), text("optional-dependencies")]);
    assert_eq!(table_key(&docs), "docs");
}

#[test]
fn new_package_is_appended() {
    let result = enter(&text(MANIFEST), &edit("idna", "", None, DependencyType::Production));
    assert_eq!(
        result,
        Ok(text("[project]\nname = \"demo\"\ndependencies = [\"rich>=13\", \"click\", \"idna\"]\n"))
    );
}

#[test]
fn entry_of_the_package_is_replaced() {
    let result = enter(&text(MANIFEST), &edit("rich", ">=14", None, DependencyType::Production));
    assert_eq!(
        result,
        Ok(text("[project]\nname = \"demo\"\ndependencies = [\"rich>=14\", \"click\"]\n"))
    );
}

#[test]
fn entry_that_reads_the_same_leaves_the_text() {
    let spaced = "[project]\ndependencies = [\n    \"rich>=13\",   # pinned\n    \"click\",\n]\n";
    let result = enter(&text(spaced), &edit("rich", ">=13", None, DependencyType::Production));
    assert_eq!(result, Ok(text(spaced)));
}

#[test]
fn package_that_is_named_twice_is_refused() {
    let twice = "[project]\ndependencies = [\"rich>=13\", \"rich<12\"]\n";
    let result = apply_edit(&text(twice), &edit("rich", "", None, DependencyType::Production));
    assert_eq!(result, Err(ManifestError::Ambiguous(text("rich"))));
    assert_eq!(
        ManifestError::Ambiguous(text("rich")).message(),
        "Cannot perform ambiguous update; found multiple entries for `rich`"
    );
    assert_eq!(ManifestError::Malformed.message(), "Failed to parse `pyproject.toml`");
}

#[test]
fn missing_tables_are_created() {
    let result = enter(&String::new(), &edit("idna", "", None, DependencyType::Optional(text("net")))).unwrap();
    let again = enter(&result, &edit("idna", "", None, DependencyType::Optional(text("net"))));
    assert_eq!(again, Ok(result.clone()));
    let more = enter(&result, &edit("rich", "", None, DependencyType::Optional(text("net")))).unwrap();
    assert!(more.contains("net = [\"idna\", \"rich\"]"), "{more}");
    let development = enter(&String::new(), &edit("pytest", "", None, DependencyType::Dev)).unwrap();
    assert!(development.contains("dev-dependencies = [\"pytest\"]"), "{development}");
}

#[test]
fn text_that_is_no_manifest_is_refused() {
    let odd = text("this is = no manifest [[");
    assert_eq!(enter(&odd, &edit("idna", "", None, DependencyType::Production)), Err(ManifestError::Malformed));
    let taken = text("project = 1\n");
    assert_eq!(enter(&taken, &edit("idna", "", None, DependencyType::Production)), Err(ManifestError::Malformed));
    let numbers = text("[project]\ndependencies = [1, 2]\n");
    assert_eq!(
        enter(&numbers, &edit("idna", "", None, DependencyType::Production)),
        Err(ManifestError::Malformed)
    );
}

#[test]
fn fields_of_each_source() {
    assert_eq!(fields_of(&Source::Registry), None);
    assert_eq!(
        fields_of(&Source::Git {
            url: text("https://example.com/pkg.git"),
            subdirectory: Some(text("lib")),
            rev: None,
            tag: None,
            branch: Some(text("main")),
        }),
        Some(vec![
            (text("git"), Field::Text(text("https://example.com/pkg.git"))),
            (text("subdirectory"), Field::Text(text("lib"))),
            (text("branch"), Field::Text(text("main"))),
        ])
    );
    assert_eq!(
        fields_of(&Source::Path { path: text("../lib"), editable: true }),
        Some(vec![(text("path"), Field::Text(text("../lib"))), (text("editable"), Field::Flag(true))])
    );
    assert_eq!(
        fields_of(&Source::Path { path: text("../lib"), editable: false }),
        Some(vec![(text("path"), Field::Text(text("../lib")))])
    );
    assert_eq!(
        fields_of(&Source::Workspace { member: text("sibling") }),
        Some(vec![(text("workspace"), Field::Flag(true))])
    );
    assert_eq!(
        fields_of(&Source::Url { url: text("https://example.com/a.zip"), subdirectory: None }),
        Some(vec![(text("url"), Field::Text(text("https://example.com/a.zip")))])
    );
}

#[test]
fn fields_are_compared_in_order() {
    let one = vec![(text("git"), Field::Text(text("u"))), (text("rev"), Field::Text(text("r")))];
    let swapped = vec![(text("rev"), Field::Text(text("r"))), (text("git"), Field::Text(text("u")))];
    assert!(same_fields(&one, &one.clone()));
    assert!(!same_fields(&one, &swapped));
    assert!(!same_fields(&one, &one[..1].to_vec()));
    assert!(!same_fields(&vec![(text("a"), Field::Flag(true))], &vec![(text("a"), Field::Flag(false))]));
    assert!(!same_fields(&vec![(text("a"), Field::Flag(true))], &vec![(text("a"), Field::Other)]));
    assert!(same_fields(&Vec::new(), &Vec::new()));
}

#[test]
fn source_is_recorded_beside_the_entry() {
    let source = Source::Git {
        url: text("https://example.com/pkg.git"),
        subdirectory: None,
        rev: None,
        tag: None,
        branch: Some(text("main")),
    };
    let edit = edit("pkg", "", Some(source), DependencyType::Production);
    let result = apply_edit(&text(MANIFEST), &edit).unwrap();
    assert!(result.starts_with("[project]\nname = \"demo\"\ndependencies = [\"rich>=13\", \"click\", \"pkg\"]\n"), "{result}");
    assert!(result.contains("pkg = { git = \"https://example.com/pkg.git\", branch = \"main\" }"), "{result}");
    assert_eq!(apply_edit(&result, &edit), Ok(result.clone()));
    assert_eq!(record(&result, &edit), Ok(result.clone()));
}

#[test]
fn registry_source_records_nothing() {
    let edit = edit("rich", ">=13", Some(Source::Registry), DependencyType::Production);
    assert_eq!(record(&text(MANIFEST), &edit), Ok(text(MANIFEST)));
    assert_eq!(apply_edit(&text(MANIFEST), &edit), Ok(text(MANIFEST)));
}

#[test]
fn source_that_differs_is_written_anew() {
    let manifest = "[tool.uv.sources]\npkg = { path = \"../old\" }\n";
    let edit = edit("pkg", "", Some(Source::Path { path: text("../new"), editable: false }), DependencyType::Production);
    let result = record(&text(manifest), &edit).unwrap();
    assert!(result.contains("pkg = { path = \"../new\" }"), "{result}");
    assert!(!result.contains("../old"));
}

#[test]
fn member_is_appended_to_the_workspace() {
    let workspace = "[tool.uv.workspace]\nmembers = [\"packages/a\"]\n";
    assert_eq!(
        add_member(&text(workspace), &text("packages/b")),
        Ok(text("[tool.uv.workspace]\nmembers = [\"packages/a\", \"packages/b\"]\n"))
    );
    let fresh = add_member(&text("[project]\nname = \"root\"\n"), &text("lib")).unwrap();
    assert!(fresh.contains("members = [\"lib\"]"), "{fresh}");
    assert_eq!(add_member(&text("not [ a manifest"), &text("lib")), Err(ManifestError::Malformed));
}
