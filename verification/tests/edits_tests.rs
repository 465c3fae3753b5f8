use uv_project::edits::{
    copy_opt_source, make_edit, place_entry, DependencyEdit, DependencyType, EditAccumulator,
    Placement,
};
use uv_project::manifest::ManifestError;
use uv_project::requirement::Requirement;
use uv_project::source::{RequirementSource, Source};

fn text(value: &str) -> String {
    value.to_string()
}

fn registry(name: &str) -> Requirement {
    Requirement {
        name: text(name),
        extras: Vec::new(),
        marker: None,
        source: RequirementSource::Registry { specifier: String::new() },
    }
}

const MANIFEST: &str = "[project]\nname = \"demo\"  # keep me\ndependencies = []\n";

#[test]
fn rendering_without_edits_gives_back_the_loaded_text() {
    let accumulator = EditAccumulator::new(text(MANIFEST));
    assert_eq!(accumulator.len(), 0);
    let content = accumulator.render().unwrap();
    assert_eq!(content, MANIFEST);
    assert!(!accumulator.is_modified(&content));
    let odd = "this is = no manifest [[";
    assert_eq!(EditAccumulator::new(text(odd)).render(), Ok(text(odd)));
}

#[test]
fn rendering_with_edits_applies_them_in_order() {
    let mut accumulator = EditAccumulator::new(text(MANIFEST));
    accumulator.add_dependency(
        registry("rich"),
        Some(Source::Registry),
        DependencyType::Production,
        &Vec::new(),
    );
    accumulator.add_dependency(
        registry("click"),
        Some(Source::Registry),
        DependencyType::Production,
        &Vec::new(),
    );
    let content = accumulator.render().unwrap();
    assert_eq!(
        content,
        "[project]\nname = \"demo\"  # keep me\ndependencies = [\"rich\", \"click\"]\n"
    );
    assert!(accumulator.is_modified(&content));
}

#[test]
fn second_run_over_the_rendered_text_changes_nothing() {
    let edits = vec![
        make_edit(registry("rich"), Some(Source::Registry), DependencyType::Production, &Vec::new()),
        make_edit(
            registry("pkg"),
            Some(Source::Git {
                url: text("https://example.com/pkg.git"),
                subdirectory: None,
                rev: None,
                tag: Some(text("v1")),
                branch: None,
            }),
            DependencyType::Optional(text("extra")),
            &Vec::new(),
        ),
        make_edit(
            registry("lib"),
            Some(Source::Path { path: text("../lib"), editable: true }),
            DependencyType::Dev,
            &Vec::new(),
        ),
    ];
    let mut first = EditAccumulator::new(text(MANIFEST));
    first.extend(edits.clone());
    let rendered = first.render().unwrap();
    assert!(first.is_modified(&rendered));
    let mut second = EditAccumulator::new(rendered.clone());
    second.extend(edits);
    let again = second.render().unwrap();
    assert_eq!(again, rendered);
    assert!(!second.is_modified(&again));
}

#[test]
fn rendering_fails_on_what_is_no_manifest() {
    let mut accumulator = EditAccumulator::new(text("this is = no manifest [["));
    accumulator.add_dependency(registry("rich"), None, DependencyType::Production, &Vec::new());
    assert_eq!(accumulator.render(), Err(ManifestError::Malformed));
}

#[test]
fn modification_is_decided_character_by_character() {
    let accumulator = EditAccumulator::new(text("a = 1\n"));
    assert!(accumulator.is_modified(&text("a = 1")));
    assert!(accumulator.is_modified(&text("a = 1\n ")));
    assert!(accumulator.is_modified(&text("a  = 1\n")));
    assert!(!accumulator.is_modified(&text("a = 1\n")));
}

#[test]
fn add_dependency_returns_and_keeps_the_edit() {
    let mut accumulator = EditAccumulator::new(String::new());
    let extras = vec![text("socks"), text("brotli")];
    let edit = accumulator.add_dependency(
        registry("requests"),
        Some(Source::Registry),
        DependencyType::Optional(text("net")),
        &extras,
    );
    assert_eq!(edit.entry, "requests[brotli,socks]");
    assert_eq!(edit.requirement.extras, vec![text("brotli"), text("socks")]);
    assert_eq!(accumulator.len(), 1);
    assert_eq!(accumulator.get(0), Some(edit));
    assert_eq!(accumulator.get(1), None);
}

#[test]
fn edits_stay_in_the_order_of_their_collection() {
    let mut accumulator = EditAccumulator::new(String::new());
    let first = make_edit(registry("b"), None, DependencyType::Production, &Vec::new());
    let second = make_edit(registry("a"), None, DependencyType::Dev, &Vec::new());
    let third = make_edit(registry("c"), None, DependencyType::Production, &Vec::new());
    accumulator.push(first.clone());
    accumulator.extend(vec![second.clone(), third.clone()]);
    assert_eq!(accumulator.len(), 3);
    assert_eq!(accumulator.get(0), Some(first));
    assert_eq!(accumulator.get(1), Some(second));
    assert_eq!(accumulator.get(2), Some(third));
}

#[test]
fn tables_are_listed_once_in_order_of_first_use() {
    let mut accumulator = EditAccumulator::new(String::new());
    assert!(accumulator.tables().is_empty());
    for (name, dependency_type) in [
        ("a", DependencyType::Optional(text("docs"))),
        ("b", DependencyType::Production),
        ("c", DependencyType::Optional(text("docs"))),
        ("d", DependencyType::Optional(text("tests"))),
        ("e", DependencyType::Dev),
        ("f", DependencyType::Production),
    ] {
        accumulator.add_dependency(registry(name), None, dependency_type, &Vec::new());
    }
    assert_eq!(
        accumulator.tables(),
        vec![
            DependencyType::Optional(text("docs")),
            DependencyType::Production,
            DependencyType::Optional(text("tests")),
            DependencyType::Dev,
        ]
    );
}

#[test]
fn names_of_the_tables() {
    assert_eq!(DependencyType::Production.table(), "project.dependencies");
    assert_eq!(DependencyType::Dev.table(), "tool.uv.dev-dependencies");
    assert_eq!(DependencyType::Optional(text("docs")).table(), "project.optional-dependencies.docs");
}

#[test]
fn same_table_compares_kind_and_group() {
    let docs = DependencyType::Optional(text("docs"));
    assert!(docs.same_table(&DependencyType::Optional(text("docs"))));
    assert!(!docs.same_table(&DependencyType::Optional(text("tests"))));
    assert!(!docs.same_table(&DependencyType::Production));
    assert!(DependencyType::Dev.same_table(&DependencyType::Dev));
    assert!(!DependencyType::Dev.same_table(&DependencyType::Production));
    assert!(DependencyType::Production.same_table(&DependencyType::Production));
}

#[test]
fn copies_of_edits_are_equal() {
    let source = Some(Source::Path { path: text("/work/lib"), editable: true });
    assert_eq!(copy_opt_source(&source), source);
    assert_eq!(copy_opt_source(&None), None);
    let edit: DependencyEdit =
        make_edit(registry("lib"), source, DependencyType::Optional(text("x")), &vec![text("e")]);
    assert_eq!(edit.duplicate(), edit);
    assert_eq!(edit.dependency_type.duplicate(), edit.dependency_type);
    assert_eq!(edit.entry, "lib[e]");
}

#[test]
fn entry_of_the_same_package_is_replaced() {
    let entries = vec![text("rich>=13"), text("Requests[socks]>=2 ; python_version > '3.8'"), text("click")];
    assert_eq!(place_entry(&entries, &text("requests")), Placement::Replace(1));
    assert_eq!(place_entry(&entries, &text("rich")), Placement::Replace(0));
    assert_eq!(place_entry(&entries, &text("click")), Placement::Replace(2));
    assert_eq!(place_entry(&entries, &text("idna")), Placement::Append);
    assert_eq!(place_entry(&Vec::new(), &text("idna")), Placement::Append);
}

#[test]
fn package_that_is_named_twice_is_ambiguous() {
    let entries = vec![
        text("rich>=13 ; sys_platform == 'linux'"),
        text("??? not a requirement"),
        text("rich<13 ; sys_platform != 'linux'"),
        text("rich"),
    ];
    assert_eq!(place_entry(&entries, &text("rich")), Placement::Ambiguous);
    assert_eq!(place_entry(&entries, &text("???")), Placement::Append);
}
