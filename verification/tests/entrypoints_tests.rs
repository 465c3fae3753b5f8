use uv_project::entrypoints::{
    clear_entry_points, entry_point_names, entry_point_targets, EntryPoint, TargetEntryPoint,
};
use uv_project::tool::InstallError;

fn text(value: &str) -> String {
    value.to_string()
}

fn entry(name: &str, source: &str, file_name: Option<&str>) -> EntryPoint {
    EntryPoint { name: text(name), source: text(source), file_name: file_name.map(text) }
}

fn target(name: &str, source: &str, target: &str, file_name: &str) -> TargetEntryPoint {
    TargetEntryPoint {
        name: text(name),
        source: text(source),
        target: text(target),
        file_name: text(file_name),
    }
}

fn black() -> Vec<TargetEntryPoint> {
    vec![
        target("black", "/env/bin/black", "/home/u/.local/bin/black", "black"),
        target("blackd", "/env/bin/blackd", "/home/u/.local/bin/blackd", "blackd"),
    ]
}

#[test]
fn targets_are_sorted_by_name() {
    let entries = vec![
        entry("blackd", "/env/bin/blackd", Some("blackd")),
        entry("black", "/env/bin/black", Some("black")),
    ];
    assert_eq!(entry_point_targets(&entries, &text("/home/u/.local/bin")), black());
}

#[test]
fn target_without_file_name_takes_the_command_name() {
    let entries = vec![entry("tool", "/", None)];
    assert_eq!(
        entry_point_targets(&entries, &text("/bin")),
        vec![target("tool", "/", "/bin/tool", "tool")]
    );
}

#[test]
fn target_takes_the_file_name_of_its_source() {
    let entries = vec![entry("tool", "/env/Scripts/tool.exe", Some("tool.exe"))];
    assert_eq!(
        entry_point_targets(&entries, &text("/bin")),
        vec![target("tool", "/env/Scripts/tool.exe", "/bin/tool.exe", "tool.exe")]
    );
}

#[test]
fn repeated_commands_are_listed_once() {
    let entries = vec![
        entry("b", "/env/bin/b", Some("b")),
        entry("a", "/env/bin/a", Some("a")),
        entry("b", "/env/bin/b", Some("b")),
    ];
    assert_eq!(
        entry_point_targets(&entries, &text("/bin")),
        vec![target("a", "/env/bin/a", "/bin/a", "a"), target("b", "/env/bin/b", "/bin/b", "b")]
    );
}

#[test]
fn same_name_is_ordered_by_source() {
    let entries = vec![entry("a", "/env/z/a", Some("a2")), entry("a", "/env/b/a", Some("a1"))];
    assert_eq!(
        entry_point_targets(&entries, &text("/bin")),
        vec![target("a", "/env/b/a", "/bin/a1", "a1"), target("a", "/env/z/a", "/bin/a2", "a2")]
    );
}

#[test]
fn no_commands_no_targets() {
    assert!(entry_point_targets(&Vec::new(), &text("/bin")).is_empty());
}

#[test]
fn order_of_targets() {
    let a = target("a", "s", "t", "t");
    let b = target("b", "a", "a", "a");
    assert!(a.less(&b));
    assert!(!b.less(&a));
    assert!(!a.less(&a));
    assert!(target("a", "r", "z", "z").less(&a));
    assert!(target("a", "s", "s", "s").less(&a));
    assert!(!target("a", "s", "t", "other").less(&a));
    assert_eq!(a.duplicate(), a);
}

#[test]
fn tool_without_commands_is_refused() {
    let result = clear_entry_points(&text("idna"), &Vec::new(), &Vec::new(), true);
    assert_eq!(result, Err(InstallError::NoEntryPoints { name: text("idna") }));
}

#[test]
fn free_places_need_no_clearing() {
    assert_eq!(clear_entry_points(&text("black"), &black(), &vec![false, false], false), Ok(vec![]));
    assert_eq!(clear_entry_points(&text("black"), &black(), &vec![false, false], true), Ok(vec![]));
    assert_eq!(clear_entry_points(&text("black"), &black(), &Vec::new(), false), Ok(vec![]));
}

#[test]
fn taken_places_are_cleared_where_allowed() {
    assert_eq!(
        clear_entry_points(&text("black"), &black(), &vec![true, true], true),
        Ok(vec![text("/home/u/.local/bin/black"), text("/home/u/.local/bin/blackd")])
    );
    assert_eq!(
        clear_entry_points(&text("black"), &black(), &vec![false, true], true),
        Ok(vec![text("/home/u/.local/bin/blackd")])
    );
}

#[test]
fn taken_places_refuse_the_installation_otherwise() {
    let error = clear_entry_points(&text("black"), &black(), &vec![false, true], false).unwrap_err();
    assert_eq!(error, InstallError::ExistingEntryPoints { names: vec![text("blackd")] });
    assert_eq!(
        error.message(),
        "Entry point for tool already exists: blackd (use `--force` to overwrite)"
    );
    let error = clear_entry_points(&text("black"), &black(), &vec![true, true], false).unwrap_err();
    assert_eq!(
        error.message(),
        "Entry points for tool already exist: black, blackd (use `--force` to overwrite)"
    );
}

#[test]
fn names_of_the_commands() {
    assert_eq!(entry_point_names(&black()), vec![text("black"), text("blackd")]);
    assert!(entry_point_names(&Vec::new()).is_empty());
}
