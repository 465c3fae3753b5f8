use uv_project::requirement::{copy_texts, merge_extras, read_requirement_name, Requirement};
use uv_project::source::RequirementSource;
use uv_project::text::{holds_char, holds_long_number, insert_sorted, text_less};

fn names(values: &[&str]) -> Vec<String> {
    values.iter().map(|value| value.to_string()).collect()
}

fn requests(extras: &[&str], specifier: &str, marker: Option<&str>) -> Requirement {
    Requirement {
        name: "requests".to_string(),
        extras: names(extras),
        marker: marker.map(|text| text.to_string()),
        source: RequirementSource::Registry { specifier: specifier.to_string() },
    }
}

#[test]
fn text_order_is_lexicographic() {
    assert!(text_less("a", "b"));
    assert!(!text_less("b", "a"));
    assert!(!text_less("a", "a"));
    assert!(text_less("", "a"));
    assert!(!text_less("a", ""));
    assert!(!text_less("", ""));
    assert!(text_less("ab", "abc"));
    assert!(!text_less("abc", "ab"));
    assert!(text_less("abc", "abd"));
    assert!(text_less("Z", "a"));
    assert!(text_less("dev-tools", "dev_tools"));
}

#[test]
fn text_order_agrees_with_str_order() {
    let samples = ["", "a", "ab", "abc", "b", "socks", "security", "é", "z", "日本", "Z"];
    for a in samples {
        for b in samples {
            assert_eq!(text_less(a, b), a < b, "{a:?} < {b:?}");
        }
    }
}

#[test]
fn insert_sorted_keeps_order_and_skips_duplicates() {
    let mut items: Vec<String> = Vec::new();
    insert_sorted(&mut items, "socks".to_string());
    insert_sorted(&mut items, "security".to_string());
    insert_sorted(&mut items, "tests".to_string());
    insert_sorted(&mut items, "security".to_string());
    insert_sorted(&mut items, "a".to_string());
    assert_eq!(items, names(&["a", "security", "socks", "tests"]));
}

#[test]
fn merged_extras_are_sorted_and_unique() {
    let merged = merge_extras(&names(&["socks", "security"]), &names(&["tests", "socks"]));
    assert_eq!(merged, names(&["security", "socks", "tests"]));
}

#[test]
fn extra_flag_that_is_named_already_is_not_repeated() {
    let requirement = requests(&["foo"], "", None);
    let merged = requirement.with_extras(&names(&["foo"]));
    assert_eq!(merged.extras, names(&["foo"]));
    assert_eq!(merged.entry(false), "requests[foo]");
}

#[test]
fn merging_nothing_sorts_and_dedups_what_is_there() {
    let merged = merge_extras(&names(&["b", "a", "b"]), &names(&[]));
    assert_eq!(merged, names(&["a", "b"]));
    let merged = merge_extras(&names(&[]), &names(&[]));
    assert_eq!(merged, names(&[]));
}

#[test]
fn with_extras_changes_only_the_extras() {
    let requirement = requests(&["socks"], ">=2.0", Some("python_version >= '3.8'"));
    let merged = requirement.clone().with_extras(&names(&["security"]));
    assert_eq!(merged.name, requirement.name);
    assert_eq!(merged.marker, requirement.marker);
    assert_eq!(merged.source, requirement.source);
    assert_eq!(merged.extras, names(&["security", "socks"]));
}

#[test]
fn entry_of_a_bare_name() {
    assert_eq!(requests(&[], "", None).entry(false), "requests");
    assert_eq!(requests(&[], "", None).entry(true), "requests");
}

#[test]
fn entry_with_extras_specifier_and_marker() {
    let requirement = requests(&["security", "socks"], ">=2.8.1,<3", Some("python_version > '3.8'"));
    assert_eq!(
        requirement.entry(false),
        "requests[security,socks]>=2.8.1,<3 ; python_version > '3.8'"
    );
}

#[test]
fn entry_with_one_extra() {
    assert_eq!(requests(&["socks"], "", None).entry(false), "requests[socks]");
}

#[test]
fn entry_keeps_or_strips_the_locator() {
    let requirement = Requirement {
        name: "pkg".to_string(),
        extras: names(&[]),
        marker: Some("sys_platform == 'linux'".to_string()),
        source: RequirementSource::Git {
            locator: "git+https://example.com/pkg.git".to_string(),
            repository: "https://example.com/pkg.git".to_string(),
            reference: None,
            subdirectory: None,
        },
    };
    assert_eq!(requirement.entry(false), "pkg ; sys_platform == 'linux'");
    assert_eq!(
        requirement.entry(true),
        "pkg @ git+https://example.com/pkg.git ; sys_platform == 'linux'"
    );
}

#[test]
fn entry_of_path_and_url_sources() {
    let path = Requirement {
        name: "lib".to_string(),
        extras: names(&["x"]),
        marker: None,
        source: RequirementSource::Path {
            locator: "file:///work/lib".to_string(),
            path: "/work/lib".to_string(),
            directory: true,
        },
    };
    assert_eq!(path.entry(true), "lib[x] @ file:///work/lib");
    assert_eq!(path.entry(false), "lib[x]");
    let url = Requirement {
        name: "pkg".to_string(),
        extras: names(&[]),
        marker: None,
        source: RequirementSource::Url {
            locator: "https://example.com/pkg-1.0.zip".to_string(),
            url: "https://example.com/pkg-1.0.zip".to_string(),
            subdirectory: None,
        },
    };
    assert_eq!(url.entry(true), "pkg @ https://example.com/pkg-1.0.zip");
    assert_eq!(url.entry(false), "pkg");
}

#[test]
fn copies_hold_the_same_texts() {
    let items = names(&["b", "a", "", "b"]);
    assert_eq!(copy_texts(&items), items);
    let requirement = requests(&["socks"], ">=2.0", Some("python_version >= '3.8'"));
    assert_eq!(requirement.duplicate(), requirement);
}

#[test]
fn name_of_a_requirement_is_read_in_normal_form() {
    assert_eq!(read_requirement_name("requests"), Some("requests".to_string()));
    assert_eq!(
        read_requirement_name("Flask_SQLAlchemy[x]>=3 ; python_version > '3.8'"),
        Some("flask-sqlalchemy".to_string())
    );
    assert_eq!(
        read_requirement_name("pkg @ https://example.com/pkg-1.0.zip"),
        Some("pkg".to_string())
    );
    assert_eq!(read_requirement_name("7zip"), Some("7zip".to_string()));
}

#[test]
fn text_that_is_no_requirement_has_no_name() {
    assert_eq!(read_requirement_name(""), None);
    assert_eq!(read_requirement_name("-e ."), None);
    assert_eq!(read_requirement_name("./local/path"), None);
    assert_eq!(read_requirement_name("${HOME}/pkg"), None);
    assert_eq!(read_requirement_name("éclair"), None);
    assert_eq!(read_requirement_name("requests >="), None);
    assert_eq!(read_requirement_name("requests[unclosed"), None);
}

#[test]
fn white_space_before_a_requirement_is_skipped() {
    assert_eq!(read_requirement_name("  requests >= 2"), Some("requests".to_string()));
    assert_eq!(read_requirement_name("\trequests"), Some("requests".to_string()));
}

#[test]
fn text_that_the_parser_is_not_asked_about_has_no_name() {
    assert_eq!(read_requirement_name("a${PROJECT_ROOT}"), None);
    assert_eq!(read_requirement_name("pkg @ https://example.com/${NAME}.zip"), None);
    assert_eq!(
        read_requirement_name("pkg ; python_version > '3.18446744073709551615'"),
        None
    );
    assert_eq!(read_requirement_name("pkg==1234567890123456789"), None);
    assert_eq!(
        read_requirement_name("pkg==123456789012345678"),
        Some("pkg".to_string())
    );
}

#[test]
fn long_numbers_are_found() {
    assert!(!holds_long_number(""));
    assert!(!holds_long_number("123456789012345678"));
    assert!(holds_long_number("1234567890123456789"));
    assert!(holds_long_number("x 00000000000000000001 y"));
    assert!(!holds_long_number("123456789.123456789.123456789"));
    assert!(holds_char("a$b", '$'));
    assert!(!holds_char("ab", '$'));
    assert!(!holds_char("", '$'));
}

#[test]
fn name_or_extra_that_ends_in_punctuation_is_no_requirement() {
    for text in ["foo- ", "foo-[x]", "foo_>=1", "foo[bar-]", "foo[bar-", "foo.", "foo[a, b_ ]", "foo-;x"] {
        assert_eq!(read_requirement_name(text), None, "{text}");
    }
    assert_eq!(read_requirement_name("foo-bar[a-b]==1.*"), Some("foo-bar".to_string()));
    assert_eq!(read_requirement_name("foo ; extra == 'x-'"), Some("foo".to_string()));
    assert_eq!(read_requirement_name("foo==1.- "), None);
}

#[test]
fn quoted_string_before_a_compatible_operator_is_no_requirement() {
    assert_eq!(read_requirement_name("pkg ; 'linux' ~= sys_platform"), None);
    assert_eq!(read_requirement_name("pkg ; \"linux\"   ~= sys_platform"), None);
    assert_eq!(read_requirement_name("pkg~=1.4"), Some("pkg".to_string()));
    assert_eq!(
        read_requirement_name("pkg ; python_version ~= '3.8'"),
        Some("pkg".to_string())
    );
}

#[test]
fn dollar_without_a_brace_is_read() {
    assert_eq!(
        read_requirement_name("pkg @ https://example.com/a$b.zip"),
        Some("pkg".to_string())
    );
}
