use uv_project::markers::{
    extras_in, extras_of_clauses, extras_of_marker, marker_left, without_extras, MarkerAtom,
};

fn text(value: &str) -> String {
    value.to_string()
}

#[test]
fn extras_of_given_clauses() {
    let clauses = vec![
        vec![MarkerAtom::Text, MarkerAtom::Extra(text("foo"))],
        vec![],
        vec![MarkerAtom::Extra(text("bar")), MarkerAtom::Version, MarkerAtom::Extra(text("foo"))],
        vec![MarkerAtom::ArbitraryExtra(text("Not An Extra")), MarkerAtom::VersionIn],
    ];
    assert_eq!(extras_in(&clauses), vec![text("foo"), text("bar"), text("foo")]);
    assert!(extras_in(&Vec::new()).is_empty());
}

#[test]
fn extras_of_a_marker() {
    assert_eq!(
        extras_of_marker(&Some(text("sys_platform == 'linux' and extra == 'foo'"))),
        vec![text("foo")]
    );
    assert_eq!(extras_of_marker(&Some(text("extra == 'Foo_Bar'"))), vec![text("foo-bar")]);
    assert!(extras_of_marker(&Some(text("sys_platform == 'linux'"))).is_empty());
    assert!(extras_of_marker(&None).is_empty());
    assert!(extras_of_marker(&Some(text("this is no marker"))).is_empty());
}

#[test]
fn extras_of_alternatives() {
    let mut extras = extras_of_marker(&Some(text("extra == 'a' or extra == 'b'")));
    extras.sort();
    extras.dedup();
    assert_eq!(extras, vec![text("a"), text("b")]);
}

#[test]
fn marker_keeps_its_other_conditions() {
    assert_eq!(
        without_extras(
            Some(text("sys_platform == 'linux' and extra == 'foo'")),
            &vec![text("foo")]
        ),
        Some(text("sys_platform == 'linux'"))
    );
}

#[test]
fn marker_of_an_extra_alone_vanishes() {
    assert_eq!(without_extras(Some(text("extra == 'foo'")), &vec![text("foo")]), None);
}

#[test]
fn extras_that_are_not_given_stay() {
    assert_eq!(
        without_extras(Some(text("extra == 'foo'")), &vec![text("bar")]),
        Some(text("extra == 'foo'"))
    );
    assert_eq!(
        without_extras(Some(text("extra == 'foo'")), &Vec::new()),
        Some(text("extra == 'foo'"))
    );
}

#[test]
fn what_is_no_marker_stays_as_it_is() {
    assert_eq!(
        without_extras(Some(text("this is no marker")), &vec![text("foo")]),
        Some(text("this is no marker"))
    );
    assert_eq!(without_extras(None, &vec![text("foo")]), None);
}

#[test]
fn invalid_extra_name_leaves_the_marker() {
    assert_eq!(
        without_extras(Some(text("extra == 'foo'")), &vec![text("not valid!")]),
        Some(text("extra == 'foo'"))
    );
}

#[test]
fn marker_with_a_number_that_may_not_fit_is_left_alone() {
    let marker = text("python_version > '3.18446744073709551615' and extra == 'x'");
    assert!(extras_of_marker(&Some(marker.clone())).is_empty());
    assert_eq!(without_extras(Some(marker.clone()), &vec![text("x")]), Some(marker));
}

#[test]
fn marker_from_what_is_left() {
    assert_eq!(marker_left(Some(text("m")), None), Some(text("m")));
    assert_eq!(marker_left(Some(text("m")), Some(None)), None);
    assert_eq!(marker_left(Some(text("m")), Some(Some(text("n")))), Some(text("n")));
    assert_eq!(marker_left(None, None), None);
}

#[test]
fn extras_of_clauses_that_may_be_missing() {
    assert!(extras_of_clauses(&None).is_empty());
    assert_eq!(
        extras_of_clauses(&Some(vec![vec![MarkerAtom::Extra(text("a"))]])),
        vec![text("a")]
    );
}

#[test]
fn marker_with_a_quoted_string_before_a_compatible_operator_is_left_alone() {
    let marker = text("'linux' ~= sys_platform and extra == 'x'");
    assert!(extras_of_marker(&Some(marker.clone())).is_empty());
    assert_eq!(without_extras(Some(marker.clone()), &vec![text("x")]), Some(marker));
}
