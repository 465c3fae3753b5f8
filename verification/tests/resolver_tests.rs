use uv_project::requirement::Requirement;
use uv_project::resolver::{
    fingerprint, Metadata, ResolutionBatch, ResolutionError, Resolved, Unresolved,
};
use uv_project::source::RequirementSource;

fn text(value: &str) -> String {
    value.to_string()
}

fn named(name: &str) -> Unresolved {
    Unresolved::Named(Requirement {
        name: text(name),
        extras: Vec::new(),
        marker: None,
        source: RequirementSource::Registry { specifier: text(">=1") },
    })
}

fn path(path: &str) -> RequirementSource {
    RequirementSource::Path { locator: format!("file://{path}"), path: text(path), directory: true }
}

fn unnamed(at: &str) -> Unresolved {
    Unresolved::Unnamed { source: path(at), extras: vec![text("x")], marker: Some(text("m")) }
}

fn metadata(name: &str, version: &str) -> Result<Metadata, String> {
    Ok(Metadata { name: text(name), version: text(version) })
}

fn resolved_path(name: &str, at: &str, version: &str) -> Resolved {
    Resolved {
        requirement: Requirement {
            name: text(name),
            extras: vec![text("x")],
            marker: Some(text("m")),
            source: path(at),
        },
        version: Some(text(version)),
    }
}

fn inputs() -> Vec<Unresolved> {
    vec![unnamed("/a"), named("rich"), unnamed("/b"), unnamed("/c")]
}

fn expected() -> Vec<Resolved> {
    let rich = match named("rich") {
        Unresolved::Named(requirement) => Resolved { requirement, version: None },
        Unresolved::Unnamed { .. } => unreachable!(),
    };
    vec![
        resolved_path("alpha", "/a", "1.0"),
        rich,
        resolved_path("beta", "/b", "2.0"),
        resolved_path("gamma", "/c", "3.0"),
    ]
}

#[test]
fn named_registry_requirements_pass_through() {
    let batch = ResolutionBatch::new(vec![named("rich"), named("click")]);
    assert_eq!(batch.len(), 2);
    assert_eq!(batch.pending(0), None);
    assert_eq!(batch.pending(1), None);
    let results = batch.finish().unwrap();
    assert_eq!(results.len(), 2);
    assert_eq!(results[0].requirement.name, "rich");
    assert_eq!(results[0].version, None);
    assert_eq!(results[1].requirement.name, "click");
}

#[test]
fn empty_batch_ends_empty() {
    let batch = ResolutionBatch::new(Vec::new());
    assert_eq!(batch.finish(), Ok(Vec::new()));
}

#[test]
fn results_keep_the_order_of_the_requirements() {
    let completions = [(0, metadata("alpha", "1.0")), (2, metadata("beta", "2.0")), (3, metadata("gamma", "3.0"))];
    let orders: [[usize; 3]; 6] = [[0, 1, 2], [0, 2, 1], [1, 0, 2], [1, 2, 0], [2, 0, 1], [2, 1, 0]];
    for order in orders {
        let mut batch = ResolutionBatch::new(inputs());
        for at in order {
            let (index, outcome) = completions[at].clone();
            batch.complete(index, outcome);
        }
        let results = batch.finish().unwrap();
        assert_eq!(results.len(), inputs().len());
        assert_eq!(results, expected());
    }
}

#[test]
fn unnamed_requirement_waits_for_its_metadata() {
    let mut batch = ResolutionBatch::new(inputs());
    assert_eq!(batch.pending(0), Some(text("/a")));
    assert_eq!(batch.pending(1), None);
    assert_eq!(batch.pending(2), Some(text("/b")));
    assert_eq!(batch.pending(9), None);
    assert_eq!(batch.finish(), Err(ResolutionError::Incomplete { index: 0 }));
    batch.complete(0, metadata("alpha", "1.0"));
    assert_eq!(batch.pending(0), None);
    assert_eq!(batch.finish(), Err(ResolutionError::Incomplete { index: 2 }));
}

#[test]
fn named_requirement_with_a_local_source_needs_metadata() {
    let input = Unresolved::Named(Requirement {
        name: text("guess"),
        extras: Vec::new(),
        marker: None,
        source: path("/work/lib"),
    });
    let mut batch = ResolutionBatch::new(vec![input]);
    assert_eq!(batch.pending(0), Some(text("/work/lib")));
    batch.complete(0, metadata("lib", "0.3"));
    let results = batch.finish().unwrap();
    assert_eq!(results[0].requirement.name, "lib");
    assert_eq!(results[0].version, Some(text("0.3")));
    assert_eq!(results[0].requirement.source, path("/work/lib"));
}

#[test]
fn first_reported_failure_fails_the_batch() {
    let mut batch = ResolutionBatch::new(inputs());
    batch.complete(3, Err(text("build failed")));
    batch.complete(0, Err(text("unreadable")));
    batch.complete(2, metadata("beta", "2.0"));
    assert_eq!(
        batch.finish(),
        Err(ResolutionError::Failed { index: 3, error: text("build failed") })
    );
}

#[test]
fn failure_wins_over_missing_results() {
    let mut batch = ResolutionBatch::new(inputs());
    batch.complete(2, Err(text("no metadata")));
    assert_eq!(batch.finish(), Err(ResolutionError::Failed { index: 2, error: text("no metadata") }));
}

#[test]
fn outcome_for_a_filled_or_unknown_slot_is_ignored() {
    let mut batch = ResolutionBatch::new(inputs());
    batch.complete(0, metadata("alpha", "1.0"));
    batch.complete(0, metadata("other", "9.9"));
    batch.complete(0, Err(text("late failure")));
    batch.complete(1, metadata("not-rich", "0"));
    batch.complete(1, Err(text("ignored")));
    batch.complete(17, Err(text("out of range")));
    batch.complete(2, metadata("beta", "2.0"));
    batch.complete(3, metadata("gamma", "3.0"));
    assert_eq!(batch.finish(), Ok(expected()));
}

#[test]
fn fingerprints_of_sources() {
    assert_eq!(fingerprint(&path("/work/lib")), "/work/lib");
    let url = RequirementSource::Url {
        locator: text("https://example.com/a.zip#subdirectory=x"),
        url: text("https://example.com/a.zip"),
        subdirectory: Some(text("x")),
    };
    assert_eq!(fingerprint(&url), "https://example.com/a.zip");
    let git = |reference: Option<&str>| RequirementSource::Git {
        locator: text("git+https://example.com/r.git"),
        repository: text("https://example.com/r.git"),
        reference: reference.map(text),
        subdirectory: None,
    };
    assert_eq!(fingerprint(&git(Some("abc"))), "https://example.com/r.git@abc");
    assert_eq!(fingerprint(&git(None)), "https://example.com/r.git@");
    assert_eq!(fingerprint(&RequirementSource::Registry { specifier: text(">=1") }), ">=1");
}
