use uv_project::inflight::{copy_outcome, Claim, InFlight};
use uv_project::resolver::Metadata;

fn text(value: &str) -> String {
    value.to_string()
}

fn built(name: &str) -> Result<Metadata, String> {
    Ok(Metadata { name: text(name), version: text("1.0") })
}

#[test]
fn first_claim_builds_and_the_others_wait() {
    let mut registry = InFlight::new();
    let key = text("https://example.com/r.git@abc");
    assert_eq!(registry.claim(&key), Claim::Build);
    assert_eq!(registry.claim(&key), Claim::Wait);
    assert_eq!(registry.claim(&key), Claim::Wait);
}

#[test]
fn duplicate_claims_lead_to_one_build() {
    let mut registry = InFlight::new();
    let keys = ["/a", "/b", "/a", "/a", "/c", "/b", "/a"];
    let mut builds = Vec::new();
    for key in keys {
        if registry.claim(&text(key)) == Claim::Build {
            builds.push(key);
        }
    }
    assert_eq!(builds, vec!["/a", "/b", "/c"]);
}

#[test]
fn waiters_read_the_outcome_of_the_one_build() {
    let mut registry = InFlight::new();
    let key = text("/work/lib");
    assert_eq!(registry.claim(&key), Claim::Build);
    assert_eq!(registry.claim(&key), Claim::Wait);
    assert!(registry.finish(&key, built("lib")));
    assert_eq!(registry.claim(&key), Claim::Ready(built("lib")));
    assert_eq!(registry.claim(&key), Claim::Ready(built("lib")));
}

#[test]
fn failure_is_kept_and_not_retried() {
    let mut registry = InFlight::new();
    let key = text("/work/broken");
    assert_eq!(registry.claim(&key), Claim::Build);
    assert!(registry.finish(&key, Err(text("build failed"))));
    assert_eq!(registry.claim(&key), Claim::Ready(Err(text("build failed"))));
    assert_eq!(registry.claim(&key), Claim::Ready(Err(text("build failed"))));
}

#[test]
fn outcome_is_written_once() {
    let mut registry = InFlight::new();
    let key = text("/work/lib");
    assert!(!registry.finish(&key, built("early")));
    assert_eq!(registry.claim(&key), Claim::Build);
    assert!(registry.finish(&key, built("lib")));
    assert!(!registry.finish(&key, built("other")));
    assert!(!registry.finish(&key, Err(text("late"))));
    assert_eq!(registry.claim(&key), Claim::Ready(built("lib")));
}

#[test]
fn fingerprints_do_not_touch_each_other() {
    let mut registry = InFlight::new();
    assert_eq!(registry.claim(&text("/a")), Claim::Build);
    assert_eq!(registry.claim(&text("/b")), Claim::Build);
    assert!(registry.finish(&text("/b"), built("b")));
    assert_eq!(registry.claim(&text("/a")), Claim::Wait);
    assert_eq!(registry.claim(&text("/b")), Claim::Ready(built("b")));
    assert!(registry.finish(&text("/a"), Err(text("no"))));
    assert_eq!(registry.claim(&text("/b")), Claim::Ready(built("b")));
    assert_eq!(registry.claim(&text("/a")), Claim::Ready(Err(text("no"))));
}

#[test]
fn copies_of_outcomes_are_equal() {
    assert_eq!(copy_outcome(&built("x")), built("x"));
    assert_eq!(copy_outcome(&Err(text("e"))), Err(text("e")));
}
