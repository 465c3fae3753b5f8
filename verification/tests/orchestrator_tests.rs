use uv_project::edits::EditAccumulator;
use uv_project::orchestrator::{
    advance, flow_after_render, remaining_stages, start, sync_request, Flow, Outcome, Progress,
    Stage, SyncRequest,
};

fn flow(modified: bool, no_sync: bool, force: bool) -> Flow {
    Flow { modified, no_sync, force }
}

const ALL: [Stage; 8] = [
    Stage::Discover,
    Stage::ResolveEnvironment,
    Stage::ResolveRequirements,
    Stage::ClassifySources,
    Stage::AccumulateEdits,
    Stage::PersistManifest,
    Stage::Lock,
    Stage::Sync,
];

fn run(flow: Flow, fail_at: Option<Stage>) -> (Vec<Stage>, Progress) {
    let mut ran = Vec::new();
    let mut progress = start();
    while let Progress::Next(stage) = progress {
        ran.push(stage);
        let outcome = if fail_at == Some(stage) { Outcome::Failed } else { Outcome::Succeeded };
        progress = advance(stage, outcome, flow);
        assert!(ran.len() <= ALL.len());
    }
    (ran, progress)
}

#[test]
fn changed_manifest_is_written_locked_and_synced() {
    let (ran, end) = run(flow(true, false, false), None);
    assert_eq!(ran, ALL.to_vec());
    assert_eq!(end, Progress::Done);
    assert_eq!(
        remaining_stages(flow(true, false, false)),
        vec![Stage::PersistManifest, Stage::Lock, Stage::Sync]
    );
}

#[test]
fn unchanged_manifest_skips_write_lock_and_sync() {
    let (ran, end) = run(flow(false, false, false), None);
    assert_eq!(ran, ALL[..5].to_vec());
    assert_eq!(end, Progress::Done);
    assert!(remaining_stages(flow(false, false, false)).is_empty());
    assert!(remaining_stages(flow(false, true, false)).is_empty());
}

#[test]
fn forced_run_locks_an_unchanged_manifest() {
    let (ran, end) = run(flow(false, false, true), None);
    assert_eq!(
        ran,
        vec![
            Stage::Discover,
            Stage::ResolveEnvironment,
            Stage::ResolveRequirements,
            Stage::ClassifySources,
            Stage::AccumulateEdits,
            Stage::Lock,
            Stage::Sync,
        ]
    );
    assert_eq!(end, Progress::Done);
    assert_eq!(remaining_stages(flow(false, false, true)), vec![Stage::Lock, Stage::Sync]);
    assert!(remaining_stages(flow(false, true, true)).is_empty());
}

#[test]
fn no_sync_ends_after_the_write() {
    let (ran, end) = run(flow(true, true, false), None);
    assert_eq!(ran, ALL[..6].to_vec());
    assert_eq!(end, Progress::Done);
    assert_eq!(remaining_stages(flow(true, true, true)), vec![Stage::PersistManifest]);
}

#[test]
fn failure_ends_the_command_at_its_stage() {
    for (index, stage) in ALL.iter().enumerate() {
        let (ran, end) = run(flow(true, false, false), Some(*stage));
        assert_eq!(ran, ALL[..=index].to_vec());
        assert_eq!(end, Progress::Aborted(*stage));
    }
}

#[test]
fn failed_lock_leaves_the_written_manifest() {
    let (ran, end) = run(flow(true, false, false), Some(Stage::Lock));
    assert!(ran.contains(&Stage::PersistManifest));
    assert!(!ran.contains(&Stage::Sync));
    assert_eq!(end, Progress::Aborted(Stage::Lock));
}

#[test]
fn every_step_of_the_table() {
    let changed = flow(true, false, false);
    assert_eq!(start(), Progress::Next(Stage::Discover));
    assert_eq!(
        advance(Stage::Discover, Outcome::Succeeded, changed),
        Progress::Next(Stage::ResolveEnvironment)
    );
    assert_eq!(
        advance(Stage::ResolveEnvironment, Outcome::Succeeded, changed),
        Progress::Next(Stage::ResolveRequirements)
    );
    assert_eq!(
        advance(Stage::ResolveRequirements, Outcome::Succeeded, changed),
        Progress::Next(Stage::ClassifySources)
    );
    assert_eq!(
        advance(Stage::ClassifySources, Outcome::Succeeded, changed),
        Progress::Next(Stage::AccumulateEdits)
    );
    assert_eq!(
        advance(Stage::AccumulateEdits, Outcome::Succeeded, changed),
        Progress::Next(Stage::PersistManifest)
    );
    assert_eq!(advance(Stage::PersistManifest, Outcome::Succeeded, changed), Progress::Next(Stage::Lock));
    assert_eq!(advance(Stage::Lock, Outcome::Succeeded, changed), Progress::Next(Stage::Sync));
    assert_eq!(advance(Stage::Sync, Outcome::Succeeded, changed), Progress::Done);
}

#[test]
fn flow_is_read_off_the_rendered_text() {
    let accumulator = EditAccumulator::new("a = 1\n".to_string());
    let same = flow_after_render(&accumulator, &"a = 1\n".to_string(), false, false);
    assert_eq!(same, flow(false, false, false));
    assert!(remaining_stages(same).is_empty());
    let changed = flow_after_render(&accumulator, &"a = 2\n".to_string(), true, true);
    assert_eq!(changed, flow(true, true, true));
}

#[test]
fn sync_asks_for_everything() {
    assert_eq!(sync_request(), SyncRequest { all_extras: true, dev: true });
}
