//! The order of a command's stages: each stage follows the success of the
//! one before it, a failure ends the command where it stands, and a manifest
//! that did not change ends it before anything is locked or installed.

use vstd::prelude::*;
use crate::edits::{EditAccumulator, EditAccumulatorView};
use crate::manifest::{
    is_settled, lemma_settled_edit_is_no_edit, lemma_settled_edits_render_the_same, rendered,
    ManifestErrorView,
};

verus! {

/// A stage of a command that edits a manifest.
#[derive(Debug, Clone, Copy, PartialEq, Eq, Structural)]
pub enum Stage {
    /// Find the project and its workspace.
    Discover,
    /// Find or create the environment.
    ResolveEnvironment,
    /// Give every requirement a name.
    ResolveRequirements,
    /// Give every requirement a source.
    ClassifySources,
    /// Collect the edits and render the manifest.
    AccumulateEdits,
    /// Write the manifest.
    PersistManifest,
    /// Lock the project.
    Lock,
    /// Bring the environment in line with the lock.
    Sync,
}

/// Where a command stands.
#[derive(Debug, Clone, Copy, PartialEq, Eq, Structural)]
pub enum Progress {
    /// The stage is to be run next.
    Next(Stage),
    /// Every stage that was due has succeeded.
    Done,
    /// The stage failed and the command ended with it. What earlier stages
    /// wrote stays written.
    Aborted(Stage),
}

/// How a stage ended.
#[derive(Debug, Clone, Copy, PartialEq, Eq, Structural)]
pub enum Outcome {
    Succeeded,
    Failed,
}

/// What decides which stages follow the rendering of the manifest.
#[derive(Debug, Clone, Copy, PartialEq, Eq, Structural)]
pub struct Flow {
    /// The rendered manifest differs from the text that was loaded.
    pub modified: bool,
    /// The caller declined locking and installing.
    pub no_sync: bool,
    /// The caller asked to lock and install even if nothing changed.
    pub force: bool,
}

/// The stage that follows the rendering of the manifest: a manifest that
/// changed is written; one that did not is neither written nor locked,
/// unless the caller forces the lock.
pub open spec fn after_edits(flow: Flow) -> Progress {
    if flow.modified {
        Progress::Next(Stage::PersistManifest)
    } else if flow.force && !flow.no_sync {
        Progress::Next(Stage::Lock)
    } else {
        Progress::Done
    }
}

/// Where the command stands once `stage` has ended with `outcome`.
pub open spec fn progress_after(stage: Stage, outcome: Outcome, flow: Flow) -> Progress {
    if outcome == Outcome::Failed {
        Progress::Aborted(stage)
    } else {
        match stage {
            Stage::Discover => Progress::Next(Stage::ResolveEnvironment),
            Stage::ResolveEnvironment => Progress::Next(Stage::ResolveRequirements),
            Stage::ResolveRequirements => Progress::Next(Stage::ClassifySources),
            Stage::ClassifySources => Progress::Next(Stage::AccumulateEdits),
            Stage::AccumulateEdits => after_edits(flow),
            Stage::PersistManifest => if flow.no_sync {
                Progress::Done
            } else {
                Progress::Next(Stage::Lock)
            },
            Stage::Lock => Progress::Next(Stage::Sync),
            Stage::Sync => Progress::Done,
        }
    }
}

/// The first stage of a command.
pub fn start() -> (progress: Progress)
    ensures
        progress == Progress::Next(Stage::Discover),
{
    Progress::Next(Stage::Discover)
}

/// Tells where the command stands once `stage` has ended with `outcome`.
/// `flow` is read from the stage that renders the manifest on.
pub fn advance(stage: Stage, outcome: Outcome, flow: Flow) -> (progress: Progress)
    ensures
        progress == progress_after(stage, outcome, flow),
{
    match outcome {
        Outcome::Failed => Progress::Aborted(stage),
        Outcome::Succeeded => match stage {
            Stage::Discover => Progress::Next(Stage::ResolveEnvironment),
            Stage::ResolveEnvironment => Progress::Next(Stage::ResolveRequirements),
            Stage::ResolveRequirements => Progress::Next(Stage::ClassifySources),
            Stage::ClassifySources => Progress::Next(Stage::AccumulateEdits),
            Stage::AccumulateEdits => {
                if flow.modified {
                    Progress::Next(Stage::PersistManifest)
                } else if flow.force && !flow.no_sync {
                    Progress::Next(Stage::Lock)
                } else {
                    Progress::Done
                }
            },
            Stage::PersistManifest => if flow.no_sync {
                Progress::Done
            } else {
                Progress::Next(Stage::Lock)
            },
            Stage::Lock => Progress::Next(Stage::Sync),
            Stage::Sync => Progress::Done,
        },
    }
}

/// The place of a stage in the order of stages.
pub open spec fn rank(stage: Stage) -> nat {
    match stage {
        Stage::Discover => 0,
        Stage::ResolveEnvironment => 1,
        Stage::ResolveRequirements => 2,
        Stage::ClassifySources => 3,
        Stage::AccumulateEdits => 4,
        Stage::PersistManifest => 5,
        Stage::Lock => 6,
        Stage::Sync => 7,
    }
}

/// The stages that a command runs from `stage` on when none of them fails,
/// in order.
pub open spec fn stages_from(stage: Stage, flow: Flow) -> Seq<Stage>
    decreases 8 - rank(stage),
{
    match progress_after(stage, Outcome::Succeeded, flow) {
        Progress::Next(next) => seq![stage] + stages_from(next, flow),
        _ => seq![stage],
    }
}

/// The stages that follow the rendering of the manifest when none of them
/// fails, in order.
pub open spec fn stages_after_edits(flow: Flow) -> Seq<Stage> {
    match after_edits(flow) {
        Progress::Next(next) => stages_from(next, flow),
        _ => Seq::empty(),
    }
}

/// Lists the stages that follow the rendering of the manifest when none of
/// them fails.
pub fn remaining_stages(flow: Flow) -> (stages: Vec<Stage>)
    ensures
        stages@ == stages_after_edits(flow),
{
    let mut stages: Vec<Stage> = Vec::new();
    proof {
        reveal_with_fuel(stages_from, 4);
    }
    if flow.modified {
        stages.push(Stage::PersistManifest);
        if !flow.no_sync {
            stages.push(Stage::Lock);
            stages.push(Stage::Sync);
        }
    } else if flow.force && !flow.no_sync {
        stages.push(Stage::Lock);
        stages.push(Stage::Sync);
    }
    assert(stages@ =~= stages_after_edits(flow));
    stages
}

/// The flow of a command whose manifest rendered to `content`: the manifest
/// counts as modified exactly when `content` differs from the text that was
/// loaded.
pub fn flow_after_render(
    accumulator: &EditAccumulator,
    content: &String,
    no_sync: bool,
    force: bool,
) -> (flow: Flow)
    ensures
        flow == (Flow { modified: content@ != accumulator@.loaded, no_sync, force }),
{
    Flow { modified: accumulator.is_modified(content), no_sync, force }
}

/// A run whose edits the manifest holds already, as the second of two runs
/// over an unchanged project finds them, renders the text that was loaded
/// and ends after the rendering: nothing is written, locked or installed.
pub proof fn lemma_settled_run_skips_lock_and_sync(accumulator: EditAccumulatorView, no_sync: bool)
    requires
        forall|i: int|
            0 <= i < accumulator.edits.len() ==> is_settled(
                accumulator.loaded,
                #[trigger] accumulator.edits[i],
            ),
    ensures
        rendered(accumulator.loaded, accumulator.edits, accumulator.edits.len() as int) == Ok::<
            Seq<char>,
            ManifestErrorView,
        >(accumulator.loaded),
        stages_after_edits(Flow { modified: false, no_sync, force: false }) == Seq::<Stage>::empty(),
{
    assert forall|i: int| 0 <= i < accumulator.edits.len() implies #[trigger] crate::manifest::applied(
        accumulator.loaded,
        accumulator.edits[i],
    ) == Ok::<Seq<char>, ManifestErrorView>(accumulator.loaded) by {
        lemma_settled_edit_is_no_edit(accumulator.loaded, accumulator.edits[i]);
    }
    lemma_settled_edits_render_the_same(
        accumulator.loaded,
        accumulator.edits,
        accumulator.edits.len() as int,
    );
}

/// What is asked of the installer after a manifest changed: everything that
/// the lock reaches, with all extras and the development dependencies,
/// because which part of the environment an edit affects is not known.
#[derive(Debug, Clone, Copy, PartialEq, Eq, Structural)]
pub struct SyncRequest {
    pub all_extras: bool,
    pub dev: bool,
}

/// What is asked of the installer after a manifest changed.
pub fn sync_request() -> (request: SyncRequest)
    ensures
        request == (SyncRequest { all_extras: true, dev: true }),
{
    SyncRequest { all_extras: true, dev: true }
}

/// A manifest that renders to the text that was loaded is not written, and
/// the project is neither locked nor installed, unless the caller forces it.
pub proof fn lemma_unchanged_manifest_ends_the_command(flow: Flow)
    requires
        !flow.modified,
        !flow.force,
    ensures
        progress_after(Stage::AccumulateEdits, Outcome::Succeeded, flow) == Progress::Done,
        stages_after_edits(flow) == Seq::<Stage>::empty(),
{
}

/// A manifest that changed is written, then the project is locked and
/// installed, in this order, unless the caller declined that.
pub proof fn lemma_changed_manifest_is_locked_and_synced(flow: Flow)
    requires
        flow.modified,
        !flow.no_sync,
    ensures
        stages_after_edits(flow) == seq![Stage::PersistManifest, Stage::Lock, Stage::Sync],
{
    reveal_with_fuel(stages_from, 4);
    assert(stages_after_edits(flow) =~= seq![Stage::PersistManifest, Stage::Lock, Stage::Sync]);
}

/// A stage that fails ends the command at that stage, whatever the flow: no
/// later stage runs, and no stage undoes what an earlier one wrote.
pub proof fn lemma_failure_aborts(stage: Stage, flow: Flow)
    ensures
        progress_after(stage, Outcome::Failed, flow) == Progress::Aborted(stage),
{
}

/// Stages never run backwards: the stage that follows a success comes later
/// in the order of stages.
pub proof fn lemma_stages_advance(stage: Stage, flow: Flow)
    ensures
        progress_after(stage, Outcome::Succeeded, flow) matches Progress::Next(next) ==> rank(stage)
            < rank(next),
{
}

} // verus!
