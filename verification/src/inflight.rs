//! The builds of one invocation, by fingerprint: the first to claim a
//! fingerprint builds, everyone else waits for that build or reads its
//! outcome, and an outcome is written once.

use vstd::prelude::*;
use crate::resolver::{outcome_view, Metadata, MetadataView};
use crate::source::copy_text;

verus! {

/// What is known of the build of one fingerprint.
#[derive(Debug, PartialEq, Eq)]
pub enum BuildState {
    /// Someone builds it.
    Building,
    /// The build has ended, with metadata or with an error.
    Finished(Result<Metadata, String>),
}

/// The mathematical value of a [`BuildState`].
pub ghost enum BuildStateView {
    Building,
    Finished(Result<MetadataView, Seq<char>>),
}

impl View for BuildState {
    type V = BuildStateView;

    open spec fn view(&self) -> BuildStateView {
        match *self {
            BuildState::Building => BuildStateView::Building,
            BuildState::Finished(outcome) => BuildStateView::Finished(outcome_view(outcome)),
        }
    }
}

/// The answer to a claim.
#[derive(Debug, PartialEq, Eq)]
pub enum Claim {
    /// Nobody has claimed the fingerprint before: the claimant builds.
    Build,
    /// Someone builds it: the claimant waits for that build.
    Wait,
    /// The build has ended: this is its outcome.
    Ready(Result<Metadata, String>),
}

/// The mathematical value of a [`Claim`].
pub ghost enum ClaimView {
    Build,
    Wait,
    Ready(Result<MetadataView, Seq<char>>),
}

impl View for Claim {
    type V = ClaimView;

    open spec fn view(&self) -> ClaimView {
        match *self {
            Claim::Build => ClaimView::Build,
            Claim::Wait => ClaimView::Wait,
            Claim::Ready(outcome) => ClaimView::Ready(outcome_view(outcome)),
        }
    }
}

/// The answer to a claim of `fingerprint`.
pub open spec fn answer(builds: Map<Seq<char>, BuildStateView>, fingerprint: Seq<char>) -> ClaimView {
    if !builds.dom().contains(fingerprint) {
        ClaimView::Build
    } else {
        match builds[fingerprint] {
            BuildStateView::Building => ClaimView::Wait,
            BuildStateView::Finished(outcome) => ClaimView::Ready(outcome),
        }
    }
}

/// The builds after a claim of `fingerprint`: a fingerprint that is claimed
/// for the first time is being built from then on.
pub open spec fn after_claim(builds: Map<Seq<char>, BuildStateView>, fingerprint: Seq<char>) -> Map<
    Seq<char>,
    BuildStateView,
> {
    if builds.dom().contains(fingerprint) {
        builds
    } else {
        builds.insert(fingerprint, BuildStateView::Building)
    }
}

/// The builds after the build of `fingerprint` ended with `outcome`: the
/// outcome is kept where the fingerprint was being built, and ignored
/// otherwise.
pub open spec fn after_finish(
    builds: Map<Seq<char>, BuildStateView>,
    fingerprint: Seq<char>,
    outcome: Result<MetadataView, Seq<char>>,
) -> Map<Seq<char>, BuildStateView> {
    if builds.dom().contains(fingerprint) && builds[fingerprint] is Building {
        builds.insert(fingerprint, BuildStateView::Finished(outcome))
    } else {
        builds
    }
}

/// The builds of one invocation.
pub struct InFlight {
    keys: Vec<String>,
    states: Vec<BuildState>,
    builds: Ghost<Map<Seq<char>, BuildStateView>>,
}

/// A copy of an outcome, with the same value.
pub fn copy_outcome(outcome: &Result<Metadata, String>) -> (copy: Result<Metadata, String>)
    ensures
        outcome_view(copy) == outcome_view(*outcome),
{
    match outcome {
        Ok(metadata) => Ok(
            Metadata { name: copy_text(&metadata.name), version: copy_text(&metadata.version) },
        ),
        Err(error) => Err(copy_text(error)),
    }
}

impl InFlight {
    /// The entries and the map of builds say the same, and no fingerprint
    /// has two entries.
    pub closed spec fn wf(&self) -> bool {
        &&& self.keys@.len() == self.states@.len()
        &&& forall|i: int|
            0 <= i < self.keys@.len() ==> self.builds@.dom().contains((#[trigger] self.keys@[i])@)
                && self.builds@[self.keys@[i]@] == self.states@[i]@
        &&& forall|key: Seq<char>| #[trigger]
            self.builds@.dom().contains(key) ==> exists|i: int|
                0 <= i < self.keys@.len() && (#[trigger] self.keys@[i])@ == key
        &&& forall|i: int, j: int|
            0 <= i < j < self.keys@.len() ==> (#[trigger] self.keys@[i])@ != (
            #[trigger] self.keys@[j])@
    }

    /// What is known of each fingerprint that was claimed.
    pub closed spec fn view(&self) -> Map<Seq<char>, BuildStateView> {
        self.builds@
    }

    /// A registry without builds.
    pub fn new() -> (registry: InFlight)
        ensures
            registry.wf(),
            registry@ == Map::<Seq<char>, BuildStateView>::empty(),
    {
        InFlight { keys: Vec::new(), states: Vec::new(), builds: Ghost(Map::empty()) }
    }

    /// The index of the entry of `fingerprint`, if it has one.
    fn find(&self, fingerprint: &String) -> (found: Option<usize>)
        requires
            self.wf(),
        ensures
            match found {
                Some(index) => index < self.keys@.len() && self.keys@[index as int]@
                    == fingerprint@,
                None => !self@.dom().contains(fingerprint@),
            },
    {
        let mut i: usize = 0;
        while i < self.keys.len()
            invariant
                i <= self.keys.len(),
                self.wf(),
                forall|k: int| 0 <= k < i ==> (#[trigger] self.keys@[k])@ != fingerprint@,
            decreases self.keys.len() - i,
        {
            if self.keys[i] == *fingerprint {
                return Some(i);
            }
            i = i + 1;
        }
        None
    }

    /// Claims `fingerprint`, in one step: the answer says whether the
    /// claimant builds, waits, or has the outcome already.
    pub fn claim(&mut self, fingerprint: &String) -> (claim: Claim)
        requires
            old(self).wf(),
        ensures
            final(self).wf(),
            claim@ == answer(old(self)@, fingerprint@),
            final(self)@ == after_claim(old(self)@, fingerprint@),
    {
        match self.find(fingerprint) {
            Some(index) => match &self.states[index] {
                BuildState::Building => Claim::Wait,
                BuildState::Finished(outcome) => Claim::Ready(copy_outcome(outcome)),
            },
            None => {
                self.keys.push(copy_text(fingerprint));
                self.states.push(BuildState::Building);
                self.builds = Ghost(self.builds@.insert(fingerprint@, BuildStateView::Building));
                proof {
                    let count = old(self).keys@.len() as int;
                    assert forall|key: Seq<char>| #[trigger]
                        self.builds@.dom().contains(key) implies exists|i: int|
                        0 <= i < self.keys@.len() && (#[trigger] self.keys@[i])@ == key by {
                        if key == fingerprint@ {
                            assert(self.keys@[count]@ == key);
                        } else {
                            assert(old(self).builds@.dom().contains(key));
                            let i = choose|i: int|
                                0 <= i < old(self).keys@.len() && (#[trigger] old(self).keys@[i])@
                                    == key;
                            assert(self.keys@[i]@ == key);
                        }
                    }
                    assert forall|i: int| 0 <= i < self.keys@.len() implies self.builds@.dom().contains(
                        (#[trigger] self.keys@[i])@,
                    ) && self.builds@[self.keys@[i]@] == self.states@[i]@ by {
                        if i < count {
                            assert(self.keys@[i] == old(self).keys@[i]);
                            assert(self.states@[i] == old(self).states@[i]);
                        }
                    }
                    assert forall|i: int, j: int| 0 <= i < j < self.keys@.len() implies (
                    #[trigger] self.keys@[i])@ != (#[trigger] self.keys@[j])@ by {
                        assert(self.keys@[i] == old(self).keys@[i]);
                        if j < count {
                            assert(self.keys@[j] == old(self).keys@[j]);
                        }
                    }
                }
                Claim::Build
            },
        }
    }

    /// Records that the build of `fingerprint` ended with `outcome`. The
    /// outcome is written once: it is ignored for a fingerprint that nobody
    /// builds. Tells whether it was written.
    pub fn finish(&mut self, fingerprint: &String, outcome: Result<Metadata, String>) -> (written:
        bool)
        requires
            old(self).wf(),
        ensures
            final(self).wf(),
            final(self)@ == after_finish(old(self)@, fingerprint@, outcome_view(outcome)),
            written == (answer(old(self)@, fingerprint@) is Wait),
    {
        match self.find(fingerprint) {
            Some(index) => {
                let building = match &self.states[index] {
                    BuildState::Building => true,
                    BuildState::Finished(_) => false,
                };
                if !building {
                    return false;
                }
                let ghost state = BuildStateView::Finished(outcome_view(outcome));
                self.states.set(index, BuildState::Finished(outcome));
                self.builds = Ghost(self.builds@.insert(fingerprint@, state));
                proof {
                    assert forall|key: Seq<char>| #[trigger]
                        self.builds@.dom().contains(key) implies exists|i: int|
                        0 <= i < self.keys@.len() && (#[trigger] self.keys@[i])@ == key by {
                        if key == fingerprint@ {
                            assert(self.keys@[index as int]@ == key);
                        } else {
                            assert(old(self).builds@.dom().contains(key));
                            let i = choose|i: int|
                                0 <= i < old(self).keys@.len() && (#[trigger] old(self).keys@[i])@
                                    == key;
                            assert(self.keys@[i]@ == key);
                        }
                    }
                    assert forall|i: int| 0 <= i < self.keys@.len() implies self.builds@.dom().contains(
                        (#[trigger] self.keys@[i])@,
                    ) && self.builds@[self.keys@[i]@] == self.states@[i]@ by {
                        assert(self.keys@[i] == old(self).keys@[i]);
                        if i != index {
                            assert(self.states@[i] == old(self).states@[i]);
                            if i < index {
                                assert(old(self).keys@[i]@ != old(self).keys@[index as int]@);
                            } else {
                                assert(old(self).keys@[index as int]@ != old(self).keys@[i]@);
                            }
                        }
                    }
                }
                true
            },
            None => false,
        }
    }
}

/// One step on the registry of builds.
pub ghost enum Step {
    Claim(Seq<char>),
    Finish(Seq<char>, Result<MetadataView, Seq<char>>),
}

/// The builds after one step.
pub open spec fn after_step(builds: Map<Seq<char>, BuildStateView>, step: Step) -> Map<
    Seq<char>,
    BuildStateView,
> {
    match step {
        Step::Claim(fingerprint) => after_claim(builds, fingerprint),
        Step::Finish(fingerprint, outcome) => after_finish(builds, fingerprint, outcome),
    }
}

/// The builds after a sequence of steps.
pub open spec fn after_steps(builds: Map<Seq<char>, BuildStateView>, steps: Seq<Step>) -> Map<
    Seq<char>,
    BuildStateView,
>
    decreases steps.len(),
{
    if steps.len() == 0 {
        builds
    } else {
        after_steps(after_step(builds, steps[0]), steps.skip(1))
    }
}

/// How many claims of `fingerprint` in a sequence of steps are answered
/// with the order to build.
pub open spec fn build_orders(
    builds: Map<Seq<char>, BuildStateView>,
    steps: Seq<Step>,
    fingerprint: Seq<char>,
) -> nat
    decreases steps.len(),
{
    if steps.len() == 0 {
        0
    } else {
        let here: nat = if steps[0] == Step::Claim(fingerprint) && answer(builds, fingerprint)
            is Build {
            1
        } else {
            0
        };
        here + build_orders(after_step(builds, steps[0]), steps.skip(1), fingerprint)
    }
}

/// A fingerprint that was claimed is never built again, whatever steps
/// follow.
pub proof fn lemma_claimed_is_not_built_again(
    builds: Map<Seq<char>, BuildStateView>,
    steps: Seq<Step>,
    fingerprint: Seq<char>,
)
    requires
        builds.dom().contains(fingerprint),
    ensures
        build_orders(builds, steps, fingerprint) == 0,
        after_steps(builds, steps).dom().contains(fingerprint),
    decreases steps.len(),
{
    if steps.len() > 0 {
        lemma_claimed_is_not_built_again(after_step(builds, steps[0]), steps.skip(1), fingerprint);
    }
}

/// However the claims and the ends of builds follow each other, at most one
/// claim of a fingerprint is answered with the order to build; and exactly
/// one, where the fingerprint is claimed at all and was not known before.
pub proof fn lemma_one_build_per_fingerprint(
    builds: Map<Seq<char>, BuildStateView>,
    steps: Seq<Step>,
    fingerprint: Seq<char>,
)
    ensures
        build_orders(builds, steps, fingerprint) <= 1,
        !builds.dom().contains(fingerprint) && steps.contains(Step::Claim(fingerprint))
            ==> build_orders(builds, steps, fingerprint) == 1,
    decreases steps.len(),
{
    if steps.len() > 0 {
        let next = after_step(builds, steps[0]);
        let rest = steps.skip(1);
        if builds.dom().contains(fingerprint) {
            lemma_claimed_is_not_built_again(builds, steps, fingerprint);
        } else if steps[0] == Step::Claim(fingerprint) {
            lemma_claimed_is_not_built_again(next, rest, fingerprint);
        } else {
            lemma_one_build_per_fingerprint(next, rest, fingerprint);
            if steps.contains(Step::Claim(fingerprint)) {
                let k = choose|k: int| 0 <= k < steps.len() && steps[k] == Step::Claim(fingerprint);
                assert(rest[k - 1] == steps[k]);
            }
        }
    }
}

/// The outcome of a build is the same for everyone: once a build has ended,
/// no step changes its outcome, and every later claim reads it.
pub proof fn lemma_outcome_is_final(
    builds: Map<Seq<char>, BuildStateView>,
    steps: Seq<Step>,
    fingerprint: Seq<char>,
    outcome: Result<MetadataView, Seq<char>>,
)
    requires
        builds.dom().contains(fingerprint),
        builds[fingerprint] == BuildStateView::Finished(outcome),
    ensures
        answer(after_steps(builds, steps), fingerprint) == ClaimView::Ready(outcome),
    decreases steps.len(),
{
    if steps.len() > 0 {
        lemma_outcome_is_final(after_step(builds, steps[0]), steps.skip(1), fingerprint, outcome);
    }
}

} // verus!
