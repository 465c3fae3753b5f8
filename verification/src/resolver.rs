//! Naming a batch of requirements: each requirement has its slot, results
//! arrive in any order, and the batch ends as a whole.

use vstd::prelude::*;
use crate::requirement::{copy_texts, Requirement, RequirementView};
use crate::source::{
    copy_opt_text, copy_text, opt_text, RequirementSource, RequirementSourceView,
};
use crate::text::texts;

verus! {

/// A requirement as it was given: with a name, or as a bare locator.
#[derive(Debug, Clone, PartialEq, Eq)]
pub enum Unresolved {
    Named(Requirement),
    Unnamed { source: RequirementSource, extras: Vec<String>, marker: Option<String> },
}

/// The mathematical value of an [`Unresolved`].
pub ghost enum UnresolvedView {
    Named(RequirementView),
    Unnamed { source: RequirementSourceView, extras: Seq<Seq<char>>, marker: Option<Seq<char>> },
}

impl View for Unresolved {
    type V = UnresolvedView;

    open spec fn view(&self) -> UnresolvedView {
        match *self {
            Unresolved::Named(requirement) => UnresolvedView::Named(requirement@),
            Unresolved::Unnamed { source, extras, marker } => UnresolvedView::Unnamed {
                source: source@,
                extras: texts(extras@),
                marker: opt_text(marker),
            },
        }
    }
}

/// What the metadata of a distribution says of it.
#[derive(Debug, Clone, PartialEq, Eq)]
pub struct Metadata {
    pub name: String,
    pub version: String,
}

/// The mathematical value of [`Metadata`].
pub ghost struct MetadataView {
    pub name: Seq<char>,
    pub version: Seq<char>,
}

impl View for Metadata {
    type V = MetadataView;

    open spec fn view(&self) -> MetadataView {
        MetadataView { name: self.name@, version: self.version@ }
    }
}

/// A requirement with its name and, where metadata was read for it, the
/// version that the metadata states.
#[derive(Debug, Clone, PartialEq, Eq)]
pub struct Resolved {
    pub requirement: Requirement,
    pub version: Option<String>,
}

/// The mathematical value of a [`Resolved`].
pub ghost struct ResolvedView {
    pub requirement: RequirementView,
    pub version: Option<Seq<char>>,
}

impl View for Resolved {
    type V = ResolvedView;

    open spec fn view(&self) -> ResolvedView {
        ResolvedView { requirement: self.requirement@, version: opt_text(self.version) }
    }
}

impl Resolved {
    /// A copy with the same value.
    pub fn duplicate(&self) -> (copy: Resolved)
        ensures
            copy@ == self@,
    {
        Resolved { requirement: self.requirement.duplicate(), version: copy_opt_text(&self.version) }
    }
}

/// Why a batch has no result.
#[derive(Debug, Clone, PartialEq, Eq)]
pub enum ResolutionError {
    /// The requirement at `index` could not be named; `error` says why. Of
    /// several failures this is the one that was reported first.
    Failed { index: usize, error: String },
    /// The requirement at `index` has no result yet.
    Incomplete { index: usize },
}

/// The mathematical value of a [`ResolutionError`].
pub ghost enum ResolutionErrorView {
    Failed { index: int, error: Seq<char> },
    Incomplete { index: int },
}

impl View for ResolutionError {
    type V = ResolutionErrorView;

    open spec fn view(&self) -> ResolutionErrorView {
        match *self {
            ResolutionError::Failed { index, error } => ResolutionErrorView::Failed {
                index: index as int,
                error: error@,
            },
            ResolutionError::Incomplete { index } => ResolutionErrorView::Incomplete {
                index: index as int,
            },
        }
    }
}

/// Whether a requirement needs no metadata: it has a name and comes from
/// the registry.
pub open spec fn passes_through(input: UnresolvedView) -> bool {
    input matches UnresolvedView::Named(requirement) && requirement.source is Registry
}

/// A requirement that needs no metadata, as it leaves the batch: unchanged.
pub open spec fn passed(input: UnresolvedView) -> ResolvedView {
    ResolvedView { requirement: input->Named_0, version: None }
}

/// A requirement as it leaves the batch once metadata was read for it: the
/// metadata gives the name and the version, everything else stays.
pub open spec fn named(input: UnresolvedView, metadata: MetadataView) -> ResolvedView {
    match input {
        UnresolvedView::Named(requirement) => ResolvedView {
            requirement: RequirementView { name: metadata.name, ..requirement },
            version: Some(metadata.version),
        },
        UnresolvedView::Unnamed { source, extras, marker } => ResolvedView {
            requirement: RequirementView { name: metadata.name, extras, marker, source },
            version: Some(metadata.version),
        },
    }
}

/// The key under which the metadata of a source is built once: the
/// repository and the pinned revision of a Git source, the URL of an
/// archive, the path of a local source.
pub open spec fn fingerprint_of(source: RequirementSourceView) -> Seq<char> {
    match source {
        RequirementSourceView::Registry { specifier } => specifier,
        RequirementSourceView::Git { repository, reference, .. } => repository + seq!['@'] + (
        match reference {
            Some(revision) => revision,
            None => Seq::empty(),
        }),
        RequirementSourceView::Path { path, .. } => path,
        RequirementSourceView::Url { url, .. } => url,
    }
}

/// The source of a requirement as it was given.
pub open spec fn source_of(input: UnresolvedView) -> RequirementSourceView {
    match input {
        UnresolvedView::Named(requirement) => requirement.source,
        UnresolvedView::Unnamed { source, .. } => source,
    }
}

/// The key under which the metadata of `source` is built once.
pub fn fingerprint(source: &RequirementSource) -> (key: String)
    ensures
        key@ == fingerprint_of(source@),
{
    proof {
        reveal_strlit("@");
        assert("@"@ =~= seq!['@']);
    }
    match source {
        RequirementSource::Registry { specifier } => copy_text(specifier),
        RequirementSource::Git { repository, reference, .. } => {
            let mut key: String = copy_text(repository);
            key.append("@");
            match reference {
                Some(revision) => {
                    key.append(revision.as_str());
                },
                None => {
                    assert(key@ =~= key@ + Seq::<char>::empty());
                },
            }
            key
        },
        RequirementSource::Path { path, .. } => copy_text(path),
        RequirementSource::Url { url, .. } => copy_text(url),
    }
}

/// The first error that was reported to a batch.
#[derive(Debug, Clone, PartialEq, Eq)]
pub struct Failure {
    pub index: usize,
    pub error: String,
}

/// A batch of requirements on their way to a name. Every requirement has a
/// slot at its own index; a result goes to the slot of its requirement,
/// whenever it arrives.
pub struct ResolutionBatch {
    inputs: Vec<Unresolved>,
    slots: Vec<Option<Resolved>>,
    failure: Option<Failure>,
}

/// The mathematical value of a [`ResolutionBatch`].
pub ghost struct BatchView {
    pub inputs: Seq<UnresolvedView>,
    pub slots: Seq<Option<ResolvedView>>,
    pub failure: Option<(int, Seq<char>)>,
}

/// The values of a list of requirements as given, in order.
pub open spec fn unresolved_views(inputs: Seq<Unresolved>) -> Seq<UnresolvedView> {
    Seq::new(inputs.len(), |i: int| inputs[i]@)
}

/// The value of an optional result.
pub open spec fn opt_resolved(slot: Option<Resolved>) -> Option<ResolvedView> {
    match slot {
        Some(found) => Some(found@),
        None => None,
    }
}

/// The values of a list of slots, in order.
pub open spec fn slot_views(slots: Seq<Option<Resolved>>) -> Seq<Option<ResolvedView>> {
    Seq::new(slots.len(), |i: int| opt_resolved(slots[i]))
}

/// The values of a list of results, in order.
pub open spec fn resolved_views(items: Seq<Resolved>) -> Seq<ResolvedView> {
    Seq::new(items.len(), |i: int| items[i]@)
}

/// The slots of a fresh batch: a requirement that needs no metadata is in
/// its slot from the start, every other slot is empty.
pub open spec fn initial_slots(inputs: Seq<UnresolvedView>) -> Seq<Option<ResolvedView>> {
    Seq::new(
        inputs.len(),
        |i: int|
            if passes_through(inputs[i]) {
                Some(passed(inputs[i]))
            } else {
                None
            },
    )
}

/// The value of the outcome of reading metadata.
pub open spec fn outcome_view(outcome: Result<Metadata, String>) -> Result<MetadataView, Seq<char>> {
    match outcome {
        Ok(metadata) => Ok(metadata@),
        Err(error) => Err(error@),
    }
}

impl BatchView {
    /// Every requirement has one slot.
    pub open spec fn wf(self) -> bool {
        self.slots.len() == self.inputs.len()
    }

    /// Whether the slot at `index` waits for a result.
    pub open spec fn waits(self, index: int) -> bool {
        0 <= index < self.slots.len() && self.slots[index] is None
    }

    /// The batch after the outcome for the requirement at `index` arrived.
    /// Metadata fills the slot of its requirement and no other. An error
    /// leaves the slots alone and is kept if it is the first. An outcome for
    /// a slot that does not wait changes nothing.
    pub open spec fn completed(self, index: int, outcome: Result<MetadataView, Seq<char>>) -> BatchView {
        if !self.waits(index) {
            self
        } else {
            match outcome {
                Ok(metadata) => BatchView {
                    slots: self.slots.update(index, Some(named(self.inputs[index], metadata))),
                    ..self
                },
                Err(error) => BatchView {
                    failure: match self.failure {
                        Some(first) => Some(first),
                        None => Some((index, error)),
                    },
                    ..self
                },
            }
        }
    }

    /// The first slot that waits, from `from` on; the number of slots where
    /// none does.
    pub open spec fn first_waiting(self, from: int) -> int
        decreases self.slots.len() - from,
    {
        if from < 0 || from >= self.slots.len() {
            self.slots.len() as int
        } else if self.slots[from] is None {
            from
        } else {
            self.first_waiting(from + 1)
        }
    }

    /// How the batch ends: with the first error that was reported; else, as
    /// long as a slot waits, without a result; else with the result of each
    /// requirement at the index of that requirement.
    pub open spec fn finished(self) -> Result<Seq<ResolvedView>, ResolutionErrorView> {
        match self.failure {
            Some((index, error)) => Err(ResolutionErrorView::Failed { index, error }),
            None => if self.first_waiting(0) < self.slots.len() {
                Err(ResolutionErrorView::Incomplete { index: self.first_waiting(0) })
            } else {
                Ok(Seq::new(self.slots.len(), |i: int| self.slots[i]->Some_0))
            },
        }
    }
}

/// The value of the end of a batch.
pub open spec fn finished_view(result: Result<Vec<Resolved>, ResolutionError>) -> Result<
    Seq<ResolvedView>,
    ResolutionErrorView,
> {
    match result {
        Ok(items) => Ok(resolved_views(items@)),
        Err(error) => Err(error@),
    }
}

impl View for ResolutionBatch {
    type V = BatchView;

    closed spec fn view(&self) -> BatchView {
        BatchView {
            inputs: unresolved_views(self.inputs@),
            slots: slot_views(self.slots@),
            failure: match self.failure {
                Some(failure) => Some((failure.index as int, failure.error@)),
                None => None,
            },
        }
    }
}

impl ResolutionBatch {
    /// A batch for the requirements `inputs`.
    pub fn new(inputs: Vec<Unresolved>) -> (batch: ResolutionBatch)
        ensures
            batch@.wf(),
            batch@.inputs == unresolved_views(inputs@),
            batch@.slots == initial_slots(unresolved_views(inputs@)),
            batch@.failure is None,
    {
        let mut slots: Vec<Option<Resolved>> = Vec::new();
        let mut i: usize = 0;
        while i < inputs.len()
            invariant
                i <= inputs.len(),
                slots@.len() == i,
                forall|k: int|
                    0 <= k < i ==> opt_resolved(#[trigger] slots@[k]) == initial_slots(
                        unresolved_views(inputs@),
                    )[k],
            decreases inputs.len() - i,
        {
            let slot = match &inputs[i] {
                Unresolved::Named(requirement) => match &requirement.source {
                    RequirementSource::Registry { .. } => Some(
                        Resolved { requirement: requirement.duplicate(), version: None },
                    ),
                    _ => None,
                },
                Unresolved::Unnamed { .. } => None,
            };
            assert(unresolved_views(inputs@)[i as int] == inputs@[i as int]@);
            slots.push(slot);
            i = i + 1;
        }
        let batch = ResolutionBatch { inputs, slots, failure: None };
        assert(batch@.slots =~= initial_slots(unresolved_views(inputs@)));
        batch
    }

    /// How many requirements the batch holds.
    pub fn len(&self) -> (count: usize)
        ensures
            count == self@.inputs.len(),
    {
        self.inputs.len()
    }

    /// The key under which the metadata of the requirement at `index` is to
    /// be built, where its slot waits for a result.
    pub fn pending(&self, index: usize) -> (key: Option<String>)
        requires
            self@.wf(),
        ensures
            opt_text(key) == (if self@.waits(index as int) {
                Some(fingerprint_of(source_of(self@.inputs[index as int])))
            } else {
                None
            }),
    {
        if index >= self.slots.len() {
            return None;
        }
        assert(self@.slots[index as int] == opt_resolved(self.slots@[index as int]));
        assert(self@.inputs[index as int] == self.inputs@[index as int]@);
        match &self.slots[index] {
            Some(_) => None,
            None => match &self.inputs[index] {
                Unresolved::Named(requirement) => Some(fingerprint(&requirement.source)),
                Unresolved::Unnamed { source, .. } => Some(fingerprint(source)),
            },
        }
    }

    /// Takes in the outcome for the requirement at `index`.
    pub fn complete(&mut self, index: usize, outcome: Result<Metadata, String>)
        requires
            old(self)@.wf(),
        ensures
            final(self)@.wf(),
            final(self)@ == old(self)@.completed(index as int, outcome_view(outcome)),
    {
        if index >= self.slots.len() {
            return ;
        }
        assert(self@.slots[index as int] == opt_resolved(self.slots@[index as int]));
        assert(self@.inputs[index as int] == self.inputs@[index as int]@);
        if self.slots[index].is_some() {
            return ;
        }
        match outcome {
            Ok(metadata) => {
                let resolved = match &self.inputs[index] {
                    Unresolved::Named(requirement) => Resolved {
                        requirement: Requirement {
                            name: metadata.name,
                            extras: copy_texts(&requirement.extras),
                            marker: copy_opt_text(&requirement.marker),
                            source: requirement.source.duplicate(),
                        },
                        version: Some(metadata.version),
                    },
                    Unresolved::Unnamed { source, extras, marker } => Resolved {
                        requirement: Requirement {
                            name: metadata.name,
                            extras: copy_texts(extras),
                            marker: copy_opt_text(marker),
                            source: source.duplicate(),
                        },
                        version: Some(metadata.version),
                    },
                };
                let ghost wanted = resolved@;
                self.slots.set(index, Some(resolved));
                assert(self@.slots =~= old(self)@.slots.update(index as int, Some(wanted)));
            },
            Err(error) => {
                if self.failure.is_none() {
                    self.failure = Some(Failure { index, error });
                }
            },
        }
    }

    /// Ends the batch: all results, each at the index of its requirement, or
    /// the reason why there are none.
    pub fn finish(&self) -> (result: Result<Vec<Resolved>, ResolutionError>)
        requires
            self@.wf(),
        ensures
            finished_view(result) == self@.finished(),
            result matches Ok(items) ==> items@.len() == self@.inputs.len(),
    {
        match &self.failure {
            Some(failure) => {
                return Err(
                    ResolutionError::Failed {
                        index: failure.index,
                        error: copy_text(&failure.error),
                    },
                );
            },
            None => {},
        }
        let mut items: Vec<Resolved> = Vec::new();
        let mut i: usize = 0;
        while i < self.slots.len()
            invariant
                i <= self.slots.len(),
                items@.len() == i,
                self@.failure is None,
                self@.first_waiting(0) == self@.first_waiting(i as int),
                forall|k: int|
                    0 <= k < i ==> self@.slots[k] == Some::<ResolvedView>((#[trigger] items@[k])@),
            decreases self.slots.len() - i,
        {
            assert(self@.slots[i as int] == opt_resolved(self.slots@[i as int]));
            match &self.slots[i] {
                Some(found) => {
                    items.push(found.duplicate());
                },
                None => {
                    return Err(ResolutionError::Incomplete { index: i });
                },
            }
            i = i + 1;
        }
        assert(resolved_views(items@) =~= Seq::new(
            self@.slots.len(),
            |i: int| self@.slots[i]->Some_0,
        ));
        Ok(items)
    }
}

/// A batch that ends with results has one result for each requirement, in
/// the order of the requirements: the result at an index is the one that
/// went to the slot of that index.
pub proof fn lemma_results_keep_input_order(batch: BatchView, index: int)
    requires
        batch.wf(),
        batch.finished() is Ok,
        0 <= index < batch.inputs.len(),
    ensures
        batch.finished()->Ok_0.len() == batch.inputs.len(),
        batch.slots[index] == Some(batch.finished()->Ok_0[index]),
{
    lemma_nothing_waits(batch, 0, index);
}

/// Where the first waiting slot from `from` on is past the last slot, the
/// slot at `index` does not wait.
proof fn lemma_nothing_waits(batch: BatchView, from: int, index: int)
    requires
        0 <= from <= index < batch.slots.len(),
        batch.first_waiting(from) >= batch.slots.len(),
    ensures
        batch.slots[index] is Some,
    decreases index - from,
{
    if from < index {
        lemma_nothing_waits(batch, from + 1, index);
    }
}

/// The order in which metadata arrives for two requirements does not show
/// in the batch.
pub proof fn lemma_arrival_order_is_irrelevant(
    batch: BatchView,
    first: int,
    first_metadata: MetadataView,
    second: int,
    second_metadata: MetadataView,
)
    requires
        batch.wf(),
        first != second,
    ensures
        batch.completed(first, Ok(first_metadata)).completed(second, Ok(second_metadata))
            == batch.completed(second, Ok(second_metadata)).completed(first, Ok(first_metadata)),
{
    let one = batch.completed(first, Ok(first_metadata)).completed(second, Ok(second_metadata));
    let other = batch.completed(second, Ok(second_metadata)).completed(first, Ok(first_metadata));
    assert(one.slots =~= other.slots);
}

/// Metadata fills the slot of its own requirement with that requirement
/// named, and leaves every other slot as it was.
pub proof fn lemma_metadata_fills_its_slot(batch: BatchView, index: int, metadata: MetadataView, other: int)
    requires
        batch.wf(),
        batch.waits(index),
        0 <= other < batch.slots.len(),
        other != index,
    ensures
        batch.completed(index, Ok(metadata)).slots[index] == Some(
            named(batch.inputs[index], metadata),
        ),
        batch.completed(index, Ok(metadata)).slots[other] == batch.slots[other],
        batch.completed(index, Ok(metadata)).slots.len() == batch.inputs.len(),
{
}

} // verus!
