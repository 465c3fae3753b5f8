//! Adding requirements to a manifest: which source each requirement gets,
//! which edit it becomes, and how a batch of requirements fails.

use vstd::prelude::*;
use crate::credentials::{
    is_source_key, recorded, redact_source, store_with_source, CredentialStore, CredentialsView,
};
use crate::edits::{
    edit_for, edit_views, make_edit, DependencyEdit, DependencyEditView, DependencyType,
    DependencyTypeView,
};
use crate::markers::{
    extras_of_marker, is_read, is_read_alike, marker_after, marker_clauses, marker_extras,
    marker_without_extras, without_extras,
};
use crate::requirement::{
    copy_texts, entry_text, lemma_merged_is_unique, Requirement, RequirementView,
};
use crate::source::{
    classified, copy_opt_text, copy_text, opt_text, RequirementSourceView, Source, SourceError,
    SourceErrorView, SourceView,
};
use crate::text::texts;

verus! {

/// The kind of manifest that a command edits.
#[derive(Debug, Clone, Copy, PartialEq, Eq, Structural)]
pub enum Target {
    /// The metadata block of a single script: sources are never recorded.
    Script,
    /// The manifest of a project.
    Project,
}

/// What the caller asked for when adding requirements.
#[derive(Debug, Clone, PartialEq, Eq)]
pub struct AddOptions {
    /// Whether path sources are editable; `None` leaves it to the default.
    pub editable: Option<bool>,
    /// Keep each locator inline in the entry and record no source.
    pub raw_sources: bool,
    pub rev: Option<String>,
    pub tag: Option<String>,
    pub branch: Option<String>,
    /// Extras to add to every requirement.
    pub extras: Vec<String>,
    /// The table that the requirements go to.
    pub dependency_type: DependencyType,
}

/// The mathematical value of [`AddOptions`].
pub ghost struct AddOptionsView {
    pub editable: Option<bool>,
    pub raw_sources: bool,
    pub rev: Option<Seq<char>>,
    pub tag: Option<Seq<char>>,
    pub branch: Option<Seq<char>>,
    pub extras: Seq<Seq<char>>,
    pub dependency_type: DependencyTypeView,
}

impl View for AddOptions {
    type V = AddOptionsView;

    open spec fn view(&self) -> AddOptionsView {
        AddOptionsView {
            editable: self.editable,
            raw_sources: self.raw_sources,
            rev: opt_text(self.rev),
            tag: opt_text(self.tag),
            branch: opt_text(self.branch),
            extras: texts(self.extras@),
            dependency_type: self.dependency_type@,
        }
    }
}

/// Why a requirement could not be added.
#[derive(Debug, Clone, PartialEq, Eq)]
pub enum AddError {
    /// The requirement names a Git repository without saying which revision
    /// is meant.
    UnresolvedReference { requirement: String, locator: String },
    /// Any other failure to give the requirement a source.
    Source(SourceError),
}

/// The mathematical value of an [`AddError`].
pub ghost enum AddErrorView {
    UnresolvedReference { requirement: Seq<char>, locator: Seq<char> },
    Source(SourceErrorView),
}

impl View for AddError {
    type V = AddErrorView;

    open spec fn view(&self) -> AddErrorView {
        match *self {
            AddError::UnresolvedReference { requirement, locator } => {
                AddErrorView::UnresolvedReference { requirement: requirement@, locator: locator@ }
            },
            AddError::Source(error) => AddErrorView::Source(error@),
        }
    }
}

/// The report of an [`AddError`] to the user. An unresolved reference names
/// the requirement and every way out: the three reference flags and the flag
/// that keeps locators inline.
pub open spec fn error_message(error: AddErrorView) -> Seq<char> {
    match error {
        AddErrorView::UnresolvedReference { requirement, locator } => {
            "Cannot resolve Git reference `"@ + locator + "` for requirement `"@ + requirement
                + "`. Specify the reference with one of `--tag`, `--branch`, or `--rev`, or use the `--raw-sources` flag."@
        },
        AddErrorView::Source(SourceErrorView::UnresolvedReference(locator)) => {
            "Cannot resolve Git reference `"@ + locator + "`"@
        },
        AddErrorView::Source(SourceErrorView::Other(locator)) => {
            "More than one of `--tag`, `--branch`, and `--rev` was given for `"@ + locator + "`"@
        },
    }
}

impl AddError {
    /// The report of this error to the user.
    pub fn message(&self) -> (text: String)
        ensures
            text@ == error_message(self@),
    {
        match self {
            AddError::UnresolvedReference { requirement, locator } => {
                let mut text: String = String::from_str("Cannot resolve Git reference `");
                text.append(locator.as_str());
                text.append("` for requirement `");
                text.append(requirement.as_str());
                text.append(
                    "`. Specify the reference with one of `--tag`, `--branch`, or `--rev`, or use the `--raw-sources` flag.",
                );
                text
            },
            AddError::Source(SourceError::UnresolvedReference(locator)) => {
                let mut text: String = String::from_str("Cannot resolve Git reference `");
                text.append(locator.as_str());
                text.append("`");
                text
            },
            AddError::Source(SourceError::Other(locator)) => {
                let mut text: String = String::from_str(
                    "More than one of `--tag`, `--branch`, and `--rev` was given for `",
                );
                text.append(locator.as_str());
                text.append("`");
                text
            },
        }
    }
}

/// The error that a failed classification of the requirement `name` is
/// reported as.
pub open spec fn reported(name: Seq<char>, error: SourceErrorView) -> AddErrorView {
    match error {
        SourceErrorView::UnresolvedReference(locator) => AddErrorView::UnresolvedReference {
            requirement: name,
            locator,
        },
        SourceErrorView::Other(locator) => AddErrorView::Source(SourceErrorView::Other(locator)),
    }
}

/// The source that a requirement resolves to, or the error to report.
pub open spec fn resolution(
    requirement: RequirementView,
    workspace: bool,
    editable: Option<bool>,
    rev: Option<Seq<char>>,
    tag: Option<Seq<char>>,
    branch: Option<Seq<char>>,
) -> Result<SourceView, AddErrorView> {
    match classified(requirement.name, requirement.source, workspace, editable, rev, tag, branch) {
        Ok(source) => Ok(source),
        Err(error) => Err(reported(requirement.name, error)),
    }
}

/// The value of the result of resolving a requirement.
pub open spec fn resolution_view(result: Result<Source, AddError>) -> Result<SourceView, AddErrorView> {
    match result {
        Ok(source) => Ok(source@),
        Err(error) => Err(error@),
    }
}

/// Gives `requirement` its source, or says why it has none. `workspace` tells
/// whether the requirement's name is that of a member of the workspace.
pub fn resolve_requirement(
    requirement: &Requirement,
    workspace: bool,
    editable: Option<bool>,
    rev: Option<String>,
    tag: Option<String>,
    branch: Option<String>,
) -> (result: Result<Source, AddError>)
    ensures
        resolution_view(result) == resolution(
            requirement@,
            workspace,
            editable,
            opt_text(rev),
            opt_text(tag),
            opt_text(branch),
        ),
{
    match Source::from_requirement(
        &requirement.name,
        &requirement.source,
        workspace,
        editable,
        rev,
        tag,
        branch,
    ) {
        Ok(source) => Ok(source),
        Err(SourceError::UnresolvedReference(locator)) => Err(
            AddError::UnresolvedReference { requirement: copy_text(&requirement.name), locator },
        ),
        Err(SourceError::Other(locator)) => Err(AddError::Source(SourceError::Other(locator))),
    }
}

/// The source recorded for a requirement that is added: none for a script or
/// where locators stay inline; else the source that the requirement resolves
/// to under the caller's flags.
pub open spec fn planned_source(
    requirement: RequirementView,
    member: bool,
    target: Target,
    options: AddOptionsView,
) -> Result<Option<SourceView>, AddErrorView> {
    if target == Target::Script || options.raw_sources {
        Ok(None)
    } else {
        match resolution(
            requirement,
            member,
            options.editable,
            options.rev,
            options.tag,
            options.branch,
        ) {
            Ok(source) => Ok(Some(source)),
            Err(error) => Err(error),
        }
    }
}

/// The edit that adding a requirement comes to, or the error to report.
pub open spec fn planned_edit(
    requirement: RequirementView,
    member: bool,
    target: Target,
    options: AddOptionsView,
) -> Result<DependencyEditView, AddErrorView> {
    match planned_source(requirement, member, target, options) {
        Ok(source) => Ok(edit_for(requirement, source, options.dependency_type, options.extras)),
        Err(error) => Err(error),
    }
}

/// The value of the result of planning one requirement.
pub open spec fn edit_result_view(result: Result<DependencyEdit, AddError>) -> Result<
    DependencyEditView,
    AddErrorView,
> {
    match result {
        Ok(edit) => Ok(edit@),
        Err(error) => Err(error@),
    }
}

/// Plans the edit that adds `requirement`: merges the caller's extras into
/// it, decides its source, and strips the locator from the entry where a
/// source is recorded. `member` tells whether the requirement's name is that
/// of a member of the workspace.
pub fn plan_requirement(
    requirement: &Requirement,
    member: bool,
    target: Target,
    options: &AddOptions,
) -> (result: Result<DependencyEdit, AddError>)
    ensures
        edit_result_view(result) == planned_edit(requirement@, member, target, options@),
{
    let source = if target == Target::Script || options.raw_sources {
        None
    } else {
        match resolve_requirement(
            requirement,
            member,
            options.editable,
            copy_opt_text(&options.rev),
            copy_opt_text(&options.tag),
            copy_opt_text(&options.branch),
        ) {
            Ok(source) => Some(source),
            Err(error) => {
                return Err(error);
            },
        }
    };
    Ok(make_edit(requirement.duplicate(), source, options.dependency_type.duplicate(), &options.extras))
}

/// Adding a bare name without extras to a project, with no flag set, comes
/// to one edit: the name itself is the entry of the production table, and
/// the registry is its source.
pub proof fn lemma_bare_name_is_a_registry_entry(name: Seq<char>, options: AddOptionsView)
    requires
        options.extras.len() == 0,
        !options.raw_sources,
        options.dependency_type is Production,
    ensures
        planned_edit(
            RequirementView {
                name,
                extras: Seq::empty(),
                marker: None,
                source: RequirementSourceView::Registry { specifier: Seq::empty() },
            },
            false,
            Target::Project,
            options,
        ) == Ok::<DependencyEditView, AddErrorView>(
            DependencyEditView {
                dependency_type: DependencyTypeView::Production,
                requirement: RequirementView {
                    name,
                    extras: Seq::empty(),
                    marker: None,
                    source: RequirementSourceView::Registry { specifier: Seq::empty() },
                },
                source: Some(SourceView::Registry),
                entry: name,
            },
        ),
{
    let none = Seq::<Seq<char>>::empty();
    assert(none.to_set().union(options.extras.to_set()) =~= none.to_set());
    lemma_merged_is_unique(none, none, options.extras);
    let requirement = RequirementView {
        name,
        extras: none,
        marker: None,
        source: RequirementSourceView::Registry { specifier: Seq::empty() },
    };
    assert(entry_text(requirement, false) =~= name);
}

/// Whether `name` is one of `names`.
pub fn contains_text(names: &Vec<String>, name: &String) -> (found: bool)
    ensures
        found == texts(names@).contains(name@),
{
    let mut i: usize = 0;
    while i < names.len()
        invariant
            i <= names.len(),
            forall|k: int| 0 <= k < i ==> texts(names@)[k] != name@,
        decreases names.len() - i,
    {
        if names[i] == *name {
            assert(texts(names@)[i as int] == name@);
            return true;
        }
        assert(texts(names@)[i as int] == names@[i as int]@);
        i = i + 1;
    }
    false
}

/// The edit planned for the requirement at `index` of a batch, or its error.
pub open spec fn planned_at(
    requirements: Seq<RequirementView>,
    members: Seq<Seq<char>>,
    target: Target,
    options: AddOptionsView,
    index: int,
) -> Result<DependencyEditView, AddErrorView> {
    planned_edit(
        requirements[index],
        members.contains(requirements[index].name),
        target,
        options,
    )
}

/// The values of a list of requirements, in order.
pub open spec fn requirement_views(items: Seq<Requirement>) -> Seq<RequirementView> {
    Seq::new(items.len(), |i: int| items[i]@)
}

/// Plans the edits that add a batch of requirements, in the order of the
/// batch. `members` holds the names of the workspace's members. The batch
/// succeeds only as a whole: the first requirement that cannot be given a
/// source fails it, with that requirement's error.
pub fn plan_add(
    requirements: &Vec<Requirement>,
    members: &Vec<String>,
    target: Target,
    options: &AddOptions,
) -> (result: Result<Vec<DependencyEdit>, AddError>)
    ensures
        match result {
            Ok(edits) => {
                &&& edits@.len() == requirements@.len()
                &&& forall|i: int|
                    0 <= i < requirements@.len() ==> planned_at(
                        requirement_views(requirements@),
                        texts(members@),
                        target,
                        options@,
                        i,
                    ) == Ok::<DependencyEditView, AddErrorView>(#[trigger] edits@[i]@)
            },
            Err(error) => exists|failed: int|
                {
                    &&& 0 <= failed < requirements@.len()
                    &&& forall|i: int|
                        0 <= i < failed ==> (#[trigger] planned_at(
                            requirement_views(requirements@),
                            texts(members@),
                            target,
                            options@,
                            i,
                        )) is Ok
                    &&& planned_at(
                        requirement_views(requirements@),
                        texts(members@),
                        target,
                        options@,
                        failed,
                    ) == Err::<DependencyEditView, AddErrorView>(error@)
                },
        },
{
    let mut edits: Vec<DependencyEdit> = Vec::new();
    let ghost all = requirement_views(requirements@);
    let mut i: usize = 0;
    while i < requirements.len()
        invariant
            i <= requirements.len(),
            all == requirement_views(requirements@),
            edits@.len() == i,
            forall|k: int|
                0 <= k < i ==> planned_at(all, texts(members@), target, options@, k) == Ok::<
                    DependencyEditView,
                    AddErrorView,
                >(#[trigger] edits@[k]@),
        decreases requirements.len() - i,
    {
        let requirement = &requirements[i];
        assert(all[i as int] == requirement@);
        let member = contains_text(members, &requirement.name);
        match plan_requirement(requirement, member, target, options) {
            Ok(edit) => {
                edits.push(edit);
            },
            Err(error) => {
                proof {
                    assert(planned_at(all, texts(members@), target, options@, i as int) == Err::<
                        DependencyEditView,
                        AddErrorView,
                    >(error@));
                    assert forall|k: int| 0 <= k < i implies (#[trigger] planned_at(
                        all,
                        texts(members@),
                        target,
                        options@,
                        k,
                    )) is Ok by {
                        assert(planned_at(all, texts(members@), target, options@, k) == Ok::<
                            DependencyEditView,
                            AddErrorView,
                        >(edits@[k]@));
                    }
                }
                return Err(error);
            },
        }
        i = i + 1;
    }
    Ok(edits)
}

/// The edits that place `requirement` with `source`: one in the production
/// table where `extras` is empty, else one in the optional table of each
/// extra, in the order of `extras`.
pub open spec fn placed(
    requirement: RequirementView,
    source: SourceView,
    extras: Seq<Seq<char>>,
) -> Seq<DependencyEditView> {
    if extras.len() == 0 {
        seq![edit_for(requirement, Some(source), DependencyTypeView::Production, Seq::empty())]
    } else {
        Seq::new(
            extras.len(),
            |i: int|
                edit_for(
                    requirement,
                    Some(source),
                    DependencyTypeView::Optional(extras[i]),
                    Seq::empty(),
                ),
        )
    }
}

/// Places `requirement` with `source` in the manifest: among the production
/// dependencies where `extras` is empty, else under the optional group of
/// each extra.
pub fn place(requirement: &Requirement, source: &Source, extras: &Vec<String>) -> (edits: Vec<
    DependencyEdit,
>)
    ensures
        edit_views(edits@) == placed(requirement@, source@, texts(extras@)),
{
    let none: Vec<String> = Vec::new();
    assert(texts(none@) =~= Seq::<Seq<char>>::empty());
    let mut edits: Vec<DependencyEdit> = Vec::new();
    if extras.len() == 0 {
        edits.push(
            make_edit(
                requirement.duplicate(),
                Some(source.duplicate()),
                DependencyType::Production,
                &none,
            ),
        );
        assert(edit_views(edits@) =~= placed(requirement@, source@, texts(extras@)));
        return edits;
    }
    let mut i: usize = 0;
    while i < extras.len()
        invariant
            i <= extras.len(),
            edits@.len() == i,
            texts(none@) == Seq::<Seq<char>>::empty(),
            forall|k: int|
                0 <= k < i ==> (#[trigger] edits@[k])@ == edit_for(
                    requirement@,
                    Some(source@),
                    DependencyTypeView::Optional(texts(extras@)[k]),
                    Seq::empty(),
                ),
        decreases extras.len() - i,
    {
        edits.push(
            make_edit(
                requirement.duplicate(),
                Some(source.duplicate()),
                DependencyType::Optional(copy_text(&extras[i])),
                &none,
            ),
        );
        i = i + 1;
    }
    assert(edit_views(edits@) =~= placed(requirement@, source@, texts(extras@)));
    edits
}

/// What was read of one imported requirement outside this library: the
/// extras that its marker asks for, the marker that is left without them,
/// and the key of the repository of its source.
pub ghost struct Reading {
    pub extras: Seq<Seq<char>>,
    pub marker: Option<Seq<char>>,
    pub key: Option<Seq<char>>,
}

/// What every reading of a requirement with the source `source` meets. A
/// requirement without a marker, or with one that the marker parser is not
/// asked about, has no extras and keeps its marker. A marker that reads the
/// same in every process gives the extras of its disjunctive normal form and
/// keeps what is left of it without them. The key is one of the source.
pub open spec fn reading_fits(requirement: RequirementView, source: SourceView, reading: Reading) -> bool {
    &&& !is_read(requirement.marker) ==> reading.extras == Seq::<Seq<char>>::empty()
        && reading.marker == requirement.marker
    &&& is_read_alike(requirement.marker) ==> reading.extras == marker_extras(
        marker_clauses(requirement.marker->Some_0),
    ) && reading.marker == marker_after(
        requirement.marker,
        marker_without_extras(requirement.marker->Some_0, reading.extras),
    )
    &&& is_source_key(source, reading.key)
}

/// The edits that importing `requirement` with the source `source` comes to,
/// given what was read of it: the requirement takes the marker that is left,
/// its source is recorded without credentials, and it is placed under each
/// extra that its marker asked for.
pub open spec fn imported(
    requirement: RequirementView,
    source: SourceView,
    reading: Reading,
) -> Seq<DependencyEditView> {
    placed(
        RequirementView { marker: reading.marker, ..requirement },
        recorded(source),
        reading.extras,
    )
}

/// Builds the edits that import `requirement`, given the extras that its
/// marker asks for, the marker that is left without them, and the source as
/// the manifest records it.
pub fn import_edits(
    requirement: &Requirement,
    source: &Source,
    extras: &Vec<String>,
    marker: Option<String>,
) -> (edits: Vec<DependencyEdit>)
    ensures
        edit_views(edits@) == placed(
            RequirementView { marker: opt_text(marker), ..requirement@ },
            source@,
            texts(extras@),
        ),
{
    let simplified = Requirement {
        name: copy_text(&requirement.name),
        extras: copy_texts(&requirement.extras),
        marker,
        source: requirement.source.duplicate(),
    };
    place(&simplified, source, extras)
}

/// Imports one requirement of another project: the extras that its marker
/// asks for become optional groups, the marker keeps its other conditions,
/// and the credentials of a Git source go to `store` instead of the
/// manifest. No flag applies to an imported requirement. A requirement that
/// cannot be given a source changes nothing.
pub fn import_requirement(store: &mut CredentialStore, requirement: &Requirement, member: bool) -> (result:
    Result<Vec<DependencyEdit>, AddError>)
    requires
        old(store).wf(),
    ensures
        final(store).wf(),
        match resolution(requirement@, member, None, None, None, None) {
            Ok(source) => {
                &&& result matches Ok(edits)
                &&& exists|reading: Reading|
                    {
                        &&& reading_fits(requirement@, source, reading)
                        &&& edit_views(edits@) == #[trigger] imported(requirement@, source, reading)
                        &&& final(store)@ == store_with_source(old(store)@, source, reading.key)
                    }
            },
            Err(error) => {
                &&& result matches Err(found)
                &&& found@ == error
                &&& final(store)@ == old(store)@
            },
        },
{
    let extras = extras_of_marker(&requirement.marker);
    let source = match resolve_requirement(requirement, member, None, None, None, None) {
        Ok(source) => source,
        Err(error) => {
            return Err(error);
        },
    };
    let marker = without_extras(copy_opt_text(&requirement.marker), &extras);
    let ghost found = source@;
    let ghost left = opt_text(marker);
    let recorded_source = redact_source(store, source);
    let edits = import_edits(requirement, &recorded_source, &extras, marker);
    proof {
        let key = choose|key: Option<Seq<char>>|
            is_source_key(found, key) && store@ == #[trigger] store_with_source(
                old(store)@,
                found,
                key,
            );
        let reading = Reading { extras: texts(extras@), marker: left, key };
        assert(edit_views(edits@) == imported(requirement@, found, reading));
    }
    Ok(edits)
}

/// Where a run of imports stands: the credentials kept so far, and the
/// edits so far or the error that ended the run.
pub ghost struct ImportRun {
    pub store: Seq<(Seq<char>, CredentialsView)>,
    pub result: Result<Seq<DependencyEditView>, AddErrorView>,
}

/// The run of imports over the first `count` requirements, given what was
/// read of each. Requirements are imported in order; the first that cannot
/// be given a source ends the run with its error, and the credentials kept
/// until then stay kept.
pub open spec fn import_run(
    requirements: Seq<RequirementView>,
    members: Seq<Seq<char>>,
    store: Seq<(Seq<char>, CredentialsView)>,
    readings: Seq<Reading>,
    count: int,
) -> ImportRun
    decreases count,
{
    if count <= 0 {
        ImportRun { store, result: Ok(Seq::empty()) }
    } else {
        let before = import_run(requirements, members, store, readings, count - 1);
        match before.result {
            Err(_) => before,
            Ok(edits) => match resolution(
                requirements[count - 1],
                members.contains(requirements[count - 1].name),
                None,
                None,
                None,
                None,
            ) {
                Ok(source) => ImportRun {
                    store: store_with_source(before.store, source, readings[count - 1].key),
                    result: Ok(edits + imported(requirements[count - 1], source, readings[count - 1])),
                },
                Err(error) => ImportRun { store: before.store, result: Err(error) },
            },
        }
    }
}

/// A run that has ended with an error stays as it is, however many
/// requirements follow.
proof fn lemma_import_run_stays_failed(
    requirements: Seq<RequirementView>,
    members: Seq<Seq<char>>,
    store: Seq<(Seq<char>, CredentialsView)>,
    readings: Seq<Reading>,
    at: int,
    count: int,
)
    requires
        at <= count,
        import_run(requirements, members, store, readings, at).result is Err,
    ensures
        import_run(requirements, members, store, readings, count) == import_run(
            requirements,
            members,
            store,
            readings,
            at,
        ),
    decreases count - at,
{
    if at < count {
        lemma_import_run_stays_failed(requirements, members, store, readings, at, count - 1);
    }
}

/// A run over the first `count` requirements reads no more than the first
/// `count` readings.
proof fn lemma_import_run_reads_a_prefix(
    requirements: Seq<RequirementView>,
    members: Seq<Seq<char>>,
    store: Seq<(Seq<char>, CredentialsView)>,
    one: Seq<Reading>,
    other: Seq<Reading>,
    count: int,
)
    requires
        forall|k: int| 0 <= k < count ==> one[k] == other[k],
    ensures
        import_run(requirements, members, store, one, count) == import_run(
            requirements,
            members,
            store,
            other,
            count,
        ),
    decreases count,
{
    if count > 0 {
        lemma_import_run_reads_a_prefix(requirements, members, store, one, other, count - 1);
    }
}

/// The value of the result of a run of imports.
pub open spec fn edits_result_view(result: Result<Vec<DependencyEdit>, AddError>) -> Result<
    Seq<DependencyEditView>,
    AddErrorView,
> {
    match result {
        Ok(edits) => Ok(edit_views(edits@)),
        Err(error) => Err(error@),
    }
}

/// The reading of a requirement of which nothing was read.
pub open spec fn unread(requirement: RequirementView) -> Reading {
    Reading { extras: Seq::empty(), marker: requirement.marker, key: None }
}

/// The source that the requirement at `index` of a batch of imports
/// resolves to, or the error to report.
pub open spec fn resolved_at(
    requirements: Seq<RequirementView>,
    members: Seq<Seq<char>>,
    index: int,
) -> Result<SourceView, AddErrorView> {
    resolution(
        requirements[index],
        members.contains(requirements[index].name),
        None,
        None,
        None,
        None,
    )
}

/// Whether the readings of a run fit the requirements that the run
/// imported: each of the first `count`, as far as the run came.
pub open spec fn readings_fit(
    requirements: Seq<RequirementView>,
    members: Seq<Seq<char>>,
    store: Seq<(Seq<char>, CredentialsView)>,
    readings: Seq<Reading>,
    count: int,
) -> bool {
    forall|i: int|
        (0 <= i < count && (#[trigger] import_run(
            requirements,
            members,
            store,
            readings,
            i + 1,
        )).result is Ok) ==> fits_at(requirements, members, readings, i)
}

/// Whether the requirement at `index` resolves to a source and has a
/// reading that fits it.
pub open spec fn fits_at(
    requirements: Seq<RequirementView>,
    members: Seq<Seq<char>>,
    readings: Seq<Reading>,
    index: int,
) -> bool {
    &&& resolved_at(requirements, members, index) is Ok
    &&& reading_fits(
        requirements[index],
        resolved_at(requirements, members, index)->Ok_0,
        readings[index],
    )
}

/// Whether each of the first `count` requirements resolves to a source and
/// has a reading that fits it.
pub open spec fn all_fit(
    requirements: Seq<RequirementView>,
    members: Seq<Seq<char>>,
    readings: Seq<Reading>,
    count: int,
) -> bool {
    forall|k: int| 0 <= k < count ==> #[trigger] fits_at(requirements, members, readings, k)
}

/// Readings that fit stay fitting with one more that fits.
proof fn lemma_fit_extends(
    requirements: Seq<RequirementView>,
    members: Seq<Seq<char>>,
    readings: Seq<Reading>,
    reading: Reading,
    count: int,
)
    requires
        count == readings.len(),
        all_fit(requirements, members, readings, count),
        resolved_at(requirements, members, count) is Ok,
        reading_fits(
            requirements[count],
            resolved_at(requirements, members, count)->Ok_0,
            reading,
        ),
    ensures
        all_fit(requirements, members, readings.push(reading), count + 1),
{
    let more = readings.push(reading);
    assert forall|k: int| 0 <= k < count + 1 implies #[trigger] fits_at(
        requirements,
        members,
        more,
        k,
    ) by {
        if k < count {
            assert(more[k] == readings[k]);
            assert(fits_at(requirements, members, readings, k));
        }
    }
}

/// Imports the requirements of another project, in order. `members` holds
/// the names of the workspace's members. The import succeeds only as a
/// whole.
pub fn import_requirements(
    store: &mut CredentialStore,
    requirements: &Vec<Requirement>,
    members: &Vec<String>,
) -> (result: Result<Vec<DependencyEdit>, AddError>)
    requires
        old(store).wf(),
    ensures
        final(store).wf(),
        exists|readings: Seq<Reading>|
            {
                &&& readings.len() == requirements@.len()
                &&& readings_fit(
                    requirement_views(requirements@),
                    texts(members@),
                    old(store)@,
                    readings,
                    requirements@.len() as int,
                )
                &&& #[trigger] import_run(
                    requirement_views(requirements@),
                    texts(members@),
                    old(store)@,
                    readings,
                    requirements@.len() as int,
                ) == (ImportRun { store: final(store)@, result: edits_result_view(result) })
            },
{
    let ghost all = requirement_views(requirements@);
    let ghost names = texts(members@);
    let ghost start = store@;
    let ghost mut readings: Seq<Reading> = Seq::empty();
    let mut edits: Vec<DependencyEdit> = Vec::new();
    let mut i: usize = 0;
    assert(edit_views(edits@) =~= Seq::<DependencyEditView>::empty());
    while i < requirements.len()
        invariant
            i <= requirements.len(),
            store.wf(),
            start == old(store)@,
            names == texts(members@),
            all == requirement_views(requirements@),
            readings.len() == i,
            all_fit(all, names, readings, i as int),
            import_run(all, names, start, readings, i as int) == (ImportRun {
                store: store@,
                result: Ok(edit_views(edits@)),
            }),
        decreases requirements.len() - i,
    {
        let requirement = &requirements[i];
        assert(all[i as int] == requirement@);
        let member = contains_text(members, &requirement.name);
        let ghost kept = store@;
        let ghost collected = edit_views(edits@);
        let ghost read = readings;
        match import_requirement(store, requirement, member) {
            Ok(more) => {
                let mut k: usize = 0;
                assert(edit_views(edits@) =~= collected + edit_views(more@).take(0));
                while k < more.len()
                    invariant
                        k <= more.len(),
                        edit_views(edits@) == collected + edit_views(more@).take(k as int),
                    decreases more.len() - k,
                {
                    let ghost so_far = edit_views(edits@);
                    edits.push(more[k].duplicate());
                    assert(edit_views(edits@) =~= so_far.push(more@[k as int]@));
                    assert(edit_views(more@).take(k + 1) =~= edit_views(more@).take(k as int).push(
                        more@[k as int]@,
                    ));
                    assert(edit_views(edits@) =~= collected + edit_views(more@).take(k + 1));
                    k = k + 1;
                }
                assert(edit_views(more@).take(more.len() as int) =~= edit_views(more@));
                proof {
                    let source = resolved_at(all, names, i as int)->Ok_0;
                    let reading = choose|reading: Reading|
                        {
                            &&& reading_fits(requirement@, source, reading)
                            &&& edit_views(more@) == #[trigger] imported(
                                requirement@,
                                source,
                                reading,
                            )
                            &&& store@ == store_with_source(kept, source, reading.key)
                        };
                    readings = read.push(reading);
                    lemma_import_run_reads_a_prefix(all, names, start, read, readings, i as int);
                    assert(import_run(all, names, start, readings, i + 1) == (ImportRun {
                        store: store@,
                        result: Ok(collected + edit_views(more@)),
                    }));
                    assert(all[i as int] == requirement@);
                    assert(reading_fits(
                        all[i as int],
                        resolved_at(all, names, i as int)->Ok_0,
                        reading,
                    ));
                    lemma_fit_extends(all, names, read, reading, i as int);
                }
            },
            Err(error) => {
                proof {
                    let count = requirements@.len() as int;
                    let padded = Seq::new(
                        count as nat,
                        |k: int|
                            if k < i {
                                read[k]
                            } else {
                                unread(all[k])
                            },
                    );
                    lemma_import_run_reads_a_prefix(all, names, start, read, padded, i as int);
                    let failed = import_run(all, names, start, padded, i + 1);
                    assert(failed.result == Err::<Seq<DependencyEditView>, AddErrorView>(error@));
                    assert(failed.store == store@);
                    lemma_import_run_stays_failed(all, names, start, padded, i + 1, count);
                    assert(import_run(all, names, start, padded, count) == (ImportRun {
                        store: store@,
                        result: edits_result_view(Err::<Vec<DependencyEdit>, AddError>(error)),
                    }));
                    assert forall|k: int|
                        (0 <= k < count && (#[trigger] import_run(
                            all,
                            names,
                            start,
                            padded,
                            k + 1,
                        )).result is Ok) implies fits_at(all, names, padded, k) by {
                        if k >= i {
                            lemma_import_run_stays_failed(all, names, start, padded, i + 1, k + 1);
                        } else {
                            assert(padded[k] == read[k]);
                            assert(fits_at(all, names, read, k));
                        }
                    }
                    assert(readings_fit(all, names, start, padded, count));
                }
                return Err(error);
            },
        }
        i = i + 1;
    }
    assert(readings_fit(all, names, start, readings, requirements@.len() as int));
    Ok(edits)
}

/// Requirements without markers are imported one edit each, in the order
/// of the requirements: the edit at an index places the requirement of that
/// index among the production dependencies, with its source as the manifest
/// records it.
pub proof fn lemma_imports_keep_input_order(
    requirements: Seq<RequirementView>,
    members: Seq<Seq<char>>,
    store: Seq<(Seq<char>, CredentialsView)>,
    readings: Seq<Reading>,
    count: int,
)
    requires
        0 <= count <= requirements.len(),
        count <= readings.len(),
        forall|i: int| 0 <= i < count ==> (#[trigger] requirements[i]).marker is None,
        readings_fit(requirements, members, store, readings, count),
        import_run(requirements, members, store, readings, count).result is Ok,
    ensures
        import_run(requirements, members, store, readings, count).result->Ok_0.len() == count,
        forall|i: int|
            0 <= i < count ==> (#[trigger] import_run(
                requirements,
                members,
                store,
                readings,
                count,
            ).result->Ok_0[i]) == edit_for(
                requirements[i],
                Some(recorded(resolved_at(requirements, members, i)->Ok_0)),
                DependencyTypeView::Production,
                Seq::empty(),
            ),
    decreases count,
{
    if count > 0 {
        let before = import_run(requirements, members, store, readings, count - 1);
        assert(before.result is Ok);
        assert forall|i: int|
            (0 <= i < count - 1 && (#[trigger] import_run(
                requirements,
                members,
                store,
                readings,
                i + 1,
            )).result is Ok) implies fits_at(requirements, members, readings, i) by {
        }
        lemma_imports_keep_input_order(requirements, members, store, readings, count - 1);
        let last = requirements[count - 1];
        let source = resolved_at(requirements, members, count - 1)->Ok_0;
        assert(import_run(requirements, members, store, readings, (count - 1) + 1).result is Ok);
        assert(fits_at(requirements, members, readings, count - 1));
        assert(reading_fits(last, source, readings[count - 1]));
        assert(readings[count - 1].extras == Seq::<Seq<char>>::empty());
        assert(readings[count - 1].marker == last.marker);
        let placed_last = imported(last, source, readings[count - 1]);
        assert(RequirementView { marker: readings[count - 1].marker, ..last } == last);
        assert(placed_last == seq![
            edit_for(last, Some(recorded(source)), DependencyTypeView::Production, Seq::empty()),
        ]);
        assert(import_run(requirements, members, store, readings, count).result->Ok_0
            == before.result->Ok_0 + placed_last);
    }
}

} // verus!
