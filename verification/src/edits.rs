//! The edits that a command collects for a manifest: one per requirement and
//! dependency table, kept in order until the manifest is rendered.

use vstd::prelude::*;
use crate::requirement::{
    entry_text, merged, read_requirement_name, requirement_name, Requirement, RequirementView,
};
use crate::manifest::{
    apply_edit, lemma_rendering_stays_failed, rendered, text_result_view, ManifestError,
    ManifestErrorView,
};
use crate::source::{copy_text, Source, SourceView};
use crate::text::texts;

verus! {

/// The table of the manifest that a dependency belongs to.
#[derive(Debug, Clone, PartialEq, Eq)]
pub enum DependencyType {
    /// `project.dependencies`.
    Production,
    /// The table of development dependencies.
    Dev,
    /// `project.optional-dependencies.<group>`.
    Optional(String),
}

/// The mathematical value of a [`DependencyType`].
pub ghost enum DependencyTypeView {
    Production,
    Dev,
    Optional(Seq<char>),
}

impl View for DependencyType {
    type V = DependencyTypeView;

    open spec fn view(&self) -> DependencyTypeView {
        match *self {
            DependencyType::Production => DependencyTypeView::Production,
            DependencyType::Dev => DependencyTypeView::Dev,
            DependencyType::Optional(group) => DependencyTypeView::Optional(group@),
        }
    }
}

/// The dotted name of the manifest table of a dependency type.
pub open spec fn table_name(dependency_type: DependencyTypeView) -> Seq<char> {
    match dependency_type {
        DependencyTypeView::Production => "project.dependencies"@,
        DependencyTypeView::Dev => "tool.uv.dev-dependencies"@,
        DependencyTypeView::Optional(group) => "project.optional-dependencies."@ + group,
    }
}

impl DependencyType {
    /// A copy with the same value.
    pub fn duplicate(&self) -> (copy: DependencyType)
        ensures
            copy@ == self@,
    {
        match self {
            DependencyType::Production => DependencyType::Production,
            DependencyType::Dev => DependencyType::Dev,
            DependencyType::Optional(group) => DependencyType::Optional(copy_text(group)),
        }
    }

    /// Whether both name the same table.
    pub fn same_table(&self, other: &DependencyType) -> (same: bool)
        ensures
            same == (self@ == other@),
    {
        match (self, other) {
            (DependencyType::Production, DependencyType::Production) => true,
            (DependencyType::Dev, DependencyType::Dev) => true,
            (DependencyType::Optional(mine), DependencyType::Optional(theirs)) => *mine == *theirs,
            _ => false,
        }
    }

    /// The dotted name of the manifest table that edits of this type go to.
    pub fn table(&self) -> (name: String)
        ensures
            name@ == table_name(self@),
    {
        match self {
            DependencyType::Production => String::from_str("project.dependencies"),
            DependencyType::Dev => String::from_str("tool.uv.dev-dependencies"),
            DependencyType::Optional(group) => {
                let mut name: String = String::from_str("project.optional-dependencies.");
                name.append(group.as_str());
                name
            },
        }
    }
}

/// One edit to a manifest: a requirement, the table it goes to, the source
/// recorded beside it, and the text written into the table.
#[derive(Debug, Clone, PartialEq, Eq)]
pub struct DependencyEdit {
    pub dependency_type: DependencyType,
    pub requirement: Requirement,
    /// The structured source, where the manifest records one apart from the
    /// entry's text.
    pub source: Option<Source>,
    /// The requirement as the table holds it.
    pub entry: String,
}

/// The mathematical value of a [`DependencyEdit`].
pub ghost struct DependencyEditView {
    pub dependency_type: DependencyTypeView,
    pub requirement: RequirementView,
    pub source: Option<SourceView>,
    pub entry: Seq<char>,
}

/// The value of an optional source.
pub open spec fn opt_source(source: Option<Source>) -> Option<SourceView> {
    match source {
        Some(found) => Some(found@),
        None => None,
    }
}

impl View for DependencyEdit {
    type V = DependencyEditView;

    open spec fn view(&self) -> DependencyEditView {
        DependencyEditView {
            dependency_type: self.dependency_type@,
            requirement: self.requirement@,
            source: opt_source(self.source),
            entry: self.entry@,
        }
    }
}

/// The values of a list of edits, in order.
pub open spec fn edit_views(edits: Seq<DependencyEdit>) -> Seq<DependencyEditView> {
    Seq::new(edits.len(), |i: int| edits[i]@)
}

/// A copy of an optional source, with the same value.
pub fn copy_opt_source(source: &Option<Source>) -> (copy: Option<Source>)
    ensures
        opt_source(copy) == opt_source(*source),
{
    match source {
        Some(found) => Some(found.duplicate()),
        None => None,
    }
}

impl DependencyEdit {
    /// A copy with the same value.
    pub fn duplicate(&self) -> (copy: DependencyEdit)
        ensures
            copy@ == self@,
    {
        DependencyEdit {
            dependency_type: self.dependency_type.duplicate(),
            requirement: self.requirement.duplicate(),
            source: copy_opt_source(&self.source),
            entry: copy_text(&self.entry),
        }
    }
}

/// The edit that adds `requirement` with the extras `added` to the table
/// `dependency_type`, recording `source`: the extras are merged, nothing else
/// of the requirement changes, and the entry keeps the locator inline exactly
/// where no source is recorded.
pub open spec fn edit_for(
    requirement: RequirementView,
    source: Option<SourceView>,
    dependency_type: DependencyTypeView,
    added: Seq<Seq<char>>,
) -> DependencyEditView {
    let with_extras = RequirementView { extras: merged(requirement.extras, added), ..requirement };
    DependencyEditView {
        dependency_type,
        requirement: with_extras,
        source,
        entry: entry_text(with_extras, source is None),
    }
}

/// Builds the edit that adds `requirement` with the extras `added` to the
/// table `dependency_type`, recording `source`.
pub fn make_edit(
    requirement: Requirement,
    source: Option<Source>,
    dependency_type: DependencyType,
    added: &Vec<String>,
) -> (edit: DependencyEdit)
    ensures
        edit@ == edit_for(requirement@, opt_source(source), dependency_type@, texts(added@)),
{
    let requirement = requirement.with_extras(added);
    let entry = requirement.entry(source.is_none());
    DependencyEdit { dependency_type, requirement, source, entry }
}

/// The edits collected for one manifest, with the text that the manifest had
/// when it was loaded.
pub struct EditAccumulator {
    loaded: String,
    edits: Vec<DependencyEdit>,
}

/// The mathematical value of an [`EditAccumulator`].
pub ghost struct EditAccumulatorView {
    pub loaded: Seq<char>,
    pub edits: Seq<DependencyEditView>,
}

/// The tables that the first `count` edits touch, each once, in the order of
/// first use.
pub open spec fn tables_used(edits: Seq<DependencyEditView>, count: int) -> Seq<DependencyTypeView>
    decreases count,
{
    if count <= 0 {
        Seq::empty()
    } else {
        let before = tables_used(edits, count - 1);
        if before.contains(edits[count - 1].dependency_type) {
            before
        } else {
            before.push(edits[count - 1].dependency_type)
        }
    }
}

/// The values of a list of dependency types, in order.
pub open spec fn type_views(types: Seq<DependencyType>) -> Seq<DependencyTypeView> {
    Seq::new(types.len(), |i: int| types[i]@)
}

impl View for EditAccumulator {
    type V = EditAccumulatorView;

    closed spec fn view(&self) -> EditAccumulatorView {
        EditAccumulatorView { loaded: self.loaded@, edits: edit_views(self.edits@) }
    }
}

impl EditAccumulator {
    /// An accumulator without edits for the manifest text `loaded`.
    pub fn new(loaded: String) -> (accumulator: EditAccumulator)
        ensures
            accumulator@.loaded == loaded@,
            accumulator@.edits == Seq::<DependencyEditView>::empty(),
    {
        let accumulator = EditAccumulator { loaded, edits: Vec::new() };
        assert(accumulator@.edits =~= Seq::<DependencyEditView>::empty());
        accumulator
    }

    /// How many edits were collected.
    pub fn len(&self) -> (count: usize)
        ensures
            count == self@.edits.len(),
    {
        self.edits.len()
    }

    /// The edit at `index`.
    pub fn get(&self, index: usize) -> (edit: Option<DependencyEdit>)
        ensures
            index < self@.edits.len() ==> (edit matches Some(found) && found@ == self@.edits[index as int]),
            index >= self@.edits.len() ==> edit is None,
    {
        if index < self.edits.len() {
            Some(self.edits[index].duplicate())
        } else {
            None
        }
    }

    /// Collects one edit: `requirement`, with the extras `added` merged into
    /// its own, goes to the table `dependency_type` and `source` is recorded
    /// for it. Returns the edit.
    pub fn add_dependency(
        &mut self,
        requirement: Requirement,
        source: Option<Source>,
        dependency_type: DependencyType,
        added: &Vec<String>,
    ) -> (edit: DependencyEdit)
        ensures
            edit@ == edit_for(requirement@, opt_source(source), dependency_type@, texts(added@)),
            final(self)@.loaded == old(self)@.loaded,
            final(self)@.edits == old(self)@.edits.push(edit@),
    {
        let edit = make_edit(requirement, source, dependency_type, added);
        self.push(edit.duplicate());
        edit
    }

    /// Collects an edit that was built before.
    pub fn push(&mut self, edit: DependencyEdit)
        ensures
            final(self)@.loaded == old(self)@.loaded,
            final(self)@.edits == old(self)@.edits.push(edit@),
    {
        self.edits.push(edit);
        assert(edit_views(self.edits@) =~= edit_views(old(self).edits@).push(edit@));
    }

    /// Collects the edits of `edits`, in order.
    pub fn extend(&mut self, edits: Vec<DependencyEdit>)
        ensures
            final(self)@.loaded == old(self)@.loaded,
            final(self)@.edits == old(self)@.edits + edit_views(edits@),
    {
        let mut i: usize = 0;
        assert(self@.edits =~= old(self)@.edits + edit_views(edits@).take(0));
        while i < edits.len()
            invariant
                i <= edits.len(),
                self@.loaded == old(self)@.loaded,
                self@.edits == old(self)@.edits + edit_views(edits@).take(i as int),
            decreases edits.len() - i,
        {
            let ghost before = self@.edits;
            self.push(edits[i].duplicate());
            assert(self@.edits =~= old(self)@.edits + edit_views(edits@).take(i + 1)) by {
                assert(edit_views(edits@).take(i + 1) =~= edit_views(edits@).take(i as int).push(
                    edits@[i as int]@,
                ));
            }
            i = i + 1;
        }
        assert(edit_views(edits@).take(edits.len() as int) =~= edit_views(edits@));
    }

    /// The tables that the edits touch, each once, in the order in which the
    /// edits first use them. A table of optional dependencies that does not
    /// exist yet is created when its first edit is applied.
    pub fn tables(&self) -> (tables: Vec<DependencyType>)
        ensures
            type_views(tables@) == tables_used(self@.edits, self@.edits.len() as int),
    {
        let mut tables: Vec<DependencyType> = Vec::new();
        let mut i: usize = 0;
        assert(type_views(tables@) =~= tables_used(self@.edits, 0));
        while i < self.edits.len()
            invariant
                i <= self.edits.len(),
                type_views(tables@) == tables_used(self@.edits, i as int),
            decreases self.edits.len() - i,
        {
            let wanted = &self.edits[i].dependency_type;
            assert(wanted@ == self@.edits[i as int].dependency_type);
            let ghost known = type_views(tables@);
            let mut found: bool = false;
            let mut j: usize = 0;
            while j < tables.len()
                invariant
                    j <= tables.len(),
                    known == type_views(tables@),
                    found == known.take(j as int).contains(wanted@),
                decreases tables.len() - j,
            {
                let ghost seen = known.take(j as int);
                if tables[j].same_table(wanted) {
                    found = true;
                }
                proof {
                    let next = known.take(j + 1);
                    assert(next =~= seen.push(known[j as int]));
                    assert(known[j as int] == tables@[j as int]@);
                    if seen.contains(wanted@) {
                        let k = choose|k: int| 0 <= k < seen.len() && seen[k] == wanted@;
                        assert(next[k] == wanted@);
                    }
                    if known[j as int] == wanted@ {
                        assert(next[j as int] == wanted@);
                    }
                }
                j = j + 1;
            }
            assert(known.take(tables.len() as int) =~= known);
            if !found {
                tables.push(wanted.duplicate());
                assert(type_views(tables@) =~= known.push(wanted@));
            }
            i = i + 1;
        }
        tables
    }

    /// The text of the manifest after the edits: each edit is applied to
    /// the text that the edits before it left, beginning with the text that
    /// was loaded; the first edit that cannot be applied ends the rendering.
    pub fn render(&self) -> (result: Result<String, ManifestError>)
        ensures
            text_result_view(result) == rendered(
                self@.loaded,
                self@.edits,
                self@.edits.len() as int,
            ),
    {
        let mut content: String = copy_text(&self.loaded);
        let mut i: usize = 0;
        while i < self.edits.len()
            invariant
                i <= self.edits.len(),
                rendered(self@.loaded, self@.edits, i as int) == Ok::<Seq<char>, ManifestErrorView>(
                    content@,
                ),
            decreases self.edits.len() - i,
        {
            assert(self@.edits[i as int] == self.edits@[i as int]@);
            match apply_edit(&content, &self.edits[i]) {
                Ok(next) => {
                    content = next;
                },
                Err(error) => {
                    proof {
                        lemma_rendering_stays_failed(
                            self@.loaded,
                            self@.edits,
                            i + 1,
                            self@.edits.len() as int,
                        );
                    }
                    return Err(error);
                },
            }
            i = i + 1;
        }
        Ok(content)
    }

    /// Whether `content` differs from the text that was loaded, so that the
    /// manifest has to be written.
    pub fn is_modified(&self, content: &String) -> (modified: bool)
        ensures
            modified == (content@ != self@.loaded),
    {
        !(*content == self.loaded)
    }
}

/// Rendering a manifest for which no edit was collected gives back the text
/// that was loaded, character for character, so that nothing is to be
/// written.
pub proof fn lemma_render_without_edits(accumulator: EditAccumulatorView)
    requires
        accumulator.edits.len() == 0,
    ensures
        rendered(accumulator.loaded, accumulator.edits, accumulator.edits.len() as int) == Ok::<
            Seq<char>,
            ManifestErrorView,
        >(accumulator.loaded),
{
}

/// Where an entry goes in a table that holds entries already.
#[derive(Debug, Clone, Copy, PartialEq, Eq, Structural)]
pub enum Placement {
    /// No entry of the table names the package: the entry is appended.
    Append,
    /// One entry names the package: the entry replaces it, at this index.
    Replace(usize),
    /// Several entries name the package: the table is left alone.
    Ambiguous,
}

/// Of the first `count` entries, the indices of those that name the package
/// `name`, in order.
pub open spec fn matching_entries(entries: Seq<Seq<char>>, name: Seq<char>, count: int) -> Seq<int>
    decreases count,
{
    if count <= 0 {
        Seq::empty()
    } else if requirement_name(entries[count - 1]) == Some(name) {
        matching_entries(entries, name, count - 1).push(count - 1)
    } else {
        matching_entries(entries, name, count - 1)
    }
}

/// Where an entry for the package `name` goes among `entries`.
pub open spec fn placement_of(entries: Seq<Seq<char>>, name: Seq<char>) -> Placement {
    let found = matching_entries(entries, name, entries.len() as int);
    if found.len() == 0 {
        Placement::Append
    } else if found.len() == 1 {
        Placement::Replace(found[0] as usize)
    } else {
        Placement::Ambiguous
    }
}

/// Decides where an entry for the package `name` goes in a table that holds
/// `entries`: an entry of the same package is replaced, and a package that
/// the table names more than once is not touched.
pub fn place_entry(entries: &Vec<String>, name: &String) -> (placement: Placement)
    ensures
        placement == placement_of(texts(entries@), name@),
{
    let ghost all = texts(entries@);
    let mut count: usize = 0;
    let mut first: usize = 0;
    let mut i: usize = 0;
    while i < entries.len()
        invariant
            i <= entries.len(),
            all == texts(entries@),
            count <= i,
            count <= 2,
            count == 2 || count == matching_entries(all, name@, i as int).len(),
            count == 2 ==> matching_entries(all, name@, i as int).len() >= 2,
            count == 1 ==> matching_entries(all, name@, i as int)[0] == first,
        decreases entries.len() - i,
    {
        assert(all[i as int] == entries@[i as int]@);
        let found = match read_requirement_name(entries[i].as_str()) {
            Some(entry_name) => entry_name == *name,
            None => false,
        };
        if found && count < 2 {
            if count == 0 {
                first = i;
            }
            count = count + 1;
        }
        i = i + 1;
    }
    if count == 0 {
        Placement::Append
    } else if count == 1 {
        Placement::Replace(first)
    } else {
        Placement::Ambiguous
    }
}

} // verus!
