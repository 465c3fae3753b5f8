//! Applying edits to the text of a manifest: which table an entry goes to,
//! whether it is appended or replaces an entry, and what is written to the
//! table of sources. The text itself is read and written by a TOML editor
//! that keeps what it does not touch.

use vstd::prelude::*;
use crate::edits::{
    place_entry, placement_of, DependencyEdit, DependencyEditView, DependencyType,
    DependencyTypeView, Placement,
};
use crate::source::{copy_text, opt_text, Source, SourceView};
use crate::text::texts;

verus! {

/// A value of the table of sources.
#[derive(Debug, Clone, PartialEq, Eq)]
pub enum Field {
    Text(String),
    Flag(bool),
    /// Any value that is neither a string nor a flag.
    Other,
}

/// The mathematical value of a [`Field`].
pub ghost enum FieldView {
    Text(Seq<char>),
    Flag(bool),
    Other,
}

impl View for Field {
    type V = FieldView;

    open spec fn view(&self) -> FieldView {
        match *self {
            Field::Text(text) => FieldView::Text(text@),
            Field::Flag(flag) => FieldView::Flag(flag),
            Field::Other => FieldView::Other,
        }
    }
}

/// The values of a list of keys and fields, in order.
pub open spec fn fields_view(fields: Seq<(String, Field)>) -> Seq<(Seq<char>, FieldView)> {
    Seq::new(fields.len(), |i: int| (fields[i].0@, fields[i].1@))
}

/// The value of a list that may be missing, in a text that may be no
/// manifest.
pub open spec fn found_texts(found: Option<Option<Vec<String>>>) -> Option<Option<Seq<Seq<char>>>> {
    match found {
        Some(Some(items)) => Some(Some(texts(items@))),
        Some(None) => Some(None),
        None => None,
    }
}

/// The value of fields that may be missing, in a text that may be no
/// manifest.
pub open spec fn found_fields(found: Option<Option<Vec<(String, Field)>>>) -> Option<
    Option<Seq<(Seq<char>, FieldView)>>,
> {
    match found {
        Some(Some(fields)) => Some(Some(fields_view(fields@))),
        Some(None) => Some(None),
        None => None,
    }
}

/// The entries of the array `key` in the table at `path` of the manifest
/// `text`: `Some(None)` where the manifest has no such array, `None` where
/// `text` is no manifest or the array holds more than strings.
pub uninterp spec fn table_entries(text: Seq<char>, path: Seq<Seq<char>>, key: Seq<char>) -> Option<
    Option<Seq<Seq<char>>>,
>;

/// The manifest `text` with `entry` appended to the array `key` in the
/// table at `path`; `None` where `text` is no manifest or the place is
/// taken by something else.
pub uninterp spec fn with_pushed(
    text: Seq<char>,
    path: Seq<Seq<char>>,
    key: Seq<char>,
    entry: Seq<char>,
) -> Option<Seq<char>>;

/// The manifest `text` with `entry` in place of the entry at `index` of the
/// array `key` in the table at `path`.
pub uninterp spec fn with_replaced(
    text: Seq<char>,
    path: Seq<Seq<char>>,
    key: Seq<char>,
    index: int,
    entry: Seq<char>,
) -> Option<Seq<char>>;

/// The keys and values under `name` in the table at `path` of the manifest
/// `text`: `Some(None)` where the manifest has nothing there, `None` where
/// `text` is no manifest or what is there is no table.
pub uninterp spec fn table_fields(text: Seq<char>, path: Seq<Seq<char>>, name: Seq<char>) -> Option<
    Option<Seq<(Seq<char>, FieldView)>>,
>;

/// The manifest `text` with `fields` under `name` in the table at `path`;
/// `None` where `text` is no manifest or the place is taken by something
/// else.
pub uninterp spec fn with_fields(
    text: Seq<char>,
    path: Seq<Seq<char>>,
    name: Seq<char>,
    fields: Seq<(Seq<char>, FieldView)>,
) -> Option<Seq<char>>;

/// Reads an array of a manifest.
///
/// Trusted: parses with `toml_edit::DocumentMut::from_str`, walks down with
/// `Item::get` and hands out `Value::as_str` of each item of the array that
/// `Item::as_array` gives. The contract only names that result.
#[verifier::external_body]
fn read_entries(text: &str, path: &Vec<String>, key: &str) -> (found: Option<Option<Vec<String>>>)
    ensures
        found_texts(found) == table_entries(text@, texts(path@), key@),
{
    let document = text.parse::<toml_edit::DocumentMut>().ok()?;
    let table = path.iter().try_fold(document.as_item(), |item, part| item.get(part));
    match table.and_then(|table| table.get(key)) {
        None => Some(None),
        Some(item) => Some(Some(item.as_array()?.iter().map(|value| value.as_str().map(str::to_string)).collect::<Option<_>>()?)),
    }
}

/// Appends an entry to an array of a manifest.
///
/// Trusted: parses with `toml_edit::DocumentMut::from_str`, walks down with
/// `Table::entry`, creating what is missing, calls `Array::push` and hands
/// out the document's text. The contract only names that result.
#[verifier::external_body]
fn push_entry(text: &str, path: &Vec<String>, key: &str, entry: &str) -> (pushed: Option<String>)
    ensures
        opt_text(pushed) == with_pushed(text@, texts(path@), key@, entry@),
{
    let mut document = text.parse::<toml_edit::DocumentMut>().ok()?;
    let table = path.iter().try_fold(document.as_table_mut(), |table, part| {
        table.entry(part).or_insert(toml_edit::table()).as_table_mut()
    })?;
    table.entry(key).or_insert(toml_edit::value(toml_edit::Array::new())).as_array_mut()?.push(entry);
    Some(document.to_string())
}

/// Replaces an entry of an array of a manifest.
///
/// Trusted: parses with `toml_edit::DocumentMut::from_str`, walks down with
/// `Item::get_mut`, calls `Array::replace` and hands out the document's
/// text. The contract only names that result. `Array::replace` panics on an
/// index past the end, which `requires` leaves out.
#[verifier::external_body]
fn replace_entry(text: &str, path: &Vec<String>, key: &str, index: usize, entry: &str) -> (replaced:
    Option<String>)
    requires
        table_entries(text@, texts(path@), key@) matches Some(Some(entries)) && index
            < entries.len(),
    ensures
        opt_text(replaced) == with_replaced(text@, texts(path@), key@, index as int, entry@),
{
    let mut document = text.parse::<toml_edit::DocumentMut>().ok()?;
    let table = path.iter().try_fold(document.as_item_mut(), |item, part| item.get_mut(part))?;
    table.get_mut(key)?.as_array_mut()?.replace(index, entry);
    Some(document.to_string())
}

/// Reads the keys and values of one table of a manifest.
///
/// Trusted: parses with `toml_edit::DocumentMut::from_str`, walks down with
/// `Item::get` and hands out each key of what `Item::as_table_like` gives,
/// with its value by its variant. The contract only names that result.
#[verifier::external_body]
fn read_fields(text: &str, path: &Vec<String>, name: &str) -> (found: Option<
    Option<Vec<(String, Field)>>,
>)
    ensures
        found_fields(found) == table_fields(text@, texts(path@), name@),
{
    let document = text.parse::<toml_edit::DocumentMut>().ok()?;
    let table = path.iter().try_fold(document.as_item(), |item, part| item.get(part));
    match table.and_then(|table| table.get(name)) {
        None => Some(None),
        Some(item) => Some(Some(item.as_table_like()?.iter().map(|(key, value)| (key.to_string(), match value.as_value() {
            Some(toml_edit::Value::String(text)) => Field::Text(text.value().clone()),
            Some(toml_edit::Value::Boolean(flag)) => Field::Flag(*flag.value()),
            _ => Field::Other,
        })).collect())),
    }
}

/// Whether every field of a list is a string or a flag.
pub open spec fn writable(fields: Seq<(Seq<char>, FieldView)>) -> bool {
    forall|i: int| 0 <= i < fields.len() ==> !((#[trigger] fields[i]).1 is Other)
}

/// Writes keys and values under a name of one table of a manifest.
///
/// Trusted: parses with `toml_edit::DocumentMut::from_str`, walks down with
/// `Table::entry`, creating what is missing, makes a
/// `toml_edit::InlineTable` of the fields, puts it under the name with
/// `Table::insert` and hands out the document's text. The contract only
/// names that result, for fields that are strings and flags.
#[verifier::external_body]
fn write_fields(text: &str, path: &Vec<String>, name: &str, fields: &Vec<(String, Field)>) -> (written:
    Option<String>)
    requires
        writable(fields_view(fields@)),
    ensures
        opt_text(written) == with_fields(text@, texts(path@), name@, fields_view(fields@)),
{
    let mut document = text.parse::<toml_edit::DocumentMut>().ok()?;
    let table = path.iter().try_fold(document.as_table_mut(), |table, part| {
        table.entry(part).or_insert(toml_edit::table()).as_table_mut()
    })?;
    let values = fields.iter().map(|(key, field)| (key.as_str(), match field {
        Field::Text(text) => toml_edit::Value::from(text.as_str()),
        Field::Flag(flag) => toml_edit::Value::from(*flag),
        Field::Other => toml_edit::Value::from(false),
    }));
    table.insert(name, toml_edit::value(toml_edit::InlineTable::from_iter(values)));
    Some(document.to_string())
}

/// Why a manifest could not be edited.
#[derive(Debug, Clone, PartialEq, Eq)]
pub enum ManifestError {
    /// The text is no manifest, or holds something else where a table or an
    /// array of entries is due.
    Malformed,
    /// Several entries of a table name the package. Holds the name.
    Ambiguous(String),
}

/// The mathematical value of a [`ManifestError`].
pub ghost enum ManifestErrorView {
    Malformed,
    Ambiguous(Seq<char>),
}

impl View for ManifestError {
    type V = ManifestErrorView;

    open spec fn view(&self) -> ManifestErrorView {
        match *self {
            ManifestError::Malformed => ManifestErrorView::Malformed,
            ManifestError::Ambiguous(name) => ManifestErrorView::Ambiguous(name@),
        }
    }
}

/// The report of a [`ManifestError`] to the user.
pub open spec fn manifest_error_message(error: ManifestErrorView) -> Seq<char> {
    match error {
        ManifestErrorView::Malformed => "Failed to parse `pyproject.toml`"@,
        ManifestErrorView::Ambiguous(name) => {
            "Cannot perform ambiguous update; found multiple entries for `"@ + name + "`"@
        },
    }
}

impl ManifestError {
    /// The report of this error to the user.
    pub fn message(&self) -> (text: String)
        ensures
            text@ == manifest_error_message(self@),
    {
        match self {
            ManifestError::Malformed => String::from_str("Failed to parse `pyproject.toml`"),
            ManifestError::Ambiguous(name) => {
                let mut text: String = String::from_str(
                    "Cannot perform ambiguous update; found multiple entries for `",
                );
                text.append(name.as_str());
                text.append("`");
                text
            },
        }
    }
}

/// The table that holds the array of a dependency type.
pub open spec fn array_path(dependency_type: DependencyTypeView) -> Seq<Seq<char>> {
    match dependency_type {
        DependencyTypeView::Production => seq!["project"@],
        DependencyTypeView::Dev => seq!["tool"@, "uv"@],
        DependencyTypeView::Optional(_) => seq!["project"@, "optional-dependencies"@],
    }
}

/// The key of the array of a dependency type within its table.
pub open spec fn array_key(dependency_type: DependencyTypeView) -> Seq<char> {
    match dependency_type {
        DependencyTypeView::Production => "dependencies"@,
        DependencyTypeView::Dev => "dev-dependencies"@,
        DependencyTypeView::Optional(group) => group,
    }
}

/// The table of sources.
pub open spec fn sources_path() -> Seq<Seq<char>> {
    seq!["tool"@, "uv"@, "sources"@]
}

/// A field that is written only where it has a value.
pub open spec fn optional_field(key: Seq<char>, value: Option<Seq<char>>) -> Seq<
    (Seq<char>, FieldView),
> {
    match value {
        Some(text) => seq![(key, FieldView::Text(text))],
        None => Seq::empty(),
    }
}

/// What the table of sources holds for a source: nothing for the registry;
/// the repository of a Git source with its subdirectory and its reference;
/// the path of a local source, marked where it is editable; the mark of a
/// workspace member; the URL of an archive with its subdirectory.
pub open spec fn source_fields(source: SourceView) -> Option<Seq<(Seq<char>, FieldView)>> {
    match source {
        SourceView::Registry => None,
        SourceView::Git { url, subdirectory, rev, tag, branch } => Some(
            seq![("git"@, FieldView::Text(url))] + optional_field("subdirectory"@, subdirectory)
                + optional_field("rev"@, rev) + optional_field("tag"@, tag) + optional_field(
                "branch"@,
                branch,
            ),
        ),
        SourceView::Path { path, editable } => Some(
            seq![("path"@, FieldView::Text(path))] + (if editable {
                seq![("editable"@, FieldView::Flag(true))]
            } else {
                Seq::empty()
            }),
        ),
        SourceView::Workspace { .. } => Some(seq![("workspace"@, FieldView::Flag(true))]),
        SourceView::Url { url, subdirectory } => Some(
            seq![("url"@, FieldView::Text(url))] + optional_field("subdirectory"@, subdirectory),
        ),
    }
}

/// What the table of sources holds for the source of an edit, if anything.
pub open spec fn edit_fields(source: Option<SourceView>) -> Option<Seq<(Seq<char>, FieldView)>> {
    match source {
        Some(found) => source_fields(found),
        None => None,
    }
}

/// The manifest `text` with the entry of `edit` in its table. An entry of
/// the same package is replaced, and left alone where it reads the same; a
/// package that the table names more than once is not touched.
pub open spec fn with_entry(text: Seq<char>, edit: DependencyEditView) -> Result<
    Seq<char>,
    ManifestErrorView,
> {
    let path = array_path(edit.dependency_type);
    let key = array_key(edit.dependency_type);
    match table_entries(text, path, key) {
        None => Err(ManifestErrorView::Malformed),
        Some(found) => {
            let entries = match found {
                Some(entries) => entries,
                None => Seq::empty(),
            };
            match placement_of(entries, edit.requirement.name) {
                Placement::Ambiguous => Err(ManifestErrorView::Ambiguous(edit.requirement.name)),
                Placement::Append => match with_pushed(text, path, key, edit.entry) {
                    Some(pushed) => Ok(pushed),
                    None => Err(ManifestErrorView::Malformed),
                },
                Placement::Replace(index) => if index < entries.len() && entries[index as int]
                    == edit.entry {
                    Ok(text)
                } else {
                    match with_replaced(text, path, key, index as int, edit.entry) {
                        Some(replaced) => Ok(replaced),
                        None => Err(ManifestErrorView::Malformed),
                    }
                },
            }
        },
    }
}

/// The manifest `text` with the source of `edit` in the table of sources,
/// where the edit records one; the table is left alone where it holds the
/// same already.
pub open spec fn with_source(text: Seq<char>, edit: DependencyEditView) -> Result<
    Seq<char>,
    ManifestErrorView,
> {
    match edit_fields(edit.source) {
        None => Ok(text),
        Some(fields) => match table_fields(text, sources_path(), edit.requirement.name) {
            None => Err(ManifestErrorView::Malformed),
            Some(found) => if found == Some(fields) {
                Ok(text)
            } else {
                match with_fields(text, sources_path(), edit.requirement.name, fields) {
                    Some(written) => Ok(written),
                    None => Err(ManifestErrorView::Malformed),
                }
            },
        },
    }
}

/// The manifest `text` with `edit` applied: first its entry, then its
/// source.
pub open spec fn applied(text: Seq<char>, edit: DependencyEditView) -> Result<
    Seq<char>,
    ManifestErrorView,
> {
    match with_entry(text, edit) {
        Ok(entered) => with_source(entered, edit),
        Err(error) => Err(error),
    }
}

/// The manifest `text` with the first `count` of `edits` applied in order;
/// the first edit that cannot be applied ends it.
pub open spec fn rendered(text: Seq<char>, edits: Seq<DependencyEditView>, count: int) -> Result<
    Seq<char>,
    ManifestErrorView,
>
    decreases count,
{
    if count <= 0 {
        Ok(text)
    } else {
        match rendered(text, edits, count - 1) {
            Ok(before) => applied(before, edits[count - 1]),
            Err(error) => Err(error),
        }
    }
}

/// The value of an edited text or the error.
pub open spec fn text_result_view(result: Result<String, ManifestError>) -> Result<
    Seq<char>,
    ManifestErrorView,
> {
    match result {
        Ok(text) => Ok(text@),
        Err(error) => Err(error@),
    }
}

/// One text as a string.
fn part(text: &str) -> (owned: String)
    ensures
        owned@ == text@,
{
    String::from_str(text)
}

/// The table that holds the array of a dependency type.
pub fn table_path(dependency_type: &DependencyType) -> (path: Vec<String>)
    ensures
        texts(path@) == array_path(dependency_type@),
{
    let mut path: Vec<String> = Vec::new();
    match dependency_type {
        DependencyType::Production => {
            path.push(part("project"));
        },
        DependencyType::Dev => {
            path.push(part("tool"));
            path.push(part("uv"));
        },
        DependencyType::Optional(_) => {
            path.push(part("project"));
            path.push(part("optional-dependencies"));
        },
    }
    assert(texts(path@) =~= array_path(dependency_type@));
    path
}

/// The key of the array of a dependency type within its table.
pub fn table_key(dependency_type: &DependencyType) -> (key: String)
    ensures
        key@ == array_key(dependency_type@),
{
    match dependency_type {
        DependencyType::Production => part("dependencies"),
        DependencyType::Dev => part("dev-dependencies"),
        DependencyType::Optional(group) => copy_text(group),
    }
}

/// Appends a field that has a value.
fn push_optional(fields: &mut Vec<(String, Field)>, key: &str, value: &Option<String>)
    ensures
        fields_view(final(fields)@) == fields_view(old(fields)@) + optional_field(
            key@,
            opt_text(*value),
        ),
        writable(fields_view(old(fields)@)) ==> writable(fields_view(final(fields)@)),
{
    match value {
        Some(text) => {
            fields.push((part(key), Field::Text(copy_text(text))));
        },
        None => {},
    }
    assert(fields_view(fields@) =~= fields_view(old(fields)@) + optional_field(
        key@,
        opt_text(*value),
    ));
}

/// The value of optional fields.
pub open spec fn opt_fields(fields: Option<Vec<(String, Field)>>) -> Option<
    Seq<(Seq<char>, FieldView)>,
> {
    match fields {
        Some(found) => Some(fields_view(found@)),
        None => None,
    }
}

/// What the table of sources holds for `source`.
pub fn fields_of(source: &Source) -> (fields: Option<Vec<(String, Field)>>)
    ensures
        opt_fields(fields) == source_fields(source@),
        fields matches Some(found) ==> writable(fields_view(found@)),
{
    let mut fields: Vec<(String, Field)> = Vec::new();
    match source {
        Source::Registry => {
            return None;
        },
        Source::Git { url, subdirectory, rev, tag, branch } => {
            fields.push((part("git"), Field::Text(copy_text(url))));
            assert(fields_view(fields@) =~= seq![("git"@, FieldView::Text(url@))]);
            push_optional(&mut fields, "subdirectory", subdirectory);
            push_optional(&mut fields, "rev", rev);
            push_optional(&mut fields, "tag", tag);
            push_optional(&mut fields, "branch", branch);
        },
        Source::Path { path, editable } => {
            fields.push((part("path"), Field::Text(copy_text(path))));
            if *editable {
                fields.push((part("editable"), Field::Flag(true)));
            }
            assert(fields_view(fields@) =~= source_fields(source@).unwrap());
        },
        Source::Workspace { .. } => {
            fields.push((part("workspace"), Field::Flag(true)));
            assert(fields_view(fields@) =~= source_fields(source@).unwrap());
        },
        Source::Url { url, subdirectory } => {
            fields.push((part("url"), Field::Text(copy_text(url))));
            assert(fields_view(fields@) =~= seq![("url"@, FieldView::Text(url@))]);
            push_optional(&mut fields, "subdirectory", subdirectory);
        },
    }
    Some(fields)
}

/// Whether two fields have the same value.
fn same_field(one: &Field, other: &Field) -> (same: bool)
    ensures
        same == (one@ == other@),
{
    match (one, other) {
        (Field::Text(mine), Field::Text(theirs)) => *mine == *theirs,
        (Field::Flag(mine), Field::Flag(theirs)) => *mine == *theirs,
        (Field::Other, Field::Other) => true,
        _ => false,
    }
}

/// Whether two lists hold the same keys with the same values in the same
/// order.
pub fn same_fields(one: &Vec<(String, Field)>, other: &Vec<(String, Field)>) -> (same: bool)
    ensures
        same == (fields_view(one@) == fields_view(other@)),
{
    if one.len() != other.len() {
        assert(fields_view(one@).len() != fields_view(other@).len());
        return false;
    }
    let mut i: usize = 0;
    while i < one.len()
        invariant
            i <= one.len(),
            one@.len() == other@.len(),
            forall|k: int| 0 <= k < i ==> fields_view(one@)[k] == fields_view(other@)[k],
        decreases one.len() - i,
    {
        if !(one[i].0 == other[i].0) || !same_field(&one[i].1, &other[i].1) {
            assert(fields_view(one@)[i as int] != fields_view(other@)[i as int]);
            return false;
        }
        i = i + 1;
    }
    assert(fields_view(one@) =~= fields_view(other@));
    true
}

/// Puts the entry of `edit` into its table of the manifest `text`.
pub fn enter(text: &String, edit: &DependencyEdit) -> (result: Result<String, ManifestError>)
    ensures
        text_result_view(result) == with_entry(text@, edit@),
{
    let path = table_path(&edit.dependency_type);
    let key = table_key(&edit.dependency_type);
    let found = match read_entries(text.as_str(), &path, key.as_str()) {
        Some(found) => found,
        None => {
            return Err(ManifestError::Malformed);
        },
    };
    let entries = match &found {
        Some(entries) => crate::requirement::copy_texts(entries),
        None => {
            let none: Vec<String> = Vec::new();
            assert(texts(none@) =~= Seq::<Seq<char>>::empty());
            none
        },
    };
    match place_entry(&entries, &edit.requirement.name) {
        Placement::Ambiguous => Err(ManifestError::Ambiguous(copy_text(&edit.requirement.name))),
        Placement::Append => match push_entry(
            text.as_str(),
            &path,
            key.as_str(),
            edit.entry.as_str(),
        ) {
            Some(pushed) => Ok(pushed),
            None => Err(ManifestError::Malformed),
        },
        Placement::Replace(index) => {
            if index < entries.len() {
                assert(texts(entries@)[index as int] == entries@[index as int]@);
                if entries[index] == edit.entry {
                    return Ok(copy_text(text));
                }
                assert(found is Some);
                match replace_entry(text.as_str(), &path, key.as_str(), index, edit.entry.as_str()) {
                    Some(replaced) => Ok(replaced),
                    None => Err(ManifestError::Malformed),
                }
            } else {
                proof {
                    lemma_placement_is_an_index(texts(entries@), edit@.requirement.name);
                }
                Err(ManifestError::Malformed)
            }
        },
    }
}

/// An entry that replaces another replaces one of the table.
pub proof fn lemma_placement_is_an_index(entries: Seq<Seq<char>>, name: Seq<char>)
    ensures
        placement_of(entries, name) matches Placement::Replace(index) ==> index < entries.len(),
{
    lemma_matches_are_indices(entries, name, entries.len() as int);
}

/// Every index among the matching entries is below the count.
proof fn lemma_matches_are_indices(entries: Seq<Seq<char>>, name: Seq<char>, count: int)
    requires
        count <= entries.len(),
    ensures
        forall|k: int|
            0 <= k < crate::edits::matching_entries(entries, name, count).len() ==> 0 <= (
            #[trigger] crate::edits::matching_entries(entries, name, count)[k]) < count,
    decreases count,
{
    if count > 0 {
        lemma_matches_are_indices(entries, name, count - 1);
        let before = crate::edits::matching_entries(entries, name, count - 1);
        let found = crate::edits::matching_entries(entries, name, count);
        assert forall|k: int| 0 <= k < found.len() implies 0 <= (#[trigger] found[k]) < count by {
            if k < before.len() {
                assert(found[k] == before[k]);
            }
        }
    }
}

/// Records the source of `edit` in the table of sources of the manifest
/// `text`.
pub fn record(text: &String, edit: &DependencyEdit) -> (result: Result<String, ManifestError>)
    ensures
        text_result_view(result) == with_source(text@, edit@),
{
    let fields = match &edit.source {
        Some(source) => fields_of(source),
        None => None,
    };
    let fields = match fields {
        Some(fields) => fields,
        None => {
            return Ok(copy_text(text));
        },
    };
    let mut path: Vec<String> = Vec::new();
    path.push(part("tool"));
    path.push(part("uv"));
    path.push(part("sources"));
    assert(texts(path@) =~= sources_path());
    let found = match read_fields(text.as_str(), &path, edit.requirement.name.as_str()) {
        Some(found) => found,
        None => {
            return Err(ManifestError::Malformed);
        },
    };
    let settled = match &found {
        Some(existing) => same_fields(existing, &fields),
        None => false,
    };
    if settled {
        return Ok(copy_text(text));
    }
    match write_fields(text.as_str(), &path, edit.requirement.name.as_str(), &fields) {
        Some(written) => Ok(written),
        None => Err(ManifestError::Malformed),
    }
}

/// Applies `edit` to the manifest `text`: its entry goes to its table, and
/// its source, where it records one, to the table of sources.
pub fn apply_edit(text: &String, edit: &DependencyEdit) -> (result: Result<String, ManifestError>)
    ensures
        text_result_view(result) == applied(text@, edit@),
{
    match enter(text, edit) {
        Ok(entered) => record(&entered, edit),
        Err(error) => Err(error),
    }
}

/// The table of a workspace.
pub open spec fn workspace_path() -> Seq<Seq<char>> {
    seq!["tool"@, "uv"@, "workspace"@]
}

/// The manifest `text` of a workspace with `member` appended to its members.
pub open spec fn with_member(text: Seq<char>, member: Seq<char>) -> Result<
    Seq<char>,
    ManifestErrorView,
> {
    match with_pushed(text, workspace_path(), "members"@, member) {
        Some(pushed) => Ok(pushed),
        None => Err(ManifestErrorView::Malformed),
    }
}

/// Appends the path `member` to the members of the workspace whose
/// manifest is `text`.
pub fn add_member(text: &String, member: &String) -> (result: Result<String, ManifestError>)
    ensures
        text_result_view(result) == with_member(text@, member@),
{
    let mut path: Vec<String> = Vec::new();
    path.push(part("tool"));
    path.push(part("uv"));
    path.push(part("workspace"));
    assert(texts(path@) =~= workspace_path());
    match push_entry(text.as_str(), &path, "members", member.as_str()) {
        Some(pushed) => Ok(pushed),
        None => Err(ManifestError::Malformed),
    }
}

/// An edit that cannot be applied ends the rendering with its error,
/// however many edits follow.
pub proof fn lemma_rendering_stays_failed(
    text: Seq<char>,
    edits: Seq<DependencyEditView>,
    at: int,
    count: int,
)
    requires
        at <= count,
        rendered(text, edits, at) is Err,
    ensures
        rendered(text, edits, count) == rendered(text, edits, at),
    decreases count - at,
{
    if at < count {
        lemma_rendering_stays_failed(text, edits, at, count - 1);
    }
}

/// Edits that each leave the text as it is leave it as it is together:
/// adding again what the manifest holds already renders the same text,
/// character for character.
pub proof fn lemma_settled_edits_render_the_same(
    text: Seq<char>,
    edits: Seq<DependencyEditView>,
    count: int,
)
    requires
        0 <= count <= edits.len(),
        forall|i: int|
            0 <= i < count ==> #[trigger] applied(text, edits[i]) == Ok::<
                Seq<char>,
                ManifestErrorView,
            >(text),
    ensures
        rendered(text, edits, count) == Ok::<Seq<char>, ManifestErrorView>(text),
    decreases count,
{
    if count > 0 {
        lemma_settled_edits_render_the_same(text, edits, count - 1);
    }
}

/// Whether the manifest `text` holds `edit` already: its entry stands in its
/// table, as the only entry of its package, and its source, where it records
/// one, stands in the table of sources.
pub open spec fn is_settled(text: Seq<char>, edit: DependencyEditView) -> bool {
    &&& table_entries(text, array_path(edit.dependency_type), array_key(edit.dependency_type))
        matches Some(Some(entries))
    &&& placement_of(entries, edit.requirement.name) matches Placement::Replace(index)
    &&& index < entries.len()
    &&& entries[index as int] == edit.entry
    &&& edit_fields(edit.source) matches Some(fields) ==> table_fields(
        text,
        sources_path(),
        edit.requirement.name,
    ) == Some(Some(fields))
}

/// An edit that the manifest holds already leaves the text as it is.
pub proof fn lemma_settled_edit_is_no_edit(text: Seq<char>, edit: DependencyEditView)
    requires
        is_settled(text, edit),
    ensures
        applied(text, edit) == Ok::<Seq<char>, ManifestErrorView>(text),
{
}

} // verus!
