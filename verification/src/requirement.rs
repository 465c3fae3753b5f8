//! Requirements: a name, its extras, a marker and a declared origin; the
//! merging of extras and the text that a manifest holds for a requirement.

use vstd::prelude::*;
use crate::source::{copy_opt_text, copy_text, opt_text, RequirementSource, RequirementSourceView};
use crate::scan::{
    has_dangling_punctuation, has_quoted_compatible, has_reference, holds_dangling_punctuation,
    holds_quoted_compatible, holds_reference,
};
use crate::text::{
    has_long_number, holds_long_number, insert_sorted, join, join_texts,
    lemma_strictly_sorted_unique, strictly_sorted, texts,
};

verus! {

/// A named package constraint.
#[derive(Debug, Clone, PartialEq, Eq)]
pub struct Requirement {
    /// The normalized package name.
    pub name: String,
    /// The extras that are asked for.
    pub extras: Vec<String>,
    /// The marker expression, if the requirement is conditional.
    pub marker: Option<String>,
    /// What the requirement declares about its origin.
    pub source: RequirementSource,
}

/// The mathematical value of a [`Requirement`].
pub ghost struct RequirementView {
    pub name: Seq<char>,
    pub extras: Seq<Seq<char>>,
    pub marker: Option<Seq<char>>,
    pub source: RequirementSourceView,
}

impl View for Requirement {
    type V = RequirementView;

    open spec fn view(&self) -> RequirementView {
        RequirementView {
            name: self.name@,
            extras: texts(self.extras@),
            marker: opt_text(self.marker),
            source: self.source@,
        }
    }
}

/// The extras of a requirement after `added` were merged into `existing`:
/// every name of either list, each once, in ascending order.
pub open spec fn is_merged(merged: Seq<Seq<char>>, existing: Seq<Seq<char>>, added: Seq<Seq<char>>) -> bool {
    &&& strictly_sorted(merged)
    &&& merged.to_set() == existing.to_set().union(added.to_set())
}

/// The extras of a requirement after `added` were merged into `existing`:
/// the one sequence that holds every name of either list, each once, in
/// ascending order.
pub open spec fn merged(existing: Seq<Seq<char>>, added: Seq<Seq<char>>) -> Seq<Seq<char>> {
    choose|all: Seq<Seq<char>>| is_merged(all, existing, added)
}

/// Whatever meets [`is_merged`] is [`merged`]: the merge has one result.
pub proof fn lemma_merged_is_unique(all: Seq<Seq<char>>, existing: Seq<Seq<char>>, added: Seq<Seq<char>>)
    requires
        is_merged(all, existing, added),
    ensures
        all == merged(existing, added),
{
    lemma_strictly_sorted_unique(all, merged(existing, added));
}

/// Merging extras that the requirement names already changes nothing of a
/// list that is sorted and free of repetitions; merging always leaves such a
/// list.
pub proof fn lemma_merge_is_idempotent(existing: Seq<Seq<char>>, added: Seq<Seq<char>>)
    requires
        strictly_sorted(existing),
        added.to_set().subset_of(existing.to_set()),
    ensures
        merged(existing, added) == existing,
{
    assert(existing.to_set().union(added.to_set()) =~= existing.to_set());
    lemma_merged_is_unique(existing, existing, added);
}

/// The text of a requirement in a manifest's dependency list: the name, the
/// extras in square brackets, then the version specifier or, where the
/// locator is kept inline, ` @ ` and the locator, then ` ; ` and the marker.
pub open spec fn entry_text(requirement: RequirementView, inline: bool) -> Seq<char> {
    requirement.name + extras_text(requirement.extras) + origin_text(requirement.source, inline)
        + marker_text(requirement.marker)
}

/// The extras of an entry: nothing, or the names in square brackets.
pub open spec fn extras_text(extras: Seq<Seq<char>>) -> Seq<char> {
    if extras.len() == 0 {
        Seq::empty()
    } else {
        seq!['['] + join(extras, seq![',']) + seq![']']
    }
}

/// The origin of an entry: the version specifier, or the locator after ` @ `
/// where it is kept inline.
pub open spec fn origin_text(source: RequirementSourceView, inline: bool) -> Seq<char> {
    match source {
        RequirementSourceView::Registry { specifier } => specifier,
        _ => if inline {
            seq![' ', '@', ' '] + source.locator().unwrap()
        } else {
            Seq::empty()
        },
    }
}

/// The marker of an entry: nothing, or the marker after ` ; `.
pub open spec fn marker_text(marker: Option<Seq<char>>) -> Seq<char> {
    match marker {
        Some(text) => seq![' ', ';', ' '] + text,
        None => Seq::empty(),
    }
}

/// A copy of a list of strings, with the same texts in the same order.
pub fn copy_texts(items: &Vec<String>) -> (copy: Vec<String>)
    ensures
        texts(copy@) == texts(items@),
{
    let mut copy: Vec<String> = Vec::new();
    let mut i: usize = 0;
    while i < items.len()
        invariant
            i <= items.len(),
            copy@.len() == i,
            forall|k: int| 0 <= k < i ==> copy@[k]@ == items@[k]@,
        decreases items.len() - i,
    {
        copy.push(copy_text(&items[i]));
        i = i + 1;
    }
    assert(texts(copy@) =~= texts(items@));
    copy
}

/// Merges `added` into `existing`: the union of both, sorted, each name once.
pub fn merge_extras(existing: &Vec<String>, added: &Vec<String>) -> (all: Vec<String>)
    ensures
        is_merged(texts(all@), texts(existing@), texts(added@)),
        texts(all@) == merged(texts(existing@), texts(added@)),
{
    let mut merged: Vec<String> = Vec::new();
    let mut i: usize = 0;
    assert(texts(merged@).to_set() =~= texts(existing@).take(0).to_set());
    while i < existing.len()
        invariant
            i <= existing.len(),
            strictly_sorted(texts(merged@)),
            texts(merged@).to_set() == texts(existing@).take(i as int).to_set(),
        decreases existing.len() - i,
    {
        insert_sorted(&mut merged, copy_text(&existing[i]));
        proof {
            let all = texts(existing@);
            assert(all.take(i + 1) =~= all.take(i as int).push(all[i as int]));
            lemma_push_to_set(all.take(i as int), all[i as int]);
        }
        i = i + 1;
    }
    assert(texts(existing@).take(existing.len() as int) =~= texts(existing@));
    let mut j: usize = 0;
    assert(texts(added@).take(0).to_set() =~= Set::<Seq<char>>::empty());
    assert(texts(merged@).to_set() =~= texts(existing@).to_set().union(
        texts(added@).take(0).to_set(),
    ));
    while j < added.len()
        invariant
            j <= added.len(),
            strictly_sorted(texts(merged@)),
            texts(merged@).to_set() == texts(existing@).to_set().union(
                texts(added@).take(j as int).to_set(),
            ),
        decreases added.len() - j,
    {
        insert_sorted(&mut merged, copy_text(&added[j]));
        proof {
            let all = texts(added@);
            assert(all.take(j + 1) =~= all.take(j as int).push(all[j as int]));
            lemma_push_to_set(all.take(j as int), all[j as int]);
            assert(texts(merged@).to_set() =~= texts(existing@).to_set().union(
                all.take(j + 1).to_set(),
            ));
        }
        j = j + 1;
    }
    assert(texts(added@).take(added.len() as int) =~= texts(added@));
    proof {
        lemma_merged_is_unique(texts(merged@), texts(existing@), texts(added@));
    }
    merged
}

/// The set of a sequence with one more item is the set of the sequence with
/// that item added.
pub proof fn lemma_push_to_set(items: Seq<Seq<char>>, item: Seq<char>)
    ensures
        items.push(item).to_set() == items.to_set().insert(item),
{
    let pushed = items.push(item);
    assert forall|t: Seq<char>| pushed.to_set().contains(t) <==> items.to_set().insert(
        item,
    ).contains(t) by {
        if pushed.contains(t) {
            let k = choose|k: int| 0 <= k < pushed.len() && pushed[k] == t;
            if k < items.len() {
                assert(items[k] == t);
            }
        }
        if items.contains(t) {
            let k = choose|k: int| 0 <= k < items.len() && items[k] == t;
            assert(pushed[k] == t);
        }
        if t == item {
            assert(pushed[items.len() as int] == t);
        }
    }
    assert(pushed.to_set() =~= items.to_set().insert(item));
}

impl Requirement {
    /// A copy with the same value.
    pub fn duplicate(&self) -> (copy: Requirement)
        ensures
            copy@ == self@,
    {
        Requirement {
            name: copy_text(&self.name),
            extras: copy_texts(&self.extras),
            marker: copy_opt_text(&self.marker),
            source: self.source.duplicate(),
        }
    }

    /// The requirement with `added` merged into its extras; nothing else
    /// changes.
    pub fn with_extras(self, added: &Vec<String>) -> (all: Requirement)
        ensures
            all@ == (RequirementView { extras: merged(self@.extras, texts(added@)), ..self@ }),
            is_merged(all@.extras, self@.extras, texts(added@)),
    {
        let extras = merge_extras(&self.extras, added);
        Requirement { name: self.name, extras, marker: self.marker, source: self.source }
    }

    /// The requirement's text for a manifest's dependency list. With `inline`
    /// the locator of a requirement that has one is kept in the text; without,
    /// it is left out, for a manifest that records the source by itself.
    pub fn entry(&self, inline: bool) -> (text: String)
        ensures
            text@ == entry_text(self@, inline),
    {
        proof {
            reveal_strlit("[");
            reveal_strlit(",");
            reveal_strlit("]");
            reveal_strlit(" @ ");
            reveal_strlit(" ; ");
            assert("["@ =~= seq!['[']);
            assert(","@ =~= seq![',']);
            assert("]"@ =~= seq![']']);
            assert(" @ "@ =~= seq![' ', '@', ' ']);
            assert(" ; "@ =~= seq![' ', ';', ' ']);
        }
        let mut text: String = copy_text(&self.name);
        if self.extras.len() > 0 {
            let joined = join_texts(&self.extras, ",");
            text.append("[");
            text.append(joined.as_str());
            text.append("]");
            assert(text@ =~= self@.name + extras_text(self@.extras));
        } else {
            assert(text@ =~= self@.name + extras_text(self@.extras));
        }
        let ghost head = text@;
        match &self.source {
            RequirementSource::Registry { specifier } => {
                text.append(specifier.as_str());
            },
            RequirementSource::Git { locator, .. } => {
                if inline {
                    text.append(" @ ");
                    text.append(locator.as_str());
                }
            },
            RequirementSource::Path { locator, .. } => {
                if inline {
                    text.append(" @ ");
                    text.append(locator.as_str());
                }
            },
            RequirementSource::Url { locator, .. } => {
                if inline {
                    text.append(" @ ");
                    text.append(locator.as_str());
                }
            },
        }
        assert(text@ =~= head + origin_text(self@.source, inline));
        let ghost body = text@;
        match &self.marker {
            Some(marker) => {
                text.append(" ; ");
                text.append(marker.as_str());
            },
            None => {},
        }
        assert(text@ =~= body + marker_text(self@.marker));
        text
    }
}

/// The package name that the requirement parser reads from `text`, for a
/// text that the parser is asked about; `None` where the parser refuses the
/// text.
pub uninterp spec fn parsed_requirement_name(text: Seq<char>) -> Option<Seq<char>>;

/// Whether the requirement parser is asked about `text`. It is not asked
/// about a text that refers to the process's environment, that holds a
/// number that may not fit in 64 bits, whose name or extra ends in `-`, `_`
/// or `.`, or whose marker has a quoted string to the left of `~=`: no such
/// text is a requirement that this library reads.
pub open spec fn is_parsed(text: Seq<char>) -> bool {
    &&& !has_reference(text)
    &&& !has_long_number(text)
    &&& !has_dangling_punctuation(text)
    &&& !has_quoted_compatible(text)
}

/// The package name of the requirement `text`; `None` where `text` is no
/// requirement. A text that the parser is not asked about is none.
pub open spec fn requirement_name(text: Seq<char>) -> Option<Seq<char>> {
    if is_parsed(text) {
        parsed_requirement_name(text)
    } else {
        None
    }
}

/// Reads the package name of a requirement.
///
/// Trusted: this is `pep508_rs::Requirement::<url::Url>::from_str`, followed
/// by the text of the requirement's `name`. The contract only names that
/// result. `requires` leaves out the texts on which the parser does not
/// return: it expands `${..}` from the process's environment where it words
/// an error, adds one to release numbers in markers, unwraps the validation
/// of a name or an extra that ends in `-`, `_` or `.`, and has no answer to
/// `~=` after a quoted string.
#[verifier::external_body]
fn parse_requirement_name(text: &str) -> (name: Option<String>)
    requires
        is_parsed(text@),
    ensures
        opt_text(name) == parsed_requirement_name(text@),
{
    let parsed = <pep508_rs::Requirement<url::Url> as std::str::FromStr>::from_str(text).ok()?;
    Some(parsed.name.to_string())
}

/// Reads the package name of the requirement `text`, if it is one.
pub fn read_requirement_name(text: &str) -> (name: Option<String>)
    ensures
        opt_text(name) == requirement_name(text@),
{
    if holds_reference(text) || holds_long_number(text) || holds_dangling_punctuation(text)
        || holds_quoted_compatible(text) {
        None
    } else {
        parse_requirement_name(text)
    }
}

} // verus!
