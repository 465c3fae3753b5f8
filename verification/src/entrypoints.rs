//! The commands of a tool: where each is installed, in a fixed order, and
//! what is done about commands that are in the way.

use vstd::prelude::*;
use crate::source::{copy_text, opt_text};
use crate::text::{lemma_text_lt_total, lemma_text_lt_transitive, text_less, text_lt, texts};
use crate::tool::{InstallError, InstallErrorView};

verus! {

/// A command that an installed package offers.
#[derive(Debug, Clone, PartialEq, Eq)]
pub struct EntryPoint {
    /// The command's name.
    pub name: String,
    /// The path of the command in the tool's environment.
    pub source: String,
    /// The last component of that path, where it has one.
    pub file_name: Option<String>,
}

/// The mathematical value of an [`EntryPoint`].
pub ghost struct EntryPointView {
    pub name: Seq<char>,
    pub source: Seq<char>,
    pub file_name: Option<Seq<char>>,
}

impl View for EntryPoint {
    type V = EntryPointView;

    open spec fn view(&self) -> EntryPointView {
        EntryPointView {
            name: self.name@,
            source: self.source@,
            file_name: opt_text(self.file_name),
        }
    }
}

/// A command and the place where it is installed.
#[derive(Debug, Clone, PartialEq, Eq)]
pub struct TargetEntryPoint {
    /// The command's name.
    pub name: String,
    /// The path of the command in the tool's environment.
    pub source: String,
    /// The path at which the command is installed.
    pub target: String,
    /// The last component of `target`.
    pub file_name: String,
}

/// The mathematical value of a [`TargetEntryPoint`].
pub ghost struct TargetView {
    pub name: Seq<char>,
    pub source: Seq<char>,
    pub target: Seq<char>,
    pub file_name: Seq<char>,
}

impl View for TargetEntryPoint {
    type V = TargetView;

    open spec fn view(&self) -> TargetView {
        TargetView {
            name: self.name@,
            source: self.source@,
            target: self.target@,
            file_name: self.file_name@,
        }
    }
}

/// The values of a list of commands, in order.
pub open spec fn entry_views(entries: Seq<EntryPoint>) -> Seq<EntryPointView> {
    Seq::new(entries.len(), |i: int| entries[i]@)
}

/// The values of a list of installed commands, in order.
pub open spec fn target_views(targets: Seq<TargetEntryPoint>) -> Seq<TargetView> {
    Seq::new(targets.len(), |i: int| targets[i]@)
}

/// Where a command is installed: in `directory`, under the file name of its
/// source or, where that has none, under the command's name.
pub open spec fn target_of(entry: EntryPointView, directory: Seq<char>) -> TargetView {
    let file_name = match entry.file_name {
        Some(found) => found,
        None => entry.name,
    };
    TargetView {
        name: entry.name,
        source: entry.source,
        target: directory + seq!['/'] + file_name,
        file_name,
    }
}

/// The places where the commands `entries` are installed, in the order of
/// `entries`.
pub open spec fn targets_of(entries: Seq<EntryPointView>, directory: Seq<char>) -> Seq<TargetView> {
    Seq::new(entries.len(), |i: int| target_of(entries[i], directory))
}

/// The order of installed commands: by name, then by source, then by
/// target.
pub open spec fn target_lt(a: TargetView, b: TargetView) -> bool {
    ||| text_lt(a.name, b.name)
    ||| a.name == b.name && text_lt(a.source, b.source)
    ||| a.name == b.name && a.source == b.source && text_lt(a.target, b.target)
}

/// Every command is ordered below each command that follows it.
pub open spec fn targets_sorted(targets: Seq<TargetView>) -> bool {
    forall|i: int, j: int|
        0 <= i < j < targets.len() ==> target_lt(#[trigger] targets[i], #[trigger] targets[j])
}

/// The order of commands is transitive.
pub proof fn lemma_target_lt_transitive(a: TargetView, b: TargetView, c: TargetView)
    requires
        target_lt(a, b),
        target_lt(b, c),
    ensures
        target_lt(a, c),
{
    if text_lt(a.name, b.name) && text_lt(b.name, c.name) {
        lemma_text_lt_transitive(a.name, b.name, c.name);
    }
    if a.name == b.name && b.name == c.name {
        if text_lt(a.source, b.source) && text_lt(b.source, c.source) {
            lemma_text_lt_transitive(a.source, b.source, c.source);
        }
        if a.source == b.source && b.source == c.source && text_lt(a.target, b.target) && text_lt(
            b.target,
            c.target,
        ) {
            lemma_text_lt_transitive(a.target, b.target, c.target);
        }
    }
}

/// Two commands of which neither is below the other agree in name, source
/// and target.
pub proof fn lemma_target_lt_total(a: TargetView, b: TargetView)
    requires
        !target_lt(a, b),
        !target_lt(b, a),
    ensures
        a.name == b.name,
        a.source == b.source,
        a.target == b.target,
{
    lemma_text_lt_total(a.name, b.name);
    lemma_text_lt_total(a.source, b.source);
    lemma_text_lt_total(a.target, b.target);
}

impl TargetEntryPoint {
    /// A copy with the same value.
    pub fn duplicate(&self) -> (copy: TargetEntryPoint)
        ensures
            copy@ == self@,
    {
        TargetEntryPoint {
            name: copy_text(&self.name),
            source: copy_text(&self.source),
            target: copy_text(&self.target),
            file_name: copy_text(&self.file_name),
        }
    }

    /// Whether this command comes before `other` in the order of commands.
    pub fn less(&self, other: &TargetEntryPoint) -> (less: bool)
        ensures
            less == target_lt(self@, other@),
    {
        if text_less(self.name.as_str(), other.name.as_str()) {
            return true;
        }
        if !(self.name == other.name) {
            return false;
        }
        if text_less(self.source.as_str(), other.source.as_str()) {
            return true;
        }
        if !(self.source == other.source) {
            return false;
        }
        text_less(self.target.as_str(), other.target.as_str())
    }
}

/// Whether two commands agree in name, source and target.
pub open spec fn same_place(a: TargetView, b: TargetView) -> bool {
    a.name == b.name && a.source == b.source && a.target == b.target
}

/// Puts `item` at its place among sorted commands, unless a command of the
/// same name, source and target is there.
fn insert_target(items: &mut Vec<TargetEntryPoint>, item: TargetEntryPoint) -> (at: usize)
    requires
        targets_sorted(target_views(old(items)@)),
    ensures
        targets_sorted(target_views(final(items)@)),
        at < final(items)@.len(),
        at <= old(items)@.len(),
        same_place(final(items)@[at as int]@, item@),
        final(items)@.len() == old(items)@.len() ==> target_views(final(items)@) == target_views(
            old(items)@,
        ),
        final(items)@.len() != old(items)@.len() ==> target_views(final(items)@) == target_views(
            old(items)@,
        ).insert(at as int, item@),
{
    let ghost before = target_views(items@);
    let n: usize = items.len();
    let mut i: usize = 0;
    while i < n && items[i].less(&item)
        invariant
            i <= n,
            n == items@.len(),
            before == target_views(items@),
            forall|k: int| 0 <= k < i ==> target_lt(#[trigger] before[k], item@),
        decreases n - i,
    {
        assert(before[i as int] == items@[i as int]@);
        i = i + 1;
    }
    if i < n && !item.less(&items[i]) {
        proof {
            assert(before[i as int] == items@[i as int]@);
            lemma_target_lt_total(before[i as int], item@);
        }
        return i;
    }
    let ghost wanted = item@;
    items.insert(i, item);
    proof {
        let after = target_views(items@);
        assert(after =~= before.insert(i as int, wanted));
        if i < n {
            assert(before[i as int] == old(items)@[i as int]@);
        }
        assert forall|p: int, q: int| 0 <= p < q < after.len() implies target_lt(
            #[trigger] after[p],
            #[trigger] after[q],
        ) by {
            if q < i {
                assert(after[p] == before[p] && after[q] == before[q]);
            } else if q == i {
                assert(after[p] == before[p]);
            } else if p < i {
                assert(after[p] == before[p] && after[q] == before[q - 1]);
                lemma_target_lt_transitive(before[p], wanted, before[i as int]);
                if q - 1 > i {
                    lemma_target_lt_transitive(before[p], before[i as int], before[q - 1]);
                }
            } else if p == i {
                assert(after[q] == before[q - 1]);
                if q - 1 > i {
                    lemma_target_lt_transitive(wanted, before[i as int], before[q - 1]);
                }
            } else {
                assert(after[p] == before[p - 1] && after[q] == before[q - 1]);
            }
        }
    }
    i
}

/// Whether some command of `targets` has the name, source and target of
/// `wanted`.
pub open spec fn has_place(targets: Seq<TargetView>, wanted: TargetView) -> bool {
    exists|i: int| 0 <= i < targets.len() && same_place(#[trigger] targets[i], wanted)
}

/// The places where the commands of a tool are installed: one for each
/// command, each place once, ordered by name, source and target.
pub fn entry_point_targets(entries: &Vec<EntryPoint>, directory: &String) -> (targets: Vec<
    TargetEntryPoint,
>)
    ensures
        targets_sorted(target_views(targets@)),
        forall|i: int|
            0 <= i < entries@.len() ==> has_place(
                target_views(targets@),
                #[trigger] targets_of(entry_views(entries@), directory@)[i],
            ),
        forall|j: int|
            0 <= j < targets@.len() ==> targets_of(entry_views(entries@), directory@).contains(
                #[trigger] target_views(targets@)[j],
            ),
{
    proof {
        reveal_strlit("/");
        assert("/"@ =~= seq!['/']);
    }
    let ghost wanted = targets_of(entry_views(entries@), directory@);
    let mut targets: Vec<TargetEntryPoint> = Vec::new();
    let mut i: usize = 0;
    while i < entries.len()
        invariant
            i <= entries.len(),
            wanted == targets_of(entry_views(entries@), directory@),
            "/"@ == seq!['/'],
            targets_sorted(target_views(targets@)),
            forall|k: int| 0 <= k < i ==> has_place(target_views(targets@), #[trigger] wanted[k]),
            forall|j: int|
                0 <= j < targets@.len() ==> wanted.contains(#[trigger] target_views(targets@)[j]),
        decreases entries.len() - i,
    {
        let entry = &entries[i];
        let file_name = match &entry.file_name {
            Some(found) => copy_text(found),
            None => copy_text(&entry.name),
        };
        let mut target: String = copy_text(directory);
        target.append("/");
        target.append(file_name.as_str());
        let item = TargetEntryPoint {
            name: copy_text(&entry.name),
            source: copy_text(&entry.source),
            target,
            file_name,
        };
        assert(item@ == wanted[i as int]);
        let ghost before = target_views(targets@);
        let at = insert_target(&mut targets, item);
        proof {
            let after = target_views(targets@);
            assert(same_place(after[at as int], wanted[i as int]));
            assert forall|k: int| 0 <= k <= i implies has_place(after, #[trigger] wanted[k]) by {
                if k < i {
                    let m = choose|m: int|
                        0 <= m < before.len() && same_place(#[trigger] before[m], wanted[k]);
                    if after.len() == before.len() {
                        assert(same_place(after[m], wanted[k]));
                    } else if m < at {
                        assert(after[m] == before[m]);
                        assert(same_place(after[m], wanted[k]));
                    } else {
                        assert(after[m + 1] == before[m]);
                        assert(same_place(after[m + 1], wanted[k]));
                    }
                }
            }
            assert forall|j: int| 0 <= j < after.len() implies wanted.contains(
                #[trigger] after[j],
            ) by {
                if after.len() == before.len() {
                    assert(after[j] == before[j]);
                } else if j < at {
                    assert(after[j] == before[j]);
                } else if j == at {
                    assert(after[j] == wanted[i as int]);
                } else {
                    assert(after[j] == before[j - 1]);
                }
            }
        }
        i = i + 1;
    }
    targets
}

/// Whether the place at `index` is taken, by the flags `taken`; a place
/// without a flag is free.
pub open spec fn is_taken(taken: Seq<bool>, index: int) -> bool {
    0 <= index < taken.len() && taken[index]
}

/// Of the first `count` commands, the targets of those whose place is
/// taken, in order.
pub open spec fn taken_targets(targets: Seq<TargetView>, taken: Seq<bool>, count: int) -> Seq<
    Seq<char>,
>
    decreases count,
{
    if count <= 0 {
        Seq::empty()
    } else if is_taken(taken, count - 1) {
        taken_targets(targets, taken, count - 1).push(targets[count - 1].target)
    } else {
        taken_targets(targets, taken, count - 1)
    }
}

/// Of the first `count` commands, the file names of those whose place is
/// taken, in order.
pub open spec fn taken_names(targets: Seq<TargetView>, taken: Seq<bool>, count: int) -> Seq<
    Seq<char>,
>
    decreases count,
{
    if count <= 0 {
        Seq::empty()
    } else if is_taken(taken, count - 1) {
        taken_names(targets, taken, count - 1).push(targets[count - 1].file_name)
    } else {
        taken_names(targets, taken, count - 1)
    }
}

/// What is done before the commands of the tool `name` are installed, or
/// the reason why they are not: a tool without commands is refused; files
/// that are in the way are removed where they may be overwritten, and refuse
/// the installation where they may not.
pub open spec fn clearance(
    name: Seq<char>,
    targets: Seq<TargetView>,
    taken: Seq<bool>,
    overwrite: bool,
) -> Result<Seq<Seq<char>>, InstallErrorView> {
    if targets.len() == 0 {
        Err(InstallErrorView::NoEntryPoints { name })
    } else if overwrite {
        Ok(taken_targets(targets, taken, targets.len() as int))
    } else if taken_names(targets, taken, targets.len() as int).len() > 0 {
        Err(
            InstallErrorView::ExistingEntryPoints {
                names: taken_names(targets, taken, targets.len() as int),
            },
        )
    } else {
        Ok(Seq::empty())
    }
}

/// The value of the result of clearing the way for a tool's commands.
pub open spec fn clearance_view(result: Result<Vec<String>, InstallError>) -> Result<
    Seq<Seq<char>>,
    InstallErrorView,
> {
    match result {
        Ok(paths) => Ok(texts(paths@)),
        Err(error) => Err(error@),
    }
}

/// Decides what is done before the commands of the tool `name` are
/// installed: the files to remove, or the reason to give up. `taken` tells
/// for each of `targets` whether a file is at its place; `overwrite` tells
/// whether such files may be replaced.
pub fn clear_entry_points(
    name: &String,
    targets: &Vec<TargetEntryPoint>,
    taken: &Vec<bool>,
    overwrite: bool,
) -> (result: Result<Vec<String>, InstallError>)
    ensures
        clearance_view(result) == clearance(name@, target_views(targets@), taken@, overwrite),
{
    if targets.len() == 0 {
        return Err(InstallError::NoEntryPoints { name: copy_text(name) });
    }
    let ghost all = target_views(targets@);
    let mut paths: Vec<String> = Vec::new();
    let mut names: Vec<String> = Vec::new();
    let mut i: usize = 0;
    assert(texts(paths@) =~= taken_targets(all, taken@, 0));
    assert(texts(names@) =~= taken_names(all, taken@, 0));
    while i < targets.len()
        invariant
            i <= targets.len(),
            all == target_views(targets@),
            texts(paths@) == taken_targets(all, taken@, i as int),
            texts(names@) == taken_names(all, taken@, i as int),
        decreases targets.len() - i,
    {
        if i < taken.len() && taken[i] {
            let ghost paths_before = texts(paths@);
            let ghost names_before = texts(names@);
            paths.push(copy_text(&targets[i].target));
            names.push(copy_text(&targets[i].file_name));
            assert(texts(paths@) =~= paths_before.push(all[i as int].target));
            assert(texts(names@) =~= names_before.push(all[i as int].file_name));
        }
        i = i + 1;
    }
    if overwrite {
        Ok(paths)
    } else if names.len() > 0 {
        Err(InstallError::ExistingEntryPoints { names })
    } else {
        let none: Vec<String> = Vec::new();
        assert(texts(none@) =~= Seq::<Seq<char>>::empty());
        Ok(none)
    }
}

/// The names of the commands, in order.
pub open spec fn target_names(targets: Seq<TargetView>) -> Seq<Seq<char>> {
    Seq::new(targets.len(), |i: int| targets[i].name)
}

/// The names of the commands, in order.
pub fn entry_point_names(targets: &Vec<TargetEntryPoint>) -> (names: Vec<String>)
    ensures
        texts(names@) == target_names(target_views(targets@)),
{
    let mut names: Vec<String> = Vec::new();
    let mut i: usize = 0;
    while i < targets.len()
        invariant
            i <= targets.len(),
            names@.len() == i,
            forall|k: int| 0 <= k < i ==> names@[k]@ == targets@[k].name@,
        decreases targets.len() - i,
    {
        names.push(copy_text(&targets[i].name));
        i = i + 1;
    }
    assert(texts(names@) =~= target_names(target_views(targets@)));
    names
}

} // verus!
