//! Marker expressions: the extras that a marker asks for, and the marker
//! that is left once those extras are taken as given.

use vstd::prelude::*;
use std::str::FromStr;
use crate::source::{copy_text, opt_text};
use crate::scan::{has_digit, has_quoted_compatible, holds_quoted_compatible};
use crate::text::{has_long_number, holds_long_number, texts};

verus! {

/// One comparison of a marker, reduced to what this library reads of it.
#[derive(Debug, Clone, PartialEq, Eq)]
pub enum MarkerAtom {
    /// A comparison of a version, such as `python_version >= "3.8"`.
    Version,
    /// A version tested against a list of versions.
    VersionIn,
    /// A comparison of a string, such as `sys_platform == "linux"`.
    Text,
    /// A comparison of `extra` with a valid extra name.
    Extra(String),
    /// A comparison of `extra` with a string that is no valid extra name.
    ArbitraryExtra(String),
}

/// The mathematical value of a [`MarkerAtom`].
pub ghost enum MarkerAtomView {
    Version,
    VersionIn,
    Text,
    Extra(Seq<char>),
    ArbitraryExtra(Seq<char>),
}

impl View for MarkerAtom {
    type V = MarkerAtomView;

    open spec fn view(&self) -> MarkerAtomView {
        match *self {
            MarkerAtom::Version => MarkerAtomView::Version,
            MarkerAtom::VersionIn => MarkerAtomView::VersionIn,
            MarkerAtom::Text => MarkerAtomView::Text,
            MarkerAtom::Extra(name) => MarkerAtomView::Extra(name@),
            MarkerAtom::ArbitraryExtra(name) => MarkerAtomView::ArbitraryExtra(name@),
        }
    }
}

/// The values of the comparisons of one clause, in order.
pub open spec fn clause_view(clause: Seq<MarkerAtom>) -> Seq<MarkerAtomView> {
    Seq::new(clause.len(), |i: int| clause[i]@)
}

/// The values of the clauses of a marker, in order.
pub open spec fn clauses_view(clauses: Seq<Vec<MarkerAtom>>) -> Seq<Seq<MarkerAtomView>> {
    Seq::new(clauses.len(), |i: int| clause_view(clauses[i]@))
}

/// The value of the clauses of a marker that may have failed to parse.
pub open spec fn opt_clauses_view(clauses: Option<Vec<Vec<MarkerAtom>>>) -> Option<
    Seq<Seq<MarkerAtomView>>,
> {
    match clauses {
        Some(found) => Some(clauses_view(found@)),
        None => None,
    }
}

/// The marker `marker` in disjunctive normal form, for a marker without
/// digits: a list of clauses, each a list of comparisons; `None` where
/// `marker` is no marker expression.
pub uninterp spec fn marker_clauses(marker: Seq<char>) -> Option<Seq<Seq<MarkerAtomView>>>;

/// The marker that is left of `marker`, a marker without digits, once the
/// extras `extras` are taken as given: `Some(None)` where nothing is left to
/// test, and `None` where `marker` is no marker expression or one of
/// `extras` is no extra name.
pub uninterp spec fn marker_without_extras(marker: Seq<char>, extras: Seq<Seq<char>>) -> Option<
    Option<Seq<char>>,
>;

/// Whether the marker parser is asked about `marker`: unless it holds a
/// number that may not fit in 64 bits, or a quoted string to the left of
/// `~=`.
pub open spec fn is_asked(marker: Seq<char>) -> bool {
    !has_long_number(marker) && !has_quoted_compatible(marker)
}

/// Whether what the marker parser makes of `marker` is the same in every
/// process: where it is asked about the marker and the marker holds no
/// digit, and so no version.
pub open spec fn is_plain(marker: Seq<char>) -> bool {
    is_asked(marker) && !has_digit(marker)
}

/// The value of a simplified marker.
pub open spec fn opt_opt_text(value: Option<Option<String>>) -> Option<Option<Seq<char>>> {
    match value {
        Some(inner) => Some(opt_text(inner)),
        None => None,
    }
}

/// Brings a marker into disjunctive normal form.
///
/// Trusted: parses with `pep508_rs::MarkerTree::from_str` and calls
/// `MarkerTree::to_dnf`; each expression is handed out by its variant, with
/// the name of an `extra` comparison. The contract names the result for a
/// marker without digits and claims nothing of any other: the parser keeps
/// one node for versions that differ in trailing zeros, such as `3` and
/// `3.0`, so that the comparisons of a version are those of the form that
/// the process met first. `requires` leaves out the texts on which the
/// parser does not return: it adds one to release numbers, and has no
/// answer to `~=` after a quoted string.
#[verifier::external_body]
fn read_clauses(marker: &str) -> (clauses: Option<Vec<Vec<MarkerAtom>>>)
    requires
        is_asked(marker@),
    ensures
        is_plain(marker@) ==> opt_clauses_view(clauses) == marker_clauses(marker@),
{
    let tree = pep508_rs::MarkerTree::from_str(marker).ok()?;
    Some(tree.to_dnf().into_iter().map(|clause| clause.into_iter().map(|expression| match expression {
        pep508_rs::MarkerExpression::Version { .. } => MarkerAtom::Version,
        pep508_rs::MarkerExpression::VersionIn { .. } => MarkerAtom::VersionIn,
        pep508_rs::MarkerExpression::String { .. } => MarkerAtom::Text,
        pep508_rs::MarkerExpression::Extra { name: pep508_rs::MarkerValueExtra::Extra(name), .. } => MarkerAtom::Extra(name.to_string()),
        pep508_rs::MarkerExpression::Extra { name: pep508_rs::MarkerValueExtra::Arbitrary(name), .. } => MarkerAtom::ArbitraryExtra(name),
    }).collect()).collect())
}

/// Takes the given extras out of a marker.
///
/// Trusted: parses with `pep508_rs::MarkerTree::from_str`, makes each extra an
/// `ExtraName` with `ExtraName::from_str`, calls `MarkerTree::simplify_extras`
/// and hands out `MarkerTree::try_to_string` of the result. The contract
/// names the result for a marker without digits and claims nothing of any
/// other, for the reason given at `read_clauses`; `requires` leaves the same
/// texts out.
#[verifier::external_body]
fn simplify_marker(marker: &str, extras: &Vec<String>) -> (simplified: Option<Option<String>>)
    requires
        is_asked(marker@),
    ensures
        is_plain(marker@) ==> opt_opt_text(simplified) == marker_without_extras(
            marker@,
            texts(extras@),
        ),
{
    let tree = pep508_rs::MarkerTree::from_str(marker).ok()?;
    let names: Result<Vec<_>, _> = extras.iter().map(|extra| pep508_rs::ExtraName::from_str(extra)).collect();
    Some(tree.simplify_extras(&names.ok()?).try_to_string())
}

/// The extra that a comparison names, if it compares `extra` with a valid
/// name.
pub open spec fn atom_extra(atom: MarkerAtomView) -> Seq<Seq<char>> {
    match atom {
        MarkerAtomView::Extra(name) => seq![name],
        _ => Seq::empty(),
    }
}

/// The extras that the comparisons of one clause name, in order.
pub open spec fn clause_extras(clause: Seq<MarkerAtomView>) -> Seq<Seq<char>>
    decreases clause.len(),
{
    if clause.len() == 0 {
        Seq::empty()
    } else {
        clause_extras(clause.drop_last()) + atom_extra(clause.last())
    }
}

/// The extras that the clauses of a marker name, clause by clause, in order
/// and with repetitions.
pub open spec fn all_extras(clauses: Seq<Seq<MarkerAtomView>>) -> Seq<Seq<char>>
    decreases clauses.len(),
{
    if clauses.len() == 0 {
        Seq::empty()
    } else {
        all_extras(clauses.drop_last()) + clause_extras(clauses.last())
    }
}

/// The extras that the clauses of a marker name.
pub fn extras_in(clauses: &Vec<Vec<MarkerAtom>>) -> (extras: Vec<String>)
    ensures
        texts(extras@) == all_extras(clauses_view(clauses@)),
{
    let mut extras: Vec<String> = Vec::new();
    let ghost all = clauses_view(clauses@);
    let mut i: usize = 0;
    assert(texts(extras@) =~= all_extras(all.take(0)));
    while i < clauses.len()
        invariant
            i <= clauses.len(),
            all == clauses_view(clauses@),
            texts(extras@) == all_extras(all.take(i as int)),
        decreases clauses.len() - i,
    {
        let clause = &clauses[i];
        let ghost atoms = clause_view(clause@);
        let ghost before = texts(extras@);
        let mut j: usize = 0;
        assert(clause_extras(atoms.take(0)) =~= Seq::<Seq<char>>::empty());
        assert(texts(extras@) =~= before + clause_extras(atoms.take(0)));
        while j < clause.len()
            invariant
                j <= clause.len(),
                atoms == clause_view(clause@),
                texts(extras@) == before + clause_extras(atoms.take(j as int)),
            decreases clause.len() - j,
        {
            let ghost so_far = texts(extras@);
            match &clause[j] {
                MarkerAtom::Extra(name) => {
                    extras.push(copy_text(name));
                    assert(texts(extras@) =~= so_far + seq![name@]);
                },
                _ => {},
            }
            proof {
                assert(atoms.take(j + 1).drop_last() =~= atoms.take(j as int));
                assert(atoms.take(j + 1).last() == atoms[j as int]);
                assert(atoms[j as int] == clause@[j as int]@);
                assert(texts(extras@) =~= before + clause_extras(atoms.take(j + 1)));
            }
            j = j + 1;
        }
        proof {
            assert(atoms.take(clause.len() as int) =~= atoms);
            assert(all.take(i + 1).drop_last() =~= all.take(i as int));
            assert(all.take(i + 1).last() == all[i as int]);
            assert(all[i as int] == atoms);
        }
        i = i + 1;
    }
    assert(all.take(clauses.len() as int) =~= all);
    extras
}

/// The extras that a requirement's marker asks for, given the marker's
/// clauses: none for a requirement without a marker or with a marker that is
/// no marker expression.
pub open spec fn marker_extras(clauses: Option<Seq<Seq<MarkerAtomView>>>) -> Seq<Seq<char>> {
    match clauses {
        Some(found) => all_extras(found),
        None => Seq::empty(),
    }
}

/// The extras that a marker asks for, given its clauses.
pub fn extras_of_clauses(clauses: &Option<Vec<Vec<MarkerAtom>>>) -> (extras: Vec<String>)
    ensures
        texts(extras@) == marker_extras(opt_clauses_view(*clauses)),
{
    match clauses {
        Some(found) => extras_in(found),
        None => {
            let none: Vec<String> = Vec::new();
            assert(texts(none@) =~= Seq::<Seq<char>>::empty());
            none
        },
    }
}

/// Whether the marker parser is asked about an optional marker: where there
/// is a marker and the parser is asked about it.
pub open spec fn is_read(marker: Option<Seq<char>>) -> bool {
    marker matches Some(text) && is_asked(text)
}

/// Whether what is read of an optional marker is the same in every process.
pub open spec fn is_read_alike(marker: Option<Seq<char>>) -> bool {
    marker matches Some(text) && is_plain(text)
}

/// Whether the marker parser is asked about `marker`.
fn asks(marker: &str) -> (asked: bool)
    ensures
        asked == is_asked(marker@),
{
    !holds_long_number(marker) && !holds_quoted_compatible(marker)
}

/// The extras that the marker `marker` asks for, in the order of its
/// disjunctive normal form. Without a marker, and for a marker that the
/// parser is not asked about, there are none.
pub fn extras_of_marker(marker: &Option<String>) -> (extras: Vec<String>)
    ensures
        !is_read(opt_text(*marker)) ==> texts(extras@) == Seq::<Seq<char>>::empty(),
        is_read_alike(opt_text(*marker)) ==> texts(extras@) == marker_extras(
            marker_clauses(marker->Some_0@),
        ),
{
    let clauses = match marker {
        Some(text) => if asks(text.as_str()) {
            read_clauses(text.as_str())
        } else {
            None
        },
        None => None,
    };
    extras_of_clauses(&clauses)
}

/// The marker of a requirement after extras were taken out of it, given what
/// is left of the marker: the remainder, where one was computed, else the
/// marker as it was.
pub open spec fn marker_after(marker: Option<Seq<char>>, left: Option<Option<Seq<char>>>) -> Option<
    Seq<char>,
> {
    match left {
        Some(remainder) => remainder,
        None => marker,
    }
}

/// The marker of a requirement after extras were taken out of it, given what
/// is left of the marker.
pub fn marker_left(marker: Option<String>, left: Option<Option<String>>) -> (remaining: Option<
    String,
>)
    ensures
        opt_text(remaining) == marker_after(opt_text(marker), opt_opt_text(left)),
{
    match left {
        Some(remainder) => remainder,
        None => marker,
    }
}

/// Takes the extras `extras` out of the marker `marker`: the conditions on
/// them go, the other conditions stay. Without a marker there is none
/// afterwards, and a marker that the parser is not asked about stays as it
/// is.
pub fn without_extras(marker: Option<String>, extras: &Vec<String>) -> (remaining: Option<String>)
    ensures
        !is_read(opt_text(marker)) ==> opt_text(remaining) == opt_text(marker),
        is_read_alike(opt_text(marker)) ==> opt_text(remaining) == marker_after(
            opt_text(marker),
            marker_without_extras(marker->Some_0@, texts(extras@)),
        ),
{
    let left = match &marker {
        Some(text) => if asks(text.as_str()) {
            simplify_marker(text.as_str(), extras)
        } else {
            None
        },
        None => None,
    };
    marker_left(marker, left)
}

} // verus!
