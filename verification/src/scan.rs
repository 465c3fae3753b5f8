//! Tests on a text that decide whether a parser is asked about it.

use vstd::prelude::*;
use crate::text::is_digit;

verus! {

/// Whether `text` holds a digit.
pub open spec fn has_digit(text: Seq<char>) -> bool {
    exists|i: int| 0 <= i < text.len() && is_digit(#[trigger] text[i])
}

/// Whether `text` holds a digit.
pub fn holds_digit(text: &str) -> (found: bool)
    ensures
        found == has_digit(text@),
{
    let count: usize = text.unicode_len();
    let mut i: usize = 0;
    while i < count
        invariant
            i <= count,
            count == text@.len(),
            forall|k: int| 0 <= k < i ==> !is_digit(#[trigger] text@[k]),
        decreases count - i,
    {
        let character: char = text.get_char(i);
        if '0' <= character && character <= '9' {
            assert(is_digit(text@[i as int]));
            return true;
        }
        i = i + 1;
    }
    false
}

/// Whether `text` holds `${`, which begins a reference to the process's
/// environment.
pub open spec fn has_reference(text: Seq<char>) -> bool {
    exists|i: int| 0 <= i && i + 1 < text.len() && #[trigger] text[i] == '$' && text[i + 1] == '{'
}

/// Whether `text` holds `${`.
pub fn holds_reference(text: &str) -> (found: bool)
    ensures
        found == has_reference(text@),
{
    let count: usize = text.unicode_len();
    let mut i: usize = 0;
    let mut after_dollar: bool = false;
    while i < count
        invariant
            i <= count,
            count == text@.len(),
            after_dollar == (i > 0 && text@[i - 1] == '$'),
            forall|k: int| 0 <= k && k + 1 < i ==> !(#[trigger] text@[k] == '$' && text@[k + 1] == '{'),
        decreases count - i,
    {
        let character: char = text.get_char(i);
        if character == '{' && after_dollar {
            assert(text@[i - 1] == '$' && text@[i as int] == '{');
            return true;
        }
        after_dollar = character == '$';
        i = i + 1;
    }
    false
}

/// Whether a character is skipped between an operand and an operator: white
/// space, and to be on the safe side every character outside printable
/// ASCII.
pub open spec fn is_blank(character: char) -> bool {
    character <= ' ' || character > '~'
}

/// Whether a character opens or closes a quoted string.
pub open spec fn is_quote(character: char) -> bool {
    character == '\'' || character == '"'
}

/// The last character before the position `end` of `text` that is not
/// skipped, if there is one.
pub open spec fn solid_before(text: Seq<char>, end: int) -> Option<char>
    decreases end,
{
    if end <= 0 || end > text.len() {
        None
    } else if is_blank(text[end - 1]) {
        solid_before(text, end - 1)
    } else {
        Some(text[end - 1])
    }
}

/// Whether the operator `~=` stands at the position `at` of `text`, right
/// after a quoted string.
pub open spec fn is_quoted_compatible(text: Seq<char>, at: int) -> bool {
    &&& 0 <= at
    &&& at + 1 < text.len()
    &&& text[at] == '~'
    &&& text[at + 1] == '='
    &&& solid_before(text, at) matches Some(character) && is_quote(character)
}

/// Whether `text` holds the operator `~=` with a quoted string as its left
/// operand.
pub open spec fn has_quoted_compatible(text: Seq<char>) -> bool {
    exists|at: int| #[trigger] is_quoted_compatible(text, at)
}

/// Whether `text` holds the operator `~=` with a quoted string as its left
/// operand.
pub fn holds_quoted_compatible(text: &str) -> (found: bool)
    ensures
        found == has_quoted_compatible(text@),
{
    let count: usize = text.unicode_len();
    let mut i: usize = 0;
    // Whether the last character that is not skipped before `i`, and before
    // `i - 1`, is a quote.
    let mut quoted: bool = false;
    let mut quoted_before: bool = false;
    let mut after_tilde: bool = false;
    while i < count
        invariant
            i <= count,
            count == text@.len(),
            quoted == (solid_before(text@, i as int) matches Some(character) && is_quote(character)),
            i > 0 ==> quoted_before == (solid_before(text@, i - 1) matches Some(character)
                && is_quote(character)),
            after_tilde == (i > 0 && text@[i - 1] == '~'),
            forall|at: int| 0 <= at && at + 1 < i ==> !#[trigger] is_quoted_compatible(text@, at),
        decreases count - i,
    {
        let character: char = text.get_char(i);
        if character == '=' && after_tilde && quoted_before {
            assert(is_quoted_compatible(text@, i - 1));
            return true;
        }
        quoted_before = quoted;
        if !(character <= ' ' || character > '~') {
            quoted = character == '\'' || character == '"';
        }
        after_tilde = character == '~';
        i = i + 1;
    }
    assert forall|at: int| !#[trigger] is_quoted_compatible(text@, at) by {
        if is_quoted_compatible(text@, at) {
            assert(at + 1 < count);
        }
    }
    false
}

/// Whether a character may stand within a name: an ASCII letter or digit,
/// or one of `-`, `_`, `.`.
pub open spec fn is_name_char(character: char) -> bool {
    ||| 'a' <= character <= 'z'
    ||| 'A' <= character <= 'Z'
    ||| '0' <= character <= '9'
    ||| is_punctuation(character)
}

/// Whether a character is one of `-`, `_`, `.`, with which no name ends.
pub open spec fn is_punctuation(character: char) -> bool {
    character == '-' || character == '_' || character == '.'
}

/// Whether a character ends the part of a requirement that holds its name
/// and its extras.
pub open spec fn is_terminator(character: char) -> bool {
    ||| character == ';'
    ||| character == '@'
    ||| character == '<'
    ||| character == '='
    ||| character == '>'
    ||| character == '~'
    ||| character == '!'
    ||| character == '('
}

/// Whether a name or an extra ends in `-`, `_` or `.` at the position `at`
/// of `text`: the character there is one of these, no name character follows
/// it, and the name and the extras of the requirement have not ended before.
pub open spec fn is_dangling(text: Seq<char>, at: int) -> bool {
    &&& 0 <= at < text.len()
    &&& is_punctuation(text[at])
    &&& (at + 1 == text.len() || !is_name_char(text[at + 1]))
    &&& forall|k: int| 0 <= k < at ==> !is_terminator(#[trigger] text[k])
}

/// Whether the name or an extra of the requirement `text` ends in `-`, `_`
/// or `.`.
pub open spec fn has_dangling_punctuation(text: Seq<char>) -> bool {
    exists|at: int| #[trigger] is_dangling(text, at)
}

/// Whether `character` may stand within a name.
fn name_char(character: char) -> (name: bool)
    ensures
        name == is_name_char(character),
{
    ('a' <= character && character <= 'z') || ('A' <= character && character <= 'Z') || ('0'
        <= character && character <= '9') || character == '-' || character == '_' || character
        == '.'
}

/// Whether the name or an extra of the requirement `text` ends in `-`, `_`
/// or `.`.
pub fn holds_dangling_punctuation(text: &str) -> (found: bool)
    ensures
        found == has_dangling_punctuation(text@),
{
    let count: usize = text.unicode_len();
    let mut i: usize = 0;
    while i < count
        invariant
            i <= count,
            count == text@.len(),
            forall|k: int| 0 <= k < i ==> !is_terminator(#[trigger] text@[k]),
            forall|at: int| 0 <= at < i ==> !#[trigger] is_dangling(text@, at),
        decreases count - i,
    {
        let character: char = text.get_char(i);
        if character == '-' || character == '_' || character == '.' {
            let dangling = if i + 1 == count {
                true
            } else {
                !name_char(text.get_char(i + 1))
            };
            if dangling {
                assert(is_dangling(text@, i as int));
                return true;
            }
        }
        if character == ';' || character == '@' || character == '<' || character == '='
            || character == '>' || character == '~' || character == '!' || character == '(' {
            assert(is_terminator(text@[i as int]));
            assert forall|at: int| !#[trigger] is_dangling(text@, at) by {
                if is_dangling(text@, at) {
                    if at > i {
                        assert(is_terminator(text@[i as int]));
                    }
                }
            }
            return false;
        }
        i = i + 1;
    }
    assert forall|at: int| !#[trigger] is_dangling(text@, at) by {
    }
    false
}

} // verus!
