//! Text as sequences of characters: ordering, joining and sorted sets of names.

use vstd::prelude::*;

verus! {

/// The texts that a vector of strings holds, in order.
pub open spec fn texts(items: Seq<String>) -> Seq<Seq<char>> {
    Seq::new(items.len(), |i: int| items[i]@)
}

/// Strict lexicographic order on text, character by character, by code point.
pub open spec fn text_lt(a: Seq<char>, b: Seq<char>) -> bool
    decreases a.len(),
{
    if b.len() == 0 {
        false
    } else if a.len() == 0 {
        true
    } else if a[0] != b[0] {
        (a[0] as int) < (b[0] as int)
    } else {
        text_lt(a.skip(1), b.skip(1))
    }
}

/// Every text is ordered below each text that follows it in the sequence.
pub open spec fn strictly_sorted(items: Seq<Seq<char>>) -> bool {
    forall|i: int, j: int| 0 <= i < j < items.len() ==> text_lt(#[trigger] items[i], #[trigger] items[j])
}

/// The parts written one after the other, with `sep` between each two neighbours.
pub open spec fn join(parts: Seq<Seq<char>>, sep: Seq<char>) -> Seq<char>
    decreases parts.len(),
{
    if parts.len() == 0 {
        Seq::empty()
    } else if parts.len() == 1 {
        parts[0]
    } else {
        join(parts.drop_last(), sep) + sep + parts.last()
    }
}

/// No text is ordered below itself.
pub proof fn lemma_text_lt_irreflexive(a: Seq<char>)
    ensures
        !text_lt(a, a),
    decreases a.len(),
{
    if a.len() > 0 {
        lemma_text_lt_irreflexive(a.skip(1));
    }
}

/// The order is transitive.
pub proof fn lemma_text_lt_transitive(a: Seq<char>, b: Seq<char>, c: Seq<char>)
    requires
        text_lt(a, b),
        text_lt(b, c),
    ensures
        text_lt(a, c),
    decreases a.len(),
{
    if a.len() > 0 && b.len() > 0 && c.len() > 0 {
        if a[0] == b[0] && b[0] == c[0] {
            lemma_text_lt_transitive(a.skip(1), b.skip(1), c.skip(1));
        }
    }
}

/// Two texts of which neither is below the other are the same text.
pub proof fn lemma_text_lt_total(a: Seq<char>, b: Seq<char>)
    requires
        !text_lt(a, b),
        !text_lt(b, a),
    ensures
        a == b,
    decreases a.len(),
{
    if a.len() == 0 || b.len() == 0 {
        assert(a =~= b);
    } else {
        assert(a[0] == b[0]);
        lemma_text_lt_total(a.skip(1), b.skip(1));
        assert(a =~= seq![a[0]] + a.skip(1));
        assert(b =~= seq![b[0]] + b.skip(1));
    }
}

/// A set of texts has at most one strictly sorted listing: two strictly sorted
/// sequences with the same items are the same sequence.
pub proof fn lemma_strictly_sorted_unique(a: Seq<Seq<char>>, b: Seq<Seq<char>>)
    requires
        strictly_sorted(a),
        strictly_sorted(b),
        a.to_set() == b.to_set(),
    ensures
        a == b,
    decreases a.len(),
{
    if a.len() == 0 {
        if b.len() > 0 {
            assert(b.contains(b[0]));
            assert(a.to_set().contains(b[0]));
        }
        assert(a =~= b);
    } else {
        assert(a.contains(a[0]));
        assert(b.to_set().contains(a[0]));
        let k = choose|k: int| 0 <= k < b.len() && b[k] == a[0];
        assert(b.contains(b[0]));
        assert(a.to_set().contains(b[0]));
        let m = choose|m: int| 0 <= m < a.len() && a[m] == b[0];
        if k > 0 {
            assert(text_lt(b[0], b[k]));
            if m > 0 {
                assert(text_lt(a[0], a[m]));
                lemma_text_lt_transitive(a[0], b[0], a[0]);
            }
            lemma_text_lt_irreflexive(a[0]);
        }
        assert(a[0] == b[0]);
        let a1 = a.skip(1);
        let b1 = b.skip(1);
        assert forall|i: int, j: int| 0 <= i < j < a1.len() implies text_lt(
            #[trigger] a1[i],
            #[trigger] a1[j],
        ) by {
            assert(a1[i] == a[i + 1] && a1[j] == a[j + 1]);
        }
        assert forall|i: int, j: int| 0 <= i < j < b1.len() implies text_lt(
            #[trigger] b1[i],
            #[trigger] b1[j],
        ) by {
            assert(b1[i] == b[i + 1] && b1[j] == b[j + 1]);
        }
        assert forall|t: Seq<char>| a1.to_set().contains(t) <==> b1.to_set().contains(t) by {
            lemma_text_lt_irreflexive(t);
            if a1.contains(t) {
                let i = choose|i: int| 0 <= i < a1.len() && a1[i] == t;
                assert(a[i + 1] == t);
                assert(text_lt(a[0], a[i + 1]));
                assert(a.contains(t));
                assert(b.to_set().contains(t));
                let j = choose|j: int| 0 <= j < b.len() && b[j] == t;
                assert(j > 0);
                assert(b1[j - 1] == t);
            }
            if b1.contains(t) {
                let i = choose|i: int| 0 <= i < b1.len() && b1[i] == t;
                assert(b[i + 1] == t);
                assert(text_lt(b[0], b[i + 1]));
                assert(b.contains(t));
                assert(a.to_set().contains(t));
                let j = choose|j: int| 0 <= j < a.len() && a[j] == t;
                assert(j > 0);
                assert(a1[j - 1] == t);
            }
        }
        assert(a1.to_set() =~= b1.to_set());
        lemma_strictly_sorted_unique(a1, b1);
        assert(a =~= seq![a[0]] + a1);
        assert(b =~= seq![b[0]] + b1);
    }
}

/// Texts that agree on their first `n` characters compare as their remainders do.
proof fn lemma_text_lt_common_prefix(a: Seq<char>, b: Seq<char>, n: int)
    requires
        0 <= n <= a.len(),
        n <= b.len(),
        forall|k: int| 0 <= k < n ==> a[k] == b[k],
    ensures
        text_lt(a, b) == text_lt(a.skip(n), b.skip(n)),
    decreases n,
{
    if n == 0 {
        assert(a.skip(0) =~= a);
        assert(b.skip(0) =~= b);
    } else {
        let a1 = a.skip(1);
        let b1 = b.skip(1);
        assert forall|k: int| 0 <= k < n - 1 implies a1[k] == b1[k] by {
            assert(a1[k] == a[k + 1]);
            assert(b1[k] == b[k + 1]);
        }
        lemma_text_lt_common_prefix(a1, b1, n - 1);
        assert(a1.skip(n - 1) =~= a.skip(n));
        assert(b1.skip(n - 1) =~= b.skip(n));
        assert(a[0] == b[0]);
    }
}

/// Whether `a` comes strictly before `b` in lexicographic order.
pub fn text_less(a: &str, b: &str) -> (less: bool)
    ensures
        less == text_lt(a@, b@),
{
    let n: usize = a.unicode_len();
    let m: usize = b.unicode_len();
    let mut i: usize = 0;
    while i < n && i < m
        invariant
            i <= n,
            i <= m,
            n == a@.len(),
            m == b@.len(),
            forall|k: int| 0 <= k < i ==> a@[k] == b@[k],
        decreases n - i,
    {
        let x: char = a.get_char(i);
        let y: char = b.get_char(i);
        if x != y {
            proof {
                lemma_text_lt_common_prefix(a@, b@, i as int);
                assert(a@.skip(i as int)[0] == x);
                assert(b@.skip(i as int)[0] == y);
            }
            return x < y;
        }
        i = i + 1;
    }
    proof {
        lemma_text_lt_common_prefix(a@, b@, i as int);
    }
    i < m
}

/// Joins the parts into one string, with `sep` between each two neighbours.
///
/// Trusted: this is `itertools::Itertools::join` on the parts in order. Its
/// documentation says that it combines all elements into one `String`, separated
/// by `sep`, using each element's `Display`, which for a `String` is its text.
#[verifier::external_body]
pub(crate) fn join_texts(parts: &Vec<String>, sep: &str) -> (joined: String)
    ensures
        joined@ == join(texts(parts@), sep@),
{
    itertools::Itertools::join(&mut parts.iter(), sep)
}

/// Puts `item` into a strictly sorted vector, at its place, unless it is there already.
pub fn insert_sorted(items: &mut Vec<String>, item: String)
    requires
        strictly_sorted(texts(old(items)@)),
    ensures
        strictly_sorted(texts(final(items)@)),
        texts(final(items)@).to_set() == texts(old(items)@).to_set().insert(item@),
        texts(old(items)@).contains(item@) ==> texts(final(items)@) == texts(old(items)@),
{
    let ghost before = texts(items@);
    let n: usize = items.len();
    let mut i: usize = 0;
    while i < n && text_less(items[i].as_str(), item.as_str())
        invariant
            i <= n,
            n == items@.len(),
            before == texts(items@),
            forall|k: int| 0 <= k < i ==> text_lt(#[trigger] before[k], item@),
        decreases n - i,
    {
        assert(before[i as int] == items@[i as int]@);
        i = i + 1;
    }
    if i < n && !text_less(item.as_str(), items[i].as_str()) {
        proof {
            assert(before[i as int] == items@[i as int]@);
            lemma_text_lt_total(before[i as int], item@);
            assert(before.contains(item@));
            assert(before.to_set() =~= before.to_set().insert(item@));
        }
        return ;
    }
    let ghost wanted = item@;
    items.insert(i, item);
    proof {
        let after = texts(items@);
        assert(after =~= before.insert(i as int, wanted));
        if i < n {
            assert(before[i as int] == old(items)@[i as int]@);
        }
        assert(strictly_sorted(after)) by {
            assert forall|p: int, q: int| 0 <= p < q < after.len() implies text_lt(
                #[trigger] after[p],
                #[trigger] after[q],
            ) by {
                if q < i {
                    assert(after[p] == before[p] && after[q] == before[q]);
                } else if q == i {
                    assert(after[p] == before[p]);
                } else if p < i {
                    assert(after[p] == before[p] && after[q] == before[q - 1]);
                    lemma_text_lt_transitive(before[p], wanted, before[i as int]);
                    if q - 1 > i {
                        lemma_text_lt_transitive(before[p], before[i as int], before[q - 1]);
                    }
                } else if p == i {
                    assert(after[q] == before[q - 1]);
                    if q - 1 > i {
                        lemma_text_lt_transitive(wanted, before[i as int], before[q - 1]);
                    }
                } else {
                    assert(after[p] == before[p - 1] && after[q] == before[q - 1]);
                }
            }
        }
        assert(after.to_set() =~= before.to_set().insert(wanted)) by {
            assert forall|t: Seq<char>| after.to_set().contains(t) <==> before.to_set().insert(
                wanted,
            ).contains(t) by {
                if after.contains(t) {
                    let k = choose|k: int| 0 <= k < after.len() && after[k] == t;
                    if k < i {
                        assert(before[k] == t);
                    } else if k > i {
                        assert(before[k - 1] == t);
                    }
                }
                if before.contains(t) {
                    let k = choose|k: int| 0 <= k < before.len() && before[k] == t;
                    if k < i {
                        assert(after[k] == t);
                    } else {
                        assert(after[k + 1] == t);
                    }
                }
                if t == wanted {
                    assert(after[i as int] == t);
                }
            }
        }
        if before.contains(wanted) {
            let k = choose|k: int| 0 <= k < before.len() && before[k] == wanted;
            lemma_text_lt_irreflexive(wanted);
            if k < i {
            } else if k == i {
            } else {
                lemma_text_lt_transitive(wanted, before[i as int], before[k]);
            }
        }
    }
}

/// Whether `character` is an ASCII digit.
pub open spec fn is_digit(character: char) -> bool {
    '0' <= character <= '9'
}

/// How many digits stand in a row just before the position `end` of `text`.
pub open spec fn digit_run(text: Seq<char>, end: int) -> nat
    decreases end,
{
    if end <= 0 || end > text.len() || !is_digit(text[end - 1]) {
        0
    } else {
        digit_run(text, end - 1) + 1
    }
}

/// Whether `text` holds a number of nineteen digits or more, which may not
/// fit in 64 bits.
pub open spec fn has_long_number(text: Seq<char>) -> bool {
    exists|end: int| 0 <= end <= text.len() && #[trigger] digit_run(text, end) >= 19
}

/// Whether `text` holds a number of nineteen digits or more.
pub fn holds_long_number(text: &str) -> (long: bool)
    ensures
        long == has_long_number(text@),
{
    let count: usize = text.unicode_len();
    let mut i: usize = 0;
    let mut run: usize = 0;
    while i < count
        invariant
            i <= count,
            count == text@.len(),
            run == digit_run(text@, i as int),
            run < 19,
            forall|end: int| 0 <= end <= i ==> #[trigger] digit_run(text@, end) < 19,
        decreases count - i,
    {
        let character: char = text.get_char(i);
        if '0' <= character && character <= '9' {
            run = run + 1;
        } else {
            run = 0;
        }
        i = i + 1;
        assert(run == digit_run(text@, i as int));
        if run >= 19 {
            return true;
        }
    }
    false
}

/// Whether `text` holds the character `wanted`.
pub fn holds_char(text: &str, wanted: char) -> (found: bool)
    ensures
        found == text@.contains(wanted),
{
    let count: usize = text.unicode_len();
    let mut i: usize = 0;
    while i < count
        invariant
            i <= count,
            count == text@.len(),
            forall|k: int| 0 <= k < i ==> text@[k] != wanted,
        decreases count - i,
    {
        if text.get_char(i) == wanted {
            assert(text@[i as int] == wanted);
            return true;
        }
        i = i + 1;
    }
    false
}

} // verus!
