//! Keys that were written and understood, and what a misspelled one was meant to be.

use vstd::prelude::*;

use super::document::{Table, Item};
use crate::text::{chars_of, concat, concat3, same_text, starts_with};
use crate::tokens::slice_text;

verus! {

// ── leaves ──────────────────────────────────────────────────────────────────

/// The path of `key` below `prefix`, dotted.
pub open spec fn dotted(prefix: Seq<char>, key: Seq<char>) -> Seq<char> {
    if prefix.len() == 0 {
        key
    } else {
        prefix + "."@ + key
    }
}

/// Every leaf path below `prefix`, dotted, e.g. `profiles.dictate.capture.pre_roll_ms`.
///
/// Arrays are leaves: their contents are values, not configuration keys. So is an empty
/// table.
pub open spec fn leaves(
    entries: Seq<(Seq<char>, super::document::Tree)>,
    prefix: Seq<char>,
) -> Seq<Seq<char>>
    decreases entries,
{
    if entries.len() == 0 {
        Seq::empty()
    } else {
        proof {
            assert(decreases_to!(entries => entries.subrange(0, entries.len() - 1)));
            assert(decreases_to!(entries => entries[entries.len() - 1]));
        }
        let last = entries[entries.len() - 1];
        let path = dotted(prefix, last.0);
        let under = match last.1 {
            super::document::Tree::Table(inner) => if inner.len() > 0 {
                leaves(inner, path)
            } else {
                seq![path]
            },
            _ => seq![path],
        };
        leaves(entries.drop_last(), prefix) + under
    }
}

/// Appends every leaf path of `table` to `out`.
pub fn leaf_paths(table: &Table, prefix: &str, out: &mut Vec<String>)
    ensures
        crate::text::texts(final(out)@) == crate::text::texts(old(out)@) + leaves(
            super::document::entries_of(*table),
            prefix@,
        ),
    decreases *table,
{
    let entries = table.entries.entries();
    let ghost all = super::document::entries_of(*table);
    let ghost before = crate::text::texts(out@);
    let mut i: usize = 0;
    assert(before + leaves(all.take(0), prefix@) =~= before);
    while i < entries.len()
        invariant
            i <= entries.len(),
            entries@ == table.entries@,
            all == super::document::entries_of(*table),
            crate::text::texts(out@) == before + leaves(all.take(i as int), prefix@),
        decreases entries.len() - i,
    {
        let key = entries[i].0.as_str();
        let path = if prefix.is_empty() {
            key.to_owned()
        } else {
            concat3(prefix, ".", key)
        };
        let ghost so_far = leaves(all.take(i as int), prefix@);
        let ghost out0 = crate::text::texts(out@);
        proof {
            assert(all.take(i + 1).drop_last() =~= all.take(i as int));
            assert(all.take(i + 1)[i as int] == all[i as int]);
            assert(path@ == dotted(prefix@, key@));
            crate::names::lemma_entry_decreases(table.entries, i as int);
            assert(decreases_to!(*table => table.entries));
        }
        match &entries[i].1 {
            Item::Table(inner) => {
                assert(super::document::entries_of(*inner).len() == inner.entries@.len());
                if !inner.entries.is_empty() {
                    proof {
                        let value = table.entries@[i as int].1;
                        assert(decreases_to!(value => value->Table_0));
                    }
                    leaf_paths(inner, path.as_str(), out);
                } else {
                    out.push(path);
                    assert(crate::text::texts(out@) =~= out0.push(path@));
                    assert(out0.push(path@) =~= out0 + seq![path@]);
                }
            },
            _ => {
                out.push(path);
                assert(crate::text::texts(out@) =~= out0.push(path@));
                assert(out0.push(path@) =~= out0 + seq![path@]);
            },
        }
        proof {
            assert(crate::text::texts(out@) =~= before + leaves(all.take(i + 1), prefix@));
        }
        i += 1;
    }
    assert(all.take(i as int) =~= all);
}

// ── unknown keys ────────────────────────────────────────────────────────────

/// Whether a key the user wrote survived the round trip.
///
/// An exact match is the common case. The prefix case covers a table written empty: a bare
/// `[profiles.dictate]` that takes everything by inheritance is a leaf in the input and a
/// whole subtree in the output, and is obviously not a typo. A table that is empty *and*
/// has no subtree in the output still gets reported, which is the case worth catching.
pub open spec fn is_understood(written: Seq<char>, understood: Seq<Seq<char>>) -> bool {
    exists|i: int|
        0 <= i < understood.len() && (#[trigger] understood[i] == written || (written
            + "."@).is_prefix_of(understood[i]))
}

/// Whether a path lies under one of the given prefixes.
pub open spec fn is_free(path: Seq<char>, free_form: Seq<Seq<char>>) -> bool {
    exists|i: int| 0 <= i < free_form.len() && (#[trigger] free_form[i]).is_prefix_of(path)
}

/// Whether a key that was written has no home in the schema.
pub open spec fn is_unknown(
    path: Seq<char>,
    understood: Seq<Seq<char>>,
    free_form: Seq<Seq<char>>,
) -> bool {
    !is_understood(path, understood) && !is_free(path, free_form)
}

/// The keys of `written` that have no home in the schema, in order.
pub open spec fn unknown_of(
    written: Seq<Seq<char>>,
    understood: Seq<Seq<char>>,
    free_form: Seq<Seq<char>>,
) -> Seq<Seq<char>> {
    written.filter(|path: Seq<char>| is_unknown(path, understood, free_form))
}

fn understood_by(written: &str, understood: &Vec<String>) -> (result: bool)
    ensures
        result == is_understood(written@, crate::text::texts(understood@)),
{
    let ghost known = crate::text::texts(understood@);
    let prefix = concat(written, ".");
    let mut i: usize = 0;
    while i < understood.len()
        invariant
            i <= understood.len(),
            known == crate::text::texts(understood@),
            prefix@ == written@ + "."@,
            forall|j: int|
                0 <= j < i ==> #[trigger] known[j] != written@ && !(written@ + "."@).is_prefix_of(
                    known[j],
                ),
        decreases understood.len() - i,
    {
        assert(known[i as int] == understood@[i as int]@);
        if same_text(understood[i].as_str(), written) || starts_with(
            understood[i].as_str(),
            prefix.as_str(),
        ) {
            return true;
        }
        i += 1;
    }
    false
}

fn free_of(path: &str, free_form: &Vec<String>) -> (result: bool)
    ensures
        result == is_free(path@, crate::text::texts(free_form@)),
{
    let ghost prefixes = crate::text::texts(free_form@);
    let mut i: usize = 0;
    while i < free_form.len()
        invariant
            i <= free_form.len(),
            prefixes == crate::text::texts(free_form@),
            forall|j: int| 0 <= j < i ==> !(#[trigger] prefixes[j]).is_prefix_of(path@),
        decreases free_form.len() - i,
    {
        assert(prefixes[i as int] == free_form@[i as int]@);
        if starts_with(path, free_form[i].as_str()) {
            return true;
        }
        i += 1;
    }
    false
}

/// Keys the user wrote that the configuration schema does not have a home for.
///
/// Rather than maintaining a list of valid keys by hand, which would rot the moment a field
/// is added, this compares the document the user wrote against the document the parsed
/// configuration serializes back to. Anything in the first that is missing from the second
/// was silently dropped, which is exactly the class of typo that leaves a user staring at a
/// setting that appears to do nothing.
///
/// `free_form` lists path prefixes whose children are arbitrary by design, such as HTTP
/// headers, environment variables and multipart fields, and must not be reported.
pub fn unknown_keys(input: &Table, round_tripped: &Table, free_form: &Vec<String>) -> (result: Vec<
    String,
>)
    ensures
        crate::text::texts(result@) == unknown_of(
            leaves(super::document::entries_of(*input), Seq::empty()),
            leaves(super::document::entries_of(*round_tripped), Seq::empty()),
            crate::text::texts(free_form@),
        ),
{
    let empty = String::new();
    let mut written: Vec<String> = Vec::new();
    leaf_paths(input, empty.as_str(), &mut written);
    let mut understood: Vec<String> = Vec::new();
    leaf_paths(round_tripped, empty.as_str(), &mut understood);
    let ghost w = crate::text::texts(written@);
    let ghost u = crate::text::texts(understood@);
    let ghost f = crate::text::texts(free_form@);
    proof {
        assert(crate::text::texts(Seq::<String>::empty()) =~= Seq::<Seq<char>>::empty());
        assert(w =~= leaves(super::document::entries_of(*input), Seq::empty()));
        assert(u =~= leaves(super::document::entries_of(*round_tripped), Seq::empty()));
    }
    let ghost pred = |path: Seq<char>| is_unknown(path, u, f);
    let mut out: Vec<String> = Vec::new();
    let mut i: usize = 0;
    assert(w.take(0).filter(pred) =~= Seq::<Seq<char>>::empty()) by {
        reveal(Seq::filter);
    }
    assert(crate::text::texts(out@) =~= Seq::<Seq<char>>::empty());
    while i < written.len()
        invariant
            i <= written.len(),
            w == crate::text::texts(written@),
            u == crate::text::texts(understood@),
            f == crate::text::texts(free_form@),
            pred == (|path: Seq<char>| is_unknown(path, u, f)),
            crate::text::texts(out@) == w.take(i as int).filter(pred),
        decreases written.len() - i,
    {
        proof {
            assert(w.take(i + 1) =~= w.take(i as int).push(w[i as int]));
            w.take(i as int).lemma_filter_push(w[i as int], pred);
            assert(w[i as int] == written@[i as int]@);
        }
        if !understood_by(written[i].as_str(), &understood) && !free_of(
            written[i].as_str(),
            free_form,
        ) {
            let ghost out0 = crate::text::texts(out@);
            out.push(written[i].clone());
            assert(crate::text::texts(out@) =~= out0.push(w[i as int]));
        }
        i += 1;
    }
    assert(w.take(i as int) =~= w);
    out
}

// ── near misses ─────────────────────────────────────────────────────────────

/// The smallest of three numbers.
pub open spec fn least(a: nat, b: nat, c: nat) -> nat {
    if a <= b && a <= c {
        a
    } else if b <= c {
        b
    } else {
        c
    }
}

/// Levenshtein distance: how many single-character insertions, deletions and substitutions
/// separate two texts.
pub open spec fn distance(a: Seq<char>, b: Seq<char>) -> nat
    decreases a.len() + b.len(),
{
    if a.len() == 0 {
        b.len()
    } else if b.len() == 0 {
        a.len()
    } else {
        least(
            distance(a.drop_last(), b.drop_last()) + (if a.last() == b.last() { 0nat } else { 1nat }),
            distance(a.drop_last(), b) + 1,
            distance(a, b.drop_last()) + 1,
        )
    }
}

/// The distance never exceeds the longer of the two texts.
pub proof fn law_distance_is_bounded(a: Seq<char>, b: Seq<char>)
    ensures
        distance(a, b) <= (if a.len() >= b.len() { a.len() } else { b.len() }),
    decreases a.len() + b.len(),
{
    if a.len() > 0 && b.len() > 0 {
        law_distance_is_bounded(a.drop_last(), b.drop_last());
    }
}

/// The distance is the same both ways.
pub proof fn law_distance_is_symmetric(a: Seq<char>, b: Seq<char>)
    ensures
        distance(a, b) == distance(b, a),
    decreases a.len() + b.len(),
{
    if a.len() > 0 && b.len() > 0 {
        law_distance_is_symmetric(a.drop_last(), b.drop_last());
        law_distance_is_symmetric(a.drop_last(), b);
        law_distance_is_symmetric(a, b.drop_last());
    }
}

/// Only a text itself is at no distance from it.
pub proof fn law_distance_separates(a: Seq<char>, b: Seq<char>)
    ensures
        (distance(a, b) == 0) == (a == b),
    decreases a.len() + b.len(),
{
    if a.len() == 0 || b.len() == 0 {
        if distance(a, b) == 0 {
            assert(a =~= b);
        }
    } else {
        law_distance_separates(a.drop_last(), b.drop_last());
        if distance(a, b) == 0 {
            assert(a =~= a.drop_last().push(a.last()));
            assert(b =~= b.drop_last().push(b.last()));
        }
    }
}

/// The distance is at least the difference in length.
pub proof fn law_distance_covers_the_difference_in_length(a: Seq<char>, b: Seq<char>)
    ensures
        distance(a, b) >= a.len() - b.len(),
        distance(a, b) >= b.len() - a.len(),
    decreases a.len() + b.len(),
{
    if a.len() > 0 && b.len() > 0 {
        law_distance_covers_the_difference_in_length(a.drop_last(), b.drop_last());
        law_distance_covers_the_difference_in_length(a.drop_last(), b);
        law_distance_covers_the_difference_in_length(a, b.drop_last());
    }
}

/// A detour is never shorter.
pub proof fn law_distance_satisfies_the_triangle_inequality(a: Seq<char>, b: Seq<char>, c: Seq<char>)
    ensures
        distance(a, c) <= distance(a, b) + distance(b, c),
    decreases a.len() + b.len() + c.len(),
{
    if a.len() == 0 || c.len() == 0 {
        law_distance_covers_the_difference_in_length(a, b);
        law_distance_covers_the_difference_in_length(b, c);
    } else if b.len() == 0 {
        law_distance_is_bounded(a, c);
    } else {
        let (u, v, w) = (a.drop_last(), b.drop_last(), c.drop_last());
        law_distance_satisfies_the_triangle_inequality(u, b, c);
        law_distance_satisfies_the_triangle_inequality(a, b, w);
        law_distance_satisfies_the_triangle_inequality(a, v, w);
        law_distance_satisfies_the_triangle_inequality(a, v, c);
        law_distance_satisfies_the_triangle_inequality(u, v, c);
        law_distance_satisfies_the_triangle_inequality(u, v, w);
    }
}

/// Whether one text becomes the other by inserting, deleting or substituting one character.
pub open spec fn one_edit(a: Seq<char>, b: Seq<char>) -> bool {
    ||| exists|i: int, c: char| 0 <= i <= a.len() && b == #[trigger] a.insert(i, c)
    ||| exists|i: int| 0 <= i < a.len() && b == #[trigger] a.remove(i)
    ||| exists|i: int, c: char| 0 <= i < a.len() && b == #[trigger] a.update(i, c)
}

/// Whether one text becomes the other in exactly that many such edits.
pub open spec fn in_edits(a: Seq<char>, b: Seq<char>, n: nat) -> bool
    decreases n,
{
    if n == 0 {
        a == b
    } else {
        exists|m: Seq<char>| #[trigger] one_edit(a, m) && in_edits(m, b, (n - 1) as nat)
    }
}

/// The distance is the least number of single-character edits that turn one text into the
/// other: that many suffice, and no fewer do.
pub proof fn law_distance_is_the_least_number_of_edits(a: Seq<char>, b: Seq<char>, n: nat)
    ensures
        in_edits(a, b, distance(a, b)),
        in_edits(a, b, n) ==> distance(a, b) <= n,
{
    lemma_distance_suffices(a, b);
    if in_edits(a, b, n) {
        lemma_no_fewer_edits(a, b, n);
    }
}

proof fn lemma_no_fewer_edits(a: Seq<char>, b: Seq<char>, n: nat)
    requires
        in_edits(a, b, n),
    ensures
        distance(a, b) <= n,
    decreases n,
{
    if n == 0 {
        law_distance_separates(a, b);
    } else {
        let m = choose|m: Seq<char>| #[trigger] one_edit(a, m) && in_edits(m, b, (n - 1) as nat);
        lemma_no_fewer_edits(m, b, (n - 1) as nat);
        lemma_one_edit_is_one_away(a, m);
        law_distance_satisfies_the_triangle_inequality(a, m, b);
    }
}

proof fn lemma_one_edit_is_one_away(a: Seq<char>, b: Seq<char>)
    requires
        one_edit(a, b),
    ensures
        distance(a, b) <= 1,
{
    if exists|i: int, c: char| 0 <= i <= a.len() && b == #[trigger] a.insert(i, c) {
        let (i, c) = choose|i: int, c: char| 0 <= i <= a.len() && b == #[trigger] a.insert(i, c);
        lemma_insertion(a, i, c);
    } else if exists|i: int| 0 <= i < a.len() && b == #[trigger] a.remove(i) {
        let i = choose|i: int| 0 <= i < a.len() && b == #[trigger] a.remove(i);
        assert(b.insert(i, a[i]) =~= a);
        lemma_insertion(b, i, a[i]);
        law_distance_is_symmetric(a, b);
    } else {
        let (i, c) = choose|i: int, c: char| 0 <= i < a.len() && b == #[trigger] a.update(i, c);
        lemma_substitution(a, i, c);
    }
}

proof fn lemma_insertion(a: Seq<char>, i: int, c: char)
    requires
        0 <= i <= a.len(),
    ensures
        distance(a, a.insert(i, c)) <= 1,
    decreases a.len(),
{
    let b = a.insert(i, c);
    if i == a.len() {
        assert(b.drop_last() =~= a);
        law_distance_separates(a, a);
    } else {
        assert(b.drop_last() =~= a.drop_last().insert(i, c));
        lemma_insertion(a.drop_last(), i, c);
    }
}

proof fn lemma_substitution(a: Seq<char>, i: int, c: char)
    requires
        0 <= i < a.len(),
    ensures
        distance(a, a.update(i, c)) <= 1,
    decreases a.len(),
{
    let b = a.update(i, c);
    if i == a.len() - 1 {
        assert(b.drop_last() =~= a.drop_last());
        law_distance_separates(a.drop_last(), a.drop_last());
    } else {
        assert(b.drop_last() =~= a.drop_last().update(i, c));
        lemma_substitution(a.drop_last(), i, c);
    }
}

proof fn lemma_distance_suffices(a: Seq<char>, b: Seq<char>)
    ensures
        in_edits(a, b, distance(a, b)),
    decreases a.len() + b.len(),
{
    if a.len() == 0 && b.len() == 0 {
        assert(a =~= b);
    } else if b.len() == 0 {
        lemma_distance_suffices(a.drop_last(), b);
        assert(a.remove(a.len() - 1) =~= a.drop_last());
        assert(one_edit(a, a.drop_last()));
        if a.len() == 1 {
            assert(a.drop_last() =~= b);
        }
        assert(distance(a.drop_last(), b) == a.len() - 1);
    } else {
        let v = b.drop_last();
        assert(v.insert(v.len() as int, b.last()) =~= b);
        assert(one_edit(v, b));
        if a.len() == 0 {
            lemma_distance_suffices(a, v);
            lemma_one_more_edit(a, v, b, distance(a, v));
        } else {
            let u = a.drop_last();
            assert(u.push(a.last()) =~= a);
            let same = distance(u, v) + (if a.last() == b.last() { 0nat } else { 1nat });
            if distance(a, b) == same {
                lemma_distance_suffices(u, v);
                lemma_edits_before(u, v, a.last(), distance(u, v));
                let w = v.push(a.last());
                if a.last() == b.last() {
                    assert(w =~= b);
                } else {
                    assert(w.update(w.len() - 1, b.last()) =~= b);
                    assert(one_edit(w, b));
                    lemma_one_more_edit(a, w, b, distance(u, v));
                }
            } else if distance(a, b) == distance(u, b) + 1 {
                lemma_distance_suffices(u, b);
                assert(a.remove(a.len() - 1) =~= u);
                assert(one_edit(a, u));
            } else {
                lemma_distance_suffices(a, v);
                lemma_one_more_edit(a, v, b, distance(a, v));
            }
        }
    }
}

/// Another edit can follow.
proof fn lemma_one_more_edit(a: Seq<char>, m: Seq<char>, b: Seq<char>, n: nat)
    requires
        in_edits(a, m, n),
        one_edit(m, b),
    ensures
        in_edits(a, b, n + 1),
    decreases n,
{
    if n == 0 {
        assert(in_edits(b, b, 0));
    } else {
        let k = choose|k: Seq<char>| #[trigger] one_edit(a, k) && in_edits(k, m, (n - 1) as nat);
        lemma_one_more_edit(k, m, b, (n - 1) as nat);
    }
}

/// A character at the end is in no edit's way.
proof fn lemma_edits_before(a: Seq<char>, b: Seq<char>, last: char, n: nat)
    requires
        in_edits(a, b, n),
    ensures
        in_edits(a.push(last), b.push(last), n),
    decreases n,
{
    if n > 0 {
        let m = choose|m: Seq<char>| #[trigger] one_edit(a, m) && in_edits(m, b, (n - 1) as nat);
        lemma_edits_before(m, b, last, (n - 1) as nat);
        assert(one_edit(a.push(last), m.push(last))) by {
            if exists|i: int, c: char| 0 <= i <= a.len() && m == #[trigger] a.insert(i, c) {
                let (i, c) = choose|i: int, c: char|
                    0 <= i <= a.len() && m == #[trigger] a.insert(i, c);
                assert(a.push(last).insert(i, c) =~= m.push(last));
            } else if exists|i: int| 0 <= i < a.len() && m == #[trigger] a.remove(i) {
                let i = choose|i: int| 0 <= i < a.len() && m == #[trigger] a.remove(i);
                assert(a.push(last).remove(i) =~= m.push(last));
            } else {
                let (i, c) = choose|i: int, c: char|
                    0 <= i < a.len() && m == #[trigger] a.update(i, c);
                assert(a.push(last).update(i, c) =~= m.push(last));
            }
        }
    }
}

/// Levenshtein distance, a row at a time.
pub fn edit_distance(a: &str, b: &str) -> (result: usize)
    ensures
        result == distance(a@, b@),
{
    let left = chars_of(a);
    let right = chars_of(b);
    proof {
        law_distance_is_bounded(a@, b@);
    }
    // The row for no characters of `a`: one insertion per character of `b`.
    let mut row: Vec<u128> = Vec::new();
    let mut j: usize = 0;
    while j < right.len()
        invariant
            j <= right.len(),
            row.len() == j,
            forall|k: int| 0 <= k < j ==> #[trigger] row@[k] == k + 1,
        decreases right.len() - j,
    {
        row.push(j as u128 + 1);
        j += 1;
    }
    let mut i: usize = 0;
    assert forall|k: int| 0 <= k < right.len() implies #[trigger] row@[k] == distance(
        left@.take(0),
        right@.take(k + 1),
    ) by {
        assert(right@.take(k + 1).len() == k + 1);
    }
    while i < left.len()
        invariant
            i <= left.len(),
            row.len() == right.len(),
            forall|k: int|
                0 <= k < right.len() ==> #[trigger] row@[k] == distance(
                    left@.take(i as int),
                    right@.take(k + 1),
                ),
        decreases left.len() - i,
    {
        let ghost above = left@.take(i as int);
        let ghost here = left@.take(i + 1);
        assert(here.drop_last() =~= above);
        let mut diagonal: u128 = i as u128;
        let mut before: u128 = i as u128 + 1;
        let mut j: usize = 0;
        while j < right.len()
            invariant
                j <= right.len(),
                i < left.len(),
                row.len() == right.len(),
                above == left@.take(i as int),
                here == left@.take(i + 1),
                here.drop_last() == above,
                diagonal == distance(above, right@.take(j as int)),
                before == distance(here, right@.take(j as int)),
                forall|k: int|
                    0 <= k < j ==> #[trigger] row@[k] == distance(here, right@.take(k + 1)),
                forall|k: int|
                    j <= k < right.len() ==> #[trigger] row@[k] == distance(
                        above,
                        right@.take(k + 1),
                    ),
            decreases right.len() - j,
        {
            let up: u128 = row[j];
            proof {
                assert(right@.take(j + 1).drop_last() =~= right@.take(j as int));
                assert(here.last() == left@[i as int]);
                assert(right@.take(j + 1).last() == right@[j as int]);
                law_distance_is_bounded(above, right@.take(j + 1));
                law_distance_is_bounded(above, right@.take(j as int));
                law_distance_is_bounded(here, right@.take(j as int));
            }
            let substitute: u128 = if left[i] == right[j] {
                diagonal
            } else {
                diagonal + 1
            };
            let delete: u128 = up + 1;
            let insert: u128 = before + 1;
            let cost: u128 = if substitute <= delete && substitute <= insert {
                substitute
            } else if delete <= insert {
                delete
            } else {
                insert
            };
            row.set(j, cost);
            diagonal = up;
            before = cost;
            j += 1;
        }
        i += 1;
    }
    assert(left@.take(i as int) =~= left@);
    if right.len() == 0 {
        assert(left@.len() > 0 ==> distance(left@, right@) == left@.len());
        left.len()
    } else {
        assert(right@.take(right.len() as int) =~= right@);
        row[right.len() - 1] as usize
    }
}

/// The length of a text in UTF-8.
pub open spec fn byte_len(text: Seq<char>) -> usize {
    vstd::utf8::encode_utf8(text).len() as usize
}

/// Whether `candidate` is close enough to `word` to be worth suggesting.
///
/// Beyond a third of the word being wrong it stops being a typo and starts being a different
/// word, where a suggestion misleads more than it helps.
pub open spec fn is_close(word: Seq<char>, candidate: Seq<char>) -> bool {
    distance(word, candidate) * 3 <= (if byte_len(word) >= 1 { byte_len(word) as int } else { 1 })
}

/// The first of `words` with the least distance from `word`, among those close enough.
pub open spec fn nearest(word: Seq<char>, words: Seq<Seq<char>>) -> Option<int>
    decreases words.len(),
{
    if words.len() == 0 {
        None
    } else {
        let best = nearest(word, words.drop_last());
        if is_close(word, words.last()) && (best is None || distance(word, words.last()) < distance(
            word,
            words[best->0],
        )) {
            Some(words.len() - 1)
        } else {
            best
        }
    }
}

/// The nearest word is one of the close ones, none of them is nearer, and none before it is
/// as near.
pub proof fn law_nearest_is_the_first_of_the_nearest(word: Seq<char>, words: Seq<Seq<char>>)
    ensures
        match nearest(word, words) {
            Some(best) => {
                &&& 0 <= best < words.len()
                &&& is_close(word, words[best])
                &&& forall|i: int|
                    0 <= i < words.len() && is_close(word, words[i]) ==> distance(word, words[best])
                        <= distance(word, #[trigger] words[i])
                &&& forall|i: int|
                    0 <= i < best && is_close(word, words[i]) ==> distance(word, words[best])
                        < distance(word, #[trigger] words[i])
            },
            None => forall|i: int| 0 <= i < words.len() ==> !is_close(word, #[trigger] words[i]),
        },
    decreases words.len(),
{
    if words.len() > 0 {
        let shorter = words.drop_last();
        law_nearest_is_the_first_of_the_nearest(word, shorter);
        assert(forall|i: int| 0 <= i < shorter.len() ==> #[trigger] words[i] == shorter[i]);
        if nearest(word, words) is None {
            assert forall|i: int| 0 <= i < words.len() implies !is_close(word, #[trigger] words[i]) by {
                if i < shorter.len() {
                    assert(shorter[i] == words[i]);
                }
            }
        }
    }
}

/// The first of `words` with the least distance from `word`, among those close enough.
pub fn nearest_word(word: &str, words: &Vec<String>) -> (result: Option<usize>)
    ensures
        match result {
            Some(i) => nearest(word@, crate::text::texts(words@)) == Some(i as int) && i
                < words.len(),
            None => nearest(word@, crate::text::texts(words@)) is None,
        },
{
    let bytes: usize = word.len();
    let limit: u128 = if bytes >= 1 {
        bytes as u128
    } else {
        1
    };
    let ghost all = crate::text::texts(words@);
    let mut best: Option<usize> = None;
    let mut least_distance: usize = 0;
    let mut i: usize = 0;
    while i < words.len()
        invariant
            i <= words.len(),
            all == crate::text::texts(words@),
            bytes == byte_len(word@),
            limit == (if bytes >= 1 { bytes as int } else { 1 }),
            match best {
                Some(b) => nearest(word@, all.take(i as int)) == Some(b as int) && b < i
                    && least_distance == distance(word@, all[b as int]),
                None => nearest(word@, all.take(i as int)) is None,
            },
        decreases words.len() - i,
    {
        proof {
            assert(all.take(i + 1).drop_last() =~= all.take(i as int));
            assert(all.take(i + 1).last() == words@[i as int]@);
            if best is Some {
                assert(all.take(i as int)[best->0 as int] == all[best->0 as int]);
            }
        }
        let d: usize = edit_distance(word, words[i].as_str());
        if d as u128 * 3 <= limit && (best.is_none() || d < least_distance) {
            best = Some(i);
            least_distance = d;
        }
        i += 1;
    }
    assert(all.take(i as int) =~= all);
    best
}

/// Where the last dot of a path stands, or -1.
pub open spec fn last_dot(path: Seq<char>) -> int
    decreases path.len(),
{
    if path.len() == 0 {
        -1
    } else if path.last() == '.' {
        path.len() - 1
    } else {
        last_dot(path.drop_last())
    }
}

/// What stands before the last dot of a path.
pub open spec fn parent_of(path: Seq<char>) -> Seq<char> {
    if last_dot(path) < 0 {
        Seq::empty()
    } else {
        path.take(last_dot(path))
    }
}

/// What stands after the last dot of a path.
pub open spec fn leaf_of(path: Seq<char>) -> Seq<char> {
    if last_dot(path) < 0 {
        path
    } else {
        path.skip(last_dot(path) + 1)
    }
}

/// A path, split at its last dot.
fn split_last(path: &str) -> (result: (String, String))
    ensures
        result.0@ == parent_of(path@),
        result.1@ == leaf_of(path@),
{
    let chars = chars_of(path);
    let mut end: usize = chars.len();
    assert(chars@.take(end as int) =~= chars@);
    while end > 0
        invariant
            end <= chars.len(),
            chars@ == path@,
            last_dot(path@) == last_dot(chars@.take(end as int)),
        decreases end,
    {
        let at: usize = end - 1;
        assert(chars@.take(end as int).last() == chars@[at as int]);
        if chars[at] == '.' {
            let leaf = slice_text(&chars, end, chars.len());
            let parent = slice_text(&chars, 0, at);
            assert(leaf@ =~= path@.skip(at + 1));
            assert(parent@ =~= path@.take(at as int));
            return (parent, leaf);
        }
        assert(chars@.take(end as int).drop_last() =~= chars@.take(at as int));
        end = at;
    }
    (String::new(), path.to_owned())
}

/// The paths of `all` that stand at the same level as `path`.
pub open spec fn same_level(path: Seq<char>, all: Seq<Seq<char>>) -> Seq<Seq<char>> {
    all.filter(|other: Seq<char>| parent_of(other) == parent_of(path))
}

/// The leaf names of a list of paths.
pub open spec fn leaf_names(paths: Seq<Seq<char>>) -> Seq<Seq<char>> {
    paths.map_values(|path: Seq<char>| leaf_of(path))
}

/// The valid key at the same level whose name is closest to that of `unknown`.
pub open spec fn suggestion(unknown: Seq<char>, known: Seq<Seq<char>>) -> Option<Seq<char>> {
    let level = same_level(unknown, known);
    match nearest(leaf_of(unknown), leaf_names(level)) {
        Some(i) => Some(level[i]),
        None => None,
    }
}

/// The valid key at the same level whose name is closest to `unknown`, if one is close
/// enough to be worth suggesting.
pub fn suggest(unknown: &str, round_tripped: &Table) -> (result: Option<String>)
    ensures
        (match result {
            Some(path) => Some(path@),
            None => None,
        }) == suggestion(
            unknown@,
            leaves(super::document::entries_of(*round_tripped), Seq::empty()),
        ),
{
    let (parent, leaf) = split_last(unknown);
    let empty = String::new();
    let mut candidates: Vec<String> = Vec::new();
    leaf_paths(round_tripped, empty.as_str(), &mut candidates);
    let ghost all = crate::text::texts(candidates@);
    proof {
        assert(crate::text::texts(Seq::<String>::empty()) =~= Seq::<Seq<char>>::empty());
        assert(all =~= leaves(super::document::entries_of(*round_tripped), Seq::empty()));
    }
    let ghost pred = |other: Seq<char>| parent_of(other) == parent_of(unknown@);
    let mut level: Vec<String> = Vec::new();
    let mut names: Vec<String> = Vec::new();
    let mut i: usize = 0;
    assert(all.take(0).filter(pred) =~= Seq::<Seq<char>>::empty()) by {
        reveal(Seq::filter);
    }
    assert(crate::text::texts(level@) =~= Seq::<Seq<char>>::empty());
    while i < candidates.len()
        invariant
            i <= candidates.len(),
            all == crate::text::texts(candidates@),
            parent@ == parent_of(unknown@),
            pred == (|other: Seq<char>| parent_of(other) == parent_of(unknown@)),
            crate::text::texts(level@) == all.take(i as int).filter(pred),
            names.len() == level.len(),
            forall|j: int|
                0 <= j < names.len() ==> (#[trigger] names@[j])@ == leaf_of(level@[j]@),
        decreases candidates.len() - i,
    {
        proof {
            assert(all.take(i + 1) =~= all.take(i as int).push(all[i as int]));
            all.take(i as int).lemma_filter_push(all[i as int], pred);
            assert(all[i as int] == candidates@[i as int]@);
        }
        let (candidate_parent, candidate_leaf) = split_last(candidates[i].as_str());
        if same_text(candidate_parent.as_str(), parent.as_str()) {
            let ghost level0 = crate::text::texts(level@);
            level.push(candidates[i].clone());
            names.push(candidate_leaf);
            assert(crate::text::texts(level@) =~= level0.push(all[i as int]));
        }
        i += 1;
    }
    proof {
        assert(all.take(i as int) =~= all);
        assert(crate::text::texts(names@) =~= leaf_names(crate::text::texts(level@)));
    }
    match nearest_word(leaf.as_str(), &names) {
        Some(best) => Some(level[best].clone()),
        None => None,
    }
}

// ── what the check promises ─────────────────────────────────────────────────

/// A key that came back from the round trip is never reported.
pub proof fn law_a_key_that_survives_is_not_reported(
    path: Seq<char>,
    understood: Seq<Seq<char>>,
    free_form: Seq<Seq<char>>,
)
    requires
        understood.contains(path),
    ensures
        !is_unknown(path, understood, free_form),
{
    let i = choose|i: int| 0 <= i < understood.len() && understood[i] == path;
    assert(understood[i] == path);
}

/// A path is the path it stands under, a dot and its last name, which has no dot in it; one
/// without a dot stands under nothing.
pub proof fn law_a_path_splits_at_its_last_dot(path: Seq<char>)
    ensures
        path.contains('.') ==> path == parent_of(path) + seq!['.'] + leaf_of(path),
        !path.contains('.') ==> parent_of(path).len() == 0 && leaf_of(path) == path,
        !leaf_of(path).contains('.'),
{
    lemma_last_dot(path);
    let at = last_dot(path);
    if at >= 0 {
        assert(path[at] == '.');
        assert(path =~= parent_of(path) + seq!['.'] + leaf_of(path));
        assert forall|i: int| 0 <= i < leaf_of(path).len() implies leaf_of(path)[i] != '.' by {
            assert(leaf_of(path)[i] == path[at + 1 + i]);
        }
    }
}

proof fn lemma_last_dot(path: Seq<char>)
    ensures
        -1 <= last_dot(path) < path.len(),
        last_dot(path) >= 0 ==> path[last_dot(path)] == '.',
        forall|i: int| last_dot(path) < i < path.len() ==> #[trigger] path[i] != '.',
    decreases path.len(),
{
    if path.len() > 0 && path.last() != '.' {
        let rest = path.drop_last();
        lemma_last_dot(rest);
        assert forall|i: int| last_dot(path) < i < path.len() implies #[trigger] path[i] != '.' by {
            if i < rest.len() {
                assert(rest[i] == path[i]);
            }
        }
    }
}

/// A name is close to a word exactly when it is at most a third as many edits away as the word
/// has bytes; with fewer than three of them, only the word itself is.
pub proof fn law_a_third_of_a_word_may_be_wrong(word: Seq<char>, candidate: Seq<char>)
    ensures
        is_close(word, word),
        byte_len(word) >= 3 ==> (is_close(word, candidate) <==> distance(word, candidate)
            <= byte_len(word) / 3),
        byte_len(word) < 3 ==> (is_close(word, candidate) <==> word == candidate),
{
    law_distance_separates(word, word);
    law_distance_separates(word, candidate);
}

/// A key is reported as unknown exactly when it is neither a key that is understood, nor the
/// path to one, nor below a table whose keys are the user's own.
pub proof fn law_a_key_is_unknown_when_nothing_accounts_for_it(
    path: Seq<char>,
    understood: Seq<Seq<char>>,
    free: Seq<Seq<char>>,
)
    ensures
        is_unknown(path, understood, free) <==> (forall|i: int|
            0 <= i < understood.len() ==> #[trigger] understood[i] != path && !(path
                + "."@).is_prefix_of(understood[i])) && (forall|i: int|
            0 <= i < free.len() ==> !(#[trigger] free[i]).is_prefix_of(path)),
{
    if is_unknown(path, understood, free) {
        assert forall|i: int| 0 <= i < understood.len() implies #[trigger] understood[i] != path
            && !(path + "."@).is_prefix_of(understood[i]) by {
            assert(!is_understood(path, understood));
        }
    }
}

/// One more entry adds its own keys to those of a document: its path, unless it is a table
/// that holds something, and then the keys of that table under its path.
pub proof fn law_an_entry_adds_its_own_keys(
    entries: Seq<(Seq<char>, super::document::Tree)>,
    key: Seq<char>,
    tree: super::document::Tree,
    prefix: Seq<char>,
)
    ensures
        ({
            let path = if prefix.len() == 0 {
                key
            } else {
                prefix + "."@ + key
            };
            let before = leaves(entries, prefix);
            let after = leaves(entries.push((key, tree)), prefix);
            &&& leaves(Seq::empty(), prefix).len() == 0
            &&& !(tree is Table) ==> after == before.push(path)
            &&& tree matches super::document::Tree::Table(inner) ==> {
                &&& inner.len() == 0 ==> after == before.push(path)
                &&& inner.len() > 0 ==> after == before + leaves(inner, path)
            }
        }),
{
    let more = entries.push((key, tree));
    assert(more.drop_last() =~= entries);
    let path = dotted(prefix, key);
    let before = leaves(entries, prefix);
    assert(before + seq![path] =~= before.push(path));
}

} // verus!
