//! Lists of names: the texts of a list of strings, lists in which each
//! name stands once in the order of adding, and lists in strict
//! lexicographic order.
use crate::text::{lemma_lex_asymmetric, lemma_lex_total, lemma_lex_transitive, lex_lt, precedes};
use vstd::prelude::*;

verus! {

/// The texts of `v`, in order.
pub open spec fn texts(v: Seq<String>) -> Seq<Seq<char>> {
    Seq::new(v.len(), |i: int| v[i]@)
}

/// Whether each name in `names` comes strictly before the next, so that
/// none stands twice.
pub open spec fn strictly_sorted(names: Seq<Seq<char>>) -> bool {
    forall|i: int, j: int| 0 <= i < j < names.len() ==> lex_lt(names[i], names[j])
}

/// The first position in `names` whose name does not come before `name`
/// (`names.len()` where all come before it).
pub open spec fn slot_from(names: Seq<Seq<char>>, name: Seq<char>, from: int) -> int
    decreases names.len() - from,
{
    if from < 0 || from >= names.len() || !lex_lt(names[from], name) {
        from
    } else {
        slot_from(names, name, from + 1)
    }
}

/// The position at which `name` stands, or would stand, in the sorted
/// `names`.
pub open spec fn slot_of(names: Seq<Seq<char>>, name: Seq<char>) -> int {
    slot_from(names, name, 0)
}

/// Whether `name` is one of `names`.
pub open spec fn has_name(names: Seq<Seq<char>>, name: Seq<char>) -> bool {
    exists|i: int| 0 <= i < names.len() && names[i] == name
}

/// The sorted `names` with `name` among them: unchanged where it is one
/// of them, and with `name` put in at its place where it is not.
pub open spec fn with_name(names: Seq<Seq<char>>, name: Seq<char>) -> Seq<Seq<char>> {
    if has_name(names, name) {
        names
    } else {
        names.insert(slot_of(names, name), name)
    }
}

/// In a sorted list, the names before the slot of `name` come before
/// `name`, the name at the slot is `name` if that is in the list at all,
/// and the names after it come after `name`.
pub proof fn lemma_slot(names: Seq<Seq<char>>, name: Seq<char>)
    requires
        strictly_sorted(names),
    ensures
        0 <= slot_of(names, name) <= names.len(),
        forall|i: int| 0 <= i < slot_of(names, name) ==> lex_lt(#[trigger] names[i], name),
        forall|i: int|
            slot_of(names, name) <= i < names.len() ==> !lex_lt(#[trigger] names[i], name),
        has_name(names, name) <==> slot_of(names, name) < names.len() && names[slot_of(
            names,
            name,
        )] == name,
        forall|i: int|
            slot_of(names, name) <= i < names.len() && names[i] != name ==> lex_lt(
                name,
                #[trigger] names[i],
            ),
{
    lemma_slot_from(names, name, 0);
    let p = slot_of(names, name);
    assert forall|i: int| p <= i < names.len() implies !lex_lt(#[trigger] names[i], name) by {
        if i > p {
            if lex_lt(names[i], name) {
                lemma_lex_transitive(names[p], names[i], name);
            }
        }
    }
    assert forall|i: int| p <= i < names.len() && names[i] != name implies lex_lt(
        name,
        #[trigger] names[i],
    ) by {
        lemma_lex_total(names[i], name);
    }
    if has_name(names, name) {
        let k = choose|k: int| 0 <= k < names.len() && names[k] == name;
        lemma_lex_asymmetric(name, name);
        assert(k >= p);
        if k > p {
            lemma_lex_total(names[p], name);
            lemma_lex_asymmetric(names[p], names[k]);
        }
    }
}

proof fn lemma_slot_from(names: Seq<Seq<char>>, name: Seq<char>, from: int)
    requires
        0 <= from <= names.len(),
    ensures
        from <= slot_from(names, name, from) <= names.len(),
        forall|i: int| from <= i < slot_from(names, name, from) ==> lex_lt(names[i], name),
        slot_from(names, name, from) < names.len() ==> !lex_lt(
            names[slot_from(names, name, from)],
            name,
        ),
    decreases names.len() - from,
{
    if from < names.len() && lex_lt(names[from], name) {
        lemma_slot_from(names, name, from + 1);
    }
}

/// Putting a name into a sorted list keeps it sorted, and the list then
/// holds the name and what it held before, nothing else.
pub proof fn lemma_with_name(names: Seq<Seq<char>>, name: Seq<char>)
    requires
        strictly_sorted(names),
    ensures
        strictly_sorted(with_name(names, name)),
        has_name(with_name(names, name), name),
        forall|other: Seq<char>|
            has_name(with_name(names, name), other) <==> other == name || has_name(names, other),
{
    lemma_slot(names, name);
    let p = slot_of(names, name);
    let after = with_name(names, name);
    if !has_name(names, name) {
        assert forall|i: int, j: int| 0 <= i < j < after.len() implies lex_lt(
            after[i],
            after[j],
        ) by {
            if j < p {
            } else if j == p {
                assert(after[i] == names[i]);
            } else if i < p {
                assert(after[i] == names[i]);
                assert(after[j] == names[j - 1]);
            } else if i == p {
                assert(after[j] == names[j - 1]);
                assert(names[j - 1] != name);
            } else {
                assert(after[i] == names[i - 1]);
                assert(after[j] == names[j - 1]);
            }
        }
        assert(after[p] == name);
        assert forall|other: Seq<char>| has_name(after, other) <==> other == name || has_name(
            names,
            other,
        ) by {
            if has_name(after, other) {
                let k = choose|k: int| 0 <= k < after.len() && after[k] == other;
                if k < p {
                    assert(names[k] == other);
                } else if k > p {
                    assert(names[k - 1] == other);
                }
            }
            if has_name(names, other) {
                let k = choose|k: int| 0 <= k < names.len() && names[k] == other;
                if k < p {
                    assert(after[k] == other);
                } else {
                    assert(after[k + 1] == other);
                }
            }
        }
    }
}

/// Finds the slot of `name` in the sorted `names`, and whether `name`
/// stands there.
pub fn find_slot(names: &Vec<String>, name: &str) -> (found: (usize, bool))
    requires
        strictly_sorted(texts(names@)),
    ensures
        found.0 == slot_of(texts(names@), name@),
        found.0 <= names.len(),
        found.1 == has_name(texts(names@), name@),
        found.1 ==> found.0 < names.len() && names[found.0 as int]@ == name@,
{
    let ghost all = texts(names@);
    let mut i: usize = 0;
    while i < names.len()
        invariant
            i <= names.len(),
            all == texts(names@),
            strictly_sorted(all),
            slot_of(all, name@) == slot_from(all, name@, i as int),
        decreases names.len() - i,
    {
        assert(all[i as int] == names@[i as int]@);
        if !precedes(names[i].as_str(), name) {
            let same = !precedes(name, names[i].as_str());
            proof {
                lemma_slot(all, name@);
                lemma_lex_total(all[i as int], name@);
                lemma_lex_asymmetric(name@, name@);
            }
            return (i, same);
        }
        i += 1;
    }
    proof {
        lemma_slot(all, name@);
    }
    (i, false)
}

/// Puts `name` into the sorted `names` unless it is one of them. Returns
/// whether it was put in.
pub fn insert_name(names: &mut Vec<String>, name: &str) -> (added: bool)
    requires
        strictly_sorted(texts(old(names)@)),
    ensures
        texts(final(names)@) == with_name(texts(old(names)@), name@),
        strictly_sorted(texts(final(names)@)),
        added == !has_name(texts(old(names)@), name@),
{
    proof {
        lemma_with_name(texts(names@), name@);
    }
    let (slot, present) = find_slot(names, name);
    if present {
        return false;
    }
    let owned = String::from_str(name);
    names.insert(slot, owned);
    assert(texts(names@) =~= texts(old(names)@).insert(slot as int, name@));
    true
}

/// A copy of `names`.
pub fn copy_names(names: &Vec<String>) -> (copy: Vec<String>)
    ensures
        texts(copy@) == texts(names@),
{
    let mut copy: Vec<String> = Vec::new();
    let mut i: usize = 0;
    while i < names.len()
        invariant
            i <= names.len(),
            copy@.len() == i,
            forall|k: int| 0 <= k < i ==> copy@[k]@ == names@[k]@,
        decreases names.len() - i,
    {
        copy.push(names[i].clone());
        i += 1;
    }
    assert(texts(copy@) =~= texts(names@));
    copy
}

/// Whether no name stands twice in `names`.
pub open spec fn distinct(names: Seq<Seq<char>>) -> bool {
    forall|i: int, j: int| 0 <= i < j < names.len() ==> names[i] != names[j]
}

/// The position of `name` in `names`.
pub open spec fn position_of(names: Seq<Seq<char>>, name: Seq<char>) -> int
    recommends
        has_name(names, name),
{
    choose|i: int| 0 <= i < names.len() && names[i] == name
}

/// `names` with `name` among them: unchanged where it is one of them,
/// and with `name` at the end where it is not.
pub open spec fn with_appended(names: Seq<Seq<char>>, name: Seq<char>) -> Seq<Seq<char>> {
    if has_name(names, name) {
        names
    } else {
        names.push(name)
    }
}

/// In a list without a name twice, a name stands at one position only.
pub proof fn lemma_position(names: Seq<Seq<char>>, i: int)
    requires
        distinct(names),
        0 <= i < names.len(),
    ensures
        has_name(names, names[i]),
        position_of(names, names[i]) == i,
{
    let p = position_of(names, names[i]);
    if p < i {
        assert(names[p] != names[i]);
    } else if i < p {
        assert(names[i] != names[p]);
    }
}

/// Adding a name at the end, unless it is there, keeps every name once,
/// and the list then holds the name and what it held before, nothing
/// else.
pub proof fn lemma_with_appended(names: Seq<Seq<char>>, name: Seq<char>)
    requires
        distinct(names),
    ensures
        distinct(with_appended(names, name)),
        has_name(with_appended(names, name), name),
        forall|other: Seq<char>|
            has_name(with_appended(names, name), other) <==> other == name || has_name(
                names,
                other,
            ),
{
    let after = with_appended(names, name);
    if !has_name(names, name) {
        assert(after[names.len() as int] == name);
        assert forall|i: int, j: int| 0 <= i < j < after.len() implies after[i] != after[j] by {
            if j == names.len() {
                assert(names[i] != name);
            }
        }
        assert forall|other: Seq<char>| has_name(after, other) <==> other == name || has_name(
            names,
            other,
        ) by {
            if has_name(after, other) {
                let k = choose|k: int| 0 <= k < after.len() && after[k] == other;
                if k < names.len() {
                    assert(names[k] == other);
                }
            }
            if has_name(names, other) {
                let k = choose|k: int| 0 <= k < names.len() && names[k] == other;
                assert(after[k] == other);
            }
        }
    }
}

/// Finds the first position of `name` in `names`.
pub fn find_name(names: &Vec<String>, name: &str) -> (found: Option<usize>)
    ensures
        match found {
            Some(i) => i < names.len() && names[i as int]@ == name@ && forall|k: int|
                0 <= k < i ==> texts(names@)[k] != name@,
            None => !has_name(texts(names@), name@),
        },
{
    let mut i: usize = 0;
    while i < names.len()
        invariant
            i <= names.len(),
            forall|k: int| 0 <= k < i ==> texts(names@)[k] != name@,
        decreases names.len() - i,
    {
        if crate::text::str_eq(names[i].as_str(), name) {
            return Some(i);
        }
        i += 1;
    }
    None
}

/// Puts `name` at the end of `names` unless it is one of them. Returns
/// whether it was put there.
pub fn append_name(names: &mut Vec<String>, name: &str) -> (added: bool)
    ensures
        texts(final(names)@) == with_appended(texts(old(names)@), name@),
        added == !has_name(texts(old(names)@), name@),
{
    match find_name(names, name) {
        Some(i) => {
            assert(texts(names@)[i as int] == name@);
            false
        },
        None => {
            names.push(String::from_str(name));
            assert(texts(names@) =~= texts(old(names)@).push(name@));
            true
        },
    }
}

/// The first `n` of `names` in lexicographic order, each name once.
pub open spec fn sorted_of(names: Seq<Seq<char>>, n: int) -> Seq<Seq<char>>
    decreases n,
{
    if n <= 0 {
        Seq::<Seq<char>>::empty()
    } else {
        with_name(sorted_of(names, n - 1), names[n - 1])
    }
}

/// `names` in lexicographic order, each name once.
pub open spec fn sorted(names: Seq<Seq<char>>) -> Seq<Seq<char>> {
    sorted_of(names, names.len() as int)
}

/// What `sorted_of` gives is in strict order and holds exactly the first
/// `n` names.
pub proof fn lemma_sorted_of(names: Seq<Seq<char>>, n: int)
    requires
        0 <= n <= names.len(),
    ensures
        strictly_sorted(sorted_of(names, n)),
        forall|other: Seq<char>|
            has_name(sorted_of(names, n), other) <==> exists|k: int|
                0 <= k < n && names[k] == other,
    decreases n,
{
    if n > 0 {
        lemma_sorted_of(names, n - 1);
        let before = sorted_of(names, n - 1);
        lemma_with_name(before, names[n - 1]);
        assert forall|other: Seq<char>| has_name(sorted_of(names, n), other) <==> exists|k: int|
            0 <= k < n && names[k] == other by {
            if has_name(before, other) {
                let k = choose|k: int| 0 <= k < n - 1 && names[k] == other;
                assert(0 <= k < n && names[k] == other);
            }
            if exists|k: int| 0 <= k < n && names[k] == other {
                let k = choose|k: int| 0 <= k < n && names[k] == other;
                if k < n - 1 {
                    assert(0 <= k < n - 1 && names[k] == other);
                }
            }
        }
    } else {
        assert forall|other: Seq<char>| has_name(sorted_of(names, n), other) <==> exists|k: int|
            0 <= k < n && names[k] == other by {
            if has_name(sorted_of(names, n), other) {
                let k = choose|k: int|
                    0 <= k < sorted_of(names, n).len() && sorted_of(names, n)[k] == other;
            }
        }
    }
}

/// Sorts names into lexicographic order; a name that stands more than
/// once is kept once.
pub fn sort_names(names: &Vec<String>) -> (out: Vec<String>)
    ensures
        texts(out@) == sorted(texts(names@)),
        strictly_sorted(texts(out@)),
{
    let ghost all = texts(names@);
    let mut out: Vec<String> = Vec::new();
    assert(texts(out@) =~= sorted_of(all, 0));
    let mut i: usize = 0;
    while i < names.len()
        invariant
            i <= names.len(),
            all == texts(names@),
            texts(out@) == sorted_of(all, i as int),
            strictly_sorted(texts(out@)),
        decreases names.len() - i,
    {
        assert(all[i as int] == names@[i as int]@);
        let _ = insert_name(&mut out, names[i].as_str());
        i += 1;
    }
    out
}

} // verus!
