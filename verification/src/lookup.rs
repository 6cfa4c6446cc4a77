//! Finding an item in a list: the position of its first occurrence.
use vstd::prelude::*;

verus! {

/// `name` stands at position `at` of `names` and nowhere before it.
pub open spec fn first_at<T>(names: Seq<T>, name: T, at: int) -> bool {
    &&& 0 <= at < names.len()
    &&& names[at] == name
    &&& forall|j: int| 0 <= j < at ==> names[j] != name
}

/// The position of the first occurrence of `name` in `names`, if it occurs.
pub open spec fn position<T>(names: Seq<T>, name: T) -> Option<int> {
    if exists|at: int| first_at(names, name, at) {
        Some(choose|at: int| first_at(names, name, at))
    } else {
        None
    }
}

/// A name that first occurs at `at` has that position, and no other.
pub proof fn lemma_position_found<T>(names: Seq<T>, name: T, at: int)
    requires
        first_at(names, name, at),
    ensures
        position(names, name) == Some(at),
{
    let chosen = choose|k: int| first_at(names, name, k);
    assert(first_at(names, name, chosen));
    if chosen < at {
        assert(names[chosen] != name);
    } else if at < chosen {
        assert(names[at] != name);
    }
}

/// A name that occurs nowhere has no position.
pub proof fn lemma_position_missing<T>(names: Seq<T>, name: T)
    requires
        forall|j: int| 0 <= j < names.len() ==> names[j] != name,
    ensures
        position(names, name) is None,
{
    assert forall|at: int| !first_at(names, name, at) by {
        if 0 <= at < names.len() {
            assert(names[at] != name);
        }
    }
}

/// What a position says: the name stands there, and nowhere before; no
/// position means that the name stands nowhere.
pub proof fn lemma_position_meaning<T>(names: Seq<T>, name: T)
    ensures
        match position(names, name) {
            Some(at) => first_at(names, name, at),
            None => forall|j: int| 0 <= j < names.len() ==> names[j] != name,
        },
{
    if position(names, name) is None {
        assert forall|j: int| 0 <= j < names.len() implies names[j] != name by {
            if names[j] == name {
                lemma_occurrence_has_first(names, name, j);
            }
        }
    }
}

/// A name that occurs somewhere has a first occurrence.
proof fn lemma_occurrence_has_first<T>(names: Seq<T>, name: T, at: int)
    requires
        0 <= at < names.len(),
        names[at] == name,
    ensures
        exists|k: int| first_at(names, name, k),
    decreases at,
{
    if exists|j: int| 0 <= j < at && names[j] == name {
        let j = choose|j: int| 0 <= j < at && names[j] == name;
        lemma_occurrence_has_first(names, name, j);
    } else {
        assert(first_at(names, name, at));
    }
}

/// A list without repetitions stays one when an item is added that it did
/// not hold.
pub proof fn lemma_push_keeps_distinct<T>(names: Seq<T>, name: T)
    requires
        names.no_duplicates(),
        position(names, name) is None,
    ensures
        names.push(name).no_duplicates(),
{
    lemma_position_meaning(names, name);
    let grown = names.push(name);
    assert forall|i: int, j: int| 0 <= i < grown.len() && 0 <= j < grown.len() && i != j implies grown[i]
        != grown[j] by {
        if i < names.len() && j < names.len() {
            assert(names[i] != names[j]);
        } else if i < names.len() {
            assert(names[i] != name);
        } else {
            assert(names[j] != name);
        }
    }
}

/// A list without repetitions stays one when an item is taken out.
pub proof fn lemma_remove_keeps_distinct<T>(names: Seq<T>, at: int)
    requires
        names.no_duplicates(),
        0 <= at < names.len(),
    ensures
        names.remove(at).no_duplicates(),
        forall|j: int| 0 <= j < names.remove(at).len() ==> names.remove(at)[j] != names[at],
{
    let rest = names.remove(at);
    assert forall|i: int, j: int| 0 <= i < rest.len() && 0 <= j < rest.len() && i != j implies rest[i]
        != rest[j] by {
        let a = if i < at { i } else { i + 1 };
        let b = if j < at { j } else { j + 1 };
        assert(rest[i] == names[a] && rest[j] == names[b]);
    }
    assert forall|j: int| 0 <= j < rest.len() implies rest[j] != names[at] by {
        let b = if j < at { j } else { j + 1 };
        assert(rest[j] == names[b]);
    }
}

} // verus!
