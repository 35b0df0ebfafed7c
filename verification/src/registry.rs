//! Lists of names in which a name counts as known as soon as it matches an
//! entry: the model that the room list, the user list and the keys of the
//! room histories share.

use crate::text::{chars_of, contains, related, related_to_itself, texts_of};
use vstd::prelude::*;

verus! {

/// Some entry of `names` matches `name`.
pub open spec fn knows(names: Seq<Seq<char>>, name: Seq<char>) -> bool {
    exists|i: int| 0 <= i < names.len() && related(#[trigger] names[i], name)
}

/// `i` is the first place in `names` whose entry matches `name`.
pub open spec fn is_first_match(names: Seq<Seq<char>>, name: Seq<char>, i: int) -> bool {
    &&& 0 <= i < names.len()
    &&& related(names[i], name)
    &&& forall|j: int| 0 <= j < i ==> !related(#[trigger] names[j], name)
}

/// The first place in `names` whose entry matches `name`; meaningful where
/// `names` knows `name`.
pub open spec fn first_match(names: Seq<Seq<char>>, name: Seq<char>) -> int {
    choose|i: int| is_first_match(names, name, i)
}

/// `i` is the first place in `names` that holds `name` itself.
pub open spec fn is_first_place(names: Seq<Seq<char>>, name: Seq<char>, i: int) -> bool {
    &&& 0 <= i < names.len()
    &&& names[i] == name
    &&& forall|j: int| 0 <= j < i ==> #[trigger] names[j] != name
}

/// The first place in `names` that holds `name` itself; meaningful where
/// `names` contains `name`.
pub open spec fn first_place(names: Seq<Seq<char>>, name: Seq<char>) -> int {
    choose|i: int| is_first_place(names, name, i)
}

/// No entry of `names` matches another one. In particular no name stands
/// twice.
pub open spec fn unrelated(names: Seq<Seq<char>>) -> bool {
    forall|i: int, j: int|
        0 <= i < names.len() && 0 <= j < names.len() && i != j ==> !related(
            #[trigger] names[i],
            #[trigger] names[j],
        )
}

/// The list after `name` has been made known: unchanged where it is known
/// already, and longer by `name` where it is not.
pub open spec fn with_name(names: Seq<Seq<char>>, name: Seq<char>) -> Seq<Seq<char>> {
    if knows(names, name) {
        names
    } else {
        names.push(name)
    }
}

/// The list after a change of name from `old_name` to `new_name`: unchanged
/// where the two are equal; else without the first entry that matches
/// `old_name`, if there is one, and with `new_name` at the end.
pub open spec fn renamed(names: Seq<Seq<char>>, old_name: Seq<char>, new_name: Seq<char>) -> Seq<
    Seq<char>,
> {
    if old_name == new_name {
        names
    } else if knows(names, old_name) {
        names.remove(first_match(names, old_name)).push(new_name)
    } else {
        names.push(new_name)
    }
}

/// A place that is a first match is the first match.
pub proof fn first_match_is(names: Seq<Seq<char>>, name: Seq<char>, i: int)
    requires
        is_first_match(names, name, i),
    ensures
        first_match(names, name) == i,
        knows(names, name),
{
    let k = first_match(names, name);
    assert(is_first_match(names, name, k));
    if k < i {
        assert(!related(names[k], name));
    }
    if i < k {
        assert(!related(names[i], name));
    }
}

/// A place that is the first to hold a name is the first place of that name.
pub proof fn first_place_is(names: Seq<Seq<char>>, name: Seq<char>, i: int)
    requires
        is_first_place(names, name, i),
    ensures
        first_place(names, name) == i,
        names.contains(name),
{
    let k = first_place(names, name);
    assert(is_first_place(names, name, k));
    if k < i {
        assert(names[k] != name);
    }
    if i < k {
        assert(names[i] != name);
    }
}

/// A name that matches no entry of a list does not stand in it.
pub proof fn unknown_is_absent(names: Seq<Seq<char>>, name: Seq<char>)
    requires
        !knows(names, name),
    ensures
        !names.contains(name),
{
    related_to_itself(name);
    if names.contains(name) {
        let i = choose|i: int| 0 <= i < names.len() && names[i] == name;
        assert(related(names[i], name));
    }
}

/// The first entry that matches a name is the first place of that entry:
/// nothing before it is equal to it.
pub proof fn first_match_is_first_place(names: Seq<Seq<char>>, name: Seq<char>)
    requires
        knows(names, name),
    ensures
        is_first_place(names, names[first_match(names, name)], first_match(names, name)),
{
    known_has_first_match(names, name);
    let i = first_match(names, name);
    assert forall|j: int| 0 <= j < i implies #[trigger] names[j] != names[i] by {
        assert(!related(names[j], name));
    }
}

/// A list that knows a name has a first place that matches it.
pub proof fn known_has_first_match(names: Seq<Seq<char>>, name: Seq<char>)
    requires
        knows(names, name),
    ensures
        is_first_match(names, name, first_match(names, name)),
{
    let i = choose|i: int| 0 <= i < names.len() && related(#[trigger] names[i], name);
    first_match_below(names, name, i);
}

proof fn first_match_below(names: Seq<Seq<char>>, name: Seq<char>, i: int)
    requires
        0 <= i < names.len(),
        related(names[i], name),
    ensures
        exists|k: int| is_first_match(names, name, k),
    decreases i,
{
    if forall|j: int| 0 <= j < i ==> !related(#[trigger] names[j], name) {
        assert(is_first_match(names, name, i));
    } else {
        let j = choose|j: int| 0 <= j < i && related(#[trigger] names[j], name);
        first_match_below(names, name, j);
    }
}

/// Making a name known a second time changes nothing.
pub proof fn with_name_is_idempotent(names: Seq<Seq<char>>, name: Seq<char>)
    ensures
        with_name(with_name(names, name), name) == with_name(names, name),
        knows(with_name(names, name), name),
{
    if !knows(names, name) {
        let longer = names.push(name);
        related_to_itself(name);
        assert(related(longer[names.len() as int], name));
    }
}

/// Making a name known keeps a list free of entries that match one another.
pub proof fn with_name_keeps_unrelated(names: Seq<Seq<char>>, name: Seq<char>)
    requires
        unrelated(names),
    ensures
        unrelated(with_name(names, name)),
{
    if !knows(names, name) {
        let longer = names.push(name);
        assert forall|i: int, j: int|
            0 <= i < longer.len() && 0 <= j < longer.len() && i != j implies !related(
            #[trigger] longer[i],
            #[trigger] longer[j],
        ) by {
            if i < names.len() && j < names.len() {
                assert(!related(names[i], names[j]));
            } else if i < names.len() {
                assert(!related(names[i], name));
            } else {
                assert(!related(names[j], name));
            }
        }
    }
}

/// The first place in `names` whose entry matches `name`, if there is one.
pub fn find_match(names: &Vec<String>, name: &str) -> (place: Option<usize>)
    ensures
        match place {
            Some(i) => is_first_match(texts_of(names@), name@, i as int),
            None => !knows(texts_of(names@), name@),
        },
        place is Some <==> knows(texts_of(names@), name@),
{
    let target = chars_of(name);
    let mut i: usize = 0;
    while i < names.len()
        invariant
            i <= names.len(),
            target@ == name@,
            forall|j: int| 0 <= j < i ==> !related(#[trigger] texts_of(names@)[j], name@),
        decreases names.len() - i,
    {
        let entry = chars_of(names[i].as_str());
        assert(entry@ == texts_of(names@)[i as int]);
        if contains(&target, &entry) || contains(&entry, &target) {
            return Some(i);
        }
        i += 1;
    }
    None
}

/// A copy of `names`.
pub(crate) fn copy_names(names: &Vec<String>) -> (copy: Vec<String>)
    ensures
        texts_of(copy@) == texts_of(names@),
{
    let mut copy: Vec<String> = Vec::new();
    let mut i: usize = 0;
    while i < names.len()
        invariant
            i <= names.len(),
            copy.len() == i,
            forall|j: int| 0 <= j < i ==> copy@[j]@ == names@[j]@,
        decreases names.len() - i,
    {
        copy.push(names[i].clone());
        i += 1;
    }
    assert(texts_of(copy@) =~= texts_of(names@));
    copy
}

} // verus!
