//! Shared vocabulary of the contracts: views of sequences and lookups by id.

use crate::platform::Id;
use vstd::prelude::*;

verus! {

/// The views of the items of a sequence, in order.
pub open spec fn views<T: View>(items: Seq<T>) -> Seq<T::V> {
    Seq::new(items.len(), |i: int| items[i]@)
}

/// The view of an optional list of ids.
pub open spec fn optional_ids(ids: Option<Vec<Id>>) -> Option<Seq<Id>> {
    match ids {
        Some(list) => Some(list@),
        None => None,
    }
}

/// The view of an optional text.
pub open spec fn optional_text(text: Option<String>) -> Option<Seq<char>> {
    match text {
        Some(t) => Some(t@),
        None => None,
    }
}

/// A copy of an optional text.
pub fn clone_text(text: &Option<String>) -> (copy: Option<String>)
    ensures
        optional_text(copy) == optional_text(*text),
{
    match text {
        Some(t) => Some(t.clone()),
        None => None,
    }
}

/// A record that is found by its id.
pub trait Keyed {
    /// The id of the record.
    spec fn spec_key(&self) -> Id;

    /// The id of the record.
    fn key(&self) -> (id: Id)
        ensures
            id == self.spec_key(),
    ;
}

/// The ids of the records of a sequence, in order.
pub open spec fn keys<T: Keyed>(items: Seq<T>) -> Seq<Id> {
    Seq::new(items.len(), |i: int| items[i].spec_key())
}

/// The place of the first occurrence of `id`, if it occurs.
pub open spec fn position_of(ids: Seq<Id>, id: Id) -> Option<int>
    decreases ids.len(),
{
    if ids.len() == 0 {
        None
    } else {
        match position_of(ids.drop_last(), id) {
            Some(i) => Some(i),
            None => if ids.last() == id {
                Some(ids.len() - 1)
            } else {
                None
            },
        }
    }
}

/// [`position_of`] finds the first occurrence, and finds none only where there is none.
pub proof fn lemma_position_of(ids: Seq<Id>, id: Id)
    ensures
        match position_of(ids, id) {
            Some(i) => {
                &&& 0 <= i < ids.len()
                &&& ids[i] == id
                &&& forall|j: int| 0 <= j < i ==> ids[j] != id
            },
            None => forall|j: int| 0 <= j < ids.len() ==> ids[j] != id,
        },
    decreases ids.len(),
{
    if ids.len() > 0 {
        let front = ids.drop_last();
        lemma_position_of(front, id);
        assert(forall|j: int| 0 <= j < front.len() ==> front[j] == ids[j]);
        match position_of(front, id) {
            Some(i) => {},
            None => {
                assert forall|j: int| 0 <= j < ids.len() - 1 implies ids[j] != id by {
                    assert(front[j] != id);
                }
            },
        }
    }
}

/// A sequence in which `id` first occurs at `i` gives that place.
pub proof fn lemma_position_of_first(ids: Seq<Id>, id: Id, i: int)
    requires
        0 <= i < ids.len(),
        ids[i] == id,
        forall|j: int| 0 <= j < i ==> ids[j] != id,
    ensures
        position_of(ids, id) == Some(i),
{
    lemma_position_of(ids, id);
}

/// A sequence without `id` gives no place.
pub proof fn lemma_position_of_absent(ids: Seq<Id>, id: Id)
    requires
        forall|j: int| 0 <= j < ids.len() ==> ids[j] != id,
    ensures
        position_of(ids, id) is None,
{
    lemma_position_of(ids, id);
}

/// A record that is also found by its name.
pub trait NameMatches: Keyed {
    /// The name of the record.
    spec fn spec_name(&self) -> Seq<char>;

    /// Whether the record goes by this name.
    fn name_matches(&self, name: &str) -> (yes: bool)
        ensures
            yes == (self.spec_name() == name@),
    ;
}

/// The names of the records of a sequence, in order.
pub open spec fn names<T: NameMatches>(items: Seq<T>) -> Seq<Seq<char>> {
    Seq::new(items.len(), |i: int| items[i].spec_name())
}

/// The place of the first occurrence of `name`, if it occurs.
pub open spec fn name_position(names: Seq<Seq<char>>, name: Seq<char>) -> Option<int>
    decreases names.len(),
{
    if names.len() == 0 {
        None
    } else {
        match name_position(names.drop_last(), name) {
            Some(i) => Some(i),
            None => if names.last() == name {
                Some(names.len() - 1)
            } else {
                None
            },
        }
    }
}

/// [`name_position`] finds the first occurrence, and finds none only where there is none.
pub proof fn lemma_name_position(names: Seq<Seq<char>>, name: Seq<char>)
    ensures
        match name_position(names, name) {
            Some(i) => {
                &&& 0 <= i < names.len()
                &&& names[i] == name
                &&& forall|j: int| 0 <= j < i ==> names[j] != name
            },
            None => forall|j: int| 0 <= j < names.len() ==> names[j] != name,
        },
    decreases names.len(),
{
    if names.len() > 0 {
        let front = names.drop_last();
        lemma_name_position(front, name);
        assert(forall|j: int| 0 <= j < front.len() ==> front[j] == names[j]);
        match name_position(front, name) {
            Some(i) => {},
            None => {
                assert forall|j: int| 0 <= j < names.len() - 1 implies names[j] != name by {
                    assert(front[j] != name);
                }
            },
        }
    }
}

/// The place of the first record that goes by this name.
pub fn find_by_name<T: NameMatches>(items: &Vec<T>, name: &str) -> (place: Option<usize>)
    ensures
        match place {
            Some(i) => name_position(names(items@), name@) == Some(i as int) && i < items@.len(),
            None => name_position(names(items@), name@) is None,
        },
{
    let mut i: usize = 0;
    while i < items.len()
        invariant
            i <= items@.len(),
            forall|j: int| 0 <= j < i ==> names(items@)[j] != name@,
        decreases items@.len() - i,
    {
        if items[i].name_matches(name) {
            proof {
                lemma_name_position(names(items@), name@);
                assert(names(items@)[i as int] == name@);
            }
            return Some(i);
        }
        i += 1;
    }
    proof {
        lemma_name_position(names(items@), name@);
    }
    None
}

/// The id of the first record that goes by this name.
pub fn get_id_by_name<T: NameMatches>(items: &Vec<T>, name: &str) -> (id: Option<Id>)
    ensures
        id == match name_position(names(items@), name@) {
            Some(i) => Some(keys(items@)[i]),
            None => None,
        },
{
    match find_by_name(items, name) {
        Some(i) => Some(items[i].key()),
        None => None,
    }
}

/// No id occurs twice.
pub open spec fn distinct(ids: Seq<Id>) -> bool {
    forall|i: int, j: int| 0 <= i < j < ids.len() ==> ids[i] != ids[j]
}

/// The place of the first record with this id.
pub fn find_position<T: Keyed>(items: &Vec<T>, id: Id) -> (place: Option<usize>)
    ensures
        match place {
            Some(i) => position_of(keys(items@), id) == Some(i as int) && i < items@.len(),
            None => position_of(keys(items@), id) is None,
        },
{
    let mut i: usize = 0;
    while i < items.len()
        invariant
            i <= items@.len(),
            forall|j: int| 0 <= j < i ==> keys(items@)[j] != id,
        decreases items@.len() - i,
    {
        if items[i].key() == id {
            proof {
                lemma_position_of_first(keys(items@), id, i as int);
            }
            return Some(i);
        }
        i += 1;
    }
    proof {
        lemma_position_of_absent(keys(items@), id);
    }
    None
}

} // verus!
