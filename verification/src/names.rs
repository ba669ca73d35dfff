//! Finding things by name. Nodes, bones and channels are joined by their
//! names, and each list of them is searched from the front.
use vstd::prelude::*;

verus! {

/// Something that is known by a name.
pub trait Named: Sized {
    /// The name, as characters.
    spec fn spec_name(&self) -> Seq<char>;

    /// The name.
    fn name(&self) -> (name: &String)
        ensures
            name@ == self.spec_name(),
    ;
}

/// The names of the items of a list, in the order of the list.
pub open spec fn names<T: Named>(items: Seq<T>) -> Seq<Seq<char>> {
    Seq::new(items.len(), |i: int| items[i].spec_name())
}

/// `index` is the first place in `all` at which `name` stands.
pub open spec fn is_first(all: Seq<Seq<char>>, name: Seq<char>, index: int) -> bool {
    &&& 0 <= index < all.len()
    &&& all[index] == name
    &&& forall|j: int| 0 <= j < index ==> all[j] != name
}

/// `name` stands nowhere in `all`.
pub open spec fn is_absent(all: Seq<Seq<char>>, name: Seq<char>) -> bool {
    forall|j: int| 0 <= j < all.len() ==> all[j] != name
}

/// The first place in `all` at which `name` stands, if there is one.
pub open spec fn position(all: Seq<Seq<char>>, name: Seq<char>) -> Option<int> {
    all.index_of_first(name)
}

/// The last place in `all` at which `name` stands, if there is one.
pub open spec fn last_position(all: Seq<Seq<char>>, name: Seq<char>) -> Option<int>
    decreases all.len(),
{
    if all.len() == 0 {
        None
    } else if all.last() == name {
        Some(all.len() - 1)
    } else {
        last_position(all.drop_last(), name)
    }
}

/// The last position of a name is a place at which the name stands, and the
/// name stands at no later place; a name without one is absent.
pub proof fn lemma_last_position(all: Seq<Seq<char>>, name: Seq<char>)
    ensures
        match last_position(all, name) {
            Some(index) => {
                &&& 0 <= index < all.len()
                &&& all[index] == name
                &&& forall|j: int| index < j < all.len() ==> all[j] != name
            },
            None => is_absent(all, name),
        },
    decreases all.len(),
{
    if all.len() > 0 && all.last() != name {
        let shorter = all.drop_last();
        lemma_last_position(shorter, name);
        assert forall|j: int| 0 <= j < shorter.len() implies shorter[j] == all[j] by {}
        match last_position(shorter, name) {
            Some(index) => {
                assert forall|j: int| index < j < all.len() implies all[j] != name by {
                    if j < shorter.len() {
                        assert(shorter[j] != name);
                    }
                }
            },
            None => {
                assert forall|j: int| 0 <= j < all.len() implies all[j] != name by {
                    if j < shorter.len() {
                        assert(shorter[j] != name);
                    }
                }
            },
        }
    }
}

/// No name stands twice in `all`.
pub open spec fn distinct(all: Seq<Seq<char>>) -> bool {
    forall|i: int, j: int| 0 <= i < j < all.len() ==> all[i] != all[j]
}

/// `position` gives the first place of the name, and gives none only where
/// the name is absent.
pub proof fn lemma_position(all: Seq<Seq<char>>, name: Seq<char>)
    ensures
        match position(all, name) {
            Some(index) => is_first(all, name, index),
            None => is_absent(all, name),
        },
{
    all.index_of_first_ensures(name);
    if all.index_of_first(name).is_none() {
        assert forall|j: int| 0 <= j < all.len() implies all[j] != name by {
            assert(all.contains(all[j]));
        }
    }
}

/// A place that is the first for a name is the position of the name.
pub proof fn lemma_first_is_position(all: Seq<Seq<char>>, name: Seq<char>, index: int)
    requires
        is_first(all, name, index),
    ensures
        position(all, name) == Some(index),
{
    all.index_of_first_ensures(name);
    assert(all.contains(name));
}

/// A name that is absent has no position.
pub proof fn lemma_absent_is_no_position(all: Seq<Seq<char>>, name: Seq<char>)
    requires
        is_absent(all, name),
    ensures
        position(all, name).is_none(),
{
    all.index_of_first_ensures(name);
}

/// Looks for the first item with the given name.
pub fn find_named<T: Named>(items: &Vec<T>, name: &String) -> (found: Option<usize>)
    ensures
        match found {
            Some(index) => position(names(items@), name@) == Some(index as int) && index
                < items.len() && items@[index as int].spec_name() == name@,
            None => position(names(items@), name@).is_none(),
        },
{
    let mut index: usize = 0;
    while index < items.len()
        invariant
            index <= items.len(),
            forall|j: int| 0 <= j < index ==> names(items@)[j] != name@,
        decreases items.len() - index,
    {
        if *items[index].name() == *name {
            proof {
                assert(names(items@)[index as int] == name@);
                lemma_first_is_position(names(items@), name@, index as int);
            }
            return Some(index);
        }
        assert(names(items@)[index as int] != name@);
        index += 1;
    }
    proof {
        lemma_absent_is_no_position(names(items@), name@);
    }
    None
}

/// Where no name stands twice, the last place of a name is its first.
pub proof fn lemma_last_is_first(all: Seq<Seq<char>>, name: Seq<char>)
    requires
        distinct(all),
    ensures
        last_position(all, name) == position(all, name),
{
    lemma_last_position(all, name);
    lemma_position(all, name);
    match last_position(all, name) {
        Some(last) => {
            match position(all, name) {
                Some(first) => {
                    if first < last {
                        assert(all[first] != all[last]);
                    }
                },
                None => {
                    assert(all[last] != name);
                },
            }
        },
        None => {
            lemma_absent_is_no_position(all, name);
        },
    }
}

} // verus!
