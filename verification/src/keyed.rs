//! Lists of named entries with distinct names: the library's form of the
//! string-keyed maps and sets that the configuration and state stores use.
use vstd::prelude::*;

verus! {

/// The position of the first entry named `k`, if any.
pub open spec fn key_index<T>(entries: Seq<(String, T)>, k: Seq<char>) -> Option<int>
    decreases entries.len(),
{
    if entries.len() == 0 {
        None
    } else {
        match key_index(entries.drop_last(), k) {
            Some(i) => Some(i),
            None => if entries.last().0@ == k { Some(entries.len() - 1) } else { None },
        }
    }
}

/// No two entries share a name.
pub open spec fn keys_unique<T>(entries: Seq<(String, T)>) -> bool {
    forall|i: int, j: int| 0 <= i < j < entries.len() ==> (#[trigger] entries[i]).0@ != (#[trigger] entries[j]).0@
}

/// The names of a list of names, as a set.
pub open spec fn name_set(names: Seq<String>) -> Set<Seq<char>> {
    Set::new(|k: Seq<char>| exists|i: int| 0 <= i < names.len() && (#[trigger] names[i])@ == k)
}

/// No name occurs twice.
pub open spec fn names_unique(names: Seq<String>) -> bool {
    forall|i: int, j: int| 0 <= i < j < names.len() ==> (#[trigger] names[i])@ != (#[trigger] names[j])@
}

/// `key_index` finds the first entry with the name, if there is one.
pub proof fn lemma_key_index<T>(entries: Seq<(String, T)>, k: Seq<char>)
    ensures
        key_index(entries, k) matches Some(i) ==> {
            &&& 0 <= i < entries.len()
            &&& entries[i].0@ == k
            &&& forall|j: int| 0 <= j < i ==> (#[trigger] entries[j]).0@ != k
        },
        key_index(entries, k) is None ==> forall|j: int| 0 <= j < entries.len() ==> (#[trigger] entries[j]).0@ != k,
    decreases entries.len(),
{
    if entries.len() > 0 {
        lemma_key_index(entries.drop_last(), k);
        assert forall|j: int| 0 <= j < entries.len() - 1 implies #[trigger] entries[j] == entries.drop_last()[j] by {}
    }
}

/// In a list with distinct names, the entry at `i` is found by its name.
pub proof fn lemma_key_index_unique<T>(entries: Seq<(String, T)>, i: int)
    requires
        keys_unique(entries),
        0 <= i < entries.len(),
    ensures
        key_index(entries, entries[i].0@) == Some(i),
{
    lemma_key_index(entries, entries[i].0@);
    match key_index(entries, entries[i].0@) {
        Some(m) => {
            if m < i {
                assert(entries[m].0@ != entries[i].0@);
            }
        },
        None => {},
    }
}

/// The position of the first entry named `k`, if any.
pub fn find_key<T>(entries: &Vec<(String, T)>, k: &String) -> (r: Option<usize>)
    ensures
        r matches Some(i) ==> key_index(entries@, k@) == Some(i as int) && i < entries@.len(),
        r is None ==> key_index(entries@, k@) is None,
{
    let mut i: usize = 0;
    while i < entries.len()
        invariant
            i <= entries.len(),
            forall|j: int| 0 <= j < i ==> (#[trigger] entries@[j]).0@ != k@,
        decreases entries.len() - i,
    {
        proof {
            lemma_key_index(entries@, k@);
        }
        if entries[i].0 == *k {
            proof {
                match key_index(entries@, k@) {
                    Some(m) => {
                        assert(!(m < i));
                        assert(!(m > i));
                    },
                    None => {},
                }
            }
            return Some(i);
        }
        i = i + 1;
    }
    proof {
        lemma_key_index(entries@, k@);
    }
    None
}

/// Whether the list holds the name `k`.
pub fn contains_name(names: &Vec<String>, k: &String) -> (r: bool)
    ensures
        r == name_set(names@).contains(k@),
{
    let mut i: usize = 0;
    while i < names.len()
        invariant
            i <= names.len(),
            forall|j: int| 0 <= j < i ==> (#[trigger] names@[j])@ != k@,
        decreases names.len() - i,
    {
        if names[i] == *k {
            assert(names@[i as int]@ == k@);
            return true;
        }
        i = i + 1;
    }
    false
}

} // verus!
