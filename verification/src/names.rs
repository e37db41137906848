//! Looking names up: a hash index from names to slot numbers, and what it
//! means for such an index to describe a list of distinct names.

use vstd::prelude::*;

verus! {

/// A hash map from names to slot numbers, stored in the `HashMap` that
/// `bevy::utils` exports. Verus does not look inside: everything known of an
/// index is what `index_entries` says it holds.
#[verifier::external_body]
pub struct NameIndex {
    map: bevy::utils::HashMap<String, usize>,
}

/// What an index holds: every stored name, as its characters, with its slot.
pub uninterp spec fn index_entries(index: NameIndex) -> Map<Seq<char>, usize>;

/// The map that holds no name.
pub open spec fn no_entries() -> Map<Seq<char>, usize> {
    Map::empty()
}

/// What a lookup of `name` finds in `entries`.
pub open spec fn entry_of(entries: Map<Seq<char>, usize>, name: Seq<char>) -> Option<usize> {
    if entries.contains_key(name) {
        Some(entries[name])
    } else {
        None
    }
}

impl NameIndex {
    /// Calls `HashMap::default` of `bevy::utils`. Trusted: the new map holds
    /// no entry.
    #[verifier::external_body]
    pub(crate) fn new() -> (r: NameIndex)
        ensures
            index_entries(r) == no_entries(),
    {
        NameIndex { map: bevy::utils::HashMap::default() }
    }

    /// Calls `HashMap::get`. Trusted: the slot stored under exactly this
    /// name is returned, and nothing where the name is not stored.
    #[verifier::external_body]
    pub(crate) fn get(&self, name: &str) -> (r: Option<usize>)
        ensures
            r == entry_of(index_entries(*self), name@),
    {
        self.map.get(name).copied()
    }

    /// Calls `HashMap::insert`. Trusted: afterwards the name is stored with
    /// this slot and every other name is stored as before.
    #[verifier::external_body]
    pub(crate) fn insert(&mut self, name: String, slot: usize)
        ensures
            index_entries(*final(self)) == index_entries(*old(self)).insert(name@, slot),
    {
        self.map.insert(name, slot);
    }
}

/// The first position at which `name` stands in `names`, if it stands there.
pub open spec fn position(names: Seq<Seq<char>>, name: Seq<char>) -> Option<int>
    decreases names.len(),
{
    if names.len() == 0 {
        None
    } else if names.first() == name {
        Some(0)
    } else {
        match position(names.drop_first(), name) {
            Some(i) => Some(i + 1),
            None => None,
        }
    }
}

/// No name stands at two positions.
pub open spec fn distinct(names: Seq<Seq<char>>) -> bool {
    forall|i: int, j: int| 0 <= i < j < names.len() ==> names[i] != names[j]
}

/// `entries` sends each name of the list to its position, and holds nothing else.
pub open spec fn indexes(entries: Map<Seq<char>, usize>, names: Seq<Seq<char>>) -> bool {
    &&& forall|i: int| 0 <= i < names.len() ==> entry_of(entries, #[trigger] names[i]) == Some(i as usize)
    &&& forall|name: Seq<char>| #[trigger]
        entries.contains_key(name) ==> 0 <= entries[name] < names.len() && names[entries[name] as int] == name
}

/// `position` finds a name exactly when it occurs, and then at its first
/// occurrence.
pub proof fn lemma_position(names: Seq<Seq<char>>, name: Seq<char>)
    ensures
        match position(names, name) {
            Some(i) => 0 <= i < names.len() && names[i] == name && forall|j: int|
                0 <= j < i ==> names[j] != name,
            None => forall|j: int| 0 <= j < names.len() ==> names[j] != name,
        },
    decreases names.len(),
{
    if names.len() == 0 {
    } else if names.first() == name {
    } else {
        let rest = names.drop_first();
        lemma_position(rest, name);
        match position(rest, name) {
            Some(i) => {
                assert forall|j: int| 0 <= j < i + 1 implies names[j] != name by {
                    if j > 0 {
                        assert(rest[j - 1] == names[j]);
                    }
                }
            },
            None => {
                assert forall|j: int| 0 <= j < names.len() implies names[j] != name by {
                    if j > 0 {
                        assert(rest[j - 1] == names[j]);
                    }
                }
            },
        }
    }
}

/// Appending a name changes what `position` finds only for that name, and
/// only if it did not occur before.
pub proof fn lemma_position_push(names: Seq<Seq<char>>, last: Seq<char>, name: Seq<char>)
    ensures
        position(names.push(last), name) == match position(names, name) {
            Some(i) => Some(i),
            None => if last == name {
                Some(names.len() as int)
            } else {
                None
            },
        },
{
    let longer = names.push(last);
    lemma_position(names, name);
    lemma_position(longer, name);
    match position(longer, name) {
        Some(j) => {
            assert(longer[j] == name);
            match position(names, name) {
                Some(i) => {
                    assert(longer[i] == names[i]);
                    if j < i {
                        assert(names[j] == longer[j]);
                    }
                },
                None => {
                    if j < names.len() {
                        assert(names[j] == longer[j]);
                    }
                },
            }
        },
        None => {
            assert(longer[names.len() as int] == last);
            match position(names, name) {
                Some(i) => {
                    assert(longer[i] == names[i]);
                },
                None => {},
            }
        },
    }
}

/// An index of a list answers lookups as `position` does, and its list is
/// distinct.
pub proof fn lemma_indexes(entries: Map<Seq<char>, usize>, names: Seq<Seq<char>>, name: Seq<char>)
    requires
        indexes(entries, names),
        names.len() <= usize::MAX,
    ensures
        distinct(names),
        match entry_of(entries, name) {
            Some(slot) => position(names, name) == Some(slot as int),
            None => position(names, name) is None,
        },
{
    assert forall|i: int, j: int| 0 <= i < j < names.len() implies names[i] != names[j] by {
        assert(entry_of(entries, names[i]) == Some(i as usize));
        assert(entry_of(entries, names[j]) == Some(j as usize));
    }
    lemma_position(names, name);
    match position(names, name) {
        Some(i) => {
            assert(entry_of(entries, names[i]) == Some(i as usize));
        },
        None => {
            if entries.contains_key(name) {
                assert(names[entries[name] as int] == name);
            }
        },
    }
}

/// Storing an absent name under the next free slot keeps the index in step
/// with the list that the name is appended to.
pub proof fn lemma_indexes_push(
    entries: Map<Seq<char>, usize>,
    names: Seq<Seq<char>>,
    name: Seq<char>,
)
    requires
        indexes(entries, names),
        !entries.contains_key(name),
        names.len() < usize::MAX,
    ensures
        indexes(entries.insert(name, names.len() as usize), names.push(name)),
{
    let slot = names.len() as usize;
    let grown = entries.insert(name, slot);
    let longer = names.push(name);
    assert forall|i: int| 0 <= i < longer.len() implies entry_of(grown, #[trigger] longer[i])
        == Some(i as usize) by {
        if i < names.len() {
            assert(entry_of(entries, names[i]) == Some(i as usize));
            assert(longer[i] == names[i]);
        }
    }
    assert forall|other: Seq<char>| #[trigger] grown.contains_key(other) implies 0 <= grown[other]
        < longer.len() && longer[grown[other] as int] == other by {
        if other != name {
            assert(entries.contains_key(other));
        }
    }
}

} // verus!
