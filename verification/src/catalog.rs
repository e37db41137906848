//! The emote catalog: every emote known in this session, by name.

use crate::emote::{Emote, EmoteMeta, EmoteView};
use crate::names::{
    index_entries, indexes, lemma_indexes, lemma_indexes_push, lemma_position,
    lemma_position_push, position, NameIndex,
};
use vstd::prelude::*;

verus! {

/// The names of a list of emotes.
pub open spec fn emote_names(emotes: Seq<Emote>) -> Seq<Seq<char>> {
    Seq::new(emotes.len(), |i: int| emotes[i]@.name)
}

/// The catalog after `hint` was offered to it: a name that is already there
/// keeps its entry, a new name gets the hint.
pub open spec fn ensured(entries: Map<Seq<char>, EmoteView>, hint: EmoteView) -> Map<
    Seq<char>,
    EmoteView,
> {
    if entries.contains_key(hint.name) {
        entries
    } else {
        entries.insert(hint.name, hint)
    }
}

/// The catalog after each of the records was offered to it, in order.
pub open spec fn seeded(entries: Map<Seq<char>, EmoteView>, records: Seq<EmoteView>) -> Map<
    Seq<char>,
    EmoteView,
>
    decreases records.len(),
{
    if records.len() == 0 {
        entries
    } else {
        ensured(seeded(entries, records.drop_last()), records.last())
    }
}

/// The catalog after a probe's result was written to the entry of `name`:
/// an entry that is not yet probed takes the result, everything else stays.
pub open spec fn probed(entries: Map<Seq<char>, EmoteView>, name: Seq<char>, meta: EmoteMeta) -> Map<
    Seq<char>,
    EmoteView,
> {
    if entries.contains_key(name) {
        entries.insert(name, entries[name].with_probe(meta))
    } else {
        entries
    }
}

/// The catalog without any entry.
pub open spec fn no_emotes() -> Map<Seq<char>, EmoteView> {
    Map::empty()
}

/// Every entry stands under its own name.
pub open spec fn keyed(entries: Map<Seq<char>, EmoteView>) -> bool {
    forall|name: Seq<char>| #[trigger] entries.contains_key(name) ==> entries[name].name == name
}

/// The views of a list of emotes.
pub open spec fn emote_views(emotes: Seq<Emote>) -> Seq<EmoteView> {
    Seq::new(emotes.len(), |i: int| emotes[i]@)
}

/// The emotes of a session by name. Entries are added and never removed; an
/// entry changes once at most, when a probe's result is written to it.
pub struct Catalog {
    index: NameIndex,
    emotes: Vec<Emote>,
}

impl View for Catalog {
    type V = Map<Seq<char>, EmoteView>;

    closed spec fn view(&self) -> Map<Seq<char>, EmoteView> {
        Map::new(
            |name: Seq<char>| position(emote_names(self.emotes@), name) is Some,
            |name: Seq<char>| self.emotes@[position(emote_names(self.emotes@), name).unwrap()]@,
        )
    }
}

impl Catalog {
    /// The index and the list of emotes describe each other.
    pub closed spec fn wf(&self) -> bool {
        &&& self.emotes@.len() <= usize::MAX
        &&& indexes(index_entries(self.index), emote_names(self.emotes@))
    }

    /// The number of entries.
    pub closed spec fn spec_len(&self) -> nat {
        self.emotes@.len()
    }

    /// In a well-formed catalog every entry stands under its own name, and
    /// there are as many names as entries.
    pub proof fn lemma_wf(&self)
        requires
            self.wf(),
        ensures
            keyed(self@),
            self@.dom().finite(),
            self@.dom().len() == self.spec_len(),
    {
        let names = emote_names(self.emotes@);
        assert forall|name: Seq<char>| #[trigger] self@.contains_key(name) implies self@[name].name
            == name by {
            lemma_position(names, name);
        }
        assert(self@.dom() =~= names.to_set()) by {
            assert forall|name: Seq<char>| self@.dom().contains(name) <==> names.to_set().contains(
                name,
            ) by {
                lemma_position(names, name);
            }
        }
        lemma_indexes(index_entries(self.index), names, Seq::empty());
        names.unique_seq_to_set();
    }

    /// An empty catalog.
    pub fn new() -> (r: Catalog)
        ensures
            r.wf(),
            r@ == no_emotes(),
            r.spec_len() == 0,
    {
        let r = Catalog { index: NameIndex::new(), emotes: Vec::new() };
        proof {
            assert(r@ =~= no_emotes());
        }
        r
    }

    /// The number of entries.
    pub fn len(&self) -> (r: usize)
        ensures
            r == self.spec_len(),
    {
        self.emotes.len()
    }

    /// The entry that stands under exactly this name, if there is one.
    pub fn lookup(&self, name: &str) -> (r: Option<&Emote>)
        requires
            self.wf(),
        ensures
            r is Some <==> self@.contains_key(name@),
            r matches Some(e) ==> e@ == self@[name@],
    {
        proof {
            lemma_indexes(index_entries(self.index), emote_names(self.emotes@), name@);
        }
        match self.index.get(name) {
            Some(slot) => Some(&self.emotes[slot]),
            None => None,
        }
    }

    /// Whether an entry stands under exactly this name.
    pub fn contains(&self, name: &str) -> (r: bool)
        requires
            self.wf(),
        ensures
            r == self@.contains_key(name@),
    {
        self.lookup(name).is_some()
    }

    /// Offers a hint to the catalog. A name that is already there keeps its
    /// entry; a new name gets the hint as its entry. Returns a copy of the
    /// entry that stands under the hint's name afterwards.
    pub fn ensure(&mut self, hint: Emote) -> (r: Emote)
        requires
            old(self).wf(),
        ensures
            final(self).wf(),
            final(self)@ == ensured(old(self)@, hint@),
            r@ == final(self)@[hint@.name],
            final(self)@.contains_key(hint@.name),
    {
        let ghost names = emote_names(self.emotes@);
        proof {
            lemma_indexes(index_entries(self.index), names, hint@.name);
        }
        match self.index.get(hint.name.as_str()) {
            Some(slot) => self.emotes[slot].clone(),
            None => {
                let slot = self.emotes.len();
                let copy = hint.clone();
                self.index.insert(hint.name.clone(), slot);
                self.emotes.push(hint);
                let _ = self.emotes.len();
                proof {
                    let longer = emote_names(self.emotes@);
                    assert(longer =~= names.push(hint@.name));
                    lemma_indexes_push(index_entries(old(self).index), names, hint@.name);
                    assert(position(names, hint@.name) is None);
                    assert forall|name: Seq<char>| #[trigger]
                        self@.contains_key(name) <==> ensured(old(self)@, hint@).contains_key(
                            name,
                        ) by {
                        lemma_position_push(names, hint@.name, name);
                    }
                    assert forall|name: Seq<char>| #[trigger]
                        self@.contains_key(name) implies self@[name] == ensured(
                        old(self)@,
                        hint@,
                    )[name] by {
                        lemma_position_push(names, hint@.name, name);
                        lemma_position(longer, name);
                        let at = position(longer, name).unwrap();
                        if at < names.len() {
                            assert(self.emotes@[at] == old(self).emotes@[at]);
                        } else {
                            assert(self.emotes@[at]@ == hint@);
                        }
                    }
                    assert(self@ =~= ensured(old(self)@, hint@));
                }
                copy
            },
        }
    }

    /// Offers each of the records to the catalog, in order: the bulk insert
    /// at startup. Nothing that is already there is overwritten.
    pub fn seed(&mut self, records: &Vec<Emote>)
        requires
            old(self).wf(),
        ensures
            final(self).wf(),
            final(self)@ == seeded(old(self)@, emote_views(records@)),
    {
        let ghost all = emote_views(records@);
        let mut i: usize = 0;
        while i < records.len()
            invariant
                i <= records.len(),
                self.wf(),
                all == emote_views(records@),
                self@ == seeded(old(self)@, all.take(i as int)),
            decreases records.len() - i,
        {
            proof {
                assert(all.take(i + 1).drop_last() =~= all.take(i as int));
                assert(all.take(i + 1).last() == records@[i as int]@);
            }
            let _ = self.ensure(records[i].clone());
            i = i + 1;
        }
        proof {
            assert(all.take(records.len() as int) =~= all);
        }
    }

    /// Writes a probe's result to the entry under `name`, if that entry is
    /// not yet probed. Returns whether an entry changed.
    pub fn write_probe(&mut self, name: &str, meta: EmoteMeta) -> (changed: bool)
        requires
            old(self).wf(),
        ensures
            final(self).wf(),
            final(self)@ == probed(old(self)@, name@, meta),
            changed == (old(self)@.contains_key(name@) && !old(self)@[name@].is_probed()),
            final(self).spec_len() == old(self).spec_len(),
    {
        let ghost names = emote_names(self.emotes@);
        proof {
            lemma_indexes(index_entries(self.index), names, name@);
        }
        match self.index.get(name) {
            Some(slot) => {
                let mut entry = self.emotes[slot].clone();
                let changed = entry.apply_probe(meta);
                self.emotes.set(slot, entry);
                proof {
                    assert(emote_names(self.emotes@) =~= names);
                    assert forall|other: Seq<char>| #[trigger]
                        self@.contains_key(other) implies self@[other] == probed(
                        old(self)@,
                        name@,
                        meta,
                    )[other] by {
                        lemma_position(names, other);
                    }
                    assert(self@ =~= probed(old(self)@, name@, meta));
                }
                changed
            },
            None => {
                proof {
                    assert(self@ =~= probed(old(self)@, name@, meta));
                }
                false
            },
        }
    }
}

/// The catalog only grows: offering a hint removes no entry and changes
/// none, and leaves every entry under its own name.
pub proof fn lemma_ensured_keeps(entries: Map<Seq<char>, EmoteView>, hint: EmoteView)
    ensures
        forall|name: Seq<char>| #[trigger]
            entries.contains_key(name) ==> ensured(entries, hint).contains_key(name) && ensured(
                entries,
                hint,
            )[name] == entries[name],
        ensured(entries, hint).contains_key(hint.name),
        keyed(entries) ==> keyed(ensured(entries, hint)),
{
}

/// Seeding removes no entry and changes none.
pub proof fn lemma_seeded_keeps(entries: Map<Seq<char>, EmoteView>, records: Seq<EmoteView>)
    ensures
        forall|name: Seq<char>| #[trigger]
            entries.contains_key(name) ==> seeded(entries, records).contains_key(name) && seeded(
                entries,
                records,
            )[name] == entries[name],
        keyed(entries) ==> keyed(seeded(entries, records)),
    decreases records.len(),
{
    if records.len() > 0 {
        lemma_seeded_keeps(entries, records.drop_last());
        lemma_ensured_keeps(seeded(entries, records.drop_last()), records.last());
    }
}

/// An entry is probed once: writing a probe's result adds and removes no
/// name, touches no entry but the named one, never changes a name, and
/// changes nothing at all where the entry is probed already. So after one
/// probe a second one is without effect.
pub proof fn lemma_probed_once(
    entries: Map<Seq<char>, EmoteView>,
    name: Seq<char>,
    first: EmoteMeta,
    second: EmoteMeta,
)
    ensures
        probed(entries, name, first).dom() == entries.dom(),
        forall|other: Seq<char>|
            other != name && entries.contains_key(other) ==> #[trigger] probed(
                entries,
                name,
                first,
            )[other] == entries[other],
        entries.contains_key(name) && entries[name].is_probed() ==> probed(entries, name, first)
            == entries,
        entries.contains_key(name) ==> probed(entries, name, first)[name].is_probed(),
        probed(probed(entries, name, first), name, second) == probed(entries, name, first),
        keyed(entries) ==> keyed(probed(entries, name, first)),
{
    let once = probed(entries, name, first);
    assert(once.dom() =~= entries.dom());
    if entries.contains_key(name) {
        if entries[name].is_probed() {
            assert(once =~= entries);
        }
        assert(probed(once, name, second) =~= once);
    }
}

/// Seeding an empty catalog with records whose names are distinct yields one
/// entry for each record, and a lookup of a record's name returns that record
/// unchanged.
pub proof fn lemma_seed_round_trip(records: Seq<EmoteView>)
    requires
        forall|i: int, j: int| 0 <= i < j < records.len() ==> records[i].name != records[j].name,
    ensures
        seeded(Map::empty(), records).dom().finite(),
        seeded(Map::empty(), records).dom().len() == records.len(),
        forall|i: int|
            0 <= i < records.len() ==> seeded(Map::empty(), records).contains_key(
                #[trigger] records[i].name,
            ) && seeded(Map::empty(), records)[records[i].name] == records[i],
        forall|name: Seq<char>| #[trigger]
            seeded(Map::empty(), records).contains_key(name) ==> exists|i: int|
                0 <= i < records.len() && #[trigger] records[i].name == name,
    decreases records.len(),
{
    if records.len() > 0 {
        let front = records.drop_last();
        let last = records.last();
        let before = seeded(Map::empty(), front);
        let after = seeded(Map::empty(), records);
        lemma_seed_round_trip(front);
        if before.contains_key(last.name) {
            let i = choose|i: int| 0 <= i < front.len() && #[trigger] front[i].name == last.name;
            assert(records[i].name == records[records.len() - 1].name);
        }
        assert(after == before.insert(last.name, last));
        assert(after.dom() =~= before.dom().insert(last.name));
        assert forall|i: int| 0 <= i < records.len() implies after.contains_key(
            #[trigger] records[i].name,
        ) && after[records[i].name] == records[i] by {
            if i < front.len() {
                assert(front[i] == records[i]);
                assert(before.contains_key(front[i].name));
            }
        }
        assert forall|name: Seq<char>| #[trigger] after.contains_key(name) implies exists|i: int|
            0 <= i < records.len() && #[trigger] records[i].name == name by {
            if name == last.name {
                assert(records[records.len() - 1].name == name);
            } else {
                assert(before.contains_key(name));
                let i = choose|i: int| 0 <= i < front.len() && #[trigger] front[i].name == name;
                assert(records[i].name == name);
            }
        }
    }
}

} // verus!
