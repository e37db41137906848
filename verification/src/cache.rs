//! The asset cache: which emote images were already requested, and under
//! which handle.

use crate::emote::{Emote, EmoteView, Handle, LoadedEmote, LoadedView};
use crate::names::{
    distinct, index_entries, indexes, lemma_indexes, lemma_indexes_push, lemma_position,
    lemma_position_push, position, NameIndex,
};
use vstd::prelude::*;

verus! {

/// What the cache hands out for an emote: a handle to its image, and whether
/// that image is an animation.
#[derive(Clone, Copy, Debug, PartialEq, Eq, Structural)]
pub struct AssetRef {
    pub handle: Handle,
    pub animated: bool,
}

/// The names of a list of records.
pub open spec fn loaded_names(loaded: Seq<LoadedView>) -> Seq<Seq<char>> {
    Seq::new(loaded.len(), |i: int| loaded[i].name)
}

/// The strong handle of the asset that was requested as number `slot`.
pub open spec fn strong_handle(slot: int) -> Handle {
    Handle { slot: slot as usize, strong: true }
}

/// A weak handle of the asset that was requested as number `slot`.
pub open spec fn weak_handle(slot: int) -> Handle {
    Handle { slot: slot as usize, strong: false }
}

/// The record that the cache keeps when it requests the image of `emote` as
/// its request number `slot`: an animation for an animated emote, a still
/// image otherwise.
pub open spec fn record_for(emote: EmoteView, slot: int) -> LoadedView {
    if emote.animated {
        LoadedView {
            name: emote.name,
            animated: true,
            animated_image: Some(strong_handle(slot)),
            static_image: None,
        }
    } else {
        LoadedView {
            name: emote.name,
            animated: false,
            animated_image: None,
            static_image: Some(strong_handle(slot)),
        }
    }
}

/// The records after the image of `emote` was asked for: nothing changes
/// when the name has a record, otherwise one load is requested and recorded.
pub open spec fn requested(loaded: Seq<LoadedView>, emote: EmoteView) -> Seq<LoadedView> {
    if position(loaded_names(loaded), emote.name) is Some {
        loaded
    } else {
        loaded.push(record_for(emote, loaded.len() as int))
    }
}

/// What asking for the image of `emote` returns: a weak handle to the
/// recorded asset when the name has a record, otherwise the strong handle of
/// the load that is requested now.
pub open spec fn asset_ref(loaded: Seq<LoadedView>, emote: EmoteView) -> AssetRef {
    match position(loaded_names(loaded), emote.name) {
        Some(slot) => AssetRef { handle: weak_handle(slot), animated: loaded[slot].animated },
        None => AssetRef {
            handle: strong_handle(loaded.len() as int),
            animated: emote.animated,
        },
    }
}

/// The records are those of distinct names, each holds exactly the handle
/// that fits its kind, and that handle is the strong one of its own slot.
pub open spec fn orderly(loaded: Seq<LoadedView>) -> bool {
    &&& distinct(loaded_names(loaded))
    &&& forall|i: int|
        0 <= i < loaded.len() ==> (#[trigger] loaded[i]).consistent() && loaded[i].handle() == Some(
            strong_handle(i),
        )
}

/// The images requested in this session, in the order of the requests. The
/// cache owns the strong handle of each.
pub struct AssetCache {
    index: NameIndex,
    loaded: Vec<LoadedEmote>,
}

impl View for AssetCache {
    type V = Seq<LoadedView>;

    closed spec fn view(&self) -> Seq<LoadedView> {
        Seq::new(self.loaded@.len(), |i: int| self.loaded@[i]@)
    }
}

impl AssetCache {
    /// The index and the records describe each other, and the records are
    /// orderly.
    pub closed spec fn wf(&self) -> bool {
        &&& self.loaded@.len() <= usize::MAX
        &&& indexes(index_entries(self.index), loaded_names(self@))
        &&& orderly(self@)
    }

    /// The records of a well-formed cache are orderly and fit in memory.
    pub proof fn lemma_wf(&self)
        requires
            self.wf(),
        ensures
            orderly(self@),
            self@.len() <= usize::MAX,
    {
    }

    /// A cache that has requested nothing.
    pub fn new() -> (r: AssetCache)
        ensures
            r.wf(),
            r@.len() == 0,
    {
        AssetCache { index: NameIndex::new(), loaded: Vec::new() }
    }

    /// The number of loads requested so far.
    pub fn len(&self) -> (r: usize)
        ensures
            r == self@.len(),
    {
        self.loaded.len()
    }

    /// A weak handle to the image recorded under this name, if one is.
    pub fn lookup(&self, name: &str) -> (r: Option<AssetRef>)
        requires
            self.wf(),
        ensures
            r == match position(loaded_names(self@), name@) {
                Some(slot) => Some(
                    AssetRef { handle: weak_handle(slot), animated: self@[slot].animated },
                ),
                None => None,
            },
    {
        proof {
            lemma_indexes(index_entries(self.index), loaded_names(self@), name@);
        }
        match self.index.get(name) {
            Some(slot) => Some(
                AssetRef {
                    handle: Handle { slot, strong: false },
                    animated: self.loaded[slot].animated,
                },
            ),
            None => None,
        }
    }

    /// Asks for the image of an emote. A name that has a record gets a weak
    /// handle to the recorded asset and nothing changes. Otherwise one load is
    /// requested, as an animation or a still image as the emote says, it is
    /// recorded, and its strong handle is returned.
    pub fn get_or_request(&mut self, emote: &Emote) -> (r: AssetRef)
        requires
            old(self).wf(),
        ensures
            final(self).wf(),
            final(self)@ == requested(old(self)@, emote@),
            r == asset_ref(old(self)@, emote@),
    {
        let ghost before = self@;
        let ghost names = loaded_names(before);
        proof {
            lemma_indexes(index_entries(self.index), names, emote@.name);
        }
        match self.index.get(emote.name.as_str()) {
            Some(slot) => AssetRef {
                handle: Handle { slot, strong: false },
                animated: self.loaded[slot].animated,
            },
            None => {
                let slot = self.loaded.len();
                let handle = Handle { slot, strong: true };
                let record = if emote.animated {
                    emote.add_animated(handle)
                } else {
                    emote.add_static(handle)
                };
                self.index.insert(emote.name.clone(), slot);
                self.loaded.push(record);
                let _ = self.loaded.len();
                proof {
                    assert(self@ =~= before.push(record_for(emote@, before.len() as int)));
                    assert(loaded_names(self@) =~= names.push(emote@.name));
                    lemma_indexes_push(index_entries(old(self).index), names, emote@.name);
                    lemma_requested_orderly(before, emote@);
                }
                AssetRef { handle, animated: emote.animated }
            },
        }
    }
}

/// Asking for an image keeps orderly records orderly.
pub proof fn lemma_requested_orderly(loaded: Seq<LoadedView>, emote: EmoteView)
    requires
        orderly(loaded),
    ensures
        orderly(requested(loaded, emote)),
{
    let names = loaded_names(loaded);
    let after = requested(loaded, emote);
    lemma_position(names, emote.name);
    if position(names, emote.name) is None {
        assert(loaded_names(after) =~= names.push(emote.name));
        assert forall|i: int| 0 <= i < after.len() implies (#[trigger] after[i]).consistent()
            && after[i].handle() == Some(strong_handle(i)) by {
            if i < loaded.len() {
                assert(after[i] == loaded[i]);
            }
        }
    }
}

/// Asking twice for the image of one name requests one load: the second
/// call changes nothing and returns a weak handle to the asset that the first
/// call returned a handle to.
pub proof fn lemma_request_idempotent(loaded: Seq<LoadedView>, emote: EmoteView, again: EmoteView)
    requires
        again.name == emote.name,
    ensures
        requested(requested(loaded, emote), again) == requested(loaded, emote),
        asset_ref(requested(loaded, emote), again).handle == weak_handle(
            asset_ref(loaded, emote).handle.slot as int,
        ),
        asset_ref(requested(loaded, emote), again).animated == asset_ref(loaded, emote).animated,
{
    let names = loaded_names(loaded);
    let once = requested(loaded, emote);
    lemma_position(names, emote.name);
    if position(names, emote.name) is None {
        assert(loaded_names(once) =~= names.push(emote.name));
        lemma_position_push(names, emote.name, emote.name);
    }
}

} // verus!
