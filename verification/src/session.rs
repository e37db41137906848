//! A chat message on its way from the chat client to the screen: which of
//! its emotes are probed first, and how the emote store takes it in.

use crate::cache::AssetCache;
use crate::catalog::{emote_names, emote_views, seeded, Catalog};
use crate::config::Config;
use crate::emote::Emote;
use crate::layout::{cache_after, layout_message, layout_of, MessageLayout};
use crate::token::classified;
use crate::wrap::emotes_of;
use crate::probe::ProbeLog;
use crate::text::tokens;
use vstd::prelude::*;

verus! {

/// A chat message with the emotes that the chat protocol tagged in it.
#[derive(Debug)]
pub struct TwitchMessage {
    pub user: String,
    pub message: String,
    pub emotes: Vec<Emote>,
}

/// The emote store of a session: the catalog of all emotes, and the cache
/// of the images that were requested.
pub struct EmoteStorage {
    pub all: Catalog,
    pub loaded: AssetCache,
}

/// The positions, among the first `n` emotes, of those whose images are to
/// be probed: each name that is not in the log yet, where it comes first.
pub open spec fn probe_slots(seen: Set<Seq<char>>, names: Seq<Seq<char>>, n: int) -> Seq<int>
    decreases n,
{
    if n <= 0 {
        Seq::empty()
    } else if seen_after(seen, names, n - 1).contains(names[n - 1]) {
        probe_slots(seen, names, n - 1)
    } else {
        probe_slots(seen, names, n - 1).push(n - 1)
    }
}

/// The log once the first `n` names were entered.
pub open spec fn seen_after(seen: Set<Seq<char>>, names: Seq<Seq<char>>, n: int) -> Set<Seq<char>>
    decreases n,
{
    if n <= 0 {
        seen
    } else {
        seen_after(seen, names, n - 1).insert(names[n - 1])
    }
}

/// The positions in a list as mathematical integers.
pub open spec fn slots(list: Seq<usize>) -> Seq<int> {
    Seq::new(list.len(), |i: int| list[i] as int)
}

/// Enters the names of a message's emotes in the log and says which of the
/// emotes are to be probed now: each new name once, where it comes first.
pub fn pending_probes(log: &mut ProbeLog, emotes: &Vec<Emote>) -> (r: Vec<usize>)
    ensures
        slots(r@) == probe_slots(old(log)@, emote_names(emotes@), emotes@.len() as int),
        final(log)@ == seen_after(old(log)@, emote_names(emotes@), emotes@.len() as int),
        forall|k: int| 0 <= k < r@.len() ==> (#[trigger] r@[k]) < emotes@.len(),
{
    let ghost names = emote_names(emotes@);
    let mut due: Vec<usize> = Vec::new();
    let mut i: usize = 0;
    proof {
        assert(slots(due@) =~= probe_slots(old(log)@, names, 0));
    }
    while i < emotes.len()
        invariant
            i <= emotes.len(),
            names == emote_names(emotes@),
            slots(due@) == probe_slots(old(log)@, names, i as int),
            log@ == seen_after(old(log)@, names, i as int),
            forall|k: int| 0 <= k < due@.len() ==> (#[trigger] due@[k]) < emotes@.len(),
        decreases emotes.len() - i,
    {
        let ghost before = due@;
        if log.first_sighting(emotes[i].name.as_str()) {
            due.push(i);
            proof {
                assert(slots(due@) =~= slots(before).push(i as int));
            }
        }
        i = i + 1;
    }
    due
}

impl EmoteStorage {
    /// Catalog and cache are well-formed.
    pub open spec fn wf(&self) -> bool {
        self.all.wf() && self.loaded.wf()
    }

    /// A store without emotes.
    pub fn new() -> (r: EmoteStorage)
        ensures
            r.wf(),
            r.all@ == crate::catalog::no_emotes(),
            r.loaded@.len() == 0,
    {
        EmoteStorage { all: Catalog::new(), loaded: AssetCache::new() }
    }

    /// Takes a chat message in: offers the emotes that the chat protocol
    /// tagged to the catalog, then lays the text out against the catalog.
    pub fn handle_message(&mut self, cfg: &Config, message: &TwitchMessage) -> (r: MessageLayout)
        requires
            cfg.wf(),
            old(self).wf(),
        ensures
            final(self).wf(),
            final(self).all@ == seeded(old(self).all@, emote_views(message.emotes@)),
            final(self).loaded@ == cache_after(
                old(self).loaded@,
                emotes_of(classified(final(self).all@, tokens(message.message@))),
            ),
            r@ == layout_of(
                *cfg,
                classified(final(self).all@, tokens(message.message@)),
                old(self).loaded@,
            ),
    {
        self.all.seed(&message.emotes);
        layout_message(message.message.as_str(), &self.all, &mut self.loaded, cfg)
    }
}

} // verus!
