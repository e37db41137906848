use chat_overlay::cache::{AssetCache, AssetRef};
use chat_overlay::emote::{Emote, Handle};

fn emote(name: &str, animated: bool) -> Emote {
    let mut emote = Emote::from_twitch("1", name);
    emote.animated = animated;
    emote
}

#[test]
fn a_new_cache_has_requested_nothing() {
    let cache = AssetCache::new();
    assert_eq!(cache.len(), 0);
    assert_eq!(cache.lookup("Kappa"), None);
}

#[test]
fn the_first_request_returns_the_strong_handle() {
    let mut cache = AssetCache::new();
    let asset = cache.get_or_request(&emote("Kappa", false));
    assert_eq!(asset, AssetRef { handle: Handle { slot: 0, strong: true }, animated: false });
    assert_eq!(cache.len(), 1);
}

#[test]
fn a_second_request_for_a_name_loads_nothing() {
    let mut cache = AssetCache::new();
    let first = cache.get_or_request(&emote("Kappa", false));
    let second = cache.get_or_request(&emote("Kappa", false));
    let third = cache.get_or_request(&emote("Kappa", false));
    assert_eq!(cache.len(), 1);
    assert_eq!(second.handle.slot, first.handle.slot);
    assert_eq!(third.handle.slot, first.handle.slot);
    assert!(first.handle.strong);
    assert!(!second.handle.strong);
    assert!(!third.handle.strong);
}

#[test]
fn every_name_gets_its_own_slot() {
    let mut cache = AssetCache::new();
    let kappa = cache.get_or_request(&emote("Kappa", false));
    let lul = cache.get_or_request(&emote("LUL", true));
    let kappa_again = cache.get_or_request(&emote("Kappa", false));
    let pog = cache.get_or_request(&emote("Pog", false));
    assert_eq!(kappa.handle.slot, 0);
    assert_eq!(lul.handle.slot, 1);
    assert_eq!(kappa_again.handle.slot, 0);
    assert_eq!(pog.handle.slot, 2);
    assert_eq!(cache.len(), 3);
}

#[test]
fn the_kind_of_an_asset_is_fixed_by_its_first_request() {
    let mut cache = AssetCache::new();
    let first = cache.get_or_request(&emote("Kappa", true));
    assert!(first.animated);
    let second = cache.get_or_request(&emote("Kappa", false));
    assert!(second.animated);
    assert_eq!(cache.len(), 1);
}

#[test]
fn lookup_finds_what_was_requested() {
    let mut cache = AssetCache::new();
    cache.get_or_request(&emote("Kappa", false));
    cache.get_or_request(&emote("LUL", true));
    assert_eq!(
        cache.lookup("LUL"),
        Some(AssetRef { handle: Handle { slot: 1, strong: false }, animated: true })
    );
    assert_eq!(
        cache.lookup("Kappa"),
        Some(AssetRef { handle: Handle { slot: 0, strong: false }, animated: false })
    );
    assert_eq!(cache.lookup("kappa"), None);
    assert_eq!(cache.len(), 2);
}
