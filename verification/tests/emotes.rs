use chat_overlay::emote::{Emote, EmoteMeta, EmoteSource, Handle, ImageFormat};

fn unprobed() -> Emote {
    Emote::from_twitch("25", "Kappa")
}

#[test]
fn a_chat_emote_starts_as_an_unprobed_still_image() {
    let emote = unprobed();
    assert_eq!(emote.id, "25");
    assert_eq!(emote.name, "Kappa");
    assert!(!emote.animated);
    assert_eq!(
        emote.emote_url,
        "https://static-cdn.jtvnw.net/emoticons/v2/25/default/light/4.0"
    );
    assert_eq!(emote.source, EmoteSource::Twitch);
    assert_eq!(emote.format, None);
    assert_eq!(emote.width, None);
    assert_eq!(emote.height, None);
    assert!(!emote.is_probed());
}

#[test]
fn png_is_still_and_gif_and_webp_are_animated() {
    assert!(!ImageFormat::Png.is_animated());
    assert!(ImageFormat::Gif.is_animated());
    assert!(ImageFormat::WebP.is_animated());
    assert!(!ImageFormat::Jpeg.is_animated());
    assert!(!ImageFormat::Bmp.is_animated());
    assert!(!ImageFormat::Other.is_animated());
}

#[test]
fn only_png_gif_and_webp_are_expected() {
    assert!(ImageFormat::Png.is_expected());
    assert!(ImageFormat::Gif.is_expected());
    assert!(ImageFormat::WebP.is_expected());
    assert!(!ImageFormat::Jpeg.is_expected());
    assert!(!ImageFormat::Bmp.is_expected());
    assert!(!ImageFormat::Other.is_expected());
}

#[test]
fn the_fallback_has_no_size_and_is_still() {
    let meta = EmoteMeta::fallback();
    assert_eq!(meta, EmoteMeta { width: 0, height: 0, format: ImageFormat::Png });
    assert!(!meta.format.is_animated());
}

#[test]
fn a_probe_fills_size_and_format_in() {
    let mut emote = unprobed();
    let changed = emote.apply_probe(EmoteMeta { width: 112, height: 56, format: ImageFormat::Gif });
    assert!(changed);
    assert!(emote.is_probed());
    assert_eq!(emote.width, Some(112));
    assert_eq!(emote.height, Some(56));
    assert_eq!(emote.format, Some(ImageFormat::Gif));
    assert!(emote.animated);
    assert_eq!(emote.name, "Kappa");
    assert_eq!(emote.id, "25");
}

#[test]
fn a_probe_corrects_the_animation_hint() {
    let mut emote = unprobed();
    emote.animated = true;
    emote.apply_probe(EmoteMeta { width: 28, height: 28, format: ImageFormat::Png });
    assert!(!emote.animated);
    let mut other = unprobed();
    other.apply_probe(EmoteMeta { width: 28, height: 28, format: ImageFormat::Jpeg });
    assert!(!other.animated);
    assert_eq!(other.format, Some(ImageFormat::Jpeg));
}

#[test]
fn a_probed_emote_is_not_probed_again() {
    let mut emote = unprobed();
    emote.apply_probe(EmoteMeta { width: 112, height: 56, format: ImageFormat::Gif });
    let changed = emote.apply_probe(EmoteMeta { width: 1, height: 2, format: ImageFormat::Png });
    assert!(!changed);
    assert_eq!(emote.width, Some(112));
    assert_eq!(emote.height, Some(56));
    assert_eq!(emote.format, Some(ImageFormat::Gif));
    assert!(emote.animated);
}

#[test]
fn a_clone_is_the_same_emote() {
    let mut emote = unprobed();
    emote.apply_probe(EmoteMeta { width: 3, height: 4, format: ImageFormat::WebP });
    let copy = emote.clone();
    assert_eq!(copy.id, emote.id);
    assert_eq!(copy.name, emote.name);
    assert_eq!(copy.animated, emote.animated);
    assert_eq!(copy.emote_url, emote.emote_url);
    assert_eq!(copy.source, emote.source);
    assert_eq!(copy.format, emote.format);
    assert_eq!(copy.width, emote.width);
    assert_eq!(copy.height, emote.height);
}

#[test]
fn a_loaded_animation_holds_the_animated_handle_only() {
    let mut emote = unprobed();
    emote.animated = true;
    let handle = Handle { slot: 4, strong: true };
    let loaded = emote.add_animated(handle);
    assert_eq!(loaded.name, "Kappa");
    assert!(loaded.animated);
    assert_eq!(loaded.animated_image, Some(handle));
    assert_eq!(loaded.static_image, None);
    assert_eq!(loaded.handle(), Some(handle));
}

#[test]
fn a_loaded_still_image_holds_the_static_handle_only() {
    let emote = unprobed();
    let handle = Handle { slot: 9, strong: true };
    let loaded = emote.add_static(handle);
    assert_eq!(loaded.name, "Kappa");
    assert!(!loaded.animated);
    assert_eq!(loaded.animated_image, None);
    assert_eq!(loaded.static_image, Some(handle));
    assert_eq!(loaded.handle(), Some(handle));
}

#[test]
fn a_weak_clone_points_at_the_same_asset() {
    let handle = Handle { slot: 7, strong: true };
    assert_eq!(handle.clone_weak(), Handle { slot: 7, strong: false });
    assert_eq!(handle.clone_weak().clone_weak(), Handle { slot: 7, strong: false });
}
