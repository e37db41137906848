use chat_overlay::catalog::Catalog;
use chat_overlay::emote::{Emote, EmoteSource, ImageFormat};
use chat_overlay::seventv::{
    emotes_from_response, widest_webp_file, RawSevenTVEmote, SevenTVEmote, SevenTVEmoteBundle,
    SevenTVEmoteFile, SevenTVEmoteHost, SevenTVEmoteSet, SevenTVResponse, FALLBACK_URL,
};

fn file(name: &str, width: u32, height: u32) -> SevenTVEmoteFile {
    SevenTVEmoteFile {
        name: String::from(name),
        static_name: format!("static_{}", name),
        width,
        height,
    }
}

fn raw(name: &str, animated: bool, files: Vec<SevenTVEmoteFile>) -> RawSevenTVEmote {
    RawSevenTVEmote {
        id: format!("id-{}", name),
        name: String::from(name),
        animated,
        host: SevenTVEmoteHost { url: String::from("//cdn.7tv.app/emote/abc"), files },
    }
}

fn usual_files() -> Vec<SevenTVEmoteFile> {
    vec![
        file("1x.webp", 32, 30),
        file("4x.avif", 200, 190),
        file("4x.webp", 128, 120),
        file("2x.webp", 64, 60),
    ]
}

#[test]
fn the_widest_webp_file_is_chosen() {
    assert_eq!(widest_webp_file(&usual_files()), Some(2));
}

#[test]
fn of_equally_wide_webp_files_the_last_is_chosen() {
    let files = vec![file("a.webp", 64, 1), file("b.webp", 64, 2), file("c.webp", 10, 3)];
    assert_eq!(widest_webp_file(&files), Some(1));
}

#[test]
fn files_that_are_not_webp_are_passed_over() {
    let files = vec![file("4x.avif", 128, 128), file("4x.png", 128, 128), file("webp", 1, 1)];
    assert_eq!(widest_webp_file(&files), None);
    assert_eq!(widest_webp_file(&Vec::new()), None);
}

#[test]
fn a_provider_emote_points_at_its_widest_webp_file() {
    let emote = Emote::from(raw("peepoHappy", false, usual_files()));
    assert_eq!(emote.id, "id-peepoHappy");
    assert_eq!(emote.name, "peepoHappy");
    assert!(!emote.animated);
    assert_eq!(emote.emote_url, "https://cdn.7tv.app/emote/abc/4x.webp");
    assert_eq!(emote.source, EmoteSource::SevenTV);
    assert_eq!(emote.format, Some(ImageFormat::WebP));
    assert_eq!(emote.width, Some(128));
    assert_eq!(emote.height, Some(120));
}

#[test]
fn a_provider_emote_keeps_the_declared_animation_flag() {
    let emote = Emote::from(raw("catJAM", true, usual_files()));
    assert!(emote.animated);
}

#[test]
fn a_provider_emote_without_webp_is_the_fallback_image() {
    let emote = Emote::from(raw("lost", false, vec![file("4x.avif", 128, 128)]));
    assert_eq!(emote.id, "id-lost");
    assert_eq!(emote.name, "lost");
    assert!(emote.animated);
    assert_eq!(emote.emote_url, FALLBACK_URL);
    assert_eq!(emote.emote_url, "https://cdn.7tv.app/emote/63384017cf7eb48c4e731a79/4x.webp");
    assert_eq!(emote.format, Some(ImageFormat::WebP));
    assert_eq!(emote.width, Some(128));
    assert_eq!(emote.height, Some(128));
}

#[test]
fn the_gif_address_replaces_the_webp_ending() {
    let emote = SevenTVEmote::from(raw("peepoHappy", false, usual_files()));
    assert_eq!(emote.id, "id-peepoHappy");
    assert_eq!(emote.name, "peepoHappy");
    assert_eq!(emote.emote_url, "https://cdn.7tv.app/emote/abc/4x.gif");
}

#[test]
fn the_gif_address_replaces_every_webp_in_the_name() {
    let emote = SevenTVEmote::from(raw("odd", false, vec![file("a.webp.b.webp", 1, 1)]));
    assert_eq!(emote.emote_url, "https://cdn.7tv.app/emote/abc/a.gif.b.gif");
}

#[test]
fn the_gif_address_without_webp_is_the_fallback_image() {
    let emote = SevenTVEmote::from(raw("lost", false, Vec::new()));
    assert_eq!(emote.emote_url, FALLBACK_URL);
}

fn response(names: &[&str]) -> SevenTVResponse {
    SevenTVResponse {
        emote_set: SevenTVEmoteSet {
            emotes: names
                .iter()
                .map(|name| SevenTVEmoteBundle { data: raw(name, name.len() % 2 == 0, usual_files()) })
                .collect(),
        },
    }
}

#[test]
fn an_answer_becomes_one_entry_for_each_emote() {
    let emotes = emotes_from_response(response(&["a", "bb", "ccc"]));
    assert_eq!(emotes.len(), 3);
    assert_eq!(emotes[0].name, "a");
    assert_eq!(emotes[1].name, "bb");
    assert_eq!(emotes[2].name, "ccc");
    assert!(!emotes[0].animated);
    assert!(emotes[1].animated);
    assert_eq!(emotes[2].emote_url, "https://cdn.7tv.app/emote/abc/4x.webp");
}

#[test]
fn seeding_keeps_every_record_of_an_answer() {
    let names = ["peepoHappy", "catJAM", "OMEGALUL", "Clap", "EZ"];
    let emotes = emotes_from_response(response(&names));
    let mut catalog = Catalog::new();
    catalog.seed(&emotes);
    assert_eq!(catalog.len(), names.len());
    for name in names {
        let entry = catalog.lookup(name).unwrap();
        assert_eq!(entry.name, name);
        assert_eq!(entry.animated, name.len() % 2 == 0);
        assert_eq!(entry.emote_url, "https://cdn.7tv.app/emote/abc/4x.webp");
        assert_eq!(entry.id, format!("id-{}", name));
    }
    assert!(catalog.lookup("Kappa").is_none());
}
