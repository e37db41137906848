use chat_overlay::cache::AssetCache;
use chat_overlay::catalog::Catalog;
use chat_overlay::config::Config;
use chat_overlay::emote::{Emote, EmoteMeta, EmoteSource, Handle, ImageFormat};
use chat_overlay::layout::{
    backdrop, layout_message, layout_tokens, Rgba, BOX_PADDING, SINGLE_EMOTE_RISE,
    SINGLE_EMOTE_SCALE,
};
use chat_overlay::text::split_tokens;
use chat_overlay::token::{classify, Token};
use chat_overlay::wrap::{columns_of, scale_of, wrap_tokens};

fn sized(name: &str, width: u32, height: u32, animated: bool) -> Emote {
    Emote {
        id: format!("id-{}", name),
        name: String::from(name),
        animated,
        emote_url: format!("https://example.org/{}", name),
        source: EmoteSource::Twitch,
        format: Some(if animated { ImageFormat::Gif } else { ImageFormat::Png }),
        width: Some(width),
        height: Some(height),
    }
}

fn catalog() -> Catalog {
    let mut catalog = Catalog::new();
    catalog.ensure(sized("PogChamp", 64, 64, false));
    catalog.ensure(sized("catJAM", 128, 64, true));
    catalog.ensure(sized("Broken", 0, 0, false));
    catalog.ensure(Emote::from_twitch("7", "Unprobed"));
    catalog
}

fn config(box_pixels: u64) -> Config {
    Config::new(20_000_000, 1_700_000, box_pixels * 1_000_000, 0).unwrap()
}

fn texts(layout: &chat_overlay::layout::MessageLayout) -> Vec<String> {
    layout.segments.iter().map(|segment| segment.text.clone()).collect()
}

#[test]
fn words_around_an_emote_share_one_line() {
    let cfg = config(200);
    let mut cache = AssetCache::new();
    let layout = layout_message("gg PogChamp gg", &catalog(), &mut cache, &cfg);
    assert_eq!(layout.token_count, 3);
    assert_eq!(layout.line_count, 1);
    assert_eq!(texts(&layout), vec!["gg    gg "]);
    assert_eq!(layout.placements.len(), 1);
    let placement = &layout.placements[0];
    assert_eq!(placement.name, "PogChamp");
    assert_eq!(placement.scale, 371_875);
    assert_eq!(placement.x, 42_210_000);
    assert_eq!(placement.y, -9_100_000);
    assert!(!placement.animated);
    assert_eq!(placement.handle, Handle { slot: 0, strong: true });
    assert_eq!(cache.len(), 1);
}

#[test]
fn an_emote_of_64_pixels_covers_three_columns() {
    let cfg = config(200);
    let emote = sized("PogChamp", 64, 64, false);
    assert_eq!(scale_of(&cfg, &emote), 371_875);
    assert_eq!(columns_of(&cfg, &emote), 3);
}

#[test]
fn columns_round_up() {
    let cfg = config(200);
    assert_eq!(columns_of(&cfg, &sized("wide", 128, 64, false)), 6);
    assert_eq!(columns_of(&cfg, &sized("thin", 1, 64, false)), 1);
    assert_eq!(columns_of(&cfg, &sized("none", 0, 64, false)), 0);
    let unit = Config::new(1_000_000, 1_000_000, 0, 0).unwrap();
    assert_eq!(unit.font_width(), 469_000);
    assert_eq!(scale_of(&unit, &sized("even", 469, 700_000, false)), 1);
    assert_eq!(columns_of(&unit, &sized("even", 469_000, 700_000, false)), 1);
    assert_eq!(columns_of(&unit, &sized("over", 469_001, 700_000, false)), 2);
}

#[test]
fn scale_divides_the_drawn_height_by_the_natural_height() {
    let cfg = config(200);
    assert_eq!(scale_of(&cfg, &sized("a", 1, 1, false)), 23_800_000);
    assert_eq!(scale_of(&cfg, &sized("b", 1, 28, false)), 850_000);
    assert_eq!(scale_of(&cfg, &sized("c", 1, 3, false)), 7_933_333);
    assert_eq!(scale_of(&cfg, &sized("d", 1, u32::MAX, false)), 0);
}

#[test]
fn an_emote_without_height_has_scale_zero() {
    let cfg = config(200);
    assert_eq!(scale_of(&cfg, &sized("Broken", 50, 0, false)), 0);
    assert_eq!(columns_of(&cfg, &sized("Broken", 50, 0, false)), 0);
    let unprobed = Emote::from_twitch("7", "Unprobed");
    assert_eq!(scale_of(&cfg, &unprobed), 0);
    assert_eq!(columns_of(&cfg, &unprobed), 0);
}

#[test]
fn segments_carry_the_text_style() {
    let cfg = config(200);
    let mut cache = AssetCache::new();
    let layout = layout_message("hello world", &catalog(), &mut cache, &cfg);
    assert_eq!(layout.segments.len(), 1);
    assert_eq!(layout.segments[0].style.font_size, 20_000_000);
    assert_eq!(
        layout.segments[0].style.color,
        Rgba { red: 255, green: 255, blue: 255, alpha: 255 }
    );
}

#[test]
fn words_that_fit_stay_on_line_zero_single_spaced() {
    let cfg = config(200);
    let mut cache = AssetCache::new();
    let layout = layout_message("  the   quick\tbrown fox ", &catalog(), &mut cache, &cfg);
    assert_eq!(layout.line_count, 1);
    assert_eq!(layout.token_count, 4);
    assert_eq!(texts(&layout), vec!["the quick brown fox "]);
    assert!(layout.placements.is_empty());
    assert_eq!(cache.len(), 0);
}

#[test]
fn a_word_that_does_not_fit_opens_a_new_line() {
    let cfg = config(100);
    let mut cache = AssetCache::new();
    let layout = layout_message("hello world foo", &catalog(), &mut cache, &cfg);
    assert_eq!(texts(&layout), vec!["hello ", "world foo "]);
    assert_eq!(layout.line_count, 2);
    assert_eq!(layout.token_count, 3);
}

#[test]
fn a_line_may_be_exactly_as_wide_as_the_box() {
    let exact = Config::new(20_000_000, 1_700_000, 56_280_000, 0).unwrap();
    let mut cache = AssetCache::new();
    let layout = layout_message("ab cd", &catalog(), &mut cache, &exact);
    assert_eq!(texts(&layout), vec!["ab cd "]);
    assert_eq!(layout.line_count, 1);
    let narrower = Config::new(20_000_000, 1_700_000, 56_279_999, 0).unwrap();
    let layout = layout_message("ab cd", &catalog(), &mut cache, &narrower);
    assert_eq!(texts(&layout), vec!["ab ", "cd "]);
    assert_eq!(layout.line_count, 2);
}

#[test]
fn the_width_of_a_word_counts_its_bytes() {
    let seven_columns = Config::new(20_000_000, 1_700_000, 7 * 9_380_000, 0).unwrap();
    let mut cache = AssetCache::new();
    let layout = layout_message("ab cde", &catalog(), &mut cache, &seven_columns);
    assert_eq!(texts(&layout), vec!["ab cde "]);
    let layout = layout_message("ab cdé", &catalog(), &mut cache, &seven_columns);
    assert_eq!(texts(&layout), vec!["ab ", "cdé "]);
}

#[test]
fn a_word_wider_than_the_box_stands_alone_and_whole() {
    let cfg = config(50);
    let mut cache = AssetCache::new();
    let layout = layout_message("hi incomprehensibilities yo", &catalog(), &mut cache, &cfg);
    assert_eq!(texts(&layout), vec!["hi ", "incomprehensibilities ", "yo "]);
    assert_eq!(layout.line_count, 3);
}

#[test]
fn a_first_word_wider_than_the_box_still_advances_the_line() {
    let cfg = config(50);
    let mut cache = AssetCache::new();
    let layout = layout_message("incomprehensibilities", &catalog(), &mut cache, &cfg);
    assert_eq!(texts(&layout), vec!["incomprehensibilities "]);
    assert_eq!(layout.line_count, 2);
    assert_eq!(layout.token_count, 1);
    assert!(layout.background.is_some());
}

#[test]
fn an_emote_wider_than_the_box_stands_alone() {
    let cfg = config(20);
    let mut cache = AssetCache::new();
    let layout = layout_message("a PogChamp b", &catalog(), &mut cache, &cfg);
    assert_eq!(texts(&layout), vec!["a ", "   ", "b "]);
    assert_eq!(layout.line_count, 3);
    assert_eq!(layout.placements.len(), 1);
    assert_eq!(layout.placements[0].x, 28_140_000 - 14_070_000);
    assert_eq!(layout.placements[0].y, -20_020_000 - 9_100_000);
}

#[test]
fn an_emote_on_the_second_line_sits_one_pitch_lower() {
    let cfg = config(100);
    let mut cache = AssetCache::new();
    let layout = layout_message("hello world PogChamp", &catalog(), &mut cache, &cfg);
    assert_eq!(texts(&layout), vec!["hello ", "world    "]);
    assert_eq!(layout.placements.len(), 1);
    assert_eq!(layout.placements[0].x, 70_350_000);
    assert_eq!(layout.placements[0].y, -29_120_000);
    assert_eq!(layout.line_count, 2);
}

#[test]
fn a_known_name_gets_a_placement_and_placeholder_spaces_only() {
    let cfg = config(200);
    let mut cache = AssetCache::new();
    let layout = layout_message("PogChamp catJAM", &catalog(), &mut cache, &cfg);
    assert_eq!(texts(&layout), vec!["         "]);
    assert_eq!(layout.placements.len(), 2);
    assert_eq!(layout.placements[0].name, "PogChamp");
    assert_eq!(layout.placements[1].name, "catJAM");
    assert!(!layout.placements[0].animated);
    assert!(layout.placements[1].animated);
    assert_eq!(layout.placements[0].x, 14_070_000);
    assert_eq!(layout.placements[1].x, 9 * 9_380_000 - 3 * 9_380_000);
    assert_eq!(layout.placements[1].scale, 371_875);
    assert_eq!(layout.token_count, 2);
}

#[test]
fn names_are_matched_exactly() {
    let cfg = config(300);
    let mut cache = AssetCache::new();
    let layout = layout_message("pogchamp PogChamp! PogChamps", &catalog(), &mut cache, &cfg);
    assert!(layout.placements.is_empty());
    assert_eq!(texts(&layout), vec!["pogchamp PogChamp! PogChamps "]);
    assert_eq!(cache.len(), 0);
}

#[test]
fn a_lone_emote_is_drawn_large_without_text_or_box() {
    let cfg = config(200);
    let mut cache = AssetCache::new();
    let layout = layout_message("PogChamp", &catalog(), &mut cache, &cfg);
    assert_eq!(layout.placements.len(), 1);
    assert!(layout.segments.is_empty());
    assert!(layout.background.is_none());
    assert_eq!(layout.token_count, 1);
    assert_eq!(layout.line_count, 1);
    let placement = &layout.placements[0];
    assert_eq!(placement.name, "PogChamp");
    assert_eq!(placement.scale, SINGLE_EMOTE_SCALE);
    assert_eq!(placement.scale, 450_000);
    assert_eq!(placement.x, 0);
    assert_eq!(placement.y, SINGLE_EMOTE_RISE);
    assert_eq!(placement.y, 50_000_000);
    assert_eq!(placement.handle, Handle { slot: 0, strong: true });
    assert_eq!(cache.len(), 1);
}

#[test]
fn whitespace_around_a_lone_emote_does_not_count() {
    let cfg = config(200);
    let mut cache = AssetCache::new();
    let layout = layout_message("  catJAM \n", &catalog(), &mut cache, &cfg);
    assert_eq!(layout.placements.len(), 1);
    assert!(layout.segments.is_empty());
    assert!(layout.background.is_none());
    assert!(layout.placements[0].animated);
    assert_eq!(layout.placements[0].scale, 450_000);
}

#[test]
fn a_lone_emote_without_size_is_drawn_large_too() {
    let cfg = config(200);
    let mut cache = AssetCache::new();
    let layout = layout_message("Broken", &catalog(), &mut cache, &cfg);
    assert_eq!(layout.placements.len(), 1);
    assert!(layout.segments.is_empty());
    assert!(layout.background.is_none());
    assert_eq!(layout.placements[0].scale, 450_000);
}

#[test]
fn a_lone_word_gets_a_box() {
    let cfg = config(200);
    let mut cache = AssetCache::new();
    let layout = layout_message("hello", &catalog(), &mut cache, &cfg);
    assert_eq!(texts(&layout), vec!["hello "]);
    assert!(layout.placements.is_empty());
    assert!(layout.background.is_some());
}

#[test]
fn the_same_emote_twice_is_no_lone_emote() {
    let cfg = config(200);
    let mut cache = AssetCache::new();
    let layout = layout_message("PogChamp PogChamp", &catalog(), &mut cache, &cfg);
    assert_eq!(layout.placements.len(), 2);
    assert_eq!(texts(&layout), vec!["      "]);
    assert!(layout.background.is_some());
    assert_eq!(layout.placements[0].handle, Handle { slot: 0, strong: true });
    assert_eq!(layout.placements[1].handle, Handle { slot: 0, strong: false });
    assert_eq!(layout.placements[0].x, 14_070_000);
    assert_eq!(layout.placements[1].x, 42_210_000);
    assert_eq!(layout.placements[0].scale, 371_875);
    assert_eq!(cache.len(), 1);
}

#[test]
fn an_emote_is_loaded_once_over_many_messages() {
    let cfg = config(200);
    let catalog = catalog();
    let mut cache = AssetCache::new();
    let first = layout_message("look PogChamp", &catalog, &mut cache, &cfg);
    let second = layout_message("PogChamp again catJAM", &catalog, &mut cache, &cfg);
    let third = layout_message("catJAM PogChamp", &catalog, &mut cache, &cfg);
    assert_eq!(cache.len(), 2);
    assert_eq!(first.placements[0].handle, Handle { slot: 0, strong: true });
    assert_eq!(second.placements[0].handle, Handle { slot: 0, strong: false });
    assert_eq!(second.placements[1].handle, Handle { slot: 1, strong: true });
    assert_eq!(third.placements[0].handle, Handle { slot: 1, strong: false });
    assert_eq!(third.placements[1].handle, Handle { slot: 0, strong: false });
}

#[test]
fn an_emote_whose_probe_failed_gets_a_placement_of_scale_zero() {
    let cfg = config(200);
    let mut catalog = Catalog::new();
    let mut emote = Emote::from_twitch("404", "Gone");
    emote.apply_probe(EmoteMeta::fallback());
    catalog.ensure(emote);
    let mut cache = AssetCache::new();
    let layout = layout_message("a Gone b", &catalog, &mut cache, &cfg);
    assert_eq!(texts(&layout), vec!["a b "]);
    assert_eq!(layout.placements.len(), 1);
    assert_eq!(layout.placements[0].scale, 0);
    assert_eq!(layout.placements[0].x, 18_760_000);
    assert_eq!(layout.placements[0].y, -9_100_000);
    assert!(!layout.placements[0].animated);
    assert_eq!(layout.token_count, 3);
}

#[test]
fn an_unprobed_emote_gets_a_placement_of_scale_zero() {
    let cfg = config(200);
    let mut cache = AssetCache::new();
    let layout = layout_message("Unprobed Broken ok", &catalog(), &mut cache, &cfg);
    assert_eq!(texts(&layout), vec!["ok "]);
    assert_eq!(layout.placements.len(), 2);
    assert_eq!(layout.placements[0].scale, 0);
    assert_eq!(layout.placements[1].scale, 0);
    assert_eq!(layout.placements[0].x, 0);
    assert_eq!(layout.line_count, 1);
}

#[test]
fn a_line_of_emotes_without_size_leaves_no_segment() {
    let cfg = config(200);
    let mut cache = AssetCache::new();
    let layout = layout_message("Broken Unprobed", &catalog(), &mut cache, &cfg);
    assert!(layout.segments.is_empty());
    assert_eq!(layout.placements.len(), 2);
    assert_eq!(layout.line_count, 1);
    assert!(layout.background.is_some());
}

#[test]
fn an_empty_message_is_an_empty_box() {
    let cfg = config(200);
    let mut cache = AssetCache::new();
    let layout = layout_message("", &catalog(), &mut cache, &cfg);
    assert!(layout.segments.is_empty());
    assert!(layout.placements.is_empty());
    assert_eq!(layout.token_count, 0);
    assert_eq!(layout.line_count, 1);
    let background = layout.background.unwrap();
    assert_eq!(background.height, 32_120_000);
}

#[test]
fn the_box_holds_every_line_the_margin_and_the_padding() {
    let cfg = Config::new(20_000_000, 1_700_000, 200_000_000, 30_000_000).unwrap();
    let one = backdrop(&cfg, 0);
    assert_eq!(one.width, 200_000_000);
    assert_eq!(one.height, 20_020_000 + 2_100_000 + BOX_PADDING as i128);
    assert_eq!(one.height, 32_120_000);
    assert_eq!(one.x, -100_000_000);
    assert_eq!(one.y, 62_120_000);
    let three = backdrop(&cfg, 2);
    assert_eq!(three.height, 3 * 20_020_000 + 12_100_000);
    assert_eq!(three.y, 30_000_000 + 72_160_000);
}

#[test]
fn the_box_of_a_layout_follows_its_last_line() {
    let cfg = Config::new(20_000_000, 1_700_000, 100_000_001, -7_000_000).unwrap();
    let mut cache = AssetCache::new();
    let layout = layout_message("hello world foo", &catalog(), &mut cache, &cfg);
    let background = layout.background.unwrap();
    assert_eq!(layout.line_count, 2);
    assert_eq!(background.width, 100_000_001);
    assert_eq!(background.height, 2 * 20_020_000 + 12_100_000);
    assert_eq!(background.x, -50_000_000);
    assert_eq!(background.y, -7_000_000 + 52_140_000);
}

#[test]
fn the_steps_of_a_layout_can_be_taken_one_by_one() {
    let cfg = config(100);
    let list = classify(&catalog(), split_tokens("hello world PogChamp"));
    assert_eq!(list.len(), 3);
    assert!(matches!(&list[0], Token::Word(text) if text == "hello"));
    assert!(matches!(&list[2], Token::Emote(emote) if emote.name == "PogChamp"));
    let wrapping = wrap_tokens(&cfg, &list);
    assert_eq!(wrapping.segments, vec!["hello ", "world    "]);
    assert_eq!(wrapping.line_number, 1);
    assert_eq!(wrapping.drafts.len(), 1);
    assert_eq!(wrapping.drafts[0].token, 2);
    assert_eq!(wrapping.drafts[0].x, 70_350_000);
    assert_eq!(wrapping.drafts[0].y, -29_120_000);
    assert_eq!(wrapping.drafts[0].scale, 371_875);
    let mut cache = AssetCache::new();
    let layout = layout_tokens(&cfg, &list, &mut cache);
    assert_eq!(layout.placements.len(), 1);
    assert_eq!(layout.line_count, 2);
}

#[test]
fn a_very_long_word_does_not_overflow() {
    let cfg = Config::new(1_000_000_000_000, 1_000_000_000_000, 1_000_000_000_000, 0).unwrap();
    let mut catalog = Catalog::new();
    catalog.ensure(sized("Huge", u32::MAX, 1, false));
    let mut cache = AssetCache::new();
    let word = "x".repeat(10_000);
    let layout = layout_message(&format!("a {} b", word), &catalog, &mut cache, &cfg);
    assert_eq!(layout.line_count, 3);
    assert_eq!(layout.segments.len(), 3);
    assert_eq!(layout.segments[1].text.len(), 10_001);
    assert_eq!(scale_of(&cfg, &sized("Huge", u32::MAX, 1, false)), 700_000_000_000_000_000);
}
