use chat_overlay::emote::{Emote, EmoteMeta, ImageFormat};
use chat_overlay::probe::{meta_or_fallback, probe_bytes, probe_response, ProbeLog, PREFIX_LAST_BYTE};
use chat_overlay::session::pending_probes;

const PNG_3_BY_2: [u8; 68] = [
    137, 80, 78, 71, 13, 10, 26, 10, 0, 0, 0, 13, 73, 72, 68, 82, 0, 0, 0, 3, 0, 0, 0, 2, 8, 2, 0,
    0, 0, 18, 22, 241, 77, 0, 0, 0, 11, 73, 68, 65, 84, 120, 156, 99, 96, 192, 4, 0, 0, 20, 0, 1,
    125, 254, 30, 238, 0, 0, 0, 0, 73, 69, 78, 68, 174, 66, 96, 130,
];

const GIF_5_BY_7: [u8; 35] = [
    71, 73, 70, 56, 57, 97, 5, 0, 7, 0, 128, 0, 0, 0, 0, 0, 255, 255, 255, 44, 0, 0, 0, 0, 1, 0,
    1, 0, 0, 2, 2, 68, 1, 0, 59,
];

const WEBP_64_BY_48: [u8; 30] = [
    82, 73, 70, 70, 22, 0, 0, 0, 87, 69, 66, 80, 86, 80, 56, 32, 10, 0, 0, 0, 0, 0, 0, 157, 1,
    42, 64, 0, 48, 0,
];

#[test]
fn a_png_header_gives_size_and_format() {
    assert_eq!(
        probe_bytes(&PNG_3_BY_2),
        EmoteMeta { width: 3, height: 2, format: ImageFormat::Png }
    );
}

#[test]
fn a_gif_header_gives_size_and_format() {
    assert_eq!(
        probe_bytes(&GIF_5_BY_7),
        EmoteMeta { width: 5, height: 7, format: ImageFormat::Gif }
    );
}

#[test]
fn a_webp_header_gives_size_and_format() {
    assert_eq!(
        probe_bytes(&WEBP_64_BY_48),
        EmoteMeta { width: 64, height: 48, format: ImageFormat::WebP }
    );
}

#[test]
fn bytes_that_are_no_image_give_the_fallback() {
    assert_eq!(probe_bytes(b"<html>not found</html>"), EmoteMeta::fallback());
    assert_eq!(probe_bytes(&[]), EmoteMeta::fallback());
    assert_eq!(probe_bytes(&[0; 64]), EmoteMeta::fallback());
}

#[test]
fn a_header_that_breaks_off_gives_the_fallback() {
    assert_eq!(probe_bytes(&PNG_3_BY_2[..20]), EmoteMeta::fallback());
    assert_eq!(probe_bytes(&PNG_3_BY_2[..8]), EmoteMeta::fallback());
    assert_eq!(probe_bytes(&GIF_5_BY_7[..6]), EmoteMeta::fallback());
    assert_eq!(probe_bytes(&WEBP_64_BY_48[..12]), EmoteMeta::fallback());
}

#[test]
fn a_format_without_decoder_gives_the_fallback() {
    assert_eq!(probe_bytes(b"qoif\0\0\0\x01\0\0\0\x01\x03\0"), EmoteMeta::fallback());
}

#[test]
fn a_request_that_failed_gives_the_fallback() {
    let meta = probe_response(None);
    assert_eq!(meta, EmoteMeta { width: 0, height: 0, format: ImageFormat::Png });
    assert!(!meta.format.is_animated());
}

#[test]
fn a_request_that_brought_bytes_is_probed() {
    assert_eq!(
        probe_response(Some(&GIF_5_BY_7)),
        EmoteMeta { width: 5, height: 7, format: ImageFormat::Gif }
    );
    assert_eq!(probe_response(Some(b"nothing")), EmoteMeta::fallback());
}

#[test]
fn a_header_that_was_read_is_the_result() {
    let meta = EmoteMeta { width: 9, height: 8, format: ImageFormat::Jpeg };
    assert_eq!(meta_or_fallback(Some(meta)), meta);
    assert_eq!(meta_or_fallback(None), EmoteMeta::fallback());
}

#[test]
fn the_prefix_is_a_few_kilobytes() {
    assert_eq!(PREFIX_LAST_BYTE, 8096);
}

#[test]
fn a_probed_gif_makes_the_emote_animated() {
    let mut emote = Emote::from_twitch("1", "Dance");
    emote.apply_probe(probe_bytes(&GIF_5_BY_7));
    assert!(emote.animated);
    assert_eq!(emote.width, Some(5));
    assert_eq!(emote.height, Some(7));
}

#[test]
fn a_name_is_sighted_first_only_once() {
    let mut log = ProbeLog::new();
    assert!(!log.contains("Kappa"));
    assert!(log.first_sighting("Kappa"));
    assert!(log.contains("Kappa"));
    assert!(!log.first_sighting("Kappa"));
    assert!(!log.first_sighting("Kappa"));
    assert!(log.first_sighting("kappa"));
    assert!(log.first_sighting("LUL"));
    assert!(!log.first_sighting("LUL"));
}

#[test]
fn each_new_name_of_a_message_is_probed_once() {
    let mut log = ProbeLog::new();
    log.first_sighting("LUL");
    let emotes = vec![
        Emote::from_twitch("1", "Kappa"),
        Emote::from_twitch("2", "LUL"),
        Emote::from_twitch("1", "Kappa"),
        Emote::from_twitch("3", "Pog"),
    ];
    assert_eq!(pending_probes(&mut log, &emotes), vec![0, 3]);
    assert!(log.contains("Kappa"));
    assert!(log.contains("Pog"));
    assert_eq!(pending_probes(&mut log, &emotes), Vec::<usize>::new());
    assert_eq!(pending_probes(&mut log, &Vec::new()), Vec::<usize>::new());
}
