use archiver::batch::{direct_resolver, matches_or_error, BatchResolver};
use archiver::error::Error;
use archiver::matcher::{channel_regex, ids_from_input, regex_helper, split_videos};
use archiver::platform::{chat_ext, patterns_for, VideoType};

#[test]
fn split_trims_every_token() {
    assert_eq!(split_videos(" 123 , abc,"), vec!["123", "abc", ""]);
    assert_eq!(split_videos(""), vec![""]);
    assert_eq!(split_videos("a"), vec!["a"]);
}

#[test]
fn vod_ids_from_bare_ids_and_links() {
    let ids = ids_from_input(
        "123, https://www.twitch.tv/videos/456?t=1h, twitch.tv/videos/789, nope",
        VideoType::Vod,
    );
    assert_eq!(ids, vec!["123", "456", "789"]);
}

#[test]
fn clip_ids_from_slugs_and_clip_links() {
    let ids = ids_from_input(
        "FunnySlug-abc, https://clips.twitch.tv/OtherSlug, https://www.twitch.tv/someone/clip/ThirdSlug-x?f=1",
        VideoType::Clip,
    );
    assert_eq!(ids, vec!["FunnySlug-abc", "OtherSlug", "ThirdSlug-x"]);
}

#[test]
fn youtube_ids_from_ids_and_links() {
    let ids = ids_from_input(
        "dQw4w9WgXcQ, https://www.youtube.com/watch?v=abcdefghijk, https://youtu.be/ABCDEFGHIJK, tooshort",
        VideoType::YouTube,
    );
    assert_eq!(ids, vec!["dQw4w9WgXcQ", "abcdefghijk", "ABCDEFGHIJK"]);
}

#[test]
fn unmatched_input_resolves_to_nothing_and_makes_no_request() {
    let ids = ids_from_input("not an id!, ???, https://example.com/x", VideoType::Vod);
    assert!(ids.is_empty());
    let mut resolver: BatchResolver<u32> =
        direct_resolver("not an id!, ???", VideoType::Vod, String::new());
    assert_eq!(resolver.next_request(), None);
    assert_eq!(matches_or_error(resolver.items), Err(Error::NoMatches));
}

#[test]
fn first_matching_pattern_wins() {
    let patterns = patterns_for(VideoType::Vod);
    assert_eq!(regex_helper("42", &patterns), Ok("42".to_string()));
    assert_eq!(
        regex_helper("https://twitch.tv/videos/77", &patterns),
        Ok("77".to_string())
    );
    assert_eq!(regex_helper("abc", &patterns), Err(Error::NoRegexMatch));
}

#[test]
fn numeric_channel_names() {
    assert!(channel_regex("12345"));
    assert!(!channel_regex("streamer"));
    assert!(!channel_regex(""));
}

#[test]
fn chat_extensions() {
    assert_eq!(chat_ext(VideoType::Vod), ".ssa");
    assert_eq!(chat_ext(VideoType::Highlight), ".ssa");
    assert_eq!(chat_ext(VideoType::Clip), ".chat.json");
    assert_eq!(chat_ext(VideoType::YouTube), ".chat.json");
}
