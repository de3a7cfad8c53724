use archiver::records::{drop_processing, Clip, MutedSegment, Video};
use archiver::youtube::{
    channel_patterns, channel_requests, default_lang, keep_available, oembed_request, past_video,
    playlist_from_lookup, YtContentDetails, YtSnippet, YtStatistics, YtThumbnail, YtThumbnails, YtVideo,
};
use archiver::matcher::regex_helper;

fn video(id: &str, thumb: &str) -> Video {
    Video {
        id: id.to_string(),
        stream_id: None,
        user_id: "u".to_string(),
        user_login: "login".to_string(),
        user_name: "Name".to_string(),
        title: "Title".to_string(),
        description: String::new(),
        created_at: "c".to_string(),
        published_at: "p".to_string(),
        url: "url".to_string(),
        thumbnail_url: thumb.to_string(),
        viewable: "public".to_string(),
        view_count: 7,
        language: "en".to_string(),
        video_type: "archive".to_string(),
        duration: "1h".to_string(),
        muted_segments: Some(vec![MutedSegment { duration: 30, offset: 60 }]),
    }
}

#[test]
fn processing_videos_are_dropped() {
    let processing = "https://vod-secure.twitch.tv/_404/404_processing_%{width}x%{height}.png";
    let page = vec![video("1", "a"), video("2", processing), video("3", "b")];
    let kept: Vec<String> = drop_processing(page).into_iter().map(|v| v.id).collect();
    assert_eq!(kept, vec!["1", "3"]);
}

#[test]
fn video_copy_and_summary() {
    let v = video("9", "t");
    let c = v.to_video();
    assert_eq!(c.id, "9");
    assert_eq!(c.muted_segments, Some(vec![MutedSegment { duration: 30, offset: 60 }]));
    assert_eq!(c.view_count, 7);
    assert_eq!(v.summary(), "[9] (Name) Title");
    assert_eq!((v.id(), v.title(), v.thumbnail_url()), ("9", "Title", "t"));
}

fn clip() -> Clip {
    Clip {
        id: "Slug".to_string(),
        url: "https://clips.twitch.tv/Slug".to_string(),
        embed_url: "e".to_string(),
        broadcaster_id: "42".to_string(),
        broadcaster_name: "caster".to_string(),
        creator_id: "7".to_string(),
        creator_name: "maker".to_string(),
        video_id: "555".to_string(),
        game_id: "g".to_string(),
        language: "de".to_string(),
        title: "Nice".to_string(),
        view_count: 12,
        created_at: "2024-01-01T00:00:00Z".to_string(),
        thumbnail_url: "thumb".to_string(),
        duration: "28.5".to_string(),
        vod_offset: Some(3),
    }
}

#[test]
fn clip_in_common_shape() {
    let c = clip();
    let v = c.to_video();
    assert_eq!(v.id, "Slug");
    assert_eq!(v.stream_id, Some("555".to_string()));
    assert_eq!((v.user_id.as_str(), v.user_login.as_str(), v.user_name.as_str()), ("42", "caster", "caster"));
    assert_eq!(v.description, "");
    assert_eq!((v.created_at.as_str(), v.published_at.as_str()), ("2024-01-01T00:00:00Z", "2024-01-01T00:00:00Z"));
    assert_eq!(v.viewable, "lic");
    assert_eq!(v.video_type, "clip");
    assert_eq!(v.duration, "28.5");
    assert_eq!(v.view_count, 12);
    assert_eq!(v.language, "de");
    assert_eq!(v.muted_segments, None);
    assert_eq!(c.summary(), "[Slug] (caster) Nice");
}

fn thumb(u: &str) -> Option<YtThumbnail> {
    Some(YtThumbnail { url: u.to_string() })
}

fn yt(view_count: &str, thumbnails: YtThumbnails) -> YtVideo {
    YtVideo {
        id: "abcdefghijk".to_string(),
        snippet: YtSnippet {
            published_at: "2020".to_string(),
            channel_id: "UC1".to_string(),
            title: "T".to_string(),
            description: "D".to_string(),
            thumbnails,
            live_broadcast_content: "none".to_string(),
            channel_title: "Chan".to_string(),
            default_language: default_lang(),
        },
        content_details: YtContentDetails { duration: "PT1M".to_string() },
        statistics: YtStatistics { view_count: view_count.to_string() },
    }
}

#[test]
fn largest_thumbnail_wins() {
    let all = YtThumbnails { default: thumb("d"), medium: thumb("m"), high: thumb("h"), standard: thumb("s"), maxres: thumb("x") };
    assert_eq!(yt("1", all).thumbnail_url(), "x");
    let some = YtThumbnails { default: thumb("d"), medium: thumb("m"), high: None, standard: None, maxres: None };
    assert_eq!(yt("1", some).thumbnail_url(), "m");
    let none = YtThumbnails { default: None, medium: None, high: None, standard: None, maxres: None };
    assert_eq!(yt("1", none).thumbnail_url(), "");
}

#[test]
fn youtube_video_in_common_shape() {
    let t = YtThumbnails { default: thumb("d"), medium: None, high: thumb("h"), standard: None, maxres: None };
    let y = yt("1234", t.clone());
    let v = y.to_video();
    assert_eq!(v.id, "abcdefghijk");
    assert_eq!(v.stream_id, Some("abcdefghijk".to_string()));
    assert_eq!(v.url, "https://www.youtube.com/watch?v=abcdefghijk");
    assert_eq!(v.thumbnail_url, "h");
    assert_eq!(v.view_count, 1234);
    assert_eq!(v.language, "en");
    assert_eq!(v.video_type, "youtube");
    assert_eq!(v.viewable, "true");
    assert_eq!((v.user_id.as_str(), v.user_login.as_str(), v.user_name.as_str()), ("UC1", "UC1", "Chan"));
    assert_eq!(v.duration, "PT1M");
    assert_eq!(yt("lots", t.clone()).to_video().view_count, 0);
    assert_eq!(yt("+5", t.clone()).to_video().view_count, 5);
    assert_eq!(yt("18446744073709551616", t).to_video().view_count, 0);
    assert_eq!(y.summary(), "[abcdefghijk] (Chan) T");
}

#[test]
fn only_finished_youtube_videos_pass() {
    assert!(past_video(Some("none")));
    assert!(!past_video(Some("live")));
    assert!(!past_video(Some("upcoming")));
    assert!(!past_video(None));
}

#[test]
fn availability_filter_keeps_http_ok() {
    let ids = vec!["a".to_string(), "b".to_string(), "c".to_string()];
    assert_eq!(keep_available(&ids, &vec![200, 404, 200]), vec!["a", "c"]);
    assert_eq!(
        oembed_request("a"),
        "https://www.youtube.com/oembed?format=json&url=http://www.youtube.com/watch?v=a"
    );
}

#[test]
fn youtube_channel_resolution() {
    let p = channel_patterns();
    assert_eq!(regex_helper("SomeChannel", &p), Ok("SomeChannel".to_string()));
    assert_eq!(regex_helper("https://www.youtube.com/channel/UCxyz", &p), Ok("UCxyz".to_string()));
    assert_eq!(
        channel_requests("UCxyz", "K"),
        vec![
            "https://youtube.googleapis.com/youtube/v3/channels?part=contentDetails&id=UCxyz&key=K".to_string(),
            "https://youtube.googleapis.com/youtube/v3/channels?part=contentDetails&forUsername=UCxyz&key=K".to_string()
        ]
    );
    assert_eq!(playlist_from_lookup(None), None);
    assert_eq!(playlist_from_lookup(Some(vec![])), None);
    assert_eq!(
        playlist_from_lookup(Some(vec!["UU1".to_string(), "UU2".to_string()])),
        Some("UU1".to_string())
    );
}
