use archiver::error::Error;
use archiver::paginate::{
    channel_from_users, channel_lookups, clip_page_request, playlist_page_request,
    video_page_request, ChannelData, ClipWindows, Paginator,
};

#[test]
fn three_pages_give_all_items_in_order() {
    let pages: Vec<(Vec<u32>, Option<String>)> = vec![
        ((0..100).collect(), Some("c1".to_string())),
        ((100..200).collect(), Some("c2".to_string())),
        ((200..240).collect(), None),
    ];
    let mut p: Paginator<u32> = Paginator::new();
    let mut requests = 0;
    let mut cursors_sent = Vec::new();
    for (items, cursor) in pages {
        cursors_sent.push(p.after.clone());
        requests += 1;
        if !p.advance(items, cursor) {
            break;
        }
    }
    assert_eq!(requests, 3);
    assert_eq!(cursors_sent, vec!["", "c1", "c2"]);
    assert_eq!(p.items.len(), 240);
    assert_eq!(p.items, (0..240).collect::<Vec<u32>>());
    assert!(p.finished);
}

#[test]
fn repeated_cursor_ends_the_listing() {
    let mut p: Paginator<u8> = Paginator::new();
    assert!(p.advance(vec![1], Some("same".to_string())));
    let mut calls = 1;
    while p.advance(vec![2], Some("same".to_string())) {
        calls += 1;
        assert!(calls < 10, "listing did not stop");
    }
    assert_eq!(calls, 1);
    assert_eq!(p.items, vec![1, 2]);
    assert!(p.finished);
}

#[test]
fn empty_first_cursor_ends_the_listing() {
    let mut p: Paginator<u8> = Paginator::new();
    assert!(!p.advance(vec![], Some(String::new())));
    assert!(p.finished);
}

#[test]
fn clip_windows_walk_from_range_to_now() {
    let mut w = ClipWindows::new(10_000, 3_600, 1_800);
    let mut starts = Vec::new();
    while !w.done {
        starts.push((w.start, w.end()));
        w.advance();
    }
    assert_eq!(starts, vec![(6_400, 8_200), (8_200, 10_000), (10_000, 11_800)]);
}

#[test]
fn zero_range_gives_one_window() {
    let mut w = ClipWindows::new(500, 0, 100);
    assert!(!w.done);
    w.advance();
    assert!(w.done);
}

#[test]
fn clip_page_request_formats_window_times() {
    assert_eq!(
        clip_page_request("123", "", 0, 3_600),
        Some(
            "https://api.twitch.tv/helix/clips?first=100&broadcaster_id=123&after=&started_at=1970-01-01T00:00:00Z&ended_at=1970-01-01T01:00:00Z"
                .to_string()
        )
    );
    assert_eq!(clip_page_request("1", "x", i64::MAX, i64::MAX), None);
}

#[test]
fn video_and_playlist_page_requests() {
    assert_eq!(
        video_page_request("42", "archive", "cur"),
        "https://api.twitch.tv/helix/videos?user_id=42&type=archive&first=100&after=cur"
    );
    assert_eq!(
        playlist_page_request("UU1", "K", ""),
        "https://youtube.googleapis.com/youtube/v3/playlistItems?part=snippet&maxResults=50&playlistId=UU1&key=K&pageToken="
    );
}

#[test]
fn channel_lookup_order() {
    assert_eq!(
        channel_lookups("12345"),
        Ok(vec![
            "https://api.twitch.tv/helix/users?id=12345".to_string(),
            "https://api.twitch.tv/helix/users?login=12345".to_string()
        ])
    );
    assert_eq!(
        channel_lookups("https://www.twitch.tv/somebody"),
        Ok(vec!["https://api.twitch.tv/helix/users?login=somebody".to_string()])
    );
    assert_eq!(channel_lookups("?"), Err(Error::NoRegexMatch));
}

fn user(name: &str, id: &str) -> ChannelData {
    ChannelData { username: name.to_string(), id: id.to_string() }
}

#[test]
fn user_lookup_needs_exactly_one_user() {
    assert_eq!(channel_from_users(vec![]).unwrap_err(), Error::NoMatches);
    let one = channel_from_users(vec![user("a", "1")]).unwrap();
    assert_eq!((one.username.as_str(), one.id.as_str()), ("a", "1"));
    assert_eq!(
        channel_from_users(vec![user("a", "1"), user("b", "2")]).unwrap_err(),
        Error::NoMatches
    );
}

#[test]
fn unreadable_page_keeps_what_was_gathered() {
    let mut p: Paginator<u8> = Paginator::new();
    assert!(p.advance(vec![1, 2], Some("c1".to_string())));
    p.unreadable();
    assert!(p.finished);
    assert_eq!(p.items, vec![1, 2]);
    assert_eq!(p.after, "c1");
}
