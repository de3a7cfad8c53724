use archiver::batch::{matches_or_error, max_batch, split_batches, BatchResolver};
use archiver::error::Error;
use archiver::platform::VideoType;

#[test]
fn batch_bounds_with_remainder() {
    assert_eq!(split_batches(250, 100), vec![(0, 100), (100, 200), (200, 250)]);
}

#[test]
fn batch_bounds_evenly_divisible() {
    let b = split_batches(200, 100);
    assert_eq!(b, vec![(0, 100), (100, 200)]);
    assert_eq!(b[1].1 - b[1].0, 100);
}

#[test]
fn no_ids_no_batches() {
    assert!(split_batches(0, 50).is_empty());
}

#[test]
fn batch_limits_per_platform() {
    assert_eq!(max_batch(VideoType::Vod), 100);
    assert_eq!(max_batch(VideoType::Clip), 100);
    assert_eq!(max_batch(VideoType::YouTube), 50);
}

fn ids(n: usize) -> Vec<String> {
    (0..n).map(|i| format!("v{i}")).collect()
}

#[test]
fn youtube_resolver_issues_ceil_requests_with_short_last_batch() {
    let mut r: BatchResolver<u8> = BatchResolver::new(ids(120), VideoType::YouTube, "KEY".to_string());
    let mut urls = Vec::new();
    while let Some(u) = r.next_request() {
        urls.push(u);
    }
    assert_eq!(urls.len(), 3);
    let last = &urls[2];
    let id_part = last
        .split("&id=")
        .nth(1)
        .unwrap()
        .split("&maxResults")
        .next()
        .unwrap();
    assert_eq!(id_part.split("%2C").count(), 20);
    assert!(last.ends_with("&maxResults=50&key=KEY"));
}

#[test]
fn twitch_request_lists_every_id() {
    let mut r: BatchResolver<u8> = BatchResolver::new(
        vec!["a".to_string(), "b".to_string(), "c".to_string()],
        VideoType::Vod,
        String::new(),
    );
    assert_eq!(
        r.next_request(),
        Some("https://api.twitch.tv/helix/videos/?id=a&id=b&id=c".to_string())
    );
    assert_eq!(r.next_request(), None);
}

#[test]
fn clip_and_youtube_requests() {
    let mut c: BatchResolver<u8> = BatchResolver::new(vec!["x".to_string()], VideoType::Clip, String::new());
    assert_eq!(
        c.next_request(),
        Some("https://api.twitch.tv/helix/clips/?id=x".to_string())
    );
    let mut y: BatchResolver<u8> = BatchResolver::new(
        vec!["p".to_string(), "q".to_string()],
        VideoType::YouTube,
        "K".to_string(),
    );
    assert_eq!(
        y.next_request(),
        Some(
            "https://youtube.googleapis.com/youtube/v3/videos?part=snippet%2CcontentDetails%2Cstatistics&id=p%2Cq&maxResults=50&key=K"
                .to_string()
        )
    );
}

#[test]
fn twitch_resolver_250_ids() {
    let mut r: BatchResolver<u8> = BatchResolver::new(ids(250), VideoType::Highlight, String::new());
    let mut sizes = Vec::new();
    while let Some(u) = r.next_request() {
        sizes.push(u.matches("id=").count());
    }
    assert_eq!(sizes, vec![100, 100, 50]);
}

#[test]
fn unreadable_batches_are_skipped() {
    let mut r: BatchResolver<u32> = BatchResolver::new(ids(3), VideoType::Vod, String::new());
    r.accept(Some(vec![1, 2]));
    r.accept(None);
    r.accept(Some(vec![3]));
    assert_eq!(r.items, vec![1, 2, 3]);
}

#[test]
fn empty_result_is_no_matches() {
    assert_eq!(matches_or_error::<u8>(Vec::new()), Err(Error::NoMatches));
    assert_eq!(matches_or_error(vec![5u8]), Ok(vec![5u8]));
}
