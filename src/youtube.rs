//! YouTube specifics: file naming, records, thumbnails and the live filter.

use vstd::prelude::*;
use crate::sanitize::{sanitize, sanitized};
use crate::error::Error;
use crate::records::{copy_string, opt_string_view, Video};
use crate::sanitize::is_digit;
use crate::text::{push_str_chars, string_of};

verus! {

pub open spec fn youtube_filename(title: Seq<char>, id: Seq<char>) -> Seq<char> {
    sanitized(title, false) + "-"@ + id + ".mp4"@
}

/// The name a YouTube video is downloaded under: the unrestricted sanitized
/// title, `-`, the identifier and `.mp4`.
pub fn filename(title: String, id: &str) -> (r: String)
    ensures
        r@ == youtube_filename(title@, id@),
{
    let t = sanitize(title, false);
    let mut out: Vec<char> = Vec::new();
    push_str_chars(&mut out, t.as_str());
    push_str_chars(&mut out, "-");
    push_str_chars(&mut out, id);
    push_str_chars(&mut out, ".mp4");
    string_of(&out)
}

/// The language assumed for a video that declares none.
pub fn default_lang() -> (r: String)
    ensures
        r@ == "en"@,
{
    "en".to_owned()
}

#[derive(Clone, Debug)]
pub struct YtThumbnail {
    pub url: String,
}

#[derive(Clone, Debug)]
pub struct YtThumbnails {
    pub default: Option<YtThumbnail>,
    pub medium: Option<YtThumbnail>,
    pub high: Option<YtThumbnail>,
    pub standard: Option<YtThumbnail>,
    pub maxres: Option<YtThumbnail>,
}

#[derive(Clone, Debug)]
pub struct YtSnippet {
    pub published_at: String,
    pub channel_id: String,
    pub title: String,
    pub description: String,
    pub thumbnails: YtThumbnails,
    pub live_broadcast_content: String,
    pub channel_title: String,
    pub default_language: String,
}

#[derive(Clone, Debug)]
pub struct YtContentDetails {
    pub duration: String,
}

#[derive(Clone, Debug)]
pub struct YtStatistics {
    pub view_count: String,
}

/// The metadata record of a YouTube video.
#[derive(Clone, Debug)]
pub struct YtVideo {
    pub id: String,
    pub snippet: YtSnippet,
    pub content_details: YtContentDetails,
    pub statistics: YtStatistics,
}

/// The URL of the largest thumbnail offered, or the empty string when none is.
pub open spec fn best_thumbnail(t: YtThumbnails) -> Seq<char> {
    if t.maxres is Some {
        t.maxres->0.url@
    } else if t.standard is Some {
        t.standard->0.url@
    } else if t.high is Some {
        t.high->0.url@
    } else if t.medium is Some {
        t.medium->0.url@
    } else if t.default is Some {
        t.default->0.url@
    } else {
        seq![]
    }
}

/// The value of a decimal numeral of ASCII digits.
pub open spec fn decimal_value(s: Seq<char>) -> int
    decreases s.len(),
{
    if s.len() == 0 {
        0
    } else {
        decimal_value(s.drop_last()) * 10 + (s.last() as u32 - 0x30)
    }
}

/// What `u64::from_str` makes of a string: an optional `+` and then one or
/// more ASCII digits whose value fits in 64 bits; anything else is rejected.
pub open spec fn parsed_u64(s: Seq<char>) -> Option<u64> {
    let body = if s.len() > 0 && s[0] == '+' { s.drop_first() } else { s };
    if body.len() > 0 && (forall|i: int| 0 <= i < body.len() ==> is_digit(#[trigger] body[i]))
        && decimal_value(body) <= u64::MAX {
        Some(decimal_value(body) as u64)
    } else {
        None
    }
}

/// Relies on `u64::from_str`, documented to accept an optional `+` followed
/// by digits and to reject values that overflow.
#[verifier::external_body]
fn parse_u64(s: &str) -> (r: Option<u64>)
    ensures
        r == parsed_u64(s@),
{
    s.parse::<u64>().ok()
}

impl YtVideo {
    pub fn id(&self) -> (r: &str)
        ensures
            r@ == self.id@,
    {
        self.id.as_str()
    }

    pub fn title(&self) -> (r: &str)
        ensures
            r@ == self.snippet.title@,
    {
        self.snippet.title.as_str()
    }

    /// The largest thumbnail offered.
    pub fn thumbnail_url(&self) -> (r: &str)
        ensures
            r@ == best_thumbnail(self.snippet.thumbnails),
    {
        let t = &self.snippet.thumbnails;
        match &t.maxres {
            Some(m) => m.url.as_str(),
            None => match &t.standard {
                Some(m) => m.url.as_str(),
                None => match &t.high {
                    Some(m) => m.url.as_str(),
                    None => match &t.medium {
                        Some(m) => m.url.as_str(),
                        None => match &t.default {
                            Some(m) => m.url.as_str(),
                            None => {
                                proof {
                                    reveal_strlit("");
                                }
                                ""
                            },
                        },
                    },
                },
            },
        }
    }

    /// The video in the common record shape. The view count is read as a
    /// decimal number, 0 when it does not read as one.
    pub fn to_video(&self) -> (r: Video)
        ensures
            r.id@ == self.id@,
            opt_string_view(r.stream_id) == Some(self.id@),
            r.user_id@ == self.snippet.channel_id@,
            r.user_login@ == self.snippet.channel_id@,
            r.user_name@ == self.snippet.channel_title@,
            r.title@ == self.snippet.title@,
            r.description@ == self.snippet.description@,
            r.created_at@ == self.snippet.published_at@,
            r.published_at@ == self.snippet.published_at@,
            r.url@ == "https://www.youtube.com/watch?v="@ + self.id@,
            r.thumbnail_url@ == best_thumbnail(self.snippet.thumbnails),
            r.viewable@ == "true"@,
            r.view_count == match parsed_u64(self.statistics.view_count@) {
                Some(n) => n,
                None => 0,
            },
            r.language@ == self.snippet.default_language@,
            r.video_type@ == "youtube"@,
            r.duration@ == self.content_details.duration@,
            r.muted_segments is None,
    {
        let mut url: Vec<char> = Vec::new();
        push_str_chars(&mut url, "https://www.youtube.com/watch?v=");
        push_str_chars(&mut url, self.id.as_str());
        let views = match parse_u64(self.statistics.view_count.as_str()) {
            Some(n) => n,
            None => 0,
        };
        Video {
            id: copy_string(&self.id),
            stream_id: Some(copy_string(&self.id)),
            user_id: copy_string(&self.snippet.channel_id),
            user_login: copy_string(&self.snippet.channel_id),
            user_name: copy_string(&self.snippet.channel_title),
            title: copy_string(&self.snippet.title),
            description: copy_string(&self.snippet.description),
            created_at: copy_string(&self.snippet.published_at),
            published_at: copy_string(&self.snippet.published_at),
            url: string_of(&url),
            thumbnail_url: self.thumbnail_url().to_owned(),
            viewable: "true".to_owned(),
            view_count: views,
            language: copy_string(&self.snippet.default_language),
            video_type: "youtube".to_owned(),
            duration: copy_string(&self.content_details.duration),
            muted_segments: None,
        }
    }

    /// The one-line summary `[id] (channel) title`.
    pub fn summary(&self) -> (r: String)
        ensures
            r@ == "["@ + self.id@ + "] ("@ + self.snippet.channel_title@ + ") "@ + self.snippet.title@,
    {
        let mut out: Vec<char> = Vec::new();
        push_str_chars(&mut out, "[");
        push_str_chars(&mut out, self.id.as_str());
        push_str_chars(&mut out, "] (");
        push_str_chars(&mut out, self.snippet.channel_title.as_str());
        push_str_chars(&mut out, ") ");
        push_str_chars(&mut out, self.snippet.title.as_str());
        string_of(&out)
    }
}

/// Whether a video item is finished content: its snippet's
/// `liveBroadcastContent` is the string `"none"` (not live, not upcoming).
pub fn past_video(live_broadcast_content: Option<&str>) -> (r: bool)
    ensures
        r == match live_broadcast_content {
            Some(s) => s@ == "none"@,
            None => false,
        },
{
    match live_broadcast_content {
        Some(s) => s.to_owned() == "none".to_owned(),
        None => false,
    }
}

/// The identifiers whose availability check answered with HTTP 200, in order.
pub open spec fn available_ids(ids: Seq<Seq<char>>, status: Seq<u16>) -> Seq<Seq<char>>
    decreases ids.len(),
{
    if ids.len() == 0 || status.len() < ids.len() {
        seq![]
    } else if status[ids.len() - 1] == 200 {
        available_ids(ids.drop_last(), status.subrange(0, ids.len() - 1)).push(ids.last())
    } else {
        available_ids(ids.drop_last(), status.subrange(0, ids.len() - 1))
    }
}

/// The oEmbed request that checks whether a video is available.
pub fn oembed_request(id: &str) -> (r: String)
    ensures
        r@ == "https://www.youtube.com/oembed?format=json&url=http://www.youtube.com/watch?v="@ + id@,
{
    let mut out: Vec<char> = Vec::new();
    push_str_chars(&mut out, "https://www.youtube.com/oembed?format=json&url=http://www.youtube.com/watch?v=");
    push_str_chars(&mut out, id);
    string_of(&out)
}

/// Keeps the identifiers whose availability check answered with HTTP 200;
/// `status[i]` is the answer for `ids[i]`.
pub fn keep_available(ids: &Vec<String>, status: &Vec<u16>) -> (r: Vec<String>)
    requires
        status.len() == ids.len(),
    ensures
        crate::matcher::string_views(r@) == available_ids(crate::matcher::string_views(ids@), status@),
{
    let ghost all = crate::matcher::string_views(ids@);
    let mut r: Vec<String> = Vec::new();
    let mut i: usize = 0;
    proof {
        assert(all.subrange(0, 0).len() == 0);
        assert(crate::matcher::string_views(r@) =~= seq![]);
    }
    while i < ids.len()
        invariant
            0 <= i <= ids.len(),
            status.len() == ids.len(),
            all == crate::matcher::string_views(ids@),
            crate::matcher::string_views(r@) == available_ids(all.subrange(0, i as int), status@.subrange(0, i as int)),
        decreases ids.len() - i,
    {
        if status[i] == 200 {
            r.push(copy_string(&ids[i]));
        }
        i = i + 1;
        proof {
            let q = all.subrange(0, i as int);
            let t = status@.subrange(0, i as int);
            assert(q.drop_last() =~= all.subrange(0, i - 1));
            assert(t.subrange(0, i - 1) =~= status@.subrange(0, i - 1));
            assert(q.last() == ids@[i - 1]@);
            assert(crate::matcher::string_views(r@) =~= available_ids(q, t));
        }
    }
    proof {
        assert(all.subrange(0, ids.len() as int) =~= all);
        assert(status@.subrange(0, ids.len() as int) =~= status@);
    }
    r
}

/// What one channel lookup found: the upload playlist of its first item, or
/// `None` (try the next lookup) when its answer could not be read or held no item.
pub fn playlist_from_lookup(found: Option<Vec<String>>) -> (r: Option<String>)
    ensures
        r is Some <==> (found is Some && found->0.len() > 0),
        r is Some ==> r->0@ == found->0@[0]@,
{
    match found {
        Some(v) => {
            if v.len() > 0 {
                Some(copy_string(&v[0]))
            } else {
                None
            }
        },
        None => None,
    }
}

/// The channel lookups to try for a YouTube channel token: by channel
/// identifier first, then by user name.
pub open spec fn channel_urls(channel: Seq<char>, key: Seq<char>) -> Seq<Seq<char>> {
    seq![
        "https://youtube.googleapis.com/youtube/v3/channels?part=contentDetails&id="@ + channel + "&key="@ + key,
        "https://youtube.googleapis.com/youtube/v3/channels?part=contentDetails&forUsername="@ + channel + "&key="@ + key,
    ]
}

pub fn channel_requests(channel: &str, key: &str) -> (r: Vec<String>)
    ensures
        crate::matcher::string_views(r@) == channel_urls(channel@, key@),
{
    let mut a: Vec<char> = Vec::new();
    push_str_chars(&mut a, "https://youtube.googleapis.com/youtube/v3/channels?part=contentDetails&id=");
    push_str_chars(&mut a, channel);
    push_str_chars(&mut a, "&key=");
    push_str_chars(&mut a, key);
    let mut b: Vec<char> = Vec::new();
    push_str_chars(&mut b, "https://youtube.googleapis.com/youtube/v3/channels?part=contentDetails&forUsername=");
    push_str_chars(&mut b, channel);
    push_str_chars(&mut b, "&key=");
    push_str_chars(&mut b, key);
    let r = vec![string_of(&a), string_of(&b)];
    proof {
        assert(crate::matcher::string_views(r@) =~= channel_urls(channel@, key@));
    }
    r
}

/// The patterns that pick the channel out of a YouTube channel token or link.
pub fn channel_patterns() -> (r: Vec<&'static str>)
    ensures
        crate::platform::str_views(r@) == seq![
            "^([^?/\\& *+]+)$"@,
            "^(?:https?://)?(?:www\\.)?youtube.com/(?:channel/|c/|user/|)([^?/\\& *+]+)"@,
        ],
{
    let r = vec!["^([^?/\\& *+]+)$", "^(?:https?://)?(?:www\\.)?youtube.com/(?:channel/|c/|user/|)([^?/\\& *+]+)"];
    proof {
        assert(crate::platform::str_views(r@) =~= seq![
            "^([^?/\\& *+]+)$"@,
            "^(?:https?://)?(?:www\\.)?youtube.com/(?:channel/|c/|user/|)([^?/\\& *+]+)"@,
        ]);
    }
    r
}

} // verus!
