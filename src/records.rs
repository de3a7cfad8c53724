//! Metadata records of Twitch videos and clips, and the common record shape
//! every saved metadata file has.

use vstd::prelude::*;
use crate::text::{push_str_chars, string_of};

verus! {

pub fn copy_string(s: &String) -> (r: String)
    ensures
        r@ == s@,
{
    s.clone()
}

/// A muted stretch of a Twitch video, in seconds.
#[derive(PartialEq, Eq, Structural, Clone, Copy, Debug)]
pub struct MutedSegment {
    pub duration: u64,
    pub offset: u64,
}

/// The metadata record of a Twitch video; clips and YouTube videos are saved
/// in this shape too.
#[derive(Clone, Debug)]
pub struct Video {
    pub id: String,
    pub stream_id: Option<String>,
    pub user_id: String,
    pub user_login: String,
    pub user_name: String,
    pub title: String,
    pub description: String,
    pub created_at: String,
    pub published_at: String,
    pub url: String,
    pub thumbnail_url: String,
    pub viewable: String,
    pub view_count: u64,
    pub language: String,
    pub video_type: String,
    pub duration: String,
    pub muted_segments: Option<Vec<MutedSegment>>,
}

pub open spec fn opt_string_view(o: Option<String>) -> Option<Seq<char>> {
    match o {
        Some(s) => Some(s@),
        None => None,
    }
}

fn copy_opt_string(o: &Option<String>) -> (r: Option<String>)
    ensures
        opt_string_view(r) == opt_string_view(*o),
{
    match o {
        Some(s) => Some(copy_string(s)),
        None => None,
    }
}

fn copy_segments(v: &Vec<MutedSegment>) -> (r: Vec<MutedSegment>)
    ensures
        r@ == v@,
{
    crate::text::copy_range(v, 0, v.len())
}

/// The thumbnail URL Twitch reports for a video that is still being processed.
pub open spec fn processing_thumbnail() -> Seq<char> {
    "https://vod-secure.twitch.tv/_404/404_processing_%{width}x%{height}.png"@
}

impl Video {
    pub fn id(&self) -> (r: &str)
        ensures
            r@ == self.id@,
    {
        self.id.as_str()
    }

    pub fn title(&self) -> (r: &str)
        ensures
            r@ == self.title@,
    {
        self.title.as_str()
    }

    pub fn thumbnail_url(&self) -> (r: &str)
        ensures
            r@ == self.thumbnail_url@,
    {
        self.thumbnail_url.as_str()
    }

    /// A field-by-field copy.
    pub fn to_video(&self) -> (r: Video)
        ensures
            r.id@ == self.id@,
            opt_string_view(r.stream_id) == opt_string_view(self.stream_id),
            r.user_id@ == self.user_id@,
            r.user_login@ == self.user_login@,
            r.user_name@ == self.user_name@,
            r.title@ == self.title@,
            r.description@ == self.description@,
            r.created_at@ == self.created_at@,
            r.published_at@ == self.published_at@,
            r.url@ == self.url@,
            r.thumbnail_url@ == self.thumbnail_url@,
            r.viewable@ == self.viewable@,
            r.view_count == self.view_count,
            r.language@ == self.language@,
            r.video_type@ == self.video_type@,
            r.duration@ == self.duration@,
            r.muted_segments is Some <==> self.muted_segments is Some,
            r.muted_segments is Some ==> r.muted_segments->0@ == self.muted_segments->0@,
    {
        let muted_segments = match &self.muted_segments {
            Some(v) => Some(copy_segments(v)),
            None => None,
        };
        Video {
            id: copy_string(&self.id),
            stream_id: copy_opt_string(&self.stream_id),
            user_id: copy_string(&self.user_id),
            user_login: copy_string(&self.user_login),
            user_name: copy_string(&self.user_name),
            title: copy_string(&self.title),
            description: copy_string(&self.description),
            created_at: copy_string(&self.created_at),
            published_at: copy_string(&self.published_at),
            url: copy_string(&self.url),
            thumbnail_url: copy_string(&self.thumbnail_url),
            viewable: copy_string(&self.viewable),
            view_count: self.view_count,
            language: copy_string(&self.language),
            video_type: copy_string(&self.video_type),
            duration: copy_string(&self.duration),
            muted_segments,
        }
    }

    /// The one-line summary `[id] (user) title`.
    pub fn summary(&self) -> (r: String)
        ensures
            r@ == "["@ + self.id@ + "] ("@ + self.user_name@ + ") "@ + self.title@,
    {
        let mut out: Vec<char> = Vec::new();
        push_str_chars(&mut out, "[");
        push_str_chars(&mut out, self.id.as_str());
        push_str_chars(&mut out, "] (");
        push_str_chars(&mut out, self.user_name.as_str());
        push_str_chars(&mut out, ") ");
        push_str_chars(&mut out, self.title.as_str());
        string_of(&out)
    }
}

/// The videos of a listing that are finished, i.e. not showing the
/// "still processing" thumbnail, in order.
pub open spec fn finished_videos(v: Seq<Video>) -> Seq<Video>
    decreases v.len(),
{
    if v.len() == 0 {
        seq![]
    } else if v.last().thumbnail_url@ == processing_thumbnail() {
        finished_videos(v.drop_last())
    } else {
        finished_videos(v.drop_last()).push(v.last())
    }
}

/// Drops the videos that Twitch is still processing from a listing page.
pub fn drop_processing(page: Vec<Video>) -> (r: Vec<Video>)
    ensures
        r@ == finished_videos(page@),
{
    let ghost all = page@;
    let mut rest = page;
    let mut out: Vec<Video> = Vec::new();
    let ghost mut k: int = 0;
    proof {
        assert(all.subrange(0, 0).len() == 0);
        assert(rest@ =~= all.subrange(0, all.len() as int));
    }
    while rest.len() > 0
        invariant
            0 <= k <= all.len(),
            rest@ == all.subrange(k, all.len() as int),
            out@ == finished_videos(all.subrange(0, k)),
        decreases rest.len(),
    {
        let v = rest.remove(0);
        let processing = "https://vod-secure.twitch.tv/_404/404_processing_%{width}x%{height}.png";
        let skip = v.thumbnail_url.as_str().to_owned() == processing.to_owned();
        proof {
            assert(v == all[k]);
            let q = all.subrange(0, k + 1);
            assert(q.drop_last() =~= all.subrange(0, k));
            assert(q.last() == v);
        }
        if !skip {
            out.push(v);
        }
        proof {
            k = k + 1;
            assert(rest@ =~= all.subrange(k, all.len() as int));
        }
    }
    proof {
        assert(all.subrange(0, k) =~= all);
    }
    out
}

/// The metadata record of a Twitch clip. `duration` holds the clip length
/// as the API's decimal number reads when printed.
#[derive(Clone, Debug)]
pub struct Clip {
    pub id: String,
    pub url: String,
    pub embed_url: String,
    pub broadcaster_id: String,
    pub broadcaster_name: String,
    pub creator_id: String,
    pub creator_name: String,
    pub video_id: String,
    pub game_id: String,
    pub language: String,
    pub title: String,
    pub view_count: u64,
    pub created_at: String,
    pub thumbnail_url: String,
    pub duration: String,
    pub vod_offset: Option<u64>,
}

impl Clip {
    pub fn id(&self) -> (r: &str)
        ensures
            r@ == self.id@,
    {
        self.id.as_str()
    }

    pub fn title(&self) -> (r: &str)
        ensures
            r@ == self.title@,
    {
        self.title.as_str()
    }

    pub fn thumbnail_url(&self) -> (r: &str)
        ensures
            r@ == self.thumbnail_url@,
    {
        self.thumbnail_url.as_str()
    }

    /// The clip in the common record shape: the broadcaster stands in for the
    /// user, the creation time for both timestamps, and the source video for the stream.
    pub fn to_video(&self) -> (r: Video)
        ensures
            r.id@ == self.id@,
            opt_string_view(r.stream_id) == Some(self.video_id@),
            r.user_id@ == self.broadcaster_id@,
            r.user_login@ == self.broadcaster_name@,
            r.user_name@ == self.broadcaster_name@,
            r.title@ == self.title@,
            r.description@ == Seq::<char>::empty(),
            r.created_at@ == self.created_at@,
            r.published_at@ == self.created_at@,
            r.url@ == self.url@,
            r.thumbnail_url@ == self.thumbnail_url@,
            r.viewable@ == "lic"@,
            r.view_count == self.view_count,
            r.language@ == self.language@,
            r.video_type@ == "clip"@,
            r.duration@ == self.duration@,
            r.muted_segments is None,
    {
        Video {
            id: copy_string(&self.id),
            stream_id: Some(copy_string(&self.video_id)),
            user_id: copy_string(&self.broadcaster_id),
            user_login: copy_string(&self.broadcaster_name),
            user_name: copy_string(&self.broadcaster_name),
            title: copy_string(&self.title),
            description: String::new(),
            created_at: copy_string(&self.created_at),
            published_at: copy_string(&self.created_at),
            url: copy_string(&self.url),
            thumbnail_url: copy_string(&self.thumbnail_url),
            viewable: "lic".to_owned(),
            view_count: self.view_count,
            language: copy_string(&self.language),
            video_type: "clip".to_owned(),
            duration: copy_string(&self.duration),
            muted_segments: None,
        }
    }

    /// The one-line summary `[id] (broadcaster) title`.
    pub fn summary(&self) -> (r: String)
        ensures
            r@ == "["@ + self.id@ + "] ("@ + self.broadcaster_name@ + ") "@ + self.title@,
    {
        let mut out: Vec<char> = Vec::new();
        push_str_chars(&mut out, "[");
        push_str_chars(&mut out, self.id.as_str());
        push_str_chars(&mut out, "] (");
        push_str_chars(&mut out, self.broadcaster_name.as_str());
        push_str_chars(&mut out, ") ");
        push_str_chars(&mut out, self.title.as_str());
        string_of(&out)
    }
}

} // verus!
