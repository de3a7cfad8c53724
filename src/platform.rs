//! The four kinds of video, and the identifier patterns of each.

use vstd::prelude::*;

verus! {

/// The kind of video being downloaded.
#[derive(PartialEq, Eq, Structural, Clone, Copy, Debug)]
pub enum VideoType {
    Vod,
    Highlight,
    Clip,
    YouTube,
}

/// The patterns a raw identifier is tried against, in order; the first capture
/// group of the first pattern that matches is the identifier.
pub open spec fn id_patterns(p: VideoType) -> Seq<Seq<char>> {
    match p {
        VideoType::Vod | VideoType::Highlight => seq![
            "^([0-9]+)$"@,
            "^(?:https://)?(?:www\\.)?twitch\\.tv/videos/([0-9]+)(?:\\?.*)?$"@,
        ],
        VideoType::Clip => seq![
            "^([A-z0-9-]+)$"@,
            "^(?:https://)?(?:clips\\.|www\\.)?twitch\\.tv/([A-z0-9-]+)(?:\\?.*)?$"@,
            "^(?:https://)?(?:www\\.)?twitch\\.tv/(?:[^/]+)/clip/([A-z0-9-]+)(?:\\?.*)?$"@,
        ],
        VideoType::YouTube => seq![
            "^([0-9a-zA-Z_-]{11})$"@,
            "^(?:https?://)?(?:www\\.)?(?:youtu\\.be/|youtube\\.com(?:/embed/|/v/|/watch))(?:(?:&|\\?)[^&]+)*(?:(?:&|\\?)v=)?([0-9a-zA-Z_-]{11})(?:(?:&|\\?)[^&]+)*(?:#.*)?$"@,
        ],
    }
}

pub open spec fn str_views(ps: Seq<&str>) -> Seq<Seq<char>> {
    ps.map_values(|p: &str| p@)
}

/// The identifier patterns of a kind of video.
pub fn patterns_for(p: VideoType) -> (r: Vec<&'static str>)
    ensures
        str_views(r@) == id_patterns(p),
{
    let r = match p {
        VideoType::Vod | VideoType::Highlight => vec![
            "^([0-9]+)$",
            "^(?:https://)?(?:www\\.)?twitch\\.tv/videos/([0-9]+)(?:\\?.*)?$",
        ],
        VideoType::Clip => vec![
            "^([A-z0-9-]+)$",
            "^(?:https://)?(?:clips\\.|www\\.)?twitch\\.tv/([A-z0-9-]+)(?:\\?.*)?$",
            "^(?:https://)?(?:www\\.)?twitch\\.tv/(?:[^/]+)/clip/([A-z0-9-]+)(?:\\?.*)?$",
        ],
        VideoType::YouTube => vec![
            "^([0-9a-zA-Z_-]{11})$",
            "^(?:https?://)?(?:www\\.)?(?:youtu\\.be/|youtube\\.com(?:/embed/|/v/|/watch))(?:(?:&|\\?)[^&]+)*(?:(?:&|\\?)v=)?([0-9a-zA-Z_-]{11})(?:(?:&|\\?)[^&]+)*(?:#.*)?$",
        ],
    };
    proof {
        assert(str_views(r@) =~= id_patterns(p));
    }
    r
}

/// The extension of the chat file of a kind of video.
pub open spec fn chat_ext_of(p: VideoType) -> Seq<char> {
    match p {
        VideoType::Vod | VideoType::Highlight => ".ssa"@,
        VideoType::Clip | VideoType::YouTube => ".chat.json"@,
    }
}

pub fn chat_ext(p: VideoType) -> (r: &'static str)
    ensures
        r@ == chat_ext_of(p),
{
    match p {
        VideoType::Vod | VideoType::Highlight => ".ssa",
        VideoType::Clip | VideoType::YouTube => ".chat.json",
    }
}

} // verus!
