//! Start-up decisions: what the command line asks for, what the
//! configuration and credentials allow, and which programs are missing.

use vstd::prelude::*;
use crate::error::{Error, External};
use crate::platform::VideoType;
use crate::text::{push_str_chars, string_of};

verus! {

/// Where the videos come from: a list of identifiers or links, or a channel.
#[derive(Clone, Debug)]
pub struct Info {
    pub data: String,
    pub platform: VideoType,
}

#[derive(Clone, Debug)]
pub enum Videos {
    Direct(Info),
    Channel(Info),
}

/// The run's settings, as the command line gave them.
#[derive(Clone, Debug)]
pub struct Args {
    pub videos: Videos,
    pub video_type: VideoType,
    pub verbosity: i16,
    pub hide_spinners: bool,
    pub skip_video: bool,
    pub logging: bool,
    pub range: String,
    pub interval: String,
    pub threads: u16,
}

/// The kind of video the type flags select (the first one set wins).
pub open spec fn selected_type(vods: bool, highlights: bool, clips: bool, youtube: bool) -> Option<VideoType> {
    if vods {
        Some(VideoType::Vod)
    } else if highlights {
        Some(VideoType::Highlight)
    } else if clips {
        Some(VideoType::Clip)
    } else if youtube {
        Some(VideoType::YouTube)
    } else {
        None
    }
}

/// Builds the settings from the parsed command line: the video type from
/// its flags, a channel in preference to a video list, and the verbosity as
/// `-v` count minus `-s` count. `None` when no type or no input was given.
pub fn parse(
    vods: bool,
    highlights: bool,
    clips: bool,
    youtube: bool,
    channel: Option<String>,
    videos: Option<String>,
    verbose: u8,
    silent: u8,
    hide_spinners: bool,
    skip_video: bool,
    logging: bool,
    range: String,
    interval: String,
    threads: u16,
) -> (r: Option<Args>)
    ensures
        r is Some <==> selected_type(vods, highlights, clips, youtube) is Some && (channel is Some
            || videos is Some),
        r is Some ==> ({
            let a = r->0;
            &&& a.video_type == selected_type(vods, highlights, clips, youtube)->0
            &&& a.verbosity == verbose - silent
            &&& a.hide_spinners == hide_spinners
            &&& a.skip_video == skip_video
            &&& a.logging == logging
            &&& a.range == range
            &&& a.interval == interval
            &&& a.threads == threads
            &&& match a.videos {
                Videos::Channel(info) => channel is Some && info.data == channel->0 && info.platform
                    == a.video_type,
                Videos::Direct(info) => channel is None && videos is Some && info.data == videos->0
                    && info.platform == a.video_type,
            }
        }),
{
    let video_type = if vods {
        VideoType::Vod
    } else if highlights {
        VideoType::Highlight
    } else if clips {
        VideoType::Clip
    } else if youtube {
        VideoType::YouTube
    } else {
        return None;
    };
    let v = match channel {
        Some(data) => Videos::Channel(Info { data, platform: video_type }),
        None => match videos {
            Some(data) => Videos::Direct(Info { data, platform: video_type }),
            None => return None,
        },
    };
    let verbosity = verbose as i16 - silent as i16;
    Some(
        Args {
            videos: v,
            video_type,
            verbosity,
            hide_spinners,
            skip_video,
            logging,
            range,
            interval,
            threads,
        },
    )
}

/// The credentials read from the configuration file.
#[derive(Clone, Debug)]
pub struct Config {
    pub twitch_client_id: String,
    pub twitch_secret: String,
    pub youtube_key: String,
}

fn with_path(prefix: &str, path: &str) -> (r: String)
    ensures
        r@ == prefix@ + path@,
{
    let mut out: Vec<char> = Vec::new();
    push_str_chars(&mut out, prefix);
    push_str_chars(&mut out, path);
    string_of(&out)
}

/// What reading the configuration file came to: the configuration, or the
/// message for a missing file (after which a default one is written), for a
/// file that could not be opened, or for one that could not be read.
pub fn config_outcome(read: Result<Config, Error>, path: &str) -> (r: Result<Config, Error>)
    ensures
        read is Ok ==> r == read,
        read is Err ==> r is Err && r->Err_0 is Config,
        read is Err && read->Err_0 is ConfigFileMissing ==> r->Err_0->Config_0@
            == "Config file missing: "@ + path@,
        read is Err && read->Err_0 is Io ==> r->Err_0->Config_0@ == "Could not open config file: "@
            + path@,
        read is Err && !(read->Err_0 is ConfigFileMissing) && !(read->Err_0 is Io)
            ==> r->Err_0->Config_0@ == "Could not read config file: "@ + path@,
{
    match read {
        Ok(c) => Ok(c),
        Err(Error::ConfigFileMissing) => Err(Error::Config(with_path("Config file missing: ", path))),
        Err(Error::Io) => Err(Error::Config(with_path("Could not open config file: ", path))),
        Err(_) => Err(Error::Config(with_path("Could not read config file: ", path))),
    }
}

/// What writing the default configuration came to.
pub fn create_config(written: bool, path: &str) -> (r: Result<(), Error>)
    ensures
        written <==> r is Ok,
        !written ==> r->Err_0 is Config && r->Err_0->Config_0@ == "Could not create config file: "@
            + path@,
{
    if written {
        Ok(())
    } else {
        Err(Error::Config(with_path("Could not create config file: ", path)))
    }
}

/// What creating the configuration directory came to.
pub fn create_dir(created: bool, path: &str) -> (r: Result<(), Error>)
    ensures
        created <==> r is Ok,
        !created ==> r->Err_0 is Config && r->Err_0->Config_0@
            == "Could not create config directory: "@ + path@,
{
    if created {
        Ok(())
    } else {
        Err(Error::Config(with_path("Could not create config directory: ", path)))
    }
}

/// The request for a Twitch app token, or the error for missing credentials.
pub fn twitch_token_request(config: &Config) -> (r: Result<String, Error>)
    ensures
        config.twitch_client_id@.len() == 0 || config.twitch_secret@.len() == 0 <==> r is Err,
        r is Err ==> r->Err_0 is Token && r->Err_0->Token_0@ == "No Twitch client ID or secret found."@,
        r is Ok ==> r->Ok_0@ == "https://id.twitch.tv/oauth2/token?client_id="@ + config.twitch_client_id@
            + "&client_secret="@ + config.twitch_secret@ + "&grant_type=client_credentials"@,
{
    if config.twitch_client_id.as_str().is_empty() || config.twitch_secret.as_str().is_empty() {
        return Err(Error::Token("No Twitch client ID or secret found.".to_owned()));
    }
    let mut out: Vec<char> = Vec::new();
    push_str_chars(&mut out, "https://id.twitch.tv/oauth2/token?client_id=");
    push_str_chars(&mut out, config.twitch_client_id.as_str());
    push_str_chars(&mut out, "&client_secret=");
    push_str_chars(&mut out, config.twitch_secret.as_str());
    push_str_chars(&mut out, "&grant_type=client_credentials");
    Ok(string_of(&out))
}

/// The Twitch token from the token request: `None` when the request failed,
/// `Some(None)` when its answer could not be read, else the access token.
pub fn get_twitch_token(response: Option<Option<String>>) -> (r: Result<String, Error>)
    ensures
        match response {
            None => r is Err && r->Err_0 is Token && r->Err_0->Token_0@ == "Request for Twitch token failed."@,
            Some(None) => r is Err && r->Err_0 is Token && r->Err_0->Token_0@
                == "Could not parse Twitch token response."@,
            Some(Some(t)) => if t@.len() == 0 {
                r is Err && r->Err_0 is Token && r->Err_0->Token_0@ == "No Twitch access token found."@
            } else {
                r is Ok && r->Ok_0 == t
            },
        },
{
    match response {
        None => Err(Error::Token("Request for Twitch token failed.".to_owned())),
        Some(None) => Err(Error::Token("Could not parse Twitch token response.".to_owned())),
        Some(Some(t)) => {
            if t.as_str().is_empty() {
                Err(Error::Token("No Twitch access token found.".to_owned()))
            } else {
                Ok(t)
            }
        },
    }
}

/// The YouTube API key, or the error when the configuration has none.
pub fn get_youtube_token(config: &Config) -> (r: Result<String, Error>)
    ensures
        config.youtube_key@.len() == 0 <==> r is Err,
        r is Err ==> r->Err_0 is Token && r->Err_0->Token_0@ == "No YouTube API key found."@,
        r is Ok ==> r->Ok_0@ == config.youtube_key@,
{
    if config.youtube_key.as_str().is_empty() {
        Err(Error::Token("No YouTube API key found.".to_owned()))
    } else {
        Ok(config.youtube_key.clone())
    }
}

/// The programs the stages of a kind of video need.
pub open spec fn required_programs(p: VideoType) -> Seq<External> {
    match p {
        VideoType::Vod | VideoType::Highlight => seq![External::Tcd, External::YtDlp],
        VideoType::Clip => seq![External::TdCli, External::YtDlp],
        VideoType::YouTube => seq![External::Cd, External::YtDlp],
    }
}

pub fn programs_for(p: VideoType) -> (r: Vec<External>)
    ensures
        r@ == required_programs(p),
{
    let r = match p {
        VideoType::Vod | VideoType::Highlight => vec![External::Tcd, External::YtDlp],
        VideoType::Clip => vec![External::TdCli, External::YtDlp],
        VideoType::YouTube => vec![External::Cd, External::YtDlp],
    };
    proof {
        assert(r@ =~= required_programs(p));
    }
    r
}

/// The programs whose `installed` flag is false, in order.
pub open spec fn not_installed(programs: Seq<External>, installed: Seq<bool>) -> Seq<External>
    decreases programs.len(),
{
    if programs.len() == 0 || installed.len() < programs.len() {
        seq![]
    } else {
        let rest = not_installed(programs.drop_last(), installed.subrange(0, programs.len() - 1));
        if installed[programs.len() - 1] {
            rest
        } else {
            rest.push(programs.last())
        }
    }
}

/// The programs of `programs` that are not installed; `installed[i]` says
/// whether `programs[i]` is.
pub fn missing_programs(programs: &Vec<External>, installed: &Vec<bool>) -> (r: Vec<External>)
    requires
        installed.len() == programs.len(),
    ensures
        r@ == not_installed(programs@, installed@),
{
    let mut r: Vec<External> = Vec::new();
    let mut i: usize = 0;
    while i < programs.len()
        invariant
            0 <= i <= programs.len(),
            installed.len() == programs.len(),
            r@ == not_installed(programs@.subrange(0, i as int), installed@.subrange(0, i as int)),
        decreases programs.len() - i,
    {
        if !installed[i] {
            r.push(programs[i]);
        }
        i = i + 1;
        proof {
            let q = programs@.subrange(0, i as int);
            let t = installed@.subrange(0, i as int);
            assert(q.drop_last() =~= programs@.subrange(0, i - 1));
            assert(t.subrange(0, i - 1) =~= installed@.subrange(0, i - 1));
        }
    }
    proof {
        assert(programs@.subrange(0, programs.len() as int) =~= programs@);
        assert(installed@.subrange(0, programs.len() as int) =~= installed@);
    }
    r
}

pub proof fn lemma_not_installed_within(programs: Seq<External>, installed: Seq<bool>, e: External)
    requires
        not_installed(programs, installed).contains(e),
    ensures
        programs.contains(e),
    decreases programs.len(),
{
    if programs.len() > 0 && installed.len() >= programs.len() {
        let rest = not_installed(programs.drop_last(), installed.subrange(0, programs.len() - 1));
        if rest.contains(e) {
            lemma_not_installed_within(programs.drop_last(), installed.subrange(0, programs.len() - 1), e);
            let i = choose|i: int| 0 <= i < programs.drop_last().len() && programs.drop_last()[i] == e;
            assert(programs[i] == e);
        } else {
            let i = choose|i: int| 0 <= i < not_installed(programs, installed).len()
                && not_installed(programs, installed)[i] == e;
            assert(i == rest.len());
            assert(programs[programs.len() - 1] == e);
        }
    }
}

/// The programs the kind of video needs that cannot be found on this machine.
/// Which ones those are depends on the machine; every one is needed.
pub fn find_missing(p: VideoType) -> (r: Vec<External>)
    ensures
        exists|installed: Seq<bool>|
            installed.len() == required_programs(p).len() && r@ == not_installed(
                required_programs(p),
                installed,
            ),
        forall|e: External| r@.contains(e) ==> required_programs(p).contains(e),
{
    let programs = programs_for(p);
    let mut installed: Vec<bool> = Vec::new();
    let mut i: usize = 0;
    while i < programs.len()
        invariant
            0 <= i <= programs.len(),
            installed.len() == i,
        decreases programs.len() - i,
    {
        installed.push(programs[i].is_installed());
        i = i + 1;
    }
    let r = missing_programs(&programs, &installed);
    proof {
        assert(installed@.len() == required_programs(p).len() && r@ == not_installed(
            required_programs(p),
            installed@,
        ));
        assert forall|e: External| r@.contains(e) implies required_programs(p).contains(e) by {
            lemma_not_installed_within(programs@, installed@, e);
        }
    }
    r
}

} // verus!
