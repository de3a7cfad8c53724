use archiver::duration::parse_duration;
use archiver::error::{Error, External};
use archiver::init::{
    config_outcome, create_config, create_dir, find_missing, get_twitch_token, get_youtube_token,
    missing_programs, parse, programs_for, twitch_token_request, Config, Videos,
};
use archiver::platform::VideoType;
use archiver::text::decimal_string;

fn args(vods: bool, clips: bool, channel: Option<&str>, videos: Option<&str>) -> Option<archiver::init::Args> {
    parse(
        vods,
        false,
        clips,
        false,
        channel.map(String::from),
        videos.map(String::from),
        2,
        1,
        false,
        true,
        false,
        "1week".to_string(),
        "1hour".to_string(),
        4,
    )
}

#[test]
fn command_line_settings() {
    let a = args(true, false, None, Some("123")).unwrap();
    assert_eq!(a.video_type, VideoType::Vod);
    assert_eq!(a.verbosity, 1);
    assert!(a.skip_video);
    assert_eq!(a.threads, 4);
    match a.videos {
        Videos::Direct(info) => assert_eq!((info.data.as_str(), info.platform), ("123", VideoType::Vod)),
        other => panic!("{other:?}"),
    }
    let c = args(false, true, Some("chan"), Some("123")).unwrap();
    assert_eq!(c.video_type, VideoType::Clip);
    assert!(matches!(c.videos, Videos::Channel(ref i) if i.data == "chan"));
    assert!(args(false, false, None, Some("1")).is_none());
    assert!(args(true, false, None, None).is_none());
}

#[test]
fn duration_strings() {
    assert_eq!(parse_duration("1week"), Some(604_800));
    assert_eq!(parse_duration("1hour"), Some(3_600));
    assert_eq!(parse_duration("1h30m"), Some(5_400));
    assert_eq!(parse_duration("2Hours 10s"), Some(7_210));
    assert_eq!(parse_duration("3d"), Some(259_200));
    assert_eq!(parse_duration("5x"), Some(0));
    assert_eq!(parse_duration(""), Some(0));
    assert_eq!(parse_duration("abc"), Some(0));
    assert_eq!(parse_duration("12 m"), Some(0));
    assert_eq!(parse_duration("99999999999999999999w"), None);
    assert_eq!(parse_duration("9223372036854775s"), Some(9_223_372_036_854_775));
    assert_eq!(parse_duration("9223372036854776s"), None);
}

#[test]
fn configuration_outcomes() {
    let cfg = Config { twitch_client_id: "id".to_string(), twitch_secret: "sec".to_string(), youtube_key: String::new() };
    assert!(config_outcome(Ok(cfg.clone()), "/c").is_ok());
    assert_eq!(
        config_outcome(Err(Error::ConfigFileMissing), "/c/config.toml").unwrap_err(),
        Error::Config("Config file missing: /c/config.toml".to_string())
    );
    assert_eq!(
        config_outcome(Err(Error::Io), "/c").unwrap_err(),
        Error::Config("Could not open config file: /c".to_string())
    );
    assert_eq!(
        config_outcome(Err(Error::ConfigParseFailed), "/c").unwrap_err(),
        Error::Config("Could not read config file: /c".to_string())
    );
    assert_eq!(create_config(true, "/c"), Ok(()));
    assert_eq!(create_config(false, "/c"), Err(Error::Config("Could not create config file: /c".to_string())));
    assert_eq!(create_dir(false, "/d"), Err(Error::Config("Could not create config directory: /d".to_string())));
}

#[test]
fn credentials() {
    let cfg = Config { twitch_client_id: "id".to_string(), twitch_secret: "sec".to_string(), youtube_key: String::new() };
    assert_eq!(
        twitch_token_request(&cfg),
        Ok("https://id.twitch.tv/oauth2/token?client_id=id&client_secret=sec&grant_type=client_credentials".to_string())
    );
    let empty = Config { twitch_client_id: String::new(), ..cfg.clone() };
    assert_eq!(
        twitch_token_request(&empty),
        Err(Error::Token("No Twitch client ID or secret found.".to_string()))
    );
    assert_eq!(get_youtube_token(&cfg), Err(Error::Token("No YouTube API key found.".to_string())));
    let yt = Config { youtube_key: "K".to_string(), ..cfg };
    assert_eq!(get_youtube_token(&yt), Ok("K".to_string()));
    assert_eq!(get_twitch_token(None), Err(Error::Token("Request for Twitch token failed.".to_string())));
    assert_eq!(get_twitch_token(Some(None)), Err(Error::Token("Could not parse Twitch token response.".to_string())));
    assert_eq!(get_twitch_token(Some(Some(String::new()))), Err(Error::Token("No Twitch access token found.".to_string())));
    assert_eq!(get_twitch_token(Some(Some("tok".to_string()))), Ok("tok".to_string()));
}

#[test]
fn programs_needed_and_missing() {
    assert_eq!(programs_for(VideoType::Vod), vec![External::Tcd, External::YtDlp]);
    assert_eq!(programs_for(VideoType::Clip), vec![External::TdCli, External::YtDlp]);
    assert_eq!(programs_for(VideoType::YouTube), vec![External::Cd, External::YtDlp]);
    assert_eq!(
        missing_programs(&vec![External::Cd, External::YtDlp], &vec![false, true]),
        vec![External::Cd]
    );
    let found = find_missing(VideoType::YouTube);
    assert!(found.iter().all(|e| programs_for(VideoType::YouTube).contains(e)));
}

#[test]
fn program_names_and_messages() {
    assert_eq!(External::Cd.command(), "chat_downloader");
    assert_eq!(External::TdCli.command(), "TwitchDownloaderCLI");
    assert_eq!(External::YtDlp.describe(), "yt-dlp: https://github.com/yt-dlp/yt-dlp");
    assert_eq!(External::Brotli.missing(), "Missing external program: brotli: https://github.com/google/brotli");
}

#[test]
fn error_messages() {
    assert_eq!(Error::AlreadyExists.describe(), "Already exists");
    assert_eq!(Error::NoMatches.describe(), "No matches");
    assert_eq!(Error::Expected.describe(), "This error is expected");
    assert_eq!(
        Error::MissingProgram(External::Tcd).describe(),
        "Missing program: TwitchChatDownloader: https://github.com/TheDrHax/Twitch-Chat-Downloader"
    );
    assert_eq!(Error::CommandFailed(External::Brotli).describe(), "Command failed: brotli: https://github.com/google/brotli");
    assert_eq!(Error::Token("custom".to_string()).describe(), "custom");
}

#[test]
fn decimal_forms() {
    assert_eq!(decimal_string(0), "0");
    assert_eq!(decimal_string(7), "7");
    assert_eq!(decimal_string(1234), "1234");
    assert_eq!(decimal_string(u64::MAX), "18446744073709551615");
}
