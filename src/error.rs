//! Errors, and the external programs the download stages rely on.

use vstd::prelude::*;
use crate::text::{chars_of, push_str_chars, string_of};

verus! {

/// An external command-line program used by a download stage.
#[derive(PartialEq, Eq, Structural, Clone, Copy, Debug)]
pub enum External {
    Tcd,
    YtDlp,
    Brotli,
    Cd,
    TdCli,
}

pub open spec fn command_name(e: External) -> Seq<char> {
    match e {
        External::Tcd => "tcd"@,
        External::YtDlp => "yt-dlp"@,
        External::Brotli => "brotli"@,
        External::Cd => "chat_downloader"@,
        External::TdCli => "TwitchDownloaderCLI"@,
    }
}

pub open spec fn program_text(e: External) -> Seq<char> {
    match e {
        External::Tcd => "TwitchChatDownloader: https://github.com/TheDrHax/Twitch-Chat-Downloader"@,
        External::YtDlp => "yt-dlp: https://github.com/yt-dlp/yt-dlp"@,
        External::Brotli => "brotli: https://github.com/google/brotli"@,
        External::Cd => "chat_downloader: https://github.com/xenova/chat-downloader"@,
        External::TdCli => "TwitchDownloaderCLI: https://github.com/lay295/TwitchDownloader"@,
    }
}

/// Relies on `which::which`: whether an executable of that name is found on the
/// search path. The answer depends on the machine, so nothing is stated of it.
#[verifier::external_body]
fn on_search_path(name: &str) -> (r: bool) {
    which::which(name).is_ok()
}

impl External {
    /// The name the program is run by.
    pub fn command(&self) -> (r: &'static str)
        ensures
            r@ == command_name(*self),
    {
        match self {
            External::Tcd => "tcd",
            External::YtDlp => "yt-dlp",
            External::Brotli => "brotli",
            External::Cd => "chat_downloader",
            External::TdCli => "TwitchDownloaderCLI",
        }
    }

    /// The program's name and where to get it.
    pub fn describe(&self) -> (r: String)
        ensures
            r@ == program_text(*self),
    {
        let s = match self {
            External::Tcd => "TwitchChatDownloader: https://github.com/TheDrHax/Twitch-Chat-Downloader",
            External::YtDlp => "yt-dlp: https://github.com/yt-dlp/yt-dlp",
            External::Brotli => "brotli: https://github.com/google/brotli",
            External::Cd => "chat_downloader: https://github.com/xenova/chat-downloader",
            External::TdCli => "TwitchDownloaderCLI: https://github.com/lay295/TwitchDownloader",
        };
        s.to_owned()
    }

    /// The message shown when the program is not installed.
    pub fn missing(&self) -> (r: String)
        ensures
            r@ == "Missing external program: "@ + program_text(*self),
    {
        let mut out: Vec<char> = Vec::new();
        push_str_chars(&mut out, "Missing external program: ");
        let d = self.describe();
        push_str_chars(&mut out, d.as_str());
        string_of(&out)
    }

    /// Whether the program can be found on this machine.
    pub fn is_installed(&self) -> bool {
        on_search_path(self.command())
    }
}

/// What went wrong, by kind.
#[derive(PartialEq, Eq, Clone, Debug)]
pub enum Error {
    Io,
    JsonParseFailed,
    AlreadyExists,
    NoChatFound,
    ProcessedChatAlreadyExists,
    NoRegexMatch,
    NoMatches,
    NoType,
    ConfigFileMissing,
    ConfigParseFailed,
    ConfigSerializeFailed,
    Request,
    Format,
    MissingProgram(External),
    CommandFailed(External),
    Expected,
    Token(String),
    Config(String),
}

pub open spec fn error_text(e: Error) -> Seq<char> {
    match e {
        Error::AlreadyExists => "Already exists"@,
        Error::NoChatFound => "No chat found"@,
        Error::ProcessedChatAlreadyExists => "Compressed chat already exists"@,
        Error::NoRegexMatch => "No regex match"@,
        Error::NoMatches => "No matches"@,
        Error::NoType => "No type"@,
        Error::Io => "Reading JSON file failed"@,
        Error::JsonParseFailed => "Parsing JSON failed"@,
        Error::ConfigFileMissing => "Config file does not exist"@,
        Error::ConfigParseFailed => "Parsing config file failed"@,
        Error::ConfigSerializeFailed => "Serializing config file failed"@,
        Error::Request => "Request failed"@,
        Error::Format => "Formatting failed"@,
        Error::MissingProgram(p) => "Missing program: "@ + program_text(p),
        Error::CommandFailed(p) => "Command failed: "@ + program_text(p),
        Error::Expected => "This error is expected"@,
        Error::Token(m) => m@,
        Error::Config(m) => m@,
    }
}

impl Error {
    /// The message shown to the user.
    pub fn describe(&self) -> (r: String)
        ensures
            r@ == error_text(*self),
    {
        let fixed = match self {
            Error::AlreadyExists => "Already exists",
            Error::NoChatFound => "No chat found",
            Error::ProcessedChatAlreadyExists => "Compressed chat already exists",
            Error::NoRegexMatch => "No regex match",
            Error::NoMatches => "No matches",
            Error::NoType => "No type",
            Error::Io => "Reading JSON file failed",
            Error::JsonParseFailed => "Parsing JSON failed",
            Error::ConfigFileMissing => "Config file does not exist",
            Error::ConfigParseFailed => "Parsing config file failed",
            Error::ConfigSerializeFailed => "Serializing config file failed",
            Error::Request => "Request failed",
            Error::Format => "Formatting failed",
            Error::MissingProgram(_) => "Missing program: ",
            Error::CommandFailed(_) => "Command failed: ",
            Error::Expected => "This error is expected",
            Error::Token(m) => m.as_str(),
            Error::Config(m) => m.as_str(),
        };
        let mut out = chars_of(fixed);
        match self {
            Error::MissingProgram(p) | Error::CommandFailed(p) => {
                let d = p.describe();
                push_str_chars(&mut out, d.as_str());
            },
            _ => {},
        }
        string_of(&out)
    }
}

} // verus!
