//! The five download stages of one video: what each would do given the
//! files already on disk and the programs installed, how its result is
//! classified, and how the stages follow one another.

use vstd::prelude::*;
use crate::error::{Error, External};
use crate::platform::{chat_ext, chat_ext_of, VideoType};
use crate::sanitize::{sanitize, sanitized};
use crate::matcher::string_views;
use crate::text::{decimal, decimal_string, push_str_chars, string_of};

verus! {

/// The stages, in the order they run.
#[derive(PartialEq, Eq, Structural, Clone, Copy, Debug)]
pub enum Stage {
    Json,
    Thumbnail,
    Chat,
    ChatProcess,
    Video,
}

/// How the result of a stage is reported.
#[derive(PartialEq, Eq, Structural, Clone, Copy, Debug)]
pub enum Outcome {
    Success,
    AlreadyExists,
    AlreadyProcessed,
    NotAttempted,
    Failed,
}

pub open spec fn outcome_of(result: Result<(), Error>) -> Outcome {
    match result {
        Ok(()) => Outcome::Success,
        Err(Error::AlreadyExists) => Outcome::AlreadyExists,
        Err(Error::ProcessedChatAlreadyExists) => Outcome::AlreadyProcessed,
        Err(Error::Expected) => Outcome::NotAttempted,
        Err(_) => Outcome::Failed,
    }
}

/// Classifies the result of a stage.
pub fn parse_result(result: &Result<(), Error>) -> (r: Outcome)
    ensures
        r == outcome_of(*result),
{
    match result {
        Ok(()) => Outcome::Success,
        Err(Error::AlreadyExists) => Outcome::AlreadyExists,
        Err(Error::ProcessedChatAlreadyExists) => Outcome::AlreadyProcessed,
        Err(Error::Expected) => Outcome::NotAttempted,
        Err(_) => Outcome::Failed,
    }
}

/// Which of a video's files are already on disk.
#[derive(PartialEq, Eq, Structural, Clone, Copy, Debug)]
pub struct Artifacts {
    pub json: bool,
    pub thumbnail: bool,
    pub chat_ssa: bool,
    pub chat_json: bool,
    pub compressed: bool,
    pub video: bool,
}

/// One run of an external program.
#[derive(Clone, Debug)]
pub struct Invocation {
    pub program: External,
    pub args: Vec<String>,
}

/// What a stage does: nothing (for the reason given), save the metadata,
/// fetch a file from a URL, or run external programs in order.
#[derive(Clone, Debug)]
pub enum StagePlan {
    Skip(Error),
    SaveJson,
    Fetch(String),
    Run(Vec<Invocation>),
}

/// Why a stage does nothing, if it does nothing.
pub open spec fn skip_reason(stage: Stage, p: VideoType, have: Artifacts, missing: Seq<External>) -> Option<Error> {
    match stage {
        Stage::Json => if have.json { Some(Error::AlreadyExists) } else { None },
        Stage::Thumbnail => if have.thumbnail { Some(Error::AlreadyExists) } else { None },
        Stage::Chat => match p {
            VideoType::Vod | VideoType::Highlight => if have.chat_ssa && have.chat_json {
                Some(Error::AlreadyExists)
            } else {
                None
            },
            VideoType::Clip => Some(Error::Expected),
            VideoType::YouTube => if have.chat_json {
                Some(Error::AlreadyExists)
            } else if missing.contains(External::Cd) {
                Some(Error::MissingProgram(External::Cd))
            } else {
                None
            },
        },
        Stage::ChatProcess => match p {
            VideoType::Vod | VideoType::Highlight => if have.compressed {
                Some(Error::ProcessedChatAlreadyExists)
            } else if missing.contains(External::Brotli) {
                Some(Error::MissingProgram(External::Brotli))
            } else if !have.chat_ssa {
                Some(Error::NoChatFound)
            } else {
                None
            },
            _ => Some(Error::Expected),
        },
        Stage::Video => if have.video {
            Some(Error::AlreadyExists)
        } else if missing.contains(External::YtDlp) {
            Some(Error::MissingProgram(External::YtDlp))
        } else {
            None
        },
    }
}

pub open spec fn tcd_args(id: Seq<char>) -> Seq<Seq<char>> {
    seq!["-f"@, "ssa"@, "-v"@, id, "--filename-format"@, "./{video_id}.{format}"@]
}

pub open spec fn tdcli_args(id: Seq<char>) -> Seq<Seq<char>> {
    seq!["chatdownload"@, "-u"@, id, "-o"@, id + ".chat.json"@]
}

pub open spec fn video_args(p: VideoType, id: Seq<char>, threads: Seq<char>) -> Seq<Seq<char>> {
    match p {
        VideoType::Clip => seq!["-N"@, threads, "-o"@, id + ".%(ext)s"@, "https://clips.twitch.tv/"@ + id],
        VideoType::YouTube => seq![
            "-N"@,
            threads,
            "--compat-options"@,
            "filename"@,
            "https://youtube.com/watch?v="@ + id,
        ],
        _ => seq![
            "-N"@,
            threads,
            "--compat-options"@,
            "filename"@,
            "--downloader"@,
            "m3u8:ffmpeg"@,
            "https://www.twitch.tv/videos/"@ + id,
        ],
    }
}

/// The programs a stage runs when it is not skipped, with their arguments.
pub open spec fn planned_runs(
    stage: Stage,
    p: VideoType,
    id: Seq<char>,
    have: Artifacts,
    missing: Seq<External>,
    threads: nat,
) -> Seq<(External, Seq<Seq<char>>)> {
    match stage {
        Stage::Chat => match p {
            VideoType::YouTube => seq![
                (
                    External::Cd,
                    seq!["https://www.youtube.com/watch?v="@ + id, "--output"@, id + ".chat.json"@],
                ),
            ],
            _ => (if !missing.contains(External::Tcd) && !have.chat_ssa {
                seq![(External::Tcd, tcd_args(id))]
            } else {
                seq![]
            }) + (if !missing.contains(External::TdCli) && !have.chat_json {
                seq![(External::TdCli, tdcli_args(id))]
            } else {
                seq![]
            }),
        },
        Stage::ChatProcess => seq![(External::Brotli, seq!["-q"@, "11"@, id + ".ssa"@])],
        _ => seq![(External::YtDlp, video_args(p, id, decimal(threads)))],
    }
}

pub open spec fn invocation_views(v: Seq<Invocation>) -> Seq<(External, Seq<Seq<char>>)> {
    v.map_values(|i: Invocation| (i.program, string_views(i.args@)))
}

/// The thumbnail URL with its size placeholders filled in.
pub open spec fn thumbnail_request(url: Seq<char>) -> Seq<char> {
    replaced(replaced(url, "%{width}"@, "1920"@), "%{height}"@, "1080"@)
}

/// `s` with every non-overlapping occurrence of `from`, left to right, replaced by `to`.
pub uninterp spec fn replaced(s: Seq<char>, from: Seq<char>, to: Seq<char>) -> Seq<char>;

/// Relies on `str::replace`: all non-overlapping matches of `from` replaced by `to`.
#[verifier::external_body]
fn replace_str(s: &str, from: &str, to: &str) -> (r: String)
    ensures
        r@ == replaced(s@, from@, to@),
{
    s.replace(from, to)
}

fn has_program(missing: &Vec<External>, e: External) -> (r: bool)
    ensures
        r == missing@.contains(e),
{
    let mut i: usize = 0;
    while i < missing.len()
        invariant
            0 <= i <= missing.len(),
            forall|j: int| 0 <= j < i ==> missing@[j] != e,
        decreases missing.len() - i,
    {
        if missing[i] == e {
            proof {
                assert(missing@[i as int] == e);
            }
            return true;
        }
        i = i + 1;
    }
    false
}

fn owned(s: &str) -> (r: String)
    ensures
        r@ == s@,
{
    s.to_owned()
}

fn joined(a: &str, b: &str) -> (r: String)
    ensures
        r@ == a@ + b@,
{
    let mut out: Vec<char> = Vec::new();
    push_str_chars(&mut out, a);
    push_str_chars(&mut out, b);
    string_of(&out)
}

/// What a stage of one video does, given the files on disk and the programs
/// that are missing.
pub fn plan_stage(
    stage: Stage,
    p: VideoType,
    id: &str,
    thumbnail_url: &str,
    have: Artifacts,
    missing: &Vec<External>,
    threads: u16,
) -> (r: StagePlan)
    ensures
        match r {
            StagePlan::Skip(e) => skip_reason(stage, p, have, missing@) == Some(e),
            StagePlan::SaveJson => stage == Stage::Json && skip_reason(stage, p, have, missing@) is None,
            StagePlan::Fetch(url) => stage == Stage::Thumbnail && skip_reason(stage, p, have, missing@) is None
                && url@ == thumbnail_request(thumbnail_url@),
            StagePlan::Run(runs) => stage != Stage::Json && stage != Stage::Thumbnail && skip_reason(
                stage,
                p,
                have,
                missing@,
            ) is None && invocation_views(runs@) == planned_runs(stage, p, id@, have, missing@, threads as nat),
        },
{
    match stage {
        Stage::Json => {
            if have.json {
                StagePlan::Skip(Error::AlreadyExists)
            } else {
                StagePlan::SaveJson
            }
        },
        Stage::Thumbnail => {
            if have.thumbnail {
                StagePlan::Skip(Error::AlreadyExists)
            } else {
                let wide = replace_str(thumbnail_url, "%{width}", "1920");
                StagePlan::Fetch(replace_str(wide.as_str(), "%{height}", "1080"))
            }
        },
        Stage::Chat => plan_chat(p, id, have, missing),
        Stage::ChatProcess => {
            match p {
                VideoType::Vod | VideoType::Highlight => {
                    if have.compressed {
                        StagePlan::Skip(Error::ProcessedChatAlreadyExists)
                    } else if has_program(missing, External::Brotli) {
                        StagePlan::Skip(Error::MissingProgram(External::Brotli))
                    } else if !have.chat_ssa {
                        StagePlan::Skip(Error::NoChatFound)
                    } else {
                        let args = vec![owned("-q"), owned("11"), joined(id, ".ssa")];
                        let runs = vec![Invocation { program: External::Brotli, args }];
                        proof {
                            assert(string_views(runs@[0].args@) =~= seq!["-q"@, "11"@, id@ + ".ssa"@]);
                            assert(invocation_views(runs@) =~= planned_runs(
                                stage,
                                p,
                                id@,
                                have,
                                missing@,
                                threads as nat,
                            ));
                        }
                        StagePlan::Run(runs)
                    }
                },
                _ => StagePlan::Skip(Error::Expected),
            }
        },
        Stage::Video => {
            if have.video {
                StagePlan::Skip(Error::AlreadyExists)
            } else if has_program(missing, External::YtDlp) {
                StagePlan::Skip(Error::MissingProgram(External::YtDlp))
            } else {
                let t = decimal_string(threads as u64);
                let args = match p {
                    VideoType::Clip => vec![
                        owned("-N"),
                        t,
                        owned("-o"),
                        joined(id, ".%(ext)s"),
                        joined("https://clips.twitch.tv/", id),
                    ],
                    VideoType::YouTube => vec![
                        owned("-N"),
                        t,
                        owned("--compat-options"),
                        owned("filename"),
                        joined("https://youtube.com/watch?v=", id),
                    ],
                    _ => vec![
                        owned("-N"),
                        t,
                        owned("--compat-options"),
                        owned("filename"),
                        owned("--downloader"),
                        owned("m3u8:ffmpeg"),
                        joined("https://www.twitch.tv/videos/", id),
                    ],
                };
                proof {
                    assert(string_views(args@) =~= video_args(p, id@, decimal(threads as nat)));
                }
                let runs = vec![Invocation { program: External::YtDlp, args }];
                proof {
                    assert(invocation_views(runs@) =~= planned_runs(
                        stage,
                        p,
                        id@,
                        have,
                        missing@,
                        threads as nat,
                    ));
                }
                StagePlan::Run(runs)
            }
        },
    }
}

fn plan_chat(p: VideoType, id: &str, have: Artifacts, missing: &Vec<External>) -> (r: StagePlan)
    ensures
        match r {
            StagePlan::Skip(e) => skip_reason(Stage::Chat, p, have, missing@) == Some(e),
            StagePlan::Run(runs) => skip_reason(Stage::Chat, p, have, missing@) is None && invocation_views(
                runs@,
            ) == planned_runs(Stage::Chat, p, id@, have, missing@, 0),
            _ => false,
        },
{
    match p {
        VideoType::Clip => StagePlan::Skip(Error::Expected),
        VideoType::YouTube => {
            if have.chat_json {
                StagePlan::Skip(Error::AlreadyExists)
            } else if has_program(missing, External::Cd) {
                StagePlan::Skip(Error::MissingProgram(External::Cd))
            } else {
                let args = vec![
                    joined("https://www.youtube.com/watch?v=", id),
                    owned("--output"),
                    joined(id, ".chat.json"),
                ];
                let runs = vec![Invocation { program: External::Cd, args }];
                proof {
                    assert(string_views(runs@[0].args@) =~= seq![
                        "https://www.youtube.com/watch?v="@ + id@,
                        "--output"@,
                        id@ + ".chat.json"@,
                    ]);
                    assert(invocation_views(runs@) =~= planned_runs(Stage::Chat, p, id@, have, missing@, 0));
                }
                StagePlan::Run(runs)
            }
        },
        _ => {
            if have.chat_ssa && have.chat_json {
                return StagePlan::Skip(Error::AlreadyExists);
            }
            let mut runs: Vec<Invocation> = Vec::new();
            let no_tcd = has_program(missing, External::Tcd);
            let no_tdcli = has_program(missing, External::TdCli);
            if !no_tcd && !have.chat_ssa {
                let args = vec![
                    owned("-f"),
                    owned("ssa"),
                    owned("-v"),
                    owned(id),
                    owned("--filename-format"),
                    owned("./{video_id}.{format}"),
                ];
                proof {
                    assert(string_views(args@) =~= tcd_args(id@));
                }
                runs.push(Invocation { program: External::Tcd, args });
            }
            let ghost first = runs@;
            if !no_tdcli && !have.chat_json {
                let args = vec![
                    owned("chatdownload"),
                    owned("-u"),
                    owned(id),
                    owned("-o"),
                    joined(id, ".chat.json"),
                ];
                proof {
                    assert(string_views(args@) =~= tdcli_args(id@));
                }
                runs.push(Invocation { program: External::TdCli, args });
            }
            proof {
                assert(invocation_views(runs@) =~= planned_runs(Stage::Chat, p, id@, have, missing@, 0));
            }
            StagePlan::Run(runs)
        },
    }
}

/// Whether every run of program `e` succeeded.
pub open spec fn program_ok(runs: Seq<(External, bool)>, e: External) -> bool {
    forall|i: int| 0 <= i < runs.len() && (#[trigger] runs[i]).0 == e ==> runs[i].1
}

/// The first program that failed, in run order.
pub open spec fn first_failure(runs: Seq<(External, bool)>) -> Option<External>
    decreases runs.len(),
{
    if runs.len() == 0 {
        None
    } else if !runs[0].1 {
        Some(runs[0].0)
    } else {
        first_failure(runs.drop_first())
    }
}

/// The result of a stage whose programs ran with the given success flags.
/// The Twitch chat stage reports a missing or failed chat downloader before
/// anything about the chat JSON downloader.
pub open spec fn run_result(stage: Stage, p: VideoType, missing: Seq<External>, runs: Seq<(External, bool)>) -> Result<(), Error> {
    if stage == Stage::Chat && (p == VideoType::Vod || p == VideoType::Highlight) {
        if missing.contains(External::Tcd) {
            Err(Error::MissingProgram(External::Tcd))
        } else if !program_ok(runs, External::Tcd) {
            Err(Error::CommandFailed(External::Tcd))
        } else if missing.contains(External::TdCli) {
            Err(Error::MissingProgram(External::TdCli))
        } else if !program_ok(runs, External::TdCli) {
            Err(Error::CommandFailed(External::TdCli))
        } else {
            Ok(())
        }
    } else {
        match first_failure(runs) {
            Some(e) => Err(Error::CommandFailed(e)),
            None => Ok(()),
        }
    }
}

fn all_succeeded(runs: &Vec<(External, bool)>, e: External) -> (r: bool)
    ensures
        r == program_ok(runs@, e),
{
    let mut i: usize = 0;
    while i < runs.len()
        invariant
            0 <= i <= runs.len(),
            forall|j: int| 0 <= j < i && (#[trigger] runs@[j]).0 == e ==> runs@[j].1,
        decreases runs.len() - i,
    {
        let (prog, ok) = runs[i];
        if prog == e && !ok {
            proof {
                assert(runs@[i as int].0 == e && !runs@[i as int].1);
            }
            return false;
        }
        i = i + 1;
    }
    true
}

/// The result of a stage, from the programs it ran and whether each succeeded.
pub fn stage_result(stage: Stage, p: VideoType, missing: &Vec<External>, runs: &Vec<(External, bool)>) -> (r: Result<(), Error>)
    ensures
        r == run_result(stage, p, missing@, runs@),
{
    if stage == Stage::Chat && (p == VideoType::Vod || p == VideoType::Highlight) {
        if has_program(missing, External::Tcd) {
            Err(Error::MissingProgram(External::Tcd))
        } else if !all_succeeded(runs, External::Tcd) {
            Err(Error::CommandFailed(External::Tcd))
        } else if has_program(missing, External::TdCli) {
            Err(Error::MissingProgram(External::TdCli))
        } else if !all_succeeded(runs, External::TdCli) {
            Err(Error::CommandFailed(External::TdCli))
        } else {
            Ok(())
        }
    } else {
        let mut i: usize = 0;
        proof {
            assert(runs@.subrange(0, runs@.len() as int) =~= runs@);
        }
        while i < runs.len()
            invariant
                0 <= i <= runs.len(),
                !(stage == Stage::Chat && (p == VideoType::Vod || p == VideoType::Highlight)),
                first_failure(runs@) == first_failure(runs@.subrange(i as int, runs@.len() as int)),
            decreases runs.len() - i,
        {
            let (prog, ok) = runs[i];
            proof {
                let rest = runs@.subrange(i as int, runs@.len() as int);
                assert(rest[0] == runs@[i as int]);
                assert(rest.drop_first() =~= runs@.subrange(i + 1, runs@.len() as int));
            }
            if !ok {
                proof {
                    let rest = runs@.subrange(i as int, runs@.len() as int);
                    assert(rest.len() > 0);
                    assert(first_failure(rest) == Some(prog));
                }
                return Err(Error::CommandFailed(prog));
            }
            i = i + 1;
        }
        Ok(())
    }
}

/// The stage after `stage`; the video stage is left out when videos are skipped.
pub open spec fn next_stage(stage: Stage, skip_video: bool) -> Option<Stage> {
    match stage {
        Stage::Json => Some(Stage::Thumbnail),
        Stage::Thumbnail => Some(Stage::Chat),
        Stage::Chat => Some(Stage::ChatProcess),
        Stage::ChatProcess => if skip_video { None } else { Some(Stage::Video) },
        Stage::Video => None,
    }
}

/// A metadata failure other than "already exists" stops the video's stages:
/// later stages name and file things after it.
pub open spec fn aborts(stage: Stage, result: Result<(), Error>) -> bool {
    stage == Stage::Json && result is Err && !(result->Err_0 is AlreadyExists)
}

/// What follows a stage: how it is reported, whether its hook runs, and
/// which stage comes next (or the error that ends the video).
#[derive(Clone, Debug)]
pub struct Step {
    pub outcome: Outcome,
    pub run_hook: bool,
    pub next: Option<Stage>,
    pub abort: Option<Error>,
}

pub fn after_stage(stage: Stage, result: Result<(), Error>, hook_set: bool, skip_video: bool) -> (r: Step)
    ensures
        r.outcome == outcome_of(result),
        aborts(stage, result) ==> r.abort == Some(result->Err_0) && !r.run_hook && r.next is None,
        !aborts(stage, result) ==> r.abort is None && r.run_hook == hook_set && r.next == next_stage(
            stage,
            skip_video,
        ),
{
    let outcome = parse_result(&result);
    if stage == Stage::Json {
        if let Err(e) = result {
            let exists = match e {
                Error::AlreadyExists => true,
                _ => false,
            };
            if !exists {
                return Step { outcome, run_hook: false, next: None, abort: Some(e) };
            }
        }
    }
    let next = match stage {
        Stage::Json => Some(Stage::Thumbnail),
        Stage::Thumbnail => Some(Stage::Chat),
        Stage::Chat => Some(Stage::ChatProcess),
        Stage::ChatProcess => if skip_video {
            None
        } else {
            Some(Stage::Video)
        },
        Stage::Video => None,
    };
    Step { outcome, run_hook: hook_set, next, abort: None }
}

/// The name of a Twitch video file: the unrestricted sanitized title, `-v`,
/// the identifier and `.mp4`.
pub fn filename(title: String, id: &str) -> (r: String)
    ensures
        r@ == sanitized(title@, false) + "-v"@ + id@ + ".mp4"@,
{
    let t = sanitize(title, false);
    let mut out: Vec<char> = Vec::new();
    push_str_chars(&mut out, t.as_str());
    push_str_chars(&mut out, "-v");
    push_str_chars(&mut out, id);
    push_str_chars(&mut out, ".mp4");
    string_of(&out)
}

/// The name a video is reported and handed to hooks under: clips are named
/// by identifier alone.
pub open spec fn video_title_of(p: VideoType, title: Seq<char>, id: Seq<char>) -> Seq<char> {
    match p {
        VideoType::Clip => id + ".mp4"@,
        _ => sanitized(title, false) + "-v"@ + id + ".mp4"@,
    }
}

pub fn video_title(p: VideoType, title: &str, id: &str) -> (r: String)
    ensures
        r@ == video_title_of(p, title@, id@),
{
    match p {
        VideoType::Clip => joined(id, ".mp4"),
        _ => filename(owned(title), id),
    }
}

/// Where each file of a video is looked for.
#[derive(Clone, Debug)]
pub struct ArtifactPaths {
    pub json: String,
    pub thumbnail: String,
    pub chat_ssa: String,
    pub chat_json: String,
    pub compressed: String,
    pub video: String,
}

/// The file the video stage produces: Twitch videos under `filename`,
/// YouTube videos under the YouTube naming, clips by identifier.
pub open spec fn video_path_of(p: VideoType, title: Seq<char>, id: Seq<char>) -> Seq<char> {
    match p {
        VideoType::Clip => id + ".mp4"@,
        VideoType::YouTube => crate::youtube::youtube_filename(title, id),
        _ => sanitized(title, false) + "-v"@ + id + ".mp4"@,
    }
}

pub fn artifact_paths(p: VideoType, title: &str, id: &str) -> (r: ArtifactPaths)
    ensures
        r.json@ == id@ + ".json"@,
        r.thumbnail@ == id@ + ".jpg"@,
        r.chat_ssa@ == id@ + ".ssa"@,
        r.chat_json@ == id@ + ".chat.json"@,
        r.compressed@ == id@ + ".ssa.br"@,
        r.video@ == video_path_of(p, title@, id@),
{
    let video = match p {
        VideoType::Clip => joined(id, ".mp4"),
        VideoType::YouTube => crate::youtube::filename(owned(title), id),
        _ => filename(owned(title), id),
    };
    ArtifactPaths {
        json: joined(id, ".json"),
        thumbnail: joined(id, ".jpg"),
        chat_ssa: joined(id, ".ssa"),
        chat_json: joined(id, ".chat.json"),
        compressed: joined(id, ".ssa.br"),
        video,
    }
}

/// The file a stage reports on, as the stage messages name it.
pub open spec fn reported_file_of(stage: Stage, p: VideoType, title: Seq<char>, id: Seq<char>) -> Seq<char> {
    match stage {
        Stage::Json => id + ".json"@,
        Stage::Thumbnail => id + ".jpg"@,
        Stage::Chat => id + chat_ext_of(p),
        Stage::ChatProcess => id + chat_ext_of(p) + ".br"@,
        Stage::Video => video_title_of(p, title, id),
    }
}

pub fn reported_file(stage: Stage, p: VideoType, title: &str, id: &str) -> (r: String)
    ensures
        r@ == reported_file_of(stage, p, title@, id@),
{
    match stage {
        Stage::Json => joined(id, ".json"),
        Stage::Thumbnail => joined(id, ".jpg"),
        Stage::Chat => joined(id, chat_ext(p)),
        Stage::ChatProcess => {
            let c = joined(id, chat_ext(p));
            joined(c.as_str(), ".br")
        },
        Stage::Video => video_title(p, title, id),
    }
}

/// Every file of a video on disk.
pub open spec fn all_present() -> Artifacts {
    Artifacts { json: true, thumbnail: true, chat_ssa: true, chat_json: true, compressed: true, video: true }
}

/// Idempotence of the pipeline: when every file of a video is already on
/// disk, no stage runs a program or writes anything, and every stage reports
/// "already exists" / "already processed" (or the expected no-op of a stage
/// the platform does not support), whatever programs are missing.
pub proof fn lemma_downloaded_video_runs_nothing(p: VideoType, missing: Seq<External>)
    ensures
        forall|stage: Stage|
            #![trigger skip_reason(stage, p, all_present(), missing)]
            {
                let reason = skip_reason(stage, p, all_present(), missing);
                &&& reason is Some
                &&& outcome_of(Err(reason->0)) == Outcome::AlreadyExists || outcome_of(Err(reason->0))
                    == Outcome::AlreadyProcessed || outcome_of(Err(reason->0)) == Outcome::NotAttempted
                &&& (p == VideoType::Vod || p == VideoType::Highlight) ==> outcome_of(Err(reason->0))
                    != Outcome::NotAttempted
            },
{
}

} // verus!
