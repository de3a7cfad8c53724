use archiver::error::{Error, External};
use archiver::hooks::{hook_command, hook_vars};
use archiver::pipeline::{
    after_stage, artifact_paths, filename, parse_result, plan_stage, reported_file, stage_result,
    video_title, Artifacts, Outcome, Stage, StagePlan,
};
use archiver::platform::VideoType;
use archiver::youtube;

const STAGES: [Stage; 5] = [Stage::Json, Stage::Thumbnail, Stage::Chat, Stage::ChatProcess, Stage::Video];
const PLATFORMS: [VideoType; 4] = [VideoType::Vod, VideoType::Highlight, VideoType::Clip, VideoType::YouTube];

fn all(v: bool) -> Artifacts {
    Artifacts { json: v, thumbnail: v, chat_ssa: v, chat_json: v, compressed: v, video: v }
}

fn args_of(plan: &StagePlan) -> Vec<(External, Vec<String>)> {
    match plan {
        StagePlan::Run(runs) => runs.iter().map(|i| (i.program, i.args.clone())).collect(),
        other => panic!("expected programs to run, got {other:?}"),
    }
}

#[test]
fn downloaded_video_runs_no_program() {
    for p in PLATFORMS {
        for missing in [vec![], vec![External::Tcd, External::YtDlp, External::Brotli, External::Cd, External::TdCli]] {
            for stage in STAGES {
                let plan = plan_stage(stage, p, "1", "u", all(true), &missing, 1);
                let outcome = match plan {
                    StagePlan::Skip(e) => parse_result(&Err(e)),
                    other => panic!("{p:?} {stage:?} would act: {other:?}"),
                };
                assert!(
                    matches!(outcome, Outcome::AlreadyExists | Outcome::AlreadyProcessed | Outcome::NotAttempted),
                    "{p:?} {stage:?} {outcome:?}"
                );
                if matches!(p, VideoType::Vod | VideoType::Highlight) {
                    assert_ne!(outcome, Outcome::NotAttempted);
                }
            }
        }
    }
}

#[test]
fn classification_of_stage_results() {
    assert_eq!(parse_result(&Ok(())), Outcome::Success);
    assert_eq!(parse_result(&Err(Error::AlreadyExists)), Outcome::AlreadyExists);
    assert_eq!(parse_result(&Err(Error::ProcessedChatAlreadyExists)), Outcome::AlreadyProcessed);
    assert_eq!(parse_result(&Err(Error::Expected)), Outcome::NotAttempted);
    assert_eq!(parse_result(&Err(Error::Request)), Outcome::Failed);
    assert_eq!(parse_result(&Err(Error::NoChatFound)), Outcome::Failed);
}

#[test]
fn twitch_chat_runs_both_downloaders() {
    let plan = plan_stage(Stage::Chat, VideoType::Vod, "99", "", all(false), &vec![], 1);
    assert_eq!(
        args_of(&plan),
        vec![
            (
                External::Tcd,
                vec!["-f", "ssa", "-v", "99", "--filename-format", "./{video_id}.{format}"]
                    .into_iter()
                    .map(String::from)
                    .collect()
            ),
            (
                External::TdCli,
                vec!["chatdownload", "-u", "99", "-o", "99.chat.json"]
                    .into_iter()
                    .map(String::from)
                    .collect()
            ),
        ]
    );
}

#[test]
fn twitch_chat_skips_what_exists_or_is_missing() {
    let have = Artifacts { chat_ssa: true, ..all(false) };
    let plan = plan_stage(Stage::Chat, VideoType::Vod, "9", "", have, &vec![], 1);
    assert_eq!(args_of(&plan).len(), 1);
    assert_eq!(args_of(&plan)[0].0, External::TdCli);
    let plan = plan_stage(Stage::Chat, VideoType::Vod, "9", "", all(false), &vec![External::Tcd, External::TdCli], 1);
    assert!(args_of(&plan).is_empty());
    let missing = vec![External::Tcd, External::TdCli];
    assert_eq!(
        stage_result(Stage::Chat, VideoType::Vod, &missing, &vec![]),
        Err(Error::MissingProgram(External::Tcd))
    );
}

#[test]
fn twitch_chat_results() {
    let none: Vec<External> = vec![];
    assert_eq!(
        stage_result(Stage::Chat, VideoType::Vod, &none, &vec![(External::Tcd, false), (External::TdCli, true)]),
        Err(Error::CommandFailed(External::Tcd))
    );
    assert_eq!(
        stage_result(Stage::Chat, VideoType::Vod, &none, &vec![(External::Tcd, true), (External::TdCli, false)]),
        Err(Error::CommandFailed(External::TdCli))
    );
    assert_eq!(
        stage_result(Stage::Chat, VideoType::Vod, &vec![External::TdCli], &vec![(External::Tcd, true)]),
        Err(Error::MissingProgram(External::TdCli))
    );
    assert_eq!(
        stage_result(Stage::Chat, VideoType::Highlight, &none, &vec![(External::Tcd, true), (External::TdCli, true)]),
        Ok(())
    );
    assert_eq!(
        stage_result(Stage::Video, VideoType::Vod, &none, &vec![(External::YtDlp, false)]),
        Err(Error::CommandFailed(External::YtDlp))
    );
    assert_eq!(stage_result(Stage::Video, VideoType::Clip, &none, &vec![(External::YtDlp, true)]), Ok(()));
}

#[test]
fn youtube_and_clip_chat_plans() {
    assert!(matches!(
        plan_stage(Stage::Chat, VideoType::Clip, "c", "", all(false), &vec![], 1),
        StagePlan::Skip(Error::Expected)
    ));
    let plan = plan_stage(Stage::Chat, VideoType::YouTube, "yt", "", all(false), &vec![], 1);
    assert_eq!(
        args_of(&plan),
        vec![(
            External::Cd,
            vec!["https://www.youtube.com/watch?v=yt".to_string(), "--output".to_string(), "yt.chat.json".to_string()]
        )]
    );
    assert!(matches!(
        plan_stage(Stage::Chat, VideoType::YouTube, "yt", "", all(false), &vec![External::Cd], 1),
        StagePlan::Skip(Error::MissingProgram(External::Cd))
    ));
}

#[test]
fn chat_processing_plans() {
    let have = Artifacts { chat_ssa: true, ..all(false) };
    let plan = plan_stage(Stage::ChatProcess, VideoType::Vod, "5", "", have, &vec![], 1);
    assert_eq!(
        args_of(&plan),
        vec![(External::Brotli, vec!["-q".to_string(), "11".to_string(), "5.ssa".to_string()])]
    );
    assert!(matches!(
        plan_stage(Stage::ChatProcess, VideoType::Vod, "5", "", all(false), &vec![], 1),
        StagePlan::Skip(Error::NoChatFound)
    ));
    assert!(matches!(
        plan_stage(Stage::ChatProcess, VideoType::Vod, "5", "", have, &vec![External::Brotli], 1),
        StagePlan::Skip(Error::MissingProgram(External::Brotli))
    ));
    assert!(matches!(
        plan_stage(Stage::ChatProcess, VideoType::YouTube, "5", "", have, &vec![], 1),
        StagePlan::Skip(Error::Expected)
    ));
}

#[test]
fn video_plans_carry_thread_count_and_url() {
    let plan = plan_stage(Stage::Video, VideoType::Vod, "77", "", all(false), &vec![], 4);
    assert_eq!(
        args_of(&plan)[0].1,
        vec!["-N", "4", "--compat-options", "filename", "--downloader", "m3u8:ffmpeg", "https://www.twitch.tv/videos/77"]
    );
    let plan = plan_stage(Stage::Video, VideoType::Clip, "Slug", "", all(false), &vec![], 16);
    assert_eq!(args_of(&plan)[0].1, vec!["-N", "16", "-o", "Slug.%(ext)s", "https://clips.twitch.tv/Slug"]);
    let plan = plan_stage(Stage::Video, VideoType::YouTube, "yt", "", all(false), &vec![], 1);
    assert_eq!(args_of(&plan)[0].1, vec!["-N", "1", "--compat-options", "filename", "https://youtube.com/watch?v=yt"]);
    assert!(matches!(
        plan_stage(Stage::Video, VideoType::Vod, "77", "", all(false), &vec![External::YtDlp], 4),
        StagePlan::Skip(Error::MissingProgram(External::YtDlp))
    ));
}

#[test]
fn json_and_thumbnail_plans() {
    assert!(matches!(
        plan_stage(Stage::Json, VideoType::Vod, "1", "", all(false), &vec![], 1),
        StagePlan::SaveJson
    ));
    match plan_stage(
        Stage::Thumbnail,
        VideoType::Vod,
        "1",
        "https://x/t-%{width}x%{height}.jpg",
        all(false),
        &vec![],
        1,
    ) {
        StagePlan::Fetch(url) => assert_eq!(url, "https://x/t-1920x1080.jpg"),
        other => panic!("{other:?}"),
    }
}

#[test]
fn metadata_failure_stops_the_video() {
    let step = after_stage(Stage::Json, Err(Error::Io), true, false);
    assert_eq!(step.abort, Some(Error::Io));
    assert!(!step.run_hook);
    assert_eq!(step.next, None);
    assert_eq!(step.outcome, Outcome::Failed);
    let step = after_stage(Stage::Json, Err(Error::AlreadyExists), true, false);
    assert_eq!(step.abort, None);
    assert!(step.run_hook);
    assert_eq!(step.next, Some(Stage::Thumbnail));
}

#[test]
fn other_failures_do_not_stop_the_video() {
    let step = after_stage(Stage::Thumbnail, Err(Error::Request), false, false);
    assert_eq!(step.abort, None);
    assert_eq!(step.next, Some(Stage::Chat));
    assert_eq!(after_stage(Stage::Chat, Ok(()), false, false).next, Some(Stage::ChatProcess));
    assert_eq!(after_stage(Stage::ChatProcess, Ok(()), false, false).next, Some(Stage::Video));
    assert_eq!(after_stage(Stage::ChatProcess, Ok(()), false, true).next, None);
    assert_eq!(after_stage(Stage::Video, Ok(()), true, false).next, None);
}

#[test]
fn file_names() {
    assert_eq!(filename("My: Video?".to_string(), "123"), "My\u{ff1a} Video\u{ff1f}-v123.mp4");
    assert_eq!(youtube::filename("A/B".to_string(), "yt"), "A\u{29f8}B-yt.mp4");
    assert_eq!(video_title(VideoType::Clip, "whatever", "Slug"), "Slug.mp4");
    assert_eq!(video_title(VideoType::YouTube, "T", "yt"), "T-vyt.mp4");
    let p = artifact_paths(VideoType::YouTube, "T", "yt");
    assert_eq!(
        (p.json, p.thumbnail, p.chat_ssa, p.chat_json, p.compressed, p.video),
        (
            "yt.json".to_string(),
            "yt.jpg".to_string(),
            "yt.ssa".to_string(),
            "yt.chat.json".to_string(),
            "yt.ssa.br".to_string(),
            "T-yt.mp4".to_string()
        )
    );
    assert_eq!(artifact_paths(VideoType::Vod, "T", "1").video, "T-v1.mp4");
    assert_eq!(reported_file(Stage::ChatProcess, VideoType::Vod, "T", "1"), "1.ssa.br");
    assert_eq!(reported_file(Stage::Chat, VideoType::Clip, "T", "1"), "1.chat.json");
}

#[test]
fn hook_variables_quote_the_file_name() {
    let vars = hook_vars(VideoType::Vod, "A B", "1");
    assert_eq!(
        vars,
        vec![
            ("id".to_string(), "1".to_string()),
            ("chat_ext".to_string(), ".ssa".to_string()),
            ("video_title".to_string(), "'A B-v1.mp4'".to_string()),
        ]
    );
    let vars = hook_vars(VideoType::Clip, "", "plain");
    assert_eq!(vars[2].1, "plain.mp4");
    let vars = hook_vars(VideoType::Vod, "it's", "2");
    assert_eq!(vars[2].1, "'it'\\''s-v2.mp4'");
}

#[test]
fn hook_templates() {
    assert_eq!(
        hook_command("echo {id} {video_title}", VideoType::Vod, "A B", "1"),
        Some("echo 1 'A B-v1.mp4'".to_string())
    );
    assert_eq!(hook_command("mv {id}{chat_ext} done/", VideoType::YouTube, "t", "x"), Some("mv x.chat.json done/".to_string()));
    assert_eq!(hook_command("echo {nope}", VideoType::Vod, "A", "1"), None);
}
