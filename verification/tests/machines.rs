use yt_dlp_server::config::{default_server_config, AppConfig};
use yt_dlp_server::jobs::{Job, JobStatus, JobType};
use yt_dlp_server::json::{Extra, JsonValue, KeyMap};
use yt_dlp_server::machine::{Capture, DownloadMachine, DownloadStage, Event, Request, SourceFile};
use yt_dlp_server::queue::{parse_upcoming_delay, schedule_job_at, DbEffect, Metadata};
use yt_dlp_server::tasks::{extractor_list, path_join, start_job, version_text, CutMachine, UpdateMachine};

fn config() -> AppConfig {
    let mut opts = KeyMap::new();
    opts.insert("output".to_string(), JsonValue::Str("/downloads/%(title)s.%(ext)s".to_string()));
    AppConfig { ydl_server: default_server_config("/downloads"), ydl_options: opts, profiles: KeyMap::new(), aliases: KeyMap::new() }
}

fn capture(code: i32, stdout: &str, stderr: &str, records: Vec<Metadata>) -> Capture {
    Capture { code, stdout: stdout.to_string(), stderr: stderr.to_string(), records }
}

fn md(title: Option<&str>, live: Option<&str>, release: Option<i64>) -> Metadata {
    Metadata { title: title.map(|t| t.to_string()), live_status: live.map(|t| t.to_string()), release_timestamp: release, kind: None }
}

fn download_job(format: Option<&str>) -> Job {
    Job::new("https://v".to_string(), JobType::YdlDownload, format.map(|f| f.to_string()), vec!["https://v".to_string()])
}

#[test]
fn download_runs_after_metadata() {
    let cfg = config();
    let mut m = DownloadMachine::new(download_job(Some("video/mp4")), "yt-dlp".to_string());
    let s = m.step(&cfg, Event::Begin);
    match s.request {
        Request::Capture { args } => assert_eq!(
            args,
            vec!["--output", "/downloads/%(title)s.%(ext)s", "-J", "--flat-playlist", "--", "https://v"]
        ),
        _ => panic!("expected a capture"),
    }
    assert!(m.stage == DownloadStage::Fetching);
    let s = m.step(&cfg, Event::Captured(Ok(capture(0, "", "", vec![md(Some("Title"), None, None)]))));
    assert_eq!(m.job.name, "Title");
    assert!(matches!(&s.effects[0], DbEffect::SetName(n) if n == "Title"));
    let expected_log = "[cmd] yt-dlp --format mp4+bestaudio/best --output '/downloads/%(title)s.%(ext)s' -- https://v\n";
    match s.request {
        Request::Run { program, args, log_prefix } => {
            assert_eq!(program, "yt-dlp");
            assert_eq!(args, vec!["--format", "mp4+bestaudio/best", "--output", "/downloads/%(title)s.%(ext)s", "--", "https://v"]);
            assert_eq!(log_prefix, expected_log);
        }
        _ => panic!("expected a run"),
    }
    let s = m.step(&cfg, Event::Exited(Ok(0), Some("stored".to_string())));
    assert!(matches!(s.request, Request::Done));
    assert_eq!(m.job.status, JobStatus::Completed);
    assert_eq!(m.job.log, "stored");
}

#[test]
fn download_with_unknown_profile_fails() {
    let cfg = config();
    let mut m = DownloadMachine::new(download_job(Some("profile/none")), "yt-dlp".to_string());
    let s = m.step(&cfg, Event::Begin);
    assert!(matches!(s.request, Request::Done));
    assert_eq!(m.job.status, JobStatus::Failed);
    assert_eq!(m.job.log, "Error during download task:\nUnknown profile profile/none");
}

#[test]
fn failed_run_keeps_error_text() {
    let cfg = config();
    let mut m = DownloadMachine::new(download_job(None), "yt-dlp".to_string());
    m.step(&cfg, Event::Begin);
    m.step(&cfg, Event::Captured(Ok(capture(0, "", "", vec![]))));
    m.step(&cfg, Event::Exited(Err("no such file".to_string()), None));
    assert_eq!(m.job.status, JobStatus::Failed);
    assert!(m.job.log.ends_with("\nError: no such file"));
}

#[test]
fn upcoming_event_is_scheduled() {
    let cfg = config();
    let mut m = DownloadMachine::new(download_job(None), "yt-dlp".to_string());
    m.step(&cfg, Event::Begin);
    let release = 4_000_000_000i64;
    let s = m.step(&cfg, Event::Captured(Ok(capture(0, "", "", vec![md(Some("Live"), Some("is_upcoming"), Some(release))]))));
    assert!(matches!(s.request, Request::Done));
    assert_eq!(m.job.status, JobStatus::Scheduled);
    assert_eq!(m.job.scheduled_at, Some(release + 60));
    assert!(matches!(m.job.extra_params.get("schedule_attempts"), Some(JsonValue::PosInt(1))));
    assert!(m.job.log.contains("[scheduled] this event has not started yet, retrying at"));
    assert!(m.job.log.ends_with("(attempt 1/24)"));
}

#[test]
fn metadata_failure_probes_then_fails() {
    let cfg = config();
    let mut m = DownloadMachine::new(download_job(None), "yt-dlp".to_string());
    m.step(&cfg, Event::Begin);
    let s = m.step(&cfg, Event::Captured(Ok(capture(1, "", "ERROR: private video", vec![]))));
    match s.request {
        Request::Capture { args } => assert!(args.contains(&"--ignore-no-formats-error".to_string())),
        _ => panic!("expected a probe"),
    }
    let s = m.step(&cfg, Event::Captured(Ok(capture(1, "", "", vec![]))));
    assert!(matches!(s.request, Request::Done));
    assert_eq!(m.job.status, JobStatus::Failed);
    assert!(m.job.log.ends_with("ERROR: private video"));
}

#[test]
fn upcoming_delay_from_error_text() {
    assert_eq!(parse_upcoming_delay("This live event will begin in 5 minutes.", 1000), Some(1300));
    assert_eq!(parse_upcoming_delay("Premieres in 2 HOURS", 0), Some(7200));
    assert_eq!(parse_upcoming_delay("starts in 1 day", 10), Some(86410));
    assert_eq!(parse_upcoming_delay("nothing here", 10), None);
}

#[test]
fn schedule_gives_up_after_last_attempt() {
    let cfg = config();
    let mut job = download_job(None);
    let mut extra = KeyMap::new();
    extra.insert("schedule_attempts".to_string(), JsonValue::PosInt(24));
    job.extra_params = Extra::Object(extra);
    job.log = "[cmd] x".to_string();
    let effects = schedule_job_at(&cfg, &mut job, 100, Some("T"), 1000, Some("2000-01-01 00:00:00".to_string()));
    assert!(effects.is_empty());
    assert_eq!(job.status, JobStatus::Failed);
    assert_eq!(job.log, "[cmd] x\n[scheduled] giving up after 24 attempts");
}

#[test]
fn schedule_retries_five_minutes_ahead() {
    let cfg = config();
    let mut job = download_job(None);
    job.log = "[cmd] x".to_string();
    let effects = schedule_job_at(&cfg, &mut job, 100, Some("T"), 1000, None);
    assert_eq!(job.status, JobStatus::Scheduled);
    assert_eq!(job.scheduled_at, Some(1300));
    assert_eq!(job.name, "T");
    assert_eq!(job.log, "[cmd] x\n[scheduled] this event has not started yet, retrying at 1300 (attempt 1/24)");
    assert_eq!(effects.len(), 2);
    assert!(matches!(&effects[1], DbEffect::SetPid(0)));
}

#[test]
fn aborted_job_does_not_start() {
    let mut job = download_job(None);
    assert!(!start_job(&mut job, Some(JobStatus::Aborted)));
    assert_eq!(job.status, JobStatus::Pending);
    assert!(start_job(&mut job, None));
    assert_eq!(job.status, JobStatus::Running);
}

#[test]
fn version_and_extractors() {
    assert_eq!(version_text(&Ok(capture(0, " 2025.01.01\n", "", vec![]))), "2025.01.01");
    assert_eq!(version_text(&Ok(capture(1, " out ", " err ", vec![]))), "outerr");
    assert_eq!(version_text(&Err("boom".to_string())), "unknown (boom)");
    assert_eq!(extractor_list(&Ok(capture(0, "a\n  \n b \n", "", vec![]))), vec!["a", "b"]);
    assert!(extractor_list(&Ok(capture(2, "a", "", vec![]))).is_empty());
}

#[test]
fn path_join_cases() {
    assert_eq!(path_join("/a", "b"), "/a/b");
    assert_eq!(path_join("/a/", "b"), "/a/b");
    assert_eq!(path_join("", "b"), "b");
    assert_eq!(path_join("/a", "/b"), "/b");
}

#[test]
fn cut_runs_ffmpeg() {
    let cfg = config();
    let mut job = Job::new("Cut v.mp4".to_string(), JobType::FfmpegCut, None, vec!["v.mp4".to_string()]);
    let mut extra = KeyMap::new();
    extra.insert("start".to_string(), JsonValue::Str("5".to_string()));
    extra.insert("output".to_string(), JsonValue::Str("c.mp4".to_string()));
    job.extra_params = Extra::Object(extra);
    let mut m = CutMachine::new(job, "ffmpeg".to_string(), "/cwd".to_string());
    let s = m.step(&cfg, Event::Begin);
    match s.request {
        Request::Resolve { root, name } => {
            assert_eq!(root, "/downloads");
            assert_eq!(name, "v.mp4");
        }
        _ => panic!("expected a resolve"),
    }
    let src = SourceFile { path: "/downloads/v.mp4".to_string(), is_file: true, folder: Some("/downloads".to_string()) };
    let s = m.step(&cfg, Event::Resolved(Some(src)));
    match s.request {
        Request::Run { program, args, .. } => {
            assert_eq!(program, "ffmpeg");
            assert_eq!(
                args,
                vec!["-nostdin", "-hide_banner", "-y", "-ss", "5", "-i", "/downloads/v.mp4", "-c", "copy", "-avoid_negative_ts", "make_zero", "/downloads/c.mp4"]
            );
        }
        _ => panic!("expected a run"),
    }
    let s = m.step(&cfg, Event::Exited(Ok(1), None));
    assert!(s.effects.iter().any(|e| matches!(e, DbEffect::RemoveFile(p) if p == "/downloads/c.mp4")));
    assert_eq!(m.job.status, JobStatus::Failed);
}

#[test]
fn cut_of_missing_file_fails() {
    let cfg = config();
    let job = Job::new("Cut x".to_string(), JobType::FfmpegCut, None, vec!["x".to_string()]);
    let mut m = CutMachine::new(job, "ffmpeg".to_string(), "/cwd".to_string());
    m.step(&cfg, Event::Begin);
    m.step(&cfg, Event::Resolved(None));
    assert_eq!(m.job.status, JobStatus::Failed);
    assert_eq!(m.job.log, "Invalid source file path");
}

#[test]
fn update_reports_versions() {
    let mut job = Job::new("Update yt-dlp (nightly)".to_string(), JobType::YtdlpUpdate, None, vec![]);
    let mut extra = KeyMap::new();
    extra.insert("channel".to_string(), JsonValue::Str("stable".to_string()));
    job.extra_params = Extra::Object(extra);
    let mut m = UpdateMachine::new(job, "/bin/yt-dlp".to_string());
    let s = m.step(Event::Begin);
    assert!(matches!(s.request, Request::Version));
    let s = m.step(Event::Versioned(Ok(capture(0, "1.0\n", "", vec![]))));
    match s.request {
        Request::Run { program, args, log_prefix } => {
            assert_eq!(program, "/bin/yt-dlp");
            assert_eq!(args, vec!["--update-to", "stable"]);
            assert_eq!(log_prefix, "[cmd] /bin/yt-dlp --update-to stable\nCurrent version: 1.0\n");
        }
        _ => panic!("expected a run"),
    }
    let s = m.step(Event::Exited(Ok(0), Some("log".to_string())));
    assert!(matches!(s.request, Request::Version));
    m.step(Event::Versioned(Ok(capture(0, "2.0\n", "", vec![]))));
    assert_eq!(m.job.status, JobStatus::Completed);
    assert_eq!(m.job.log, "log\nUpdated 1.0 → 2.0\n");
    assert!(matches!(m.job.extra_params.get("message"), Some(JsonValue::Str(t)) if t == "Updated 1.0 → 2.0"));
    assert!(matches!(m.job.extra_params.get("success"), Some(JsonValue::Bool(true))));
}

#[test]
fn at_least_one_worker_and_one_second() {
    assert_eq!(yt_dlp_server::queue::worker_count(0), 1);
    assert_eq!(yt_dlp_server::queue::worker_count(3), 3);
    assert_eq!(yt_dlp_server::queue::check_interval(0), 1);
    assert_eq!(yt_dlp_server::queue::check_interval(60), 60);
}
