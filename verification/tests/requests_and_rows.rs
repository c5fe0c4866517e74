use yt_dlp_server::jobs::{Job, JobStatus, JobType};
use yt_dlp_server::json::{Extra, JsonValue, KeyMap};
use yt_dlp_server::progress::{append_output, is_listed, json_lines, percent_candidates, percent_text, should_descend};
use yt_dlp_server::requests::{
    check_timestamps, cut_end, cut_job, done_event, installed_version, parse_aliases, queue_format, queue_job,
    request_urls, retry_job, show_logs, stop_action, truthy, update_job, CutChecks, CutRequest, QueueRequest,
    StopAction,
};
use yt_dlp_server::rows::{decode_urls, encode_urls, job_counts, with_queue_length, JobRow, RowColumns};

fn s(x: &str) -> JsonValue {
    JsonValue::Str(x.to_string())
}

fn object(pairs: Vec<(&str, JsonValue)>) -> Extra {
    let mut m = KeyMap::new();
    for (k, v) in pairs {
        m.insert(k.to_string(), v);
    }
    Extra::Object(m)
}

fn columns(status: i32, url: &str, extra: Extra) -> RowColumns {
    RowColumns {
        id: 7,
        name: "job".to_string(),
        status,
        log: Some("log".to_string()),
        last_update: "2024-01-01 00:00:00".to_string(),
        format: Some("video/best".to_string()),
        job_type: 0,
        url: url.to_string(),
        pid: None,
        force_generic_extractor: Some(1),
        extra_params: extra,
        scheduled_at: Some(5),
    }
}

#[test]
fn truthy_flags() {
    assert!(truthy(&Some(JsonValue::Bool(true))));
    assert!(!truthy(&Some(JsonValue::Bool(false))));
    assert!(truthy(&Some(s("1"))));
    assert!(truthy(&Some(s("TrUe"))));
    assert!(!truthy(&Some(s("yes"))));
    assert!(truthy(&Some(JsonValue::PosInt(1))));
    assert!(!truthy(&Some(JsonValue::PosInt(2))));
    assert!(!truthy(&Some(JsonValue::Float("1.0".into()))));
    assert!(!truthy(&None));
}

#[test]
fn show_logs_flag() {
    assert!(show_logs(&None));
    assert!(show_logs(&Some("1".to_string())));
    assert!(show_logs(&Some("TRUE".to_string())));
    assert!(!show_logs(&Some("0".to_string())));
}

#[test]
fn aliases_of_a_request() {
    assert_eq!(parse_aliases(&Some(s("a,,b,"))), vec!["a".to_string(), "b".to_string()]);
    assert_eq!(parse_aliases(&Some(JsonValue::Array(vec!["x".into()], "[\"x\",2]".into()))), vec!["x".to_string()]);
    assert!(parse_aliases(&Some(JsonValue::Bool(true))).is_empty());
    assert!(parse_aliases(&None).is_empty());
}

#[test]
fn urls_of_a_request() {
    let urls = Some(vec!["a".to_string(), "".to_string(), "b".to_string()]);
    assert_eq!(request_urls(&urls, &Some("c".to_string())), vec!["a", "b", "c"]);
    assert_eq!(request_urls(&None, &Some("".to_string())), Vec::<String>::new());
    assert_eq!(request_urls(&None, &None), Vec::<String>::new());
}

#[test]
fn format_of_a_request() {
    let none: Vec<String> = vec![];
    assert_eq!(queue_format(&None, &None, &none, &None, "video/best"), "video/best");
    assert_eq!(queue_format(&Some("".into()), &None, &none, &None, "video/best"), "video/best");
    assert_eq!(queue_format(&Some("video/mp4".into()), &Some("music".into()), &none, &None, "d"), "video/mp4,profile/music");
    assert_eq!(
        queue_format(&None, &None, &vec!["a".into(), "alias/b".into()], &Some("mp3".into()), "d"),
        "alias/a,alias/b,audio/mp3"
    );
    assert_eq!(queue_format(&None, &Some("profile/p".into()), &none, &None, "d"), "profile/p");
}

#[test]
fn queue_job_builds_the_download() {
    let req = QueueRequest {
        url: Some("https://b".into()),
        urls: Some(vec!["https://a".into()]),
        format: None,
        profile: None,
        aliases: Some(s("x")),
        audio_format: None,
        force_generic_extractor: Some(s("true")),
        extra_params: Some(object(vec![("title", s("T"))])),
    };
    let job = queue_job(req, "video/best").ok().unwrap();
    assert_eq!(job.id, -1);
    assert_eq!(job.name, "https://a, https://b");
    assert_eq!(job.format, Some("alias/x".to_string()));
    assert_eq!(job.urls, vec!["https://a", "https://b"]);
    assert!(job.force_generic_extractor);
    assert_eq!(job.status, JobStatus::Pending);
    assert_eq!(job.job_type, JobType::YdlDownload);
    assert!(matches!(job.extra_params.get("title"), Some(JsonValue::Str(t)) if t == "T"));
}

#[test]
fn queue_job_without_urls_is_refused() {
    let req = QueueRequest {
        url: Some("".into()),
        urls: None,
        format: None,
        profile: None,
        aliases: None,
        audio_format: None,
        force_generic_extractor: None,
        extra_params: None,
    };
    assert_eq!(queue_job(req, "video/best").err(), Some("'url' and 'urls' query parameters omitted".to_string()));
}

fn cut_request(start: Option<&str>, end: Option<JsonValue>, mode: Option<&str>, output: &str) -> CutRequest {
    CutRequest {
        start: start.map(|x| x.to_string()),
        end,
        mode: mode.map(|x| x.to_string()),
        output: Some(output.to_string()),
    }
}

fn ok_checks() -> CutChecks {
    CutChecks { source_found: true, source_is_file: true, target_exists: false, end_after_start: true }
}

#[test]
fn cut_job_accepted() {
    let req = cut_request(Some("1:02"), Some(s("1:30.5")), None, " clip.mp4 ");
    let job = cut_job("v.mp4", &req, &ok_checks()).ok().unwrap();
    assert_eq!(job.name, "Cut v.mp4 [1:02 - 1:30.5]");
    assert_eq!(job.job_type, JobType::FfmpegCut);
    assert_eq!(job.urls, vec!["v.mp4"]);
    assert!(job.format.is_none());
    assert!(matches!(job.extra_params.get("output"), Some(JsonValue::Str(o)) if o == "clip.mp4"));
    assert!(matches!(job.extra_params.get("mode"), Some(JsonValue::Str(o)) if o == "fast"));
    assert!(matches!(job.extra_params.get("start"), Some(JsonValue::Str(o)) if o == "1:02"));
    assert!(matches!(job.extra_params.get("end"), Some(JsonValue::Str(o)) if o == "1:30.5"));
    let open = cut_request(None, None, Some("precise"), "c.mkv");
    let job = cut_job("v.mp4", &open, &ok_checks()).ok().unwrap();
    assert_eq!(job.name, "Cut v.mp4 [0 - end]");
    assert!(matches!(job.extra_params.get("end"), Some(JsonValue::Null)));
}

#[test]
fn cut_job_refusals() {
    let good = cut_request(Some("5"), Some(s("10")), Some("fast"), "c.mp4");
    let mut c = ok_checks();
    c.source_found = false;
    assert_eq!(cut_job("v", &good, &c).err(), Some("Invalid filename".to_string()));
    let mut c = ok_checks();
    c.source_is_file = false;
    assert_eq!(cut_job("v", &good, &c).err(), Some("File not found".to_string()));
    for bad in ["", "a/b", ".hidden", "   "] {
        let r = cut_request(Some("5"), None, None, bad);
        assert_eq!(cut_job("v", &r, &ok_checks()).err(), Some("Invalid output filename".to_string()));
    }
    let mut c = ok_checks();
    c.target_exists = true;
    assert_eq!(cut_job("v", &good, &c).err(), Some("Output file already exists".to_string()));
    let r = cut_request(Some("abc"), None, None, "c.mp4");
    assert_eq!(cut_job("v", &r, &ok_checks()).err(), Some("Invalid timestamp".to_string()));
    let r = cut_request(Some("1"), Some(s("")), None, "c.mp4");
    assert_eq!(cut_job("v", &r, &ok_checks()).err(), Some("Invalid timestamp".to_string()));
    let mut c = ok_checks();
    c.end_after_start = false;
    assert_eq!(cut_job("v", &good, &c).err(), Some("End time must be after start time".to_string()));
    let r = cut_request(Some("1"), None, Some("slow"), "c.mp4");
    assert_eq!(cut_job("v", &r, &ok_checks()).err(), Some("Invalid mode".to_string()));
}

#[test]
fn cut_end_values() {
    assert_eq!(cut_end(&cut_request(None, Some(JsonValue::PosInt(12)), None, "o")), Some("12".to_string()));
    assert_eq!(cut_end(&cut_request(None, Some(JsonValue::Float("2.5".into())), None, "o")), Some("2.5".to_string()));
    assert_eq!(cut_end(&cut_request(None, Some(s("")), None, "o")), Some("\"\"".to_string()));
    assert_eq!(cut_end(&cut_request(None, Some(JsonValue::Null), None, "o")), None);
    assert_eq!(cut_end(&cut_request(None, Some(JsonValue::Bool(true)), None, "o")), Some("true".to_string()));
}

#[test]
fn timestamps() {
    assert!(check_timestamps("12", &None));
    assert!(check_timestamps("12.5", &Some("1:02:03.25".to_string())));
    assert!(check_timestamps("59:59", &None));
    assert!(!check_timestamps("60:00", &None));
    assert!(!check_timestamps("1:2:3:4", &None));
    assert!(!check_timestamps("12", &Some("x".to_string())));
}

#[test]
fn stop_actions() {
    assert_eq!(stop_action(JobStatus::Pending, 5), StopAction::Abort);
    assert_eq!(stop_action(JobStatus::Scheduled, 0), StopAction::Abort);
    assert_eq!(stop_action(JobStatus::Running, 42), StopAction::Interrupt(42));
    assert_eq!(stop_action(JobStatus::Running, 0), StopAction::Abort);
    assert_eq!(stop_action(JobStatus::Completed, 0), StopAction::Abort);
    assert_eq!(stop_action(JobStatus::Failed, 9), StopAction::Refuse);
}

#[test]
fn stored_rows_decode() {
    let row = JobRow::from_columns(columns(9, "a\n\nb\n", Extra::empty()));
    assert_eq!(row.status, JobStatus::Pending);
    assert_eq!(row.job_type, JobType::YdlDownload);
    assert_eq!(row.urls, vec!["a", "b"]);
    assert_eq!(row.pid, 0);
    assert!(row.force_generic_extractor);
    assert_eq!(row.log, "log");
    let mut c = columns(1, "", Extra::empty());
    c.log = None;
    c.job_type = 2;
    let row = JobRow::from_columns(c);
    assert_eq!(row.status, JobStatus::Completed);
    assert_eq!(row.job_type, JobType::FfmpegCut);
    assert!(row.urls.is_empty());
    assert_eq!(row.log, "");
}

#[test]
fn urls_column_round_trip() {
    let urls = vec!["https://a".to_string(), "https://b".to_string()];
    let text = encode_urls(&urls);
    assert_eq!(text, "https://a\nhttps://b");
    assert_eq!(decode_urls(&text), urls);
    assert!(decode_urls(&encode_urls(&vec![])).is_empty());
}

#[test]
fn resumed_and_due_jobs() {
    let job = JobRow::from_columns(columns(0, "u", Extra::empty())).into_job();
    assert_eq!(job.status, JobStatus::Pending);
    assert_eq!(job.log, "Queue stopped");
    assert_eq!(job.pid, 0);
    assert_eq!(job.scheduled_at, None);
    assert_eq!(job.id, 7);
    let due = JobRow::from_columns(columns(5, "u", Extra::empty())).into_due_job();
    assert_eq!(due.status, JobStatus::Pending);
    assert_eq!(due.log, "Scheduled time reached");
}

#[test]
fn retry_drops_attempt_count() {
    let row = JobRow::from_columns(columns(2, "u", object(vec![("schedule_attempts", JsonValue::PosInt(3)), ("title", s("T"))])));
    let job = retry_job(&row);
    assert_eq!(job.id, -1);
    assert_eq!(job.status, JobStatus::Pending);
    assert_eq!(job.log, "");
    assert!(job.force_generic_extractor);
    assert!(job.extra_params.get("schedule_attempts").is_none());
    assert!(matches!(job.extra_params.get("title"), Some(JsonValue::Str(t)) if t == "T"));
}

#[test]
fn done_events() {
    let running = JobRow::from_columns(columns(0, "u", Extra::empty()));
    assert!(done_event(&running).is_none());
    let ok = JobRow::from_columns(columns(
        1,
        "u",
        object(vec![("old_version", s("1")), ("new_version", s("2")), ("message", s("Updated 1 → 2"))]),
    ));
    let ev = done_event(&ok).unwrap();
    assert!(ev.success);
    assert_eq!(ev.message, "Updated 1 → 2");
    assert!(matches!(ev.new_version, Some(JsonValue::Str(v)) if v == "2"));
    let failed = JobRow::from_columns(columns(2, "u", Extra::empty()));
    let ev = done_event(&failed).unwrap();
    assert!(!ev.success);
    assert_eq!(ev.message, "Failed");
    assert!(ev.old_version.is_none());
    let aborted = JobRow::from_columns(columns(4, "u", object(vec![("message", JsonValue::PosInt(1))])));
    assert_eq!(done_event(&aborted).unwrap().message, "Failed");
}

#[test]
fn update_jobs() {
    let job = update_job("stable");
    assert_eq!(job.name, "Update yt-dlp (stable)");
    assert_eq!(job.job_type, JobType::YtdlpUpdate);
    assert!(job.urls.is_empty());
    assert!(matches!(job.extra_params.get("channel"), Some(JsonValue::Str(c)) if c == "stable"));
    let mut done = Job::new("u".into(), JobType::YtdlpUpdate, None, vec![]);
    done.extra_params = object(vec![("new_version", s("2025.01.01"))]);
    assert_eq!(installed_version(&done), None);
    done.status = JobStatus::Completed;
    assert_eq!(installed_version(&done), Some("2025.01.01".to_string()));
}

#[test]
fn counts_per_status() {
    let counts = job_counts(&vec![(1, 4), (3, 2), (9, 100), (0, 1)]);
    assert_eq!(counts.len(), 6);
    assert_eq!(counts.get("completed"), Some(&4));
    assert_eq!(counts.get("pending"), Some(&2));
    assert_eq!(counts.get("running"), Some(&1));
    assert_eq!(counts.get("failed"), Some(&0));
    let stats = with_queue_length(counts);
    assert_eq!(stats.get("queue"), Some(&2));
    assert_eq!(with_queue_length(KeyMap::new()).get("queue"), Some(&0));
}

#[test]
fn process_output_accumulates() {
    let mut log = String::new();
    let shown = append_output(&mut log, "[download]  10.0% of 1MiB\r[download]  55.5% of 1MiB");
    assert_eq!(log, "[download]  10.0% of 1MiB\r[download]  55.5% of 1MiB\n");
    assert_eq!(shown, "[download]  55.5% of 1MiB");
    let shown = append_output(&mut log, "done");
    assert_eq!(shown, "[download]  55.5% of 1MiB\ndone");
}

#[test]
fn percentages() {
    assert_eq!(percent_text("[download]  42.5% of 10MiB"), Some("42.5".to_string()));
    assert_eq!(percent_text("100%"), Some("100".to_string()));
    assert_eq!(percent_text("no progress"), None);
    assert_eq!(percent_candidates("1%\nx\n[download] 30% y\nz"), vec!["30".to_string(), "1".to_string()]);
}

#[test]
fn json_lines_skip_blank_lines() {
    assert_eq!(json_lines("{\"a\":1}\n  \n{\"b\":2}\n"), vec!["{\"a\":1}", "{\"b\":2}"]);
}

#[test]
fn listing_choices() {
    assert!(is_listed("video.mp4"));
    assert!(!is_listed(".partial"));
    assert!(should_descend(0, &vec![(1, 2)], (1, 3)));
    assert!(!should_descend(0, &vec![(1, 2)], (1, 2)));
    assert!(!should_descend(32, &vec![], (1, 2)));
}

#[test]
fn stored_job_reads_back() {
    let mut job = Job::new("n".into(), JobType::FfmpegCut, Some("f".into()), vec!["u1".into(), "u2".into()]);
    job.status = JobStatus::Failed;
    job.force_generic_extractor = true;
    job.log = "l".into();
    job.pid = 12;
    let (status, kind, force) = yt_dlp_server::rows::stored_codes(&job);
    let row = JobRow::from_columns(RowColumns {
        id: 3,
        name: job.name.clone(),
        status,
        log: Some(job.log.clone()),
        last_update: String::new(),
        format: job.format.clone(),
        job_type: kind,
        url: encode_urls(&job.urls),
        pid: Some(job.pid),
        force_generic_extractor: Some(force),
        extra_params: Extra::empty(),
        scheduled_at: None,
    });
    assert_eq!(row.name, job.name);
    assert_eq!(row.status, job.status);
    assert_eq!(row.log, job.log);
    assert_eq!(row.format, job.format);
    assert_eq!(row.job_type, job.job_type);
    assert_eq!(row.urls, job.urls);
    assert_eq!(row.pid, job.pid);
    assert_eq!(row.force_generic_extractor, job.force_generic_extractor);
}
