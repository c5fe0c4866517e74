use yt_dlp_server::ffmpeg::{cut_command, display};
use yt_dlp_server::jobs::{clean_logs, format_cmd, shell_quote, JobStatus, JobType};
use yt_dlp_server::rows::{stored_codes};
use yt_dlp_server::jobs::Job;
use yt_dlp_server::ytdlp::{cmd_display, prefix_format};

fn strings(v: &[&str]) -> Vec<String> {
    v.iter().map(|s| s.to_string()).collect()
}

#[test]
fn status_names_and_codes() {
    let all = [
        JobStatus::Running,
        JobStatus::Completed,
        JobStatus::Failed,
        JobStatus::Pending,
        JobStatus::Aborted,
        JobStatus::Scheduled,
    ];
    let names = ["Running", "Completed", "Failed", "Pending", "Aborted", "Scheduled"];
    for (i, s) in all.iter().enumerate() {
        assert_eq!(s.as_str(), names[i]);
        assert_eq!(s.code(), i as i32);
        assert_eq!(JobStatus::from_i32(i as i32), Some(*s));
        assert_eq!(JobStatus::from_name(&names[i].to_lowercase()), Some(*s));
        assert_eq!(JobStatus::from_name(&names[i].to_uppercase()), Some(*s));
    }
    assert_eq!(JobStatus::from_i32(6), None);
    assert_eq!(JobStatus::from_i32(-1), None);
    assert_eq!(JobStatus::from_name("done"), None);
}

#[test]
fn job_type_codes() {
    assert_eq!(JobType::from_i32(0), Some(JobType::YdlDownload));
    assert_eq!(JobType::from_i32(1), Some(JobType::YtdlpUpdate));
    assert_eq!(JobType::from_i32(2), Some(JobType::FfmpegCut));
    assert_eq!(JobType::from_i32(3), None);
    assert_eq!(JobType::FfmpegCut.code(), 2);
}

#[test]
fn clean_logs_keeps_last_redraw_and_drops_empty_lines() {
    assert_eq!(clean_logs("a\n[download] 10%\r[download] 50%\n\nend\n"), "a\n[download] 50%\nend");
    assert_eq!(clean_logs("only\r"), "");
    assert_eq!(clean_logs(""), "");
    assert_eq!(clean_logs("x\r\ny"), "x\ny");
}

#[test]
fn clean_logs_twice_is_once() {
    let once = clean_logs("a\rb\n\n c\r\n d \r e");
    assert_eq!(clean_logs(&once), once);
}

#[test]
fn shell_quote_cases() {
    assert_eq!(shell_quote(""), "''");
    assert_eq!(shell_quote("abc-_./:@+9"), "abc-_./:@+9");
    assert_eq!(shell_quote("a b"), "'a b'");
    assert_eq!(shell_quote("it's"), "'it'\\''s'");
}

#[test]
fn format_cmd_redacts_secrets() {
    let cmd = strings(&["yt-dlp", "--username", "me", "--password", "secret", "-o", "a b", "--", "url"]);
    assert_eq!(format_cmd(&cmd), "yt-dlp --username *** --password *** -o 'a b' -- url");
    assert_eq!(cmd_display(&cmd), format_cmd(&cmd));
    let cmd2 = strings(&["x", "--add-header", "--client-secret", "y"]);
    assert_eq!(format_cmd(&cmd2), "x --add-header *** ***");
}

#[test]
fn prefix_format_adds_prefix_once() {
    assert_eq!(prefix_format("profile", "music"), "profile/music");
    assert_eq!(prefix_format("profile", "profile/music"), "profile/music");
    assert_eq!(prefix_format("audio", prefix_format("audio", "mp3").as_str()), "audio/mp3");
}

#[test]
fn cut_command_fast_and_precise() {
    let fast = cut_command("ffmpeg", "/d/in.mp4", "/d/out.mp4", "10", Some("20"), "fast");
    assert_eq!(
        fast,
        strings(&[
            "ffmpeg", "-nostdin", "-hide_banner", "-y", "-ss", "10", "-to", "20", "-i", "/d/in.mp4", "-c", "copy",
            "-avoid_negative_ts", "make_zero", "/d/out.mp4"
        ])
    );
    let precise = cut_command("ffmpeg", "/d/in.mp4", "/d/out.mp4", "0", None, "precise");
    assert_eq!(
        precise,
        strings(&["ffmpeg", "-nostdin", "-hide_banner", "-y", "-ss", "0", "-i", "/d/in.mp4", "/d/out.mp4"])
    );
    assert_eq!(display(&precise), "ffmpeg -nostdin -hide_banner -y -ss 0 -i /d/in.mp4 /d/out.mp4");
}

#[test]
fn stored_codes_of_a_job() {
    let mut job = Job::new("n".to_string(), JobType::FfmpegCut, None, vec![]);
    job.force_generic_extractor = true;
    job.status = JobStatus::Scheduled;
    assert_eq!(stored_codes(&job), (5, 2, 1));
}

#[test]
fn trim_knows_every_white_space_character() {
    for c in (0u32..=0x10FFFF).filter_map(char::from_u32) {
        let s = c.to_string();
        let t = yt_dlp_server::text::trim(&s);
        assert_eq!(t.is_empty(), c.is_whitespace(), "{:?}", c);
    }
}

#[test]
fn quoted_words_read_back_in_a_shell() {
    for w in ["", "plain", "a b", "it's", "$HOME", "x'y'z", "tab\there"] {
        let q = shell_quote(w);
        let mut out = String::new();
        let mut quoted = false;
        let mut escaped = false;
        for c in q.chars() {
            if escaped {
                out.push(c);
                escaped = false;
            } else if quoted {
                if c == '\'' { quoted = false } else { out.push(c) }
            } else if c == '\'' {
                quoted = true;
            } else if c == '\\' {
                escaped = true;
            } else {
                assert!(c.is_ascii_alphanumeric() || "-_./:@+".contains(c));
                out.push(c);
            }
        }
        assert!(!quoted && !escaped);
        assert_eq!(out, w);
    }
}
