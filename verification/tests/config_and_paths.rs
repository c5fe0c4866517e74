use yt_dlp_server::aliases::{expand_alias, normalize_use, resolve_aliases};
use yt_dlp_server::config::{default_server_config, Alias, AppConfig, ConfigError, Profile};
use yt_dlp_server::json::{JsonValue, KeyMap};
use yt_dlp_server::paths::{
    apply_download_root, config_file_path, download_root_from, finished_path_from, get_static_prefix,
    inside_folder, paths_home, rebase_download_path,
};
use yt_dlp_server::ytdlp::{build_cmd, merge_ydl_options, opts_to_args, split_format, value_to_opt};

fn s(x: &str) -> JsonValue {
    JsonValue::Str(x.to_string())
}

fn map(pairs: Vec<(&str, JsonValue)>) -> KeyMap<JsonValue> {
    let mut m = KeyMap::new();
    for (k, v) in pairs {
        m.insert(k.to_string(), v);
    }
    m
}

fn get<'a>(m: &'a KeyMap<JsonValue>, k: &str) -> Option<&'a JsonValue> {
    m.get(k)
}

fn as_text(v: Option<&JsonValue>) -> Option<String> {
    match v {
        Some(JsonValue::Str(t)) => Some(t.clone()),
        _ => None,
    }
}

fn alias(name: Option<&str>, opts: KeyMap<JsonValue>, use_list: Option<JsonValue>, ui: bool) -> Alias {
    Alias { name: name.map(|n| n.to_string()), ydl_options: opts, use_list, ui }
}

fn profile(name: Option<&str>, opts: KeyMap<JsonValue>, use_list: Option<JsonValue>) -> Profile {
    Profile { name: name.map(|n| n.to_string()), ydl_options: opts, use_: None, use_list }
}

fn config(opts: KeyMap<JsonValue>, profiles: Vec<(&str, Profile)>, aliases: Vec<(&str, Alias)>) -> AppConfig {
    let mut p = KeyMap::new();
    for (k, v) in profiles {
        p.insert(k.to_string(), v);
    }
    let mut a = KeyMap::new();
    for (k, v) in aliases {
        a.insert(k.to_string(), v);
    }
    AppConfig { ydl_server: default_server_config("/downloads"), ydl_options: opts, profiles: p, aliases: a }
}

fn message(e: ConfigError) -> String {
    e.message()
}

#[test]
fn defaults_of_the_server_settings() {
    let d = default_server_config("/srv");
    assert_eq!(d.port, 8080);
    assert_eq!(d.host, "0.0.0.0");
    assert!(!d.debug);
    assert_eq!(d.metadata_db_path, "/config/jobs.db");
    assert_eq!(d.output_playlist, "/srv/%(playlist_title)s [%(playlist_id)s]/%(title)s.%(ext)s");
    assert_eq!(d.max_log_entries, 100);
    assert_eq!(d.default_format, "video/best");
    assert_eq!(d.download_workers_count, 2);
    assert!(d.schedule_upcoming);
    assert_eq!(d.schedule_check_interval, 60);
    assert_eq!(d.schedule_max_attempts, 24);
    assert_eq!(d.update_channel, "nightly");
}

#[test]
fn aliases_expand_through_their_uses() {
    let mut cfg = config(
        map(vec![("output", s("/downloads/%(title)s.%(ext)s"))]),
        vec![("p", profile(None, map(vec![("z", s("own"))]), Some(JsonValue::Array(vec!["a".into()], "[\"a\"]".into()))))],
        vec![
            ("a", alias(None, map(vec![("x", JsonValue::PosInt(1))]), Some(s("b")), true)),
            ("b", alias(None, map(vec![("x", JsonValue::PosInt(2)), ("y", JsonValue::PosInt(3))]), None, true)),
        ],
    );
    assert!(resolve_aliases(&mut cfg).is_ok());
    let a = cfg.aliases.get("a").unwrap();
    assert!(a.use_list.is_none());
    assert!(matches!(a.ydl_options.get("x"), Some(JsonValue::PosInt(1))));
    assert!(matches!(a.ydl_options.get("y"), Some(JsonValue::PosInt(3))));
    let p = cfg.profiles.get("p").unwrap();
    assert!(p.use_list.is_none() && p.use_.is_none());
    assert!(matches!(p.ydl_options.get("x"), Some(JsonValue::PosInt(1))));
    assert!(matches!(p.ydl_options.get("y"), Some(JsonValue::PosInt(3))));
    assert_eq!(as_text(p.ydl_options.get("z")), Some("own".to_string()));
    assert_eq!(p.ydl_options.len(), 3);
}

#[test]
fn alias_cycle_is_reported() {
    let mut cfg = config(
        map(vec![]),
        vec![],
        vec![
            ("a", alias(None, map(vec![]), Some(s("b")), true)),
            ("b", alias(None, map(vec![]), Some(s("a")), true)),
        ],
    );
    let e = resolve_aliases(&mut cfg).unwrap_err();
    assert_eq!(message(e), "Recursive alias definition: a -> b -> a");
}

#[test]
fn alias_using_itself_is_a_cycle() {
    let cfg = config(map(vec![]), vec![], vec![("me", alias(None, map(vec![]), Some(s("me")), true))]);
    let mut stack = Vec::new();
    let e = expand_alias("me", &cfg.aliases, &mut stack).err().unwrap();
    assert_eq!(message(e), "Recursive alias definition: me -> me");
}

#[test]
fn unknown_alias_is_reported() {
    let mut cfg = config(map(vec![]), vec![], vec![("a", alias(None, map(vec![]), Some(s("zzz")), true))]);
    let e = resolve_aliases(&mut cfg).unwrap_err();
    assert_eq!(message(e), "Unknown alias 'zzz'");
}

#[test]
fn use_values_list_alias_names() {
    assert_eq!(normalize_use(&Some(s("a"))), vec!["a".to_string()]);
    assert_eq!(normalize_use(&Some(JsonValue::Array(vec!["a".into(), "b".into()], "[\"a\",1,\"b\"]".into()))), vec!["a".to_string(), "b".to_string()]);
    assert!(normalize_use(&Some(JsonValue::PosInt(3))).is_empty());
    assert!(normalize_use(&None).is_empty());
}

#[test]
fn download_root_rebases_paths() {
    assert_eq!(download_root_from(Some(" /srv/media// ")), "/srv/media");
    assert_eq!(download_root_from(Some("   ")), "/downloads");
    assert_eq!(download_root_from(Some("///")), "/downloads");
    assert_eq!(download_root_from(None), "/downloads");
    assert_eq!(rebase_download_path("/downloads", "/srv"), "/srv");
    assert_eq!(rebase_download_path("/downloads/a/b", "/srv"), "/srv/a/b");
    assert_eq!(rebase_download_path("/data/x", "/srv"), "/srv/x");
    assert_eq!(rebase_download_path("/datax", "/srv"), "/datax");
    assert_eq!(rebase_download_path("/elsewhere/y", "/srv"), "/elsewhere/y");
}

#[test]
fn apply_download_root_moves_configured_paths() {
    let mut cfg = config(
        map(vec![("output", s("/downloads/%(title)s.%(ext)s")), ("paths", s("/data")), ("other", s("/downloads/x"))]),
        vec![("p", profile(None, map(vec![("output", s("/data/p/%(title)s.%(ext)s"))]), None))],
        vec![],
    );
    apply_download_root(&mut cfg, "/srv");
    assert_eq!(as_text(get(&cfg.ydl_options, "output")), Some("/srv/%(title)s.%(ext)s".to_string()));
    assert_eq!(as_text(get(&cfg.ydl_options, "paths")), Some("/srv".to_string()));
    assert_eq!(as_text(get(&cfg.ydl_options, "other")), Some("/downloads/x".to_string()));
    assert_eq!(cfg.ydl_server.output_playlist, "/downloads/%(playlist_title)s [%(playlist_id)s]/%(title)s.%(ext)s".replace("/downloads", "/srv"));
    let p = cfg.profiles.get("p").unwrap();
    assert_eq!(as_text(p.ydl_options.get("output")), Some("/srv/p/%(title)s.%(ext)s".to_string()));
}

#[test]
fn static_prefix_of_templates() {
    assert_eq!(get_static_prefix("/downloads/%(title)s.%(ext)s"), "/downloads");
    assert_eq!(get_static_prefix("%(title)s"), "");
    assert_eq!(get_static_prefix("/%(title)s"), "/");
    assert_eq!(get_static_prefix("a/100%%/b/%(t)s"), "a/100%%/b");
    assert_eq!(get_static_prefix("/x/y"), "/x/y");
}

#[test]
fn paths_home_cases() {
    assert_eq!(paths_home(Some(&s("home:/x"))), Some("/x".to_string()));
    assert_eq!(paths_home(Some(&s("temp:/t"))), None);
    assert_eq!(paths_home(Some(&s("dir:"))), Some("dir:".to_string()));
    assert_eq!(paths_home(Some(&s("/plain"))), None);
    assert_eq!(paths_home(Some(&JsonValue::PosInt(1))), None);
    assert_eq!(paths_home(None), None);
}

#[test]
fn finished_path_cases() {
    assert_eq!(finished_path_from("/downloads/%(title)s.%(ext)s", None, "/cwd").ok(), Some("/downloads".to_string()));
    assert_eq!(finished_path_from("sub/%(title)s", Some(&s("home:/h/")), "/cwd").ok(), Some("/h/sub".to_string()));
    assert_eq!(finished_path_from("sub/%(title)s", None, "/cwd").ok(), Some("/cwd/sub".to_string()));
    let e = finished_path_from("/%(title)s", None, "/cwd").unwrap_err();
    assert_eq!(
        message(e),
        "Could not determine the download directory from ydl_options.output ('/%(title)s'): it resolves to the filesystem root."
    );
    let cfg = config(map(vec![]), vec![], vec![]);
    assert_eq!(message(cfg.validate("/cwd").unwrap_err()), "ydl_options.output is required");
    assert_eq!(cfg.finished_path("/cwd").ok(), Some("/downloads".to_string()));
}

#[test]
fn config_file_path_cases() {
    assert_eq!(config_file_path(None), "/config/config.yml");
    assert_eq!(config_file_path(Some("/etc/ydl.yml")), "/etc/ydl.yml");
    assert_eq!(config_file_path(Some("/etc/ydl/")), "/etc/ydl/config.yml");
    assert_eq!(config_file_path(Some("/etc/a.d/..")), "/etc/a.d/../config.yml");
    assert_eq!(config_file_path(Some("./my.conf/.")), "./my.conf/.");
}

#[test]
fn inside_folder_cases() {
    assert!(inside_folder("/a/b", "/a/b/c"));
    assert!(inside_folder("/a/b", "/a/b"));
    assert!(inside_folder("/a/b/", "/a/b/./c"));
    assert!(!inside_folder("/a/b", "/a/bc"));
    assert!(!inside_folder("/a/b", "/a"));
    assert!(!inside_folder("/a/b", "a/b/c"));
}

#[test]
fn formats_and_aliases_for_the_ui() {
    let cfg = config(
        map(vec![]),
        vec![("music", profile(Some("Music"), map(vec![]), None)), ("raw", profile(None, map(vec![]), None))],
        vec![("a", alias(Some("Alias A"), map(vec![]), None, true)), ("h", alias(None, map(vec![]), None, false)), ("u", alias(None, map(vec![]), None, true))],
    );
    let f = cfg.ydl_formats();
    assert_eq!(f.len(), 3);
    let video = f.get("Video").unwrap();
    assert_eq!(video.len(), 8);
    assert_eq!(video.get("video/flv").map(|x| x.as_str()), Some("Flash Video (FLV)"));
    let audio = f.get("Audio").unwrap();
    assert_eq!(audio.get("bestaudio/best").map(|x| x.as_str()), Some("Best Audio"));
    let profiles = f.get("Profiles").unwrap();
    assert_eq!(profiles.get("profile/music").map(|x| x.as_str()), Some("Music"));
    assert_eq!(profiles.get("profile/raw").map(|x| x.as_str()), Some("raw"));
    let ui = cfg.ui_aliases();
    assert_eq!(ui.len(), 2);
    assert_eq!(ui.get("a").map(|x| x.as_str()), Some("Alias A"));
    assert_eq!(ui.get("u").map(|x| x.as_str()), Some("u"));
    assert!(ui.get("h").is_none());
    let empty = config(map(vec![]), vec![], vec![]);
    assert_eq!(empty.ydl_formats().len(), 2);
}

#[test]
fn option_values_and_arguments() {
    assert_eq!(value_to_opt(&JsonValue::Bool(false)), None);
    assert_eq!(value_to_opt(&JsonValue::Bool(true)), Some(String::new()));
    assert_eq!(value_to_opt(&JsonValue::Null), Some(String::new()));
    assert_eq!(value_to_opt(&JsonValue::NegInt(-5)), Some("-5".to_string()));
    assert_eq!(value_to_opt(&JsonValue::Float("1.5".into())), Some("1.5".to_string()));
    let o = map(vec![("a", JsonValue::Bool(true)), ("b", s("v")), ("c", JsonValue::Bool(false)), ("d", JsonValue::PosInt(3))]);
    assert_eq!(opts_to_args(&o), vec!["--a", "--b", "v", "--d", "3"]);
    let cmd = build_cmd("yt-dlp", &o, &vec!["u1".to_string(), "u2".to_string()], &vec!["-J".to_string()]);
    assert_eq!(cmd, vec!["yt-dlp", "--a", "--b", "v", "--d", "3", "-J", "--", "u1", "u2"]);
}

#[test]
fn split_format_classifies_parts() {
    let r = split_format("video/mp4,,audio/mp3,profile/p,alias/a,alias/b,bestaudio/best");
    assert_eq!(r.format, Some("video/mp4".to_string()));
    assert_eq!(r.audio, Some("bestaudio/best".to_string()));
    assert_eq!(r.profile, Some("profile/p".to_string()));
    assert_eq!(r.aliases, vec!["alias/a".to_string(), "alias/b".to_string()]);
}

fn merge_config() -> AppConfig {
    config(
        map(vec![("output", s("/downloads/%(title)s.%(ext)s"))]),
        vec![("p", profile(None, map(vec![("format", s("mp4")), ("x", JsonValue::Bool(true))]), None))],
        vec![("a", alias(None, map(vec![("format", s("webm")), ("y", JsonValue::PosInt(1))]), None, true))],
    )
}

#[test]
fn merge_options_formats() {
    let cfg = merge_config();
    let m = merge_ydl_options(&cfg, None).unwrap();
    assert_eq!(as_text(m.get("format")), Some("video/best".to_string()));
    assert_eq!(as_text(m.get("output")), Some("/downloads/%(title)s.%(ext)s".to_string()));
    let m = merge_ydl_options(&cfg, Some("video/mp4")).unwrap();
    assert_eq!(as_text(m.get("format")), Some("mp4+bestaudio/best".to_string()));
    let m = merge_ydl_options(&cfg, Some("video/best")).unwrap();
    assert_eq!(as_text(m.get("format")), Some("bestvideo+bestaudio/best".to_string()));
    let m = merge_ydl_options(&cfg, Some("video/mp4,audio/m4a")).unwrap();
    assert_eq!(as_text(m.get("format")), Some("mp4+m4a".to_string()));
    let m = merge_ydl_options(&cfg, Some("audio/mp3")).unwrap();
    assert!(m.get("format").is_none());
    assert!(matches!(m.get("extract-audio"), Some(JsonValue::Null)));
    assert_eq!(as_text(m.get("audio-format")), Some("mp3".to_string()));
}

#[test]
fn merge_options_profiles_and_aliases() {
    let cfg = merge_config();
    let m = merge_ydl_options(&cfg, Some("profile/p")).unwrap();
    assert_eq!(as_text(m.get("format")), Some("mp4+bestaudio/best".to_string()));
    assert!(matches!(m.get("x"), Some(JsonValue::Bool(true))));
    let m = merge_ydl_options(&cfg, Some("alias/a")).unwrap();
    assert_eq!(as_text(m.get("format")), Some("webm+bestaudio/best".to_string()));
    assert!(matches!(m.get("y"), Some(JsonValue::PosInt(1))));
    assert_eq!(merge_ydl_options(&cfg, Some("profile/zz")).err().unwrap(), "Unknown profile profile/zz");
    assert_eq!(merge_ydl_options(&cfg, Some("alias/zz")).err().unwrap(), "Unknown alias alias/zz");
}

#[test]
fn plain_alias_expands_to_its_options() {
    let cfg = config(map(vec![]), vec![], vec![("b", alias(None, map(vec![("y", JsonValue::PosInt(3))]), None, true))]);
    let mut stack = Vec::new();
    let m = expand_alias("b", &cfg.aliases, &mut stack).ok().unwrap();
    assert_eq!(m.len(), 1);
    assert!(matches!(m.get("y"), Some(JsonValue::PosInt(3))));
    assert!(stack.is_empty());
}

#[test]
fn resolving_twice_changes_nothing() {
    let mut cfg = config(
        map(vec![]),
        vec![],
        vec![
            ("a", alias(None, map(vec![("x", JsonValue::PosInt(1))]), Some(s("b")), true)),
            ("b", alias(None, map(vec![("y", JsonValue::PosInt(2))]), None, true)),
        ],
    );
    resolve_aliases(&mut cfg).ok().unwrap();
    let first = cfg.aliases.get("a").unwrap().ydl_options.len();
    resolve_aliases(&mut cfg).ok().unwrap();
    let a = cfg.aliases.get("a").unwrap();
    assert_eq!(a.ydl_options.len(), first);
    assert!(matches!(a.ydl_options.get("y"), Some(JsonValue::PosInt(2))));
}

#[test]
fn profile_options_win_over_alias_options() {
    let mut cfg = config(
        map(vec![]),
        vec![("p", profile(None, map(vec![("x", s("mine"))]), Some(s("a"))))],
        vec![("a", alias(None, map(vec![("x", s("alias")), ("y", s("alias"))]), None, true))],
    );
    resolve_aliases(&mut cfg).ok().unwrap();
    let p = cfg.profiles.get("p").unwrap();
    assert_eq!(as_text(p.ydl_options.get("x")), Some("mine".to_string()));
    assert_eq!(as_text(p.ydl_options.get("y")), Some("alias".to_string()));
}

#[test]
fn static_prefix_begins_the_template() {
    for t in ["/downloads/%(title)s.%(ext)s", "/%(x)s", "a/b/%(c)s", "%(t)s", "/x/y"] {
        assert!(t.starts_with(get_static_prefix(t).as_str()));
    }
}

#[test]
fn joined_names_stay_inside() {
    for name in ["v.mp4", "sub/clip.mkv", "", "../escape"] {
        let p = yt_dlp_server::tasks::path_join("/srv/media", name);
        assert!(inside_folder("/srv/media", &p));
        let q = yt_dlp_server::tasks::path_join("/srv/media/", name);
        assert!(inside_folder("/srv/media/", &q));
    }
}
