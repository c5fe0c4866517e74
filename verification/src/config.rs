//! Server configuration: settings and their defaults, profiles and aliases,
//! alias expansion, download-root rebasing and the finished-files folder.
use vstd::prelude::*;
use crate::json::{has_key, key_index, last_value, lookup, sorted, DeepClone, JsonV, JsonValue, KeyMap};
use crate::jobs::{clone_opt, opt_view};
use crate::text::{concat, owned, starts_with};
use vstd::string::StringExecFns;

verus! {

/// The `ydl_server` section of the configuration.
pub struct YdlServerConfig {
    pub port: u16,
    pub host: String,
    pub debug: bool,
    pub metadata_db_path: String,
    pub output_playlist: String,
    pub max_log_entries: usize,
    pub default_format: String,
    pub download_workers_count: usize,
    pub schedule_upcoming: bool,
    pub schedule_check_interval: u64,
    pub schedule_max_attempts: u32,
    pub update_channel: String,
}

impl YdlServerConfig {
    /// A copy of the settings.
    pub fn copy(&self) -> (r: Self)
        ensures
            r.port == self.port,
            r.host@ == self.host@,
            r.debug == self.debug,
            r.metadata_db_path@ == self.metadata_db_path@,
            r.output_playlist@ == self.output_playlist@,
            r.max_log_entries == self.max_log_entries,
            r.default_format@ == self.default_format@,
            r.download_workers_count == self.download_workers_count,
            r.schedule_upcoming == self.schedule_upcoming,
            r.schedule_check_interval == self.schedule_check_interval,
            r.schedule_max_attempts == self.schedule_max_attempts,
            r.update_channel@ == self.update_channel@,
    {
        YdlServerConfig {
            port: self.port,
            host: self.host.clone(),
            debug: self.debug,
            metadata_db_path: self.metadata_db_path.clone(),
            output_playlist: self.output_playlist.clone(),
            max_log_entries: self.max_log_entries,
            default_format: self.default_format.clone(),
            download_workers_count: self.download_workers_count,
            schedule_upcoming: self.schedule_upcoming,
            schedule_check_interval: self.schedule_check_interval,
            schedule_max_attempts: self.schedule_max_attempts,
            update_channel: self.update_channel.clone(),
        }
    }
}

/// A named set of options a download can ask for with `profile/<key>`.
pub struct Profile {
    pub name: Option<String>,
    pub ydl_options: KeyMap<JsonValue>,
    pub use_: Option<JsonValue>,
    pub use_list: Option<JsonValue>,
}

/// The mathematical value of a profile.
pub struct ProfileV {
    pub name: Option<Seq<char>>,
    pub ydl_options: Seq<(Seq<char>, JsonV)>,
    pub use_: Option<JsonV>,
    pub use_list: Option<JsonV>,
}

/// The view of an optional JSON value.
pub open spec fn opt_json(o: Option<JsonValue>) -> Option<JsonV> {
    match o {
        Some(v) => Some(v@),
        None => None,
    }
}

fn clone_opt_json(o: &Option<JsonValue>) -> (r: Option<JsonValue>)
    ensures
        opt_json(r) == opt_json(*o),
{
    match o {
        Some(v) => Some(v.deep_clone()),
        None => None,
    }
}

impl View for Profile {
    type V = ProfileV;

    open spec fn view(&self) -> ProfileV {
        ProfileV {
            name: opt_view(self.name),
            ydl_options: self.ydl_options@,
            use_: opt_json(self.use_),
            use_list: opt_json(self.use_list),
        }
    }
}

impl DeepClone for Profile {
    fn deep_clone(&self) -> (r: Self) {
        Profile {
            name: clone_opt(&self.name),
            ydl_options: self.ydl_options.deep_clone_map(),
            use_: clone_opt_json(&self.use_),
            use_list: clone_opt_json(&self.use_list),
        }
    }
}

/// A named set of options that downloads, profiles and other aliases can
/// use with `alias/<key>`.
pub struct Alias {
    pub name: Option<String>,
    pub ydl_options: KeyMap<JsonValue>,
    pub use_list: Option<JsonValue>,
    pub ui: bool,
}

/// The mathematical value of an alias.
pub struct AliasV {
    pub name: Option<Seq<char>>,
    pub ydl_options: Seq<(Seq<char>, JsonV)>,
    pub use_list: Option<JsonV>,
    pub ui: bool,
}

impl View for Alias {
    type V = AliasV;

    open spec fn view(&self) -> AliasV {
        AliasV {
            name: opt_view(self.name),
            ydl_options: self.ydl_options@,
            use_list: opt_json(self.use_list),
            ui: self.ui,
        }
    }
}

impl DeepClone for Alias {
    fn deep_clone(&self) -> (r: Self) {
        Alias {
            name: clone_opt(&self.name),
            ydl_options: self.ydl_options.deep_clone_map(),
            use_list: clone_opt_json(&self.use_list),
            ui: self.ui,
        }
    }
}

/// The whole configuration.
pub struct AppConfig {
    pub ydl_server: YdlServerConfig,
    pub ydl_options: KeyMap<JsonValue>,
    pub profiles: KeyMap<Profile>,
    pub aliases: KeyMap<Alias>,
}

/// The mathematical profiles table.
pub type ProfilesV = Seq<(Seq<char>, ProfileV)>;

/// The mathematical aliases table.
pub type AliasesV = Seq<(Seq<char>, AliasV)>;

/// Every profile's and alias's options are in key order.
pub open spec fn profiles_wf(p: Seq<(Seq<char>, ProfileV)>) -> bool {
    sorted(p) && forall|i: int| 0 <= i < p.len() ==> sorted(#[trigger] p[i].1.ydl_options)
}

/// Every alias's options are in key order.
pub open spec fn aliases_wf(a: Seq<(Seq<char>, AliasV)>) -> bool {
    sorted(a) && forall|i: int| 0 <= i < a.len() ==> sorted(#[trigger] a[i].1.ydl_options)
}

impl AppConfig {
    /// All maps are in key order.
    pub open spec fn wf(&self) -> bool {
        &&& self.ydl_options.wf()
        &&& profiles_wf(self.profiles@)
        &&& aliases_wf(self.aliases@)
    }
}

/// A configuration error.
pub enum ConfigError {
    Message(String),
    /// A file system error, by its message.
    Io(String),
    /// A YAML error, by its message.
    Yaml(String),
}

impl ConfigError {
    /// The error's message.
    pub fn message(&self) -> (r: String)
        ensures
            r@ == match self {
                ConfigError::Message(m) => m@,
                ConfigError::Io(m) => m@,
                ConfigError::Yaml(m) => m@,
            },
    {
        match self {
            ConfigError::Message(m) => m.clone(),
            ConfigError::Io(m) => m.clone(),
            ConfigError::Yaml(m) => m.clone(),
        }
    }
}

/// A value stored in a sorted map is one of its entries' values.
pub proof fn lemma_lookup_some<V>(s: Seq<(Seq<char>, V)>, k: Seq<char>)
    requires
        lookup(s, k) is Some,
    ensures
        0 <= key_index(s, k) < s.len(),
        s[key_index(s, k)].0 == k,
        lookup(s, k) == Some(s[key_index(s, k)].1),
{
}

} // verus!

verus! {

impl DeepClone for String {
    fn deep_clone(&self) -> (r: Self) {
        self.clone()
    }
}

/// The default port.
pub fn default_port() -> (r: u16)
    ensures
        r == 8080,
{
    8080
}

/// The default listening address.
pub fn default_host() -> (r: String)
    ensures
        r@ == "0.0.0.0"@,
{
    owned("0.0.0.0")
}

/// The default jobs database.
pub fn default_db_path() -> (r: String)
    ensures
        r@ == "/config/jobs.db"@,
{
    owned("/config/jobs.db")
}

/// The default playlist output template under the download root `root`.
pub fn default_output_playlist(root: &str) -> (r: String)
    ensures
        r@ == root@ + "/"@ + "%(playlist_title)s [%(playlist_id)s]/%(title)s.%(ext)s"@,
{
    let mut s = concat(root, "/");
    s.append("%(playlist_title)s [%(playlist_id)s]/%(title)s.%(ext)s");
    s
}

/// The default number of jobs the log lists.
pub fn default_max_logs() -> (r: usize)
    ensures
        r == 100,
{
    100
}

/// The default format.
pub fn default_format() -> (r: String)
    ensures
        r@ == "video/best"@,
{
    owned("video/best")
}

/// The default number of download workers.
pub fn default_workers() -> (r: usize)
    ensures
        r == 2,
{
    2
}

/// `true`, the default of the flags that are on unless configured off.
pub fn default_true() -> (r: bool)
    ensures
        r,
{
    true
}

/// The default number of seconds between checks for due scheduled jobs.
pub fn default_schedule_interval() -> (r: u64)
    ensures
        r == 60,
{
    60
}

/// The default number of times an upcoming event is waited for.
pub fn default_schedule_attempts() -> (r: u32)
    ensures
        r == 24,
{
    24
}

/// The default yt-dlp update channel.
pub fn default_update_channel() -> (r: String)
    ensures
        r@ == "nightly"@,
{
    owned("nightly")
}

/// The server settings when the `ydl_server` section sets nothing, with
/// the download root `root`.
pub fn default_server_config(root: &str) -> (r: YdlServerConfig)
    ensures
        r.port == 8080,
        r.host@ == "0.0.0.0"@,
        !r.debug,
        r.metadata_db_path@ == "/config/jobs.db"@,
        r.output_playlist@ == root@ + "/"@ + "%(playlist_title)s [%(playlist_id)s]/%(title)s.%(ext)s"@,
        r.max_log_entries == 100,
        r.default_format@ == "video/best"@,
        r.download_workers_count == 2,
        r.schedule_upcoming,
        r.schedule_check_interval == 60,
        r.schedule_max_attempts == 24,
        r.update_channel@ == "nightly"@,
{
    YdlServerConfig {
        port: default_port(),
        host: default_host(),
        debug: false,
        metadata_db_path: default_db_path(),
        output_playlist: default_output_playlist(root),
        max_log_entries: default_max_logs(),
        default_format: default_format(),
        download_workers_count: default_workers(),
        schedule_upcoming: default_true(),
        schedule_check_interval: default_schedule_interval(),
        schedule_max_attempts: default_schedule_attempts(),
        update_channel: default_update_channel(),
    }
}

// ---------------------------------------------------------------------------
// Formats offered to the web UI
// ---------------------------------------------------------------------------

/// The built-in formats: category, then (format, label) pairs.
pub open spec fn builtin_formats() -> Seq<(Seq<char>, Seq<(Seq<char>, Seq<char>)>)> {
    seq![
        ("Video"@, seq![
            ("video/best"@, "Best"@),
            ("video/bestvideo"@, "Best Video"@),
            ("video/mp4"@, "MP4"@),
            ("video/flv"@, "Flash Video (FLV)"@),
            ("video/webm"@, "WebM"@),
            ("video/ogg"@, "Ogg"@),
            ("video/mkv"@, "Matroska (MKV)"@),
            ("video/avi"@, "AVI"@),
        ]),
        ("Audio"@, seq![
            ("bestaudio/best"@, "Best Audio"@),
            ("audio/aac"@, "AAC"@),
            ("audio/flac"@, "FLAC"@),
            ("audio/mp3"@, "MP3"@),
            ("audio/m4a"@, "M4A"@),
            ("audio/opus"@, "Opus"@),
            ("audio/vorbis"@, "Vorbis"@),
            ("audio/wav"@, "WAV"@),
        ]),
    ]
}

/// The view of a list of (format, label) pairs.
pub open spec fn pairs_view(v: Seq<(String, String)>) -> Seq<(Seq<char>, Seq<char>)> {
    v.map_values(|p: (String, String)| (p.0@, p.1@))
}

/// The built-in formats, in their order.
pub fn ydl_format_table() -> (r: Vec<(String, Vec<(String, String)>)>)
    ensures
        r@.len() == 2,
        forall|c: int| 0 <= c < 2 ==> {
            &&& (#[trigger] r@[c]).0@ == builtin_formats()[c].0
            &&& pairs_view(r@[c].1@) == builtin_formats()[c].1
        },
{
    let video: Vec<(String, String)> = vec![
        (owned("video/best"), owned("Best")),
        (owned("video/bestvideo"), owned("Best Video")),
        (owned("video/mp4"), owned("MP4")),
        (owned("video/flv"), owned("Flash Video (FLV)")),
        (owned("video/webm"), owned("WebM")),
        (owned("video/ogg"), owned("Ogg")),
        (owned("video/mkv"), owned("Matroska (MKV)")),
        (owned("video/avi"), owned("AVI")),
    ];
    let audio: Vec<(String, String)> = vec![
        (owned("bestaudio/best"), owned("Best Audio")),
        (owned("audio/aac"), owned("AAC")),
        (owned("audio/flac"), owned("FLAC")),
        (owned("audio/mp3"), owned("MP3")),
        (owned("audio/m4a"), owned("M4A")),
        (owned("audio/opus"), owned("Opus")),
        (owned("audio/vorbis"), owned("Vorbis")),
        (owned("audio/wav"), owned("WAV")),
    ];
    proof {
        assert(pairs_view(video@) =~= builtin_formats()[0].1);
        assert(pairs_view(audio@) =~= builtin_formats()[1].1);
    }
    vec![(owned("Video"), video), (owned("Audio"), audio)]
}

/// The map that the pairs `items` build, each label stored under its
/// format in turn.
pub fn label_map(items: &Vec<(String, String)>) -> (r: KeyMap<String>)
    ensures
        r.wf(),
        forall|k: Seq<char>| #[trigger] lookup(r@, k) == last_value(pairs_view(items@), k),
{
    let mut map: KeyMap<String> = KeyMap::new();
    let mut i: usize = 0;
    while i < items.len()
        invariant
            i <= items.len(),
            map.wf(),
            forall|k: Seq<char>| #[trigger]
                lookup(map@, k) == last_value(pairs_view(items@).take(i as int), k),
        decreases items.len() - i,
    {
        map.insert(items[i].0.clone(), items[i].1.clone());
        proof {
            let p = pairs_view(items@);
            assert(p.take(i + 1).drop_last() =~= p.take(i as int));
            assert forall|k: Seq<char>| #[trigger]
                lookup(map@, k) == last_value(p.take(i + 1), k) by {
                assert(p.take(i + 1).last() == p[i as int]);
            }
        }
        i = i + 1;
    }
    proof {
        assert(pairs_view(items@).take(items.len() as int) =~= pairs_view(items@));
    }
    map
}

/// The label a profile or alias shows: its name, or its key.
pub open spec fn label(name: Option<Seq<char>>, key: Seq<char>) -> Seq<char> {
    match name {
        Some(n) => n,
        None => key,
    }
}

/// The map has the category `key` with exactly the labels `items`.
pub open spec fn has_category(
    r: Seq<(Seq<char>, Seq<(Seq<char>, Seq<char>)>)>,
    key: Seq<char>,
    items: Seq<(Seq<char>, Seq<char>)>,
) -> bool {
    match lookup(r, key) {
        Some(m) => forall|k: Seq<char>| #[trigger] lookup(m, k) == last_value(items, k),
        None => false,
    }
}

/// The map's `Profiles` category labels every profile format.
pub open spec fn profiles_category(r: Seq<(Seq<char>, Seq<(Seq<char>, Seq<char>)>)>, p: ProfilesV) -> bool {
    match lookup(r, "Profiles"@) {
        Some(m) => forall|k: Seq<char>| #[trigger] lookup(m, k) == profile_label(p, k),
        None => false,
    }
}

impl AppConfig {
    /// The formats the web UI offers: the built-in categories, and a
    /// `Profiles` category mapping `profile/<key>` to each profile's label
    /// when there are profiles.
    pub fn ydl_formats(&self) -> (r: KeyMap<KeyMap<String>>)
        requires
            self.wf(),
        ensures
            r.wf(),
            forall|c: Seq<char>| #[trigger]
                lookup(r@, c) is Some <==> (c == "Video"@ || c == "Audio"@ || (c == "Profiles"@
                    && self.profiles@.len() > 0)),
            has_category(r@, "Video"@, builtin_formats()[0].1),
            has_category(r@, "Audio"@, builtin_formats()[1].1),
            self.profiles@.len() > 0 ==> profiles_category(r@, self.profiles@),
    {
        proof {
            reveal_strlit("Video");
            reveal_strlit("Audio");
            reveal_strlit("Profiles");
            assert("Video"@[0] != "Audio"@[0]);
            assert("Video"@ != "Audio"@);
            assert("Video"@ != "Profiles"@);
            assert("Audio"@ != "Profiles"@);
        }
        let table = ydl_format_table();
        let video = label_map(&table[0].1);
        let audio = label_map(&table[1].1);
        let mut out: KeyMap<KeyMap<String>> = KeyMap::new();
        out.insert(table[0].0.clone(), video);
        out.insert(table[1].0.clone(), audio);
        if !self.profiles.is_empty() {
            let mut map: KeyMap<String> = KeyMap::new();
            let mut i: usize = 0;
            while i < self.profiles.entries.len()
                invariant
                    profiles_wf(self.profiles@),
                    self.profiles@.len() == self.profiles.entries.len(),
                    i <= self.profiles.entries.len(),
                    map.wf(),
                    forall|k: Seq<char>| #[trigger]
                        lookup(map@, k) == profile_label(self.profiles@.take(i as int), k),
                decreases self.profiles.entries.len() - i,
            {
                let key = &self.profiles.entries[i].0;
                let p = &self.profiles.entries[i].1;
                let label: String = match &p.name {
                    Some(n) => n.clone(),
                    None => key.clone(),
                };
                let k2 = concat("profile/", key.as_str());
                proof {
                    assert(self.profiles@[i as int] == (key@, p@));
                }
                map.insert(k2, label);
                proof {
                    assert forall|k: Seq<char>| #[trigger]
                        lookup(map@, k) == profile_label(self.profiles@.take(i + 1), k) by {
                        lemma_profile_label_push(self.profiles@, i as int, k);
                    }
                }
                i = i + 1;
            }
            proof {
                assert(self.profiles@.take(self.profiles.entries.len() as int) =~= self.profiles@);
            }
            out.insert(owned("Profiles"), map);
        }
        out
    }

    /// The aliases shown in the web UI: each alias with `ui` set, mapped to
    /// its label.
    pub fn ui_aliases(&self) -> (r: KeyMap<String>)
        requires
            self.wf(),
        ensures
            r.wf(),
            forall|k: Seq<char>| #[trigger]
                lookup(r@, k) == match lookup(self.aliases@, k) {
                    Some(a) => if a.ui {
                        Some(label(a.name, k))
                    } else {
                        None
                    },
                    None => None,
                },
    {
        proof {
            lemma_sorted_distinct(self.aliases@);
        }
        let mut map: KeyMap<String> = KeyMap::new();
        let mut i: usize = 0;
        while i < self.aliases.entries.len()
            invariant
                aliases_wf(self.aliases@),
                forall|a: int, b: int| 0 <= a < b < self.aliases@.len() ==> #[trigger] self.aliases@[a].0 != #[trigger] self.aliases@[b].0,
                self.aliases@.len() == self.aliases.entries.len(),
                i <= self.aliases.entries.len(),
                map.wf(),
                forall|k: Seq<char>| #[trigger]
                    lookup(map@, k) == match lookup(self.aliases@.take(i as int), k) {
                        Some(a) => if a.ui {
                            Some(label(a.name, k))
                        } else {
                            None
                        },
                        None => None,
                    },
            decreases self.aliases.entries.len() - i,
        {
            let key = &self.aliases.entries[i].0;
            let a = &self.aliases.entries[i].1;
            proof {
                assert(self.aliases@[i as int] == (key@, a@));
            }
            if a.ui {
                let label: String = match &a.name {
                    Some(n) => n.clone(),
                    None => key.clone(),
                };
                map.insert(key.clone(), label);
            }
            proof {
                assert forall|k: Seq<char>| #[trigger]
                    lookup(map@, k) == match lookup(self.aliases@.take(i + 1), k) {
                        Some(a) => if a.ui {
                            Some(label(a.name, k))
                        } else {
                            None
                        },
                        None => None,
                    } by {
                    lemma_lookup_take_push(self.aliases@, i as int, k);
                }
            }
            i = i + 1;
        }
        proof {
            assert(self.aliases@.take(self.aliases.entries.len() as int) =~= self.aliases@);
        }
        map
    }
}

/// The label of the profile format `k` (`profile/<key>`).
pub open spec fn profile_label(p: ProfilesV, k: Seq<char>) -> Option<Seq<char>> {
    if starts_with(k, "profile/"@) {
        match lookup(p, k.skip(8)) {
            Some(pr) => Some(label(pr.name, k.skip(8))),
            None => None,
        }
    } else {
        None
    }
}

/// Looking up in one more entry of a sequence without repeated keys.
pub proof fn lemma_lookup_take_push<V>(s: Seq<(Seq<char>, V)>, i: int, k: Seq<char>)
    requires
        0 <= i < s.len(),
        forall|a: int, b: int| 0 <= a < b < s.len() ==> #[trigger] s[a].0 != #[trigger] s[b].0,
    ensures
        lookup(s.take(i + 1), k) == if k == s[i].0 {
            Some(s[i].1)
        } else {
            lookup(s.take(i), k)
        },
{
    let a = s.take(i + 1);
    let b = s.take(i);
    if k == s[i].0 {
        assert(a[i] == s[i]);
        assert(has_key(a, k));
        let j = key_index(a, k);
        if j != i {
            assert(a[j] == s[j]);
        }
    } else {
        if has_key(b, k) {
            let j = key_index(b, k);
            assert(a[j] == b[j]);
            assert(has_key(a, k));
            let j2 = key_index(a, k);
            if j2 != j {
                assert(a[j2] == s[j2]);
                assert(a[j] == s[j]);
            }
        } else {
            if has_key(a, k) {
                let j = key_index(a, k);
                assert(j != i);
                assert(b[j] == a[j]);
            }
        }
    }
}

proof fn lemma_profile_label_push(p: ProfilesV, i: int, k: Seq<char>)
    requires
        profiles_wf(p),
        0 <= i < p.len(),
    ensures
        profile_label(p.take(i + 1), k) == if k == "profile/"@ + p[i].0 {
            Some(label(p[i].1.name, p[i].0))
        } else {
            profile_label(p.take(i), k)
        },
{
    reveal_strlit("profile/");
    lemma_sorted_distinct(p);
    let pk = "profile/"@ + p[i].0;
    assert(pk.take(8) =~= "profile/"@);
    assert(pk.skip(8) =~= p[i].0);
    if starts_with(k, "profile/"@) {
        lemma_lookup_take_push(p, i, k.skip(8));
        if k.skip(8) == p[i].0 {
            assert(k =~= pk);
        }
    } else {
        assert(!starts_with(pk, "profile/"@) ==> false);
    }
}

/// In a sorted sequence no two entries share a key.
pub proof fn lemma_sorted_distinct<V>(s: Seq<(Seq<char>, V)>)
    requires
        sorted(s),
    ensures
        forall|a: int, b: int| 0 <= a < b < s.len() ==> #[trigger] s[a].0 != #[trigger] s[b].0,
{
    assert forall|a: int, b: int| 0 <= a < b < s.len() implies #[trigger] s[a].0 != #[trigger] s[b].0 by {
        crate::json::lemma_lt_irreflexive(s[a].0);
    }
}

} // verus!
