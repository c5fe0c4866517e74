//! Where downloads go: the download root, rebasing of configured output
//! paths onto it, and the finished-files folder derived from the output
//! template.
use vstd::prelude::*;
use crate::config::{AppConfig, ConfigError, Profile, YdlServerConfig, profiles_wf};
use crate::json::{lookup, sorted, DeepClone, JsonV, JsonValue, KeyMap};
use crate::text::{
    chars_of, concat, has_char, has_prefix, join, join_strings, owned, push_char, split,
    split_char, starts_with, text_eq, trim, trim_end_char, trim_end_of, trim_spec,
    trim_start_char, trim_start_of, views,
};
use vstd::string::StringExecFns;

verus! {

// ---------------------------------------------------------------------------
// Download root
// ---------------------------------------------------------------------------

/// The download root for a value of the `DOWNLOADS` variable: the value
/// without surrounding white space and trailing slashes, or `/downloads`
/// when that leaves nothing (or the variable is unset).
pub open spec fn download_root_spec(raw: Option<Seq<char>>) -> Seq<char> {
    match raw {
        Some(s) => {
            let t = trim_end_char(trim_spec(s), '/');
            if t.len() > 0 {
                t
            } else {
                "/downloads"@
            }
        },
        None => "/downloads"@,
    }
}

/// The download root for a value of the `DOWNLOADS` variable (see
/// `download_root_spec`).
pub fn download_root_from(raw: Option<&str>) -> (r: String)
    ensures
        r@ == download_root_spec(
            match raw {
                Some(s) => Some(s@),
                None => None,
            },
        ),
{
    match raw {
        Some(s) => {
            let t = trim(s);
            let u = trim_end_of(t.as_str(), '/');
            if u.as_str().is_empty() {
                owned("/downloads")
            } else {
                u
            }
        },
        None => owned("/downloads"),
    }
}

/// A configured path under `/downloads` or `/data` moved under `root`:
/// the bare folder becomes `root`, a path below it keeps its tail.
pub open spec fn rebase_spec(path: Seq<char>, root: Seq<char>) -> Seq<char> {
    if path == "/downloads"@ {
        root
    } else if starts_with(path, "/downloads/"@) {
        root + path.skip(10)
    } else if path == "/data"@ {
        root
    } else if starts_with(path, "/data/"@) {
        root + path.skip(5)
    } else {
        path
    }
}

/// Moves a path under `/downloads` or `/data` to `root` (see
/// `rebase_spec`).
pub fn rebase_download_path(path: &str, root: &str) -> (r: String)
    ensures
        r@ == rebase_spec(path@, root@),
{
    proof {
        reveal_strlit("/downloads");
        reveal_strlit("/downloads/");
        reveal_strlit("/data");
        reveal_strlit("/data/");
    }
    if text_eq(path, "/downloads") {
        return owned(root);
    }
    if has_prefix(path, "/downloads/") {
        let v = chars_of(path);
        let rest = crate::text::string_of_range(&v, 10, v.len());
        proof {
            assert(rest@ =~= path@.skip(10));
        }
        return concat(root, rest.as_str());
    }
    if text_eq(path, "/data") {
        return owned(root);
    }
    if has_prefix(path, "/data/") {
        let v = chars_of(path);
        let rest = crate::text::string_of_range(&v, 5, v.len());
        proof {
            assert(rest@ =~= path@.skip(5));
        }
        return concat(root, rest.as_str());
    }
    owned(path)
}

/// Rebasing leaves a path alone when it is not under `/downloads` or
/// `/data`.
pub proof fn law_rebase_other_paths(path: Seq<char>, root: Seq<char>)
    requires
        path != "/downloads"@,
        !starts_with(path, "/downloads/"@),
        path != "/data"@,
        !starts_with(path, "/data/"@),
    ensures
        rebase_spec(path, root) == path,
{
}

/// What rebasing gives an option: only a string under `output` or `paths`
/// changes.
pub open spec fn rebased_lookup(m: Seq<(Seq<char>, JsonV)>, k: Seq<char>, root: Seq<char>) -> Option<JsonV> {
    if k == "output"@ || k == "paths"@ {
        match lookup(m, k) {
            Some(JsonV::Str(s)) => Some(JsonV::Str(rebase_spec(s, root))),
            other => other,
        }
    } else {
        lookup(m, k)
    }
}

/// Rebases the string option `key` of `m` onto `root`.
fn rebase_key(m: &mut KeyMap<JsonValue>, key: &str, root: &str)
    requires
        old(m).wf(),
    ensures
        final(m).wf(),
        forall|k: Seq<char>|
            #[trigger] lookup(final(m)@, k) == if k == key@ {
                match lookup(old(m)@, k) {
                    Some(JsonV::Str(s)) => Some(JsonV::Str(rebase_spec(s, root@))),
                    other => other,
                }
            } else {
                lookup(old(m)@, k)
            },
{
    let s = match m.get(key) {
        Some(JsonValue::Str(s)) => Some(rebase_download_path(s.as_str(), root)),
        _ => None,
    };
    match s {
        Some(t) => {
            m.insert(owned(key), JsonValue::Str(t));
        },
        None => {},
    }
}

/// Rebases the `output` and `paths` options of `m` onto `root`.
pub fn rebase_options(m: &mut KeyMap<JsonValue>, root: &str)
    requires
        old(m).wf(),
    ensures
        final(m).wf(),
        forall|k: Seq<char>| #[trigger] lookup(final(m)@, k) == rebased_lookup(old(m)@, k, root@),
{
    proof {
        reveal_strlit("output");
        reveal_strlit("paths");
    }
    let ghost m0 = m@;
    rebase_key(m, "output", root);
    let ghost m1 = m@;
    rebase_key(m, "paths", root);
    proof {
        assert("output"@ != "paths"@) by {
            assert("output"@.len() != "paths"@.len());
        }
        assert forall|k: Seq<char>| #[trigger] lookup(m@, k) == rebased_lookup(m0, k, root@) by {
            assert(lookup(m1, k) == if k == "output"@ {
                match lookup(m0, k) {
                    Some(JsonV::Str(s)) => Some(JsonV::Str(rebase_spec(s, root@))),
                    other => other,
                }
            } else {
                lookup(m0, k)
            });
            if k == "paths"@ {
                assert(lookup(m1, k) == lookup(m0, k));
            }
        }
    }
}

/// `b` has the settings of `a`, but for the playlist output template.
pub open spec fn same_but_playlist(a: YdlServerConfig, b: YdlServerConfig) -> bool {
    &&& b.port == a.port
    &&& b.host == a.host
    &&& b.debug == a.debug
    &&& b.metadata_db_path == a.metadata_db_path
    &&& b.max_log_entries == a.max_log_entries
    &&& b.default_format == a.default_format
    &&& b.download_workers_count == a.download_workers_count
    &&& b.schedule_upcoming == a.schedule_upcoming
    &&& b.schedule_check_interval == a.schedule_check_interval
    &&& b.schedule_max_attempts == a.schedule_max_attempts
    &&& b.update_channel == a.update_channel
}

/// Moves the configured download paths onto the download root `root`: the
/// `output` and `paths` options, those of every profile, and the playlist
/// output template.
pub fn apply_download_root(cfg: &mut AppConfig, root: &str)
    requires
        old(cfg).wf(),
    ensures
        final(cfg).wf(),
        forall|k: Seq<char>|
            #[trigger] lookup(final(cfg).ydl_options@, k) == rebased_lookup(old(cfg).ydl_options@, k, root@),
        final(cfg).ydl_server.output_playlist@ == rebase_spec(old(cfg).ydl_server.output_playlist@, root@),
        same_but_playlist(old(cfg).ydl_server, final(cfg).ydl_server),
        final(cfg).aliases@ == old(cfg).aliases@,
        final(cfg).profiles@.len() == old(cfg).profiles@.len(),
        forall|i: int|
            0 <= i < old(cfg).profiles@.len() ==> {
                &&& (#[trigger] final(cfg).profiles@[i]).0 == old(cfg).profiles@[i].0
                &&& final(cfg).profiles@[i].1.name == old(cfg).profiles@[i].1.name
                &&& final(cfg).profiles@[i].1.use_ == old(cfg).profiles@[i].1.use_
                &&& final(cfg).profiles@[i].1.use_list == old(cfg).profiles@[i].1.use_list
                &&& forall|k: Seq<char>|
                    #[trigger] lookup(final(cfg).profiles@[i].1.ydl_options, k) == rebased_lookup(
                        old(cfg).profiles@[i].1.ydl_options,
                        k,
                        root@,
                    )
            },
{
    rebase_options(&mut cfg.ydl_options, root);
    let playlist = rebase_download_path(cfg.ydl_server.output_playlist.as_str(), root);
    cfg.ydl_server.output_playlist = playlist;
    let ghost p0 = cfg.profiles@;
    let mut entries: Vec<(String, Profile)> = Vec::new();
    let n = cfg.profiles.entries.len();
    let mut i: usize = 0;
    while i < n
        invariant
            profiles_wf(p0),
            p0 == cfg.profiles@,
            n == cfg.profiles.entries.len(),
            n == p0.len(),
            i <= n,
            entries@.len() == i,
            forall|j: int|
                0 <= j < i ==> {
                    &&& (#[trigger] entries@[j]).0@ == p0[j].0
                    &&& entries@[j].1@.name == p0[j].1.name
                    &&& entries@[j].1@.use_ == p0[j].1.use_
                    &&& entries@[j].1@.use_list == p0[j].1.use_list
                    &&& entries@[j].1.ydl_options.wf()
                    &&& forall|k: Seq<char>|
                        #[trigger] lookup(entries@[j].1@.ydl_options, k) == rebased_lookup(
                            p0[j].1.ydl_options,
                            k,
                            root@,
                        )
                },
        decreases n - i,
    {
        let key = cfg.profiles.entries[i].0.clone();
        let mut profile = cfg.profiles.entries[i].1.deep_clone();
        proof {
            assert(p0[i as int] == (key@, profile@));
            assert(sorted(p0[i as int].1.ydl_options));
        }
        rebase_options(&mut profile.ydl_options, root);
        entries.push((key, profile));
        i = i + 1;
    }
    let rebased = KeyMap { entries };
    proof {
        assert forall|j: int| 0 <= j < n implies #[trigger] rebased@[j] == (entries@[j].0@, entries@[j].1@) by {}
        assert(sorted(rebased@)) by {
            assert forall|x: int, y: int| 0 <= x < y < rebased@.len() implies crate::text::seq_lt(
                #[trigger] rebased@[x].0,
                #[trigger] rebased@[y].0,
            ) by {
                assert(rebased@[x] == (entries@[x].0@, entries@[x].1@));
                assert(rebased@[y] == (entries@[y].0@, entries@[y].1@));
            }
        }
        assert forall|j: int| 0 <= j < rebased@.len() implies sorted(#[trigger] rebased@[j].1.ydl_options) by {
            assert(rebased@[j] == (entries@[j].0@, entries@[j].1@));
        }
    }
    cfg.profiles = rebased;
}

// ---------------------------------------------------------------------------
// Finished-files folder
// ---------------------------------------------------------------------------

/// `s` with every `%%` (taken left to right) removed: `replace("%%", "")`.
pub open spec fn drop_pct_pairs(s: Seq<char>) -> Seq<char>
    decreases s.len(),
{
    if s.len() >= 2 && s[0] == '%' && s[1] == '%' {
        drop_pct_pairs(s.skip(2))
    } else if s.len() == 0 {
        s
    } else {
        seq![s[0]] + drop_pct_pairs(s.drop_first())
    }
}

/// Whether a path segment holds a template field (a `%` not part of `%%`).
pub open spec fn has_field(seg: Seq<char>) -> bool {
    drop_pct_pairs(seg).contains('%')
}

/// The leading segments before the first one that holds a template field.
pub open spec fn static_segments(segs: Seq<Seq<char>>) -> Seq<Seq<char>>
    decreases segs.len(),
{
    if segs.len() == 0 || has_field(segs[0]) {
        Seq::empty()
    } else {
        seq![segs[0]] + static_segments(segs.drop_first())
    }
}

/// The folder part of an output template that holds no template field: its
/// leading `/`-separated segments up to the first one with a field, joined
/// again by `/`; `/` when that is only the empty segment before a leading
/// slash.
pub open spec fn static_prefix_spec(template: Seq<char>) -> Seq<char> {
    let p = static_segments(split(template, '/'));
    if p == seq![Seq::<char>::empty()] {
        seq!['/']
    } else {
        join(p, seq!['/'])
    }
}

fn segment_has_field(seg: &str) -> (r: bool)
    ensures
        r == has_field(seg@),
{
    let v = chars_of(seg);
    let mut i: usize = 0;
    assert(seg@.skip(0) =~= seg@);
    while i < v.len()
        invariant
            v@ == seg@,
            i <= v.len(),
            has_field(seg@) == drop_pct_pairs(seg@.skip(i as int)).contains('%'),
        decreases v.len() - i,
    {
        let ghost t = seg@.skip(i as int);
        if i + 1 < v.len() && v[i] == '%' && v[i + 1] == '%' {
            proof {
                assert(t[0] == '%' && t[1] == '%');
                assert(t.skip(2) =~= seg@.skip(i + 2));
            }
            i = i + 2;
        } else if v[i] == '%' {
            proof {
                assert(drop_pct_pairs(t) == seq![t[0]] + drop_pct_pairs(t.drop_first()));
                assert(drop_pct_pairs(t)[0] == '%');
            }
            return true;
        } else {
            proof {
                assert(t.drop_first() =~= seg@.skip(i + 1));
                let d = drop_pct_pairs(t);
                let e = drop_pct_pairs(t.drop_first());
                assert(d == seq![t[0]] + e);
                if e.contains('%') {
                    let k = choose|k: int| 0 <= k < e.len() && e[k] == '%';
                    assert(d[k + 1] == '%');
                }
                if d.contains('%') {
                    let k = choose|k: int| 0 <= k < d.len() && d[k] == '%';
                    assert(k > 0);
                    assert(e[k - 1] == '%');
                }
            }
            i = i + 1;
        }
    }
    proof {
        assert(seg@.skip(i as int).len() == 0);
    }
    false
}

/// The static folder part of an output template (see `static_prefix_spec`).
pub fn get_static_prefix(output_template: &str) -> (r: String)
    ensures
        r@ == static_prefix_spec(output_template@),
{
    let segs = split_char(output_template, '/');
    let ghost sv = split(output_template@, '/');
    let mut prefix: Vec<String> = Vec::new();
    let mut i: usize = 0;
    proof {
        assert(sv.take(0) =~= Seq::<Seq<char>>::empty());
        assert(sv.skip(0) =~= sv);
        assert(views(prefix@) =~= Seq::<Seq<char>>::empty());
    }
    while i < segs.len() && !segment_has_field(segs[i].as_str())
        invariant
            views(segs@) == sv,
            i <= segs.len(),
            views(prefix@) == sv.take(i as int),
            forall|j: int| 0 <= j < i ==> !has_field(#[trigger] sv[j]),
            static_segments(sv) == sv.take(i as int) + static_segments(sv.skip(i as int)),
        decreases segs.len() - i,
    {
        let ghost before = prefix@;
        let c = segs[i].clone();
        prefix.push(c);
        proof {
            crate::text::lemma_views_push(before, c);
            assert(sv.take(i + 1) =~= sv.take(i as int).push(sv[i as int]));
            let t = sv.skip(i as int);
            assert(t[0] == sv[i as int]);
            assert(t.drop_first() =~= sv.skip(i + 1));
            assert(static_segments(t) == seq![t[0]] + static_segments(t.drop_first()));
            assert(sv.take(i as int) + static_segments(t) =~= sv.take(i + 1) + static_segments(
                sv.skip(i + 1),
            ));
        }
        i = i + 1;
    }
    proof {
        if i < segs.len() {
            assert(sv.skip(i as int)[0] == sv[i as int]);
        }
        assert(static_segments(sv.skip(i as int)) =~= Seq::<Seq<char>>::empty());
        assert(static_segments(sv) =~= sv.take(i as int));
    }
    if prefix.len() == 1 && prefix[0].as_str().is_empty() {
        proof {
            assert(views(prefix@)[0] =~= Seq::<char>::empty());
            assert(views(prefix@) =~= seq![Seq::<char>::empty()]);
        }
        let mut r = String::new();
        push_char(&mut r, '/');
        assert(r@ =~= seq!['/']);
        return r;
    }
    proof {
        if views(prefix@) == seq![Seq::<char>::empty()] {
            assert(views(prefix@)[0] == prefix@[0]@);
        }
        reveal_strlit("/");
        assert("/"@ =~= seq!['/']);
    }
    join_strings(&prefix, "/")
}

/// What `s.split_once(c)` gives: the text before and after the first `c`.
pub open spec fn split_once_spec(s: Seq<char>, c: char) -> Option<(Seq<char>, Seq<char>)>
    decreases s.len(),
{
    if s.len() == 0 {
        None
    } else if s[0] == c {
        Some((Seq::empty(), s.drop_first()))
    } else {
        match split_once_spec(s.drop_first(), c) {
            Some((a, b)) => Some((seq![s[0]] + a, b)),
            None => None,
        }
    }
}

fn split_once(s: &str, c: char) -> (r: Option<(String, String)>)
    ensures
        match r {
            Some((a, b)) => split_once_spec(s@, c) == Some((a@, b@)),
            None => split_once_spec(s@, c) is None,
        },
{
    let v = chars_of(s);
    let mut i: usize = 0;
    while i < v.len() && v[i] != c
        invariant
            v@ == s@,
            i <= v.len(),
            forall|j: int| 0 <= j < i ==> v@[j] != c,
        decreases v.len() - i,
    {
        i = i + 1;
    }
    proof {
        lemma_split_once_at(s@, c, i as int);
    }
    if i == v.len() {
        None
    } else {
        Some((crate::text::string_of_range(&v, 0, i), crate::text::string_of_range(&v, i + 1, v.len())))
    }
}

proof fn lemma_split_once_at(s: Seq<char>, c: char, i: int)
    requires
        0 <= i <= s.len(),
        forall|j: int| 0 <= j < i ==> s[j] != c,
        i < s.len() ==> s[i] == c,
    ensures
        i == s.len() ==> split_once_spec(s, c) is None,
        i < s.len() ==> split_once_spec(s, c) == Some((s.take(i), s.skip(i + 1))),
    decreases s.len(),
{
    if s.len() > 0 && i > 0 {
        lemma_split_once_at(s.drop_first(), c, i - 1);
        assert(seq![s[0]] + s.drop_first().take(i - 1) =~= s.take(i));
        if i < s.len() {
            assert(s.drop_first().skip(i) =~= s.skip(i + 1));
        }
    } else if s.len() > 0 {
        assert(s.take(0) =~= Seq::<char>::empty());
        assert(s.drop_first() =~= s.skip(1));
    }
}

/// The folder a `paths` option names as home: a string without `:` types,
/// or whose part after the first `:` is empty, is returned whole; a
/// `home:<dir>` string gives `<dir>`.
pub open spec fn paths_home_spec(paths: Option<JsonV>) -> Option<Seq<char>> {
    match paths {
        Some(JsonV::Str(s)) => match split_once_spec(s, ':') {
            Some((t, rest)) => if rest.len() == 0 {
                Some(s)
            } else if t == "home"@ {
                Some(rest)
            } else {
                None
            },
            None => None,
        },
        _ => None,
    }
}

/// The home folder named by a `paths` option (see `paths_home_spec`).
pub fn paths_home(paths: Option<&JsonValue>) -> (r: Option<String>)
    ensures
        crate::jobs::opt_view(r) == paths_home_spec(
            match paths {
                Some(v) => Some(v@),
                None => None,
            },
        ),
{
    let s = match paths {
        Some(JsonValue::Str(s)) => s,
        _ => return None,
    };
    match split_once(s.as_str(), ':') {
        Some((t, rest)) => {
            if rest.as_str().is_empty() {
                Some(s.clone())
            } else if text_eq(t.as_str(), "home") {
                Some(rest)
            } else {
                None
            }
        },
        None => None,
    }
}

/// Whether a path names the filesystem root, component by component as
/// `Path` compares: it starts with `/` and every segment is empty or `.`.
pub open spec fn is_root_path(p: Seq<char>) -> bool {
    starts_with(p, seq!['/']) && forall|i: int|
        0 <= i < split(p, '/').len() ==> (#[trigger] split(p, '/')[i] == Seq::<char>::empty()
            || split(p, '/')[i] == seq!['.'])
}

/// The finished-files folder for an output template: the template's static
/// folder, made absolute against the `paths` home (or `cwd`) when it is
/// relative; refused when it is the filesystem root.
pub open spec fn finished_path_spec(output: Seq<char>, paths: Option<JsonV>, cwd: Seq<char>) -> Result<Seq<char>, Seq<char>> {
    let prefix = static_prefix_spec(output);
    let p = if starts_with(prefix, seq!['/']) {
        prefix
    } else {
        let home = match paths_home_spec(paths) {
            Some(h) => h,
            None => cwd,
        };
        trim_end_char(home, '/') + seq!['/'] + trim_start_char(prefix, '/')
    };
    let f = if p.len() == 0 { seq!['/'] } else { p };
    if is_root_path(f) {
        Err(
            "Could not determine the download directory from ydl_options.output ('"@ + output
                + "'): it resolves to the filesystem root."@,
        )
    } else {
        Ok(f)
    }
}

fn root_path(p: &str) -> (r: bool)
    ensures
        r == is_root_path(p@),
{
    proof {
        reveal_strlit("/");
        reveal_strlit(".");
    }
    assert("/"@ =~= seq!['/']);
    assert("."@ =~= seq!['.']);
    if !has_prefix(p, "/") {
        return false;
    }
    let segs = split_char(p, '/');
    let ghost sv = split(p@, '/');
    let mut i: usize = 0;
    while i < segs.len()
        invariant
            views(segs@) == sv,
            sv == split(p@, '/'),
            i <= segs.len(),
            forall|j: int| 0 <= j < i ==> (#[trigger] sv[j] == Seq::<char>::empty() || sv[j] == seq!['.']),
        decreases segs.len() - i,
    {
        let s = segs[i].as_str();
        proof {
            reveal_strlit(".");
            assert("."@ =~= seq!['.']);
        }
        if !(s.is_empty() || text_eq(s, ".")) {
            proof {
                assert(sv[i as int] == s@);
                assert(sv[i as int] != Seq::<char>::empty());
                assert(sv[i as int] != seq!['.']);
                assert(!(split(p@, '/')[i as int] == Seq::<char>::empty() || split(p@, '/')[i as int] == seq!['.']));
            }
            return false;
        }
        proof {
            assert(sv[i as int] == s@);
        }
        i = i + 1;
    }
    true
}

/// The finished-files folder for an output template (see
/// `finished_path_spec`).
pub fn finished_path_from(output: &str, paths: Option<&JsonValue>, cwd: &str) -> (r: Result<String, ConfigError>)
    ensures
        ({
            let spec = finished_path_spec(
                output@,
                match paths {
                    Some(v) => Some(v@),
                    None => None,
                },
                cwd@,
            );
            match r {
                Ok(f) => spec == Ok::<Seq<char>, Seq<char>>(f@),
                Err(ConfigError::Message(m)) => spec == Err::<Seq<char>, Seq<char>>(m@),
                Err(_) => false,
            }
        }),
{
    proof {
        reveal_strlit("/");
        assert("/"@ =~= seq!['/']);
    }
    let prefix = get_static_prefix(output);
    let p: String = if has_prefix(prefix.as_str(), "/") {
        prefix
    } else {
        let home = match paths_home(paths) {
            Some(h) => h,
            None => owned(cwd),
        };
        let mut a = trim_end_of(home.as_str(), '/');
        push_char(&mut a, '/');
        let b = trim_start_of(prefix.as_str(), '/');
        a.append(b.as_str());
        proof {
            assert(a@ =~= trim_end_char(home@, '/') + seq!['/'] + trim_start_char(prefix@, '/'));
        }
        a
    };
    let f: String = if p.as_str().is_empty() {
        let mut r = String::new();
        push_char(&mut r, '/');
        assert(r@ =~= seq!['/']);
        r
    } else {
        p
    };
    if root_path(f.as_str()) {
        let mut m = owned("Could not determine the download directory from ydl_options.output ('");
        m.append(output);
        m.append("'): it resolves to the filesystem root.");
        return Err(ConfigError::Message(m));
    }
    proof {
        assert(seq!['/'] =~= "/"@);
    }
    Ok(f)
}

impl AppConfig {
    /// The finished-files folder: from the `output` option, or
    /// `/downloads/%(title)s [%(id)s].%(ext)s` when it is not a string;
    /// `cwd` is the folder a relative template is taken against when
    /// `paths` names no home.
    pub fn finished_path(&self, cwd: &str) -> (r: Result<String, ConfigError>)
        requires
            self.wf(),
        ensures
            ({
                let out = match lookup(self.ydl_options@, "output"@) {
                    Some(JsonV::Str(s)) => s,
                    _ => "/downloads/%(title)s [%(id)s].%(ext)s"@,
                };
                let spec = finished_path_spec(out, lookup(self.ydl_options@, "paths"@), cwd@);
                match r {
                    Ok(f) => spec == Ok::<Seq<char>, Seq<char>>(f@),
                    Err(ConfigError::Message(m)) => spec == Err::<Seq<char>, Seq<char>>(m@),
                    Err(_) => false,
                }
            }),
    {
        let out: &str = match self.ydl_options.get("output") {
            Some(JsonValue::Str(s)) => s.as_str(),
            _ => "/downloads/%(title)s [%(id)s].%(ext)s",
        };
        finished_path_from(out, self.ydl_options.get("paths"), cwd)
    }

    /// Checks that the `output` option is set and gives a finished-files
    /// folder; returns that folder (which the caller creates).
    pub fn validate(&self, cwd: &str) -> (r: Result<String, ConfigError>)
        requires
            self.wf(),
        ensures
            match lookup(self.ydl_options@, "output"@) {
                Some(JsonV::Str(out)) => {
                    let spec = finished_path_spec(out, lookup(self.ydl_options@, "paths"@), cwd@);
                    match r {
                        Ok(f) => spec == Ok::<Seq<char>, Seq<char>>(f@),
                        Err(ConfigError::Message(m)) => spec == Err::<Seq<char>, Seq<char>>(m@),
                        Err(_) => false,
                    }
                },
                _ => match r {
                    Err(ConfigError::Message(m)) => m@ == "ydl_options.output is required"@,
                    _ => false,
                },
            },
    {
        match self.ydl_options.get("output") {
            Some(JsonValue::Str(s)) => finished_path_from(s.as_str(), self.ydl_options.get("paths"), cwd),
            _ => Err(ConfigError::Message(owned("ydl_options.output is required"))),
        }
    }
}

} // verus!

verus! {

// ---------------------------------------------------------------------------
// The configuration file
// ---------------------------------------------------------------------------

/// The last segment that names something, as `Path::file_name` finds it:
/// empty and `.` segments are skipped, and a final `..` names nothing.
pub open spec fn named_last(segs: Seq<Seq<char>>) -> Option<Seq<char>>
    decreases segs.len(),
{
    if segs.len() == 0 {
        None
    } else if segs.last().len() == 0 || segs.last() == seq!['.'] {
        named_last(segs.drop_last())
    } else if segs.last() == seq!['.', '.'] {
        None
    } else {
        Some(segs.last())
    }
}

/// The configuration file for a value of `YDL_CONFIG_PATH` (`/config`
/// when unset): a path whose file name holds a dot is the file itself,
/// any other path is the folder that holds `config.yml`.
pub open spec fn config_file_path_spec(raw: Option<Seq<char>>) -> Seq<char> {
    let p = match raw {
        Some(r) => r,
        None => "/config"@,
    };
    match named_last(split(p, '/')) {
        Some(n) => if n.contains('.') {
            p
        } else {
            crate::tasks::path_join_spec(p, "config.yml"@)
        },
        None => crate::tasks::path_join_spec(p, "config.yml"@),
    }
}

/// The configuration file for a value of `YDL_CONFIG_PATH` (see
/// `config_file_path_spec`).
pub fn config_file_path(raw: Option<&str>) -> (r: String)
    ensures
        r@ == config_file_path_spec(
            match raw {
                Some(s) => Some(s@),
                None => None,
            },
        ),
{
    proof {
        reveal_strlit(".");
        reveal_strlit("..");
        assert("."@ =~= seq!['.']);
        assert(".."@ =~= seq!['.', '.']);
    }
    let p: &str = match raw {
        Some(s) => s,
        None => "/config",
    };
    let segs = split_char(p, '/');
    let ghost sv = views(segs@);
    let mut i: usize = segs.len();
    let mut found: Option<usize> = None;
    let mut stop = false;
    proof {
        assert(sv.take(i as int) =~= sv);
    }
    while i > 0 && !stop
        invariant
            i <= segs.len(),
            sv == views(segs@),
            sv == split(p@, '/'),
            !stop ==> named_last(sv) == named_last(sv.take(i as int)),
            stop ==> named_last(sv) == match found {
                Some(k) => Some(sv[k as int]),
                None => None::<Seq<char>>,
            },
            found matches Some(k) ==> k < segs.len(),
            !stop ==> found is None,
        decreases i,
    {
        let s = segs[i - 1].as_str();
        let ghost t = sv.take(i as int);
        proof {
            assert(named_last(sv) == named_last(t));
            reveal_strlit(".");
            reveal_strlit("..");
            assert("."@ =~= seq!['.']);
            assert(".."@ =~= seq!['.', '.']);
            assert(t.drop_last() =~= sv.take(i - 1));
            assert(t.last() == s@);
            assert(sv[i - 1] == s@);
        }
        if s.is_empty() || text_eq(s, ".") {
            i = i - 1;
        } else if text_eq(s, "..") {
            proof {
                assert(s@ == seq!['.', '.']);
                assert(s@.len() != 0 && s@ != seq!['.']);
                assert(named_last(t) is None);
                assert(named_last(sv) == None::<Seq<char>>);
            }
            stop = true;
            i = 0;
        } else {
            found = Some(i - 1);
            proof {
                assert(named_last(t) == Some(s@));
                assert(named_last(sv) == Some(sv[i - 1]));
            }
            stop = true;
            i = 0;
        }
    }
    proof {
        if !stop {
            assert(i == 0);
            assert(sv.take(0) =~= Seq::<Seq<char>>::empty());
        }
    }
    let is_file = match found {
        Some(k) => has_char(segs[k].as_str(), '.'),
        None => false,
    };
    if is_file {
        owned(p)
    } else {
        crate::tasks::path_join(p, "config.yml")
    }
}

} // verus!

verus! {

// ---------------------------------------------------------------------------
// Files inside the finished-files folder
// ---------------------------------------------------------------------------

/// The segments that are components: neither empty nor `.`.
pub open spec fn normal_segments(segs: Seq<Seq<char>>) -> Seq<Seq<char>>
    decreases segs.len(),
{
    if segs.len() == 0 {
        segs
    } else {
        let r = normal_segments(segs.drop_last());
        if segs.last().len() == 0 || segs.last() == seq!['.'] {
            r
        } else {
            r.push(segs.last())
        }
    }
}

/// The components of a path, as `Path::components` yields them: the root
/// (written `/`) of an absolute path or a leading `.` of a relative one,
/// then every segment that is neither empty nor `.`.
pub open spec fn path_components(p: Seq<char>) -> Seq<Seq<char>> {
    let segs = split(p, '/');
    if starts_with(p, seq!['/']) {
        seq![seq!['/']] + normal_segments(segs.drop_first())
    } else if segs[0] == seq!['.'] {
        seq![seq!['.']] + normal_segments(segs.drop_first())
    } else {
        normal_segments(segs)
    }
}

/// Whether `path` is `root` or lies below it, component by component
/// (`Path::starts_with`).
pub open spec fn inside_folder_spec(root: Seq<char>, path: Seq<char>) -> bool {
    let a = path_components(root);
    let b = path_components(path);
    a.len() <= b.len() && b.take(a.len() as int) == a
}

fn components_of(p: &str) -> (r: Vec<String>)
    ensures
        views(r@) == path_components(p@),
{
    proof {
        reveal_strlit("/");
        reveal_strlit(".");
        assert("/"@ =~= seq!['/']);
        assert("."@ =~= seq!['.']);
        crate::text::lemma_split_len(p@, '/');
    }
    let segs = split_char(p, '/');
    let ghost sv = views(segs@);
    let mut r: Vec<String> = Vec::new();
    let mut start: usize = 0;
    if has_prefix(p, "/") {
        r.push(owned("/"));
        start = 1;
    } else if text_eq(segs[0].as_str(), ".") {
        r.push(owned("."));
        start = 1;
    }
    let ghost head = views(r@);
    let ghost body = if start == 1 { sv.drop_first() } else { sv };
    proof {
        assert(body.take(0) =~= Seq::<Seq<char>>::empty());
        assert(views(r@) =~= head + normal_segments(body.take(0)));
    }
    let mut i: usize = start;
    while i < segs.len()
        invariant
            sv == views(segs@),
            sv == split(p@, '/'),
            start <= i <= segs.len(),
            start <= 1,
            segs.len() >= 1,
            body == if start == 1 { sv.drop_first() } else { sv },
            views(r@) == head + normal_segments(body.take(i - start)),
        decreases segs.len() - i,
    {
        let s = segs[i].as_str();
        proof {
            reveal_strlit(".");
            assert("."@ =~= seq!['.']);
            let t = body.take(i - start + 1);
            assert(t.drop_last() =~= body.take(i - start));
            assert(t.last() == sv[i as int]);
            assert(sv[i as int] == s@);
        }
        if !(s.is_empty() || text_eq(s, ".")) {
            let ghost before = views(r@);
            r.push(segs[i].clone());
            proof {
                assert(views(r@) =~= before.push(s@));
            }
        }
        i = i + 1;
    }
    proof {
        assert(body.take(segs.len() - start) =~= body);
        if start == 0 {
            assert(head =~= Seq::<Seq<char>>::empty());
            assert(views(r@) =~= normal_segments(body));
        }
    }
    r
}

/// Whether `path` is `root` or lies below it (see `inside_folder_spec`):
/// a file the web API serves, deletes or cuts must.
pub fn inside_folder(root: &str, path: &str) -> (r: bool)
    ensures
        r == inside_folder_spec(root@, path@),
{
    let a = components_of(root);
    let b = components_of(path);
    if a.len() > b.len() {
        return false;
    }
    let mut i: usize = 0;
    while i < a.len()
        invariant
            views(a@) == path_components(root@),
            views(b@) == path_components(path@),
            a.len() <= b.len(),
            i <= a.len(),
            forall|j: int| 0 <= j < i ==> views(b@)[j] == views(a@)[j],
        decreases a.len() - i,
    {
        if !text_eq(a[i].as_str(), b[i].as_str()) {
            proof {
                assert(views(b@).take(a.len() as int)[i as int] != views(a@)[i as int]);
                assert(views(b@).take(a.len() as int) != views(a@));
            }
            return false;
        }
        i = i + 1;
    }
    proof {
        assert(views(b@).take(a.len() as int) =~= views(a@));
    }
    true
}

} // verus!

verus! {

// ---------------------------------------------------------------------------
// Laws
// ---------------------------------------------------------------------------

/// What trimming a character off the end leaves does not end with it.
proof fn lemma_trim_end_char(s: Seq<char>, c: char)
    ensures
        trim_end_char(s, c).len() == 0 || trim_end_char(s, c).last() != c,
    decreases s.len(),
{
    if s.len() > 0 && s.last() == c {
        lemma_trim_end_char(s.drop_last(), c);
    }
}

/// The download root is never empty and never ends with a slash.
pub proof fn law_download_root_shape(raw: Option<Seq<char>>)
    ensures
        download_root_spec(raw).len() > 0,
        download_root_spec(raw).last() != '/',
{
    reveal_strlit("/downloads");
    assert("/downloads"@.last() == 's');
    match raw {
        Some(s) => {
            lemma_trim_end_char(trim_spec(s), '/');
        },
        None => {},
    }
}

/// Joining the pieces of a split gives the text back.
proof fn lemma_join_split(s: Seq<char>, c: char)
    ensures
        join(split(s, c), seq![c]) == s,
    decreases s.len(),
{
    if s.len() == 0 {
        assert(split(s, c) =~= seq![Seq::<char>::empty()]);
        assert(s =~= Seq::<char>::empty());
    } else {
        let s1 = s.drop_last();
        lemma_join_split(s1, c);
        crate::text::lemma_split_len(s1, c);
        let r = split(s1, c);
        if s.last() == c {
            let t = r.push(Seq::<char>::empty());
            assert(t.drop_last() =~= r);
            assert(join(t, seq![c]) == join(r, seq![c]) + seq![c] + Seq::<char>::empty());
            assert(s1 + seq![c] + Seq::<char>::empty() =~= s);
        } else {
            let x = r.last().push(s.last());
            let t = r.update(r.len() - 1, x);
            if r.len() == 1 {
                assert(join(t, seq![c]) == t[0]);
                assert(join(r, seq![c]) == r[0]);
                assert(x =~= s);
            } else {
                assert(t.drop_last() =~= r.drop_last());
                assert(join(t, seq![c]) == join(r.drop_last(), seq![c]) + seq![c] + x);
                assert(join(r, seq![c]) == join(r.drop_last(), seq![c]) + seq![c] + r.last());
                assert(join(r.drop_last(), seq![c]) + seq![c] + x =~= (join(r.drop_last(), seq![c]) + seq![c]
                    + r.last()).push(s.last()));
                assert(s1.push(s.last()) =~= s);
            }
        }
    }
}

/// The leading static segments are a leading part of the segments.
proof fn lemma_static_segments_take(segs: Seq<Seq<char>>)
    ensures
        static_segments(segs).len() <= segs.len(),
        static_segments(segs) == segs.take(static_segments(segs).len() as int),
    decreases segs.len(),
{
    if segs.len() > 0 && !has_field(segs[0]) {
        let rest = segs.drop_first();
        lemma_static_segments_take(rest);
        let k = static_segments(rest).len() as int;
        assert(seq![segs[0]] + rest.take(k) =~= segs.take(k + 1));
    } else {
        assert(segs.take(0) =~= Seq::<Seq<char>>::empty());
    }
}

/// Joining leading parts gives a beginning of joining all parts.
proof fn lemma_join_take_prefix(segs: Seq<Seq<char>>, sep: Seq<char>, k: int)
    requires
        0 <= k <= segs.len(),
    ensures
        starts_with(join(segs, sep), join(segs.take(k), sep)),
    decreases segs.len(),
{
    if k == segs.len() {
        assert(segs.take(k) =~= segs);
        assert(join(segs, sep).take(join(segs, sep).len() as int) =~= join(segs, sep));
    } else if k == 0 {
        assert(segs.take(0) =~= Seq::<Seq<char>>::empty());
        assert(join(segs, sep).take(0) =~= Seq::<char>::empty());
    } else {
        let d = segs.drop_last();
        assert(d.take(k) =~= segs.take(k));
        lemma_join_take_prefix(d, sep, k);
        let a = join(d, sep);
        let p = join(segs.take(k), sep);
        assert(segs.len() >= 2);
        assert(join(segs, sep) == a + sep + segs.last());
        assert((a + sep + segs.last()).take(p.len() as int) =~= a.take(p.len() as int));
    }
}

/// The static folder of a non-empty output template is where the template
/// begins.
pub proof fn law_static_prefix_is_prefix(template: Seq<char>)
    requires
        template.len() > 0,
    ensures
        starts_with(template, static_prefix_spec(template)),
{
    let segs = split(template, '/');
    crate::text::lemma_split_len(template, '/');
    lemma_join_split(template, '/');
    lemma_static_segments_take(segs);
    let p = static_segments(segs);
    lemma_join_take_prefix(segs, seq!['/'], p.len() as int);
    if p == seq![Seq::<char>::empty()] {
        assert(segs[0] == Seq::<char>::empty());
        if segs.len() == 1 {
            assert(join(segs, seq!['/']) == segs[0]);
            assert(false);
        }
        let a = join(segs.take(1), seq!['/']);
        assert(segs.take(1) =~= seq![Seq::<char>::empty()]);
        lemma_join_take_prefix(segs, seq!['/'], 2);
        let b = segs.take(2);
        assert(b.drop_last() =~= segs.take(1));
        assert(join(b, seq!['/']) == join(segs.take(1), seq!['/']) + seq!['/'] + b.last());
        assert(join(segs.take(1), seq!['/']) == Seq::<char>::empty());
        let q = join(b, seq!['/']);
        assert(q =~= seq!['/'] + b.last());
        assert(q[0] == '/');
        assert(template.take(q.len() as int) == q);
        assert(template.take(q.len() as int)[0] == template[0]);
        assert(template[0] == '/');
        assert(template.take(1) =~= seq!['/']);
    }
}

} // verus!

verus! {

proof fn lemma_normal_segments_append(x: Seq<Seq<char>>, y: Seq<Seq<char>>)
    ensures
        normal_segments(x + y) == normal_segments(x) + normal_segments(y),
    decreases y.len(),
{
    if y.len() == 0 {
        assert(x + y =~= x);
        assert(normal_segments(x) + normal_segments(y) =~= normal_segments(x));
    } else {
        lemma_normal_segments_append(x, y.drop_last());
        assert((x + y).drop_last() =~= x + y.drop_last());
        assert((x + y).last() == y.last());
        let nx = normal_segments(x);
        let ny = normal_segments(y.drop_last());
        assert((nx + ny).push(y.last()) =~= nx + ny.push(y.last()));
    }
}

/// Components of a path that starts at the root, after the root.
proof fn lemma_components_absolute(p: Seq<char>)
    requires
        starts_with(p, seq!['/']),
    ensures
        path_components(p) == seq![seq!['/']] + normal_segments(split(p, '/').drop_first()),
{
}

/// A name joined to an absolute folder lies inside it, component by
/// component: the check is about the path as written, so a name that
/// climbs out with `..` has to be resolved on the file system first.
pub proof fn law_joined_name_inside(root: Seq<char>, name: Seq<char>)
    requires
        starts_with(root, seq!['/']),
        !starts_with(name, seq!['/']),
    ensures
        inside_folder_spec(root, crate::tasks::path_join_spec(root, name)),
{
    let p = crate::tasks::path_join_spec(root, name);
    let (base, whole) = if root.last() != '/' {
        (root, root + seq!['/'] + name)
    } else {
        (root.drop_last(), root + name)
    };
    assert(p == whole) by {
        if root.last() == '/' {
            assert(p == root + name);
        }
    }
    if root.last() == '/' {
        assert(root.drop_last() + seq!['/'] =~= root);
        assert(whole =~= base + seq!['/'] + name);
    }
    crate::text::lemma_split_around(base, name, '/');
    crate::text::lemma_split_len(base, '/');
    crate::text::lemma_split_len(name, '/');
    let sb = split(base, '/');
    let sn = split(name, '/');
    assert(split(p, '/') == sb + sn);
    assert((sb + sn).drop_first() =~= sb.drop_first() + sn);
    assert(p.take(1) =~= seq!['/']) by {
        assert(root.take(1) =~= seq!['/']);
        assert(p[0] == root[0]);
    }
    lemma_components_absolute(p);
    lemma_normal_segments_append(sb.drop_first(), sn);
    let cp = path_components(p);
    let cr = path_components(root);
    if root.last() != '/' {
        assert(cr == seq![seq!['/']] + normal_segments(sb.drop_first()));
    } else {
        crate::text::lemma_split_around(base, Seq::<char>::empty(), '/');
        assert(base + seq!['/'] + Seq::<char>::empty() =~= root);
        assert(split(Seq::<char>::empty(), '/') =~= seq![Seq::<char>::empty()]);
        assert(split(root, '/') == sb + seq![Seq::<char>::empty()]);
        assert((sb + seq![Seq::<char>::empty()]).drop_first() =~= sb.drop_first() + seq![Seq::<char>::empty()]);
        lemma_normal_segments_append(sb.drop_first(), seq![Seq::<char>::empty()]);
        let e = seq![Seq::<char>::empty()];
        assert(e.drop_last() =~= Seq::<Seq<char>>::empty());
        assert(e.last().len() == 0);
        assert(normal_segments(e.drop_last()).len() == 0);
        assert(normal_segments(e) =~= Seq::<Seq<char>>::empty());
        assert(cr =~= seq![seq!['/']] + normal_segments(sb.drop_first()));
    }
    assert(cp =~= cr + normal_segments(sn));
    assert(cp.take(cr.len() as int) =~= cr);
}

} // verus!
