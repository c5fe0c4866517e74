//! The decisions of the job queue: titles and output options from
//! metadata, scheduling of upcoming events, and the outcome of finished
//! processes.
use vstd::prelude::*;
use crate::config::AppConfig;
use crate::jobs::{
    clean_logs, clean_logs_spec, opt_view, Job, JobStatus, JobV,
};
use crate::json::{
    extra_entries, extra_get, json_as_u64, json_str, lookup, Extra, ExtraV, JsonV,
    JsonValue, KeyMap,
};
use crate::pattern::{captures, compile, delay_pattern, groups_view, regex_captures};
use crate::text::{
    decimal, int_text, i64_text, join, join_strings, lower, owned, parse_i64,
    parse_i64_spec, push_char, split, split_char, text_eq, to_lower, u64_text, views,
};
use vstd::string::StringExecFns;

verus! {

/// What the library reads of one metadata record that yt-dlp prints.
pub struct Metadata {
    /// The `title` string.
    pub title: Option<String>,
    /// The `live_status` string.
    pub live_status: Option<String>,
    /// The `release_timestamp` integer, when it fits an `i64`.
    pub release_timestamp: Option<i64>,
    /// The `_type` string.
    pub kind: Option<String>,
}

/// The mathematical value of a metadata record.
pub struct MetadataV {
    pub title: Option<Seq<char>>,
    pub live_status: Option<Seq<char>>,
    pub release_timestamp: Option<i64>,
    pub kind: Option<Seq<char>>,
}

impl View for Metadata {
    type V = MetadataV;

    open spec fn view(&self) -> MetadataV {
        MetadataV {
            title: opt_view(self.title),
            live_status: opt_view(self.live_status),
            release_timestamp: self.release_timestamp,
            kind: opt_view(self.kind),
        }
    }
}

/// The views of metadata records.
pub open spec fn metadata_views(v: Seq<Metadata>) -> Seq<MetadataV> {
    v.map_values(|m: Metadata| m@)
}

/// The name a download takes from its metadata: each record's title, or
/// the URL at the same position, or nothing, joined by `, `.
pub open spec fn metadata_title_spec(md: Seq<MetadataV>, urls: Seq<Seq<char>>) -> Seq<char> {
    join(
        Seq::new(
            md.len(),
            |i: int|
                match md[i].title {
                    Some(t) => t,
                    None => if i < urls.len() {
                        urls[i]
                    } else {
                        Seq::empty()
                    },
                },
        ),
        ", "@,
    )
}

/// The name a download takes from its metadata (see
/// `metadata_title_spec`).
pub fn metadata_title(md: &Vec<Metadata>, urls: &Vec<String>) -> (r: String)
    ensures
        r@ == metadata_title_spec(metadata_views(md@), views(urls@)),
{
    let ghost mv = metadata_views(md@);
    let ghost uv = views(urls@);
    let ghost names = Seq::new(
        mv.len(),
        |i: int|
            match mv[i].title {
                Some(t) => t,
                None => if i < uv.len() {
                    uv[i]
                } else {
                    Seq::empty()
                },
            },
    );
    let mut parts: Vec<String> = Vec::new();
    let mut i: usize = 0;
    while i < md.len()
        invariant
            mv == metadata_views(md@),
            uv == views(urls@),
            names.len() == md.len(),
            forall|j: int| 0 <= j < names.len() ==> #[trigger] names[j] == match mv[j].title {
                Some(t) => t,
                None => if j < uv.len() {
                    uv[j]
                } else {
                    Seq::empty()
                },
            },
            i <= md.len(),
            parts@.len() == i,
            views(parts@) =~= names.take(i as int),
        decreases md.len() - i,
    {
        let t: String = match &md[i].title {
            Some(t) => t.clone(),
            None => if i < urls.len() {
                urls[i].clone()
            } else {
                String::new()
            },
        };
        let ghost before = parts@;
        parts.push(t);
        proof {
            crate::text::lemma_views_push(before, t);
            assert(t@ == names[i as int]);
        }
        i = i + 1;
    }
    proof {
        assert(names.take(md.len() as int) =~= names);
    }
    join_strings(&parts, ", ")
}

/// Whether a record is an upcoming live stream or premiere.
pub open spec fn is_upcoming(m: MetadataV) -> bool {
    m.live_status == Some("is_upcoming"@)
}

/// The first upcoming record, by position.
pub open spec fn first_upcoming(md: Seq<MetadataV>) -> Option<int> {
    if exists|i: int| 0 <= i < md.len() && is_upcoming(#[trigger] md[i]) {
        Some(choose|i: int| 0 <= i < md.len() && is_upcoming(#[trigger] md[i]) && forall|j: int| 0 <= j < i ==> !is_upcoming(#[trigger] md[j]))
    } else {
        None
    }
}

fn upcoming_status(m: &Metadata) -> (r: bool)
    ensures
        r == is_upcoming(m@),
{
    proof {
        reveal_strlit("is_upcoming");
    }
    match &m.live_status {
        Some(s) => text_eq(s.as_str(), "is_upcoming"),
        None => false,
    }
}

/// The position of the first upcoming record (see `first_upcoming`).
pub fn find_upcoming(md: &Vec<Metadata>) -> (r: Option<usize>)
    ensures
        match r {
            Some(i) => first_upcoming(metadata_views(md@)) == Some(i as int) && i < md@.len(),
            None => first_upcoming(metadata_views(md@)) is None,
        },
{
    let ghost mv = metadata_views(md@);
    let mut i: usize = 0;
    while i < md.len()
        invariant
            mv == metadata_views(md@),
            i <= md.len(),
            forall|j: int| 0 <= j < i ==> !is_upcoming(#[trigger] mv[j]),
        decreases md.len() - i,
    {
        if upcoming_status(&md[i]) {
            proof {
                assert(mv[i as int] == md@[i as int]@);
                let w = choose|k: int| 0 <= k < mv.len() && is_upcoming(#[trigger] mv[k]) && forall|j: int| 0 <= j < k ==> !is_upcoming(#[trigger] mv[j]);
                assert(0 <= i < mv.len() && is_upcoming(mv[i as int]) && forall|j: int| 0 <= j < i ==> !is_upcoming(#[trigger] mv[j]));
                if w < i {
                    assert(!is_upcoming(mv[w]));
                }
                if w > i {
                    assert(!is_upcoming(mv[i as int]));
                }
            }
            return Some(i);
        }
        proof {
            assert(mv[i as int] == md@[i as int]@);
        }
        i = i + 1;
    }
    None
}

/// Whether metadata describe a playlist: the first record's `_type` is
/// `playlist`, or there is more than one record.
pub open spec fn is_playlist_spec(md: Seq<MetadataV>) -> bool {
    (md.len() > 0 && md[0].kind == Some("playlist"@)) || md.len() > 1
}

/// Whether metadata describe a playlist (see `is_playlist_spec`).
pub fn is_playlist(md: &Vec<Metadata>) -> (r: bool)
    ensures
        r == is_playlist_spec(metadata_views(md@)),
{
    proof {
        reveal_strlit("playlist");
    }
    let first = if md.len() > 0 {
        proof {
            assert(metadata_views(md@)[0] == md@[0]@);
        }
        match &md[0].kind {
            Some(k) => text_eq(k.as_str(), "playlist"),
            None => false,
        }
    } else {
        false
    };
    first || md.len() > 1
}

/// The folder part of an output template followed by `/<title>.%(ext)s`:
/// the template's last `/`-segment is emptied, the segments are joined
/// again, then `/`, the title and `.%(ext)s` follow.
pub open spec fn titled_output(output: Seq<char>, title: Seq<char>) -> Seq<char> {
    let parts = split(output, '/');
    join(parts.update(parts.len() - 1, Seq::empty()), seq!['/']) + seq!['/'] + title + ".%(ext)s"@
}

fn titled_output_of(output: &str, title: &str) -> (r: String)
    ensures
        r@ == titled_output(output@, title@),
{
    let mut parts = split_char(output, '/');
    let n = parts.len();
    let ghost before = parts@;
    parts.set(n - 1, String::new());
    proof {
        assert(views(parts@) =~= views(before).update(n - 1, Seq::<char>::empty()));
        reveal_strlit("/");
        assert("/"@ =~= seq!['/']);
    }
    let mut r = join_strings(&parts, "/");
    push_char(&mut r, '/');
    r.append(title);
    r.append(".%(ext)s");
    r
}

/// The string an optional value holds, if it is one.
pub open spec fn opt_str(o: Option<JsonV>) -> Option<Seq<char>> {
    match o {
        Some(v) => json_str(v),
        None => None,
    }
}

/// The options a download runs with once its metadata are known: a
/// playlist writes to the playlist template; a single video with a `title`
/// parameter writes `<folder of the output template>/<title>.%(ext)s`
/// when the output template is a string; otherwise the options are
/// unchanged.
pub open spec fn download_value(
    opts: Seq<(Seq<char>, JsonV)>,
    playlist: bool,
    output_playlist: Seq<char>,
    extra: ExtraV,
    k: Seq<char>,
) -> Option<JsonV> {
    if k == "output"@ && playlist {
        Some(JsonV::Str(output_playlist))
    } else if k == "output"@ && !playlist && opt_str(extra_get(extra, "title"@)) is Some && opt_str(
        lookup(opts, "output"@),
    ) is Some {
        Some(
            JsonV::Str(
                titled_output(
                    opt_str(lookup(opts, "output"@))->0,
                    opt_str(extra_get(extra, "title"@))->0,
                ),
            ),
        )
    } else {
        lookup(opts, k)
    }
}

/// The options a download runs with (see `download_value`).
pub fn download_options(
    opts: &mut KeyMap<JsonValue>,
    playlist: bool,
    output_playlist: &str,
    extra: &Extra,
)
    requires
        old(opts).wf(),
        extra.wf(),
    ensures
        final(opts).wf(),
        forall|k: Seq<char>|
            #[trigger] lookup(final(opts)@, k) == download_value(
                old(opts)@,
                playlist,
                output_playlist@,
                extra@,
                k,
            ),
{
    proof {
        reveal_strlit("output");
        reveal_strlit("title");
    }
    let ghost o0 = opts@;
    if playlist {
        opts.insert(owned("output"), JsonValue::Str(owned(output_playlist)));
    } else {
        match extra.get("title") {
            Some(JsonValue::Str(t)) => {
                let o = match opts.get("output") {
                    Some(JsonValue::Str(o)) => Some(titled_output_of(o.as_str(), t.as_str())),
                    _ => None,
                };
                match o {
                    Some(v) => {
                        opts.insert(owned("output"), JsonValue::Str(v));
                    },
                    None => {},
                }
            },
            _ => {},
        }
    }
    proof {
        assert forall|k: Seq<char>| #[trigger]
            lookup(opts@, k) == download_value(o0, playlist, output_playlist@, extra@, k) by {}
    }
}

// ---------------------------------------------------------------------------
// Time
// ---------------------------------------------------------------------------

/// The current Unix time in seconds, or 0 when the clock is before 1970.
/// Calls `SystemTime::elapsed` on the Unix epoch; the time is not stated.
#[verifier::external_body]
pub(crate) fn now_ts() -> (r: i64) {
    match std::time::UNIX_EPOCH.elapsed() {
        Ok(d) => d.as_secs() as i64,
        Err(_) => 0,
    }
}

/// The local date and time of a Unix time as `%Y-%m-%d %H:%M:%S`, or
/// `None` when `chrono::DateTime::from_timestamp` refuses it. Calls
/// `from_timestamp`, `with_timezone(&Local)` and `format`; the text
/// depends on the machine's time zone and is not stated.
#[verifier::external_body]
pub(crate) fn local_datetime_text(secs: i64) -> (r: Option<String>) {
    chrono::DateTime::from_timestamp(secs, 0).map(
        |d| d.with_timezone(&chrono::Local).format("%Y-%m-%d %H:%M:%S").to_string(),
    )
}

/// `a + b`, held to the `i64` range.
pub open spec fn sat_add(a: int, b: int) -> i64 {
    if a + b > i64::MAX {
        i64::MAX
    } else if a + b < i64::MIN {
        i64::MIN
    } else {
        (a + b) as i64
    }
}

fn sat_add_i64(a: i64, b: i64) -> (r: i64)
    ensures
        r == sat_add(a as int, b as int),
{
    if b >= 0 {
        if a > i64::MAX - b {
            i64::MAX
        } else {
            a + b
        }
    } else {
        if a < i64::MIN - b {
            i64::MIN
        } else {
            a + b
        }
    }
}

/// The seconds in one `unit` (`second`, `minute`, `hour` or `day`).
pub open spec fn unit_seconds(unit: Seq<char>) -> Option<i64> {
    if unit == "second"@ {
        Some(1)
    } else if unit == "minute"@ {
        Some(60)
    } else if unit == "hour"@ {
        Some(3600)
    } else if unit == "day"@ {
        Some(86400)
    } else {
        None
    }
}

/// The release time a "starts in N units" notice in `output` announces,
/// given the current time `now`: from the notice's number and unit (matched
/// by `delay_pattern`), `now + N * unit`; none when there is no notice, the
/// number does not parse as an `i64`, or the result leaves the `i64` range.
pub open spec fn upcoming_delay_spec(output: Seq<char>, now: i64) -> Option<i64> {
    match regex_captures(delay_pattern(), output) {
        Some(g) => if g.len() > 2 && g[1] is Some && g[2] is Some {
            match (parse_i64_spec(g[1]->0), unit_seconds(lower(g[2]->0))) {
                (Some(n), Some(s)) => {
                    let d = n * s;
                    if i64::MIN <= d <= i64::MAX && i64::MIN <= now + d <= i64::MAX {
                        Some((now + d) as i64)
                    } else {
                        None
                    }
                },
                _ => None,
            }
        } else {
            None
        },
        None => None,
    }
}

/// The release time a "starts in N units" notice announces (see
/// `upcoming_delay_spec`).
pub fn parse_upcoming_delay(output: &str, now: i64) -> (r: Option<i64>)
    ensures
        r == upcoming_delay_spec(output@, now),
{
    let p = match compile(
        "(?i)(?:will begin in|begins in|premieres in|starts in)\\s+(\\d+)\\s+(second|minute|hour|day)s?",
    ) {
        Some(p) => p,
        None => return None,
    };
    let g = match captures(&p, output) {
        Some(g) => g,
        None => return None,
    };
    if g.len() <= 2 {
        return None;
    }
    let (d, u) = match (&g[1], &g[2]) {
        (Some(d), Some(u)) => (d, u),
        _ => return None,
    };
    proof {
        let gv = groups_view(Some(g))->0;
        assert(gv[1] == Some(d@));
        assert(gv[2] == Some(u@));
    }
    let n = match parse_i64(d.as_str()) {
        Some(n) => n,
        None => return None,
    };
    let unit = to_lower(u.as_str());
    proof {
        reveal_strlit("second");
        reveal_strlit("minute");
        reveal_strlit("hour");
        reveal_strlit("day");
    }
    let secs: i64 = if text_eq(unit.as_str(), "second") {
        1
    } else if text_eq(unit.as_str(), "minute") {
        60
    } else if text_eq(unit.as_str(), "hour") {
        3600
    } else if text_eq(unit.as_str(), "day") {
        86400
    } else {
        return None;
    };
    match n.checked_mul(secs) {
        Some(dd) => now.checked_add(dd),
        None => None,
    }
}

} // verus!

verus! {

// ---------------------------------------------------------------------------
// Effects on the jobs table
// ---------------------------------------------------------------------------

/// A change the caller makes to the stored job (or the file system) before
/// it goes on.
pub enum DbEffect {
    SetName(String),
    SetLog(String),
    SetPid(i32),
    /// Remove this file, if it is a file.
    RemoveFile(String),
}

/// The mathematical value of an effect.
pub enum DbEffectV {
    SetName(Seq<char>),
    SetLog(Seq<char>),
    SetPid(i32),
    RemoveFile(Seq<char>),
}

impl View for DbEffect {
    type V = DbEffectV;

    open spec fn view(&self) -> DbEffectV {
        match self {
            DbEffect::SetName(s) => DbEffectV::SetName(s@),
            DbEffect::SetLog(s) => DbEffectV::SetLog(s@),
            DbEffect::SetPid(p) => DbEffectV::SetPid(*p),
            DbEffect::RemoveFile(s) => DbEffectV::RemoveFile(s@),
        }
    }
}

/// The views of effects.
pub open spec fn effects_view(v: Seq<DbEffect>) -> Seq<DbEffectV> {
    v.map_values(|e: DbEffect| e@)
}

/// Pushing an effect pushes its view.
pub proof fn lemma_effects_push(v: Seq<DbEffect>, e: DbEffect)
    ensures
        effects_view(v.push(e)) == effects_view(v).push(e@),
{
    assert(effects_view(v.push(e)) =~= effects_view(v).push(e@));
}

/// The view of an optional string slice.
pub open spec fn str_view(t: Option<&str>) -> Option<Seq<char>> {
    match t {
        Some(s) => Some(s@),
        None => None,
    }
}

/// The fields a job keeps through every decision of the queue.
pub open spec fn same_identity(a: JobV, b: JobV) -> bool {
    &&& a.id == b.id
    &&& a.format == b.format
    &&& a.job_type == b.job_type
    &&& a.urls == b.urls
    &&& a.force_generic_extractor == b.force_generic_extractor
}

// ---------------------------------------------------------------------------
// Scheduling
// ---------------------------------------------------------------------------

/// The attempt a scheduling is: one more than the `schedule_attempts`
/// parameter (0 when absent or not a non-negative integer).
pub open spec fn next_attempt(extra: ExtraV) -> int {
    match extra_get(extra, "schedule_attempts"@) {
        Some(v) => match json_as_u64(v) {
            Some(n) => n + 1,
            None => 1,
        },
        None => 1,
    }
}

/// When a scheduled job is retried: a minute after the release, but not
/// before five minutes from now.
pub open spec fn retry_time(release: i64, now: i64) -> i64 {
    let a = sat_add(release as int, 60);
    let b = sat_add(now as int, 300);
    if a >= b { a } else { b }
}

/// The log line that gives up on an event after `max` attempts.
pub open spec fn give_up_log(log: Seq<char>, max: nat) -> Seq<char> {
    clean_logs_spec(log + "\n[scheduled] giving up after "@ + decimal(max) + " attempts"@)
}

/// The log line that schedules a retry at the time shown as `ts`.
pub open spec fn retry_log(log: Seq<char>, ts: Seq<char>, attempt: nat, max: nat) -> Seq<char> {
    clean_logs_spec(
        log + "\n[scheduled] this event has not started yet, retrying at "@ + ts + " (attempt "@
            + decimal(attempt) + "/"@ + decimal(max) + ")"@,
    )
}

/// How a job looks after scheduling it for an event released at `release`,
/// with the current time `now` and `ts` the text shown for the retry time:
/// past the last attempt it fails; otherwise it is scheduled for
/// `retry_time`, counts the attempt in its parameters, takes the event's
/// title (if one is given) and clears its process id. `effects` are what
/// the caller stores.
pub open spec fn scheduled(
    j0: JobV,
    j1: JobV,
    effects: Seq<DbEffectV>,
    max: nat,
    release: i64,
    title: Option<Seq<char>>,
    now: i64,
    ts: Seq<char>,
) -> bool {
    let attempt = next_attempt(j0.extra_params);
    &&& same_identity(j0, j1)
    &&& j1.pid == j0.pid
    &&& if attempt > max {
        &&& j1.status == JobStatus::Failed
        &&& j1.log == give_up_log(j0.log, max)
        &&& j1.name == j0.name
        &&& j1.extra_params == j0.extra_params
        &&& j1.scheduled_at == j0.scheduled_at
        &&& effects == Seq::<DbEffectV>::empty()
    } else {
        &&& j1.status == JobStatus::Scheduled
        &&& j1.scheduled_at == Some(retry_time(release, now))
        &&& j1.log == retry_log(j0.log, ts, attempt as nat, max)
        &&& j1.extra_params matches ExtraV::Object(m) && forall|k: Seq<char>| #[trigger]
            lookup(m, k) == if k == "schedule_attempts"@ {
                Some(JsonV::PosInt(attempt as u64))
            } else {
                lookup(extra_entries(j0.extra_params), k)
            }
        &&& j1.name == match title {
            Some(t) => t,
            None => j0.name,
        }
        &&& effects == match title {
            Some(t) => seq![DbEffectV::SetName(t), DbEffectV::SetPid(0)],
            None => seq![DbEffectV::SetPid(0)],
        }
    }
}

/// The text shown for a retry time: the local time, or the number of
/// seconds when there is none.
pub open spec fn shown_time(local: Option<Seq<char>>, when: i64) -> Seq<char> {
    match local {
        Some(t) => t,
        None => int_text(when as int),
    }
}

/// Schedules `job` for an event released at `release_ts` (see
/// `scheduled`), with `now` the current time and `local_text` the local
/// rendering of the retry time.
pub fn schedule_job_at(
    cfg: &AppConfig,
    job: &mut Job,
    release_ts: i64,
    title: Option<&str>,
    now: i64,
    local_text: Option<String>,
) -> (effects: Vec<DbEffect>)
    requires
        old(job).wf(),
    ensures
        final(job).wf(),
        scheduled(
            old(job)@,
            final(job)@,
            effects_view(effects@),
            cfg.ydl_server.schedule_max_attempts as nat,
            release_ts,
            str_view(title),
            now,
            shown_time(opt_view(local_text), retry_time(release_ts, now)),
        ),
{
    proof {
        reveal_strlit("schedule_attempts");
    }
    let mut extra = job.extra_object();
    let prior: u64 = match extra.get("schedule_attempts") {
        Some(v) => match v.as_u64() {
            Some(n) => n,
            None => 0,
        },
        None => 0,
    };
    let attempts: u64 = if prior == u64::MAX { u64::MAX } else { prior + 1 };
    let max: u64 = cfg.ydl_server.schedule_max_attempts as u64;
    proof {
        assert(extra_get(old(job)@.extra_params, "schedule_attempts"@) == lookup(extra@, "schedule_attempts"@));
        assert(attempts as int > max as int <==> next_attempt(old(job)@.extra_params) > max as int);
    }
    let mut effects: Vec<DbEffect> = Vec::new();
    if attempts > max {
        let mut l = job.log.clone();
        l.append("\n[scheduled] giving up after ");
        let m = u64_text(max);
        l.append(m.as_str());
        l.append(" attempts");
        job.log = clean_logs(l.as_str());
        job.status = JobStatus::Failed;
        proof {
            assert(effects_view(effects@) =~= Seq::<DbEffectV>::empty());
        }
        return effects;
    }
    extra.insert(owned("schedule_attempts"), JsonValue::PosInt(attempts));
    job.extra_params = Extra::Object(extra);
    let a = sat_add_i64(release_ts, 60);
    let b = sat_add_i64(now, 300);
    let when = if a >= b { a } else { b };
    job.scheduled_at = Some(when);
    job.status = JobStatus::Scheduled;
    let ts = match local_text {
        Some(t) => t,
        None => i64_text(when),
    };
    let mut l = job.log.clone();
    l.append("\n[scheduled] this event has not started yet, retrying at ");
    l.append(ts.as_str());
    l.append(" (attempt ");
    let at = u64_text(attempts);
    l.append(at.as_str());
    l.append("/");
    let m = u64_text(max);
    l.append(m.as_str());
    l.append(")");
    job.log = clean_logs(l.as_str());
    match title {
        Some(t) => {
            job.name = owned(t);
            effects.push(DbEffect::SetName(owned(t)));
        },
        None => {},
    }
    effects.push(DbEffect::SetPid(0));
    proof {
        match title {
            Some(t) => {
                assert(effects_view(effects@) =~= seq![DbEffectV::SetName(t@), DbEffectV::SetPid(0)]);
            },
            None => {
                assert(effects_view(effects@) =~= seq![DbEffectV::SetPid(0)]);
            },
        }
    }
    effects
}

/// Schedules `job` for an event released at `release_ts`, reading the
/// clock and the local time zone (see `scheduled`; the current time and the
/// shown time are whatever the clock and the time zone give).
pub fn schedule_job(cfg: &AppConfig, job: &mut Job, release_ts: i64, title: Option<&str>) -> (effects: Vec<DbEffect>)
    requires
        old(job).wf(),
    ensures
        final(job).wf(),
        exists|now: i64, ts: Seq<char>|
            #[trigger] scheduled(
                old(job)@,
                final(job)@,
                effects_view(effects@),
                cfg.ydl_server.schedule_max_attempts as nat,
                release_ts,
                str_view(title),
                now,
                ts,
            ),
{
    let now = now_ts();
    let a = sat_add_i64(release_ts, 60);
    let b = sat_add_i64(now, 300);
    let when = if a >= b { a } else { b };
    let local = local_datetime_text(when);
    let ghost ts = shown_time(opt_view(local), retry_time(release_ts, now));
    let effects = schedule_job_at(cfg, job, release_ts, title, now, local);
    proof {
        assert(scheduled(
            old(job)@,
            job@,
            effects_view(effects@),
            cfg.ydl_server.schedule_max_attempts as nat,
            release_ts,
            str_view(title),
            now,
            ts,
        ));
    }
    effects
}

} // verus!

verus! {

/// A retry is never earlier than a minute after the release, nor earlier
/// than five minutes from now (times past the last second saturate).
pub proof fn law_retry_time_bounds(release: i64, now: i64)
    ensures
        retry_time(release, now) >= sat_add(release as int, 60),
        retry_time(release, now) >= sat_add(now as int, 300),
        now + 300 <= i64::MAX ==> retry_time(release, now) >= now + 300,
{
}

/// Each time a job is scheduled again its attempt count goes up by one,
/// until the last allowed attempt, after which it fails.
pub proof fn law_attempts_count_up(
    j0: JobV,
    j1: JobV,
    effects: Seq<DbEffectV>,
    max: nat,
    release: i64,
    title: Option<Seq<char>>,
    now: i64,
    ts: Seq<char>,
)
    requires
        scheduled(j0, j1, effects, max, release, title, now, ts),
        max <= u32::MAX,
    ensures
        next_attempt(j0.extra_params) <= max ==> j1.status == JobStatus::Scheduled && next_attempt(
            j1.extra_params,
        ) == next_attempt(j0.extra_params) + 1,
        next_attempt(j0.extra_params) > max ==> j1.status == JobStatus::Failed,
{
    reveal_strlit("schedule_attempts");
    if next_attempt(j0.extra_params) <= max {
        let m = j1.extra_params->Object_0;
        assert(lookup(m, "schedule_attempts"@) == Some(
            JsonV::PosInt(next_attempt(j0.extra_params) as u64),
        ));
    }
}

} // verus!

verus! {

/// How many download workers run: as configured, but at least one.
pub fn worker_count(configured: usize) -> (r: usize)
    ensures
        r == if configured == 0 {
            1
        } else {
            configured
        },
{
    if configured == 0 {
        1
    } else {
        configured
    }
}

/// How many seconds pass between checks for scheduled jobs that are due:
/// as configured, but at least one.
pub fn check_interval(configured: u64) -> (r: u64)
    ensures
        r == if configured == 0 {
            1
        } else {
            configured
        },
{
    if configured == 0 {
        1
    } else {
        configured
    }
}

} // verus!
