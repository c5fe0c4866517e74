//! The cut and update jobs as state machines, and what the queue reads of
//! yt-dlp's version and extractor outputs.
use vstd::prelude::*;
use crate::config::AppConfig;
use crate::ffmpeg::{cut_command, cut_command_spec};
use crate::jobs::{format_cmd, format_cmd_spec, opt_view, Job, JobStatus, JobV};
use crate::json::{extra_entries, extra_get, lookup, Extra, ExtraV, JsonV, JsonValue};
use crate::machine::{with_status_log, Capture, Event, Request, RequestV, Step};
use crate::paths::finished_path_spec;
use crate::queue::{effects_view, same_identity, DbEffect, DbEffectV};
use crate::text::{
    concat, i64_text, int_text, lines, lines_of, owned, push_char, starts_with, text_eq,
    trim, trim_spec, views,
};
use vstd::string::StringExecFns;

verus! {

// ---------------------------------------------------------------------------
// Starting a job
// ---------------------------------------------------------------------------

/// Whether a dequeued job runs: not when it was aborted meanwhile (by its
/// stored status). A job that runs becomes `Running`.
pub fn start_job(job: &mut Job, stored: Option<JobStatus>) -> (run: bool)
    ensures
        run == (stored != Some(JobStatus::Aborted)),
        run ==> final(job)@ == (JobV { status: JobStatus::Running, ..old(job)@ }),
        !run ==> final(job)@ == old(job)@,
        final(job).extra_params == old(job).extra_params,
{
    match stored {
        Some(JobStatus::Aborted) => false,
        _ => {
            job.status = JobStatus::Running;
            true
        },
    }
}

// ---------------------------------------------------------------------------
// Version and extractor outputs
// ---------------------------------------------------------------------------

/// What `--version` reports: the trimmed output on success, the trimmed
/// output and error output run together otherwise, `unknown (<error>)` when
/// the program could not run.
pub open spec fn version_text_spec(res: Result<Capture, String>) -> Seq<char> {
    match res {
        Ok(cap) => if cap.code == 0 {
            trim_spec(cap.stdout@)
        } else {
            trim_spec(cap.stdout@) + trim_spec(cap.stderr@)
        },
        Err(e) => "unknown ("@ + e@ + ")"@,
    }
}

/// What `--version` reports (see `version_text_spec`).
pub fn version_text(res: &Result<Capture, String>) -> (r: String)
    ensures
        r@ == version_text_spec(*res),
{
    match res {
        Ok(cap) => {
            if cap.code == 0 {
                trim(cap.stdout.as_str())
            } else {
                let a = trim(cap.stdout.as_str());
                let b = trim(cap.stderr.as_str());
                concat(a.as_str(), b.as_str())
            }
        },
        Err(e) => {
            let mut s = concat("unknown (", e.as_str());
            s.append(")");
            s
        },
    }
}

/// The trimmed non-empty lines of a text.
pub open spec fn trimmed_lines(ls: Seq<Seq<char>>) -> Seq<Seq<char>>
    decreases ls.len(),
{
    if ls.len() == 0 {
        Seq::empty()
    } else {
        let r = trimmed_lines(ls.drop_last());
        let t = trim_spec(ls.last());
        if t.len() == 0 {
            r
        } else {
            r.push(t)
        }
    }
}

/// The extractors `--list-extractors` names: its trimmed non-empty lines on
/// success, none otherwise.
pub open spec fn extractor_list_spec(res: Result<Capture, String>) -> Seq<Seq<char>> {
    match res {
        Ok(cap) => if cap.code == 0 {
            trimmed_lines(lines(cap.stdout@))
        } else {
            Seq::empty()
        },
        Err(_) => Seq::empty(),
    }
}

/// The extractors `--list-extractors` names (see `extractor_list_spec`).
pub fn extractor_list(res: &Result<Capture, String>) -> (r: Vec<String>)
    ensures
        views(r@) == extractor_list_spec(*res),
{
    let mut r: Vec<String> = Vec::new();
    match res {
        Ok(cap) => {
            if cap.code == 0 {
                let ls = lines_of(cap.stdout.as_str());
                let ghost lv = lines(cap.stdout@);
                let mut i: usize = 0;
                while i < ls.len()
                    invariant
                        views(ls@) == lv,
                        i <= ls.len(),
                        views(r@) == trimmed_lines(lv.take(i as int)),
                    decreases ls.len() - i,
                {
                    proof {
                        assert(lv.take(i + 1).drop_last() =~= lv.take(i as int));
                    }
                    let t = trim(ls[i].as_str());
                    if !t.as_str().is_empty() {
                        let ghost before = r@;
                        r.push(t);
                        proof {
                            crate::text::lemma_views_push(before, t);
                        }
                    }
                    i = i + 1;
                }
                proof {
                    assert(lv.take(ls.len() as int) =~= lv);
                }
            } else {
                proof {
                    assert(views(r@) =~= Seq::<Seq<char>>::empty());
                }
            }
        },
        Err(_) => {
            proof {
                assert(views(r@) =~= Seq::<Seq<char>>::empty());
            }
        },
    }
    r
}

// ---------------------------------------------------------------------------
// Paths
// ---------------------------------------------------------------------------

/// `PathBuf::join`: an absolute `rel` replaces `base`; otherwise `rel` is
/// appended, with a `/` between unless `base` is empty or ends with one.
pub open spec fn path_join_spec(base: Seq<char>, rel: Seq<char>) -> Seq<char> {
    if starts_with(rel, seq!['/']) {
        rel
    } else if base.len() > 0 && base.last() != '/' {
        base + seq!['/'] + rel
    } else {
        base + rel
    }
}

/// Joins a relative path to a folder (see `path_join_spec`).
pub fn path_join(base: &str, rel: &str) -> (r: String)
    ensures
        r@ == path_join_spec(base@, rel@),
{
    proof {
        reveal_strlit("/");
        assert("/"@ =~= seq!['/']);
    }
    if crate::text::has_prefix(rel, "/") {
        return owned(rel);
    }
    let v = crate::text::chars_of(base);
    let mut r = owned(base);
    if v.len() > 0 && v[v.len() - 1] != '/' {
        push_char(&mut r, '/');
    }
    r.append(rel);
    r
}

// ---------------------------------------------------------------------------
// Cutting a clip
// ---------------------------------------------------------------------------

/// Where a cut is.
#[derive(Clone, Copy, PartialEq, Eq, Structural)]
pub enum CutStage {
    Start,
    Resolving,
    Running,
    Finished,
}

/// A cut job in progress.
pub struct CutMachine {
    pub job: Job,
    pub stage: CutStage,
    /// The ffmpeg program.
    pub ffmpeg: String,
    /// The folder a relative output template is taken against.
    pub cwd: String,
    /// The finished-files folder.
    pub root: String,
    /// The clip being written.
    pub dst: String,
}

/// The string parameter `k` of a job, or `default`.
pub open spec fn param_or(extra: ExtraV, k: Seq<char>, default: Seq<char>) -> Seq<char> {
    match extra_get(extra, k) {
        Some(JsonV::Str(s)) => s,
        _ => default,
    }
}

/// The string parameter `k` of a job, if it is one.
pub open spec fn param(extra: ExtraV, k: Seq<char>) -> Option<Seq<char>> {
    match extra_get(extra, k) {
        Some(JsonV::Str(s)) => Some(s),
        _ => None,
    }
}

/// The source file name of a cut: its first URL.
pub open spec fn cut_source(j: JobV) -> Seq<char> {
    if j.urls.len() > 0 {
        j.urls[0]
    } else {
        Seq::empty()
    }
}

/// A cut's first step: the finished-files folder is found (a failure ends
/// the job with its message) and the source file is asked for.
pub open spec fn cut_begun(cfg: AppConfig, m0: CutMachine, m1: CutMachine, eff: Seq<DbEffectV>, req: RequestV) -> bool {
    let out = match lookup(cfg.ydl_options@, "output"@) {
        Some(JsonV::Str(s)) => s,
        _ => "/downloads/%(title)s [%(id)s].%(ext)s"@,
    };
    &&& eff == Seq::<DbEffectV>::empty()
    &&& m1.ffmpeg == m0.ffmpeg
    &&& m1.cwd == m0.cwd
    &&& match finished_path_spec(out, lookup(cfg.ydl_options@, "paths"@), m0.cwd@) {
        Ok(root) => {
            &&& m1.job@ == m0.job@
            &&& m1.root@ == root
            &&& m1.stage == CutStage::Resolving
            &&& req == RequestV::Resolve { root, name: cut_source(m0.job@) }
        },
        Err(msg) => {
            &&& with_status_log(m0.job@, m1.job@, JobStatus::Failed, msg)
            &&& m1.stage == CutStage::Finished
            &&& req == RequestV::Done
        },
    }
}

/// The source file was resolved: a name outside the folder or a missing
/// file ends the job; otherwise the ffmpeg command for the job's `start`,
/// `end`, `mode` and `output` parameters (defaults `0`, none, `fast`,
/// `cut.bin`) is logged and run, writing next to the source.
pub open spec fn cut_resolved(
    m0: CutMachine,
    m1: CutMachine,
    eff: Seq<DbEffectV>,
    req: RequestV,
    src: Option<(Seq<char>, bool, Option<Seq<char>>)>,
) -> bool {
    let j0 = m0.job@;
    &&& m1.ffmpeg == m0.ffmpeg
    &&& m1.cwd == m0.cwd
    &&& m1.root == m0.root
    &&& match src {
        None => {
            &&& with_status_log(j0, m1.job@, JobStatus::Failed, "Invalid source file path"@)
            &&& eff == Seq::<DbEffectV>::empty()
            &&& m1.stage == CutStage::Finished
            &&& req == RequestV::Done
        },
        Some((path, is_file, folder)) => if !is_file {
            &&& with_status_log(j0, m1.job@, JobStatus::Failed, "Source file not found: "@ + cut_source(j0))
            &&& eff == Seq::<DbEffectV>::empty()
            &&& m1.stage == CutStage::Finished
            &&& req == RequestV::Done
        } else {
            let dir = match folder {
                Some(f) => f,
                None => m0.root@,
            };
            let dst = path_join_spec(dir, param_or(j0.extra_params, "output"@, "cut.bin"@));
            let cmd = cut_command_spec(
                m0.ffmpeg@,
                path,
                dst,
                param_or(j0.extra_params, "start"@, "0"@),
                param(j0.extra_params, "end"@),
                param_or(j0.extra_params, "mode"@, "fast"@),
            );
            let log = "[cmd] "@ + format_cmd_spec(cmd) + "\n"@;
            &&& m1.job@ == (JobV { log: log, ..j0 })
            &&& m1.dst@ == dst
            &&& eff == seq![DbEffectV::SetLog(log)]
            &&& m1.stage == CutStage::Running
            &&& req == RequestV::Run { program: cmd[0], args: cmd.drop_first(), log_prefix: log }
        },
    }
}

/// The ffmpeg run ended: exit code 0 completes the job, anything else fails
/// it and removes the partial clip; the log is the stored one.
pub open spec fn cut_exited(
    m0: CutMachine,
    m1: CutMachine,
    eff: Seq<DbEffectV>,
    req: RequestV,
    res: Result<i32, String>,
    stored: Option<String>,
) -> bool {
    let kept = match stored {
        Some(l) => l@,
        None => m0.job@.log,
    };
    &&& m1.stage == CutStage::Finished
    &&& req == RequestV::Done
    &&& m1.dst == m0.dst
    &&& if res == Ok::<i32, String>(0) {
        with_status_log(m0.job@, m1.job@, JobStatus::Completed, kept) && eff == Seq::<DbEffectV>::empty()
    } else {
        with_status_log(m0.job@, m1.job@, JobStatus::Failed, kept) && eff == seq![
            DbEffectV::RemoveFile(m0.dst@),
        ]
    }
}

/// The view of a resolved source file.
pub open spec fn source_view(s: Option<crate::machine::SourceFile>) -> Option<(Seq<char>, bool, Option<Seq<char>>)> {
    match s {
        Some(f) => Some((f.path@, f.is_file, opt_view(f.folder))),
        None => None,
    }
}

fn param_text(extra: &Extra, k: &str) -> (r: Option<String>)
    requires
        extra.wf(),
    ensures
        opt_view(r) == param(extra@, k@),
{
    match extra.get(k) {
        Some(JsonValue::Str(s)) => Some(s.clone()),
        _ => None,
    }
}

fn param_text_or(extra: &Extra, k: &str, default: &str) -> (r: String)
    requires
        extra.wf(),
    ensures
        r@ == param_or(extra@, k@, default@),
{
    match extra.get(k) {
        Some(JsonValue::Str(s)) => s.clone(),
        _ => owned(default),
    }
}

fn no_effects() -> (r: Vec<DbEffect>)
    ensures
        effects_view(r@) == Seq::<DbEffectV>::empty(),
{
    let r: Vec<DbEffect> = Vec::new();
    assert(effects_view(r@) =~= Seq::<DbEffectV>::empty());
    r
}

fn one_effect(e: DbEffect) -> (r: Vec<DbEffect>)
    ensures
        effects_view(r@) == seq![e@],
{
    let mut r: Vec<DbEffect> = Vec::new();
    r.push(e);
    assert(effects_view(r@) =~= seq![e@]);
    r
}

fn copy_tail(cmd: &Vec<String>) -> (r: Vec<String>)
    requires
        cmd.len() >= 1,
    ensures
        views(r@) == views(cmd@).drop_first(),
{
    let mut r: Vec<String> = Vec::new();
    let mut i: usize = 1;
    while i < cmd.len()
        invariant
            1 <= i <= cmd.len(),
            r@.len() == i - 1,
            views(r@) =~= views(cmd@).subrange(1, i as int),
        decreases cmd.len() - i,
    {
        let ghost before = r@;
        let s = cmd[i].clone();
        r.push(s);
        proof {
            crate::text::lemma_views_push(before, s);
        }
        i = i + 1;
    }
    r
}

impl CutMachine {
    /// A cut of `job` with the ffmpeg program `ffmpeg`, taking a relative
    /// output template against `cwd`.
    pub fn new(job: Job, ffmpeg: String, cwd: String) -> (m: CutMachine)
        ensures
            m.job@ == job@,
            m.ffmpeg@ == ffmpeg@,
            m.cwd@ == cwd@,
            m.stage == CutStage::Start,
            job.wf() ==> m.inv(),
    {
        CutMachine { job, stage: CutStage::Start, ffmpeg, cwd, root: String::new(), dst: String::new() }
    }

    /// The machine's invariant.
    pub open spec fn inv(&self) -> bool {
        self.job.wf()
    }

    fn begin(&mut self, cfg: &AppConfig) -> (s: Step)
        requires
            old(self).inv(),
            cfg.wf(),
        ensures
            final(self).inv(),
            cut_begun(*cfg, *old(self), *final(self), effects_view(s.effects@), s.request@),
    {
        match cfg.finished_path(self.cwd.as_str()) {
            Ok(root) => {
                let name = if self.job.urls.len() > 0 {
                    self.job.urls[0].clone()
                } else {
                    String::new()
                };
                self.root = root.clone();
                self.stage = CutStage::Resolving;
                Step { effects: no_effects(), request: Request::Resolve { root, name } }
            },
            Err(e) => {
                self.job.status = JobStatus::Failed;
                self.job.log = e.message();
                self.stage = CutStage::Finished;
                Step { effects: no_effects(), request: Request::Done }
            },
        }
    }

    fn on_resolved(&mut self, src: Option<crate::machine::SourceFile>) -> (s: Step)
        requires
            old(self).inv(),
        ensures
            final(self).inv(),
            cut_resolved(*old(self), *final(self), effects_view(s.effects@), s.request@, source_view(src)),
    {
        proof {
            reveal_strlit("output");
            reveal_strlit("start");
            reveal_strlit("end");
            reveal_strlit("mode");
            reveal_strlit("\n");
        }
        match src {
            None => {
                self.job.status = JobStatus::Failed;
                self.job.log = owned("Invalid source file path");
                self.stage = CutStage::Finished;
                Step { effects: no_effects(), request: Request::Done }
            },
            Some(f) => {
                if !f.is_file {
                    let name = if self.job.urls.len() > 0 {
                        self.job.urls[0].clone()
                    } else {
                        String::new()
                    };
                    self.job.status = JobStatus::Failed;
                    self.job.log = concat("Source file not found: ", name.as_str());
                    self.stage = CutStage::Finished;
                    return Step { effects: no_effects(), request: Request::Done };
                }
                let start = param_text_or(&self.job.extra_params, "start", "0");
                let end = param_text(&self.job.extra_params, "end");
                let mode = param_text_or(&self.job.extra_params, "mode", "fast");
                let output = param_text_or(&self.job.extra_params, "output", "cut.bin");
                let dir: String = match &f.folder {
                    Some(d) => d.clone(),
                    None => self.root.clone(),
                };
                let dst = path_join(dir.as_str(), output.as_str());
                let end_ref: Option<&str> = match &end {
                    Some(e) => Some(e.as_str()),
                    None => None,
                };
                let cmd = cut_command(self.ffmpeg.as_str(), f.path.as_str(), dst.as_str(), start.as_str(), end_ref, mode.as_str());
                let d = format_cmd(&cmd);
                let mut log = concat("[cmd] ", d.as_str());
                log.append("\n");
                self.job.log = log.clone();
                self.dst = dst;
                self.stage = CutStage::Running;
                proof {
                    assert(views(cmd@).len() == cmd@.len());
                    assert(views(cmd@)[0] == self.ffmpeg@);
                }
                let program = cmd[0].clone();
                let args = copy_tail(&cmd);
                Step {
                    effects: one_effect(DbEffect::SetLog(log.clone())),
                    request: Request::Run { program, args, log_prefix: log },
                }
            },
        }
    }

    fn on_exit(&mut self, res: Result<i32, String>, stored: Option<String>) -> (s: Step)
        requires
            old(self).inv(),
        ensures
            final(self).inv(),
            cut_exited(*old(self), *final(self), effects_view(s.effects@), s.request@, res, stored),
    {
        let ok = match &res {
            Ok(code) => *code == 0,
            Err(_) => false,
        };
        match stored {
            Some(l) => {
                self.job.log = l;
            },
            None => {},
        }
        self.stage = CutStage::Finished;
        if ok {
            self.job.status = JobStatus::Completed;
            Step { effects: no_effects(), request: Request::Done }
        } else {
            self.job.status = JobStatus::Failed;
            Step { effects: one_effect(DbEffect::RemoveFile(self.dst.clone())), request: Request::Done }
        }
    }

    /// Takes what came of the last request and decides the next one (see
    /// `cut_begun`, `cut_resolved`, `cut_exited`); an event that does not
    /// fit the stage changes nothing.
    pub fn step(&mut self, cfg: &AppConfig, event: Event) -> (s: Step)
        requires
            old(self).inv(),
            cfg.wf(),
        ensures
            final(self).inv(),
            match (old(self).stage, event) {
                (CutStage::Start, Event::Begin) => cut_begun(
                    *cfg,
                    *old(self),
                    *final(self),
                    effects_view(s.effects@),
                    s.request@,
                ),
                (CutStage::Resolving, Event::Resolved(src)) => cut_resolved(
                    *old(self),
                    *final(self),
                    effects_view(s.effects@),
                    s.request@,
                    source_view(src),
                ),
                (CutStage::Running, Event::Exited(res, stored)) => cut_exited(
                    *old(self),
                    *final(self),
                    effects_view(s.effects@),
                    s.request@,
                    res,
                    stored,
                ),
                _ => *final(self) == *old(self) && effects_view(s.effects@) == Seq::<DbEffectV>::empty()
                    && s.request@ == RequestV::Done,
            },
    {
        match (self.stage, event) {
            (CutStage::Start, Event::Begin) => self.begin(cfg),
            (CutStage::Resolving, Event::Resolved(src)) => self.on_resolved(src),
            (CutStage::Running, Event::Exited(res, stored)) => self.on_exit(res, stored),
            _ => Step { effects: no_effects(), request: Request::Done },
        }
    }
}

} // verus!

verus! {

// ---------------------------------------------------------------------------
// Updating yt-dlp
// ---------------------------------------------------------------------------

/// Where an update is.
#[derive(Clone, Copy, PartialEq, Eq, Structural)]
pub enum UpdateStage {
    Start,
    AwaitOld,
    Running,
    AwaitNew,
    Finished,
}

/// An update job in progress.
pub struct UpdateMachine {
    pub job: Job,
    pub stage: UpdateStage,
    /// The yt-dlp program.
    pub bin: String,
    /// The update channel.
    pub channel: String,
    /// The version before the update.
    pub old_version: String,
    /// The log so far.
    pub log: String,
}

/// The channel an update job asks for: its `channel` parameter, or
/// `nightly`.
pub open spec fn update_channel(j: JobV) -> Seq<char> {
    param_or(j.extra_params, "channel"@, "nightly"@)
}

/// The log an update starts with.
pub open spec fn update_log(bin: Seq<char>, channel: Seq<char>, old: Seq<char>) -> Seq<char> {
    "[cmd] "@ + bin + " --update-to "@ + channel + "\nCurrent version: "@ + old + "\n"@
}

/// What a finished update says: already current, or from which version to
/// which.
pub open spec fn update_message(old: Seq<char>, new: Seq<char>) -> Seq<char> {
    if new == old {
        "Already up to date ("@ + new + ")"@
    } else {
        "Updated "@ + old + " → "@ + new
    }
}

/// An update's steps: ask for the current version; log the update command
/// and run it; on success ask for the new version, then complete with a
/// message and the versions in the job's parameters; on a non-zero exit
/// fail with the exit code; when the program cannot run, fail with the
/// error.
pub open spec fn update_stepped(
    m0: UpdateMachine,
    m1: UpdateMachine,
    eff: Seq<DbEffectV>,
    req: RequestV,
    event: Event,
) -> bool {
    let j0 = m0.job@;
    &&& m1.bin == m0.bin
    &&& match (m0.stage, event) {
        (UpdateStage::Start, Event::Begin) => {
            &&& m1.job@ == j0
            &&& m1.channel@ == update_channel(j0)
            &&& m1.stage == UpdateStage::AwaitOld
            &&& eff == Seq::<DbEffectV>::empty()
            &&& req == RequestV::Version
        },
        (UpdateStage::AwaitOld, Event::Versioned(res)) => {
            let old = version_text_spec(res);
            let log = update_log(m0.bin@, m0.channel@, old);
            &&& m1.job@ == (JobV { log: log, ..j0 })
            &&& m1.old_version@ == old
            &&& m1.log@ == log
            &&& m1.channel == m0.channel
            &&& m1.stage == UpdateStage::Running
            &&& eff == seq![DbEffectV::SetLog(log)]
            &&& req == RequestV::Run {
                program: m0.bin@,
                args: seq!["--update-to"@, m0.channel@],
                log_prefix: log,
            }
        },
        (UpdateStage::Running, Event::Exited(res, stored)) => {
            let log = match stored {
                Some(l) => l@,
                None => m0.log@,
            };
            &&& eff == Seq::<DbEffectV>::empty()
            &&& m1.old_version == m0.old_version
            &&& match res {
                Ok(code) => if code == 0 {
                    &&& m1.job@ == j0
                    &&& m1.log@ == log
                    &&& m1.stage == UpdateStage::AwaitNew
                    &&& req == RequestV::Version
                } else {
                    let msg = "Update failed (exit "@ + int_text(code as int) + ")"@;
                    &&& same_identity(j0, m1.job@)
                    &&& m1.job@.name == j0.name
                    &&& m1.job@.pid == j0.pid
                    &&& m1.job@.scheduled_at == j0.scheduled_at
                    &&& m1.job@.status == JobStatus::Failed
                    &&& m1.job@.log == log + "\n"@ + msg + "\n"@
                    &&& failed_params(m1.job@.extra_params, j0.extra_params, msg)
                    &&& m1.stage == UpdateStage::Finished
                    &&& req == RequestV::Done
                },
                Err(e) => {
                    &&& with_status_log(j0, m1.job@, JobStatus::Failed, m0.log@ + "Error: "@ + e@ + "\n"@)
                    &&& m1.stage == UpdateStage::Finished
                    &&& req == RequestV::Done
                },
            }
        },
        (UpdateStage::AwaitNew, Event::Versioned(res)) => {
            let new = version_text_spec(res);
            let msg = update_message(m0.old_version@, new);
            &&& eff == Seq::<DbEffectV>::empty()
            &&& same_identity(j0, m1.job@)
            &&& m1.job@.name == j0.name
            &&& m1.job@.pid == j0.pid
            &&& m1.job@.scheduled_at == j0.scheduled_at
            &&& m1.job@.status == JobStatus::Completed
            &&& m1.job@.log == m0.log@ + "\n"@ + msg + "\n"@
            &&& completed_params(m1.job@.extra_params, j0.extra_params, m0.old_version@, new, msg)
            &&& m1.stage == UpdateStage::Finished
            &&& req == RequestV::Done
        },
        _ => m1 == m0 && eff == Seq::<DbEffectV>::empty() && req == RequestV::Done,
    }
}

/// The parameters of a failed update: the old ones with `success` false and
/// the failure message.
pub open spec fn failed_params(e1: ExtraV, e0: ExtraV, msg: Seq<char>) -> bool {
    e1 matches ExtraV::Object(m) && forall|k: Seq<char>| #[trigger]
        lookup(m, k) == if k == "message"@ {
            Some(JsonV::Str(msg))
        } else if k == "success"@ {
            Some(JsonV::Bool(false))
        } else {
            lookup(extra_entries(e0), k)
        }
}

/// The parameters of a completed update: the old ones with both versions,
/// the message and `success` true.
pub open spec fn completed_params(e1: ExtraV, e0: ExtraV, old: Seq<char>, new: Seq<char>, msg: Seq<char>) -> bool {
    e1 matches ExtraV::Object(m) && forall|k: Seq<char>| #[trigger]
        lookup(m, k) == if k == "old_version"@ {
            Some(JsonV::Str(old))
        } else if k == "new_version"@ {
            Some(JsonV::Str(new))
        } else if k == "message"@ {
            Some(JsonV::Str(msg))
        } else if k == "success"@ {
            Some(JsonV::Bool(true))
        } else {
            lookup(extra_entries(e0), k)
        }
}

proof fn lemma_update_keys_distinct()
    ensures
        "old_version"@ != "new_version"@,
        "old_version"@ != "message"@,
        "old_version"@ != "success"@,
        "new_version"@ != "message"@,
        "new_version"@ != "success"@,
        "message"@ != "success"@,
{
    reveal_strlit("old_version");
    reveal_strlit("new_version");
    reveal_strlit("message");
    reveal_strlit("success");
    assert("old_version"@[0] != "new_version"@[0]);
    assert("old_version"@.len() != "message"@.len());
    assert("old_version"@.len() != "success"@.len());
    assert("new_version"@.len() != "message"@.len());
    assert("new_version"@.len() != "success"@.len());
    assert("message"@[0] != "success"@[0]);
}

impl UpdateMachine {
    /// An update of yt-dlp at `bin`, recorded in `job`.
    pub fn new(job: Job, bin: String) -> (m: UpdateMachine)
        ensures
            m.job@ == job@,
            m.bin@ == bin@,
            m.stage == UpdateStage::Start,
            job.wf() ==> m.inv(),
    {
        UpdateMachine {
            job,
            stage: UpdateStage::Start,
            bin,
            channel: String::new(),
            old_version: String::new(),
            log: String::new(),
        }
    }

    /// The machine's invariant.
    pub open spec fn inv(&self) -> bool {
        self.job.wf()
    }

    /// Takes what came of the last request and decides the next one (see
    /// `update_stepped`).
    pub fn step(&mut self, event: Event) -> (s: Step)
        requires
            old(self).inv(),
        ensures
            final(self).inv(),
            update_stepped(*old(self), *final(self), effects_view(s.effects@), s.request@, event),
    {
        proof {
            lemma_update_keys_distinct();
            reveal_strlit("channel");
            reveal_strlit("message");
            reveal_strlit("success");
            reveal_strlit("old_version");
            reveal_strlit("new_version");
        }
        match (self.stage, event) {
            (UpdateStage::Start, Event::Begin) => {
                self.channel = param_text_or(&self.job.extra_params, "channel", "nightly");
                self.stage = UpdateStage::AwaitOld;
                Step { effects: no_effects(), request: Request::Version }
            },
            (UpdateStage::AwaitOld, Event::Versioned(res)) => {
                let old = version_text(&res);
                let mut log = concat("[cmd] ", self.bin.as_str());
                log.append(" --update-to ");
                log.append(self.channel.as_str());
                log.append("\nCurrent version: ");
                log.append(old.as_str());
                log.append("\n");
                self.job.log = log.clone();
                self.log = log.clone();
                self.old_version = old;
                self.stage = UpdateStage::Running;
                let mut args: Vec<String> = Vec::new();
                args.push(owned("--update-to"));
                args.push(self.channel.clone());
                proof {
                    assert(views(args@) =~= seq!["--update-to"@, self.channel@]);
                }
                Step {
                    effects: one_effect(DbEffect::SetLog(log.clone())),
                    request: Request::Run { program: self.bin.clone(), args, log_prefix: log },
                }
            },
            (UpdateStage::Running, Event::Exited(res, stored)) => {
                let log = match stored {
                    Some(l) => l,
                    None => self.log.clone(),
                };
                match res {
                    Ok(code) => {
                        if code == 0 {
                            self.log = log;
                            self.stage = UpdateStage::AwaitNew;
                            Step { effects: no_effects(), request: Request::Version }
                        } else {
                            let c = i64_text(code as i64);
                            let mut msg = concat("Update failed (exit ", c.as_str());
                            msg.append(")");
                            let mut l = log;
                            l.append("\n");
                            l.append(msg.as_str());
                            l.append("\n");
                            self.job.log = l;
                            self.job.status = JobStatus::Failed;
                            let mut extra = self.job.extra_object();
                            extra.insert(owned("success"), JsonValue::Bool(false));
                            extra.insert(owned("message"), JsonValue::Str(msg));
                            self.job.extra_params = Extra::Object(extra);
                            self.stage = UpdateStage::Finished;
                            Step { effects: no_effects(), request: Request::Done }
                        }
                    },
                    Err(e) => {
                        let mut l = self.log.clone();
                        l.append("Error: ");
                        l.append(e.as_str());
                        l.append("\n");
                        self.job.log = l;
                        self.job.status = JobStatus::Failed;
                        self.stage = UpdateStage::Finished;
                        Step { effects: no_effects(), request: Request::Done }
                    },
                }
            },
            (UpdateStage::AwaitNew, Event::Versioned(res)) => {
                let new = version_text(&res);
                let msg: String = if text_eq(new.as_str(), self.old_version.as_str()) {
                    let mut m = concat("Already up to date (", new.as_str());
                    m.append(")");
                    m
                } else {
                    let mut m = concat("Updated ", self.old_version.as_str());
                    m.append(" → ");
                    m.append(new.as_str());
                    m
                };
                let mut l = self.log.clone();
                l.append("\n");
                l.append(msg.as_str());
                l.append("\n");
                self.job.log = l;
                self.job.status = JobStatus::Completed;
                let mut extra = self.job.extra_object();
                let ghost x0 = extra@;
                let ghost ov = self.old_version@;
                let ghost nv = new@;
                let ghost mv = msg@;
                extra.insert(owned("old_version"), JsonValue::Str(self.old_version.clone()));
                let ghost x1 = extra@;
                extra.insert(owned("new_version"), JsonValue::Str(new));
                let ghost x2 = extra@;
                extra.insert(owned("message"), JsonValue::Str(msg));
                let ghost x3 = extra@;
                extra.insert(owned("success"), JsonValue::Bool(true));
                proof {
                    assert forall|k: Seq<char>| #[trigger] lookup(extra@, k) == if k == "old_version"@ {
                        Some(JsonV::Str(ov))
                    } else if k == "new_version"@ {
                        Some(JsonV::Str(nv))
                    } else if k == "message"@ {
                        Some(JsonV::Str(mv))
                    } else if k == "success"@ {
                        Some(JsonV::Bool(true))
                    } else {
                        lookup(x0, k)
                    } by {
                        assert(lookup(x1, k) == if k == "old_version"@ { Some(JsonV::Str(ov)) } else { lookup(x0, k) });
                        assert(lookup(x2, k) == if k == "new_version"@ { Some(JsonV::Str(nv)) } else { lookup(x1, k) });
                        assert(lookup(x3, k) == if k == "message"@ { Some(JsonV::Str(mv)) } else { lookup(x2, k) });
                    }
                }
                self.job.extra_params = Extra::Object(extra);
                self.stage = UpdateStage::Finished;
                Step { effects: no_effects(), request: Request::Done }
            },
            _ => Step { effects: no_effects(), request: Request::Done },
        }
    }
}

} // verus!

verus! {

/// An update after which yt-dlp reports the version it had before
/// completes with the message `Already up to date (<version>)`, in its log
/// and its parameters.
pub proof fn law_update_already_current(
    m0: UpdateMachine,
    m1: UpdateMachine,
    eff: Seq<DbEffectV>,
    req: RequestV,
    res: Result<Capture, String>,
)
    requires
        m0.stage == UpdateStage::AwaitNew,
        update_stepped(m0, m1, eff, req, Event::Versioned(res)),
        version_text_spec(res) == m0.old_version@,
    ensures
        m1.job@.status == JobStatus::Completed,
        m1.job@.log == m0.log@ + "\n"@ + ("Already up to date ("@ + m0.old_version@ + ")"@) + "\n"@,
        extra_get(m1.job@.extra_params, "message"@) == Some(
            JsonV::Str("Already up to date ("@ + m0.old_version@ + ")"@),
        ),
{
    lemma_update_keys_distinct();
    let m = m1.job@.extra_params->Object_0;
    assert(lookup(m, "message"@) == Some(JsonV::Str("Already up to date ("@ + m0.old_version@ + ")"@)));
}

/// An update after which yt-dlp reports another version completes with
/// the message `Updated <old> → <new>`, in its log and its parameters.
pub proof fn law_update_changed_version(
    m0: UpdateMachine,
    m1: UpdateMachine,
    eff: Seq<DbEffectV>,
    req: RequestV,
    res: Result<Capture, String>,
)
    requires
        m0.stage == UpdateStage::AwaitNew,
        update_stepped(m0, m1, eff, req, Event::Versioned(res)),
        version_text_spec(res) != m0.old_version@,
    ensures
        m1.job@.status == JobStatus::Completed,
        m1.job@.log == m0.log@ + "\n"@ + ("Updated "@ + m0.old_version@ + " → "@ + version_text_spec(res))
            + "\n"@,
        extra_get(m1.job@.extra_params, "message"@) == Some(
            JsonV::Str("Updated "@ + m0.old_version@ + " → "@ + version_text_spec(res)),
        ),
{
    lemma_update_keys_distinct();
    let m = m1.job@.extra_params->Object_0;
    assert(lookup(m, "message"@) == Some(
        JsonV::Str("Updated "@ + m0.old_version@ + " → "@ + version_text_spec(res)),
    ));
}

} // verus!
