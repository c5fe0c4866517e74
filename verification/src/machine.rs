//! The download job as a state machine: the library decides, the caller
//! runs the processes and stores the job, and hands back what came of it.
use vstd::prelude::*;
use crate::config::AppConfig;
use crate::jobs::{clean_logs, clean_logs_spec, format_cmd, format_cmd_spec, opt_view, Job, JobStatus, JobV};
use crate::json::{lookup, JsonV, JsonValue, KeyMap};
use crate::queue::{
    download_options, download_value, effects_view, find_upcoming, first_upcoming, is_playlist,
    is_playlist_spec, is_upcoming, lemma_effects_push, metadata_title, metadata_title_spec,
    metadata_views, now_ts, parse_upcoming_delay, same_identity, schedule_job, scheduled,
    upcoming_delay_spec, str_view, DbEffect, DbEffectV, Metadata, MetadataV,
};
use crate::text::{concat, owned, views};
use crate::ytdlp::{build_cmd, build_cmd_spec, merge_error, merged_value, split_format_spec};
use crate::ytdlp::merge_ydl_options;
use vstd::string::StringExecFns;

verus! {

/// What the caller is asked to do next.
pub enum Request {
    /// Run the yt-dlp program with these arguments and capture its output.
    Capture { args: Vec<String> },
    /// Run `program` with `args`, streaming its cleaned log, prefixed with
    /// `log_prefix`, into the stored job.
    Run { program: String, args: Vec<String>, log_prefix: String },
    /// Resolve `name` inside the folder `root` on the file system.
    Resolve { root: String, name: String },
    /// Run `program --version` and capture its output.
    Version,
    /// Nothing more: store the job.
    Done,
}

/// The mathematical value of a request.
pub enum RequestV {
    Capture { args: Seq<Seq<char>> },
    Run { program: Seq<char>, args: Seq<Seq<char>>, log_prefix: Seq<char> },
    Resolve { root: Seq<char>, name: Seq<char> },
    Version,
    Done,
}

impl View for Request {
    type V = RequestV;

    open spec fn view(&self) -> RequestV {
        match self {
            Request::Capture { args } => RequestV::Capture { args: views(args@) },
            Request::Run { program, args, log_prefix } => RequestV::Run {
                program: program@,
                args: views(args@),
                log_prefix: log_prefix@,
            },
            Request::Resolve { root, name } => RequestV::Resolve { root: root@, name: name@ },
            Request::Version => RequestV::Version,
            Request::Done => RequestV::Done,
        }
    }
}

/// The captured output of a finished program.
pub struct Capture {
    pub code: i32,
    pub stdout: String,
    pub stderr: String,
    /// The JSON records of its output lines that parsed.
    pub records: Vec<Metadata>,
}

/// A file resolved inside the finished-files folder.
pub struct SourceFile {
    pub path: String,
    pub is_file: bool,
    /// The folder that holds it.
    pub folder: Option<String>,
}

/// What came of a request.
pub enum Event {
    Begin,
    /// The program ran (or could not be started: the error's text).
    Captured(Result<Capture, String>),
    /// The streamed program ended with an exit code (or could not be run:
    /// the error's text); the job's stored log, when it could be read.
    Exited(Result<i32, String>, Option<String>),
    /// The resolved file, if the name stays inside the folder.
    Resolved(Option<SourceFile>),
    /// The captured output of `--version`.
    Versioned(Result<Capture, String>),
}

/// What a step gives: effects to store first, then the next request.
pub struct Step {
    pub effects: Vec<DbEffect>,
    pub request: Request,
}

/// Where a download is.
#[derive(Clone, Copy, PartialEq, Eq, Structural)]
pub enum DownloadStage {
    Start,
    Fetching,
    Probing,
    Running,
    Finished,
}

/// A download job in progress.
pub struct DownloadMachine {
    pub job: Job,
    pub stage: DownloadStage,
    /// The yt-dlp program.
    pub bin: String,
    /// The merged options.
    pub opts: KeyMap<JsonValue>,
    /// The command line before the metadata were known.
    pub cmd: Vec<String>,
    /// What the failed metadata run printed.
    pub error_output: String,
    /// The log prefix of the running download.
    pub run_log: String,
}

/// `--force-generic-extractor` when asked for.
pub open spec fn force_args(force: bool) -> Seq<Seq<char>> {
    if force {
        seq!["--force-generic-extractor"@]
    } else {
        Seq::empty()
    }
}

/// The arguments of the metadata run.
pub open spec fn metadata_args(force: bool) -> Seq<Seq<char>> {
    seq!["-J"@, "--flat-playlist"@] + force_args(force)
}

/// The arguments of the probe run.
pub open spec fn probe_args(force: bool) -> Seq<Seq<char>> {
    seq!["-J"@, "--flat-playlist"@, "--ignore-no-formats-error"@] + force_args(force)
}

/// The `[cmd]` line of a command.
pub open spec fn cmd_line(cmd: Seq<Seq<char>>) -> Seq<char> {
    "[cmd] "@ + format_cmd_spec(cmd)
}

/// The release and title the probe finds: the first upcoming record with a
/// release time, or with a "starts in" notice in the error output (read at
/// `now`).
pub open spec fn probe_release(md: Seq<MetadataV>, err: Seq<char>, now: i64) -> Option<(i64, Option<Seq<char>>)>
    decreases md.len(),
{
    if md.len() == 0 {
        None
    } else if !is_upcoming(md[0]) {
        probe_release(md.drop_first(), err, now)
    } else {
        let release = match md[0].release_timestamp {
            Some(r) => Some(r),
            None => delay_at(err, now),
        };
        match release {
            Some(r) => Some((r, md[0].title)),
            None => probe_release(md.drop_first(), err, now),
        }
    }
}

/// `parse_upcoming_delay` at `now`.
pub open spec fn delay_at(err: Seq<char>, now: i64) -> Option<i64> {
    upcoming_delay_spec(err, now)
}

/// The job with a new status and log, the rest as it was.
pub open spec fn with_status_log(j0: JobV, j1: JobV, status: JobStatus, log: Seq<char>) -> bool {
    &&& same_identity(j0, j1)
    &&& j1.name == j0.name
    &&& j1.pid == j0.pid
    &&& j1.extra_params == j0.extra_params
    &&& j1.scheduled_at == j0.scheduled_at
    &&& j1.status == status
    &&& j1.log == log
}

impl DownloadMachine {
    /// A download of `job` with the yt-dlp program `bin`.
    pub fn new(job: Job, bin: String) -> (m: DownloadMachine)
        ensures
            m.job@ == job@,
            m.bin@ == bin@,
            m.stage == DownloadStage::Start,
            m.opts.wf(),
            job.wf() ==> m.inv(),
    {
        DownloadMachine {
            job,
            stage: DownloadStage::Start,
            bin,
            opts: KeyMap::new(),
            cmd: Vec::new(),
            error_output: String::new(),
            run_log: String::new(),
        }
    }

    /// The machine's invariant.
    pub open spec fn inv(&self) -> bool {
        self.job.wf() && self.opts.wf()
    }
}

fn str_vec(items: &Vec<&str>) -> (r: Vec<String>)
    ensures
        views(r@) == items@.map_values(|s: &str| s@),
{
    let mut r: Vec<String> = Vec::new();
    let mut i: usize = 0;
    while i < items.len()
        invariant
            i <= items.len(),
            r@.len() == i,
            views(r@) =~= items@.map_values(|s: &str| s@).take(i as int),
        decreases items.len() - i,
    {
        let ghost before = r@;
        let s = owned(items[i]);
        r.push(s);
        proof {
            crate::text::lemma_views_push(before, s);
        }
        i = i + 1;
    }
    assert(items@.map_values(|s: &str| s@).take(items.len() as int) =~= items@.map_values(
        |s: &str| s@,
    ));
    r
}

fn force_vec(force: bool) -> (r: Vec<String>)
    ensures
        views(r@) == force_args(force),
{
    let mut r: Vec<String> = Vec::new();
    if force {
        r.push(owned("--force-generic-extractor"));
        proof {
            assert(views(r@) =~= seq!["--force-generic-extractor"@]);
        }
    } else {
        proof {
            assert(views(r@) =~= Seq::<Seq<char>>::empty());
        }
    }
    r
}

fn args_with_force(head: Vec<String>, force: bool) -> (r: Vec<String>)
    ensures
        views(r@) == views(head@) + force_args(force),
{
    let mut r = head;
    let f = force_vec(force);
    crate::ytdlp::append_copies(&mut r, &f);
    r
}

/// Everything but the program name.
fn tail_args(cmd: &Vec<String>) -> (r: Vec<String>)
    requires
        cmd.len() >= 1,
    ensures
        views(r@) == views(cmd@).drop_first(),
{
    let mut r: Vec<String> = Vec::new();
    let mut i: usize = 1;
    while i < cmd.len()
        invariant
            1 <= i <= cmd.len(),
            r@.len() == i - 1,
            views(r@) =~= views(cmd@).subrange(1, i as int),
        decreases cmd.len() - i,
    {
        let ghost before = r@;
        let s = cmd[i].clone();
        r.push(s);
        proof {
            crate::text::lemma_views_push(before, s);
        }
        i = i + 1;
    }
    r
}

/// The `[cmd]` line of a command (see `cmd_line`).
fn cmd_line_of(cmd: &Vec<String>) -> (r: String)
    ensures
        r@ == cmd_line(views(cmd@)),
{
    let d = format_cmd(cmd);
    concat("[cmd] ", d.as_str())
}

} // verus!

verus! {

/// The command that asks yt-dlp for the metadata of `urls` as JSON, with
/// the options `opts` (the metadata request of the web API).
pub fn metadata_command(bin: &str, opts: &KeyMap<JsonValue>, urls: &Vec<String>, force: bool) -> (r: Vec<String>)
    ensures
        views(r@) == build_cmd_spec(bin@, opts@, views(urls@), metadata_args(force)),
{
    let head = str_vec(&vec!["-J", "--flat-playlist"]);
    proof {
        assert(views(head@) =~= seq!["-J"@, "--flat-playlist"@]);
    }
    let margs = args_with_force(head, force);
    build_cmd(bin, opts, urls, &margs)
}

/// The request's format as a string slice.
fn format_of(job: &Job) -> (r: Option<&str>)
    ensures
        str_view(r) == job@.format,
{
    match &job.format {
        Some(f) => Some(f.as_str()),
        None => None,
    }
}

/// The format string of a job (empty when it has none).
pub open spec fn format_text(j: JobV) -> Seq<char> {
    match j.format {
        Some(f) => f,
        None => Seq::empty(),
    }
}

/// A download's first step: the options are merged (a failure ends the
/// job), the command line is built and the metadata run is asked for.
pub open spec fn download_begun(
    cfg: AppConfig,
    m0: DownloadMachine,
    m1: DownloadMachine,
    eff: Seq<DbEffectV>,
    req: RequestV,
) -> bool {
    let rq = split_format_spec(format_text(m0.job@));
    let force = m0.job@.force_generic_extractor;
    &&& eff == Seq::<DbEffectV>::empty()
    &&& m1.bin == m0.bin
    &&& match merge_error(cfg, rq) {
        Some(e) => {
            &&& with_status_log(m0.job@, m1.job@, JobStatus::Failed, "Error during download task:\n"@ + e)
            &&& m1.stage == DownloadStage::Finished
            &&& req == RequestV::Done
        },
        None => {
            &&& m1.job@ == m0.job@
            &&& m1.stage == DownloadStage::Fetching
            &&& forall|k: Seq<char>| #[trigger] lookup(m1.opts@, k) == merged_value(cfg, rq, k)
            &&& views(m1.cmd@) == build_cmd_spec(m0.bin@, m1.opts@, m0.job@.urls, force_args(force))
            &&& req == RequestV::Capture {
                args: build_cmd_spec(m0.bin@, cfg.ydl_options@, m0.job@.urls, metadata_args(force)).drop_first(),
            }
        },
    }
}

impl DownloadMachine {
    fn begin(&mut self, cfg: &AppConfig) -> (s: Step)
        requires
            old(self).inv(),
            cfg.wf(),
        ensures
            final(self).inv(),
            download_begun(*cfg, *old(self), *final(self), effects_view(s.effects@), s.request@),
    {
        proof {
            reveal_strlit("Error during download task:\n");
            reveal_strlit("-J");
            reveal_strlit("--flat-playlist");
        }
        let ghost m0 = *self;
        let effects: Vec<DbEffect> = Vec::new();
        proof {
            assert(effects_view(effects@) =~= Seq::<DbEffectV>::empty());
            match m0.job@.format {
                Some(f) => {},
                None => {
                    reveal_strlit("");
                },
            }
        }
        let merged = merge_ydl_options(cfg, format_of(&self.job));
        match merged {
            Err(e) => {
                self.job.status = JobStatus::Failed;
                self.job.log = concat("Error during download task:\n", e.as_str());
                self.stage = DownloadStage::Finished;
                Step { effects, request: Request::Done }
            },
            Ok(opts) => {
                let force = force_vec(self.job.force_generic_extractor);
                let cmd = build_cmd(self.bin.as_str(), &opts, &self.job.urls, &force);
                let head = str_vec(&vec!["-J", "--flat-playlist"]);
                proof {
                    assert(views(head@) =~= seq!["-J"@, "--flat-playlist"@]);
                }
                let margs = args_with_force(head, self.job.force_generic_extractor);
                let full = build_cmd(self.bin.as_str(), &cfg.ydl_options, &self.job.urls, &margs);
                proof {
                    assert(views(full@).len() == full@.len());
                    assert(views(full@)[0] == self.bin@);
                }
                let args = tail_args(&full);
                self.opts = opts;
                self.cmd = cmd;
                self.stage = DownloadStage::Fetching;
                Step { effects, request: Request::Capture { args } }
            },
        }
    }
}

} // verus!

verus! {

/// The metadata run failed with output `err`: the job's log shows the
/// command and the output; with scheduling of upcoming events enabled a
/// probe run follows, otherwise the job fails.
pub open spec fn fetch_failed(
    cfg: AppConfig,
    m0: DownloadMachine,
    m1: DownloadMachine,
    eff: Seq<DbEffectV>,
    req: RequestV,
    err: Seq<char>,
) -> bool {
    let log = clean_logs_spec(cmd_line(views(m0.cmd@)) + "\n"@ + err);
    &&& eff == Seq::<DbEffectV>::empty()
    &&& m1.bin == m0.bin
    &&& if cfg.ydl_server.schedule_upcoming {
        &&& with_status_log(m0.job@, m1.job@, m0.job@.status, log)
        &&& m1.stage == DownloadStage::Probing
        &&& m1.error_output@ == err
        &&& req == RequestV::Capture {
            args: build_cmd_spec(
                m0.bin@,
                cfg.ydl_options@,
                m0.job@.urls,
                probe_args(m0.job@.force_generic_extractor),
            ).drop_first(),
        }
    } else {
        &&& with_status_log(m0.job@, m1.job@, JobStatus::Failed, log)
        &&& m1.stage == DownloadStage::Finished
        &&& req == RequestV::Done
    }
}

/// The effects that store a new name, if the title is not empty.
pub open spec fn name_effects(title: Seq<char>) -> Seq<DbEffectV> {
    if title.len() > 0 {
        seq![DbEffectV::SetName(title)]
    } else {
        Seq::empty()
    }
}

/// The job's name after its metadata: the title, unless that is empty.
pub open spec fn named(j: JobV, title: Seq<char>) -> Seq<char> {
    if title.len() > 0 {
        title
    } else {
        j.name
    }
}

/// The metadata run succeeded with records `md`: the job takes their
/// title; an upcoming event with a release time is scheduled (when
/// scheduling is enabled); otherwise the options are adjusted for the
/// metadata, the command line is logged and the download run is asked
/// for.
pub open spec fn fetched(
    cfg: AppConfig,
    m0: DownloadMachine,
    m1: DownloadMachine,
    eff: Seq<DbEffectV>,
    req: RequestV,
    md: Seq<MetadataV>,
) -> bool {
    let j0 = m0.job@;
    let title = metadata_title_spec(md, j0.urls);
    let eff1 = name_effects(title);
    let u = first_upcoming(md);
    let sched = u is Some && cfg.ydl_server.schedule_upcoming && md[u->0].release_timestamp is Some;
    &&& m1.bin == m0.bin
    &&& if sched {
        let j_mid = JobV { name: named(j0, title), log: cmd_line(views(m0.cmd@)), ..j0 };
        &&& m1.stage == DownloadStage::Finished
        &&& req == RequestV::Done
        &&& eff.len() >= eff1.len()
        &&& eff.take(eff1.len() as int) == eff1
        &&& exists|now: i64, ts: Seq<char>|
            #[trigger] scheduled(
                j_mid,
                m1.job@,
                eff.skip(eff1.len() as int),
                cfg.ydl_server.schedule_max_attempts as nat,
                md[u->0].release_timestamp->0,
                None,
                now,
                ts,
            )
    } else {
        let cmd2 = build_cmd_spec(m0.bin@, m1.opts@, j0.urls, force_args(j0.force_generic_extractor));
        let log = cmd_line(cmd2) + "\n"@;
        &&& m1.opts.wf()
        &&& forall|k: Seq<char>| #[trigger]
            lookup(m1.opts@, k) == download_value(
                m0.opts@,
                is_playlist_spec(md),
                cfg.ydl_server.output_playlist@,
                j0.extra_params,
                k,
            )
        &&& m1.job@ == JobV { name: named(j0, title), log: log, ..j0 }
        &&& m1.run_log@ == log
        &&& eff == eff1.push(DbEffectV::SetLog(log))
        &&& m1.stage == DownloadStage::Running
        &&& req == RequestV::Run { program: m0.bin@, args: cmd2.drop_first(), log_prefix: log }
    }
}

/// What the metadata run's result leads to (see `fetched` and
/// `fetch_failed`).
pub open spec fn metadata_outcome(
    cfg: AppConfig,
    m0: DownloadMachine,
    m1: DownloadMachine,
    eff: Seq<DbEffectV>,
    req: RequestV,
    res: Result<Capture, String>,
) -> bool {
    match res {
        Ok(cap) => if cap.code == 0 {
            fetched(cfg, m0, m1, eff, req, metadata_views(cap.records@))
        } else {
            fetch_failed(cfg, m0, m1, eff, req, cap.stderr@)
        },
        Err(e) => fetch_failed(cfg, m0, m1, eff, req, e@),
    }
}

impl DownloadMachine {
    fn on_fetch_error(&mut self, cfg: &AppConfig, err: String) -> (s: Step)
        requires
            old(self).inv(),
            cfg.wf(),
        ensures
            final(self).inv(),
            fetch_failed(*cfg, *old(self), *final(self), effects_view(s.effects@), s.request@, err@),
    {
        proof {
            reveal_strlit("\n");
            reveal_strlit("-J");
            reveal_strlit("--flat-playlist");
            reveal_strlit("--ignore-no-formats-error");
        }
        let effects: Vec<DbEffect> = Vec::new();
        proof {
            assert(effects_view(effects@) =~= Seq::<DbEffectV>::empty());
        }
        let mut l = cmd_line_of(&self.cmd);
        l.append("\n");
        l.append(err.as_str());
        self.job.log = clean_logs(l.as_str());
        if cfg.ydl_server.schedule_upcoming {
            let head = str_vec(&vec!["-J", "--flat-playlist", "--ignore-no-formats-error"]);
            proof {
                assert(views(head@) =~= seq!["-J"@, "--flat-playlist"@, "--ignore-no-formats-error"@]);
            }
            let pargs = args_with_force(head, self.job.force_generic_extractor);
            let full = build_cmd(self.bin.as_str(), &cfg.ydl_options, &self.job.urls, &pargs);
            proof {
                assert(views(full@).len() == full@.len());
                assert(views(full@)[0] == self.bin@);
            }
            let args = tail_args(&full);
            self.error_output = err;
            self.stage = DownloadStage::Probing;
            Step { effects, request: Request::Capture { args } }
        } else {
            self.job.status = JobStatus::Failed;
            self.stage = DownloadStage::Finished;
            Step { effects, request: Request::Done }
        }
    }

    fn on_metadata(&mut self, cfg: &AppConfig, md: Vec<Metadata>) -> (s: Step)
        requires
            old(self).inv(),
            cfg.wf(),
        ensures
            final(self).inv(),
            fetched(*cfg, *old(self), *final(self), effects_view(s.effects@), s.request@, metadata_views(md@)),
    {
        proof {
            reveal_strlit("\n");
        }
        let ghost m0 = *self;
        let ghost mv = metadata_views(md@);
        let mut effects: Vec<DbEffect> = Vec::new();
        let title = metadata_title(&md, &self.job.urls);
        if !title.as_str().is_empty() {
            self.job.name = title.clone();
            effects.push(DbEffect::SetName(title));
        }
        let ghost eff1 = effects_view(effects@);
        proof {
            assert(eff1 =~= name_effects(metadata_title_spec(mv, m0.job@.urls)));
        }
        let up = find_upcoming(&md);
        let release: Option<i64> = match up {
            Some(i) => {
                proof {
                    assert(mv[i as int] == md@[i as int]@);
                }
                if cfg.ydl_server.schedule_upcoming {
                    md[i].release_timestamp
                } else {
                    None
                }
            },
            None => None,
        };
        match release {
            Some(r) => {
                self.job.log = cmd_line_of(&self.cmd);
                let ghost j_mid = self.job@;
                let more = schedule_job(cfg, &mut self.job, r, None);
                let ghost eff2 = effects_view(more@);
                let mut k: usize = 0;
                while k < more.len()
                    invariant
                        k <= more.len(),
                        eff2 == effects_view(more@),
                        effects_view(effects@) =~= eff1 + eff2.take(k as int),
                    decreases more.len() - k,
                {
                    let e = match &more[k] {
                        DbEffect::SetName(n) => DbEffect::SetName(n.clone()),
                        DbEffect::SetLog(n) => DbEffect::SetLog(n.clone()),
                        DbEffect::SetPid(p) => DbEffect::SetPid(*p),
                        DbEffect::RemoveFile(n) => DbEffect::RemoveFile(n.clone()),
                    };
                    let ghost before = effects@;
                    proof {
                        assert(e@ == eff2[k as int]);
                    }
                    effects.push(e);
                    proof {
                        lemma_effects_push(before, e);
                        assert(eff2.take(k + 1) =~= eff2.take(k as int).push(eff2[k as int]));
                    }
                    k = k + 1;
                }
                proof {
                    assert(eff2.take(more.len() as int) =~= eff2);
                    let all = effects_view(effects@);
                    assert(all.take(eff1.len() as int) =~= eff1);
                    assert(all.skip(eff1.len() as int) =~= eff2);
                    assert(j_mid == JobV {
                        name: named(m0.job@, metadata_title_spec(mv, m0.job@.urls)),
                        log: cmd_line(views(m0.cmd@)),
                        ..m0.job@
                    });
                }
                self.stage = DownloadStage::Finished;
                Step { effects, request: Request::Done }
            },
            None => {
                let playlist = is_playlist(&md);
                download_options(&mut self.opts, playlist, cfg.ydl_server.output_playlist.as_str(), &self.job.extra_params);
                let force = force_vec(self.job.force_generic_extractor);
                let cmd = build_cmd(self.bin.as_str(), &self.opts, &self.job.urls, &force);
                let mut log = cmd_line_of(&cmd);
                log.append("\n");
                self.job.log = log.clone();
                self.run_log = log.clone();
                let ghost before = effects@;
                let e = DbEffect::SetLog(log.clone());
                effects.push(e);
                proof {
                    lemma_effects_push(before, e);
                    assert(views(cmd@).len() == cmd@.len());
                    assert(views(cmd@)[0] == self.bin@);
                }
                let args = tail_args(&cmd);
                self.stage = DownloadStage::Running;
                Step {
                    effects,
                    request: Request::Run { program: self.bin.clone(), args, log_prefix: log },
                }
            },
        }
    }

    fn on_captured(&mut self, cfg: &AppConfig, res: Result<Capture, String>) -> (s: Step)
        requires
            old(self).inv(),
            cfg.wf(),
        ensures
            final(self).inv(),
            metadata_outcome(*cfg, *old(self), *final(self), effects_view(s.effects@), s.request@, res),
    {
        match res {
            Ok(cap) => {
                if cap.code == 0 {
                    self.on_metadata(cfg, cap.records)
                } else {
                    self.on_fetch_error(cfg, cap.stderr)
                }
            },
            Err(e) => self.on_fetch_error(cfg, e),
        }
    }
}

} // verus!

verus! {

/// The probe run ended: its records (none when it failed) are searched for
/// an upcoming event with a release time (see `probe_release`, read at
/// some current time); one found is scheduled, otherwise the job fails.
pub open spec fn probed(
    cfg: AppConfig,
    m0: DownloadMachine,
    m1: DownloadMachine,
    eff: Seq<DbEffectV>,
    req: RequestV,
    res: Result<Capture, String>,
) -> bool {
    &&& m1.bin == m0.bin
    &&& m1.stage == DownloadStage::Finished
    &&& req == RequestV::Done
    &&& exists|now1: i64| #[trigger]
        probe_outcome(cfg, m0.job@, m1.job@, eff, probe_records(res), m0.error_output@, now1)
}

/// The records of a probe run: none when it failed.
pub open spec fn probe_records(res: Result<Capture, String>) -> Seq<MetadataV> {
    match res {
        Ok(cap) => if cap.code == 0 {
            metadata_views(cap.records@)
        } else {
            Seq::empty()
        },
        Err(_) => Seq::empty(),
    }
}

/// The job was scheduled for an event released at `r` with title `t`, at
/// some current time and shown retry time.
pub open spec fn scheduled_some_time(
    cfg: AppConfig,
    j0: JobV,
    j1: JobV,
    eff: Seq<DbEffectV>,
    r: i64,
    t: Option<Seq<char>>,
) -> bool {
    exists|now: i64, ts: Seq<char>|
        #[trigger] scheduled(j0, j1, eff, cfg.ydl_server.schedule_max_attempts as nat, r, t, now, ts)
}

/// The job after the probe, when the probe read the clock at `now1`.
pub open spec fn probe_outcome(
    cfg: AppConfig,
    j0: JobV,
    j1: JobV,
    eff: Seq<DbEffectV>,
    md: Seq<MetadataV>,
    err: Seq<char>,
    now1: i64,
) -> bool {
    match probe_release(md, err, now1) {
        Some((r, t)) => scheduled_some_time(cfg, j0, j1, eff, r, t),
        None => with_status_log(j0, j1, JobStatus::Failed, j0.log) && eff == Seq::<DbEffectV>::empty(),
    }
}

/// The download run ended: exit code 0 completes the job, another code or
/// a failure to run fails it; the log is the stored one (or, when the run
/// could not start, the command line and the error).
pub open spec fn exited(
    m0: DownloadMachine,
    m1: DownloadMachine,
    eff: Seq<DbEffectV>,
    req: RequestV,
    res: Result<i32, String>,
    stored: Option<String>,
) -> bool {
    let kept = match stored {
        Some(l) => l@,
        None => m0.job@.log,
    };
    &&& m1.bin == m0.bin
    &&& eff == Seq::<DbEffectV>::empty()
    &&& m1.stage == DownloadStage::Finished
    &&& req == RequestV::Done
    &&& match res {
        Ok(code) => if code == 0 {
            with_status_log(m0.job@, m1.job@, JobStatus::Completed, kept)
        } else {
            with_status_log(m0.job@, m1.job@, JobStatus::Failed, kept)
        },
        Err(e) => with_status_log(m0.job@, m1.job@, JobStatus::Failed, m0.run_log@ + "Error: "@ + e@),
    }
}

impl DownloadMachine {
    fn on_probe(&mut self, cfg: &AppConfig, res: Result<Capture, String>) -> (s: Step)
        requires
            old(self).inv(),
            cfg.wf(),
        ensures
            final(self).inv(),
            probed(*cfg, *old(self), *final(self), effects_view(s.effects@), s.request@, res),
    {
        let ghost m0 = *self;
        let ghost res0 = res;
        let md: Vec<Metadata> = match res {
            Ok(cap) => if cap.code == 0 {
                cap.records
            } else {
                Vec::new()
            },
            Err(_) => Vec::new(),
        };
        let ghost mv = metadata_views(md@);
        proof {
            assert(mv =~= probe_records(res0));
        }
        let now = now_ts();
        let ghost err = self.error_output@;
        let mut found: Option<(i64, Option<String>)> = None;
        let mut i: usize = 0;
        proof {
            assert(mv.skip(0) =~= mv);
        }
        while i < md.len() && found.is_none()
            invariant
                mv == metadata_views(md@),
                err == self.error_output@,
                *self == m0,
                i <= md.len(),
                match found {
                    Some((r, t)) => probe_release(mv, err, now) == Some((r, opt_view(t))),
                    None => probe_release(mv, err, now) == probe_release(mv.skip(i as int), err, now),
                },
            decreases md.len() - i,
        {
            let ghost t = mv.skip(i as int);
            proof {
                assert(t[0] == md@[i as int]@);
                assert(t.drop_first() =~= mv.skip(i + 1));
            }
            let upcoming = match &md[i].live_status {
                Some(s) => {
                    proof {
                        reveal_strlit("is_upcoming");
                    }
                    crate::text::text_eq(s.as_str(), "is_upcoming")
                },
                None => false,
            };
            if upcoming {
                let release = match md[i].release_timestamp {
                    Some(r) => Some(r),
                    None => parse_upcoming_delay(self.error_output.as_str(), now),
                };
                match release {
                    Some(r) => {
                        found = Some((r, crate::jobs::clone_opt(&md[i].title)));
                    },
                    None => {},
                }
            }
            i = i + 1;
        }
        proof {
            if found is None {
                assert(mv.skip(i as int).len() == 0);
            }
        }
        let ghost pr = probe_release(mv, err, now);
        self.stage = DownloadStage::Finished;
        match found {
            Some((r, t)) => {
                let title: Option<&str> = match &t {
                    Some(x) => Some(x.as_str()),
                    None => None,
                };
                let ghost jb = self.job@;
                let effects = schedule_job(cfg, &mut self.job, r, title);
                proof {
                    assert(jb == m0.job@);
                    let (nw, tsw) = choose|now: i64, ts: Seq<char>| #[trigger] scheduled(jb, self.job@, effects_view(effects@), cfg.ydl_server.schedule_max_attempts as nat, r, str_view(title), now, ts);
                    assert(scheduled(jb, self.job@, effects_view(effects@), cfg.ydl_server.schedule_max_attempts as nat, r, str_view(title), nw, tsw));
                    assert(pr == Some((r, str_view(title))));
                    assert(exists|now: i64, ts: Seq<char>| #[trigger] scheduled(m0.job@, self.job@, effects_view(effects@), cfg.ydl_server.schedule_max_attempts as nat, r, str_view(title), now, ts));
                    assert(probe_outcome(*cfg, m0.job@, self.job@, effects_view(effects@), mv, err, now));
                }
                Step { effects, request: Request::Done }
            },
            None => {
                self.job.status = JobStatus::Failed;
                let effects: Vec<DbEffect> = Vec::new();
                proof {
                    assert(effects_view(effects@) =~= Seq::<DbEffectV>::empty());
                    assert(probe_outcome(*cfg, m0.job@, self.job@, effects_view(effects@), mv, err, now));
                }
                Step { effects, request: Request::Done }
            },
        }
    }

    fn on_exit(&mut self, res: Result<i32, String>, stored: Option<String>) -> (s: Step)
        requires
            old(self).inv(),
        ensures
            final(self).inv(),
            exited(*old(self), *final(self), effects_view(s.effects@), s.request@, res, stored),
    {
        let effects: Vec<DbEffect> = Vec::new();
        proof {
            assert(effects_view(effects@) =~= Seq::<DbEffectV>::empty());
        }
        match res {
            Ok(code) => {
                self.job.status = if code == 0 {
                    JobStatus::Completed
                } else {
                    JobStatus::Failed
                };
                match stored {
                    Some(l) => {
                        self.job.log = l;
                    },
                    None => {},
                }
            },
            Err(e) => {
                self.job.status = JobStatus::Failed;
                let mut l = self.run_log.clone();
                l.append("Error: ");
                l.append(e.as_str());
                self.job.log = l;
            },
        }
        self.stage = DownloadStage::Finished;
        Step { effects, request: Request::Done }
    }
}

} // verus!

verus! {

/// A step that changes nothing and asks for nothing more.
pub open spec fn idle_step(m0: DownloadMachine, m1: DownloadMachine, eff: Seq<DbEffectV>, req: RequestV) -> bool {
    m1 == m0 && eff == Seq::<DbEffectV>::empty() && req == RequestV::Done
}

impl DownloadMachine {
    /// Takes what came of the last request and decides the next one: a new
    /// download begins (`download_begun`), the metadata run's result is
    /// used (`metadata_outcome`), the probe's result is used (`probed`),
    /// the download run's end is recorded (`exited`); an event that does not
    /// fit the stage changes nothing.
    pub fn step(&mut self, cfg: &AppConfig, event: Event) -> (s: Step)
        requires
            old(self).inv(),
            cfg.wf(),
        ensures
            final(self).inv(),
            match (old(self).stage, event) {
                (DownloadStage::Start, Event::Begin) => download_begun(
                    *cfg,
                    *old(self),
                    *final(self),
                    effects_view(s.effects@),
                    s.request@,
                ),
                (DownloadStage::Fetching, Event::Captured(res)) => metadata_outcome(
                    *cfg,
                    *old(self),
                    *final(self),
                    effects_view(s.effects@),
                    s.request@,
                    res,
                ),
                (DownloadStage::Probing, Event::Captured(res)) => probed(
                    *cfg,
                    *old(self),
                    *final(self),
                    effects_view(s.effects@),
                    s.request@,
                    res,
                ),
                (DownloadStage::Running, Event::Exited(res, stored)) => exited(
                    *old(self),
                    *final(self),
                    effects_view(s.effects@),
                    s.request@,
                    res,
                    stored,
                ),
                _ => idle_step(*old(self), *final(self), effects_view(s.effects@), s.request@),
            },
    {
        match (self.stage, event) {
            (DownloadStage::Start, Event::Begin) => self.begin(cfg),
            (DownloadStage::Fetching, Event::Captured(res)) => self.on_captured(cfg, res),
            (DownloadStage::Probing, Event::Captured(res)) => self.on_probe(cfg, res),
            (DownloadStage::Running, Event::Exited(res, stored)) => self.on_exit(res, stored),
            _ => {
                let effects: Vec<DbEffect> = Vec::new();
                proof {
                    assert(effects_view(effects@) =~= Seq::<DbEffectV>::empty());
                }
                Step { effects, request: Request::Done }
            },
        }
    }
}

} // verus!

verus! {

/// Metadata whose first record is a playlist make a download a playlist
/// download, even with that one record: the run writes to the configured
/// playlist output template.
pub proof fn law_playlist_uses_playlist_template(
    cfg: AppConfig,
    m0: DownloadMachine,
    m1: DownloadMachine,
    eff: Seq<DbEffectV>,
    req: RequestV,
    md: Seq<MetadataV>,
)
    requires
        fetched(cfg, m0, m1, eff, req, md),
        md.len() > 0,
        md[0].kind == Some("playlist"@),
        m1.stage == DownloadStage::Running,
    ensures
        lookup(m1.opts@, "output"@) == Some(JsonV::Str(cfg.ydl_server.output_playlist@)),
        is_playlist_spec(md),
{
}

} // verus!
