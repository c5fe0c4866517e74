//! Jobs as the jobs table stores them: the column encodings, the decoding
//! of a stored row, the job a stored row resumes as, and the per-status
//! counts.
use vstd::prelude::*;
use crate::jobs::{
    opt_view, status_code, status_name, type_code, Job, JobStatus, JobType, JobV,
};
use crate::json::{
    last_value, lookup, DeepClone, Extra, ExtraV, KeyMap,
};
use crate::text::{join, join_strings, lower, owned, split, split_char, to_lower, views};

verus! {

// ---------------------------------------------------------------------------
// The url column
// ---------------------------------------------------------------------------

/// The non-empty parts, in order.
pub open spec fn nonempty_only(parts: Seq<Seq<char>>) -> Seq<Seq<char>>
    decreases parts.len(),
{
    if parts.len() == 0 {
        parts
    } else {
        let r = nonempty_only(parts.drop_last());
        if parts.last().len() > 0 {
            r.push(parts.last())
        } else {
            r
        }
    }
}

/// Keeps the non-empty strings, in order.
pub fn keep_nonempty(v: &Vec<String>) -> (r: Vec<String>)
    ensures
        views(r@) == nonempty_only(views(v@)),
{
    let mut r: Vec<String> = Vec::new();
    let mut i: usize = 0;
    while i < v.len()
        invariant
            i <= v.len(),
            views(r@) == nonempty_only(views(v@).take(i as int)),
        decreases v.len() - i,
    {
        proof {
            assert(views(v@).take(i + 1).drop_last() =~= views(v@).take(i as int));
            assert(views(v@).take(i + 1).last() == v@[i as int]@);
        }
        if !v[i].as_str().is_empty() {
            let ghost before = r@;
            r.push(v[i].clone());
            proof {
                assert(views(r@) =~= views(before).push(v@[i as int]@));
            }
        }
        i = i + 1;
    }
    proof {
        assert(views(v@).take(v.len() as int) =~= views(v@));
    }
    r
}

/// The url column of a job: its urls, one per line.
pub fn encode_urls(urls: &Vec<String>) -> (r: String)
    ensures
        r@ == join(views(urls@), seq!['\n']),
{
    proof {
        reveal_strlit("\n");
        assert("\n"@ =~= seq!['\n']);
    }
    join_strings(urls, "\n")
}

/// The urls of a url column: its non-empty lines.
pub fn decode_urls(text: &str) -> (r: Vec<String>)
    ensures
        views(r@) == nonempty_only(split(text@, '\n')),
{
    let parts = split_char(text, '\n');
    keep_nonempty(&parts)
}

/// Keeping the non-empty parts of parts that are all non-empty keeps all.
proof fn lemma_nonempty_only_all(parts: Seq<Seq<char>>)
    requires
        forall|i: int| 0 <= i < parts.len() ==> (#[trigger] parts[i]).len() > 0,
    ensures
        nonempty_only(parts) == parts,
    decreases parts.len(),
{
    if parts.len() > 0 {
        let p1 = parts.drop_last();
        assert(forall|i: int| 0 <= i < p1.len() ==> #[trigger] p1[i] == parts[i]);
        lemma_nonempty_only_all(p1);
        assert(parts[parts.len() - 1].len() > 0);
        assert(p1.push(parts.last()) =~= parts);
    }
}

/// Reading back the url column of a job gives its urls, when each url is
/// non-empty and on one line.
pub proof fn law_urls_round_trip(urls: Seq<Seq<char>>)
    requires
        forall|i: int| 0 <= i < urls.len() ==> (#[trigger] urls[i]).len() > 0 && !urls[i].contains('\n'),
    ensures
        nonempty_only(split(join(urls, seq!['\n']), '\n')) == urls,
{
    if urls.len() == 0 {
        assert(join(urls, seq!['\n']) =~= Seq::<char>::empty());
        assert(split(Seq::<char>::empty(), '\n') == seq![Seq::<char>::empty()]);
        assert(seq![Seq::<char>::empty()].drop_last() =~= Seq::<Seq<char>>::empty());
        let e = seq![Seq::<char>::empty()];
        assert(e.last().len() == 0);
        assert(nonempty_only(e.drop_last()).len() == 0);
        assert(nonempty_only(e) =~= Seq::<Seq<char>>::empty());
        assert(urls =~= Seq::<Seq<char>>::empty());
    } else {
        crate::text::lemma_split_join(urls, '\n');
        lemma_nonempty_only_all(urls);
    }
}

} // verus!

verus! {

// ---------------------------------------------------------------------------
// Stored jobs
// ---------------------------------------------------------------------------

/// The status stored under code `v`.
pub open spec fn status_of_code(v: i32) -> Option<JobStatus> {
    if v == 0 {
        Some(JobStatus::Running)
    } else if v == 1 {
        Some(JobStatus::Completed)
    } else if v == 2 {
        Some(JobStatus::Failed)
    } else if v == 3 {
        Some(JobStatus::Pending)
    } else if v == 4 {
        Some(JobStatus::Aborted)
    } else if v == 5 {
        Some(JobStatus::Scheduled)
    } else {
        None
    }
}

/// The job type stored under code `v`.
pub open spec fn type_of_code(v: i32) -> Option<JobType> {
    if v == 0 {
        Some(JobType::YdlDownload)
    } else if v == 1 {
        Some(JobType::YtdlpUpdate)
    } else if v == 2 {
        Some(JobType::FfmpegCut)
    } else {
        None
    }
}

/// A job as read back from the jobs table.
pub struct JobRow {
    pub id: i64,
    pub name: String,
    pub status: JobStatus,
    pub log: String,
    pub last_update: String,
    pub format: Option<String>,
    pub job_type: JobType,
    pub urls: Vec<String>,
    pub pid: i32,
    pub force_generic_extractor: bool,
    pub extra_params: Extra,
    pub scheduled_at: Option<i64>,
}

/// The mathematical value of a stored job.
pub struct JobRowV {
    pub id: i64,
    pub name: Seq<char>,
    pub status: JobStatus,
    pub log: Seq<char>,
    pub last_update: Seq<char>,
    pub format: Option<Seq<char>>,
    pub job_type: JobType,
    pub urls: Seq<Seq<char>>,
    pub pid: i32,
    pub force_generic_extractor: bool,
    pub extra_params: ExtraV,
    pub scheduled_at: Option<i64>,
}

impl View for JobRow {
    type V = JobRowV;

    open spec fn view(&self) -> JobRowV {
        JobRowV {
            id: self.id,
            name: self.name@,
            status: self.status,
            log: self.log@,
            last_update: self.last_update@,
            format: opt_view(self.format),
            job_type: self.job_type,
            urls: views(self.urls@),
            pid: self.pid,
            force_generic_extractor: self.force_generic_extractor,
            extra_params: self.extra_params@,
            scheduled_at: self.scheduled_at,
        }
    }
}

/// The columns of a stored job as the database hands them over, with the
/// update time already in display form and the extra parameters parsed.
pub struct RowColumns {
    pub id: i64,
    pub name: String,
    pub status: i32,
    pub log: Option<String>,
    pub last_update: String,
    pub format: Option<String>,
    pub job_type: i32,
    pub url: String,
    pub pid: Option<i32>,
    pub force_generic_extractor: Option<i32>,
    pub extra_params: Extra,
    pub scheduled_at: Option<i64>,
}

/// The stored job that columns decode to: an unknown status reads as
/// pending, an unknown type as a download, missing values as empty, zero
/// or off, and the url column as its non-empty lines.
pub open spec fn decoded_row(c: RowColumns) -> JobRowV {
    JobRowV {
        id: c.id,
        name: c.name@,
        status: match status_of_code(c.status) {
            Some(s) => s,
            None => JobStatus::Pending,
        },
        log: match c.log {
            Some(l) => l@,
            None => Seq::empty(),
        },
        last_update: c.last_update@,
        format: opt_view(c.format),
        job_type: match type_of_code(c.job_type) {
            Some(t) => t,
            None => JobType::YdlDownload,
        },
        urls: nonempty_only(split(c.url@, '\n')),
        pid: match c.pid {
            Some(p) => p,
            None => 0,
        },
        force_generic_extractor: match c.force_generic_extractor {
            Some(f) => f != 0,
            None => false,
        },
        extra_params: c.extra_params@,
        scheduled_at: c.scheduled_at,
    }
}

impl JobRow {
    /// The extra parameters are well formed.
    pub open spec fn wf(&self) -> bool {
        self.extra_params.wf()
    }

    /// Decodes the columns of a stored job (see `decoded_row`).
    pub fn from_columns(c: RowColumns) -> (r: JobRow)
        ensures
            r@ == decoded_row(c),
            c.extra_params.wf() ==> r.wf(),
    {
        let ghost c0 = c;
        let urls = decode_urls(c.url.as_str());
        JobRow {
            id: c.id,
            name: c.name,
            status: match JobStatus::from_i32(c.status) {
                Some(s) => s,
                None => JobStatus::Pending,
            },
            log: match c.log {
                Some(l) => l,
                None => String::new(),
            },
            last_update: c.last_update,
            format: c.format,
            job_type: match JobType::from_i32(c.job_type) {
                Some(t) => t,
                None => JobType::YdlDownload,
            },
            urls,
            pid: match c.pid {
                Some(p) => p,
                None => 0,
            },
            force_generic_extractor: match c.force_generic_extractor {
                Some(f) => f != 0,
                None => false,
            },
            extra_params: c.extra_params,
            scheduled_at: c.scheduled_at,
        }
    }

    /// The job a stored job resumes as: pending again, with the log
    /// `Queue stopped`, no process and no scheduled time.
    pub fn into_job(self) -> (j: Job)
        ensures
            j@ == (JobV {
                id: self@.id,
                name: self@.name,
                status: JobStatus::Pending,
                log: "Queue stopped"@,
                format: self@.format,
                job_type: self@.job_type,
                urls: self@.urls,
                pid: 0i32,
                force_generic_extractor: self@.force_generic_extractor,
                extra_params: self@.extra_params,
                scheduled_at: None,
            }),
            self.wf() ==> j.wf(),
    {
        Job {
            id: self.id,
            name: self.name,
            status: JobStatus::Pending,
            log: owned("Queue stopped"),
            format: self.format,
            job_type: self.job_type,
            urls: self.urls,
            pid: 0,
            force_generic_extractor: self.force_generic_extractor,
            extra_params: self.extra_params,
            scheduled_at: None,
        }
    }

    /// The job a scheduled job becomes when its time has come: resumed,
    /// with the log `Scheduled time reached`.
    pub fn into_due_job(self) -> (j: Job)
        ensures
            j@ == (JobV {
                id: self@.id,
                name: self@.name,
                status: JobStatus::Pending,
                log: "Scheduled time reached"@,
                format: self@.format,
                job_type: self@.job_type,
                urls: self@.urls,
                pid: 0i32,
                force_generic_extractor: self@.force_generic_extractor,
                extra_params: self@.extra_params,
                scheduled_at: None,
            }),
            self.wf() ==> j.wf(),
    {
        let mut job = self.into_job();
        job.log = owned("Scheduled time reached");
        job.status = JobStatus::Pending;
        job
    }
}

// ---------------------------------------------------------------------------
// Counts per status
// ---------------------------------------------------------------------------

impl DeepClone for i64 {
    fn deep_clone(&self) -> (r: Self) {
        *self
    }
}

/// Whether `k` is the lower-case name of a status.
pub open spec fn is_status_key(k: Seq<char>) -> bool {
    k == "running"@ || k == "completed"@ || k == "failed"@ || k == "pending"@ || k == "aborted"@
        || k == "scheduled"@
}

/// The rows of a count query with a known status, by the status's
/// lower-case name.
pub open spec fn named_counts(rows: Seq<(i32, i64)>) -> Seq<(Seq<char>, i64)>
    decreases rows.len(),
{
    if rows.len() == 0 {
        Seq::empty()
    } else {
        let r = named_counts(rows.drop_last());
        match status_of_code(rows.last().0) {
            Some(s) => r.push((lower(status_name(s)), rows.last().1)),
            None => r,
        }
    }
}

/// The count stored under `k`: the last count of that status, zero for a
/// status without rows, nothing for other keys.
pub open spec fn count_of(rows: Seq<(i32, i64)>, k: Seq<char>) -> Option<i64> {
    match last_value(named_counts(rows), k) {
        Some(n) => Some(n),
        None => if is_status_key(k) {
            Some(0)
        } else {
            None
        },
    }
}

/// The jobs per status, from the rows of a `status, count` query: every
/// status by its lower-case name, zero unless a row gives its count.
pub fn job_counts(rows: &Vec<(i32, i64)>) -> (r: KeyMap<i64>)
    ensures
        r.wf(),
        forall|k: Seq<char>| #[trigger] lookup(r@, k) == count_of(rows@, k),
{
    let mut m: KeyMap<i64> = KeyMap::new();
    m.insert(owned("running"), 0);
    m.insert(owned("completed"), 0);
    m.insert(owned("failed"), 0);
    m.insert(owned("pending"), 0);
    m.insert(owned("aborted"), 0);
    m.insert(owned("scheduled"), 0);
    proof {
        assert(rows@.take(0) =~= Seq::<(i32, i64)>::empty());
    }
    let mut i: usize = 0;
    while i < rows.len()
        invariant
            i <= rows.len(),
            m.wf(),
            forall|k: Seq<char>| #[trigger] lookup(m@, k) == count_of(rows@.take(i as int), k),
        decreases rows.len() - i,
    {
        let (code, n) = rows[i];
        proof {
            assert(rows@.take(i + 1).drop_last() =~= rows@.take(i as int));
            assert(rows@.take(i + 1).last() == rows@[i as int]);
        }
        let ghost t = rows@.take(i + 1);
        let ghost nc = named_counts(rows@.take(i as int));
        match JobStatus::from_i32(code) {
            Some(s) => {
                let name = to_lower(s.as_str());
                m.insert(name, n);
                proof {
                    let e = (lower(status_name(s)), n);
                    assert(named_counts(t) == nc.push(e));
                    assert(nc.push(e).drop_last() =~= nc);
                }
            },
            None => {
                proof {
                    assert(named_counts(t) == nc);
                }
            },
        }
        i = i + 1;
    }
    proof {
        assert(rows@.take(rows.len() as int) =~= rows@);
    }
    m
}

/// The job statistics: the counts per status, and the queue length, which
/// is the number of pending jobs.
pub fn with_queue_length(counts: KeyMap<i64>) -> (r: KeyMap<i64>)
    requires
        counts.wf(),
    ensures
        r.wf(),
        forall|k: Seq<char>|
            #[trigger] lookup(r@, k) == if k == "queue"@ {
                Some(
                    match lookup(counts@, "pending"@) {
                        Some(n) => n,
                        None => 0i64,
                    },
                )
            } else {
                lookup(counts@, k)
            },
{
    let pending: i64 = match counts.get("pending") {
        Some(n) => *n,
        None => 0,
    };
    let mut r = counts;
    r.insert(owned("queue"), pending);
    r
}

} // verus!

verus! {

/// The codes the jobs table stores for a job: its status, its type, and
/// its generic-extractor flag as 1 or 0.
pub fn stored_codes(job: &Job) -> (r: (i32, i32, i32))
    ensures
        r.0 == status_code(job.status),
        r.1 == type_code(job.job_type),
        r.2 == if job.force_generic_extractor {
            1i32
        } else {
            0i32
        },
{
    (job.status.code(), job.job_type.code(), if job.force_generic_extractor {
        1
    } else {
        0
    })
}

/// A status read back from its stored code is that status.
pub proof fn law_status_code_round_trip(s: JobStatus)
    ensures
        status_of_code(status_code(s)) == Some(s),
{
}

/// A job type read back from its stored code is that type.
pub proof fn law_type_code_round_trip(t: JobType)
    ensures
        type_of_code(type_code(t)) == Some(t),
{
}

/// Reading back the columns stored for a job gives its name, status, log,
/// format, type, urls, process and flag, when its urls are non-empty and
/// each on one line.
pub proof fn law_stored_job_round_trip(j: JobV, c: RowColumns)
    requires
        forall|i: int| 0 <= i < j.urls.len() ==> (#[trigger] j.urls[i]).len() > 0 && !j.urls[i].contains('\n'),
        c.name@ == j.name,
        c.status == status_code(j.status),
        opt_view(c.log) == Some(j.log),
        opt_view(c.format) == j.format,
        c.job_type == type_code(j.job_type),
        c.url@ == join(j.urls, seq!['\n']),
        c.pid == Some(j.pid),
        c.force_generic_extractor == Some(if j.force_generic_extractor { 1i32 } else { 0i32 }),
    ensures
        ({
            let r = decoded_row(c);
            &&& r.name == j.name
            &&& r.status == j.status
            &&& r.log == j.log
            &&& r.format == j.format
            &&& r.job_type == j.job_type
            &&& r.urls == j.urls
            &&& r.pid == j.pid
            &&& r.force_generic_extractor == j.force_generic_extractor
        }),
{
    law_urls_round_trip(j.urls);
}

} // verus!
