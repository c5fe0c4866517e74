//! Jobs: their status and type codes, the job record, log cleaning and the
//! display form of a command line.
use vstd::prelude::*;
use crate::json::{Extra, ExtraV, DeepClone};
use crate::pattern::{after_last_cr, compile, cr_pattern, replace_first};
use crate::text::{
    chars_of, is_alnum, join, join_strings, lines, lines_of, lower, owned, push_char, text_eq, to_lower,
    views,
};
use vstd::string::StringExecFns;

verus! {

/// The state of a job.
#[derive(Clone, Copy, PartialEq, Eq, Debug, Structural)]
pub enum JobStatus {
    Running,
    Completed,
    Failed,
    Pending,
    Aborted,
    Scheduled,
}

/// The numeric code of a status, as stored in the jobs table.
pub open spec fn status_code(s: JobStatus) -> i32 {
    match s {
        JobStatus::Running => 0,
        JobStatus::Completed => 1,
        JobStatus::Failed => 2,
        JobStatus::Pending => 3,
        JobStatus::Aborted => 4,
        JobStatus::Scheduled => 5,
    }
}

/// The display name of a status.
pub open spec fn status_name(s: JobStatus) -> Seq<char> {
    match s {
        JobStatus::Running => "Running"@,
        JobStatus::Completed => "Completed"@,
        JobStatus::Failed => "Failed"@,
        JobStatus::Pending => "Pending"@,
        JobStatus::Aborted => "Aborted"@,
        JobStatus::Scheduled => "Scheduled"@,
    }
}

/// The status whose lower-case name is `n`.
pub open spec fn status_of_lower_name(n: Seq<char>) -> Option<JobStatus> {
    if n == "running"@ {
        Some(JobStatus::Running)
    } else if n == "completed"@ {
        Some(JobStatus::Completed)
    } else if n == "failed"@ {
        Some(JobStatus::Failed)
    } else if n == "pending"@ {
        Some(JobStatus::Pending)
    } else if n == "aborted"@ {
        Some(JobStatus::Aborted)
    } else if n == "scheduled"@ {
        Some(JobStatus::Scheduled)
    } else {
        None
    }
}

impl JobStatus {
    /// The numeric code (`status as i32`).
    pub fn code(self) -> (r: i32)
        ensures
            r == status_code(self),
    {
        match self {
            JobStatus::Running => 0,
            JobStatus::Completed => 1,
            JobStatus::Failed => 2,
            JobStatus::Pending => 3,
            JobStatus::Aborted => 4,
            JobStatus::Scheduled => 5,
        }
    }

    /// The display name.
    pub fn as_str(self) -> (r: &'static str)
        ensures
            r@ == status_name(self),
    {
        match self {
            JobStatus::Running => "Running",
            JobStatus::Completed => "Completed",
            JobStatus::Failed => "Failed",
            JobStatus::Pending => "Pending",
            JobStatus::Aborted => "Aborted",
            JobStatus::Scheduled => "Scheduled",
        }
    }

    /// The status with numeric code `v`.
    pub fn from_i32(v: i32) -> (r: Option<JobStatus>)
        ensures
            match r {
                Some(s) => status_code(s) == v,
                None => !(0 <= v <= 5),
            },
    {
        match v {
            0 => Some(JobStatus::Running),
            1 => Some(JobStatus::Completed),
            2 => Some(JobStatus::Failed),
            3 => Some(JobStatus::Pending),
            4 => Some(JobStatus::Aborted),
            5 => Some(JobStatus::Scheduled),
            _ => None,
        }
    }

    /// The status named `name`, ignoring ASCII case.
    pub fn from_name(name: &str) -> (r: Option<JobStatus>)
        ensures
            r == status_of_lower_name(lower(name@)),
    {
        let l = to_lower(name);
        let s = l.as_str();
        if text_eq(s, "running") {
            Some(JobStatus::Running)
        } else if text_eq(s, "completed") {
            Some(JobStatus::Completed)
        } else if text_eq(s, "failed") {
            Some(JobStatus::Failed)
        } else if text_eq(s, "pending") {
            Some(JobStatus::Pending)
        } else if text_eq(s, "aborted") {
            Some(JobStatus::Aborted)
        } else if text_eq(s, "scheduled") {
            Some(JobStatus::Scheduled)
        } else {
            None
        }
    }
}

/// What a job does.
#[derive(Clone, Copy, PartialEq, Eq, Debug, Structural)]
pub enum JobType {
    YdlDownload,
    YtdlpUpdate,
    FfmpegCut,
}

/// The numeric code of a job type.
pub open spec fn type_code(t: JobType) -> i32 {
    match t {
        JobType::YdlDownload => 0,
        JobType::YtdlpUpdate => 1,
        JobType::FfmpegCut => 2,
    }
}

impl JobType {
    /// The numeric code (`job_type as i32`).
    pub fn code(self) -> (r: i32)
        ensures
            r == type_code(self),
    {
        match self {
            JobType::YdlDownload => 0,
            JobType::YtdlpUpdate => 1,
            JobType::FfmpegCut => 2,
        }
    }

    /// The job type with numeric code `v`.
    pub fn from_i32(v: i32) -> (r: Option<JobType>)
        ensures
            match r {
                Some(t) => type_code(t) == v,
                None => !(0 <= v <= 2),
            },
    {
        match v {
            0 => Some(JobType::YdlDownload),
            1 => Some(JobType::YtdlpUpdate),
            2 => Some(JobType::FfmpegCut),
            _ => None,
        }
    }
}

/// A queued unit of work.
pub struct Job {
    pub id: i64,
    pub name: String,
    pub status: JobStatus,
    pub log: String,
    pub format: Option<String>,
    pub job_type: JobType,
    pub urls: Vec<String>,
    pub pid: i32,
    pub force_generic_extractor: bool,
    pub extra_params: Extra,
    pub scheduled_at: Option<i64>,
}

/// The mathematical value of a job.
pub struct JobV {
    pub id: i64,
    pub name: Seq<char>,
    pub status: JobStatus,
    pub log: Seq<char>,
    pub format: Option<Seq<char>>,
    pub job_type: JobType,
    pub urls: Seq<Seq<char>>,
    pub pid: i32,
    pub force_generic_extractor: bool,
    pub extra_params: ExtraV,
    pub scheduled_at: Option<i64>,
}

/// The view of an optional string.
pub open spec fn opt_view(o: Option<String>) -> Option<Seq<char>> {
    match o {
        Some(s) => Some(s@),
        None => None,
    }
}

impl View for Job {
    type V = JobV;

    open spec fn view(&self) -> JobV {
        JobV {
            id: self.id,
            name: self.name@,
            status: self.status,
            log: self.log@,
            format: opt_view(self.format),
            job_type: self.job_type,
            urls: views(self.urls@),
            pid: self.pid,
            force_generic_extractor: self.force_generic_extractor,
            extra_params: self.extra_params@,
            scheduled_at: self.scheduled_at,
        }
    }
}

/// Copies an optional string.
pub fn clone_opt(o: &Option<String>) -> (r: Option<String>)
    ensures
        opt_view(r) == opt_view(*o),
{
    match o {
        Some(s) => Some(s.clone()),
        None => None,
    }
}

impl Job {
    /// The well-formedness of the extra parameters.
    pub open spec fn wf(&self) -> bool {
        self.extra_params.wf()
    }

    /// A new pending job that has not been stored yet (its id is -1).
    pub fn new(name: String, job_type: JobType, format: Option<String>, urls: Vec<String>) -> (j: Job)
        ensures
            j.wf(),
            j@ == (JobV {
                id: -1i64,
                name: name@,
                status: JobStatus::Pending,
                log: Seq::empty(),
                format: opt_view(format),
                job_type,
                urls: views(urls@),
                pid: 0i32,
                force_generic_extractor: false,
                extra_params: ExtraV::Object(Seq::empty()),
                scheduled_at: None,
            }),
    {
        Job {
            id: -1,
            name,
            status: JobStatus::Pending,
            log: String::new(),
            format,
            job_type,
            urls,
            pid: 0,
            force_generic_extractor: false,
            extra_params: Extra::empty(),
            scheduled_at: None,
        }
    }

    /// The extra parameters as an object (empty when they are not one).
    pub fn extra_object(&self) -> (r: crate::json::KeyMap<crate::json::JsonValue>)
        requires
            self.wf(),
        ensures
            r.wf(),
            r@ == crate::json::extra_entries(self@.extra_params),
    {
        self.extra_params.object()
    }

    /// A copy of the job.
    pub fn copy(&self) -> (r: Job)
        ensures
            r@ == self@,
            self.wf() ==> r.wf(),
    {
        Job {
            id: self.id,
            name: self.name.clone(),
            status: self.status,
            log: self.log.clone(),
            format: clone_opt(&self.format),
            job_type: self.job_type,
            urls: crate::json::clone_strings(&self.urls),
            pid: self.pid,
            force_generic_extractor: self.force_generic_extractor,
            extra_params: self.extra_params.deep_clone(),
            scheduled_at: self.scheduled_at,
        }
    }
}

// ---------------------------------------------------------------------------
// Logs
// ---------------------------------------------------------------------------

/// The non-empty results of dropping everything up to each line's last
/// carriage return.
pub open spec fn cleaned_lines(ls: Seq<Seq<char>>) -> Seq<Seq<char>>
    decreases ls.len(),
{
    if ls.len() == 0 {
        Seq::empty()
    } else {
        let r = cleaned_lines(ls.drop_last());
        let c = after_last_cr(ls.last());
        if c.len() == 0 {
            r
        } else {
            r.push(c)
        }
    }
}

/// A log as it is shown: each line keeps only what follows its last
/// carriage return (a progress line that was redrawn keeps its last state),
/// empty lines are dropped, and the rest are joined by line feeds.
pub open spec fn clean_logs_spec(logs: Seq<char>) -> Seq<char> {
    join(cleaned_lines(lines(logs)), seq!['\n'])
}

proof fn lemma_lines_no_newline(s: Seq<char>, i: int)
    requires
        0 <= i < lines(s).len(),
    ensures
        !lines(s)[i].contains('\n'),
{
    lemma_split_no_sep(s, '\n');
    crate::text::lemma_split_len(s, '\n');
    let p = crate::text::split(s, '\n');
    assert(!p[i].contains('\n'));
    let l = lines(s)[i];
    assert(l == if i < p.len() - 1 { crate::text::strip_cr(p[i]) } else { p[i] });
    if l.contains('\n') {
        let k = choose|k: int| 0 <= k < l.len() && l[k] == '\n';
        assert(p[i][k] == '\n');
        assert(p[i].contains('\n'));
    }
}

proof fn lemma_split_no_sep(s: Seq<char>, c: char)
    ensures
        forall|i: int| 0 <= i < crate::text::split(s, c).len() ==> !(#[trigger] crate::text::split(s, c)[i]).contains(c),
    decreases s.len(),
{
    if s.len() > 0 {
        lemma_split_no_sep(s.drop_last(), c);
        crate::text::lemma_split_len(s.drop_last(), c);
        let r = crate::text::split(s.drop_last(), c);
        let t = crate::text::split(s, c);
        assert forall|i: int| 0 <= i < t.len() implies !(#[trigger] t[i]).contains(c) by {
            if s.last() == c {
                if i < r.len() {
                    assert(t[i] == r[i]);
                    assert(!r[i].contains(c));
                } else {
                    assert(t[i].len() == 0);
                }
            } else {
                if i == r.len() - 1 {
                    assert(!r[i].contains(c));
                    assert(t[i] == r[i].push(s.last()));
                    if t[i].contains(c) {
                        let k = choose|k: int| 0 <= k < t[i].len() && t[i][k] == c;
                        if k < r[i].len() {
                            assert(r[i][k] == c);
                            assert(r[i].contains(c));
                        } else {
                            assert(t[i][k] == s.last());
                        }
                    }
                } else {
                    assert(t[i] == r[i]);
                    assert(!r[i].contains(c));
                }
            }
        }
    }
}

/// Cleans a process log for display (see `clean_logs_spec`).
pub fn clean_logs(logs: &str) -> (r: String)
    ensures
        r@ == clean_logs_spec(logs@),
{
    let ls = lines_of(logs);
    let mut kept: Vec<String> = Vec::new();
    let mut i: usize = 0;
    proof {
        reveal_strlit(".*\\r");
        assert(".*\\r"@ =~= cr_pattern());
    }
    let p = match compile(".*\\r") {
        Some(p) => p,
        None => {
            proof {
                assert(false);
            }
            return String::new();
        },
    };
    while i < ls.len()
        invariant
            views(ls@) == lines(logs@),
            p@ == cr_pattern(),
            i <= ls.len(),
            views(kept@) == cleaned_lines(lines(logs@).take(i as int)),
        decreases ls.len() - i,
    {
        proof {
            lemma_lines_no_newline(logs@, i as int);
            assert(lines(logs@).take(i + 1).drop_last() =~= lines(logs@).take(i as int));
            reveal_strlit("");
        }
        let c = replace_first(&p, ls[i].as_str(), "");
        if !c.as_str().is_empty() {
            kept.push(c);
        }
        i = i + 1;
    }
    proof {
        assert(lines(logs@).take(ls.len() as int) =~= lines(logs@));
        reveal_strlit("\n");
        assert("\n"@ =~= seq!['\n']);
    }
    join_strings(&kept, "\n")
}

// ---------------------------------------------------------------------------
// Command display
// ---------------------------------------------------------------------------

/// Options whose following argument is a secret.
pub open spec fn sensitive(a: Seq<char>) -> bool {
    a == "--username"@ || a == "--password"@ || a == "--video-password"@ || a == "--ap-username"@
        || a == "--ap-password"@ || a == "--client-secret"@ || a == "--add-header"@
}

/// Characters that need no quoting in a shell word.
pub open spec fn shell_safe(c: char) -> bool {
    is_alnum(c) || c == '-' || c == '_' || c == '.' || c == '/' || c == ':' || c == '@' || c == '+'
}

/// Every single quote written as `'\''`.
pub open spec fn escape_quotes(s: Seq<char>) -> Seq<char>
    decreases s.len(),
{
    if s.len() == 0 {
        s
    } else if s.last() == '\'' {
        escape_quotes(s.drop_last()) + seq!['\'', '\\', '\'', '\'']
    } else {
        escape_quotes(s.drop_last()).push(s.last())
    }
}

/// A word quoted for a POSIX shell: `''` for the empty word, the word
/// itself when every character is safe, otherwise the word in single
/// quotes with its single quotes escaped.
pub open spec fn shell_quote_spec(s: Seq<char>) -> Seq<char> {
    if s.len() == 0 {
        seq!['\'', '\'']
    } else if forall|i: int| 0 <= i < s.len() ==> shell_safe(#[trigger] s[i]) {
        s
    } else {
        seq!['\''] + escape_quotes(s) + seq!['\'']
    }
}

/// The display words of a command: a word that follows a secret-bearing
/// option is shown as `***`, every other word is shell-quoted.
pub open spec fn display_words(cmd: Seq<Seq<char>>) -> Seq<Seq<char>> {
    Seq::new(
        cmd.len(),
        |i: int|
            if i > 0 && sensitive(cmd[i - 1]) {
                "***"@
            } else {
                shell_quote_spec(cmd[i])
            },
    )
}

/// The display form of a command line.
pub open spec fn format_cmd_spec(cmd: Seq<Seq<char>>) -> Seq<char> {
    join(display_words(cmd), seq![' '])
}

fn is_sensitive(a: &str) -> (r: bool)
    ensures
        r == sensitive(a@),
{
    text_eq(a, "--username") || text_eq(a, "--password") || text_eq(a, "--video-password")
        || text_eq(a, "--ap-username") || text_eq(a, "--ap-password") || text_eq(
        a,
        "--client-secret",
    ) || text_eq(a, "--add-header")
}

/// Quotes a word for a POSIX shell (see `shell_quote_spec`).
pub fn shell_quote(s: &str) -> (r: String)
    ensures
        r@ == shell_quote_spec(s@),
{
    let v = chars_of(s);
    if v.len() == 0 {
        let mut r = String::new();
        push_char(&mut r, '\'');
        push_char(&mut r, '\'');
        assert(r@ =~= seq!['\'', '\'']);
        return r;
    }
    let mut i: usize = 0;
    let mut safe = true;
    while i < v.len()
        invariant
            v@ == s@,
            i <= v.len(),
            safe == forall|j: int| 0 <= j < i ==> shell_safe(#[trigger] s@[j]),
        decreases v.len() - i,
    {
        let c = v[i];
        let ok = ('0' <= c && c <= '9') || ('a' <= c && c <= 'z') || ('A' <= c && c <= 'Z') || c
            == '-' || c == '_' || c == '.' || c == '/' || c == ':' || c == '@' || c == '+';
        proof {
            assert(ok == shell_safe(s@[i as int]));
        }
        safe = safe && ok;
        i = i + 1;
    }
    if safe {
        return owned(s);
    }
    let mut r = String::new();
    push_char(&mut r, '\'');
    let mut k: usize = 0;
    while k < v.len()
        invariant
            v@ == s@,
            k <= v.len(),
            r@ == seq!['\''] + escape_quotes(s@.take(k as int)),
        decreases v.len() - k,
    {
        proof {
            assert(s@.take(k + 1).drop_last() =~= s@.take(k as int));
        }
        if v[k] == '\'' {
            push_char(&mut r, '\'');
            push_char(&mut r, '\\');
            push_char(&mut r, '\'');
            push_char(&mut r, '\'');
        } else {
            push_char(&mut r, v[k]);
        }
        proof {
            assert(r@ =~= seq!['\''] + escape_quotes(s@.take(k + 1)));
        }
        k = k + 1;
    }
    push_char(&mut r, '\'');
    proof {
        assert(s@.take(v.len() as int) =~= s@);
        assert(r@ =~= seq!['\''] + escape_quotes(s@) + seq!['\'']);
    }
    r
}

/// The display form of a command line: words separated by spaces, secrets
/// hidden (see `format_cmd_spec`).
pub fn format_cmd(cmd: &Vec<String>) -> (r: String)
    ensures
        r@ == format_cmd_spec(views(cmd@)),
{
    let mut out: Vec<String> = Vec::new();
    let mut redact = false;
    let mut i: usize = 0;
    while i < cmd.len()
        invariant
            i <= cmd.len(),
            out@.len() == i,
            views(out@) =~= display_words(views(cmd@)).take(i as int),
            redact == (i > 0 && sensitive(cmd@[i - 1]@)),
        decreases cmd.len() - i,
    {
        let w = if redact {
            proof {
                reveal_strlit("***");
            }
            owned("***")
        } else {
            shell_quote(cmd[i].as_str())
        };
        out.push(w);
        proof {
            assert(views(out@)[i as int] == display_words(views(cmd@))[i as int]);
        }
        redact = is_sensitive(cmd[i].as_str());
        i = i + 1;
    }
    proof {
        assert(display_words(views(cmd@)).take(cmd.len() as int) =~= display_words(views(cmd@)));
        reveal_strlit(" ");
        assert(" "@ =~= seq![' ']);
    }
    join_strings(&out, " ")
}

} // verus!

verus! {

// ---------------------------------------------------------------------------
// Laws
// ---------------------------------------------------------------------------

/// The status that the lower-case form of a status's name names is that
/// status: listing jobs by a status name finds the jobs of that status.
pub proof fn law_status_name_round_trip(s: JobStatus)
    ensures
        status_of_lower_name(lower(status_name(s))) == Some(s),
{
    reveal_strlit("Running");
    reveal_strlit("Completed");
    reveal_strlit("Failed");
    reveal_strlit("Pending");
    reveal_strlit("Aborted");
    reveal_strlit("Scheduled");
    reveal_strlit("running");
    reveal_strlit("completed");
    reveal_strlit("failed");
    reveal_strlit("pending");
    reveal_strlit("aborted");
    reveal_strlit("scheduled");
    assert("running"@[0] == 'r' && "completed"@[0] == 'c' && "failed"@[0] == 'f');
    assert("pending"@[0] == 'p' && "aborted"@[0] == 'a' && "scheduled"@[0] == 's');
    match s {
        JobStatus::Running => {
            assert(lower("Running"@) =~= "running"@);
        },
        JobStatus::Completed => {
            assert(lower("Completed"@) =~= "completed"@);
        },
        JobStatus::Failed => {
            assert(lower("Failed"@) =~= "failed"@);
        },
        JobStatus::Pending => {
            assert(lower("Pending"@) =~= "pending"@);
        },
        JobStatus::Aborted => {
            assert(lower("Aborted"@) =~= "aborted"@);
        },
        JobStatus::Scheduled => {
            assert(lower("Scheduled"@) =~= "scheduled"@);
        },
    }
}

/// In the display of a command, the word after an option that carries a
/// secret is always `***`.
pub proof fn law_secret_redacted(cmd: Seq<Seq<char>>, i: int)
    requires
        0 < i < cmd.len(),
        sensitive(cmd[i - 1]),
    ensures
        display_words(cmd)[i] == "***"@,
{
}

/// What remains after the last carriage return holds none, and no line
/// feed when the line held none; a line without carriage return is kept.
proof fn lemma_after_last_cr(l: Seq<char>)
    ensures
        !after_last_cr(l).contains('\r'),
        !l.contains('\n') ==> !after_last_cr(l).contains('\n'),
        !l.contains('\r') ==> after_last_cr(l) == l,
    decreases l.len(),
{
    if l.len() > 0 {
        let l1 = l.drop_last();
        lemma_after_last_cr(l1);
        if l.contains('\n') == false {
            assert(!l1.contains('\n')) by {
                if l1.contains('\n') {
                    let w = choose|i: int| 0 <= i < l1.len() && l1[i] == '\n';
                    assert(l[w] == '\n');
                }
            }
            assert(l[l.len() - 1] != '\n');
        }
        if !l.contains('\r') {
            assert(!l1.contains('\r')) by {
                if l1.contains('\r') {
                    let w = choose|i: int| 0 <= i < l1.len() && l1[i] == '\r';
                    assert(l[w] == '\r');
                }
            }
            assert(l[l.len() - 1] != '\r');
            assert(l1.push(l.last()) =~= l);
        }
        if l.last() != '\r' {
            let a = after_last_cr(l1);
            let b = a.push(l.last());
            assert(l[l.len() - 1] == l.last());
            if b.contains('\r') {
                let w = choose|i: int| 0 <= i < b.len() && b[i] == '\r';
                if w < a.len() {
                    assert(a[w] == '\r');
                }
            }
            if !l.contains('\n') && b.contains('\n') {
                let w = choose|i: int| 0 <= i < b.len() && b[i] == '\n';
                if w < a.len() {
                    assert(a[w] == '\n');
                }
            }
        }
    }
}

/// The cleaned lines are non-empty and hold no carriage return, and no
/// line feed when the lines held none.
proof fn lemma_cleaned_lines_shape(ls: Seq<Seq<char>>)
    ensures
        forall|i: int| 0 <= i < cleaned_lines(ls).len() ==> (#[trigger] cleaned_lines(ls)[i]).len() > 0 && !cleaned_lines(ls)[i].contains('\r'),
        (forall|i: int| 0 <= i < ls.len() ==> !(#[trigger] ls[i]).contains('\n')) ==> forall|i: int| 0 <= i < cleaned_lines(ls).len() ==> !(#[trigger] cleaned_lines(ls)[i]).contains('\n'),
    decreases ls.len(),
{
    if ls.len() > 0 {
        let l1 = ls.drop_last();
        lemma_cleaned_lines_shape(l1);
        lemma_after_last_cr(ls.last());
        let r = cleaned_lines(l1);
        let c = after_last_cr(ls.last());
        let t = cleaned_lines(ls);
        assert(t == if c.len() == 0 { r } else { r.push(c) });
        assert forall|i: int| 0 <= i < t.len() implies (#[trigger] t[i]).len() > 0 && !t[i].contains('\r') by {
            if i < r.len() {
                assert(t[i] == r[i]);
            }
        }
        if forall|i: int| 0 <= i < ls.len() ==> !(#[trigger] ls[i]).contains('\n') {
            assert(forall|i: int| 0 <= i < l1.len() ==> #[trigger] l1[i] == ls[i]);
            assert(!ls[ls.len() - 1].contains('\n'));
            assert forall|i: int| 0 <= i < t.len() implies !(#[trigger] t[i]).contains('\n') by {
                if i < r.len() {
                    assert(t[i] == r[i]);
                }
            }
        }
    }
}

/// Lines that are non-empty and hold no carriage return clean to
/// themselves.
proof fn lemma_cleaned_lines_keep(ls: Seq<Seq<char>>)
    requires
        forall|i: int| 0 <= i < ls.len() ==> (#[trigger] ls[i]).len() > 0 && !ls[i].contains('\r'),
    ensures
        cleaned_lines(ls) == ls,
    decreases ls.len(),
{
    if ls.len() > 0 {
        let l1 = ls.drop_last();
        assert(forall|i: int| 0 <= i < l1.len() ==> #[trigger] l1[i] == ls[i]);
        lemma_cleaned_lines_keep(l1);
        assert(ls[ls.len() - 1].len() > 0 && !ls[ls.len() - 1].contains('\r'));
        lemma_after_last_cr(ls.last());
        assert(l1.push(ls.last()) =~= ls);
    }
}

/// The lines of parts joined by line feeds are the parts, when they are
/// non-empty and hold no line feed or carriage return.
proof fn lemma_lines_join(parts: Seq<Seq<char>>)
    requires
        forall|i: int| 0 <= i < parts.len() ==> (#[trigger] parts[i]).len() > 0 && !parts[i].contains('\n') && !parts[i].contains('\r'),
    ensures
        lines(join(parts, seq!['\n'])) == parts,
{
    if parts.len() == 0 {
        assert(join(parts, seq!['\n']) =~= Seq::<char>::empty());
        assert(lines(Seq::<char>::empty()) =~= parts);
    } else {
        crate::text::lemma_split_join(parts, '\n');
        let s = join(parts, seq!['\n']);
        let p = crate::text::split(s, '\n');
        assert(p == parts);
        assert(p[p.len() - 1].len() > 0);
        assert forall|i: int| 0 <= i < parts.len() implies #[trigger] lines(s)[i] == parts[i] by {
            if i < p.len() - 1 {
                assert(!parts[i].contains('\r'));
                assert(parts[i][parts[i].len() - 1] != '\r');
            }
        }
        assert(lines(s) =~= parts);
    }
}

/// Cleaning a cleaned log changes nothing.
pub proof fn law_clean_logs_idempotent(logs: Seq<char>)
    ensures
        clean_logs_spec(clean_logs_spec(logs)) == clean_logs_spec(logs),
{
    let ls = lines(logs);
    assert forall|i: int| 0 <= i < ls.len() implies !(#[trigger] ls[i]).contains('\n') by {
        lemma_lines_no_newline(logs, i);
    }
    lemma_cleaned_lines_shape(ls);
    let cl = cleaned_lines(ls);
    lemma_lines_join(cl);
    lemma_cleaned_lines_keep(cl);
}

} // verus!

verus! {

// ---------------------------------------------------------------------------
// Reading a quoted word back
// ---------------------------------------------------------------------------

/// Where a POSIX shell is while it reads a word: outside quotes, inside
/// single quotes, or just after a backslash outside quotes.
pub enum ShellMode {
    Plain,
    Quoted,
    Escaped,
}

/// One more character of a word as a POSIX shell reads it, from the text
/// read so far and the mode: outside quotes a single quote opens quoting, a
/// backslash escapes the next character, a safe character is itself, and
/// anything else (white space, an operator or expansion character) would
/// end the word or make it more than a plain word; inside single quotes
/// every character but the closing quote is itself; an escaped character
/// is itself, but for a line feed, which joins lines.
pub open spec fn shell_step(st: Option<(Seq<char>, ShellMode)>, c: char) -> Option<(Seq<char>, ShellMode)> {
    match st {
        None => None,
        Some((acc, mode)) => match mode {
            ShellMode::Plain => if c == '\'' {
                Some((acc, ShellMode::Quoted))
            } else if c == '\\' {
                Some((acc, ShellMode::Escaped))
            } else if shell_safe(c) {
                Some((acc.push(c), ShellMode::Plain))
            } else {
                None
            },
            ShellMode::Quoted => if c == '\'' {
                Some((acc, ShellMode::Plain))
            } else {
                Some((acc.push(c), ShellMode::Quoted))
            },
            ShellMode::Escaped => if c == '\n' {
                Some((acc, ShellMode::Plain))
            } else {
                Some((acc.push(c), ShellMode::Plain))
            },
        },
    }
}

/// The shell's reading of the characters `w`, from the state `st`.
pub open spec fn shell_run(st: Option<(Seq<char>, ShellMode)>, w: Seq<char>) -> Option<(Seq<char>, ShellMode)>
    decreases w.len(),
{
    if w.len() == 0 {
        st
    } else {
        shell_step(shell_run(st, w.drop_last()), w.last())
    }
}

/// The one word a POSIX shell reads from `w` after quote removal, when `w`
/// is a single plain word that ends outside quotes.
pub open spec fn shell_word(w: Seq<char>) -> Option<Seq<char>> {
    match shell_run(Some((Seq::<char>::empty(), ShellMode::Plain)), w) {
        Some((acc, ShellMode::Plain)) => Some(acc),
        _ => None,
    }
}

proof fn lemma_shell_run_push(st: Option<(Seq<char>, ShellMode)>, w: Seq<char>, c: char)
    ensures
        shell_run(st, w.push(c)) == shell_step(shell_run(st, w), c),
{
    assert(w.push(c).drop_last() =~= w);
    assert(w.push(c).last() == c);
}

proof fn lemma_shell_run_one(st: Option<(Seq<char>, ShellMode)>, c: char)
    ensures
        shell_run(st, seq![c]) == shell_step(st, c),
{
    lemma_shell_run_push(st, Seq::<char>::empty(), c);
    assert(Seq::<char>::empty().push(c) =~= seq![c]);
}

proof fn lemma_shell_run_concat(st: Option<(Seq<char>, ShellMode)>, a: Seq<char>, b: Seq<char>)
    ensures
        shell_run(st, a + b) == shell_run(shell_run(st, a), b),
    decreases b.len(),
{
    if b.len() == 0 {
        assert(a + b =~= a);
    } else {
        lemma_shell_run_concat(st, a, b.drop_last());
        assert((a + b).drop_last() =~= a + b.drop_last());
        assert((a + b).last() == b.last());
    }
}

proof fn lemma_shell_run_safe(acc: Seq<char>, s: Seq<char>)
    requires
        forall|i: int| 0 <= i < s.len() ==> shell_safe(#[trigger] s[i]),
    ensures
        shell_run(Some((acc, ShellMode::Plain)), s) == Some((acc + s, ShellMode::Plain)),
    decreases s.len(),
{
    if s.len() == 0 {
        assert(acc + s =~= acc);
    } else {
        let s1 = s.drop_last();
        assert forall|i: int| 0 <= i < s1.len() implies shell_safe(#[trigger] s1[i]) by {
            assert(s1[i] == s[i]);
        }
        lemma_shell_run_safe(acc, s1);
        let c = s.last();
        assert(shell_safe(s[s.len() - 1]));
        assert(c != '\'' && c != '\\');
        assert((acc + s1).push(c) =~= acc + s);
    }
}

proof fn lemma_shell_run_quoted(acc: Seq<char>, s: Seq<char>)
    ensures
        shell_run(Some((acc, ShellMode::Quoted)), escape_quotes(s)) == Some((acc + s, ShellMode::Quoted)),
    decreases s.len(),
{
    let st = Some((acc, ShellMode::Quoted));
    if s.len() == 0 {
        assert(acc + s =~= acc);
    } else {
        let s1 = s.drop_last();
        lemma_shell_run_quoted(acc, s1);
        let mid = Some((acc + s1, ShellMode::Quoted));
        if s.last() == '\'' {
            let t = seq!['\'', '\\', '\'', '\''];
            lemma_shell_run_concat(st, escape_quotes(s1), t);
            let e = Seq::<char>::empty();
            lemma_shell_run_push(mid, e, '\'');
            assert(e.push('\'') =~= seq!['\'']);
            lemma_shell_run_push(mid, seq!['\''], '\\');
            assert(seq!['\''].push('\\') =~= seq!['\'', '\\']);
            lemma_shell_run_push(mid, seq!['\'', '\\'], '\'');
            assert(seq!['\'', '\\'].push('\'') =~= seq!['\'', '\\', '\'']);
            lemma_shell_run_push(mid, seq!['\'', '\\', '\''], '\'');
            assert(seq!['\'', '\\', '\''].push('\'') =~= t);
            assert(shell_run(mid, t) == Some(((acc + s1).push('\''), ShellMode::Quoted)));
            assert((acc + s1).push('\'') =~= acc + s);
        } else {
            lemma_shell_run_push(st, escape_quotes(s1), s.last());
            assert((acc + s1).push(s.last()) =~= acc + s);
        }
    }
}

/// A quoted word reads back, in a POSIX shell, as exactly one word: the
/// word itself.
pub proof fn law_shell_quote_round_trip(s: Seq<char>)
    ensures
        shell_word(shell_quote_spec(s)) == Some(s),
{
    let start = Some((Seq::<char>::empty(), ShellMode::Plain));
    if s.len() == 0 {
        lemma_shell_run_one(start, '\'');
        lemma_shell_run_push(start, seq!['\''], '\'');
        assert(seq!['\''].push('\'') =~= seq!['\'', '\'']);
        assert(s =~= Seq::<char>::empty());
    } else if forall|i: int| 0 <= i < s.len() ==> shell_safe(#[trigger] s[i]) {
        lemma_shell_run_safe(Seq::<char>::empty(), s);
        assert(Seq::<char>::empty() + s =~= s);
    } else {
        let open = seq!['\''];
        let e = escape_quotes(s);
        lemma_shell_run_concat(start, open + e, seq!['\'']);
        lemma_shell_run_concat(start, open, e);
        lemma_shell_run_one(start, '\'');
        lemma_shell_run_quoted(Seq::<char>::empty(), s);
        assert(Seq::<char>::empty() + s =~= s);
        lemma_shell_run_one(Some((s, ShellMode::Quoted)), '\'');
    }
}

} // verus!

verus! {

/// In the display of a command, the word after `--username`,
/// `--password`, `--video-password`, `--ap-username`, `--ap-password`,
/// `--client-secret` or `--add-header` is `***`: the displayed line is one
/// word per word of the command, joined by spaces, where each word that
/// follows one of those options is `***` and every other word is
/// shell-quoted.
pub proof fn law_listed_secrets_hidden(cmd: Seq<Seq<char>>, i: int)
    requires
        0 < i < cmd.len(),
        cmd[i - 1] == "--username"@ || cmd[i - 1] == "--password"@ || cmd[i - 1] == "--video-password"@
            || cmd[i - 1] == "--ap-username"@ || cmd[i - 1] == "--ap-password"@ || cmd[i - 1]
            == "--client-secret"@ || cmd[i - 1] == "--add-header"@,
    ensures
        exists|w: Seq<Seq<char>>|
            {
                &&& w.len() == cmd.len()
                &&& format_cmd_spec(cmd) == join(w, seq![' '])
                &&& #[trigger] w[i] == "***"@
                &&& forall|j: int|
                    0 <= j < cmd.len() ==> #[trigger] w[j] == if j > 0 && (cmd[j - 1] == "--username"@
                        || cmd[j - 1] == "--password"@ || cmd[j - 1] == "--video-password"@ || cmd[j
                        - 1] == "--ap-username"@ || cmd[j - 1] == "--ap-password"@ || cmd[j - 1]
                        == "--client-secret"@ || cmd[j - 1] == "--add-header"@) {
                        "***"@
                    } else {
                        shell_quote_spec(cmd[j])
                    }
            },
{
    let w = display_words(cmd);
    assert(w[i] == "***"@);
}

} // verus!
