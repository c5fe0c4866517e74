//! What the web API decides: request flags and lists, the jobs that
//! downloads, cuts, retries and updates queue, what stopping a job does,
//! and the final event of a job.
use vstd::prelude::*;
use crate::jobs::{opt_view, Job, JobStatus, JobType, JobV};
use crate::json::{clone_strings, Extra, ExtraV, JsonV, JsonValue};
use crate::rows::{keep_nonempty, nonempty_only};
use crate::text::{concat, join, join_strings, lower, owned, push_char, split, split_char, text_eq, to_lower, views};
use crate::ytdlp::{prefix_format, prefix_format_spec};
use crate::pattern::timestamp_pattern;
use vstd::string::StringExecFns;

verus! {

// ---------------------------------------------------------------------------
// Flags and lists
// ---------------------------------------------------------------------------

/// The view of an optional JSON value.
pub open spec fn json_opt(v: Option<JsonValue>) -> Option<JsonV> {
    match v {
        Some(x) => Some(x@),
        None => None,
    }
}

/// Whether a flag parameter is on: `true`, `"1"`, `"true"` in any case,
/// or the number 1.
pub open spec fn truthy_spec(v: Option<JsonV>) -> bool {
    match v {
        Some(JsonV::Bool(b)) => b,
        Some(JsonV::Str(s)) => s == "1"@ || lower(s) == "true"@,
        Some(JsonV::PosInt(n)) => n == 1,
        _ => false,
    }
}

/// Whether a flag parameter is on (see `truthy_spec`).
pub fn truthy(v: &Option<JsonValue>) -> (r: bool)
    ensures
        r == truthy_spec(json_opt(*v)),
{
    match v {
        Some(JsonValue::Bool(b)) => *b,
        Some(JsonValue::Str(s)) => {
            let l = to_lower(s.as_str());
            text_eq(s.as_str(), "1") || text_eq(l.as_str(), "true")
        },
        Some(JsonValue::PosInt(n)) => *n == 1,
        _ => false,
    }
}

/// Whether the job list shows logs: unless the `show_logs` parameter is
/// given as something other than `1` or `true` (in any case).
pub open spec fn show_logs_spec(param: Option<Seq<char>>) -> bool {
    match param {
        Some(s) => s == "1"@ || lower(s) == "true"@,
        None => true,
    }
}

/// Whether the job list shows logs (see `show_logs_spec`).
pub fn show_logs(param: &Option<String>) -> (r: bool)
    ensures
        r == show_logs_spec(opt_view(*param)),
{
    match param {
        Some(s) => {
            let l = to_lower(s.as_str());
            text_eq(s.as_str(), "1") || text_eq(l.as_str(), "true")
        },
        None => true,
    }
}

/// The aliases a request names: the non-empty comma-separated names of a
/// string, or the string items of a list.
pub open spec fn parse_aliases_spec(v: Option<JsonV>) -> Seq<Seq<char>> {
    match v {
        Some(JsonV::Str(s)) => nonempty_only(split(s, ',')),
        Some(JsonV::Array(items, _)) => items,
        _ => Seq::empty(),
    }
}

/// The aliases a request names (see `parse_aliases_spec`).
pub fn parse_aliases(v: &Option<JsonValue>) -> (r: Vec<String>)
    ensures
        views(r@) == parse_aliases_spec(json_opt(*v)),
{
    match v {
        Some(JsonValue::Str(s)) => {
            let parts = split_char(s.as_str(), ',');
            keep_nonempty(&parts)
        },
        Some(JsonValue::Array(items, _)) => clone_strings(items),
        _ => {
            let r: Vec<String> = Vec::new();
            assert(views(r@) =~= Seq::<Seq<char>>::empty());
            r
        },
    }
}

/// The urls of a request: its `urls`, then its `url`, without empty ones.
pub open spec fn request_urls_spec(urls: Option<Seq<Seq<char>>>, url: Option<Seq<char>>) -> Seq<Seq<char>> {
    nonempty_only(
        match urls {
            Some(v) => v,
            None => Seq::empty(),
        } + match url {
            Some(u) => seq![u],
            None => Seq::empty(),
        },
    )
}

/// The view of an optional list of strings.
pub open spec fn opt_views(v: Option<Vec<String>>) -> Option<Seq<Seq<char>>> {
    match v {
        Some(x) => Some(views(x@)),
        None => None,
    }
}

/// The urls of a request (see `request_urls_spec`).
pub fn request_urls(urls: &Option<Vec<String>>, url: &Option<String>) -> (r: Vec<String>)
    ensures
        views(r@) == request_urls_spec(opt_views(*urls), opt_view(*url)),
{
    let mut all: Vec<String> = match urls {
        Some(v) => clone_strings(v),
        None => Vec::new(),
    };
    let ghost base = views(all@);
    match url {
        Some(u) => {
            all.push(u.clone());
            proof {
                assert(views(all@) =~= base + seq![u@]);
            }
        },
        None => {
            proof {
                assert(views(all@) =~= base + Seq::<Seq<char>>::empty());
            }
        },
    }
    proof {
        match urls {
            Some(v) => {},
            None => {
                assert(base =~= Seq::<Seq<char>>::empty());
            },
        }
    }
    keep_nonempty(&all)
}

// ---------------------------------------------------------------------------
// Download requests
// ---------------------------------------------------------------------------

/// The non-empty ones of `f` and `part`, joined with a comma.
pub open spec fn joined_nonempty(f: Option<Seq<char>>, part: Seq<char>) -> Seq<char> {
    let a = match f {
        Some(x) => x,
        None => Seq::empty(),
    };
    if a.len() > 0 && part.len() > 0 {
        a + seq![','] + part
    } else if a.len() > 0 {
        a
    } else {
        part
    }
}

fn join_nonempty(f: &Option<String>, part: &str) -> (r: String)
    ensures
        r@ == joined_nonempty(opt_view(*f), part@),
{
    let a: String = match f {
        Some(x) => x.clone(),
        None => String::new(),
    };
    if !a.as_str().is_empty() && !part.is_empty() {
        let mut r = a;
        push_char(&mut r, ',');
        r.append(part);
        r
    } else if !a.as_str().is_empty() {
        a
    } else {
        owned(part)
    }
}

/// Each name with `prefix/` in front (unless it has it).
pub open spec fn prefixed_all(names: Seq<Seq<char>>, prefix: Seq<char>) -> Seq<Seq<char>> {
    names.map_values(|a: Seq<char>| prefix_format_spec(prefix, a))
}

/// The format string a download request asks for: its format, then its
/// profile, aliases and audio format as `profile/…`, `alias/…` and
/// `audio/…` parts; `default` when that leaves nothing.
pub open spec fn queue_format_spec(
    format: Option<Seq<char>>,
    profile: Option<Seq<char>>,
    aliases: Seq<Seq<char>>,
    audio: Option<Seq<char>>,
    default: Seq<char>,
) -> Seq<char> {
    let f1 = match profile {
        Some(p) => Some(joined_nonempty(format, prefix_format_spec("profile"@, p))),
        None => format,
    };
    let f2 = if aliases.len() > 0 {
        Some(joined_nonempty(f1, join(prefixed_all(aliases, "alias"@), seq![','])))
    } else {
        f1
    };
    let f3 = match audio {
        Some(a) => Some(joined_nonempty(f2, prefix_format_spec("audio"@, a))),
        None => f2,
    };
    match f3 {
        Some(f) => if f.len() > 0 {
            f
        } else {
            default
        },
        None => default,
    }
}

/// The format string a download request asks for (see
/// `queue_format_spec`).
pub fn queue_format(
    format: &Option<String>,
    profile: &Option<String>,
    aliases: &Vec<String>,
    audio: &Option<String>,
    default: &str,
) -> (r: String)
    ensures
        r@ == queue_format_spec(opt_view(*format), opt_view(*profile), views(aliases@), opt_view(*audio), default@),
{
    proof {
        reveal_strlit(",");
        assert(","@ =~= seq![',']);
    }
    let mut f: Option<String> = match format {
        Some(x) => Some(x.clone()),
        None => None,
    };
    match profile {
        Some(p) => {
            let part = prefix_format("profile", p.as_str());
            f = Some(join_nonempty(&f, part.as_str()));
        },
        None => {},
    }
    if aliases.len() > 0 {
        let mut parts: Vec<String> = Vec::new();
        let mut i: usize = 0;
        while i < aliases.len()
            invariant
                i <= aliases.len(),
                views(parts@) =~= prefixed_all(views(aliases@), "alias"@).take(i as int),
            decreases aliases.len() - i,
        {
            let p = prefix_format("alias", aliases[i].as_str());
            let ghost before = parts@;
            let ghost pv = p@;
            parts.push(p);
            proof {
                assert(views(parts@) =~= views(before).push(pv));
                assert(prefixed_all(views(aliases@), "alias"@)[i as int] == prefix_format_spec(
                    "alias"@,
                    aliases@[i as int]@,
                ));
            }
            i = i + 1;
        }
        proof {
            assert(prefixed_all(views(aliases@), "alias"@).take(aliases.len() as int) =~= prefixed_all(
                views(aliases@),
                "alias"@,
            ));
        }
        let extra = join_strings(&parts, ",");
        f = Some(join_nonempty(&f, extra.as_str()));
    }
    match audio {
        Some(a) => {
            let part = prefix_format("audio", a.as_str());
            f = Some(join_nonempty(&f, part.as_str()));
        },
        None => {},
    }
    match f {
        Some(x) => if x.as_str().is_empty() {
            owned(default)
        } else {
            x
        },
        None => owned(default),
    }
}

/// A download request, as the web API receives it.
pub struct QueueRequest {
    pub url: Option<String>,
    pub urls: Option<Vec<String>>,
    pub format: Option<String>,
    pub profile: Option<String>,
    pub aliases: Option<JsonValue>,
    pub audio_format: Option<String>,
    pub force_generic_extractor: Option<JsonValue>,
    pub extra_params: Option<Extra>,
}

/// The urls a download request asks for.
pub open spec fn queue_urls(req: QueueRequest) -> Seq<Seq<char>> {
    request_urls_spec(opt_views(req.urls), opt_view(req.url))
}

/// The job a download request queues, when it names a url.
pub open spec fn queued_download(req: QueueRequest, default: Seq<char>) -> JobV {
    JobV {
        id: -1i64,
        name: join(queue_urls(req), ", "@),
        status: JobStatus::Pending,
        log: Seq::empty(),
        format: Some(
            queue_format_spec(
                opt_view(req.format),
                opt_view(req.profile),
                parse_aliases_spec(json_opt(req.aliases)),
                opt_view(req.audio_format),
                default,
            ),
        ),
        job_type: JobType::YdlDownload,
        urls: queue_urls(req),
        pid: 0i32,
        force_generic_extractor: truthy_spec(json_opt(req.force_generic_extractor)),
        extra_params: match req.extra_params {
            Some(e) => e@,
            None => ExtraV::Object(Seq::empty()),
        },
        scheduled_at: None,
    }
}

/// The error of a download request without urls.
pub open spec fn no_urls_message() -> Seq<char> {
    "'url' and 'urls' query parameters omitted"@
}

/// The job a download request queues, or the error when it names no url;
/// `default` is the configured default format.
pub fn queue_job(req: QueueRequest, default: &str) -> (r: Result<Job, String>)
    requires
        match req.extra_params {
            Some(e) => e.wf(),
            None => true,
        },
    ensures
        match r {
            Ok(j) => queue_urls(req).len() > 0 && j.wf() && j@ == queued_download(req, default@),
            Err(m) => queue_urls(req).len() == 0 && m@ == no_urls_message(),
        },
{
    let urls = request_urls(&req.urls, &req.url);
    if urls.len() == 0 {
        return Err(owned("'url' and 'urls' query parameters omitted"));
    }
    let aliases = parse_aliases(&req.aliases);
    let format = queue_format(&req.format, &req.profile, &aliases, &req.audio_format, default);
    let force = truthy(&req.force_generic_extractor);
    let name = join_strings(&urls, ", ");
    let mut job = Job::new(name, JobType::YdlDownload, Some(format), urls);
    job.force_generic_extractor = force;
    match req.extra_params {
        Some(e) => {
            job.extra_params = e;
        },
        None => {},
    }
    Ok(job)
}

} // verus!

verus! {

// ---------------------------------------------------------------------------
// Cut requests
// ---------------------------------------------------------------------------

/// A request to cut a finished file, as the web API receives it.
pub struct CutRequest {
    pub start: Option<String>,
    pub end: Option<JsonValue>,
    pub mode: Option<String>,
    pub output: Option<String>,
}

/// What the file system says about a cut request, and whether its end
/// comes after its start (timestamps compared as numbers of seconds).
pub struct CutChecks {
    /// The source file resolves inside the finished-files folder.
    pub source_found: bool,
    pub source_is_file: bool,
    /// A file with the output name already stands beside the source.
    pub target_exists: bool,
    pub end_after_start: bool,
}

/// The start of a cut: `0` unless given.
pub open spec fn cut_start_spec(req: CutRequest) -> Seq<char> {
    match req.start {
        Some(s) => s@,
        None => "0"@,
    }
}

/// The end of a cut: a non-empty string as it is, nothing for `null` or
/// no value, and any other value by its JSON text (the empty string's is
/// `""`).
pub open spec fn cut_end_spec(end: Option<JsonV>) -> Option<Seq<char>> {
    match end {
        Some(JsonV::Str(s)) => if s.len() > 0 {
            Some(s)
        } else {
            Some(seq!['"', '"'])
        },
        Some(JsonV::Null) => None,
        None => None,
        Some(v) => Some(crate::ytdlp::json_text(v)),
    }
}

/// The mode of a cut: `fast` unless given.
pub open spec fn cut_mode_spec(req: CutRequest) -> Seq<char> {
    match req.mode {
        Some(m) => m@,
        None => "fast"@,
    }
}

/// The output name of a cut, without surrounding white space.
pub open spec fn cut_output_spec(req: CutRequest) -> Seq<char> {
    crate::text::trim_spec(
        match req.output {
            Some(o) => o@,
            None => Seq::empty(),
        },
    )
}

/// The start of a cut (see `cut_start_spec`).
pub fn cut_start(req: &CutRequest) -> (r: String)
    ensures
        r@ == cut_start_spec(*req),
{
    match &req.start {
        Some(s) => s.clone(),
        None => owned("0"),
    }
}

/// The end of a cut (see `cut_end_spec`).
pub fn cut_end(req: &CutRequest) -> (r: Option<String>)
    ensures
        opt_view(r) == cut_end_spec(json_opt(req.end)),
{
    match &req.end {
        Some(JsonValue::Str(s)) => if s.as_str().is_empty() {
            let mut q = String::new();
            push_char(&mut q, '"');
            push_char(&mut q, '"');
            assert(q@ =~= seq!['"', '"']);
            Some(q)
        } else {
            Some(s.clone())
        },
        Some(JsonValue::Null) => None,
        None => None,
        Some(v) => Some(json_text_of(v)),
    }
}

/// The JSON text of a value that is not a string (a string gives its
/// characters).
pub fn json_text_of(v: &JsonValue) -> (r: String)
    ensures
        r@ == crate::ytdlp::json_text(v@),
{
    proof {
        reveal_strlit("true");
        reveal_strlit("false");
        reveal_strlit("null");
        assert("true"@ =~= seq!['t', 'r', 'u', 'e']);
        assert("false"@ =~= seq!['f', 'a', 'l', 's', 'e']);
        assert("null"@ =~= seq!['n', 'u', 'l', 'l']);
    }
    match v {
        JsonValue::Null => owned("null"),
        JsonValue::Bool(b) => if *b {
            owned("true")
        } else {
            owned("false")
        },
        JsonValue::PosInt(n) => crate::text::u64_text(*n),
        JsonValue::NegInt(n) => crate::text::i64_text(*n),
        JsonValue::Float(t) => t.clone(),
        JsonValue::Str(t) => t.clone(),
        JsonValue::Array(_, t) => t.clone(),
        JsonValue::Object(t) => t.clone(),
    }
}

/// The mode of a cut (see `cut_mode_spec`).
pub fn cut_mode(req: &CutRequest) -> (r: String)
    ensures
        r@ == cut_mode_spec(*req),
{
    match &req.mode {
        Some(m) => m.clone(),
        None => owned("fast"),
    }
}

/// The output name of a cut (see `cut_output_spec`).
pub fn cut_output(req: &CutRequest) -> (r: String)
    ensures
        r@ == cut_output_spec(*req),
{
    match &req.output {
        Some(o) => crate::text::trim(o.as_str()),
        None => {
            let e = String::new();
            crate::text::trim(e.as_str())
        },
    }
}

/// An output name is usable when it is not empty, names no folder and is
/// not hidden.
pub open spec fn valid_output_spec(o: Seq<char>) -> bool {
    o.len() > 0 && !o.contains('/') && o[0] != '.'
}

/// Whether an output name is usable (see `valid_output_spec`).
pub fn valid_output(o: &str) -> (r: bool)
    ensures
        r == valid_output_spec(o@),
{
    if o.is_empty() || crate::text::has_char(o, '/') {
        return false;
    }
    let c = crate::text::chars_of(o);
    c[0] != '.'
}

/// Whether the start and end of a cut are timestamps.
pub open spec fn timestamps_ok(start: Seq<char>, end: Option<Seq<char>>) -> bool {
    &&& crate::pattern::regex_is_match(timestamp_pattern(), start)
    &&& match end {
        Some(e) => crate::pattern::regex_is_match(timestamp_pattern(), e),
        None => true,
    }
}

/// Whether the start and end of a cut are timestamps (see
/// `timestamps_ok`).
pub fn check_timestamps(start: &str, end: &Option<String>) -> (r: bool)
    ensures
        r == timestamps_ok(start@, opt_view(*end)),
{
    let p = match crate::pattern::compile("^(\\d+(\\.\\d+)?|(\\d+:)?[0-5]?\\d:[0-5]?\\d(\\.\\d+)?)$") {
        Some(p) => p,
        None => {
            return false;
        },
    };
    if !crate::pattern::is_match(&p, start) {
        return false;
    }
    match end {
        Some(e) => crate::pattern::is_match(&p, e.as_str()),
        None => true,
    }
}

/// The name of a cut job.
pub open spec fn cut_name(fname: Seq<char>, start: Seq<char>, end: Option<Seq<char>>) -> Seq<char> {
    "Cut "@ + fname + " ["@ + start + " - "@ + match end {
        Some(e) => e,
        None => "end"@,
    } + "]"@
}

/// The parameters a cut job carries.
pub open spec fn cut_param(
    start: Seq<char>,
    end: Option<Seq<char>>,
    mode: Seq<char>,
    output: Seq<char>,
    k: Seq<char>,
) -> Option<JsonV> {
    if k == "start"@ {
        Some(JsonV::Str(start))
    } else if k == "end"@ {
        Some(
            match end {
                Some(e) => JsonV::Str(e),
                None => JsonV::Null,
            },
        )
    } else if k == "mode"@ {
        Some(JsonV::Str(mode))
    } else if k == "output"@ {
        Some(JsonV::Str(output))
    } else {
        None
    }
}

/// The refusal of a cut request, in the order the checks are made; `None`
/// when it is accepted.
pub open spec fn cut_refusal(req: CutRequest, checks: CutChecks) -> Option<Seq<char>> {
    let start = cut_start_spec(req);
    let end = cut_end_spec(json_opt(req.end));
    let mode = cut_mode_spec(req);
    if !checks.source_found {
        Some("Invalid filename"@)
    } else if !checks.source_is_file {
        Some("File not found"@)
    } else if !valid_output_spec(cut_output_spec(req)) {
        Some("Invalid output filename"@)
    } else if checks.target_exists {
        Some("Output file already exists"@)
    } else if !timestamps_ok(start, end) {
        Some("Invalid timestamp"@)
    } else if end is Some && !checks.end_after_start {
        Some("End time must be after start time"@)
    } else if mode != "fast"@ && mode != "precise"@ {
        Some("Invalid mode"@)
    } else {
        None
    }
}

/// The job that cuts the finished file `fname` as `req` asks, or the
/// message that refuses the request.
pub fn cut_job(fname: &str, req: &CutRequest, checks: &CutChecks) -> (r: Result<Job, String>)
    ensures
        match r {
            Ok(j) => {
                &&& cut_refusal(*req, *checks) is None
                &&& j.wf()
                &&& j@.id == -1
                &&& j@.name == cut_name(fname@, cut_start_spec(*req), cut_end_spec(json_opt(req.end)))
                &&& j@.status == JobStatus::Pending
                &&& j@.log == Seq::<char>::empty()
                &&& j@.format is None
                &&& j@.job_type == JobType::FfmpegCut
                &&& j@.urls == seq![fname@]
                &&& j@.pid == 0
                &&& !j@.force_generic_extractor
                &&& j@.scheduled_at is None
                &&& j@.extra_params matches ExtraV::Object(m) && forall|k: Seq<char>|
                    #[trigger] crate::json::lookup(m, k) == cut_param(
                        cut_start_spec(*req),
                        cut_end_spec(json_opt(req.end)),
                        cut_mode_spec(*req),
                        cut_output_spec(*req),
                        k,
                    )
            },
            Err(m) => cut_refusal(*req, *checks) == Some(m@),
        },
{
    let start = cut_start(req);
    let end = cut_end(req);
    let mode = cut_mode(req);
    let output = cut_output(req);
    if !checks.source_found {
        return Err(owned("Invalid filename"));
    }
    if !checks.source_is_file {
        return Err(owned("File not found"));
    }
    if !valid_output(output.as_str()) {
        return Err(owned("Invalid output filename"));
    }
    if checks.target_exists {
        return Err(owned("Output file already exists"));
    }
    if !check_timestamps(start.as_str(), &end) {
        return Err(owned("Invalid timestamp"));
    }
    if end.is_some() && !checks.end_after_start {
        return Err(owned("End time must be after start time"));
    }
    if !text_eq(mode.as_str(), "fast") && !text_eq(mode.as_str(), "precise") {
        return Err(owned("Invalid mode"));
    }
    let mut name = concat("Cut ", fname);
    name.append(" [");
    name.append(start.as_str());
    name.append(" - ");
    match &end {
        Some(e) => name.append(e.as_str()),
        None => name.append("end"),
    }
    name.append("]");
    let mut params: crate::json::KeyMap<JsonValue> = crate::json::KeyMap::new();
    params.insert(owned("start"), JsonValue::Str(start.clone()));
    let end_value = match &end {
        Some(e) => JsonValue::Str(e.clone()),
        None => JsonValue::Null,
    };
    params.insert(owned("end"), end_value);
    params.insert(owned("mode"), JsonValue::Str(mode.clone()));
    params.insert(owned("output"), JsonValue::Str(output.clone()));
    proof {
        reveal_strlit("start");
        reveal_strlit("end");
        reveal_strlit("mode");
        reveal_strlit("output");
        assert("start"@ != "end"@ && "start"@ != "mode"@ && "start"@ != "output"@) by {
            assert("start"@[0] != "end"@[0] && "start"@[0] != "mode"@[0] && "start"@[0] != "output"@[0]);
        }
        assert("end"@ != "mode"@ && "end"@ != "output"@ && "mode"@ != "output"@) by {
            assert("end"@[0] != "mode"@[0] && "end"@[0] != "output"@[0] && "mode"@[0] != "output"@[0]);
        }
    }
    let mut urls: Vec<String> = Vec::new();
    urls.push(owned(fname));
    proof {
        assert(views(urls@) =~= seq![fname@]);
    }
    let mut job = Job::new(name, JobType::FfmpegCut, None, urls);
    job.extra_params = Extra::Object(params);
    Ok(job)
}

} // verus!

verus! {

// ---------------------------------------------------------------------------
// Stopping, retrying, following and updating
// ---------------------------------------------------------------------------

/// What a stop request does to a job.
#[derive(PartialEq, Eq, Debug, Structural)]
pub enum StopAction {
    /// Mark the job aborted.
    Abort,
    /// Interrupt its process.
    Interrupt(i32),
    /// Nothing: the request fails.
    Refuse,
}

/// What stopping a job does: a waiting job is aborted, a running one with
/// a process is interrupted, and any other job without a process is
/// aborted; the rest cannot be stopped.
pub open spec fn stop_action_spec(status: JobStatus, pid: i32) -> StopAction {
    if status == JobStatus::Pending || status == JobStatus::Scheduled {
        StopAction::Abort
    } else if status == JobStatus::Running && pid != 0 {
        StopAction::Interrupt(pid)
    } else if pid == 0 {
        StopAction::Abort
    } else {
        StopAction::Refuse
    }
}

/// What stopping a job does (see `stop_action_spec`).
pub fn stop_action(status: JobStatus, pid: i32) -> (r: StopAction)
    ensures
        r == stop_action_spec(status, pid),
{
    match status {
        JobStatus::Pending | JobStatus::Scheduled => StopAction::Abort,
        JobStatus::Running if pid != 0 => StopAction::Interrupt(pid),
        _ => if pid == 0 {
            StopAction::Abort
        } else {
            StopAction::Refuse
        },
    }
}

/// `new` holds the extra parameters `e` without the count of schedule
/// attempts.
pub open spec fn retried_extra(e: ExtraV, new: ExtraV) -> bool {
    match (e, new) {
        (ExtraV::Object(m), ExtraV::Object(n)) => forall|k: Seq<char>|
            #[trigger] crate::json::lookup(n, k) == if k == "schedule_attempts"@ {
                None
            } else {
                crate::json::lookup(m, k)
            },
        (ExtraV::Other(v), ExtraV::Other(w)) => v == w,
        _ => false,
    }
}

/// The job that retries a stored job: a new pending job with the same
/// name, type, format, urls and generic-extractor flag.
pub fn retry_job(row: &crate::rows::JobRow) -> (j: Job)
    requires
        row.wf(),
    ensures
        j.wf(),
        j@.id == -1,
        j@.name == row@.name,
        j@.status == JobStatus::Pending,
        j@.log == Seq::<char>::empty(),
        j@.format == row@.format,
        j@.job_type == row@.job_type,
        j@.urls == row@.urls,
        j@.pid == 0,
        j@.force_generic_extractor == row@.force_generic_extractor,
        j@.scheduled_at is None,
        retried_extra(row@.extra_params, j@.extra_params),
{
    let extra = match &row.extra_params {
        Extra::Object(m) => {
            let mut c = m.deep_clone_map();
            c.remove("schedule_attempts");
            Extra::Object(c)
        },
        Extra::Other(v) => Extra::Other(crate::json::DeepClone::deep_clone(v)),
    };
    let mut job = Job::new(
        row.name.clone(),
        row.job_type,
        crate::jobs::clone_opt(&row.format),
        clone_strings(&row.urls),
    );
    job.force_generic_extractor = row.force_generic_extractor;
    job.extra_params = extra;
    job
}

/// The last event of a finished job.
pub struct DoneEvent {
    pub success: bool,
    pub old_version: Option<JsonValue>,
    pub new_version: Option<JsonValue>,
    pub message: String,
}

/// Whether a job has finished: completed, failed or aborted.
pub open spec fn finished(s: JobStatus) -> bool {
    s == JobStatus::Completed || s == JobStatus::Failed || s == JobStatus::Aborted
}

/// The message of a finished job: its `message` parameter when that is a
/// string, else `Done` or `Failed`.
pub open spec fn done_message(e: ExtraV, success: bool) -> Seq<char> {
    match crate::json::extra_get(e, "message"@) {
        Some(JsonV::Str(m)) => m,
        _ => if success {
            "Done"@
        } else {
            "Failed"@
        },
    }
}

/// The last event of a stored job, once it has finished: whether it
/// completed, the versions an update reports, and its message.
pub fn done_event(row: &crate::rows::JobRow) -> (r: Option<DoneEvent>)
    requires
        row.wf(),
    ensures
        match r {
            Some(ev) => {
                &&& finished(row@.status)
                &&& ev.success == (row@.status == JobStatus::Completed)
                &&& json_opt(ev.old_version) == crate::json::extra_get(row@.extra_params, "old_version"@)
                &&& json_opt(ev.new_version) == crate::json::extra_get(row@.extra_params, "new_version"@)
                &&& ev.message@ == done_message(row@.extra_params, ev.success)
            },
            None => !finished(row@.status),
        },
{
    match row.status {
        JobStatus::Completed | JobStatus::Failed | JobStatus::Aborted => {},
        _ => {
            return None;
        },
    }
    let success = row.status == JobStatus::Completed;
    let message = match row.extra_params.get("message") {
        Some(JsonValue::Str(m)) => m.clone(),
        _ => if success {
            owned("Done")
        } else {
            owned("Failed")
        },
    };
    let old_version = match row.extra_params.get("old_version") {
        Some(v) => Some(crate::json::DeepClone::deep_clone(v)),
        None => None,
    };
    let new_version = match row.extra_params.get("new_version") {
        Some(v) => Some(crate::json::DeepClone::deep_clone(v)),
        None => None,
    };
    Some(DoneEvent { success, old_version, new_version, message })
}

/// The job that updates yt-dlp on `channel`.
pub fn update_job(channel: &str) -> (j: Job)
    ensures
        j.wf(),
        j@.id == -1,
        j@.name == "Update yt-dlp ("@ + channel@ + ")"@,
        j@.status == JobStatus::Pending,
        j@.log == Seq::<char>::empty(),
        j@.format is None,
        j@.job_type == JobType::YtdlpUpdate,
        j@.urls == Seq::<Seq<char>>::empty(),
        j@.pid == 0,
        !j@.force_generic_extractor,
        j@.scheduled_at is None,
        j@.extra_params matches ExtraV::Object(m) && forall|k: Seq<char>|
            #[trigger] crate::json::lookup(m, k) == if k == "channel"@ {
                Some(JsonV::Str(channel@))
            } else {
                None::<JsonV>
            },
{
    let mut name = concat("Update yt-dlp (", channel);
    name.append(")");
    let mut params: crate::json::KeyMap<JsonValue> = crate::json::KeyMap::new();
    params.insert(owned("channel"), JsonValue::Str(owned(channel)));
    let urls: Vec<String> = Vec::new();
    proof {
        assert(views(urls@) =~= Seq::<Seq<char>>::empty());
    }
    let mut job = Job::new(name, JobType::YtdlpUpdate, None, urls);
    job.extra_params = Extra::Object(params);
    job
}

/// The version a finished update installed: the `new_version` string of a
/// completed job.
pub fn installed_version(job: &Job) -> (r: Option<String>)
    requires
        job.wf(),
    ensures
        opt_view(r) == if job@.status == JobStatus::Completed {
            match crate::json::extra_get(job@.extra_params, "new_version"@) {
                Some(JsonV::Str(v)) => Some(v),
                _ => None,
            }
        } else {
            None
        },
{
    if job.status != JobStatus::Completed {
        return None;
    }
    match job.extra_params.get("new_version") {
        Some(JsonValue::Str(v)) => Some(v.clone()),
        _ => None,
    }
}

} // verus!

verus! {

/// A download request always asks for some format: the default one when
/// it names none.
pub proof fn law_queue_format_nonempty(
    format: Option<Seq<char>>,
    profile: Option<Seq<char>>,
    aliases: Seq<Seq<char>>,
    audio: Option<Seq<char>>,
    default: Seq<char>,
)
    requires
        default.len() > 0,
    ensures
        queue_format_spec(format, profile, aliases, audio, default).len() > 0,
{
}

/// Retrying a job never carries its count of schedule attempts over, so a
/// retried upcoming event gets all its attempts again.
pub proof fn law_retry_resets_attempts(e: ExtraV, new: ExtraV)
    requires
        retried_extra(e, new),
        e is Object,
    ensures
        crate::json::extra_get(new, "schedule_attempts"@) is None,
        crate::queue::next_attempt(new) == 1,
{
}

} // verus!
