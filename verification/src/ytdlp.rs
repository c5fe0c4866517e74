//! Building yt-dlp command lines: format strings, option merging and
//! argument rendering.
use vstd::prelude::*;
use crate::config::{lemma_lookup_some, AppConfig};
use crate::json::{json_str, lookup, JsonV, JsonValue, KeyMap};
use crate::jobs::format_cmd_spec;
use crate::jobs::format_cmd;
use crate::text::{
    concat, decimal, has_prefix, int_text, i64_text, owned, split, split_char, starts_with, text_eq,
    u64_text, views,
};
use vstd::string::StringExecFns;

verus! {

/// `value` with `prefix/` in front, unless it already starts so.
pub open spec fn prefix_format_spec(prefix: Seq<char>, value: Seq<char>) -> Seq<char> {
    if starts_with(value, prefix + seq!['/']) {
        value
    } else {
        prefix + seq!['/'] + value
    }
}

/// Puts `prefix/` in front of `value` unless it is already there.
pub fn prefix_format(prefix: &str, value: &str) -> (r: String)
    ensures
        r@ == prefix_format_spec(prefix@, value@),
{
    let mut start = owned(prefix);
    crate::text::push_char(&mut start, '/');
    assert(start@ =~= prefix@ + seq!['/']);
    if has_prefix(value, start.as_str()) {
        owned(value)
    } else {
        start.append(value);
        start
    }
}

/// Putting the prefix twice changes nothing.
pub proof fn law_prefix_format_idempotent(prefix: Seq<char>, value: Seq<char>)
    ensures
        prefix_format_spec(prefix, prefix_format_spec(prefix, value)) == prefix_format_spec(
            prefix,
            value,
        ),
{
    let p = prefix + seq!['/'];
    if !starts_with(value, p) {
        let v2 = p + value;
        assert(v2.take(p.len() as int) =~= p);
    }
}

/// The text of a number or other non-string value as JSON writes it.
pub open spec fn json_text(v: JsonV) -> Seq<char> {
    match v {
        JsonV::PosInt(n) => decimal(n as nat),
        JsonV::NegInt(n) => int_text(n as int),
        JsonV::Float(t) => t,
        JsonV::Array(_, t) => t,
        JsonV::Object(t) => t,
        JsonV::Str(s) => s,
        JsonV::Null => seq!['n', 'u', 'l', 'l'],
        JsonV::Bool(b) => if b { seq!['t', 'r', 'u', 'e'] } else { seq!['f', 'a', 'l', 's', 'e'] },
    }
}

/// The argument an option value gives: none for `false`, an empty one for
/// `true` and `null`, otherwise the value's text.
pub open spec fn value_to_opt_spec(v: JsonV) -> Option<Seq<char>> {
    match v {
        JsonV::Bool(b) => if b { Some(Seq::empty()) } else { None },
        JsonV::Null => Some(Seq::empty()),
        _ => Some(json_text(v)),
    }
}

/// The argument an option value gives (see `value_to_opt_spec`).
pub fn value_to_opt(v: &JsonValue) -> (r: Option<String>)
    ensures
        match r {
            Some(s) => value_to_opt_spec(v@) == Some(s@),
            None => value_to_opt_spec(v@) is None,
        },
{
    match v {
        JsonValue::Bool(false) => None,
        JsonValue::Bool(true) => Some(String::new()),
        JsonValue::Null => Some(String::new()),
        JsonValue::PosInt(n) => Some(u64_text(*n)),
        JsonValue::NegInt(n) => Some(i64_text(*n)),
        JsonValue::Float(t) => Some(t.clone()),
        JsonValue::Str(s) => Some(s.clone()),
        JsonValue::Array(_, t) => Some(t.clone()),
        JsonValue::Object(t) => Some(t.clone()),
    }
}

/// The command-line arguments of options, in key order: `--key` for every
/// option that is not `false`, followed by the value's text when that is
/// not empty.
pub open spec fn opts_to_args_spec(opts: Seq<(Seq<char>, JsonV)>) -> Seq<Seq<char>>
    decreases opts.len(),
{
    if opts.len() == 0 {
        Seq::empty()
    } else {
        let r = opts_to_args_spec(opts.drop_last());
        let (k, v) = opts.last();
        if v == JsonV::Bool(false) {
            r
        } else {
            let r1 = r.push(seq!['-', '-'] + k);
            match value_to_opt_spec(v) {
                Some(s) => if s.len() > 0 { r1.push(s) } else { r1 },
                None => r1,
            }
        }
    }
}

/// The command-line arguments of options (see `opts_to_args_spec`).
pub fn opts_to_args(opts: &KeyMap<JsonValue>) -> (r: Vec<String>)
    ensures
        views(r@) == opts_to_args_spec(opts@),
{
    let mut args: Vec<String> = Vec::new();
    let mut i: usize = 0;
    while i < opts.entries.len()
        invariant
            i <= opts.entries.len(),
            opts@.len() == opts.entries.len(),
            views(args@) == opts_to_args_spec(opts@.take(i as int)),
        decreases opts.entries.len() - i,
    {
        proof {
            assert(opts@.take(i + 1).drop_last() =~= opts@.take(i as int));
            assert(opts@[i as int] == (opts.entries@[i as int].0@, opts.entries@[i as int].1@));
        }
        let key = &opts.entries[i].0;
        let val = &opts.entries[i].1;
        let is_false = match val {
            JsonValue::Bool(b) => !*b,
            _ => false,
        };
        if !is_false {
            let mut flag = String::new();
            crate::text::push_char(&mut flag, '-');
            crate::text::push_char(&mut flag, '-');
            flag.append(key.as_str());
            let ghost before0 = args@;
            let ghost fv = flag@;
            args.push(flag);
            proof {
                crate::text::lemma_views_push(before0, flag);
                assert(fv =~= seq!['-', '-'] + key@);
                assert(views(args@) =~= opts_to_args_spec(opts@.take(i as int)).push(
                    seq!['-', '-'] + key@,
                ));
            }
            match value_to_opt(val) {
                Some(s) => {
                    if !s.as_str().is_empty() {
                        let ghost before = args@;
                        let ghost sv = s@;
                        args.push(s);
                        proof {
                            crate::text::lemma_views_push(before, s);
                        }
                    }
                },
                None => {},
            }
        }
        i = i + 1;
    }
    proof {
        assert(opts@.take(opts.entries.len() as int) =~= opts@);
    }
    args
}

// ---------------------------------------------------------------------------
// Format strings
// ---------------------------------------------------------------------------

/// The parts of a requested format string.
pub struct FormatRequest {
    pub format: Option<String>,
    pub audio: Option<String>,
    pub profile: Option<String>,
    pub aliases: Vec<String>,
}

/// The mathematical value of a format request.
pub struct FormatRequestV {
    pub format: Option<Seq<char>>,
    pub audio: Option<Seq<char>>,
    pub profile: Option<Seq<char>>,
    pub aliases: Seq<Seq<char>>,
}

impl View for FormatRequest {
    type V = FormatRequestV;

    open spec fn view(&self) -> FormatRequestV {
        FormatRequestV {
            format: crate::jobs::opt_view(self.format),
            audio: crate::jobs::opt_view(self.audio),
            profile: crate::jobs::opt_view(self.profile),
            aliases: views(self.aliases@),
        }
    }
}

/// Sorts the comma-separated parts of a format string, left to right: the
/// last `profile/…` part is the profile, every `alias/…` part is an alias,
/// the last `audio/…` or `bestaudio/…` part is the audio format, and the
/// last other non-empty part is the format.
pub open spec fn classify_parts(parts: Seq<Seq<char>>) -> FormatRequestV
    decreases parts.len(),
{
    if parts.len() == 0 {
        FormatRequestV { format: None, audio: None, profile: None, aliases: Seq::empty() }
    } else {
        let r = classify_parts(parts.drop_last());
        let s = parts.last();
        if s.len() == 0 {
            r
        } else if starts_with(s, "profile/"@) {
            FormatRequestV { profile: Some(s), ..r }
        } else if starts_with(s, "alias/"@) {
            FormatRequestV { aliases: r.aliases.push(s), ..r }
        } else if starts_with(s, "audio/"@) || starts_with(s, "bestaudio/"@) {
            FormatRequestV { audio: Some(s), ..r }
        } else {
            FormatRequestV { format: Some(s), ..r }
        }
    }
}

/// The parts of a format string (see `classify_parts`).
pub open spec fn split_format_spec(format_string: Seq<char>) -> FormatRequestV {
    classify_parts(split(format_string, ','))
}

/// Splits a format string into format, audio format, profile and aliases.
pub fn split_format(format_string: &str) -> (r: FormatRequest)
    ensures
        r@ == split_format_spec(format_string@),
{
    let parts = split_char(format_string, ',');
    let ghost ps = split(format_string@, ',');
    let mut r = FormatRequest { format: None, audio: None, profile: None, aliases: Vec::new() };
    let mut i: usize = 0;
    proof {
        assert(ps.take(0) =~= Seq::<Seq<char>>::empty());
        assert(r@.aliases =~= Seq::<Seq<char>>::empty());
        assert(r@ == classify_parts(ps.take(0)));
    }
    while i < parts.len()
        invariant
            views(parts@) == ps,
            i <= parts.len(),
            r@ == classify_parts(ps.take(i as int)),
        decreases parts.len() - i,
    {
        proof {
            assert(ps.take(i + 1).drop_last() =~= ps.take(i as int));
            reveal_strlit("profile/");
            reveal_strlit("alias/");
            reveal_strlit("audio/");
            reveal_strlit("bestaudio/");
        }
        let s = parts[i].as_str();
        if s.is_empty() {
        } else if has_prefix(s, "profile/") {
            r.profile = Some(owned(s));
        } else if has_prefix(s, "alias/") {
            let ghost before = r@;
            r.aliases.push(owned(s));
            proof {
                assert(r@.aliases =~= before.aliases.push(s@));
            }
        } else if has_prefix(s, "audio/") || has_prefix(s, "bestaudio/") {
            r.audio = Some(owned(s));
        } else {
            r.format = Some(owned(s));
        }
        proof {
            assert(r@ =~= classify_parts(ps.take(i + 1)));
        }
        i = i + 1;
    }
    proof {
        assert(ps.take(parts.len() as int) =~= ps);
    }
    r
}

/// What follows the last `/` (all of `s` when there is none): `rsplit('/')`'s
/// first item.
pub open spec fn last_segment(s: Seq<char>) -> Seq<char> {
    split(s, '/').last()
}

fn last_segment_of(s: &str) -> (r: String)
    ensures
        r@ == last_segment(s@),
{
    let parts = split_char(s, '/');
    let n = parts.len();
    parts[n - 1].clone()
}

// ---------------------------------------------------------------------------
// Option merging
// ---------------------------------------------------------------------------

/// What follows the first `/` of `s`, if there is one.
pub open spec fn slash_tail(s: Seq<char>) -> Option<Seq<char>>
    decreases s.len(),
{
    if s.len() == 0 {
        None
    } else if s[0] == '/' {
        Some(s.drop_first())
    } else {
        slash_tail(s.drop_first())
    }
}

/// The name in a `kind/name` part (`splitn(2, '/').nth(1)`, or the whole
/// part when it has no `/`).
pub open spec fn name_of(s: Seq<char>) -> Seq<char> {
    match slash_tail(s) {
        Some(t) => t,
        None => s,
    }
}

/// The name in a `kind/name` part (see `name_of`).
pub fn name_part(s: &str) -> (r: String)
    ensures
        r@ == name_of(s@),
{
    let v = crate::text::chars_of(s);
    let mut i: usize = 0;
    assert(s@.skip(0) =~= s@);
    while i < v.len() && v[i] != '/'
        invariant
            v@ == s@,
            i <= v.len(),
            slash_tail(s@) == slash_tail(s@.skip(i as int)),
        decreases v.len() - i,
    {
        proof {
            assert(s@.skip(i as int).drop_first() =~= s@.skip(i + 1));
        }
        i = i + 1;
    }
    if i == v.len() {
        proof {
            assert(s@.skip(i as int).len() == 0);
        }
        owned(s)
    } else {
        proof {
            assert(s@.skip(i as int)[0] == '/');
            assert(s@.skip(i as int).drop_first() =~= s@.subrange(i + 1, v.len() as int));
        }
        crate::text::string_of_range(&v, i + 1, v.len())
    }
}

/// The options of the alias named by `alias/<name>` part `a`.
pub open spec fn alias_options(cfg: crate::config::AliasesV, a: Seq<char>) -> Option<Seq<(Seq<char>, JsonV)>> {
    match lookup(cfg, name_of(a)) {
        Some(al) => Some(al.ydl_options),
        None => None,
    }
}

/// The value the alias options give `k`: the last of the requested aliases
/// that sets it.
pub open spec fn alias_value(cfg: crate::config::AliasesV, names: Seq<Seq<char>>, k: Seq<char>) -> Option<JsonV>
    decreases names.len(),
{
    if names.len() == 0 {
        None
    } else {
        match alias_options(cfg, names.last()) {
            Some(o) => match lookup(o, k) {
                Some(v) => Some(v),
                None => alias_value(cfg, names.drop_last(), k),
            },
            None => alias_value(cfg, names.drop_last(), k),
        }
    }
}

/// The requested format after the aliases: while none is set, each alias in
/// turn offers the `format` string of the alias options gathered so far.
pub open spec fn format_after_aliases(
    cfg: crate::config::AliasesV,
    names: Seq<Seq<char>>,
    f0: Option<Seq<char>>,
) -> Option<Seq<char>>
    decreases names.len(),
{
    if names.len() == 0 {
        f0
    } else {
        let r = format_after_aliases(cfg, names.drop_last(), f0);
        if r is Some {
            r
        } else {
            match alias_value(cfg, names, "format"@) {
                Some(v) => json_str(v),
                None => None,
            }
        }
    }
}

/// Every requested alias exists.
pub open spec fn aliases_known(cfg: crate::config::AliasesV, names: Seq<Seq<char>>) -> bool {
    forall|i: int| 0 <= i < names.len() ==> #[trigger] alias_options(cfg, names[i]) is Some
}

/// The first requested alias that does not exist.
pub open spec fn first_unknown_alias(cfg: crate::config::AliasesV, names: Seq<Seq<char>>) -> Seq<char>
    decreases names.len(),
{
    if names.len() == 0 {
        Seq::empty()
    } else if aliases_known(cfg, names.drop_last()) {
        names.last()
    } else {
        first_unknown_alias(cfg, names.drop_last())
    }
}

/// The options of the requested profile (none when there is no profile).
pub open spec fn profile_options(cfg: crate::config::ProfilesV, p: Option<Seq<char>>) -> Seq<(Seq<char>, JsonV)> {
    match p {
        Some(name) => match lookup(cfg, name_of(name)) {
            Some(pr) => pr.ydl_options,
            None => Seq::empty(),
        },
        None => Seq::empty(),
    }
}

/// The requested format once the profile and the aliases had their say.
pub open spec fn requested_format(
    profiles: crate::config::ProfilesV,
    aliases: crate::config::AliasesV,
    req: FormatRequestV,
) -> Option<Seq<char>> {
    let f1 = if req.format is Some {
        req.format
    } else {
        match lookup(profile_options(profiles, req.profile), "format"@) {
            Some(v) => json_str(v),
            None => None,
        }
    };
    format_after_aliases(aliases, req.aliases, f1)
}

/// The `format` option a requested format turns into: `video/best` becomes
/// `bestvideo`, other `video/…` formats lose their prefix, and the audio
/// part (the requested audio codec, or `bestaudio/best`) is joined with
/// `+`.
pub open spec fn final_format(fmt: Seq<char>, audio: Option<Seq<char>>) -> Seq<char> {
    let f1 = if fmt == "video/best"@ { "video/bestvideo"@ } else { fmt };
    let f2 = if starts_with(f1, "video/"@) && f1 != "video/best"@ { last_segment(f1) } else { f1 };
    match audio {
        Some(a) => f2 + seq!['+'] + last_segment(a),
        None => f2 + "+bestaudio/best"@,
    }
}

/// The merged yt-dlp options for a format string: the configured options,
/// then the format and audio settings, then the profile's options, then the
/// aliases' options (later ones win), where profile and alias options never
/// override `format`.
pub open spec fn merged_value(cfg: AppConfig, req: FormatRequestV, k: Seq<char>) -> Option<JsonV> {
    let fmt = requested_format(cfg.profiles@, cfg.aliases@, req);
    let av = alias_value(cfg.aliases@, req.aliases, k);
    let pv = lookup(profile_options(cfg.profiles@, req.profile), k);
    if k != "format"@ && av is Some {
        av
    } else if k != "format"@ && pv is Some {
        pv
    } else if k == "format"@ && fmt is Some {
        Some(JsonV::Str(final_format(fmt->0, req.audio)))
    } else if k == "format"@ && req.audio is None {
        Some(JsonV::Str("video/best"@))
    } else if k == "extract-audio"@ && req.audio is Some && fmt is None {
        Some(JsonV::Null)
    } else if k == "audio-format"@ && req.audio is Some && fmt is None {
        Some(JsonV::Str(last_segment(req.audio->0)))
    } else {
        lookup(cfg.ydl_options@, k)
    }
}

/// Why `merge_ydl_options` refuses a format string, if it does: an unknown
/// profile first, then the first unknown alias.
pub open spec fn merge_error(cfg: AppConfig, req: FormatRequestV) -> Option<Seq<char>> {
    let unknown_profile = match req.profile {
        Some(p) => lookup(cfg.profiles@, name_of(p)) is None,
        None => false,
    };
    if unknown_profile {
        Some("Unknown profile "@ + req.profile->0)
    } else if aliases_known(cfg.aliases@, req.aliases) {
        None
    } else {
        Some("Unknown alias "@ + first_unknown_alias(cfg.aliases@, req.aliases))
    }
}

} // verus!

verus! {

/// The `format` option for a requested format (see `final_format`).
fn final_format_of(fmt: &str, audio: &Option<String>) -> (r: String)
    ensures
        r@ == final_format(fmt@, crate::jobs::opt_view(*audio)),
{
    proof {
        reveal_strlit("video/best");
        reveal_strlit("video/bestvideo");
        reveal_strlit("video/");
        reveal_strlit("+bestaudio/best");
    }
    let f1: String = if text_eq(fmt, "video/best") {
        owned("video/bestvideo")
    } else {
        owned(fmt)
    };
    let f2: String = if has_prefix(f1.as_str(), "video/") && !text_eq(f1.as_str(), "video/best") {
        last_segment_of(f1.as_str())
    } else {
        f1
    };
    match audio {
        Some(a) => {
            let mut r = f2;
            crate::text::push_char(&mut r, '+');
            let t = last_segment_of(a.as_str());
            r.append(t.as_str());
            r
        },
        None => concat(f2.as_str(), "+bestaudio/best"),
    }
}

/// The string of an optional JSON value, when it is one.
fn opt_str(v: Option<&JsonValue>) -> (r: Option<String>)
    ensures
        crate::jobs::opt_view(r) == match v {
            Some(x) => json_str(x@),
            None => None,
        },
{
    match v {
        Some(x) => match x.as_str() {
            Some(s) => Some(s.clone()),
            None => None,
        },
        None => None,
    }
}

proof fn lemma_first_unknown(cfg: crate::config::AliasesV, names: Seq<Seq<char>>, j: int)
    requires
        0 <= j < names.len(),
        aliases_known(cfg, names.take(j)),
        alias_options(cfg, names[j]) is None,
    ensures
        !aliases_known(cfg, names),
        first_unknown_alias(cfg, names) == names[j],
    decreases names.len(),
{
    if names.len() == j + 1 {
        assert(names.drop_last() =~= names.take(j));
    } else {
        assert(names.drop_last().take(j) =~= names.take(j));
        lemma_first_unknown(cfg, names.drop_last(), j);
        assert(names.drop_last()[j] == names[j]);
    }
}

/// Merges the configured options with those a format string asks for (see
/// `merged_value` and `merge_error`).
pub fn merge_ydl_options(cfg: &AppConfig, format_string: Option<&str>) -> (r: Result<KeyMap<JsonValue>, String>)
    requires
        cfg.wf(),
    ensures
        ({
            let req = split_format_spec(
                match format_string {
                    Some(s) => s@,
                    None => Seq::empty(),
                },
            );
            match r {
                Ok(m) => merge_error(*cfg, req) is None && m.wf() && forall|k: Seq<char>|
                    #[trigger] lookup(m@, k) == merged_value(*cfg, req, k),
                Err(e) => merge_error(*cfg, req) == Some(e@),
            }
        }),
{
    let fs: &str = match format_string {
        Some(s) => s,
        None => "",
    };
    proof {
        reveal_strlit("");
        reveal_strlit("format");
        reveal_strlit("extract-audio");
        reveal_strlit("audio-format");
        reveal_strlit("video/best");
        reveal_strlit("Unknown profile ");
        reveal_strlit("Unknown alias ");
    }
    let mut ydl = cfg.ydl_options.deep_clone_map();
    let req = split_format(fs);
    let ghost rq = req@;
    let mut req_format: Option<String> = crate::jobs::clone_opt(&req.format);
    let mut profile_opts: KeyMap<JsonValue> = KeyMap::new();
    match &req.profile {
        Some(p) => {
            let name = name_part(p.as_str());
            match cfg.profiles.get(name.as_str()) {
                None => {
                    return Err(concat("Unknown profile ", p.as_str()));
                },
                Some(profile) => {
                    proof {
                        lemma_lookup_some(cfg.profiles@, name@);
                    }
                    profile_opts = profile.ydl_options.deep_clone_map();
                    if req_format.is_none() {
                        req_format = opt_str(profile_opts.get("format"));
                    }
                },
            }
        },
        None => {},
    }
    proof {
        assert(profile_opts@ == profile_options(cfg.profiles@, rq.profile));
        assert(crate::jobs::opt_view(req_format) == format_after_aliases(
            cfg.aliases@,
            rq.aliases.take(0),
            crate::jobs::opt_view(req_format),
        ));
    }
    let ghost f1 = crate::jobs::opt_view(req_format);
    proof {
        assert(f1 == if rq.format is Some {
            rq.format
        } else {
            match lookup(profile_options(cfg.profiles@, rq.profile), "format"@) {
                Some(v) => json_str(v),
                None => None,
            }
        });
    }
    let mut alias_opts: KeyMap<JsonValue> = KeyMap::new();
    let mut j: usize = 0;
    while j < req.aliases.len()
        invariant
            cfg.wf(),
            rq == req@,
            rq == split_format_spec(
                match format_string {
                    Some(s) => s@,
                    None => Seq::empty(),
                },
            ),
            j <= req.aliases.len(),
            alias_opts.wf(),
            forall|k: Seq<char>| #[trigger]
                lookup(alias_opts@, k) == alias_value(cfg.aliases@, rq.aliases.take(j as int), k),
            crate::jobs::opt_view(req_format) == format_after_aliases(
                cfg.aliases@,
                rq.aliases.take(j as int),
                f1,
            ),
            aliases_known(cfg.aliases@, rq.aliases.take(j as int)),
            match rq.profile {
                Some(p) => lookup(cfg.profiles@, name_of(p)) is Some,
                None => true,
            },
            profile_opts.wf(),
            profile_opts@ == profile_options(cfg.profiles@, rq.profile),
            ydl.wf(),
            ydl@ == cfg.ydl_options@,
            f1 == if rq.format is Some {
                rq.format
            } else {
                match lookup(profile_options(cfg.profiles@, rq.profile), "format"@) {
                    Some(v) => json_str(v),
                    None => None,
                }
            },
        decreases req.aliases.len() - j,
    {
        let a = &req.aliases[j];
        let name = name_part(a.as_str());
        let ghost names = rq.aliases.take(j + 1);
        proof {
            assert(names.drop_last() =~= rq.aliases.take(j as int));
            assert(names.last() == a@);
        }
        match cfg.aliases.get(name.as_str()) {
            None => {
                proof {
                    assert(rq.aliases[j as int] == a@);
                    lemma_first_unknown(cfg.aliases@, rq.aliases, j as int);
                }
                let e = concat("Unknown alias ", a.as_str());
                return Err(e);
            },
            Some(alias) => {
                proof {
                    lemma_lookup_some(cfg.aliases@, name@);
                }
                let ghost before = alias_opts@;
                alias_opts.extend(alias.ydl_options.deep_clone_map());
                proof {
                    assert forall|k: Seq<char>| #[trigger]
                        lookup(alias_opts@, k) == alias_value(cfg.aliases@, names, k) by {}
                }
                if req_format.is_none() {
                    req_format = opt_str(alias_opts.get("format"));
                }
                proof {
                    assert(aliases_known(cfg.aliases@, names)) by {
                        assert forall|i: int| 0 <= i < names.len() implies #[trigger] alias_options(
                            cfg.aliases@,
                            names[i],
                        ) is Some by {
                            if i < j {
                                assert(names[i] == rq.aliases.take(j as int)[i]);
                            }
                        }
                    }
                }
            },
        }
        j = j + 1;
    }
    proof {
        assert(rq.aliases.take(req.aliases.len() as int) =~= rq.aliases);
    }
    if req.audio.is_some() && req_format.is_none() {
        ydl.insert(owned("extract-audio"), JsonValue::Null);
        let a = match &req.audio {
            Some(a) => a,
            None => {
                proof {
                    assert(false);
                }
                return Err(String::new());
            },
        };
        ydl.insert(owned("audio-format"), JsonValue::Str(last_segment_of(a.as_str())));
    }
    match &req_format {
        Some(fmt) => {
            let f = final_format_of(fmt.as_str(), &req.audio);
            ydl.insert(owned("format"), JsonValue::Str(f));
        },
        None => {
            if req.audio.is_none() {
                ydl.insert(owned("format"), JsonValue::Str(owned("video/best")));
            }
        },
    }
    let ghost y2 = ydl@;
    proof {
        assert(crate::jobs::opt_view(req_format) == requested_format(cfg.profiles@, cfg.aliases@, rq));
        let fmt = requested_format(cfg.profiles@, cfg.aliases@, rq);
        assert forall|k: Seq<char>| #[trigger] lookup(y2, k) == (
        if k == "format"@ && fmt is Some {
            Some(JsonV::Str(final_format(fmt->0, rq.audio)))
        } else if k == "format"@ && rq.audio is None {
            Some(JsonV::Str("video/best"@))
        } else if k == "extract-audio"@ && rq.audio is Some && fmt is None {
            Some(JsonV::Null)
        } else if k == "audio-format"@ && rq.audio is Some && fmt is None {
            Some(JsonV::Str(last_segment(rq.audio->0)))
        } else {
            lookup(cfg.ydl_options@, k)
        }) by {}
    }
    let ghost p0 = profile_opts@;
    let ghost a0 = alias_opts@;
    profile_opts.remove("format");
    alias_opts.remove("format");
    let ghost p1 = profile_opts@;
    let ghost a1 = alias_opts@;
    ydl.extend(profile_opts);
    let ghost y3 = ydl@;
    ydl.extend(alias_opts);
    proof {
        assert(merge_error(*cfg, rq) is None);
        assert forall|k: Seq<char>| #[trigger] lookup(ydl@, k) == merged_value(*cfg, rq, k) by {
            assert(lookup(ydl@, k) == match lookup(a1, k) {
                Some(v) => Some(v),
                None => lookup(y3, k),
            });
            assert(lookup(y3, k) == match lookup(p1, k) {
                Some(v) => Some(v),
                None => lookup(y2, k),
            });
            assert(lookup(a1, k) == if k == "format"@ { None } else { lookup(a0, k) });
            assert(lookup(p1, k) == if k == "format"@ { None } else { lookup(p0, k) });
            assert(lookup(a0, k) == alias_value(cfg.aliases@, rq.aliases, k));
        }
    }
    Ok(ydl)
}

/// A yt-dlp command: the program, the options' arguments, the extra
/// arguments, `--`, then the URLs.
pub open spec fn build_cmd_spec(
    bin: Seq<char>,
    opts: Seq<(Seq<char>, JsonV)>,
    urls: Seq<Seq<char>>,
    extra: Seq<Seq<char>>,
) -> Seq<Seq<char>> {
    seq![bin] + opts_to_args_spec(opts) + extra + seq![seq!['-', '-']] + urls
}

/// Appends copies of `src` to `dst`.
pub fn append_copies(dst: &mut Vec<String>, src: &Vec<String>)
    ensures
        views(final(dst)@) == views(old(dst)@) + views(src@),
{
    let ghost d0 = views(dst@);
    let mut i: usize = 0;
    while i < src.len()
        invariant
            i <= src.len(),
            views(dst@) =~= d0 + views(src@).take(i as int),
        decreases src.len() - i,
    {
        let ghost before = dst@;
        let c = src[i].clone();
        dst.push(c);
        proof {
            crate::text::lemma_views_push(before, c);
        }
        i = i + 1;
    }
    assert(views(src@).take(src.len() as int) =~= views(src@));
}

/// Builds a yt-dlp command line (see `build_cmd_spec`).
pub fn build_cmd(bin: &str, opts: &KeyMap<JsonValue>, urls: &Vec<String>, extra: &Vec<String>) -> (r: Vec<String>)
    ensures
        views(r@) == build_cmd_spec(bin@, opts@, views(urls@), views(extra@)),
{
    let mut cmd: Vec<String> = Vec::new();
    cmd.push(owned(bin));
    let args = opts_to_args(opts);
    append_copies(&mut cmd, &args);
    append_copies(&mut cmd, extra);
    let ghost before = cmd@;
    let mut dd = String::new();
    crate::text::push_char(&mut dd, '-');
    crate::text::push_char(&mut dd, '-');
    assert(dd@ =~= seq!['-', '-']);
    cmd.push(dd);
    proof {
        crate::text::lemma_views_push(before, dd);
    }
    append_copies(&mut cmd, urls);
    proof {
        assert(views(cmd@) =~= build_cmd_spec(bin@, opts@, views(urls@), views(extra@)));
    }
    cmd
}

/// The display form of a command line.
pub fn cmd_display(cmd: &Vec<String>) -> (r: String)
    ensures
        r@ == format_cmd_spec(views(cmd@)),
{
    format_cmd(cmd)
}

} // verus!

verus! {

/// A format string that names no profile and no alias changes only the
/// `format`, `extract-audio` and `audio-format` options.
pub proof fn law_plain_format_keeps_options(cfg: AppConfig, req: FormatRequestV, k: Seq<char>)
    requires
        req.profile is None,
        req.aliases.len() == 0,
        k != "format"@,
        k != "extract-audio"@,
        k != "audio-format"@,
    ensures
        merged_value(cfg, req, k) == lookup(cfg.ydl_options@, k),
{
}

} // verus!

verus! {

/// An option that the last requested alias sets takes that alias's value
/// in the merged options, whatever the requested profile or the
/// configuration set (except `format`, which aliases only request).
pub proof fn law_alias_options_win(cfg: AppConfig, req: FormatRequestV, k: Seq<char>, v: JsonV)
    requires
        k != "format"@,
        req.aliases.len() > 0,
        lookup(cfg.aliases@, name_of(req.aliases.last())) is Some,
        lookup(lookup(cfg.aliases@, name_of(req.aliases.last()))->0.ydl_options, k) == Some(v),
    ensures
        merged_value(cfg, req, k) == Some(v),
{
}

} // verus!
