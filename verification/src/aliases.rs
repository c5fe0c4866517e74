//! Alias expansion: an alias, profile or request that `use`s aliases gets
//! their options, expanded recursively, under its own.
use vstd::prelude::*;
use crate::config::{
    Alias, AliasesV, AliasV, AppConfig, ConfigError, Profile, ProfileV, ProfilesV, aliases_wf, opt_json,
};
use crate::json::{
    as_map, has_key, lookup, lemma_extend_as_map, sorted, clone_strings, DeepClone,
    JsonV, JsonValue, KeyMap,
};
use crate::text::{concat, join, join_strings, owned, text_eq, views};

verus! {

/// The alias names a `use` value lists: one name, or the string items of
/// a list; anything else lists none.
pub open spec fn normalize_use_spec(u: Option<JsonV>) -> Seq<Seq<char>> {
    match u {
        Some(JsonV::Str(s)) => seq![s],
        Some(JsonV::Array(items, _)) => items,
        _ => Seq::empty(),
    }
}

/// How many aliases of the table are not on the expansion stack.
pub open spec fn unvisited_count(a: AliasesV, stack: Seq<Seq<char>>) -> nat
    decreases a.len(),
{
    if a.len() == 0 {
        0
    } else {
        unvisited_count(a.drop_last(), stack) + if stack.contains(a.last().0) {
            0nat
        } else {
            1nat
        }
    }
}

/// The message of a cycle: the stack, with the name that closes it.
pub open spec fn recursion_message(cycle: Seq<Seq<char>>) -> Seq<char> {
    "Recursive alias definition: "@ + join(cycle, " -> "@)
}

/// The message of a name that no alias has.
pub open spec fn unknown_alias_message(name: Seq<char>) -> Seq<char> {
    "Unknown alias '"@ + name + "'"@
}

/// The options of alias `name` with everything it uses expanded, while the
/// aliases on `stack` are being expanded; or the error that stops it.
pub open spec fn expand_alias_spec(name: Seq<char>, a: AliasesV, stack: Seq<Seq<char>>) -> Result<
    Map<Seq<char>, JsonV>,
    Seq<char>,
>
    decreases unvisited_count(a, stack), 0nat, 0nat,
{
    if stack.contains(name) {
        Err(recursion_message(stack.push(name)))
    } else {
        match lookup(a, name) {
            None => Err(unknown_alias_message(name)),
            Some(al) => {
                proof {
                    lemma_unvisited_push(a, stack, name);
                }
                match expand_names_spec(normalize_use_spec(al.use_list), a, stack.push(name)) {
                    Ok(m) => Ok(m.union_prefer_right(as_map(al.ydl_options))),
                    Err(e) => Err(e),
                }
            },
        }
    }
}

/// The options of the aliases `names`, expanded in turn, later ones taking
/// precedence; or the first error.
pub open spec fn expand_names_spec(names: Seq<Seq<char>>, a: AliasesV, stack: Seq<Seq<char>>) -> Result<
    Map<Seq<char>, JsonV>,
    Seq<char>,
>
    decreases unvisited_count(a, stack), 1nat, names.len(),
{
    if names.len() == 0 {
        Ok(Map::empty())
    } else {
        match expand_names_spec(names.drop_last(), a, stack) {
            Err(e) => Err(e),
            Ok(m) => match expand_alias_spec(names.last(), a, stack) {
                Err(e) => Err(e),
                Ok(o) => Ok(m.union_prefer_right(o)),
            },
        }
    }
}

/// Pushing a name never adds unvisited aliases, and pushing one that is an
/// unvisited alias removes it.
pub proof fn lemma_unvisited_push(a: AliasesV, stack: Seq<Seq<char>>, n: Seq<char>)
    ensures
        unvisited_count(a, stack.push(n)) <= unvisited_count(a, stack),
        has_key(a, n) && !stack.contains(n) ==> unvisited_count(a, stack.push(n)) < unvisited_count(
            a,
            stack,
        ),
    decreases a.len(),
{
    if a.len() > 0 {
        let l = a.last().0;
        lemma_unvisited_push(a.drop_last(), stack, n);
        if stack.contains(l) {
            let w = choose|i: int| 0 <= i < stack.len() && stack[i] == l;
            assert(stack.push(n)[w] == l);
        }
        if l == n {
            assert(stack.push(n)[stack.len() as int] == n);
        }
        if stack.push(n).contains(l) && l != n {
            let w = choose|i: int| 0 <= i < stack.push(n).len() && stack.push(n)[i] == l;
            assert(stack[w] == l);
        }
        if has_key(a, n) && l != n {
            let w = choose|i: int| 0 <= i < a.len() && #[trigger] a[i].0 == n;
            assert(a.drop_last()[w].0 == n);
        }
    }
}

/// The result of an expansion, as the library returns it.
pub open spec fn options_result(
    r: Result<KeyMap<JsonValue>, ConfigError>,
    s: Result<Map<Seq<char>, JsonV>, Seq<char>>,
) -> bool {
    match (r, s) {
        (Ok(m), Ok(o)) => m.wf() && as_map(m@) == o,
        (Err(ConfigError::Message(e)), Err(msg)) => e@ == msg,
        _ => false,
    }
}

/// A failure in the first `j` names is the failure of all of them.
proof fn lemma_names_error_prefix(names: Seq<Seq<char>>, j: int, a: AliasesV, stack: Seq<Seq<char>>)
    requires
        0 <= j <= names.len(),
        expand_names_spec(names.take(j), a, stack) is Err,
    ensures
        expand_names_spec(names, a, stack) == expand_names_spec(names.take(j), a, stack),
    decreases names.len() - j,
{
    if j == names.len() {
        assert(names.take(j) =~= names);
    } else {
        assert(names.take(j + 1).drop_last() =~= names.take(j));
        lemma_names_error_prefix(names, j + 1, a, stack);
    }
}

/// The alias names that a `use` value lists.
pub fn normalize_use(use_val: &Option<JsonValue>) -> (r: Vec<String>)
    ensures
        views(r@) == normalize_use_spec(opt_json(*use_val)),
{
    match use_val {
        Some(JsonValue::Str(s)) => {
            let r = vec![s.clone()];
            assert(views(r@) =~= seq![s@]);
            r
        },
        Some(JsonValue::Array(items, _)) => clone_strings(items),
        _ => {
            let r: Vec<String> = Vec::new();
            assert(views(r@) =~= Seq::<Seq<char>>::empty());
            r
        },
    }
}

/// Whether `name` is on the stack.
fn on_stack(stack: &Vec<String>, name: &str) -> (r: bool)
    ensures
        r == views(stack@).contains(name@),
{
    let mut i: usize = 0;
    while i < stack.len()
        invariant
            i <= stack.len(),
            forall|j: int| 0 <= j < i ==> views(stack@)[j] != name@,
        decreases stack.len() - i,
    {
        if text_eq(stack[i].as_str(), name) {
            assert(views(stack@)[i as int] == name@);
            return true;
        }
        i = i + 1;
    }
    proof {
        if views(stack@).contains(name@) {
            let w = choose|j: int| 0 <= j < views(stack@).len() && views(stack@)[j] == name@;
            assert(views(stack@)[w] != name@);
        }
    }
    false
}

/// Expands alias `name` while the aliases on `stack` are being expanded:
/// the options of the aliases it uses, in order, then its own on top.
pub fn expand_alias(name: &str, aliases: &KeyMap<Alias>, stack: &mut Vec<String>) -> (r: Result<
    KeyMap<JsonValue>,
    ConfigError,
>)
    requires
        aliases_wf(aliases@),
    ensures
        options_result(r, expand_alias_spec(name@, aliases@, views(old(stack)@))),
        r is Ok ==> views(final(stack)@) == views(old(stack)@),
    decreases unvisited_count(aliases@, views(old(stack)@)), 0nat, 0nat,
{
    let ghost st0 = views(stack@);
    if on_stack(stack, name) {
        stack.push(owned(name));
        proof {
            assert(views(stack@) =~= st0.push(name@));
        }
        let chain = join_strings(stack, " -> ");
        let msg = concat("Recursive alias definition: ", chain.as_str());
        return Err(ConfigError::Message(msg));
    }
    let alias = match aliases.get(name) {
        Some(a) => a,
        None => {
            let msg = concat("Unknown alias '", name);
            let tail = concat(msg.as_str(), "'");
            return Err(ConfigError::Message(tail));
        },
    };
    proof {
        lemma_unvisited_push(aliases@, st0, name@);
        crate::config::lemma_lookup_some(aliases@, name@);
    }
    stack.push(owned(name));
    proof {
        assert(views(stack@) =~= st0.push(name@));
    }
    let mut options = match expand_uses(&alias.use_list, aliases, stack) {
        Ok(o) => o,
        Err(e) => {
            return Err(e);
        },
    };
    let own = alias.ydl_options.deep_clone_map();
    let ghost before = options@;
    options.extend(own);
    proof {
        lemma_extend_as_map(before, alias.ydl_options@, options@);
    }
    let ghost s1 = stack@;
    stack.pop();
    proof {
        assert(views(s1) == st0.push(name@));
        assert(views(stack@) =~= views(s1).drop_last());
        assert(views(stack@) =~= st0);
    }
    Ok(options)
}

/// Expands the aliases that a `use` value lists, in order, later ones
/// taking precedence.
pub fn expand_uses(use_val: &Option<JsonValue>, aliases: &KeyMap<Alias>, stack: &mut Vec<String>) -> (r:
    Result<KeyMap<JsonValue>, ConfigError>)
    requires
        aliases_wf(aliases@),
    ensures
        options_result(
            r,
            expand_names_spec(normalize_use_spec(opt_json(*use_val)), aliases@, views(old(stack)@)),
        ),
        r is Ok ==> views(final(stack)@) == views(old(stack)@),
    decreases unvisited_count(aliases@, views(old(stack)@)), 1nat, 0nat,
{
    let ghost st0 = views(stack@);
    let names = normalize_use(use_val);
    let ghost ns = views(names@);
    let mut options: KeyMap<JsonValue> = KeyMap::new();
    proof {
        assert(ns.take(0) =~= Seq::<Seq<char>>::empty());
        assert(as_map(options@) =~= Map::<Seq<char>, JsonV>::empty());
    }
    let mut i: usize = 0;
    while i < names.len()
        invariant
            aliases_wf(aliases@),
            ns == views(names@),
            ns == normalize_use_spec(opt_json(*use_val)),
            st0 == views(old(stack)@),
            i <= names.len(),
            options.wf(),
            views(stack@) == st0,
            expand_names_spec(ns.take(i as int), aliases@, st0) == Ok::<
                Map<Seq<char>, JsonV>,
                Seq<char>,
            >(as_map(options@)),
        decreases names.len() - i,
    {
        proof {
            assert(ns.take(i + 1).drop_last() =~= ns.take(i as int));
            assert(ns.take(i + 1).last() == ns[i as int]);
            assert(ns[i as int] == names@[i as int]@);
        }
        match expand_alias(names[i].as_str(), aliases, stack) {
            Ok(o) => {
                let ghost before = options@;
                let ghost ov = o@;
                options.extend(o);
                proof {
                    lemma_extend_as_map(before, ov, options@);
                }
            },
            Err(e) => {
                proof {
                    lemma_names_error_prefix(ns, i + 1, aliases@, st0);
                }
                return Err(e);
            },
        }
        i = i + 1;
    }
    proof {
        assert(ns.take(names.len() as int) =~= ns);
    }
    Ok(options)
}

} // verus!

verus! {

/// The expanded options of each alias of `rows` in turn, with the whole
/// table `a` to draw on; or the first error.
pub open spec fn alias_table_spec(rows: AliasesV, a: AliasesV) -> Result<
    Seq<Map<Seq<char>, JsonV>>,
    Seq<char>,
>
    decreases rows.len(),
{
    if rows.len() == 0 {
        Ok(Seq::empty())
    } else {
        match alias_table_spec(rows.drop_last(), a) {
            Err(e) => Err(e),
            Ok(t) => match expand_alias_spec(rows.last().0, a, Seq::empty()) {
                Err(e) => Err(e),
                Ok(m) => Ok(t.push(m)),
            },
        }
    }
}

/// The `use` value of a profile: `use`, or else `use_`.
pub open spec fn profile_use(p: ProfileV) -> Option<JsonV> {
    match p.use_list {
        Some(v) => Some(v),
        None => p.use_,
    }
}

/// The options of each profile of `rows` in turn: the aliases it uses,
/// expanded with the table `a`, under its own options; or the first error.
pub open spec fn profile_table_spec(rows: ProfilesV, a: AliasesV) -> Result<
    Seq<Map<Seq<char>, JsonV>>,
    Seq<char>,
>
    decreases rows.len(),
{
    if rows.len() == 0 {
        Ok(Seq::empty())
    } else {
        match profile_table_spec(rows.drop_last(), a) {
            Err(e) => Err(e),
            Ok(t) => match expand_names_spec(
                normalize_use_spec(profile_use(rows.last().1)),
                a,
                Seq::empty(),
            ) {
                Err(e) => Err(e),
                Ok(m) => Ok(t.push(m.union_prefer_right(as_map(rows.last().1.ydl_options)))),
            },
        }
    }
}

/// `new` is the table `old` with each alias's options replaced by `t`'s
/// and its `use` dropped.
pub open spec fn aliases_resolved(old: AliasesV, new: AliasesV, t: Seq<Map<Seq<char>, JsonV>>) -> bool {
    &&& new.len() == old.len()
    &&& t.len() == old.len()
    &&& forall|i: int|
        0 <= i < old.len() ==> {
            &&& (#[trigger] new[i]).0 == old[i].0
            &&& new[i].1.name == old[i].1.name
            &&& new[i].1.ui == old[i].1.ui
            &&& new[i].1.use_list is None
            &&& as_map(new[i].1.ydl_options) == t[i]
        }
}

/// `new` is the table `old` with each profile's options replaced by `t`'s
/// and its `use` dropped.
pub open spec fn profiles_resolved(old: ProfilesV, new: ProfilesV, t: Seq<Map<Seq<char>, JsonV>>) -> bool {
    &&& new.len() == old.len()
    &&& t.len() == old.len()
    &&& forall|i: int|
        0 <= i < old.len() ==> {
            &&& (#[trigger] new[i]).0 == old[i].0
            &&& new[i].1.name == old[i].1.name
            &&& new[i].1.use_ is None
            &&& new[i].1.use_list is None
            &&& as_map(new[i].1.ydl_options) == t[i]
        }
}

/// `r` failed with the message `e`.
pub open spec fn failed_with(r: Result<(), ConfigError>, e: Seq<char>) -> bool {
    match r {
        Err(ConfigError::Message(m)) => m@ == e,
        _ => false,
    }
}

/// A failure among the first `j` rows is the failure of the whole table.
proof fn lemma_alias_table_error_prefix(rows: AliasesV, j: int, a: AliasesV)
    requires
        0 <= j <= rows.len(),
        alias_table_spec(rows.take(j), a) is Err,
    ensures
        alias_table_spec(rows, a) == alias_table_spec(rows.take(j), a),
    decreases rows.len() - j,
{
    if j == rows.len() {
        assert(rows.take(j) =~= rows);
    } else {
        assert(rows.take(j + 1).drop_last() =~= rows.take(j));
        lemma_alias_table_error_prefix(rows, j + 1, a);
    }
}

/// A failure among the first `j` rows is the failure of the whole table.
proof fn lemma_profile_table_error_prefix(rows: ProfilesV, j: int, a: AliasesV)
    requires
        0 <= j <= rows.len(),
        profile_table_spec(rows.take(j), a) is Err,
    ensures
        profile_table_spec(rows, a) == profile_table_spec(rows.take(j), a),
    decreases rows.len() - j,
{
    if j == rows.len() {
        assert(rows.take(j) =~= rows);
    } else {
        assert(rows.take(j + 1).drop_last() =~= rows.take(j));
        lemma_profile_table_error_prefix(rows, j + 1, a);
    }
}

fn clone_use(v: &Option<JsonValue>) -> (r: Option<JsonValue>)
    ensures
        opt_json(r) == opt_json(*v),
{
    match v {
        Some(x) => Some(x.deep_clone()),
        None => None,
    }
}

/// Expands every alias, then every profile with the expanded aliases, as
/// the configuration is loaded: each gets the options of what it uses under
/// its own, and loses its `use`.
pub fn resolve_aliases(cfg: &mut AppConfig) -> (r: Result<(), ConfigError>)
    requires
        old(cfg).wf(),
    ensures
        match alias_table_spec(old(cfg).aliases@, old(cfg).aliases@) {
            Err(e) => failed_with(r, e),
            Ok(t) => {
                &&& aliases_resolved(old(cfg).aliases@, final(cfg).aliases@, t)
                &&& match profile_table_spec(old(cfg).profiles@, final(cfg).aliases@) {
                    Err(e) => failed_with(r, e),
                    Ok(pt) => {
                        &&& r is Ok
                        &&& profiles_resolved(old(cfg).profiles@, final(cfg).profiles@, pt)
                        &&& final(cfg).wf()
                        &&& final(cfg).ydl_server == old(cfg).ydl_server
                        &&& final(cfg).ydl_options@ == old(cfg).ydl_options@
                    },
                }
            },
        },
{
    let ghost a0 = cfg.aliases@;
    let mut entries: Vec<(String, Alias)> = Vec::new();
    let ghost mut t: Seq<Map<Seq<char>, JsonV>> = Seq::empty();
    let n = cfg.aliases.entries.len();
    let mut i: usize = 0;
    while i < n
        invariant
            cfg.wf(),
            a0 == cfg.aliases@,
            n == cfg.aliases.entries.len(),
            n == a0.len(),
            i <= n,
            entries@.len() == i,
            alias_table_spec(a0.take(i as int), a0) == Ok::<Seq<Map<Seq<char>, JsonV>>, Seq<char>>(t),
            t.len() == i,
            forall|j: int|
                0 <= j < i ==> {
                    &&& (#[trigger] entries@[j]).0@ == a0[j].0
                    &&& entries@[j].1@.name == a0[j].1.name
                    &&& entries@[j].1@.ui == a0[j].1.ui
                    &&& entries@[j].1@.use_list is None
                    &&& entries@[j].1.ydl_options.wf()
                    &&& as_map(entries@[j].1@.ydl_options) == t[j]
                },
        decreases n - i,
    {
        let key = &cfg.aliases.entries[i].0;
        let alias = &cfg.aliases.entries[i].1;
        proof {
            assert(a0[i as int] == (key@, alias@));
            assert(a0.take(i + 1).drop_last() =~= a0.take(i as int));
            assert(a0.take(i + 1).last() == a0[i as int]);
        }
        let mut stack: Vec<String> = Vec::new();
        proof {
            assert(views(stack@) =~= Seq::<Seq<char>>::empty());
        }
        match expand_alias(key.as_str(), &cfg.aliases, &mut stack) {
            Ok(options) => {
                let resolved = Alias {
                    name: crate::jobs::clone_opt(&alias.name),
                    ydl_options: options,
                    use_list: None,
                    ui: alias.ui,
                };
                entries.push((key.clone(), resolved));
                proof {
                    t = t.push(as_map(entries@[i as int].1@.ydl_options));
                }
            },
            Err(e) => {
                proof {
                    lemma_alias_table_error_prefix(a0, i + 1, a0);
                }
                return Err(e);
            },
        }
        i = i + 1;
    }
    proof {
        assert(a0.take(n as int) =~= a0);
    }
    let resolved_aliases = KeyMap { entries };
    proof {
        assert forall|j: int| 0 <= j < n implies #[trigger] resolved_aliases@[j].0 == a0[j].0 by {
            assert(resolved_aliases@[j] == (entries@[j].0@, entries@[j].1@));
        }
        assert(sorted(resolved_aliases@)) by {
            assert forall|x: int, y: int| 0 <= x < y < resolved_aliases@.len() implies crate::text::seq_lt(
                #[trigger] resolved_aliases@[x].0,
                #[trigger] resolved_aliases@[y].0,
            ) by {
                assert(resolved_aliases@[x].0 == a0[x].0);
                assert(resolved_aliases@[y].0 == a0[y].0);
            }
        }
        assert forall|j: int| 0 <= j < resolved_aliases@.len() implies sorted(
            #[trigger] resolved_aliases@[j].1.ydl_options,
        ) by {
            assert(resolved_aliases@[j] == (entries@[j].0@, entries@[j].1@));
        }
        assert(aliases_resolved(a0, resolved_aliases@, t)) by {
            assert forall|j: int| 0 <= j < a0.len() implies {
                &&& (#[trigger] resolved_aliases@[j]).0 == a0[j].0
                &&& resolved_aliases@[j].1.name == a0[j].1.name
                &&& resolved_aliases@[j].1.ui == a0[j].1.ui
                &&& resolved_aliases@[j].1.use_list is None
                &&& as_map(resolved_aliases@[j].1.ydl_options) == t[j]
            } by {
                assert(resolved_aliases@[j] == (entries@[j].0@, entries@[j].1@));
            }
        }
    }
    cfg.aliases = resolved_aliases;
    resolve_profiles(cfg)
}

/// The profile stage of `resolve_aliases`, with the aliases expanded.
fn resolve_profiles(cfg: &mut AppConfig) -> (r: Result<(), ConfigError>)
    requires
        old(cfg).wf(),
    ensures
        final(cfg).aliases@ == old(cfg).aliases@,
        match profile_table_spec(old(cfg).profiles@, old(cfg).aliases@) {
            Err(e) => failed_with(r, e),
            Ok(pt) => {
                &&& r is Ok
                &&& profiles_resolved(old(cfg).profiles@, final(cfg).profiles@, pt)
                &&& final(cfg).wf()
                &&& final(cfg).ydl_server == old(cfg).ydl_server
                &&& final(cfg).ydl_options@ == old(cfg).ydl_options@
            },
        },
{
    let ghost p0 = cfg.profiles@;
    let mut entries: Vec<(String, Profile)> = Vec::new();
    let ghost mut t: Seq<Map<Seq<char>, JsonV>> = Seq::empty();
    let n = cfg.profiles.entries.len();
    let mut i: usize = 0;
    while i < n
        invariant
            cfg.wf(),
            p0 == cfg.profiles@,
            n == cfg.profiles.entries.len(),
            n == p0.len(),
            i <= n,
            entries@.len() == i,
            profile_table_spec(p0.take(i as int), cfg.aliases@) == Ok::<Seq<Map<Seq<char>, JsonV>>, Seq<char>>(t),
            t.len() == i,
            forall|j: int|
                0 <= j < i ==> {
                    &&& (#[trigger] entries@[j]).0@ == p0[j].0
                    &&& entries@[j].1@.name == p0[j].1.name
                    &&& entries@[j].1@.use_ is None
                    &&& entries@[j].1@.use_list is None
                    &&& entries@[j].1.ydl_options.wf()
                    &&& as_map(entries@[j].1@.ydl_options) == t[j]
                },
        decreases n - i,
    {
        let key = &cfg.profiles.entries[i].0;
        let profile = &cfg.profiles.entries[i].1;
        proof {
            assert(p0[i as int] == (key@, profile@));
            assert(sorted(p0[i as int].1.ydl_options));
            assert(p0.take(i + 1).drop_last() =~= p0.take(i as int));
            assert(p0.take(i + 1).last() == p0[i as int]);
        }
        let use_val = match &profile.use_list {
            Some(v) => Some(v.deep_clone()),
            None => clone_use(&profile.use_),
        };
        let mut stack: Vec<String> = Vec::new();
        proof {
            assert(views(stack@) =~= Seq::<Seq<char>>::empty());
        }
        match expand_uses(&use_val, &cfg.aliases, &mut stack) {
            Ok(mut options) => {
                let own = profile.ydl_options.deep_clone_map();
                let ghost before = options@;
                options.extend(own);
                proof {
                    lemma_extend_as_map(before, profile.ydl_options@, options@);
                }
                let resolved = Profile {
                    name: crate::jobs::clone_opt(&profile.name),
                    ydl_options: options,
                    use_: None,
                    use_list: None,
                };
                entries.push((key.clone(), resolved));
                proof {
                    t = t.push(as_map(entries@[i as int].1@.ydl_options));
                }
            },
            Err(e) => {
                proof {
                    lemma_profile_table_error_prefix(p0, i + 1, cfg.aliases@);
                }
                return Err(e);
            },
        }
        i = i + 1;
    }
    proof {
        assert(p0.take(n as int) =~= p0);
    }
    let resolved_profiles = KeyMap { entries };
    proof {
        assert forall|j: int| 0 <= j < n implies #[trigger] resolved_profiles@[j].0 == p0[j].0 by {
            assert(resolved_profiles@[j] == (entries@[j].0@, entries@[j].1@));
        }
        assert(sorted(resolved_profiles@)) by {
            assert forall|x: int, y: int| 0 <= x < y < resolved_profiles@.len() implies crate::text::seq_lt(
                #[trigger] resolved_profiles@[x].0,
                #[trigger] resolved_profiles@[y].0,
            ) by {
                assert(resolved_profiles@[x].0 == p0[x].0);
                assert(resolved_profiles@[y].0 == p0[y].0);
            }
        }
        assert forall|j: int| 0 <= j < resolved_profiles@.len() implies sorted(
            #[trigger] resolved_profiles@[j].1.ydl_options,
        ) by {
            assert(resolved_profiles@[j] == (entries@[j].0@, entries@[j].1@));
        }
        assert(profiles_resolved(p0, resolved_profiles@, t)) by {
            assert forall|j: int| 0 <= j < p0.len() implies {
                &&& (#[trigger] resolved_profiles@[j]).0 == p0[j].0
                &&& resolved_profiles@[j].1.name == p0[j].1.name
                &&& resolved_profiles@[j].1.use_ is None
                &&& resolved_profiles@[j].1.use_list is None
                &&& as_map(resolved_profiles@[j].1.ydl_options) == t[j]
            } by {
                assert(resolved_profiles@[j] == (entries@[j].0@, entries@[j].1@));
            }
        }
    }
    cfg.profiles = resolved_profiles;
    Ok(())
}

} // verus!

verus! {

/// An alias that uses itself is reported as a cycle through itself.
pub proof fn law_self_use_is_cycle(name: Seq<char>, a: AliasesV)
    requires
        lookup(a, name) is Some,
        normalize_use_spec(lookup(a, name)->0.use_list) == seq![name],
    ensures
        expand_alias_spec(name, a, Seq::empty()) == Err::<Map<Seq<char>, JsonV>, Seq<char>>(
            recursion_message(seq![name, name]),
        ),
{
    let st = seq![name];
    assert(Seq::<Seq<char>>::empty().push(name) =~= st);
    assert(!Seq::<Seq<char>>::empty().contains(name));
    assert(st[0] == name);
    assert(st.contains(name));
    assert(st.push(name) =~= seq![name, name]);
    assert(expand_alias_spec(name, a, st) == Err::<Map<Seq<char>, JsonV>, Seq<char>>(
        recursion_message(seq![name, name]),
    ));
    let names = seq![name];
    assert(names.drop_last() =~= Seq::<Seq<char>>::empty());
    assert(names.last() == name);
    assert(expand_names_spec(names.drop_last(), a, st) == Ok::<Map<Seq<char>, JsonV>, Seq<char>>(
        Map::empty(),
    ));
    assert(expand_names_spec(names, a, st) == Err::<Map<Seq<char>, JsonV>, Seq<char>>(
        recursion_message(seq![name, name]),
    ));
}

/// An alias that uses nothing expands to its own options.
pub proof fn law_plain_alias_expands_to_itself(name: Seq<char>, a: AliasesV, stack: Seq<Seq<char>>)
    requires
        !stack.contains(name),
        lookup(a, name) is Some,
        lookup(a, name)->0.use_list is None,
    ensures
        expand_alias_spec(name, a, stack) == Ok::<Map<Seq<char>, JsonV>, Seq<char>>(
            as_map(lookup(a, name)->0.ydl_options),
        ),
{
    let al = lookup(a, name)->0;
    assert(normalize_use_spec(al.use_list) =~= Seq::<Seq<char>>::empty());
    assert(expand_names_spec(Seq::<Seq<char>>::empty(), a, stack.push(name)) == Ok::<
        Map<Seq<char>, JsonV>,
        Seq<char>,
    >(Map::empty()));
    assert(Map::<Seq<char>, JsonV>::empty().union_prefer_right(as_map(al.ydl_options)) =~= as_map(
        al.ydl_options,
    ));
}

/// Expanding the aliases of a configuration whose aliases are already
/// expanded gives each its options again: resolution is done once.
pub proof fn law_resolved_aliases_stay(old: AliasesV, new: AliasesV, t: Seq<Map<Seq<char>, JsonV>>)
    requires
        aliases_resolved(old, new, t),
        sorted(new),
    ensures
        alias_table_spec(new, new) == Ok::<Seq<Map<Seq<char>, JsonV>>, Seq<char>>(t),
{
    lemma_resolved_prefix(old, new, t, new.len() as int);
    assert(new.take(new.len() as int) =~= new);
    assert(t.take(new.len() as int) =~= t);
}

proof fn lemma_resolved_prefix(old: AliasesV, new: AliasesV, t: Seq<Map<Seq<char>, JsonV>>, i: int)
    requires
        aliases_resolved(old, new, t),
        sorted(new),
        0 <= i <= new.len(),
    ensures
        alias_table_spec(new.take(i), new) == Ok::<Seq<Map<Seq<char>, JsonV>>, Seq<char>>(t.take(i)),
    decreases i,
{
    if i == 0 {
        assert(new.take(0) =~= Seq::<(Seq<char>, AliasV)>::empty());
        assert(t.take(0) =~= Seq::<Map<Seq<char>, JsonV>>::empty());
    } else {
        lemma_resolved_prefix(old, new, t, i - 1);
        let rows = new.take(i);
        assert(rows.drop_last() =~= new.take(i - 1));
        assert(rows.last() == new[i - 1]);
        crate::json::lemma_lookup_at(new, i - 1);
        assert(new[i - 1].0 == old[i - 1].0);
        assert(!Seq::<Seq<char>>::empty().contains(new[i - 1].0));
        law_plain_alias_expands_to_itself(new[i - 1].0, new, Seq::empty());
        assert(t.take(i - 1).push(t[i - 1]) =~= t.take(i));
    }
}

} // verus!

verus! {

/// An alias's own options win over those of the aliases it uses.
pub proof fn law_alias_own_options_win(name: Seq<char>, a: AliasesV, stack: Seq<Seq<char>>, k: Seq<char>)
    requires
        expand_alias_spec(name, a, stack) is Ok,
        lookup(a, name) is Some,
        has_key(lookup(a, name)->0.ydl_options, k),
    ensures
        expand_alias_spec(name, a, stack)->Ok_0[k] == as_map(lookup(a, name)->0.ydl_options)[k],
{
}

/// A profile's own options win over those of the aliases it uses.
pub proof fn law_profile_own_options_win(rows: ProfilesV, a: AliasesV, i: int, k: Seq<char>)
    requires
        profile_table_spec(rows, a) is Ok,
        0 <= i < rows.len(),
        has_key(rows[i].1.ydl_options, k),
    ensures
        profile_table_spec(rows, a)->Ok_0.len() == rows.len(),
        profile_table_spec(rows, a)->Ok_0[i][k] == as_map(rows[i].1.ydl_options)[k],
    decreases rows.len(),
{
    lemma_profile_table_len(rows, a);
    if i < rows.len() - 1 {
        let d = rows.drop_last();
        assert(d[i] == rows[i]);
        law_profile_own_options_win(d, a, i, k);
    }
}

proof fn lemma_profile_table_len(rows: ProfilesV, a: AliasesV)
    requires
        profile_table_spec(rows, a) is Ok,
    ensures
        profile_table_spec(rows, a)->Ok_0.len() == rows.len(),
    decreases rows.len(),
{
    if rows.len() > 0 {
        lemma_profile_table_len(rows.drop_last(), a);
    }
}

} // verus!

verus! {

/// In a `use` list, a later alias takes precedence: every option that the
/// last listed alias sets has that alias's value in the expansion of the
/// list.
pub proof fn law_later_uses_win(names: Seq<Seq<char>>, a: AliasesV, stack: Seq<Seq<char>>, k: Seq<char>)
    requires
        names.len() > 0,
        expand_names_spec(names, a, stack) is Ok,
        expand_alias_spec(names.last(), a, stack) is Ok,
        expand_alias_spec(names.last(), a, stack)->Ok_0.dom().contains(k),
    ensures
        expand_names_spec(names, a, stack)->Ok_0.dom().contains(k),
        expand_names_spec(names, a, stack)->Ok_0[k] == expand_alias_spec(names.last(), a, stack)->Ok_0[k],
{
}

} // verus!
