//! Following a running process: its accumulated output, the download
//! percentage its lines report, the JSON lines of a capture, and the
//! choices of the finished-files listing.
use vstd::prelude::*;
use crate::jobs::{clean_logs, clean_logs_spec};
use crate::pattern::{captures, compile, percent_pattern, regex_captures};
use crate::text::{lines, lines_of, push_char, trim, trim_spec, views};
use vstd::string::StringExecFns;

verus! {

/// Adds one line of process output to the accumulated output `log` and
/// returns the cleaned log that is shown for it.
pub fn append_output(log: &mut String, line: &str) -> (r: String)
    ensures
        final(log)@ == old(log)@ + line@ + seq!['\n'],
        r@ == clean_logs_spec(final(log)@),
{
    log.append(line);
    push_char(log, '\n');
    clean_logs(log.as_str())
}

/// The number text of the percentage a line reports: the first capture
/// group of the pattern's match.
pub open spec fn percent_spec(line: Seq<char>) -> Option<Seq<char>> {
    match regex_captures(percent_pattern(), line) {
        Some(g) => if g.len() > 1 {
            g[1]
        } else {
            None
        },
        None => None,
    }
}

/// The number text of the percentage a line reports (see `percent_spec`).
pub fn percent_text(line: &str) -> (r: Option<String>)
    ensures
        crate::jobs::opt_view(r) == percent_spec(line@),
{
    let p = match compile("(?i)(?:\\[download\\]\\s+)?(\\d{1,3}(?:\\.\\d+)?)%") {
        Some(p) => p,
        None => {
            return None;
        },
    };
    match captures(&p, line) {
        Some(g) => if g.len() > 1 {
            match &g[1] {
                Some(t) => Some(t.clone()),
                None => None,
            }
        } else {
            None
        },
        None => None,
    }
}

/// The percentages the lines of a log report, last line first.
pub open spec fn percents_last_first(ls: Seq<Seq<char>>) -> Seq<Seq<char>>
    decreases ls.len(),
{
    if ls.len() == 0 {
        Seq::empty()
    } else {
        percents_last_first(ls.drop_first()) + match percent_spec(ls.first()) {
            Some(t) => seq![t],
            None => Seq::empty(),
        }
    }
}

/// The percentages the lines of `log` report, last line first; the
/// progress shown is the first of them that reads as a number.
pub fn percent_candidates(log: &str) -> (r: Vec<String>)
    ensures
        views(r@) == percents_last_first(lines(log@)),
{
    let ls = lines_of(log);
    let ghost lv = views(ls@);
    let mut r: Vec<String> = Vec::new();
    let mut i: usize = ls.len();
    proof {
        assert(lv.subrange(i as int, lv.len() as int) =~= Seq::<Seq<char>>::empty());
        assert(views(r@) =~= Seq::<Seq<char>>::empty());
    }
    while i > 0
        invariant
            i <= ls.len(),
            lv == views(ls@),
            lv == lines(log@),
            views(r@) == percents_last_first(lv.subrange(i as int, lv.len() as int)),
        decreases i,
    {
        i = i - 1;
        let ghost tail = lv.subrange(i as int, lv.len() as int);
        proof {
            assert(tail.drop_first() =~= lv.subrange(i + 1, lv.len() as int));
            assert(tail.first() == ls@[i as int]@);
        }
        match percent_text(ls[i].as_str()) {
            Some(t) => {
                let ghost before = r@;
                let ghost tv = t@;
                r.push(t);
                proof {
                    assert(views(r@) =~= views(before) + seq![tv]);
                }
            },
            None => {
                proof {
                    assert(views(r@) =~= views(r@) + Seq::<Seq<char>>::empty());
                }
            },
        }
    }
    proof {
        assert(lv.subrange(0, lv.len() as int) =~= lv);
    }
    r
}

/// The lines of a capture that may hold a JSON value: those that are not
/// blank.
pub open spec fn json_line_candidates(ls: Seq<Seq<char>>) -> Seq<Seq<char>>
    decreases ls.len(),
{
    if ls.len() == 0 {
        Seq::empty()
    } else {
        let r = json_line_candidates(ls.drop_last());
        if trim_spec(ls.last()).len() > 0 {
            r.push(ls.last())
        } else {
            r
        }
    }
}

/// The lines of `stdout` that may hold a JSON value (see
/// `json_line_candidates`); each is parsed on its own.
pub fn json_lines(stdout: &str) -> (r: Vec<String>)
    ensures
        views(r@) == json_line_candidates(lines(stdout@)),
{
    let ls = lines_of(stdout);
    let ghost lv = views(ls@);
    let mut r: Vec<String> = Vec::new();
    let mut i: usize = 0;
    while i < ls.len()
        invariant
            i <= ls.len(),
            lv == views(ls@),
            lv == lines(stdout@),
            views(r@) == json_line_candidates(lv.take(i as int)),
        decreases ls.len() - i,
    {
        proof {
            assert(lv.take(i + 1).drop_last() =~= lv.take(i as int));
            assert(lv.take(i + 1).last() == ls@[i as int]@);
        }
        let t = trim(ls[i].as_str());
        if !t.as_str().is_empty() {
            let ghost before = r@;
            r.push(ls[i].clone());
            proof {
                assert(views(r@) =~= views(before).push(ls@[i as int]@));
            }
        }
        i = i + 1;
    }
    proof {
        assert(lv.take(ls.len() as int) =~= lv);
    }
    r
}

/// How deep the finished-files listing goes into folders.
pub const MAX_TREE_DEPTH: usize = 32;

/// Whether the listing shows an entry: hidden names are left out.
pub fn is_listed(name: &str) -> (r: bool)
    ensures
        r == !(name@.len() > 0 && name@[0] == '.'),
{
    if name.is_empty() {
        return true;
    }
    let c = crate::text::chars_of(name);
    c[0] != '.'
}

/// Whether the listing goes into a folder found at `depth`: not past the
/// depth limit, and not into a folder (by device and inode) it has
/// already listed.
pub fn should_descend(depth: usize, seen: &Vec<(u64, u64)>, key: (u64, u64)) -> (r: bool)
    ensures
        r == (depth < MAX_TREE_DEPTH && !seen@.contains(key)),
{
    if depth >= MAX_TREE_DEPTH {
        return false;
    }
    let mut i: usize = 0;
    while i < seen.len()
        invariant
            i <= seen.len(),
            forall|j: int| 0 <= j < i ==> seen@[j] != key,
        decreases seen.len() - i,
    {
        if seen[i].0 == key.0 && seen[i].1 == key.1 {
            assert(seen@[i as int] == key);
            return false;
        }
        i = i + 1;
    }
    proof {
        if seen@.contains(key) {
            let w = choose|j: int| 0 <= j < seen@.len() && seen@[j] == key;
            assert(seen@[w] != key);
        }
    }
    true
}

} // verus!
