//! Regular expressions, through the `regex` crate.
use vstd::prelude::*;

verus! {

/// `regex::Regex`, a compiled regular expression, carried as an opaque
/// value.
#[verifier::external_type_specification]
#[verifier::external_body]
pub struct ExRegex(regex::Regex);

/// Whether `pattern` is a regular expression that `regex::Regex::new`
/// accepts: a name for the success of that call.
pub uninterp spec fn regex_valid(pattern: Seq<char>) -> bool;

/// The text of `text` after `Regex::replace` of its leftmost-first match of
/// `pattern` with `rep`.
pub uninterp spec fn regex_replace_first(pattern: Seq<char>, text: Seq<char>, rep: Seq<char>) -> Seq<char>;

/// The capture groups of the leftmost-first match of `pattern` in `text`
/// (`Regex::captures`): group 0 is the whole match; a group that did not
/// take part is `None`.
pub uninterp spec fn regex_captures(pattern: Seq<char>, text: Seq<char>) -> Option<Seq<Option<Seq<char>>>>;

/// Whether `pattern` matches somewhere in `text` (`Regex::is_match`).
pub uninterp spec fn regex_is_match(pattern: Seq<char>, text: Seq<char>) -> bool;

/// The pattern `.*\r`: any run of characters other than a line feed, ending
/// with a carriage return.
pub open spec fn cr_pattern() -> Seq<char> {
    seq!['.', '*', '\\', 'r']
}

/// The pattern of a progress percentage, optionally after `[download]`.
pub open spec fn percent_pattern() -> Seq<char> {
    "(?i)(?:\\[download\\]\\s+)?(\\d{1,3}(?:\\.\\d+)?)%"@
}

/// The pattern of a "starts in N units" notice.
pub open spec fn delay_pattern() -> Seq<char> {
    "(?i)(?:will begin in|begins in|premieres in|starts in)\\s+(\\d+)\\s+(second|minute|hour|day)s?"@
}

/// The pattern of a timestamp: seconds, or `[h:]m:s`, each with an
/// optional fraction.
pub open spec fn timestamp_pattern() -> Seq<char> {
    "^(\\d+(\\.\\d+)?|(\\d+:)?[0-5]?\\d:[0-5]?\\d(\\.\\d+)?)$"@
}

/// What follows the last carriage return of `l` (all of `l` when it holds
/// none).
pub open spec fn after_last_cr(l: Seq<char>) -> Seq<char>
    decreases l.len(),
{
    if l.len() == 0 {
        l
    } else if l.last() == '\r' {
        Seq::<char>::empty()
    } else {
        after_last_cr(l.drop_last()).push(l.last())
    }
}

/// A compiled regular expression together with its source text.
pub struct Pattern {
    source: String,
    compiled: regex::Regex,
}

impl View for Pattern {
    type V = Seq<char>;

    closed spec fn view(&self) -> Seq<char> {
        self.source@
    }
}

/// Compiles `source` with `regex::Regex::new`. The result is named
/// `regex_valid`. The `regex` syntax documentation shows that the
/// library's four patterns are valid: `.*\r` (`.` any character but a line
/// feed, `*` repetition, `\r` a carriage return), and the percentage, delay
/// and timestamp patterns, which use only the flag group `(?i)`,
/// non-capturing and capturing groups, alternation, the classes `\d`, `\s`
/// and `[0-5]`, the escapes `\[`, `\]` and `\.`, the repetitions `?`, `+`
/// and `{1,3}`, and the anchors `^` and `$`.
#[verifier::external_body]
pub(crate) fn compile(source: &str) -> (r: Option<Pattern>)
    ensures
        r is Some <==> regex_valid(source@),
        r matches Some(p) ==> p@ == source@,
        source@ == cr_pattern() ==> r is Some,
        source@ == percent_pattern() ==> r is Some,
        source@ == delay_pattern() ==> r is Some,
        source@ == timestamp_pattern() ==> r is Some,
{
    match regex::Regex::new(source) {
        Ok(compiled) => Some(Pattern { source: source.to_string(), compiled }),
        Err(_) => None,
    }
}

/// Calls `Regex::replace`, which replaces the leftmost-first match with
/// `rep`; the result is named `regex_replace_first`. For the pattern `.*\r`
/// on a text without line feeds the `regex` documentation determines it:
/// `.` matches every character but `\n`, matching starts at the leftmost
/// position and `*` is greedy, so the match runs from the start to the last
/// carriage return; with an empty replacement what remains is the text
/// after the last carriage return.
#[verifier::external_body]
pub(crate) fn replace_first(p: &Pattern, text: &str, rep: &str) -> (r: String)
    ensures
        r@ == regex_replace_first(p@, text@, rep@),
        p@ == cr_pattern() && rep@.len() == 0 && !text@.contains('\n') ==> r@ == after_last_cr(
            text@,
        ),
{
    p.compiled.replace(text, rep).into_owned()
}

/// The views of optional capture groups.
pub open spec fn groups_view(g: Option<Vec<Option<String>>>) -> Option<Seq<Option<Seq<char>>>> {
    match g {
        Some(v) => Some(
            v@.map_values(
                |o: Option<String>|
                    match o {
                        Some(s) => Some(s@),
                        None => None,
                    },
            ),
        ),
        None => None,
    }
}

/// Calls `Regex::captures`; the result is named `regex_captures`.
#[verifier::external_body]
pub(crate) fn captures(p: &Pattern, text: &str) -> (r: Option<Vec<Option<String>>>)
    ensures
        groups_view(r) == regex_captures(p@, text@),
{
    p.compiled.captures(text).map(|c| c.iter().map(|m| m.map(|m| m.as_str().to_string())).collect())
}

/// Calls `Regex::is_match`; the result is named `regex_is_match`.
#[verifier::external_body]
pub(crate) fn is_match(p: &Pattern, text: &str) -> (r: bool)
    ensures
        r == regex_is_match(p@, text@),
{
    p.compiled.is_match(text)
}

} // verus!
