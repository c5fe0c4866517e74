//! Character-level text utilities shared by the whole library: splitting,
//! joining, line iteration, trimming, decimal rendering and parsing.
use vstd::prelude::*;
use vstd::string::StringExecFns;

verus! {

// ---------------------------------------------------------------------------
// Spec vocabulary
// ---------------------------------------------------------------------------

/// The views of a sequence of strings.
pub open spec fn views(v: Seq<String>) -> Seq<Seq<char>> {
    v.map_values(|s: String| s@)
}

/// Pushing a string pushes its view.
pub proof fn lemma_views_push(v: Seq<String>, s: String)
    ensures
        views(v.push(s)) == views(v).push(s@),
{
    assert(views(v.push(s)) =~= views(v).push(s@));
}

/// `s` begins with `p`.
pub open spec fn starts_with(s: Seq<char>, p: Seq<char>) -> bool {
    p.len() <= s.len() && s.take(p.len() as int) == p
}

/// `s` ends with `p`.
pub open spec fn ends_with(s: Seq<char>, p: Seq<char>) -> bool {
    p.len() <= s.len() && s.skip(s.len() - p.len()) == p
}

/// The pieces of `s` between occurrences of `c` (as `str::split` with a
/// character pattern): there is always at least one piece.
pub open spec fn split(s: Seq<char>, c: char) -> Seq<Seq<char>>
    decreases s.len(),
{
    if s.len() == 0 {
        seq![Seq::<char>::empty()]
    } else {
        let r = split(s.drop_last(), c);
        if s.last() == c {
            r.push(Seq::<char>::empty())
        } else {
            r.update(r.len() - 1, r.last().push(s.last()))
        }
    }
}

/// The pieces joined with `sep` between consecutive pieces.
pub open spec fn join(parts: Seq<Seq<char>>, sep: Seq<char>) -> Seq<char>
    decreases parts.len(),
{
    if parts.len() == 0 {
        Seq::<char>::empty()
    } else if parts.len() == 1 {
        parts[0]
    } else {
        join(parts.drop_last(), sep) + sep + parts.last()
    }
}

/// Drops one trailing carriage return.
pub open spec fn strip_cr(s: Seq<char>) -> Seq<char> {
    if s.len() > 0 && s.last() == '\r' {
        s.drop_last()
    } else {
        s
    }
}

/// The lines of `s`, as `str::lines` yields them: split at `\n`, a final
/// empty piece is not a line, and a line that was ended by `\n` loses one
/// trailing `\r`.
pub open spec fn lines(s: Seq<char>) -> Seq<Seq<char>> {
    let p = split(s, '\n');
    let n = p.len();
    Seq::new(
        if p[n - 1].len() == 0 { (n - 1) as nat } else { n as nat },
        |i: int| if i < n - 1 { strip_cr(p[i]) } else { p[i] },
    )
}

/// ASCII lower-casing of one character (`char::to_ascii_lowercase`).
pub open spec fn ascii_lower(c: char) -> char {
    if 'A' <= c && c <= 'Z' {
        ((c as u32) + 32) as char
    } else {
        c
    }
}

/// ASCII lower-casing of a text.
pub open spec fn lower(s: Seq<char>) -> Seq<char> {
    s.map_values(|c: char| ascii_lower(c))
}

/// ASCII decimal digit.
pub open spec fn is_digit(c: char) -> bool {
    '0' <= c && c <= '9'
}

/// ASCII letter or digit.
pub open spec fn is_alnum(c: char) -> bool {
    is_digit(c) || ('a' <= c && c <= 'z') || ('A' <= c && c <= 'Z')
}

/// The digit character of `d < 10`.
pub open spec fn digit_char(d: nat) -> char {
    ((d + 48) as u32) as char
}

/// Decimal text of a natural number, without leading zeros.
pub open spec fn decimal(n: nat) -> Seq<char>
    decreases n,
{
    if n < 10 {
        seq![digit_char(n)]
    } else {
        decimal(n / 10).push(digit_char(n % 10))
    }
}

/// Decimal text of an integer, with a leading `-` when negative.
pub open spec fn int_text(n: int) -> Seq<char> {
    if n < 0 {
        seq!['-'] + decimal((-n) as nat)
    } else {
        decimal(n as nat)
    }
}

/// Value of a sequence of ASCII digits.
pub open spec fn digits_value(s: Seq<char>) -> nat
    decreases s.len(),
{
    if s.len() == 0 {
        0
    } else {
        digits_value(s.drop_last()) * 10 + ((s.last() as u32) - 48) as nat
    }
}

/// All characters are ASCII digits and there is at least one.
pub open spec fn all_digits(s: Seq<char>) -> bool {
    s.len() > 0 && forall|i: int| 0 <= i < s.len() ==> is_digit(#[trigger] s[i])
}

/// What `i64::from_str` accepts: an optional `+` or `-`, then one or more
/// ASCII digits, with a value that fits an `i64`.
pub open spec fn parse_i64_spec(s: Seq<char>) -> Option<i64> {
    if s.len() > 0 && s[0] == '-' && all_digits(s.skip(1)) {
        let v = -(digits_value(s.skip(1)) as int);
        if v >= i64::MIN { Some(v as i64) } else { None }
    } else if s.len() > 0 && s[0] == '+' && all_digits(s.skip(1)) {
        let v = digits_value(s.skip(1)) as int;
        if v <= i64::MAX { Some(v as i64) } else { None }
    } else if all_digits(s) {
        let v = digits_value(s) as int;
        if v <= i64::MAX { Some(v as i64) } else { None }
    } else {
        None
    }
}

/// Lexicographic order on character sequences, by code point: the order of
/// `String` (which compares UTF-8 bytes, and UTF-8 preserves code point
/// order).
pub open spec fn seq_lt(a: Seq<char>, b: Seq<char>) -> bool
    decreases a.len(),
{
    if a.len() == 0 {
        b.len() > 0
    } else if b.len() == 0 {
        false
    } else if a[0] != b[0] {
        a[0] < b[0]
    } else {
        seq_lt(a.drop_first(), b.drop_first())
    }
}

// ---------------------------------------------------------------------------
// Trusted std calls
// ---------------------------------------------------------------------------

/// Appends one character to a string. Calls `String::push`, which the
/// standard library documents as appending the character to the end.
#[verifier::external_body]
pub(crate) fn push_char(s: &mut String, c: char)
    ensures
        final(s)@ == old(s)@.push(c),
{
    s.push(c);
}

/// Whether `c` has the Unicode `White_Space` property (`char::is_whitespace`):
/// the control characters tab through carriage return, space, next line,
/// no-break space, Ogham space mark, the spaces U+2000 to U+200A, the line
/// and paragraph separators, narrow no-break space, medium mathematical
/// space and ideographic space.
pub open spec fn unicode_white_space(c: char) -> bool {
    ('\u{9}' <= c && c <= '\u{D}') || c == ' ' || c == '\u{85}' || c == '\u{A0}' || c == '\u{1680}'
        || ('\u{2000}' <= c && c <= '\u{200A}') || c == '\u{2028}' || c == '\u{2029}' || c
        == '\u{202F}' || c == '\u{205F}' || c == '\u{3000}'
}

/// Whether `c` is white space (see `unicode_white_space`).
pub(crate) fn char_is_whitespace(c: char) -> (r: bool)
    ensures
        r == unicode_white_space(c),
{
    ('\u{9}' <= c && c <= '\u{D}') || c == ' ' || c == '\u{85}' || c == '\u{A0}' || c == '\u{1680}'
        || ('\u{2000}' <= c && c <= '\u{200A}') || c == '\u{2028}' || c == '\u{2029}' || c
        == '\u{202F}' || c == '\u{205F}' || c == '\u{3000}'
}

/// `str::trim_start`: drops leading white space.
pub open spec fn trim_start_spec(s: Seq<char>) -> Seq<char>
    decreases s.len(),
{
    if s.len() > 0 && unicode_white_space(s[0]) {
        trim_start_spec(s.drop_first())
    } else {
        s
    }
}

/// `str::trim_end`: drops trailing white space.
pub open spec fn trim_end_spec(s: Seq<char>) -> Seq<char>
    decreases s.len(),
{
    if s.len() > 0 && unicode_white_space(s.last()) {
        trim_end_spec(s.drop_last())
    } else {
        s
    }
}

/// `str::trim`.
pub open spec fn trim_spec(s: Seq<char>) -> Seq<char> {
    trim_end_spec(trim_start_spec(s))
}

/// `str::trim_end_matches` with a character pattern.
pub open spec fn trim_end_char(s: Seq<char>, c: char) -> Seq<char>
    decreases s.len(),
{
    if s.len() > 0 && s.last() == c {
        trim_end_char(s.drop_last(), c)
    } else {
        s
    }
}

/// `str::trim_start_matches` with a character pattern.
pub open spec fn trim_start_char(s: Seq<char>, c: char) -> Seq<char>
    decreases s.len(),
{
    if s.len() > 0 && s[0] == c {
        trim_start_char(s.drop_first(), c)
    } else {
        s
    }
}

// ---------------------------------------------------------------------------
// Executable helpers
// ---------------------------------------------------------------------------

/// The characters of a string slice, in order.
pub fn chars_of(s: &str) -> (v: Vec<char>)
    ensures
        v@ == s@,
{
    let mut v: Vec<char> = Vec::new();
    for c in it: s.chars()
        invariant
            v@ == it.seq().take(it.index() as int),
            it.seq() == s@,
    {
        v.push(c);
    }
    v
}

/// A string holding the characters `v[from..to]`.
pub fn string_of_range(v: &Vec<char>, from: usize, to: usize) -> (r: String)
    requires
        from <= to <= v.len(),
    ensures
        r@ == v@.subrange(from as int, to as int),
{
    let mut r = String::new();
    let mut i = from;
    while i < to
        invariant
            from <= i <= to <= v.len(),
            r@ == v@.subrange(from as int, i as int),
        decreases to - i,
    {
        push_char(&mut r, v[i]);
        i = i + 1;
    }
    r
}

/// A string made of `a` followed by `b`.
pub fn concat(a: &str, b: &str) -> (r: String)
    ensures
        r@ == a@ + b@,
{
    let mut s = a.to_owned();
    s.append(b);
    s
}

/// A copy of a string slice.
pub fn owned(a: &str) -> (r: String)
    ensures
        r@ == a@,
{
    a.to_owned()
}

/// Whether two texts are equal.
pub fn text_eq(a: &str, b: &str) -> (r: bool)
    ensures
        r == (a@ == b@),
{
    let x = chars_of(a);
    let y = chars_of(b);
    if x.len() != y.len() {
        return false;
    }
    let mut i: usize = 0;
    while i < x.len()
        invariant
            x@ == a@,
            y@ == b@,
            x.len() == y.len(),
            i <= x.len(),
            forall|j: int| 0 <= j < i ==> x@[j] == y@[j],
        decreases x.len() - i,
    {
        if x[i] != y[i] {
            return false;
        }
        i = i + 1;
    }
    assert(x@ =~= y@);
    true
}

/// Whether `s` begins with `p`.
pub fn has_prefix(s: &str, p: &str) -> (r: bool)
    ensures
        r == starts_with(s@, p@),
{
    let x = chars_of(s);
    let y = chars_of(p);
    if y.len() > x.len() {
        return false;
    }
    let mut i: usize = 0;
    while i < y.len()
        invariant
            x@ == s@,
            y@ == p@,
            y.len() <= x.len(),
            i <= y.len(),
            forall|j: int| 0 <= j < i ==> x@[j] == y@[j],
        decreases y.len() - i,
    {
        if x[i] != y[i] {
            assert(s@.take(p@.len() as int)[i as int] != p@[i as int]);
            return false;
        }
        i = i + 1;
    }
    assert(s@.take(p@.len() as int) =~= p@);
    true
}

/// Whether the character `c` occurs in `s`.
pub fn has_char(s: &str, c: char) -> (r: bool)
    ensures
        r == s@.contains(c),
{
    let x = chars_of(s);
    let mut i: usize = 0;
    while i < x.len()
        invariant
            x@ == s@,
            i <= x.len(),
            forall|j: int| 0 <= j < i ==> x@[j] != c,
        decreases x.len() - i,
    {
        if x[i] == c {
            assert(s@[i as int] == c);
            return true;
        }
        i = i + 1;
    }
    false
}

/// Whether `a` orders before `b`, as `String`'s `<` does.
pub fn text_lt(a: &str, b: &str) -> (r: bool)
    ensures
        r == seq_lt(a@, b@),
{
    let x = chars_of(a);
    let y = chars_of(b);
    let mut i: usize = 0;
    assert(a@.skip(0) =~= a@);
    assert(b@.skip(0) =~= b@);
    while i < x.len() && i < y.len() && x[i] == y[i]
        invariant
            x@ == a@,
            y@ == b@,
            i <= x.len(),
            i <= y.len(),
            seq_lt(a@, b@) == seq_lt(a@.skip(i as int), b@.skip(i as int)),
        decreases x.len() - i,
    {
        proof {
            let sa = a@.skip(i as int);
            let sb = b@.skip(i as int);
            assert(sa.drop_first() =~= a@.skip(i + 1));
            assert(sb.drop_first() =~= b@.skip(i + 1));
        }
        i = i + 1;
    }
    proof {
        let sa = a@.skip(i as int);
        let sb = b@.skip(i as int);
        if i < x.len() && i < y.len() {
            assert(sa[0] == x@[i as int]);
            assert(sb[0] == y@[i as int]);
        }
    }
    if i == x.len() {
        i < y.len()
    } else if i == y.len() {
        false
    } else {
        x[i] < y[i]
    }
}

/// A split has at least one piece.
pub proof fn lemma_split_len(s: Seq<char>, c: char)
    ensures
        split(s, c).len() >= 1,
    decreases s.len(),
{
    if s.len() > 0 {
        lemma_split_len(s.drop_last(), c);
    }
}

/// Splitting at a separator splits the two sides apart.
pub proof fn lemma_split_around(x: Seq<char>, y: Seq<char>, c: char)
    ensures
        split(x + seq![c] + y, c) == split(x, c) + split(y, c),
    decreases y.len(),
{
    lemma_split_len(x, c);
    lemma_split_len(y, c);
    if y.len() == 0 {
        assert(x + seq![c] + y =~= x.push(c));
        assert((x.push(c)).drop_last() =~= x);
        assert(split(x, c) + split(y, c) =~= split(x, c).push(Seq::<char>::empty()));
    } else {
        let y1 = y.drop_last();
        lemma_split_around(x, y1, c);
        lemma_split_len(y1, c);
        let s = x + seq![c] + y;
        assert(s.drop_last() =~= x + seq![c] + y1);
        assert(s.last() == y.last());
        let a = split(x, c);
        let b1 = split(y1, c);
        if y.last() == c {
            assert((a + b1).push(Seq::<char>::empty()) =~= a + b1.push(Seq::<char>::empty()));
        } else {
            let ab = a + b1;
            assert(ab.update(ab.len() - 1, ab.last().push(y.last())) =~= a + b1.update(
                b1.len() - 1,
                b1.last().push(y.last()),
            ));
        }
    }
}

/// A text without the separator is one piece.
pub proof fn lemma_split_single(y: Seq<char>, c: char)
    requires
        !y.contains(c),
    ensures
        split(y, c) == seq![y],
    decreases y.len(),
{
    if y.len() > 0 {
        let y1 = y.drop_last();
        assert(!y1.contains(c)) by {
            if y1.contains(c) {
                let w = choose|i: int| 0 <= i < y1.len() && y1[i] == c;
                assert(y[w] == c);
            }
        }
        lemma_split_single(y1, c);
        assert(y.last() != c) by {
            assert(y[y.len() - 1] == y.last());
        }
        assert(y1.push(y.last()) =~= y);
        let r = split(y1, c);
        assert(r.len() == 1 && r.last() == y1);
        assert(split(y, c) == r.update(r.len() - 1, r.last().push(y.last())));
        assert(r.update(0, y1.push(y.last())) =~= seq![y]);
    } else {
        assert(y =~= Seq::<char>::empty());
    }
}

/// Joining parts that hold no separator and splitting again gives the parts.
pub proof fn lemma_split_join(parts: Seq<Seq<char>>, c: char)
    requires
        parts.len() >= 1,
        forall|i: int| 0 <= i < parts.len() ==> !(#[trigger] parts[i]).contains(c),
    ensures
        split(join(parts, seq![c]), c) == parts,
    decreases parts.len(),
{
    if parts.len() == 1 {
        lemma_split_single(parts[0], c);
        assert(seq![parts[0]] =~= parts);
    } else {
        let p1 = parts.drop_last();
        assert(forall|i: int| 0 <= i < p1.len() ==> #[trigger] p1[i] == parts[i]);
        lemma_split_join(p1, c);
        lemma_split_around(join(p1, seq![c]), parts.last(), c);
        assert(!parts[parts.len() - 1].contains(c));
        lemma_split_single(parts.last(), c);
        assert(p1 + seq![parts.last()] =~= parts);
    }
}

/// The pieces of `s` between occurrences of `c`.
pub fn split_char(s: &str, c: char) -> (r: Vec<String>)
    ensures
        views(r@) == split(s@, c),
        r@.len() >= 1,
{
    let x = chars_of(s);
    let mut r: Vec<String> = Vec::new();
    let mut cur = String::new();
    let mut i: usize = 0;
    while i < x.len()
        invariant
            x@ == s@,
            i <= x.len(),
            views(r@).push(cur@) == split(s@.take(i as int), c),
        decreases x.len() - i,
    {
        proof {
            assert(s@.take(i + 1).drop_last() =~= s@.take(i as int));
            lemma_split_len(s@.take(i as int), c);
        }
        if x[i] == c {
            r.push(cur);
            cur = String::new();
            proof {
                assert(views(r@).push(cur@) =~= split(s@.take(i as int), c).push(Seq::<char>::empty()));
            }
        } else {
            let ghost old_r = r@;
            let ghost old_cur = cur@;
            push_char(&mut cur, x[i]);
            proof {
                let sp = split(s@.take(i as int), c);
                assert(views(old_r).push(old_cur) == sp);
                assert(views(r@).push(cur@) =~= sp.update(sp.len() - 1, sp.last().push(x@[i as int])));
            }
        }
        i = i + 1;
    }
    assert(s@.take(x.len() as int) =~= s@);
    r.push(cur);
    r
}

/// The parts joined with `sep` between consecutive parts.
pub fn join_strings(parts: &Vec<String>, sep: &str) -> (r: String)
    ensures
        r@ == join(views(parts@), sep@),
{
    let mut r = String::new();
    let mut i: usize = 0;
    while i < parts.len()
        invariant
            i <= parts.len(),
            r@ == join(views(parts@).take(i as int), sep@),
        decreases parts.len() - i,
    {
        proof {
            assert(views(parts@).take(i + 1).drop_last() =~= views(parts@).take(i as int));
        }
        if i > 0 {
            r.append(sep);
        }
        r.append(parts[i].as_str());
        proof {
            if i == 0 {
                assert(r@ =~= join(views(parts@).take(1), sep@));
            }
        }
        i = i + 1;
    }
    assert(views(parts@).take(parts.len() as int) =~= views(parts@));
    r
}

/// The lines of `s`, as `str::lines` yields them.
pub fn lines_of(s: &str) -> (r: Vec<String>)
    ensures
        views(r@) == lines(s@),
{
    let p = split_char(s, '\n');
    let n = p.len();
    let count = if p[n - 1].as_str().is_empty() { n - 1 } else { n };
    let mut r: Vec<String> = Vec::new();
    let mut i: usize = 0;
    while i < count
        invariant
            views(p@) == split(s@, '\n'),
            n == p.len(),
            n >= 1,
            count <= n,
            count == (if split(s@, '\n')[n - 1].len() == 0 { n - 1 } else { n as int }),
            i <= count,
            views(r@) =~= lines(s@).take(i as int),
        decreases count - i,
    {
        let piece = &p[i];
        let line = if i + 1 < n {
            let v = chars_of(piece.as_str());
            if v.len() > 0 && v[v.len() - 1] == '\r' {
                string_of_range(&v, 0, v.len() - 1)
            } else {
                piece.clone()
            }
        } else {
            piece.clone()
        };
        proof {
            let sp = split(s@, '\n');
            assert(lines(s@).len() == count);
            assert(sp[i as int] == p@[i as int]@);
            if i + 1 < n {
                if sp[i as int].len() > 0 && sp[i as int].last() == '\r' {
                    assert(line@ =~= strip_cr(sp[i as int]));
                }
            }
            assert(line@ == lines(s@)[i as int]);
        }
        r.push(line);
        proof {
            assert(lines(s@).take(i + 1) =~= lines(s@).take(i as int).push(lines(s@)[i as int]));
        }
        i = i + 1;
    }
    proof {
        assert(lines(s@).len() == count);
        assert(lines(s@).take(count as int) =~= lines(s@));
    }
    r
}

/// `s` without leading and trailing Unicode white space (`str::trim`).
pub fn trim(s: &str) -> (r: String)
    ensures
        r@ == trim_spec(s@),
{
    let v = chars_of(s);
    let mut a: usize = 0;
    assert(s@.skip(0) =~= s@);
    while a < v.len() && char_is_whitespace(v[a])
        invariant
            v@ == s@,
            a <= v.len(),
            trim_start_spec(s@) == trim_start_spec(s@.skip(a as int)),
        decreases v.len() - a,
    {
        proof {
            assert(s@.skip(a as int).drop_first() =~= s@.skip(a + 1));
        }
        a = a + 1;
    }
    proof {
        if a < v.len() {
            assert(s@.skip(a as int)[0] == v@[a as int]);
        }
        assert(trim_start_spec(s@) == s@.skip(a as int));
    }
    let mut b: usize = v.len();
    while b > a && char_is_whitespace(v[b - 1])
        invariant
            v@ == s@,
            a <= b <= v.len(),
            trim_spec(s@) == trim_end_spec(s@.subrange(a as int, b as int)),
        decreases b - a,
    {
        proof {
            assert(s@.subrange(a as int, b as int).drop_last() =~= s@.subrange(a as int, b - 1));
        }
        b = b - 1;
    }
    proof {
        assert(s@.skip(a as int) =~= s@.subrange(a as int, v.len() as int));
    }
    string_of_range(&v, a, b)
}

/// `s` without trailing occurrences of `c` (`str::trim_end_matches`).
pub fn trim_end_of(s: &str, c: char) -> (r: String)
    ensures
        r@ == trim_end_char(s@, c),
{
    let v = chars_of(s);
    let mut b: usize = v.len();
    assert(s@.take(v.len() as int) =~= s@);
    while b > 0 && v[b - 1] == c
        invariant
            v@ == s@,
            b <= v.len(),
            trim_end_char(s@, c) == trim_end_char(s@.take(b as int), c),
        decreases b,
    {
        proof {
            assert(s@.take(b as int).drop_last() =~= s@.take(b - 1));
        }
        b = b - 1;
    }
    string_of_range(&v, 0, b)
}

/// `s` without leading occurrences of `c` (`str::trim_start_matches`).
pub fn trim_start_of(s: &str, c: char) -> (r: String)
    ensures
        r@ == trim_start_char(s@, c),
{
    let v = chars_of(s);
    let mut a: usize = 0;
    assert(s@.skip(0) =~= s@);
    while a < v.len() && v[a] == c
        invariant
            v@ == s@,
            a <= v.len(),
            trim_start_char(s@, c) == trim_start_char(s@.skip(a as int), c),
        decreases v.len() - a,
    {
        proof {
            assert(s@.skip(a as int).drop_first() =~= s@.skip(a + 1));
        }
        a = a + 1;
    }
    proof {
        assert(s@.skip(a as int) =~= s@.subrange(a as int, v.len() as int));
    }
    string_of_range(&v, a, v.len())
}

/// ASCII lower-case copy of `s` (`str::to_ascii_lowercase`).
pub fn to_lower(s: &str) -> (r: String)
    ensures
        r@ == lower(s@),
{
    let v = chars_of(s);
    let mut r = String::new();
    let mut i: usize = 0;
    while i < v.len()
        invariant
            v@ == s@,
            i <= v.len(),
            r@ =~= lower(s@).take(i as int),
        decreases v.len() - i,
    {
        let c = v[i];
        let d = if 'A' <= c && c <= 'Z' {
            let u = (c as u32) + 32;
            proof {
                assert(u == (c as u32) + 32);
            }
            char_from_ascii(u)
        } else {
            c
        };
        push_char(&mut r, d);
        i = i + 1;
    }
    r
}

/// The character with the ASCII code `u`.
fn char_from_ascii(u: u32) -> (c: char)
    requires
        u < 128,
    ensures
        c == (u as char),
{
    assert((u as u8) as u32 == u);
    let b = u as u8;
    let c = b as char;
    proof {
        assert(c == (b as char));
    }
    c
}

proof fn lemma_decimal_len(n: nat)
    ensures
        decimal(n).len() >= 1,
    decreases n,
{
    if n >= 10 {
        lemma_decimal_len(n / 10);
    }
}

/// Decimal text of `n` (`u64::to_string`).
pub fn u64_text(n: u64) -> (r: String)
    ensures
        r@ == decimal(n as nat),
    decreases n,
{
    if n < 10 {
        let mut r = String::new();
        push_char(&mut r, char_from_ascii((n + 48) as u32));
        assert(r@ =~= decimal(n as nat));
        r
    } else {
        let mut r = u64_text(n / 10);
        push_char(&mut r, char_from_ascii((n % 10 + 48) as u32));
        r
    }
}

/// Decimal text of `n` (`i64::to_string`).
pub fn i64_text(n: i64) -> (r: String)
    ensures
        r@ == int_text(n as int),
{
    if n < 0 {
        let m: u64 = if n == i64::MIN {
            9223372036854775808u64
        } else {
            (-n) as u64
        };
        let mut r = String::new();
        push_char(&mut r, '-');
        let t = u64_text(m);
        r.append(t.as_str());
        r
    } else {
        u64_text(n as u64)
    }
}

/// Value of the ASCII digits of `v[from..to]`, or `None` past `u64::MAX`.
fn digits_u64(v: &Vec<char>, from: usize, to: usize) -> (r: Option<u64>)
    requires
        from <= to <= v.len(),
        forall|i: int| from <= i < to ==> is_digit(#[trigger] v@[i]),
    ensures
        match r {
            Some(x) => x as nat == digits_value(v@.subrange(from as int, to as int)),
            None => digits_value(v@.subrange(from as int, to as int)) > u64::MAX,
        },
{
    let mut acc: u64 = 0;
    let mut i = from;
    while i < to
        invariant
            from <= i <= to <= v.len(),
            forall|k: int| from <= k < to ==> is_digit(#[trigger] v@[k]),
            acc as nat == digits_value(v@.subrange(from as int, i as int)),
        decreases to - i,
    {
        proof {
            assert(v@.subrange(from as int, i + 1).drop_last() =~= v@.subrange(from as int, i as int));
        }
        let d = (v[i] as u32 - 48) as u64;
        if acc > (u64::MAX - d) / 10 {
            proof {
                assert(v@.subrange(from as int, to as int).take(i + 1 - from) =~= v@.subrange(from as int, i + 1));
                lemma_digits_grow(v@.subrange(from as int, i + 1), v@.subrange(from as int, to as int));
                assert(acc * 10 + d > u64::MAX) by (nonlinear_arith)
                    requires acc > (u64::MAX - d) / 10, d < 10;
            }
            return None;
        }
        assert(acc * 10 + d <= u64::MAX) by (nonlinear_arith)
            requires acc <= (u64::MAX - d) / 10, d < 10;
        acc = acc * 10 + d;
        i = i + 1;
    }
    Some(acc)
}

/// A longer digit string has at least the value of its prefix.
proof fn lemma_digits_grow(p: Seq<char>, s: Seq<char>)
    requires
        p.len() <= s.len(),
        s.take(p.len() as int) == p,
    ensures
        digits_value(p) <= digits_value(s),
    decreases s.len(),
{
    if s.len() > p.len() {
        assert(s.drop_last().take(p.len() as int) =~= p);
        lemma_digits_grow(p, s.drop_last());
        let q = digits_value(s.drop_last());
        assert(q * 10 >= q) by (nonlinear_arith) requires q >= 0;
    } else {
        assert(s =~= p);
    }
}

/// `i64::from_str`: parses an optional sign and ASCII digits.
pub fn parse_i64(s: &str) -> (r: Option<i64>)
    ensures
        r == parse_i64_spec(s@),
{
    let v = chars_of(s);
    let n = v.len();
    let (neg, start): (bool, usize) = if n > 0 && v[0] == '-' {
        (true, 1)
    } else if n > 0 && v[0] == '+' {
        (false, 1)
    } else {
        (false, 0)
    };
    if start == n {
        proof {
            assert(!all_digits(s@.skip(start as int)));
            if n == 0 {
                assert(!all_digits(s@));
            } else {
                assert(!is_digit(s@[0]));
            }
        }
        return None;
    }
    let mut i = start;
    while i < n
        invariant
            v@ == s@,
            n == v.len(),
            start <= i <= n,
            start <= 1,
            start == 1 ==> (v@[0] == '-' || v@[0] == '+'),
            neg ==> start == 1 && v@[0] == '-',
            !neg && start == 1 ==> v@[0] == '+',
            start == 0 ==> (n == 0 || (v@[0] != '-' && v@[0] != '+')),
            forall|k: int| start <= k < i ==> is_digit(#[trigger] v@[k]),
        decreases n - i,
    {
        if !('0' <= v[i] && v[i] <= '9') {
            proof {
                assert(!is_digit(s@[i as int]));
                assert(!is_digit(s@.skip(start as int)[i - start]));
                assert(!all_digits(s@.skip(start as int)));
                if start == 1 {
                    assert(!is_digit(s@[0]));
                    assert(!all_digits(s@));
                } else {
                    assert(s@ =~= s@.skip(0));
                    assert(!all_digits(s@));
                }
            }
            return None;
        }
        i = i + 1;
    }
    proof {
        assert(s@.skip(start as int) =~= v@.subrange(start as int, n as int));
        assert(all_digits(s@.skip(start as int)));
        if start == 1 {
            assert(!is_digit(s@[0]));
            assert(!all_digits(s@));
        } else {
            assert(s@ =~= s@.skip(0));
        }
    }
    match digits_u64(&v, start, n) {
        None => None,
        Some(m) => {
            if neg {
                if m <= 9223372036854775807u64 {
                    Some(-(m as i64))
                } else if m == 9223372036854775808u64 {
                    Some(i64::MIN)
                } else {
                    None
                }
            } else {
                if m <= 9223372036854775807u64 {
                    Some(m as i64)
                } else {
                    None
                }
            }
        },
    }
}

} // verus!
