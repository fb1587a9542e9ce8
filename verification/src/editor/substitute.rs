//! The command line (`:`): line numbers, `:w`/`:q`-style commands, and the substitution
//! `[range]s/pattern/replacement/[flags]` with its live preview. Patterns are regular
//! expressions of the `regex` crate.
use vstd::prelude::*;

use super::motions::{min_int, sat_sub};
use super::VimEditor;
use crate::text::{chars_of, string_of, uppercase_char, is_uppercase, whitespace_char, is_whitespace, alphanumeric_char, is_alphanumeric, push_char, concat_strings};
use crate::render::{decimal, decimal_string};

verus! {

// ---------------------------------------------------------------------------------------
// The regex crate
// ---------------------------------------------------------------------------------------

/// Whether `regex::Regex::new` accepts the pattern `p`.
pub uninterp spec fn regex_valid(p: Seq<char>) -> bool;

/// What `Regex::replace` gives for pattern `p` on `hay` with replacement `rep`.
pub uninterp spec fn regex_replace_first(p: Seq<char>, hay: Seq<char>, rep: Seq<char>) -> Seq<char>;

/// What `Regex::replace_all` gives for pattern `p` on `hay` with replacement `rep`.
pub uninterp spec fn regex_replace_every(p: Seq<char>, hay: Seq<char>, rep: Seq<char>) -> Seq<char>;

/// How many matches `Regex::find_iter` yields for pattern `p` on `hay`.
pub uninterp spec fn regex_match_count(p: Seq<char>, hay: Seq<char>) -> nat;

/// `regex::Regex::new(p).is_ok()`: whether the regex crate compiles the pattern `p`. The
/// result is the crate's decision, named by [`regex_valid`].
#[verifier::external_body]
pub(crate) fn regex_compiles(p: &str) -> (r: bool)
    ensures
        r == regex_valid(p@),
{
    regex::Regex::new(p).is_ok()
}

/// `Regex::replace`: the first match of pattern `p` (compiled from the string) in `hay`
/// replaced by `rep`, with `$name` expansion. The result is named by
/// [`regex_replace_first`]; the pattern must compile.
#[verifier::external_body]
pub(crate) fn regex_replace(p: &str, hay: &str, rep: &str) -> (r: String)
    requires
        regex_valid(p@),
    ensures
        r@ == regex_replace_first(p@, hay@, rep@),
{
    match regex::Regex::new(p) {
        Ok(re) => re.replace(hay, rep).into_owned(),
        Err(_) => hay.to_string(),
    }
}

/// `Regex::replace_all`: every non-overlapping match of pattern `p` (compiled from the
/// string) in `hay` replaced by `rep`. The result is named by [`regex_replace_every`]; the
/// pattern must compile.
#[verifier::external_body]
fn regex_replace_all(p: &str, hay: &str, rep: &str) -> (r: String)
    requires
        regex_valid(p@),
    ensures
        r@ == regex_replace_every(p@, hay@, rep@),
{
    match regex::Regex::new(p) {
        Ok(re) => re.replace_all(hay, rep).into_owned(),
        Err(_) => hay.to_string(),
    }
}

/// `Regex::find_iter(..).count()`: the number of non-overlapping matches of pattern `p`
/// (compiled from the string) in `hay`, named by [`regex_match_count`]; the pattern must
/// compile.
#[verifier::external_body]
fn regex_count(p: &str, hay: &str) -> (r: usize)
    requires
        regex_valid(p@),
    ensures
        r == regex_match_count(p@, hay@),
{
    match regex::Regex::new(p) {
        Ok(re) => re.find_iter(hay).count(),
        Err(_) => 0,
    }
}

// ---------------------------------------------------------------------------------------
// Text of commands
// ---------------------------------------------------------------------------------------

/// `s` without its leading whitespace.
pub open spec fn trim_start_chars(s: Seq<char>) -> Seq<char>
    decreases s.len(),
{
    if s.len() > 0 && whitespace_char(s[0]) {
        trim_start_chars(s.drop_first())
    } else {
        s
    }
}

/// `s` without its trailing whitespace.
pub open spec fn trim_end_chars(s: Seq<char>) -> Seq<char>
    decreases s.len(),
{
    if s.len() > 0 && whitespace_char(s.last()) {
        trim_end_chars(s.drop_last())
    } else {
        s
    }
}

/// `str::trim`: `s` without leading and trailing whitespace.
pub open spec fn trimmed(s: Seq<char>) -> Seq<char> {
    trim_end_chars(trim_start_chars(s))
}

/// Executable form of [`trimmed`].
pub fn trim_chars(s: &Vec<char>) -> (r: Vec<char>)
    ensures
        r@ == trimmed(s@),
{
    let n = s.len();
    let mut a: usize = 0;
    assert(s@.skip(0) =~= s@);
    while a < n && is_whitespace(s[a])
        invariant
            a <= n,
            n == s@.len(),
            trim_start_chars(s@) == trim_start_chars(s@.skip(a as int)),
        decreases n - a,
    {
        assert(s@.skip(a as int).drop_first() =~= s@.skip(a + 1));
        a = a + 1;
    }
    proof {
        if a == 0 {
            assert(s@.skip(0) =~= s@);
        }
    }
    let mut b: usize = n;
    let ghost t = s@.skip(a as int);
    assert(t == s@.subrange(a as int, n as int));
    while b > a && is_whitespace(s[b - 1])
        invariant
            a <= b <= n,
            n == s@.len(),
            t == s@.subrange(a as int, n as int),
            trim_start_chars(s@) == t,
            trim_end_chars(t) == trim_end_chars(s@.subrange(a as int, b as int)),
        decreases b,
    {
        assert(s@.subrange(a as int, b as int).drop_last() =~= s@.subrange(a as int, b - 1));
        b = b - 1;
    }
    crate::text::slice_chars(s, a, b)
}

/// Whether `s` holds the character `c`.
pub open spec fn has_char(s: Seq<char>, c: char) -> bool {
    exists|i: int| 0 <= i < s.len() && s[i] == c
}

/// Executable form of [`has_char`].
pub fn contains_char(s: &Vec<char>, c: char) -> (r: bool)
    ensures
        r == has_char(s@, c),
{
    let mut i: usize = 0;
    while i < s.len()
        invariant
            i <= s@.len(),
            forall|j: int| 0 <= j < i ==> s@[j] != c,
        decreases s@.len() - i,
    {
        if s[i] == c {
            return true;
        }
        i = i + 1;
    }
    false
}

/// The value of the decimal digits `s`.
pub open spec fn digits_value(s: Seq<char>) -> nat
    decreases s.len(),
{
    if s.len() == 0 {
        0
    } else {
        digits_value(s.drop_last()) * 10 + crate::text::digit_value(s.last())
    }
}

/// Whether every character of `s` is an ASCII digit.
pub open spec fn all_digits(s: Seq<char>) -> bool {
    forall|i: int| 0 <= i < s.len() ==> crate::text::ascii_digit(#[trigger] s[i])
}

/// `usize::from_str`: an optional `+` followed by at least one ASCII digit, whose value
/// fits in a `usize`.
pub open spec fn parsed_usize(s: Seq<char>) -> Option<nat> {
    let d = if s.len() > 0 && s[0] == '+' { s.drop_first() } else { s };
    if d.len() > 0 && all_digits(d) && digits_value(d) <= usize::MAX {
        Some(digits_value(d))
    } else {
        None
    }
}

/// Executable form of [`parsed_usize`].
pub fn parse_usize(s: &Vec<char>) -> (r: Option<usize>)
    ensures
        match r {
            Some(v) => parsed_usize(s@) == Some(v as nat),
            None => parsed_usize(s@) is None,
        },
{
    let start: usize = if s.len() > 0 && s[0] == '+' { 1 } else { 0 };
    let ghost d = if s@.len() > 0 && s@[0] == '+' { s@.drop_first() } else { s@ };
    assert(d =~= s@.skip(start as int));
    if start >= s.len() {
        return None;
    }
    let mut v: usize = 0;
    let mut i = start;
    while i < s.len()
        invariant
            start <= i <= s@.len(),
            d == s@.skip(start as int),
            d == (if s@.len() > 0 && s@[0] == '+' { s@.drop_first() } else { s@ }),
            all_digits(s@.subrange(start as int, i as int)),
            v == digits_value(s@.subrange(start as int, i as int)),
        decreases s@.len() - i,
    {
        let c = s[i];
        if !('0' <= c && c <= '9') {
            assert(d[i - start] == c);
            assert(!crate::text::ascii_digit(d[i - start]));
            return None;
        }
        let dv = crate::text::digit_of(c);
        assert(s@.subrange(start as int, i + 1).drop_last() =~= s@.subrange(start as int, i as int));
        if v > usize::MAX / 10 || dv > usize::MAX - v * 10 {
            proof {
                lemma_digits_value_prefix(d, (i + 1 - start) as nat);
                assert(s@.subrange(start as int, i + 1) =~= d.take(i + 1 - start));
                assert(digits_value(s@.subrange(start as int, i + 1)) == v * 10 + dv);
                assert(v * 10 + dv > usize::MAX);
            }
            return None;
        }
        v = v * 10 + dv;
        i = i + 1;
    }
    assert(s@.subrange(start as int, s@.len() as int) =~= d);
    Some(v)
}

/// The value of a prefix of digits is at most the value of all of them.
proof fn lemma_digits_value_prefix(d: Seq<char>, k: nat)
    requires
        k <= d.len(),
    ensures
        digits_value(d.take(k as int)) <= digits_value(d),
    decreases d.len(),
{
    if k < d.len() {
        assert(d.drop_last().take(k as int) =~= d.take(k as int));
        lemma_digits_value_prefix(d.drop_last(), k);
    } else {
        assert(d.take(k as int) =~= d);
    }
}

/// The state of splitting the body `s` of a substitution on the delimiter `delim`: the
/// parts closed so far and the part being read. A backslash before the delimiter puts the
/// delimiter into the part; any other backslash stays.
pub open spec fn split_from(s: Seq<char>, delim: char, parts: Seq<Seq<char>>, cur: Seq<char>) -> (Seq<Seq<char>>, Seq<char>)
    decreases s.len(),
{
    if s.len() == 0 {
        (parts, cur)
    } else if s[0] == '\\' {
        if s.len() > 1 && s[1] == delim {
            split_from(s.skip(2), delim, parts, cur.push(delim))
        } else {
            split_from(s.drop_first(), delim, parts, cur.push('\\'))
        }
    } else if s[0] == delim {
        split_from(s.drop_first(), delim, parts.push(cur), Seq::<char>::empty())
    } else {
        split_from(s.drop_first(), delim, parts, cur.push(s[0]))
    }
}

/// The parts of the body `s` split on `delim`, and the unfinished last part.
pub open spec fn split_body(s: Seq<char>, delim: char) -> (Seq<Seq<char>>, Seq<char>) {
    split_from(s, delim, Seq::empty(), Seq::empty())
}

/// Executable form of [`split_body`].
pub fn split_body_exec(s: &Vec<char>, delim: char) -> (r: (Vec<Vec<char>>, Vec<char>))
    ensures
        r.0@.map_values(|v: Vec<char>| v@) == split_body(s@, delim).0,
        r.1@ == split_body(s@, delim).1,
{
    let mut parts: Vec<Vec<char>> = Vec::new();
    let mut cur: Vec<char> = Vec::new();
    let mut i: usize = 0;
    let n = s.len();
    assert(s@.skip(0) =~= s@);
    assert(parts@.map_values(|v: Vec<char>| v@) =~= Seq::<Seq<char>>::empty());
    while i < n
        invariant
            i <= n,
            n == s@.len(),
            split_body(s@, delim) == split_from(s@.skip(i as int), delim, parts@.map_values(|v: Vec<char>| v@), cur@),
        decreases n - i,
    {
        let ghost rest = s@.skip(i as int);
        let c = s[i];
        assert(rest[0] == c);
        if c == '\\' {
            if i + 1 < n && s[i + 1] == delim {
                assert(rest[1] == s@[i + 1]);
                assert(rest.skip(2) =~= s@.skip(i + 2));
                cur.push(delim);
                i = i + 2;
            } else {
                assert(rest.drop_first() =~= s@.skip(i + 1));
                cur.push('\\');
                i = i + 1;
            }
        } else if c == delim {
            assert(rest.drop_first() =~= s@.skip(i + 1));
            let ghost before = parts@.map_values(|v: Vec<char>| v@);
            parts.push(cur);
            assert(parts@.map_values(|v: Vec<char>| v@) =~= before.push(cur@));
            cur = Vec::new();
            i = i + 1;
        } else {
            assert(rest.drop_first() =~= s@.skip(i + 1));
            cur.push(c);
            i = i + 1;
        }
    }
    (parts, cur)
}

/// Which lines a substitution covers.
#[derive(Clone, Copy, PartialEq, Eq, Structural)]
pub enum SubRange {
    /// The cursor line.
    Current,
    /// Every line (`%`).
    All,
    /// Lines `N,M` (counted from one).
    Lines(usize, usize),
}

/// A parsed substitution command.
pub struct SubstituteCmd {
    pub range: SubRange,
    pub pattern: String,
    pub replacement: String,
    pub global: bool,
    pub case_insensitive: bool,
}

/// The plain value of a parsed substitution: range, pattern, replacement, global flag and
/// case-insensitive flag.
pub type SubstituteView = (SubRange, Seq<char>, Seq<char>, bool, bool);

/// The first position of `c` in `s`.
pub open spec fn find_char(s: Seq<char>, c: char) -> Option<int> {
    super::motions::find_fwd(s, 0, c)
}

/// The range prefix of a substitution command and the text after it: `%` for every line,
/// `N,M` for lines N to M (the command then resumes at its first `s`), nothing for the
/// cursor line. None when `N,M` is malformed.
pub open spec fn sub_range_of(cmd: Seq<char>) -> Option<(SubRange, Seq<char>)> {
    if cmd.len() > 0 && cmd[0] == '%' {
        Some((SubRange::All, cmd.drop_first()))
    } else {
        match find_char(cmd, ',') {
            Some(comma) => {
                let before = cmd.take(comma);
                let after = cmd.skip(comma + 1);
                match find_char(after, 's') {
                    Some(sp) => match (parsed_usize(before), parsed_usize(after.take(sp))) {
                        (Some(a), Some(b)) => Some((SubRange::Lines(a as usize, b as usize), after.skip(sp))),
                        _ => None,
                    },
                    None => None,
                }
            },
            None => Some((SubRange::Current, cmd)),
        }
    }
}

/// What `:` parses as a substitution (`cmd` trimmed): the range, then `s`, a
/// non-alphanumeric delimiter and the body, split into pattern, replacement and flags
/// (`g` for every match of a line, `i` to ignore case). A missing closing delimiter after
/// the replacement is allowed; an empty pattern, or fewer than four characters after the
/// range, is not a substitution.
pub open spec fn parsed_substitute(cmd: Seq<char>) -> Option<SubstituteView> {
    match sub_range_of(cmd) {
        Some((range, rest)) => {
            if rest.len() < 4 || rest[0] != 's' || alphanumeric_char(rest[1]) {
                None
            } else {
                let (parts, cur) = split_body(rest.skip(2), rest[1]);
                if parts.len() == 0 {
                    None
                } else {
                    let pattern = parts[0];
                    let replacement = if parts.len() >= 2 { parts[1] } else { cur };
                    let flags = if parts.len() > 2 { parts[2] } else if parts.len() >= 2 { cur } else { Seq::empty() };
                    if pattern.len() == 0 {
                        None
                    } else {
                        Some((range, pattern, replacement, has_char(flags, 'g'), has_char(flags, 'i')))
                    }
                }
            }
        },
        None => None,
    }
}

/// The plain value of a parsed substitution.
pub open spec fn sub_view(s: SubstituteCmd) -> SubstituteView {
    (s.range, s.pattern@, s.replacement@, s.global, s.case_insensitive)
}


/// Executable form of [`find_char`].
fn find_char_exec(s: &Vec<char>, c: char) -> (r: Option<usize>)
    ensures
        match r {
            Some(k) => find_char(s@, c) == Some(k as int) && k < s@.len(),
            None => find_char(s@, c) is None,
        },
{
    super::motions::find_fwd_exec(s, 0, c)
}

/// Executable form of [`sub_range_of`]: the range and the position where the rest starts.
fn sub_range_exec(cmd: &Vec<char>) -> (r: Option<(SubRange, usize)>)
    ensures
        match r {
            Some((range, at)) => at <= cmd@.len() && sub_range_of(cmd@) == Some((range, cmd@.skip(at as int))),
            None => sub_range_of(cmd@) is None,
        },
{
    if cmd.len() > 0 && cmd[0] == '%' {
        assert(cmd@.drop_first() =~= cmd@.skip(1));
        return Some((SubRange::All, 1));
    }
    match find_char_exec(cmd, ',') {
        Some(comma) => {
            let before = crate::text::slice_chars(cmd, 0, comma);
            let after = crate::text::slice_chars(cmd, comma + 1, cmd.len());
            assert(before@ =~= cmd@.take(comma as int));
            assert(after@ =~= cmd@.skip(comma + 1));
            match find_char_exec(&after, 's') {
                Some(sp) => {
                    let end_str = crate::text::slice_chars(&after, 0, sp);
                    assert(end_str@ =~= after@.take(sp as int));
                    match (parse_usize(&before), parse_usize(&end_str)) {
                        (Some(a), Some(b)) => {
                            assert(after@.skip(sp as int) =~= cmd@.skip(comma + 1 + sp));
                            Some((SubRange::Lines(a, b), comma + 1 + sp))
                        },
                        _ => None,
                    }
                },
                None => None,
            }
        },
        None => {
            assert(cmd@.skip(0) =~= cmd@);
            Some((SubRange::Current, 0))
        },
    }
}

/// Parse a substitution command like `s/foo/bar/g`, `%s/foo/bar/gi`, `1,5s/foo/bar/`.
pub fn parse_substitute(cmd: &Vec<char>) -> (r: Option<SubstituteCmd>)
    ensures
        match r {
            Some(sub) => parsed_substitute(cmd@) == Some(sub_view(sub)),
            None => parsed_substitute(cmd@) is None,
        },
{
    let (range, at) = match sub_range_exec(cmd) {
        Some(p) => p,
        None => return None,
    };
    let rest = crate::text::slice_chars(cmd, at, cmd.len());
    assert(rest@ =~= cmd@.skip(at as int));
    if rest.len() < 4 || rest[0] != 's' || is_alphanumeric(rest[1]) {
        return None;
    }
    let delim = rest[1];
    let body = crate::text::slice_chars(&rest, 2, rest.len());
    assert(body@ =~= rest@.skip(2));
    let (parts, cur) = split_body_exec(&body, delim);
    let ghost pv = parts@.map_values(|v: Vec<char>| v@);
    if parts.len() == 0 {
        return None;
    }
    assert(pv[0] == parts@[0]@);
    let pattern = string_of(&parts[0]);
    let replacement = if parts.len() >= 2 {
        assert(pv[1] == parts@[1]@);
        string_of(&parts[1])
    } else {
        string_of(&cur)
    };
    let flags: Vec<char> = if parts.len() > 2 {
        assert(pv[2] == parts@[2]@);
        let mut f: Vec<char> = Vec::new();
        crate::text::extend_chars(&mut f, &parts[2]);
        f
    } else if parts.len() >= 2 {
        let mut f: Vec<char> = Vec::new();
        crate::text::extend_chars(&mut f, &cur);
        f
    } else {
        Vec::new()
    };
    if parts[0].len() == 0 {
        return None;
    }
    let global = contains_char(&flags, 'g');
    let case_insensitive = contains_char(&flags, 'i');
    Some(SubstituteCmd { range, pattern, replacement, global, case_insensitive })
}

/// The pieces of a substitution command typed so far (for the live preview): the pattern,
/// the replacement once the pattern is closed, whether it covers every line (`%`), and
/// the flags. The range may only be `%` or made of digits and commas before the `s`; the
/// command needs `s`, a non-alphanumeric delimiter and one more character; a pattern still
/// being typed is given without replacement.
pub open spec fn substitute_parts(cmd: Seq<char>) -> Option<(Seq<char>, Option<Seq<char>>, bool, Seq<char>)> {
    let pre = if cmd.len() > 0 && cmd[0] == '%' {
        Some((true, cmd.drop_first()))
    } else {
        match find_char(cmd, 's') {
            Some(pos) => if forall|i: int| 0 <= i < pos ==> (crate::text::ascii_digit(#[trigger] cmd[i]) || cmd[i] == ',') {
                Some((false, cmd.skip(pos)))
            } else {
                None
            },
            None => None,
        }
    };
    match pre {
        Some((all, rest)) => if rest.len() < 3 || rest[0] != 's' || alphanumeric_char(rest[1]) {
            None
        } else {
            let (parts, cur) = split_body(rest.skip(2), rest[1]);
            if parts.len() == 0 {
                if cur.len() > 0 {
                    Some((cur, None, all, Seq::empty()))
                } else {
                    None
                }
            } else if parts[0].len() == 0 {
                None
            } else {
                let replacement = if parts.len() >= 2 { parts[1] } else { cur };
                let flags = if parts.len() >= 3 { parts[2] } else if parts.len() >= 2 { cur } else { Seq::empty() };
                Some((parts[0], Some(replacement), all, flags))
            }
        },
        None => None,
    }
}

/// Whether the characters `s[0..k]` are all digits or commas.
fn digits_or_commas(s: &Vec<char>, k: usize) -> (r: bool)
    requires
        k <= s@.len(),
    ensures
        r == forall|i: int| 0 <= i < k ==> (crate::text::ascii_digit(#[trigger] s@[i]) || s@[i] == ','),
{
    let mut i: usize = 0;
    while i < k
        invariant
            i <= k <= s@.len(),
            forall|j: int| 0 <= j < i ==> (crate::text::ascii_digit(#[trigger] s@[j]) || s@[j] == ','),
        decreases k - i,
    {
        let c = s[i];
        if !(('0' <= c && c <= '9') || c == ',') {
            return false;
        }
        i = i + 1;
    }
    true
}

/// Executable form of [`substitute_parts`].
pub fn extract_substitute_parts(cmd: &Vec<char>) -> (r: Option<(String, Option<String>, bool, String)>)
    ensures
        match substitute_parts(cmd@) {
            Some((p, rep, all, flags)) => r matches Some((a, b, c, d)) && a@ == p && c == all && d@ == flags && match rep {
                Some(x) => b matches Some(y) && y@ == x,
                None => b is None,
            },
            None => r is None,
        },
{
    let (all, at): (bool, usize) = if cmd.len() > 0 && cmd[0] == '%' {
        assert(cmd@.drop_first() =~= cmd@.skip(1));
        (true, 1)
    } else {
        match find_char_exec(cmd, 's') {
            Some(pos) => if digits_or_commas(cmd, pos) {
                (false, pos)
            } else {
                return None;
            },
            None => return None,
        }
    };
    let rest = crate::text::slice_chars(cmd, at, cmd.len());
    assert(rest@ =~= cmd@.skip(at as int));
    if rest.len() < 3 || rest[0] != 's' || is_alphanumeric(rest[1]) {
        return None;
    }
    let body = crate::text::slice_chars(&rest, 2, rest.len());
    assert(body@ =~= rest@.skip(2));
    let (parts, cur) = split_body_exec(&body, rest[1]);
    let ghost pv = parts@.map_values(|v: Vec<char>| v@);
    if parts.len() == 0 {
        if cur.len() > 0 {
            return Some((string_of(&cur), None, all, String::new()));
        }
        return None;
    }
    assert(pv[0] == parts@[0]@);
    if parts[0].len() == 0 {
        return None;
    }
    let replacement = if parts.len() >= 2 {
        assert(pv[1] == parts@[1]@);
        string_of(&parts[1])
    } else {
        string_of(&cur)
    };
    let flags = if parts.len() >= 3 {
        assert(pv[2] == parts@[2]@);
        string_of(&parts[2])
    } else if parts.len() >= 2 {
        string_of(&cur)
    } else {
        String::new()
    };
    Some((string_of(&parts[0]), Some(replacement), all, flags))
}

/// Smartcase: a pattern matches without regard to case when the flags hold `i` or the
/// pattern has no uppercase character.
pub open spec fn smartcase_insensitive(pattern: Seq<char>, flags: Seq<char>) -> bool {
    has_char(flags, 'i') || !(exists|i: int| 0 <= i < pattern.len() && uppercase_char(#[trigger] pattern[i]))
}

/// Determine if a pattern should be case-insensitive (smartcase): all-lowercase →
/// insensitive, any uppercase → sensitive. The `i` flag forces insensitive regardless.
pub fn is_smartcase_insensitive(pattern: &Vec<char>, flags: &Vec<char>) -> (r: bool)
    ensures
        r == smartcase_insensitive(pattern@, flags@),
{
    if contains_char(flags, 'i') {
        return true;
    }
    let mut i: usize = 0;
    while i < pattern.len()
        invariant
            i <= pattern@.len(),
            !has_char(flags@, 'i'),
            forall|j: int| 0 <= j < i ==> !uppercase_char(#[trigger] pattern@[j]),
        decreases pattern@.len() - i,
    {
        if is_uppercase(pattern[i]) {
            assert(uppercase_char(pattern@[i as int]));
            return false;
        }
        i = i + 1;
    }
    true
}


/// The regular expression a substitution runs: its pattern, made case-insensitive with
/// `(?i)` when the command says so or by smartcase.
pub open spec fn sub_regex(sub: SubstituteView) -> Seq<char> {
    if sub.4 || smartcase_insensitive(sub.1, Seq::empty()) {
        seq!['(', '?', 'i', ')'] + sub.1
    } else {
        sub.1
    }
}

/// The rows `a..=b` a substitution covers in a buffer of `n` lines with the cursor on
/// `row`: the cursor line, every line, or lines `N..=M` (counted from one, bound by the
/// last line).
pub open spec fn sub_rows(range: SubRange, n: int, row: int) -> (int, int) {
    match range {
        SubRange::Current => (row, row),
        SubRange::All => (0, sat_sub(n, 1)),
        SubRange::Lines(s, e) => (min_int(sat_sub(s as int, 1), sat_sub(n, 1)), min_int(sat_sub(e as int, 1), sat_sub(n, 1))),
    }
}

/// A line after the substitution: the first match replaced, or every match when `global`.
pub open spec fn sub_line(rx: Seq<char>, line: Seq<char>, rep: Seq<char>, global: bool) -> Seq<char> {
    if global {
        regex_replace_every(rx, line, rep)
    } else {
        regex_replace_first(rx, line, rep)
    }
}

/// The lines after a substitution over rows `a..=b`.
pub open spec fn substituted(text: Seq<Seq<char>>, rx: Seq<char>, rep: Seq<char>, global: bool, a: int, b: int) -> Seq<Seq<char>> {
    Seq::new(text.len(), |i: int| if a <= i <= b { sub_line(rx, text[i], rep, global) } else { text[i] })
}

/// The replacements a substitution makes in rows `a..k` (saturating): on each changed
/// row, its number of matches when `global`, one otherwise.
pub open spec fn replacements(text: Seq<Seq<char>>, rx: Seq<char>, rep: Seq<char>, global: bool, a: int, k: int) -> nat
    decreases k - a,
{
    if k <= a {
        0
    } else {
        let before = replacements(text, rx, rep, global, a, k - 1);
        let line = text[k - 1];
        if sub_line(rx, line, rep, global) != line {
            min_int(before + if global { regex_match_count(rx, line) as int } else { 1int }, usize::MAX as int) as nat
        } else {
            before
        }
    }
}

/// The number of rows in `a..k` that a substitution changes.
pub open spec fn changed_rows(text: Seq<Seq<char>>, rx: Seq<char>, rep: Seq<char>, global: bool, a: int, k: int) -> nat
    decreases k - a,
{
    if k <= a {
        0
    } else {
        changed_rows(text, rx, rep, global, a, k - 1) + if sub_line(rx, text[k - 1], rep, global) != text[k - 1] { 1nat } else { 0nat }
    }
}

/// The report of a substitution: `N substitution(s) on M line(s)`, or that the pattern was
/// not found.
pub open spec fn sub_report(total: nat, lines: nat, pattern: Seq<char>) -> Seq<char> {
    if total > 0 {
        decimal(total) + (if total == 1 { " substitution"@ } else { " substitutions"@ }) + " on "@ + decimal(lines)
            + (if lines == 1 { " line"@ } else { " lines"@ })
    } else {
        "E486: Pattern not found: "@ + pattern
    }
}

impl VimEditor {
    /// The lines after a substitution over rows `a..=b`, the number of replacements and of
    /// changed rows.
    fn substitution_lines(&self, rx: &str, rep: &str, global: bool, a: usize, b: usize) -> (r: (Vec<String>, usize, usize))
        requires
            regex_valid(rx@),
            b < self.text().len(),
        ensures
            r.0.deep_view() == substituted(self.text(), rx@, rep@, global, a as int, b as int),
            r.1 == replacements(self.text(), rx@, rep@, global, a as int, if a <= b { b + 1 } else { a as int }),
            r.2 == changed_rows(self.text(), rx@, rep@, global, a as int, if a <= b { b + 1 } else { a as int }),
    {
        let ghost t = self.text();
        let n = self.lines.len();
        let mut out: Vec<String> = Vec::new();
        let mut total: usize = 0;
        let mut changed: usize = 0;
        let mut i: usize = 0;
        while i < n
            invariant
                i <= n,
                n == t.len(),
                t == self.text(),
                b < n,
                regex_valid(rx@),
                out@.len() == i,
                forall|j: int| 0 <= j < i ==> #[trigger] out@[j]@ == substituted(t, rx@, rep@, global, a as int, b as int)[j],
                total == replacements(t, rx@, rep@, global, a as int, if a <= i { if i <= b + 1 { i as int } else { b + 1 } } else { a as int }),
                changed == changed_rows(t, rx@, rep@, global, a as int, if a <= i { if i <= b + 1 { i as int } else { b + 1 } } else { a as int }),
                changed <= i,
            decreases n - i,
        {
            if a <= i && i <= b {
                let line = self.lines[i].as_str();
                let new_line = if global { regex_replace_all(rx, line, rep) } else { regex_replace(rx, line, rep) };
                let nv = chars_of(new_line.as_str());
                let lv = chars_of(line);
                if !chars_equal(&nv, &lv) {
                    let add = if global { regex_count(rx, line) } else { 1 };
                    total = if add > usize::MAX - total { usize::MAX } else { total + add };
                    changed = changed + 1;
                }
                out.push(new_line);
            } else {
                out.push(self.lines[i].clone());
            }
            i = i + 1;
        }
        assert(out.deep_view() =~= substituted(t, rx@, rep@, global, a as int, b as int));
        (out, total, changed)
    }
}

/// Whether two character vectors are equal.
pub(crate) fn chars_equal(a: &Vec<char>, b: &Vec<char>) -> (r: bool)
    ensures
        r == (a@ == b@),
{
    if a.len() != b.len() {
        return false;
    }
    let mut i: usize = 0;
    while i < a.len()
        invariant
            i <= a@.len(),
            a@.len() == b@.len(),
            forall|j: int| 0 <= j < i ==> a@[j] == b@[j],
        decreases a@.len() - i,
    {
        if a[i] != b[i] {
            return false;
        }
        i = i + 1;
    }
    assert(a@ =~= b@);
    true
}


/// Whether `new` is `old` after running the substitution `v`: with an invalid pattern only
/// the report on the command line changes; otherwise the state is saved for undo, the rows
/// of the range are substituted, the buffer is marked modified when anything was replaced,
/// the outcome is reported and the cursor stays.
pub open spec fn substitution_done(old: VimEditor, new: VimEditor, v: SubstituteView) -> bool {
    let rx = sub_regex(v);
    if !regex_valid(rx) {
        &&& new == (VimEditor { command_line: new.command_line, ..old })
        &&& new.command_line@ == "E486: Invalid pattern: "@ + v.1
    } else {
        let (a, b) = sub_rows(v.0, old.text().len() as int, old.cursor_row as int);
        let k = if a <= b { b + 1 } else { a };
        let total = replacements(old.text(), rx, v.2, v.3, a, k);
        &&& new == (VimEditor {
            lines: new.lines,
            undo_stack: new.undo_stack,
            redo_stack: new.redo_stack,
            modified: new.modified,
            command_line: new.command_line,
            ..old
        })
        &&& new.history_saved(&old)
        &&& new.text() == substituted(old.text(), rx, v.2, v.3, a, b)
        &&& new.modified == (old.modified || total > 0)
        &&& new.command_line@ == sub_report(total, changed_rows(old.text(), rx, v.2, v.3, a, k), v.1)
    }
}

impl VimEditor {
    /// The regular expression of `sub`, executably.
    fn sub_regex_exec(sub: &SubstituteCmd) -> (r: String)
        ensures
            r@ == sub_regex(sub_view(*sub)),
    {
        let pattern = chars_of(sub.pattern.as_str());
        let no_flags: Vec<char> = Vec::new();
        assert(no_flags@ =~= Seq::<char>::empty());
        let ci = sub.case_insensitive || is_smartcase_insensitive(&pattern, &no_flags);
        if ci {
            let mut p = String::new();
            push_char(&mut p, '(');
            push_char(&mut p, '?');
            push_char(&mut p, 'i');
            push_char(&mut p, ')');
            concat_strings(p.as_str(), sub.pattern.as_str())
        } else {
            sub.pattern.clone()
        }
    }

    /// Run a substitution: an invalid pattern is reported and nothing else happens;
    /// otherwise the state is saved for undo, the rows of the range are substituted, the
    /// buffer is marked modified when anything was replaced, and the outcome is reported on
    /// the command line.
    pub fn execute_substitute(&mut self, sub: SubstituteCmd)
        requires
            old(self).inv(),
        ensures
            final(self).inv(),
            final(self).config == old(self).config,
            substitution_done(*old(self), *final(self), sub_view(sub)),
    {
        let rx = Self::sub_regex_exec(&sub);
        if !regex_compiles(rx.as_str()) {
            self.command_line = concat_strings("E486: Invalid pattern: ", sub.pattern.as_str());
            return;
        }
        self.substitute_rows(rx.as_str(), &sub);
    }

    /// Runs the substitution `sub`, whose regular expression `rx` is valid.
    fn substitute_rows(&mut self, rx: &str, sub: &SubstituteCmd)
        requires
            old(self).inv(),
            rx@ == sub_regex(sub_view(*sub)),
            regex_valid(rx@),
        ensures
            final(self).inv(),
            final(self).config == old(self).config,
            substitution_done(*old(self), *final(self), sub_view(*sub)),
    {
        let (a, b) = self.sub_rows_exec(sub.range);
        let (lines, total, changed) = self.substitution_lines(rx, sub.replacement.as_str(), sub.global, a, b);
        let msg = report_text(total, changed, sub.pattern.as_str());
        let ghost before = *self;
        self.apply_substitution(lines, total > 0, msg);
        let ghost after = *self;
        assert(after == (VimEditor {
            lines: after.lines,
            undo_stack: after.undo_stack,
            redo_stack: after.redo_stack,
            modified: after.modified,
            command_line: after.command_line,
            ..before
        }));
        assert(substitution_done(before, after, sub_view(*sub)));
    }

    /// The rows of `range`, executably.
    fn sub_rows_exec(&self, range: SubRange) -> (r: (usize, usize))
        requires
            self.wf(),
        ensures
            (r.0 as int, r.1 as int) == sub_rows(range, self.text().len() as int, self.cursor_row as int),
            r.1 < self.text().len(),
    {
        let n = self.lines.len();
        let last = n - 1;
        match range {
            SubRange::Current => (self.cursor_row, self.cursor_row),
            SubRange::All => (0, last),
            SubRange::Lines(s, e) => {
                let s1 = if s > 0 { s - 1 } else { 0 };
                let e1 = if e > 0 { e - 1 } else { 0 };
                (if s1 < last { s1 } else { last }, if e1 < last { e1 } else { last })
            },
        }
    }

    /// Saves the state for undo and puts in the lines and the report of a substitution.
    fn apply_substitution(&mut self, lines: Vec<String>, changed: bool, msg: String)
        requires
            old(self).inv(),
            lines.deep_view().len() == old(self).text().len(),
        ensures
            final(self).inv(),
            final(self).config == old(self).config,
            final(self).history_saved(old(self)),
            final(self).text() == lines.deep_view(),
            final(self).modified == (old(self).modified || changed),
            final(self).command_line == msg,
            *final(self) == (VimEditor {
                lines: final(self).lines,
                undo_stack: final(self).undo_stack,
                redo_stack: final(self).redo_stack,
                modified: final(self).modified,
                command_line: final(self).command_line,
                ..*old(self)
            }),
    {
        self.save_undo();
        assert(lines.deep_view().len() == lines@.len());
        self.lines = lines;
        self.modified = self.modified || changed;
        self.command_line = msg;
    }
}

/// Executable form of [`sub_report`].
fn report_text(total: usize, lines: usize, pattern: &str) -> (r: String)
    ensures
        r@ == sub_report(total as nat, lines as nat, pattern@),
{
    if total > 0 {
        let mut msg = decimal_string(total as u128);
        msg = concat_strings(msg.as_str(), if total == 1 { " substitution" } else { " substitutions" });
        msg = concat_strings(msg.as_str(), " on ");
        let lines_text = decimal_string(lines as u128);
        msg = concat_strings(msg.as_str(), lines_text.as_str());
        msg = concat_strings(msg.as_str(), if lines == 1 { " line" } else { " lines" });
        msg
    } else {
        concat_strings("E486: Pattern not found: ", pattern)
    }
}

} // verus!
