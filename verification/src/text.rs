//! Text of the buffer as sequences of characters: conversions between strings and
//! character vectors, the splitting of a text into lines and the joining of lines, and
//! the character classes that motions and case operations use.
use vstd::prelude::*;

verus! {

// ---------------------------------------------------------------------------------------
// Character classes (std's `char` methods)
// ---------------------------------------------------------------------------------------

/// `char::is_whitespace`: whether `c` has the Unicode `White_Space` property, which the
/// Unicode character database gives to exactly these characters.
pub open spec fn whitespace_char(c: char) -> bool {
    ||| '\u{9}' <= c <= '\u{d}'
    ||| c == ' ' || c == '\u{85}' || c == '\u{a0}' || c == '\u{1680}'
    ||| '\u{2000}' <= c <= '\u{200a}'
    ||| c == '\u{2028}' || c == '\u{2029}' || c == '\u{202f}' || c == '\u{205f}' || c == '\u{3000}'
}

/// The value of `char::is_alphanumeric` (Unicode `Alphabetic` or `Numeric`).
pub uninterp spec fn alphanumeric_char(c: char) -> bool;

/// The value of `char::is_uppercase` (Unicode `Uppercase`).
pub uninterp spec fn uppercase_char(c: char) -> bool;

/// The characters of `str::to_lowercase` applied to a string with the characters `s`.
pub uninterp spec fn lowercase_of(s: Seq<char>) -> Seq<char>;

/// The characters of `str::to_uppercase` applied to a string with the characters `s`.
pub uninterp spec fn uppercase_of(s: Seq<char>) -> Seq<char>;

/// The characters of `char::to_lowercase` for `c`.
pub uninterp spec fn lower_char(c: char) -> Seq<char>;

/// The characters of `char::to_uppercase` for `c`.
pub uninterp spec fn upper_char(c: char) -> Seq<char>;

/// `char::to_lowercase`, collected into a string: the lowercase mapping of `c` (one or
/// more characters).
#[verifier::external_body]
pub(crate) fn char_to_lowercase(c: char) -> (r: String)
    ensures
        r@ == lower_char(c),
{
    c.to_lowercase().to_string()
}

/// `char::to_uppercase`, collected into a string: the uppercase mapping of `c` (one or
/// more characters).
#[verifier::external_body]
pub(crate) fn char_to_uppercase(c: char) -> (r: String)
    ensures
        r@ == upper_char(c),
{
    c.to_uppercase().to_string()
}

/// Whether `c` is whitespace ([`whitespace_char`]).
pub fn is_whitespace(c: char) -> (r: bool)
    ensures
        r == whitespace_char(c),
{
    ('\u{9}' <= c && c <= '\u{d}') || c == ' ' || c == '\u{85}' || c == '\u{a0}' || c == '\u{1680}'
        || ('\u{2000}' <= c && c <= '\u{200a}') || c == '\u{2028}' || c == '\u{2029}' || c == '\u{202f}'
        || c == '\u{205f}' || c == '\u{3000}'
}

/// `char::is_alphanumeric`: whether `c` is alphabetic or numeric in Unicode; among the ASCII
/// characters these are exactly the letters and digits, as std documents.
#[verifier::external_body]
pub(crate) fn is_alphanumeric(c: char) -> (r: bool)
    ensures
        r == alphanumeric_char(c),
        c < '\u{80}' ==> (r <==> ('a' <= c && c <= 'z' || 'A' <= c && c <= 'Z' || '0' <= c && c <= '9')),
{
    c.is_alphanumeric()
}

/// `char::is_uppercase`: whether `c` has the Unicode `Uppercase` property; among the ASCII
/// characters these are exactly `A` to `Z`, as std documents.
#[verifier::external_body]
pub(crate) fn is_uppercase(c: char) -> (r: bool)
    ensures
        r == uppercase_char(c),
        c < '\u{80}' ==> (r <==> ('A' <= c && c <= 'Z')),
{
    c.is_uppercase()
}

/// `str::to_lowercase`: the lowercase mapping of every character of `s`.
#[verifier::external_body]
pub(crate) fn to_lowercase(s: &str) -> (r: String)
    ensures
        r@ == lowercase_of(s@),
{
    s.to_lowercase()
}

/// `str::to_uppercase`: the uppercase mapping of every character of `s`.
#[verifier::external_body]
pub(crate) fn to_uppercase(s: &str) -> (r: String)
    ensures
        r@ == uppercase_of(s@),
{
    s.to_uppercase()
}

/// Whether `c` belongs to a word: for a WORD (`big_word`) any non-whitespace character,
/// otherwise an alphanumeric character or `_`.
pub open spec fn word_char(c: char, big_word: bool) -> bool {
    if big_word {
        !whitespace_char(c)
    } else {
        alphanumeric_char(c) || c == '_'
    }
}

/// Executable form of [`word_char`].
pub fn is_word_char(c: char, big_word: bool) -> (r: bool)
    ensures
        r == word_char(c, big_word),
{
    if big_word {
        !is_whitespace(c)
    } else {
        is_alphanumeric(c) || c == '_'
    }
}

/// Whether `c` is one of the ASCII digits `0`..=`9`.
pub open spec fn ascii_digit(c: char) -> bool {
    '0' <= c && c <= '9'
}

/// The value of an ASCII digit.
pub open spec fn digit_value(c: char) -> nat {
    (c as int - '0' as int) as nat
}

/// Executable form of [`digit_value`] for a digit.
pub fn digit_of(c: char) -> (r: usize)
    requires
        ascii_digit(c),
    ensures
        r == digit_value(c),
        r < 10,
{
    let d = c as u32 - '0' as u32;
    d as usize
}

// ---------------------------------------------------------------------------------------
// Strings and character vectors
// ---------------------------------------------------------------------------------------

/// Appends one character to a string (`String::push`).
#[verifier::external_body]
pub(crate) fn push_char(s: &mut String, c: char)
    ensures
        final(s)@ == old(s)@.push(c),
{
    s.push(c);
}

/// The characters of `s`, in order.
pub fn chars_of(s: &str) -> (r: Vec<char>)
    ensures
        r@ == s@,
{
    let mut r: Vec<char> = Vec::new();
    for c in it: s.chars()
        invariant
            r@ == it.seq().take(it.index() as int),
            it.seq() == s@,
    {
        r.push(c);
    }
    r
}

/// A string holding exactly the characters of `v`.
pub fn string_of(v: &[char]) -> (r: String)
    ensures
        r@ == v@,
{
    let mut r = String::new();
    let n = v.len();
    for i in 0..n
        invariant
            n == v@.len(),
            r@ == v@.take(i as int),
    {
        push_char(&mut r, v[i]);
        assert(v@.take(i as int).push(v@[i as int]) =~= v@.take(i + 1));
    }
    assert(v@.take(n as int) =~= v@);
    r
}

/// The characters of `v` from `from` up to (not including) `to`.
pub fn slice_chars(v: &[char], from: usize, to: usize) -> (r: Vec<char>)
    requires
        from <= to <= v@.len(),
    ensures
        r@ == v@.subrange(from as int, to as int),
{
    let mut r: Vec<char> = Vec::new();
    let mut i = from;
    while i < to
        invariant
            from <= i <= to <= v@.len(),
            r@ == v@.subrange(from as int, i as int),
        decreases to - i,
    {
        r.push(v[i]);
        assert(v@.subrange(from as int, i as int).push(v@[i as int]) =~= v@.subrange(
            from as int,
            i + 1,
        ));
        i += 1;
    }
    r
}

/// Appends the characters of `w` to `v`.
pub fn extend_chars(v: &mut Vec<char>, w: &[char])
    ensures
        final(v)@ == old(v)@ + w@,
{
    let n = w.len();
    for i in 0..n
        invariant
            n == w@.len(),
            v@ == old(v)@ + w@.take(i as int),
    {
        v.push(w[i]);
        assert(old(v)@ + w@.take(i as int).push(w@[i as int]) =~= old(v)@ + w@.take(i + 1));
    }
    assert(w@.take(n as int) =~= w@);
}

/// A string of the characters of `a` followed by those of `b`.
pub fn concat_strings(a: &str, b: &str) -> (r: String)
    ensures
        r@ == a@ + b@,
{
    let mut v = chars_of(a);
    let w = chars_of(b);
    extend_chars(&mut v, &w);
    string_of(&v)
}

/// A copy of `v`, line by line.
pub fn clone_lines(v: &Vec<String>) -> (r: Vec<String>)
    ensures
        r.deep_view() == v.deep_view(),
{
    let mut r: Vec<String> = Vec::new();
    let n = v.len();
    for i in 0..n
        invariant
            n == v@.len(),
            r@.len() == i,
            forall|j: int| 0 <= j < i ==> #[trigger] r@[j]@ == v@[j]@,
    {
        r.push(v[i].clone());
    }
    assert(r.deep_view() =~= v.deep_view());
    r
}

/// Appends copies of lines `from..to` of `src` to `out`.
pub fn push_lines(out: &mut Vec<String>, src: &Vec<String>, from: usize, to: usize)
    requires
        from <= to <= src@.len(),
    ensures
        final(out).deep_view() == old(out).deep_view() + src.deep_view().subrange(from as int, to as int),
{
    let ghost o = old(out).deep_view();
    let ghost sv = src.deep_view();
    let mut i = from;
    while i < to
        invariant
            from <= i <= to <= src@.len(),
            sv == src.deep_view(),
            out@.len() == o.len() + (i - from),
            forall|j: int| 0 <= j < o.len() ==> #[trigger] out@[j]@ == o[j],
            forall|j: int| o.len() <= j < out@.len() ==> #[trigger] out@[j]@ == sv[j - o.len() + from],
        decreases to - i,
    {
        let s = src[i].clone();
        out.push(s);
        i += 1;
    }
    assert(out.deep_view() =~= o + sv.subrange(from as int, to as int));
}

/// A string of `n` spaces.
pub open spec fn spaces(n: nat) -> Seq<char> {
    Seq::new(n, |i: int| ' ')
}

/// The number of leading characters of `s` that satisfy [`whitespace_char`].
pub open spec fn leading_ws(s: Seq<char>) -> nat
    decreases s.len(),
{
    if s.len() > 0 && whitespace_char(s[0]) {
        1 + leading_ws(s.drop_first())
    } else {
        0
    }
}

/// Facts about [`leading_ws`]: it is at most the length, every counted character is
/// whitespace, and the next one (if any) is not.
pub proof fn lemma_leading_ws(s: Seq<char>)
    ensures
        leading_ws(s) <= s.len(),
        forall|i: int| 0 <= i < leading_ws(s) ==> whitespace_char(#[trigger] s[i]),
        leading_ws(s) < s.len() ==> !whitespace_char(s[leading_ws(s) as int]),
    decreases s.len(),
{
    if s.len() > 0 && whitespace_char(s[0]) {
        lemma_leading_ws(s.drop_first());
        assert forall|i: int| 0 <= i < leading_ws(s) implies whitespace_char(#[trigger] s[i]) by {
            if i > 0 {
                assert(s[i] == s.drop_first()[i - 1]);
            }
        }
    }
}

/// The length of the leading whitespace of `v` (what `trim_start` removes).
pub fn leading_whitespace_len(v: &[char]) -> (r: usize)
    ensures
        r == leading_ws(v@),
{
    let mut i: usize = 0;
    proof {
        lemma_leading_ws(v@);
    }
    while i < v.len() && is_whitespace(v[i])
        invariant
            i <= v@.len(),
            forall|j: int| 0 <= j < i ==> whitespace_char(#[trigger] v@[j]),
            leading_ws(v@) <= v@.len(),
            forall|j: int| 0 <= j < leading_ws(v@) ==> whitespace_char(#[trigger] v@[j]),
            leading_ws(v@) < v@.len() ==> !whitespace_char(v@[leading_ws(v@) as int]),
        decreases v@.len() - i,
    {
        i += 1;
    }
    proof {
        lemma_leading_ws_exact(v@, i as nat);
    }
    i
}

/// [`leading_ws`] is the first position that is not whitespace (or the length).
pub proof fn lemma_leading_ws_exact(s: Seq<char>, k: nat)
    requires
        k <= s.len(),
        forall|j: int| 0 <= j < k ==> whitespace_char(#[trigger] s[j]),
        k == s.len() || !whitespace_char(s[k as int]),
    ensures
        leading_ws(s) == k,
    decreases s.len(),
{
    if k > 0 {
        assert(whitespace_char(s[0]));
        assert forall|j: int| 0 <= j < k - 1 implies whitespace_char(#[trigger] s.drop_first()[j]) by {
            assert(s.drop_first()[j] == s[j + 1]);
        }
        if k < s.len() {
            assert(s.drop_first()[k - 1] == s[k as int]);
        }
        lemma_leading_ws_exact(s.drop_first(), (k - 1) as nat);
    } else {
        if s.len() > 0 {
            assert(!whitespace_char(s[0]));
        }
    }
}

// ---------------------------------------------------------------------------------------
// Splitting a text into lines and joining lines
// ---------------------------------------------------------------------------------------

/// `s` with every tab replaced by four spaces.
pub open spec fn expand_tabs(s: Seq<char>) -> Seq<char>
    decreases s.len(),
{
    if s.len() == 0 {
        s
    } else if s.last() == '\t' {
        expand_tabs(s.drop_last()) + spaces(4)
    } else {
        expand_tabs(s.drop_last()).push(s.last())
    }
}

/// The pieces of `s` between newline characters: one more piece than there are newlines.
pub open spec fn split_pieces(s: Seq<char>) -> Seq<Seq<char>>
    decreases s.len(),
{
    if s.len() == 0 {
        seq![Seq::<char>::empty()]
    } else {
        let p = split_pieces(s.drop_last());
        if s.last() == '\n' {
            p.push(Seq::<char>::empty())
        } else {
            p.update(p.len() - 1, p.last().push(s.last()))
        }
    }
}

/// A piece that ended in a line break, without the carriage return of a `\r\n` ending.
pub open spec fn strip_cr(l: Seq<char>) -> Seq<char> {
    if l.len() > 0 && l.last() == '\r' {
        l.drop_last()
    } else {
        l
    }
}

/// The lines of `s` as `str::lines` yields them: the text is split at `\n` or `\r\n`, and
/// a final empty piece after a last line break is not a line.
pub open spec fn std_lines(s: Seq<char>) -> Seq<Seq<char>> {
    let p = split_pieces(s);
    let n = p.len();
    Seq::new((n - 1) as nat, |i: int| strip_cr(p[i])) + if p[n - 1].len() > 0 {
        seq![p[n - 1]]
    } else {
        Seq::<Seq<char>>::empty()
    }
}

/// The lines of a buffer holding the text `s`: tabs become four spaces, and an empty text
/// is one empty line.
pub open spec fn buffer_lines(s: Seq<char>) -> Seq<Seq<char>> {
    if expand_tabs(s).len() == 0 {
        seq![Seq::<char>::empty()]
    } else {
        std_lines(expand_tabs(s))
    }
}

/// The lines joined with `\n` between each two of them.
pub open spec fn join_lines(ls: Seq<Seq<char>>) -> Seq<char>
    decreases ls.len(),
{
    if ls.len() == 0 {
        Seq::<char>::empty()
    } else if ls.len() == 1 {
        ls[0]
    } else {
        join_lines(ls.drop_last()) + seq!['\n'] + ls.last()
    }
}

/// [`split_pieces`] always yields at least one piece.
pub proof fn lemma_split_pieces_nonempty(s: Seq<char>)
    ensures
        split_pieces(s).len() >= 1,
    decreases s.len(),
{
    if s.len() > 0 {
        lemma_split_pieces_nonempty(s.drop_last());
    }
}

/// The characters of `s` with every tab replaced by four spaces.
pub fn expand_tabs_of(s: &[char]) -> (r: Vec<char>)
    ensures
        r@ == expand_tabs(s@),
{
    let mut r: Vec<char> = Vec::new();
    let n = s.len();
    for i in 0..n
        invariant
            n == s@.len(),
            r@ == expand_tabs(s@.take(i as int)),
    {
        let ghost before = r@;
        assert(s@.take(i + 1).drop_last() =~= s@.take(i as int));
        if s[i] == '\t' {
            r.push(' ');
            r.push(' ');
            r.push(' ');
            r.push(' ');
            assert(r@ =~= before + spaces(4));
        } else {
            r.push(s[i]);
        }
    }
    assert(s@.take(n as int) =~= s@);
    r
}

/// The lines of the text `s`, split as [`std_lines`] splits.
pub fn split_lines(s: &[char]) -> (r: Vec<String>)
    ensures
        r.deep_view() == std_lines(s@),
{
    let mut done: Vec<String> = Vec::new();
    let mut cur: Vec<char> = Vec::new();
    let n = s.len();
    for i in 0..n
        invariant
            n == s@.len(),
            split_pieces(s@.take(i as int)).len() == done@.len() + 1,
            forall|j: int|
                0 <= j < done@.len() ==> #[trigger] done@[j]@ == strip_cr(
                    split_pieces(s@.take(i as int))[j],
                ),
            cur@ == split_pieces(s@.take(i as int)).last(),
    {
        let ghost p = split_pieces(s@.take(i as int));
        assert(s@.take(i + 1).drop_last() =~= s@.take(i as int));
        let c = s[i];
        if c == '\n' {
            let k = cur.len();
            let line = if k > 0 && cur[k - 1] == '\r' {
                let t = slice_chars(&cur, 0, k - 1);
                assert(t@ =~= cur@.drop_last());
                string_of(&t)
            } else {
                string_of(&cur)
            };
            done.push(line);
            cur = Vec::new();
            assert(split_pieces(s@.take(i + 1)) == p.push(Seq::<char>::empty()));
        } else {
            cur.push(c);
            assert(split_pieces(s@.take(i + 1)) == p.update(p.len() - 1, p.last().push(c)));
        }
    }
    assert(s@.take(n as int) =~= s@);
    if cur.len() > 0 {
        done.push(string_of(&cur));
    }
    assert(done.deep_view() =~= std_lines(s@));
    done
}

/// The lines of a buffer that holds the text `content` ([`buffer_lines`]).
pub fn buffer_lines_of(content: &str) -> (r: Vec<String>)
    ensures
        r.deep_view() == buffer_lines(content@),
        r@.len() >= 1,
{
    let cs = chars_of(content);
    let expanded = expand_tabs_of(&cs);
    if expanded.len() == 0 {
        let mut r: Vec<String> = Vec::new();
        r.push(String::new());
        assert(r.deep_view() =~= seq![Seq::<char>::empty()]);
        r
    } else {
        let r = split_lines(&expanded);
        proof {
            lemma_std_lines_nonempty(expanded@);
        }
        r
    }
}

/// A non-empty text has at least one line.
pub proof fn lemma_std_lines_nonempty(s: Seq<char>)
    requires
        s.len() > 0,
    ensures
        std_lines(s).len() >= 1,
{
    lemma_split_pieces_nonempty(s);
    let p = split_pieces(s);
    if p.len() == 1 {
        lemma_one_piece_is_whole(s);
    }
}

/// A text without line breaks is a single piece, the text itself.
pub proof fn lemma_one_piece_is_whole(s: Seq<char>)
    requires
        split_pieces(s).len() == 1,
    ensures
        split_pieces(s)[0] == s,
    decreases s.len(),
{
    if s.len() > 0 {
        lemma_split_pieces_nonempty(s.drop_last());
        if s.last() != '\n' {
            lemma_one_piece_is_whole(s.drop_last());
            assert(s.drop_last().push(s.last()) =~= s);
        }
    }
}

/// The text of the lines, joined with `\n` ([`join_lines`]).
pub fn join_with_newlines(lines: &Vec<String>) -> (r: String)
    ensures
        r@ == join_lines(lines.deep_view()),
{
    let mut out: Vec<char> = Vec::new();
    let n = lines.len();
    for i in 0..n
        invariant
            n == lines@.len(),
            out@ == join_lines(lines.deep_view().take(i as int)),
    {
        let line = chars_of(lines[i].as_str());
        let ghost before = out@;
        assert(lines.deep_view().take(i + 1).drop_last() =~= lines.deep_view().take(i as int));
        if i > 0 {
            out.push('\n');
        } else {
            assert(before =~= Seq::<char>::empty());
        }
        extend_chars(&mut out, &line);
        if i == 0 {
            assert(out@ =~= join_lines(lines.deep_view().take(1)));
        }
    }
    assert(lines.deep_view().take(n as int) =~= lines.deep_view());
    string_of(&out)
}

// ---------------------------------------------------------------------------------------
// The round trip of joining and splitting
// ---------------------------------------------------------------------------------------

/// Whether `s` holds no character `c`.
pub open spec fn free_of(s: Seq<char>, c: char) -> bool {
    forall|i: int| 0 <= i < s.len() ==> s[i] != c
}

/// A text without tabs is its own tab expansion.
pub proof fn lemma_expand_tabs_id(s: Seq<char>)
    requires
        free_of(s, '\t'),
    ensures
        expand_tabs(s) == s,
    decreases s.len(),
{
    if s.len() > 0 {
        lemma_expand_tabs_id(s.drop_last());
        assert(s.drop_last().push(s.last()) =~= s);
    }
}

/// Appending text without line breaks extends the last piece.
pub proof fn lemma_split_append_plain(a: Seq<char>, b: Seq<char>)
    requires
        free_of(b, '\n'),
    ensures
        split_pieces(a + b) == split_pieces(a).update(
            split_pieces(a).len() - 1,
            split_pieces(a).last() + b,
        ),
    decreases b.len(),
{
    lemma_split_pieces_nonempty(a);
    if b.len() == 0 {
        assert(a + b =~= a);
        assert(split_pieces(a).last() + b =~= split_pieces(a).last());
        assert(split_pieces(a).update(split_pieces(a).len() - 1, split_pieces(a).last())
            =~= split_pieces(a));
    } else {
        let b0 = b.drop_last();
        lemma_split_append_plain(a, b0);
        assert((a + b).drop_last() =~= a + b0);
        assert((a + b).last() == b.last());
        assert(split_pieces(a).last() + b0 + seq![b.last()] =~= split_pieces(a).last() + b);
        assert((split_pieces(a).last() + b0).push(b.last()) =~= split_pieces(a).last() + b);
    }
}

/// Joined lines without line breaks split back into the same lines.
pub proof fn lemma_split_join(ls: Seq<Seq<char>>)
    requires
        ls.len() >= 1,
        forall|i: int| 0 <= i < ls.len() ==> free_of(#[trigger] ls[i], '\n'),
    ensures
        split_pieces(join_lines(ls)) == ls,
    decreases ls.len(),
{
    if ls.len() == 1 {
        lemma_split_append_plain(Seq::<char>::empty(), ls[0]);
        assert(Seq::<char>::empty() + ls[0] =~= ls[0]);
        assert(Seq::<char>::empty() + ls[0] =~= ls[0]);
        assert(seq![Seq::<char>::empty()].update(0, Seq::<char>::empty() + ls[0]) =~= ls);
    } else {
        let init = ls.drop_last();
        assert forall|i: int| 0 <= i < init.len() implies free_of(#[trigger] init[i], '\n') by {
            assert(init[i] == ls[i]);
        }
        lemma_split_join(init);
        let j = join_lines(init) + seq!['\n'];
        assert(j.drop_last() =~= join_lines(init));
        assert(split_pieces(j) == init.push(Seq::<char>::empty()));
        lemma_split_append_plain(j, ls.last());
        assert(Seq::<char>::empty() + ls.last() =~= ls.last());
        assert(init.push(Seq::<char>::empty()).update(init.len() as int, ls.last()) =~= ls);
    }
}

/// Whether the lines are kept unchanged by a join followed by a split into buffer lines:
/// no line holds a line break or a tab, no line but the last ends in a carriage return,
/// and the last line is empty only when it is the only one.
pub open spec fn lines_survive_join(ls: Seq<Seq<char>>) -> bool {
    &&& ls.len() >= 1
    &&& forall|i: int| 0 <= i < ls.len() ==> free_of(#[trigger] ls[i], '\n')
    &&& forall|i: int| 0 <= i < ls.len() ==> free_of(#[trigger] ls[i], '\t')
    &&& forall|i: int|
        0 <= i < ls.len() - 1 ==> (#[trigger] ls[i]).len() == 0 || ls[i].last() != '\r'
    &&& (ls.len() == 1 || ls.last().len() > 0)
}

/// A join of lines is free of tabs when every line is.
pub proof fn lemma_join_free_of(ls: Seq<Seq<char>>, c: char)
    requires
        c != '\n',
        forall|i: int| 0 <= i < ls.len() ==> free_of(#[trigger] ls[i], c),
    ensures
        free_of(join_lines(ls), c),
    decreases ls.len(),
{
    if ls.len() > 1 {
        let init = ls.drop_last();
        assert forall|i: int| 0 <= i < init.len() implies free_of(#[trigger] init[i], c) by {
            assert(init[i] == ls[i]);
        }
        lemma_join_free_of(init, c);
        assert(free_of(ls[ls.len() - 1], c));
    } else if ls.len() == 1 {
        assert(free_of(ls[0], c));
    }
}

/// Law: joining lines with `\n` and splitting the text again as a buffer does gives the
/// same lines back, for every list of lines that [`lines_survive_join`].
pub proof fn lemma_buffer_lines_of_join(ls: Seq<Seq<char>>)
    requires
        lines_survive_join(ls),
    ensures
        buffer_lines(join_lines(ls)) == ls,
{
    lemma_join_free_of(ls, '\t');
    lemma_expand_tabs_id(join_lines(ls));
    lemma_split_join(ls);
    let s = join_lines(ls);
    if s.len() == 0 {
        // The text is empty: a single empty line.
        assert(ls.len() == 1);
        assert(ls[0] =~= Seq::<char>::empty());
        assert(ls =~= seq![Seq::<char>::empty()]);
    } else {
        let p = split_pieces(s);
        assert(p == ls);
        if ls.len() == 1 {
            assert(ls[0].len() > 0);
        }
        assert forall|i: int| 0 <= i < ls.len() - 1 implies strip_cr(p[i]) == ls[i] by {
            assert(p[i] == ls[i]);
        }
        assert(std_lines(s) =~= ls);
    }
}

/// Splitting a text at its line breaks and joining the pieces with `\n` gives the text back.
proof fn lemma_join_split(t: Seq<char>)
    ensures
        join_lines(split_pieces(t)) == t,
    decreases t.len(),
{
    lemma_split_pieces_nonempty(t);
    if t.len() > 0 {
        let t0 = t.drop_last();
        let p0 = split_pieces(t0);
        lemma_join_split(t0);
        lemma_split_pieces_nonempty(t0);
        let p = split_pieces(t);
        if t.last() == '\n' {
            assert(p.drop_last() =~= p0);
            assert(t0 + seq!['\n'] + Seq::<char>::empty() =~= t);
        } else if p0.len() == 1 {
            assert(p[0] == p0[0].push(t.last()));
            assert(t0.push(t.last()) =~= t);
        } else {
            assert(p.drop_last() =~= p0.drop_last());
            assert(join_lines(p0) == join_lines(p0.drop_last()) + seq!['\n'] + p0.last());
            assert(join_lines(p0.drop_last()) + seq!['\n'] + p0.last().push(t.last()) =~= t0.push(t.last()));
            assert(t0.push(t.last()) =~= t);
        }
    }
}

/// The pieces of a text free of `c` are free of `c`.
proof fn lemma_split_free_of(t: Seq<char>, c: char)
    requires
        free_of(t, c),
    ensures
        forall|i: int| 0 <= i < split_pieces(t).len() ==> free_of(#[trigger] split_pieces(t)[i], c),
    decreases t.len(),
{
    if t.len() > 0 {
        let t0 = t.drop_last();
        assert forall|k: int| 0 <= k < t0.len() implies t0[k] != c by {
            assert(t0[k] == t[k]);
        }
        lemma_split_free_of(t0, c);
        lemma_split_pieces_nonempty(t0);
        let p0 = split_pieces(t0);
        assert(t.last() == t[t.len() - 1]);
        assert forall|i: int| 0 <= i < split_pieces(t).len() implies free_of(#[trigger] split_pieces(t)[i], c) by {
            if i < p0.len() {
                assert(free_of(p0[i], c));
            }
        }
    }
}

/// The tab expansion of a text free of `c` (neither a space nor a tab) is free of `c`, and
/// it ends in a line break only when the text does.
proof fn lemma_expand_tabs_keeps(s: Seq<char>, c: char)
    requires
        free_of(s, c),
        c != ' ',
    ensures
        free_of(expand_tabs(s), c),
        expand_tabs(s).len() == 0 <==> s.len() == 0,
        s.len() > 0 && s.last() != '\n' ==> expand_tabs(s).last() != '\n',
    decreases s.len(),
{
    if s.len() > 0 {
        let s0 = s.drop_last();
        assert forall|k: int| 0 <= k < s0.len() implies s0[k] != c by {
            assert(s0[k] == s[k]);
        }
        lemma_expand_tabs_keeps(s0, c);
        assert(s.last() == s[s.len() - 1]);
        let e0 = expand_tabs(s0);
        if s.last() == '\t' {
            let e = e0 + spaces(4);
            assert forall|k: int| 0 <= k < e.len() implies e[k] != c by {
                if k >= e0.len() {
                    assert(e[k] == spaces(4)[k - e0.len()]);
                }
            }
            assert(e.last() == spaces(4)[3]);
        } else {
            let e = e0.push(s.last());
            assert forall|k: int| 0 <= k < e.len() implies e[k] != c by {
                if k < e0.len() {
                    assert(e[k] == e0[k]);
                }
            }
        }
    }
}

/// Law: the buffer made from a text without carriage returns that does not end in a line
/// break joins back into that text with its tabs expanded; the empty text included.
pub proof fn lemma_join_buffer_lines(s: Seq<char>)
    requires
        free_of(s, '\r'),
        s.len() == 0 || s.last() != '\n',
    ensures
        join_lines(buffer_lines(s)) == expand_tabs(s),
        buffer_lines(s).len() >= 1,
{
    lemma_expand_tabs_keeps(s, '\r');
    let t = expand_tabs(s);
    if t.len() > 0 {
        let p = split_pieces(t);
        lemma_split_pieces_nonempty(t);
        lemma_split_free_of(t, '\r');
        lemma_join_split(t);
        let n = p.len();
        assert(p[n - 1].len() > 0) by {
            let p0 = split_pieces(t.drop_last());
            lemma_split_pieces_nonempty(t.drop_last());
            assert(t.last() != '\n');
        }
        assert forall|i: int| 0 <= i < n - 1 implies strip_cr(p[i]) == p[i] by {
            assert(free_of(p[i], '\r'));
            if p[i].len() > 0 {
                assert(p[i].last() == p[i][p[i].len() - 1]);
            }
        }
        assert(std_lines(t) =~= p);
    }
}

} // verus!
