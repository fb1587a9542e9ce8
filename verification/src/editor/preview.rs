//! The live preview of a substitution while it is typed at the `:` prompt: the lines as
//! they would read after it, and where the replacement text stands in them.
//!
//! The regex crate reports its matches as byte offsets into the UTF-8 encoding of a line;
//! the preview cuts the line at those offsets (checking that each cut falls on a character
//! boundary) and reports the replacements by character columns.
use vstd::prelude::*;
use vstd::utf8::{decode_utf8, encode_utf8, is_char_boundary};

use super::motions::min_int;
use super::substitute::{
    contains_char, extract_substitute_parts, has_char, is_smartcase_insensitive, regex_compiles, regex_replace,
    regex_replace_first, regex_valid, smartcase_insensitive, substitute_parts, trim_chars, trimmed,
};
use super::VimEditor;
use crate::text::{chars_of, clone_lines, concat_strings, extend_chars, push_char, string_of};

verus! {

broadcast use {vstd::utf8::encode_utf8_decode_utf8, vstd::utf8::encode_utf8_valid_utf8};

/// The byte spans `(start, end)` of the matches that `Regex::find_iter` yields for the
/// pattern `p` on `hay`, in the order it yields them.
pub uninterp spec fn regex_match_spans(p: Seq<char>, hay: Seq<char>) -> Seq<(usize, usize)>;

/// `Regex::find_iter`: the start and end byte offsets of each match of pattern `p`
/// (compiled from the string) in `hay`, in order. The result is named by
/// [`regex_match_spans`]; the pattern must compile.
#[verifier::external_body]
fn regex_find_spans(p: &str, hay: &str) -> (r: Vec<(usize, usize)>)
    requires
        regex_valid(p@),
    ensures
        r@ == regex_match_spans(p@, hay@),
{
    match regex::Regex::new(p) {
        Ok(re) => re.find_iter(hay).map(|m| (m.start(), m.end())).collect(),
        Err(_) => Vec::new(),
    }
}

/// The characters that the bytes `a..b` of the UTF-8 encoding of `line` encode.
pub open spec fn byte_text(line: Seq<char>, a: int, b: int) -> Seq<char> {
    decode_utf8(encode_utf8(line).subrange(a, b))
}

/// Whether the match span `sp` can be cut out of `line` after byte `last`: it starts at
/// or after `last`, does not end before it starts nor after the line, and both of its
/// ends fall on character boundaries.
pub open spec fn span_fits(line: Seq<char>, last: int, sp: (usize, usize)) -> bool {
    let bytes = encode_utf8(line);
    let n = bytes.len() as int;
    &&& last <= sp.0 <= sp.1 <= n
    &&& is_char_boundary(bytes.subrange(last, n), sp.0 - last)
    &&& is_char_boundary(bytes.subrange(sp.0 as int, n), sp.1 - sp.0)
}

/// The preview of `line` from match `i` on, the text before byte `last` having become
/// `out` with the replacements at the columns `hl`: each match is replaced by what the
/// pattern `rx` makes of the matched text with `rep` (`Regex::replace`), and a non-empty
/// replacement is recorded by its columns in the new line. A match that does not fit
/// ends the replacing.
pub open spec fn preview_from(
    line: Seq<char>,
    spans: Seq<(usize, usize)>,
    rx: Seq<char>,
    rep: Seq<char>,
    i: int,
    last: int,
    out: Seq<char>,
    hl: Seq<(usize, usize)>,
) -> (Seq<char>, Seq<(usize, usize)>)
    decreases spans.len() - i,
{
    let n = encode_utf8(line).len() as int;
    if i < 0 || i >= spans.len() || !span_fits(line, last, spans[i]) {
        (out + byte_text(line, last, n), hl)
    } else {
        let s = spans[i].0 as int;
        let e = spans[i].1 as int;
        let with_pre = out + byte_text(line, last, s);
        let x = regex_replace_first(rx, byte_text(line, s, e), rep);
        let next = with_pre + x;
        preview_from(
            line,
            spans,
            rx,
            rep,
            i + 1,
            e,
            next,
            if x.len() > 0 { hl.push((with_pre.len() as usize, next.len() as usize)) } else { hl },
        )
    }
}

/// The preview of one line: every match of `rx` replaced (with `global`) or only the
/// first, and the columns of the replacements.
pub open spec fn row_preview(line: Seq<char>, rx: Seq<char>, rep: Seq<char>, global: bool) -> (Seq<char>, Seq<(usize, usize)>) {
    let spans = regex_match_spans(rx, line);
    let k = if global { spans.len() as int } else { min_int(spans.len() as int, 1) };
    preview_from(line, spans.take(k), rx, rep, 0, 0, Seq::empty(), Seq::empty())
}

/// The replacement columns of rows `a..k`, each tagged with its row.
pub open spec fn preview_marks(text: Seq<Seq<char>>, rx: Seq<char>, rep: Seq<char>, global: bool, a: int, k: int) -> Seq<(usize, usize, usize)>
    decreases k - a,
{
    if k <= a {
        Seq::empty()
    } else {
        let h = row_preview(text[k - 1], rx, rep, global).1;
        preview_marks(text, rx, rep, global, a, k - 1) + Seq::new(h.len(), |j: int| ((k - 1) as usize, h[j].0, h[j].1))
    }
}

/// The preview of the substitution typed so far at the `:` prompt of `ed`: none until a
/// pattern is closed and while the pattern does not compile; otherwise the lines with the
/// cursor line (with `%` every line) replaced, and the replacement columns.
#[verifier::opaque]
pub open spec fn substitute_preview(ed: VimEditor) -> Option<(Seq<Seq<char>>, Seq<(usize, usize, usize)>)> {
    match substitute_parts(trimmed(ed.command_buffer@)) {
        Some((p, Some(rep), all, flags)) => {
            let rx = if smartcase_insensitive(p, flags) { seq!['(', '?', 'i', ')'] + p } else { p };
            let global = has_char(flags, 'g');
            let t = ed.text();
            if !regex_valid(rx) {
                None
            } else {
                let a = if all { 0 } else { ed.cursor_row as int };
                let b = if all { t.len() - 1 } else { min_int(ed.cursor_row as int, t.len() - 1) };
                Some((
                    Seq::new(t.len(), |r: int| if a <= r <= b { row_preview(t[r], rx, rep, global).0 } else { t[r] }),
                    preview_marks(t, rx, rep, global, a, b + 1),
                ))
            }
        },
        _ => None,
    }
}

/// The preview of `line` with its first `count` match spans, executably.
fn preview_line(line: &str, spans: &Vec<(usize, usize)>, count: usize, rx: &str, rep: &str) -> (r: (String, Vec<(usize, usize)>))
    requires
        regex_valid(rx@),
        count <= spans@.len(),
    ensures
        (r.0@, r.1@) == preview_from(line@, spans@.take(count as int), rx@, rep@, 0, 0, Seq::empty(), Seq::empty()),
{
    let ghost sp = spans@.take(count as int);
    let ghost bytes = encode_utf8(line@);
    let n = line.as_bytes().len();
    let mut out: Vec<char> = Vec::new();
    let mut hl: Vec<(usize, usize)> = Vec::new();
    let mut rest: &str = line;
    let mut last: usize = 0;
    let mut i: usize = 0;
    let mut stopped = false;
    assert(bytes.subrange(0, n as int) =~= bytes);
    while i < count && !stopped
        invariant
            regex_valid(rx@),
            count <= spans@.len(),
            sp == spans@.take(count as int),
            bytes == encode_utf8(line@),
            n == bytes.len(),
            last <= n,
            i <= count,
            encode_utf8(rest@) == bytes.subrange(last as int, n as int),
            stopped ==> i < sp.len() && !span_fits(line@, last as int, sp[i as int]),
            preview_from(line@, sp, rx@, rep@, 0, 0, Seq::empty(), Seq::empty())
                == preview_from(line@, sp, rx@, rep@, i as int, last as int, out@, hl@),
        decreases count - i, if stopped { 0int } else { 1int },
    {
        let (s, e) = spans[i];
        if !(last <= s && s <= e && e <= n) {
            stopped = true;
        } else if !rest.is_char_boundary(s - last) {
            stopped = true;
        } else {
            let (pre, tail) = rest.split_at(s - last);
            assert(encode_utf8(tail@) =~= bytes.subrange(s as int, n as int));
            if !tail.is_char_boundary(e - s) {
                stopped = true;
            } else {
                let (m, after) = tail.split_at(e - s);
                assert(encode_utf8(pre@) =~= bytes.subrange(last as int, s as int));
                assert(encode_utf8(m@) =~= bytes.subrange(s as int, e as int));
                assert(encode_utf8(after@) =~= bytes.subrange(e as int, n as int));
                assert(pre@ == byte_text(line@, last as int, s as int));
                assert(m@ == byte_text(line@, s as int, e as int));
                extend_chars(&mut out, &chars_of(pre));
                let x = regex_replace(rx, m, rep);
                let start = out.len();
                extend_chars(&mut out, &chars_of(x.as_str()));
                if start < out.len() {
                    hl.push((start, out.len()));
                }
                rest = after;
                last = e;
                i = i + 1;
            }
        }
    }
    assert(rest@ == byte_text(line@, last as int, n as int));
    extend_chars(&mut out, &chars_of(rest));
    (string_of(&out), hl)
}

impl VimEditor {
    /// The preview of the substitution typed so far at the `:` prompt.
    pub fn compute_substitute_preview(&self) -> (r: Option<(Vec<String>, Vec<(usize, usize, usize)>)>)
        requires
            self.wf(),
        ensures
            match substitute_preview(*self) {
                Some((lines, marks)) => r matches Some((l, m)) && l.deep_view() == lines && m@ == marks,
                None => r is None,
            },
    {
        reveal(substitute_preview);
        let typed = trim_chars(&chars_of(self.command_buffer.as_str()));
        let (pattern, replacement, all, flags) = match extract_substitute_parts(&typed) {
            Some(parts) => parts,
            None => return None,
        };
        let rep = match replacement {
            Some(rep) => rep,
            None => return None,
        };
        let pv = chars_of(pattern.as_str());
        let fv = chars_of(flags.as_str());
        let global = contains_char(&fv, 'g');
        let rx = if is_smartcase_insensitive(&pv, &fv) {
            let mut p = String::new();
            push_char(&mut p, '(');
            push_char(&mut p, '?');
            push_char(&mut p, 'i');
            push_char(&mut p, ')');
            assert(p@ =~= seq!['(', '?', 'i', ')']);
            concat_strings(p.as_str(), pattern.as_str())
        } else {
            pattern
        };
        assert(rx@ == (if smartcase_insensitive(pv@, fv@) { seq!['(', '?', 'i', ')'] + pv@ } else { pv@ }));
        if !regex_compiles(rx.as_str()) {
            return None;
        }
        let ghost t = self.text();
        let len = self.lines.len();
        let a: usize = if all { 0 } else { self.cursor_row };
        let b: usize = if all { len - 1 } else if self.cursor_row < len - 1 { self.cursor_row } else { len - 1 };
        let mut preview = clone_lines(&self.lines);
        let mut marks: Vec<(usize, usize, usize)> = Vec::new();
        let mut row: usize = a;
        while row <= b
            invariant
                t == self.text(),
                len == t.len(),
                b < len,
                a <= row <= b + 1,
                regex_valid(rx@),
                preview.deep_view().len() == len,
                forall|r: int| 0 <= r < len ==> #[trigger] preview.deep_view()[r] == if a <= r < row {
                    row_preview(t[r], rx@, rep@, global).0
                } else {
                    t[r]
                },
                marks@ == preview_marks(t, rx@, rep@, global, a as int, row as int),
            decreases b + 1 - row,
        {
            let line = self.lines[row].as_str();
            let spans = regex_find_spans(rx.as_str(), line);
            let count = if global { spans.len() } else if spans.len() < 1 { spans.len() } else { 1 };
            let (new_line, hl) = preview_line(line, &spans, count, rx.as_str(), rep.as_str());
            let ghost before = preview.deep_view();
            preview.set(row, new_line);
            assert(preview.deep_view() =~= before.update(row as int, row_preview(t[row as int], rx@, rep@, global).0));
            let mut j: usize = 0;
            let ghost m0 = marks@;
            while j < hl.len()
                invariant
                    j <= hl@.len(),
                    marks@ == m0 + Seq::new(j as nat, |q: int| (row, hl@[q].0, hl@[q].1)),
                decreases hl@.len() - j,
            {
                marks.push((row, hl[j].0, hl[j].1));
                j = j + 1;
                assert(marks@ =~= m0 + Seq::new(j as nat, |q: int| (row, hl@[q].0, hl@[q].1)));
            }
            assert(marks@ =~= preview_marks(t, rx@, rep@, global, a as int, row + 1));
            row = row + 1;
        }
        let ghost lines = Seq::new(t.len(), |r: int| if a <= r <= b { row_preview(t[r], rx@, rep@, global).0 } else { t[r] });
        assert(preview.deep_view() =~= lines);
        Some((preview, marks))
    }
}

} // verus!
