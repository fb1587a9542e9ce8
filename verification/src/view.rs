//! The decisions of drawing a frame of the editor, as plain values: the height of the view
//! and the horizontal scroll, the letters of the mark column, the width of the line
//! numbers, which highlight a screen line shows, how a line splits into highlighted and
//! plain segments, where a search pattern matches, and the position shown on the status
//! line. Turning these into terminal cells is left to the embedding program.
use vstd::prelude::*;

use crate::editor::motions::sat_sub;
use crate::editor::VimEditor;
use crate::render::{compute_visual, compute_yank, decimal, decimal_string, file_position, position_text, visual_cols, yank_cols};
use crate::text::{char_to_lowercase, chars_of, concat_strings, lower_char, lowercase_of, push_char, to_lowercase};
use crate::{VimMode, YankHighlight};

verus! {

// ---------------------------------------------------------------------------------------
// View size and scrolling
// ---------------------------------------------------------------------------------------

/// The horizontal scroll that keeps column `col` in view in `width` columns from scroll
/// `hs`: past the right edge the column becomes the last one shown, before the left edge
/// the first one.
pub open spec fn hscroll_after(col: usize, hs: usize, width: usize) -> int {
    if col >= hs + width {
        sat_sub(col as int, width as int) + 1
    } else if col < hs {
        col as int
    } else {
        hs as int
    }
}

impl VimEditor {
    /// Sets the number of text lines the view shows for an area of `area_height` rows: the
    /// border and the status line take three of them.
    pub fn set_view_height(&mut self, area_height: u16)
        ensures
            *final(self) == (VimEditor { visible_height: sat_sub(area_height as int, 3) as usize, ..*old(self) }),
    {
        self.visible_height = if area_height > 3 { (area_height - 3) as usize } else { 0 };
    }

    /// Scrolls horizontally so that the cursor column stays among the `width` columns
    /// shown ([`hscroll_after`]).
    pub fn scroll_horizontally(&mut self, width: usize)
        requires
            old(self).cursor_col < usize::MAX,
        ensures
            *final(self) == (VimEditor {
                horizontal_scroll: hscroll_after(old(self).cursor_col, old(self).horizontal_scroll, width) as usize,
                ..*old(self)
            }),
    {
        let col = self.cursor_col;
        let hs = self.horizontal_scroll;
        if col >= hs && col - hs >= width {
            self.horizontal_scroll = (if col > width { col - width } else { 0 }) + 1;
        } else if col < hs {
            self.horizontal_scroll = col;
        }
    }

    /// Drops the yank flash once it has been shown long enough. Whether it has is read
    /// from the clock.
    pub fn drop_expired_yank(&mut self)
        ensures
            *final(self) == (VimEditor { yank_highlight: final(self).yank_highlight, ..*old(self) }),
            final(self).yank_highlight is None || final(self).yank_highlight == old(self).yank_highlight,
    {
        let elapsed = match &self.yank_highlight {
            Some(h) => h.elapsed_ms(),
            None => 0,
        };
        self.drop_yank_after(elapsed);
    }

    /// Drops the yank flash if it has been shown for `elapsed_ms` milliseconds, more than
    /// [`YankHighlight::DURATION_MS`]; everything else stays.
    pub fn drop_yank_after(&mut self, elapsed_ms: u128)
        ensures
            *final(self) == (VimEditor {
                yank_highlight: if elapsed_ms > YankHighlight::DURATION_MS { None } else { old(self).yank_highlight },
                ..*old(self)
            }),
    {
        if self.yank_highlight.is_some() && YankHighlight::expired_after(elapsed_ms) {
            self.yank_highlight = None;
        }
    }
}

// ---------------------------------------------------------------------------------------
// Gutter
// ---------------------------------------------------------------------------------------

/// The width of the line numbers for a buffer of `n` lines: the digits of `n`, at least
/// three.
pub open spec fn number_width(n: nat) -> nat {
    if decimal(n).len() >= 3 {
        decimal(n).len()
    } else {
        3
    }
}

/// Executable form of [`number_width`].
pub fn line_number_width(n: usize) -> (r: usize)
    ensures
        r == number_width(n as nat),
{
    let digits = chars_of(decimal_string(n as u128).as_str());
    if digits.len() >= 3 {
        digits.len()
    } else {
        3
    }
}

/// The `k`-th letter of `A` to `Z` followed by `a` to `z`, in the order of their codes.
pub open spec fn letter(k: int) -> char {
    if k < 26 {
        ((65 + k) as u8) as char
    } else {
        ((97 + k - 26) as u8) as char
    }
}

/// Whether the mark named `c` of `ed` lies on row `row`.
pub open spec fn marked_on(ed: VimEditor, c: char, row: usize) -> bool {
    ed.mark(c) matches Some((r, _)) && r == row
}

/// The letter that the mark column shows for row `row`: the first of the letters `A` to
/// `Z`, then `a` to `z`, whose mark lies on the row, none when no mark does.
pub open spec fn mark_letter_of(ed: VimEditor, row: usize) -> Option<char> {
    if exists|k: int| 0 <= k < 52 && #[trigger] marked_on(ed, letter(k), row) {
        let k = choose|k: int| 0 <= k < 52 && #[trigger] marked_on(ed, letter(k), row)
            && forall|j: int| 0 <= j < k ==> !#[trigger] marked_on(ed, letter(j), row);
        Some(letter(k))
    } else {
        None
    }
}

impl VimEditor {
    /// The letter that the mark column shows for row `row` ([`mark_letter_of`]).
    pub fn mark_letter(&self, row: usize) -> (r: Option<char>)
        ensures
            r == mark_letter_of(*self, row),
    {
        let mut k: u8 = 0;
        while k < 52
            invariant
                k <= 52,
                forall|j: int| 0 <= j < k ==> !#[trigger] marked_on(*self, letter(j), row),
            decreases 52 - k,
        {
            let c = if k < 26 { (65 + k) as char } else { (97 + (k - 26)) as char };
            assert(c == letter(k as int));
            match self.mark_position(c) {
                Some((r, _)) => {
                    if r == row {
                        proof {
                            let w = choose|w: int| 0 <= w < 52 && #[trigger] marked_on(*self, letter(w), row)
                                && forall|j: int| 0 <= j < w ==> !#[trigger] marked_on(*self, letter(j), row);
                            assert(marked_on(*self, letter(k as int), row));
                            if w < k {
                            } else if w > k {
                                assert(!marked_on(*self, letter(k as int), row));
                            }
                        }
                        return Some(c);
                    }
                },
                None => {},
            }
            k = k + 1;
        }
        None
    }
}

// ---------------------------------------------------------------------------------------
// Highlights of a screen line
// ---------------------------------------------------------------------------------------

/// What a screen line shows highlighted, by columns of the shown text: the visual
/// selection, the replacements of a substitution preview, the yank flash, the matches of
/// the search pattern, or nothing.
#[derive(Debug, Clone, PartialEq, Eq)]
pub enum LineHighlight {
    Visual(usize, usize),
    Preview(Vec<(usize, usize)>),
    Yank(usize, usize),
    Search,
    Plain,
}

/// `pos` shifted left by the `skipped` columns that the horizontal scroll hides (at
/// least zero).
pub open spec fn shifted(pos: usize, skipped: usize) -> usize {
    sat_sub(pos as int, skipped as int) as usize
}

/// The preview replacement columns that lie on row `row`, shifted by `skipped`.
pub open spec fn preview_cols(marks: Seq<(usize, usize, usize)>, row: usize, skipped: usize) -> Seq<(usize, usize)>
    decreases marks.len(),
{
    if marks.len() == 0 {
        Seq::empty()
    } else {
        let rest = preview_cols(marks.drop_last(), row, skipped);
        let m = marks.last();
        if m.0 == row {
            rest.push((shifted(m.1, skipped), shifted(m.2, skipped)))
        } else {
            rest
        }
    }
}

/// The highlight of screen line `line_idx` of `ed`, which shows `line_len` columns of it
/// after `skipped` hidden ones: a visual selection first, then preview replacements, then
/// a yank flash, then search matches when there is a pattern.
pub open spec fn line_highlight_of(ed: VimEditor, line_idx: usize, line_len: usize, skipped: usize) -> (Option<
    (usize, usize),
>, Seq<(usize, usize)>, Option<(usize, usize)>, bool) {
    let range = if ed.mode is Visual { ed.selection() } else { None };
    (
        visual_cols(line_idx, line_len, range, ed.visual_kind_spec()),
        preview_cols(ed.preview_highlights@, line_idx, skipped),
        yank_cols(line_idx, line_len, ed.yank_highlight),
        ed.search.pattern@.len() > 0,
    )
}

impl VimEditor {
    /// The highlight of screen line `line_idx`, which shows `line_len` columns of the line
    /// after `skipped` hidden ones ([`line_highlight_of`], the first that applies).
    pub fn line_highlight(&self, line_idx: usize, line_len: usize, skipped: usize) -> (r: LineHighlight)
        ensures
            ({
                let (v, p, y, s) = line_highlight_of(*self, line_idx, line_len, skipped);
                match v {
                    Some((a, b)) => r == LineHighlight::Visual(shifted(a, skipped), shifted(b, skipped)),
                    None => if p.len() > 0 {
                        r matches LineHighlight::Preview(cols) && cols@ == p
                    } else {
                        match y {
                            Some((a, b)) => r == LineHighlight::Yank(shifted(a, skipped), shifted(b, skipped)),
                            None => if s { r == LineHighlight::Search } else { r == LineHighlight::Plain },
                        }
                    },
                }
            }),
    {
        let range = match self.mode {
            VimMode::Visual(_) => self.visual_range(),
            _ => None,
        };
        let kind = self.visual_kind();
        match compute_visual(line_idx, line_len, &range, &kind) {
            Some((a, b)) => return LineHighlight::Visual(shift(a, skipped), shift(b, skipped)),
            None => {},
        }
        let cols = self.preview_cols_of(line_idx, skipped);
        if cols.len() > 0 {
            return LineHighlight::Preview(cols);
        }
        match compute_yank(line_idx, line_len, &self.yank_highlight) {
            Some((a, b)) => return LineHighlight::Yank(shift(a, skipped), shift(b, skipped)),
            None => {},
        }
        if !self.search.pattern.as_str().is_empty() {
            LineHighlight::Search
        } else {
            LineHighlight::Plain
        }
    }

    /// Executable form of [`preview_cols`] on the preview of `self`.
    fn preview_cols_of(&self, row: usize, skipped: usize) -> (r: Vec<(usize, usize)>)
        ensures
            r@ == preview_cols(self.preview_highlights@, row, skipped),
    {
        let marks = &self.preview_highlights;
        let mut out: Vec<(usize, usize)> = Vec::new();
        let mut i: usize = 0;
        while i < marks.len()
            invariant
                i <= marks@.len(),
                out@ == preview_cols(marks@.take(i as int), row, skipped),
            decreases marks@.len() - i,
        {
            let (r, a, b) = marks[i];
            assert(marks@.take(i + 1).drop_last() =~= marks@.take(i as int));
            if r == row {
                out.push((shift(a, skipped), shift(b, skipped)));
            }
            i = i + 1;
        }
        assert(marks@.take(marks@.len() as int) =~= marks@);
        out
    }
}

/// Executable form of [`shifted`].
fn shift(pos: usize, skipped: usize) -> (r: usize)
    ensures
        r == shifted(pos, skipped),
{
    if pos > skipped {
        pos - skipped
    } else {
        0
    }
}

/// The segments of a line of `len` columns around the highlighted `ranges`, in order:
/// each range (its ends bound by `len`) is highlighted, the columns from the end of one
/// range to the start of the next are plain, and empty segments are left out.
pub open spec fn segments_from(len: usize, ranges: Seq<(usize, usize)>, pos: usize) -> Seq<(usize, usize, bool)>
    decreases ranges.len(),
{
    if ranges.len() == 0 {
        if pos < len {
            seq![(pos, len, false)]
        } else {
            Seq::empty()
        }
    } else {
        let hs = if ranges[0].0 <= len { ranges[0].0 } else { len };
        let he = if ranges[0].1 <= len { ranges[0].1 } else { len };
        let plain: Seq<(usize, usize, bool)> = if hs > pos { seq![(pos, hs, false)] } else { Seq::empty() };
        let marked: Seq<(usize, usize, bool)> = if hs < he { seq![(hs, he, true)] } else { Seq::empty() };
        plain + marked + segments_from(len, ranges.drop_first(), he)
    }
}

/// The segments of a line of `len` columns around the highlighted `ranges`
/// ([`segments_from`] from column zero): `(start, end, highlighted)`.
pub fn line_segments(len: usize, ranges: &Vec<(usize, usize)>) -> (r: Vec<(usize, usize, bool)>)
    ensures
        r@ == segments_from(len, ranges@, 0),
{
    let mut out: Vec<(usize, usize, bool)> = Vec::new();
    let mut pos: usize = 0;
    let mut i: usize = 0;
    assert(ranges@.skip(0) =~= ranges@);
    assert(out@ + segments_from(len, ranges@, 0) =~= segments_from(len, ranges@, 0));
    while i < ranges.len()
        invariant
            i <= ranges@.len(),
            segments_from(len, ranges@, 0) == out@ + segments_from(len, ranges@.skip(i as int), pos),
        decreases ranges@.len() - i,
    {
        let (s, e) = ranges[i];
        let hs = if s <= len { s } else { len };
        let he = if e <= len { e } else { len };
        let ghost before = out@;
        assert(ranges@.skip(i as int).drop_first() =~= ranges@.skip(i + 1));
        if hs > pos {
            out.push((pos, hs, false));
        }
        if hs < he {
            out.push((hs, he, true));
        }
        proof {
            let plain: Seq<(usize, usize, bool)> = if hs > pos { seq![(pos, hs, false)] } else { Seq::empty() };
            let marked: Seq<(usize, usize, bool)> = if hs < he { seq![(hs, he, true)] } else { Seq::empty() };
            assert(out@ =~= before + plain + marked);
            assert(before + (plain + marked + segments_from(len, ranges@.skip(i + 1), he)) =~= out@
                + segments_from(len, ranges@.skip(i + 1), he));
        }
        pos = he;
        i = i + 1;
    }
    if pos < len {
        out.push((pos, len, false));
    }
    assert(segments_from(len, ranges@.skip(ranges@.len() as int), pos) == segments_from(len, Seq::empty(), pos));
    out
}

/// How a segment of a line with search matches is drawn.
#[derive(Debug, Clone, Copy, PartialEq, Eq, Structural)]
pub enum MatchKind {
    /// Outside every match.
    Plain,
    /// A match.
    Match,
    /// The match that starts under the cursor.
    Current,
}

/// How the segment `seg` is drawn: a highlighted segment is the current match where it
/// starts at `cursor_at`, the cursor column on the cursor line.
pub open spec fn match_kind(seg: (usize, usize, bool), cursor_at: Option<usize>) -> MatchKind {
    if !seg.2 {
        MatchKind::Plain
    } else if cursor_at == Some(seg.0) {
        MatchKind::Current
    } else {
        MatchKind::Match
    }
}

/// The segments of a line of `len` columns around its search matches `ranges`, as
/// [`line_segments`] gives them, each with the way it is drawn ([`match_kind`]);
/// `cursor_at` is the cursor column where the line is the cursor line.
pub fn search_segments(len: usize, ranges: &Vec<(usize, usize)>, cursor_at: Option<usize>) -> (r: Vec<(usize, usize, MatchKind)>)
    ensures
        r@.len() == segments_from(len, ranges@, 0).len(),
        forall|i: int| 0 <= i < r@.len() ==> #[trigger] r@[i] == ({
            let seg = segments_from(len, ranges@, 0)[i];
            (seg.0, seg.1, match_kind(seg, cursor_at))
        }),
{
    let segs = line_segments(len, ranges);
    let mut out: Vec<(usize, usize, MatchKind)> = Vec::new();
    let mut i: usize = 0;
    while i < segs.len()
        invariant
            i <= segs@.len(),
            segs@ == segments_from(len, ranges@, 0),
            out@.len() == i,
            forall|k: int| 0 <= k < i ==> #[trigger] out@[k] == (segs@[k].0, segs@[k].1, match_kind(segs@[k], cursor_at)),
        decreases segs@.len() - i,
    {
        let (s, e, marked) = segs[i];
        let kind = if !marked {
            MatchKind::Plain
        } else if cursor_at == Some(s) {
            MatchKind::Current
        } else {
            MatchKind::Match
        };
        out.push((s, e, kind));
        i = i + 1;
    }
    out
}

/// The first segment from index `i` on that covers column `col`.
pub open spec fn covering_from(segs: Seq<(usize, usize, usize)>, col: usize, i: int) -> Option<int>
    decreases segs.len() - i,
{
    if i < 0 || i >= segs.len() {
        None
    } else if segs[i].0 <= col < segs[i].1 {
        Some(i)
    } else {
        covering_from(segs, col, i + 1)
    }
}

/// The segments `segs` (start, end, tag) with column `col` given the tag `tag`: the first
/// segment that covers the column is split around it; without one nothing changes.
pub open spec fn overlaid(segs: Seq<(usize, usize, usize)>, col: usize, tag: usize) -> Seq<(usize, usize, usize)> {
    match covering_from(segs, col, 0) {
        Some(i) => {
            let (s, e, k) = segs[i];
            let before: Seq<(usize, usize, usize)> = if s < col { seq![(s, col, k)] } else { Seq::empty() };
            let after: Seq<(usize, usize, usize)> = if col + 1 < e { seq![((col + 1) as usize, e, k)] } else { Seq::empty() };
            segs.take(i) + before + seq![(col, (col + 1) as usize, tag)] + after + segs.skip(i + 1)
        },
        None => segs,
    }
}

/// Gives column `col` of a screen line, split into tagged segments, the tag `tag` (the
/// bracket under the cursor and its match are drawn so) ([`overlaid`]).
pub fn overlay_column(segs: &Vec<(usize, usize, usize)>, col: usize, tag: usize) -> (r: Vec<(usize, usize, usize)>)
    ensures
        r@ == overlaid(segs@, col, tag),
{
    let n = segs.len();
    let mut i: usize = 0;
    while i < n
        invariant
            n == segs@.len(),
            i <= n,
            covering_from(segs@, col, 0) == covering_from(segs@, col, i as int),
        decreases n - i,
    {
        let (s, e, k) = segs[i];
        if s <= col && col < e {
            let mut out: Vec<(usize, usize, usize)> = Vec::new();
            let mut j: usize = 0;
            while j < i
                invariant
                    j <= i < n,
                    n == segs@.len(),
                    out@ == segs@.take(j as int),
                decreases i - j,
            {
                out.push(segs[j]);
                assert(segs@.take(j + 1) =~= segs@.take(j as int).push(segs@[j as int]));
                j = j + 1;
            }
            let ghost head = out@;
            if s < col {
                out.push((s, col, k));
            }
            out.push((col, col + 1, tag));
            if col + 1 < e {
                out.push((col + 1, e, k));
            }
            let ghost mid = out@;
            let mut q: usize = i + 1;
            while q < n
                invariant
                    i < q <= n,
                    n == segs@.len(),
                    out@ == mid + segs@.subrange(i + 1, q as int),
                decreases n - q,
            {
                out.push(segs[q]);
                assert(segs@.subrange(i + 1, q + 1) =~= segs@.subrange(i + 1, q as int).push(segs@[q as int]));
                q = q + 1;
            }
            proof {
                let before: Seq<(usize, usize, usize)> = if s < col { seq![(s, col, k)] } else { Seq::empty() };
                let after: Seq<(usize, usize, usize)> = if col + 1 < e { seq![((col + 1) as usize, e, k)] } else { Seq::empty() };
                assert(mid =~= segs@.take(i as int) + before + seq![(col, (col + 1) as usize, tag)] + after);
                assert(segs@.subrange(i + 1, n as int) =~= segs@.skip(i + 1));
            }
            return out;
        }
        i = i + 1;
    }
    let mut out: Vec<(usize, usize, usize)> = Vec::new();
    let mut j: usize = 0;
    while j < n
        invariant
            j <= n,
            n == segs@.len(),
            out@ == segs@.take(j as int),
        decreases n - j,
    {
        out.push(segs[j]);
        assert(segs@.take(j + 1) =~= segs@.take(j as int).push(segs@[j as int]));
        j = j + 1;
    }
    assert(segs@.take(n as int) =~= segs@);
    out
}

/// The visible parts of the styled pieces of a line, from piece `i` on, the piece starting
/// at column `pos`: the columns `skip..end` are visible, and the line has `full` columns.
/// A part is (piece, start, end), in columns of the whole line; pieces wholly before the
/// visible columns are passed over, and the first piece wholly after them ends the parts.
pub open spec fn visible_from(lens: Seq<usize>, i: int, pos: int, skip: int, end: int, full: int) -> Seq<(usize, usize, usize)>
    decreases lens.len() - i,
{
    if i < 0 || i >= lens.len() {
        Seq::empty()
    } else {
        let s = pos;
        let e = pos + lens[i];
        if e <= skip {
            visible_from(lens, i + 1, e, skip, end, full)
        } else if s >= end {
            Seq::empty()
        } else {
            let vs = if s >= skip { s } else { skip };
            let ve = if e <= end { e } else { end };
            let ve2 = if ve <= full { ve } else { full };
            let here: Seq<(usize, usize, usize)> = if vs < ve2 { seq![(i as usize, vs as usize, ve2 as usize)] } else { Seq::empty() };
            here + visible_from(lens, i + 1, e, skip, end, full)
        }
    }
}

/// The visible parts of the styled pieces of a line whose lengths are `lens`, when the
/// columns `skip..skip + visible` of its `full` columns are shown ([`visible_from`]): the
/// highlighting of a whole line cut down to what the horizontal scroll shows.
pub fn visible_parts(lens: &Vec<usize>, skip: usize, visible: usize, full: usize) -> (r: Vec<(usize, usize, usize)>)
    ensures
        r@ == visible_from(lens@, 0, 0, skip as int, skip + visible, full as int),
{
    let ghost end = skip + visible;
    let endw: u128 = skip as u128 + visible as u128;
    let n = lens.len();
    let mut out: Vec<(usize, usize, usize)> = Vec::new();
    let mut pos: u128 = 0;
    let mut i: usize = 0;
    while i < n
        invariant
            n == lens@.len(),
            i <= n,
            endw == end,
            end == skip + visible,
            pos <= end + usize::MAX,
            visible_from(lens@, 0, 0, skip as int, end, full as int)
                == out@ + visible_from(lens@, i as int, pos as int, skip as int, end, full as int),
        decreases n - i,
    {
        let s = pos;
        let e = pos + lens[i] as u128;
        let ghost rest = visible_from(lens@, i + 1, e as int, skip as int, end, full as int);
        if e <= skip as u128 {
            pos = e;
            i = i + 1;
        } else if s >= endw {
            assert(visible_from(lens@, i as int, pos as int, skip as int, end, full as int) == Seq::<(usize, usize, usize)>::empty());
            assert(out@ + Seq::<(usize, usize, usize)>::empty() =~= out@);
            return out;
        } else {
            let vs: u128 = if s >= skip as u128 { s } else { skip as u128 };
            let ve: u128 = if e <= endw { e } else { endw };
            let ve2: u128 = if ve <= full as u128 { ve } else { full as u128 };
            let ghost before = out@;
            if vs < ve2 {
                out.push((i, vs as usize, ve2 as usize));
            }
            proof {
                let here: Seq<(usize, usize, usize)> = if vs < ve2 { seq![(i as usize, vs as usize, ve2 as usize)] } else { Seq::empty() };
                assert(out@ =~= before + here);
                assert(before + (here + rest) =~= out@ + rest);
            }
            pos = e;
            i = i + 1;
        }
    }
    assert(out@ + Seq::<(usize, usize, usize)>::empty() =~= out@);
    out
}

// ---------------------------------------------------------------------------------------
// Search matches
// ---------------------------------------------------------------------------------------

/// The first character of the lowercase mapping of `c` (`c` itself when it has none).
pub open spec fn lower_first(c: char) -> char {
    if lower_char(c).len() > 0 {
        lower_char(c)[0]
    } else {
        c
    }
}

/// Whether the lowercase pattern `p` matches `line` at column `i`, character by
/// character against the first characters of the lowercase mappings of the line.
pub open spec fn match_at(line: Seq<char>, p: Seq<char>, i: int) -> bool {
    &&& 0 <= i
    &&& i + p.len() <= line.len()
    &&& forall|j: int| 0 <= j < p.len() ==> lower_first(#[trigger] line[i + j]) == p[j]
}

/// The matches of the lowercase pattern `p` in `line` at the columns from `i` on: a match
/// may start inside the previous one.
pub open spec fn matches_from(line: Seq<char>, p: Seq<char>, i: int) -> Seq<(usize, usize)>
    decreases line.len() - i,
{
    if i < 0 || i >= line.len() || i + p.len() > line.len() {
        Seq::empty()
    } else {
        let rest = matches_from(line, p, i + 1);
        if match_at(line, p, i) {
            seq![(i as usize, (i + p.len()) as usize)] + rest
        } else {
            rest
        }
    }
}

/// The matches of the search `pattern` in `line`, ignoring case: none when either is
/// empty.
pub open spec fn search_spans(line: Seq<char>, pattern: Seq<char>) -> Seq<(usize, usize)> {
    if pattern.len() == 0 || line.len() == 0 {
        Seq::empty()
    } else {
        matches_from(line, lowercase_of(pattern), 0)
    }
}

/// The first character of the lowercase mapping of `c`, executably.
fn lower_first_of(c: char) -> (r: char)
    ensures
        r == lower_first(c),
{
    let l = chars_of(char_to_lowercase(c).as_str());
    if l.len() > 0 {
        l[0]
    } else {
        c
    }
}

/// Where the search `pattern` matches `line`, ignoring case, by columns
/// ([`search_spans`]).
pub fn search_match_spans(line: &str, pattern: &str) -> (r: Vec<(usize, usize)>)
    ensures
        r@ == search_spans(line@, pattern@),
{
    let lv = chars_of(line);
    if pattern.is_empty() || lv.len() == 0 {
        return Vec::new();
    }
    let p = chars_of(to_lowercase(pattern).as_str());
    let n = lv.len();
    let plen = p.len();
    let mut lowered: Vec<char> = Vec::new();
    let mut k: usize = 0;
    while k < n
        invariant
            k <= n,
            n == lv@.len(),
            lowered@.len() == k,
            forall|j: int| 0 <= j < k ==> lowered@[j] == lower_first(#[trigger] lv@[j]),
        decreases n - k,
    {
        lowered.push(lower_first_of(lv[k]));
        k = k + 1;
    }
    if plen > n {
        assert(matches_from(lv@, p@, 0) =~= Seq::<(usize, usize)>::empty());
        return Vec::new();
    }
    let last = n - plen;
    let mut found: Vec<(usize, usize)> = Vec::new();
    let mut ci: usize = 0;
    while ci <= last && ci < n
        invariant
            last + plen == n,
            n == lv@.len(),
            plen == p@.len(),
            lowered@.len() == n,
            forall|j: int| 0 <= j < n ==> lowered@[j] == lower_first(#[trigger] lv@[j]),
            ci <= last + 1,
            matches_from(lv@, p@, 0) == found@ + matches_from(lv@, p@, ci as int),
        decreases last + 1 - ci,
    {
        let mut ok = true;
        let mut j: usize = 0;
        while j < plen
            invariant
                ci <= last,
                last + plen == n,
                n == lv@.len(),
                plen == p@.len(),
                lowered@.len() == n,
                forall|q: int| 0 <= q < n ==> lowered@[q] == lower_first(#[trigger] lv@[q]),
                j <= plen,
                ok <==> forall|q: int| 0 <= q < j ==> lower_first(#[trigger] lv@[ci + q]) == p@[q],
            decreases plen - j,
        {
            assert(lowered@[ci + j] == lower_first(lv@[ci + j]));
            if lowered[ci + j] != p[j] {
                ok = false;
            }
            j = j + 1;
        }
        assert(ok <==> match_at(lv@, p@, ci as int));
        let ghost before = found@;
        if ok {
            found.push((ci, ci + plen));
            assert(found@ + matches_from(lv@, p@, ci + 1) =~= before + matches_from(lv@, p@, ci as int));
        }
        ci = ci + 1;
    }
    assert(matches_from(lv@, p@, ci as int) =~= Seq::<(usize, usize)>::empty());
    assert(found@ + Seq::<(usize, usize)>::empty() =~= found@);
    found
}

// ---------------------------------------------------------------------------------------
// Status line
// ---------------------------------------------------------------------------------------

/// The right side of the status line of `ed`: the cursor line and column counted from
/// one, four spaces, and the file position indicator.
pub open spec fn position_status_text(ed: VimEditor) -> Seq<char> {
    decimal(ed.cursor_row as nat + 1) + seq![','] + decimal(ed.cursor_col as nat + 1) + seq![' ', ' ', ' ', ' ']
        + position_text(ed.text().len(), ed.visible_height as nat, ed.scroll_offset as nat, ed.cursor_row as nat)
}

impl VimEditor {
    /// The right side of the status line ([`position_status_text`]).
    pub fn position_status(&self) -> (r: String)
        ensures
            r@ == position_status_text(*self),
    {
        let mut s = decimal_string(self.cursor_row as u128 + 1);
        push_char(&mut s, ',');
        let col = decimal_string(self.cursor_col as u128 + 1);
        s = concat_strings(s.as_str(), col.as_str());
        push_char(&mut s, ' ');
        push_char(&mut s, ' ');
        push_char(&mut s, ' ');
        push_char(&mut s, ' ');
        let pos = file_position(self);
        let r = concat_strings(s.as_str(), pos.as_str());
        assert(r@ =~= position_status_text(*self));
        r
    }
}

} // verus!
