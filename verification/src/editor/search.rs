//! Incremental search (`/`, `?`, `n`, `N`): case-insensitive, wrapping around the buffer.
use vstd::prelude::*;

use super::motions::min_int;
use super::VimEditor;
use crate::text::{chars_of, is_uppercase, lowercase_of, to_lowercase, uppercase_char};

verus! {

/// Whether `needle` occurs in `hay` at position `i`.
pub open spec fn occurs_at(hay: Seq<char>, needle: Seq<char>, i: int) -> bool {
    0 <= i && i + needle.len() <= hay.len() && hay.subrange(i, i + needle.len()) == needle
}

/// The first position at or after `from` where `needle` occurs in `hay`.
pub open spec fn find_sub(hay: Seq<char>, needle: Seq<char>, from: int) -> Option<int>
    decreases hay.len() + 1 - from,
{
    if from < 0 || from + needle.len() > hay.len() {
        None
    } else if occurs_at(hay, needle, from) {
        Some(from)
    } else {
        find_sub(hay, needle, from + 1)
    }
}

/// The last position where `needle` occurs in `hay` and ends by `upto`.
pub open spec fn rfind_sub(hay: Seq<char>, needle: Seq<char>, upto: int) -> Option<int>
    decreases upto,
{
    let start = upto - needle.len();
    if start < 0 {
        None
    } else if occurs_at(hay, needle, start) {
        Some(start)
    } else if upto <= 0 {
        None
    } else {
        rfind_sub(hay, needle, upto - 1)
    }
}

/// Whether `needle` occurs in `hay` at position `i`, executably.
fn occurs_at_exec(hay: &Vec<char>, needle: &Vec<char>, i: usize) -> (r: bool)
    ensures
        r == occurs_at(hay@, needle@, i as int),
{
    let n = needle.len();
    let m = hay.len();
    if i > m || n > m - i {
        return false;
    }
    let mut k: usize = 0;
    while k < n
        invariant
            k <= n,
            n == needle@.len(),
            m == hay@.len(),
            i + n <= m,
            forall|j: int| 0 <= j < k ==> hay@[i + j] == needle@[j],
        decreases n - k,
    {
        if hay[i + k] != needle[k] {
            assert(hay@.subrange(i as int, i + n)[k as int] != needle@[k as int]);
            return false;
        }
        k = k + 1;
    }
    assert(hay@.subrange(i as int, i + n) =~= needle@);
    true
}

/// Executable form of [`find_sub`].
pub fn find_sub_exec(hay: &Vec<char>, needle: &Vec<char>, from: usize) -> (r: Option<usize>)
    ensures
        match r {
            Some(i) => find_sub(hay@, needle@, from as int) == Some(i as int),
            None => find_sub(hay@, needle@, from as int) is None,
        },
{
    let n = needle.len();
    let m = hay.len();
    let mut i = from;
    while i <= m && n <= m - i
        invariant
            find_sub(hay@, needle@, from as int) == find_sub(hay@, needle@, i as int),
            n == needle@.len(),
            m == hay@.len(),
            i >= from,
        decreases m + 1 - i,
    {
        if occurs_at_exec(hay, needle, i) {
            return Some(i);
        }
        if i == usize::MAX {
            assert(find_sub(hay@, needle@, i + 1) is None);
            return None;
        }
        i = i + 1;
    }
    None
}

/// Executable form of [`rfind_sub`].
pub fn rfind_sub_exec(hay: &Vec<char>, needle: &Vec<char>, upto: usize) -> (r: Option<usize>)
    ensures
        match r {
            Some(i) => rfind_sub(hay@, needle@, upto as int) == Some(i as int),
            None => rfind_sub(hay@, needle@, upto as int) is None,
        },
{
    let n = needle.len();
    let mut u = upto;
    while u >= n
        invariant
            rfind_sub(hay@, needle@, upto as int) == rfind_sub(hay@, needle@, u as int),
            n == needle@.len(),
        decreases u,
    {
        if occurs_at_exec(hay, needle, u - n) {
            return Some(u - n);
        }
        if u == 0 {
            return None;
        }
        u = u - 1;
    }
    None
}

/// The line `text[r]` as the search sees it: lowercased when case does not matter
/// (`fold`), as it is otherwise.
pub open spec fn lowered(text: Seq<Seq<char>>, r: int, fold: bool) -> Seq<char> {
    if fold {
        lowercase_of(text[r])
    } else {
        text[r]
    }
}

/// Searching the rows after `row` in turn, wrapping around (offsets `k..=n`, the last one
/// being `row` itself), for the first row where `p` occurs: the row and the position.
pub open spec fn rows_fwd(text: Seq<Seq<char>>, p: Seq<char>, row: int, k: int, fold: bool) -> Option<(int, int)>
    decreases text.len() + 1 - k,
{
    if k < 1 || k > text.len() {
        None
    } else {
        let r = fwd_row(text.len() as int, row, k);
        match find_sub(lowered(text, r, fold), p, 0) {
            Some(i) => Some((r, i)),
            None => rows_fwd(text, p, row, k + 1, fold),
        }
    }
}

/// Searching the rows before `row` in turn, wrapping around (offsets `k..=n`, the last one
/// being `row` itself), for the first row where `p` occurs: the row and its last position.
pub open spec fn rows_back(text: Seq<Seq<char>>, p: Seq<char>, row: int, k: int, fold: bool) -> Option<(int, int)>
    decreases text.len() + 1 - k,
{
    if k < 1 || k > text.len() {
        None
    } else {
        let r = back_row(text.len() as int, row, k);
        let l = lowered(text, r, fold);
        match rfind_sub(l, p, l.len() as int) {
            Some(i) => Some((r, i)),
            None => rows_back(text, p, row, k + 1, fold),
        }
    }
}

/// Whether a search for `pattern` ignores case (smartcase): when the pattern holds no
/// uppercase character.
pub open spec fn ignores_case(pattern: Seq<char>) -> bool {
    !(exists|i: int| 0 <= i < pattern.len() && uppercase_char(#[trigger] pattern[i]))
}

/// The pattern as the search compares it: lowercased when case does not matter.
pub open spec fn search_pattern(pattern: Seq<char>) -> Seq<char> {
    if ignores_case(pattern) {
        lowercase_of(pattern)
    } else {
        pattern
    }
}

/// Where the cursor at (`row`, `col`) of `text` goes when searching for `pattern` in the
/// direction `forward`, wrapping around (smartcase: case matters only for a pattern with an
/// uppercase character); `None` for an empty pattern or one that occurs nowhere.
pub open spec fn search_target(text: Seq<Seq<char>>, pattern: Seq<char>, forward: bool, row: int, col: int) -> Option<(int, int)> {
    let fold = ignores_case(pattern);
    if pattern.len() == 0 {
        None
    } else if forward {
        search_fwd(text, search_pattern(pattern), row, col, fold)
    } else {
        search_back(text, search_pattern(pattern), row, col, fold)
    }
}

/// Where a forward search for `p` (lowercase) from (`row`, `col`) lands: the first match
/// after the cursor on its line, else the first match on the following lines (wrapping).
pub open spec fn search_fwd(text: Seq<Seq<char>>, p: Seq<char>, row: int, col: int, fold: bool) -> Option<(int, int)> {
    let l = lowered(text, row, fold);
    match find_sub(l, p, min_int(col + 1, l.len() as int)) {
        Some(i) => Some((row, i)),
        None => rows_fwd(text, p, row, 1, fold),
    }
}

/// Where a backward search for `p` (lowercase) from (`row`, `col`) lands: the last match
/// before the cursor on its line, else the last match on the preceding lines (wrapping).
pub open spec fn search_back(text: Seq<Seq<char>>, p: Seq<char>, row: int, col: int, fold: bool) -> Option<(int, int)> {
    let l = lowered(text, row, fold);
    let here = if col > 0 { rfind_sub(l, p, min_int(col as int, l.len() as int)) } else { None };
    match here {
        Some(i) => Some((row, i)),
        None => rows_back(text, p, row, 1, fold),
    }
}

/// What [`find_sub`] finds is an occurrence at or after `from`, and nothing occurs from
/// `from` on when it finds none.
pub proof fn lemma_find_sub(hay: Seq<char>, needle: Seq<char>, from: int)
    requires
        from >= 0,
    ensures
        find_sub(hay, needle, from) matches Some(i) ==> from <= i && occurs_at(hay, needle, i),
        find_sub(hay, needle, from) is None ==> forall|j: int| from <= j ==> !#[trigger] occurs_at(hay, needle, j),
    decreases hay.len() + 1 - from,
{
    if from + needle.len() > hay.len() {
    } else if occurs_at(hay, needle, from) {
    } else {
        lemma_find_sub(hay, needle, from + 1);
        if find_sub(hay, needle, from) is None {
            assert forall|j: int| from <= j implies !#[trigger] occurs_at(hay, needle, j) by {
                if j > from {
                    assert(from + 1 <= j);
                }
            }
        }
    }
}

/// The row that [`rows_fwd`] looks at for offset `k` from `row`.
pub open spec fn fwd_row(n: int, row: int, k: int) -> int {
    if row + k >= n { row + k - n } else { row + k }
}

/// What [`rows_fwd`] finds is an occurrence on a row of the text, and when it finds none,
/// no row it looks at from offset `k` on holds one.
pub proof fn lemma_rows_fwd(text: Seq<Seq<char>>, p: Seq<char>, row: int, k: int, fold: bool)
    requires
        0 <= row < text.len(),
        k >= 1,
    ensures
        rows_fwd(text, p, row, k, fold) matches Some((r, i)) ==> 0 <= r < text.len() && occurs_at(lowered(text, r, fold), p, i),
        rows_fwd(text, p, row, k, fold) is None ==> forall|q: int, j: int|
            k <= q <= text.len() ==> !#[trigger] occurs_at(lowered(text, fwd_row(text.len() as int, row, q), fold), p, j),
    decreases text.len() + 1 - k,
{
    if k > text.len() {
    } else {
        let r = fwd_row(text.len() as int, row, k);
        lemma_find_sub(lowered(text, r, fold), p, 0);
        lemma_rows_fwd(text, p, row, k + 1, fold);
        if rows_fwd(text, p, row, k, fold) is None {
            assert forall|q: int, j: int|
                k <= q <= text.len() implies !#[trigger] occurs_at(lowered(text, fwd_row(text.len() as int, row, q), fold), p, j) by {
                if q == k {
                    if j >= 0 {
                        assert(!occurs_at(lowered(text, r, fold), p, j));
                    }
                }
            }
        }
    }
}

/// Law: a forward search lands on an occurrence of the (lowercase) pattern on a line of
/// the text, lowercased; when it finds none, the pattern occurs on no line.
pub proof fn lemma_search_fwd(text: Seq<Seq<char>>, p: Seq<char>, row: int, col: int, fold: bool)
    requires
        0 <= row < text.len(),
        0 <= col,
    ensures
        search_fwd(text, p, row, col, fold) matches Some((r, i)) ==> 0 <= r < text.len() && occurs_at(lowered(text, r, fold), p, i),
        search_fwd(text, p, row, col, fold) is None ==> forall|r: int, j: int|
            0 <= r < text.len() ==> !#[trigger] occurs_at(lowered(text, r, fold), p, j),
{
    let n = text.len() as int;
    let l = lowered(text, row, fold);
    lemma_find_sub(l, p, min_int(col + 1, l.len() as int));
    lemma_rows_fwd(text, p, row, 1, fold);
    if search_fwd(text, p, row, col, fold) is None {
        assert forall|r: int, j: int| 0 <= r < n implies !#[trigger] occurs_at(lowered(text, r, fold), p, j) by {
            let q = if r > row { r - row } else { r - row + n };
            assert(1 <= q <= n);
            assert(fwd_row(n, row, q) == r);
            assert(!occurs_at(lowered(text, fwd_row(n, row, q), fold), p, j));
        }
    }
}

/// What [`rfind_sub`] finds is an occurrence that ends by `upto`, and nothing occurs that
/// ends by `upto` when it finds none.
pub proof fn lemma_rfind_sub(hay: Seq<char>, needle: Seq<char>, upto: int)
    ensures
        rfind_sub(hay, needle, upto) matches Some(i) ==> i + needle.len() <= upto && occurs_at(hay, needle, i),
        rfind_sub(hay, needle, upto) is None ==> forall|j: int| j + needle.len() <= upto ==> !#[trigger] occurs_at(hay, needle, j),
    decreases upto,
{
    let start = upto - needle.len();
    if start < 0 {
    } else if occurs_at(hay, needle, start) {
    } else if upto <= 0 {
    } else {
        lemma_rfind_sub(hay, needle, upto - 1);
        if rfind_sub(hay, needle, upto) is None {
            assert forall|j: int| j + needle.len() <= upto implies !#[trigger] occurs_at(hay, needle, j) by {
                if j < start {
                    assert(j + needle.len() <= upto - 1);
                }
            }
        }
    }
}

/// The row that [`rows_back`] looks at for offset `k` from `row`.
pub open spec fn back_row(n: int, row: int, k: int) -> int {
    if row >= k { row - k } else { row + n - k }
}

/// What [`rows_back`] finds is an occurrence on a row of the text, and when it finds none,
/// no row it looks at from offset `k` on holds one.
pub proof fn lemma_rows_back(text: Seq<Seq<char>>, p: Seq<char>, row: int, k: int, fold: bool)
    requires
        0 <= row < text.len(),
        k >= 1,
    ensures
        rows_back(text, p, row, k, fold) matches Some((r, i)) ==> 0 <= r < text.len() && occurs_at(lowered(text, r, fold), p, i),
        rows_back(text, p, row, k, fold) is None ==> forall|q: int, j: int|
            k <= q <= text.len() ==> !#[trigger] occurs_at(lowered(text, back_row(text.len() as int, row, q), fold), p, j),
    decreases text.len() + 1 - k,
{
    if k > text.len() {
    } else {
        let r = back_row(text.len() as int, row, k);
        let l = lowered(text, r, fold);
        lemma_rfind_sub(l, p, l.len() as int);
        lemma_rows_back(text, p, row, k + 1, fold);
        if rows_back(text, p, row, k, fold) is None {
            assert forall|q: int, j: int|
                k <= q <= text.len() implies !#[trigger] occurs_at(lowered(text, back_row(text.len() as int, row, q), fold), p, j) by {
                if q == k {
                    if j + p.len() <= l.len() {
                        assert(!occurs_at(l, p, j));
                    }
                }
            }
        }
    }
}

/// Law: a backward search lands on an occurrence of the (lowercase) pattern on a line of
/// the text, lowercased; when it finds none, the pattern occurs on no line.
pub proof fn lemma_search_back(text: Seq<Seq<char>>, p: Seq<char>, row: int, col: int, fold: bool)
    requires
        0 <= row < text.len(),
        0 <= col,
    ensures
        search_back(text, p, row, col, fold) matches Some((r, i)) ==> 0 <= r < text.len() && occurs_at(lowered(text, r, fold), p, i),
        search_back(text, p, row, col, fold) is None ==> forall|r: int, j: int|
            0 <= r < text.len() ==> !#[trigger] occurs_at(lowered(text, r, fold), p, j),
{
    let n = text.len() as int;
    let l = lowered(text, row, fold);
    if col > 0 {
        lemma_rfind_sub(l, p, min_int(col as int, l.len() as int));
    }
    lemma_rows_back(text, p, row, 1, fold);
    if search_back(text, p, row, col, fold) is None {
        assert forall|r: int, j: int| 0 <= r < n implies !#[trigger] occurs_at(lowered(text, r, fold), p, j) by {
            let q = if r < row { row - r } else { row - r + n };
            assert(1 <= q <= n);
            assert(back_row(n, row, q) == r);
            assert(!occurs_at(lowered(text, back_row(n, row, q), fold), p, j));
        }
    }
}

/// What [`find_sub`] finds from `from` is the first occurrence at or after `from`.
proof fn lemma_find_sub_first(hay: Seq<char>, needle: Seq<char>, from: int)
    requires
        from >= 0,
    ensures
        find_sub(hay, needle, from) matches Some(i) ==> forall|j: int| from <= j < i ==> !#[trigger] occurs_at(hay, needle, j),
    decreases hay.len() + 1 - from,
{
    if from + needle.len() <= hay.len() && !occurs_at(hay, needle, from) {
        lemma_find_sub_first(hay, needle, from + 1);
    }
}

/// What [`rfind_sub`] finds is the last occurrence that ends by `upto`.
proof fn lemma_rfind_sub_last(hay: Seq<char>, needle: Seq<char>, upto: int)
    ensures
        rfind_sub(hay, needle, upto) matches Some(i) ==> forall|j: int|
            i < j && j + needle.len() <= upto ==> !#[trigger] occurs_at(hay, needle, j),
    decreases upto,
{
    let start = upto - needle.len();
    if start >= 0 && !occurs_at(hay, needle, start) && upto > 0 {
        lemma_rfind_sub_last(hay, needle, upto - 1);
    }
}

/// Where [`rows_fwd`] stops from offset `k`: at an offset `s` whose row holds the
/// occurrence found, the first one of that row, with no occurrence on the rows of the
/// offsets before `s`.
proof fn lemma_rows_fwd_stop(text: Seq<Seq<char>>, p: Seq<char>, row: int, k: int, fold: bool) -> (s: int)
    requires
        0 <= row < text.len(),
        k >= 1,
    ensures
        rows_fwd(text, p, row, k, fold) matches Some((r, i)) ==> {
            &&& k <= s <= text.len()
            &&& r == fwd_row(text.len() as int, row, s)
            &&& forall|j: int| 0 <= j < i ==> !#[trigger] occurs_at(lowered(text, r, fold), p, j)
            &&& forall|q: int, j: int| k <= q < s ==> !#[trigger] occurs_at(lowered(text, fwd_row(text.len() as int, row, q), fold), p, j)
        },
    decreases text.len() + 1 - k,
{
    if k > text.len() {
        k
    } else {
        let r = fwd_row(text.len() as int, row, k);
        let l = lowered(text, r, fold);
        lemma_find_sub(l, p, 0);
        lemma_find_sub_first(l, p, 0);
        match find_sub(l, p, 0) {
            Some(i) => k,
            None => {
                let s = lemma_rows_fwd_stop(text, p, row, k + 1, fold);
                assert forall|q: int, j: int| k <= q < s && rows_fwd(text, p, row, k, fold) is Some
                    implies !#[trigger] occurs_at(lowered(text, fwd_row(text.len() as int, row, q), fold), p, j) by {
                    if q == k && j < 0 {
                    }
                }
                s
            },
        }
    }
}

/// Where [`rows_back`] stops from offset `k`: at an offset `s` whose row holds the
/// occurrence found, the last one of that row, with no occurrence on the rows of the
/// offsets before `s`.
proof fn lemma_rows_back_stop(text: Seq<Seq<char>>, p: Seq<char>, row: int, k: int, fold: bool) -> (s: int)
    requires
        0 <= row < text.len(),
        k >= 1,
    ensures
        rows_back(text, p, row, k, fold) matches Some((r, i)) ==> {
            &&& k <= s <= text.len()
            &&& r == back_row(text.len() as int, row, s)
            &&& forall|j: int| i < j ==> !#[trigger] occurs_at(lowered(text, r, fold), p, j)
            &&& forall|q: int, j: int| k <= q < s ==> !#[trigger] occurs_at(lowered(text, back_row(text.len() as int, row, q), fold), p, j)
        },
    decreases text.len() + 1 - k,
{
    if k > text.len() {
        k
    } else {
        let r = back_row(text.len() as int, row, k);
        let l = lowered(text, r, fold);
        lemma_rfind_sub(l, p, l.len() as int);
        lemma_rfind_sub_last(l, p, l.len() as int);
        match rfind_sub(l, p, l.len() as int) {
            Some(i) => k,
            None => lemma_rows_back_stop(text, p, row, k + 1, fold),
        }
    }
}

/// Law: a forward search lands on the nearest occurrence after the cursor, wrapping
/// around. On its row no occurrence starts before it, but for those at or before the
/// cursor on the cursor's own row; when it is not on the cursor's row after the cursor,
/// nothing occurs after the cursor on that row; and no row passed over on the way (the
/// rows after the cursor's, then from the first row on) holds an occurrence.
pub proof fn lemma_search_fwd_nearest(text: Seq<Seq<char>>, p: Seq<char>, row: int, col: int, fold: bool)
    requires
        0 <= row < text.len(),
        0 <= col,
        p.len() > 0,
    ensures
        search_fwd(text, p, row, col, fold) matches Some((r, i)) ==> {
            &&& forall|j: int| j < i && #[trigger] occurs_at(lowered(text, r, fold), p, j) ==> r == row && j <= col
            &&& (r != row || i <= col) ==> forall|j: int| j > col ==> !#[trigger] occurs_at(lowered(text, row, fold), p, j)
            &&& r > row ==> forall|r2: int, j: int| row < r2 < r ==> !#[trigger] occurs_at(lowered(text, r2, fold), p, j)
            &&& (r < row || (r == row && i <= col)) ==> forall|r2: int, j: int|
                (row < r2 < text.len() || 0 <= r2 < r) ==> !#[trigger] occurs_at(lowered(text, r2, fold), p, j)
        },
{
    let n = text.len() as int;
    let l = lowered(text, row, fold);
    let f = min_int(col + 1, l.len() as int);
    lemma_find_sub(l, p, f);
    lemma_find_sub_first(l, p, f);
    let s = lemma_rows_fwd_stop(text, p, row, 1, fold);
    lemma_rows_fwd(text, p, row, 1, fold);
    match search_fwd(text, p, row, col, fold) {
        Some((r, i)) => {
            if find_sub(l, p, f) is None {
                assert forall|r2: int, j: int|
                    (r > row && row < r2 < r) || ((r < row || r == row) && (row < r2 < n || 0 <= r2 < r))
                    implies !#[trigger] occurs_at(lowered(text, r2, fold), p, j) by {
                    let q = if r2 > row { r2 - row } else { r2 - row + n };
                    assert(fwd_row(n, row, q) == r2);
                    assert(1 <= q < s);
                }
            }
        },
        None => {},
    }
}

/// Law: a backward search lands on the nearest occurrence before the cursor, wrapping
/// around. On its row no occurrence starts after it, but for those that do not end by the
/// cursor on the cursor's own row; when it is not on the cursor's row before the cursor,
/// nothing on that row ends by the cursor; and no row passed over on the way (the rows
/// before the cursor's, then from the last row back) holds an occurrence.
pub proof fn lemma_search_back_nearest(text: Seq<Seq<char>>, p: Seq<char>, row: int, col: int, fold: bool)
    requires
        0 <= row < text.len(),
        0 <= col,
        p.len() > 0,
    ensures
        search_back(text, p, row, col, fold) matches Some((r, i)) ==> {
            &&& forall|j: int| j > i && #[trigger] occurs_at(lowered(text, r, fold), p, j) ==> r == row && j + p.len() > col
            &&& (r != row || i + p.len() > col) ==> forall|j: int| j + p.len() <= col
                ==> !#[trigger] occurs_at(lowered(text, row, fold), p, j)
            &&& r < row ==> forall|r2: int, j: int| r < r2 < row ==> !#[trigger] occurs_at(lowered(text, r2, fold), p, j)
            &&& (r > row || (r == row && i + p.len() > col)) ==> forall|r2: int, j: int|
                (0 <= r2 < row || r < r2 < text.len()) ==> !#[trigger] occurs_at(lowered(text, r2, fold), p, j)
        },
{
    let n = text.len() as int;
    let l = lowered(text, row, fold);
    let u = min_int(col as int, l.len() as int);
    if col > 0 {
        lemma_rfind_sub(l, p, u);
        lemma_rfind_sub_last(l, p, u);
    }
    let s = lemma_rows_back_stop(text, p, row, 1, fold);
    lemma_rows_back(text, p, row, 1, fold);
    match search_back(text, p, row, col, fold) {
        Some((r, i)) => {
            let here = if col > 0 { rfind_sub(l, p, u) } else { None };
            if here is None {
                assert forall|r2: int, j: int|
                    (r < row && r < r2 < row) || ((r > row || r == row) && (0 <= r2 < row || r < r2 < n))
                    implies !#[trigger] occurs_at(lowered(text, r2, fold), p, j) by {
                    let q = if r2 < row { row - r2 } else { row - r2 + n };
                    assert(back_row(n, row, q) == r2);
                    assert(1 <= q < s);
                }
            }
        },
        None => {},
    }
}

/// Executable form of [`ignores_case`].
fn pattern_ignores_case(pattern: &Vec<char>) -> (r: bool)
    ensures
        r == ignores_case(pattern@),
{
    let mut i: usize = 0;
    while i < pattern.len()
        invariant
            i <= pattern@.len(),
            forall|j: int| 0 <= j < i ==> !uppercase_char(#[trigger] pattern@[j]),
        decreases pattern@.len() - i,
    {
        if is_uppercase(pattern[i]) {
            return false;
        }
        i = i + 1;
    }
    true
}

impl VimEditor {
    /// The characters of line `row` as the search sees them (lowercased for `fold`).
    fn lowered_line(&self, row: usize, fold: bool) -> (r: Vec<char>)
        requires
            row < self.text().len(),
        ensures
            r@ == lowered(self.text(), row as int, fold),
    {
        if fold {
            chars_of(to_lowercase(self.lines[row].as_str()).as_str())
        } else {
            chars_of(self.lines[row].as_str())
        }
    }

    /// The position a forward search for `p` from the cursor lands on.
    fn search_fwd_exec(&self, p: &Vec<char>, fold: bool) -> (r: Option<(usize, usize)>)
        requires
            self.wf(),
        ensures
            match r {
                Some((a, b)) => search_fwd(self.text(), p@, self.cursor_row as int, self.cursor_col as int, fold) == Some((a as int, b as int)) && a < self.text().len(),
                None => search_fwd(self.text(), p@, self.cursor_row as int, self.cursor_col as int, fold) is None,
            },
    {
        let total = self.lines.len();
        let row = self.cursor_row;
        let l = self.lowered_line(row, fold);
        let start = if self.cursor_col < l.len() { self.cursor_col + 1 } else { l.len() };
        match find_sub_exec(&l, p, start) {
            Some(i) => return Some((row, i)),
            None => {},
        }
        let mut k: usize = 1;
        assert(search_fwd(self.text(), p@, row as int, self.cursor_col as int, fold) == rows_fwd(self.text(), p@, row as int, 1, fold));
        while k <= total
            invariant
                1 <= k <= total + 1,
                total == self.text().len(),
                row < total,
                row == self.cursor_row,
                search_fwd(self.text(), p@, row as int, self.cursor_col as int, fold) == rows_fwd(self.text(), p@, row as int, k as int, fold),
            decreases total + 1 - k,
        {
            let r = if k >= total - row { k - (total - row) } else { row + k };
            let lr = self.lowered_line(r, fold);
            match find_sub_exec(&lr, p, 0) {
                Some(i) => return Some((r, i)),
                None => {},
            }
            if k == total {
                assert(rows_fwd(self.text(), p@, row as int, k + 1, fold) is None);
                return None;
            }
            k = k + 1;
        }
        None
    }

    /// The position a backward search for `p` from the cursor lands on.
    fn search_back_exec(&self, p: &Vec<char>, fold: bool) -> (r: Option<(usize, usize)>)
        requires
            self.wf(),
        ensures
            match r {
                Some((a, b)) => search_back(self.text(), p@, self.cursor_row as int, self.cursor_col as int, fold) == Some((a as int, b as int)) && a < self.text().len(),
                None => search_back(self.text(), p@, self.cursor_row as int, self.cursor_col as int, fold) is None,
            },
    {
        let total = self.lines.len();
        let row = self.cursor_row;
        if self.cursor_col > 0 {
            let l = self.lowered_line(row, fold);
            let upto = if self.cursor_col < l.len() { self.cursor_col } else { l.len() };
            match rfind_sub_exec(&l, p, upto) {
                Some(i) => return Some((row, i)),
                None => {},
            }
        }
        let mut k: usize = 1;
        assert(search_back(self.text(), p@, row as int, self.cursor_col as int, fold) == rows_back(self.text(), p@, row as int, 1, fold));
        while k <= total
            invariant
                1 <= k <= total + 1,
                total == self.text().len(),
                row < total,
                row == self.cursor_row,
                search_back(self.text(), p@, row as int, self.cursor_col as int, fold) == rows_back(self.text(), p@, row as int, k as int, fold),
            decreases total + 1 - k,
        {
            let r = if row >= k { row - k } else { total - (k - row) };
            let lr = self.lowered_line(r, fold);
            match rfind_sub_exec(&lr, p, lr.len()) {
                Some(i) => return Some((r, i)),
                None => {},
            }
            if k == total {
                assert(rows_back(self.text(), p@, row as int, k + 1, fold) is None);
                return None;
            }
            k = k + 1;
        }
        None
    }

    /// Moves the cursor to `target` and scrolls it into view; nothing happens without one.
    fn go_to_match(&mut self, target: Option<(usize, usize)>)
        requires
            old(self).wf(),
            target matches Some((a, b)) ==> a < old(self).text().len(),
        ensures
            target is None ==> *final(self) == *old(self),
            target matches Some((a, b)) ==> final(self).moved_to_match(old(self), a, b),
            final(self).wf(),
            final(self).text() == old(self).text(),
    {
        match target {
            Some((a, b)) => {
                self.cursor_row = a;
                self.cursor_col = b;
                self.ensure_cursor_visible();
            },
            None => {},
        }
    }

    /// Whether `self` is `old` with the cursor at (`row`, `col`) and scrolled into view.
    pub open spec fn moved_to_match(&self, old: &VimEditor, row: usize, col: usize) -> bool {
        let moved = VimEditor { cursor_row: row, cursor_col: col, ..*old };
        *self == VimEditor { scroll_offset: moved.visible_offset() as usize, ..moved }
    }

    /// Jump forward to the next occurrence of the pattern `p` (compared with lowercased
    /// lines for `fold`), wrapping around.
    pub fn find_forward(&mut self, p: &str, fold: bool)
        requires
            old(self).wf(),
        ensures
            match search_fwd(old(self).text(), p@, old(self).cursor_row as int, old(self).cursor_col as int, fold) {
                Some((a, b)) => final(self).moved_to_match(old(self), a as usize, b as usize),
                None => *final(self) == *old(self),
            },
            final(self).wf(),
            final(self).text() == old(self).text(),
    {
        let pv = chars_of(p);
        let target = self.search_fwd_exec(&pv, fold);
        self.go_to_match(target);
    }

    /// Jump backward to the previous occurrence of the pattern `p` (compared with lowercased
    /// lines for `fold`), wrapping around.
    pub fn find_backward(&mut self, p: &str, fold: bool)
        requires
            old(self).wf(),
        ensures
            match search_back(old(self).text(), p@, old(self).cursor_row as int, old(self).cursor_col as int, fold) {
                Some((a, b)) => final(self).moved_to_match(old(self), a as usize, b as usize),
                None => *final(self) == *old(self),
            },
            final(self).wf(),
            final(self).text() == old(self).text(),
    {
        let pv = chars_of(p);
        let target = self.search_back_exec(&pv, fold);
        self.go_to_match(target);
    }

    /// Start search mode
    pub fn start_search(&mut self, forward: bool)
        ensures
            *final(self) == (VimEditor { search: final(self).search, ..*old(self) }),
            final(self).search.active,
            final(self).search.forward == forward,
            final(self).search.input_buffer@.len() == 0,
            final(self).search.pattern == old(self).search.pattern,
    {
        self.search.active = true;
        self.search.forward = forward;
        self.search.input_buffer = String::new();
    }

    /// Cancel search
    pub fn cancel_search(&mut self)
        ensures
            *final(self) == (VimEditor { search: final(self).search, ..*old(self) }),
            !final(self).search.active,
            final(self).search.forward == old(self).search.forward,
            final(self).search.input_buffer@.len() == 0,
            final(self).search.pattern == old(self).search.pattern,
    {
        self.search.active = false;
        self.search.input_buffer = String::new();
    }

    /// Jump to next match (n): forward for a `/` search, backward for a `?` search. Nothing
    /// happens without a pattern.
    pub fn jump_to_next_match(&mut self)
        requires
            old(self).wf(),
        ensures
            old(self).search.pattern@.len() == 0 ==> *final(self) == *old(self),
            old(self).search.pattern@.len() > 0 ==> {
                let p = search_pattern(old(self).search.pattern@);
                let fold = ignores_case(old(self).search.pattern@);
                let target = if old(self).search.forward {
                    search_fwd(old(self).text(), p, old(self).cursor_row as int, old(self).cursor_col as int, fold)
                } else {
                    search_back(old(self).text(), p, old(self).cursor_row as int, old(self).cursor_col as int, fold)
                };
                match target {
                    Some((a, b)) => final(self).moved_to_match(old(self), a as usize, b as usize),
                    None => *final(self) == *old(self),
                }
            },
            final(self).wf(),
            final(self).text() == old(self).text(),
    {
        let pattern = chars_of(self.search.pattern.as_str());
        if pattern.len() == 0 {
            return;
        }
        let fold = pattern_ignores_case(&pattern);
        let p = if fold { to_lowercase(self.search.pattern.as_str()) } else { self.search.pattern.clone() };
        if self.search.forward {
            self.find_forward(p.as_str(), fold);
        } else {
            self.find_backward(p.as_str(), fold);
        }
    }

    /// Jump to previous match (N): the other way from `n`. Nothing happens without a
    /// pattern.
    pub fn jump_to_prev_match(&mut self)
        requires
            old(self).wf(),
        ensures
            old(self).search.pattern@.len() == 0 ==> *final(self) == *old(self),
            old(self).search.pattern@.len() > 0 ==> {
                let p = search_pattern(old(self).search.pattern@);
                let fold = ignores_case(old(self).search.pattern@);
                let target = if old(self).search.forward {
                    search_back(old(self).text(), p, old(self).cursor_row as int, old(self).cursor_col as int, fold)
                } else {
                    search_fwd(old(self).text(), p, old(self).cursor_row as int, old(self).cursor_col as int, fold)
                };
                match target {
                    Some((a, b)) => final(self).moved_to_match(old(self), a as usize, b as usize),
                    None => *final(self) == *old(self),
                }
            },
            final(self).wf(),
            final(self).text() == old(self).text(),
    {
        let pattern = chars_of(self.search.pattern.as_str());
        if pattern.len() == 0 {
            return;
        }
        let fold = pattern_ignores_case(&pattern);
        let p = if fold { to_lowercase(self.search.pattern.as_str()) } else { self.search.pattern.clone() };
        if self.search.forward {
            self.find_backward(p.as_str(), fold);
        } else {
            self.find_forward(p.as_str(), fold);
        }
    }

    /// Commit the search: the typed text becomes the pattern, and the cursor jumps to its
    /// next match.
    pub fn commit_search(&mut self)
        requires
            old(self).wf(),
        ensures
            final(self).search.pattern@ == old(self).search.input_buffer@,
            !final(self).search.active,
            final(self).search.forward == old(self).search.forward,
            final(self).text() == old(self).text(),
            final(self).wf(),
            old(self).inv() ==> final(self).inv(),
            final(self).config == old(self).config,
            match search_target(old(self).text(), old(self).search.input_buffer@, old(self).search.forward,
                old(self).cursor_row as int, old(self).cursor_col as int) {
                Some((a, b)) => final(self).cursor_row == a as usize && final(self).cursor_col == b as usize,
                None => final(self).cursor_row == old(self).cursor_row && final(self).cursor_col == old(self).cursor_col,
            },
    {
        self.search.active = false;
        self.search.pattern = self.search.input_buffer.clone();
        self.jump_to_next_match();
    }
}

} // verus!
