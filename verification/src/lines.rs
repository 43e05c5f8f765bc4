//! Splitting text into lines (`str::lines`) and words (`str::split_whitespace`).
use vstd::prelude::*;

use crate::text::{is_ws, is_ws_exec, strs_view};

verus! {

/// A line with the `\r` of a `\r\n` ending removed.
pub open spec fn strip_cr(l: Seq<char>) -> Seq<char> {
    if l.len() > 0 && l.last() == '\r' {
        l.drop_last()
    } else {
        l
    }
}

/// Lines of `s` from position `i` on, the current line having begun at `start`.
pub open spec fn lines_scan(s: Seq<char>, start: int, i: int) -> Seq<Seq<char>>
    decreases s.len() - i,
{
    if i >= s.len() || i < 0 || start < 0 || start > i {
        if 0 <= start < s.len() {
            seq![s.subrange(start, s.len() as int)]
        } else {
            seq![]
        }
    } else if s[i] == '\n' {
        seq![strip_cr(s.subrange(start, i))] + lines_scan(s, i + 1, i + 1)
    } else {
        lines_scan(s, start, i + 1)
    }
}

/// `str::lines`: lines end at `\n` or `\r\n`; a final line needs no ending;
/// an empty string has no lines.
pub open spec fn lines_of(s: Seq<char>) -> Seq<Seq<char>> {
    lines_scan(s, 0, 0)
}

/// The whole segment as a word, unless it is empty.
pub open spec fn word_of(w: Seq<char>) -> Seq<Seq<char>> {
    if w.len() > 0 {
        seq![w]
    } else {
        seq![]
    }
}

/// Words of `s` from position `i` on, the current word having begun at `start`.
pub open spec fn words_scan(s: Seq<char>, start: int, i: int) -> Seq<Seq<char>>
    decreases s.len() - i,
{
    if i >= s.len() || i < 0 || start < 0 || start > i {
        word_of(s.subrange(start, s.len() as int))
    } else if is_ws(s[i]) {
        word_of(s.subrange(start, i)) + words_scan(s, i + 1, i + 1)
    } else {
        words_scan(s, start, i + 1)
    }
}

/// `str::split_whitespace`: the nonempty runs of non-whitespace characters.
pub open spec fn words_of(s: Seq<char>) -> Seq<Seq<char>> {
    words_scan(s, 0, 0)
}

/// Splits text into lines, as `str::lines` does.
pub fn split_lines(s: &str) -> (r: Vec<String>)
    ensures
        strs_view(r@) == lines_of(s@),
{
    let n = s.unicode_len();
    let mut out: Vec<String> = Vec::new();
    let mut start: usize = 0;
    let mut i: usize = 0;
    while i < n
        invariant
            n == s@.len(),
            start <= i <= n,
            strs_view(out@) + lines_scan(s@, start as int, i as int) == lines_scan(s@, 0, 0),
        decreases n - i,
    {
        if s.get_char(i) == '\n' {
            let ghost before = strs_view(out@);
            let mut end = i;
            if end > start && s.get_char(end - 1) == '\r' {
                end = end - 1;
            }
            let line = s.substring_char(start, end).to_owned();
            assert(line@ =~= strip_cr(s@.subrange(start as int, i as int)));
            out.push(line);
            assert(strs_view(out@) =~= before.push(line@));
            assert(strs_view(out@) + lines_scan(s@, (i + 1) as int, (i + 1) as int) =~= before
                + lines_scan(s@, start as int, i as int));
            start = i + 1;
        }
        i = i + 1;
    }
    if start < n {
        let ghost before = strs_view(out@);
        let line = s.substring_char(start, n).to_owned();
        out.push(line);
        assert(strs_view(out@) =~= before + lines_scan(s@, start as int, n as int));
    } else {
        assert(strs_view(out@) =~= strs_view(out@) + lines_scan(s@, start as int, n as int));
    }
    out
}

/// Splits text into whitespace-separated words, as `str::split_whitespace` does.
pub fn split_words(s: &str) -> (r: Vec<String>)
    ensures
        strs_view(r@) == words_of(s@),
{
    let n = s.unicode_len();
    let mut out: Vec<String> = Vec::new();
    let mut start: usize = 0;
    let mut i: usize = 0;
    while i < n
        invariant
            n == s@.len(),
            start <= i <= n,
            strs_view(out@) + words_scan(s@, start as int, i as int) == words_scan(s@, 0, 0),
        decreases n - i,
    {
        if is_ws_exec(s.get_char(i)) {
            let ghost before = strs_view(out@);
            if i > start {
                let w = s.substring_char(start, i).to_owned();
                out.push(w);
                assert(strs_view(out@) =~= before.push(w@));
            }
            assert(strs_view(out@) =~= before + word_of(s@.subrange(start as int, i as int)));
            assert(strs_view(out@) + words_scan(s@, (i + 1) as int, (i + 1) as int) =~= before
                + words_scan(s@, start as int, i as int));
            start = i + 1;
        }
        i = i + 1;
    }
    let ghost before = strs_view(out@);
    if n > start {
        let w = s.substring_char(start, n).to_owned();
        out.push(w);
        assert(strs_view(out@) =~= before.push(w@));
    }
    assert(strs_view(out@) =~= before + words_scan(s@, start as int, n as int));
    out
}

/// `a` begins with `p`.
pub open spec fn has_prefix(a: Seq<char>, p: Seq<char>) -> bool {
    p.len() <= a.len() && a.subrange(0, p.len() as int) =~= p
}

/// `str::starts_with` for a string prefix.
pub fn starts_with_str(a: &str, p: &str) -> (r: bool)
    ensures
        r == has_prefix(a@, p@),
{
    let n = a.unicode_len();
    let m = p.unicode_len();
    if m > n {
        return false;
    }
    let mut i: usize = 0;
    while i < m
        invariant
            n == a@.len(),
            m == p@.len(),
            m <= n,
            i <= m,
            forall|j: int| 0 <= j < i ==> a@[j] == p@[j],
        decreases m - i,
    {
        if a.get_char(i) != p.get_char(i) {
            assert(a@.subrange(0, m as int)[i as int] != p@[i as int]);
            return false;
        }
        i = i + 1;
    }
    assert(a@.subrange(0, m as int) =~= p@);
    true
}

/// The index of the first line with the prefix, if any.
pub open spec fn first_with_prefix(lines: Seq<Seq<char>>, p: Seq<char>) -> Option<int> {
    if exists|i: int| 0 <= i < lines.len() && has_prefix(#[trigger] lines[i], p) {
        Some(
            choose|i: int|
                0 <= i < lines.len() && has_prefix(#[trigger] lines[i], p) && forall|j: int|
                    0 <= j < i ==> !has_prefix(#[trigger] lines[j], p),
        )
    } else {
        None
    }
}

} // verus!
