//! Text helpers of the start-up banner: dropping the blank lines around a
//! block of lines.
use vstd::prelude::*;

verus! {

broadcast use vstd::std_specs::vec::group_vec_axioms;

/// The characters with Unicode's `White_Space` property, which is what
/// `char::is_whitespace` and `str::trim` of std go by.
pub open spec fn is_white_space(c: char) -> bool {
    ||| ('\u{9}' <= c && c <= '\u{d}')
    ||| c == ' '
    ||| c == '\u{85}'
    ||| c == '\u{a0}'
    ||| c == '\u{1680}'
    ||| ('\u{2000}' <= c && c <= '\u{200a}')
    ||| c == '\u{2028}'
    ||| c == '\u{2029}'
    ||| c == '\u{202f}'
    ||| c == '\u{205f}'
    ||| c == '\u{3000}'
}

/// A line is blank when trimming its white space leaves nothing.
pub open spec fn is_blank(s: Seq<char>) -> bool {
    forall|i: int| 0 <= i < s.len() ==> is_white_space(#[trigger] s[i])
}

/// The index of the first line from `i` on that is not blank, or the
/// number of lines when there is none.
pub open spec fn first_content_from(ls: Seq<Seq<char>>, i: int) -> int
    decreases ls.len() - i,
{
    if i < 0 || i >= ls.len() {
        ls.len() as int
    } else if !is_blank(ls[i]) {
        i
    } else {
        first_content_from(ls, i + 1)
    }
}

/// The index of the last line before `n` that is not blank, or -1 when
/// there is none.
pub open spec fn last_content_before(ls: Seq<Seq<char>>, n: int) -> int
    decreases n,
{
    if n <= 0 || n > ls.len() {
        -1
    } else if !is_blank(ls[n - 1]) {
        n - 1
    } else {
        last_content_before(ls, n - 1)
    }
}

/// The lines from the first to the last one that is not blank; all the
/// lines when every one is blank.
pub open spec fn spec_trim_blank_lines(ls: Seq<Seq<char>>) -> Seq<Seq<char>> {
    let s = first_content_from(ls, 0);
    let e = last_content_before(ls, ls.len() as int);
    let start = if s == ls.len() { 0 } else { s };
    let end = if e < 0 { ls.len() - 1 } else { e };
    ls.subrange(start, end + 1)
}

proof fn lemma_last_content_at_least(ls: Seq<Seq<char>>, k: int, m: int)
    requires
        0 <= k < m <= ls.len(),
        !is_blank(ls[k]),
    ensures
        k <= last_content_before(ls, m) < m,
    decreases m,
{
    if m - 1 > k && is_blank(ls[m - 1]) {
        lemma_last_content_at_least(ls, k, m - 1);
    }
}

pub open spec fn lines_of(ls: Seq<String>) -> Seq<Seq<char>> {
    ls.map_values(|l: String| l@)
}

/// Whether a character is white space (see [`is_white_space`]).
pub fn is_whitespace(c: char) -> (r: bool)
    ensures
        r == is_white_space(c),
{
    ('\u{9}' <= c && c <= '\u{d}') || c == ' ' || c == '\u{85}' || c == '\u{a0}' || c == '\u{1680}'
        || ('\u{2000}' <= c && c <= '\u{200a}') || c == '\u{2028}' || c == '\u{2029}' || c == '\u{202f}'
        || c == '\u{205f}' || c == '\u{3000}'
}

/// Whether a line is blank (see [`is_blank`]).
pub fn line_is_blank(s: &str) -> (r: bool)
    ensures
        r == is_blank(s@),
{
    let n = s.unicode_len();
    let mut i: usize = 0;
    while i < n
        invariant
            n == s@.len(),
            i <= n,
            forall|j: int| 0 <= j < i ==> is_white_space(#[trigger] s@[j]),
        decreases n - i,
    {
        let c = s.get_char(i);
        if !is_whitespace(c) {
            return false;
        }
        i += 1;
    }
    true
}

/// The lines between the first and the last line that is not blank, both
/// included (see [`spec_trim_blank_lines`]).
pub fn trim_blank_lines_around(lines: &Vec<String>) -> (r: Vec<String>)
    requires
        lines@.len() > 0,
    ensures
        lines_of(r@) == spec_trim_blank_lines(lines_of(lines@)),
{
    let ghost ls = lines_of(lines@);
    let n = lines.len();
    let mut s: usize = 0;
    while s < n && line_is_blank(lines[s].as_str())
        invariant
            n == lines@.len(),
            ls == lines_of(lines@),
            s <= n,
            first_content_from(ls, 0) == first_content_from(ls, s as int),
        decreases n - s,
    {
        s += 1;
    }
    let mut e: usize = n;
    while e > 0 && line_is_blank(lines[e - 1].as_str())
        invariant
            n == lines@.len(),
            ls == lines_of(lines@),
            e <= n,
            last_content_before(ls, n as int) == last_content_before(ls, e as int),
        decreases e,
    {
        e -= 1;
    }
    let start = if s == n { 0 } else { s };
    let end = if e == 0 { n } else { e };
    proof {
        assert(first_content_from(ls, s as int) == s);
        assert(last_content_before(ls, e as int) == e - 1);
        if s < n {
            assert(!is_blank(ls[s as int]));
            lemma_last_content_at_least(ls, s as int, n as int);
            assert(e > s);
        }
    }
    let mut out: Vec<String> = Vec::new();
    let mut i: usize = start;
    while i < end
        invariant
            n == lines@.len(),
            ls == lines_of(lines@),
            start <= i <= end <= n,
            out@.len() == i - start,
            forall|j: int| 0 <= j < out@.len() ==> (#[trigger] out@[j])@ == lines@[start + j]@,
        decreases end - i,
    {
        out.push(lines[i].clone());
        i += 1;
    }
    proof {
        assert(lines_of(out@) =~= spec_trim_blank_lines(ls));
    }
    out
}

proof fn lemma_first_content(ls: Seq<Seq<char>>, i: int)
    requires
        0 <= i <= ls.len(),
    ensures
        i <= first_content_from(ls, i) <= ls.len(),
        first_content_from(ls, i) < ls.len() ==> !is_blank(ls[first_content_from(ls, i)]),
        forall|j: int| i <= j < first_content_from(ls, i) ==> is_blank(#[trigger] ls[j]),
    decreases ls.len() - i,
{
    if i < ls.len() && is_blank(ls[i]) {
        lemma_first_content(ls, i + 1);
    }
}

proof fn lemma_last_content(ls: Seq<Seq<char>>, n: int)
    requires
        0 <= n <= ls.len(),
    ensures
        -1 <= last_content_before(ls, n) < n,
        last_content_before(ls, n) >= 0 ==> !is_blank(ls[last_content_before(ls, n)]),
        forall|j: int| last_content_before(ls, n) < j < n ==> is_blank(#[trigger] ls[j]),
    decreases n,
{
    if n > 0 && is_blank(ls[n - 1]) {
        lemma_last_content(ls, n - 1);
    }
}

/// Trimming keeps the lines from the first to the last line that is not
/// blank: every line before the first kept one and after the last kept
/// one is blank, and the first and last kept lines are not; when every
/// line is blank, all the lines are kept.
pub proof fn lemma_trim_index_form(ls: Seq<Seq<char>>)
    requires
        ls.len() > 0,
    ensures
        ({
            let s = first_content_from(ls, 0);
            let e = last_content_before(ls, ls.len() as int);
            if s < ls.len() {
                &&& 0 <= s <= e < ls.len()
                &&& !is_blank(ls[s]) && !is_blank(ls[e])
                &&& forall|j: int| 0 <= j < s ==> is_blank(#[trigger] ls[j])
                &&& forall|j: int| e < j < ls.len() ==> is_blank(#[trigger] ls[j])
                &&& spec_trim_blank_lines(ls) == ls.subrange(s, e + 1)
            } else {
                &&& forall|j: int| 0 <= j < ls.len() ==> is_blank(#[trigger] ls[j])
                &&& spec_trim_blank_lines(ls) == ls
            }
        }),
{
    lemma_first_content(ls, 0);
    lemma_last_content(ls, ls.len() as int);
    let s = first_content_from(ls, 0);
    if s < ls.len() {
        lemma_last_content_at_least(ls, s, ls.len() as int);
    } else {
        assert(ls.subrange(0, ls.len() as int) =~= ls);
    }
}

} // verus!
