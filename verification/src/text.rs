//! Text as a sequence of characters: white space, lines, searching and
//! replacing.
//!
//! The executable functions work on slices of `char`, so that a position in the
//! text is a position in its model.

use vstd::prelude::*;
use vstd::slice::slice_subrange;

verus! {

/// `String::push` appends the given character to the end of the string.
pub assume_specification[ String::push ](s: &mut String, ch: char)
    ensures
        final(s)@ == old(s)@.push(ch),
;

// ---------------------------------------------------------------------------
// Models
// ---------------------------------------------------------------------------
/// The characters with the Unicode property `White_Space`.
pub open spec fn is_white_space(c: char) -> bool {
    ||| '\u{9}' <= c <= '\u{d}'
    ||| c == '\u{20}'
    ||| c == '\u{85}'
    ||| c == '\u{a0}'
    ||| c == '\u{1680}'
    ||| '\u{2000}' <= c <= '\u{200a}'
    ||| c == '\u{2028}'
    ||| c == '\u{2029}'
    ||| c == '\u{202f}'
    ||| c == '\u{205f}'
    ||| c == '\u{3000}'
}

/// Nothing is left of a blank text once white space is trimmed off it.
pub open spec fn is_blank(s: Seq<char>) -> bool {
    forall|i: int| 0 <= i < s.len() ==> is_white_space(#[trigger] s[i])
}

/// `pat` stands in `s` at position `i`.
pub open spec fn occurs_at(s: Seq<char>, pat: Seq<char>, i: int) -> bool {
    0 <= i && i + pat.len() <= s.len() && s.subrange(i, i + pat.len()) == pat
}

/// The first position at or after `from` at which `pat` stands in `s`.
pub open spec fn find_from(s: Seq<char>, pat: Seq<char>, from: int) -> Option<int>
    decreases s.len() + 1 - from,
{
    if from + pat.len() > s.len() {
        None
    } else if occurs_at(s, pat, from) {
        Some(from)
    } else {
        find_from(s, pat, from + 1)
    }
}

/// The first position at which `pat` stands in `s`.
pub open spec fn find(s: Seq<char>, pat: Seq<char>) -> Option<int> {
    find_from(s, pat, 0)
}

/// What stands before the first `pat`, or all of `s` where there is none.
pub open spec fn before(s: Seq<char>, pat: Seq<char>) -> Seq<char> {
    match find(s, pat) {
        None => s,
        Some(i) => s.subrange(0, i),
    }
}

/// What stands after the first `pat`, where there is one.
pub open spec fn after(s: Seq<char>, pat: Seq<char>) -> Option<Seq<char>> {
    match find(s, pat) {
        None => None,
        Some(i) => Some(s.subrange(i + pat.len(), s.len() as int)),
    }
}

/// A line without the carriage return that belongs to its line ending.
pub open spec fn strip_cr(line: Seq<char>) -> Seq<char> {
    if line.len() > 0 && line.last() == '\r' {
        line.drop_last()
    } else {
        line
    }
}

/// The lines of a text: each ends with `\n` or `\r\n`, which is not part of it;
/// the ending of the last line may be missing.
pub open spec fn lines_of(s: Seq<char>) -> Seq<Seq<char>>
    decreases s.len(),
{
    if s.len() == 0 {
        seq![]
    } else {
        match find(s, seq!['\n']) {
            None => seq![s],
            Some(i) => if 0 <= i < s.len() {
                seq![strip_cr(s.subrange(0, i))] + lines_of(s.subrange(i + 1, s.len() as int))
            } else {
                seq![]
            },
        }
    }
}

/// The text with `to` before each character and at the end.
pub open spec fn interleaved(s: Seq<char>, to: Seq<char>) -> Seq<char>
    decreases s.len(),
{
    if s.len() == 0 {
        to
    } else {
        to + seq![s[0]] + interleaved(s.subrange(1, s.len() as int), to)
    }
}

/// The text with each occurrence of `pat` replaced by `to`, occurrences being
/// taken from the left without overlap. An empty `pat` occurs before each
/// character and at the end.
pub open spec fn replaced(s: Seq<char>, pat: Seq<char>, to: Seq<char>) -> Seq<char>
    decreases s.len(),
{
    if pat.len() == 0 {
        interleaved(s, to)
    } else {
        match find(s, pat) {
            None => s,
            Some(i) => if 0 <= i && i + pat.len() <= s.len() {
                s.subrange(0, i) + to + replaced(
                    s.subrange(i + pat.len(), s.len() as int),
                    pat,
                    to,
                )
            } else {
                s
            },
        }
    }
}

// ---------------------------------------------------------------------------
// Facts about the models
// ---------------------------------------------------------------------------
/// `find_from` gives the first occurrence: `pat` stands at the position it
/// gives and at none between `from` and it; where it gives none, `pat` stands
/// nowhere at or after `from`.
pub proof fn lemma_find_from(s: Seq<char>, pat: Seq<char>, from: int)
    requires
        0 <= from,
    ensures
        match find_from(s, pat, from) {
            Some(i) => from <= i && occurs_at(s, pat, i) && (forall|j: int|
                from <= j < i ==> !occurs_at(s, pat, j)),
            None => forall|j: int| from <= j ==> !occurs_at(s, pat, j),
        },
    decreases s.len() + 1 - from,
{
    if from + pat.len() > s.len() {
    } else if occurs_at(s, pat, from) {
    } else {
        lemma_find_from(s, pat, from + 1);
    }
}

// ---------------------------------------------------------------------------
// Executable functions
// ---------------------------------------------------------------------------
/// The characters of a text.
pub fn chars_of(s: &str) -> (res: Vec<char>)
    ensures
        res@ == s@,
{
    let mut res: Vec<char> = Vec::new();
    for c in it: s.chars()
        invariant
            res@ == it.seq().take(it.index() as int),
            it.seq() == s@,
    {
        res.push(c);
    }
    res
}

/// The text made of the given characters.
pub fn string_of(chars: &[char]) -> (res: String)
    ensures
        res@ == chars@,
{
    let mut res = String::new();
    push_chars(&mut res, chars);
    res
}

/// Appends characters to a text.
pub fn push_chars(out: &mut String, chars: &[char])
    ensures
        final(out)@ == old(out)@ + chars@,
{
    let ghost start = out@;
    let n: usize = chars.len();
    let mut i: usize = 0;
    while i < n
        invariant
            n == chars@.len(),
            i <= n,
            out@ == start + chars@.take(i as int),
        decreases n - i,
    {
        out.push(chars[i]);
        i += 1;
        assert(chars@.take(i as int) == chars@.take(i - 1).push(chars@[i - 1]));
    }
    assert(chars@.take(n as int) == chars@);
}

/// Whether the character has the Unicode property `White_Space`.
pub fn white_space(c: char) -> (res: bool)
    ensures
        res == is_white_space(c),
{
    ('\u{9}' <= c && c <= '\u{d}') || c == '\u{20}' || c == '\u{85}' || c == '\u{a0}' || c
        == '\u{1680}' || ('\u{2000}' <= c && c <= '\u{200a}') || c == '\u{2028}' || c == '\u{2029}'
        || c == '\u{202f}' || c == '\u{205f}' || c == '\u{3000}'
}

/// Whether the text holds nothing but white space.
pub fn blank(s: &[char]) -> (res: bool)
    ensures
        res == is_blank(s@),
{
    let n: usize = s.len();
    let mut i: usize = 0;
    while i < n
        invariant
            n == s@.len(),
            i <= n,
            forall|j: int| 0 <= j < i ==> is_white_space(#[trigger] s@[j]),
        decreases n - i,
    {
        if !white_space(s[i]) {
            assert(!is_white_space(s@[i as int]));
            return false;
        }
        i += 1;
    }
    true
}

/// Whether `pat` stands in `s` at position `i`.
pub fn matches_at(s: &[char], pat: &[char], i: usize) -> (res: bool)
    ensures
        res == occurs_at(s@, pat@, i as int),
{
    let n: usize = s.len();
    let m: usize = pat.len();
    if i > n || m > n - i {
        return false;
    }
    let mut k: usize = 0;
    while k < m
        invariant
            n == s@.len(),
            m == pat@.len(),
            i + m <= n,
            k <= m,
            forall|j: int| 0 <= j < k ==> s@[i + j] == #[trigger] pat@[j],
        decreases m - k,
    {
        if s[i + k] != pat[k] {
            assert(s@.subrange(i as int, i + m)[k as int] != pat@[k as int]);
            return false;
        }
        k += 1;
    }
    assert(s@.subrange(i as int, i + m) =~= pat@);
    true
}

/// The first position at or after `from` at which `pat` stands in `s`.
pub fn position_from(s: &[char], pat: &[char], from: usize) -> (res: Option<usize>)
    ensures
        match res {
            Some(i) => find_from(s@, pat@, from as int) == Some(i as int),
            None => find_from(s@, pat@, from as int) is None,
        },
{
    let n: usize = s.len();
    let m: usize = pat.len();
    let mut i: usize = from;
    while i <= n && m <= n - i
        invariant
            n == s@.len(),
            m == pat@.len(),
            from <= i,
            find_from(s@, pat@, from as int) == find_from(s@, pat@, i as int),
        decreases n + 1 - i,
    {
        if matches_at(s, pat, i) {
            return Some(i);
        }
        if i == n {
            assert(find_from(s@, pat@, i + 1) is None);
            return None;
        }
        i += 1;
    }
    None
}

/// Whether the text starts with `pat`.
pub fn starts_with(s: &[char], pat: &[char]) -> (res: bool)
    ensures
        res == pat@.is_prefix_of(s@),
{
    let res = matches_at(s, pat, 0);
    assert(pat@.len() <= s@.len() ==> (pat@ == s@.subrange(0, pat@.len() as int) <==> res));
    res
}

/// Whether the text ends with `pat`.
pub fn ends_with(s: &[char], pat: &[char]) -> (res: bool)
    ensures
        res == pat@.is_suffix_of(s@),
{
    if pat.len() > s.len() {
        return false;
    }
    matches_at(s, pat, s.len() - pat.len())
}

/// What stands before the first `pat`, or all of `s` where there is none.
pub fn text_before<'a>(s: &'a [char], pat: &[char]) -> (res: &'a [char])
    ensures
        res@ == before(s@, pat@),
{
    match position_from(s, pat, 0) {
        None => s,
        Some(i) => {
            proof {
                lemma_find_from(s@, pat@, 0);
            }
            slice_subrange(s, 0, i)
        },
    }
}

/// What stands after the first `pat`, where there is one.
pub fn text_after<'a>(s: &'a [char], pat: &[char]) -> (res: Option<&'a [char]>)
    ensures
        match res {
            Some(t) => after(s@, pat@) == Some(t@),
            None => after(s@, pat@) is None,
        },
{
    let n: usize = s.len();
    let m: usize = pat.len();
    match position_from(s, pat, 0) {
        None => None,
        Some(i) => {
            proof {
                lemma_find_from(s@, pat@, 0);
            }
            Some(slice_subrange(s, i + m, n))
        },
    }
}

/// The views of a list of slices.
pub open spec fn slice_views(v: Seq<&[char]>) -> Seq<Seq<char>> {
    v.map_values(|l: &[char]| l@)
}

/// The lines of a text.
pub fn lines<'a>(s: &'a [char]) -> (res: Vec<&'a [char]>)
    ensures
        slice_views(res@) == lines_of(s@),
{
    let n: usize = s.len();
    let newline: Vec<char> = vec!['\n'];
    assert(newline@ == seq!['\n']);
    let mut res: Vec<&'a [char]> = Vec::new();
    let mut at: usize = 0;
    assert(s@.subrange(0, n as int) == s@);
    while at < n
        invariant
            n == s@.len(),
            at <= n,
            newline@ == seq!['\n'],
            lines_of(s@) == slice_views(res@) + lines_of(s@.subrange(at as int, n as int)),
        decreases n - at,
    {
        let rest = slice_subrange(s, at, n);
        let ghost start = slice_views(res@);
        match position_from(rest, newline.as_slice(), 0) {
            None => {
                res.push(rest);
                assert(slice_views(res@) == start + seq![rest@]);
                return res;
            },
            Some(i) => {
                proof {
                    lemma_find_from(rest@, newline@, 0);
                }
                let whole = slice_subrange(rest, 0, i);
                let line = if i > 0 && whole[i - 1] == '\r' {
                    slice_subrange(whole, 0, i - 1)
                } else {
                    whole
                };
                assert(line@ == strip_cr(rest@.subrange(0, i as int)));
                res.push(line);
                let ghost tail = s@.subrange(at + i + 1, n as int);
                assert(rest@.subrange(i + 1, rest@.len() as int) == tail);
                assert(slice_views(res@) == start + seq![line@]);
                assert(start + (seq![line@] + lines_of(tail)) == start + seq![line@] + lines_of(tail));
                at = at + i + 1;
            },
        }
    }
    assert(lines_of(s@.subrange(at as int, n as int)) == Seq::<Seq<char>>::empty());
    assert(slice_views(res@) + Seq::<Seq<char>>::empty() == slice_views(res@));
    res
}

/// The text with each occurrence of `pat` replaced by `to`.
pub fn replace(s: &[char], pat: &[char], to: &[char]) -> (res: String)
    ensures
        res@ == replaced(s@, pat@, to@),
{
    if pat.len() == 0 {
        return interleave(s, to);
    }
    let n: usize = s.len();
    let m: usize = pat.len();
    let mut out = String::new();
    let mut at: usize = 0;
    assert(s@.subrange(0, n as int) == s@);
    while at <= n
        invariant
            n == s@.len(),
            m == pat@.len(),
            m > 0,
            at <= n,
            replaced(s@, pat@, to@) == out@ + replaced(s@.subrange(at as int, n as int), pat@, to@),
        decreases n - at,
    {
        let rest = slice_subrange(s, at, n);
        match position_from(rest, pat, 0) {
            None => {
                push_chars(&mut out, rest);
                return out;
            },
            Some(i) => {
                proof {
                    lemma_find_from(rest@, pat@, 0);
                }
                let ghost start = out@;
                push_chars(&mut out, slice_subrange(rest, 0, i));
                push_chars(&mut out, to);
                assert(rest@.subrange(i + m, rest@.len() as int) == s@.subrange(
                    at + i + m,
                    n as int,
                ));
                assert(out@ == start + (rest@.subrange(0, i as int) + to@));
                assert(start + replaced(rest@, pat@, to@) == out@ + replaced(
                    s@.subrange(at + i + m, n as int),
                    pat@,
                    to@,
                ));
                at = at + i + m;
            },
        }
    }
    out
}

/// The text with `to` before each character and at the end.
fn interleave(s: &[char], to: &[char]) -> (res: String)
    ensures
        res@ == interleaved(s@, to@),
{
    let n: usize = s.len();
    let mut out = String::new();
    let mut i: usize = 0;
    assert(s@.subrange(0, n as int) == s@);
    while i < n
        invariant
            n == s@.len(),
            i <= n,
            interleaved(s@, to@) == out@ + interleaved(s@.subrange(i as int, n as int), to@),
        decreases n - i,
    {
        let ghost start = out@;
        let ghost rest = s@.subrange(i as int, n as int);
        push_chars(&mut out, to);
        out.push(s[i]);
        assert(rest.subrange(1, rest.len() as int) == s@.subrange(i + 1, n as int));
        assert(start + interleaved(rest, to@) == out@ + interleaved(
            s@.subrange(i + 1, n as int),
            to@,
        ));
        i += 1;
    }
    push_chars(&mut out, to);
    out
}

// ---------------------------------------------------------------------------
// Laws
// ---------------------------------------------------------------------------
/// White space is what Unicode lists as such: the code points from tab to
/// carriage return, the space, the next line, and the spaces and separators
/// beyond ASCII. No other character is.
pub proof fn law_white_space_is_that_of_unicode(c: char)
    ensures
        is_white_space(c) <==> {
            let code = c as u32;
            ||| 9 <= code <= 13
            ||| code == 32
            ||| code == 133
            ||| code == 160
            ||| code == 5760
            ||| 8192 <= code <= 8202
            ||| code == 8232 || code == 8233
            ||| code == 8239
            ||| code == 8287
            ||| code == 12288
        },
{
}

/// A text is blank as long as only white space is added to it, and never again
/// once another character is.
pub proof fn law_blank_texts_hold_white_space_only(s: Seq<char>, c: char)
    ensures
        is_blank(Seq::empty()),
        is_blank(s.push(c)) <==> is_blank(s) && is_white_space(c),
        is_blank(s) ==> forall|i: int| 0 <= i < s.len() ==> is_white_space(#[trigger] s[i]),
{
    let longer = s.push(c);
    assert(longer[s.len() as int] == c);
    assert(forall|i: int| 0 <= i < s.len() ==> longer[i] == #[trigger] s[i]);
    assert(forall|i: int|
        0 <= i < longer.len() ==> #[trigger] longer[i] == if i < s.len() {
            s[i]
        } else {
            c
        });
}

/// A text stands at a position where its characters do, one after the other.
pub proof fn law_texts_stand_where_their_characters_do(s: Seq<char>, pat: Seq<char>, i: int)
    ensures
        occurs_at(s, pat, i) <==> 0 <= i && i + pat.len() <= s.len() && forall|k: int|
            0 <= k < pat.len() ==> s[i + k] == #[trigger] pat[k],
{
    if occurs_at(s, pat, i) {
        assert forall|k: int| 0 <= k < pat.len() implies s[i + k] == #[trigger] pat[k] by {
            assert(s.subrange(i, i + pat.len())[k] == s[i + k]);
        }
    } else if 0 <= i && i + pat.len() <= s.len() && forall|k: int|
        0 <= k < pat.len() ==> s[i + k] == #[trigger] pat[k] {
        assert(s.subrange(i, i + pat.len()) =~= pat);
    }
}

/// The first occurrence of a text is the first position from which the text can
/// be read; there is none only where it can be read from no position.
pub proof fn law_first_occurrence(s: Seq<char>, pat: Seq<char>)
    ensures
        match find(s, pat) {
            Some(i) => {
                &&& 0 <= i && i + pat.len() <= s.len()
                &&& s.subrange(i, i + pat.len()) == pat
                &&& forall|j: int| 0 <= j < i ==> #[trigger] s.subrange(j, j + pat.len()) != pat
            },
            None => forall|j: int|
                0 <= j && j + pat.len() <= s.len() ==> #[trigger] s.subrange(j, j + pat.len())
                    != pat,
        },
{
    lemma_find_from(s, pat, 0);
    match find(s, pat) {
        Some(i) => {
            assert(s.subrange(i, i + pat.len()) == pat) by {
                assert(occurs_at(s, pat, i));
            }
            assert forall|j: int| 0 <= j < i implies #[trigger] s.subrange(j, j + pat.len())
                != pat by {
                assert(!occurs_at(s, pat, j));
            }
        },
        None => {
            assert forall|j: int| 0 <= j && j + pat.len() <= s.len() implies #[trigger] s.subrange(
                j,
                j + pat.len(),
            ) != pat by {
                assert(!occurs_at(s, pat, j));
            }
        },
    }
}

/// Splitting a text at the first occurrence of another loses nothing: what stands
/// before it, the other, and what stands after it make up the text, and the other
/// can be read from no earlier position. Where there is nothing to split at, all
/// of the text stands before.
pub proof fn law_splitting_loses_nothing(s: Seq<char>, pat: Seq<char>)
    ensures
        match after(s, pat) {
            Some(rest) => {
                &&& s == before(s, pat) + pat + rest
                &&& forall|j: int|
                    0 <= j < before(s, pat).len() ==> #[trigger] s.subrange(j, j + pat.len()) != pat
            },
            None => {
                &&& before(s, pat) == s
                &&& forall|j: int|
                    0 <= j && j + pat.len() <= s.len() ==> #[trigger] s.subrange(j, j + pat.len())
                        != pat
            },
        },
{
    law_first_occurrence(s, pat);
    if let Some(i) = find(s, pat) {
        assert(s == s.subrange(0, i) + s.subrange(i, i + pat.len()) + s.subrange(
            i + pat.len(),
            s.len() as int,
        ));
    }
}

/// Where a text first occurs is settled by its being there and nowhere before.
pub proof fn lemma_find_is(s: Seq<char>, pat: Seq<char>, i: int)
    requires
        0 <= i,
        i + pat.len() <= s.len(),
        s.subrange(i, i + pat.len()) == pat,
        forall|j: int| 0 <= j < i ==> #[trigger] s.subrange(j, j + pat.len()) != pat,
    ensures
        find(s, pat) == Some(i),
{
    law_first_occurrence(s, pat);
    match find(s, pat) {
        Some(k) => {
            if k < i {
                assert(s.subrange(k, k + pat.len()) != pat);
            } else if i < k {
                assert(s.subrange(i, i + pat.len()) != pat);
            }
        },
        None => {
            assert(s.subrange(i, i + pat.len()) != pat);
        },
    }
}

proof fn lemma_find_newline(line: Seq<char>, rest: Seq<char>)
    requires
        forall|i: int| 0 <= i < line.len() ==> #[trigger] line[i] != '\n',
    ensures
        find(line + seq!['\n'] + rest, seq!['\n']) == Some(line.len() as int),
        find(line, seq!['\n']) is None,
{
    let newline = seq!['\n'];
    let all = line + newline + rest;
    assert(all.subrange(line.len() as int, (line.len() + newline.len()) as int) == newline);
    assert forall|j: int| 0 <= j < line.len() implies #[trigger] all.subrange(
        j,
        j + newline.len(),
    ) != newline by {
        assert(all.subrange(j, j + newline.len())[0] == line[j]);
    }
    lemma_find_is(all, newline, line.len() as int);
    law_first_occurrence(line, newline);
    if let Some(i) = find(line, newline) {
        assert(line.subrange(i, i + newline.len())[0] == line[i]);
    }
}

/// A text is its lines with their endings: a line feed ends a line, and takes one
/// carriage return before it along; what is left at the end is a line too, as it
/// stands, unless it is empty.
pub proof fn law_lines_end_with_line_feeds(line: Seq<char>, rest: Seq<char>)
    requires
        forall|i: int| 0 <= i < line.len() ==> #[trigger] line[i] != '\n',
    ensures
        lines_of(Seq::empty()) == Seq::<Seq<char>>::empty(),
        line.len() > 0 ==> lines_of(line) == seq![line],
        lines_of(line + seq!['\r', '\n'] + rest) == seq![line] + lines_of(rest),
        line.len() == 0 || line[line.len() - 1] != '\r' ==> lines_of(line + seq!['\n'] + rest)
            == seq![line] + lines_of(rest),
{
    lemma_find_newline(line, rest);
    let all = line + seq!['\n'] + rest;
    assert(all.subrange(0, line.len() as int) == line);
    assert(all.subrange((line.len() + 1) as int, all.len() as int) == rest);
    let returned = line.push('\r');
    assert forall|i: int| 0 <= i < returned.len() implies #[trigger] returned[i] != '\n' by {
        if i < line.len() {
            assert(returned[i] == line[i]);
        }
    }
    lemma_find_newline(returned, rest);
    let both = returned + seq!['\n'] + rest;
    assert(both == line + seq!['\r', '\n'] + rest);
    assert(both.subrange(0, returned.len() as int) == returned);
    assert(both.subrange((returned.len() + 1) as int, both.len() as int) == rest);
    assert(returned.drop_last() == line);
}

/// Replacing changes the first occurrence and goes on behind it; without an
/// occurrence it changes nothing.
pub proof fn law_replacing_goes_from_the_left(
    a: Seq<char>,
    pat: Seq<char>,
    b: Seq<char>,
    to: Seq<char>,
)
    requires
        pat.len() > 0,
    ensures
        (forall|j: int|
            0 <= j < a.len() ==> #[trigger] (a + pat + b).subrange(j, j + pat.len()) != pat)
            ==> replaced(a + pat + b, pat, to) == a + to + replaced(b, pat, to),
        (forall|j: int|
            0 <= j && j + pat.len() <= a.len() ==> #[trigger] a.subrange(j, j + pat.len()) != pat)
            ==> replaced(a, pat, to) == a,
{
    let all = a + pat + b;
    assert(all.subrange(a.len() as int, (a.len() + pat.len()) as int) == pat);
    if forall|j: int| 0 <= j < a.len() ==> #[trigger] all.subrange(j, j + pat.len()) != pat {
        lemma_find_is(all, pat, a.len() as int);
        assert(all.subrange(0, a.len() as int) == a);
        assert(all.subrange((a.len() + pat.len()) as int, all.len() as int) == b);
    }
    if forall|j: int|
        0 <= j && j + pat.len() <= a.len() ==> #[trigger] a.subrange(j, j + pat.len()) != pat {
        law_first_occurrence(a, pat);
        if let Some(i) = find(a, pat) {
            assert(a.subrange(i, i + pat.len()) == pat);
        }
    }
}

/// The empty text is replaced before each character and at the end.
pub proof fn law_empty_text_is_replaced_everywhere(c: char, rest: Seq<char>, to: Seq<char>)
    ensures
        replaced(Seq::empty(), Seq::empty(), to) == to,
        replaced(seq![c] + rest, Seq::empty(), to) == to + seq![c] + replaced(
            rest,
            Seq::empty(),
            to,
        ),
{
    let s = seq![c] + rest;
    assert(s.subrange(1, s.len() as int) == rest);
}

/// Replacing a text by itself changes nothing.
pub proof fn law_replacing_by_itself_changes_nothing(s: Seq<char>, pat: Seq<char>)
    requires
        pat.len() > 0,
    ensures
        replaced(s, pat, pat) == s,
    decreases s.len(),
{
    law_first_occurrence(s, pat);
    if let Some(i) = find(s, pat) {
        law_replacing_by_itself_changes_nothing(s.subrange(i + pat.len(), s.len() as int), pat);
        assert(s == s.subrange(0, i) + s.subrange(i, i + pat.len()) + s.subrange(
            i + pat.len(),
            s.len() as int,
        ));
    }
}

/// The texts of slices are those of the slices, each in its place.
pub proof fn law_slice_views_keep_their_places(v: Seq<&[char]>, i: int)
    requires
        0 <= i < v.len(),
    ensures
        slice_views(v).len() == v.len(),
        slice_views(v)[i] == v[i]@,
{
}

} // verus!
