//! Character-level text operations shared by the playlist reader, the
//! request gateway and the packager command line.
//!
//! Every specification is stated over `Seq<char>`, the view of `str` and
//! `String`. The executable functions work on `&[char]`, which gives
//! constant-time indexing.

use vstd::prelude::*;
use vstd::slice::slice_subrange;

verus! {

/// `String::push` of the standard library: the string afterwards is the
/// string before with `ch` added at its end.
pub assume_specification[ String::push ](s: &mut String, ch: char)
    ensures
        final(s)@ == old(s)@.push(ch),
;

/// The characters with the Unicode `White_Space` property.
pub open spec fn is_whitespace(c: char) -> bool {
    ||| '\u{0009}' <= c <= '\u{000D}'
    ||| c == ' '
    ||| c == '\u{0085}'
    ||| c == '\u{00A0}'
    ||| c == '\u{1680}'
    ||| '\u{2000}' <= c <= '\u{200A}'
    ||| c == '\u{2028}'
    ||| c == '\u{2029}'
    ||| c == '\u{202F}'
    ||| c == '\u{205F}'
    ||| c == '\u{3000}'
}

/// `s` without its leading whitespace.
pub open spec fn trim_start(s: Seq<char>) -> Seq<char>
    decreases s.len(),
{
    if s.len() > 0 && is_whitespace(s.first()) {
        trim_start(s.drop_first())
    } else {
        s
    }
}

/// `s` without its trailing whitespace.
pub open spec fn trim_end(s: Seq<char>) -> Seq<char>
    decreases s.len(),
{
    if s.len() > 0 && is_whitespace(s.last()) {
        trim_end(s.drop_last())
    } else {
        s
    }
}

/// `s` without leading and trailing whitespace.
pub open spec fn trim(s: Seq<char>) -> Seq<char> {
    trim_end(trim_start(s))
}

/// Whether `s` ends with `suffix`.
pub open spec fn ends_with(s: Seq<char>, suffix: Seq<char>) -> bool {
    suffix.len() <= s.len() && s.skip(s.len() - suffix.len()) == suffix
}

/// Trimming cuts whitespace off both ends and nothing else: the result is a
/// stretch of `s` with only whitespace before it and behind it, and it
/// neither begins nor ends with whitespace.
pub proof fn lemma_trim_is_tight(s: Seq<char>)
    ensures
        exists|i: int, j: int|
            {
                &&& 0 <= i <= j <= s.len()
                &&& #[trigger] s.subrange(i, j) == trim(s)
                &&& forall|k: int| 0 <= k < i ==> is_whitespace(s[k])
                &&& forall|k: int| j <= k < s.len() ==> is_whitespace(s[k])
            },
        trim(s).len() > 0 ==> !is_whitespace(trim(s).first()) && !is_whitespace(trim(s).last()),
{
    let i = lemma_trim_start(s);
    let front = trim_start(s);
    let n = lemma_trim_end(front);
    let j = i + n;
    assert(s.subrange(i, j) =~= front.take(n));
    assert forall|k: int| j <= k < s.len() implies is_whitespace(s[k]) by {
        assert(s[k] == front[k - i]);
    }
}

/// `trim_start(s)` is `s` from the index returned, everything before that
/// index is whitespace, and what is left does not begin with whitespace.
proof fn lemma_trim_start(s: Seq<char>) -> (i: int)
    ensures
        0 <= i <= s.len(),
        trim_start(s) == s.skip(i),
        forall|k: int| 0 <= k < i ==> is_whitespace(s[k]),
        i < s.len() ==> !is_whitespace(s[i]),
    decreases s.len(),
{
    if s.len() > 0 && is_whitespace(s.first()) {
        let rest = s.drop_first();
        let r = lemma_trim_start(rest);
        assert forall|k: int| 0 <= k < r + 1 implies is_whitespace(s[k]) by {
            if k > 0 {
                assert(s[k] == rest[k - 1]);
            }
        }
        r + 1
    } else {
        0
    }
}

/// `trim_end(s)` is `s` up to the index returned, everything from that index
/// on is whitespace, and what is left does not end with whitespace.
proof fn lemma_trim_end(s: Seq<char>) -> (j: int)
    ensures
        0 <= j <= s.len(),
        trim_end(s) == s.take(j),
        forall|k: int| j <= k < s.len() ==> is_whitespace(s[k]),
        j > 0 ==> !is_whitespace(s[j - 1]),
    decreases s.len(),
{
    if s.len() > 0 && is_whitespace(s.last()) {
        let front = s.drop_last();
        let r = lemma_trim_end(front);
        assert forall|k: int| r <= k < s.len() implies is_whitespace(s[k]) by {
            if k < front.len() {
                assert(s[k] == front[k]);
            }
        }
        r
    } else {
        s.len() as int
    }
}

/// The number of characters of `s` before its first `c`, or the length of
/// `s` when `c` does not occur.
pub open spec fn first_index(s: Seq<char>, c: char) -> int
    decreases s.len(),
{
    if s.len() == 0 || s.first() == c {
        0
    } else {
        1 + first_index(s.drop_first(), c)
    }
}

/// `first_index` is `end` if no `c` comes before `end` and one stands at
/// `end`, or the sequence ends there.
pub proof fn lemma_first_index(s: Seq<char>, c: char, end: int)
    requires
        0 <= end <= s.len(),
        forall|i: int| 0 <= i < end ==> s[i] != c,
        end == s.len() || s[end] == c,
    ensures
        first_index(s, c) == end,
    decreases end,
{
    if end > 0 {
        let rest = s.drop_first();
        lemma_first_index(rest, c, end - 1);
    }
}

/// The index just past the last occurrence of `c` in `s`, or 0 when `c` does
/// not occur.
pub open spec fn after_last(s: Seq<char>, c: char) -> int
    decreases s.len(),
{
    if s.len() == 0 {
        0
    } else if s.last() == c {
        s.len() as int
    } else {
        after_last(s.drop_last(), c)
    }
}

/// The final component of a path whose components are separated by `/`.
///
/// Empty components and `.` components at the end of the path are passed
/// over. The result is empty when nothing is left, or when the final
/// component is `..`.
pub open spec fn file_name(path: Seq<char>) -> Seq<char>
    decreases path.len(),
{
    let start = after_last(path, '/');
    let last = path.skip(start);
    if last.len() == 0 || last == seq!['.'] {
        if 0 < start <= path.len() {
            file_name(path.take(start - 1))
        } else {
            Seq::empty()
        }
    } else if last == seq!['.', '.'] {
        Seq::empty()
    } else {
        last
    }
}

/// Nothing from `after_last` on is `c`.
proof fn lemma_after_last(s: Seq<char>, c: char)
    ensures
        0 <= after_last(s, c) <= s.len(),
        forall|i: int| after_last(s, c) <= i < s.len() ==> s[i] != c,
    decreases s.len(),
{
    if s.len() > 0 && s.last() != c {
        let front = s.drop_last();
        lemma_after_last(front, c);
        assert forall|i: int| after_last(s, c) <= i < s.len() implies s[i] != c by {
            if i < front.len() {
                assert(front[i] == s[i]);
            }
        }
    }
}

/// A file name is one component: it holds no `/`, and it is neither `.` nor
/// `..`.
pub proof fn lemma_file_name_is_a_component(path: Seq<char>)
    ensures
        forall|i: int| 0 <= i < file_name(path).len() ==> file_name(path)[i] != '/',
        file_name(path) != seq!['.'],
        file_name(path) != seq!['.', '.'],
    decreases path.len(),
{
    let start = after_last(path, '/');
    let last = path.skip(start);
    lemma_after_last(path, '/');
    if last.len() == 0 || last == seq!['.'] {
        if 0 < start <= path.len() {
            lemma_file_name_is_a_component(path.take(start - 1));
        }
    }
    assert(Seq::<char>::empty().len() == 0);
    assert(seq!['.'].len() == 1);
    assert(seq!['.', '.'].len() == 2);
}

/// The extension of a path: what follows the last `.` of its file name.
/// There is none when the file name has no `.`, or only one at its start.
pub open spec fn extension(path: Seq<char>) -> Option<Seq<char>> {
    let name = file_name(path);
    let dot = after_last(name, '.');
    if dot <= 1 {
        None
    } else {
        Some(name.skip(dot))
    }
}

/// Whether the extension of `path` is `ext`.
pub open spec fn has_extension(path: Seq<char>, ext: Seq<char>) -> bool {
    extension(path) == Some(ext)
}

/// The characters of `s`, in order.
pub fn chars_of(s: &str) -> (v: Vec<char>)
    ensures
        v@ == s@,
{
    let mut v: Vec<char> = Vec::new();
    for c in it: s.chars()
        invariant
            v@ == it.seq().take(it.index() as int),
            it.seq() == s@,
    {
        v.push(c);
    }
    v
}

/// The string made of the characters of `s`.
pub fn string_of(s: &[char]) -> (out: String)
    ensures
        out@ == s@,
{
    let mut out = String::new();
    let mut i: usize = 0;
    while i < s.len()
        invariant
            i <= s.len(),
            out@ == s@.take(i as int),
        decreases s.len() - i,
    {
        out.push(s[i]);
        i += 1;
    }
    out
}

/// Whether `c` is whitespace.
pub fn char_is_whitespace(c: char) -> (b: bool)
    ensures
        b == is_whitespace(c),
{
    ('\u{0009}' <= c && c <= '\u{000D}') || c == ' ' || c == '\u{0085}' || c == '\u{00A0}' || c
        == '\u{1680}' || ('\u{2000}' <= c && c <= '\u{200A}') || c == '\u{2028}' || c
        == '\u{2029}' || c == '\u{202F}' || c == '\u{205F}' || c == '\u{3000}'
}

/// Whether two character slices hold the same characters.
pub fn same_chars(a: &[char], b: &[char]) -> (r: bool)
    ensures
        r == (a@ == b@),
{
    if a.len() != b.len() {
        return false;
    }
    let mut i: usize = 0;
    while i < a.len()
        invariant
            i <= a.len(),
            a.len() == b.len(),
            a@.take(i as int) == b@.take(i as int),
        decreases a.len() - i,
    {
        if a[i] != b[i] {
            return false;
        }
        i += 1;
    }
    assert(a@.take(a.len() as int) == a@);
    assert(b@.take(b.len() as int) == b@);
    true
}

/// Whether `s` ends with `suffix`.
pub fn slice_ends_with(s: &[char], suffix: &[char]) -> (r: bool)
    ensures
        r == ends_with(s@, suffix@),
{
    if suffix.len() > s.len() {
        return false;
    }
    let tail = slice_subrange(s, s.len() - suffix.len(), s.len());
    same_chars(tail, suffix)
}

/// `s` without leading and trailing whitespace, as a sub-slice of `s`.
pub fn trim_slice(s: &[char]) -> (out: &[char])
    ensures
        out@ == trim(s@),
{
    let mut lo: usize = 0;
    assert(s@.skip(0) == s@);
    while lo < s.len() && char_is_whitespace(s[lo])
        invariant
            lo <= s.len(),
            trim_start(s@) == trim_start(s@.skip(lo as int)),
        decreases s.len() - lo,
    {
        assert(s@.skip(lo as int).drop_first() == s@.skip(lo + 1));
        lo += 1;
    }
    let mut hi: usize = s.len();
    while hi > lo && char_is_whitespace(s[hi - 1])
        invariant
            lo <= hi <= s.len(),
            trim(s@) == trim_end(s@.subrange(lo as int, hi as int)),
        decreases hi,
    {
        assert(s@.subrange(lo as int, hi as int).drop_last() == s@.subrange(
            lo as int,
            hi - 1,
        ));
        hi -= 1;
    }
    slice_subrange(s, lo, hi)
}

/// The number of characters of `s` before its first `c`, or the length of
/// `s` when `c` does not occur.
pub fn index_of_first(s: &[char], c: char) -> (k: usize)
    ensures
        k == first_index(s@, c),
        k <= s.len(),
{
    let mut k: usize = 0;
    while k < s.len() && s[k] != c
        invariant
            k <= s.len(),
            forall|i: int| 0 <= i < k ==> s@[i] != c,
        decreases s.len() - k,
    {
        k += 1;
    }
    proof {
        lemma_first_index(s@, c, k as int);
    }
    k
}

/// The index just past the last occurrence of `c` in `s`, or 0 when `c` does
/// not occur.
pub fn index_after_last(s: &[char], c: char) -> (k: usize)
    ensures
        k == after_last(s@, c),
        k <= s.len(),
{
    let mut k: usize = s.len();
    assert(s@.take(s.len() as int) == s@);
    while k > 0 && s[k - 1] != c
        invariant
            k <= s.len(),
            after_last(s@, c) == after_last(s@.take(k as int), c),
        decreases k,
    {
        assert(s@.take(k as int).drop_last() == s@.take(k - 1));
        k -= 1;
    }
    k
}

/// The final component of `path`, as a sub-slice of `path`.
pub fn file_name_slice(path: &[char]) -> (name: &[char])
    ensures
        name@ == file_name(path@),
{
    let mut end: usize = path.len();
    assert(path@.take(path.len() as int) == path@);
    loop
        invariant
            end <= path.len(),
            file_name(path@) == file_name(path@.take(end as int)),
        decreases end,
    {
        let head = slice_subrange(path, 0, end);
        let start = index_after_last(head, '/');
        let last = slice_subrange(path, start, end);
        assert(last@ == head@.skip(start as int));
        if last.len() == 0 || (last.len() == 1 && last[0] == '.') {
            assert(last@.len() == 0 || last@ =~= seq!['.']);
            if start == 0 {
                return slice_subrange(path, 0, 0);
            }
            assert(head@.take(start - 1) == path@.take(start - 1));
            end = start - 1;
        } else if last.len() == 2 && last[0] == '.' && last[1] == '.' {
            assert(last@ =~= seq!['.', '.']);
            return slice_subrange(path, 0, 0);
        } else {
            return last;
        }
    }
}

/// Whether the extension of `path` is `ext`.
pub fn path_has_extension(path: &[char], ext: &[char]) -> (r: bool)
    ensures
        r == has_extension(path@, ext@),
{
    let name = file_name_slice(path);
    let dot = index_after_last(name, '.');
    if dot <= 1 {
        return false;
    }
    let found = slice_subrange(name, dot, name.len());
    same_chars(found, ext)
}

} // verus!
