//! The exclusion list: its text is split into lines as a buffered reader
//! splits them, each line loses its trailing white space, and a file of
//! the source directory is excluded when its name denotes the same path
//! as one of the entries. Paths are read as on Windows, the program's
//! platform: both `/` and `\` separate components.

use vstd::prelude::*;
use crate::text::{chars_of, chars_equal, string_of};

verus! {

/// Unicode white space, the characters that `char::is_whitespace` accepts.
pub open spec fn is_white_space(c: char) -> bool {
    let u = c as u32;
    ||| 0x09 <= u <= 0x0d
    ||| u == 0x20
    ||| u == 0x85
    ||| u == 0xa0
    ||| u == 0x1680
    ||| 0x2000 <= u <= 0x200a
    ||| u == 0x2028
    ||| u == 0x2029
    ||| u == 0x202f
    ||| u == 0x205f
    ||| u == 0x3000
}

/// Whether `c` is Unicode white space.
pub fn is_whitespace(c: char) -> (res: bool)
    ensures
        res == is_white_space(c),
{
    let u = c as u32;
    (0x09 <= u && u <= 0x0d) || u == 0x20 || u == 0x85 || u == 0xa0 || u == 0x1680 || (0x2000 <= u
        && u <= 0x200a) || u == 0x2028 || u == 0x2029 || u == 0x202f || u == 0x205f || u == 0x3000
}

/// `s` without its trailing white space.
pub open spec fn trim_end(s: Seq<char>) -> Seq<char>
    decreases s.len(),
{
    if s.len() > 0 && is_white_space(s.last()) {
        trim_end(s.drop_last())
    } else {
        s
    }
}

/// A line without the carriage return that ends it, if any.
pub open spec fn strip_cr(line: Seq<char>) -> Seq<char> {
    if line.len() > 0 && line.last() == '\r' {
        line.drop_last()
    } else {
        line
    }
}

/// Reading `s` from the start: the lines completed by a line feed so far,
/// and the characters of the line under way.
pub open spec fn line_split(s: Seq<char>) -> (Seq<Seq<char>>, Seq<char>)
    decreases s.len(),
{
    if s.len() == 0 {
        (seq![], seq![])
    } else {
        let (done, cur) = line_split(s.drop_last());
        if s.last() == '\n' {
            (done.push(strip_cr(cur)), seq![])
        } else {
            (done, cur.push(s.last()))
        }
    }
}

/// The lines of a text as a buffered reader yields them: each line feed ends
/// a line and is dropped together with a carriage return just before it; a
/// last line without a line feed counts when it is not empty.
pub open spec fn text_lines(s: Seq<char>) -> Seq<Seq<char>> {
    let (done, cur) = line_split(s);
    if cur.len() > 0 {
        done.push(cur)
    } else {
        done
    }
}

/// The entries of an exclusion list: its lines without trailing white space.
pub open spec fn exclusion_entries(text: Seq<char>) -> Seq<Seq<char>> {
    text_lines(text).map_values(|l: Seq<char>| trim_end(l))
}

/// The length of `v[..hi]` without its trailing white space.
fn trimmed_len(v: &Vec<char>, hi: usize) -> (k: usize)
    requires
        hi <= v@.len(),
    ensures
        k <= hi,
        v@.subrange(0, k as int) == trim_end(v@.subrange(0, hi as int)),
{
    let mut k: usize = hi;
    while k > 0 && is_whitespace(v[k - 1])
        invariant
            k <= hi <= v@.len(),
            trim_end(v@.subrange(0, k as int)) == trim_end(v@.subrange(0, hi as int)),
        decreases k,
    {
        assert(v@.subrange(0, k as int).drop_last() == v@.subrange(0, k - 1));
        k = k - 1;
    }
    k
}

/// Splits the text of an exclusion list into its entries, in order.
pub fn parse_exclusions(text: &str) -> (res: Vec<String>)
    ensures
        res.deep_view() == exclusion_entries(text@),
{
    let chars = chars_of(text);
    let mut res: Vec<String> = Vec::new();
    let mut cur: Vec<char> = Vec::new();
    let mut i: usize = 0;
    while i < chars.len()
        invariant
            chars@ == text@,
            0 <= i <= chars@.len(),
            res.deep_view() == line_split(chars@.take(i as int)).0.map_values(|l: Seq<char>| trim_end(l)),
            cur@ == line_split(chars@.take(i as int)).1,
        decreases chars@.len() - i,
    {
        let c = chars[i];
        let ghost prev = chars@.take(i as int);
        assert(chars@.take(i + 1).drop_last() == prev);
        if c == '\n' {
            let mut hi = cur.len();
            if hi > 0 && cur[hi - 1] == '\r' {
                hi = hi - 1;
                assert(cur@.subrange(0, hi as int) == cur@.drop_last());
            } else {
                assert(cur@.subrange(0, hi as int) == cur@);
            }
            let k = trimmed_len(&cur, hi);
            let line = string_of(&cur, 0, k);
            let ghost old_res = res.deep_view();
            res.push(line);
            cur = Vec::new();
            proof {
                let done = line_split(prev).0;
                assert(res.deep_view() =~= old_res.push(trim_end(strip_cr(line_split(prev).1))));
                assert(done.push(strip_cr(line_split(prev).1)).map_values(|l: Seq<char>| trim_end(l))
                    =~= done.map_values(|l: Seq<char>| trim_end(l)).push(trim_end(strip_cr(line_split(prev).1))));
            }
        } else {
            cur.push(c);
        }
        i = i + 1;
    }
    assert(chars@.take(i as int) == text@);
    if cur.len() > 0 {
        let k = trimmed_len(&cur, cur.len());
        assert(cur@.subrange(0, cur@.len() as int) == cur@);
        let line = string_of(&cur, 0, k);
        let ghost old_res = res.deep_view();
        res.push(line);
        proof {
            let done = line_split(text@).0;
            assert(res.deep_view() =~= old_res.push(trim_end(cur@)));
            assert(done.push(cur@).map_values(|l: Seq<char>| trim_end(l))
                =~= done.map_values(|l: Seq<char>| trim_end(l)).push(trim_end(cur@)));
        }
    }
    res
}


/// The separators of path components, `/` and `\`, as on Windows.
pub open spec fn is_separator(c: char) -> bool {
    c == '/' || c == '\\'
}

/// Whether a path segment names something: not empty and not `.`.
pub open spec fn keep_segment(seg: Seq<char>) -> bool {
    seg.len() > 0 && seg != seq!['.']
}

/// Reading a path from the start: the segments kept so far, and the
/// characters of the segment under way.
pub open spec fn segment_split(s: Seq<char>) -> (Seq<Seq<char>>, Seq<char>)
    decreases s.len(),
{
    if s.len() == 0 {
        (seq![], seq![])
    } else {
        let (done, cur) = segment_split(s.drop_last());
        if is_separator(s.last()) {
            (if keep_segment(cur) { done.push(cur) } else { done }, seq![])
        } else {
            (done, cur.push(s.last()))
        }
    }
}

/// The segments of a path between separators, without empty ones and `.`.
pub open spec fn kept_segments(s: Seq<char>) -> Seq<Seq<char>> {
    let (done, cur) = segment_split(s);
    if keep_segment(cur) {
        done.push(cur)
    } else {
        done
    }
}

/// Whether a path starts at the root.
pub open spec fn starts_at_root(s: Seq<char>) -> bool {
    s.len() > 0 && is_separator(s[0])
}

/// Whether a relative path starts with a `.` component.
pub open spec fn starts_at_cur_dir(s: Seq<char>) -> bool {
    &&& !starts_at_root(s)
    &&& s.len() > 0
    &&& s[0] == '.'
    &&& (s.len() == 1 || is_separator(s[1]))
}

/// The components of a path, as `Path::components` yields them, each written
/// as a token: `/` for the root, `.` for a leading current directory, and
/// the segment itself otherwise (`..` for a parent directory). No segment
/// holds a separator and none is `.`, so equal token sequences mean equal
/// components. Drive and UNC prefixes are not told apart: a file name holds
/// no `:` on Windows, so no prefix can equal one.
pub open spec fn path_tokens(s: Seq<char>) -> Seq<Seq<char>> {
    (if starts_at_root(s) { seq![seq!['/']] } else { seq![] })
        + (if starts_at_cur_dir(s) { seq![seq!['.']] } else { seq![] })
        + kept_segments(s)
}

/// Whether two paths are equal as paths: they have the same components.
pub open spec fn same_path(a: Seq<char>, b: Seq<char>) -> bool {
    path_tokens(a) == path_tokens(b)
}

/// Whether a file name is excluded by one of the entries.
pub open spec fn is_excluded(name: Seq<char>, entries: Seq<Seq<char>>) -> bool {
    exists|i: int| 0 <= i < entries.len() && same_path(#[trigger] entries[i], name)
}

/// The component tokens of a path.
pub fn path_tokens_of(p: &Vec<char>) -> (res: Vec<Vec<char>>)
    ensures
        res.deep_view() == path_tokens(p@),
{
    let mut res: Vec<Vec<char>> = Vec::new();
    let n = p.len();
    let root = n > 0 && (p[0] == '/' || p[0] == '\\');
    if root {
        let mut t: Vec<char> = Vec::new();
        t.push('/');
        assert(t.deep_view() =~= seq!['/']);
        res.push(t);
    }
    if !root && n > 0 && p[0] == '.' && (n == 1 || p[1] == '/' || p[1] == '\\') {
        let mut t: Vec<char> = Vec::new();
        t.push('.');
        assert(t.deep_view() =~= seq!['.']);
        let ghost old_res = res.deep_view();
        res.push(t);
        assert(res.deep_view() =~= old_res.push(seq!['.']));
    }
    let ghost head = res.deep_view();
    assert(head =~= (if starts_at_root(p@) { seq![seq!['/']] } else { seq![] })
        + (if starts_at_cur_dir(p@) { seq![seq!['.']] } else { seq![] }));
    let mut cur: Vec<char> = Vec::new();
    let mut i: usize = 0;
    while i < n
        invariant
            n == p@.len(),
            0 <= i <= n,
            res.deep_view() == head + segment_split(p@.take(i as int)).0,
            cur@ == segment_split(p@.take(i as int)).1,
        decreases n - i,
    {
        let c = p[i];
        assert(p@.take(i + 1).drop_last() == p@.take(i as int));
        if c == '/' || c == '\\' {
            let keep = cur.len() > 0 && !(cur.len() == 1 && cur[0] == '.');
            assert(keep == keep_segment(cur@)) by {
                if cur@.len() == 1 && cur@[0] == '.' {
                    assert(cur@ =~= seq!['.']);
                }
            }
            if keep {
                let ghost old_res = res.deep_view();
                assert(cur.deep_view() =~= cur@);
                res.push(cur);
                assert(res.deep_view() =~= old_res.push(segment_split(p@.take(i as int)).1));
            }
            cur = Vec::new();
        } else {
            cur.push(c);
        }
        i = i + 1;
    }
    assert(p@.take(n as int) == p@);
    let keep = cur.len() > 0 && !(cur.len() == 1 && cur[0] == '.');
    assert(keep == keep_segment(cur@)) by {
        if cur@.len() == 1 && cur@[0] == '.' {
            assert(cur@ =~= seq!['.']);
        }
    }
    if keep {
        let ghost old_res = res.deep_view();
        assert(cur.deep_view() =~= cur@);
        res.push(cur);
        assert(res.deep_view() =~= old_res.push(segment_split(p@).1));
    }
    res
}

/// Whether two token sequences are equal.
fn tokens_equal(a: &Vec<Vec<char>>, b: &Vec<Vec<char>>) -> (res: bool)
    ensures
        res == (a.deep_view() == b.deep_view()),
{
    if a.len() != b.len() {
        assert(a.deep_view().len() != b.deep_view().len());
        return false;
    }
    let mut i: usize = 0;
    while i < a.len()
        invariant
            a@.len() == b@.len(),
            0 <= i <= a@.len(),
            forall|j: int| 0 <= j < i ==> a.deep_view()[j] == b.deep_view()[j],
        decreases a@.len() - i,
    {
        assert(a.deep_view()[i as int] =~= a@[i as int]@);
        assert(b.deep_view()[i as int] =~= b@[i as int]@);
        if !chars_equal(&a[i], &b[i]) {
            assert(a.deep_view()[i as int] != b.deep_view()[i as int]);
            return false;
        }
        i = i + 1;
    }
    assert(a.deep_view() =~= b.deep_view());
    true
}

/// Whether the file `name` is excluded by one of `entries`, comparing as
/// paths compare.
pub fn is_excluded_by(name: &str, entries: &Vec<String>) -> (res: bool)
    ensures
        res == is_excluded(name@, entries.deep_view()),
{
    let name_tokens = path_tokens_of(&chars_of(name));
    let mut i: usize = 0;
    while i < entries.len()
        invariant
            0 <= i <= entries@.len(),
            name_tokens.deep_view() == path_tokens(name@),
            forall|j: int| 0 <= j < i ==> !same_path(#[trigger] entries.deep_view()[j], name@),
        decreases entries@.len() - i,
    {
        let entry_tokens = path_tokens_of(&chars_of(entries[i].as_str()));
        if tokens_equal(&entry_tokens, &name_tokens) {
            assert(same_path(entries.deep_view()[i as int], name@));
            return true;
        }
        i = i + 1;
    }
    false
}

} // verus!
