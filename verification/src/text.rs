//! Character-level text handling: whitespace trimming, line splitting, and
//! the `.gpg-id` file format (one recipient id per line).

use vstd::prelude::*;

verus! {

/// The views of a sequence of strings.
pub open spec fn views(v: Seq<String>) -> Seq<Seq<char>> {
    v.map_values(|s: String| s@)
}

/// Appends one character to a string.
///
/// Calls std's `String::push`, whose documentation promises that the
/// character is appended at the end.
#[verifier::external_body]
pub(crate) fn push_char(s: &mut String, c: char)
    ensures
        final(s)@ == old(s)@.push(c),
{
    s.push(c);
}

/// The characters of `s`, in order.
pub fn chars_of(s: &str) -> (v: Vec<char>)
    ensures
        v@ == s@,
{
    let mut v: Vec<char> = Vec::new();
    for c in it: s.chars()
        invariant
            v@ == s@.take(it.index() as int),
            it.seq() == s@,
    {
        v.push(c);
    }
    v
}

/// A new string holding `v[lo..hi]`.
pub fn string_of(v: &Vec<char>, lo: usize, hi: usize) -> (s: String)
    requires
        lo <= hi <= v.len(),
    ensures
        s@ == v@.subrange(lo as int, hi as int),
{
    let mut s = String::new();
    let mut k = lo;
    while k < hi
        invariant
            lo <= k <= hi <= v.len(),
            s@ == v@.subrange(lo as int, k as int),
        decreases hi - k,
    {
        push_char(&mut s, v[k]);
        assert(v@.subrange(lo as int, k + 1) =~= v@.subrange(lo as int, k as int).push(v@[k as int]));
        k += 1;
    }
    s
}

/// A new string holding the characters of `a` followed by those of `b`.
pub fn concat(a: &str, b: &str) -> (s: String)
    ensures
        s@ == a@ + b@,
{
    let mut s = a.to_owned();
    let cs = chars_of(b);
    let mut k: usize = 0;
    while k < cs.len()
        invariant
            k <= cs.len(),
            cs@ == b@,
            s@ == a@ + b@.take(k as int),
        decreases cs.len() - k,
    {
        push_char(&mut s, cs[k]);
        assert(b@.take(k + 1) =~= b@.take(k as int).push(b@[k as int]));
        k += 1;
    }
    assert(b@.take(cs.len() as int) =~= b@);
    s
}

/// Unicode `White_Space`: the characters that `str::trim` removes.
pub open spec fn space_char(c: char) -> bool {
    ||| ('\u{9}' <= c && c <= '\u{d}')
    ||| c == ' '
    ||| c == '\u{85}'
    ||| c == '\u{a0}'
    ||| c == '\u{1680}'
    ||| ('\u{2000}' <= c && c <= '\u{200a}')
    ||| c == '\u{2028}'
    ||| c == '\u{2029}'
    ||| c == '\u{202f}'
    ||| c == '\u{205f}'
    ||| c == '\u{3000}'
}

/// Whether `c` is Unicode white space.
pub fn is_space(c: char) -> (r: bool)
    ensures
        r == space_char(c),
{
    ('\u{9}' <= c && c <= '\u{d}') || c == ' ' || c == '\u{85}' || c == '\u{a0}' || c == '\u{1680}'
        || ('\u{2000}' <= c && c <= '\u{200a}') || c == '\u{2028}' || c == '\u{2029}' || c
        == '\u{202f}' || c == '\u{205f}' || c == '\u{3000}'
}

/// `s` without its leading white space.
pub open spec fn trim_start(s: Seq<char>) -> Seq<char>
    decreases s.len(),
{
    if s.len() > 0 && space_char(s[0]) {
        trim_start(s.drop_first())
    } else {
        s
    }
}

/// `s` without its trailing white space.
pub open spec fn trim_end(s: Seq<char>) -> Seq<char>
    decreases s.len(),
{
    if s.len() > 0 && space_char(s.last()) {
        trim_end(s.drop_last())
    } else {
        s
    }
}

/// `s` without leading and trailing white space (`str::trim`).
pub open spec fn trim(s: Seq<char>) -> Seq<char> {
    trim_end(trim_start(s))
}

/// The bounds of `trim(v[lo..hi])` within `v`.
pub fn trim_range(v: &Vec<char>, lo: usize, hi: usize) -> (r: (usize, usize))
    requires
        lo <= hi <= v.len(),
    ensures
        lo <= r.0 <= r.1 <= hi,
        v@.subrange(r.0 as int, r.1 as int) == trim(v@.subrange(lo as int, hi as int)),
{
    let mut a = lo;
    while a < hi && is_space(v[a])
        invariant
            lo <= a <= hi <= v.len(),
            trim_start(v@.subrange(lo as int, hi as int)) == trim_start(
                v@.subrange(a as int, hi as int),
            ),
        decreases hi - a,
    {
        assert(v@.subrange(a as int, hi as int).drop_first() =~= v@.subrange(a + 1, hi as int));
        a += 1;
    }
    let mut b = hi;
    while b > a && is_space(v[b - 1])
        invariant
            lo <= a <= b <= hi <= v.len(),
            trim_end(v@.subrange(a as int, hi as int)) == trim_end(
                v@.subrange(a as int, b as int),
            ),
        decreases b - a,
    {
        assert(v@.subrange(a as int, b as int).drop_last() =~= v@.subrange(a as int, b - 1));
        b -= 1;
    }
    (a, b)
}

/// The index of the first `'\n'` in `s`, or its length if there is none.
pub open spec fn line_end(s: Seq<char>) -> int
    decreases s.len(),
{
    if s.len() == 0 || s[0] == '\n' {
        0
    } else {
        1 + line_end(s.drop_first())
    }
}

pub proof fn lemma_line_end(s: Seq<char>)
    ensures
        0 <= line_end(s) <= s.len(),
        line_end(s) < s.len() ==> s[line_end(s)] == '\n',
        forall|k: int| 0 <= k < line_end(s) ==> s[k] != '\n',
    decreases s.len(),
{
    if s.len() > 0 && s[0] != '\n' {
        lemma_line_end(s.drop_first());
        assert forall|k: int| 0 <= k < line_end(s) implies s[k] != '\n' by {
            if k > 0 {
                assert(s[k] == s.drop_first()[k - 1]);
            }
        }
    }
}

/// `l` without one trailing carriage return.
pub open spec fn strip_cr(l: Seq<char>) -> Seq<char> {
    if l.len() > 0 && l.last() == '\r' {
        l.drop_last()
    } else {
        l
    }
}

/// The lines of `s`, as `str::lines` yields them: split at `'\n'`, a
/// `'\r'` right before a `'\n'` dropped, and no empty line after a final
/// `'\n'`.
pub open spec fn lines(s: Seq<char>) -> Seq<Seq<char>>
    decreases s.len(),
{
    if s.len() == 0 {
        seq![]
    } else {
        let e = line_end(s);
        proof {
            lemma_line_end(s);
        }
        if e < s.len() {
            seq![strip_cr(s.take(e))] + lines(s.skip(e + 1))
        } else {
            seq![s]
        }
    }
}

/// The first line of `s`, or nothing when `s` has no line.
pub open spec fn first_line_of(s: Seq<char>) -> Seq<char> {
    if lines(s).len() == 0 {
        seq![]
    } else {
        lines(s)[0]
    }
}

/// The given lines, each trimmed, with the empty ones left out.
pub open spec fn nonempty_trimmed(ls: Seq<Seq<char>>) -> Seq<Seq<char>>
    decreases ls.len(),
{
    if ls.len() == 0 {
        seq![]
    } else {
        let t = trim(ls[0]);
        let rest = nonempty_trimmed(ls.drop_first());
        if t.len() == 0 {
            rest
        } else {
            seq![t] + rest
        }
    }
}

/// The recipient ids that a `.gpg-id` file holding `contents` names.
pub open spec fn gpg_ids_in(contents: Seq<char>) -> Seq<Seq<char>> {
    nonempty_trimmed(lines(contents))
}

/// Scans `v[i..]` for the end of its first line.
fn scan_line(v: &Vec<char>, i: usize) -> (j: usize)
    requires
        i <= v.len(),
    ensures
        j == i + line_end(v@.skip(i as int)),
        j <= v.len(),
{
    let mut j = i;
    while j < v.len() && v[j] != '\n'
        invariant
            i <= j <= v.len(),
            line_end(v@.skip(i as int)) == (j - i) + line_end(v@.skip(j as int)),
        decreases v.len() - j,
    {
        assert(v@.skip(j as int).drop_first() =~= v@.skip(j + 1));
        j += 1;
    }
    j
}

/// Parses a `.gpg-id` file's contents into its non-empty, trimmed lines.
pub fn parse_gpg_ids(contents: &str) -> (ids: Vec<String>)
    ensures
        views(ids@) == gpg_ids_in(contents@),
{
    let v = chars_of(contents);
    let n = v.len();
    let mut ids: Vec<String> = Vec::new();
    let mut i: usize = 0;
    assert(v@.skip(0) =~= v@);
    assert(views(ids@) =~= Seq::<Seq<char>>::empty());
    assert(Seq::<Seq<char>>::empty() + gpg_ids_in(v@) =~= gpg_ids_in(v@));
    while i < n
        invariant
            i <= n == v.len(),
            v@ == contents@,
            views(ids@) + gpg_ids_in(v@.skip(i as int)) == gpg_ids_in(v@),
        decreases n - i,
    {
        let ghost rest = v@.skip(i as int);
        let j = scan_line(&v, i);
        proof {
            lemma_line_end(rest);
        }
        let mut hi = j;
        if j < n && hi > i && v[hi - 1] == '\r' {
            hi = hi - 1;
        }
        let (a, b) = trim_range(&v, i, hi);
        let ghost line = if j < n {
            strip_cr(rest.take(j - i))
        } else {
            rest
        };
        assert(v@.subrange(i as int, hi as int) =~= line) by {
            if j < n {
                assert(rest.take(j - i) =~= v@.subrange(i as int, j as int));
            } else {
                assert(rest =~= v@.subrange(i as int, n as int));
            }
        }
        let ghost next = if j < n {
            v@.skip(j + 1)
        } else {
            v@.skip(n as int)
        };
        assert(lines(rest) == seq![line] + lines(next)) by {
            if j < n {
                assert(rest.skip(j - i + 1) =~= v@.skip(j + 1));
            } else {
                assert(v@.skip(n as int) =~= Seq::<char>::empty());
            }
        }
        assert((seq![line] + lines(next)).drop_first() =~= lines(next));
        let old_ids = Ghost(ids@);
        if a < b {
            let s = string_of(&v, a, b);
            ids.push(s);
            assert(views(ids@) =~= views(old_ids@) + seq![s@]);
        }
        i = if j < n {
            j + 1
        } else {
            n
        };
    }
    assert(v@.skip(n as int) =~= Seq::<char>::empty());
    ids
}

/// The first line of `contents`, as `contents.lines().next()` gives it,
/// or an empty string when there is none.
pub fn first_line(contents: &str) -> (line: String)
    ensures
        line@ == first_line_of(contents@),
{
    let v = chars_of(contents);
    if v.len() == 0 {
        return String::new();
    }
    let j = scan_line(&v, 0);
    proof {
        lemma_line_end(v@);
        assert(v@.skip(0) =~= v@);
    }
    let mut hi = j;
    if j < v.len() && hi > 0 && v[hi - 1] == '\r' {
        hi = hi - 1;
    }
    proof {
        if j < v.len() {
            assert(v@.take(j as int) =~= v@.subrange(0, j as int));
        } else {
            assert(v@ =~= v@.subrange(0, j as int));
        }
    }
    string_of(&v, 0, hi)
}

} // verus!
