//! Paths as text: components, joining, entry names that would escape the
//! store, and the directories between an entry and the store root.

use vstd::prelude::*;

use crate::text::{chars_of, concat, push_char, string_of};

verus! {

/// The views of a sequence of character vectors.
pub open spec fn char_views(v: Seq<Vec<char>>) -> Seq<Seq<char>> {
    v.map_values(|x: Vec<char>| x@)
}

/// The index of the first `'/'` in `s`, or its length if there is none.
pub open spec fn sep_end(s: Seq<char>) -> int
    decreases s.len(),
{
    if s.len() == 0 || s[0] == '/' {
        0
    } else {
        1 + sep_end(s.drop_first())
    }
}

pub proof fn lemma_sep_end(s: Seq<char>)
    ensures
        0 <= sep_end(s) <= s.len(),
        sep_end(s) < s.len() ==> s[sep_end(s)] == '/',
        forall|k: int| 0 <= k < sep_end(s) ==> s[k] != '/',
    decreases s.len(),
{
    if s.len() > 0 && s[0] != '/' {
        lemma_sep_end(s.drop_first());
        assert forall|k: int| 0 <= k < sep_end(s) implies s[k] != '/' by {
            if k > 0 {
                assert(s[k] == s.drop_first()[k - 1]);
            }
        }
    }
}

/// The pieces of `s` between separators (`"a//b"` gives `"a"`, `""`, `"b"`).
pub open spec fn segments(s: Seq<char>) -> Seq<Seq<char>>
    decreases s.len(),
{
    let e = sep_end(s);
    proof {
        lemma_sep_end(s);
    }
    if e < s.len() {
        seq![s.take(e)] + segments(s.skip(e + 1))
    } else {
        seq![s]
    }
}

/// The segments that name something: neither empty nor `"."`.
pub open spec fn normal_parts(segs: Seq<Seq<char>>) -> Seq<Seq<char>>
    decreases segs.len(),
{
    if segs.len() == 0 {
        seq![]
    } else {
        let rest = normal_parts(segs.drop_first());
        if segs[0].len() == 0 || segs[0] == seq!['.'] {
            rest
        } else {
            seq![segs[0]] + rest
        }
    }
}

/// The components of a path, as `Path::components` yields them on Unix: a
/// root `"/"` first when the path starts with a separator, a `"."` first
/// when it starts with `"."` alone or `"./"`, then every segment that is
/// neither empty nor `"."`.
pub open spec fn components(s: Seq<char>) -> Seq<Seq<char>> {
    if s.len() > 0 && s[0] == '/' {
        seq![seq!['/']] + normal_parts(segments(s))
    } else if segments(s)[0] == seq!['.'] {
        seq![seq!['.']] + normal_parts(segments(s))
    } else {
        normal_parts(segments(s))
    }
}

/// Scans `v[i..]` for the end of its first segment.
fn scan_segment(v: &Vec<char>, i: usize) -> (j: usize)
    requires
        i <= v.len(),
    ensures
        j == i + sep_end(v@.skip(i as int)),
        j <= v.len(),
{
    let mut j = i;
    while j < v.len() && v[j] != '/'
        invariant
            i <= j <= v.len(),
            sep_end(v@.skip(i as int)) == (j - i) + sep_end(v@.skip(j as int)),
        decreases v.len() - j,
    {
        assert(v@.skip(j as int).drop_first() =~= v@.skip(j + 1));
        j += 1;
    }
    j
}

/// Copies `v[lo..hi]`.
fn slice_vec(v: &Vec<char>, lo: usize, hi: usize) -> (r: Vec<char>)
    requires
        lo <= hi <= v.len(),
    ensures
        r@ == v@.subrange(lo as int, hi as int),
{
    let mut r: Vec<char> = Vec::new();
    let mut k = lo;
    while k < hi
        invariant
            lo <= k <= hi <= v.len(),
            r@ == v@.subrange(lo as int, k as int),
        decreases hi - k,
    {
        r.push(v[k]);
        assert(v@.subrange(lo as int, k + 1) =~= v@.subrange(lo as int, k as int).push(v@[k as int]));
        k += 1;
    }
    r
}

/// The normal parts of the segments of `v`.
fn normal_parts_of(v: &Vec<char>) -> (parts: Vec<Vec<char>>)
    ensures
        char_views(parts@) == normal_parts(segments(v@)),
{
    let n = v.len();
    let mut parts: Vec<Vec<char>> = Vec::new();
    let mut i: usize = 0;
    let mut finished = false;
    assert(v@.skip(0) =~= v@);
    assert(char_views(parts@) + normal_parts(segments(v@)) =~= normal_parts(segments(v@)));
    while !finished
        invariant
            i <= n == v.len(),
            finished ==> char_views(parts@) == normal_parts(segments(v@)),
            !finished ==> char_views(parts@) + normal_parts(segments(v@.skip(i as int)))
                == normal_parts(segments(v@)),
        decreases n - i + (if finished { 0int } else { 1int }),
    {
        let ghost rest = v@.skip(i as int);
        let j = scan_segment(v, i);
        proof {
            lemma_sep_end(rest);
        }
        let seg = slice_vec(v, i, j);
        assert(seg@ =~= rest.take(j - i));
        let ghost before = parts@;
        let keep = !(seg.len() == 0 || (seg.len() == 1 && seg[0] == '.'));
        assert(keep == !(seg@.len() == 0 || seg@ == seq!['.'])) by {
            if seg@.len() == 1 && seg@[0] == '.' {
                assert(seg@ =~= seq!['.']);
            }
        }
        if keep {
            parts.push(seg);
            assert(char_views(parts@) =~= char_views(before).push(seg@));
        }
        if j < n {
            assert(rest.skip(j - i + 1) =~= v@.skip(j + 1));
            assert(segments(rest) == seq![seg@] + segments(v@.skip(j + 1)));
            assert((seq![seg@] + segments(v@.skip(j + 1))).drop_first() =~= segments(
                v@.skip(j + 1),
            ));
            i = j + 1;
        } else {
            assert(segments(rest) == seq![seg@]);
            assert(seq![seg@].drop_first() =~= Seq::<Seq<char>>::empty());
            assert(normal_parts(Seq::<Seq<char>>::empty()) == Seq::<Seq<char>>::empty());
            assert(char_views(parts@) =~= char_views(before) + normal_parts(segments(rest)));
            finished = true;
        }
    }
    parts
}

proof fn lemma_first_segment(s: Seq<char>)
    ensures
        segments(s).len() > 0,
        segments(s)[0] == s.take(sep_end(s)),
{
    lemma_sep_end(s);
    if sep_end(s) == s.len() {
        assert(s.take(sep_end(s)) =~= s);
    }
}

/// A vector holding one head component (`"/"` or `"."`) and then `parts`.
fn with_head(head: char, parts: Vec<Vec<char>>) -> (comps: Vec<Vec<char>>)
    ensures
        char_views(comps@) == seq![seq![head]] + char_views(parts@),
{
    let mut h: Vec<char> = Vec::new();
    h.push(head);
    let mut comps: Vec<Vec<char>> = Vec::new();
    comps.push(h);
    let mut rest = parts;
    let ghost before = comps@;
    let ghost moved = rest@;
    comps.append(&mut rest);
    assert(comps@ == before + moved);
    assert(char_views(comps@) =~= seq![seq![head]] + char_views(parts@));
    comps
}

/// The components of the path `v`.
pub fn components_of(v: &Vec<char>) -> (comps: Vec<Vec<char>>)
    ensures
        char_views(comps@) == components(v@),
{
    let parts = normal_parts_of(v);
    proof {
        lemma_first_segment(v@);
        lemma_sep_end(v@);
    }
    if v.len() > 0 && v[0] == '/' {
        return with_head('/', parts);
    }
    let j = scan_segment(v, 0);
    assert(v@.skip(0) =~= v@);
    let dot_start = j == 1 && v[0] == '.';
    assert(dot_start == (segments(v@)[0] == seq!['.'])) by {
        if segments(v@)[0] == seq!['.'] {
            assert(v@.take(sep_end(v@)).len() == 1);
        }
        if dot_start {
            assert(v@.take(1) =~= seq!['.']);
        }
    }
    if dot_start {
        return with_head('.', parts);
    }
    parts
}

/// A component that would lead out of the store: the root, `"."`, `".."`,
/// or a dot-file name.
pub open spec fn sneaky_component(c: Seq<char>) -> bool {
    c.len() > 0 && (c[0] == '.' || c[0] == '/')
}

/// Whether an entry name would escape the store textually: it is empty, or
/// one of its components is the root, `"."`, `".."` or starts with a dot.
pub open spec fn sneaky_name(name: Seq<char>) -> bool {
    ||| name.len() == 0
    ||| exists|i: int|
        0 <= i < components(name).len() && sneaky_component(#[trigger] components(name)[i])
}

/// Whether `name` would escape the store textually (see [`sneaky_name`]).
pub fn is_sneaky(name: &str) -> (r: bool)
    ensures
        r == sneaky_name(name@),
{
    let v = chars_of(name);
    if v.len() == 0 {
        return true;
    }
    let comps = components_of(&v);
    let mut k: usize = 0;
    while k < comps.len()
        invariant
            k <= comps.len(),
            v@ == name@,
            char_views(comps@) == components(name@),
            forall|i: int| 0 <= i < k ==> !sneaky_component(#[trigger] components(name@)[i]),
        decreases comps.len() - k,
    {
        assert(components(name@)[k as int] == comps@[k as int]@);
        if comps[k].len() > 0 && (comps[k][0] == '.' || comps[k][0] == '/') {
            return true;
        }
        k += 1;
    }
    false
}

proof fn lemma_segments_no_dot_start(s: Seq<char>)
    requires
        forall|i: int| 0 <= i < s.len() && (i == 0 || s[i - 1] == '/') ==> #[trigger] s[i] != '.',
    ensures
        forall|j: int|
            0 <= j < segments(s).len() && (#[trigger] segments(s)[j]).len() > 0
                ==> segments(s)[j][0] != '.',
    decreases s.len(),
{
    lemma_sep_end(s);
    let e = sep_end(s);
    if e < s.len() {
        let r = s.skip(e + 1);
        assert forall|i: int| 0 <= i < r.len() && (i == 0 || r[i - 1] == '/') implies #[trigger] r[i]
            != '.' by {
            assert(r[i] == s[e + 1 + i]);
            if i > 0 {
                assert(r[i - 1] == s[e + i]);
            }
        }
        lemma_segments_no_dot_start(r);
        assert forall|j: int|
            0 <= j < segments(s).len() && (#[trigger] segments(s)[j]).len() > 0 implies segments(
            s,
        )[j][0] != '.' by {
            if j == 0 {
                assert(segments(s)[0] == s.take(e));
                assert(s.take(e)[0] == s[0]);
            } else {
                assert(segments(s)[j] == segments(r)[j - 1]);
            }
        }
    } else {
        assert(segments(s) == seq![s]);
    }
}

/// A name that is not empty, does not start with `/`, and has no piece
/// (the text at its start or right after a `/`) starting with a dot is not
/// sneaky, whatever other characters it holds (`@`, spaces, non-ASCII):
/// [`entry_path`](crate::store::PasswordStore::entry_path) accepts it.
pub proof fn lemma_plain_names_are_not_sneaky(name: Seq<char>)
    requires
        name.len() > 0,
        name[0] != '/',
        forall|i: int|
            0 <= i < name.len() && (i == 0 || name[i - 1] == '/') ==> #[trigger] name[i] != '.',
    ensures
        !sneaky_name(name),
{
    lemma_first_segment(name);
    lemma_sep_end(name);
    lemma_segments_no_dot_start(name);
    lemma_segments_no_sep(name);
    let segs = segments(name);
    lemma_normal_parts_elements(segs);
    assert(sep_end(name) > 0);
    assert(segs[0][0] == name[0]);
    assert(segs[0] != seq!['.']);
    assert(components(name) == normal_parts(segs));
    assert forall|i: int| 0 <= i < components(name).len() implies !sneaky_component(
        #[trigger] components(name)[i],
    ) by {
        let c = normal_parts(segs)[i];
        let j = choose|j: int| 0 <= j < segs.len() && segs[j] == c;
        assert(segs[j].len() > 0);
        assert(!segs[j].contains('/'));
        assert(c[0] != '/');
    }
}

/// Names that lead out of the store are sneaky: the empty name, an
/// absolute one, one starting with a dot (`.`, `..`, `./x`, `.hidden`), and
/// one with a piece after a `/` that starts with a dot and is more than
/// `.` alone (`..`, `.gpg-id`).
pub proof fn lemma_escaping_names_are_sneaky(name: Seq<char>, i: int)
    requires
        0 <= i <= name.len(),
        i == name.len() ==> name.len() == 0,
        i < name.len() ==> {
            ||| i == 0 && (name[0] == '/' || name[0] == '.')
            ||| i > 0 && name[i - 1] == '/' && name[i] == '.' && i + 1 < name.len() && name[i + 1]
                != '/'
        },
    ensures
        sneaky_name(name),
{
    if name.len() == 0 {
    } else if name[0] == '/' {
        assert(components(name)[0] == seq!['/']);
        assert(sneaky_component(components(name)[0]));
    } else if i == 0 {
        lemma_first_segment(name);
        lemma_sep_end(name);
        let segs = segments(name);
        if segs[0] == seq!['.'] {
            assert(components(name)[0] == seq!['.']);
            assert(sneaky_component(components(name)[0]));
        } else {
            assert(segs[0][0] == name[0]);
            assert(segs == seq![segs[0]] + segs.drop_first());
            assert(normal_parts(segs) == seq![segs[0]] + normal_parts(segs.drop_first()));
            assert(components(name)[0] == segs[0]);
            assert(sneaky_component(components(name)[0]));
        }
    } else {
        let a = name.take(i - 1);
        let b = name.skip(i);
        assert(name =~= a + seq!['/'] + b);
        lemma_segments_sep(a, b);
        lemma_normal_parts_concat(segments(a), segments(b));
        lemma_first_segment(b);
        lemma_sep_end(b);
        assert(b[0] == '.' && b[1] != '/');
        assert(sep_end(b) >= 2);
        let seg = segments(b)[0];
        assert(seg[0] == '.' && seg.len() >= 2);
        assert(seg != seq!['.']);
        let sb = segments(b);
        assert(sb == seq![seg] + sb.drop_first());
        assert(normal_parts(sb) == seq![seg] + normal_parts(sb.drop_first()));
        let np = normal_parts(segments(name));
        assert(np == normal_parts(segments(a)) + normal_parts(sb));
        let k = normal_parts(segments(a)).len() as int;
        assert(np[k] == seg);
        let comps = components(name);
        if name[0] == '/' {
        } else if segments(name)[0] == seq!['.'] {
            assert(comps == seq![seq!['.']] + np);
            assert(comps[k + 1] == seg);
            assert(sneaky_component(comps[k + 1]));
        } else {
            assert(comps == np);
            assert(sneaky_component(comps[k]));
        }
    }
}

/// `base` extended by the relative path `rel`, as `PathBuf::push` does: a
/// separator is put between them unless `base` is empty or ends in one.
pub open spec fn join(base: Seq<char>, rel: Seq<char>) -> Seq<char> {
    if base.len() == 0 || base.last() == '/' {
        base + rel
    } else {
        base + seq!['/'] + rel
    }
}

/// `base` extended by the relative path `rel`.
pub fn join_path(base: &str, rel: &str) -> (p: String)
    ensures
        p@ == join(base@, rel@),
{
    let v = chars_of(base);
    if v.len() == 0 || v[v.len() - 1] == '/' {
        concat(base, rel)
    } else {
        let mut p = base.to_owned();
        push_char(&mut p, '/');
        let q = concat(p.as_str(), rel);
        q
    }
}

/// The index of the last `'/'` in `s`, or -1 if there is none.
pub open spec fn last_sep(s: Seq<char>) -> int
    decreases s.len(),
{
    if s.len() == 0 {
        -1
    } else if s.last() == '/' {
        s.len() - 1
    } else {
        last_sep(s.drop_last())
    }
}

pub proof fn lemma_last_sep(s: Seq<char>)
    ensures
        -1 <= last_sep(s) < s.len(),
        last_sep(s) >= 0 ==> s[last_sep(s)] == '/',
        forall|k: int| last_sep(s) < k < s.len() ==> s[k] != '/',
    decreases s.len(),
{
    if s.len() > 0 && s.last() != '/' {
        lemma_last_sep(s.drop_last());
        assert forall|k: int| last_sep(s) < k < s.len() implies s[k] != '/' by {
            if k < s.len() - 1 {
                assert(s[k] == s.drop_last()[k]);
            }
        }
    }
}

/// Finds the last `'/'` of `v`.
fn find_last_sep(v: &Vec<char>) -> (k: Option<usize>)
    ensures
        match k {
            Some(k) => last_sep(v@) == k,
            None => last_sep(v@) == -1,
        },
{
    let mut n = v.len();
    assert(v@.take(n as int) =~= v@);
    while n > 0 && v[n - 1] != '/'
        invariant
            n <= v.len(),
            last_sep(v@) == last_sep(v@.take(n as int)),
        decreases n,
    {
        assert(v@.take(n as int).drop_last() =~= v@.take(n - 1));
        n -= 1;
    }
    if n == 0 {
        assert(v@.take(0) =~= Seq::<char>::empty());
        None
    } else {
        Some(n - 1)
    }
}

/// The length of the part of a path before its first component that can be
/// removed: a root separator, or a leading `"."` on its own or before `'/'`.
pub open spec fn head_len(p: Seq<char>) -> int {
    if p.len() > 0 && p[0] == '/' {
        1
    } else if p.len() > 0 && p[0] == '.' && (p.len() == 1 || p[1] == '/') {
        1
    } else {
        0
    }
}

/// `q` without trailing separators and `"."` components, never cutting into
/// its first `h` characters.
pub open spec fn trim_tail(q: Seq<char>, h: int) -> Seq<char>
    decreases q.len(),
{
    if q.len() == 0 || q.len() <= h {
        q
    } else if q.last() == '/' || (q.last() == '.' && (q.len() - 1 == h || q[q.len() - 2] == '/')) {
        trim_tail(q.drop_last(), h)
    } else {
        q
    }
}

/// The text of `Path::parent` of a path whose last component is a file
/// name: everything before that name, without trailing separators and
/// `"."` components.
pub open spec fn parent_text(p: Seq<char>) -> Seq<char> {
    let k = last_sep(p);
    if k >= head_len(p) {
        trim_tail(p.take(k + 1), head_len(p))
    } else {
        p.take(head_len(p))
    }
}

/// The directory of the path `p` (see [`parent_text`]).
pub fn parent_of(p: &str) -> (d: String)
    ensures
        d@ == parent_text(p@),
{
    let v = chars_of(p);
    let h: usize = if v.len() > 0 && v[0] == '/' {
        1
    } else if v.len() > 0 && v[0] == '.' && (v.len() == 1 || v[1] == '/') {
        1
    } else {
        0
    };
    assert(h == head_len(p@));
    proof {
        lemma_last_sep(v@);
    }
    match find_last_sep(&v) {
        Some(k) if k >= h => {
            let mut n = k + 1;
            while n > h && (v[n - 1] == '/' || (v[n - 1] == '.' && (n - 1 == h || v[n - 2] == '/')))
                invariant
                    h <= n <= k + 1 <= v.len(),
                    v@ == p@,
                    trim_tail(v@.take(k + 1), h as int) == trim_tail(v@.take(n as int), h as int),
                decreases n,
            {
                assert(v@.take(n as int).drop_last() =~= v@.take(n - 1));
                n -= 1;
            }
            assert(v@.take(n as int) =~= v@.subrange(0, n as int));
            string_of(&v, 0, n)
        },
        _ => {
            assert(v@.take(h as int) =~= v@.subrange(0, h as int));
            string_of(&v, 0, h)
        },
    }
}

/// The components of a path joined by single separators.
pub open spec fn joined_path(parts: Seq<Seq<char>>) -> Seq<char>
    decreases parts.len(),
{
    if parts.len() == 0 {
        seq![]
    } else if parts.len() == 1 {
        parts[0]
    } else {
        joined_path(parts.drop_last()) + seq!['/'] + parts.last()
    }
}

/// The text of `parts[..k]` joined by separators.
fn joined_prefix(parts: &Vec<Vec<char>>, k: usize) -> (s: String)
    requires
        k <= parts.len(),
    ensures
        s@ == joined_path(char_views(parts@).take(k as int)),
{
    let mut s = String::new();
    let mut i: usize = 0;
    assert(char_views(parts@).take(0) =~= Seq::<Seq<char>>::empty());
    while i < k
        invariant
            i <= k <= parts.len(),
            s@ == joined_path(char_views(parts@).take(i as int)),
        decreases k - i,
    {
        let ghost before = s@;
        if i > 0 {
            push_char(&mut s, '/');
        }
        let part = &parts[i];
        let mut m: usize = 0;
        let ghost mid = s@;
        while m < part.len()
            invariant
                m <= part.len(),
                s@ == mid + part@.take(m as int),
            decreases part.len() - m,
        {
            push_char(&mut s, part[m]);
            assert(part@.take(m + 1) =~= part@.take(m as int).push(part@[m as int]));
            m += 1;
        }
        assert(part@.take(m as int) =~= part@);
        let ghost t = char_views(parts@).take(i + 1);
        assert(t.drop_last() =~= char_views(parts@).take(i as int));
        assert(t.last() == parts@[i as int]@);
        if i == 0 {
            assert(s@ =~= joined_path(t));
        } else {
            assert(s@ =~= joined_path(t));
        }
        i += 1;
    }
    s
}

/// The directory components of an entry name: the components of what
/// precedes its last separator.
pub open spec fn name_dirs(name: Seq<char>) -> Seq<Seq<char>> {
    if last_sep(name) < 0 {
        seq![]
    } else {
        components(name.take(last_sep(name)))
    }
}

/// The directory that holds `parts[..k]` below the store root.
pub open spec fn dir_at(store: Seq<char>, parts: Seq<Seq<char>>, k: int) -> Seq<char> {
    if k == 0 {
        store
    } else {
        join(store, joined_path(parts.take(k)))
    }
}

/// The directories from the one that holds entry `name` up to the store
/// root, nearest first; the last one is the store root itself.
pub open spec fn dirs_up_to_root(store: Seq<char>, name: Seq<char>) -> Seq<Seq<char>> {
    let parts = name_dirs(name);
    Seq::new(parts.len() + 1, |i: int| dir_at(store, parts, parts.len() - i))
}

/// The components of the directory part of `name`.
fn name_dir_parts(name: &Vec<char>) -> (parts: Vec<Vec<char>>)
    ensures
        char_views(parts@) == name_dirs(name@),
{
    proof {
        lemma_last_sep(name@);
    }
    match find_last_sep(name) {
        Some(k) => {
            let d = slice_vec(name, 0, k);
            assert(d@ =~= name@.take(k as int));
            components_of(&d)
        },
        None => Vec::new(),
    }
}

/// The directories from the one that holds entry `name` up to the store
/// root, nearest first.
pub fn dirs_to_root(store: &str, name: &str) -> (dirs: Vec<String>)
    ensures
        crate::text::views(dirs@) == dirs_up_to_root(store@, name@),
{
    let nv = chars_of(name);
    let parts = name_dir_parts(&nv);
    let m = parts.len();
    let mut dirs: Vec<String> = Vec::new();
    let mut i: usize = 0;
    while i < m
        invariant
            i <= m,
            m == parts.len(),
            char_views(parts@) == name_dirs(name@),
            crate::text::views(dirs@) == dirs_up_to_root(store@, name@).take(i as int),
        decreases m - i,
    {
        let k = m - i;
        let rel = joined_prefix(&parts, k);
        let d = join_path(store, rel.as_str());
        assert(d@ == dir_at(store@, name_dirs(name@), k as int));
        assert(dirs_up_to_root(store@, name@)[i as int] == d@);
        let ghost before = dirs@;
        dirs.push(d);
        assert(crate::text::views(dirs@) =~= crate::text::views(before).push(d@));
        assert(dirs_up_to_root(store@, name@).take(i + 1) =~= dirs_up_to_root(store@, name@).take(
            i as int,
        ).push(d@));
        i += 1;
    }
    let d = store.to_owned();
    assert(dirs_up_to_root(store@, name@)[m as int] == d@);
    let ghost before = dirs@;
    dirs.push(d);
    assert(crate::text::views(dirs@) =~= crate::text::views(before).push(d@));
    assert(dirs_up_to_root(store@, name@).take(m as int).push(d@) =~= dirs_up_to_root(store@, name@));
    assert(crate::text::views(dirs@) =~= dirs_up_to_root(store@, name@));
    dirs
}

/// Whether `base`'s components are the first components of `p`
/// (`Path::starts_with`).
pub open spec fn path_starts_with(p: Seq<char>, base: Seq<char>) -> bool {
    components(base).is_prefix_of(components(p))
}

/// Whether the path `p` lies at or below `base`, component by component.
pub fn starts_with_path(p: &str, base: &str) -> (r: bool)
    ensures
        r == path_starts_with(p@, base@),
{
    let pv = chars_of(p);
    let bv = chars_of(base);
    let pc = components_of(&pv);
    let bc = components_of(&bv);
    if bc.len() > pc.len() {
        return false;
    }
    let mut k: usize = 0;
    while k < bc.len()
        invariant
            k <= bc.len() <= pc.len(),
            char_views(pc@) == components(p@),
            char_views(bc@) == components(base@),
            forall|i: int| 0 <= i < k ==> components(base@)[i] == components(p@)[i],
        decreases bc.len() - k,
    {
        assert(components(base@)[k as int] == bc@[k as int]@);
        assert(components(p@)[k as int] == pc@[k as int]@);
        if !same_chars(&bc[k], &pc[k]) {
            return false;
        }
        k += 1;
    }
    true
}

/// Whether two character vectors are equal.
fn same_chars(a: &Vec<char>, b: &Vec<char>) -> (r: bool)
    ensures
        r == (a@ == b@),
{
    if a.len() != b.len() {
        return false;
    }
    let mut k: usize = 0;
    while k < a.len()
        invariant
            k <= a.len() == b.len(),
            forall|i: int| 0 <= i < k ==> a@[i] == b@[i],
        decreases a.len() - k,
    {
        if a[k] != b[k] {
            return false;
        }
        k += 1;
    }
    assert(a@ =~= b@);
    true
}

/// Whether two paths have the same components (`Path`'s `==`).
pub fn same_path(p: &str, q: &str) -> (r: bool)
    ensures
        r == (components(p@) == components(q@)),
{
    let pc = components_of(&chars_of(p));
    let qc = components_of(&chars_of(q));
    if pc.len() != qc.len() {
        assert(components(p@).len() != components(q@).len());
        return false;
    }
    let mut k: usize = 0;
    while k < pc.len()
        invariant
            k <= pc.len() == qc.len(),
            char_views(pc@) == components(p@),
            char_views(qc@) == components(q@),
            forall|i: int| 0 <= i < k ==> components(p@)[i] == components(q@)[i],
        decreases pc.len() - k,
    {
        assert(components(p@)[k as int] == pc@[k as int]@);
        assert(components(q@)[k as int] == qc@[k as int]@);
        if !same_chars(&pc[k], &qc[k]) {
            return false;
        }
        k += 1;
    }
    assert(components(p@) =~= components(q@));
    true
}

/// A component that names a file or directory below its parent: not
/// empty, not `"."` or `".."`, without a separator.
pub open spec fn normal_name(c: Seq<char>) -> bool {
    &&& c.len() > 0
    &&& c != seq!['.']
    &&& c != seq!['.', '.']
    &&& !c.contains('/')
}

proof fn lemma_sep_end_concat(x: Seq<char>, y: Seq<char>)
    ensures
        sep_end(x) < x.len() ==> sep_end(x + y) == sep_end(x),
        sep_end(x) == x.len() ==> sep_end(x + y) == x.len() + sep_end(y),
    decreases x.len(),
{
    lemma_sep_end(x);
    if x.len() == 0 {
        assert(x + y =~= y);
    } else if x[0] != '/' {
        assert((x + y).drop_first() =~= x.drop_first() + y);
        lemma_sep_end_concat(x.drop_first(), y);
    }
}

/// Segments of `a`, a separator, then `b`: those of `a`, then those of `b`.
proof fn lemma_segments_sep(a: Seq<char>, b: Seq<char>)
    ensures
        segments(a + seq!['/'] + b) == segments(a) + segments(b),
    decreases a.len(),
{
    let s = a + seq!['/'] + b;
    lemma_sep_end(a);
    lemma_sep_end(s);
    lemma_sep_end_concat(a, seq!['/'] + b);
    assert(s =~= a + (seq!['/'] + b));
    let e = sep_end(a);
    if e == a.len() {
        assert(sep_end(seq!['/'] + b) == 0);
        assert(s.take(e) =~= a);
        assert(s.skip(e + 1) =~= b);
        assert(segments(a) == seq![a]) by {
            assert(a.take(e) =~= a);
        }
    } else {
        assert(s.take(e) =~= a.take(e));
        assert(s.skip(e + 1) =~= a.skip(e + 1) + seq!['/'] + b);
        lemma_segments_sep(a.skip(e + 1), b);
        assert(segments(a) == seq![a.take(e)] + segments(a.skip(e + 1)));
        assert(segments(s) =~= segments(a) + segments(b));
    }
}

/// Segments of `a` followed by text without a separator: the last segment
/// of `a` is extended.
proof fn lemma_segments_extend(a: Seq<char>, x: Seq<char>)
    requires
        !x.contains('/'),
    ensures
        segments(a + x) == segments(a).drop_last().push(segments(a).last() + x),
        segments(a).len() > 0,
    decreases a.len(),
{
    lemma_sep_end(a);
    lemma_sep_end_concat(a, x);
    lemma_first_segment(a);
    let e = sep_end(a);
    if e == a.len() {
        assert(sep_end(x) == x.len()) by {
            lemma_sep_end(x);
            if sep_end(x) < x.len() {
                assert(x.contains('/'));
            }
        }
        lemma_sep_end(a + x);
        assert((a + x).take((a + x).len() as int) =~= a + x);
        assert(segments(a) == seq![a]) by {
            assert(a.take(e) =~= a);
        }
        assert(segments(a + x) == seq![a + x]);
        assert(segments(a).drop_last().push(segments(a).last() + x) =~= seq![a + x]);
    } else {
        let s = a + x;
        lemma_sep_end(s);
        assert(s.take(e) =~= a.take(e));
        assert(s.skip(e + 1) =~= a.skip(e + 1) + x);
        lemma_segments_extend(a.skip(e + 1), x);
        let rest = segments(a.skip(e + 1));
        assert(segments(a) == seq![a.take(e)] + rest);
        assert(segments(s) == seq![a.take(e)] + segments(a.skip(e + 1) + x));
        assert(segments(s) =~= segments(a).drop_last().push(segments(a).last() + x));
    }
}

proof fn lemma_normal_parts_concat(a: Seq<Seq<char>>, b: Seq<Seq<char>>)
    ensures
        normal_parts(a + b) == normal_parts(a) + normal_parts(b),
    decreases a.len(),
{
    if a.len() == 0 {
        assert(a + b =~= b);
    } else {
        assert((a + b).drop_first() =~= a.drop_first() + b);
        lemma_normal_parts_concat(a.drop_first(), b);
        assert((a + b)[0] == a[0]);
        if !(a[0].len() == 0 || a[0] == seq!['.']) {
            assert(normal_parts(a + b) =~= normal_parts(a) + normal_parts(b));
        }
    }
}

proof fn lemma_segments_no_sep(s: Seq<char>)
    ensures
        forall|i: int| 0 <= i < segments(s).len() ==> !(#[trigger] segments(s)[i]).contains('/'),
    decreases s.len(),
{
    lemma_sep_end(s);
    let e = sep_end(s);
    if e < s.len() {
        lemma_segments_no_sep(s.skip(e + 1));
        assert forall|i: int| 0 <= i < segments(s).len() implies !(
        #[trigger] segments(s)[i]).contains('/') by {
            if i == 0 {
                if s.take(e).contains('/') {
                    let k = choose|k: int| 0 <= k < s.take(e).len() && s.take(e)[k] == '/';
                    assert(s[k] == '/');
                }
            } else {
                assert(segments(s)[i] == segments(s.skip(e + 1))[i - 1]);
            }
        }
    } else {
        assert(segments(s) == seq![s]);
        if s.contains('/') {
            let k = choose|k: int| 0 <= k < s.len() && s[k] == '/';
        }
    }
}

proof fn lemma_normal_parts_elements(segs: Seq<Seq<char>>)
    ensures
        forall|i: int|
            0 <= i < normal_parts(segs).len() ==> {
                let c = #[trigger] normal_parts(segs)[i];
                c.len() > 0 && c != seq!['.'] && exists|j: int|
                    0 <= j < segs.len() && segs[j] == c
            },
    decreases segs.len(),
{
    if segs.len() > 0 {
        lemma_normal_parts_elements(segs.drop_first());
        let rest = normal_parts(segs.drop_first());
        assert forall|i: int| 0 <= i < normal_parts(segs).len() implies {
            let c = #[trigger] normal_parts(segs)[i];
            c.len() > 0 && c != seq!['.'] && exists|j: int| 0 <= j < segs.len() && segs[j] == c
        } by {
            let c = normal_parts(segs)[i];
            if segs[0].len() == 0 || segs[0] == seq!['.'] {
                assert(c == rest[i]);
                let j = choose|j: int|
                    0 <= j < segs.drop_first().len() && segs.drop_first()[j] == c;
                assert(segs[j + 1] == c);
            } else if i == 0 {
                assert(c == segs[0]);
            } else {
                assert(c == rest[i - 1]);
                let j = choose|j: int|
                    0 <= j < segs.drop_first().len() && segs.drop_first()[j] == c;
                assert(segs[j + 1] == c);
            }
        }
    }
}

/// The components of `join(base, rel)`: those of `base`, then the normal
/// parts of `rel`.
proof fn lemma_join_components(base: Seq<char>, rel: Seq<char>)
    requires
        base.len() > 0,
    ensures
        components(join(base, rel)) == components(base) + normal_parts(segments(rel)),
{
    lemma_first_segment(base);
    if base.last() == '/' {
        let b2 = base.drop_last();
        assert(base + rel =~= b2 + seq!['/'] + rel);
        assert(base =~= b2 + seq!['/'] + Seq::<char>::empty());
        lemma_segments_sep(b2, rel);
        lemma_segments_sep(b2, Seq::<char>::empty());
        lemma_first_segment(b2);
        lemma_first_segment(Seq::<char>::empty());
        assert(segments(Seq::<char>::empty()) =~= seq![Seq::<char>::empty()]) by {
            lemma_sep_end(Seq::<char>::empty());
            assert(Seq::<char>::empty().take(0) =~= Seq::<char>::empty());
        }
        lemma_normal_parts_concat(segments(b2), segments(rel));
        lemma_normal_parts_concat(segments(b2), segments(Seq::<char>::empty()));
        assert(normal_parts(seq![Seq::<char>::empty()]) =~= Seq::<Seq<char>>::empty()) by {
            assert(seq![Seq::<char>::empty()].drop_first() =~= Seq::<Seq<char>>::empty());
            assert(normal_parts(Seq::<Seq<char>>::empty()) == Seq::<Seq<char>>::empty());
            assert(seq![Seq::<char>::empty()][0].len() == 0);
        }
        assert(normal_parts(segments(base)) =~= normal_parts(segments(b2)));
        assert((base + rel)[0] == base[0]);
        assert(segments(base + rel)[0] == segments(base)[0]);
        assert(components(base + rel) =~= components(base) + normal_parts(segments(rel)));
    } else {
        let s = base + seq!['/'] + rel;
        lemma_segments_sep(base, rel);
        lemma_normal_parts_concat(segments(base), segments(rel));
        assert(s[0] == base[0]);
        assert(segments(s)[0] == segments(base)[0]);
        assert(components(s) =~= components(base) + normal_parts(segments(rel)));
    }
}

/// An entry's path stays inside the store, textually: for any name that
/// is not refused as escaping, the path of its `.gpg` file starts with all
/// the store root's components, and every further component names a file
/// or directory below its parent (never `".."`, `"."` or a root).
pub proof fn lemma_entry_path_inside(store: Seq<char>, name: Seq<char>)
    requires
        !sneaky_name(name),
    ensures
        path_starts_with(join(store, name + ".gpg"@), store),
        components(join(store, name + ".gpg"@)).len() > components(store).len(),
        forall|i: int|
            components(store).len() <= i < components(join(store, name + ".gpg"@)).len()
                ==> normal_name(#[trigger] components(join(store, name + ".gpg"@))[i]),
{
    reveal_strlit(".gpg");
    let x = ".gpg"@;
    assert(x =~= seq!['.', 'g', 'p', 'g']);
    let rel = name + x;
    assert(!x.contains('/')) by {
        if x.contains('/') {
            let k = choose|k: int| 0 <= k < x.len() && x[k] == '/';
        }
    }
    lemma_segments_extend(name, x);
    lemma_first_segment(name);
    lemma_first_segment(rel);
    let segs = segments(name);
    let last = segs.last() + x;
    assert(segs =~= segs.drop_last() + seq![segs.last()]);
    lemma_normal_parts_concat(segs.drop_last(), seq![segs.last()]);
    lemma_normal_parts_concat(segs.drop_last(), seq![last]);
    assert(segments(rel) =~= segs.drop_last() + seq![last]);
    assert(last.len() > 0 && last != seq!['.'] && last.last() == 'g');
    assert(normal_parts(seq![last]) =~= seq![last]) by {
        assert(seq![last].drop_first() =~= Seq::<Seq<char>>::empty());
        assert(normal_parts(Seq::<Seq<char>>::empty()) == Seq::<Seq<char>>::empty());
        assert(seq![last][0] == last);
        assert(seq![last] + Seq::<Seq<char>>::empty() =~= seq![last]);
    }
    let front = normal_parts(segs.drop_last());
    let tail = normal_parts(segments(rel));
    assert(tail =~= front + seq![last]);
    // The name is not rooted and does not start with "." alone.
    assert(name.len() > 0);
    assert(!(name[0] == '/')) by {
        if name[0] == '/' {
            assert(sneaky_component(components(name)[0]));
        }
    }
    assert(segs[0] != seq!['.']) by {
        if segs[0] == seq!['.'] {
            assert(components(name)[0] == seq!['.']);
            assert(sneaky_component(components(name)[0]));
        }
    }
    assert(components(name) == normal_parts(segs));
    // The front components are components of the name, so none starts with a dot.
    assert forall|i: int| 0 <= i < front.len() implies !(#[trigger] front[i]).contains('/')
        && front[i].len() > 0 && front[i][0] != '.' by {
        assert(normal_parts(segs) == front + normal_parts(seq![segs.last()]));
        assert(components(name)[i] == front[i]);
        lemma_normal_parts_elements(segs);
        lemma_segments_no_sep(name);
        assert(i < components(name).len());
        assert(front[i].len() > 0);
        let j = choose|j: int| 0 <= j < segs.len() && segs[j] == normal_parts(segs)[i];
        if front[i][0] == '.' {
            assert(sneaky_component(components(name)[i]));
            assert(sneaky_name(name));
        }
    }
    assert(!last.contains('/')) by {
        lemma_segments_no_sep(name);
        assert(!segs.last().contains('/'));
        if last.contains('/') {
            let k = choose|k: int| 0 <= k < last.len() && last[k] == '/';
            if k < segs.last().len() {
                assert(segs.last()[k] == '/');
            }
        }
    }
    if store.len() == 0 {
        assert(join(store, rel) == rel);
        assert(rel[0] == name[0]);
        assert(segments(rel)[0] != seq!['.']) by {
            if segs.len() > 1 {
                assert(segments(rel)[0] == segs[0]);
            } else {
                assert(segments(rel)[0] == last);
            }
        }
        assert(components(rel) == tail);
        assert(components(store) =~= Seq::<Seq<char>>::empty()) by {
            lemma_sep_end(store);
            assert(segments(store) =~= seq![store]);
            assert(seq![store].drop_first() =~= Seq::<Seq<char>>::empty());
            assert(normal_parts(Seq::<Seq<char>>::empty()) == Seq::<Seq<char>>::empty());
            assert(seq![store][0].len() == 0);
            assert(normal_parts(seq![store]) =~= Seq::<Seq<char>>::empty());
            assert(segments(store)[0] != seq!['.']);
        }
        assert(components(join(store, rel)) =~= components(store) + tail);
    } else {
        lemma_join_components(store, rel);
    }
    let full = components(join(store, rel));
    assert(full =~= components(store) + tail);
    assert forall|i: int| components(store).len() <= i < full.len() implies normal_name(
        #[trigger] full[i],
    ) by {
        let k = i - components(store).len();
        assert(full[i] == tail[k]);
        if k < front.len() {
            assert(tail[k] == front[k]);
            assert(front[k][0] == '.' ==> false);
        } else {
            assert(tail[k] == last);
            assert(last[last.len() - 1] == 'g');
        }
    }
}

} // verus!
