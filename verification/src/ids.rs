//! Recipient id lists: the ids `init` is given, the `.gpg-id` file that
//! records them, and what a `.gpg-id` read tells about a directory.

use vstd::prelude::*;

use crate::error::{Error, IoFailure};
use crate::text::{
    chars_of, gpg_ids_in, line_end, lines, nonempty_trimmed, parse_gpg_ids, push_char,
    space_char, string_of, strip_cr, trim, trim_end, trim_range, trim_start, views,
};

verus! {

/// The views of a sequence of string slices.
pub open spec fn str_views(v: Seq<&str>) -> Seq<Seq<char>> {
    v.map_values(|s: &str| s@)
}

/// Each id trimmed.
pub open spec fn trimmed_ids(ids: Seq<Seq<char>>) -> Seq<Seq<char>> {
    ids.map_values(|s: Seq<char>| trim(s))
}

/// Whether `init` accepts these ids: at least one, and none that is empty
/// once trimmed.
pub open spec fn usable_ids(ids: Seq<Seq<char>>) -> bool {
    &&& ids.len() > 0
    &&& forall|i: int| 0 <= i < ids.len() ==> trim(#[trigger] ids[i]).len() > 0
}

/// `s` without leading and trailing white space.
pub fn trim_str(s: &str) -> (t: String)
    ensures
        t@ == trim(s@),
{
    let v = chars_of(s);
    let (a, b) = trim_range(&v, 0, v.len());
    assert(v@.subrange(0, v.len() as int) =~= v@);
    string_of(&v, a, b)
}

/// The ids `init` stores for `gpg_ids`: each one trimmed. Fails with
/// `NoGpgIds` when there is none, or when one is empty once trimmed.
pub fn normalize_gpg_ids(gpg_ids: &[&str]) -> (r: Result<Vec<String>, Error>)
    ensures
        r is Ok <==> usable_ids(str_views(gpg_ids@)),
        r matches Ok(ids) ==> views(ids@) == trimmed_ids(str_views(gpg_ids@)),
        r matches Err(e) ==> e is NoGpgIds,
{
    let mut ids: Vec<String> = Vec::new();
    let mut all_usable = true;
    let mut k: usize = 0;
    while k < gpg_ids.len()
        invariant
            k <= gpg_ids.len(),
            views(ids@) == trimmed_ids(str_views(gpg_ids@)).take(k as int),
            all_usable <==> forall|i: int|
                0 <= i < k ==> trim(#[trigger] str_views(gpg_ids@)[i]).len() > 0,
        decreases gpg_ids.len() - k,
    {
        let t = trim_str(gpg_ids[k]);
        assert(str_views(gpg_ids@)[k as int] == gpg_ids@[k as int]@);
        if t.as_str().is_empty() {
            all_usable = false;
        }
        let ghost before = ids@;
        ids.push(t);
        assert(views(ids@) =~= views(before).push(t@));
        assert(trimmed_ids(str_views(gpg_ids@)).take(k + 1) =~= trimmed_ids(
            str_views(gpg_ids@),
        ).take(k as int).push(trim(gpg_ids@[k as int]@)));
        k += 1;
    }
    assert(trimmed_ids(str_views(gpg_ids@)).take(k as int) =~= trimmed_ids(str_views(gpg_ids@)));
    if ids.len() == 0 || !all_usable {
        Err(Error::NoGpgIds)
    } else {
        Ok(ids)
    }
}

/// The lines of a list of ids: each id followed by a newline.
pub open spec fn joined_lines(ids: Seq<Seq<char>>) -> Seq<char>
    decreases ids.len(),
{
    if ids.len() == 0 {
        seq![]
    } else {
        ids[0] + seq!['\n'] + joined_lines(ids.drop_first())
    }
}

/// The contents `init` writes to `.gpg-id`: the ids joined by newlines,
/// and a final newline.
pub open spec fn gpg_id_file_text(ids: Seq<Seq<char>>) -> Seq<char> {
    if ids.len() == 0 {
        seq!['\n']
    } else {
        joined_lines(ids)
    }
}

proof fn lemma_joined_lines_push(ids: Seq<Seq<char>>, id: Seq<char>)
    ensures
        joined_lines(ids.push(id)) == joined_lines(ids) + id + seq!['\n'],
    decreases ids.len(),
{
    if ids.len() == 0 {
        let one = ids.push(id);
        assert(one.drop_first() =~= Seq::<Seq<char>>::empty());
        assert(joined_lines(one.drop_first()) == Seq::<char>::empty());
        assert(one[0] == id);
        assert(joined_lines(one) == id + seq!['\n'] + joined_lines(one.drop_first()));
        assert(joined_lines(ids) == Seq::<char>::empty());
        assert(joined_lines(one) =~= joined_lines(ids) + id + seq!['\n']);
    } else {
        assert(ids.push(id).drop_first() =~= ids.drop_first().push(id));
        lemma_joined_lines_push(ids.drop_first(), id);
        assert(joined_lines(ids.push(id)) =~= joined_lines(ids) + id + seq!['\n']);
    }
}

/// Renders ids as the contents of a `.gpg-id` file.
pub fn render_gpg_ids(ids: &Vec<String>) -> (text: String)
    ensures
        text@ == gpg_id_file_text(views(ids@)),
{
    let mut text = String::new();
    let mut k: usize = 0;
    while k < ids.len()
        invariant
            k <= ids.len(),
            text@ == joined_lines(views(ids@).take(k as int)),
        decreases ids.len() - k,
    {
        let cs = chars_of(ids[k].as_str());
        let mut m: usize = 0;
        let ghost start = text@;
        while m < cs.len()
            invariant
                m <= cs.len(),
                cs@ == ids@[k as int]@,
                text@ == start + cs@.take(m as int),
            decreases cs.len() - m,
        {
            push_char(&mut text, cs[m]);
            assert(cs@.take(m + 1) =~= cs@.take(m as int).push(cs@[m as int]));
            m += 1;
        }
        push_char(&mut text, '\n');
        proof {
            assert(cs@.take(cs.len() as int) =~= cs@);
            assert(views(ids@).take(k + 1) =~= views(ids@).take(k as int).push(ids@[k as int]@));
            lemma_joined_lines_push(views(ids@).take(k as int), ids@[k as int]@);
            assert(text@ =~= start + ids@[k as int]@ + seq!['\n']);
        }
        k += 1;
    }
    assert(views(ids@).take(k as int) =~= views(ids@));
    if ids.len() == 0 {
        push_char(&mut text, '\n');
        assert(text@ =~= seq!['\n']);
    }
    text
}

/// Whether an id can be written as one `.gpg-id` line and read back as
/// itself: non-empty, without surrounding white space, without a newline.
pub open spec fn writable_id(id: Seq<char>) -> bool {
    &&& id.len() > 0
    &&& trim(id) == id
    &&& !id.contains('\n')
}

proof fn lemma_trim_start_shorter(s: Seq<char>)
    ensures
        trim_start(s).len() <= s.len(),
        trim_start(s).len() == s.len() ==> trim_start(s) == s,
    decreases s.len(),
{
    if s.len() > 0 && space_char(s[0]) {
        lemma_trim_start_shorter(s.drop_first());
    }
}

proof fn lemma_trim_end_shorter(s: Seq<char>)
    ensures
        trim_end(s).len() <= s.len(),
        trim_end(s).len() == s.len() ==> trim_end(s) == s && (s.len() > 0 ==> !space_char(
            s.last(),
        )),
    decreases s.len(),
{
    if s.len() > 0 && space_char(s.last()) {
        lemma_trim_end_shorter(s.drop_last());
    }
}

proof fn lemma_trimmed_ends(s: Seq<char>)
    requires
        trim(s) == s,
        s.len() > 0,
    ensures
        !space_char(s.last()),
        !space_char(s[0]),
{
    lemma_trim_start_shorter(s);
    lemma_trim_end_shorter(trim_start(s));
    assert(trim_start(s) == s);
    if space_char(s[0]) {
        lemma_trim_start_shorter(s.drop_first());
        assert(false);
    }
}

proof fn lemma_line_end_prefix(x: Seq<char>, y: Seq<char>)
    requires
        !x.contains('\n'),
    ensures
        line_end(x + seq!['\n'] + y) == x.len(),
    decreases x.len(),
{
    if x.len() > 0 {
        assert(x[0] != '\n') by {
            if x[0] == '\n' {
                assert(x.contains('\n'));
            }
        }
        assert((x + seq!['\n'] + y).drop_first() =~= x.drop_first() + seq!['\n'] + y);
        assert(!x.drop_first().contains('\n')) by {
            if x.drop_first().contains('\n') {
                let k = choose|k: int| 0 <= k < x.drop_first().len() && x.drop_first()[k] == '\n';
                assert(x[k + 1] == '\n');
            }
        }
        lemma_line_end_prefix(x.drop_first(), y);
    }
}

/// Writing ids to a `.gpg-id` file and parsing it back gives the same ids,
/// for ids that fit on one line each without surrounding white space.
pub proof fn lemma_gpg_id_file_roundtrip(ids: Seq<Seq<char>>)
    requires
        ids.len() > 0,
        forall|i: int| 0 <= i < ids.len() ==> writable_id(#[trigger] ids[i]),
    ensures
        gpg_ids_in(gpg_id_file_text(ids)) == ids,
{
    lemma_joined_lines_roundtrip(ids);
}

proof fn lemma_joined_lines_roundtrip(ids: Seq<Seq<char>>)
    requires
        forall|i: int| 0 <= i < ids.len() ==> writable_id(#[trigger] ids[i]),
    ensures
        gpg_ids_in(joined_lines(ids)) == ids,
    decreases ids.len(),
{
    if ids.len() == 0 {
        assert(gpg_ids_in(joined_lines(ids)) =~= ids);
    } else {
        let id = ids[0];
        let rest = ids.drop_first();
        assert(writable_id(id));
        assert forall|i: int| 0 <= i < rest.len() implies writable_id(#[trigger] rest[i]) by {
            assert(rest[i] == ids[i + 1]);
        }
        lemma_joined_lines_roundtrip(rest);
        let r = joined_lines(rest);
        let s = id + seq!['\n'] + r;
        assert(joined_lines(ids) == s);
        lemma_line_end_prefix(id, r);
        lemma_trimmed_ends(id);
        assert(s.take(id.len() as int) =~= id);
        assert(s.skip(id.len() as int + 1) =~= r);
        assert(strip_cr(id) == id);
        assert(lines(s) == seq![id] + lines(r));
        assert((seq![id] + lines(r)).drop_first() =~= lines(r));
        assert(nonempty_trimmed(lines(s)) == seq![id] + nonempty_trimmed(lines(r)));
        assert(seq![id] + rest =~= ids);
    }
}

/// What the `.gpg-id` read of a directory tells: `Some(ids)` when the file
/// names recipients, `None` when it is absent or names none, and an `Io`
/// error when it exists but cannot be read (never taken for absent).
pub fn declared_ids(read: Result<String, IoFailure>) -> (r: Result<Option<Vec<String>>, Error>)
    ensures
        match read {
            Ok(contents) => match r {
                Ok(Some(ids)) => gpg_ids_in(contents@).len() > 0 && views(ids@) == gpg_ids_in(
                    contents@,
                ),
                Ok(None) => gpg_ids_in(contents@).len() == 0,
                Err(_) => false,
            },
            Err(f) => if f.not_found {
                r matches Ok(None)
            } else {
                r == Err::<Option<Vec<String>>, Error>(Error::Io(f))
            },
        },
{
    match read {
        Ok(contents) => {
            let ids = parse_gpg_ids(contents.as_str());
            if ids.len() == 0 {
                Ok(None)
            } else {
                Ok(Some(ids))
            }
        },
        Err(f) => {
            if f.not_found {
                Ok(None)
            } else {
                Err(Error::Io(f))
            }
        },
    }
}

/// Whether two id lists are the same, id by id.
pub fn same_ids(a: &Vec<String>, b: &Vec<String>) -> (r: bool)
    ensures
        r == (views(a@) == views(b@)),
{
    if a.len() != b.len() {
        assert(views(a@).len() != views(b@).len());
        return false;
    }
    let mut k: usize = 0;
    while k < a.len()
        invariant
            k <= a.len() == b.len(),
            forall|i: int| 0 <= i < k ==> a@[i]@ == b@[i]@,
        decreases a.len() - k,
    {
        if a[k] != b[k] {
            assert(views(a@)[k as int] != views(b@)[k as int]);
            return false;
        }
        k += 1;
    }
    assert(views(a@) =~= views(b@));
    true
}

/// Whether `init` must re-encrypt the entries the root `.gpg-id` governs:
/// whenever the new ids differ from the ones recorded there (or none are).
pub fn ids_changed(old: &Option<Vec<String>>, new: &Vec<String>) -> (r: bool)
    ensures
        r == !(old matches Some(o) && views(o@) == views(new@)),
{
    match old {
        Some(o) => !same_ids(o, new),
        None => true,
    }
}

} // verus!
