//! Sorting entry names. Strings order by their UTF-8 bytes, which is the
//! order of their characters' code points, compared one by one.

use vstd::prelude::*;

use crate::text::{chars_of, views};

verus! {

/// Whether `a` sorts strictly before `b`: at the first character where they
/// differ, `a`'s has the smaller code point, or `a` is a proper prefix of
/// `b`.
pub open spec fn text_lt(a: Seq<char>, b: Seq<char>) -> bool
    decreases a.len(),
{
    if b.len() == 0 {
        false
    } else if a.len() == 0 {
        true
    } else if a[0] != b[0] {
        (a[0] as u32) < (b[0] as u32)
    } else {
        text_lt(a.drop_first(), b.drop_first())
    }
}

/// Whether `a` sorts before `b` or equals it.
pub open spec fn text_le(a: Seq<char>, b: Seq<char>) -> bool {
    a == b || text_lt(a, b)
}

/// Whether a sequence of texts is in ascending order.
pub open spec fn sorted_texts(s: Seq<Seq<char>>) -> bool {
    forall|i: int, j: int| 0 <= i < j < s.len() ==> text_le(#[trigger] s[i], #[trigger] s[j])
}

proof fn lemma_lt_total(a: Seq<char>, b: Seq<char>)
    ensures
        text_lt(a, b) || a == b || text_lt(b, a),
    decreases a.len(),
{
    if a.len() > 0 && b.len() > 0 && a[0] == b[0] {
        lemma_lt_total(a.drop_first(), b.drop_first());
        if a.drop_first() == b.drop_first() {
            assert(a =~= seq![a[0]] + a.drop_first());
            assert(b =~= seq![b[0]] + b.drop_first());
        }
    } else if a.len() == 0 && b.len() == 0 {
        assert(a =~= b);
    } else if a.len() > 0 && b.len() > 0 {
        assert((a[0] as u32) != (b[0] as u32)) by {
            vstd::utf8::char_u32_cast(a[0], a[0] as u32);
            vstd::utf8::char_u32_cast(b[0], b[0] as u32);
        }
    }
}

proof fn lemma_lt_trans(a: Seq<char>, b: Seq<char>, c: Seq<char>)
    requires
        text_lt(a, b),
        text_lt(b, c),
    ensures
        text_lt(a, c),
    decreases a.len(),
{
    if a.len() > 0 && a[0] == b[0] && b[0] == c[0] {
        lemma_lt_trans(a.drop_first(), b.drop_first(), c.drop_first());
    }
}

proof fn lemma_lt_irreflexive(a: Seq<char>)
    ensures
        !text_lt(a, a),
    decreases a.len(),
{
    if a.len() > 0 {
        lemma_lt_irreflexive(a.drop_first());
    }
}

/// Whether `a` sorts strictly before `b`.
pub fn less_than(a: &str, b: &str) -> (r: bool)
    ensures
        r == text_lt(a@, b@),
{
    let av = chars_of(a);
    let bv = chars_of(b);
    let mut k: usize = 0;
    assert(a@.skip(0) =~= a@);
    assert(b@.skip(0) =~= b@);
    while k < av.len() && k < bv.len() && av[k] == bv[k]
        invariant
            k <= av.len(),
            k <= bv.len(),
            av@ == a@,
            bv@ == b@,
            text_lt(a@, b@) == text_lt(a@.skip(k as int), b@.skip(k as int)),
        decreases av.len() - k,
    {
        assert(a@.skip(k as int).drop_first() =~= a@.skip(k + 1));
        assert(b@.skip(k as int).drop_first() =~= b@.skip(k + 1));
        k += 1;
    }
    if k == bv.len() {
        false
    } else if k == av.len() {
        true
    } else {
        (av[k] as u32) < (bv[k] as u32)
    }
}

/// Sorts names in ascending order: the result holds the same names, each
/// as often as before, in the order of [`text_lt`].
pub fn sort_names(names: Vec<String>) -> (sorted: Vec<String>)
    ensures
        sorted_texts(views(sorted@)),
        views(sorted@).to_multiset() == views(names@).to_multiset(),
{
    broadcast use vstd::seq_lib::group_to_multiset_ensures;

    let mut out: Vec<String> = Vec::new();
    let mut input = names;
    let ghost all = views(input@);
    let ghost taken: Seq<Seq<char>> = Seq::empty();
    assert(views(out@) =~= Seq::<Seq<char>>::empty());
    while input.len() > 0
        invariant
            sorted_texts(views(out@)),
            views(out@).to_multiset() == taken.to_multiset(),
            taken + views(input@).reverse() == all.reverse(),
        decreases input.len(),
    {
        let ghost before_in = views(input@);
        let x = input.pop().unwrap();
        assert(before_in =~= views(input@).push(x@));
        let mut p: usize = 0;
        while p < out.len() && !less_than(x.as_str(), out[p].as_str())
            invariant
                p <= out.len(),
                forall|i: int| 0 <= i < p ==> !text_lt(x@, #[trigger] views(out@)[i]),
            decreases out.len() - p,
        {
            p += 1;
        }
        let ghost old_out = views(out@);
        out.insert(p, x);
        proof {
            assert(views(out@) =~= old_out.insert(p as int, x@));
            assert forall|i: int, j: int|
                0 <= i < j < views(out@).len() implies text_le(
                #[trigger] views(out@)[i],
                #[trigger] views(out@)[j],
            ) by {
                let o = views(out@);
                if j < p {
                    assert(o[i] == old_out[i] && o[j] == old_out[j]);
                } else if j == p {
                    assert(o[i] == old_out[i]);
                    lemma_lt_total(x@, old_out[i]);
                } else if i > p {
                    assert(o[i] == old_out[i - 1] && o[j] == old_out[j - 1]);
                } else if i == p {
                    assert(o[j] == old_out[j - 1]);
                    assert(text_lt(x@, old_out[p as int]));
                    if old_out[p as int] != old_out[j - 1] {
                        lemma_lt_trans(x@, old_out[p as int], old_out[j - 1]);
                    }
                } else {
                    assert(o[i] == old_out[i] && o[j] == old_out[j - 1]);
                }
            }
            let o = views(out@);
            assert(o.remove(p as int) =~= old_out);
            assert(o[p as int] == x@);
            o.to_multiset_ensures();
            taken.to_multiset_ensures();
            assert(o.contains(x@));
            assert(o.to_multiset() =~= o.to_multiset().remove(x@).insert(x@));
            assert(o.to_multiset() =~= old_out.to_multiset().insert(x@));
            assert(taken.push(x@).to_multiset() =~= taken.to_multiset().insert(x@));
            assert(taken.push(x@) + views(input@).reverse() =~= taken + before_in.reverse());
            taken = taken.push(x@);
        }
    }
    proof {
        assert(views(input@).reverse() =~= Seq::<Seq<char>>::empty());
        assert(taken =~= all.reverse());
        all.lemma_reverse_to_multiset();
    }
    out
}


/// The order of names is the order of `String`: `a` sorts before `b`
/// exactly when, at the first position where they differ, `a`'s character
/// has the smaller code point, or `a` is a proper prefix of `b`.
pub proof fn lemma_text_lt_code_points(a: Seq<char>, b: Seq<char>)
    ensures
        text_lt(a, b) <==> ((exists|k: int|
            #![trigger a.take(k), b.take(k)]
            0 <= k < a.len() && k < b.len() && a.take(k) == b.take(k) && (a[k] as u32) < (
            b[k] as u32)) || (a.len() < b.len() && a == b.take(a.len() as int))),
    decreases a.len(),
{
    if b.len() == 0 {
    } else if a.len() == 0 {
        assert(a =~= b.take(0));
    } else if a[0] != b[0] {
        if (a[0] as u32) < (b[0] as u32) {
            assert(a.take(0) =~= b.take(0));
        }
        if exists|k: int|
            #![trigger a.take(k), b.take(k)]
            0 <= k < a.len() && k < b.len() && a.take(k) == b.take(k) && (a[k] as u32) < (
            b[k] as u32) {
            let k = choose|k: int|
                #![trigger a.take(k), b.take(k)]
                0 <= k < a.len() && k < b.len() && a.take(k) == b.take(k) && (a[k] as u32) < (
                b[k] as u32);
            if k > 0 {
                assert(a.take(k)[0] == b.take(k)[0]);
            }
        }
        if a.len() < b.len() && a == b.take(a.len() as int) {
            assert(a[0] == b.take(a.len() as int)[0]);
        }
    } else {
        let a2 = a.drop_first();
        let b2 = b.drop_first();
        lemma_text_lt_code_points(a2, b2);
        if exists|k: int|
            #![trigger a.take(k), b.take(k)]
            0 <= k < a.len() && k < b.len() && a.take(k) == b.take(k) && (a[k] as u32) < (
            b[k] as u32) {
            let k = choose|k: int|
                #![trigger a.take(k), b.take(k)]
                0 <= k < a.len() && k < b.len() && a.take(k) == b.take(k) && (a[k] as u32) < (
                b[k] as u32);
            assert(k > 0);
            assert(a2.take(k - 1) =~= a.take(k).drop_first());
            assert(b2.take(k - 1) =~= b.take(k).drop_first());
            assert(a2[k - 1] == a[k] && b2[k - 1] == b[k]);
        }
        if a.len() < b.len() && a == b.take(a.len() as int) {
            assert(a2 =~= b2.take(a2.len() as int));
        }
        if exists|k: int|
            #![trigger a2.take(k), b2.take(k)]
            0 <= k < a2.len() && k < b2.len() && a2.take(k) == b2.take(k) && (a2[k] as u32) < (
            b2[k] as u32) {
            let k = choose|k: int|
                #![trigger a2.take(k), b2.take(k)]
                0 <= k < a2.len() && k < b2.len() && a2.take(k) == b2.take(k) && (a2[k] as u32) < (
                b2[k] as u32);
            assert forall|i: int| 0 <= i < k + 1 implies #[trigger] a.take(k + 1)[i] == b.take(k + 1)[i] by {
                if i > 0 {
                    assert(a2.take(k)[i - 1] == b2.take(k)[i - 1]);
                }
            }
            assert(a.take(k + 1) =~= b.take(k + 1));
            assert(a[k + 1] == a2[k] && b[k + 1] == b2[k]);
        }
        if a2.len() < b2.len() && a2 == b2.take(a2.len() as int) {
            assert forall|i: int| 0 <= i < a.len() implies #[trigger] a[i] == b.take(a.len() as int)[i] by {
                if i > 0 {
                    assert(a2[i - 1] == b2.take(a2.len() as int)[i - 1]);
                }
            }
            assert(a =~= b.take(a.len() as int));
        }
    }
}

/// Names sorted by [`sort_names`] (and so the names `list` gives) ascend
/// in the order of `String`: for any two positions, the earlier name equals
/// the later, or at their first difference has the smaller code point, or
/// is a proper prefix of it.
pub proof fn lemma_sorted_names_ascend(s: Seq<Seq<char>>, i: int, j: int)
    requires
        sorted_texts(s),
        0 <= i < j < s.len(),
    ensures
        s[i] == s[j] || (exists|k: int|
            #![trigger s[i].take(k), s[j].take(k)]
            0 <= k < s[i].len() && k < s[j].len() && s[i].take(k) == s[j].take(k) && (
            s[i][k] as u32) < (s[j][k] as u32)) || (s[i].len() < s[j].len() && s[i] == s[j].take(
            s[i].len() as int)),
{
    assert(text_le(s[i], s[j]));
    lemma_text_lt_code_points(s[i], s[j]);
}

} // verus!
