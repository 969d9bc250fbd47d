//! Walking the store for its entries: every `.gpg` file below the root,
//! named by its path without the extension; dot-files and dot-directories
//! are skipped. The walk of the entries the root `.gpg-id` governs also
//! skips subfolders whose own `.gpg-id` names recipients.

use vstd::prelude::*;

use crate::error::{Error, IoFailure};
use crate::ids::declared_ids;
use crate::paths::{join, join_path};
use crate::sort::{sort_names, sorted_texts};
use crate::store::{gpg_id_file, PasswordStore};
use crate::text::{chars_of, concat, push_char, string_of, views};

verus! {

/// One item of a directory listing: its file name, and whether it is a
/// directory.
#[derive(Debug)]
pub struct DirItem {
    pub name: String,
    pub is_dir: bool,
}

/// Whether a file name starts with a dot.
pub open spec fn dot_name(n: Seq<char>) -> bool {
    n.len() > 0 && n[0] == '.'
}

/// The name without its `.gpg` extension, when it has one.
pub open spec fn gpg_stem(n: Seq<char>) -> Option<Seq<char>> {
    if n.len() >= 4 && n.skip(n.len() - 4) == seq!['.', 'g', 'p', 'g'] {
        Some(n.take(n.len() - 4))
    } else {
        None
    }
}

/// The entries that the files of a listing name, in order: each `.gpg`
/// file that is not a dot-file gives `prefix` followed by its stem.
pub open spec fn listed_entries(prefix: Seq<char>, items: Seq<DirItem>) -> Seq<Seq<char>>
    decreases items.len(),
{
    if items.len() == 0 {
        seq![]
    } else {
        let rest = listed_entries(prefix, items.drop_last());
        let it = items.last();
        if !dot_name(it.name@) && !it.is_dir && gpg_stem(it.name@) is Some {
            rest.push(prefix + gpg_stem(it.name@)->0)
        } else {
            rest
        }
    }
}

/// A directory still to walk: its path, the prefix of the entry names
/// below it, and whether it is known to belong to the walk.
pub type PendingDir = (Seq<char>, Seq<char>, bool);

/// The subdirectories of a listing still to walk, in order: each directory
/// that is not a dot-directory. In a walk of the governed entries each one
/// must first be checked for its own `.gpg-id`.
pub open spec fn listed_subdirs(
    dir: Seq<char>,
    prefix: Seq<char>,
    items: Seq<DirItem>,
    governed: bool,
) -> Seq<PendingDir>
    decreases items.len(),
{
    if items.len() == 0 {
        seq![]
    } else {
        let rest = listed_subdirs(dir, prefix, items.drop_last(), governed);
        let it = items.last();
        if !dot_name(it.name@) && it.is_dir {
            rest.push((join(dir, it.name@), prefix + it.name@ + seq!['/'], !governed))
        } else {
            rest
        }
    }
}

/// In a walk of the governed entries, every subdirectory a listing yields,
/// at whatever depth (whatever `prefix`), is pending unchecked: its
/// `.gpg-id` is read before it is listed, so a subfolder that declares its
/// own recipients is never walked. In a plain walk every one is listed
/// straight away. Either way there is one for each directory of the listing
/// that is not a dot-directory, below `dir`, in listing order.
pub proof fn lemma_listed_subdirs(
    dir: Seq<char>,
    prefix: Seq<char>,
    items: Seq<DirItem>,
    governed: bool,
)
    ensures
        governed ==> forall|i: int|
            0 <= i < listed_subdirs(dir, prefix, items, governed).len()
                ==> !(#[trigger] listed_subdirs(dir, prefix, items, governed)[i]).2,
        !governed ==> forall|i: int|
            0 <= i < listed_subdirs(dir, prefix, items, governed).len()
                ==> (#[trigger] listed_subdirs(dir, prefix, items, governed)[i]).2,
        forall|i: int|
            #![trigger listed_subdirs(dir, prefix, items, governed)[i]]
            0 <= i < listed_subdirs(dir, prefix, items, governed).len() ==> exists|k: int|
                0 <= k < items.len() && (#[trigger] items[k]).is_dir && !dot_name(items[k].name@)
                    && listed_subdirs(dir, prefix, items, governed)[i].0 == join(dir, items[k].name@)
                    && listed_subdirs(dir, prefix, items, governed)[i].1 == prefix + items[k].name@
                    + seq!['/'],
        listed_subdirs(dir, prefix, items, governed).len() == items.filter(
            |it: DirItem| it.is_dir && !dot_name(it.name@),
        ).len(),
    decreases items.len(),
{
    if items.len() > 0 {
        let rest = items.drop_last();
        lemma_listed_subdirs(dir, prefix, rest, governed);
        let subs = listed_subdirs(dir, prefix, items, governed);
        let rsubs = listed_subdirs(dir, prefix, rest, governed);
        assert forall|i: int| #![trigger subs[i]] 0 <= i < subs.len() implies exists|k: int|
            0 <= k < items.len() && (#[trigger] items[k]).is_dir && !dot_name(items[k].name@)
                && subs[i].0 == join(dir, items[k].name@) && subs[i].1 == prefix + items[k].name@
                + seq!['/'] by {
            if i < rsubs.len() {
                assert(subs[i] == rsubs[i]);
                let k = choose|k: int|
                    0 <= k < rest.len() && (#[trigger] rest[k]).is_dir && !dot_name(rest[k].name@)
                        && rsubs[i].0 == join(dir, rest[k].name@) && rsubs[i].1 == prefix
                        + rest[k].name@ + seq!['/'];
                assert(rest[k] == items[k]);
            } else {
                assert(items[items.len() - 1] == items.last());
            }
        }
        reveal_with_fuel(Seq::filter, 1);
        assert(items.filter(|it: DirItem| it.is_dir && !dot_name(it.name@)) == {
            let f = rest.filter(|it: DirItem| it.is_dir && !dot_name(it.name@));
            if items.last().is_dir && !dot_name(items.last().name@) {
                f.push(items.last())
            } else {
                f
            }
        });
    } else {
        assert(items.filter(|it: DirItem| it.is_dir && !dot_name(it.name@)).len() == 0) by {
            reveal_with_fuel(Seq::filter, 1);
        }
    }
}

/// A question the walk needs answered.
#[derive(Debug)]
pub enum WalkQuery {
    /// Is this path a directory?
    IsDir(String),
    /// The contents of this `.gpg-id` file.
    ReadIds(String),
    /// The items of this directory.
    ListDir(String),
}

struct Pending {
    dir: String,
    prefix: String,
    checked: bool,
}

/// A walk of the store for entry names. Directories are walked depth
/// first, in listing order.
pub struct EntryWalk {
    governed: bool,
    started: bool,
    pending: Vec<Pending>,
    entries: Vec<String>,
}

spec fn pending_view(p: Pending) -> PendingDir {
    (p.dir@, p.prefix@, p.checked)
}

impl EntryWalk {
    pub closed spec fn governed(&self) -> bool {
        self.governed
    }

    /// Whether the walk knows where to start.
    pub closed spec fn started(&self) -> bool {
        self.started
    }

    /// The directories still to walk; the last one is walked next.
    pub closed spec fn pending(&self) -> Seq<PendingDir> {
        self.pending@.map_values(|p: Pending| pending_view(p))
    }

    /// The entries found so far.
    pub closed spec fn found(&self) -> Seq<Seq<char>> {
        views(self.entries@)
    }

    /// Whether the walk is over.
    pub open spec fn done(&self) -> bool {
        self.started() && self.pending().len() == 0
    }

    /// The question to answer next, or `None` when the walk is over.
    pub fn query(&self, root: &str) -> (q: Option<WalkQuery>)
        ensures
            !self.started() ==> (q matches Some(WalkQuery::IsDir(p)) && p@ == root@),
            self.done() ==> q is None,
            self.started() && !self.done() ==> {
                let top = self.pending().last();
                if top.2 {
                    q matches Some(WalkQuery::ListDir(p)) && p@ == top.0
                } else {
                    q matches Some(WalkQuery::ReadIds(p)) && p@ == gpg_id_file(top.0)
                }
            },
    {
        if !self.started {
            return Some(WalkQuery::IsDir(root.to_owned()));
        }
        if self.pending.len() == 0 {
            return None;
        }
        let top = &self.pending[self.pending.len() - 1];
        assert(pending_view(*top) == self.pending().last());
        if top.checked {
            Some(WalkQuery::ListDir(top.dir.as_str().to_owned()))
        } else {
            Some(WalkQuery::ReadIds(join_path(top.dir.as_str(), ".gpg-id")))
        }
    }

    /// Takes whether the store root is a directory; when it is not, there
    /// is nothing to walk.
    pub fn on_root(&mut self, root: &str, is_dir: bool)
        requires
            !old(self).started(),
        ensures
            final(self).started(),
            final(self).governed() == old(self).governed(),
            final(self).found() == old(self).found(),
            final(self).pending() == if is_dir {
                seq![(root@, Seq::<char>::empty(), true)]
            } else {
                Seq::<PendingDir>::empty()
            },
    {
        let mut pending: Vec<Pending> = Vec::new();
        if is_dir {
            pending.push(Pending { dir: root.to_owned(), prefix: String::new(), checked: true });
        }
        self.pending = pending;
        self.started = true;
        proof {
            if is_dir {
                assert(self.pending() =~= seq![(root@, Seq::<char>::empty(), true)]);
            } else {
                assert(self.pending() =~= Seq::<PendingDir>::empty());
            }
        }
    }

    /// Takes the contents of the next directory's `.gpg-id` file: a
    /// directory whose `.gpg-id` names recipients is a domain of its own
    /// and is skipped; one whose `.gpg-id` is absent or names none is
    /// walked; an unreadable `.gpg-id` stops the walk with an `Io` error.
    pub fn on_ids(&mut self, read: Result<String, IoFailure>) -> (r: Result<(), Error>)
        requires
            old(self).started(),
            !old(self).done(),
            !old(self).pending().last().2,
        ensures
            final(self).started(),
            final(self).governed() == old(self).governed(),
            final(self).found() == old(self).found(),
            match read {
                Ok(text) => r is Ok && if crate::text::gpg_ids_in(text@).len() > 0 {
                    final(self).pending() == old(self).pending().drop_last()
                } else {
                    final(self).pending() == old(self).pending().drop_last().push(
                        (old(self).pending().last().0, old(self).pending().last().1, true),
                    )
                },
                Err(f) => if f.not_found {
                    r is Ok && final(self).pending() == old(self).pending().drop_last().push(
                        (old(self).pending().last().0, old(self).pending().last().1, true),
                    )
                } else {
                    r == Err::<(), Error>(Error::Io(f)) && final(self).pending() == old(
                        self,
                    ).pending()
                },
            },
    {
        let ghost before = self.pending();
        match declared_ids(read) {
            Err(e) => Err(e),
            Ok(Some(_)) => {
                let _ = self.pending.pop();
                assert(self.pending() =~= before.drop_last());
                Ok(())
            },
            Ok(None) => {
                let top = self.pending.pop().unwrap();
                self.pending.push(Pending { dir: top.dir, prefix: top.prefix, checked: true });
                assert(self.pending() =~= before.drop_last().push((before.last().0, before.last().1, true)));
                Ok(())
            },
        }
    }

    /// Takes the listing of the next directory: its `.gpg` files become
    /// entries, its subdirectories are walked next (the first one first);
    /// a failed listing stops the walk with an `Io` error.
    pub fn on_listing(&mut self, listing: Result<Vec<DirItem>, IoFailure>) -> (r: Result<
        (),
        Error,
    >)
        requires
            old(self).started(),
            !old(self).done(),
            old(self).pending().last().2,
        ensures
            final(self).started(),
            final(self).governed() == old(self).governed(),
            match listing {
                Ok(items) => {
                    let top = old(self).pending().last();
                    &&& r is Ok
                    &&& final(self).found() == old(self).found() + listed_entries(top.1, items@)
                    &&& final(self).pending() == old(self).pending().drop_last() + listed_subdirs(
                        top.0,
                        top.1,
                        items@,
                        old(self).governed(),
                    ).reverse()
                    &&& old(self).governed() ==> forall|i: int|
                        old(self).pending().len() - 1 <= i < final(self).pending().len()
                            ==> !(#[trigger] final(self).pending()[i]).2
                    &&& !old(self).governed() ==> forall|i: int|
                        old(self).pending().len() - 1 <= i < final(self).pending().len()
                            ==> (#[trigger] final(self).pending()[i]).2
                },
                Err(f) => {
                    &&& r == Err::<(), Error>(Error::Io(f))
                    &&& final(self).found() == old(self).found()
                    &&& final(self).pending() == old(self).pending()
                },
            },
    {
        let items = match listing {
            Ok(items) => items,
            Err(f) => return Err(Error::Io(f)),
        };
        let ghost before = self.pending();
        let ghost found0 = self.found();
        let top = self.pending.pop().unwrap();
        assert(pending_view(top) == before.last());
        assert(self.pending() =~= before.drop_last());
        let mut subdirs: Vec<Pending> = Vec::new();
        let mut k: usize = 0;
        while k < items.len()
            invariant
                k <= items.len(),
                self.governed == old(self).governed(),
                self.started,
                before.len() > 0,
                self.pending() == before.drop_last(),
                pending_view(top) == before.last(),
                self.found() == found0 + listed_entries(top.prefix@, items@.take(k as int)),
                subdirs@.map_values(|p: Pending| pending_view(p)) == listed_subdirs(
                    top.dir@,
                    top.prefix@,
                    items@.take(k as int),
                    self.governed,
                ),
            decreases items.len() - k,
        {
            let item = &items[k];
            assert(items@.take(k + 1).drop_last() =~= items@.take(k as int));
            assert(items@.take(k + 1).last() == items@[k as int]);
            let name = chars_of(item.name.as_str());
            let dotted = name.len() > 0 && name[0] == '.';
            let ghost subs_k = listed_subdirs(top.dir@, top.prefix@, items@.take(k as int), self.governed);
            let ghost subs_k1 = listed_subdirs(top.dir@, top.prefix@, items@.take(k + 1), self.governed);
            assert(dotted == dot_name(item.name@));
            if dotted || !item.is_dir {
                assert(subs_k1 == subs_k);
            } else {
                assert(subs_k1 == subs_k.push(
                    (join(top.dir@, item.name@), top.prefix@ + item.name@ + seq!['/'], !self.governed),
                ));
            }
            if !dotted {
                if item.is_dir {
                    let dir = join_path(top.dir.as_str(), item.name.as_str());
                    let head = concat(top.prefix.as_str(), item.name.as_str());
                    let mut prefix = head;
                    push_char(&mut prefix, '/');
                    let ghost sub0 = subdirs@;
                    let ghost dv = dir@;
                    let ghost pv = prefix@;
                    subdirs.push(Pending { dir, prefix, checked: !self.governed });
                    assert(pv == top.prefix@ + item.name@ + seq!['/']);
                    assert(subdirs@.map_values(|p: Pending| pending_view(p)) =~= sub0.map_values(
                        |p: Pending| pending_view(p),
                    ).push((dv, pv, !self.governed)));
                } else {
                    let n = name.len();
                    let is_gpg = n >= 4 && name[n - 4] == '.' && name[n - 3] == 'g' && name[n - 2]
                        == 'p' && name[n - 1] == 'g';
                    assert(is_gpg == (gpg_stem(item.name@) is Some)) by {
                        if n >= 4 {
                            let tail = item.name@.skip(n - 4);
                            if is_gpg {
                                assert(tail =~= seq!['.', 'g', 'p', 'g']);
                            }
                            if tail == seq!['.', 'g', 'p', 'g'] {
                                assert(tail[0] == name@[n - 4]);
                                assert(tail[1] == name@[n - 3]);
                                assert(tail[2] == name@[n - 2]);
                                assert(tail[3] == name@[n - 1]);
                            }
                        }
                    }
                    if is_gpg {
                        let stem = string_of(&name, 0, n - 4);
                        assert(stem@ =~= item.name@.take(n - 4));
                        let entry = concat(top.prefix.as_str(), stem.as_str());
                        let ghost e0 = self.entries@;
                        self.entries.push(entry);
                        assert(views(self.entries@) =~= views(e0).push(entry@));
                    }
                }
            }
            k += 1;
        }
        assert(items@.take(k as int) =~= items@);
        let ghost subs = subdirs@.map_values(|p: Pending| pending_view(p));
        let ghost base = self.pending();
        let ghost found1 = self.found();
        let mut j = subdirs.len();
        assert(subs.take(j as int) =~= subs);
        assert(subs.skip(j as int).reverse() =~= Seq::<PendingDir>::empty());
        while j > 0
            invariant
                j == subdirs.len(),
                j <= subs.len(),
                self.governed == old(self).governed(),
                self.started,
                self.found() == found1,
                subdirs@.map_values(|p: Pending| pending_view(p)) == subs.take(j as int),
                self.pending() == base + subs.skip(j as int).reverse(),
            decreases j,
        {
            let ghost p0 = self.pending();
            let ghost s0 = subdirs@;
            let next = subdirs.pop().unwrap();
            j -= 1;
            assert(s0.map_values(|p: Pending| pending_view(p))[j as int] == pending_view(next));
            assert(pending_view(next) == subs[j as int]);
            assert(subdirs@.map_values(|p: Pending| pending_view(p)) =~= subs.take(j as int));
            self.pending.push(next);
            assert(self.pending() =~= p0.push(subs[j as int]));
            assert(subs.skip(j as int).reverse() =~= subs.skip(j + 1).reverse().push(subs[j as int]));
        }
        assert(subs.skip(0) =~= subs);
        proof {
            lemma_listed_subdirs(top.dir@, top.prefix@, items@, self.governed);
            let n = base.len();
            assert forall|i: int| n <= i < self.pending().len() implies #[trigger] self.pending()[i]
                == subs[subs.len() - 1 - (i - n)] by {
                assert(self.pending()[i] == subs.reverse()[i - n]);
            }
        }
        Ok(())
    }

    /// The entries found, sorted.
    pub fn finish(self) -> (names: Vec<String>)
        ensures
            sorted_texts(views(names@)),
            views(names@).to_multiset() == self.found().to_multiset(),
    {
        sort_names(self.entries)
    }
}

impl PasswordStore {
    /// All entry names in the store, sorted, recursing into subfolders: a
    /// walk whose first question is the listing of the root (which must be
    /// a directory).
    pub fn list(&self) -> (w: EntryWalk)
        ensures
            w.started(),
            !w.governed(),
            w.found() == Seq::<Seq<char>>::empty(),
            w.pending() == seq![(self.root(), Seq::<char>::empty(), true)],
    {
        let mut pending: Vec<Pending> = Vec::new();
        pending.push(Pending { dir: self.store_dir().to_owned(), prefix: String::new(), checked: true });
        let w = EntryWalk { governed: false, started: true, pending, entries: Vec::new() };
        assert(w.pending() =~= seq![(self.root(), Seq::<char>::empty(), true)]);
        assert(w.found() =~= Seq::<Seq<char>>::empty());
        w
    }

    /// Starts a walk of the entries that the root `.gpg-id` governs: the
    /// whole tree minus subfolders that declare their own recipients. The
    /// first question is whether the root is a directory; when it is not,
    /// there are none.
    pub fn governed_walk(&self) -> (w: EntryWalk)
        ensures
            !w.started(),
            w.governed(),
            w.found() == Seq::<Seq<char>>::empty(),
    {
        let w = EntryWalk { governed: true, started: false, pending: Vec::new(), entries: Vec::new() };
        assert(w.found() =~= Seq::<Seq<char>>::empty());
        w
    }
}

} // verus!
