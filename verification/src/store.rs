//! The password store handle, and the decisions that resolve an entry name
//! to its file: the textual check, the symlink guard, and the lookup of the
//! recipients that govern it.

use vstd::prelude::*;

use crate::error::{Error, IoFailure};
use crate::ids::declared_ids;
use crate::paths::{
    dirs_to_root, dirs_up_to_root, is_sneaky, join, join_path, lemma_entry_path_inside, parent_of,
    parent_text,
    path_starts_with, sneaky_name, starts_with_path,
};
use crate::text::{concat, gpg_ids_in, push_char, views};

verus! {

/// A handle to a password store on disk.
#[derive(Debug, Clone)]
pub struct PasswordStore {
    store_dir: String,
    gpg_home: Option<String>,
}

/// The file name of an entry: its name with `.gpg` appended.
pub open spec fn entry_file(name: Seq<char>) -> Seq<char> {
    name + ".gpg"@
}

impl PasswordStore {
    /// The root directory of this store.
    pub closed spec fn root(&self) -> Seq<char> {
        self.store_dir@
    }

    /// The configured GnuPG home directory.
    pub closed spec fn home(&self) -> Option<Seq<char>> {
        match self.gpg_home {
            Some(h) => Some(h@),
            None => None,
        }
    }

    /// The path of entry `name`'s file.
    pub open spec fn entry_file_path(&self, name: Seq<char>) -> Seq<char> {
        join(self.root(), entry_file(name))
    }

    /// The default store: `store_dir_var` (the value of
    /// `$PASSWORD_STORE_DIR`) when it is set, otherwise `.password-store`
    /// in `home` (the home directory, or `.` when there is none).
    pub fn with_default_dir(store_dir_var: Option<&str>, home: Option<&str>) -> (s: Self)
        ensures
            s.root() == match store_dir_var {
                Some(d) => d@,
                None => join(
                    match home {
                        Some(h) => h@,
                        None => seq!['.'],
                    },
                    ".password-store"@,
                ),
            },
            s.home() is None,
    {
        let dir = match store_dir_var {
            Some(d) => d.to_owned(),
            None => {
                let base = match home {
                    Some(h) => h.to_owned(),
                    None => {
                        let mut dot = String::new();
                        push_char(&mut dot, '.');
                        dot
                    },
                };
                join_path(base.as_str(), ".password-store")
            },
        };
        PasswordStore { store_dir: dir, gpg_home: None }
    }

    /// A store rooted at `dir`.
    pub fn with_store_dir(dir: &str) -> (s: Self)
        ensures
            s.root() == dir@,
            s.home() is None,
    {
        PasswordStore { store_dir: dir.to_owned(), gpg_home: None }
    }

    /// Use a specific GnuPG home directory (keyrings, agent) instead of the
    /// engine default (`$GNUPGHOME` or `~/.gnupg`).
    pub fn with_gpg_home(self, dir: &str) -> (s: Self)
        ensures
            s.root() == self.root(),
            s.home() == Some(dir@),
    {
        PasswordStore { store_dir: self.store_dir, gpg_home: Some(dir.to_owned()) }
    }

    /// The root directory of this store.
    pub fn store_dir(&self) -> (d: &str)
        ensures
            d@ == self.root(),
    {
        self.store_dir.as_str()
    }

    /// The configured GnuPG home directory, if one was set with
    /// [`with_gpg_home`](Self::with_gpg_home).
    pub fn gpg_home(&self) -> (h: Option<&str>)
        ensures
            match h {
                Some(d) => self.home() == Some(d@),
                None => self.home() is None,
            },
    {
        match &self.gpg_home {
            Some(h) => Some(h.as_str()),
            None => None,
        }
    }

    /// A copy of this handle.
    pub fn duplicate(&self) -> (s: Self)
        ensures
            s.root() == self.root(),
            s.home() == self.home(),
    {
        let home = match &self.gpg_home {
            Some(h) => Some(h.as_str().to_owned()),
            None => None,
        };
        PasswordStore { store_dir: self.store_dir.as_str().to_owned(), gpg_home: home }
    }

    /// Resolves an entry name to the path of its `.gpg` file, rejecting
    /// names that would escape the store textually (empty, absolute, `..`,
    /// `.`, dot-file components).
    pub fn entry_path(&self, name: &str) -> (r: Result<String, Error>)
        ensures
            sneaky_name(name@) <==> r is Err,
            r matches Ok(p) ==> p@ == self.entry_file_path(name@),
            r matches Ok(p) ==> path_starts_with(p@, self.root()),
            r matches Err(e) ==> (e matches Error::SneakyPath(n) && n@ == name@),
    {
        if is_sneaky(name) {
            return Err(Error::SneakyPath(name.to_owned()));
        }
        proof {
            lemma_entry_path_inside(self.root(), name@);
        }
        let file = concat(name, ".gpg");
        Ok(join_path(self.store_dir.as_str(), file.as_str()))
    }

    /// The directory that holds entry `name`'s file (`Path::parent` of its
    /// path).
    pub fn entry_dir(&self, name: &str) -> (d: String)
        ensures
            d@ == parent_text(self.entry_file_path(name@)),
    {
        let file = concat(name, ".gpg");
        let path = join_path(self.store_dir.as_str(), file.as_str());
        parent_of(path.as_str())
    }

    /// Starts the symlink guard for entry `name`: the checks that its file
    /// does not resolve outside the store through a symlink planted inside
    /// it. Fails at once for names that escape the store textually.
    pub fn guard(&self, name: &str) -> (r: Result<EntryGuard, Error>)
        ensures
            sneaky_name(name@) <==> r is Err,
            r matches Err(e) ==> (e matches Error::SneakyPath(n) && n@ == name@),
            r matches Ok(g) ==> {
                &&& g.well_formed()
                &&& g.stage() == GuardStage::Store
                &&& g.name() == name@
                &&& g.path() == self.entry_file_path(name@)
                &&& g.root() == self.root()
                &&& g.dirs() == dirs_up_to_root(self.root(), name@)
            },
    {
        let path = self.entry_path(name)?;
        let dirs = dirs_to_root(self.store_dir.as_str(), name);
        Ok(
            EntryGuard {
                name: name.to_owned(),
                path,
                root: self.store_dir.as_str().to_owned(),
                dirs,
                store_real: String::new(),
                stage: GuardStage::Store,
            },
        )
    }

    /// Starts the lookup of the recipients that govern entry `name`: the
    /// ids in the nearest `.gpg-id` at or above its directory, up to the
    /// store root.
    pub fn recipients_for(&self, name: &str) -> (l: IdLookup)
        ensures
            l.dirs() == dirs_up_to_root(self.root(), name@),
            l.entry_dir() == parent_text(self.entry_file_path(name@)),
            l.position() == 0,
            l.well_formed(),
    {
        IdLookup {
            dirs: dirs_to_root(self.store_dir.as_str(), name),
            entry_dir: self.entry_dir(name),
            next: 0,
        }
    }
}

/// Where the symlink guard of an entry stands.
#[derive(PartialEq, Eq, Structural, Clone, Copy)]
pub enum GuardStage {
    /// Resolving the store root.
    Store,
    /// Asking whether the directory at this position exists.
    Probe(usize),
    /// Resolving the nearest existing directory, at this position.
    Ancestor(usize),
    /// Asking whether the entry file is a symlink.
    Link,
    /// Resolving the symlink's target.
    LinkTarget,
    /// Done.
    Finished,
}

/// A filesystem question the symlink guard needs answered.
#[derive(Debug)]
pub enum GuardQuery {
    /// Resolve this path (`Path::canonicalize`).
    Resolve(String),
    /// Does this path exist?
    Exists(String),
    /// Is this path a symlink?
    IsSymlink(String),
}

/// The symlink guard of an entry: resolve the deepest existing directory
/// above the entry file and require it to lie inside the resolved store
/// root; if the entry file is a symlink, require its target to lie inside
/// too. When the store root cannot be resolved, the guard lets the path
/// through.
pub struct EntryGuard {
    name: String,
    path: String,
    root: String,
    dirs: Vec<String>,
    store_real: String,
    stage: GuardStage,
}

impl EntryGuard {
    pub closed spec fn stage(&self) -> GuardStage {
        self.stage
    }

    pub closed spec fn name(&self) -> Seq<char> {
        self.name@
    }

    pub closed spec fn path(&self) -> Seq<char> {
        self.path@
    }

    pub closed spec fn root(&self) -> Seq<char> {
        self.root@
    }

    pub closed spec fn dirs(&self) -> Seq<Seq<char>> {
        views(self.dirs@)
    }

    /// The resolved store root, once the guard has it.
    pub closed spec fn store_real(&self) -> Seq<char> {
        self.store_real@
    }

    /// The stage after probing the directory at position `i` and finding
    /// it absent: the next one, or the store root itself, which is never
    /// probed.
    pub open spec fn after_probe(&self, i: int) -> GuardStage {
        if i + 1 < self.dirs().len() - 1 {
            GuardStage::Probe((i + 1) as usize)
        } else {
            GuardStage::Ancestor((self.dirs().len() - 1) as usize)
        }
    }

    /// The stage once the store root is resolved.
    pub open spec fn first_probe(&self) -> GuardStage {
        if self.dirs().len() > 1 {
            GuardStage::Probe(0)
        } else {
            GuardStage::Ancestor(0)
        }
    }

    pub open spec fn well_formed(&self) -> bool {
        &&& self.dirs().len() > 0
        &&& self.dirs().last() == self.root()
        &&& match self.stage() {
            GuardStage::Probe(i) => i + 1 < self.dirs().len(),
            GuardStage::Ancestor(i) => i < self.dirs().len(),
            _ => true,
        }
    }

    /// Whether the guard has reached its verdict.
    pub fn is_finished(&self) -> (r: bool)
        ensures
            r == (self.stage() == GuardStage::Finished),
    {
        self.stage == GuardStage::Finished
    }

    /// The question to answer next.
    pub fn query(&self) -> (q: GuardQuery)
        requires
            self.well_formed(),
            self.stage() != GuardStage::Finished,
        ensures
            match self.stage() {
                GuardStage::Store => q matches GuardQuery::Resolve(p) && p@ == self.root(),
                GuardStage::Probe(i) => q matches GuardQuery::Exists(p) && p@ == self.dirs()[i as int],
                GuardStage::Ancestor(i) => q matches GuardQuery::Resolve(p) && p@ == self.dirs()[i as int],
                GuardStage::Link => q matches GuardQuery::IsSymlink(p) && p@ == self.path(),
                GuardStage::LinkTarget => q matches GuardQuery::Resolve(p) && p@ == self.path(),
                GuardStage::Finished => false,
            },
    {
        match self.stage {
            GuardStage::Store => GuardQuery::Resolve(self.root.as_str().to_owned()),
            GuardStage::Probe(i) => GuardQuery::Exists(self.dirs[i].as_str().to_owned()),
            GuardStage::Ancestor(i) => GuardQuery::Resolve(self.dirs[i].as_str().to_owned()),
            GuardStage::Link => GuardQuery::IsSymlink(self.path.as_str().to_owned()),
            GuardStage::LinkTarget => GuardQuery::Resolve(self.path.as_str().to_owned()),
            GuardStage::Finished => GuardQuery::Exists(self.path.as_str().to_owned()),
        }
    }

    /// Takes the answer to a `Resolve` question. Returns the verdict once
    /// there is one: the entry path, or why it is refused.
    pub fn on_resolved(&mut self, resolved: Result<String, IoFailure>) -> (verdict: Option<
        Result<String, Error>,
    >)
        requires
            old(self).well_formed(),
            old(self).stage() is Store || old(self).stage() is Ancestor || old(self).stage() is LinkTarget,
        ensures
            final(self).well_formed(),
            final(self).name() == old(self).name(),
            final(self).path() == old(self).path(),
            final(self).root() == old(self).root(),
            final(self).dirs() == old(self).dirs(),
            verdict is Some <==> final(self).stage() == GuardStage::Finished,
            old(self).stage() == GuardStage::Store ==> match resolved {
                Ok(canon) => verdict is None && final(self).store_real() == canon@
                    && final(self).stage() == old(self).first_probe(),
                Err(_) => verdict matches Some(Ok(p)) && p@ == old(self).path(),
            },
            old(self).stage() is Ancestor ==> final(self).store_real()
                == old(self).store_real() && match resolved {
                Ok(canon) => if path_starts_with(canon@, old(self).store_real()) {
                    verdict is None && final(self).stage() == GuardStage::Link
                } else {
                    verdict matches Some(Err(Error::SneakyPath(n))) && n@ == old(self).name()
                },
                Err(f) => verdict == Some(Err::<String, Error>(Error::Io(f))),
            },
            old(self).stage() == GuardStage::LinkTarget ==> match resolved {
                Ok(canon) => if path_starts_with(canon@, old(self).store_real()) {
                    verdict matches Some(Ok(p)) && p@ == old(self).path()
                } else {
                    verdict matches Some(Err(Error::SneakyPath(n))) && n@ == old(self).name()
                },
                Err(f) => verdict == Some(Err::<String, Error>(Error::Io(f))),
            },
    {
        match self.stage {
            GuardStage::Store => {
                match resolved {
                    Ok(canon) => {
                        self.store_real = canon;
                        self.stage = if self.dirs.len() > 1 {
                            GuardStage::Probe(0)
                        } else {
                            GuardStage::Ancestor(0)
                        };
                        None
                    },
                    Err(_) => {
                        self.stage = GuardStage::Finished;
                        Some(Ok(self.path.as_str().to_owned()))
                    },
                }
            },
            GuardStage::Ancestor(_) => {
                match resolved {
                    Ok(canon) => {
                        if starts_with_path(canon.as_str(), self.store_real.as_str()) {
                            self.stage = GuardStage::Link;
                            None
                        } else {
                            self.stage = GuardStage::Finished;
                            Some(Err(Error::SneakyPath(self.name.as_str().to_owned())))
                        }
                    },
                    Err(f) => {
                        self.stage = GuardStage::Finished;
                        Some(Err(Error::Io(f)))
                    },
                }
            },
            _ => {
                self.stage = GuardStage::Finished;
                match resolved {
                    Ok(canon) => {
                        if starts_with_path(canon.as_str(), self.store_real.as_str()) {
                            Some(Ok(self.path.as_str().to_owned()))
                        } else {
                            Some(Err(Error::SneakyPath(self.name.as_str().to_owned())))
                        }
                    },
                    Err(f) => Some(Err(Error::Io(f))),
                }
            },
        }
    }

    /// Takes the answer to an `Exists` or `IsSymlink` question. Returns the
    /// verdict once there is one.
    pub fn on_flag(&mut self, flag: bool) -> (verdict: Option<Result<String, Error>>)
        requires
            old(self).well_formed(),
            old(self).stage() is Probe || old(self).stage() is Link,
        ensures
            final(self).well_formed(),
            final(self).name() == old(self).name(),
            final(self).path() == old(self).path(),
            final(self).root() == old(self).root(),
            final(self).dirs() == old(self).dirs(),
            final(self).store_real() == old(self).store_real(),
            verdict is Some <==> final(self).stage() == GuardStage::Finished,
            old(self).stage() matches GuardStage::Probe(i) ==> verdict is None && if flag {
                final(self).stage() == GuardStage::Ancestor(i)
            } else {
                final(self).stage() == old(self).after_probe(i as int)
            },
            old(self).stage() == GuardStage::Link ==> if flag {
                verdict is None && final(self).stage() == GuardStage::LinkTarget
            } else {
                verdict matches Some(Ok(p)) && p@ == old(self).path()
            },
    {
        match self.stage {
            GuardStage::Probe(i) => {
                assert(self.dirs@.len() == self.dirs().len());
                if flag {
                    self.stage = GuardStage::Ancestor(i);
                } else if i < self.dirs.len() - 2 {
                    self.stage = GuardStage::Probe(i + 1);
                } else {
                    self.stage = GuardStage::Ancestor(self.dirs.len() - 1);
                }
                None
            },
            _ => {
                if flag {
                    self.stage = GuardStage::LinkTarget;
                    None
                } else {
                    self.stage = GuardStage::Finished;
                    Some(Ok(self.path.as_str().to_owned()))
                }
            },
        }
    }
}

/// The lookup of the recipients that govern an entry: the `.gpg-id` files
/// of the directories from the entry's own up to the store root are read
/// in turn, and the first that names recipients decides. A `.gpg-id` that
/// exists but cannot be read stops the lookup with an `Io` error, never a
/// fall-back to the parent's recipients.
pub struct IdLookup {
    dirs: Vec<String>,
    entry_dir: String,
    next: usize,
}

/// The path of the `.gpg-id` file in `dir`.
pub open spec fn gpg_id_file(dir: Seq<char>) -> Seq<char> {
    join(dir, ".gpg-id"@)
}

impl IdLookup {
    pub closed spec fn dirs(&self) -> Seq<Seq<char>> {
        views(self.dirs@)
    }

    pub closed spec fn entry_dir(&self) -> Seq<char> {
        self.entry_dir@
    }

    /// The position of the directory whose `.gpg-id` is read next.
    pub closed spec fn position(&self) -> int {
        self.next as int
    }

    pub open spec fn well_formed(&self) -> bool {
        0 <= self.position() < self.dirs().len()
    }

    /// The `.gpg-id` file to read next.
    pub fn next_file(&self) -> (p: String)
        requires
            self.well_formed(),
        ensures
            p@ == gpg_id_file(self.dirs()[self.position()]),
    {
        join_path(self.dirs[self.next].as_str(), ".gpg-id")
    }

    /// Takes the result of reading the next `.gpg-id` file (its text, or
    /// the failure). Returns the outcome once the lookup is decided.
    pub fn on_read(&mut self, read: Result<String, IoFailure>) -> (outcome: Option<
        Result<Vec<String>, Error>,
    >)
        requires
            old(self).well_formed(),
        ensures
            final(self).dirs() == old(self).dirs(),
            final(self).entry_dir() == old(self).entry_dir(),
            outcome is None ==> final(self).well_formed() && final(self).position()
                == old(self).position() + 1,
            match read {
                Ok(text) => if gpg_ids_in(text@).len() > 0 {
                    outcome matches Some(Ok(ids)) && views(ids@) == gpg_ids_in(text@)
                } else if old(self).position() + 1 < old(self).dirs().len() {
                    outcome is None
                } else {
                    outcome matches Some(Err(Error::NotInitialized(d))) && d@
                        == old(self).entry_dir()
                },
                Err(f) => if f.not_found {
                    if old(self).position() + 1 < old(self).dirs().len() {
                        outcome is None
                    } else {
                        outcome matches Some(Err(Error::NotInitialized(d))) && d@
                            == old(self).entry_dir()
                    }
                } else {
                    outcome == Some(Err::<Vec<String>, Error>(Error::Io(f)))
                },
            },
    {
        match declared_ids(read) {
            Err(e) => Some(Err(e)),
            Ok(Some(ids)) => Some(Ok(ids)),
            Ok(None) => {
                assert(self.dirs@.len() == self.dirs().len());
                if self.next < self.dirs.len() - 1 {
                    self.next = self.next + 1;
                    None
                } else {
                    Some(Err(Error::NotInitialized(self.entry_dir.as_str().to_owned())))
                }
            },
        }
    }
}

} // verus!
