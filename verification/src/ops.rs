//! Store operations as sequences of outside work and decisions: each
//! operation names the next piece of work (an [`Action`]: a file read, a
//! GnuPG call, a sub-operation), takes its result (a [`Reply`]), and decides
//! what comes next, until it has its outcome.

use vstd::prelude::*;
use vstd::utf8::{decode_utf8, valid_utf8};

use crate::error::{entry_access_error, key_lookup_error, Error, GpgFailure, IoFailure, Utf8Failure, GPG_ERR_EOF};
use crate::paths::{components, parent_text, same_path};
use crate::secret::{entry_text, password_from, wipe_bytes, wipe_text};
use crate::store::PasswordStore;
use crate::text::{first_line_of, views};

verus! {

/// A piece of outside work an operation needs done.
#[derive(Debug)]
pub enum Action {
    /// Open a GnuPG context (OpenPGP, with the store's GnuPG home if one is
    /// set). Keys found later belong to this context. Answer: `Opened`.
    OpenContext,
    /// Resolve an entry name to its file through the symlink guard
    /// ([`PasswordStore::guard`]). Answer: `Entry`.
    ResolveEntry(String),
    /// Look up the recipients that govern an entry
    /// ([`PasswordStore::recipients_for`]). Answer: `Recipients`.
    LookupRecipients(String),
    /// Read a whole file. Answer: `Bytes`.
    ReadFile(String),
    /// Decrypt these bytes. Answer: `Plain`.
    Decrypt(Vec<u8>),
    /// Find the key for this id and add it to the keys of the current
    /// context. Answer: `Key`.
    FindKey(String),
    /// Encrypt these bytes to the keys found in the current context.
    /// Answer: `Cipher`.
    Encrypt(Vec<u8>),
    /// Write an entry file atomically: create the directory, write a
    /// private temporary file in it, and rename it over the path.
    /// Answer: `Done`.
    WriteEntry(String, String, Vec<u8>),
    /// Is this path a regular file? Answer: `Flag`.
    IsFile(String),
    /// Delete a file. Answer: `Done`.
    RemoveFile(String),
    /// Delete a file, whatever the result. Answer: `Done`.
    DiscardFile(String),
    /// Create a directory and its parents. Answer: `Done`.
    CreateDir(String),
    /// Rename a file. Answer: `Done`.
    MoveFile(String, String),
    /// Read a text file. Answer: `Text`.
    ReadText(String),
    /// Create the store directory and make it private (mode 0o700).
    /// Answer: `Done`.
    PrepareStoreDir(String),
    /// Write a text file. Answer: `Done`.
    WriteText(String, String),
    /// Walk the entries the root `.gpg-id` governs
    /// ([`PasswordStore::governed_walk`]). Answer: `Entries`.
    GovernedEntries,
    /// Decrypt an entry in the current context ([`PasswordStore::decrypt`]).
    /// Answer: `Plain` from the sub-operation: `Revealed`.
    RunDecrypt(String),
    /// Insert an entry in the current context
    /// ([`PasswordStore::insert_in_context`]). Answer: `Outcome`.
    RunInsert(String, Vec<u8>),
    /// Copy an entry ([`PasswordStore::copy`]). Answer: `Outcome`.
    RunCopy(String, String),
    /// Remove an entry ([`PasswordStore::remove`]). Answer: `Outcome`.
    RunRemove(String),
}

/// The result of a piece of outside work.
#[derive(Debug)]
pub enum Reply {
    Opened(Result<(), GpgFailure>),
    Entry(Result<String, Error>),
    Recipients(Result<Vec<String>, Error>),
    Bytes(Result<Vec<u8>, IoFailure>),
    Plain(Result<Vec<u8>, GpgFailure>),
    Key(Result<(), GpgFailure>),
    Cipher(Result<Vec<u8>, GpgFailure>),
    Done(Result<(), IoFailure>),
    Flag(bool),
    Text(Result<String, IoFailure>),
    Entries(Result<Vec<String>, Error>),
    Revealed(Result<Vec<u8>, Error>),
    Outcome(Result<(), Error>),
}

/// A copy of a byte vector.
fn copy_bytes(v: &Vec<u8>) -> (c: Vec<u8>)
    ensures
        c@ == v@,
{
    vstd::slice::slice_to_vec(v.as_slice())
}

// ----------------------------------------------------------------------
// Decrypting an entry.

/// Where the decryption of an entry stands.
pub enum DecryptStage {
    /// Resolving the entry's file.
    Entry,
    /// Reading the file at this path.
    Read(String),
    /// Decrypting these bytes.
    Decrypt(Vec<u8>),
    Finished,
}

/// The decryption of an entry (in a GnuPG context already open): resolve
/// its file, read it (an absent file is `NotFound`), and decrypt it.
pub struct DecryptEntry {
    name: String,
    stage: DecryptStage,
}

impl DecryptEntry {
    pub closed spec fn name(&self) -> Seq<char> {
        self.name@
    }

    pub closed spec fn stage(&self) -> DecryptStage {
        self.stage
    }

    /// Whether `r` answers the current action.
    pub open spec fn expects(&self, r: Reply) -> bool {
        match self.stage() {
            DecryptStage::Entry => r is Entry,
            DecryptStage::Read(_) => r is Bytes,
            DecryptStage::Decrypt(_) => r is Plain,
            DecryptStage::Finished => false,
        }
    }

    /// Whether `r` answers the current action.
    pub fn accepts(&self, r: &Reply) -> (b: bool)
        ensures
            b == self.expects(*r),
    {
        match (&self.stage, r) {
            (DecryptStage::Entry, Reply::Entry(_)) => true,
            (DecryptStage::Read(_), Reply::Bytes(_)) => true,
            (DecryptStage::Decrypt(_), Reply::Plain(_)) => true,
            _ => false,
        }
    }

    /// The next action.
    pub fn action(&self) -> (a: Action)
        requires
            !(self.stage() is Finished),
        ensures
            match self.stage() {
                DecryptStage::Entry => a matches Action::ResolveEntry(n) && n@ == self.name(),
                DecryptStage::Read(p) => a matches Action::ReadFile(q) && q == p,
                DecryptStage::Decrypt(c) => a matches Action::Decrypt(d) && d@ == c@,
                DecryptStage::Finished => false,
            },
    {
        match &self.stage {
            DecryptStage::Entry => Action::ResolveEntry(self.name.clone()),
            DecryptStage::Read(p) => Action::ReadFile(p.clone()),
            DecryptStage::Decrypt(c) => Action::Decrypt(copy_bytes(c)),
            DecryptStage::Finished => Action::OpenContext,
        }
    }

    /// Takes the result of the current action; returns the outcome once
    /// there is one: the plaintext, or why there is none.
    pub fn resume(&mut self, reply: Reply) -> (out: Option<Result<Vec<u8>, Error>>)
        requires
            old(self).expects(reply),
        ensures
            final(self).name() == old(self).name(),
            out is Some <==> final(self).stage() is Finished,
            match old(self).stage() {
                DecryptStage::Entry => match reply {
                    Reply::Entry(Ok(p)) => final(self).stage() == DecryptStage::Read(p),
                    Reply::Entry(Err(e)) => out == Some(Err::<Vec<u8>, Error>(e)),
                    _ => false,
                },
                DecryptStage::Read(_) => match reply {
                    Reply::Bytes(Ok(c)) => final(self).stage() == DecryptStage::Decrypt(c),
                    Reply::Bytes(Err(f)) => if f.not_found {
                        out matches Some(Err(Error::NotFound(n))) && n@ == old(self).name()
                    } else {
                        out == Some(Err::<Vec<u8>, Error>(Error::Io(f)))
                    },
                    _ => false,
                },
                DecryptStage::Decrypt(_) => match reply {
                    Reply::Plain(Ok(p)) => out == Some(Ok::<Vec<u8>, Error>(p)),
                    Reply::Plain(Err(g)) => out == Some(Err::<Vec<u8>, Error>(Error::Gpg(g))),
                    _ => false,
                },
                DecryptStage::Finished => false,
            },
    {
        match reply {
            Reply::Entry(Ok(p)) => {
                self.stage = DecryptStage::Read(p);
                None
            },
            Reply::Entry(Err(e)) => {
                self.stage = DecryptStage::Finished;
                Some(Err(e))
            },
            Reply::Bytes(Ok(c)) => {
                self.stage = DecryptStage::Decrypt(c);
                None
            },
            Reply::Bytes(Err(f)) => {
                self.stage = DecryptStage::Finished;
                Some(Err(entry_access_error(self.name.as_str(), f)))
            },
            Reply::Plain(Ok(p)) => {
                self.stage = DecryptStage::Finished;
                Some(Ok(p))
            },
            Reply::Plain(Err(g)) => {
                self.stage = DecryptStage::Finished;
                Some(Err(Error::Gpg(g)))
            },
            _ => None,
        }
    }
}

// ----------------------------------------------------------------------
// Showing an entry.

/// What of an entry's contents is shown.
#[derive(PartialEq, Eq, Structural, Clone, Copy)]
pub enum Shown {
    /// All of it.
    Contents,
    /// Its first line, the password.
    Password,
}

/// The text that is shown of `contents`.
pub open spec fn shown_text(what: Shown, contents: Seq<char>) -> Seq<char> {
    match what {
        Shown::Contents => contents,
        Shown::Password => first_line_of(contents),
    }
}

/// Where showing an entry stands.
pub enum ShowStage {
    Context,
    Decrypt,
    Finished,
}

/// Showing an entry: open a GnuPG context, decrypt the entry, and read its
/// plaintext as UTF-8 text (all of it, or its first line).
pub struct Show {
    name: String,
    what: Shown,
    stage: ShowStage,
}

impl Show {
    pub closed spec fn name(&self) -> Seq<char> {
        self.name@
    }

    pub closed spec fn what(&self) -> Shown {
        self.what
    }

    pub closed spec fn stage(&self) -> ShowStage {
        self.stage
    }

    pub open spec fn expects(&self, r: Reply) -> bool {
        match self.stage() {
            ShowStage::Context => r is Opened,
            ShowStage::Decrypt => r is Revealed,
            ShowStage::Finished => false,
        }
    }

    pub fn accepts(&self, r: &Reply) -> (b: bool)
        ensures
            b == self.expects(*r),
    {
        match (&self.stage, r) {
            (ShowStage::Context, Reply::Opened(_)) => true,
            (ShowStage::Decrypt, Reply::Revealed(_)) => true,
            _ => false,
        }
    }

    pub fn action(&self) -> (a: Action)
        requires
            !(self.stage() is Finished),
        ensures
            self.stage() is Context ==> a is OpenContext,
            self.stage() is Decrypt ==> (a matches Action::RunDecrypt(n) && n@ == self.name()),
    {
        match self.stage {
            ShowStage::Context => Action::OpenContext,
            _ => Action::RunDecrypt(self.name.clone()),
        }
    }

    /// Takes the result of the current action; returns the outcome once
    /// there is one: the text shown, or why there is none.
    pub fn resume(&mut self, reply: Reply) -> (out: Option<Result<String, Error>>)
        requires
            old(self).expects(reply),
        ensures
            final(self).name() == old(self).name(),
            final(self).what() == old(self).what(),
            out is Some <==> final(self).stage() is Finished,
            old(self).stage() is Context ==> match reply {
                Reply::Opened(Ok(())) => final(self).stage() is Decrypt,
                Reply::Opened(Err(g)) => out == Some(Err::<String, Error>(Error::Gpg(g))),
                _ => false,
            },
            old(self).stage() is Decrypt ==> match reply {
                Reply::Revealed(Ok(p)) => if valid_utf8(p@) {
                    out matches Some(Ok(t)) && t@ == shown_text(
                        old(self).what(),
                        decode_utf8(p@),
                    )
                } else {
                    out matches Some(Err(Error::Utf8(f))) && crate::secret::utf8_failure_of(f, p@)
                },
                Reply::Revealed(Err(e)) => out == Some(Err::<String, Error>(e)),
                _ => false,
            },
    {
        match reply {
            Reply::Opened(Ok(())) => {
                self.stage = ShowStage::Decrypt;
                None
            },
            Reply::Opened(Err(g)) => {
                self.stage = ShowStage::Finished;
                Some(Err(Error::Gpg(g)))
            },
            Reply::Revealed(Ok(p)) => {
                self.stage = ShowStage::Finished;
                match entry_text(p) {
                    Ok(t) => match self.what {
                        Shown::Contents => Some(Ok(t)),
                        Shown::Password => Some(Ok(password_from(t))),
                    },
                    Err(e) => Some(Err(e)),
                }
            },
            Reply::Revealed(Err(e)) => {
                self.stage = ShowStage::Finished;
                Some(Err(e))
            },
            _ => None,
        }
    }
}

impl PasswordStore {
    /// Decrypts an entry in a GnuPG context that is already open.
    pub fn decrypt(&self, name: &str) -> (d: DecryptEntry)
        ensures
            d.name() == name@,
            d.stage() is Entry,
    {
        DecryptEntry { name: name.to_owned(), stage: DecryptStage::Entry }
    }

    /// Decrypts an entry and returns its full contents.
    pub fn show(&self, name: &str) -> (s: Show)
        ensures
            s.name() == name@,
            s.what() == Shown::Contents,
            s.stage() is Context,
    {
        Show { name: name.to_owned(), what: Shown::Contents, stage: ShowStage::Context }
    }

    /// Decrypts an entry and returns only its first line, the password.
    pub fn password(&self, name: &str) -> (s: Show)
        ensures
            s.name() == name@,
            s.what() == Shown::Password,
            s.stage() is Context,
    {
        Show { name: name.to_owned(), what: Shown::Password, stage: ShowStage::Context }
    }
}

/// What showing an entry gives back of what inserting it stored: the
/// plaintext that an insertion of `contents` encrypts
/// ([`PasswordStore::insert`]), once decryption gives it back unchanged, is
/// valid UTF-8, and showing it ([`Show::resume`]) gives `contents` exactly;
/// asking for the password gives its first line.
pub proof fn lemma_show_returns_inserted(contents: Seq<char>)
    ensures
        valid_utf8(vstd::utf8::encode_utf8(contents)),
        shown_text(Shown::Contents, decode_utf8(vstd::utf8::encode_utf8(contents))) == contents,
        shown_text(Shown::Password, decode_utf8(vstd::utf8::encode_utf8(contents)))
            == first_line_of(contents),
{
    vstd::utf8::encode_utf8_valid_utf8(contents);
    vstd::utf8::encode_utf8_decode_utf8(contents);
}

/// Asking for an entry's password gives what showing it gives, cut to its
/// first line: for the same decrypted plaintext `p`, the text shown is the
/// first line of the full contents, and when `p` is not UTF-8 the two
/// `Utf8` errors ([`Show::resume`]) agree in `valid_up_to` and message.
pub proof fn lemma_password_agrees_with_show(p: Seq<u8>, f: Utf8Failure, g: Utf8Failure)
    requires
        crate::secret::utf8_failure_of(f, p),
        crate::secret::utf8_failure_of(g, p),
    ensures
        shown_text(Shown::Password, decode_utf8(p)) == first_line_of(
            shown_text(Shown::Contents, decode_utf8(p)),
        ),
        f.valid_up_to == g.valid_up_to,
        f.message@ == g.message@,
{
    if f.valid_up_to < g.valid_up_to {
        assert(!valid_utf8(p.take(g.valid_up_to as int)));
    }
    if g.valid_up_to < f.valid_up_to {
        assert(!valid_utf8(p.take(f.valid_up_to as int)));
    }
}

// ----------------------------------------------------------------------
// Inserting an entry.

/// Where an insertion stands.
pub enum InsertStage {
    /// Opening a GnuPG context.
    Context,
    /// Resolving the entry's file.
    Entry,
    /// Looking up the recipients, for the file at this path.
    Lookup(String),
    /// Finding the key of recipient `i` among these ids.
    Keys(String, Vec<String>, usize),
    /// Encrypting the contents.
    Encrypt(String),
    /// Writing these encrypted bytes to the file.
    Write(String, Vec<u8>),
    Finished,
}

/// Creating or overwriting an entry: resolve its file, look up the
/// recipients that govern it, find the key of every one of them (a missing
/// one fails the insertion before anything is written), encrypt the
/// contents to those keys, and write the file atomically. The plaintext is
/// wiped once it is encrypted, or once the insertion fails.
pub struct Insert {
    name: String,
    dir: String,
    data: Vec<u8>,
    stage: InsertStage,
}

impl Insert {
    pub closed spec fn name(&self) -> Seq<char> {
        self.name@
    }

    /// The directory that holds the entry's file.
    pub closed spec fn dir(&self) -> Seq<char> {
        self.dir@
    }

    /// The plaintext to store.
    pub closed spec fn data(&self) -> Seq<u8> {
        self.data@
    }

    pub closed spec fn stage(&self) -> InsertStage {
        self.stage
    }

    pub open spec fn well_formed(&self) -> bool {
        self.stage() matches InsertStage::Keys(_, ids, i) ==> i < ids.len()
    }

    pub open spec fn expects(&self, r: Reply) -> bool {
        match self.stage() {
            InsertStage::Context => r is Opened,
            InsertStage::Entry => r is Entry,
            InsertStage::Lookup(_) => r is Recipients,
            InsertStage::Keys(_, _, _) => r is Key,
            InsertStage::Encrypt(_) => r is Cipher,
            InsertStage::Write(_, _) => r is Done,
            InsertStage::Finished => false,
        }
    }

    pub fn accepts(&self, r: &Reply) -> (b: bool)
        ensures
            b == self.expects(*r),
    {
        match (&self.stage, r) {
            (InsertStage::Context, Reply::Opened(_)) => true,
            (InsertStage::Entry, Reply::Entry(_)) => true,
            (InsertStage::Lookup(_), Reply::Recipients(_)) => true,
            (InsertStage::Keys(_, _, _), Reply::Key(_)) => true,
            (InsertStage::Encrypt(_), Reply::Cipher(_)) => true,
            (InsertStage::Write(_, _), Reply::Done(_)) => true,
            _ => false,
        }
    }

    pub fn action(&self) -> (a: Action)
        requires
            self.well_formed(),
            !(self.stage() is Finished),
        ensures
            match self.stage() {
                InsertStage::Context => a is OpenContext,
                InsertStage::Entry => a matches Action::ResolveEntry(n) && n@ == self.name(),
                InsertStage::Lookup(_) => a matches Action::LookupRecipients(n) && n@ == self.name(),
                InsertStage::Keys(_, ids, i) => a matches Action::FindKey(id) && id == ids@[i as int],
                InsertStage::Encrypt(_) => a matches Action::Encrypt(d) && d@ == self.data(),
                InsertStage::Write(p, c) => a matches Action::WriteEntry(d, q, e) && d@ == self.dir()
                    && q == p && e@ == c@,
                InsertStage::Finished => false,
            },
    {
        match &self.stage {
            InsertStage::Context => Action::OpenContext,
            InsertStage::Entry => Action::ResolveEntry(self.name.clone()),
            InsertStage::Lookup(_) => Action::LookupRecipients(self.name.clone()),
            InsertStage::Keys(_, ids, i) => Action::FindKey(ids[*i].clone()),
            InsertStage::Encrypt(_) => Action::Encrypt(copy_bytes(&self.data)),
            InsertStage::Write(p, c) => Action::WriteEntry(self.dir.clone(), p.clone(), copy_bytes(c)),
            InsertStage::Finished => Action::OpenContext,
        }
    }

    /// Takes the result of the current action; returns the outcome once
    /// there is one.
    pub fn resume(&mut self, reply: Reply) -> (out: Option<Result<(), Error>>)
        requires
            old(self).well_formed(),
            old(self).expects(reply),
        ensures
            final(self).well_formed(),
            final(self).name() == old(self).name(),
            final(self).dir() == old(self).dir(),
            out is Some <==> final(self).stage() is Finished,
            out is Some || final(self).stage() is Write ==> final(self).data()
                == Seq::<u8>::empty(),
            !(out is Some || final(self).stage() is Write) ==> final(self).data() == old(
                self,
            ).data(),
            match old(self).stage() {
                InsertStage::Context => match reply {
                    Reply::Opened(Ok(())) => final(self).stage() is Entry,
                    Reply::Opened(Err(g)) => out == Some(Err::<(), Error>(Error::Gpg(g))),
                    _ => false,
                },
                InsertStage::Entry => match reply {
                    Reply::Entry(Ok(p)) => final(self).stage() == InsertStage::Lookup(p),
                    Reply::Entry(Err(e)) => out == Some(Err::<(), Error>(e)),
                    _ => false,
                },
                InsertStage::Lookup(p) => match reply {
                    Reply::Recipients(Ok(ids)) => if ids.len() == 0 {
                        final(self).stage() == InsertStage::Encrypt(p)
                    } else {
                        final(self).stage() == InsertStage::Keys(p, ids, 0)
                    },
                    Reply::Recipients(Err(e)) => out == Some(Err::<(), Error>(e)),
                    _ => false,
                },
                InsertStage::Keys(p, ids, i) => match reply {
                    Reply::Key(Ok(())) => if i + 1 < ids.len() {
                        final(self).stage() == InsertStage::Keys(p, ids, (i + 1) as usize)
                    } else {
                        final(self).stage() == InsertStage::Encrypt(p)
                    },
                    Reply::Key(Err(g)) => if g.code == GPG_ERR_EOF {
                        out matches Some(Err(Error::KeyNotFound(id))) && id@ == ids@[i as int]@
                    } else {
                        out == Some(Err::<(), Error>(Error::Gpg(g)))
                    },
                    _ => false,
                },
                InsertStage::Encrypt(p) => match reply {
                    Reply::Cipher(Ok(c)) => final(self).stage() == InsertStage::Write(p, c),
                    Reply::Cipher(Err(g)) => out == Some(Err::<(), Error>(Error::Gpg(g))),
                    _ => false,
                },
                InsertStage::Write(_, _) => match reply {
                    Reply::Done(Ok(())) => out == Some(Ok::<(), Error>(())),
                    Reply::Done(Err(f)) => out == Some(Err::<(), Error>(Error::Io(f))),
                    _ => false,
                },
                InsertStage::Finished => false,
            },
    {
        let mut stage = InsertStage::Finished;
        std::mem::swap(&mut stage, &mut self.stage);
        let out = match (stage, reply) {
            (InsertStage::Context, Reply::Opened(Ok(()))) => {
                self.stage = InsertStage::Entry;
                None
            },
            (InsertStage::Entry, Reply::Entry(Ok(p))) => {
                self.stage = InsertStage::Lookup(p);
                None
            },
            (InsertStage::Lookup(p), Reply::Recipients(Ok(ids))) => {
                if ids.len() == 0 {
                    self.stage = InsertStage::Encrypt(p);
                } else {
                    self.stage = InsertStage::Keys(p, ids, 0);
                }
                None
            },
            (InsertStage::Keys(p, ids, i), Reply::Key(Ok(()))) => {
                if i + 1 < ids.len() {
                    self.stage = InsertStage::Keys(p, ids, i + 1);
                } else {
                    self.stage = InsertStage::Encrypt(p);
                }
                None
            },
            (InsertStage::Keys(_, ids, i), Reply::Key(Err(g))) => Some(
                Err(key_lookup_error(ids[i].as_str(), g)),
            ),
            (InsertStage::Encrypt(p), Reply::Cipher(Ok(c))) => {
                self.stage = InsertStage::Write(p, c);
                None
            },
            (_, Reply::Opened(Err(g))) => Some(Err(Error::Gpg(g))),
            (_, Reply::Entry(Err(e))) => Some(Err(e)),
            (_, Reply::Recipients(Err(e))) => Some(Err(e)),
            (_, Reply::Cipher(Err(g))) => Some(Err(Error::Gpg(g))),
            (_, Reply::Done(Ok(()))) => Some(Ok(())),
            (_, Reply::Done(Err(f))) => Some(Err(Error::Io(f))),
            _ => None,
        };
        if out.is_some() || matches!(self.stage, InsertStage::Write(_, _)) {
            wipe_bytes(&mut self.data);
        }
        out
    }
}

// ----------------------------------------------------------------------
// Removing an entry, and whether one exists.

/// Where a removal stands.
pub enum RemoveStage {
    Entry,
    Remove(String),
    Finished,
}

/// Deleting an entry: resolve its file and delete it (an absent file is
/// `NotFound`).
pub struct Remove {
    name: String,
    stage: RemoveStage,
}

impl Remove {
    pub closed spec fn name(&self) -> Seq<char> {
        self.name@
    }

    pub closed spec fn stage(&self) -> RemoveStage {
        self.stage
    }

    pub open spec fn expects(&self, r: Reply) -> bool {
        match self.stage() {
            RemoveStage::Entry => r is Entry,
            RemoveStage::Remove(_) => r is Done,
            RemoveStage::Finished => false,
        }
    }

    pub fn accepts(&self, r: &Reply) -> (b: bool)
        ensures
            b == self.expects(*r),
    {
        match (&self.stage, r) {
            (RemoveStage::Entry, Reply::Entry(_)) => true,
            (RemoveStage::Remove(_), Reply::Done(_)) => true,
            _ => false,
        }
    }

    pub fn action(&self) -> (a: Action)
        requires
            !(self.stage() is Finished),
        ensures
            self.stage() is Entry ==> (a matches Action::ResolveEntry(n) && n@ == self.name()),
            self.stage() matches RemoveStage::Remove(p) ==> (a matches Action::RemoveFile(q) && q == p),
    {
        match &self.stage {
            RemoveStage::Remove(p) => Action::RemoveFile(p.clone()),
            _ => Action::ResolveEntry(self.name.clone()),
        }
    }

    pub fn resume(&mut self, reply: Reply) -> (out: Option<Result<(), Error>>)
        requires
            old(self).expects(reply),
        ensures
            final(self).name() == old(self).name(),
            out is Some <==> final(self).stage() is Finished,
            old(self).stage() is Entry ==> match reply {
                Reply::Entry(Ok(p)) => final(self).stage() == RemoveStage::Remove(p),
                Reply::Entry(Err(e)) => out == Some(Err::<(), Error>(e)),
                _ => false,
            },
            old(self).stage() is Remove ==> match reply {
                Reply::Done(Ok(())) => out == Some(Ok::<(), Error>(())),
                Reply::Done(Err(f)) => if f.not_found {
                    out matches Some(Err(Error::NotFound(n))) && n@ == old(self).name()
                } else {
                    out == Some(Err::<(), Error>(Error::Io(f)))
                },
                _ => false,
            },
    {
        match reply {
            Reply::Entry(Ok(p)) => {
                self.stage = RemoveStage::Remove(p);
                None
            },
            Reply::Entry(Err(e)) => {
                self.stage = RemoveStage::Finished;
                Some(Err(e))
            },
            Reply::Done(Ok(())) => {
                self.stage = RemoveStage::Finished;
                Some(Ok(()))
            },
            Reply::Done(Err(f)) => {
                self.stage = RemoveStage::Finished;
                Some(Err(entry_access_error(self.name.as_str(), f)))
            },
            _ => None,
        }
    }
}

/// Where an existence check stands.
pub enum ExistsStage {
    Entry,
    Check(String),
    Finished,
}

/// Whether an entry exists: its name resolves to a file (through the
/// symlink guard) and that file is a regular file. Names that are refused,
/// and entries that cannot be inspected, count as absent.
pub struct Exists {
    name: String,
    stage: ExistsStage,
}

impl Exists {
    pub closed spec fn name(&self) -> Seq<char> {
        self.name@
    }

    pub closed spec fn stage(&self) -> ExistsStage {
        self.stage
    }

    pub open spec fn expects(&self, r: Reply) -> bool {
        match self.stage() {
            ExistsStage::Entry => r is Entry,
            ExistsStage::Check(_) => r is Flag,
            ExistsStage::Finished => false,
        }
    }

    pub fn accepts(&self, r: &Reply) -> (b: bool)
        ensures
            b == self.expects(*r),
    {
        match (&self.stage, r) {
            (ExistsStage::Entry, Reply::Entry(_)) => true,
            (ExistsStage::Check(_), Reply::Flag(_)) => true,
            _ => false,
        }
    }

    pub fn action(&self) -> (a: Action)
        requires
            !(self.stage() is Finished),
        ensures
            self.stage() is Entry ==> (a matches Action::ResolveEntry(n) && n@ == self.name()),
            self.stage() matches ExistsStage::Check(p) ==> (a matches Action::IsFile(q) && q == p),
    {
        match &self.stage {
            ExistsStage::Check(p) => Action::IsFile(p.clone()),
            _ => Action::ResolveEntry(self.name.clone()),
        }
    }

    pub fn resume(&mut self, reply: Reply) -> (out: Option<bool>)
        requires
            old(self).expects(reply),
        ensures
            final(self).name() == old(self).name(),
            out is Some <==> final(self).stage() is Finished,
            old(self).stage() is Entry ==> match reply {
                Reply::Entry(Ok(p)) => final(self).stage() == ExistsStage::Check(p),
                Reply::Entry(Err(_)) => out == Some(false),
                _ => false,
            },
            old(self).stage() is Check ==> match reply {
                Reply::Flag(b) => out == Some(b),
                _ => false,
            },
    {
        match reply {
            Reply::Entry(Ok(p)) => {
                self.stage = ExistsStage::Check(p);
                None
            },
            Reply::Flag(b) => {
                self.stage = ExistsStage::Finished;
                Some(b)
            },
            _ => {
                self.stage = ExistsStage::Finished;
                Some(false)
            },
        }
    }
}

impl PasswordStore {
    /// Creates or overwrites an entry, encrypting `contents` to the GPG ids
    /// governing its location (the nearest `.gpg-id` at or above it).
    pub fn insert(&self, name: &str, contents: &str) -> (i: Insert)
        ensures
            i.name() == name@,
            i.dir() == parent_text(self.entry_file_path(name@)),
            i.data() == vstd::utf8::encode_utf8(contents@),
            i.stage() is Context,
            i.well_formed(),
    {
        Insert {
            name: name.to_owned(),
            dir: self.entry_dir(name),
            data: vstd::slice::slice_to_vec(contents.as_bytes()),
            stage: InsertStage::Context,
        }
    }

    /// Creates or overwrites an entry with the plaintext `data`, in a GnuPG
    /// context that is already open.
    pub fn insert_in_context(&self, name: &str, data: Vec<u8>) -> (i: Insert)
        ensures
            i.name() == name@,
            i.dir() == parent_text(self.entry_file_path(name@)),
            i.data() == data@,
            i.stage() is Entry,
            i.well_formed(),
    {
        Insert { name: name.to_owned(), dir: self.entry_dir(name), data, stage: InsertStage::Entry }
    }

    /// Deletes an entry from the store.
    pub fn remove(&self, name: &str) -> (r: Remove)
        ensures
            r.name() == name@,
            r.stage() is Entry,
    {
        Remove { name: name.to_owned(), stage: RemoveStage::Entry }
    }

    /// Whether an entry with this name exists in the store.
    pub fn has_entry(&self, name: &str) -> (e: Exists)
        ensures
            e.name() == name@,
            e.stage() is Entry,
    {
        Exists { name: name.to_owned(), stage: ExistsStage::Entry }
    }
}

// ----------------------------------------------------------------------
// Copying and renaming entries.

/// Where a copy stands.
pub enum CopyStage {
    /// Resolving the source's file.
    From,
    /// Resolving the destination's file; the source's is at this path.
    To(String),
    /// Opening a GnuPG context.
    Context,
    /// Decrypting the source.
    Decrypt,
    /// Inserting these contents at the destination.
    Insert(Vec<u8>),
    Finished,
}

/// Copying an entry, re-encrypted to the recipients governing the
/// destination (like `pass cp`). Copying an entry onto itself (the two
/// names resolve to the same path) does nothing.
pub struct CopyEntry {
    from: String,
    to: String,
    stage: CopyStage,
}

impl CopyEntry {
    pub closed spec fn from(&self) -> Seq<char> {
        self.from@
    }

    pub closed spec fn to(&self) -> Seq<char> {
        self.to@
    }

    pub closed spec fn stage(&self) -> CopyStage {
        self.stage
    }

    pub open spec fn expects(&self, r: Reply) -> bool {
        match self.stage() {
            CopyStage::From => r is Entry,
            CopyStage::To(_) => r is Entry,
            CopyStage::Context => r is Opened,
            CopyStage::Decrypt => r is Revealed,
            CopyStage::Insert(_) => r is Outcome,
            CopyStage::Finished => false,
        }
    }

    pub fn accepts(&self, r: &Reply) -> (b: bool)
        ensures
            b == self.expects(*r),
    {
        match (&self.stage, r) {
            (CopyStage::From, Reply::Entry(_)) => true,
            (CopyStage::To(_), Reply::Entry(_)) => true,
            (CopyStage::Context, Reply::Opened(_)) => true,
            (CopyStage::Decrypt, Reply::Revealed(_)) => true,
            (CopyStage::Insert(_), Reply::Outcome(_)) => true,
            _ => false,
        }
    }

    pub fn action(&self) -> (a: Action)
        requires
            !(self.stage() is Finished),
        ensures
            match self.stage() {
                CopyStage::From => a matches Action::ResolveEntry(n) && n@ == self.from(),
                CopyStage::To(_) => a matches Action::ResolveEntry(n) && n@ == self.to(),
                CopyStage::Context => a is OpenContext,
                CopyStage::Decrypt => a matches Action::RunDecrypt(n) && n@ == self.from(),
                CopyStage::Insert(d) => a matches Action::RunInsert(n, e) && n@ == self.to() && e@
                    == d@,
                CopyStage::Finished => false,
            },
    {
        match &self.stage {
            CopyStage::From => Action::ResolveEntry(self.from.clone()),
            CopyStage::To(_) => Action::ResolveEntry(self.to.clone()),
            CopyStage::Context => Action::OpenContext,
            CopyStage::Decrypt => Action::RunDecrypt(self.from.clone()),
            CopyStage::Insert(d) => Action::RunInsert(self.to.clone(), copy_bytes(d)),
            CopyStage::Finished => Action::OpenContext,
        }
    }

    pub fn resume(&mut self, reply: Reply) -> (out: Option<Result<(), Error>>)
        requires
            old(self).expects(reply),
        ensures
            final(self).from() == old(self).from(),
            final(self).to() == old(self).to(),
            out is Some <==> final(self).stage() is Finished,
            match old(self).stage() {
                CopyStage::From => match reply {
                    Reply::Entry(Ok(p)) => final(self).stage() == CopyStage::To(p),
                    Reply::Entry(Err(e)) => out == Some(Err::<(), Error>(e)),
                    _ => false,
                },
                CopyStage::To(fp) => match reply {
                    Reply::Entry(Ok(tp)) => if components(fp@) == components(tp@) {
                        out == Some(Ok::<(), Error>(()))
                    } else {
                        final(self).stage() is Context
                    },
                    Reply::Entry(Err(e)) => out == Some(Err::<(), Error>(e)),
                    _ => false,
                },
                CopyStage::Context => match reply {
                    Reply::Opened(Ok(())) => final(self).stage() is Decrypt,
                    Reply::Opened(Err(g)) => out == Some(Err::<(), Error>(Error::Gpg(g))),
                    _ => false,
                },
                CopyStage::Decrypt => match reply {
                    Reply::Revealed(Ok(p)) => if valid_utf8(p@) {
                        final(self).stage() matches CopyStage::Insert(d) && d@ == p@
                    } else {
                        out matches Some(Err(Error::Utf8(f))) && crate::secret::utf8_failure_of(f, p@)
                    },
                    Reply::Revealed(Err(e)) => out == Some(Err::<(), Error>(e)),
                    _ => false,
                },
                CopyStage::Insert(_) => match reply {
                    Reply::Outcome(r) => out == Some(r),
                    _ => false,
                },
                CopyStage::Finished => false,
            },
    {
        let mut stage = CopyStage::Finished;
        std::mem::swap(&mut stage, &mut self.stage);
        match (stage, reply) {
            (CopyStage::From, Reply::Entry(Ok(p))) => {
                self.stage = CopyStage::To(p);
                None
            },
            (CopyStage::To(fp), Reply::Entry(Ok(tp))) => {
                if same_path(fp.as_str(), tp.as_str()) {
                    Some(Ok(()))
                } else {
                    self.stage = CopyStage::Context;
                    None
                }
            },
            (CopyStage::Context, Reply::Opened(Ok(()))) => {
                self.stage = CopyStage::Decrypt;
                None
            },
            (CopyStage::Decrypt, Reply::Revealed(Ok(p))) => {
                let plain = copy_bytes(&p);
                match entry_text(p) {
                    Ok(mut text) => {
                        wipe_text(&mut text);
                        self.stage = CopyStage::Insert(plain);
                        None
                    },
                    Err(e) => {
                        let mut plain = plain;
                        wipe_bytes(&mut plain);
                        Some(Err(e))
                    },
                }
            },
            (CopyStage::Insert(plain), Reply::Outcome(r)) => {
                let mut plain = plain;
                wipe_bytes(&mut plain);
                Some(r)
            },
            (_, Reply::Entry(Err(e))) => Some(Err(e)),
            (_, Reply::Opened(Err(g))) => Some(Err(Error::Gpg(g))),
            (_, Reply::Revealed(Err(e))) => Some(Err(e)),
            _ => None,
        }
    }
}

/// Where a rename stands.
pub enum RenameStage {
    /// Resolving the source's file.
    From,
    /// Resolving the destination's file; the source's is at this path.
    To(String),
    /// Asking whether the source's file (first path) is a regular file.
    Source(String, String),
    /// Looking up the recipients governing the source.
    FromIds(String, String),
    /// Looking up the recipients governing the destination.
    ToIds(String, String, Vec<String>),
    /// Creating the destination's directory.
    MakeDir(String, String),
    /// Moving the file.
    Move(String, String),
    /// Asking whether the destination's file (at this path) exists.
    Dest(String),
    /// Copying; whether the destination existed.
    Copy(String, bool),
    /// Removing the source; whether the destination existed.
    Remove(String, bool),
    /// Deleting the copy at this path after a failed removal; the removal's
    /// error.
    Rollback(String, Error),
    Finished,
}

/// Moving an entry (like `pass mv`). Renaming an entry onto itself does
/// nothing. When the source and destination are governed by the same
/// recipients, the file is moved without re-encryption; otherwise the
/// entry is copied (re-encrypted to the destination's recipients) and the
/// source removed. If removing the source fails, the copy is deleted again
/// unless the destination existed before, and the error is returned.
pub struct Rename {
    from: String,
    to: String,
    to_dir: String,
    stage: RenameStage,
}

impl Rename {
    pub closed spec fn from(&self) -> Seq<char> {
        self.from@
    }

    pub closed spec fn to(&self) -> Seq<char> {
        self.to@
    }

    /// The directory that holds the destination's file.
    pub closed spec fn to_dir(&self) -> Seq<char> {
        self.to_dir@
    }

    pub closed spec fn stage(&self) -> RenameStage {
        self.stage
    }

    pub open spec fn expects(&self, r: Reply) -> bool {
        match self.stage() {
            RenameStage::From => r is Entry,
            RenameStage::To(_) => r is Entry,
            RenameStage::Source(_, _) => r is Flag,
            RenameStage::FromIds(_, _) => r is Recipients,
            RenameStage::ToIds(_, _, _) => r is Recipients,
            RenameStage::MakeDir(_, _) => r is Done,
            RenameStage::Move(_, _) => r is Done,
            RenameStage::Dest(_) => r is Flag,
            RenameStage::Copy(_, _) => r is Outcome,
            RenameStage::Remove(_, _) => r is Outcome,
            RenameStage::Rollback(_, _) => r is Done,
            RenameStage::Finished => false,
        }
    }

    pub fn accepts(&self, r: &Reply) -> (b: bool)
        ensures
            b == self.expects(*r),
    {
        match (&self.stage, r) {
            (RenameStage::From, Reply::Entry(_)) => true,
            (RenameStage::To(_), Reply::Entry(_)) => true,
            (RenameStage::Source(_, _), Reply::Flag(_)) => true,
            (RenameStage::FromIds(_, _), Reply::Recipients(_)) => true,
            (RenameStage::ToIds(_, _, _), Reply::Recipients(_)) => true,
            (RenameStage::MakeDir(_, _), Reply::Done(_)) => true,
            (RenameStage::Move(_, _), Reply::Done(_)) => true,
            (RenameStage::Dest(_), Reply::Flag(_)) => true,
            (RenameStage::Copy(_, _), Reply::Outcome(_)) => true,
            (RenameStage::Remove(_, _), Reply::Outcome(_)) => true,
            (RenameStage::Rollback(_, _), Reply::Done(_)) => true,
            _ => false,
        }
    }

    pub fn action(&self) -> (a: Action)
        requires
            !(self.stage() is Finished),
        ensures
            match self.stage() {
                RenameStage::From => a matches Action::ResolveEntry(n) && n@ == self.from(),
                RenameStage::To(_) => a matches Action::ResolveEntry(n) && n@ == self.to(),
                RenameStage::Source(fp, _) => a matches Action::IsFile(p) && p == fp,
                RenameStage::FromIds(_, _) => a matches Action::LookupRecipients(n) && n@
                    == self.from(),
                RenameStage::ToIds(_, _, _) => a matches Action::LookupRecipients(n) && n@
                    == self.to(),
                RenameStage::MakeDir(_, _) => a matches Action::CreateDir(d) && d@ == self.to_dir(),
                RenameStage::Move(fp, tp) => a matches Action::MoveFile(p, q) && p == fp && q == tp,
                RenameStage::Dest(tp) => a matches Action::IsFile(p) && p == tp,
                RenameStage::Copy(_, _) => a matches Action::RunCopy(f, t) && f@ == self.from() && t@
                    == self.to(),
                RenameStage::Remove(_, _) => a matches Action::RunRemove(f) && f@ == self.from(),
                RenameStage::Rollback(tp, _) => a matches Action::DiscardFile(p) && p == tp,
                RenameStage::Finished => false,
            },
    {
        match &self.stage {
            RenameStage::From => Action::ResolveEntry(self.from.clone()),
            RenameStage::To(_) => Action::ResolveEntry(self.to.clone()),
            RenameStage::Source(fp, _) => Action::IsFile(fp.clone()),
            RenameStage::FromIds(_, _) => Action::LookupRecipients(self.from.clone()),
            RenameStage::ToIds(_, _, _) => Action::LookupRecipients(self.to.clone()),
            RenameStage::MakeDir(_, _) => Action::CreateDir(self.to_dir.clone()),
            RenameStage::Move(fp, tp) => Action::MoveFile(fp.clone(), tp.clone()),
            RenameStage::Dest(tp) => Action::IsFile(tp.clone()),
            RenameStage::Copy(_, _) => Action::RunCopy(self.from.clone(), self.to.clone()),
            RenameStage::Remove(_, _) => Action::RunRemove(self.from.clone()),
            RenameStage::Rollback(tp, _) => Action::DiscardFile(tp.clone()),
            RenameStage::Finished => Action::OpenContext,
        }
    }

    pub fn resume(&mut self, reply: Reply) -> (out: Option<Result<(), Error>>)
        requires
            old(self).expects(reply),
        ensures
            final(self).from() == old(self).from(),
            final(self).to() == old(self).to(),
            final(self).to_dir() == old(self).to_dir(),
            out is Some <==> final(self).stage() is Finished,
            match old(self).stage() {
                RenameStage::From => match reply {
                    Reply::Entry(Ok(fp)) => final(self).stage() == RenameStage::To(fp),
                    Reply::Entry(Err(e)) => out == Some(Err::<(), Error>(e)),
                    _ => false,
                },
                RenameStage::To(fp) => match reply {
                    Reply::Entry(Ok(tp)) => if components(fp@) == components(tp@) {
                        out == Some(Ok::<(), Error>(()))
                    } else {
                        final(self).stage() == RenameStage::Source(fp, tp)
                    },
                    Reply::Entry(Err(e)) => out == Some(Err::<(), Error>(e)),
                    _ => false,
                },
                RenameStage::Source(fp, tp) => match reply {
                    Reply::Flag(true) => final(self).stage() == RenameStage::FromIds(fp, tp),
                    Reply::Flag(false) => out matches Some(Err(Error::NotFound(n))) && n@ == old(
                        self,
                    ).from(),
                    _ => false,
                },
                RenameStage::FromIds(fp, tp) => match reply {
                    Reply::Recipients(Ok(ids)) => final(self).stage() == RenameStage::ToIds(
                        fp,
                        tp,
                        ids,
                    ),
                    Reply::Recipients(Err(e)) => out == Some(Err::<(), Error>(e)),
                    _ => false,
                },
                RenameStage::ToIds(fp, tp, fids) => match reply {
                    Reply::Recipients(Ok(tids)) => if views(fids@) == views(tids@) {
                        final(self).stage() == RenameStage::MakeDir(fp, tp)
                    } else {
                        final(self).stage() == RenameStage::Dest(tp)
                    },
                    Reply::Recipients(Err(e)) => out == Some(Err::<(), Error>(e)),
                    _ => false,
                },
                RenameStage::MakeDir(fp, tp) => match reply {
                    Reply::Done(Ok(())) => final(self).stage() == RenameStage::Move(fp, tp),
                    Reply::Done(Err(f)) => out == Some(Err::<(), Error>(Error::Io(f))),
                    _ => false,
                },
                RenameStage::Move(_, _) => match reply {
                    Reply::Done(Ok(())) => out == Some(Ok::<(), Error>(())),
                    Reply::Done(Err(f)) => out == Some(Err::<(), Error>(Error::Io(f))),
                    _ => false,
                },
                RenameStage::Dest(tp) => match reply {
                    Reply::Flag(b) => final(self).stage() == RenameStage::Copy(tp, b),
                    _ => false,
                },
                RenameStage::Copy(tp, existed) => match reply {
                    Reply::Outcome(Ok(())) => final(self).stage() == RenameStage::Remove(
                        tp,
                        existed,
                    ),
                    Reply::Outcome(Err(e)) => out == Some(Err::<(), Error>(e)),
                    _ => false,
                },
                RenameStage::Remove(tp, existed) => match reply {
                    Reply::Outcome(Ok(())) => out == Some(Ok::<(), Error>(())),
                    Reply::Outcome(Err(e)) => if existed {
                        out == Some(Err::<(), Error>(e))
                    } else {
                        final(self).stage() == RenameStage::Rollback(tp, e)
                    },
                    _ => false,
                },
                RenameStage::Rollback(_, e) => match reply {
                    Reply::Done(_) => out == Some(Err::<(), Error>(e)),
                    _ => false,
                },
                RenameStage::Finished => false,
            },
    {
        let mut stage = RenameStage::Finished;
        std::mem::swap(&mut stage, &mut self.stage);
        match (stage, reply) {
            (RenameStage::From, Reply::Entry(Ok(fp))) => {
                self.stage = RenameStage::To(fp);
                None
            },
            (RenameStage::To(fp), Reply::Entry(Ok(tp))) => {
                if same_path(fp.as_str(), tp.as_str()) {
                    Some(Ok(()))
                } else {
                    self.stage = RenameStage::Source(fp, tp);
                    None
                }
            },
            (RenameStage::Source(fp, tp), Reply::Flag(is_file)) => {
                if is_file {
                    self.stage = RenameStage::FromIds(fp, tp);
                    None
                } else {
                    Some(Err(Error::NotFound(self.from.clone())))
                }
            },
            (RenameStage::FromIds(fp, tp), Reply::Recipients(Ok(ids))) => {
                self.stage = RenameStage::ToIds(fp, tp, ids);
                None
            },
            (RenameStage::ToIds(fp, tp, fids), Reply::Recipients(Ok(tids))) => {
                if crate::ids::same_ids(&fids, &tids) {
                    self.stage = RenameStage::MakeDir(fp, tp);
                } else {
                    self.stage = RenameStage::Dest(tp);
                }
                None
            },
            (RenameStage::MakeDir(fp, tp), Reply::Done(Ok(()))) => {
                self.stage = RenameStage::Move(fp, tp);
                None
            },
            (RenameStage::Move(_, _), Reply::Done(Ok(()))) => Some(Ok(())),
            (RenameStage::Dest(tp), Reply::Flag(existed)) => {
                self.stage = RenameStage::Copy(tp, existed);
                None
            },
            (RenameStage::Copy(tp, existed), Reply::Outcome(Ok(()))) => {
                self.stage = RenameStage::Remove(tp, existed);
                None
            },
            (RenameStage::Remove(tp, existed), Reply::Outcome(Err(e))) => {
                if existed {
                    Some(Err(e))
                } else {
                    self.stage = RenameStage::Rollback(tp, e);
                    None
                }
            },
            (RenameStage::Remove(_, _), Reply::Outcome(Ok(()))) => Some(Ok(())),
            (RenameStage::Rollback(_, e), Reply::Done(_)) => Some(Err(e)),
            (_, Reply::Entry(Err(e))) => Some(Err(e)),
            (_, Reply::Recipients(Err(e))) => Some(Err(e)),
            (_, Reply::Done(Err(f))) => Some(Err(Error::Io(f))),
            (_, Reply::Outcome(Err(e))) => Some(Err(e)),
            _ => None,
        }
    }
}

impl PasswordStore {
    /// Copies an entry, re-encrypting it to the GPG ids governing the
    /// destination (like `pass cp`).
    pub fn copy(&self, from: &str, to: &str) -> (c: CopyEntry)
        ensures
            c.from() == from@,
            c.to() == to@,
            c.stage() is From,
    {
        CopyEntry { from: from.to_owned(), to: to.to_owned(), stage: CopyStage::From }
    }

    /// Moves an entry (like `pass mv`).
    pub fn rename(&self, from: &str, to: &str) -> (r: Rename)
        ensures
            r.from() == from@,
            r.to() == to@,
            r.to_dir() == parent_text(self.entry_file_path(to@)),
            r.stage() is From,
    {
        Rename {
            from: from.to_owned(),
            to: to.to_owned(),
            to_dir: self.entry_dir(to),
            stage: RenameStage::From,
        }
    }
}

// ----------------------------------------------------------------------
// Initializing a store.

/// Where initializing a store stands.
pub enum InitStage {
    /// Reading the root `.gpg-id`.
    ReadRoot,
    /// Creating the store directory; the ids recorded before, if any.
    Prepare(Option<Vec<String>>),
    /// Walking the entries the root `.gpg-id` governs.
    Walk,
    /// Opening a GnuPG context to re-encrypt these entries.
    Context(Vec<String>),
    /// Finding the key of new recipient `i`.
    Keys(Vec<String>, usize),
    /// Decrypting entry `k`.
    Decrypt(Vec<String>, usize),
    /// Resolving entry `k`'s file; its plaintext.
    Resolve(Vec<String>, usize, Vec<u8>),
    /// Encrypting entry `k`'s plaintext, for the file at this path.
    Encrypt(Vec<String>, usize, Vec<u8>, String),
    /// Writing entry `k`'s encrypted bytes to the file at this path.
    Write(Vec<String>, usize, String, Vec<u8>),
    /// Writing the root `.gpg-id`.
    WriteIds,
    Finished,
}

/// Initializing a store for recipient ids, like `pass init`: the store
/// directory is created (private), and when the ids differ from those the
/// root `.gpg-id` records, every entry it governs is re-encrypted to the
/// new ids (all their keys are found before any entry is touched; each
/// entry is rewritten atomically). The root `.gpg-id` is written last.
pub struct Init {
    store: PasswordStore,
    ids: Vec<String>,
    stage: InitStage,
}

/// The path of the root `.gpg-id` of a store.
pub open spec fn root_gpg_id(root: Seq<char>) -> Seq<char> {
    crate::paths::join(root, ".gpg-id"@)
}

impl Init {
    /// The store's root.
    pub open spec fn root(&self) -> Seq<char> {
        self.store().root()
    }

    /// The store handle.
    pub closed spec fn store(&self) -> PasswordStore {
        self.store
    }

    /// The new recipient ids.
    pub closed spec fn ids(&self) -> Seq<Seq<char>> {
        views(self.ids@)
    }

    pub closed spec fn stage(&self) -> InitStage {
        self.stage
    }

    pub open spec fn well_formed(&self) -> bool {
        &&& self.ids().len() > 0
        &&& match self.stage() {
            InitStage::Keys(entries, i) => entries.len() > 0 && i < self.ids().len(),
            InitStage::Decrypt(entries, k) => k < entries.len(),
            InitStage::Resolve(entries, k, _) => k < entries.len(),
            InitStage::Encrypt(entries, k, _, _) => k < entries.len(),
            InitStage::Write(entries, k, _, _) => k < entries.len(),
            InitStage::Context(entries) => entries.len() > 0,
            _ => true,
        }
    }

    pub open spec fn expects(&self, r: Reply) -> bool {
        match self.stage() {
            InitStage::ReadRoot => r is Text,
            InitStage::Prepare(_) => r is Done,
            InitStage::Walk => r is Entries,
            InitStage::Context(_) => r is Opened,
            InitStage::Keys(_, _) => r is Key,
            InitStage::Decrypt(_, _) => r is Revealed,
            InitStage::Resolve(_, _, _) => r is Entry,
            InitStage::Encrypt(_, _, _, _) => r is Cipher,
            InitStage::Write(_, _, _, _) => r is Done,
            InitStage::WriteIds => r is Done,
            InitStage::Finished => false,
        }
    }

    pub fn accepts(&self, r: &Reply) -> (b: bool)
        ensures
            b == self.expects(*r),
    {
        match (&self.stage, r) {
            (InitStage::ReadRoot, Reply::Text(_)) => true,
            (InitStage::Prepare(_), Reply::Done(_)) => true,
            (InitStage::Walk, Reply::Entries(_)) => true,
            (InitStage::Context(_), Reply::Opened(_)) => true,
            (InitStage::Keys(_, _), Reply::Key(_)) => true,
            (InitStage::Decrypt(_, _), Reply::Revealed(_)) => true,
            (InitStage::Resolve(_, _, _), Reply::Entry(_)) => true,
            (InitStage::Encrypt(_, _, _, _), Reply::Cipher(_)) => true,
            (InitStage::Write(_, _, _, _), Reply::Done(_)) => true,
            (InitStage::WriteIds, Reply::Done(_)) => true,
            _ => false,
        }
    }

    pub fn action(&self) -> (a: Action)
        requires
            self.well_formed(),
            !(self.stage() is Finished),
        ensures
            match self.stage() {
                InitStage::ReadRoot => a matches Action::ReadText(p) && p@ == root_gpg_id(self.root()),
                InitStage::Prepare(_) => a matches Action::PrepareStoreDir(p) && p@ == self.root(),
                InitStage::Walk => a is GovernedEntries,
                InitStage::Context(_) => a is OpenContext,
                InitStage::Keys(_, i) => a matches Action::FindKey(id) && id@ == self.ids()[i as int],
                InitStage::Decrypt(entries, k) => a matches Action::RunDecrypt(n) && n
                    == entries@[k as int],
                InitStage::Resolve(entries, k, _) => a matches Action::ResolveEntry(n) && n
                    == entries@[k as int],
                InitStage::Encrypt(_, _, plain, _) => a matches Action::Encrypt(d) && d@ == plain@,
                InitStage::Write(entries, k, p, c) => a matches Action::WriteEntry(d, q, e) && d@
                    == parent_text(self.store().entry_file_path(entries@[k as int]@)) && q == p
                    && e@ == c@,
                InitStage::WriteIds => a matches Action::WriteText(p, t) && p@ == root_gpg_id(
                    self.root(),
                ) && t@ == crate::ids::gpg_id_file_text(self.ids()),
                InitStage::Finished => false,
            },
    {
        match &self.stage {
            InitStage::ReadRoot => Action::ReadText(
                crate::paths::join_path(self.store.store_dir(), ".gpg-id"),
            ),
            InitStage::Prepare(_) => Action::PrepareStoreDir(self.store.store_dir().to_owned()),
            InitStage::Walk => Action::GovernedEntries,
            InitStage::Context(_) => Action::OpenContext,
            InitStage::Keys(_, i) => Action::FindKey(self.ids[*i].clone()),
            InitStage::Decrypt(entries, k) => Action::RunDecrypt(entries[*k].clone()),
            InitStage::Resolve(entries, k, _) => Action::ResolveEntry(entries[*k].clone()),
            InitStage::Encrypt(_, _, plain, _) => Action::Encrypt(copy_bytes(plain)),
            InitStage::Write(entries, k, p, c) => Action::WriteEntry(
                self.store.entry_dir(entries[*k].as_str()),
                p.clone(),
                copy_bytes(c),
            ),
            InitStage::WriteIds => Action::WriteText(
                crate::paths::join_path(self.store.store_dir(), ".gpg-id"),
                crate::ids::render_gpg_ids(&self.ids),
            ),
            InitStage::Finished => Action::OpenContext,
        }
    }

    /// The stage after entry `k` is rewritten: the next entry, or the root
    /// `.gpg-id`.
    pub open spec fn after_entry(entries: Vec<String>, k: usize) -> InitStage {
        if k + 1 < entries.len() {
            InitStage::Decrypt(entries, (k + 1) as usize)
        } else {
            InitStage::WriteIds
        }
    }

    pub fn resume(&mut self, reply: Reply) -> (out: Option<Result<(), Error>>)
        requires
            old(self).well_formed(),
            old(self).expects(reply),
        ensures
            final(self).well_formed(),
            final(self).store() == old(self).store(),
            final(self).ids() == old(self).ids(),
            out is Some <==> final(self).stage() is Finished,
            match old(self).stage() {
                InitStage::ReadRoot => match reply {
                    Reply::Text(Ok(text)) => if crate::text::gpg_ids_in(text@).len() > 0 {
                        final(self).stage() matches InitStage::Prepare(Some(old_ids)) && views(
                            old_ids@,
                        ) == crate::text::gpg_ids_in(text@)
                    } else {
                        final(self).stage() == InitStage::Prepare(None)
                    },
                    Reply::Text(Err(f)) => if f.not_found {
                        final(self).stage() == InitStage::Prepare(None)
                    } else {
                        out == Some(Err::<(), Error>(Error::Io(f)))
                    },
                    _ => false,
                },
                InitStage::Prepare(old_ids) => match reply {
                    Reply::Done(Ok(())) => if old_ids matches Some(o) && views(o@) == old(
                        self,
                    ).ids() {
                        final(self).stage() is WriteIds
                    } else {
                        final(self).stage() is Walk
                    },
                    Reply::Done(Err(f)) => out == Some(Err::<(), Error>(Error::Io(f))),
                    _ => false,
                },
                InitStage::Walk => match reply {
                    Reply::Entries(Ok(entries)) => if entries.len() == 0 {
                        final(self).stage() is WriteIds
                    } else {
                        final(self).stage() == InitStage::Context(entries)
                    },
                    Reply::Entries(Err(e)) => out == Some(Err::<(), Error>(e)),
                    _ => false,
                },
                InitStage::Context(entries) => match reply {
                    Reply::Opened(Ok(())) => final(self).stage() == InitStage::Keys(entries, 0),
                    Reply::Opened(Err(g)) => out == Some(Err::<(), Error>(Error::Gpg(g))),
                    _ => false,
                },
                InitStage::Keys(entries, i) => match reply {
                    Reply::Key(Ok(())) => if i + 1 < old(self).ids().len() {
                        final(self).stage() == InitStage::Keys(entries, (i + 1) as usize)
                    } else {
                        final(self).stage() == InitStage::Decrypt(entries, 0)
                    },
                    Reply::Key(Err(g)) => if g.code == GPG_ERR_EOF {
                        out matches Some(Err(Error::KeyNotFound(id))) && id@ == old(self).ids()[i as int]
                    } else {
                        out == Some(Err::<(), Error>(Error::Gpg(g)))
                    },
                    _ => false,
                },
                InitStage::Decrypt(entries, k) => match reply {
                    Reply::Revealed(Ok(plain)) => final(self).stage() == InitStage::Resolve(
                        entries,
                        k,
                        plain,
                    ),
                    Reply::Revealed(Err(e)) => out == Some(Err::<(), Error>(e)),
                    _ => false,
                },
                InitStage::Resolve(entries, k, plain) => match reply {
                    Reply::Entry(Ok(p)) => final(self).stage() == InitStage::Encrypt(
                        entries,
                        k,
                        plain,
                        p,
                    ),
                    Reply::Entry(Err(e)) => out == Some(Err::<(), Error>(e)),
                    _ => false,
                },
                InitStage::Encrypt(entries, k, _, p) => match reply {
                    Reply::Cipher(Ok(c)) => final(self).stage() == InitStage::Write(entries, k, p, c),
                    Reply::Cipher(Err(g)) => out == Some(Err::<(), Error>(Error::Gpg(g))),
                    _ => false,
                },
                InitStage::Write(entries, k, _, _) => match reply {
                    Reply::Done(Ok(())) => final(self).stage() == Self::after_entry(entries, k),
                    Reply::Done(Err(f)) => out == Some(Err::<(), Error>(Error::Io(f))),
                    _ => false,
                },
                InitStage::WriteIds => match reply {
                    Reply::Done(Ok(())) => out == Some(Ok::<(), Error>(())),
                    Reply::Done(Err(f)) => out == Some(Err::<(), Error>(Error::Io(f))),
                    _ => false,
                },
                InitStage::Finished => false,
            },
    {
        let mut stage = InitStage::Finished;
        std::mem::swap(&mut stage, &mut self.stage);
        match (stage, reply) {
            (InitStage::ReadRoot, Reply::Text(read)) => {
                match crate::ids::declared_ids(read) {
                    Ok(old_ids) => {
                        self.stage = InitStage::Prepare(old_ids);
                        None
                    },
                    Err(e) => Some(Err(e)),
                }
            },
            (InitStage::Prepare(old_ids), Reply::Done(Ok(()))) => {
                if crate::ids::ids_changed(&old_ids, &self.ids) {
                    self.stage = InitStage::Walk;
                } else {
                    self.stage = InitStage::WriteIds;
                }
                None
            },
            (InitStage::Walk, Reply::Entries(Ok(entries))) => {
                if entries.len() == 0 {
                    self.stage = InitStage::WriteIds;
                } else {
                    self.stage = InitStage::Context(entries);
                }
                None
            },
            (InitStage::Context(entries), Reply::Opened(Ok(()))) => {
                self.stage = InitStage::Keys(entries, 0);
                None
            },
            (InitStage::Keys(entries, i), Reply::Key(Ok(()))) => {
                assert(self.ids@.len() == self.ids().len());
                if i < self.ids.len() - 1 {
                    self.stage = InitStage::Keys(entries, i + 1);
                } else {
                    self.stage = InitStage::Decrypt(entries, 0);
                }
                None
            },
            (InitStage::Keys(_, i), Reply::Key(Err(g))) => {
                assert(self.ids@.len() == self.ids().len());
                Some(Err(key_lookup_error(self.ids[i].as_str(), g)))
            },
            (InitStage::Decrypt(entries, k), Reply::Revealed(Ok(plain))) => {
                self.stage = InitStage::Resolve(entries, k, plain);
                None
            },
            (InitStage::Resolve(entries, k, plain), Reply::Entry(Ok(p))) => {
                self.stage = InitStage::Encrypt(entries, k, plain, p);
                None
            },
            (InitStage::Encrypt(entries, k, plain, p), Reply::Cipher(Ok(c))) => {
                let mut plain = plain;
                wipe_bytes(&mut plain);
                self.stage = InitStage::Write(entries, k, p, c);
                None
            },
            (InitStage::Write(entries, k, _, _), Reply::Done(Ok(()))) => {
                if k + 1 < entries.len() {
                    self.stage = InitStage::Decrypt(entries, k + 1);
                } else {
                    self.stage = InitStage::WriteIds;
                }
                None
            },
            (InitStage::Resolve(_, _, plain), Reply::Entry(Err(e))) => {
                let mut plain = plain;
                wipe_bytes(&mut plain);
                Some(Err(e))
            },
            (InitStage::Encrypt(_, _, plain, _), Reply::Cipher(Err(g))) => {
                let mut plain = plain;
                wipe_bytes(&mut plain);
                Some(Err(Error::Gpg(g)))
            },
            (InitStage::WriteIds, Reply::Done(Ok(()))) => Some(Ok(())),
            (_, Reply::Done(Err(f))) => Some(Err(Error::Io(f))),
            (_, Reply::Entries(Err(e))) => Some(Err(e)),
            (_, Reply::Opened(Err(g))) => Some(Err(Error::Gpg(g))),
            (_, Reply::Revealed(Err(e))) => Some(Err(e)),
            (_, Reply::Entry(Err(e))) => Some(Err(e)),
            (_, Reply::Cipher(Err(g))) => Some(Err(Error::Gpg(g))),
            _ => None,
        }
    }
}

impl PasswordStore {
    /// Initializes the store for the given GPG ids (each trimmed): fails at
    /// once with `NoGpgIds` when there is none, or when one is empty once
    /// trimmed; otherwise gives the initialization to run.
    pub fn init(&self, gpg_ids: &[&str]) -> (r: Result<Init, Error>)
        ensures
            r is Ok <==> crate::ids::usable_ids(crate::ids::str_views(gpg_ids@)),
            r matches Err(e) ==> e is NoGpgIds,
            r matches Ok(i) ==> {
                &&& i.store().root() == self.root()
                &&& i.root() == self.root()
                &&& i.store().home() == self.home()
                &&& i.ids() == crate::ids::trimmed_ids(crate::ids::str_views(gpg_ids@))
                &&& i.stage() is ReadRoot
                &&& i.well_formed()
            },
    {
        let ids = crate::ids::normalize_gpg_ids(gpg_ids)?;
        Ok(Init { store: self.duplicate(), ids, stage: InitStage::ReadRoot })
    }
}

} // verus!
