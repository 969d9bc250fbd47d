//! Store operations run against an in-memory world: a small filesystem
//! (directories, files, symlinks, unreadable files, read-only directories)
//! and a keyring whose "encryption" records the recipients in clear. Each
//! test drives the library's operations exactly as a real executor would:
//! perform the action asked for, hand back the reply.

use std::collections::{BTreeMap, BTreeSet};

use pass_sys::error::{Error, GpgFailure, IoFailure};
use pass_sys::generate::PasswordGeneration;
use pass_sys::listing::{DirItem, EntryWalk, WalkQuery};
use pass_sys::ops::{Action, CopyEntry, DecryptEntry, Exists, Init, Insert, Remove, Rename, Reply, Show};
use pass_sys::store::{GuardQuery, PasswordStore};

const TEST_KEY_ID: &str = "pass-sys@test.invalid";
const TEST_KEY_ID_2: &str = "pass-sys-b@test.invalid";
const STORE: &str = "/tmp/fixture/store";
const GNUPGHOME: &str = "/tmp/fixture/gnupg";

const ENOENT: i32 = 2;
const EACCES: i32 = 13;
const ENOTDIR: i32 = 20;
const EISDIR: i32 = 21;

const GPG_NO_DATA: u32 = 58;
const GPG_NO_SECKEY: u32 = 17;
const GPG_AMBIGUOUS: u32 = 107;
const GPG_EOF: u32 = 16383;

#[derive(Clone, Debug, PartialEq)]
enum Node {
    Dir,
    File(Vec<u8>),
    Link(String),
}

struct Key {
    uid: String,
    keyid: String,
}

struct World {
    nodes: BTreeMap<String, Node>,
    modes: BTreeMap<String, u32>,
    unreadable: BTreeSet<String>,
    readonly: BTreeSet<String>,
    keyring: Vec<Key>,
    context_keys: Vec<String>,
    seed: u64,
}

fn io_err(code: i32, what: &str) -> IoFailure {
    IoFailure { not_found: code == ENOENT, os_code: Some(code), message: format!("{what} (os error {code})") }
}

fn gpg_err(code: u32, what: &str) -> GpgFailure {
    GpgFailure { code, message: what.to_string() }
}

fn parts(p: &str) -> Vec<String> {
    p.split('/').filter(|c| !c.is_empty() && *c != ".").map(|c| c.to_string()).collect()
}

fn joined(parts: &[String]) -> String {
    format!("/{}", parts.join("/"))
}

fn parent_and_base(p: &str) -> (String, String) {
    let mut ps = parts(p);
    let base = ps.pop().unwrap_or_default();
    (joined(&ps), base)
}

impl World {
    fn new() -> World {
        let mut w = World {
            nodes: BTreeMap::new(),
            modes: BTreeMap::new(),
            unreadable: BTreeSet::new(),
            readonly: BTreeSet::new(),
            keyring: Vec::new(),
            context_keys: Vec::new(),
            seed: 0x9e37_79b9_7f4a_7c15,
        };
        w.nodes.insert("/".to_string(), Node::Dir);
        for d in ["/tmp", "/tmp/fixture", GNUPGHOME, "/dev"] {
            w.nodes.insert(d.to_string(), Node::Dir);
        }
        w.nodes.insert("/dev/null".to_string(), Node::File(Vec::new()));
        w.add_key("Pass Sys Test", TEST_KEY_ID, "A1A1A1A1A1A1A1A1");
        w
    }

    fn add_key(&mut self, name: &str, email: &str, keyid: &str) {
        self.keyring.push(Key { uid: format!("{name} <{email}>"), keyid: keyid.to_string() });
    }

    fn gen_second_key(&mut self) {
        self.add_key("Pass Sys Test B", TEST_KEY_ID_2, "B2B2B2B2B2B2B2B2");
    }

    fn keyid_of(&self, email: &str) -> String {
        self.keyring.iter().find(|k| k.uid.contains(email)).map(|k| k.keyid.clone()).unwrap()
    }

    // -------- filesystem --------

    fn resolve_depth(&self, p: &str, depth: usize) -> Result<String, IoFailure> {
        if depth > 16 {
            return Err(io_err(40, "Too many levels of symbolic links"));
        }
        let comps = parts(p);
        let mut cur: Vec<String> = Vec::new();
        for (i, c) in comps.iter().enumerate() {
            if c == ".." {
                cur.pop();
                continue;
            }
            cur.push(c.clone());
            match self.nodes.get(&joined(&cur)) {
                None => return Err(io_err(ENOENT, "No such file or directory")),
                Some(Node::Dir) => {},
                Some(Node::File(_)) => {
                    if i + 1 < comps.len() {
                        return Err(io_err(ENOTDIR, "Not a directory"));
                    }
                },
                Some(Node::Link(t)) => {
                    let target = if t.starts_with('/') {
                        t.clone()
                    } else {
                        let mut base = cur.clone();
                        base.pop();
                        format!("{}/{}", joined(&base), t)
                    };
                    let r = self.resolve_depth(&target, depth + 1)?;
                    cur = parts(&r);
                },
            }
        }
        Ok(joined(&cur))
    }

    fn canonicalize(&self, p: &str) -> Result<String, IoFailure> {
        self.resolve_depth(p, 0)
    }

    fn path_exists(&self, p: &str) -> bool {
        self.canonicalize(p).is_ok()
    }

    fn node(&self, p: &str) -> Option<&Node> {
        self.canonicalize(p).ok().and_then(|r| self.nodes.get(&r))
    }

    fn is_file(&self, p: &str) -> bool {
        matches!(self.node(p), Some(Node::File(_)))
    }

    fn is_dir(&self, p: &str) -> bool {
        matches!(self.node(p), Some(Node::Dir))
    }

    /// The place a path names without following its last component.
    fn place(&self, p: &str) -> Result<String, IoFailure> {
        let (parent, base) = parent_and_base(p);
        let dir = self.canonicalize(&parent)?;
        if !matches!(self.nodes.get(&dir), Some(Node::Dir)) {
            return Err(io_err(ENOTDIR, "Not a directory"));
        }
        Ok(if dir == "/" { format!("/{base}") } else { format!("{dir}/{base}") })
    }

    fn is_symlink(&self, p: &str) -> bool {
        match self.place(p) {
            Ok(at) => matches!(self.nodes.get(&at), Some(Node::Link(_))),
            Err(_) => false,
        }
    }

    fn read(&self, p: &str) -> Result<Vec<u8>, IoFailure> {
        let r = self.canonicalize(p)?;
        if self.unreadable.contains(&r) {
            return Err(io_err(EACCES, "Permission denied"));
        }
        match self.nodes.get(&r) {
            Some(Node::File(b)) => Ok(b.clone()),
            _ => Err(io_err(EISDIR, "Is a directory")),
        }
    }

    fn read_text(&self, p: &str) -> Result<String, IoFailure> {
        let bytes = self.read(p)?;
        String::from_utf8(bytes).map_err(|_| IoFailure {
            not_found: false,
            os_code: None,
            message: "stream did not contain valid UTF-8".to_string(),
        })
    }

    fn writable(&self, dir: &str) -> Result<(), IoFailure> {
        if self.readonly.contains(dir) {
            Err(io_err(EACCES, "Permission denied"))
        } else {
            Ok(())
        }
    }

    fn create_dir_all(&mut self, p: &str) -> Result<(), IoFailure> {
        let mut cur: Vec<String> = Vec::new();
        for c in parts(p) {
            let parent = self.canonicalize(&joined(&cur))?;
            cur.push(c);
            match self.node(&joined(&cur)).cloned() {
                Some(Node::Dir) => {},
                Some(_) => return Err(io_err(ENOTDIR, "Not a directory")),
                None => {
                    if self.is_symlink(&joined(&cur)) {
                        return Err(io_err(ENOENT, "No such file or directory"));
                    }
                    self.writable(&parent)?;
                    let at = self.place(&joined(&cur))?;
                    self.nodes.insert(at, Node::Dir);
                },
            }
        }
        Ok(())
    }

    fn write_file(&mut self, p: &str, data: Vec<u8>) -> Result<(), IoFailure> {
        let at = self.place(p)?;
        let (dir, _) = parent_and_base(&at);
        self.writable(&dir)?;
        if let Some(Node::Dir) = self.nodes.get(&at) {
            return Err(io_err(EISDIR, "Is a directory"));
        }
        self.nodes.insert(at, Node::File(data));
        Ok(())
    }

    fn remove_file(&mut self, p: &str) -> Result<(), IoFailure> {
        let at = self.place(p)?;
        match self.nodes.get(&at) {
            None => return Err(io_err(ENOENT, "No such file or directory")),
            Some(Node::Dir) => return Err(io_err(EISDIR, "Is a directory")),
            _ => {},
        }
        let (dir, _) = parent_and_base(&at);
        self.writable(&dir)?;
        self.nodes.remove(&at);
        Ok(())
    }

    fn move_file(&mut self, from: &str, to: &str) -> Result<(), IoFailure> {
        let src = self.place(from)?;
        let dst = self.place(to)?;
        let node = self.nodes.get(&src).cloned().ok_or(io_err(ENOENT, "No such file or directory"))?;
        self.writable(&parent_and_base(&src).0)?;
        self.writable(&parent_and_base(&dst).0)?;
        self.nodes.remove(&src);
        self.nodes.insert(dst, node);
        Ok(())
    }

    fn list_dir(&self, p: &str) -> Result<Vec<DirItem>, IoFailure> {
        let dir = self.canonicalize(p)?;
        if !matches!(self.nodes.get(&dir), Some(Node::Dir)) {
            return Err(io_err(ENOTDIR, "Not a directory"));
        }
        let mut items = Vec::new();
        for (path, node) in &self.nodes {
            if path == "/" {
                continue;
            }
            let (parent, base) = parent_and_base(path);
            if parent == dir {
                items.push(DirItem { name: base, is_dir: matches!(node, Node::Dir) });
            }
        }
        Ok(items)
    }

    fn random_block(&mut self) -> Vec<u8> {
        let mut block = Vec::with_capacity(64);
        for _ in 0..64 {
            self.seed ^= self.seed << 13;
            self.seed ^= self.seed >> 7;
            self.seed ^= self.seed << 17;
            block.push((self.seed >> 24) as u8);
        }
        block
    }

    // -------- keyring --------

    fn find_key(&mut self, id: &str) -> Result<(), GpgFailure> {
        let found: Vec<String> =
            self.keyring.iter().filter(|k| k.uid.contains(id)).map(|k| k.keyid.clone()).collect();
        match found.len() {
            0 => Err(gpg_err(GPG_EOF, "End of file")),
            1 => {
                self.context_keys.push(found[0].clone());
                Ok(())
            },
            _ => Err(gpg_err(GPG_AMBIGUOUS, "Ambiguous name")),
        }
    }

    fn encrypt(&self, plain: &[u8]) -> Vec<u8> {
        let mut c = format!("SIMPGP:{}\n", self.context_keys.join(",")).into_bytes();
        c.extend_from_slice(plain);
        c
    }

    fn decrypt(&self, cipher: &[u8]) -> Result<Vec<u8>, GpgFailure> {
        let text = cipher;
        if !text.starts_with(b"SIMPGP:") {
            return Err(gpg_err(GPG_NO_DATA, "No data"));
        }
        let end = text.iter().position(|&b| b == b'\n').ok_or(gpg_err(GPG_NO_DATA, "No data"))?;
        let header = String::from_utf8_lossy(&text[7..end]).to_string();
        let ours = header.split(',').any(|r| self.keyring.iter().any(|k| k.keyid == r));
        if !ours {
            return Err(gpg_err(GPG_NO_SECKEY, "No secret key"));
        }
        Ok(text[end + 1..].to_vec())
    }

    /// The keys an entry's file is encrypted to.
    fn recipient_keyids(&self, name: &str) -> Vec<String> {
        let bytes = self.read(&format!("{STORE}/{name}.gpg")).unwrap();
        let end = bytes.iter().position(|&b| b == b'\n').unwrap();
        let header = String::from_utf8_lossy(&bytes[7..end]).to_string();
        header.split(',').filter(|s| !s.is_empty()).map(|s| s.to_string()).collect()
    }

    /// Plants an entry encrypted to the first test key, bypassing the store.
    fn encrypt_raw(&mut self, name: &str, plain: &[u8]) {
        let mut c = format!("SIMPGP:{}\n", self.keyid_of(TEST_KEY_ID)).into_bytes();
        c.extend_from_slice(plain);
        self.write_file(&format!("{STORE}/{name}.gpg"), c).unwrap();
    }

    /// What `pass show` prints for an entry: its file decrypted with the
    /// keyring, read as text.
    fn pass_show(&self, name: &str) -> Result<String, String> {
        let cipher = self.read(&format!("{STORE}/{name}.gpg")).map_err(|f| f.message)?;
        let plain = self.decrypt(&cipher).map_err(|g| g.message)?;
        String::from_utf8(plain).map_err(|e| e.to_string())
    }

    /// What `pass insert --multiline` stores for a root entry: the contents
    /// encrypted to the keys of the ids in the root `.gpg-id`.
    fn pass_insert(&mut self, name: &str, contents: &str) -> Result<(), String> {
        let ids = self.read_text(&format!("{STORE}/.gpg-id")).map_err(|f| f.message)?;
        let mut keys = Vec::new();
        for id in ids.lines().map(str::trim).filter(|l| !l.is_empty()) {
            match self.keyring.iter().find(|k| k.uid.contains(id)) {
                Some(k) => keys.push(k.keyid.clone()),
                None => return Err(format!("{id}: skipped: No public key")),
            }
        }
        let mut c = format!("SIMPGP:{}\n", keys.join(",")).into_bytes();
        c.extend_from_slice(contents.as_bytes());
        self.write_file(&format!("{STORE}/{name}.gpg"), c).map_err(|f| f.message)
    }

    fn write_text_file(&mut self, p: &str, text: &str) {
        self.write_file(p, text.as_bytes().to_vec()).unwrap();
    }

    fn mkdir(&mut self, p: &str) {
        self.create_dir_all(p).unwrap();
    }

    // -------- running operations --------

    fn perform(&mut self, s: &PasswordStore, a: Action) -> Reply {
        match a {
            Action::OpenContext => {
                self.context_keys.clear();
                Reply::Opened(Ok(()))
            },
            Action::ResolveEntry(name) => Reply::Entry(self.resolve_entry(s, &name)),
            Action::LookupRecipients(name) => Reply::Recipients(self.lookup(s, &name)),
            Action::ReadFile(p) => Reply::Bytes(self.read(&p)),
            Action::Decrypt(c) => Reply::Plain(self.decrypt(&c)),
            Action::FindKey(id) => Reply::Key(self.find_key(&id)),
            Action::Encrypt(d) => Reply::Cipher(Ok(self.encrypt(&d))),
            Action::WriteEntry(dir, path, data) => {
                let r = self.create_dir_all(&dir).and_then(|_| self.write_file(&path, data));
                Reply::Done(r)
            },
            Action::IsFile(p) => Reply::Flag(self.is_file(&p)),
            Action::RemoveFile(p) => Reply::Done(self.remove_file(&p)),
            Action::DiscardFile(p) => {
                let _ = self.remove_file(&p);
                Reply::Done(Ok(()))
            },
            Action::CreateDir(d) => Reply::Done(self.create_dir_all(&d)),
            Action::MoveFile(from, to) => Reply::Done(self.move_file(&from, &to)),
            Action::ReadText(p) => Reply::Text(self.read_text(&p)),
            Action::PrepareStoreDir(p) => {
                let r = self.create_dir_all(&p);
                if r.is_ok() {
                    let at = self.canonicalize(&p).unwrap();
                    self.modes.insert(at, 0o700);
                }
                Reply::Done(r)
            },
            Action::WriteText(p, t) => Reply::Done(self.write_file(&p, t.into_bytes())),
            Action::GovernedEntries => Reply::Entries(self.walk(s, s.governed_walk())),
            Action::RunDecrypt(name) => Reply::Revealed(self.run_decrypt(s, s.decrypt(&name))),
            Action::RunInsert(name, data) => Reply::Outcome(self.run_insert(s, s.insert_in_context(&name, data))),
            Action::RunCopy(from, to) => Reply::Outcome(self.run_copy(s, s.copy(&from, &to))),
            Action::RunRemove(name) => Reply::Outcome(self.run_remove(s, s.remove(&name))),
        }
    }

    fn resolve_entry(&mut self, s: &PasswordStore, name: &str) -> Result<String, Error> {
        let mut g = s.guard(name)?;
        loop {
            let verdict = match g.query() {
                GuardQuery::Resolve(p) => g.on_resolved(self.canonicalize(&p)),
                GuardQuery::Exists(p) => g.on_flag(self.path_exists(&p)),
                GuardQuery::IsSymlink(p) => g.on_flag(self.is_symlink(&p)),
            };
            if let Some(v) = verdict {
                return v;
            }
        }
    }

    fn lookup(&mut self, s: &PasswordStore, name: &str) -> Result<Vec<String>, Error> {
        let mut l = s.recipients_for(name);
        loop {
            let file = l.next_file();
            if let Some(out) = l.on_read(self.read_text(&file)) {
                return out;
            }
        }
    }

    fn walk(&mut self, s: &PasswordStore, mut w: EntryWalk) -> Result<Vec<String>, Error> {
        loop {
            match w.query(s.store_dir()) {
                None => return Ok(w.finish()),
                Some(WalkQuery::IsDir(p)) => {
                    let d = self.is_dir(&p);
                    w.on_root(s.store_dir(), d);
                },
                Some(WalkQuery::ReadIds(p)) => w.on_ids(self.read_text(&p))?,
                Some(WalkQuery::ListDir(p)) => w.on_listing(self.list_dir(&p))?,
            }
        }
    }

    fn run_decrypt(&mut self, s: &PasswordStore, mut op: DecryptEntry) -> Result<Vec<u8>, Error> {
        loop {
            let r = self.perform(s, op.action());
            assert!(op.accepts(&r));
            if let Some(out) = op.resume(r) {
                return out;
            }
        }
    }

    fn run_show(&mut self, s: &PasswordStore, mut op: Show) -> Result<String, Error> {
        loop {
            let r = self.perform(s, op.action());
            assert!(op.accepts(&r));
            if let Some(out) = op.resume(r) {
                return out;
            }
        }
    }

    fn run_insert(&mut self, s: &PasswordStore, mut op: Insert) -> Result<(), Error> {
        loop {
            let r = self.perform(s, op.action());
            assert!(op.accepts(&r));
            if let Some(out) = op.resume(r) {
                return out;
            }
        }
    }

    fn run_remove(&mut self, s: &PasswordStore, mut op: Remove) -> Result<(), Error> {
        loop {
            let r = self.perform(s, op.action());
            assert!(op.accepts(&r));
            if let Some(out) = op.resume(r) {
                return out;
            }
        }
    }

    fn run_exists(&mut self, s: &PasswordStore, mut op: Exists) -> bool {
        loop {
            let r = self.perform(s, op.action());
            assert!(op.accepts(&r));
            if let Some(out) = op.resume(r) {
                return out;
            }
        }
    }

    fn run_copy(&mut self, s: &PasswordStore, mut op: CopyEntry) -> Result<(), Error> {
        loop {
            let r = self.perform(s, op.action());
            assert!(op.accepts(&r));
            if let Some(out) = op.resume(r) {
                return out;
            }
        }
    }

    fn run_rename(&mut self, s: &PasswordStore, mut op: Rename) -> Result<(), Error> {
        loop {
            let r = self.perform(s, op.action());
            assert!(op.accepts(&r));
            if let Some(out) = op.resume(r) {
                return out;
            }
        }
    }

    fn run_init(&mut self, s: &PasswordStore, mut op: Init) -> Result<(), Error> {
        loop {
            let r = self.perform(s, op.action());
            assert!(op.accepts(&r));
            if let Some(out) = op.resume(r) {
                return out;
            }
        }
    }

    fn run_generate(&mut self, s: &PasswordStore, mut g: PasswordGeneration) -> Result<String, Error> {
        while g.needs_random() {
            let block = self.random_block();
            g.feed(&block);
        }
        let i = g.insertion(s);
        self.run_insert(s, i)?;
        Ok(g.into_password())
    }
}

/// A store handle on the fixture, and the operations on it.
struct Fixture {
    w: World,
    s: PasswordStore,
}

impl Fixture {
    fn new() -> Fixture {
        Fixture { w: World::new(), s: PasswordStore::with_store_dir(STORE).with_gpg_home(GNUPGHOME) }
    }

    fn initialized() -> Fixture {
        let mut f = Fixture::new();
        f.init(&[TEST_KEY_ID]).unwrap();
        f
    }

    fn init(&mut self, ids: &[&str]) -> Result<(), Error> {
        let op = self.s.init(ids)?;
        self.w.run_init(&self.s, op)
    }

    fn show(&mut self, name: &str) -> Result<String, Error> {
        let op = self.s.show(name);
        self.w.run_show(&self.s, op)
    }

    fn password(&mut self, name: &str) -> Result<String, Error> {
        let op = self.s.password(name);
        self.w.run_show(&self.s, op)
    }

    fn insert(&mut self, name: &str, contents: &str) -> Result<(), Error> {
        let op = self.s.insert(name, contents);
        self.w.run_insert(&self.s, op)
    }

    fn remove(&mut self, name: &str) -> Result<(), Error> {
        let op = self.s.remove(name);
        self.w.run_remove(&self.s, op)
    }

    fn has_entry(&mut self, name: &str) -> bool {
        let op = self.s.has_entry(name);
        self.w.run_exists(&self.s, op)
    }

    fn copy(&mut self, from: &str, to: &str) -> Result<(), Error> {
        let op = self.s.copy(from, to);
        self.w.run_copy(&self.s, op)
    }

    fn rename(&mut self, from: &str, to: &str) -> Result<(), Error> {
        let op = self.s.rename(from, to);
        self.w.run_rename(&self.s, op)
    }

    fn list(&mut self) -> Result<Vec<String>, Error> {
        let w = self.s.list();
        self.w.walk(&self.s, w)
    }

    fn generate(&mut self, name: &str, length: usize) -> Result<String, Error> {
        let g = self.s.generate(name, length);
        self.w.run_generate(&self.s, g)
    }

    fn generate_alphanumeric(&mut self, name: &str, length: usize) -> Result<String, Error> {
        let g = self.s.generate_alphanumeric(name, length);
        self.w.run_generate(&self.s, g)
    }

    fn sub_domain_for_second_key(&mut self) {
        self.w.mkdir(&format!("{STORE}/sub"));
        self.w.write_text_file(&format!("{STORE}/sub/.gpg-id"), &format!("{TEST_KEY_ID_2}\n"));
    }
}

#[test]
fn insert_then_show_roundtrips_contents() {
    let mut f = Fixture::initialized();
    f.insert("web/example.com", "hunter2\nusername: joseph\n").expect("pass insert");
    let shown = f.show("web/example.com").expect("pass show");
    assert_eq!(shown, "hunter2\nusername: joseph\n");
}

#[test]
fn password_returns_first_line_only() {
    let mut f = Fixture::initialized();
    f.insert("web/example.com", "hunter2\nusername: joseph\n").unwrap();
    assert_eq!(f.password("web/example.com").unwrap(), "hunter2");
}

#[test]
fn insert_overwrites_existing_entry() {
    let mut f = Fixture::initialized();
    f.insert("entry", "old\n").unwrap();
    f.insert("entry", "new\n").expect("insert over existing entry");
    assert_eq!(f.show("entry").unwrap(), "new\n");
}

#[test]
fn show_missing_entry_returns_not_found() {
    let mut f = Fixture::initialized();
    let err = f.show("no/such/entry").unwrap_err();
    assert!(matches!(err, Error::NotFound(ref name) if name == "no/such/entry"), "expected NotFound, got: {err:?}");
    assert_eq!(err.message(), "no/such/entry is not in the password store");
}

#[test]
fn exists_reflects_entry_presence() {
    let mut f = Fixture::initialized();
    f.insert("present", "secret\n").unwrap();
    assert!(f.has_entry("present"));
    assert!(!f.has_entry("absent"));
}

#[test]
fn remove_deletes_entry() {
    let mut f = Fixture::initialized();
    f.insert("doomed", "secret\n").unwrap();
    f.remove("doomed").expect("remove");
    assert!(!f.has_entry("doomed"));
}

#[test]
fn remove_missing_entry_returns_not_found() {
    let mut f = Fixture::initialized();
    let err = f.remove("ghost").unwrap_err();
    assert!(matches!(err, Error::NotFound(ref n) if n == "ghost"));
}

#[test]
fn generate_creates_entry_with_password_of_requested_length() {
    let mut f = Fixture::initialized();
    let password = f.generate("generated", 24).expect("generate");
    assert_eq!(password.chars().count(), 24);
    assert!(password.chars().all(|c| c.is_ascii_graphic()));
    assert_eq!(f.password("generated").unwrap(), password);
}

#[test]
fn generate_alphanumeric_uses_no_symbols() {
    let mut f = Fixture::initialized();
    let password = f.generate_alphanumeric("generated", 32).expect("generate");
    assert_eq!(password.chars().count(), 32);
    assert!(password.chars().all(|c| c.is_ascii_alphanumeric()));
}

#[test]
fn generate_length_zero_creates_empty_password() {
    let mut f = Fixture::initialized();
    let password = f.generate("empty", 0).expect("generate");
    assert_eq!(password, "");
    assert_eq!(f.password("empty").unwrap(), "");
}

#[test]
fn list_returns_sorted_entry_names_recursively() {
    let mut f = Fixture::initialized();
    f.insert("zeta", "1\n").unwrap();
    f.insert("web/example.com", "2\n").unwrap();
    f.insert("web/nested/deep", "3\n").unwrap();
    let entries = f.list().expect("list");
    assert_eq!(entries, vec!["web/example.com", "web/nested/deep", "zeta"]);
}

#[test]
fn list_on_empty_store_returns_empty() {
    let mut f = Fixture::initialized();
    assert_eq!(f.list().unwrap(), Vec::<String>::new());
}

#[test]
fn list_on_missing_store_dir_is_io_error() {
    let mut f = Fixture::new();
    let err = f.list().unwrap_err();
    assert!(matches!(err, Error::Io(_)), "expected Io, got: {err:?}");
}

#[test]
fn copy_duplicates_entry() {
    let mut f = Fixture::initialized();
    f.insert("original", "secret\n").unwrap();
    f.copy("original", "duplicate").expect("copy");
    assert_eq!(f.show("original").unwrap(), "secret\n");
    assert_eq!(f.show("duplicate").unwrap(), "secret\n");
}

#[test]
fn copy_to_same_name_is_noop() {
    let mut f = Fixture::initialized();
    f.insert("entry", "secret\n").unwrap();
    f.copy("entry", "entry").expect("copy onto itself");
    assert_eq!(f.show("entry").unwrap(), "secret\n");
}

#[test]
fn rename_moves_entry() {
    let mut f = Fixture::initialized();
    f.insert("old/name", "secret\n").unwrap();
    f.rename("old/name", "new/name").expect("rename");
    assert!(!f.has_entry("old/name"));
    assert_eq!(f.show("new/name").unwrap(), "secret\n");
}

#[test]
fn rename_to_same_name_preserves_entry() {
    let mut f = Fixture::initialized();
    f.insert("entry", "secret\n").unwrap();
    f.rename("entry", "entry").expect("rename onto itself");
    assert_eq!(f.show("entry").unwrap(), "secret\n");
}

#[test]
fn rename_missing_entry_returns_not_found() {
    let mut f = Fixture::initialized();
    let err = f.rename("ghost", "elsewhere").unwrap_err();
    assert!(matches!(err, Error::NotFound(ref n) if n == "ghost"));
}

#[test]
fn multi_recipient_store_encrypts_to_all_ids() {
    let mut f = Fixture::new();
    f.w.gen_second_key();
    f.init(&[TEST_KEY_ID, TEST_KEY_ID_2]).unwrap();
    f.insert("shared", "secret\n").unwrap();
    let recipients = f.w.recipient_keyids("shared");
    assert!(recipients.contains(&f.w.keyid_of(TEST_KEY_ID)));
    assert!(recipients.contains(&f.w.keyid_of(TEST_KEY_ID_2)));
}

#[test]
fn insert_with_one_missing_recipient_fails() {
    let mut f = Fixture::new();
    f.init(&[TEST_KEY_ID, "nobody@pass-sys.test.invalid"]).unwrap();
    let err = f.insert("entry", "secret\n").unwrap_err();
    assert!(
        matches!(err, Error::KeyNotFound(ref id) if id == "nobody@pass-sys.test.invalid"),
        "expected KeyNotFound, got: {err:?}"
    );
    assert!(!f.has_entry("entry"), "nothing must be written on failure");
}

#[test]
fn nested_gpg_id_override_governs_subfolder() {
    let mut f = Fixture::initialized();
    f.w.gen_second_key();
    f.sub_domain_for_second_key();
    f.insert("sub/entry", "secret\n").unwrap();
    assert_eq!(f.w.recipient_keyids("sub/entry"), vec![f.w.keyid_of(TEST_KEY_ID_2)]);
}

#[test]
fn copy_reencrypts_to_destination_recipients() {
    let mut f = Fixture::initialized();
    f.w.gen_second_key();
    f.sub_domain_for_second_key();
    f.insert("root-entry", "secret\n").unwrap();
    f.copy("root-entry", "sub/entry").expect("copy");
    assert_eq!(f.w.recipient_keyids("root-entry"), vec![f.w.keyid_of(TEST_KEY_ID)]);
    assert_eq!(f.w.recipient_keyids("sub/entry"), vec![f.w.keyid_of(TEST_KEY_ID_2)]);
    assert_eq!(f.show("sub/entry").unwrap(), "secret\n");
}

#[test]
fn rename_across_gpg_id_domains_reencrypts() {
    let mut f = Fixture::initialized();
    f.w.gen_second_key();
    f.sub_domain_for_second_key();
    f.insert("root-entry", "secret\n").unwrap();
    f.rename("root-entry", "sub/entry").expect("rename");
    assert!(!f.has_entry("root-entry"));
    assert_eq!(f.w.recipient_keyids("sub/entry"), vec![f.w.keyid_of(TEST_KEY_ID_2)]);
    assert_eq!(f.show("sub/entry").unwrap(), "secret\n");
}

#[test]
fn rename_rolls_back_destination_when_source_removal_fails() {
    let mut f = Fixture::initialized();
    f.w.gen_second_key();
    f.sub_domain_for_second_key();
    f.insert("pinned", "secret\n").unwrap();
    // Read-only store root: the copy can read the source and write into
    // sub/, but deleting the source must fail.
    f.w.readonly.insert(STORE.to_string());
    let err = f.rename("pinned", "sub/entry").unwrap_err();
    assert!(matches!(err, Error::Io(_)), "expected Io, got: {err:?}");
    assert!(f.has_entry("pinned"), "source must survive a failed rename");
    assert!(!f.has_entry("sub/entry"), "destination must be rolled back after a failed rename");
}

#[test]
fn unicode_entry_names_roundtrip() {
    let mut f = Fixture::initialized();
    f.insert("café/naïve", "sécrète\n").unwrap();
    assert_eq!(f.show("café/naïve").unwrap(), "sécrète\n");
    assert_eq!(f.list().unwrap(), vec!["café/naïve"]);
}

#[test]
fn sneaky_entry_names_are_rejected() {
    let mut f = Fixture::initialized();
    for name in ["../outside", "a/../../outside", "/etc/passwd", ".gpg-id", ""] {
        let err = f.show(name).unwrap_err();
        assert!(matches!(err, Error::SneakyPath(_)), "expected SneakyPath for {name:?}, got: {err:?}");
        assert_eq!(err.message(), format!("entry name {name} escapes the password store"));
    }
}

#[test]
fn symlink_planted_in_store_is_rejected() {
    let mut f = Fixture::initialized();
    let outside = "/tmp/fixture/outside";
    f.w.mkdir(outside);
    f.w.nodes.insert(format!("{STORE}/web"), Node::Link(outside.to_string()));
    let err = f.insert("web/entry", "secret\n").unwrap_err();
    assert!(matches!(err, Error::SneakyPath(_)), "expected SneakyPath, got: {err:?}");
    assert!(f.w.list_dir(outside).unwrap().is_empty(), "nothing may be written outside the store");
}

#[test]
fn ambiguous_gpg_id_returns_gpg_error() {
    let mut f = Fixture::new();
    f.w.gen_second_key();
    // "pass-sys" is a substring of both test key uids, so the key lookup
    // fails with an ambiguous-name error, which is not KeyNotFound.
    f.init(&["pass-sys"]).unwrap();
    let err = f.insert("entry", "secret\n").unwrap_err();
    assert!(matches!(err, Error::Gpg(_)), "expected Gpg, got: {err:?}");
}

#[test]
fn symlinked_entry_file_is_rejected() {
    let mut f = Fixture::initialized();
    let outside = "/tmp/fixture/outside.gpg";
    f.w.write_text_file(outside, "outside data");
    f.w.nodes.insert(format!("{STORE}/leak.gpg"), Node::Link(outside.to_string()));
    let err = f.show("leak").unwrap_err();
    assert!(matches!(err, Error::SneakyPath(_)), "expected SneakyPath, got: {err:?}");
}

#[test]
fn exists_is_false_when_store_dir_is_missing() {
    let mut f = Fixture::new();
    assert!(!f.has_entry("anything"));
}

#[test]
fn entries_written_by_this_crate_are_readable_by_pass() {
    let mut f = Fixture::initialized();
    f.insert("interop", "hunter2\nextra line\n").unwrap();
    let shown = f.w.pass_show("interop").expect("pass show");
    assert_eq!(shown, "hunter2\nextra line\n");
}

#[test]
fn entries_written_by_pass_are_readable_by_this_crate() {
    let mut f = Fixture::initialized();
    f.w.pass_insert("interop", "hunter2\nextra line\n").expect("pass insert");
    assert_eq!(f.show("interop").unwrap(), "hunter2\nextra line\n");
}

#[test]
fn password_and_show_fail_alike_on_non_utf8_entries() {
    let mut f = Fixture::initialized();
    f.w.encrypt_raw("binary", &[b'o', b'k', 0xff, b'x']);
    let shown = f.show("binary").unwrap_err();
    let pw = f.password("binary").unwrap_err();
    match (shown, pw) {
        (Error::Utf8(a), Error::Utf8(b)) => {
            assert_eq!(a.valid_up_to, 2);
            assert_eq!(b.valid_up_to, 2);
            assert_eq!(a.message, b.message);
            assert_eq!(a.message, "invalid utf-8 sequence of 1 bytes from index 2");
        },
        (a, b) => panic!("expected two Utf8 errors, got {a:?} and {b:?}"),
    }
}

#[test]
fn password_of_empty_entry_is_empty() {
    let mut f = Fixture::initialized();
    f.insert("empty", "").unwrap();
    assert_eq!(f.password("empty").unwrap(), "");
}

#[test]
fn insert_without_init_returns_not_initialized() {
    let mut f = Fixture::new();
    f.w.mkdir(STORE);
    let err = f.insert("entry", "secret\n").unwrap_err();
    assert!(matches!(err, Error::NotInitialized(_)), "expected NotInitialized, got: {err:?}");
    assert!(err.message().contains("store not initialized"));
    assert!(err.source().is_none());
}

#[test]
fn insert_with_unknown_gpg_id_returns_key_not_found() {
    let mut f = Fixture::new();
    f.init(&["nobody@pass-sys.test.invalid"]).unwrap();
    let err = f.insert("entry", "secret\n").unwrap_err();
    assert!(
        matches!(err, Error::KeyNotFound(ref id) if id == "nobody@pass-sys.test.invalid"),
        "expected KeyNotFound, got: {err:?}"
    );
    assert!(err.message().contains("no GPG key found"));
}

#[test]
fn empty_gpg_id_in_subfolder_falls_back_to_parent() {
    let mut f = Fixture::initialized();
    f.w.mkdir(&format!("{STORE}/sub"));
    f.w.write_text_file(&format!("{STORE}/sub/.gpg-id"), "\n");
    f.insert("sub/entry", "secret\n").expect("fall back to root .gpg-id");
    assert_eq!(f.show("sub/entry").unwrap(), "secret\n");
}

#[test]
fn unreadable_gpg_id_returns_io_error() {
    let mut f = Fixture::initialized();
    let sub_gpg_id = format!("{STORE}/sub/.gpg-id");
    f.w.mkdir(&format!("{STORE}/sub"));
    f.w.write_text_file(&sub_gpg_id, &format!("{TEST_KEY_ID}\n"));
    f.w.unreadable.insert(sub_gpg_id);
    // An unreadable .gpg-id is a hard error, not a silent fallback to the
    // parent's recipient set.
    let err = f.insert("sub/entry", "secret\n").unwrap_err();
    assert!(matches!(err, Error::Io(_)), "expected Io, got: {err:?}");
}

#[test]
fn show_non_utf8_entry_returns_utf8_error() {
    let mut f = Fixture::initialized();
    f.w.encrypt_raw("binary", &[0xff, 0xfe, 0x00, 0x80]);
    let err = f.show("binary").unwrap_err();
    assert!(matches!(err, Error::Utf8(_)), "expected Utf8, got: {err:?}");
    assert!(err.message().contains("not valid UTF-8"));
    assert!(err.source().is_some());
}

#[test]
fn show_unreadable_entry_returns_io_error() {
    let mut f = Fixture::initialized();
    f.insert("locked", "secret\n").unwrap();
    f.w.unreadable.insert(format!("{STORE}/locked.gpg"));
    let err = f.show("locked").unwrap_err();
    assert!(matches!(err, Error::Io(_)), "expected Io, got: {err:?}");
    assert!(err.message().contains("I/O error"));
    assert!(err.source().is_some());
}

#[test]
fn show_corrupt_entry_returns_gpg_error() {
    let mut f = Fixture::initialized();
    f.w.write_text_file(&format!("{STORE}/corrupt.gpg"), "this is not openpgp data");
    let mut plain = Fixture { w: f.w, s: PasswordStore::with_store_dir(STORE) };
    let err = plain.show("corrupt").unwrap_err();
    assert!(matches!(err, Error::Gpg(_)), "expected Gpg, got: {err:?}");
    assert!(err.message().starts_with("gpg error"));
    assert!(err.source().is_some());
}

#[test]
fn remove_from_readonly_dir_returns_io_error() {
    let mut f = Fixture::initialized();
    f.insert("pinned", "secret\n").unwrap();
    f.w.readonly.insert(STORE.to_string());
    let err = f.remove("pinned").unwrap_err();
    assert!(matches!(err, Error::Io(_)), "expected Io, got: {err:?}");
}

#[test]
fn init_at_impossible_path_returns_io_error() {
    let mut f = Fixture::new();
    f.s = PasswordStore::with_store_dir("/dev/null/store");
    let err = f.init(&[TEST_KEY_ID]).unwrap_err();
    assert!(matches!(err, Error::Io(_)), "expected Io, got: {err:?}");
}

#[test]
fn init_creates_store_with_gpg_id() {
    let mut f = Fixture::new();
    f.init(&[TEST_KEY_ID]).expect("pass init");
    let gpg_id = f.w.read_text(&format!("{STORE}/.gpg-id")).unwrap();
    assert_eq!(gpg_id.trim(), TEST_KEY_ID);
    assert_eq!(f.w.modes.get(STORE), Some(&0o700), "store dir must be private");
}

#[test]
fn doc_example_flow_works_end_to_end() {
    let mut f = Fixture::initialized();
    f.insert("web/example.com", "hunter2\nusername: joseph\n").unwrap();
    assert_eq!(f.password("web/example.com").unwrap(), "hunter2");
    assert_eq!(f.show("web/example.com").unwrap(), "hunter2\nusername: joseph\n");
    assert_eq!(f.list().unwrap(), vec!["web/example.com"]);
}

// ---------------------------------------------------------------------
// Beyond the scenarios above: the rules that span operations.

#[test]
fn init_rejects_empty_id_sets() {
    let mut f = Fixture::new();
    assert!(matches!(f.init(&[]), Err(Error::NoGpgIds)));
    assert!(matches!(f.init(&[TEST_KEY_ID, "  "]), Err(Error::NoGpgIds)));
    assert!(!f.w.path_exists(STORE), "nothing is created for a refused init");
}

#[test]
fn init_writes_trimmed_ids_one_per_line() {
    let mut f = Fixture::new();
    f.w.gen_second_key();
    f.init(&[" pass-sys@test.invalid ", "pass-sys-b@test.invalid\n"]).unwrap();
    let text = f.w.read_text(&format!("{STORE}/.gpg-id")).unwrap();
    assert_eq!(text, "pass-sys@test.invalid\npass-sys-b@test.invalid\n");
}

#[test]
fn init_reencrypts_governed_entries_when_ids_change() {
    let mut f = Fixture::initialized();
    f.w.gen_second_key();
    f.insert("web/a", "one\n").unwrap();
    f.insert("b", "two\n").unwrap();
    f.w.mkdir(&format!("{STORE}/own"));
    f.w.write_text_file(&format!("{STORE}/own/.gpg-id"), &format!("{TEST_KEY_ID}\n"));
    f.insert("own/c", "three\n").unwrap();
    f.init(&[TEST_KEY_ID_2]).unwrap();
    let b = f.w.keyid_of(TEST_KEY_ID_2);
    let a = f.w.keyid_of(TEST_KEY_ID);
    assert_eq!(f.w.recipient_keyids("web/a"), vec![b.clone()]);
    assert_eq!(f.w.recipient_keyids("b"), vec![b]);
    assert_eq!(f.w.recipient_keyids("own/c"), vec![a], "a subfolder with its own ids is left alone");
    assert_eq!(f.show("web/a").unwrap(), "one\n");
    assert_eq!(f.w.read_text(&format!("{STORE}/.gpg-id")).unwrap(), format!("{TEST_KEY_ID_2}\n"));
}

#[test]
fn init_with_same_ids_leaves_entries_untouched() {
    let mut f = Fixture::initialized();
    f.insert("entry", "secret\n").unwrap();
    let before = f.w.read(&format!("{STORE}/entry.gpg")).unwrap();
    f.w.unreadable.insert(format!("{STORE}/entry.gpg"));
    f.init(&[TEST_KEY_ID]).expect("same ids: nothing to re-encrypt");
    f.w.unreadable.clear();
    assert_eq!(f.w.read(&format!("{STORE}/entry.gpg")).unwrap(), before);
}

#[test]
fn init_with_missing_new_key_changes_nothing() {
    let mut f = Fixture::initialized();
    f.insert("entry", "secret\n").unwrap();
    let before = f.w.read(&format!("{STORE}/entry.gpg")).unwrap();
    let err = f.init(&["nobody@pass-sys.test.invalid"]).unwrap_err();
    assert!(matches!(err, Error::KeyNotFound(ref id) if id == "nobody@pass-sys.test.invalid"));
    assert_eq!(f.w.read(&format!("{STORE}/entry.gpg")).unwrap(), before);
    assert_eq!(f.w.read_text(&format!("{STORE}/.gpg-id")).unwrap(), format!("{TEST_KEY_ID}\n"));
}

#[test]
fn rename_within_one_domain_moves_the_file_unchanged() {
    let mut f = Fixture::initialized();
    f.insert("a", "secret\n").unwrap();
    let before = f.w.read(&format!("{STORE}/a.gpg")).unwrap();
    f.rename("a", "deep/er/b").unwrap();
    assert_eq!(f.w.read(&format!("{STORE}/deep/er/b.gpg")).unwrap(), before);
    assert!(!f.w.path_exists(&format!("{STORE}/a.gpg")));
}

#[test]
fn rename_keeps_both_when_destination_existed_and_removal_fails() {
    let mut f = Fixture::initialized();
    f.w.gen_second_key();
    f.sub_domain_for_second_key();
    f.insert("pinned", "new\n").unwrap();
    f.insert("sub/entry", "old\n").unwrap();
    f.w.readonly.insert(STORE.to_string());
    let err = f.rename("pinned", "sub/entry").unwrap_err();
    assert!(matches!(err, Error::Io(_)));
    assert!(f.has_entry("pinned"));
    assert_eq!(f.show("sub/entry").unwrap(), "new\n");
}

#[test]
fn copy_and_rename_onto_a_spelling_of_the_same_path_do_nothing() {
    let mut f = Fixture::initialized();
    f.insert("a/b", "secret\n").unwrap();
    let before = f.w.read(&format!("{STORE}/a/b.gpg")).unwrap();
    f.copy("a/b", "a//b").unwrap();
    f.rename("a/./b", "a/b").unwrap();
    assert_eq!(f.w.read(&format!("{STORE}/a/b.gpg")).unwrap(), before);
}

#[test]
fn copy_of_non_utf8_entry_is_refused() {
    let mut f = Fixture::initialized();
    f.w.encrypt_raw("binary", &[0xff, 0x00]);
    assert!(matches!(f.copy("binary", "other"), Err(Error::Utf8(_))));
    assert!(!f.has_entry("other"));
}

#[test]
fn list_skips_dot_files_and_non_gpg_files() {
    let mut f = Fixture::initialized();
    f.insert("a", "1\n").unwrap();
    f.w.write_text_file(&format!("{STORE}/notes.txt"), "x");
    f.w.mkdir(&format!("{STORE}/.git"));
    f.w.write_text_file(&format!("{STORE}/.git/x.gpg"), "x");
    f.w.write_text_file(&format!("{STORE}/.hidden.gpg"), "x");
    assert_eq!(f.list().unwrap(), vec!["a"]);
}

#[test]
fn generation_keeps_only_charset_bytes_in_order() {
    let s = PasswordStore::with_store_dir(STORE);
    let mut g = s.generate_alphanumeric("x", 5);
    assert!(g.needs_random());
    g.feed(&[b'a', b'!', 0xc3, b'B', b' ', b'7']);
    assert_eq!(g.password(), "aB7");
    assert!(g.needs_random());
    g.feed(&[b'-', b'c', b'd', b'e', b'f']);
    assert_eq!(g.password(), "aB7cd");
    assert!(!g.needs_random());
    assert_eq!(g.contents(), "aB7cd\n");
    let mut h = s.generate("y", 3);
    h.feed(&[b' ', b'~', b'!', 0x7f, b'{']);
    assert_eq!(h.password(), "~!{");
    assert_eq!(h.name(), "y");
    assert_eq!(h.into_password(), "~!{");
}

#[test]
fn nearest_nonempty_gpg_id_decides_through_several_levels() {
    let mut f = Fixture::initialized();
    f.w.gen_second_key();
    f.sub_domain_for_second_key();
    f.w.mkdir(&format!("{STORE}/sub/x/y"));
    f.w.write_text_file(&format!("{STORE}/sub/x/.gpg-id"), "  \n\n");
    f.insert("sub/x/y/z", "s\n").unwrap();
    assert_eq!(f.w.recipient_keyids("sub/x/y/z"), vec![f.w.keyid_of(TEST_KEY_ID_2)]);
}
