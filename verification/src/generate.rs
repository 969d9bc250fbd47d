//! Password generation by rejection sampling: random bytes are read as
//! characters, those outside the character set are dropped, and the rest
//! are kept in order until the password has the requested length.

use vstd::prelude::*;

use crate::ops::Insert;
use crate::paths::parent_text;
use crate::store::PasswordStore;
use crate::text::{first_line_of, lemma_line_end, line_end, lines, push_char, strip_cr};
use vstd::utf8::{decode_utf8, encode_utf8};

verus! {

/// The characters a generated password may hold.
#[derive(PartialEq, Eq, Structural, Clone, Copy)]
pub enum Charset {
    /// Printable ASCII other than space (`[:graph:]`, `char::is_ascii_graphic`).
    Graphic,
    /// ASCII letters and digits (`[:alnum:]`, `char::is_ascii_alphanumeric`).
    Alphanumeric,
}

/// Whether `c` belongs to the character set `cs`.
pub open spec fn in_charset(cs: Charset, c: char) -> bool {
    match cs {
        Charset::Graphic => '!' <= c && c <= '~',
        Charset::Alphanumeric => ('0' <= c && c <= '9') || ('A' <= c && c <= 'Z') || ('a' <= c
            && c <= 'z'),
    }
}

/// Whether `c` belongs to the character set `cs`.
pub fn accepts(cs: Charset, c: char) -> (r: bool)
    ensures
        r == in_charset(cs, c),
{
    match cs {
        Charset::Graphic => '!' <= c && c <= '~',
        Charset::Alphanumeric => ('0' <= c && c <= '9') || ('A' <= c && c <= 'Z') || ('a' <= c
            && c <= 'z'),
    }
}

/// The characters of `block` (each byte read as the character with that
/// code) that belong to `cs`, in order.
pub open spec fn accepted(cs: Charset, block: Seq<u8>) -> Seq<char>
    decreases block.len(),
{
    if block.len() == 0 {
        seq![]
    } else {
        let rest = accepted(cs, block.drop_last());
        let c = block.last() as char;
        if in_charset(cs, c) {
            rest.push(c)
        } else {
            rest
        }
    }
}

proof fn lemma_accepted_prefix(cs: Charset, block: Seq<u8>, k: int)
    requires
        0 <= k <= block.len(),
    ensures
        accepted(cs, block.take(k)).is_prefix_of(accepted(cs, block)),
    decreases block.len(),
{
    if k == block.len() {
        assert(block.take(k) =~= block);
    } else {
        assert(block.drop_last().take(k) =~= block.take(k));
        lemma_accepted_prefix(cs, block.drop_last(), k);
    }
}

/// A password being generated for an entry: it grows from random blocks
/// until it has the requested length.
pub struct PasswordGeneration {
    name: String,
    length: usize,
    charset: Charset,
    password: String,
    count: usize,
}

impl PasswordGeneration {
    #[verifier::type_invariant]
    spec fn inv(self) -> bool {
        &&& self.count == self.password@.len()
        &&& self.count <= self.length
        &&& forall|i: int|
            0 <= i < self.password@.len() ==> in_charset(self.charset, #[trigger] self.password@[i])
    }

    /// The entry the password is for.
    pub closed spec fn entry(&self) -> Seq<char> {
        self.name@
    }

    /// The requested length.
    pub closed spec fn length(&self) -> nat {
        self.length as nat
    }

    /// The character set.
    pub closed spec fn charset(&self) -> Charset {
        self.charset
    }

    /// The password so far.
    pub closed spec fn so_far(&self) -> Seq<char> {
        self.password@
    }

    /// Whether more random bytes are needed.
    pub fn needs_random(&self) -> (r: bool)
        ensures
            r == (self.so_far().len() < self.length()),
    {
        proof {
            use_type_invariant(self);
        }
        self.count < self.length
    }

    /// Takes a block of random bytes: each one, read as a character, is
    /// kept if it belongs to the character set, until the password has the
    /// requested length; the rest are dropped.
    pub fn feed(&mut self, block: &[u8])
        ensures
            final(self).entry() == old(self).entry(),
            final(self).length() == old(self).length(),
            final(self).charset() == old(self).charset(),
            final(self).so_far() == old(self).so_far() + accepted(old(self).charset(), block@).take(
                vstd::math::min(
                    accepted(old(self).charset(), block@).len() as int,
                    old(self).length() - old(self).so_far().len(),
                ),
            ),
    {
        proof {
            use_type_invariant(&*self);
        }
        let ghost start = self.password@;
        let ghost cs = self.charset;
        let ghost need = self.length - self.count;
        let mut password = self.password.as_str().to_owned();
        let mut count = self.count;
        let mut k: usize = 0;
        while k < block.len() && count < self.length
            invariant
                k <= block.len(),
                cs == self.charset,
                start.len() <= count <= self.length,
                count == password@.len(),
                need == self.length - start.len(),
                password@ == start + accepted(cs, block@.take(k as int)),
                forall|i: int| 0 <= i < password@.len() ==> in_charset(cs, #[trigger] password@[i]),
            decreases block.len() - k,
        {
            let c = block[k] as char;
            assert(block@.take(k + 1).drop_last() =~= block@.take(k as int));
            assert(block@.take(k + 1).last() == block@[k as int]);
            if accepts(self.charset, c) {
                push_char(&mut password, c);
                count = count + 1;
            }
            assert(password@ =~= start + accepted(cs, block@.take(k + 1)));
            k += 1;
        }
        proof {
            lemma_accepted_prefix(cs, block@, k as int);
            let acc = accepted(cs, block@);
            let got = accepted(cs, block@.take(k as int));
            if k == block.len() {
                assert(block@.take(k as int) =~= block@);
                assert(got.len() <= need);
                assert(acc.take(got.len() as int) =~= acc);
            } else {
                assert(got.len() == need);
                assert(acc.take(need as int) =~= got);
            }
            assert(password@ =~= start + acc.take(vstd::math::min(acc.len() as int, need as int)));
        }
        let name = self.name.as_str().to_owned();
        *self = PasswordGeneration { name, length: self.length, charset: self.charset, password, count };
    }

    /// The entry the password is for.
    pub fn name(&self) -> (n: &str)
        ensures
            n@ == self.entry(),
    {
        self.name.as_str()
    }

    /// The password generated so far: at most the requested length, all of
    /// it from the character set.
    pub fn password(&self) -> (p: String)
        ensures
            p@ == self.so_far(),
            p@.len() <= self.length(),
            forall|i: int| 0 <= i < p@.len() ==> in_charset(self.charset(), #[trigger] p@[i]),
    {
        proof {
            use_type_invariant(self);
        }
        self.password.as_str().to_owned()
    }

    /// The password generated, handed over without a copy being left
    /// behind: at most the requested length, all of it from the character
    /// set.
    pub fn into_password(self) -> (p: String)
        ensures
            p@ == self.so_far(),
            p@.len() <= self.length(),
            forall|i: int| 0 <= i < p@.len() ==> in_charset(self.charset(), #[trigger] p@[i]),
    {
        proof {
            use_type_invariant(&self);
        }
        self.password
    }

    /// The insertion that stores the password: the entry's contents are
    /// the password and a newline.
    pub fn insertion(&self, store: &PasswordStore) -> (i: Insert)
        ensures
            i.name() == self.entry(),
            i.dir() == parent_text(store.entry_file_path(self.entry())),
            i.data() == vstd::utf8::encode_utf8(self.so_far() + seq!['\n']),
            i.stage() is Context,
            i.well_formed(),
    {
        let mut contents = self.contents();
        let i = store.insert(self.name.as_str(), contents.as_str());
        crate::secret::wipe_text(&mut contents);
        i
    }

    /// The contents stored for the entry: the password and a newline.
    pub fn contents(&self) -> (c: String)
        ensures
            c@ == self.so_far() + seq!['\n'],
    {
        let mut c = self.password.as_str().to_owned();
        push_char(&mut c, '\n');
        c
    }
}

/// The character sets by code point: `Graphic` is exactly the printable
/// ASCII characters other than space, `'!'` (33) to `'~'` (126), as
/// `char::is_ascii_graphic` has it, so it holds no control character and no
/// white space; `Alphanumeric` is exactly the ASCII digits (48 to 57),
/// capitals (65 to 90) and small letters (97 to 122), as
/// `char::is_ascii_alphanumeric` has it, and lies within `Graphic`.
pub proof fn lemma_charsets_by_code_point(c: char)
    ensures
        in_charset(Charset::Graphic, c) <==> 33 <= (c as u32) && (c as u32) <= 126,
        in_charset(Charset::Alphanumeric, c) <==> (48 <= (c as u32) && (c as u32) <= 57) || (65
            <= (c as u32) && (c as u32) <= 90) || (97 <= (c as u32) && (c as u32) <= 122),
        in_charset(Charset::Alphanumeric, c) ==> in_charset(Charset::Graphic, c),
{
}

/// Every character of a password generated so far belongs to its set, by
/// code point (see [`lemma_charsets_by_code_point`]).
pub proof fn lemma_generated_characters(cs: Charset, pw: Seq<char>, i: int)
    requires
        forall|j: int| 0 <= j < pw.len() ==> in_charset(cs, #[trigger] pw[j]),
        0 <= i < pw.len(),
    ensures
        33 <= (pw[i] as u32) <= 126,
        cs == Charset::Alphanumeric ==> (48 <= (pw[i] as u32) <= 57) || (65 <= (pw[i] as u32)
            <= 90) || (97 <= (pw[i] as u32) <= 122),
{
    lemma_charsets_by_code_point(pw[i]);
}

/// Feeding random bytes keeps exactly those that, read as characters,
/// belong to the set, in order: a byte outside it (such as `'_'` for
/// `Alphanumeric`, or a tab for `Graphic`) never enters the password.
pub proof fn lemma_accepted_members(cs: Charset, block: Seq<u8>)
    ensures
        forall|i: int| 0 <= i < accepted(cs, block).len() ==> in_charset(cs, #[trigger] accepted(cs, block)[i]),
        accepted(cs, block).len() <= block.len(),
        (forall|i: int| 0 <= i < block.len() ==> in_charset(cs, #[trigger] block[i] as char))
            ==> accepted(cs, block) == block.map_values(|b: u8| b as char),
        (forall|i: int| 0 <= i < block.len() ==> !in_charset(cs, #[trigger] block[i] as char))
            ==> accepted(cs, block).len() == 0,
    decreases block.len(),
{
    if block.len() > 0 {
        let rest = block.drop_last();
        lemma_accepted_members(cs, rest);
        assert forall|i: int| 0 <= i < rest.len() implies #[trigger] rest[i] == block[i] by {}
        if forall|i: int| 0 <= i < block.len() ==> in_charset(cs, #[trigger] block[i] as char) {
            assert(forall|i: int| 0 <= i < rest.len() ==> in_charset(cs, #[trigger] rest[i] as char));
            assert(in_charset(cs, block[block.len() - 1] as char));
            assert(accepted(cs, block) =~= block.map_values(|b: u8| b as char));
        }
        if forall|i: int| 0 <= i < block.len() ==> !in_charset(cs, #[trigger] block[i] as char) {
            assert(forall|i: int| 0 <= i < rest.len() ==> !in_charset(cs, #[trigger] rest[i] as char));
            assert(!in_charset(cs, block[block.len() - 1] as char));
        }
    }
}

/// A generated password is what reading the entry's password gives back:
/// the entry stores the password and a newline
/// ([`PasswordGeneration::insertion`]), and once that plaintext is decrypted
/// unchanged, its first line ([`crate::ops::Show`] asked for the password)
/// is the password itself, since no character of either set ends a line.
pub proof fn lemma_generated_password_read_back(cs: Charset, pw: Seq<char>)
    requires
        forall|i: int| 0 <= i < pw.len() ==> in_charset(cs, #[trigger] pw[i]),
    ensures
        first_line_of(decode_utf8(encode_utf8(pw + seq!['\n']))) == pw,
{
    let s = pw + seq!['\n'];
    vstd::utf8::encode_utf8_decode_utf8(s);
    lemma_line_end(s);
    let e = line_end(s);
    if e < pw.len() {
        assert(in_charset(cs, pw[e]));
        assert(s[e] == pw[e]);
    }
    if e > pw.len() {
        assert(s[pw.len() as int] == '\n');
    }
    assert(e == pw.len());
    assert(s.take(e) =~= pw);
    if pw.len() > 0 {
        assert(in_charset(cs, pw[pw.len() - 1]));
    }
    assert(lines(s)[0] == strip_cr(pw));
}

impl PasswordStore {
    /// Starts generating a password of `length` printable ASCII characters
    /// (like `pass generate`) for the entry `name`.
    pub fn generate(&self, name: &str, length: usize) -> (g: PasswordGeneration)
        ensures
            g.entry() == name@,
            g.length() == length,
            g.charset() == Charset::Graphic,
            g.so_far() == Seq::<char>::empty(),
    {
        PasswordGeneration {
            name: name.to_owned(),
            length,
            charset: Charset::Graphic,
            password: String::new(),
            count: 0,
        }
    }

    /// Starts generating a password of `length` alphanumeric characters
    /// (like `pass generate --no-symbols`) for the entry `name`.
    pub fn generate_alphanumeric(&self, name: &str, length: usize) -> (g: PasswordGeneration)
        ensures
            g.entry() == name@,
            g.length() == length,
            g.charset() == Charset::Alphanumeric,
            g.so_far() == Seq::<char>::empty(),
    {
        PasswordGeneration {
            name: name.to_owned(),
            length,
            charset: Charset::Alphanumeric,
            password: String::new(),
            count: 0,
        }
    }
}

} // verus!
