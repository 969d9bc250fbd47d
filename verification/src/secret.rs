//! Decrypted contents: turning them into text, taking the password line,
//! and wiping the buffers that held them.

use vstd::prelude::*;
use vstd::utf8::{decode_utf8, valid_utf8};

use crate::error::{Error, Utf8Failure};
use crate::text::{first_line, first_line_of};

verus! {

/// Overwrites a string's bytes with zeros and empties it.
///
/// Calls `zeroize::Zeroize::zeroize` on the `String`, which zeroes its
/// bytes (and spare capacity) and then clears it, so it is left empty.
#[verifier::external_body]
pub(crate) fn wipe_text(s: &mut String)
    ensures
        final(s)@ == Seq::<char>::empty(),
{
    zeroize::Zeroize::zeroize(s);
}

/// Overwrites a byte buffer with zeros and empties it.
///
/// Calls `zeroize::Zeroize::zeroize` on the `Vec<u8>`, which zeroes its
/// elements and spare capacity and then clears it, so it is left empty.
#[verifier::external_body]
pub(crate) fn wipe_bytes(v: &mut Vec<u8>)
    ensures
        final(v)@ == Seq::<u8>::empty(),
{
    zeroize::Zeroize::zeroize(v);
}

/// Whether `n` is the length of the longest prefix of `bytes` that is
/// valid UTF-8.
pub open spec fn longest_valid_prefix(bytes: Seq<u8>, n: int) -> bool {
    &&& 0 <= n <= bytes.len()
    &&& valid_utf8(bytes.take(n))
    &&& forall|j: int| n < j <= bytes.len() ==> !valid_utf8(#[trigger] bytes.take(j))
}

/// The description that std gives of the failure to read `bytes` as UTF-8
/// (the `Display` text of the `Utf8Error` that `std::str::from_utf8`
/// returns for them).
pub uninterp spec fn utf8_error_text(bytes: Seq<u8>) -> Seq<char>;

/// Whether `f` describes the failure to read `bytes` as UTF-8: its
/// `valid_up_to` is the length of their longest valid prefix, and its
/// message is std's description of the failure.
pub open spec fn utf8_failure_of(f: Utf8Failure, bytes: Seq<u8>) -> bool {
    &&& longest_valid_prefix(bytes, f.valid_up_to as int)
    &&& f.message@ == utf8_error_text(bytes)
}

/// Reads bytes as UTF-8 text.
///
/// Calls `std::str::from_utf8`, which accepts exactly the valid UTF-8 byte
/// sequences and then gives the text they encode. On failure, the error's
/// `valid_up_to` is, as std documents it, the largest index such that the
/// bytes before it are valid UTF-8; its `Display` text depends on the bytes
/// alone and is given by name, not stated.
#[verifier::external_body]
fn utf8_text(bytes: &[u8]) -> (r: Result<String, Utf8Failure>)
    ensures
        r is Ok <==> valid_utf8(bytes@),
        r matches Ok(s) ==> s@ == decode_utf8(bytes@),
        r matches Err(f) ==> longest_valid_prefix(bytes@, f.valid_up_to as int),
        r matches Err(f) ==> f.message@ == utf8_error_text(bytes@),
{
    match std::str::from_utf8(bytes) {
        Ok(s) => Ok(s.to_owned()),
        Err(e) => Err(Utf8Failure { valid_up_to: e.valid_up_to(), message: format!("{e}") }),
    }
}

/// The text of an entry's decrypted contents; contents that are not valid
/// UTF-8 give a `Utf8` error that describes their failure. The plaintext
/// buffer is wiped before it is dropped.
pub fn entry_text(plaintext: Vec<u8>) -> (r: Result<String, Error>)
    ensures
        r is Ok <==> valid_utf8(plaintext@),
        r matches Ok(s) ==> s@ == decode_utf8(plaintext@),
        r matches Err(e) ==> (e matches Error::Utf8(f) && utf8_failure_of(f, plaintext@)),
{
    let mut plaintext = plaintext;
    let r = utf8_text(plaintext.as_slice());
    wipe_bytes(&mut plaintext);
    match r {
        Ok(s) => Ok(s),
        Err(f) => Err(Error::Utf8(f)),
    }
}

/// The password stored in an entry: the first line of its contents. The
/// full contents are wiped before they are dropped.
pub fn password_from(contents: String) -> (pw: String)
    ensures
        pw@ == first_line_of(contents@),
{
    let pw = first_line(contents.as_str());
    let mut contents = contents;
    wipe_text(&mut contents);
    pw
}

} // verus!
