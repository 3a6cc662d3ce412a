//! Base64 text of bytes, as the `base64` crate's standard engine writes and
//! reads it.

use base64::prelude::Engine;
use base64::prelude::BASE64_STANDARD;
use vstd::prelude::*;

verus! {

/// The text that `base64::Engine::encode` of the crate's standard engine
/// gives for `bytes`: the standard alphabet, with padding. It is named here,
/// not defined.
pub uninterp spec fn base64_text(bytes: Seq<u8>) -> Seq<char>;

/// The bytes that `base64::Engine::decode` of the crate's standard engine
/// gives for `text`; none where it takes `text` for no base64 text. It is
/// named here, not defined.
pub uninterp spec fn base64_bytes(text: Seq<char>) -> Option<Seq<u8>>;

/// The length of the base64 text of `len` bytes: four characters for every
/// three bytes, the last group padded.
pub open spec fn base64_len(len: nat) -> nat {
    4 * ((len + 2) / 3)
}

/// `base64::DecodeError`: why a text is no base64 text. Nothing is known of
/// a value of it.
#[verifier::external_type_specification]
#[verifier::external_body]
pub struct ExDecodeError(base64::DecodeError);

/// `base64::Engine::encode` of the standard engine. Trusted: the result is
/// the text named `base64_text`, and it has as many characters as the
/// crate's `encoded_len` computes for padded output, all of them one byte
/// long. The crate panics where that length does not fit a machine word, so
/// such input is ruled out.
#[verifier::external_body]
pub(crate) fn encode(bytes: &[u8]) -> (text: String)
    requires
        base64_len(bytes@.len()) <= usize::MAX,
    ensures
        text@ == base64_text(bytes@),
        text@.len() == base64_len(bytes@.len()),
{
    BASE64_STANDARD.encode(bytes)
}

/// `base64::Engine::decode` of the standard engine. Trusted: the call
/// succeeds exactly on the texts for which `base64_bytes` names bytes, and
/// then returns those bytes.
#[verifier::external_body]
pub(crate) fn decode(text: &str) -> (bytes: Result<Vec<u8>, base64::DecodeError>)
    ensures
        match bytes {
            Ok(bytes) => base64_bytes(text@) == Some(bytes@),
            Err(_) => base64_bytes(text@) is None,
        },
{
    BASE64_STANDARD.decode(text)
}

/// The length of the base64 text of `len` bytes, where it fits a machine
/// word.
pub fn encoded_len(len: usize) -> (encoded: Option<usize>)
    ensures
        encoded == (if base64_len(len as nat) <= usize::MAX {
            Some(base64_len(len as nat) as usize)
        } else {
            None
        }),
{
    let groups: usize = if len % 3 == 0 {
        len / 3
    } else {
        len / 3 + 1
    };
    if groups <= usize::MAX / 4 {
        Some(4 * groups)
    } else {
        None
    }
}

} // verus!
