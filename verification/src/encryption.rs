//! Reversible encoding of stored credential fields. Values are carried as
//! standard Base64 of their UTF-8 bytes; the encoding side never fails, and
//! decoding states exactly which texts it accepts.

use vstd::prelude::*;
use vstd::utf8::{decode_utf8, encode_utf8, valid_utf8};
use base64::{engine::general_purpose, Engine as _};

verus! {

broadcast use vstd::utf8::group_utf8_lib;

/// The Base64 text (standard alphabet, padded) of a byte sequence. The
/// encoding is a function of the bytes alone.
pub uninterp spec fn base64_of(bytes: Seq<u8>) -> Seq<char>;

/// Relies on base64's `STANDARD` engine `encode`: the standard padded
/// Base64 of the input bytes, deterministic, empty for empty input.
#[verifier::external_body]
fn b64_encode(data: &[u8]) -> (r: String)
    ensures
        r@ == base64_of(data@),
        data@.len() == 0 ==> r@.len() == 0,
{
    general_purpose::STANDARD.encode(data)
}

/// Relies on base64's `STANDARD` engine `decode`: it is strict — only
/// canonical padded encodings are accepted — and inverse to `encode`, so it
/// succeeds exactly on the texts `encode` produces and returns the bytes
/// `encode` was given.
#[verifier::external_body]
fn b64_decode(input: &str) -> (r: Result<Vec<u8>, String>)
    ensures
        r is Ok ==> input@ == base64_of(r->Ok_0@),
        forall|bs: Seq<u8>| input@ == #[trigger] base64_of(bs) ==> r is Ok && r->Ok_0@ == bs,
{
    match general_purpose::STANDARD.decode(input) {
        Ok(b) => Ok(b),
        Err(e) => Err(format!("Failed to decode base64: {}", e)),
    }
}

/// Relies on `String::from_utf8` (std): it succeeds exactly on valid UTF-8
/// and returns the text those bytes encode.
#[verifier::external_body]
fn string_from_utf8(bytes: Vec<u8>) -> (r: Result<String, String>)
    ensures
        r matches Ok(s) ==> valid_utf8(bytes@) && s@ == decode_utf8(bytes@),
        valid_utf8(bytes@) ==> r is Ok,
{
    match String::from_utf8(bytes) {
        Ok(s) => Ok(s),
        Err(e) => Err(format!("Failed to convert to UTF-8: {}", e)),
    }
}

/// Encodes a credential field for storage. The empty text stays empty; any
/// other text becomes the Base64 of its UTF-8 bytes. Never fails.
pub fn encrypt_string(input: &str) -> (r: Result<String, String>)
    ensures
        r is Ok,
        input@.len() == 0 ==> (r matches Ok(s) && s@.len() == 0),
        input@.len() > 0 ==> (r matches Ok(s) && s@ == base64_of(encode_utf8(input@))),
{
    if input.is_empty() {
        Ok(String::new())
    } else {
        let bytes = input.as_bytes();
        Ok(b64_encode(bytes))
    }
}

/// Decodes a stored credential field: the inverse of [`encrypt_string`].
/// The empty text stays empty; any other text must be the canonical Base64
/// of valid UTF-8 bytes, and exactly then decoding succeeds with the
/// original text.
pub fn decrypt_string(input: &str) -> (r: Result<String, String>)
    ensures
        input@.len() == 0 ==> (r matches Ok(s) && s@.len() == 0),
        input@.len() > 0 ==> (r matches Ok(s) ==> input@ == base64_of(encode_utf8(s@))),
        forall|p: Seq<char>|
            input@.len() > 0 && input@ == #[trigger] base64_of(encode_utf8(p)) ==> (
            r matches Ok(s) && s@ == p),
{
    if input.is_empty() {
        return Ok(String::new());
    }
    match b64_decode(input) {
        Ok(bytes) => {
            let ghost bytes_view = bytes@;
            match string_from_utf8(bytes) {
                Ok(s) => {
                    proof {
                        assert forall|p: Seq<char>|
                            input@.len() > 0 && input@ == #[trigger] base64_of(
                                encode_utf8(p),
                            ) implies s@ == p by {
                            assert(bytes_view == encode_utf8(p));
                        }
                    }
                    Ok(s)
                },
                Err(e) => {
                    proof {
                        assert forall|p: Seq<char>|
                            !(input@.len() > 0 && input@ == #[trigger] base64_of(
                                encode_utf8(p),
                            )) by {
                            if input@ == base64_of(encode_utf8(p)) {
                                assert(bytes_view == encode_utf8(p));
                                assert(valid_utf8(bytes_view));
                            }
                        }
                    }
                    Err(e)
                },
            }
        },
        Err(e) => {
            proof {
                assert forall|p: Seq<char>|
                    !(input@.len() > 0 && input@ == #[trigger] base64_of(encode_utf8(p))) by {}
            }
            Err(e)
        },
    }
}

} // verus!
