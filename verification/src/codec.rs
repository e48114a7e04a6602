//! Secrets as text and as the bytes that a picture carries.

use vstd::prelude::*;
use vstd::slice::slice_to_vec;
use vstd::utf8::{decode_utf8, encode_scalar, encode_utf8, valid_utf8};
use vstd::utf8::{encode_utf8_decode_utf8, encode_utf8_valid_utf8};
use vstd::utf8::{last_continuation_byte, second_last_continuation_byte};
use vstd::utf8::{leading_byte_width_1, leading_byte_width_2, leading_byte_width_3};
use vstd::utf8::{leading_byte_width_4, third_last_continuation_byte};
use crate::embedder::{sentinel_free, SENTINEL};
use crate::error::VaultError;

verus! {

/// `steganography::util::str_to_bytes` borrows the bytes of the string, which are
/// its UTF-8 encoding.
pub assume_specification<'a>[ steganography::util::str_to_bytes ](msg: &'a String) -> (bytes:
    &'a [u8])
    ensures
        bytes@ == encode_utf8(msg@),
;

/// `steganography::util::bytes_to_str` reads the bytes as UTF-8 text. It stops
/// the program on bytes that are not valid UTF-8.
pub assume_specification[ steganography::util::bytes_to_str ](bytes: &[u8]) -> (text: &str)
    requires
        valid_utf8(bytes@),
    ensures
        text@ == decode_utf8(bytes@),
;

/// Calls `std::str::from_utf8`, which accepts exactly the byte strings that are
/// valid UTF-8.
#[verifier::external_body]
fn is_utf8(bytes: &[u8]) -> (ok: bool)
    ensures
        ok == valid_utf8(bytes@),
{
    std::str::from_utf8(bytes).is_ok()
}

/// The bytes of `secret`: its UTF-8 encoding.
pub fn to_bytes(secret: &str) -> (bytes: Vec<u8>)
    ensures
        bytes@ == encode_utf8(secret@),
{
    let owned = secret.to_owned();
    slice_to_vec(steganography::util::str_to_bytes(&owned))
}

/// The text that `bytes` encode. Fails with `DecodeError` exactly when `bytes`
/// are not valid UTF-8.
pub fn from_bytes(bytes: &[u8]) -> (r: Result<String, VaultError>)
    ensures
        valid_utf8(bytes@) ==> (r matches Ok(text) && text@ == decode_utf8(bytes@)),
        !valid_utf8(bytes@) ==> r == Err::<String, VaultError>(VaultError::DecodeError),
{
    if is_utf8(bytes) {
        Ok(steganography::util::bytes_to_str(bytes).to_owned())
    } else {
        Err(VaultError::DecodeError)
    }
}

/// The transcription loses nothing: the bytes of any text are valid, and decode
/// to that text.
pub proof fn law_text_round_trip(text: Seq<char>)
    ensures
        valid_utf8(encode_utf8(text)),
        decode_utf8(encode_utf8(text)) == text,
{
    encode_utf8_valid_utf8(text);
    encode_utf8_decode_utf8(text);
}

/// No byte of the encoding of one character is the sentinel.
proof fn lemma_scalar_is_sentinel_free(scalar: u32)
    ensures
        sentinel_free(encode_scalar(scalar)),
{
    assert(leading_byte_width_1(scalar) != 255u8) by (bit_vector)
        requires
            leading_byte_width_1(scalar) == (scalar & 0x7F) as u8,
    ;
    assert(leading_byte_width_2(scalar) != 255u8) by (bit_vector)
        requires
            leading_byte_width_2(scalar) == 0xC0 | ((scalar >> 6) & 0x1F) as u8,
    ;
    assert(leading_byte_width_3(scalar) != 255u8) by (bit_vector)
        requires
            leading_byte_width_3(scalar) == 0xE0 | ((scalar >> 12) & 0x0F) as u8,
    ;
    assert(leading_byte_width_4(scalar) != 255u8) by (bit_vector)
        requires
            leading_byte_width_4(scalar) == 0xF0 | ((scalar >> 18) & 0x7) as u8,
    ;
    assert(last_continuation_byte(scalar) != 255u8) by (bit_vector)
        requires
            last_continuation_byte(scalar) == 0x80 | (scalar & 0x3F) as u8,
    ;
    assert(second_last_continuation_byte(scalar) != 255u8) by (bit_vector)
        requires
            second_last_continuation_byte(scalar) == 0x80 | ((scalar >> 6) & 0x3F) as u8,
    ;
    assert(third_last_continuation_byte(scalar) != 255u8) by (bit_vector)
        requires
            third_last_continuation_byte(scalar) == 0x80 | ((scalar >> 12) & 0x3F) as u8,
    ;
}

/// The bytes of a text never hold the sentinel: UTF-8 has no byte 255.
pub proof fn law_text_is_sentinel_free(text: Seq<char>)
    ensures
        sentinel_free(encode_utf8(text)),
    decreases text.len(),
{
    if text.len() > 0 {
        let head = encode_scalar(text[0] as u32);
        let tail = encode_utf8(text.drop_first());
        lemma_scalar_is_sentinel_free(text[0] as u32);
        law_text_is_sentinel_free(text.drop_first());
        assert forall|i: int| 0 <= i < (head + tail).len() implies (head + tail)[i]
            != SENTINEL by {
            if i < head.len() {
                assert((head + tail)[i] == head[i]);
            } else {
                assert((head + tail)[i] == tail[i - head.len()]);
            }
        }
    }
}

} // verus!
