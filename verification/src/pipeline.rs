//! The stages taken together: what extraction followed by decryption gives
//! for a blob that was encrypted and embedded.

use crate::extractor::{absent, head, is_extracted, lemma_extracts_embedded_blob, tail};
use crate::forward::{encrypt_bytes, lemma_decrypt_bytes_reverses_encrypt_bytes};
use crate::xxtea::decrypt_bytes;
use vstd::prelude::*;

verus! {

/// A plaintext of whole words that is encrypted and embedded between the
/// markers is recovered by extraction followed by decryption under the same
/// key, whatever surrounds the markers, provided that the head marker does
/// not occur before the one that is meant and that the ciphertext neither
/// holds a run of four zero bytes nor ends in a zero byte.
pub proof fn lemma_extraction_then_decryption_recovers(
    before: Seq<u8>,
    plaintext: Seq<u8>,
    key: Seq<u8>,
    after: Seq<u8>,
)
    requires
        plaintext.len() % 4 == 0,
        absent(before, head(), 0),
        absent(encrypt_bytes(plaintext, key), tail(), 0),
        plaintext.len() == 0 || encrypt_bytes(plaintext, key).last() != 0,
    ensures
        is_extracted(
            before + head() + encrypt_bytes(plaintext, key) + tail() + after,
            encrypt_bytes(plaintext, key),
        ),
        decrypt_bytes(encrypt_bytes(plaintext, key), key) == plaintext,
{
    lemma_decrypt_bytes_reverses_encrypt_bytes(plaintext, key);
    lemma_extracts_embedded_blob(before, encrypt_bytes(plaintext, key), after);
}

} // verus!
