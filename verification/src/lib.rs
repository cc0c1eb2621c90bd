//! Recovery of an encrypted metadata blob embedded in a native binary.
//!
//! Three stages follow one another. `extractor` finds the blob between its
//! markers in the bytes of the host binary. `xxtea` reverses the block cipher
//! under which the blob is encrypted. `metadata` decodes the plaintext, a
//! header followed by sections at the offsets that the header declares, with
//! every read checked against the end of the buffer; it also removes the
//! obfuscation of the string literals in place.
//!
//! Each function states what it computes over sequences of bytes and words,
//! and the statements about several functions are proved beside them:
//! `forward` shows that decryption reverses the forward transform of the
//! cipher, and `pipeline` what extraction followed by decryption recovers.

pub mod extractor;
pub mod forward;
pub mod header;
pub mod metadata;
pub mod pipeline;
pub mod reader;
pub mod record;
pub mod records;
pub mod section;
pub mod text;
pub mod utils;
pub mod xxtea;
