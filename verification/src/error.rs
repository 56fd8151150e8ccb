//! The errors of the key store.
use vstd::prelude::*;

verus! {

/// The outside decoding error of the base64 engine, carried through unchanged.
#[verifier::external_type_specification]
#[verifier::external_body]
pub struct ExDecodeError(base64::DecodeError);

/// Everything that can go wrong in the key store.
#[derive(Debug)]
pub enum KeymgrError {
    /// No master password has been set up yet.
    NotInitialized,
    /// The master password given is not the one set up.
    MasterPasswordMismatch,
    /// A key of this name is stored already.
    DuplicateKey(String),
    /// No key of this name is stored.
    KeyNotFound(String),
    /// Reading or writing the data files failed; the text says why.
    Io(String),
    /// The data files could not be read or written as JSON; the text says why.
    Serde(String),
    /// Hashing, key derivation, encryption or decryption failed; the text says why.
    Crypto(String),
    /// The password could not be read from the terminal; the text says why.
    PasswordInput(String),
    /// Base64 text could not be decoded.
    Base64(base64::DecodeError),
}

} // verus!
