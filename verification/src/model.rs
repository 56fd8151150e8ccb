//! The stored records and the secrets handled in memory.
use vstd::prelude::*;

verus! {

/// The whole key store.
pub struct Vault {
    pub version: u32,
    pub entries: Vec<KeyEntry>,
}

/// One stored key.
pub struct KeyEntry {
    /// The key's unique name, stored in the clear.
    pub name: String,
    /// The AES-256-GCM ciphertext with its 16-byte tag, in base64.
    pub ciphertext: String,
    /// The 96-bit nonce used for the encryption, in base64.
    pub nonce: String,
    /// The masked preview shown by the listing.
    pub masked_preview: String,
    /// When the key was created (Unix seconds).
    pub created_at: i64,
    /// When the key's value last changed (Unix seconds).
    pub updated_at: i64,
}

/// The record that checks the master password and salts the key derivation.
pub struct MasterHash {
    /// The salt of the checking hash (base64, as the PHC format writes it).
    pub verify_salt: String,
    /// The checking hash, an Argon2id PHC string.
    pub verify_hash: String,
    /// The salt from which the data-encryption key is derived, in base64.
    pub dek_salt: String,
}

/// One line of the listing.
pub struct KeyDisplay {
    pub name: String,
    pub masked_value: String,
    pub created_at: String,
    pub updated_at: String,
}

/// A secret typed in by the user (a password or a key's value).
pub struct SecureString(pub String);

impl SecureString {
    pub fn new(s: String) -> (r: Self)
        ensures
            r.0 == s,
    {
        SecureString(s)
    }
}

impl AsRef<str> for SecureString {
    fn as_ref(&self) -> (s: &str)
        ensures
            s@ == self.0@,
    {
        self.0.as_str()
    }
}

/// Calls `zeroize::Zeroize::zeroize` on the string: its bytes are overwritten with zeros
/// and it is left empty (`Vec::zeroize` ends with `clear`).
#[verifier::external_body]
pub(crate) fn wipe(s: &mut String)
    ensures
        final(s)@ == Seq::<char>::empty(),
{
    zeroize::Zeroize::zeroize(s)
}

/// A 256-bit data-encryption key.
pub struct Dek(pub [u8; 32]);

impl Default for Vault {
    fn default() -> (v: Self)
        ensures
            v.version == 0,
            v.entries@.len() == 0,
    {
        Vault { version: 0, entries: Vec::new() }
    }
}

} // verus!
