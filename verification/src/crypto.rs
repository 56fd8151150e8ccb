//! Password checking, key derivation and authenticated encryption of stored values.
use vstd::prelude::*;
use vstd::string::StringSliceAdditionalSpecFns;
use vstd::utf8::*;
use aes_gcm::aead::{Aead, KeyInit};
use argon2::password_hash::{PasswordHasher, PasswordVerifier};
use base64::Engine;
use rand::Rng;
use crate::error::KeymgrError;
use crate::model::{Dek, MasterHash, SecureString};
use crate::text::lemma_str_chars;

verus! {

// ---------------------------------------------------------------------------
// Outside types that cross the calls below.
// ---------------------------------------------------------------------------

/// The error of `password_hash` (hash parsing and PHC hashing).
#[verifier::external_type_specification]
#[verifier::external_body]
pub struct ExPasswordHashError(argon2::password_hash::Error);

/// The error of `argon2`'s raw key derivation.
#[verifier::external_type_specification]
#[verifier::external_body]
pub struct ExArgon2Error(argon2::Error);

/// The opaque error of `aes_gcm` (encryption or authentication failure).
#[verifier::external_type_specification]
#[verifier::external_body]
pub struct ExAeadError(aes_gcm::Error);

/// The error of `String::from_utf8`.
#[verifier::external_type_specification]
#[verifier::external_body]
pub struct ExFromUtf8Error(std::string::FromUtf8Error);

// ---------------------------------------------------------------------------
// Names for what the outside functions compute.
// ---------------------------------------------------------------------------

/// The standard (padded) base64 text of some bytes.
pub uninterp spec fn base64_text(bytes: Seq<u8>) -> Seq<char>;

/// The bytes that standard base64 text decodes to, if it is valid.
pub uninterp spec fn base64_bytes(text: Seq<char>) -> Option<Seq<u8>>;

/// The 32-byte Argon2id (default parameters) key derived from a password and a raw salt.
pub uninterp spec fn argon2_key(password: Seq<u8>, salt: Seq<u8>) -> Seq<u8>;

/// The Argon2id PHC string for a password and a base64 salt, if the salt is acceptable.
pub uninterp spec fn argon2_phc(password: Seq<u8>, salt: Seq<char>) -> Option<Seq<char>>;

/// Whether `Salt::from_b64` accepts the text as a salt and it decodes (B64) to at least the
/// 8 bytes that Argon2 requires: the part of `hash_password`'s success that rests on the
/// salt.
pub uninterp spec fn argon2_salt_accepted(salt: Seq<char>) -> bool;

/// Whether `PasswordHash::new` parses the text as a PHC string.
pub uninterp spec fn argon2_phc_parses(phc: Seq<char>) -> bool;

/// Whether a password matches a PHC string; `None` when the string does not parse.
pub uninterp spec fn argon2_phc_check(password: Seq<u8>, phc: Seq<char>) -> Option<bool>;

/// AES-256-GCM ciphertext (with its tag appended) of a plaintext under a key and nonce.
pub uninterp spec fn aes256gcm_seal(key: Seq<u8>, nonce: Seq<u8>, plaintext: Seq<u8>) -> Seq<u8>;

/// The AES-256-GCM plaintext of a ciphertext under a key and nonce; `None` when it does
/// not authenticate.
pub uninterp spec fn aes256gcm_open(key: Seq<u8>, nonce: Seq<u8>, ciphertext: Seq<u8>) -> Option<Seq<u8>>;

// ---------------------------------------------------------------------------
// Trusted wrappers.
// ---------------------------------------------------------------------------

/// Calls `base64::engine::general_purpose::STANDARD.encode`. Claims: the text is the named
/// encoding of the bytes, and the same engine decodes it back to them (the engine writes
/// canonical, padded text, which its decoder accepts).
#[verifier::external_body]
fn base64_encode(bytes: &[u8]) -> (text: String)
    ensures
        text@ == base64_text(bytes@),
        base64_bytes(text@) == Some(bytes@),
{
    base64::engine::general_purpose::STANDARD.encode(bytes)
}

/// Calls `base64::engine::general_purpose::STANDARD.decode` on the text's bytes. Claims:
/// it succeeds exactly when the named decoding exists, and then returns it.
#[verifier::external_body]
fn base64_decode(text: &str) -> (r: Result<Vec<u8>, base64::DecodeError>)
    ensures
        match r {
            Ok(bytes) => base64_bytes(text@) == Some(bytes@),
            Err(_) => base64_bytes(text@) is None,
        },
{
    base64::engine::general_purpose::STANDARD.decode(text)
}

/// Calls `argon2::Argon2::default().hash_password_into` with a 32-byte output. Claims: it
/// fails exactly on a password longer than `u32::MAX` bytes or a salt outside 8 to
/// `u32::MAX` bytes (the checks in `verify_inputs`; the output length is in range), and
/// otherwise yields the named key.
#[verifier::external_body]
fn argon2_derive_key(password: &[u8], salt: &[u8]) -> (r: Result<[u8; 32], argon2::Error>)
    ensures
        r is Ok <==> (password@.len() <= 0xffff_ffff && 8 <= salt@.len() <= 0xffff_ffff),
        r matches Ok(key) ==> key@ == argon2_key(password@, salt@),
{
    let mut out = [0u8; 32];
    argon2::Argon2::default().hash_password_into(password, salt, &mut out)?;
    Ok(out)
}

/// Calls `argon2::password_hash::Salt::from_b64` and then `Argon2::default().hash_password`,
/// returning the PHC string. Claims: it fails exactly on a salt that is not accepted or a
/// password longer than `u32::MAX` bytes (`hash_password` decodes the salt, then calls
/// `hash_password_into`, whose only input checks are those lengths; the default
/// parameters and 32-byte output are valid); the result is the named one; and verifying
/// the same password against it succeeds (the PHC string records the algorithm, version,
/// parameters and salt that `verify_password` recomputes the hash with).
#[verifier::external_body]
fn argon2_hash_password(password: &[u8], salt: &str) -> (r: Result<String, argon2::password_hash::Error>)
    ensures
        r is Ok <==> (argon2_salt_accepted(salt@) && password@.len() <= 0xffff_ffff),
        match r {
            Ok(phc) => argon2_phc(password@, salt@) == Some(phc@) && argon2_phc_check(
                password@,
                phc@,
            ) == Some(true),
            Err(_) => argon2_phc(password@, salt@) is None,
        },
{
    let salt = argon2::password_hash::Salt::from_b64(salt)?;
    Ok(argon2::Argon2::default().hash_password(password, salt)?.to_string())
}

/// Calls `argon2::password_hash::PasswordHash::new` and then `Argon2::default().verify_password`.
/// Claims: it fails exactly when the text does not parse (which does not depend on the
/// password); otherwise the result is whether verification succeeded, as named.
#[verifier::external_body]
fn argon2_verify(password: &[u8], phc: &str) -> (r: Result<bool, argon2::password_hash::Error>)
    ensures
        r is Ok <==> argon2_phc_parses(phc@),
        match r {
            Ok(b) => argon2_phc_check(password@, phc@) == Some(b),
            Err(_) => argon2_phc_check(password@, phc@) is None,
        },
{
    let parsed = argon2::password_hash::PasswordHash::new(phc)?;
    Ok(argon2::Argon2::default().verify_password(password, &parsed).is_ok())
}

/// Calls `Aes256Gcm::new` and `Aead::encrypt` with no associated data. Claims: it fails
/// exactly on a plaintext longer than `aes_gcm::P_MAX` (2^36 bytes); otherwise it returns
/// the named ciphertext, the plaintext's length plus the 16-byte tag, which opens under
/// the same key and nonce to the plaintext.
#[verifier::external_body]
fn aes_encrypt(key: &[u8; 32], nonce: &[u8; 12], plaintext: &[u8]) -> (r: Result<Vec<u8>, aes_gcm::Error>)
    ensures
        r is Ok <==> plaintext@.len() <= 0x10_0000_0000,
        r matches Ok(c) ==> c@.len() == plaintext@.len() + 16,
        r matches Ok(c) ==> c@ == aes256gcm_seal(key@, nonce@, plaintext@) && aes256gcm_open(
            key@,
            nonce@,
            c@,
        ) == Some(plaintext@),
{
    let cipher = aes_gcm::Aes256Gcm::new(aes_gcm::Key::<aes_gcm::Aes256Gcm>::from_slice(key));
    cipher.encrypt(aes_gcm::Nonce::from_slice(nonce), plaintext.as_ref())
}

/// Calls `Aes256Gcm::new` and `Aead::decrypt` with no associated data (the nonce slice
/// must be 12 bytes, or `Nonce::from_slice` panics). Claims: the result is the named one.
#[verifier::external_body]
fn aes_decrypt(key: &[u8; 32], nonce: &[u8], ciphertext: &[u8]) -> (r: Result<Vec<u8>, aes_gcm::Error>)
    requires
        nonce@.len() == 12,
    ensures
        match r {
            Ok(p) => aes256gcm_open(key@, nonce@, ciphertext@) == Some(p@),
            Err(_) => aes256gcm_open(key@, nonce@, ciphertext@) is None,
        },
{
    let cipher = aes_gcm::Aes256Gcm::new(aes_gcm::Key::<aes_gcm::Aes256Gcm>::from_slice(key));
    cipher.decrypt(aes_gcm::Nonce::from_slice(nonce), ciphertext)
}

/// Calls `String::from_utf8`. Claims what its documentation says: it succeeds exactly on
/// valid UTF-8, and the string then holds those bytes.
#[verifier::external_body]
fn utf8_string(bytes: Vec<u8>) -> (r: Result<String, std::string::FromUtf8Error>)
    ensures
        r is Ok <==> valid_utf8(bytes@),
        r matches Ok(s) ==> encode_utf8(s@) == bytes@,
{
    String::from_utf8(bytes)
}

/// Fills a 96-bit nonce from `rand::thread_rng()`. Nothing is claimed of the bytes.
#[verifier::external_body]
fn generate_nonce() -> (nonce: [u8; 12]) {
    let mut nonce = [0u8; 12];
    rand::thread_rng().fill(&mut nonce);
    nonce
}

/// Draws 32 bytes with `rand::thread_rng().gen()`. Nothing is claimed of the bytes.
#[verifier::external_body]
fn random_salt_bytes() -> (salt: [u8; 32]) {
    rand::thread_rng().gen()
}

/// Calls `SaltString::generate` with `rand::thread_rng()` and returns its text. Claims only
/// what holds of every draw: the text is the B64 encoding of 16 bytes (22 characters),
/// which `Salt::from_b64` accepts and which decodes to 16 bytes, enough for Argon2.
#[verifier::external_body]
fn random_phc_salt() -> (salt: String)
    ensures
        salt@.len() == 22,
        argon2_salt_accepted(salt@),
{
    argon2::password_hash::SaltString::generate(&mut rand::thread_rng()).as_str().to_owned()
}

// ---------------------------------------------------------------------------
// The key store's cryptography.
// ---------------------------------------------------------------------------

/// The UTF-8 bytes of a secret.
pub open spec fn secret_bytes(s: SecureString) -> Seq<u8> {
    encode_utf8(s.0@)
}

/// A crypto error whose text starts with the given context.
pub open spec fn is_crypto_error(e: KeymgrError, context: Seq<char>) -> bool {
    e matches KeymgrError::Crypto(msg) && msg@.len() >= context.len() && msg@.subrange(
        0,
        context.len() as int,
    ) == context
}

/// A crypto error with the given context followed by the cause's own text.
fn crypto_error<E: std::fmt::Display>(context: &str, cause: &E) -> (e: KeymgrError)
    ensures
        is_crypto_error(e, context@),
{
    let mut msg = String::from_str(context);
    let detail = cause.to_string();
    msg.append(detail.as_str());
    assert(msg@.subrange(0, context@.len() as int) =~= context@);
    KeymgrError::Crypto(msg)
}

/// The data-encryption key that a password derives under a master record, if derivation
/// succeeds.
pub open spec fn derived_key(master: MasterHash, password: Seq<u8>) -> Option<Seq<u8>> {
    match base64_bytes(master.dek_salt@) {
        Some(salt) => if password.len() <= 0xffff_ffff && 8 <= salt.len() <= 0xffff_ffff {
            Some(argon2_key(password, salt))
        } else {
            None
        },
        None => None,
    }
}

/// The context of the error that deriving a key ends in: decoding the salt, or the
/// derivation itself.
pub open spec fn derive_error_context(master: MasterHash) -> Seq<char> {
    if base64_bytes(master.dek_salt@) is None {
        "解码 DEK 盐值失败: "@
    } else {
        "派生加密密钥失败: "@
    }
}

/// Checks the master password with Argon2id against the stored PHC string.
pub fn verify_master_password(master: &MasterHash, password: &SecureString) -> (r: Result<bool, KeymgrError>)
    ensures
        r is Ok <==> argon2_phc_parses(master.verify_hash@),
        match r {
            Ok(b) => argon2_phc_check(secret_bytes(*password), master.verify_hash@) == Some(b),
            Err(e) => argon2_phc_check(secret_bytes(*password), master.verify_hash@) is None
                && is_crypto_error(e, "解析验证哈希失败: "@),
        },
{
    let pw = password.0.as_str().as_bytes();
    match argon2_verify(pw, master.verify_hash.as_str()) {
        Ok(b) => Ok(b),
        Err(e) => Err(crypto_error("解析验证哈希失败: ", &e)),
    }
}

/// Derives the 256-bit data-encryption key from the master password and the stored salt.
pub fn derive_dek(master: &MasterHash, password: &SecureString) -> (r: Result<Dek, KeymgrError>)
    ensures
        match r {
            Ok(dek) => derived_key(*master, secret_bytes(*password)) == Some(dek.0@),
            Err(e) => derived_key(*master, secret_bytes(*password)) is None && is_crypto_error(
                e,
                derive_error_context(*master),
            ),
        },
        forall|salt: Seq<u8>|
            base64_bytes(master.dek_salt@) == Some(salt) && secret_bytes(*password).len()
                <= 0xffff_ffff && 8 <= salt.len() <= 0xffff_ffff ==> (r matches Ok(dek) && dek.0@
                == #[trigger] argon2_key(secret_bytes(*password), salt)),
{
    let salt = match base64_decode(master.dek_salt.as_str()) {
        Ok(salt) => salt,
        Err(e) => return Err(crypto_error("解码 DEK 盐值失败: ", &e)),
    };
    let pw = password.0.as_str().as_bytes();
    match argon2_derive_key(pw, salt.as_slice()) {
        Ok(key) => Ok(Dek(key)),
        Err(e) => Err(crypto_error("派生加密密钥失败: ", &e)),
    }
}

/// A master record made from a password with the given salts: the PHC string of the
/// password under `verify_salt`, and the base64 text of `dek_salt`.
pub open spec fn master_record_for(m: MasterHash, password: Seq<u8>, verify_salt: Seq<char>, dek_salt: Seq<u8>) -> bool {
    &&& m.verify_salt@ == verify_salt
    &&& argon2_phc(password, verify_salt) == Some(m.verify_hash@)
    &&& m.dek_salt@ == base64_text(dek_salt)
}

/// Builds the master record for a password from the two salts it is to use.
pub fn create_master_hash_with(password: &SecureString, verify_salt: String, dek_salt: &[u8; 32]) -> (r: Result<MasterHash, KeymgrError>)
    ensures
        r is Ok <==> (argon2_salt_accepted(verify_salt@) && secret_bytes(*password).len()
            <= 0xffff_ffff),
        match r {
            Ok(m) => master_record_for(m, secret_bytes(*password), verify_salt@, dek_salt@)
                && argon2_phc_check(secret_bytes(*password), m.verify_hash@) == Some(true)
                && base64_bytes(m.dek_salt@) == Some(dek_salt@),
            Err(e) => argon2_phc(secret_bytes(*password), verify_salt@) is None && is_crypto_error(
                e,
                "哈希主密码失败: "@,
            ),
        },
{
    let pw = password.0.as_str().as_bytes();
    let verify_hash = match argon2_hash_password(pw, verify_salt.as_str()) {
        Ok(h) => h,
        Err(e) => return Err(crypto_error("哈希主密码失败: ", &e)),
    };
    let dek_salt_text = base64_encode(dek_salt);
    Ok(MasterHash { verify_salt, verify_hash, dek_salt: dek_salt_text })
}

/// Creates a new master record (for `init` and `passwd`) with fresh random salts. It
/// succeeds unless the password is longer than `u32::MAX` bytes; the record it returns
/// accepts the password, derives a key from it, and holds a 22-character checking salt and
/// the base64 text of a 32-byte key salt.
pub fn create_master_hash(password: &SecureString) -> (r: Result<MasterHash, KeymgrError>)
    ensures
        r is Ok <==> secret_bytes(*password).len() <= 0xffff_ffff,
        match r {
            Ok(m) => argon2_phc_check(secret_bytes(*password), m.verify_hash@) == Some(true)
                && derived_key(m, secret_bytes(*password)) is Some && exists|vs: Seq<char>, ds: Seq<u8>|
                vs.len() == 22 && argon2_salt_accepted(vs) && ds.len() == 32 && base64_bytes(
                    m.dek_salt@,
                ) == Some(ds) && #[trigger] master_record_for(m, secret_bytes(*password), vs, ds),
            Err(e) => is_crypto_error(e, "哈希主密码失败: "@),
        },
{
    let verify_salt = random_phc_salt();
    let dek_salt = random_salt_bytes();
    let r = create_master_hash_with(password, verify_salt, &dek_salt);
    proof {
        assert(r matches Ok(m) ==> master_record_for(m, secret_bytes(*password), m.verify_salt@, dek_salt@));
    }
    r
}

/// The plaintext a stored pair of base64 ciphertext and nonce holds under a key: both
/// decode, the nonce is 96 bits, the ciphertext authenticates, and the plaintext is UTF-8.
pub open spec fn stored_plaintext(key: Seq<u8>, ciphertext: Seq<char>, nonce: Seq<char>) -> Option<Seq<char>> {
    match (base64_bytes(ciphertext), base64_bytes(nonce)) {
        (Some(c), Some(n)) => if n.len() == 12 {
            match aes256gcm_open(key, n, c) {
                Some(p) => if valid_utf8(p) {
                    Some(decode_utf8(p))
                } else {
                    None
                },
                None => None,
            }
        } else {
            None
        },
        _ => None,
    }
}

/// The context of the error that decrypting a stored pair ends in: the first step that
/// fails (decoding the ciphertext, decoding the nonce, authenticating, reading UTF-8).
pub open spec fn decrypt_error_context(key: Seq<u8>, ciphertext: Seq<char>, nonce: Seq<char>) -> Seq<char> {
    match (base64_bytes(ciphertext), base64_bytes(nonce)) {
        (None, _) => "解码密文失败: "@,
        (Some(_), None) => "解码 nonce 失败: "@,
        (Some(c), Some(n)) => if aes256gcm_open(key, n, c) is None {
            "解密失败: "@
        } else {
            "解密后的数据不是有效的 UTF-8: "@
        },
    }
}

/// Decryption of a stored pair is defined (does not abort): when both texts decode, the
/// nonce is 96 bits.
pub open spec fn decryptable(ciphertext: Seq<char>, nonce: Seq<char>) -> bool {
    base64_bytes(ciphertext) is Some ==> (base64_bytes(nonce) matches Some(n) ==> n.len() == 12)
}

/// The largest plaintext AES-256-GCM accepts, in bytes.
pub open spec fn max_plaintext_len() -> nat {
    0x10_0000_0000
}

/// The stored pair decodes to a ciphertext of `len` bytes plus the 16-byte tag, and to a
/// 96-bit nonce.
pub open spec fn sealed_lengths(ciphertext: Seq<char>, nonce: Seq<char>, len: nat) -> bool {
    &&& base64_bytes(ciphertext) matches Some(c) && c.len() == len + 16
    &&& base64_bytes(nonce) matches Some(n) && n.len() == 12
}

/// Encrypts a value with AES-256-GCM under the given nonce; returns the ciphertext and the
/// nonce, both in base64. The pair decrypts under the same key to the value.
pub fn encrypt_with_nonce(dek: &Dek, plaintext: &str, nonce: &[u8; 12]) -> (r: Result<(String, String), KeymgrError>)
    ensures
        r is Ok <==> plaintext.spec_bytes().len() <= max_plaintext_len(),
        match r {
            Ok((c, n)) => c@ == base64_text(aes256gcm_seal(dek.0@, nonce@, plaintext.spec_bytes()))
                && n@ == base64_text(nonce@) && stored_plaintext(dek.0@, c@, n@) == Some(plaintext@)
                && decryptable(c@, n@) && sealed_lengths(c@, n@, plaintext.spec_bytes().len()),
            Err(e) => plaintext.spec_bytes().len() > max_plaintext_len() && is_crypto_error(
                e,
                "加密失败: "@,
            ),
        },
{
    let ct = match aes_encrypt(&dek.0, nonce, plaintext.as_bytes()) {
        Ok(ct) => ct,
        Err(e) => return Err(crypto_error("加密失败: ", &e)),
    };
    let c = base64_encode(ct.as_slice());
    let n = base64_encode(nonce);
    proof {
        lemma_str_chars(plaintext);
    }
    Ok((c, n))
}

/// Encrypts a value with AES-256-GCM under a fresh random nonce; returns the ciphertext and
/// the nonce, both in base64. The pair decrypts under the same key to the value.
pub fn encrypt(dek: &Dek, plaintext: &str) -> (r: Result<(String, String), KeymgrError>)
    ensures
        r is Ok <==> plaintext.spec_bytes().len() <= max_plaintext_len(),
        match r {
            Ok((c, n)) => stored_plaintext(dek.0@, c@, n@) == Some(plaintext@) && decryptable(c@, n@)
                && sealed_lengths(c@, n@, plaintext.spec_bytes().len()) && exists|nonce: Seq<u8>|
                nonce.len() == 12 && n@ == #[trigger] base64_text(nonce) && c@ == base64_text(
                    aes256gcm_seal(dek.0@, nonce, plaintext.spec_bytes()),
                ),
            Err(e) => plaintext.spec_bytes().len() > max_plaintext_len() && is_crypto_error(
                e,
                "加密失败: "@,
            ),
        },
{
    let nonce = generate_nonce();
    encrypt_with_nonce(dek, plaintext, &nonce)
}

/// Decrypts a stored pair, or answers `None` where the pair is not decryptable (both
/// texts decode but the nonce is not 96 bits).
pub fn checked_decrypt(dek: &Dek, ciphertext_b64: &str, nonce_b64: &str) -> (r: Option<Result<String, KeymgrError>>)
    ensures
        r is None <==> !decryptable(ciphertext_b64@, nonce_b64@),
        r matches Some(res) ==> match res {
            Ok(s) => stored_plaintext(dek.0@, ciphertext_b64@, nonce_b64@) == Some(s@),
            Err(e) => stored_plaintext(dek.0@, ciphertext_b64@, nonce_b64@) is None
                && is_crypto_error(e, decrypt_error_context(dek.0@, ciphertext_b64@, nonce_b64@)),
        },
{
    let ciphertext = match base64_decode(ciphertext_b64) {
        Ok(c) => c,
        Err(e) => return Some(Err(crypto_error("解码密文失败: ", &e))),
    };
    let nonce = match base64_decode(nonce_b64) {
        Ok(n) => n,
        Err(e) => return Some(Err(crypto_error("解码 nonce 失败: ", &e))),
    };
    if nonce.len() != 12 {
        return None;
    }
    let plain = match aes_decrypt(&dek.0, nonce.as_slice(), ciphertext.as_slice()) {
        Ok(p) => p,
        Err(e) => return Some(Err(crypto_error("解密失败: ", &e))),
    };
    let ghost pbytes = plain@;
    match utf8_string(plain) {
        Ok(s) => {
            proof {
                encode_utf8_decode_utf8(s@);
            }
            Some(Ok(s))
        },
        Err(e) => Some(Err(crypto_error("解密后的数据不是有效的 UTF-8: ", &e))),
    }
}

/// Decrypts a stored pair of base64 ciphertext and nonce with AES-256-GCM.
pub fn decrypt(dek: &Dek, ciphertext_b64: &str, nonce_b64: &str) -> (r: Result<String, KeymgrError>)
    requires
        decryptable(ciphertext_b64@, nonce_b64@),
    ensures
        match r {
            Ok(s) => stored_plaintext(dek.0@, ciphertext_b64@, nonce_b64@) == Some(s@),
            Err(e) => stored_plaintext(dek.0@, ciphertext_b64@, nonce_b64@) is None
                && is_crypto_error(e, decrypt_error_context(dek.0@, ciphertext_b64@, nonce_b64@)),
        },
{
    match checked_decrypt(dek, ciphertext_b64, nonce_b64) {
        Some(r) => r,
        None => {
            proof {
                assert(false);
            }
            Err(KeymgrError::Crypto(String::new()))
        },
    }
}

/// The key a password derives under a master record is Argon2id of the password with the
/// whole salt the record's base64 text decodes to, whenever both lengths are in range.
pub proof fn lemma_derived_key_from_whole_salt(master: MasterHash, password: Seq<u8>, salt: Seq<u8>)
    requires
        base64_bytes(master.dek_salt@) == Some(salt),
        password.len() <= 0xffff_ffff,
        8 <= salt.len() <= 0xffff_ffff,
    ensures
        derived_key(master, password) == Some(argon2_key(password, salt)),
{
}

/// Derivation fails exactly when the salt text does not decode or a length is out of
/// range.
pub proof fn lemma_derived_key_fails(master: MasterHash, password: Seq<u8>)
    ensures
        derived_key(master, password) is None <==> match base64_bytes(master.dek_salt@) {
            None => true,
            Some(salt) => password.len() > 0xffff_ffff || salt.len() < 8 || salt.len() > 0xffff_ffff,
        },
{
}

/// The same master record and password always derive the same key, so values stored
/// under a key derived earlier decrypt under a key derived later.
pub proof fn lemma_derived_key_unique(master: MasterHash, password: Seq<u8>, k1: Seq<u8>, k2: Seq<u8>)
    requires
        derived_key(master, password) == Some(k1),
        derived_key(master, password) == Some(k2),
    ensures
        k1 == k2,
{
}

} // verus!
