//! Unlocking the store with the master password, and setting a new one.
use vstd::prelude::*;
use crate::crypto::{
    argon2_phc_check, derive_dek, derive_error_context, derived_key, is_crypto_error, secret_bytes,
    verify_master_password,
};
use crate::error::KeymgrError;
use crate::model::{wipe, Dek, MasterHash, SecureString};

verus! {

/// Checks the master password typed in and derives the data-encryption key from it;
/// hands the password back beside the key. A wrong password is refused before any key
/// is derived; on every refusal the password is wiped from memory.
pub fn verify_and_get_dek(master: &MasterHash, password: SecureString) -> (r: Result<(Dek, SecureString), KeymgrError>)
    ensures
        match r {
            Ok((dek, pw)) => pw == password && argon2_phc_check(
                secret_bytes(password),
                master.verify_hash@,
            ) == Some(true) && derived_key(*master, secret_bytes(password)) == Some(dek.0@),
            Err(KeymgrError::MasterPasswordMismatch) => argon2_phc_check(
                secret_bytes(password),
                master.verify_hash@,
            ) == Some(false),
            Err(e) => if argon2_phc_check(secret_bytes(password), master.verify_hash@) is None {
                is_crypto_error(e, "解析验证哈希失败: "@)
            } else {
                argon2_phc_check(secret_bytes(password), master.verify_hash@) == Some(true)
                    && derived_key(*master, secret_bytes(password)) is None && is_crypto_error(
                    e,
                    derive_error_context(*master),
                )
            },
        },
{
    let mut password = password;
    match verify_master_password(master, &password) {
        Ok(true) => {},
        Ok(false) => {
            wipe(&mut password.0);
            return Err(KeymgrError::MasterPasswordMismatch);
        },
        Err(e) => {
            wipe(&mut password.0);
            return Err(e);
        },
    }
    match derive_dek(master, &password) {
        Ok(dek) => Ok((dek, password)),
        Err(e) => {
            wipe(&mut password.0);
            Err(e)
        },
    }
}

/// Accepts a new master password only when it was typed the same twice. The second copy is
/// wiped from memory, and so is the first when the two differ.
pub fn confirm_new_password(password: SecureString, confirm: SecureString) -> (r: Result<SecureString, KeymgrError>)
    ensures
        match r {
            Ok(pw) => pw == password && password.0@ == confirm.0@,
            Err(e) => password.0@ != confirm.0@ && (e matches KeymgrError::Crypto(msg) && msg@
                == "两次输入的密码不一致"@),
        },
{
    let mut password = password;
    let mut confirm = confirm;
    let same = password.0 == confirm.0;
    wipe(&mut confirm.0);
    if same {
        Ok(password)
    } else {
        wipe(&mut password.0);
        Err(KeymgrError::Crypto(String::from_str("两次输入的密码不一致")))
    }
}

} // verus!
