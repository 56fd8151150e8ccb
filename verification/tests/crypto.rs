use keymgr::crypto::{
    checked_decrypt, create_master_hash, create_master_hash_with, decrypt, derive_dek, encrypt,
    encrypt_with_nonce, verify_master_password,
};
use keymgr::error::KeymgrError;
use keymgr::model::{Dek, MasterHash, SecureString};

#[test]
fn test_encrypt_decrypt_roundtrip() {
    let password = SecureString::new("test-master-password".into());
    let master = create_master_hash(&password).expect("创建 master hash 失败");
    let dek = derive_dek(&master, &password).expect("派生 DEK 失败");

    let plaintext = "my-super-secret-api-key-12345";
    let (ciphertext, nonce) = encrypt(&dek, plaintext).expect("加密失败");

    let decrypted = decrypt(&dek, &ciphertext, &nonce).expect("解密失败");
    assert_eq!(decrypted, plaintext);
}

#[test]
fn test_encrypt_decrypt_empty() {
    let password = SecureString::new("another-password".into());
    let master = create_master_hash(&password).expect("创建 master hash 失败");
    let dek = derive_dek(&master, &password).expect("派生 DEK 失败");

    let plaintext = "";
    let (ciphertext, nonce) = encrypt(&dek, plaintext).expect("加密失败");
    let decrypted = decrypt(&dek, &ciphertext, &nonce).expect("解密失败");
    assert_eq!(decrypted, plaintext);
}

#[test]
fn test_decrypt_with_wrong_dek_fails() {
    let p1 = SecureString::new("password-1".into());
    let p2 = SecureString::new("password-2".into());

    let master = create_master_hash(&p1).expect("创建 master hash 失败");
    let dek1 = derive_dek(&master, &p1).expect("派生 DEK1 失败");
    let dek2 = derive_dek(&master, &p2).expect("派生 DEK2 失败");

    let (ciphertext, nonce) = encrypt(&dek1, "secret").expect("加密失败");

    let result = decrypt(&dek2, &ciphertext, &nonce);
    assert!(result.is_err(), "用错误 DEK 解密应该失败");
}

#[test]
fn test_verify_master_password() {
    let password = SecureString::new("correct-password".into());
    let wrong = SecureString::new("wrong-password".into());

    let master = create_master_hash(&password).expect("创建 master hash 失败");

    assert!(verify_master_password(&master, &password).expect("验证失败"));
    assert!(!verify_master_password(&master, &wrong).expect("验证失败"));
}

#[test]
fn test_non_utf8_plaintext_is_rejected() {
    let password = SecureString::new("utf8-test".into());
    let master = create_master_hash(&password).unwrap();
    let dek = derive_dek(&master, &password).unwrap();

    let text = "こんにちは世界";
    let (ct, nc) = encrypt(&dek, text).unwrap();
    let decrypted = decrypt(&dek, &ct, &nc).unwrap();
    assert_eq!(decrypted, text);
}

fn fixed_master(password: &SecureString) -> MasterHash {
    create_master_hash_with(password, "c29tZXNhbHRzb21lc2FsdA".to_string(), &[7u8; 32]).unwrap()
}

#[test]
fn master_record_from_fixed_salts() {
    let pw = SecureString::new("pw".to_string());
    let m = fixed_master(&pw);
    assert_eq!(m.verify_salt, "c29tZXNhbHRzb21lc2FsdA");
    assert!(m.verify_hash.starts_with("$argon2id$v=19$"));
    assert!(m.verify_hash.contains("c29tZXNhbHRzb21lc2FsdA"));
    assert_eq!(m.dek_salt, "BwcHBwcHBwcHBwcHBwcHBwcHBwcHBwcHBwcHBwcHBwc=");
    assert!(verify_master_password(&m, &pw).unwrap());
}

#[test]
fn same_password_derives_same_key() {
    let pw = SecureString::new("same".to_string());
    let m = fixed_master(&pw);
    let k1 = derive_dek(&m, &pw).unwrap();
    let k2 = derive_dek(&m, &pw).unwrap();
    assert_eq!(k1.0, k2.0);
    let other = derive_dek(&m, &SecureString::new("other".to_string())).unwrap();
    assert_ne!(k1.0, other.0);
}

#[test]
fn bad_salt_is_refused() {
    let pw = SecureString::new("pw".to_string());
    // a salt that is not base64
    let r = create_master_hash_with(&pw, "!!".to_string(), &[0u8; 32]);
    assert!(matches!(r, Err(KeymgrError::Crypto(m)) if m.starts_with("哈希主密码失败: ")));
    let mut m = fixed_master(&pw);
    m.dek_salt = "not base64!".to_string();
    assert!(matches!(derive_dek(&m, &pw), Err(KeymgrError::Crypto(m)) if m.starts_with("解码 DEK 盐值失败: ")));
    // decodes, but to fewer than 8 bytes
    m.dek_salt = "AAAA".to_string();
    assert!(matches!(derive_dek(&m, &pw), Err(KeymgrError::Crypto(m)) if m.starts_with("派生加密密钥失败: ")));
}

#[test]
fn unparsable_verify_hash_is_an_error() {
    let pw = SecureString::new("pw".to_string());
    let mut m = fixed_master(&pw);
    m.verify_hash = "not a phc string".to_string();
    assert!(matches!(verify_master_password(&m, &pw), Err(KeymgrError::Crypto(m)) if m.starts_with("解析验证哈希失败: ")));
}

#[test]
fn encrypt_with_fixed_nonce_round_trips() {
    let dek = Dek([1u8; 32]);
    let (c, n) = encrypt_with_nonce(&dek, "hello", &[0u8; 12]).unwrap();
    assert_eq!(n, "AAAAAAAAAAAAAAAA");
    assert_ne!(c, "hello");
    // ciphertext is 5 bytes of data plus a 16-byte tag: 21 bytes -> 28 base64 chars
    assert_eq!(c.len(), 28);
    assert_eq!(decrypt(&dek, &c, &n).unwrap(), "hello");
    // deterministic under a fixed nonce
    let (c2, _) = encrypt_with_nonce(&dek, "hello", &[0u8; 12]).unwrap();
    assert_eq!(c, c2);
}

#[test]
fn random_nonces_differ() {
    let dek = Dek([2u8; 32]);
    let (c1, n1) = encrypt(&dek, "v").unwrap();
    let (c2, n2) = encrypt(&dek, "v").unwrap();
    assert_ne!(n1, n2);
    assert_ne!(c1, c2);
}

#[test]
fn decrypt_errors() {
    let dek = Dek([3u8; 32]);
    let (c, n) = encrypt_with_nonce(&dek, "x", &[9u8; 12]).unwrap();
    assert!(matches!(decrypt(&dek, "@@@", &n), Err(KeymgrError::Crypto(m)) if m.starts_with("解码密文失败: ")));
    assert!(matches!(decrypt(&dek, &c, "@@@"), Err(KeymgrError::Crypto(m)) if m.starts_with("解码 nonce 失败: ")));
    let mut tampered = c.clone().into_bytes();
    tampered[0] = if tampered[0] == b'A' { b'B' } else { b'A' };
    let tampered = String::from_utf8(tampered).unwrap();
    assert!(matches!(decrypt(&dek, &tampered, &n), Err(KeymgrError::Crypto(m)) if m.starts_with("解密失败: ")));
}

#[test]
fn wrong_nonce_length_is_not_decrypted() {
    let dek = Dek([4u8; 32]);
    let (c, _) = encrypt_with_nonce(&dek, "x", &[0u8; 12]).unwrap();
    // "AAAA" decodes to three bytes, not twelve
    assert!(checked_decrypt(&dek, &c, "AAAA").is_none());
    // a ciphertext that does not decode is an error before the nonce is looked at
    assert!(matches!(checked_decrypt(&dek, "@@@", "AAAA"), Some(Err(KeymgrError::Crypto(_)))));
}

#[test]
fn fresh_master_record_has_the_salt_shapes() {
    let pw = SecureString::new("fresh".to_string());
    let m = create_master_hash(&pw).unwrap();
    assert_eq!(m.verify_salt.len(), 22);
    assert!(m.verify_hash.contains(&m.verify_salt));
    // 32 bytes in padded base64: 44 characters ending in one '='
    assert_eq!(m.dek_salt.len(), 44);
    assert!(m.dek_salt.ends_with('=') && !m.dek_salt.ends_with("=="));
    assert!(derive_dek(&m, &pw).is_ok());
}

#[test]
fn ciphertext_is_value_plus_tag() {
    let dek = Dek([6u8; 32]);
    // 30 bytes of UTF-8 (10 three-byte characters) + 16 = 46 bytes -> 64 base64 characters
    let (c, n) = encrypt(&dek, "密钥密钥密钥密钥密钥").unwrap();
    assert_eq!(c.len(), 64);
    assert_eq!(n.len(), 16);
    // empty value: the tag alone, 16 bytes -> 24 characters
    let (c, _) = encrypt(&dek, "").unwrap();
    assert_eq!(c.len(), 24);
}
