use chrono::{Local, Offset, TimeZone};
use keymgr::auth::{confirm_new_password, verify_and_get_dek};
use keymgr::confirm::is_confirmed;
use keymgr::crypto::{create_master_hash_with, decrypt, encrypt_with_nonce};
use keymgr::error::KeymgrError;
use keymgr::listing::timestamp_or_unknown;
use keymgr::model::{Dek, KeyEntry, SecureString, Vault};

fn key(b: u8) -> Dek {
    Dek([b; 32])
}

fn value_of(v: &Vault, dek: &Dek, name: &str) -> String {
    let e = v.find(name).unwrap();
    decrypt(dek, &e.ciphertext, &e.nonce).unwrap()
}

#[test]
fn default_vault_is_empty() {
    let v = Vault::default();
    assert_eq!(v.version, 0);
    assert!(v.entries.is_empty());
}

#[test]
fn add_then_find() {
    let dek = key(1);
    let mut v = Vault::default();
    v.add_key(&dek, "github", "ghp_0123456789", 100).unwrap();
    let e = v.find("github").unwrap();
    assert_eq!(e.name, "github");
    assert_eq!(e.masked_preview, "ghp_***6789");
    assert_eq!(e.created_at, 100);
    assert_eq!(e.updated_at, 100);
    assert_eq!(value_of(&v, &dek, "github"), "ghp_0123456789");
}

#[test]
fn duplicate_name_is_refused() {
    let dek = key(1);
    let mut v = Vault::default();
    v.add_key(&dek, "a", "1", 1).unwrap();
    assert!(matches!(v.ensure_absent("a"), Err(KeymgrError::DuplicateKey(n)) if n == "a"));
    assert!(v.ensure_absent("b").is_ok());
    let r = v.add_key(&dek, "a", "2", 2);
    assert!(matches!(r, Err(KeymgrError::DuplicateKey(n)) if n == "a"));
    assert_eq!(v.entries.len(), 1);
    assert_eq!(value_of(&v, &dek, "a"), "1");
}

#[test]
fn missing_name_is_not_found() {
    let dek = key(1);
    let mut v = Vault::default();
    assert!(matches!(v.find("x"), Err(KeymgrError::KeyNotFound(n)) if n == "x"));
    assert!(matches!(v.update_key(&dek, "x", "v", 5), Err(KeymgrError::KeyNotFound(n)) if n == "x"));
    assert!(matches!(v.remove_key("x"), Err(KeymgrError::KeyNotFound(n)) if n == "x"));
    assert_eq!(v.find_index("x"), None);
}

#[test]
fn update_keeps_name_and_creation_time() {
    let dek = key(1);
    let mut v = Vault::default();
    v.add_key(&dek, "k", "old-value-123", 10).unwrap();
    v.add_key(&dek, "other", "x", 11).unwrap();
    v.update_key(&dek, "k", "new", 20).unwrap();
    let e = v.find("k").unwrap();
    assert_eq!(e.created_at, 10);
    assert_eq!(e.updated_at, 20);
    assert_eq!(e.masked_preview, "n*w");
    assert_eq!(value_of(&v, &dek, "k"), "new");
    assert_eq!(v.find_index("k"), Some(0));
    assert_eq!(value_of(&v, &dek, "other"), "x");
}

#[test]
fn remove_takes_out_one_key() {
    let dek = key(1);
    let mut v = Vault::default();
    v.add_key(&dek, "a", "1", 1).unwrap();
    v.add_key(&dek, "b", "2", 2).unwrap();
    v.add_key(&dek, "c", "3", 3).unwrap();
    let removed = v.remove_key("b").unwrap();
    assert_eq!(removed.name, "b");
    let names: Vec<&str> = v.entries.iter().map(|e| e.name.as_str()).collect();
    assert_eq!(names, vec!["a", "c"]);
    assert!(v.find("b").is_err());
}

#[test]
fn listing_is_sorted_by_name() {
    let dek = key(1);
    let mut v = Vault::default();
    for (n, val) in [("zeta", "zzzzzzzzzz"), ("Alpha", "ab"), ("beta", "abcd"), ("alpha", "a")] {
        v.add_key(&dek, n, val, 0).unwrap();
    }
    assert_eq!(v.name_order(), vec![1, 3, 2, 0]);
    let lines = v.key_displays();
    let names: Vec<&str> = lines.iter().map(|d| d.name.as_str()).collect();
    assert_eq!(names, vec!["Alpha", "alpha", "beta", "zeta"]);
    let masks: Vec<&str> = lines.iter().map(|d| d.masked_value.as_str()).collect();
    assert_eq!(masks, vec!["*b", "a", "a**d", "zzzz***zzzz"]);
}

#[test]
fn listing_keeps_stored_order_for_equal_names() {
    let mk = |name: &str, preview: &str| KeyEntry {
        name: name.to_string(),
        ciphertext: String::new(),
        nonce: String::new(),
        masked_preview: preview.to_string(),
        created_at: 0,
        updated_at: 0,
    };
    let v = Vault { version: 0, entries: vec![mk("b", "1"), mk("a", "2"), mk("b", "3"), mk("ab", "4")] };
    assert_eq!(v.name_order(), vec![1, 3, 0, 2]);
}

#[test]
fn listing_of_empty_vault_is_empty() {
    assert!(Vault::default().key_displays().is_empty());
}

#[test]
fn listing_needs_no_key() {
    // The listing works from the stored previews alone.
    let mut v = Vault::default();
    v.add_key(&key(9), "n", "secret-value", 1_700_000_000).unwrap();
    let lines = v.key_displays();
    assert_eq!(lines.len(), 1);
    assert_eq!(lines[0].masked_value, "secr***alue");
    assert!(!lines[0].created_at.is_empty());
}

#[test]
fn reencrypt_keeps_values_names_and_times() {
    let old = key(1);
    let new = key(2);
    let mut v = Vault::default();
    v.add_key(&old, "a", "first-secret", 5).unwrap();
    v.add_key(&old, "b", "x", 6).unwrap();
    v.update_key(&old, "b", "second", 7).unwrap();
    assert!(matches!(v.reencrypt(&old, &new), Some(Ok(()))));
    assert_eq!(value_of(&v, &new, "a"), "first-secret");
    assert_eq!(value_of(&v, &new, "b"), "second");
    let b = v.find("b").unwrap();
    assert_eq!((b.created_at, b.updated_at), (6, 7));
    assert_eq!(b.masked_preview, "s***nd");
    let a = v.find("a").unwrap();
    assert!(decrypt(&old, &a.ciphertext, &a.nonce).is_err());
}

#[test]
fn reencrypt_with_wrong_key_fails() {
    let mut v = Vault::default();
    v.add_key(&key(1), "a", "v", 1).unwrap();
    assert!(matches!(v.reencrypt(&key(3), &key(2)), Some(Err(KeymgrError::Crypto(_)))));
}

#[test]
fn reencrypt_stops_on_bad_nonce() {
    let dek = key(1);
    let (c, _) = encrypt_with_nonce(&dek, "v", &[0u8; 12]).unwrap();
    let mut v = Vault::default();
    v.entries.push(KeyEntry {
        name: "a".to_string(),
        ciphertext: c,
        nonce: "AAAA".to_string(),
        masked_preview: "v".to_string(),
        created_at: 0,
        updated_at: 0,
    });
    assert!(v.reencrypt(&dek, &key(2)).is_none());
}

#[test]
fn unlock_checks_the_password() {
    let pw = SecureString::new("master".to_string());
    let m = create_master_hash_with(&pw, "c29tZXNhbHRzb21lc2FsdA".to_string(), &[5u8; 32]).unwrap();
    let wrong = SecureString::new("Master".to_string());
    assert!(matches!(verify_and_get_dek(&m, wrong), Err(KeymgrError::MasterPasswordMismatch)));
    let (dek, back) = verify_and_get_dek(&m, SecureString::new("master".to_string())).unwrap();
    assert_eq!(back.0, "master");
    let mut v = Vault::default();
    v.add_key(&dek, "k", "stored", 1).unwrap();
    let (dek2, _) = verify_and_get_dek(&m, pw).unwrap();
    assert_eq!(value_of(&v, &dek2, "k"), "stored");
}

#[test]
fn new_password_must_be_typed_twice_alike() {
    let ok = confirm_new_password(SecureString::new("p".into()), SecureString::new("p".into()));
    assert_eq!(ok.unwrap().0, "p");
    let bad = confirm_new_password(SecureString::new("p".into()), SecureString::new("q".into()));
    assert!(matches!(bad, Err(KeymgrError::Crypto(m)) if m == "两次输入的密码不一致"));
}

#[test]
fn confirmation_answers() {
    assert!(is_confirmed("y"));
    assert!(is_confirmed(" Y\n"));
    assert!(!is_confirmed("n"));
    assert!(!is_confirmed(""));
    assert!(!is_confirmed("yes"));
}

#[test]
fn unknown_time_text() {
    assert_eq!(timestamp_or_unknown(None), "未知时间");
    assert_eq!(timestamp_or_unknown(Some("2024-01-01 00:00:00".to_string())), "2024-01-01 00:00:00");
}

#[test]
fn listing_times_have_the_date_shape_or_are_unknown() {
    let mk = |created: i64| KeyEntry {
        name: "n".to_string(),
        ciphertext: String::new(),
        nonce: String::new(),
        masked_preview: "p".to_string(),
        created_at: created,
        updated_at: 0,
    };
    let v = Vault { version: 0, entries: vec![mk(i64::MAX)] };
    let lines = v.key_displays();
    assert_eq!(lines[0].created_at, "未知时间");
    let t = &lines[0].updated_at;
    assert_eq!(t.len(), 19);
    let b = t.as_bytes();
    assert_eq!((b[4], b[7], b[10], b[13], b[16]), (b'-', b'-', b' ', b':', b':'));
    assert!(t.starts_with("1969-12-31") || t.starts_with("1970-01-01"));
}

#[test]
fn unlock_with_unparsable_record_reports_the_checker() {
    let pw = SecureString::new("master".to_string());
    let mut m = create_master_hash_with(&pw, "c29tZXNhbHRzb21lc2FsdA".to_string(), &[5u8; 32]).unwrap();
    m.verify_hash = "garbage".to_string();
    assert!(matches!(verify_and_get_dek(&m, pw), Err(KeymgrError::Crypto(msg)) if msg.starts_with("解析验证哈希失败: ")));
}

#[test]
fn unlock_with_bad_key_salt_reports_the_derivation() {
    let pw = SecureString::new("master".to_string());
    let mut m = create_master_hash_with(&pw, "c29tZXNhbHRzb21lc2FsdA".to_string(), &[5u8; 32]).unwrap();
    m.dek_salt = "###".to_string();
    assert!(matches!(verify_and_get_dek(&m, pw), Err(KeymgrError::Crypto(msg)) if msg.starts_with("解码 DEK 盐值失败: ")));
}

#[test]
fn listing_time_range_edges() {
    let mk = |t: i64| KeyEntry {
        name: t.to_string(),
        ciphertext: String::new(),
        nonce: String::new(),
        masked_preview: String::new(),
        created_at: t,
        updated_at: t,
    };
    let max = 8_210_266_876_799i64;
    let min = -8_334_601_228_800i64;
    let v = Vault { version: 0, entries: vec![mk(max), mk(max + 1), mk(min), mk(min - 1)] };
    for line in v.key_displays() {
        let t: i64 = line.name.parse().unwrap();
        let inside = (min..=max).contains(&t);
        if inside {
            assert_ne!(line.created_at, "未知时间", "time {}", t);
            assert!(line.created_at.len() >= 19);
        } else {
            assert_eq!(line.created_at, "未知时间", "time {}", t);
        }
    }
}

#[test]
fn listing_time_is_the_local_wall_clock() {
    let offset_at = |ts: i64| Local.timestamp_opt(ts, 0).unwrap().offset().fix().local_minus_utc() as i64;
    // 2024-02-29 12:34:56 as a wall-clock count of seconds.
    let wall = 1_709_210_096i64;
    let ts = wall - offset_at(wall);
    if offset_at(ts) != offset_at(wall) {
        return;
    }
    let e = KeyEntry {
        name: "k".to_string(),
        ciphertext: String::new(),
        nonce: String::new(),
        masked_preview: String::new(),
        created_at: ts,
        updated_at: ts + 86_400 * 366,
    };
    let v = Vault { version: 0, entries: vec![e] };
    let lines = v.key_displays();
    assert_eq!(lines[0].created_at, "2024-02-29 12:34:56");
    let later = &lines[0].updated_at;
    assert!(later.starts_with("2025-03-01") || later.starts_with("2025-02-28") || later.starts_with("2025-03-02"));
}
