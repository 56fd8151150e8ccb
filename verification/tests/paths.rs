use std::path::PathBuf;

use keymgr::store::{data_dir, data_dir_from, master_hash_path, vault_path};

#[test]
fn data_dir_under_config_dir() {
    assert_eq!(
        data_dir_from(Some(PathBuf::from("/home/u/.config"))),
        PathBuf::from("/home/u/.config/keymgr/data")
    );
    assert_eq!(
        data_dir_from(Some(PathBuf::from("/home/u/.config/"))).to_str(),
        Some("/home/u/.config/keymgr/data")
    );
    assert_eq!(data_dir_from(None).to_str(), Some("./keymgr/data"));
}

#[test]
fn file_paths_are_in_the_data_dir() {
    let dir = data_dir();
    assert!(dir.ends_with("keymgr/data"));
    assert_eq!(vault_path(), dir.join("vault.json"));
    assert_eq!(master_hash_path(), dir.join("master.hash"));
}

#[test]
fn the_two_files_differ() {
    assert_ne!(vault_path(), master_hash_path());
    assert!(vault_path().ends_with("vault.json"));
    assert!(master_hash_path().ends_with("master.hash"));
}
