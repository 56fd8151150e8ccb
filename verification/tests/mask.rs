use keymgr::mask::mask_value;

#[test]
fn test_mask_long() {
    assert_eq!(mask_value("my-secret-token-abc123"), "my-s***c123");
    assert_eq!(mask_value("1234567890"), "1234***7890");
}

#[test]
fn test_mask_short() {
    assert_eq!(mask_value("abcdefgh"), "ab****gh"); // len=8
    assert_eq!(mask_value("abcdefg"), "ab***fg"); // len=7
    assert_eq!(mask_value("abcdef"), "a***ef"); // len=6
    assert_eq!(mask_value("abcde"), "a**de"); // len=5
    assert_eq!(mask_value("abcd"), "a**d"); // len=4
    assert_eq!(mask_value("abc"), "a*c"); // len=3
    assert_eq!(mask_value("ab"), "*b"); // len=2
    assert_eq!(mask_value("a"), "a"); // len=1
    assert_eq!(mask_value(""), ""); // len=0
}

#[test]
fn test_mask_reversible_length() {
    let cases = vec!["a", "ab", "abc", "abcd", "abcde", "abcdef", "abcdefg", "abcdefgh"];
    for case in cases {
        assert_eq!(mask_value(case).len(), case.len(),
            "掩码后的长度应与原始值相同: '{}'", case);
    }
}

#[test]
fn mask_readme_examples() {
    assert_eq!(mask_value("my-secret-token"), "my-s***oken");
    assert_eq!(mask_value("abcdefgh"), "ab****gh");
    assert_eq!(mask_value("abcd"), "a**d");
    assert_eq!(mask_value("a"), "a");
}

#[test]
fn mask_nine_bytes_is_long_form() {
    assert_eq!(mask_value("123456789"), "1234***6789");
    assert_eq!(mask_value("123456789").len(), 11);
}

#[test]
fn mask_counts_characters() {
    // seven characters: hide three, show two at each end
    assert_eq!(mask_value("こんにちは世界"), "こん***世界");
    assert_eq!(mask_value("aéé"), "a*é");
    assert_eq!(mask_value("日本語文"), "日**文");
    assert_eq!(mask_value("éé"), "*é");
    // eleven characters: the long form keeps four at each end
    assert_eq!(mask_value("abcd日本語wxyz"), "abcd***wxyz");
    assert_eq!(mask_value("密钥密钥密钥密钥密钥"), "密钥密钥***密钥密钥");
}

#[test]
fn mask_keeps_character_count_up_to_eight() {
    for case in ["é", "éé", "こんにちは世界", "日本語文字列です"] {
        assert_eq!(mask_value(case).chars().count(), case.chars().count());
    }
    assert_eq!(mask_value("日本語文字列ですね").chars().count(), 11);
}
