use stringly_typed::path::{split_key, str_eq};

#[test]
fn split_plain_key() {
    assert_eq!(split_key("inner.y"), vec!["inner", "y"]);
    assert_eq!(split_key("a.b.c.d"), vec!["a", "b", "c", "d"]);
}

#[test]
fn split_key_without_dot_is_itself() {
    assert_eq!(split_key("inner"), vec!["inner"]);
    assert_eq!(split_key("x"), vec!["x"]);
}

#[test]
fn split_empty_key_is_one_empty_segment() {
    assert_eq!(split_key(""), vec![""]);
}

#[test]
fn split_keeps_empty_segments() {
    assert_eq!(split_key("."), vec!["", ""]);
    assert_eq!(split_key(".a"), vec!["", "a"]);
    assert_eq!(split_key("a."), vec!["a", ""]);
    assert_eq!(split_key("a..b"), vec!["a", "", "b"]);
    assert_eq!(split_key("..."), vec!["", "", "", ""]);
}

#[test]
fn split_handles_characters_of_every_width() {
    assert_eq!(split_key("é.ü"), vec!["é", "ü"]);
    assert_eq!(split_key("名前.値.x"), vec!["名前", "値", "x"]);
    assert_eq!(split_key("𝔘.𝔫𝔦.𝔠𝔬𝔡𝔢"), vec!["𝔘", "𝔫𝔦", "𝔠𝔬𝔡𝔢"]);
    assert_eq!(split_key("a\u{2e}b"), vec!["a", "b"]);
    assert_eq!(split_key("a\u{ff0e}b"), vec!["a\u{ff0e}b"]);
    assert_eq!(split_key("a\u{12e}b"), vec!["a\u{12e}b"]);
}

#[test]
fn split_agrees_with_the_standard_library() {
    for key in ["", ".", "a", "a.b", "..a..", "inner.key_value_pair.key", "ß.", ".€.𐍈.", "a b.c\td"] {
        let expected: Vec<&str> = key.split(".").collect();
        assert_eq!(split_key(key), expected);
    }
}

#[test]
fn joined_segments_split_into_themselves() {
    let segments = vec!["alpha", "", "β", "gamma"];
    let joined = segments.join(".");
    assert_eq!(split_key(&joined), segments);
    assert_eq!(split_key(&joined).join("."), joined);
}

#[test]
fn str_eq_is_equality_of_texts() {
    assert!(str_eq("", ""));
    assert!(str_eq("inner", "inner"));
    assert!(str_eq("名前", "名前"));
    assert!(!str_eq("inner", "Inner"));
    assert!(!str_eq("inner", "inne"));
    assert!(!str_eq("inne", "inner"));
    assert!(!str_eq("", "a"));
    assert!(!str_eq("abc", "abd"));
    assert!(!str_eq("é", "e\u{301}"));
}
