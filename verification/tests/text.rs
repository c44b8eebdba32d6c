use gh_scaleset_pve::text::{
    concat2, concat3, contains_string, decimal_string, join_strings, replace_all_str, str_equal,
};

#[test]
fn decimal_rendering() {
    assert_eq!(decimal_string(0), "0");
    assert_eq!(decimal_string(7), "7");
    assert_eq!(decimal_string(10), "10");
    assert_eq!(decimal_string(5999), "5999");
    assert_eq!(decimal_string(u64::MAX), u64::MAX.to_string());
}

#[test]
fn joining() {
    let parts = vec!["a".to_string(), "bc".to_string(), "".to_string(), "d".to_string()];
    assert_eq!(join_strings(&parts, ", "), "a, bc, , d");
    assert_eq!(join_strings(&vec![], ","), "");
    assert_eq!(join_strings(&vec!["x".to_string()], ","), "x");
}

#[test]
fn replacing() {
    assert_eq!(replace_all_str("a${X}b${X}", "${X}", "1"), "a1b1");
    assert_eq!(replace_all_str("aaa", "aa", "b"), "ba");
    assert_eq!(replace_all_str("no match", "zz", "y"), "no match");
    assert_eq!(replace_all_str("é${K}ü", "${K}", "ß"), "éßü");
    assert_eq!(replace_all_str("x\ny\n", "\n", "\n\n"), "x\n\ny\n\n");
    assert_eq!(replace_all_str("ab", "abc", "z"), "ab");
}

#[test]
fn equality_and_membership() {
    assert!(str_equal("running", "running"));
    assert!(!str_equal("running", "stopped"));
    let v = vec!["x".to_string(), "y".to_string()];
    assert!(contains_string(&v, &"y".to_string()));
    assert!(!contains_string(&v, &"z".to_string()));
}

#[test]
fn concatenation() {
    assert_eq!(concat2("a", "b"), "ab");
    assert_eq!(concat3("dir", "/", "file"), "dir/file");
}
