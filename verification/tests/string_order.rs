use flowstate::bytes_order::{str_eq, str_lt};

#[test]
fn str_lt_is_byte_order() {
    assert!(str_lt("a", "b"));
    assert!(!str_lt("b", "a"));
    assert!(str_lt("a", "ab"));
    assert!(!str_lt("ab", "a"));
    assert!(!str_lt("a", "a"));
    assert!(str_lt("", "a"));
    assert!(!str_lt("", ""));
    assert!(str_lt("Z", "a"));
    assert!(str_lt("z", "é"));
}

#[test]
fn str_eq_compares_characters() {
    assert!(str_eq("span", "span"));
    assert!(!str_eq("span", "spam"));
    assert!(!str_eq("span", "spans"));
    assert!(str_eq("", ""));
}
