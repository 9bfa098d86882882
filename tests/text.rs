use dirmux::text::{decimal_string, push_right_aligned, str_less};

#[test]
fn decimals() {
    assert_eq!(decimal_string(0), "0");
    assert_eq!(decimal_string(7), "7");
    assert_eq!(decimal_string(1234), "1234");
    assert_eq!(decimal_string(usize::MAX), usize::MAX.to_string());
}

#[test]
fn right_alignment() {
    let mut s = String::from(">");
    push_right_aligned(&mut s, "ab", 5);
    assert_eq!(s, ">   ab");
    let mut t = String::new();
    push_right_aligned(&mut t, "abcdef", 3);
    assert_eq!(t, "abcdef");
}

#[test]
fn lexicographic_order() {
    assert!(str_less("a", "b"));
    assert!(str_less("a", "ab"));
    assert!(!str_less("ab", "a"));
    assert!(!str_less("x", "x"));
    assert!(str_less("", "a"));
    assert!(!str_less("", ""));
}
