use niri_waybar_windowlist::text::{contains, replace, u64_decimal};

#[test]
fn substrings_are_found() {
    assert!(contains("Friends List", "List"));
    assert!(contains("abc", ""));
    assert!(!contains("ab", "abc"));
    assert!(!contains("Friends", "friends"));
}

#[test]
fn replacement_goes_left_to_right_without_overlap() {
    assert_eq!(replace("aaa", "aa", "b"), "ba");
    assert_eq!(replace("x{a}{a}", "{a}", "1"), "x11");
    assert_eq!(replace("none", "{a}", "1"), "none");
    assert_eq!(u64_decimal(0), "0");
    assert_eq!(u64_decimal(u64::MAX), "18446744073709551615");
}
