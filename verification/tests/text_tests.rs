use watchdog::names::{append_name, copy_names, find_name, find_slot, insert_name, sort_names};
use watchdog::text::{
    chars_of, contains, find_from, precedes, push_decimal, push_millis_as_seconds,
    push_signed_decimal, push_three_digits, push_two_digits, str_eq, string_of,
};

#[test]
fn decimal_rendering() {
    let mut s = String::from("n=");
    push_decimal(&mut s, 0);
    s.push(',');
    push_decimal(&mut s, 7);
    s.push(',');
    push_decimal(&mut s, 1234567890);
    s.push(',');
    push_decimal(&mut s, u64::MAX);
    assert_eq!(s, "n=0,7,1234567890,18446744073709551615");
    let mut t = String::new();
    push_two_digits(&mut t, 0);
    push_two_digits(&mut t, 7);
    push_two_digits(&mut t, 99);
    assert_eq!(t, "000799");
}

#[test]
fn characters_round_trip() {
    let s = "naïve ≥ 5";
    let v = chars_of(s);
    assert_eq!(v.len(), 9);
    assert_eq!(string_of(&v), s);
    assert!(chars_of("").is_empty());
}

#[test]
fn lexicographic_order() {
    assert!(precedes("HD1-Tower", "HD2-Tower"));
    assert!(!precedes("HD2-Tower", "HD1-Tower"));
    assert!(precedes("a", "ab"));
    assert!(!precedes("ab", "a"));
    assert!(!precedes("same", "same"));
    assert!(precedes("", "a"));
    assert!(!precedes("", ""));
    assert!(precedes("Z", "a"));
    assert!(precedes("z", "é"));
    for (a, b) in [("abc", "abd"), ("x", "y"), ("HD1-hls", "HD1-mp3"), ("é", "z")] {
        assert_eq!(precedes(a, b), a < b);
        assert_eq!(precedes(b, a), b < a);
    }
}

#[test]
fn substring_search() {
    assert!(contains("12:00 Lost synchronization", "Lost synchronization"));
    assert!(!contains("Lost synchronisation", "Lost synchronization"));
    assert!(contains("abc", ""));
    assert!(contains("", ""));
    assert!(!contains("", "a"));
    assert!(!contains("ab", "abc"));
    let hay = chars_of("mean mean mean");
    let needle = chars_of("mean");
    assert_eq!(find_from(&hay, &needle, 0), Some(0));
    assert_eq!(find_from(&hay, &needle, 1), Some(5));
    assert_eq!(find_from(&hay, &needle, 10), Some(10));
    assert_eq!(find_from(&hay, &needle, 11), None);
    assert_eq!(find_from(&hay, &needle, 100), None);
}

#[test]
fn sorted_names() {
    let mut names: Vec<String> = Vec::new();
    assert!(insert_name(&mut names, "mp3"));
    assert!(insert_name(&mut names, "hls"));
    assert!(insert_name(&mut names, "tower"));
    assert!(!insert_name(&mut names, "hls"));
    assert!(insert_name(&mut names, "aac"));
    assert_eq!(names, vec!["aac", "hls", "mp3", "tower"]);
    assert_eq!(find_slot(&names, "hls"), (1, true));
    assert_eq!(find_slot(&names, "ice"), (2, false));
    assert_eq!(find_slot(&names, "zzz"), (4, false));
    assert_eq!(find_slot(&names, ""), (0, false));
    assert_eq!(copy_names(&names), names);
}

#[test]
fn signed_and_fractional_rendering() {
    let mut s = String::new();
    push_signed_decimal(&mut s, -42);
    s.push(' ');
    push_signed_decimal(&mut s, 0);
    s.push(' ');
    push_signed_decimal(&mut s, i64::MIN);
    s.push(' ');
    push_three_digits(&mut s, 7);
    s.push(' ');
    push_three_digits(&mut s, 999);
    assert_eq!(s, "-42 0 -9223372036854775808 007 999");
    let mut t = String::new();
    for millis in [0, 5, 1500, -495, -1000, i64::MAX, i64::MIN] {
        push_millis_as_seconds(&mut t, millis);
        t.push(' ');
    }
    assert_eq!(
        t,
        "0.000 0.005 1.500 -0.495 -1.000 9223372036854775.807 -9223372036854775.808 "
    );
}

#[test]
fn names_in_the_order_of_adding() {
    let mut names: Vec<String> = Vec::new();
    assert!(append_name(&mut names, "mp3"));
    assert!(append_name(&mut names, "hls"));
    assert!(!append_name(&mut names, "mp3"));
    assert!(append_name(&mut names, "aac"));
    assert_eq!(names, vec!["mp3", "hls", "aac"]);
    assert_eq!(find_name(&names, "hls"), Some(1));
    assert_eq!(find_name(&names, "ogg"), None);
    assert_eq!(sort_names(&names), vec!["aac", "hls", "mp3"]);
    let twice = vec!["b".to_string(), "a".to_string(), "b".to_string()];
    assert_eq!(sort_names(&twice), vec!["a", "b"]);
    assert!(sort_names(&Vec::new()).is_empty());
}

#[test]
fn texts_are_equal_when_their_characters_are() {
    assert!(str_eq("", ""));
    assert!(str_eq("HD1-Tower", "HD1-Tower"));
    assert!(!str_eq("HD1-Tower", "HD1-tower"));
    assert!(!str_eq("a", "ab"));
    assert!(!str_eq("ab", "a"));
    assert!(str_eq("naïve ≥", "naïve ≥"));
    assert!(!str_eq("naïve", "naive"));
}
