use hybrid_mount::text::{chars_of, cut_first, join_strings, matches_at, same_text, strip_leading};

fn strings(items: &[&str]) -> Vec<String> {
    items.iter().map(|s| s.to_string()).collect()
}

#[test]
fn joining_puts_the_separator_between_neighbours() {
    assert_eq!(join_strings(&strings(&["a", "b", "c"]), ":"), "a:b:c");
    assert_eq!(join_strings(&strings(&["a"]), ":"), "a");
    assert_eq!(join_strings(&strings(&[]), ":"), "");
    assert_eq!(join_strings(&strings(&["", ""]), ", "), ", ");
    assert_eq!(join_strings(&strings(&["/mnt/a", "/mnt/b"]), ", "), "/mnt/a, /mnt/b");
}

#[test]
fn joining_agrees_with_the_standard_join() {
    for parts in [strings(&["x", "", "yz"]), strings(&["é", "ü"]), strings(&[""])] {
        for sep in [":", "", ", "] {
            assert_eq!(join_strings(&parts, sep), parts.join(sep));
        }
    }
}

#[test]
fn stripping_takes_the_leading_run_only() {
    assert_eq!(strip_leading("///a/b/", '/'), "a/b/");
    assert_eq!(strip_leading("a/b", '/'), "a/b");
    assert_eq!(strip_leading("////", '/'), "");
    assert_eq!(strip_leading("", '/'), "");
    assert_eq!(strip_leading("ééa", 'é'), "a");
}

#[test]
fn cutting_removes_the_first_occurrence_only() {
    assert_eq!(cut_first("abcabc", "bc"), "aabc");
    assert_eq!(cut_first("abc", "x"), "abc");
    assert_eq!(cut_first("abc", ""), "abc");
    assert_eq!(cut_first("abc", "abc"), "");
    assert_eq!(cut_first("ab", "abc"), "ab");
    assert_eq!(cut_first("aaa", "aa"), "a");
}

#[test]
fn texts_are_compared_character_by_character() {
    assert!(same_text("0", "0"));
    assert!(!same_text("0", "00"));
    assert!(!same_text("a", "b"));
    assert!(same_text("", ""));
    assert!(same_text("/debug_ramdisk", "/debug_ramdisk"));
}

#[test]
fn characters_and_occurrences() {
    let s = chars_of("héllo");
    assert_eq!(s, vec!['h', 'é', 'l', 'l', 'o']);
    assert!(matches_at(&s, &chars_of("llo"), 2));
    assert!(!matches_at(&s, &chars_of("llo"), 1));
    assert!(matches_at(&s, &chars_of(""), 5));
}
