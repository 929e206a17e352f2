use hybrid_mount::inspect::mounts_under;
use hybrid_mount::order::{comes_before, insert_ascending, sorted_unique};
use hybrid_mount::paths::{child_path, is_nested, path_components, relative_path, stock_path};
use std::path::Path;

fn strings(items: &[&str]) -> Vec<String> {
    items.iter().map(|s| s.to_string()).collect()
}

#[test]
fn only_strict_descendants_are_listed() {
    let table = strings(&[
        "/",
        "/system",
        "/system/vendor",
        "/system_ext",
        "/system2/vendor",
        "/data/system",
        "/system/apex/com.android.art",
    ]);
    assert_eq!(
        mounts_under("/system", &table),
        strings(&["/system/apex/com.android.art", "/system/vendor"])
    );
}

#[test]
fn the_listing_is_sorted_and_has_no_duplicates() {
    let table = strings(&[
        "/system/vendor",
        "/system/apex",
        "/system/vendor",
        "/system/apex/a",
        "/system/apex",
    ]);
    assert_eq!(
        mounts_under("/system", &table),
        strings(&["/system/apex", "/system/apex/a", "/system/vendor"])
    );
}

#[test]
fn the_order_is_that_of_the_strings_not_of_the_tree() {
    let table = strings(&["/system/a/c", "/system/ab/c", "/system/a-b", "/system/a"]);
    assert_eq!(
        mounts_under("/system", &table),
        strings(&["/system/a", "/system/a-b", "/system/a/c", "/system/ab/c"])
    );
}

#[test]
fn the_listing_agrees_with_sorting_and_deduplicating() {
    let table = strings(&[
        "/system/vendor",
        "/system",
        "/system/é",
        "/system/z",
        "/system/vendor/lib",
        "/proc",
        "/system/Z",
        "/system/vendor",
        "/system/0",
    ]);
    let mut expected: Vec<String> = table
        .iter()
        .filter(|m| Path::new(m).starts_with("/system") && Path::new(m) != Path::new("/system"))
        .cloned()
        .collect();
    expected.sort();
    expected.dedup();
    assert_eq!(mounts_under("/system", &table), expected);
}

#[test]
fn a_root_with_a_trailing_slash_names_the_same_directory() {
    let table = strings(&["/system", "/system/vendor"]);
    assert_eq!(mounts_under("/system/", &table), strings(&["/system/vendor"]));
}

#[test]
fn nothing_lies_under_a_root_that_is_not_mounted_over() {
    assert_eq!(mounts_under("/vendor", &strings(&["/", "/system/vendor"])), Vec::<String>::new());
    assert_eq!(mounts_under("/system", &Vec::new()), Vec::<String>::new());
}

#[test]
fn nesting_goes_by_whole_components() {
    assert!(is_nested("/system/vendor", "/system"));
    assert!(!is_nested("/system", "/system"));
    assert!(!is_nested("/system/", "/system"));
    assert!(!is_nested("/system_ext", "/system"));
    assert!(!is_nested("/", "/system"));
    assert!(is_nested("/system", "/"));
    assert!(is_nested("/system//vendor/", "/system"));
    assert!(is_nested("/system/./vendor", "/system/"));
    assert!(!is_nested("/system/.", "/system"));
    assert!(is_nested("/system/..", "/system"));
    assert!(!is_nested("system/vendor", "/system"));
    assert!(!is_nested("/system/vendor", "system"));
    assert!(is_nested("./a", "."));
    assert!(!is_nested("a", "."));
    assert!(is_nested("a", ""));
    assert!(!is_nested("", ""));
}

/// Every text over the given alphabet, up to the given length.
fn texts_over(alphabet: &[char], max_len: usize) -> Vec<String> {
    let mut all = vec![String::new()];
    let mut last = vec![String::new()];
    for _ in 0..max_len {
        let mut next = Vec::new();
        for text in &last {
            for c in alphabet {
                let mut longer = text.clone();
                longer.push(*c);
                next.push(longer);
            }
        }
        all.extend(next.iter().cloned());
        last = next;
    }
    all
}

fn system_components(path: &str) -> Vec<String> {
    Path::new(path).components().map(|c| c.as_os_str().to_string_lossy().to_string()).collect()
}

fn own_components(path: &str) -> Vec<String> {
    path_components(path).into_iter().map(|c| c.into_iter().collect()).collect()
}

#[test]
fn components_are_those_of_the_system() {
    assert_eq!(own_components("/system//vendor/./lib/"), vec!["/", "system", "vendor", "lib"]);
    assert_eq!(own_components("./a/../b"), vec![".", "a", "..", "b"]);
    assert_eq!(own_components(""), Vec::<String>::new());
    assert_eq!(own_components("/"), vec!["/"]);
    for path in texts_over(&['/', '.', 'a', 'é'], 5) {
        assert_eq!(own_components(&path), system_components(&path), "{:?}", path);
    }
}

#[test]
fn nesting_is_that_of_the_system() {
    for paths in [texts_over(&['/', '.', 'a'], 4), texts_over(&['/', 'a', 'b'], 4)] {
        for point in &paths {
            for root in &paths {
                let expected =
                    Path::new(point).starts_with(root) && Path::new(point) != Path::new(root);
                assert_eq!(is_nested(point, root), expected, "{:?} under {:?}", point, root);
            }
        }
    }
}

#[test]
fn nesting_is_that_of_the_system_on_longer_paths() {
    let paths = [
        "/system", "/system/", "/system/vendor", "/system/vendor/lib64", "/system_ext",
        "/system/apex/com.android.art", "/", "//system///vendor", "/system/./vendor/.",
        "/system/../vendor", "system/vendor", "./system", "/système/é", "/data/adb/modules",
        "/mnt/vendor", "/vendor", "", ".", "..", "/..", "/.", "/system/.hidden", "/system/..data",
    ];
    for point in paths {
        for root in paths {
            let expected = Path::new(point).starts_with(root) && Path::new(point) != Path::new(root);
            assert_eq!(is_nested(point, root), expected, "{:?} under {:?}", point, root);
        }
    }
}

#[test]
fn strings_are_ordered_by_their_bytes() {
    let samples = ["", "a", "ab", "b", "A", "a/", "a-", "é", "z", "日本", "/system", "/system/a"];
    for x in samples {
        for y in samples {
            assert_eq!(comes_before(x, y), x < y, "{:?} before {:?}", x, y);
        }
    }
}

#[test]
fn sorting_keeps_each_text_once() {
    let input = strings(&["b", "a", "c", "a", "", "b", "ab"]);
    assert_eq!(sorted_unique(&input), strings(&["", "a", "ab", "b", "c"]));
    assert_eq!(sorted_unique(&Vec::new()), Vec::<String>::new());
}

#[test]
fn inserting_keeps_the_list_ascending() {
    let mut list = strings(&["a", "c"]);
    insert_ascending(&mut list, "b");
    insert_ascending(&mut list, "a");
    insert_ascending(&mut list, "d");
    insert_ascending(&mut list, "");
    insert_ascending(&mut list, "c");
    assert_eq!(list, strings(&["", "a", "b", "c", "d"]));
}

#[test]
fn a_child_path_is_the_root_extended_by_the_relative_path() {
    assert_eq!(child_path("/mods/a", "/vendor"), "/mods/a/vendor");
    assert_eq!(child_path("/mods/a/", "/vendor"), "/mods/a/vendor");
    assert_eq!(child_path("/mods/a", "vendor/lib"), "/mods/a/vendor/lib");
    assert_eq!(child_path("/mods/a", "///vendor"), "/mods/a/vendor");
    assert_eq!(child_path("", "/vendor"), "vendor");
    assert_eq!(child_path("/mods/a", ""), "/mods/a/");
    assert_eq!(child_path("/", "/vendor"), "/vendor");
}

#[test]
fn a_child_path_is_what_joining_the_paths_gives() {
    let bases = ["/mods/a", "/mods/a/", "", "/", "mods", "/mods/é"];
    let relatives = ["/vendor", "vendor", "//vendor/lib", "", "/", "/apex/com.android.art", "/ü"];
    for base in bases {
        for relative in relatives {
            let expected = Path::new(base).join(relative.trim_start_matches('/'));
            assert_eq!(child_path(base, relative), expected.display().to_string());
        }
    }
}

#[test]
fn the_relative_path_is_the_mount_point_without_the_root() {
    assert_eq!(relative_path("/system/vendor", "/system"), "/vendor");
    assert_eq!(relative_path("/system/system/x", "/system"), "/system/x");
    assert_eq!(relative_path("/system/vendor", "/system/"), "vendor");
    assert_eq!(relative_path("/data/system", "/system"), "/data");
    assert_eq!(relative_path("/vendor", "/system"), "/vendor");
    assert_eq!(relative_path("/system", "/system"), "");
    assert_eq!(relative_path("/system/vendor", ""), "/system/vendor");
}

#[test]
fn the_relative_path_is_what_replacing_the_first_occurrence_gives() {
    let points = ["/system/vendor", "/system", "/a/system/b/system", "", "/sys", "/système/é"];
    let roots = ["/system", "/", "", "/system/vendor/lib", "é", "/sys"];
    for point in points {
        for root in roots {
            assert_eq!(relative_path(point, root), point.replacen(root, "", 1));
        }
    }
}

#[test]
fn the_stock_path_starts_at_the_current_directory() {
    assert_eq!(stock_path("/vendor"), "./vendor");
    assert_eq!(stock_path(""), ".");
}
