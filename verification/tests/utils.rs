use hybrid_mount::error::EngineError;
use hybrid_mount::utils::{
    ensure_dir_exists, generate_tmp, is_ok_empty, module_id_verdict, select_temp_dir,
    tmp_path_for, validate_module_id, DirListing, TmpfsCandidate, TMP_NAME_LEN,
};

fn candidate(path: &str, exists: bool, listing: DirListing) -> TmpfsCandidate {
    TmpfsCandidate { path: path.to_string(), exists, listing }
}

#[test]
fn well_formed_module_ids_are_accepted() {
    for id in ["ab", "a1", "meta-hybrid", "zygisksu", "A.b_c-d", "x0123456789"] {
        assert_eq!(validate_module_id(id), Ok(()), "{:?}", id);
    }
}

#[test]
fn malformed_module_ids_are_refused() {
    for id in ["", "a", "1a", "_ab", "a b", "ab\n", "a/b", "é1", "aé", "-ab", "../x", "ab "] {
        assert_eq!(
            validate_module_id(id),
            Err(EngineError::InvalidModuleId { id: id.to_string() }),
            "{:?}",
            id
        );
    }
}

#[test]
fn a_refused_module_id_is_named_in_the_message() {
    let error = validate_module_id("1bad").unwrap_err();
    assert_eq!(
        error.message(),
        "Invalid module ID: '1bad'. Must match /^[a-zA-Z][a-zA-Z0-9._-]+$/"
    );
}

#[test]
fn the_verdict_follows_the_match() {
    assert_eq!(module_id_verdict("anything", true), Ok(()));
    assert_eq!(
        module_id_verdict("ab", false),
        Err(EngineError::InvalidModuleId { id: "ab".to_string() })
    );
}

#[test]
fn a_staging_path_is_the_parent_and_a_random_name() {
    for _ in 0..50 {
        let path = generate_tmp();
        let name = path.strip_prefix("/mnt/").expect("the path lies under /mnt");
        assert_eq!(name.chars().count(), 10);
        assert_eq!(name.chars().count(), TMP_NAME_LEN);
        assert!(name.chars().all(|c| c.is_ascii_alphanumeric()), "{:?}", name);
    }
}

#[test]
fn staging_paths_differ() {
    let first = generate_tmp();
    let different = (0..20).any(|_| generate_tmp() != first);
    assert!(different);
}

#[test]
fn a_staging_path_for_a_name() {
    assert_eq!(tmp_path_for("abcDEF0123"), "/mnt/abcDEF0123");
    assert_eq!(tmp_path_for(""), "/mnt/");
}

#[test]
fn a_directory_is_there_when_made_and_seen() {
    assert_eq!(ensure_dir_exists("/data/adb/x", true, true), Ok(()));
    for (created, is_dir) in [(true, false), (false, true), (false, false)] {
        let result = ensure_dir_exists("/data/adb/x", created, is_dir);
        assert_eq!(result, Err(EngineError::NotADirectory { path: "/data/adb/x".to_string() }));
        assert_eq!(result.unwrap_err().message(), "/data/adb/x is not a regular directory");
    }
}

#[test]
fn only_an_empty_listing_is_ok_and_empty() {
    assert!(is_ok_empty(DirListing::Empty));
    assert!(!is_ok_empty(DirListing::Occupied));
    assert!(!is_ok_empty(DirListing::Unreadable));
}

#[test]
fn the_empty_candidate_is_selected_over_the_occupied_one() {
    let candidates = vec![
        candidate("/mnt/a", true, DirListing::Occupied),
        candidate("/mnt/b", true, DirListing::Empty),
    ];
    for _ in 0..3 {
        assert_eq!(select_temp_dir(&candidates), Ok("/mnt/b".to_string()));
    }
}

#[test]
fn the_first_usable_candidate_is_selected() {
    let candidates = vec![
        candidate("/mnt/missing", false, DirListing::Unreadable),
        candidate("/mnt/file", true, DirListing::Unreadable),
        candidate("/mnt/first", true, DirListing::Empty),
        candidate("/mnt/second", true, DirListing::Empty),
    ];
    assert_eq!(select_temp_dir(&candidates), Ok("/mnt/first".to_string()));
}

#[test]
fn a_candidate_that_does_not_exist_is_passed_over() {
    let candidates = vec![
        candidate("/mnt/ghost", false, DirListing::Empty),
        candidate("/mnt/real", true, DirListing::Empty),
    ];
    assert_eq!(select_temp_dir(&candidates), Ok("/mnt/real".to_string()));
}

#[test]
fn without_a_usable_candidate_the_selection_fails() {
    let candidates = vec![
        candidate("/mnt/a", true, DirListing::Occupied),
        candidate("/mnt/b", false, DirListing::Unreadable),
    ];
    let error = select_temp_dir(&candidates).unwrap_err();
    assert_eq!(
        error,
        EngineError::StagingUnavailable {
            candidates: vec!["/mnt/a".to_string(), "/mnt/b".to_string()]
        }
    );
    assert_eq!(error.message(), "no tmpfs found in candidates: /mnt/a, /mnt/b");
    let none = select_temp_dir(&Vec::new()).unwrap_err();
    assert_eq!(none.message(), "no tmpfs found in candidates: ");
}

#[test]
fn a_rejected_pattern_has_its_own_message() {
    assert_eq!(EngineError::PatternRejected.message(), "module ID pattern rejected");
}
