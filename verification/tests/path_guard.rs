use acerola::path_guard::{id_from_hash, path_hash, starts_with, PathError, PathGuard};

#[test]
fn test_path_hash_is_deterministic_and_distinguishes_paths() {
    let path = "/library/berserk/chapter-01.cbz";
    assert_eq!(path_hash(path), path_hash(path));
    assert_ne!(path_hash(path), path_hash("/library/berserk/chapter-02.cbz"));
}

#[test]
fn test_path_hash_is_always_non_negative() {
    for i in 0..64 {
        let path = format!("/library/comic-{i}/chapter-{i}.cbz");
        assert!(path_hash(&path) >= 0);
    }
}

#[test]
fn path_hash_ignores_redundant_separators_like_std_path() {
    assert_eq!(path_hash("/library//berserk/"), path_hash("/library/berserk"));
}

#[test]
fn starts_with_compares_whole_components() {
    assert!(starts_with("/library/berserk/ch1.cbz", "/library/berserk"));
    assert!(starts_with("/library/berserk", "/library/berserk/"));
    assert!(!starts_with("/library/berserk2/ch1.cbz", "/library/berserk"));
}

#[test]
fn guard_runs_actions_only_inside_the_canonical_root() {
    let guard = PathGuard::new("/lib".to_string(), Some("/data/lib".to_string()));
    let inside = guard.execute("/lib/a.cbz", Some("/data/lib/a.cbz"), |_| -> Result<u32, String> { Ok(7) });
    assert!(matches!(inside, Ok(7)));
    let outside = guard.execute("/lib/../x.cbz", Some("/data/x.cbz"), |_| -> Result<u32, String> { Ok(7) });
    assert!(matches!(outside, Err(PathError::AccessDenied)));
    let missing = guard.execute("/lib/none.cbz", None, |_| -> Result<u32, String> { Ok(7) });
    assert!(matches!(missing, Err(PathError::NotFound(p)) if p == "/lib/none.cbz"));
    let failing = guard.execute("/lib/a.cbz", Some("/data/lib/a.cbz"), |_| -> Result<u32, String> {
        Err("falha simulada".to_string())
    });
    assert!(matches!(failing, Err(PathError::ActionFailed(m)) if m == "falha simulada"));
}

#[test]
fn identifiers_are_hashes_with_the_top_bit_cleared() {
    assert_eq!(id_from_hash(0), 0);
    assert_eq!(id_from_hash(u64::MAX), i64::MAX);
    assert_eq!(id_from_hash(0x8000_0000_0000_0005), 5);
    assert_eq!(id_from_hash(42), 42);
    assert_eq!(path_hash("/lib/A"), path_hash("/lib/A"));
    assert!(path_hash("/lib/A") >= 0);
}
