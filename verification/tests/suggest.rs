use run_cli::paths::Platform;
use run_cli::suggest::{base_name, closest_candidate, suggest};

fn names(entries: &[&str]) -> Vec<String> {
    entries.iter().map(|s| s.to_string()).collect()
}

#[test]
fn suggests_close_name() {
    assert_eq!(
        suggest("echoe", &names(&["echo.bat", "exit42.bat"]), Platform::Unix),
        Some("echo.bat".to_string())
    );
}

#[test]
fn suggests_matching_base_name() {
    assert_eq!(
        suggest("echo", &names(&["echo.bat"]), Platform::Unix),
        Some("echo.bat".to_string())
    );
}

#[test]
fn no_suggestion_for_distant_names() {
    assert_eq!(suggest("zzz", &names(&["echo.bat"]), Platform::Unix), None);
}

#[test]
fn prefers_exact_base_match_over_closer_full_name() {
    assert_eq!(
        suggest("ex42", &names(&["exit42.bat", "ex42.exe"]), Platform::Unix),
        Some("ex42.exe".to_string())
    );
}

#[test]
fn empty_candidates() {
    assert_eq!(suggest("echo", &[], Platform::Unix), None);
}

#[test]
fn suggestion_counts_characters_not_bytes() {
    // One substitution of a multi-byte character is a distance of one.
    assert_eq!(
        suggest("tööl", &names(&["tool"]), Platform::Unix),
        Some("tool".to_string())
    );
}

#[test]
fn first_of_equally_close_candidates_wins() {
    assert_eq!(
        suggest("abc", &names(&["abd", "abe"]), Platform::Unix),
        Some("abd".to_string())
    );
}

#[test]
fn base_name_strips_extension() {
    assert_eq!(base_name("echo.bat", Platform::Unix), "echo");
    assert_eq!(base_name("echo", Platform::Unix), "echo");
    assert_eq!(base_name(".hidden", Platform::Unix), ".hidden");
}

#[test]
fn closest_candidate_takes_smallest_score_within_limit() {
    let candidates = names(&["a", "b", "c"]);
    assert_eq!(
        closest_candidate(&candidates, &[(3, 2), (1, 5), (1, 1)]),
        Some("b".to_string())
    );
    assert_eq!(closest_candidate(&candidates, &[(3, 4), (5, 3), (9, 9)]), None);
    assert_eq!(
        closest_candidate(&candidates, &[(3, 2), (2, 3), (0, 7)]),
        Some("c".to_string())
    );
}
