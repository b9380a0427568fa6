use vim_motion::chars::is_character_match;

#[test]
fn exact_match_without_smartcase() {
    assert!(is_character_match('o', 'o', false));
    assert!(!is_character_match('o', 'O', false));
    assert!(!is_character_match('O', 'o', false));
}

#[test]
fn smartcase_lowercase_target_matches_either_case() {
    assert!(is_character_match('o', 'o', true));
    assert!(is_character_match('o', 'O', true));
    assert!(!is_character_match('o', 'p', true));
}

#[test]
fn smartcase_uppercase_target_requires_exact_case() {
    assert!(is_character_match('O', 'O', true));
    assert!(!is_character_match('O', 'o', true));
}

#[test]
fn smartcase_folds_ascii_only() {
    assert!(!is_character_match('é', 'É', true));
    assert!(is_character_match('é', 'é', true));
}
