use baste::name::is_safe_identifier;
use baste::name::phrase;
use baste::name::PHRASE_WORDS;

#[test]
fn a_phrase_of_words_is_safe() {
    assert!(is_safe_identifier("gentle-otter-mint"));
    assert!(is_safe_identifier("no-such-phrase"));
    assert!(is_safe_identifier("a"));
}

#[test]
fn the_empty_string_is_not_safe() {
    assert!(!is_safe_identifier(""));
}

#[test]
fn dot_and_dot_dot_are_not_safe() {
    assert!(!is_safe_identifier("."));
    assert!(!is_safe_identifier(".."));
}

#[test]
fn other_names_made_of_dots_are_safe() {
    assert!(is_safe_identifier("..."));
    assert!(is_safe_identifier("...."));
    assert!(is_safe_identifier(".a"));
    assert!(is_safe_identifier("a."));
    assert!(is_safe_identifier("a..b"));
    assert!(is_safe_identifier(".x"));
    assert!(is_safe_identifier("x.."));
}

#[test]
fn a_parent_step_is_not_safe() {
    assert!(!is_safe_identifier("../etc/passwd"));
    assert!(!is_safe_identifier("a/../b"));
    assert!(!is_safe_identifier("..\\secret"));
    assert!(!is_safe_identifier("x/.."));
}

#[test]
fn an_absolute_path_is_not_safe() {
    assert!(!is_safe_identifier("/etc/passwd"));
    assert!(!is_safe_identifier("/"));
    assert!(!is_safe_identifier("\\share"));
}

#[test]
fn a_separator_anywhere_is_not_safe() {
    assert!(!is_safe_identifier("a/b"));
    assert!(!is_safe_identifier("a\\b"));
    assert!(!is_safe_identifier("ab/"));
}

#[test]
fn a_nul_character_is_not_safe() {
    assert!(!is_safe_identifier("ab\0cd"));
    assert!(!is_safe_identifier("\0"));
}

#[test]
fn characters_beyond_ascii_are_safe() {
    assert!(is_safe_identifier("żółw-ślimak"));
    assert!(is_safe_identifier("。"));
}

#[test]
fn a_drawn_phrase_has_its_words_and_hyphens() {
    for _ in 0..50 {
        let p = phrase();
        assert!(!p.is_empty());
        assert!(p.matches('-').count() >= PHRASE_WORDS - 1);
        assert!(p.len() > PHRASE_WORDS - 1);
        assert!(!p.starts_with('-'));
        assert!(!p.ends_with('-'));
    }
}

#[test]
fn a_drawn_phrase_is_a_safe_lower_case_identifier() {
    for _ in 0..50 {
        let p = phrase();
        assert!(is_safe_identifier(&p));
        assert!(p.chars().all(|c| c == '-' || c.is_ascii_lowercase()));
    }
}

#[test]
fn a_drawn_phrase_is_made_of_words_of_letters() {
    for _ in 0..50 {
        let p = phrase();
        let first = p.chars().next().unwrap();
        let last = p.chars().last().unwrap();
        assert!(first.is_ascii_lowercase());
        assert!(last.is_ascii_lowercase());
        assert!(!p.contains("--"));
        assert!(!p.chars().any(|c| c.is_uppercase()));
    }
}

#[test]
fn drawn_phrases_differ() {
    let first = phrase();
    let mut other = false;
    for _ in 0..32 {
        if phrase() != first {
            other = true;
        }
    }
    assert!(other);
}
