use femtoclaw_registry::text::{contains_str, matches_folded, str_eq, trim_str};
use femtoclaw_registry::{TalonError, TalonManifest};

#[test]
fn missing_frontmatter_without_delimiter() {
    assert_eq!(
        TalonManifest::frontmatter("no frontmatter here"),
        Err(TalonError::MissingFrontmatter)
    );
}

#[test]
fn missing_frontmatter_when_block_is_blank() {
    assert_eq!(
        TalonManifest::frontmatter("---\n   \n---\nbody"),
        Err(TalonError::MissingFrontmatter)
    );
    assert_eq!(TalonManifest::frontmatter("---\n---"), Err(TalonError::MissingFrontmatter));
    assert_eq!(TalonManifest::frontmatter("------"), Err(TalonError::MissingFrontmatter));
    assert_eq!(
        TalonManifest::frontmatter("---\n\u{a0}\u{3000}\t\r\n---\n"),
        Err(TalonError::MissingFrontmatter)
    );
    assert_eq!(TalonManifest::frontmatter(""), Err(TalonError::MissingFrontmatter));
}

#[test]
fn frontmatter_between_delimiters_is_trimmed() {
    let content = "---\nname: github\nversion: 1.0.0\n---\n\n# GitHub Talon\n";
    assert_eq!(
        TalonManifest::frontmatter(content),
        Ok("name: github\nversion: 1.0.0".to_string())
    );
}

#[test]
fn frontmatter_trims_surrounding_whitespace() {
    assert_eq!(
        TalonManifest::frontmatter("---\n   name: a   \n\t\n---"),
        Ok("name: a".to_string())
    );
}

#[test]
fn frontmatter_runs_to_end_without_second_delimiter() {
    assert_eq!(TalonManifest::frontmatter("---\nname: x"), Ok("name: x".to_string()));
}

#[test]
fn frontmatter_ignores_leading_content() {
    assert_eq!(
        TalonManifest::frontmatter("intro text\n---\nk: v\n---\nrest\n---\nmore"),
        Ok("k: v".to_string())
    );
}

#[test]
fn frontmatter_body_delimiters_do_not_split_further() {
    assert_eq!(
        TalonManifest::frontmatter("---\na: 1\n---\nb\n---\nc"),
        Ok("a: 1".to_string())
    );
}

#[test]
fn substring_search_on_characters() {
    assert!(contains_str("alpha-compatible", "alpha"));
    assert!(contains_str("alpha-compatible", "compatible"));
    assert!(contains_str("abc", ""));
    assert!(!contains_str("abc", "abcd"));
    assert!(!contains_str("", "a"));
    assert!(contains_str("ünïcödé", "ïcö"));
    assert!(!contains_str("web", "zzz"));
}

#[test]
fn folded_match_is_plain_containment() {
    assert!(matches_folded("web", "web tools"));
    assert!(!matches_folded("WEB", "web tools"));
}

#[test]
fn string_equality_by_characters() {
    assert!(str_eq("alpha", "alpha"));
    assert!(!str_eq("alpha", "alphb"));
    assert!(!str_eq("alpha", "alph"));
    assert!(str_eq("", ""));
}

#[test]
fn delimiter_inside_a_value_does_not_split() {
    let content = "---\nname: a---b\nversion: 1.0.0\ndescription: d\n---\n";
    assert_eq!(
        TalonManifest::frontmatter(content),
        Ok("name: a---b\nversion: 1.0.0\ndescription: d".to_string())
    );
}

#[test]
fn delimiter_must_fill_its_line() {
    assert_eq!(
        TalonManifest::frontmatter("--- \nname: x\n----\n---"),
        Err(TalonError::MissingFrontmatter)
    );
    assert_eq!(
        TalonManifest::frontmatter("text---\n---\nname: x\n ---\nmore\n---"),
        Ok("name: x\n ---\nmore".to_string())
    );
    assert_eq!(
        TalonManifest::frontmatter("---\nname: x\n---\nbody"),
        Ok("name: x".to_string())
    );
}

#[test]
fn trimming_removes_unicode_white_space_only() {
    assert_eq!(trim_str("\u{2003} a b \u{85}\n"), "a b");
    assert_eq!(trim_str("   "), "");
    assert_eq!(trim_str("x"), "x");
    assert_eq!(trim_str("\u{200b}x"), "\u{200b}x");
}
