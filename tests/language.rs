use std::str::FromStr;
use ti_engine::types::Language;

#[test]
fn language_as_int() {
    assert_eq!(Language::en_US as u32, 0);
    assert_eq!(Language::fe_FR as u32, 1);
    assert_eq!(Language::es_ES as u32, 2);
    assert_eq!(Language::de_DE as u32, 3);
    assert_eq!(Language::ja_JP as u32, 4);
}

#[test]
fn language_as_string_valid() {
    assert_eq!(Language::from_str("en_US").unwrap(), Language::en_US);
    assert_eq!(Language::from_str("fe_FR").unwrap(), Language::fe_FR);
    assert_eq!(Language::from_str("es_ES").unwrap(), Language::es_ES);
    assert_eq!(Language::from_str("de_DE").unwrap(), Language::de_DE);
    assert_eq!(Language::from_str("ja_JP").unwrap(), Language::ja_JP);
}

#[test]
fn language_as_string_invalid() {
    assert!(Language::from_str("oh noes").is_err());
    assert!(Language::from_str("kl_KL").is_err());
}

#[test]
fn language_from_tag_exact_match_only() {
    assert_eq!(Language::from_tag("ja_JP").unwrap(), Language::ja_JP);
    assert!(Language::from_tag("").is_err());
    assert!(Language::from_tag("en_us").is_err());
    assert!(Language::from_tag("en_US ").is_err());
    assert!(Language::from_tag("en_U").is_err());
}

#[test]
fn language_error_names_the_input() {
    let err = Language::from_tag("kl_KL").unwrap_err();
    assert_eq!(format!("{}", err), "Invalid input: kl_KL");
}
