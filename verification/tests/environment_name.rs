use pixi_conda::environment_name::{
    is_invalid_char, is_whitespace_char, EnvironmentName, ParseEnvironmentNameError,
};
use pixi_conda::registry::Registry;
use std::path::PathBuf;

#[test]
fn plain_name_is_accepted() {
    let name = EnvironmentName::from_str("tools").unwrap();
    assert_eq!(name.as_str(), "tools");
    assert_eq!(name.into_string(), "tools".to_string());
}

#[test]
fn name_with_dots_dashes_and_unicode_is_accepted() {
    assert!(EnvironmentName::from_str("py-3.12_é").is_ok());
    assert!(EnvironmentName::from_str("").is_ok());
}

#[test]
fn each_forbidden_character_is_refused() {
    for (text, offending) in [
        ("a/b", "/"),
        ("a\\b", "\\"),
        ("a:b", ":"),
        ("a,b", ","),
        ("a b", " "),
        ("a\tb", "\t"),
        ("a\nb", "\n"),
        ("a\u{00A0}b", "\u{00A0}"),
        ("a\u{3000}b", "\u{3000}"),
    ] {
        assert_eq!(
            EnvironmentName::from_str(text),
            Err(ParseEnvironmentNameError::InvalidCharacter(offending.to_string()))
        );
    }
}

#[test]
fn the_first_forbidden_character_is_reported() {
    assert_eq!(
        EnvironmentName::from_str("ab:c/d e"),
        Err(ParseEnvironmentNameError::InvalidCharacter(":".to_string()))
    );
    assert_eq!(
        EnvironmentName::from_str(" x/"),
        Err(ParseEnvironmentNameError::InvalidCharacter(" ".to_string()))
    );
}

#[test]
fn error_message_names_the_character() {
    let error = EnvironmentName::from_str("a:b").unwrap_err();
    assert_eq!(error.message(), "invalid character in environment name: :");
}

#[test]
fn unchecked_name_is_taken_as_it_is() {
    let name = EnvironmentName::new_unchecked("not valid/at all".to_string());
    assert_eq!(name.as_str(), "not valid/at all");
}

#[test]
fn whitespace_agrees_with_the_standard_library() {
    let mut code: u32 = 0;
    while code <= 0x3100 {
        if let Some(c) = char::from_u32(code) {
            assert_eq!(is_whitespace_char(c), c.is_whitespace(), "U+{:04X}", code);
        }
        code += 1;
    }
    assert!(!is_whitespace_char('\u{FEFF}'));
    assert!(!is_whitespace_char('\u{10FFFF}'));
}

#[test]
fn forbidden_characters_are_the_separators_and_whitespace() {
    for c in ['/', '\\', ':', ',', ' ', '\t', '\u{2003}'] {
        assert!(is_invalid_char(c));
    }
    for c in ['a', 'Z', '0', '-', '_', '.', ';', '|', 'é'] {
        assert!(!is_invalid_char(c));
    }
}

#[test]
fn registry_keeps_its_root() {
    let registry = Registry::new(PathBuf::from("/home/user/.pixi/envs"));
    assert_eq!(registry.root(), &PathBuf::from("/home/user/.pixi/envs"));
    let name = EnvironmentName::from_str("tools").unwrap();
    assert_eq!(
        registry.root().join(name.as_str()),
        PathBuf::from("/home/user/.pixi/envs/tools")
    );
}
