use crit_i18n::{command_scope, to_pascal_case, to_snake_case};

#[test]
fn pascal_case_of_keys() {
    assert_eq!(to_pascal_case("already_set"), "AlreadySet");
    assert_eq!(to_pascal_case("unknown_error"), "UnknownError");
    assert_eq!(to_pascal_case("pt"), "Pt");
    assert_eq!(to_pascal_case("a__b_"), "AB");
    assert_eq!(to_pascal_case(""), "");
    assert_eq!(to_pascal_case("straße"), "Straße");
}

#[test]
fn pascal_case_uses_full_uppercase_mapping() {
    assert_eq!(to_pascal_case("ßa"), "SSa");
}

#[test]
fn snake_case_of_function_names() {
    assert_eq!(to_snake_case("changeLocale"), "change_locale");
    assert_eq!(to_snake_case("ChangeLocale"), "change_locale");
    assert_eq!(to_snake_case("change_locale"), "change_locale");
    assert_eq!(to_snake_case("hey"), "hey");
    assert_eq!(to_snake_case("ÉtéX"), "été_x");
}

#[test]
fn scope_of_a_command() {
    assert_eq!(
        command_scope("Config", "changeLocale"),
        ("config".to_string(), "change_locale".to_string())
    );
    assert_eq!(command_scope("MISC", "hey"), ("misc".to_string(), "hey".to_string()));
}
