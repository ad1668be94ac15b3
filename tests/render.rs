use crit_i18n::do_translate;

#[test]
fn render_substitutes_named_placeholder() {
    assert_eq!(do_translate("Hello, {name}!", &[("name", "Ada")]), "Hello, Ada!");
}

#[test]
fn render_keeps_unmatched_placeholder() {
    assert_eq!(
        do_translate("Hello, {name}! You are {age}.", &[("name", "Bob")]),
        "Hello, Bob! You are {age}."
    );
}

#[test]
fn render_without_args_is_identity() {
    assert_eq!(do_translate("No placeholders here", &[]), "No placeholders here");
    assert_eq!(do_translate("Keep {this} as is", &[]), "Keep {this} as is");
}

#[test]
fn render_several_placeholders() {
    let template = "Hello, {name}! You are {age} years old.";
    let args = &[("name", "Alice"), ("age", "30")];
    assert_eq!(do_translate(template, args), "Hello, Alice! You are 30 years old.");
}

#[test]
fn render_first_matching_argument_wins() {
    assert_eq!(do_translate("{x}-{x}", &[("x", "1"), ("x", "2")]), "1-1");
}

#[test]
fn render_unclosed_brace_is_literal() {
    assert_eq!(do_translate("a {b c", &[("b", "X")]), "a {b c");
    assert_eq!(do_translate("ends with {", &[("b", "X")]), "ends with {");
    assert_eq!(do_translate("{{b}", &[("b", "X")]), "{{b}");
}

#[test]
fn render_empty_placeholder_name() {
    assert_eq!(do_translate("[{}]", &[("", "e")]), "[e]");
    assert_eq!(do_translate("[{}]", &[("a", "e")]), "[{}]");
}

#[test]
fn render_non_ascii_values_and_template() {
    assert_eq!(do_translate("Olá, {nome}!", &[("nome", "João")]), "Olá, João!");
}

#[test]
fn render_empty_template() {
    assert_eq!(do_translate("", &[("a", "b")]), "");
}
