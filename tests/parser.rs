use crit_i18n::ast::Translation;
use crit_i18n::lexer::{tokenize, TokenKind};
use crit_i18n::{I18nInput, ParseError, ParseErrorKind, TRANSLATIONS};

fn parse_err(src: &str) -> ParseError {
    match I18nInput::parse(src) {
        Ok(_) => panic!("expected a parse error"),
        Err(e) => e,
    }
}

#[test]
fn parses_the_bot_translations() {
    let input = I18nInput::parse(TRANSLATIONS).unwrap();
    assert_eq!(input.locales, vec!["Pt".to_string(), "En".to_string()]);
    assert_eq!(input.commands.len(), 2);
    assert_eq!(input.commands[0].name, "config");
    let change = &input.commands[0].commands[0];
    assert_eq!(change.name, "change_locale");
    assert_eq!(change.command_names.len(), 2);
    assert_eq!(change.command_names[0].locale, "Pt");
    assert_eq!(change.command_names[0].value, "mudar-idioma");
    assert_eq!(change.args.len(), 1);
    assert_eq!(change.args[0].name, "new_locale");
    assert_eq!(change.args[0].descriptions[1].value, "The locale to set");
    assert_eq!(change.trans.len(), 5);
    let hey = &input.commands[1].commands[0];
    match &hey.trans[1] {
        Translation::Nested { namespace, entries } => {
            assert_eq!(namespace, "messages");
            assert_eq!(entries[0].key, "greeting");
            assert_eq!(entries[0].values[0].value, "Olá, {user}! Bem-vindo!");
        }
        Translation::Simple { .. } => panic!("expected a namespace"),
    }
    assert_eq!(input.global.len(), 1);
}

#[test]
fn lexer_reads_strings_comments_and_arrows() {
    let ts = tokenize("a => \"x\\\"y\\n\" // note\n : ,{}[]").unwrap();
    let kinds: Vec<TokenKind> = ts.iter().map(|t| t.kind).collect();
    assert_eq!(
        kinds,
        vec![
            TokenKind::Ident,
            TokenKind::FatArrow,
            TokenKind::Str,
            TokenKind::Colon,
            TokenKind::Comma,
            TokenKind::LBrace,
            TokenKind::RBrace,
            TokenKind::LBracket,
            TokenKind::RBracket,
            TokenKind::End,
        ]
    );
    assert_eq!(ts[2].text, "x\"y\n");
    assert_eq!(ts[2].start, 5);
}

#[test]
fn trailing_commas_and_empty_sections() {
    let input = I18nInput::parse("locales: [En,], global: { a => { En: \"A\", }, },").unwrap();
    assert_eq!(input.locales, vec!["En".to_string()]);
    assert_eq!(input.global.len(), 1);
    let input = I18nInput::parse("locales: [], ").unwrap();
    assert!(input.locales.is_empty());
    assert!(input.commands.is_empty());
}

#[test]
fn empty_translation_body_is_a_simple_key() {
    let input = I18nInput::parse("locales: [En], global: { a => { } }").unwrap();
    match &input.global[0] {
        Translation::Simple { key, values } => {
            assert_eq!(key, "a");
            assert!(values.is_empty());
        }
        Translation::Nested { .. } => panic!("expected a simple key"),
    }
}

#[test]
fn error_missing_locales_keyword() {
    let e = parse_err("langs: [En],");
    assert_eq!(e, ParseError { at: 0, kind: ParseErrorKind::ExpectedLocales });
}

#[test]
fn error_missing_comma_after_locales() {
    let e = parse_err("locales: [En] global: {}");
    assert_eq!(e, ParseError { at: 14, kind: ParseErrorKind::Expected(TokenKind::Comma) });
}

#[test]
fn error_unknown_section() {
    let e = parse_err("locales: [En], other: {}");
    assert_eq!(e, ParseError { at: 15, kind: ParseErrorKind::UnknownSection });
}

#[test]
fn error_duplicate_section() {
    let e = parse_err("locales: [En], global: {}, global: {}");
    assert_eq!(e, ParseError { at: 27, kind: ParseErrorKind::DuplicateSection });
}

#[test]
fn error_unknown_field() {
    let e = parse_err("locales: [En], commands: { g => { c => { title: {} } } }");
    assert_eq!(e, ParseError { at: 41, kind: ParseErrorKind::UnknownField });
}

#[test]
fn error_duplicate_field() {
    let e = parse_err("locales: [En], commands: { g => { c => { name: {}, name: {} } } }");
    assert_eq!(e, ParseError { at: 51, kind: ParseErrorKind::DuplicateField });
}

#[test]
fn error_unterminated_string() {
    let e = parse_err("locales: [En], global: { a => { En: \"abc } }");
    assert_eq!(e, ParseError { at: 36, kind: ParseErrorKind::UnterminatedString });
}

#[test]
fn error_invalid_escape() {
    let e = parse_err("locales: [En], global: { a => { En: \"a\\qb\" } }");
    assert_eq!(e, ParseError { at: 38, kind: ParseErrorKind::InvalidEscape });
}

#[test]
fn error_unexpected_character() {
    let e = parse_err("locales: [En], global: { a => { En: 5 } }");
    assert_eq!(e, ParseError { at: 36, kind: ParseErrorKind::UnexpectedChar });
}

#[test]
fn error_expected_string_value() {
    let e = parse_err("locales: [En], global: { a => { En: b } }");
    assert_eq!(e, ParseError { at: 36, kind: ParseErrorKind::Expected(TokenKind::Str) });
}

#[test]
fn error_missing_close_at_end() {
    let src = "locales: [En], global: { a => { En: \"x\" }";
    let e = parse_err(src);
    assert_eq!(e, ParseError { at: src.chars().count(), kind: ParseErrorKind::Expected(TokenKind::Comma) });
}
