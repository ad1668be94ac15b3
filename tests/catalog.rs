use crit_i18n::{compile, do_translate, Catalog, CompileError, I18nInput, Locale, SpecError, MISSING_TRANSLATION, TRANSLATIONS};

fn bot_catalog() -> Catalog {
    Catalog::from_source(TRANSLATIONS).unwrap()
}

fn compile_err(src: &str) -> CompileError {
    match compile(&I18nInput::parse(src).unwrap()) {
        Ok(_) => panic!("expected a compile error"),
        Err(e) => e,
    }
}

#[test]
fn authored_values_render_unchanged() {
    let c = bot_catalog();
    let t = c.lookup("Errors::UnknownError", Locale::En).unwrap();
    assert_eq!(t, "An unknown error occurred");
    assert_eq!(do_translate(t, &[]), "An unknown error occurred");
    let t = c.lookup("Errors::UnknownError", Locale::Pt).unwrap();
    assert_eq!(do_translate(t, &[]), "Ocorreu um erro desconhecido");
}

#[test]
fn missing_value_gives_sentinel() {
    let c = Catalog::from_source("locales: [Pt, En], global: { hello => { En: \"Hello\" } }").unwrap();
    assert_eq!(c.lookup("Hello", Locale::Pt).unwrap(), MISSING_TRANSLATION);
    assert_eq!(c.lookup("Hello", Locale::Pt).unwrap(), "missing translation");
    assert_eq!(c.lookup("Hello", Locale::En).unwrap(), "Hello");
}

#[test]
fn namespace_key_through_path_equals_direct_lookup() {
    let c = bot_catalog();
    let through_path = c.translate_in("misc", "hey", "Messages::Greeting", Locale::En, &[("user", "Sam")]).unwrap();
    let template = c.lookup_in("misc", "hey", "Messages::Greeting", Locale::En).unwrap();
    assert_eq!(through_path, do_translate(template, &[("user", "Sam")]));
    assert_eq!(through_path, "Hey, Sam! Welcome!");
}

#[test]
fn global_keys_from_a_command_scope() {
    let c = bot_catalog();
    let r = c.translate_in("misc", "hey", "global::Errors::UnknownError", Locale::Pt, &[]);
    assert_eq!(r.unwrap(), "Ocorreu um erro desconhecido");
    assert_eq!(c.translate("Errors::UnknownError", Locale::En, &[]).unwrap(), "An unknown error occurred");
}

#[test]
fn command_keys_and_unknown_paths() {
    let c = bot_catalog();
    assert_eq!(
        c.translate_in("config", "change_locale", "Updated", Locale::Pt, &[("locale", "Inglês")]).unwrap(),
        "Idioma atualizado para Inglês"
    );
    assert_eq!(c.translate_in("config", "change_locale", "Response", Locale::En, &[]), None);
    assert_eq!(c.translate_in("config", "nope", "Updated", Locale::En, &[]), None);
    assert_eq!(c.translate("Nope", Locale::En, &[]), None);
    assert_eq!(c.translate("Errors", Locale::En, &[]), None);
}

#[test]
fn compiled_command_metadata() {
    let c = bot_catalog();
    assert_eq!(c.commands.len(), 2);
    let m = &c.commands[0];
    assert_eq!(m.group, "config");
    assert_eq!(m.name, "change_locale");
    assert_eq!(m.names, vec!["mudar-idioma".to_string(), "change-locale".to_string()]);
    assert_eq!(m.args[0].name, "new_locale");
    assert_eq!(m.args[0].names, vec!["idioma".to_string(), "locale".to_string()]);
    let paths: Vec<&str> = m.trans.iter().map(|e| e.path.as_str()).collect();
    assert_eq!(paths, vec!["AlreadySet", "Updated", "ErrorUpdating", "Pt", "En"]);
    assert_eq!(c.global[0].path, "Errors::UnknownError");
}

#[test]
fn compile_error_unknown_locale() {
    assert_eq!(compile_err("locales: [Pt, En, Fr],"), CompileError::UnknownLocale("Fr".to_string()));
    assert_eq!(
        compile_err("locales: [Pt, En], global: { a => { Fr: \"x\" } }"),
        CompileError::UnknownLocale("Fr".to_string())
    );
}

#[test]
fn compile_error_duplicate_locale() {
    assert_eq!(compile_err("locales: [Pt, En, Pt],"), CompileError::DuplicateLocale("Pt".to_string()));
}

#[test]
fn compile_error_undeclared_locale() {
    assert_eq!(compile_err("locales: [En],"), CompileError::UndeclaredLocale(Locale::Pt));
}

#[test]
fn compile_error_duplicate_name() {
    assert_eq!(
        compile_err("locales: [Pt, En], global: { a => { En: \"x\" }, a => { Pt: \"y\" } }"),
        CompileError::DuplicateName("a".to_string())
    );
    assert_eq!(
        compile_err("locales: [Pt, En], global: { n => { k => { En: \"x\" }, k => { En: \"y\" } } }"),
        CompileError::DuplicateName("k".to_string())
    );
}

#[test]
fn compile_error_missing_command_text() {
    let src = "locales: [Pt, En], commands: { g => { c => { name: { En: \"c\" }, help: { Pt: \"a\", En: \"b\" } } } }";
    assert_eq!(compile_err(src), CompileError::MissingText("c".to_string()));
}

#[test]
fn source_errors_are_reported() {
    match Catalog::from_source("locales [En]") {
        Err(SpecError::Parse(_)) => {}
        _ => panic!("expected a parse error"),
    }
    match Catalog::from_source("locales: [En],") {
        Err(SpecError::Compile(CompileError::UndeclaredLocale(Locale::Pt))) => {}
        _ => panic!("expected a compile error"),
    }
}

#[test]
fn key_ids_give_constant_time_templates() {
    let c = bot_catalog();
    let id = c.key_id("Errors::UnknownError").unwrap();
    assert_eq!(c.template(id, Locale::Pt), "Ocorreu um erro desconhecido");
    assert_eq!(c.template(id, Locale::En), "An unknown error occurred");
    assert_eq!(c.key_id("Errors::Missing"), None);
}

#[test]
fn compile_error_missing_argument_text() {
    let src = "locales: [Pt, En], commands: { g => { c => { name: { Pt: \"c\", En: \"c\" }, help: { Pt: \"a\", En: \"b\" }, args: { x => { name: { Pt: \"x\", En: \"x\" }, description: { En: \"d\" } } } } } }";
    assert_eq!(compile_err(src), CompileError::MissingText("x".to_string()));
}

#[test]
fn compile_error_duplicate_command() {
    let src = "locales: [Pt, En], commands: { a => { c => { name: { Pt: \"c\", En: \"c\" }, help: { Pt: \"h\", En: \"h\" } } }, b => { c => { name: { Pt: \"c\", En: \"c\" }, help: { Pt: \"h\", En: \"h\" } } } }";
    assert_eq!(compile_err(src), CompileError::DuplicateName("c".to_string()));
}
