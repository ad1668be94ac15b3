use crit_i18n::{apply_translations, Catalog, CommandRecord, ParamRecord, TRANSLATIONS};

fn record(name: &str, params: &[&str]) -> CommandRecord {
    CommandRecord {
        name: name.to_string(),
        description: None,
        name_localizations: Vec::new(),
        description_localizations: Vec::new(),
        aliases: Vec::new(),
        parameters: params
            .iter()
            .map(|p| ParamRecord {
                name: p.to_string(),
                description: None,
                name_localizations: Vec::new(),
                description_localizations: Vec::new(),
            })
            .collect(),
    }
}

fn pairs(v: &[(&str, &str)]) -> Vec<(String, String)> {
    v.iter().map(|(a, b)| (a.to_string(), b.to_string())).collect()
}

#[test]
fn localizes_registered_commands() {
    let c = Catalog::from_source(TRANSLATIONS).unwrap();
    let mut cmds = vec![record("ping", &[]), record("change_locale", &["new_locale"]), record("hey", &[])];
    apply_translations(&mut cmds, &c);
    assert_eq!(cmds[0], record("ping", &[]));
    let cl = &cmds[1];
    assert_eq!(cl.name, "change-locale");
    assert_eq!(cl.description.as_deref(), Some("Changes the bot's language for this server"));
    assert_eq!(cl.name_localizations, pairs(&[("pt-BR", "mudar-idioma"), ("en-US", "change-locale")]));
    assert_eq!(cl.aliases, vec!["mudar-idioma".to_string()]);
    let p = &cl.parameters[0];
    assert_eq!(p.name, "locale");
    assert_eq!(p.description.as_deref(), Some("The locale to set"));
    assert_eq!(p.description_localizations, pairs(&[("pt-BR", "O idioma a definir"), ("en-US", "The locale to set")]));
    assert_eq!(cmds[2].aliases, vec!["olá".to_string()]);
}

#[test]
fn applying_twice_adds_no_duplicate_alias() {
    let c = Catalog::from_source(TRANSLATIONS).unwrap();
    let mut cmds = vec![record("hey", &[]), record("change_locale", &["new_locale"])];
    apply_translations(&mut cmds, &c);
    let once_aliases: Vec<Vec<String>> = cmds.iter().map(|r| r.aliases.clone()).collect();
    apply_translations(&mut cmds, &c);
    let twice_aliases: Vec<Vec<String>> = cmds.iter().map(|r| r.aliases.clone()).collect();
    assert_eq!(once_aliases, twice_aliases);
    assert_eq!(cmds[0].aliases, vec!["olá".to_string()]);
    assert_eq!(cmds[0].name_localizations.len(), 2);
}

#[test]
fn existing_localizations_are_replaced_not_repeated() {
    let c = Catalog::from_source(TRANSLATIONS).unwrap();
    let mut r = record("hey", &[]);
    r.name_localizations = pairs(&[("en-US", "old"), ("fr", "salut")]);
    r.aliases = vec!["olá".to_string()];
    let mut cmds = vec![r];
    apply_translations(&mut cmds, &c);
    assert_eq!(cmds[0].name_localizations, pairs(&[("en-US", "hey"), ("fr", "salut"), ("pt-BR", "olá")]));
    assert_eq!(cmds[0].aliases, vec!["olá".to_string()]);
}
