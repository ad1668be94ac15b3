use crit_i18n::resolve::{change_locale_reply, decide_locale_change, resolve_locale};
use crit_i18n::{get_locale, Catalog, Guild, GuildCache, Locale, LocaleChange, TRANSLATIONS};

#[test]
fn guild_override_takes_effect() {
    let cache = GuildCache::with_capacity(4);
    assert_eq!(get_locale(&cache, None, Some(42), "pt-PT"), Locale::Pt);
    cache.update_guild_locale(42, Locale::En);
    assert_eq!(get_locale(&cache, None, Some(42), "pt-PT"), Locale::En);
    assert_eq!(cache.get(42), Some(Guild { locale: Some(Locale::En) }));
}

#[test]
fn hint_decides_before_the_guild() {
    let cache = GuildCache::with_capacity(0);
    cache.update_guild_locale(789, Locale::Pt);
    assert_eq!(get_locale(&cache, Some("en-US"), Some(789), "pt-BR"), Locale::En);
    assert_eq!(get_locale(&cache, None, Some(789), "en-US"), Locale::Pt);
}

#[test]
fn no_guild_and_no_hint_gives_default() {
    let cache = GuildCache::with_capacity(0);
    assert_eq!(get_locale(&cache, None, None, "pt-BR"), Locale::En);
}

#[test]
fn guild_without_choice_uses_platform_default() {
    let cache = GuildCache::with_capacity(0);
    cache.insert(7, Guild { locale: None });
    assert_eq!(get_locale(&cache, None, Some(7), "PT-br"), Locale::Pt);
    assert_eq!(get_locale(&cache, None, Some(999999), "xx"), Locale::En);
}

#[test]
fn resolution_from_plain_values() {
    assert_eq!(resolve_locale(Some("pt"), true, Some(Guild { locale: Some(Locale::En) }), "en"), Locale::Pt);
    assert_eq!(resolve_locale(None, true, Some(Guild { locale: Some(Locale::Pt) }), "en"), Locale::Pt);
    assert_eq!(resolve_locale(None, true, None, "pt-PT"), Locale::Pt);
    assert_eq!(resolve_locale(None, false, Some(Guild { locale: Some(Locale::Pt) }), "pt"), Locale::En);
}

#[test]
fn locale_change_decisions() {
    let chosen_en = Some(Guild { locale: Some(Locale::En) });
    assert_eq!(decide_locale_change(chosen_en, "pt-BR", Locale::En), LocaleChange::AlreadySet);
    assert_eq!(decide_locale_change(chosen_en, "en-US", Locale::Pt), LocaleChange::Update);
    let unset = Some(Guild { locale: None });
    assert_eq!(decide_locale_change(unset, "pt-BR", Locale::Pt), LocaleChange::AlreadySet);
    assert_eq!(decide_locale_change(unset, "pt-BR", Locale::En), LocaleChange::Update);
    assert_eq!(decide_locale_change(None, "en-US", Locale::En), LocaleChange::Update);
}

#[test]
fn locale_change_replies() {
    let c = Catalog::from_source(TRANSLATIONS).unwrap();
    assert_eq!(
        change_locale_reply(&c, LocaleChange::Update, Locale::Pt, Locale::En).unwrap(),
        "Locale updated to Portuguese"
    );
    assert_eq!(
        change_locale_reply(&c, LocaleChange::Update, Locale::En, Locale::Pt).unwrap(),
        "Idioma atualizado para Inglês"
    );
    assert_eq!(
        change_locale_reply(&c, LocaleChange::AlreadySet, Locale::En, Locale::En).unwrap(),
        "Your locale is already set to this value."
    );
}
