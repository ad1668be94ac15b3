use crit_i18n::{Locale, DEFAULT_LOCALE};

#[test]
fn locale_from_code() {
    assert_eq!(Locale::from_code("en-US"), Locale::En);
    assert_eq!(Locale::from_code("EN-US"), Locale::En);
    assert_eq!(Locale::from_code("pt-PT"), Locale::Pt);
    assert_eq!(Locale::from_code("PT-BR"), Locale::Pt);
    assert_eq!(Locale::from_code("pT"), Locale::Pt);
    assert_eq!(Locale::from_code("unknown"), Locale::En);
    assert_eq!(Locale::from_code("fr-FR"), Locale::En);
}

#[test]
fn short_codes_give_default_locale() {
    assert_eq!(Locale::from_code(""), DEFAULT_LOCALE);
    assert_eq!(Locale::from_code("x"), DEFAULT_LOCALE);
    assert_eq!(Locale::from_code("p"), Locale::En);
}

#[test]
fn normalization_ignores_case() {
    for code in ["pt-PT", "en-gb", "Pt", "xx", "p", "", "eN-us"] {
        let lower = Locale::from_code(&code.to_lowercase());
        let upper = Locale::from_code(&code.to_uppercase());
        assert_eq!(Locale::from_code(code), lower);
        assert_eq!(Locale::from_code(code), upper);
    }
}

#[test]
fn non_ascii_prefix_is_default() {
    assert_eq!(Locale::from_code("éé"), Locale::En);
    assert_eq!(Locale::from_code("pé"), Locale::En);
}

#[test]
fn locale_names_and_codes() {
    assert_eq!(Locale::Pt.code(), "Pt");
    assert_eq!(Locale::En.code(), "En");
    assert_eq!(Locale::Pt.discord_code(), "pt-BR");
    assert_eq!(Locale::En.discord_code(), "en-US");
    assert_eq!(Locale::all(), vec![Locale::Pt, Locale::En]);
    assert_eq!(Locale::Pt.index(), 0);
    assert_eq!(Locale::at(1), Locale::En);
    assert_eq!(Locale::from_name("Pt"), Some(Locale::Pt));
    assert_eq!(Locale::from_name("pt"), None);
}
