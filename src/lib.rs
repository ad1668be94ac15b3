//! Localization for a chat bot: a catalog of locale-indexed message templates
//! compiled from a small declarative language, a template renderer, and the
//! runtime rules that pick a locale for an interaction.
pub mod ast;
pub mod catalog;
pub mod commands;
pub mod config;
pub mod lexer;
pub mod locale;
pub mod naming;
pub mod parser;
pub mod render;
pub mod resolve;
pub mod text;
pub mod translations;

pub use ast::I18nInput;
pub use catalog::{compile, Catalog, CompileError, SpecError, MISSING_TRANSLATION};
pub use commands::{apply_translations, CommandRecord, ParamRecord};
pub use config::{Config, DiscordConfig};
pub use lexer::{ParseError, ParseErrorKind};
pub use locale::{Locale, DEFAULT_LOCALE};
pub use naming::{command_scope, to_pascal_case, to_snake_case};
pub use render::do_translate;
pub use resolve::{get_locale, Guild, GuildCache, LocaleChange};
pub use translations::TRANSLATIONS;
