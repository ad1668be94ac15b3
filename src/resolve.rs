//! Choosing the locale of an interaction, the per-guild locale overrides,
//! and the decision taken when a guild asks for another locale.
use vstd::prelude::*;
use crate::catalog::{rendered, spec_lookup_in, string_opt, Catalog};
use crate::locale::{spec_from_code, Locale, DEFAULT_LOCALE};
use crate::render::args_view;

verus! {

/// What is known of a guild: the locale it chose, if any.
#[derive(Clone, Copy, Debug, PartialEq, Eq, Structural)]
pub struct Guild {
    pub locale: Option<Locale>,
}

/// The locale of an interaction: its own locale hint, normalized, if it has
/// one; else, inside a guild, the guild's chosen locale, or else its
/// platform default normalized; outside a guild, the default locale.
pub open spec fn spec_resolve(hint: Option<Seq<char>>, in_guild: bool, chosen: Option<Locale>, platform_default: Seq<char>) -> Locale {
    match hint {
        Some(h) => spec_from_code(h),
        None => if !in_guild {
            DEFAULT_LOCALE
        } else {
            match chosen {
                Some(l) => l,
                None => spec_from_code(platform_default),
            }
        },
    }
}

pub open spec fn str_opt(s: Option<&str>) -> Option<Seq<char>> {
    match s {
        Some(s) => Some(s@),
        None => None,
    }
}

/// The locale chosen in a guild's record, if there is a record and it has one.
pub open spec fn chosen_locale(entry: Option<Guild>) -> Option<Locale> {
    match entry {
        Some(g) => g.locale,
        None => None,
    }
}

/// Resolves the locale of an interaction from its hint, whether it happens
/// in a guild, that guild's record and its platform default locale code.
pub fn resolve_locale(hint: Option<&str>, in_guild: bool, entry: Option<Guild>, platform_default: &str) -> (r: Locale)
    ensures
        r == spec_resolve(str_opt(hint), in_guild, chosen_locale(entry), platform_default@),
{
    match hint {
        Some(code) => Locale::from_code(code),
        None => {
            if !in_guild {
                DEFAULT_LOCALE
            } else {
                match entry {
                    Some(Guild { locale: Some(l) }) => l,
                    _ => Locale::from_code(platform_default),
                }
            }
        },
    }
}

#[verifier::external_type_specification]
#[verifier::external_body]
pub struct ExRandomState(ahash::RandomState);

#[verifier::external_type_specification]
#[verifier::external_body]
#[verifier::reject_recursive_types(K)]
#[verifier::reject_recursive_types(V)]
#[verifier::reject_recursive_types(S)]
pub struct ExConcurrentMap<K, V, S>(papaya::HashMap<K, V, S>);

/// Relies on `ahash::RandomState::new`: a hasher with fresh random keys.
#[verifier::external_body]
fn new_hasher() -> ahash::RandomState {
    ahash::RandomState::new()
}

/// Relies on `papaya::HashMap::with_capacity_and_hasher`: an empty map.
#[verifier::external_body]
fn new_map(capacity: usize, hasher: ahash::RandomState) -> papaya::HashMap<u64, Guild, ahash::RandomState> {
    papaya::HashMap::with_capacity_and_hasher(capacity, hasher)
}

/// Relies on `papaya::HashMap::pin` and `HashMapRef::get`: the record
/// stored under `key` at the time of the call, copied out. Other threads
/// may change the map at any time, so nothing is promised of the result.
#[verifier::external_body]
fn map_get(map: &papaya::HashMap<u64, Guild, ahash::RandomState>, key: u64) -> Option<Guild> {
    map.pin().get(&key).copied()
}

/// Relies on `papaya::HashMap::pin` and `HashMapRef::insert`: stores the
/// record under `key`, replacing any earlier one, atomically for that key.
#[verifier::external_body]
fn map_insert(map: &papaya::HashMap<u64, Guild, ahash::RandomState>, key: u64, value: Guild) {
    map.pin().insert(key, value);
}

/// The per-guild locale overrides, shared by all interaction handlers:
/// reads never block, and each update replaces one guild's record at once.
pub struct GuildCache {
    map: papaya::HashMap<u64, Guild, ahash::RandomState>,
}

impl GuildCache {
    /// An empty cache sized for about `capacity` guilds.
    pub fn with_capacity(capacity: usize) -> GuildCache {
        GuildCache { map: new_map(capacity, new_hasher()) }
    }

    /// The record of a guild, as it stands now.
    pub fn get(&self, guild_id: u64) -> Option<Guild> {
        map_get(&self.map, guild_id)
    }

    /// Stores the record of a guild.
    pub fn insert(&self, guild_id: u64, guild: Guild) {
        map_insert(&self.map, guild_id, guild)
    }

    /// Records the locale that a guild chose.
    pub fn update_guild_locale(&self, guild_id: u64, locale: Locale) {
        self.insert(guild_id, Guild { locale: Some(locale) })
    }
}

/// The locale of an interaction, consulting the cache for the guild's
/// choice. Whatever the cache holds, the result is the resolution for some
/// recorded choice, and the hint, when there is one, decides alone.
pub fn get_locale(cache: &GuildCache, hint: Option<&str>, guild_id: Option<u64>, platform_default: &str) -> (r: Locale)
    ensures
        exists|chosen: Option<Locale>| r == #[trigger] spec_resolve(str_opt(hint), guild_id is Some, chosen, platform_default@),
        hint matches Some(h) ==> r == spec_from_code(h@),
        hint is None && guild_id is None ==> r == DEFAULT_LOCALE,
{
    let entry = match (hint, guild_id) {
        (None, Some(id)) => cache.get(id),
        _ => None,
    };
    let r = resolve_locale(hint, guild_id.is_some(), entry, platform_default);
    assert(r == spec_resolve(str_opt(hint), guild_id is Some, chosen_locale(entry), platform_default@));
    r
}

/// What to do when a guild asks for a locale.
#[derive(Clone, Copy, Debug, PartialEq, Eq, Structural)]
pub enum LocaleChange {
    AlreadySet,
    Update,
}

/// A request changes nothing when the guild's chosen locale, or, with no
/// choice recorded, its platform default, is already the one requested.
/// A guild with no record is always updated.
pub open spec fn spec_locale_change(entry: Option<Guild>, platform_default: Seq<char>, requested: Locale) -> LocaleChange {
    match entry {
        Some(g) => match g.locale {
            Some(l) => if l == requested {
                LocaleChange::AlreadySet
            } else {
                LocaleChange::Update
            },
            None => if spec_from_code(platform_default) == requested {
                LocaleChange::AlreadySet
            } else {
                LocaleChange::Update
            },
        },
        None => LocaleChange::Update,
    }
}

/// Decides what a request for `requested` does, given the guild's record.
pub fn decide_locale_change(entry: Option<Guild>, platform_default: &str, requested: Locale) -> (r: LocaleChange)
    ensures
        r == spec_locale_change(entry, platform_default@, requested),
{
    match entry {
        Some(g) => match g.locale {
            Some(l) => if l == requested {
                LocaleChange::AlreadySet
            } else {
                LocaleChange::Update
            },
            None => if Locale::from_code(platform_default) == requested {
                LocaleChange::AlreadySet
            } else {
                LocaleChange::Update
            },
        },
        None => LocaleChange::Update,
    }
}

/// The group and command whose keys word the replies to a locale change.
pub const CHANGE_LOCALE_GROUP: &'static str = "config";

pub const CHANGE_LOCALE_COMMAND: &'static str = "change_locale";

/// The reply to a locale change, in the interaction's locale `ui`: the
/// `AlreadySet` text, or the `Updated` text with `{locale}` bound to the name
/// of the new locale (the key named like the locale, as in `Pt`).
pub open spec fn spec_change_reply(c: crate::catalog::SpecCatalog, change: LocaleChange, requested: Locale, ui: Locale) -> Option<Seq<char>> {
    let g = CHANGE_LOCALE_GROUP@;
    let cmd = CHANGE_LOCALE_COMMAND@;
    match change {
        LocaleChange::AlreadySet => rendered(spec_lookup_in(c, g, cmd, seq!['A', 'l', 'r', 'e', 'a', 'd', 'y', 'S', 'e', 't'], ui), Seq::empty()),
        LocaleChange::Update => match rendered(spec_lookup_in(c, g, cmd, requested.spec_name(), ui), Seq::empty()) {
            Some(name) => rendered(
                spec_lookup_in(c, g, cmd, seq!['U', 'p', 'd', 'a', 't', 'e', 'd'], ui),
                seq![(seq!['l', 'o', 'c', 'a', 'l', 'e'], name)],
            ),
            None => None,
        },
    }
}

/// Words the reply to a locale change; `None` when the catalog lacks a key.
pub fn change_locale_reply(catalog: &Catalog, change: LocaleChange, requested: Locale, ui: Locale) -> (r: Option<String>)
    requires
        catalog.wf(),
    ensures
        string_opt(r) == spec_change_reply(catalog.deep_view(), change, requested, ui),
{
    proof {
        reveal_strlit("AlreadySet");
        reveal_strlit("Updated");
        reveal_strlit("locale");
    }
    assert("AlreadySet"@ =~= seq!['A', 'l', 'r', 'e', 'a', 'd', 'y', 'S', 'e', 't']);
    assert("Updated"@ =~= seq!['U', 'p', 'd', 'a', 't', 'e', 'd']);
    assert("locale"@ =~= seq!['l', 'o', 'c', 'a', 'l', 'e']);
    let none: [(&str, &str); 0] = [];
    assert(args_view(none@) =~= Seq::empty());
    match change {
        LocaleChange::AlreadySet => catalog.translate_in(
            CHANGE_LOCALE_GROUP,
            CHANGE_LOCALE_COMMAND,
            "AlreadySet",
            ui,
            &none,
        ),
        LocaleChange::Update => {
            let name = catalog.translate_in(CHANGE_LOCALE_GROUP, CHANGE_LOCALE_COMMAND, requested.code(), ui, &none);
            match name {
                Some(n) => {
                    let args = [("locale", n.as_str())];
                    assert(args_view(args@) =~= seq![(seq!['l', 'o', 'c', 'a', 'l', 'e'], n@)]);
                    catalog.translate_in(CHANGE_LOCALE_GROUP, CHANGE_LOCALE_COMMAND, "Updated", ui, &args)
                },
                None => None,
            }
        },
    }
}

} // verus!
