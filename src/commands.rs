//! Pushing the compiled command metadata into the registered commands:
//! default name and description, a name and a description per platform
//! locale code, and the localized names as extra aliases.
use vstd::prelude::*;
use crate::ast::push_deep;
use crate::catalog::{distinct, meta_wf, ArgMeta, Catalog, CommandMeta, SpecArgMeta, SpecCommandMeta};
use crate::locale::{Locale, DEFAULT_LOCALE, NUM_LOCALES};
use crate::text::string_is;

verus! {

/// Localized texts keyed by platform locale code, each code at most once.
pub type Localizations = Seq<(Seq<char>, Seq<char>)>;

/// A parameter of a registered command.
#[derive(Debug, PartialEq, Eq)]
pub struct ParamRecord {
    pub name: String,
    pub description: Option<String>,
    pub name_localizations: Vec<(String, String)>,
    pub description_localizations: Vec<(String, String)>,
}

/// A registered command.
#[derive(Debug, PartialEq, Eq)]
pub struct CommandRecord {
    pub name: String,
    pub description: Option<String>,
    pub name_localizations: Vec<(String, String)>,
    pub description_localizations: Vec<(String, String)>,
    pub aliases: Vec<String>,
    pub parameters: Vec<ParamRecord>,
}

pub struct SpecParam {
    pub name: Seq<char>,
    pub description: Option<Seq<char>>,
    pub name_localizations: Localizations,
    pub description_localizations: Localizations,
}

pub struct SpecRecord {
    pub name: Seq<char>,
    pub description: Option<Seq<char>>,
    pub name_localizations: Localizations,
    pub description_localizations: Localizations,
    pub aliases: Seq<Seq<char>>,
    pub parameters: Seq<SpecParam>,
}

impl DeepView for ParamRecord {
    type V = SpecParam;

    open spec fn deep_view(&self) -> SpecParam {
        SpecParam {
            name: self.name@,
            description: self.description.deep_view(),
            name_localizations: self.name_localizations.deep_view(),
            description_localizations: self.description_localizations.deep_view(),
        }
    }
}

impl DeepView for CommandRecord {
    type V = SpecRecord;

    open spec fn deep_view(&self) -> SpecRecord {
        SpecRecord {
            name: self.name@,
            description: self.description.deep_view(),
            name_localizations: self.name_localizations.deep_view(),
            description_localizations: self.description_localizations.deep_view(),
            aliases: self.aliases.deep_view(),
            parameters: self.parameters.deep_view(),
        }
    }
}

/// The position of the first entry for `code`, from `i` on.
pub open spec fn find_code(m: Localizations, code: Seq<char>, i: int) -> Option<int>
    decreases m.len() - i,
{
    if i < 0 || i >= m.len() {
        None
    } else if m[i].0 == code {
        Some(i)
    } else {
        find_code(m, code, i + 1)
    }
}

/// Sets the text for `code`, replacing the one there or adding one.
pub open spec fn set_localization(m: Localizations, code: Seq<char>, text: Seq<char>) -> Localizations {
    match find_code(m, code, 0) {
        Some(i) => m.update(i, (code, text)),
        None => m.push((code, text)),
    }
}

/// Sets the texts of the first `n` locales, in locale order.
pub open spec fn localize(m: Localizations, texts: Seq<Seq<char>>, n: int) -> Localizations
    decreases n,
{
    if n <= 0 {
        m
    } else {
        set_localization(localize(m, texts, n - 1), Locale::spec_at(n - 1).spec_platform_code(), texts[n - 1])
    }
}

/// Adds the names of the first `n` locales other than the default as
/// aliases, each only if it is not an alias already.
pub open spec fn add_aliases(aliases: Seq<Seq<char>>, names: Seq<Seq<char>>, n: int) -> Seq<Seq<char>>
    decreases n,
{
    if n <= 0 {
        aliases
    } else {
        let a = add_aliases(aliases, names, n - 1);
        if Locale::spec_at(n - 1) != DEFAULT_LOCALE && !a.contains(names[n - 1]) {
            a.push(names[n - 1])
        } else {
            a
        }
    }
}

pub open spec fn default_index() -> int {
    DEFAULT_LOCALE.spec_index() as int
}

pub open spec fn apply_param(p: SpecParam, a: SpecArgMeta) -> SpecParam {
    SpecParam {
        name: a.names[default_index()],
        description: Some(a.descriptions[default_index()]),
        name_localizations: localize(p.name_localizations, a.names, NUM_LOCALES as int),
        description_localizations: localize(p.description_localizations, a.descriptions, NUM_LOCALES as int),
    }
}

pub open spec fn find_param(ps: Seq<SpecParam>, name: Seq<char>, i: int) -> Option<int>
    decreases ps.len() - i,
{
    if i < 0 || i >= ps.len() {
        None
    } else if ps[i].name == name {
        Some(i)
    } else {
        find_param(ps, name, i + 1)
    }
}

/// Applies the first `n` argument metadata, each to the first parameter of its name.
pub open spec fn apply_args(ps: Seq<SpecParam>, args: Seq<SpecArgMeta>, n: int) -> Seq<SpecParam>
    decreases n,
{
    if n <= 0 {
        ps
    } else {
        let q = apply_args(ps, args, n - 1);
        match find_param(q, args[n - 1].name, 0) {
            Some(i) => q.update(i, apply_param(q[i], args[n - 1])),
            None => q,
        }
    }
}

/// A command after its metadata was applied.
pub open spec fn apply_meta(c: SpecRecord, m: SpecCommandMeta) -> SpecRecord {
    SpecRecord {
        name: m.names[default_index()],
        description: Some(m.helps[default_index()]),
        name_localizations: localize(c.name_localizations, m.names, NUM_LOCALES as int),
        description_localizations: localize(c.description_localizations, m.helps, NUM_LOCALES as int),
        aliases: add_aliases(c.aliases, m.names, NUM_LOCALES as int),
        parameters: apply_args(c.parameters, m.args, m.args.len() as int),
    }
}

pub open spec fn find_record(rs: Seq<SpecRecord>, name: Seq<char>, i: int) -> Option<int>
    decreases rs.len() - i,
{
    if i < 0 || i >= rs.len() {
        None
    } else if rs[i].name == name {
        Some(i)
    } else {
        find_record(rs, name, i + 1)
    }
}

/// Applies the first `n` command metadata, each to the first registered
/// command named by its identifier; metadata of no registered command is skipped.
pub open spec fn apply_all(rs: Seq<SpecRecord>, ms: Seq<SpecCommandMeta>, n: int) -> Seq<SpecRecord>
    decreases n,
{
    if n <= 0 {
        rs
    } else {
        let q = apply_all(rs, ms, n - 1);
        match find_record(q, ms[n - 1].name, 0) {
            Some(i) => q.update(i, apply_meta(q[i], ms[n - 1])),
            None => q,
        }
    }
}

pub open spec fn spec_apply_translations(rs: Seq<SpecRecord>, ms: Seq<SpecCommandMeta>) -> Seq<SpecRecord> {
    apply_all(rs, ms, ms.len() as int)
}

fn set_localization_exec(m: &mut Vec<(String, String)>, code: &str, text: String)
    ensures
        final(m).deep_view() == set_localization(old(m).deep_view(), code@, text@),
{
    let ghost d = m.deep_view();
    let mut i: usize = 0;
    while i < m.len()
        invariant
            i <= m.len(),
            d == m.deep_view(),
            d == old(m).deep_view(),
            find_code(d, code@, 0) == find_code(d, code@, i as int),
        decreases m.len() - i,
    {
        if string_is(&m[i].0, code) {
            assert(d[i as int].0 == code@);
            let ghost tv = text@;
            m[i] = (code.to_owned(), text);
            assert(m.deep_view() =~= d.update(i as int, (code@, tv)));
            return;
        }
        i += 1;
    }
    let ghost tv = text@;
    push_deep(m, (code.to_owned(), text));
    assert(m.deep_view() =~= d.push((code@, tv)));
}

fn localize_exec(m: &mut Vec<(String, String)>, texts: &Vec<String>)
    requires
        texts.len() == NUM_LOCALES,
    ensures
        final(m).deep_view() == localize(old(m).deep_view(), texts.deep_view(), NUM_LOCALES as int),
{
    let mut i: usize = 0;
    while i < NUM_LOCALES
        invariant
            i <= NUM_LOCALES,
            texts.len() == NUM_LOCALES,
            m.deep_view() == localize(old(m).deep_view(), texts.deep_view(), i as int),
        decreases NUM_LOCALES - i,
    {
        let l = Locale::at(i);
        set_localization_exec(m, l.discord_code(), texts[i].clone());
        i += 1;
    }
}

fn contains_exec(v: &Vec<String>, s: &String) -> (r: bool)
    ensures
        r == v.deep_view().contains(s@),
{
    let ghost d = v.deep_view();
    let mut i: usize = 0;
    while i < v.len()
        invariant
            i <= v.len(),
            d == v.deep_view(),
            forall|j: int| 0 <= j < i ==> d[j] != s@,
        decreases v.len() - i,
    {
        if v[i] == *s {
            assert(d[i as int] == s@);
            return true;
        }
        i += 1;
    }
    false
}

fn add_aliases_exec(aliases: &mut Vec<String>, names: &Vec<String>)
    requires
        names.len() == NUM_LOCALES,
    ensures
        final(aliases).deep_view() == add_aliases(old(aliases).deep_view(), names.deep_view(), NUM_LOCALES as int),
{
    let mut i: usize = 0;
    while i < NUM_LOCALES
        invariant
            i <= NUM_LOCALES,
            names.len() == NUM_LOCALES,
            aliases.deep_view() == add_aliases(old(aliases).deep_view(), names.deep_view(), i as int),
        decreases NUM_LOCALES - i,
    {
        let l = Locale::at(i);
        if l != DEFAULT_LOCALE && !contains_exec(aliases, &names[i]) {
            push_deep(aliases, names[i].clone());
        }
        i += 1;
    }
}

fn apply_param_exec(p: &mut ParamRecord, a: &ArgMeta)
    requires
        a.names.len() == NUM_LOCALES,
        a.descriptions.len() == NUM_LOCALES,
    ensures
        final(p).deep_view() == apply_param(old(p).deep_view(), a.deep_view()),
{
    let d = DEFAULT_LOCALE.index();
    p.name = a.names[d].clone();
    p.description = Some(a.descriptions[d].clone());
    localize_exec(&mut p.name_localizations, &a.names);
    localize_exec(&mut p.description_localizations, &a.descriptions);
}

fn find_param_exec(ps: &Vec<ParamRecord>, name: &String) -> (r: Option<usize>)
    ensures
        match r {
            Some(i) => i < ps.len() && find_param(ps.deep_view(), name@, 0) == Some(i as int),
            None => find_param(ps.deep_view(), name@, 0) is None,
        },
{
    let ghost d = ps.deep_view();
    let mut i: usize = 0;
    while i < ps.len()
        invariant
            i <= ps.len(),
            d == ps.deep_view(),
            find_param(d, name@, 0) == find_param(d, name@, i as int),
        decreases ps.len() - i,
    {
        if ps[i].name == *name {
            return Some(i);
        }
        i += 1;
    }
    None
}

fn apply_meta_exec(c: &mut CommandRecord, m: &CommandMeta)
    requires
        meta_wf(m.deep_view()),
    ensures
        final(c).deep_view() == apply_meta(old(c).deep_view(), m.deep_view()),
{
    let d = DEFAULT_LOCALE.index();
    c.name = m.names[d].clone();
    c.description = Some(m.helps[d].clone());
    localize_exec(&mut c.name_localizations, &m.names);
    localize_exec(&mut c.description_localizations, &m.helps);
    add_aliases_exec(&mut c.aliases, &m.names);
    let ghost md = m.args.deep_view();
    let mut n: usize = 0;
    while n < m.args.len()
        invariant
            n <= m.args.len(),
            md == m.args.deep_view(),
            meta_wf(m.deep_view()),
            c.parameters.deep_view() == apply_args(old(c).deep_view().parameters, md, n as int),
            c.name@ == m.names.deep_view()[default_index()],
            c.description.deep_view() == Some(m.helps.deep_view()[default_index()]),
            c.name_localizations.deep_view() == localize(old(c).deep_view().name_localizations, m.names.deep_view(), NUM_LOCALES as int),
            c.description_localizations.deep_view() == localize(old(c).deep_view().description_localizations, m.helps.deep_view(), NUM_LOCALES as int),
            c.aliases.deep_view() == add_aliases(old(c).deep_view().aliases, m.names.deep_view(), NUM_LOCALES as int),
        decreases m.args.len() - n,
    {
        let a = &m.args[n];
        assert(m.deep_view().args[n as int].names.len() == NUM_LOCALES);
        match find_param_exec(&c.parameters, &a.name) {
            Some(i) => {
                let ghost q = c.parameters.deep_view();
                apply_param_exec(&mut c.parameters[i], a);
                assert(c.parameters.deep_view() =~= q.update(i as int, apply_param(q[i as int], md[n as int])));
            },
            None => {},
        }
        n += 1;
    }
}

fn find_record_exec(rs: &Vec<CommandRecord>, name: &String) -> (r: Option<usize>)
    ensures
        match r {
            Some(i) => i < rs.len() && find_record(rs.deep_view(), name@, 0) == Some(i as int),
            None => find_record(rs.deep_view(), name@, 0) is None,
        },
{
    let ghost d = rs.deep_view();
    let mut i: usize = 0;
    while i < rs.len()
        invariant
            i <= rs.len(),
            d == rs.deep_view(),
            find_record(d, name@, 0) == find_record(d, name@, i as int),
        decreases rs.len() - i,
    {
        if rs[i].name == *name {
            return Some(i);
        }
        i += 1;
    }
    None
}

/// Localizes the registered commands with the catalog's command metadata.
/// Metadata whose identifier names no registered command is skipped.
pub fn apply_translations(commands: &mut Vec<CommandRecord>, catalog: &Catalog)
    requires
        catalog.wf(),
    ensures
        final(commands).deep_view() == spec_apply_translations(old(commands).deep_view(), catalog.deep_view().commands),
{
    let ghost ms = catalog.commands.deep_view();
    let mut n: usize = 0;
    while n < catalog.commands.len()
        invariant
            n <= catalog.commands.len(),
            ms == catalog.commands.deep_view(),
            catalog.wf(),
            commands.deep_view() == apply_all(old(commands).deep_view(), ms, n as int),
        decreases catalog.commands.len() - n,
    {
        let m = &catalog.commands[n];
        assert(meta_wf(catalog.deep_view().commands[n as int]));
        match find_record_exec(commands, &m.name) {
            Some(i) => {
                let ghost q = commands.deep_view();
                apply_meta_exec(&mut commands[i], m);
                assert(commands.deep_view() =~= q.update(i as int, apply_meta(q[i as int], ms[n as int])));
            },
            None => {},
        }
        n += 1;
    }
}

proof fn lemma_add_aliases_distinct(aliases: Seq<Seq<char>>, names: Seq<Seq<char>>, n: int)
    requires
        distinct(aliases),
    ensures
        distinct(add_aliases(aliases, names, n)),
    decreases n,
{
    if n > 0 {
        lemma_add_aliases_distinct(aliases, names, n - 1);
        let a = add_aliases(aliases, names, n - 1);
        if Locale::spec_at(n - 1) != DEFAULT_LOCALE && !a.contains(names[n - 1]) {
            let b = a.push(names[n - 1]);
            assert forall|i: int, j: int| 0 <= i < j < b.len() implies b[i] != b[j] by {
                if j == a.len() {
                    assert(b[i] == a[i]);
                }
            }
        }
    }
}

pub open spec fn aliases_distinct(rs: Seq<SpecRecord>) -> bool {
    forall|i: int| 0 <= i < rs.len() ==> distinct(#[trigger] rs[i].aliases)
}

/// Applying command metadata never gives a command the same alias twice.
pub proof fn lemma_apply_keeps_aliases_distinct(rs: Seq<SpecRecord>, ms: Seq<SpecCommandMeta>, n: int)
    requires
        aliases_distinct(rs),
    ensures
        aliases_distinct(apply_all(rs, ms, n)),
    decreases n,
{
    if n > 0 {
        lemma_apply_keeps_aliases_distinct(rs, ms, n - 1);
        let q = apply_all(rs, ms, n - 1);
        if let Some(i) = find_record(q, ms[n - 1].name, 0) {
            lemma_find_record_bounds(q, ms[n - 1].name, 0);
            lemma_add_aliases_distinct(q[i].aliases, ms[n - 1].names, NUM_LOCALES as int);
            let r = q.update(i, apply_meta(q[i], ms[n - 1]));
            assert forall|k: int| 0 <= k < r.len() implies distinct(#[trigger] r[k].aliases) by {
                if k != i {
                    assert(r[k] == q[k]);
                }
            }
        }
    }
}

proof fn lemma_find_record_bounds(rs: Seq<SpecRecord>, name: Seq<char>, i: int)
    requires
        0 <= i,
    ensures
        find_record(rs, name, i) matches Some(k) ==> i <= k < rs.len(),
    decreases rs.len() - i,
{
    if i < rs.len() && rs[i].name != name {
        lemma_find_record_bounds(rs, name, i + 1);
    }
}

/// Applying the metadata twice leaves no command with a duplicated alias.
pub proof fn lemma_apply_twice_no_duplicate_aliases(rs: Seq<SpecRecord>, ms: Seq<SpecCommandMeta>)
    requires
        aliases_distinct(rs),
    ensures
        aliases_distinct(spec_apply_translations(spec_apply_translations(rs, ms), ms)),
{
    lemma_apply_keeps_aliases_distinct(rs, ms, ms.len() as int);
    lemma_apply_keeps_aliases_distinct(spec_apply_translations(rs, ms), ms, ms.len() as int);
}

} // verus!
