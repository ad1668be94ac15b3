//! The compiled catalog: for each key, one template per locale, and for each
//! command its localized names, help texts and arguments.
use vstd::prelude::*;
use crate::ast::{
    push_deep, Command, CommandArg, CommandGroup, I18nInput, LocaleValue, NestedEntry, SpecArg,
    SpecCommand, SpecEntry, SpecGroup, SpecInput, SpecTranslation, Translation,
};
use crate::locale::{spec_locale_named, Locale, NUM_LOCALES};
use crate::naming::{spec_pascal, to_pascal_case};
use crate::lexer::ParseError;
use crate::parser::{spec_parse, LV};
use crate::render::{args_view, do_translate, find_arg, lookup_arg, spec_render};
use crate::text::{chars_of, extend_range, range_equals, string_is, string_of};

verus! {

/// The text installed for a locale that has no authored value.
pub const MISSING_TRANSLATION: &'static str = "missing translation";

pub open spec fn sentinel() -> Seq<char> {
    MISSING_TRANSLATION@
}

// ---- Validity ----

pub open spec fn distinct(s: Seq<Seq<char>>) -> bool {
    forall|i: int, j: int| 0 <= i < j < s.len() ==> s[i] != s[j]
}

/// Every value names a known locale.
pub open spec fn values_known(vs: Seq<LV>) -> bool {
    forall|i: int| 0 <= i < vs.len() ==> (#[trigger] spec_locale_named(vs[i].0)) is Some
}

/// The authored value for a locale: the first one under its name.
pub open spec fn value_for(vs: Seq<LV>, l: Locale) -> Option<Seq<char>> {
    lookup_arg(vs, l.spec_name())
}

/// Every locale has an authored value.
pub open spec fn complete(vs: Seq<LV>) -> bool {
    forall|l: Locale| (#[trigger] value_for(vs, l)) is Some
}

pub open spec fn texts_ok(vs: Seq<LV>) -> bool {
    values_known(vs) && complete(vs)
}

pub open spec fn translation_name(t: SpecTranslation) -> Seq<char> {
    match t {
        SpecTranslation::Simple { key, .. } => key,
        SpecTranslation::Nested { namespace, .. } => namespace,
    }
}

pub open spec fn entry_keys(es: Seq<SpecEntry>) -> Seq<Seq<char>> {
    es.map_values(|e: SpecEntry| e.key)
}

pub open spec fn translation_ok(t: SpecTranslation) -> bool {
    match t {
        SpecTranslation::Simple { values, .. } => values_known(values),
        SpecTranslation::Nested { entries, .. } => distinct(entry_keys(entries)) && forall|j: int|
            0 <= j < entries.len() ==> values_known(#[trigger] entries[j].values),
    }
}

pub open spec fn translation_names(ts: Seq<SpecTranslation>) -> Seq<Seq<char>> {
    ts.map_values(|t: SpecTranslation| translation_name(t))
}

/// Names are unique in the scope and in each namespace, and every value
/// names a known locale.
pub open spec fn translations_ok(ts: Seq<SpecTranslation>) -> bool {
    distinct(translation_names(ts)) && forall|i: int| 0 <= i < ts.len() ==> translation_ok(#[trigger] ts[i])
}

pub open spec fn arg_ok(a: SpecArg) -> bool {
    texts_ok(a.arg_names) && texts_ok(a.descriptions)
}

pub open spec fn arg_names(args: Seq<SpecArg>) -> Seq<Seq<char>> {
    args.map_values(|a: SpecArg| a.name)
}

/// A command has a name and a help text for every locale, unique
/// arguments that are complete too, and valid translations.
pub open spec fn command_ok(c: SpecCommand) -> bool {
    &&& texts_ok(c.command_names)
    &&& texts_ok(c.help_texts)
    &&& distinct(arg_names(c.args))
    &&& forall|i: int| 0 <= i < c.args.len() ==> arg_ok(#[trigger] c.args[i])
    &&& translations_ok(c.trans)
}

/// The commands of all groups, in order.
pub open spec fn all_commands(gs: Seq<SpecGroup>) -> Seq<SpecCommand>
    decreases gs.len(),
{
    if gs.len() == 0 {
        Seq::empty()
    } else {
        all_commands(gs.drop_last()) + gs.last().commands
    }
}

pub open spec fn command_names(cs: Seq<SpecCommand>) -> Seq<Seq<char>> {
    cs.map_values(|c: SpecCommand| c.name)
}

pub open spec fn group_names(gs: Seq<SpecGroup>) -> Seq<Seq<char>> {
    gs.map_values(|g: SpecGroup| g.name)
}

/// The declared locales are exactly the supported ones, each once.
pub open spec fn locales_ok(ls: Seq<Seq<char>>) -> bool {
    &&& distinct(ls)
    &&& forall|i: int| 0 <= i < ls.len() ==> (#[trigger] spec_locale_named(ls[i])) is Some
    &&& forall|l: Locale| ls.contains(#[trigger] l.spec_name())
}

/// Whether a specification compiles.
pub open spec fn input_ok(ast: SpecInput) -> bool {
    &&& locales_ok(ast.locales)
    &&& translations_ok(ast.global)
    &&& distinct(group_names(ast.commands))
    &&& distinct(command_names(all_commands(ast.commands)))
    &&& forall|i: int| 0 <= i < all_commands(ast.commands).len() ==> command_ok(
        #[trigger] all_commands(ast.commands)[i],
    )
}

/// Why a specification does not compile, with the name concerned.
#[derive(Debug, PartialEq, Eq)]
pub enum CompileError {
    UnknownLocale(String),
    DuplicateLocale(String),
    UndeclaredLocale(Locale),
    DuplicateName(String),
    MissingText(String),
}

/// `n` stands at two positions of `s`.
pub open spec fn repeats(s: Seq<Seq<char>>, n: Seq<char>) -> bool {
    exists|i: int, j: int| 0 <= i < j < s.len() && s[i] == n && s[j] == n
}

pub open spec fn translation_repeats(t: SpecTranslation, n: Seq<char>) -> bool {
    match t {
        SpecTranslation::Nested { entries, .. } => repeats(entry_keys(entries), n),
        SpecTranslation::Simple { .. } => false,
    }
}

/// `n` is the name of two translations of a scope, or of two keys of one of its namespaces.
pub open spec fn scope_repeats(ts: Seq<SpecTranslation>, n: Seq<char>) -> bool {
    repeats(translation_names(ts), n) || exists|i: int| 0 <= i < ts.len() && translation_repeats(#[trigger] ts[i], n)
}

pub open spec fn arg_complete(a: SpecArg) -> bool {
    complete(a.arg_names) && complete(a.descriptions)
}

/// What an error found in a command says of it.
pub open spec fn command_error(c: SpecCommand, e: CompileError) -> bool {
    match e {
        CompileError::UnknownLocale(n) => spec_locale_named(n@) is None,
        CompileError::MissingText(n) => (n@ == c.name && !(complete(c.command_names) && complete(c.help_texts)))
            || exists|a: int| 0 <= a < c.args.len() && n@ == (#[trigger] c.args[a]).name && !arg_complete(c.args[a]),
        CompileError::DuplicateName(n) => repeats(arg_names(c.args), n@) || scope_repeats(c.trans, n@),
        _ => false,
    }
}

/// What a compile error says of the refused specification: an unknown
/// locale name, a locale declared twice, a locale not declared, a name
/// repeated in one scope, or a command or argument lacking a text.
pub open spec fn refusal_reason(ast: SpecInput, e: CompileError) -> bool {
    match e {
        CompileError::UnknownLocale(n) => spec_locale_named(n@) is None,
        CompileError::DuplicateLocale(n) => repeats(ast.locales, n@),
        CompileError::UndeclaredLocale(l) => !ast.locales.contains(l.spec_name()),
        CompileError::DuplicateName(n) => scope_repeats(ast.global, n@) || repeats(group_names(ast.commands), n@)
            || repeats(command_names(all_commands(ast.commands)), n@) || exists|i: int|
            0 <= i < all_commands(ast.commands).len() && command_error(#[trigger] all_commands(ast.commands)[i], e),
        CompileError::MissingText(n) => exists|i: int|
            0 <= i < all_commands(ast.commands).len() && command_error(#[trigger] all_commands(ast.commands)[i], e),
    }
}

// ---- Executable checks ----

/// The position of a string that repeats an earlier one, if any.
pub fn find_repeat(names: &Vec<String>) -> (r: Option<usize>)
    ensures
        r is None <==> distinct(names.deep_view()),
        r matches Some(b) ==> b < names.len() && repeats(names.deep_view(), names.deep_view()[b as int]),
{
    let ghost d = names.deep_view();
    let mut i: usize = 0;
    while i < names.len()
        invariant
            i <= names.len(),
            d == names.deep_view(),
            forall|a: int, b: int| 0 <= a < b < d.len() && a < i ==> d[a] != d[b],
        decreases names.len() - i,
    {
        let mut j: usize = i + 1;
        while j < names.len()
            invariant
                i < j <= names.len(),
                d == names.deep_view(),
                forall|a: int, b: int| 0 <= a < b < d.len() && a < i ==> d[a] != d[b],
                forall|b: int| i < b < j ==> d[i as int] != d[b],
            decreases names.len() - j,
        {
            if names[i] == names[j] {
                assert(d[i as int] == d[j as int]);
                assert(repeats(d, d[j as int]));
                return Some(j);
            }
            j += 1;
        }
        i += 1;
    }
    None
}

fn check_distinct(names: &Vec<String>) -> (r: Result<(), CompileError>)
    ensures
        r is Ok <==> distinct(names.deep_view()),
        r matches Err(e) ==> e matches CompileError::DuplicateName(n) && repeats(names.deep_view(), n@),
{
    match find_repeat(names) {
        Some(b) => Err(CompileError::DuplicateName(names[b].clone())),
        None => Ok(()),
    }
}

/// The position of the first value authored for `l`.
fn find_value(vs: &Vec<LocaleValue>, l: Locale) -> (r: Option<usize>)
    ensures
        match r {
            Some(k) => k < vs.len() && value_for(vs.deep_view(), l) == Some(vs.deep_view()[k as int].1),
            None => value_for(vs.deep_view(), l) is None,
        },
{
    let ghost d = vs.deep_view();
    let name = l.code();
    let mut k: usize = 0;
    while k < vs.len()
        invariant
            k <= vs.len(),
            d == vs.deep_view(),
            name@ == l.spec_name(),
            value_for(d, l) == find_arg(d, l.spec_name(), k as int),
        decreases vs.len() - k,
    {
        if string_is(&vs[k].locale, name) {
            return Some(k);
        }
        k += 1;
    }
    None
}

fn check_values_known(vs: &Vec<LocaleValue>) -> (r: Result<(), CompileError>)
    ensures
        r is Ok <==> values_known(vs.deep_view()),
        r matches Err(e) ==> e matches CompileError::UnknownLocale(n) && spec_locale_named(n@) is None,
{
    let ghost d = vs.deep_view();
    let mut k: usize = 0;
    while k < vs.len()
        invariant
            k <= vs.len(),
            d == vs.deep_view(),
            forall|i: int| 0 <= i < k ==> (#[trigger] spec_locale_named(d[i].0)) is Some,
        decreases vs.len() - k,
    {
        if Locale::from_name(vs[k].locale.as_str()).is_none() {
            assert(spec_locale_named(d[k as int].0) is None);
            return Err(CompileError::UnknownLocale(vs[k].locale.clone()));
        }
        k += 1;
    }
    Ok(())
}

fn check_complete(vs: &Vec<LocaleValue>, owner: &String) -> (r: Result<(), CompileError>)
    ensures
        r is Ok <==> complete(vs.deep_view()),
        r matches Err(e) ==> e matches CompileError::MissingText(n) && n@ == owner@,
{
    let mut i: usize = 0;
    while i < NUM_LOCALES
        invariant
            i <= NUM_LOCALES,
            forall|j: int| 0 <= j < i ==> (#[trigger] value_for(vs.deep_view(), Locale::spec_at(j))) is Some,
        decreases NUM_LOCALES - i,
    {
        if find_value(vs, Locale::at(i)).is_none() {
            return Err(CompileError::MissingText(owner.clone()));
        }
        i += 1;
    }
    assert forall|l: Locale| (#[trigger] value_for(vs.deep_view(), l)) is Some by {
        assert(l == Locale::spec_at(l.spec_index() as int));
    }
    Ok(())
}

fn check_texts(vs: &Vec<LocaleValue>, owner: &String) -> (r: Result<(), CompileError>)
    ensures
        r is Ok <==> texts_ok(vs.deep_view()),
        r matches Err(e) ==> (e matches CompileError::UnknownLocale(n) && spec_locale_named(n@) is None) || (
        e matches CompileError::MissingText(n) && n@ == owner@ && !complete(vs.deep_view())),
{
    check_values_known(vs)?;
    check_complete(vs, owner)
}


fn translation_name_of(t: &Translation) -> (r: String)
    ensures
        r@ == translation_name(t.deep_view()),
{
    match t {
        Translation::Simple { key, .. } => key.clone(),
        Translation::Nested { namespace, .. } => namespace.clone(),
    }
}

fn check_translation(t: &Translation) -> (r: Result<(), CompileError>)
    ensures
        r is Ok <==> translation_ok(t.deep_view()),
        r matches Err(e) ==> (e matches CompileError::UnknownLocale(n) && spec_locale_named(n@) is None) || (
        e matches CompileError::DuplicateName(n) && translation_repeats(t.deep_view(), n@)),
{
    match t {
        Translation::Simple { values, .. } => check_values_known(values),
        Translation::Nested { namespace, entries } => {
            let ghost d = entries.deep_view();
            let mut keys: Vec<String> = Vec::new();
            let mut i: usize = 0;
            while i < entries.len()
                invariant
                    i <= entries.len(),
                    d == entries.deep_view(),
                    t.deep_view() == (SpecTranslation::Nested { namespace: namespace@, entries: d }),
                    keys.deep_view() == entry_keys(d).take(i as int),
                    forall|j: int| 0 <= j < i ==> values_known(#[trigger] d[j].values),
                decreases entries.len() - i,
            {
                match check_values_known(&entries[i].values) {
                    Err(e) => {
                        assert(!values_known(d[i as int].values));
                        assert(!translation_ok(t.deep_view()));
                        return Err(e);
                    },
                    Ok(()) => {},
                }
                push_deep(&mut keys, entries[i].key.clone());
                assert(entry_keys(d).take(i + 1) =~= entry_keys(d).take(i as int).push(d[i as int].key));
                i += 1;
            }
            assert(entry_keys(d).take(entries.len() as int) =~= entry_keys(d));
            check_distinct(&keys)
        },
    }
}

fn check_translations(ts: &Vec<Translation>) -> (r: Result<(), CompileError>)
    ensures
        r is Ok <==> translations_ok(ts.deep_view()),
        r matches Err(e) ==> (e matches CompileError::UnknownLocale(n) && spec_locale_named(n@) is None) || (
        e matches CompileError::DuplicateName(n) && scope_repeats(ts.deep_view(), n@)),
{
    let ghost d = ts.deep_view();
    let mut names: Vec<String> = Vec::new();
    let mut i: usize = 0;
    while i < ts.len()
        invariant
            i <= ts.len(),
            d == ts.deep_view(),
            names.deep_view() == translation_names(d).take(i as int),
            forall|j: int| 0 <= j < i ==> translation_ok(#[trigger] d[j]),
        decreases ts.len() - i,
    {
        match check_translation(&ts[i]) {
            Err(e) => {
                assert(!translation_ok(d[i as int]));
                if let CompileError::DuplicateName(n) = &e {
                    assert(translation_repeats(d[i as int], n@));
                    assert(scope_repeats(d, n@));
                }
                return Err(e);
            },
            Ok(()) => {},
        }
        push_deep(&mut names, translation_name_of(&ts[i]));
        assert(translation_names(d).take(i + 1) =~= translation_names(d).take(i as int).push(translation_name(d[i as int])));
        i += 1;
    }
    assert(translation_names(d).take(ts.len() as int) =~= translation_names(d));
    check_distinct(&names)
}

fn check_command(c: &Command) -> (r: Result<(), CompileError>)
    ensures
        r is Ok <==> command_ok(c.deep_view()),
        r matches Err(e) ==> command_error(c.deep_view(), e),
{
    check_texts(&c.command_names, &c.name)?;
    check_texts(&c.help_texts, &c.name)?;
    let ghost d = c.args.deep_view();
    let mut names: Vec<String> = Vec::new();
    let mut i: usize = 0;
    while i < c.args.len()
        invariant
            i <= c.args.len(),
            d == c.args.deep_view(),
            names.deep_view() == arg_names(d).take(i as int),
            forall|j: int| 0 <= j < i ==> arg_ok(#[trigger] d[j]),
        decreases c.args.len() - i,
    {
        match check_texts(&c.args[i].arg_names, &c.args[i].name) {
            Err(e) => {
                assert(!arg_ok(d[i as int]));
                if let CompileError::MissingText(n) = &e {
                    assert(n@ == c.deep_view().args[i as int].name && !arg_complete(c.deep_view().args[i as int]));
                }
                return Err(e);
            },
            Ok(()) => {},
        }
        match check_texts(&c.args[i].descriptions, &c.args[i].name) {
            Err(e) => {
                assert(!arg_ok(d[i as int]));
                if let CompileError::MissingText(n) = &e {
                    assert(n@ == c.deep_view().args[i as int].name && !arg_complete(c.deep_view().args[i as int]));
                }
                return Err(e);
            },
            Ok(()) => {},
        }
        push_deep(&mut names, c.args[i].name.clone());
        assert(arg_names(d).take(i + 1) =~= arg_names(d).take(i as int).push(d[i as int].name));
        i += 1;
    }
    assert(arg_names(d).take(c.args.len() as int) =~= arg_names(d));
    check_distinct(&names)?;
    check_translations(&c.trans)
}

fn check_locales(ls: &Vec<String>) -> (r: Result<(), CompileError>)
    ensures
        r is Ok <==> locales_ok(ls.deep_view()),
        r matches Err(e) ==> (e matches CompileError::UnknownLocale(n) && spec_locale_named(n@) is None) || (
        e matches CompileError::DuplicateLocale(n) && repeats(ls.deep_view(), n@)) || (
        e matches CompileError::UndeclaredLocale(l) && !ls.deep_view().contains(l.spec_name())),
{
    let ghost d = ls.deep_view();
    let mut k: usize = 0;
    while k < ls.len()
        invariant
            k <= ls.len(),
            d == ls.deep_view(),
            forall|i: int| 0 <= i < k ==> (#[trigger] spec_locale_named(d[i])) is Some,
        decreases ls.len() - k,
    {
        if Locale::from_name(ls[k].as_str()).is_none() {
            assert(spec_locale_named(d[k as int]) is None);
            return Err(CompileError::UnknownLocale(ls[k].clone()));
        }
        k += 1;
    }
    match find_repeat(ls) {
        Some(b) => {
            return Err(CompileError::DuplicateLocale(ls[b].clone()));
        },
        None => {},
    }
    let mut i: usize = 0;
    while i < NUM_LOCALES
        invariant
            i <= NUM_LOCALES,
            d == ls.deep_view(),
            forall|j: int| 0 <= j < i ==> d.contains(#[trigger] Locale::spec_at(j).spec_name()),
        decreases NUM_LOCALES - i,
    {
        let l = Locale::at(i);
        let name = l.code();
        let mut k: usize = 0;
        let mut found = false;
        while k < ls.len()
            invariant
                k <= ls.len(),
                d == ls.deep_view(),
                name@ == l.spec_name(),
                found ==> d.contains(l.spec_name()),
                !found ==> forall|j: int| 0 <= j < k ==> d[j] != l.spec_name(),
            decreases ls.len() - k,
        {
            if !found && string_is(&ls[k], name) {
                assert(d[k as int] == l.spec_name());
                found = true;
            }
            k += 1;
        }
        if !found {
            return Err(CompileError::UndeclaredLocale(l));
        }
        i += 1;
    }
    assert forall|l: Locale| d.contains(#[trigger] l.spec_name()) by {
        assert(l == Locale::spec_at(l.spec_index() as int));
    }
    Ok(())
}

proof fn lemma_all_commands_step(gs: Seq<SpecGroup>, i: int)
    requires
        0 <= i < gs.len(),
    ensures
        all_commands(gs.take(i + 1)) == all_commands(gs.take(i)) + gs[i].commands,
{
    assert(gs.take(i + 1).drop_last() =~= gs.take(i));
}

proof fn lemma_all_commands_prefix(gs: Seq<SpecGroup>, i: int)
    requires
        0 <= i <= gs.len(),
    ensures
        all_commands(gs.take(i)).len() <= all_commands(gs).len(),
        forall|j: int| 0 <= j < all_commands(gs.take(i)).len() ==> #[trigger] all_commands(gs.take(i))[j]
            == all_commands(gs)[j],
    decreases gs.len() - i,
{
    if i == gs.len() {
        assert(gs.take(i) =~= gs);
    } else {
        lemma_all_commands_step(gs, i);
        lemma_all_commands_prefix(gs, i + 1);
        assert forall|j: int| 0 <= j < all_commands(gs.take(i)).len() implies #[trigger] all_commands(gs.take(i))[j]
            == all_commands(gs)[j] by {
            assert(all_commands(gs.take(i + 1))[j] == all_commands(gs.take(i))[j]);
        }
    }
}

fn check_input(ast: &I18nInput) -> (r: Result<(), CompileError>)
    ensures
        r is Ok <==> input_ok(ast.deep_view()),
        r matches Err(e) ==> refusal_reason(ast.deep_view(), e),
{
    check_locales(&ast.locales)?;
    check_translations(&ast.global)?;
    let ghost gs = ast.commands.deep_view();
    let mut group_names_v: Vec<String> = Vec::new();
    let mut names: Vec<String> = Vec::new();
    let mut i: usize = 0;
    assert(gs.take(0) =~= Seq::<SpecGroup>::empty());
    assert(names.deep_view() =~= command_names(all_commands(gs.take(0))));
    while i < ast.commands.len()
        invariant
            i <= ast.commands.len(),
            gs == ast.commands.deep_view(),
            group_names_v.deep_view() == group_names(gs).take(i as int),
            names.deep_view() == command_names(all_commands(gs.take(i as int))),
            forall|j: int| 0 <= j < all_commands(gs.take(i as int)).len() ==> command_ok(
                #[trigger] all_commands(gs.take(i as int))[j],
            ),
        decreases ast.commands.len() - i,
    {
        let g = &ast.commands[i];
        let ghost before = all_commands(gs.take(i as int));
        let ghost cs = g.commands.deep_view();
        let mut k: usize = 0;
        assert(cs.take(0) =~= Seq::<SpecCommand>::empty());
        assert(before + cs.take(0) =~= before);
        while k < g.commands.len()
            invariant
                k <= g.commands.len(),
                i < ast.commands.len(),
                gs == ast.commands.deep_view(),
                before == all_commands(gs.take(i as int)),
                cs == gs[i as int].commands,
                cs == g.commands.deep_view(),
                names.deep_view() == command_names(before + cs.take(k as int)),
                forall|j: int| 0 <= j < (before + cs.take(k as int)).len() ==> command_ok(
                    #[trigger] (before + cs.take(k as int))[j],
                ),
            decreases g.commands.len() - k,
        {
            match check_command(&g.commands[k]) {
                Err(e) => {
                    proof {
                        lemma_all_commands_step(gs, i as int);
                        lemma_all_commands_prefix(gs, i + 1);
                        let idx = before.len() + k;
                        assert(all_commands(gs.take(i + 1))[idx] == cs[k as int]);
                        assert(!command_ok(all_commands(gs)[idx]));
                        assert(command_error(all_commands(gs)[idx], e));
                        assert(ast.deep_view().commands == gs);
                        assert(refusal_reason(ast.deep_view(), e));
                    }
                    return Err(e);
                },
                Ok(()) => {},
            }
            push_deep(&mut names, g.commands[k].name.clone());
            assert(before + cs.take(k + 1) =~= (before + cs.take(k as int)).push(cs[k as int]));
            assert(command_names(before + cs.take(k + 1)) =~= command_names(before + cs.take(k as int)).push(cs[k as int].name));
            k += 1;
        }
        proof {
            lemma_all_commands_step(gs, i as int);
            assert(cs.take(g.commands.len() as int) =~= cs);
        }
        push_deep(&mut group_names_v, g.name.clone());
        assert(group_names(gs).take(i + 1) =~= group_names(gs).take(i as int).push(gs[i as int].name));
        i += 1;
    }
    assert(gs.take(ast.commands.len() as int) =~= gs);
    assert(group_names(gs).take(ast.commands.len() as int) =~= group_names(gs));
    check_distinct(&group_names_v)?;
    check_distinct(&names)
}


// ---- The compiled catalog ----

/// A compiled key: its path (`Key` or `Namespace::Key`, in PascalCase) and
/// its template for each locale, by locale index.
#[derive(Debug)]
pub struct KeyEntry {
    pub path: String,
    pub templates: Vec<String>,
}

/// A compiled argument: its identifier, and its name and description for
/// each locale.
#[derive(Debug)]
pub struct ArgMeta {
    pub name: String,
    pub names: Vec<String>,
    pub descriptions: Vec<String>,
}

/// A compiled command: its group and identifier, its name and help text for
/// each locale, its arguments and its own keys.
#[derive(Debug)]
pub struct CommandMeta {
    pub group: String,
    pub name: String,
    pub names: Vec<String>,
    pub helps: Vec<String>,
    pub args: Vec<ArgMeta>,
    pub trans: Vec<KeyEntry>,
}

/// The global keys and the commands of a compiled specification.
#[derive(Debug)]
pub struct Catalog {
    pub global: Vec<KeyEntry>,
    pub commands: Vec<CommandMeta>,
}

pub struct SpecKeyEntry {
    pub path: Seq<char>,
    pub templates: Seq<Seq<char>>,
}

pub struct SpecArgMeta {
    pub name: Seq<char>,
    pub names: Seq<Seq<char>>,
    pub descriptions: Seq<Seq<char>>,
}

pub struct SpecCommandMeta {
    pub group: Seq<char>,
    pub name: Seq<char>,
    pub names: Seq<Seq<char>>,
    pub helps: Seq<Seq<char>>,
    pub args: Seq<SpecArgMeta>,
    pub trans: Seq<SpecKeyEntry>,
}

pub struct SpecCatalog {
    pub global: Seq<SpecKeyEntry>,
    pub commands: Seq<SpecCommandMeta>,
}

impl DeepView for KeyEntry {
    type V = SpecKeyEntry;

    open spec fn deep_view(&self) -> SpecKeyEntry {
        SpecKeyEntry { path: self.path@, templates: self.templates.deep_view() }
    }
}

impl DeepView for ArgMeta {
    type V = SpecArgMeta;

    open spec fn deep_view(&self) -> SpecArgMeta {
        SpecArgMeta {
            name: self.name@,
            names: self.names.deep_view(),
            descriptions: self.descriptions.deep_view(),
        }
    }
}

impl DeepView for CommandMeta {
    type V = SpecCommandMeta;

    open spec fn deep_view(&self) -> SpecCommandMeta {
        SpecCommandMeta {
            group: self.group@,
            name: self.name@,
            names: self.names.deep_view(),
            helps: self.helps.deep_view(),
            args: self.args.deep_view(),
            trans: self.trans.deep_view(),
        }
    }
}

impl DeepView for Catalog {
    type V = SpecCatalog;

    open spec fn deep_view(&self) -> SpecCatalog {
        SpecCatalog { global: self.global.deep_view(), commands: self.commands.deep_view() }
    }
}

/// The template of a locale: its authored value, or the sentinel.
pub open spec fn template_for(vs: Seq<LV>, l: Locale) -> Seq<char> {
    match value_for(vs, l) {
        Some(v) => v,
        None => sentinel(),
    }
}

/// The templates of all locales, by locale index.
pub open spec fn per_locale(vs: Seq<LV>) -> Seq<Seq<char>> {
    Seq::new(NUM_LOCALES as nat, |i: int| template_for(vs, Locale::spec_at(i)))
}

pub open spec fn joined_path(namespace: Seq<char>, key: Seq<char>) -> Seq<char> {
    spec_pascal(namespace) + seq![':', ':'] + spec_pascal(key)
}

pub open spec fn nested_entry(namespace: Seq<char>, e: SpecEntry) -> SpecKeyEntry {
    SpecKeyEntry { path: joined_path(namespace, e.key), templates: per_locale(e.values) }
}

/// The compiled keys of one translation.
pub open spec fn translation_entries(t: SpecTranslation) -> Seq<SpecKeyEntry> {
    match t {
        SpecTranslation::Simple { key, values } => seq![
            SpecKeyEntry { path: spec_pascal(key), templates: per_locale(values) },
        ],
        SpecTranslation::Nested { namespace, entries } => entries.map_values(
            |e: SpecEntry| nested_entry(namespace, e),
        ),
    }
}

/// The compiled keys of a scope, in order.
pub open spec fn scope_entries(ts: Seq<SpecTranslation>) -> Seq<SpecKeyEntry>
    decreases ts.len(),
{
    if ts.len() == 0 {
        Seq::empty()
    } else {
        scope_entries(ts.drop_last()) + translation_entries(ts.last())
    }
}

pub open spec fn arg_meta(a: SpecArg) -> SpecArgMeta {
    SpecArgMeta { name: a.name, names: per_locale(a.arg_names), descriptions: per_locale(a.descriptions) }
}

pub open spec fn command_meta(group: Seq<char>, c: SpecCommand) -> SpecCommandMeta {
    SpecCommandMeta {
        group,
        name: c.name,
        names: per_locale(c.command_names),
        helps: per_locale(c.help_texts),
        args: c.args.map_values(|a: SpecArg| arg_meta(a)),
        trans: scope_entries(c.trans),
    }
}

pub open spec fn group_metas(g: SpecGroup) -> Seq<SpecCommandMeta> {
    g.commands.map_values(|c: SpecCommand| command_meta(g.name, c))
}

/// The compiled commands of all groups, in order.
pub open spec fn all_metas(gs: Seq<SpecGroup>) -> Seq<SpecCommandMeta>
    decreases gs.len(),
{
    if gs.len() == 0 {
        Seq::empty()
    } else {
        all_metas(gs.drop_last()) + group_metas(gs.last())
    }
}

/// The catalog that a valid specification compiles to.
pub open spec fn spec_catalog(ast: SpecInput) -> SpecCatalog {
    SpecCatalog { global: scope_entries(ast.global), commands: all_metas(ast.commands) }
}

fn lower_values(vs: &Vec<LocaleValue>) -> (r: Vec<String>)
    ensures
        r.deep_view() == per_locale(vs.deep_view()),
        r.len() == NUM_LOCALES,
{
    let ghost d = vs.deep_view();
    let mut out: Vec<String> = Vec::new();
    let mut i: usize = 0;
    while i < NUM_LOCALES
        invariant
            i <= NUM_LOCALES,
            d == vs.deep_view(),
            out.len() == i,
            out.deep_view() == per_locale(d).take(i as int),
        decreases NUM_LOCALES - i,
    {
        let l = Locale::at(i);
        let t = match find_value(vs, l) {
            Some(k) => vs[k].value.clone(),
            None => MISSING_TRANSLATION.to_owned(),
        };
        push_deep(&mut out, t);
        assert(per_locale(d).take(i + 1) =~= per_locale(d).take(i as int).push(template_for(d, l)));
        i += 1;
    }
    assert(per_locale(d).take(NUM_LOCALES as int) =~= per_locale(d));
    out
}

fn join_path(namespace: &String, key: &String) -> (r: String)
    ensures
        r@ == joined_path(namespace@, key@),
{
    let ns = to_pascal_case(namespace.as_str());
    let k = to_pascal_case(key.as_str());
    let mut out = chars_of(ns.as_str());
    out.push(':');
    out.push(':');
    let ks = chars_of(k.as_str());
    let mut i: usize = 0;
    let ghost base = out@;
    while i < ks.len()
        invariant
            i <= ks.len(),
            out@ == base + ks@.take(i as int),
        decreases ks.len() - i,
    {
        out.push(ks[i]);
        assert(ks@.take(i + 1) =~= ks@.take(i as int).push(ks@[i as int]));
        i += 1;
    }
    assert(ks@.take(ks.len() as int) =~= ks@);
    string_of(&out)
}

proof fn lemma_scope_entries_step(ts: Seq<SpecTranslation>, i: int)
    requires
        0 <= i < ts.len(),
    ensures
        scope_entries(ts.take(i + 1)) == scope_entries(ts.take(i)) + translation_entries(ts[i]),
{
    assert(ts.take(i + 1).drop_last() =~= ts.take(i));
}

fn lower_translations(ts: &Vec<Translation>) -> (r: Vec<KeyEntry>)
    ensures
        r.deep_view() == scope_entries(ts.deep_view()),
{
    let ghost d = ts.deep_view();
    let mut out: Vec<KeyEntry> = Vec::new();
    let mut i: usize = 0;
    assert(d.take(0) =~= Seq::<SpecTranslation>::empty());
    assert(out.deep_view() =~= Seq::<SpecKeyEntry>::empty());
    while i < ts.len()
        invariant
            i <= ts.len(),
            d == ts.deep_view(),
            out.deep_view() == scope_entries(d.take(i as int)),
        decreases ts.len() - i,
    {
        proof {
            lemma_scope_entries_step(d, i as int);
        }
        match &ts[i] {
            Translation::Simple { key, values } => {
                let e = KeyEntry { path: to_pascal_case(key.as_str()), templates: lower_values(values) };
                push_deep(&mut out, e);
                assert(translation_entries(d[i as int]) =~= seq![e.deep_view()]);
            },
            Translation::Nested { namespace, entries } => {
                let ghost es = entries.deep_view();
                let ghost base = out.deep_view();
                let mut k: usize = 0;
                while k < entries.len()
                    invariant
                        k <= entries.len(),
                        es == entries.deep_view(),
                        out.deep_view() == base + translation_entries(
                            SpecTranslation::Nested { namespace: namespace@, entries: es },
                        ).take(k as int),
                    decreases entries.len() - k,
                {
                    let e = KeyEntry {
                        path: join_path(namespace, &entries[k].key),
                        templates: lower_values(&entries[k].values),
                    };
                    push_deep(&mut out, e);
                    assert(translation_entries(SpecTranslation::Nested { namespace: namespace@, entries: es }).take(k + 1)
                        =~= translation_entries(SpecTranslation::Nested { namespace: namespace@, entries: es }).take(k as int).push(
                        nested_entry(namespace@, es[k as int]),
                    ));
                    k += 1;
                }
                assert(translation_entries(SpecTranslation::Nested { namespace: namespace@, entries: es }).take(entries.len() as int)
                    =~= translation_entries(SpecTranslation::Nested { namespace: namespace@, entries: es }));
            },
        }
        i += 1;
    }
    assert(d.take(ts.len() as int) =~= d);
    out
}

fn lower_command(group: &String, c: &Command) -> (r: CommandMeta)
    ensures
        r.deep_view() == command_meta(group@, c.deep_view()),
{
    let ghost d = c.args.deep_view();
    let mut args: Vec<ArgMeta> = Vec::new();
    let mut i: usize = 0;
    while i < c.args.len()
        invariant
            i <= c.args.len(),
            d == c.args.deep_view(),
            args.deep_view() == d.map_values(|a: SpecArg| arg_meta(a)).take(i as int),
        decreases c.args.len() - i,
    {
        let a = &c.args[i];
        let m = ArgMeta {
            name: a.name.clone(),
            names: lower_values(&a.arg_names),
            descriptions: lower_values(&a.descriptions),
        };
        push_deep(&mut args, m);
        assert(d.map_values(|a: SpecArg| arg_meta(a)).take(i + 1) =~= d.map_values(|a: SpecArg| arg_meta(a)).take(
            i as int,
        ).push(arg_meta(d[i as int])));
        i += 1;
    }
    assert(d.map_values(|a: SpecArg| arg_meta(a)).take(c.args.len() as int) =~= d.map_values(|a: SpecArg| arg_meta(a)));
    CommandMeta {
        group: group.clone(),
        name: c.name.clone(),
        names: lower_values(&c.command_names),
        helps: lower_values(&c.help_texts),
        args,
        trans: lower_translations(&c.trans),
    }
}

proof fn lemma_all_metas_step(gs: Seq<SpecGroup>, i: int)
    requires
        0 <= i < gs.len(),
    ensures
        all_metas(gs.take(i + 1)) == all_metas(gs.take(i)) + group_metas(gs[i]),
{
    assert(gs.take(i + 1).drop_last() =~= gs.take(i));
}

fn lower_commands(gs: &Vec<CommandGroup>) -> (r: Vec<CommandMeta>)
    ensures
        r.deep_view() == all_metas(gs.deep_view()),
{
    let ghost d = gs.deep_view();
    let mut out: Vec<CommandMeta> = Vec::new();
    let mut i: usize = 0;
    assert(d.take(0) =~= Seq::<SpecGroup>::empty());
    assert(out.deep_view() =~= Seq::<SpecCommandMeta>::empty());
    while i < gs.len()
        invariant
            i <= gs.len(),
            d == gs.deep_view(),
            out.deep_view() == all_metas(d.take(i as int)),
        decreases gs.len() - i,
    {
        proof {
            lemma_all_metas_step(d, i as int);
        }
        let g = &gs[i];
        let ghost base = out.deep_view();
        let mut k: usize = 0;
        while k < g.commands.len()
            invariant
                k <= g.commands.len(),
                i < gs.len(),
                d == gs.deep_view(),
                d[i as int] == g.deep_view(),
                out.deep_view() == base + group_metas(d[i as int]).take(k as int),
            decreases g.commands.len() - k,
        {
            push_deep(&mut out, lower_command(&g.name, &g.commands[k]));
            assert(group_metas(d[i as int]).take(k + 1) =~= group_metas(d[i as int]).take(k as int).push(
                command_meta(d[i as int].name, d[i as int].commands[k as int]),
            ));
            k += 1;
        }
        assert(group_metas(d[i as int]).take(g.commands.len() as int) =~= group_metas(d[i as int]));
        i += 1;
    }
    assert(d.take(gs.len() as int) =~= d);
    out
}

/// Validates a parsed specification and compiles it. Locales without an
/// authored value for a key get the sentinel template.
pub fn compile(ast: &I18nInput) -> (r: Result<Catalog, CompileError>)
    ensures
        r is Ok <==> input_ok(ast.deep_view()),
        r matches Ok(c) ==> c.deep_view() == spec_catalog(ast.deep_view()) && c.wf(),
        r matches Err(e) ==> refusal_reason(ast.deep_view(), e),
{
    check_input(ast)?;
    proof {
        lemma_compiled_catalog_wf(ast.deep_view());
    }
    Ok(Catalog { global: lower_translations(&ast.global), commands: lower_commands(&ast.commands) })
}


/// Why a source text gives no catalog.
#[derive(Debug, PartialEq, Eq)]
pub enum SpecError {
    Parse(ParseError),
    Compile(CompileError),
}

impl Catalog {
    /// Parses and compiles a translation specification.
    pub fn from_source(src: &str) -> (r: Result<Catalog, SpecError>)
        ensures
            match spec_parse(src@) {
                Err(e) => r == Err::<Catalog, SpecError>(SpecError::Parse(e)),
                Ok(ast) => {
                    &&& r is Ok <==> input_ok(ast)
                    &&& r matches Ok(c) ==> c.deep_view() == spec_catalog(ast) && c.wf()
                    &&& r matches Err(err) ==> err matches SpecError::Compile(e) && refusal_reason(ast, e)
                },
            },
    {
        match I18nInput::parse(src) {
            Err(e) => Err(SpecError::Parse(e)),
            Ok(ast) => match compile(&ast) {
                Ok(c) => Ok(c),
                Err(e) => Err(SpecError::Compile(e)),
            },
        }
    }
}

// ---- Lookup ----

/// Every key has one template per locale, and every command one name and
/// one help text per locale, as do its arguments.
pub open spec fn entries_wf(es: Seq<SpecKeyEntry>) -> bool {
    forall|k: int| 0 <= k < es.len() ==> (#[trigger] es[k]).templates.len() == NUM_LOCALES
}

pub open spec fn meta_wf(m: SpecCommandMeta) -> bool {
    &&& m.names.len() == NUM_LOCALES
    &&& m.helps.len() == NUM_LOCALES
    &&& forall|a: int| 0 <= a < m.args.len() ==> (#[trigger] m.args[a]).names.len() == NUM_LOCALES
        && m.args[a].descriptions.len() == NUM_LOCALES
    &&& entries_wf(m.trans)
}

pub open spec fn catalog_wf(c: SpecCatalog) -> bool {
    entries_wf(c.global) && forall|m: int| 0 <= m < c.commands.len() ==> meta_wf(#[trigger] c.commands[m])
}

/// The position of the first key at `path`, from `k` on.
pub open spec fn find_path(es: Seq<SpecKeyEntry>, path: Seq<char>, k: int) -> Option<int>
    decreases es.len() - k,
{
    if k < 0 || k >= es.len() {
        None
    } else if es[k].path == path {
        Some(k)
    } else {
        find_path(es, path, k + 1)
    }
}

/// The template of the first key at `path`, for locale `l`.
pub open spec fn spec_lookup(es: Seq<SpecKeyEntry>, path: Seq<char>, l: Locale) -> Option<Seq<char>> {
    match find_path(es, path, 0) {
        Some(k) => Some(es[k].templates[l.spec_index() as int]),
        None => None,
    }
}

pub open spec fn global_prefix() -> Seq<char> {
    seq!['g', 'l', 'o', 'b', 'a', 'l', ':', ':']
}

/// For a command-scoped path that starts with `global::`, the global path after it.
pub open spec fn global_part(path: Seq<char>) -> Option<Seq<char>> {
    if path.len() >= 8 && path.subrange(0, 8) == global_prefix() {
        Some(path.subrange(8, path.len() as int))
    } else {
        None
    }
}

/// The position of the first command of group `group` named `name`, from `k` on.
pub open spec fn find_command(cs: Seq<SpecCommandMeta>, group: Seq<char>, name: Seq<char>, k: int) -> Option<int>
    decreases cs.len() - k,
{
    if k < 0 || k >= cs.len() {
        None
    } else if cs[k].group == group && cs[k].name == name {
        Some(k)
    } else {
        find_command(cs, group, name, k + 1)
    }
}

/// The template of a path as seen from a command: `global::...` paths are
/// global keys, others are the command's own keys.
pub open spec fn spec_lookup_in(c: SpecCatalog, group: Seq<char>, command: Seq<char>, path: Seq<char>, l: Locale) -> Option<Seq<char>> {
    match global_part(path) {
        Some(rest) => spec_lookup(c.global, rest, l),
        None => match find_command(c.commands, group, command, 0) {
            Some(m) => spec_lookup(c.commands[m].trans, path, l),
            None => None,
        },
    }
}

pub open spec fn rendered(t: Option<Seq<char>>, args: Seq<(Seq<char>, Seq<char>)>) -> Option<Seq<char>> {
    match t {
        Some(t) => Some(spec_render(t, args)),
        None => None,
    }
}

pub open spec fn string_opt(r: Option<String>) -> Option<Seq<char>> {
    match r {
        Some(s) => Some(s@),
        None => None,
    }
}

proof fn lemma_scope_entries_wf(ts: Seq<SpecTranslation>)
    ensures
        entries_wf(scope_entries(ts)),
    decreases ts.len(),
{
    if ts.len() > 0 {
        lemma_scope_entries_wf(ts.drop_last());
    }
}

proof fn lemma_all_metas_wf(gs: Seq<SpecGroup>)
    ensures
        forall|m: int| 0 <= m < all_metas(gs).len() ==> meta_wf(#[trigger] all_metas(gs)[m]),
    decreases gs.len(),
{
    if gs.len() > 0 {
        lemma_all_metas_wf(gs.drop_last());
        let g = gs.last();
        assert forall|m: int| 0 <= m < group_metas(g).len() implies meta_wf(#[trigger] group_metas(g)[m]) by {
            lemma_scope_entries_wf(g.commands[m].trans);
        }
        let a = all_metas(gs.drop_last());
        let b = group_metas(g);
        assert forall|m: int| 0 <= m < all_metas(gs).len() implies meta_wf(#[trigger] all_metas(gs)[m]) by {
            if m < a.len() {
                assert(all_metas(gs)[m] == a[m]);
            } else {
                assert(all_metas(gs)[m] == b[m - a.len()]);
            }
        }
    }
}

/// A compiled catalog is well formed.
pub proof fn lemma_compiled_catalog_wf(ast: SpecInput)
    ensures
        catalog_wf(spec_catalog(ast)),
{
    lemma_scope_entries_wf(ast.global);
    lemma_all_metas_wf(ast.commands);
}

fn find_key(es: &Vec<KeyEntry>, path: &Vec<char>) -> (r: Option<usize>)
    ensures
        match r {
            Some(k) => k < es.len() && find_path(es.deep_view(), path@, 0) == Some(k as int),
            None => find_path(es.deep_view(), path@, 0) is None,
        },
{
    let ghost d = es.deep_view();
    let s = string_of(path);
    let mut k: usize = 0;
    while k < es.len()
        invariant
            k <= es.len(),
            d == es.deep_view(),
            s@ == path@,
            find_path(d, path@, 0) == find_path(d, path@, k as int),
        decreases es.len() - k,
    {
        if es[k].path == s {
            return Some(k);
        }
        k += 1;
    }
    None
}

fn lookup_entries<'a>(es: &'a Vec<KeyEntry>, path: &Vec<char>, locale: Locale) -> (r: Option<&'a String>)
    requires
        entries_wf(es.deep_view()),
    ensures
        match r {
            Some(t) => spec_lookup(es.deep_view(), path@, locale) == Some(t@),
            None => spec_lookup(es.deep_view(), path@, locale) is None,
        },
{
    match find_key(es, path) {
        Some(k) => {
            assert(es.deep_view()[k as int].templates.len() == NUM_LOCALES);
            Some(&es[k].templates[locale.index()])
        },
        None => None,
    }
}

fn find_command_exec(cs: &Vec<CommandMeta>, group: &str, name: &str) -> (r: Option<usize>)
    ensures
        match r {
            Some(k) => k < cs.len() && find_command(cs.deep_view(), group@, name@, 0) == Some(k as int),
            None => find_command(cs.deep_view(), group@, name@, 0) is None,
        },
{
    let ghost d = cs.deep_view();
    let mut k: usize = 0;
    while k < cs.len()
        invariant
            k <= cs.len(),
            d == cs.deep_view(),
            find_command(d, group@, name@, 0) == find_command(d, group@, name@, k as int),
        decreases cs.len() - k,
    {
        if string_is(&cs[k].group, group) && string_is(&cs[k].name, name) {
            return Some(k);
        }
        k += 1;
    }
    None
}

impl Catalog {
    pub open spec fn wf(&self) -> bool {
        catalog_wf(self.deep_view())
    }

    /// The id of the first global key at `path` (`Key` or `Namespace::Key`).
    pub fn key_id(&self, path: &str) -> (r: Option<usize>)
        ensures
            match r {
                Some(k) => k < self.global.len() && find_path(self.deep_view().global, path@, 0) == Some(k as int),
                None => find_path(self.deep_view().global, path@, 0) is None,
            },
    {
        let p = chars_of(path);
        find_key(&self.global, &p)
    }

    /// The template of a global key for a locale, in constant time.
    pub fn template(&self, key: usize, locale: Locale) -> (r: &String)
        requires
            self.wf(),
            key < self.global.len(),
        ensures
            r@ == self.deep_view().global[key as int].templates[locale.spec_index() as int],
    {
        assert(self.deep_view().global[key as int].templates.len() == NUM_LOCALES);
        &self.global[key].templates[locale.index()]
    }

    /// The template of the global key at `path` for a locale.
    pub fn lookup(&self, path: &str, locale: Locale) -> (r: Option<&String>)
        requires
            self.wf(),
        ensures
            match r {
                Some(t) => spec_lookup(self.deep_view().global, path@, locale) == Some(t@),
                None => spec_lookup(self.deep_view().global, path@, locale) is None,
            },
    {
        match self.key_id(path) {
            Some(k) => Some(self.template(k, locale)),
            None => None,
        }
    }

    /// Renders the global key at `path` for a locale with named arguments.
    pub fn translate(&self, path: &str, locale: Locale, args: &[(&str, &str)]) -> (r: Option<String>)
        requires
            self.wf(),
        ensures
            string_opt(r) == rendered(spec_lookup(self.deep_view().global, path@, locale), args_view(args@)),
    {
        match self.lookup(path, locale) {
            Some(t) => Some(do_translate(t.as_str(), args)),
            None => None,
        }
    }

    /// The template of `path` as seen from command `command` of group `group`.
    pub fn lookup_in(&self, group: &str, command: &str, path: &str, locale: Locale) -> (r: Option<&String>)
        requires
            self.wf(),
        ensures
            match r {
                Some(t) => spec_lookup_in(self.deep_view(), group@, command@, path@, locale) == Some(t@),
                None => spec_lookup_in(self.deep_view(), group@, command@, path@, locale) is None,
            },
    {
        proof {
            reveal_strlit("global::");
        }
        assert("global::"@ =~= global_prefix());
        let p = chars_of(path);
        if p.len() >= 8 && range_equals(&p, 0, 8, "global::") {
            let mut rest: Vec<char> = Vec::new();
            extend_range(&mut rest, &p, 8, p.len());
            assert(rest@ =~= p@.subrange(8, p@.len() as int));
            lookup_entries(&self.global, &rest, locale)
        } else {
            match find_command_exec(&self.commands, group, command) {
                Some(m) => {
                    assert(meta_wf(self.deep_view().commands[m as int]));
                    lookup_entries(&self.commands[m].trans, &p, locale)
                },
                None => None,
            }
        }
    }

    /// Renders `path` as seen from a command, with named arguments.
    pub fn translate_in(&self, group: &str, command: &str, path: &str, locale: Locale, args: &[(&str, &str)]) -> (r: Option<String>)
        requires
            self.wf(),
        ensures
            string_opt(r) == rendered(spec_lookup_in(self.deep_view(), group@, command@, path@, locale), args_view(args@)),
    {
        match self.lookup_in(group, command, path, locale) {
            Some(t) => Some(do_translate(t.as_str(), args)),
            None => None,
        }
    }
}


// ---- Laws ----

/// The values authored for the `j`-th key of a translation.
pub open spec fn key_values(t: SpecTranslation, j: int) -> Seq<LV> {
    match t {
        SpecTranslation::Simple { values, .. } => values,
        SpecTranslation::Nested { entries, .. } => entries[j].values,
    }
}

/// The path of the `j`-th key of a translation.
pub open spec fn key_path(t: SpecTranslation, j: int) -> Seq<char> {
    match t {
        SpecTranslation::Simple { key, .. } => spec_pascal(key),
        SpecTranslation::Nested { namespace, entries } => joined_path(namespace, entries[j].key),
    }
}

/// Where the `j`-th key of the `i`-th translation of a scope stands among
/// the scope's compiled keys.
pub open spec fn key_position(ts: Seq<SpecTranslation>, i: int, j: int) -> int {
    scope_entries(ts.take(i)).len() + j
}

proof fn lemma_scope_entries_prefix(ts: Seq<SpecTranslation>, i: int)
    requires
        0 <= i <= ts.len(),
    ensures
        scope_entries(ts.take(i)).len() <= scope_entries(ts).len(),
        forall|k: int| 0 <= k < scope_entries(ts.take(i)).len() ==> #[trigger] scope_entries(ts.take(i))[k]
            == scope_entries(ts)[k],
    decreases ts.len() - i,
{
    if i == ts.len() {
        assert(ts.take(i) =~= ts);
    } else {
        lemma_scope_entries_step(ts, i);
        lemma_scope_entries_prefix(ts, i + 1);
        assert forall|k: int| 0 <= k < scope_entries(ts.take(i)).len() implies #[trigger] scope_entries(ts.take(i))[k]
            == scope_entries(ts)[k] by {
            assert(scope_entries(ts.take(i + 1))[k] == scope_entries(ts.take(i))[k]);
        }
    }
}

proof fn lemma_key_entry(ts: Seq<SpecTranslation>, i: int, j: int, l: Locale)
    requires
        0 <= i < ts.len(),
        0 <= j < translation_entries(ts[i]).len(),
    ensures
        0 <= key_position(ts, i, j) < scope_entries(ts).len(),
        scope_entries(ts)[key_position(ts, i, j)].path == key_path(ts[i], j),
        scope_entries(ts)[key_position(ts, i, j)].templates[l.spec_index() as int] == template_for(
            key_values(ts[i], j),
            l,
        ),
{
    lemma_scope_entries_step(ts, i);
    lemma_scope_entries_prefix(ts, i + 1);
    let n = key_position(ts, i, j);
    assert(scope_entries(ts.take(i + 1))[n] == translation_entries(ts[i])[j]);
    assert(Locale::spec_at(l.spec_index() as int) == l);
}

/// A key's authored value for a locale is its compiled template for that
/// locale, and rendering it with no arguments gives the authored text.
pub proof fn lemma_authored_value_renders(ts: Seq<SpecTranslation>, i: int, j: int, l: Locale)
    requires
        0 <= i < ts.len(),
        0 <= j < translation_entries(ts[i]).len(),
        value_for(key_values(ts[i], j), l) is Some,
    ensures
        0 <= key_position(ts, i, j) < scope_entries(ts).len(),
        scope_entries(ts)[key_position(ts, i, j)].path == key_path(ts[i], j),
        spec_render(scope_entries(ts)[key_position(ts, i, j)].templates[l.spec_index() as int], Seq::empty())
            == value_for(key_values(ts[i], j), l)->Some_0,
{
    lemma_key_entry(ts, i, j, l);
}

/// A key with no authored value for a locale compiles to the sentinel template.
pub proof fn lemma_missing_value_is_sentinel(ts: Seq<SpecTranslation>, i: int, j: int, l: Locale)
    requires
        0 <= i < ts.len(),
        0 <= j < translation_entries(ts[i]).len(),
        value_for(key_values(ts[i], j), l) is None,
    ensures
        0 <= key_position(ts, i, j) < scope_entries(ts).len(),
        scope_entries(ts)[key_position(ts, i, j)].path == key_path(ts[i], j),
        scope_entries(ts)[key_position(ts, i, j)].templates[l.spec_index() as int] == sentinel(),
{
    lemma_key_entry(ts, i, j, l);
}

proof fn lemma_find_path_reaches(es: Seq<SpecKeyEntry>, n: int, k: int)
    requires
        0 <= k <= n < es.len(),
        forall|m: int| 0 <= m < n ==> (#[trigger] es[m]).path != es[n].path,
    ensures
        find_path(es, es[n].path, k) == Some(n),
    decreases n - k,
{
    if k < n {
        lemma_find_path_reaches(es, n, k + 1);
    }
}

/// Looking a key up by its path finds that key's own template, unless an
/// earlier key has the same path; rendering through the path then equals
/// rendering the key's template directly.
pub proof fn lemma_path_lookup_is_direct(es: Seq<SpecKeyEntry>, n: int, l: Locale, args: Seq<(Seq<char>, Seq<char>)>)
    requires
        0 <= n < es.len(),
        forall|m: int| 0 <= m < n ==> (#[trigger] es[m]).path != es[n].path,
    ensures
        spec_lookup(es, es[n].path, l) == Some(es[n].templates[l.spec_index() as int]),
        rendered(spec_lookup(es, es[n].path, l), args) == Some(spec_render(es[n].templates[l.spec_index() as int], args)),
{
    lemma_find_path_reaches(es, n, 0);
}

} // verus!
