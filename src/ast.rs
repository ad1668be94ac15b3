//! The declarations of a translation specification, and their models.
use vstd::prelude::*;

verus! {

/// One authored value: a locale name and its text.
#[derive(Debug)]
pub struct LocaleValue {
    pub locale: String,
    pub value: String,
}

/// A key inside a namespace.
#[derive(Debug)]
pub struct NestedEntry {
    pub key: String,
    pub values: Vec<LocaleValue>,
}

/// A translation: a simple key with its values, or a namespace of keys.
#[derive(Debug)]
pub enum Translation {
    Simple { key: String, values: Vec<LocaleValue> },
    Nested { namespace: String, entries: Vec<NestedEntry> },
}

/// An argument of a command: its localized names and descriptions.
#[derive(Debug)]
pub struct CommandArg {
    pub name: String,
    pub arg_names: Vec<LocaleValue>,
    pub descriptions: Vec<LocaleValue>,
}

/// A command: localized names and help, arguments, and its own translations.
#[derive(Debug)]
pub struct Command {
    pub name: String,
    pub command_names: Vec<LocaleValue>,
    pub help_texts: Vec<LocaleValue>,
    pub args: Vec<CommandArg>,
    pub trans: Vec<Translation>,
}

/// A named group of commands.
#[derive(Debug)]
pub struct CommandGroup {
    pub name: String,
    pub commands: Vec<Command>,
}

/// A whole specification: declared locales, command groups, global translations.
#[derive(Debug)]
pub struct I18nInput {
    pub locales: Vec<String>,
    pub commands: Vec<CommandGroup>,
    pub global: Vec<Translation>,
}

pub struct SpecEntry {
    pub key: Seq<char>,
    pub values: Seq<(Seq<char>, Seq<char>)>,
}

pub enum SpecTranslation {
    Simple { key: Seq<char>, values: Seq<(Seq<char>, Seq<char>)> },
    Nested { namespace: Seq<char>, entries: Seq<SpecEntry> },
}

pub struct SpecArg {
    pub name: Seq<char>,
    pub arg_names: Seq<(Seq<char>, Seq<char>)>,
    pub descriptions: Seq<(Seq<char>, Seq<char>)>,
}

pub struct SpecCommand {
    pub name: Seq<char>,
    pub command_names: Seq<(Seq<char>, Seq<char>)>,
    pub help_texts: Seq<(Seq<char>, Seq<char>)>,
    pub args: Seq<SpecArg>,
    pub trans: Seq<SpecTranslation>,
}

pub struct SpecGroup {
    pub name: Seq<char>,
    pub commands: Seq<SpecCommand>,
}

pub struct SpecInput {
    pub locales: Seq<Seq<char>>,
    pub commands: Seq<SpecGroup>,
    pub global: Seq<SpecTranslation>,
}

impl DeepView for LocaleValue {
    type V = (Seq<char>, Seq<char>);

    open spec fn deep_view(&self) -> (Seq<char>, Seq<char>) {
        (self.locale@, self.value@)
    }
}

impl DeepView for NestedEntry {
    type V = SpecEntry;

    open spec fn deep_view(&self) -> SpecEntry {
        SpecEntry { key: self.key@, values: self.values.deep_view() }
    }
}

impl DeepView for Translation {
    type V = SpecTranslation;

    open spec fn deep_view(&self) -> SpecTranslation {
        match self {
            Translation::Simple { key, values } => SpecTranslation::Simple {
                key: key@,
                values: values.deep_view(),
            },
            Translation::Nested { namespace, entries } => SpecTranslation::Nested {
                namespace: namespace@,
                entries: entries.deep_view(),
            },
        }
    }
}

impl DeepView for CommandArg {
    type V = SpecArg;

    open spec fn deep_view(&self) -> SpecArg {
        SpecArg {
            name: self.name@,
            arg_names: self.arg_names.deep_view(),
            descriptions: self.descriptions.deep_view(),
        }
    }
}

impl DeepView for Command {
    type V = SpecCommand;

    open spec fn deep_view(&self) -> SpecCommand {
        SpecCommand {
            name: self.name@,
            command_names: self.command_names.deep_view(),
            help_texts: self.help_texts.deep_view(),
            args: self.args.deep_view(),
            trans: self.trans.deep_view(),
        }
    }
}

impl DeepView for CommandGroup {
    type V = SpecGroup;

    open spec fn deep_view(&self) -> SpecGroup {
        SpecGroup { name: self.name@, commands: self.commands.deep_view() }
    }
}

impl DeepView for I18nInput {
    type V = SpecInput;

    open spec fn deep_view(&self) -> SpecInput {
        SpecInput {
            locales: self.locales.deep_view(),
            commands: self.commands.deep_view(),
            global: self.global.deep_view(),
        }
    }
}

/// Pushing onto a vector pushes the element's model onto the vector's model.
pub fn push_deep<T: DeepView>(v: &mut Vec<T>, x: T)
    ensures
        final(v).deep_view() == old(v).deep_view().push(x.deep_view()),
{
    let ghost xv = x.deep_view();
    v.push(x);
    assert(v.deep_view() =~= old(v).deep_view().push(xv));
}

} // verus!
