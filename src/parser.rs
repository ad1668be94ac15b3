//! The grammar of the translation language over tokens, and its parser.
//!
//! ```text
//! Source      := "locales" ":" "[" Ident,* "]" "," Section,*
//! Section     := "commands" ":" "{" Group,* "}" | "global" ":" "{" Translation,* "}"
//! Group       := Ident "=>" "{" Command,* "}"
//! Command     := Ident "=>" "{" CommandField,* "}"
//! CommandField:= ("name" | "help") ":" LocaleMap | "args" ":" "{" Arg,* "}"
//!              | "trans" ":" "{" Translation,* "}"
//! Arg         := Ident "=>" "{" (("name" | "description") ":" LocaleMap),* "}"
//! Translation := Ident "=>" "{" (Value,* | Entry,*) "}"
//! Entry       := Ident "=>" LocaleMap
//! LocaleMap   := "{" Value,* "}"
//! Value       := Ident ":" Str
//! ```
//! `X,*` is a list of `X` separated by commas, with an optional trailing
//! comma. A translation body whose first token is an identifier followed by
//! `=>` is a namespace. Each section and each field appears at most once.
use vstd::prelude::*;
use crate::ast::{
    push_deep, Command, CommandArg, CommandGroup, I18nInput, LocaleValue, NestedEntry, SpecArg,
    SpecCommand, SpecEntry, SpecGroup, SpecInput, SpecTranslation, Translation,
};
use crate::lexer::{spec_lex, tokens_view, tokenize, ParseError, ParseErrorKind, SpecToken, Token, TokenKind};
use crate::text::string_is;

verus! {

pub type LV = (Seq<char>, Seq<char>);

pub open spec fn is_kind(ts: Seq<SpecToken>, p: int, k: TokenKind) -> bool {
    0 <= p < ts.len() && ts[p].kind == k
}

pub open spec fn perr(ts: Seq<SpecToken>, p: int, kind: ParseErrorKind) -> ParseError {
    ParseError { at: if 0 <= p < ts.len() { ts[p].start as usize } else { 0 }, kind }
}

pub open spec fn expected(ts: Seq<SpecToken>, p: int, k: TokenKind) -> ParseError {
    perr(ts, p, ParseErrorKind::Expected(k))
}

/// Whether an executable result is the one that the grammar gives.
pub open spec fn agrees<X: DeepView>(r: Result<(X, usize), ParseError>, s: Result<(X::V, int), ParseError>) -> bool {
    match r {
        Ok((x, q)) => s == Ok::<(X::V, int), ParseError>((x.deep_view(), q as int)),
        Err(e) => s == Err::<(X::V, int), ParseError>(e),
    }
}

// ---- Values ----

pub open spec fn sp_value(ts: Seq<SpecToken>, p: int) -> Result<(LV, int), ParseError> {
    if !is_kind(ts, p, TokenKind::Ident) {
        Err(expected(ts, p, TokenKind::Ident))
    } else if !is_kind(ts, p + 1, TokenKind::Colon) {
        Err(expected(ts, p + 1, TokenKind::Colon))
    } else if !is_kind(ts, p + 2, TokenKind::Str) {
        Err(expected(ts, p + 2, TokenKind::Str))
    } else {
        Ok(((ts[p].text, ts[p + 2].text), p + 3))
    }
}

pub open spec fn sp_values(ts: Seq<SpecToken>, p: int, acc: Seq<LV>, first: bool) -> Result<(Seq<LV>, int), ParseError>
    decreases ts.len() - p,
{
    if is_kind(ts, p, TokenKind::RBrace) {
        Ok((acc, p))
    } else if !first && !is_kind(ts, p, TokenKind::Comma) {
        Err(expected(ts, p, TokenKind::Comma))
    } else {
        let f = if first { p } else { p + 1 };
        if is_kind(ts, f, TokenKind::RBrace) {
            Ok((acc, f))
        } else {
            match sp_value(ts, f) {
                Err(e) => Err(e),
                Ok((x, q)) => if p < q <= ts.len() {
                    sp_values(ts, q, acc.push(x), false)
                } else {
                    Err(expected(ts, q, TokenKind::Comma))
                },
            }
        }
    }
}

pub open spec fn sp_locale_map(ts: Seq<SpecToken>, p: int) -> Result<(Seq<LV>, int), ParseError> {
    if !is_kind(ts, p, TokenKind::LBrace) {
        Err(expected(ts, p, TokenKind::LBrace))
    } else {
        match sp_values(ts, p + 1, Seq::empty(), true) {
            Err(e) => Err(e),
            Ok((v, q)) => Ok((v, q + 1)),
        }
    }
}

// ---- Translations ----

pub open spec fn sp_entry(ts: Seq<SpecToken>, p: int) -> Result<(SpecEntry, int), ParseError> {
    if !is_kind(ts, p, TokenKind::Ident) {
        Err(expected(ts, p, TokenKind::Ident))
    } else if !is_kind(ts, p + 1, TokenKind::FatArrow) {
        Err(expected(ts, p + 1, TokenKind::FatArrow))
    } else {
        match sp_locale_map(ts, p + 2) {
            Err(e) => Err(e),
            Ok((v, q)) => Ok((SpecEntry { key: ts[p].text, values: v }, q)),
        }
    }
}

pub open spec fn sp_entries(ts: Seq<SpecToken>, p: int, acc: Seq<SpecEntry>, first: bool) -> Result<(Seq<SpecEntry>, int), ParseError>
    decreases ts.len() - p,
{
    if is_kind(ts, p, TokenKind::RBrace) {
        Ok((acc, p))
    } else if !first && !is_kind(ts, p, TokenKind::Comma) {
        Err(expected(ts, p, TokenKind::Comma))
    } else {
        let f = if first { p } else { p + 1 };
        if is_kind(ts, f, TokenKind::RBrace) {
            Ok((acc, f))
        } else {
            match sp_entry(ts, f) {
                Err(e) => Err(e),
                Ok((x, q)) => if p < q <= ts.len() {
                    sp_entries(ts, q, acc.push(x), false)
                } else {
                    Err(expected(ts, q, TokenKind::Comma))
                },
            }
        }
    }
}

pub open spec fn sp_translation(ts: Seq<SpecToken>, p: int) -> Result<(SpecTranslation, int), ParseError> {
    if !is_kind(ts, p, TokenKind::Ident) {
        Err(expected(ts, p, TokenKind::Ident))
    } else if !is_kind(ts, p + 1, TokenKind::FatArrow) {
        Err(expected(ts, p + 1, TokenKind::FatArrow))
    } else if !is_kind(ts, p + 2, TokenKind::LBrace) {
        Err(expected(ts, p + 2, TokenKind::LBrace))
    } else if is_kind(ts, p + 3, TokenKind::Ident) && is_kind(ts, p + 4, TokenKind::FatArrow) {
        match sp_entries(ts, p + 3, Seq::empty(), true) {
            Err(e) => Err(e),
            Ok((es, q)) => Ok((SpecTranslation::Nested { namespace: ts[p].text, entries: es }, q + 1)),
        }
    } else {
        match sp_values(ts, p + 3, Seq::empty(), true) {
            Err(e) => Err(e),
            Ok((vs, q)) => Ok((SpecTranslation::Simple { key: ts[p].text, values: vs }, q + 1)),
        }
    }
}

pub open spec fn sp_translations(ts: Seq<SpecToken>, p: int, acc: Seq<SpecTranslation>, first: bool) -> Result<(Seq<SpecTranslation>, int), ParseError>
    decreases ts.len() - p,
{
    if is_kind(ts, p, TokenKind::RBrace) {
        Ok((acc, p))
    } else if !first && !is_kind(ts, p, TokenKind::Comma) {
        Err(expected(ts, p, TokenKind::Comma))
    } else {
        let f = if first { p } else { p + 1 };
        if is_kind(ts, f, TokenKind::RBrace) {
            Ok((acc, f))
        } else {
            match sp_translation(ts, f) {
                Err(e) => Err(e),
                Ok((x, q)) => if p < q <= ts.len() {
                    sp_translations(ts, q, acc.push(x), false)
                } else {
                    Err(expected(ts, q, TokenKind::Comma))
                },
            }
        }
    }
}

pub open spec fn sp_translation_block(ts: Seq<SpecToken>, p: int) -> Result<(Seq<SpecTranslation>, int), ParseError> {
    if !is_kind(ts, p, TokenKind::LBrace) {
        Err(expected(ts, p, TokenKind::LBrace))
    } else {
        match sp_translations(ts, p + 1, Seq::empty(), true) {
            Err(e) => Err(e),
            Ok((v, q)) => Ok((v, q + 1)),
        }
    }
}


// ---- Arguments ----

pub open spec fn sp_arg_fields(ts: Seq<SpecToken>, p: int, acc: SpecArg, seen_name: bool, seen_desc: bool, first: bool) -> Result<(SpecArg, int), ParseError>
    decreases ts.len() - p,
{
    if is_kind(ts, p, TokenKind::RBrace) {
        Ok((acc, p))
    } else if !first && !is_kind(ts, p, TokenKind::Comma) {
        Err(expected(ts, p, TokenKind::Comma))
    } else {
        let f = if first { p } else { p + 1 };
        if is_kind(ts, f, TokenKind::RBrace) {
            Ok((acc, f))
        } else if !is_kind(ts, f, TokenKind::Ident) {
            Err(expected(ts, f, TokenKind::Ident))
        } else if !is_kind(ts, f + 1, TokenKind::Colon) {
            Err(expected(ts, f + 1, TokenKind::Colon))
        } else if ts[f].text == "name"@ {
            if seen_name {
                Err(perr(ts, f, ParseErrorKind::DuplicateField))
            } else {
                match sp_locale_map(ts, f + 2) {
                    Err(e) => Err(e),
                    Ok((v, q)) => if p < q <= ts.len() {
                        sp_arg_fields(ts, q, SpecArg { arg_names: v, ..acc }, true, seen_desc, false)
                    } else {
                        Err(expected(ts, q, TokenKind::Comma))
                    },
                }
            }
        } else if ts[f].text == "description"@ {
            if seen_desc {
                Err(perr(ts, f, ParseErrorKind::DuplicateField))
            } else {
                match sp_locale_map(ts, f + 2) {
                    Err(e) => Err(e),
                    Ok((v, q)) => if p < q <= ts.len() {
                        sp_arg_fields(ts, q, SpecArg { descriptions: v, ..acc }, seen_name, true, false)
                    } else {
                        Err(expected(ts, q, TokenKind::Comma))
                    },
                }
            }
        } else {
            Err(perr(ts, f, ParseErrorKind::UnknownField))
        }
    }
}

pub open spec fn empty_arg(name: Seq<char>) -> SpecArg {
    SpecArg { name, arg_names: Seq::empty(), descriptions: Seq::empty() }
}

pub open spec fn sp_arg(ts: Seq<SpecToken>, p: int) -> Result<(SpecArg, int), ParseError> {
    if !is_kind(ts, p, TokenKind::Ident) {
        Err(expected(ts, p, TokenKind::Ident))
    } else if !is_kind(ts, p + 1, TokenKind::FatArrow) {
        Err(expected(ts, p + 1, TokenKind::FatArrow))
    } else if !is_kind(ts, p + 2, TokenKind::LBrace) {
        Err(expected(ts, p + 2, TokenKind::LBrace))
    } else {
        match sp_arg_fields(ts, p + 3, empty_arg(ts[p].text), false, false, true) {
            Err(e) => Err(e),
            Ok((a, q)) => Ok((a, q + 1)),
        }
    }
}

pub open spec fn sp_args(ts: Seq<SpecToken>, p: int, acc: Seq<SpecArg>, first: bool) -> Result<(Seq<SpecArg>, int), ParseError>
    decreases ts.len() - p,
{
    if is_kind(ts, p, TokenKind::RBrace) {
        Ok((acc, p))
    } else if !first && !is_kind(ts, p, TokenKind::Comma) {
        Err(expected(ts, p, TokenKind::Comma))
    } else {
        let f = if first { p } else { p + 1 };
        if is_kind(ts, f, TokenKind::RBrace) {
            Ok((acc, f))
        } else {
            match sp_arg(ts, f) {
                Err(e) => Err(e),
                Ok((x, q)) => if p < q <= ts.len() {
                    sp_args(ts, q, acc.push(x), false)
                } else {
                    Err(expected(ts, q, TokenKind::Comma))
                },
            }
        }
    }
}

pub open spec fn sp_arg_block(ts: Seq<SpecToken>, p: int) -> Result<(Seq<SpecArg>, int), ParseError> {
    if !is_kind(ts, p, TokenKind::LBrace) {
        Err(expected(ts, p, TokenKind::LBrace))
    } else {
        match sp_args(ts, p + 1, Seq::empty(), true) {
            Err(e) => Err(e),
            Ok((v, q)) => Ok((v, q + 1)),
        }
    }
}

// ---- Commands ----

/// Which fields of a command were seen: name, help, args, trans.
pub struct Seen {
    pub name: bool,
    pub help: bool,
    pub args: bool,
    pub trans: bool,
}

pub open spec fn sp_command_fields(ts: Seq<SpecToken>, p: int, acc: SpecCommand, seen: Seen, first: bool) -> Result<(SpecCommand, int), ParseError>
    decreases ts.len() - p,
{
    if is_kind(ts, p, TokenKind::RBrace) {
        Ok((acc, p))
    } else if !first && !is_kind(ts, p, TokenKind::Comma) {
        Err(expected(ts, p, TokenKind::Comma))
    } else {
        let f = if first { p } else { p + 1 };
        if is_kind(ts, f, TokenKind::RBrace) {
            Ok((acc, f))
        } else if !is_kind(ts, f, TokenKind::Ident) {
            Err(expected(ts, f, TokenKind::Ident))
        } else if !is_kind(ts, f + 1, TokenKind::Colon) {
            Err(expected(ts, f + 1, TokenKind::Colon))
        } else if ts[f].text == "name"@ {
            if seen.name {
                Err(perr(ts, f, ParseErrorKind::DuplicateField))
            } else {
                match sp_locale_map(ts, f + 2) {
                    Err(e) => Err(e),
                    Ok((v, q)) => if p < q <= ts.len() {
                        sp_command_fields(ts, q, SpecCommand { command_names: v, ..acc }, Seen { name: true, ..seen }, false)
                    } else {
                        Err(expected(ts, q, TokenKind::Comma))
                    },
                }
            }
        } else if ts[f].text == "help"@ {
            if seen.help {
                Err(perr(ts, f, ParseErrorKind::DuplicateField))
            } else {
                match sp_locale_map(ts, f + 2) {
                    Err(e) => Err(e),
                    Ok((v, q)) => if p < q <= ts.len() {
                        sp_command_fields(ts, q, SpecCommand { help_texts: v, ..acc }, Seen { help: true, ..seen }, false)
                    } else {
                        Err(expected(ts, q, TokenKind::Comma))
                    },
                }
            }
        } else if ts[f].text == "args"@ {
            if seen.args {
                Err(perr(ts, f, ParseErrorKind::DuplicateField))
            } else {
                match sp_arg_block(ts, f + 2) {
                    Err(e) => Err(e),
                    Ok((v, q)) => if p < q <= ts.len() {
                        sp_command_fields(ts, q, SpecCommand { args: v, ..acc }, Seen { args: true, ..seen }, false)
                    } else {
                        Err(expected(ts, q, TokenKind::Comma))
                    },
                }
            }
        } else if ts[f].text == "trans"@ {
            if seen.trans {
                Err(perr(ts, f, ParseErrorKind::DuplicateField))
            } else {
                match sp_translation_block(ts, f + 2) {
                    Err(e) => Err(e),
                    Ok((v, q)) => if p < q <= ts.len() {
                        sp_command_fields(ts, q, SpecCommand { trans: v, ..acc }, Seen { trans: true, ..seen }, false)
                    } else {
                        Err(expected(ts, q, TokenKind::Comma))
                    },
                }
            }
        } else {
            Err(perr(ts, f, ParseErrorKind::UnknownField))
        }
    }
}

pub open spec fn empty_command(name: Seq<char>) -> SpecCommand {
    SpecCommand {
        name,
        command_names: Seq::empty(),
        help_texts: Seq::empty(),
        args: Seq::empty(),
        trans: Seq::empty(),
    }
}

pub open spec fn no_fields_seen() -> Seen {
    Seen { name: false, help: false, args: false, trans: false }
}

pub open spec fn sp_command(ts: Seq<SpecToken>, p: int) -> Result<(SpecCommand, int), ParseError> {
    if !is_kind(ts, p, TokenKind::Ident) {
        Err(expected(ts, p, TokenKind::Ident))
    } else if !is_kind(ts, p + 1, TokenKind::FatArrow) {
        Err(expected(ts, p + 1, TokenKind::FatArrow))
    } else if !is_kind(ts, p + 2, TokenKind::LBrace) {
        Err(expected(ts, p + 2, TokenKind::LBrace))
    } else {
        match sp_command_fields(ts, p + 3, empty_command(ts[p].text), no_fields_seen(), true) {
            Err(e) => Err(e),
            Ok((c, q)) => Ok((c, q + 1)),
        }
    }
}

pub open spec fn sp_commands(ts: Seq<SpecToken>, p: int, acc: Seq<SpecCommand>, first: bool) -> Result<(Seq<SpecCommand>, int), ParseError>
    decreases ts.len() - p,
{
    if is_kind(ts, p, TokenKind::RBrace) {
        Ok((acc, p))
    } else if !first && !is_kind(ts, p, TokenKind::Comma) {
        Err(expected(ts, p, TokenKind::Comma))
    } else {
        let f = if first { p } else { p + 1 };
        if is_kind(ts, f, TokenKind::RBrace) {
            Ok((acc, f))
        } else {
            match sp_command(ts, f) {
                Err(e) => Err(e),
                Ok((x, q)) => if p < q <= ts.len() {
                    sp_commands(ts, q, acc.push(x), false)
                } else {
                    Err(expected(ts, q, TokenKind::Comma))
                },
            }
        }
    }
}

pub open spec fn sp_group(ts: Seq<SpecToken>, p: int) -> Result<(SpecGroup, int), ParseError> {
    if !is_kind(ts, p, TokenKind::Ident) {
        Err(expected(ts, p, TokenKind::Ident))
    } else if !is_kind(ts, p + 1, TokenKind::FatArrow) {
        Err(expected(ts, p + 1, TokenKind::FatArrow))
    } else if !is_kind(ts, p + 2, TokenKind::LBrace) {
        Err(expected(ts, p + 2, TokenKind::LBrace))
    } else {
        match sp_commands(ts, p + 3, Seq::empty(), true) {
            Err(e) => Err(e),
            Ok((cs, q)) => Ok((SpecGroup { name: ts[p].text, commands: cs }, q + 1)),
        }
    }
}

pub open spec fn sp_groups(ts: Seq<SpecToken>, p: int, acc: Seq<SpecGroup>, first: bool) -> Result<(Seq<SpecGroup>, int), ParseError>
    decreases ts.len() - p,
{
    if is_kind(ts, p, TokenKind::RBrace) {
        Ok((acc, p))
    } else if !first && !is_kind(ts, p, TokenKind::Comma) {
        Err(expected(ts, p, TokenKind::Comma))
    } else {
        let f = if first { p } else { p + 1 };
        if is_kind(ts, f, TokenKind::RBrace) {
            Ok((acc, f))
        } else {
            match sp_group(ts, f) {
                Err(e) => Err(e),
                Ok((x, q)) => if p < q <= ts.len() {
                    sp_groups(ts, q, acc.push(x), false)
                } else {
                    Err(expected(ts, q, TokenKind::Comma))
                },
            }
        }
    }
}

pub open spec fn sp_group_block(ts: Seq<SpecToken>, p: int) -> Result<(Seq<SpecGroup>, int), ParseError> {
    if !is_kind(ts, p, TokenKind::LBrace) {
        Err(expected(ts, p, TokenKind::LBrace))
    } else {
        match sp_groups(ts, p + 1, Seq::empty(), true) {
            Err(e) => Err(e),
            Ok((v, q)) => Ok((v, q + 1)),
        }
    }
}

// ---- Whole specification ----

pub open spec fn sp_idents(ts: Seq<SpecToken>, p: int, acc: Seq<Seq<char>>, first: bool) -> Result<(Seq<Seq<char>>, int), ParseError>
    decreases ts.len() - p,
{
    if is_kind(ts, p, TokenKind::RBracket) {
        Ok((acc, p))
    } else if !first && !is_kind(ts, p, TokenKind::Comma) {
        Err(expected(ts, p, TokenKind::Comma))
    } else {
        let f = if first { p } else { p + 1 };
        if is_kind(ts, f, TokenKind::RBracket) {
            Ok((acc, f))
        } else if !is_kind(ts, f, TokenKind::Ident) {
            Err(expected(ts, f, TokenKind::Ident))
        } else {
            sp_idents(ts, f + 1, acc.push(ts[f].text), false)
        }
    }
}

pub open spec fn sp_sections(ts: Seq<SpecToken>, p: int, acc: SpecInput, seen_commands: bool, seen_global: bool, first: bool) -> Result<(SpecInput, int), ParseError>
    decreases ts.len() - p,
{
    if is_kind(ts, p, TokenKind::End) {
        Ok((acc, p))
    } else if !first && !is_kind(ts, p, TokenKind::Comma) {
        Err(expected(ts, p, TokenKind::Comma))
    } else {
        let f = if first { p } else { p + 1 };
        if is_kind(ts, f, TokenKind::End) {
            Ok((acc, f))
        } else if !is_kind(ts, f, TokenKind::Ident) {
            Err(expected(ts, f, TokenKind::Ident))
        } else if !is_kind(ts, f + 1, TokenKind::Colon) {
            Err(expected(ts, f + 1, TokenKind::Colon))
        } else if ts[f].text == "commands"@ {
            if seen_commands {
                Err(perr(ts, f, ParseErrorKind::DuplicateSection))
            } else {
                match sp_group_block(ts, f + 2) {
                    Err(e) => Err(e),
                    Ok((v, q)) => if p < q <= ts.len() {
                        sp_sections(ts, q, SpecInput { commands: v, ..acc }, true, seen_global, false)
                    } else {
                        Err(expected(ts, q, TokenKind::Comma))
                    },
                }
            }
        } else if ts[f].text == "global"@ {
            if seen_global {
                Err(perr(ts, f, ParseErrorKind::DuplicateSection))
            } else {
                match sp_translation_block(ts, f + 2) {
                    Err(e) => Err(e),
                    Ok((v, q)) => if p < q <= ts.len() {
                        sp_sections(ts, q, SpecInput { global: v, ..acc }, seen_commands, true, false)
                    } else {
                        Err(expected(ts, q, TokenKind::Comma))
                    },
                }
            }
        } else {
            Err(perr(ts, f, ParseErrorKind::UnknownSection))
        }
    }
}

/// The specification that a token sequence spells.
pub open spec fn sp_input(ts: Seq<SpecToken>) -> Result<SpecInput, ParseError> {
    if !(is_kind(ts, 0, TokenKind::Ident) && ts[0].text == "locales"@) {
        Err(perr(ts, 0, ParseErrorKind::ExpectedLocales))
    } else if !is_kind(ts, 1, TokenKind::Colon) {
        Err(expected(ts, 1, TokenKind::Colon))
    } else if !is_kind(ts, 2, TokenKind::LBracket) {
        Err(expected(ts, 2, TokenKind::LBracket))
    } else {
        match sp_idents(ts, 3, Seq::empty(), true) {
            Err(e) => Err(e),
            Ok((ls, q)) => if !is_kind(ts, q + 1, TokenKind::Comma) {
                Err(expected(ts, q + 1, TokenKind::Comma))
            } else {
                let start = SpecInput { locales: ls, commands: Seq::empty(), global: Seq::empty() };
                match sp_sections(ts, q + 2, start, false, false, true) {
                    Err(e) => Err(e),
                    Ok((input, _)) => Ok(input),
                }
            },
        }
    }
}

/// The specification that a source text spells, or why it spells none.
pub open spec fn spec_parse(s: Seq<char>) -> Result<SpecInput, ParseError> {
    match spec_lex(s) {
        Ok(ts) => sp_input(ts),
        Err(e) => Err(e),
    }
}

// ---- Executable parser: helpers ----

pub open spec fn tv(ts: &Vec<Token>) -> Seq<SpecToken> {
    tokens_view(ts@)
}

fn kind_is(ts: &Vec<Token>, p: usize, k: TokenKind) -> (r: bool)
    ensures
        r == is_kind(tv(ts), p as int, k),
        r ==> p < ts.len(),
{
    p < ts.len() && ts[p].kind == k
}

fn err_at(ts: &Vec<Token>, p: usize, kind: ParseErrorKind) -> (r: ParseError)
    ensures
        r == perr(tv(ts), p as int, kind),
{
    ParseError { at: if p < ts.len() { ts[p].start } else { 0 }, kind }
}

// ---- Executable parser: values ----

fn parse_value(ts: &Vec<Token>, p: usize) -> (r: Result<(LocaleValue, usize), ParseError>)
    ensures
        agrees(r, sp_value(tv(ts), p as int)),
{
    if !kind_is(ts, p, TokenKind::Ident) {
        return Err(err_at(ts, p, ParseErrorKind::Expected(TokenKind::Ident)));
    }
    if !kind_is(ts, p + 1, TokenKind::Colon) {
        return Err(err_at(ts, p + 1, ParseErrorKind::Expected(TokenKind::Colon)));
    }
    if !kind_is(ts, p + 2, TokenKind::Str) {
        return Err(err_at(ts, p + 2, ParseErrorKind::Expected(TokenKind::Str)));
    }
    Ok((LocaleValue { locale: ts[p].text.clone(), value: ts[p + 2].text.clone() }, p + 3))
}

fn parse_locale_values(ts: &Vec<Token>, p0: usize) -> (r: Result<(Vec<LocaleValue>, usize), ParseError>)
    ensures
        agrees(r, sp_values(tv(ts), p0 as int, Seq::empty(), true)),
        r matches Ok((_, q)) ==> q < ts.len(),
{
    let mut acc: Vec<LocaleValue> = Vec::new();
    let mut p = p0;
    let mut first = true;
    assert(acc.deep_view() =~= Seq::<LV>::empty());
    loop
        invariant
            p <= ts.len() || first,
            sp_values(tv(ts), p0 as int, Seq::empty(), true) == sp_values(tv(ts), p as int, acc.deep_view(), first),
        decreases if first { ts.len() + 1 } else { ts.len() - p },
    {
        if kind_is(ts, p, TokenKind::RBrace) {
            return Ok((acc, p));
        }
        let f = if first {
            p
        } else {
            if !kind_is(ts, p, TokenKind::Comma) {
                return Err(err_at(ts, p, ParseErrorKind::Expected(TokenKind::Comma)));
            }
            p + 1
        };
        if kind_is(ts, f, TokenKind::RBrace) {
            return Ok((acc, f));
        }
        match parse_value(ts, f) {
            Err(e) => {
                return Err(e);
            },
            Ok((x, q)) => {
                if !(p < q && q <= ts.len()) {
                    return Err(err_at(ts, q, ParseErrorKind::Expected(TokenKind::Comma)));
                }
                push_deep(&mut acc, x);
                p = q;
                first = false;
            },
        }
    }
}

fn parse_locale_map(ts: &Vec<Token>, p: usize) -> (r: Result<(Vec<LocaleValue>, usize), ParseError>)
    ensures
        agrees(r, sp_locale_map(tv(ts), p as int)),
        r matches Ok((_, q)) ==> q <= ts.len(),
{
    if !kind_is(ts, p, TokenKind::LBrace) {
        return Err(err_at(ts, p, ParseErrorKind::Expected(TokenKind::LBrace)));
    }
    let (v, q) = parse_locale_values(ts, p + 1)?;
    Ok((v, q + 1))
}


// ---- Executable parser: translations ----

fn parse_entry(ts: &Vec<Token>, p: usize) -> (r: Result<(NestedEntry, usize), ParseError>)
    ensures
        agrees(r, sp_entry(tv(ts), p as int)),
        r matches Ok((_, q)) ==> q <= ts.len(),
{
    if !kind_is(ts, p, TokenKind::Ident) {
        return Err(err_at(ts, p, ParseErrorKind::Expected(TokenKind::Ident)));
    }
    if !kind_is(ts, p + 1, TokenKind::FatArrow) {
        return Err(err_at(ts, p + 1, ParseErrorKind::Expected(TokenKind::FatArrow)));
    }
    let (values, q) = parse_locale_map(ts, p + 2)?;
    Ok((NestedEntry { key: ts[p].text.clone(), values }, q))
}

fn parse_entries(ts: &Vec<Token>, p0: usize) -> (r: Result<(Vec<NestedEntry>, usize), ParseError>)
    ensures
        agrees(r, sp_entries(tv(ts), p0 as int, Seq::empty(), true)),
        r matches Ok((_, q)) ==> q < ts.len(),
{
    let mut acc: Vec<NestedEntry> = Vec::new();
    let mut p = p0;
    let mut first = true;
    assert(acc.deep_view() =~= Seq::<SpecEntry>::empty());
    loop
        invariant
            p <= ts.len() || first,
            sp_entries(tv(ts), p0 as int, Seq::empty(), true) == sp_entries(tv(ts), p as int, acc.deep_view(), first),
        decreases if first { ts.len() + 1 } else { ts.len() - p },
    {
        if kind_is(ts, p, TokenKind::RBrace) {
            return Ok((acc, p));
        }
        let f = if first {
            p
        } else {
            if !kind_is(ts, p, TokenKind::Comma) {
                return Err(err_at(ts, p, ParseErrorKind::Expected(TokenKind::Comma)));
            }
            p + 1
        };
        if kind_is(ts, f, TokenKind::RBrace) {
            return Ok((acc, f));
        }
        match parse_entry(ts, f) {
            Err(e) => {
                return Err(e);
            },
            Ok((x, q)) => {
                if !(p < q && q <= ts.len()) {
                    return Err(err_at(ts, q, ParseErrorKind::Expected(TokenKind::Comma)));
                }
                push_deep(&mut acc, x);
                p = q;
                first = false;
            },
        }
    }
}

fn parse_translation(ts: &Vec<Token>, p: usize) -> (r: Result<(Translation, usize), ParseError>)
    ensures
        agrees(r, sp_translation(tv(ts), p as int)),
        r matches Ok((_, q)) ==> q <= ts.len(),
{
    if !kind_is(ts, p, TokenKind::Ident) {
        return Err(err_at(ts, p, ParseErrorKind::Expected(TokenKind::Ident)));
    }
    if !kind_is(ts, p + 1, TokenKind::FatArrow) {
        return Err(err_at(ts, p + 1, ParseErrorKind::Expected(TokenKind::FatArrow)));
    }
    if !kind_is(ts, p + 2, TokenKind::LBrace) {
        return Err(err_at(ts, p + 2, ParseErrorKind::Expected(TokenKind::LBrace)));
    }
    let key = ts[p].text.clone();
    if kind_is(ts, p + 3, TokenKind::Ident) && kind_is(ts, p + 4, TokenKind::FatArrow) {
        let (entries, q) = parse_entries(ts, p + 3)?;
        Ok((Translation::Nested { namespace: key, entries }, q + 1))
    } else {
        let (values, q) = parse_locale_values(ts, p + 3)?;
        Ok((Translation::Simple { key, values }, q + 1))
    }
}

fn parse_translations(ts: &Vec<Token>, p0: usize) -> (r: Result<(Vec<Translation>, usize), ParseError>)
    ensures
        agrees(r, sp_translations(tv(ts), p0 as int, Seq::empty(), true)),
        r matches Ok((_, q)) ==> q < ts.len(),
{
    let mut acc: Vec<Translation> = Vec::new();
    let mut p = p0;
    let mut first = true;
    assert(acc.deep_view() =~= Seq::<SpecTranslation>::empty());
    loop
        invariant
            p <= ts.len() || first,
            sp_translations(tv(ts), p0 as int, Seq::empty(), true) == sp_translations(tv(ts), p as int, acc.deep_view(), first),
        decreases if first { ts.len() + 1 } else { ts.len() - p },
    {
        if kind_is(ts, p, TokenKind::RBrace) {
            return Ok((acc, p));
        }
        let f = if first {
            p
        } else {
            if !kind_is(ts, p, TokenKind::Comma) {
                return Err(err_at(ts, p, ParseErrorKind::Expected(TokenKind::Comma)));
            }
            p + 1
        };
        if kind_is(ts, f, TokenKind::RBrace) {
            return Ok((acc, f));
        }
        match parse_translation(ts, f) {
            Err(e) => {
                return Err(e);
            },
            Ok((x, q)) => {
                if !(p < q && q <= ts.len()) {
                    return Err(err_at(ts, q, ParseErrorKind::Expected(TokenKind::Comma)));
                }
                push_deep(&mut acc, x);
                p = q;
                first = false;
            },
        }
    }
}

fn parse_translation_block(ts: &Vec<Token>, p: usize) -> (r: Result<(Vec<Translation>, usize), ParseError>)
    ensures
        agrees(r, sp_translation_block(tv(ts), p as int)),
        r matches Ok((_, q)) ==> q <= ts.len(),
{
    if !kind_is(ts, p, TokenKind::LBrace) {
        return Err(err_at(ts, p, ParseErrorKind::Expected(TokenKind::LBrace)));
    }
    let (v, q) = parse_translations(ts, p + 1)?;
    Ok((v, q + 1))
}


// ---- Executable parser: arguments ----

fn parse_arg(ts: &Vec<Token>, start: usize) -> (r: Result<(CommandArg, usize), ParseError>)
    ensures
        agrees(r, sp_arg(tv(ts), start as int)),
        r matches Ok((_, q)) ==> q <= ts.len(),
{
    if !kind_is(ts, start, TokenKind::Ident) {
        return Err(err_at(ts, start, ParseErrorKind::Expected(TokenKind::Ident)));
    }
    if !kind_is(ts, start + 1, TokenKind::FatArrow) {
        return Err(err_at(ts, start + 1, ParseErrorKind::Expected(TokenKind::FatArrow)));
    }
    if !kind_is(ts, start + 2, TokenKind::LBrace) {
        return Err(err_at(ts, start + 2, ParseErrorKind::Expected(TokenKind::LBrace)));
    }
    let mut acc = CommandArg { name: ts[start].text.clone(), arg_names: Vec::new(), descriptions: Vec::new() };
    let mut seen_name = false;
    let mut seen_desc = false;
    let p0: usize = start + 3;
    let mut p: usize = p0;
    let mut first = true;
    assert(acc.arg_names.deep_view() =~= Seq::<LV>::empty());
    assert(acc.descriptions.deep_view() =~= Seq::<LV>::empty());
    assert(acc.deep_view() == empty_arg(tv(ts)[p0 - 3].text));
    loop
        invariant
            p <= ts.len() || first,
            p0 <= ts.len(),
            p0 == start + 3,
            sp_arg(tv(ts), p0 - 3) == match sp_arg_fields(tv(ts), p as int, acc.deep_view(), seen_name, seen_desc, first) {
                Err(e) => Err(e),
                Ok((a, q)) => Ok((a, q + 1)),
            },
        decreases if first { ts.len() + 1 } else { ts.len() - p },
    {
        if kind_is(ts, p, TokenKind::RBrace) {
            return Ok((acc, p + 1));
        }
        let f = if first {
            p
        } else {
            if !kind_is(ts, p, TokenKind::Comma) {
                return Err(err_at(ts, p, ParseErrorKind::Expected(TokenKind::Comma)));
            }
            p + 1
        };
        if kind_is(ts, f, TokenKind::RBrace) {
            return Ok((acc, f + 1));
        }
        if !kind_is(ts, f, TokenKind::Ident) {
            return Err(err_at(ts, f, ParseErrorKind::Expected(TokenKind::Ident)));
        }
        if !kind_is(ts, f + 1, TokenKind::Colon) {
            return Err(err_at(ts, f + 1, ParseErrorKind::Expected(TokenKind::Colon)));
        } else if string_is(&ts[f].text, "name") {
            if seen_name {
                return Err(err_at(ts, f, ParseErrorKind::DuplicateField));
            }
            let (v, q) = parse_locale_map(ts, f + 2)?;
            if !(p < q && q <= ts.len()) {
                return Err(err_at(ts, q, ParseErrorKind::Expected(TokenKind::Comma)));
            }
            acc.arg_names = v;
            seen_name = true;
            p = q;
        } else if string_is(&ts[f].text, "description") {
            if seen_desc {
                return Err(err_at(ts, f, ParseErrorKind::DuplicateField));
            }
            let (v, q) = parse_locale_map(ts, f + 2)?;
            if !(p < q && q <= ts.len()) {
                return Err(err_at(ts, q, ParseErrorKind::Expected(TokenKind::Comma)));
            }
            acc.descriptions = v;
            seen_desc = true;
            p = q;
        } else {
            return Err(err_at(ts, f, ParseErrorKind::UnknownField));
        }
        first = false;
    }
}

fn parse_args(ts: &Vec<Token>, p0: usize) -> (r: Result<(Vec<CommandArg>, usize), ParseError>)
    ensures
        agrees(r, sp_args(tv(ts), p0 as int, Seq::empty(), true)),
        r matches Ok((_, q)) ==> q < ts.len(),
{
    let mut acc: Vec<CommandArg> = Vec::new();
    let mut p = p0;
    let mut first = true;
    assert(acc.deep_view() =~= Seq::<SpecArg>::empty());
    loop
        invariant
            p <= ts.len() || first,
            sp_args(tv(ts), p0 as int, Seq::empty(), true) == sp_args(tv(ts), p as int, acc.deep_view(), first),
        decreases if first { ts.len() + 1 } else { ts.len() - p },
    {
        if kind_is(ts, p, TokenKind::RBrace) {
            return Ok((acc, p));
        }
        let f = if first {
            p
        } else {
            if !kind_is(ts, p, TokenKind::Comma) {
                return Err(err_at(ts, p, ParseErrorKind::Expected(TokenKind::Comma)));
            }
            p + 1
        };
        if kind_is(ts, f, TokenKind::RBrace) {
            return Ok((acc, f));
        }
        match parse_arg(ts, f) {
            Err(e) => {
                return Err(e);
            },
            Ok((x, q)) => {
                if !(p < q && q <= ts.len()) {
                    return Err(err_at(ts, q, ParseErrorKind::Expected(TokenKind::Comma)));
                }
                push_deep(&mut acc, x);
                p = q;
                first = false;
            },
        }
    }
}

fn parse_arg_block(ts: &Vec<Token>, p: usize) -> (r: Result<(Vec<CommandArg>, usize), ParseError>)
    ensures
        agrees(r, sp_arg_block(tv(ts), p as int)),
        r matches Ok((_, q)) ==> q <= ts.len(),
{
    if !kind_is(ts, p, TokenKind::LBrace) {
        return Err(err_at(ts, p, ParseErrorKind::Expected(TokenKind::LBrace)));
    }
    let (v, q) = parse_args(ts, p + 1)?;
    Ok((v, q + 1))
}

// ---- Executable parser: commands ----

fn parse_command(ts: &Vec<Token>, start: usize) -> (r: Result<(Command, usize), ParseError>)
    ensures
        agrees(r, sp_command(tv(ts), start as int)),
        r matches Ok((_, q)) ==> q <= ts.len(),
{
    if !kind_is(ts, start, TokenKind::Ident) {
        return Err(err_at(ts, start, ParseErrorKind::Expected(TokenKind::Ident)));
    }
    if !kind_is(ts, start + 1, TokenKind::FatArrow) {
        return Err(err_at(ts, start + 1, ParseErrorKind::Expected(TokenKind::FatArrow)));
    }
    if !kind_is(ts, start + 2, TokenKind::LBrace) {
        return Err(err_at(ts, start + 2, ParseErrorKind::Expected(TokenKind::LBrace)));
    }
    let mut acc = Command {
        name: ts[start].text.clone(),
        command_names: Vec::new(),
        help_texts: Vec::new(),
        args: Vec::new(),
        trans: Vec::new(),
    };
    let mut seen_name = false;
    let mut seen_help = false;
    let mut seen_args = false;
    let mut seen_trans = false;
    let p0: usize = start + 3;
    let mut p: usize = p0;
    let mut first = true;
    assert(acc.command_names.deep_view() =~= Seq::<LV>::empty());
    assert(acc.help_texts.deep_view() =~= Seq::<LV>::empty());
    assert(acc.args.deep_view() =~= Seq::<SpecArg>::empty());
    assert(acc.trans.deep_view() =~= Seq::<SpecTranslation>::empty());
    assert(acc.deep_view() == empty_command(tv(ts)[p0 - 3].text));
    loop
        invariant
            p <= ts.len() || first,
            p0 <= ts.len(),
            p0 == start + 3,
            sp_command(tv(ts), p0 - 3) == match sp_command_fields(
                tv(ts),
                p as int,
                acc.deep_view(),
                Seen { name: seen_name, help: seen_help, args: seen_args, trans: seen_trans },
                first,
            ) {
                Err(e) => Err(e),
                Ok((c, q)) => Ok((c, q + 1)),
            },
        decreases if first { ts.len() + 1 } else { ts.len() - p },
    {
        if kind_is(ts, p, TokenKind::RBrace) {
            return Ok((acc, p + 1));
        }
        let f = if first {
            p
        } else {
            if !kind_is(ts, p, TokenKind::Comma) {
                return Err(err_at(ts, p, ParseErrorKind::Expected(TokenKind::Comma)));
            }
            p + 1
        };
        if kind_is(ts, f, TokenKind::RBrace) {
            return Ok((acc, f + 1));
        }
        if !kind_is(ts, f, TokenKind::Ident) {
            return Err(err_at(ts, f, ParseErrorKind::Expected(TokenKind::Ident)));
        }
        if !kind_is(ts, f + 1, TokenKind::Colon) {
            return Err(err_at(ts, f + 1, ParseErrorKind::Expected(TokenKind::Colon)));
        } else if string_is(&ts[f].text, "name") {
            if seen_name {
                return Err(err_at(ts, f, ParseErrorKind::DuplicateField));
            }
            let (v, q) = parse_locale_map(ts, f + 2)?;
            if !(p < q && q <= ts.len()) {
                return Err(err_at(ts, q, ParseErrorKind::Expected(TokenKind::Comma)));
            }
            acc.command_names = v;
            seen_name = true;
            p = q;
        } else if string_is(&ts[f].text, "help") {
            if seen_help {
                return Err(err_at(ts, f, ParseErrorKind::DuplicateField));
            }
            let (v, q) = parse_locale_map(ts, f + 2)?;
            if !(p < q && q <= ts.len()) {
                return Err(err_at(ts, q, ParseErrorKind::Expected(TokenKind::Comma)));
            }
            acc.help_texts = v;
            seen_help = true;
            p = q;
        } else if string_is(&ts[f].text, "args") {
            if seen_args {
                return Err(err_at(ts, f, ParseErrorKind::DuplicateField));
            }
            let (v, q) = parse_arg_block(ts, f + 2)?;
            if !(p < q && q <= ts.len()) {
                return Err(err_at(ts, q, ParseErrorKind::Expected(TokenKind::Comma)));
            }
            acc.args = v;
            seen_args = true;
            p = q;
        } else if string_is(&ts[f].text, "trans") {
            if seen_trans {
                return Err(err_at(ts, f, ParseErrorKind::DuplicateField));
            }
            let (v, q) = parse_translation_block(ts, f + 2)?;
            if !(p < q && q <= ts.len()) {
                return Err(err_at(ts, q, ParseErrorKind::Expected(TokenKind::Comma)));
            }
            acc.trans = v;
            seen_trans = true;
            p = q;
        } else {
            return Err(err_at(ts, f, ParseErrorKind::UnknownField));
        }
        first = false;
    }
}

fn parse_commands(ts: &Vec<Token>, p0: usize) -> (r: Result<(Vec<Command>, usize), ParseError>)
    ensures
        agrees(r, sp_commands(tv(ts), p0 as int, Seq::empty(), true)),
        r matches Ok((_, q)) ==> q < ts.len(),
{
    let mut acc: Vec<Command> = Vec::new();
    let mut p = p0;
    let mut first = true;
    assert(acc.deep_view() =~= Seq::<SpecCommand>::empty());
    loop
        invariant
            p <= ts.len() || first,
            sp_commands(tv(ts), p0 as int, Seq::empty(), true) == sp_commands(tv(ts), p as int, acc.deep_view(), first),
        decreases if first { ts.len() + 1 } else { ts.len() - p },
    {
        if kind_is(ts, p, TokenKind::RBrace) {
            return Ok((acc, p));
        }
        let f = if first {
            p
        } else {
            if !kind_is(ts, p, TokenKind::Comma) {
                return Err(err_at(ts, p, ParseErrorKind::Expected(TokenKind::Comma)));
            }
            p + 1
        };
        if kind_is(ts, f, TokenKind::RBrace) {
            return Ok((acc, f));
        }
        match parse_command(ts, f) {
            Err(e) => {
                return Err(e);
            },
            Ok((x, q)) => {
                if !(p < q && q <= ts.len()) {
                    return Err(err_at(ts, q, ParseErrorKind::Expected(TokenKind::Comma)));
                }
                push_deep(&mut acc, x);
                p = q;
                first = false;
            },
        }
    }
}

fn parse_group(ts: &Vec<Token>, p: usize) -> (r: Result<(CommandGroup, usize), ParseError>)
    ensures
        agrees(r, sp_group(tv(ts), p as int)),
        r matches Ok((_, q)) ==> q <= ts.len(),
{
    if !kind_is(ts, p, TokenKind::Ident) {
        return Err(err_at(ts, p, ParseErrorKind::Expected(TokenKind::Ident)));
    }
    if !kind_is(ts, p + 1, TokenKind::FatArrow) {
        return Err(err_at(ts, p + 1, ParseErrorKind::Expected(TokenKind::FatArrow)));
    }
    if !kind_is(ts, p + 2, TokenKind::LBrace) {
        return Err(err_at(ts, p + 2, ParseErrorKind::Expected(TokenKind::LBrace)));
    }
    let (commands, q) = parse_commands(ts, p + 3)?;
    Ok((CommandGroup { name: ts[p].text.clone(), commands }, q + 1))
}

fn parse_groups(ts: &Vec<Token>, p0: usize) -> (r: Result<(Vec<CommandGroup>, usize), ParseError>)
    ensures
        agrees(r, sp_groups(tv(ts), p0 as int, Seq::empty(), true)),
        r matches Ok((_, q)) ==> q < ts.len(),
{
    let mut acc: Vec<CommandGroup> = Vec::new();
    let mut p = p0;
    let mut first = true;
    assert(acc.deep_view() =~= Seq::<SpecGroup>::empty());
    loop
        invariant
            p <= ts.len() || first,
            sp_groups(tv(ts), p0 as int, Seq::empty(), true) == sp_groups(tv(ts), p as int, acc.deep_view(), first),
        decreases if first { ts.len() + 1 } else { ts.len() - p },
    {
        if kind_is(ts, p, TokenKind::RBrace) {
            return Ok((acc, p));
        }
        let f = if first {
            p
        } else {
            if !kind_is(ts, p, TokenKind::Comma) {
                return Err(err_at(ts, p, ParseErrorKind::Expected(TokenKind::Comma)));
            }
            p + 1
        };
        if kind_is(ts, f, TokenKind::RBrace) {
            return Ok((acc, f));
        }
        match parse_group(ts, f) {
            Err(e) => {
                return Err(e);
            },
            Ok((x, q)) => {
                if !(p < q && q <= ts.len()) {
                    return Err(err_at(ts, q, ParseErrorKind::Expected(TokenKind::Comma)));
                }
                push_deep(&mut acc, x);
                p = q;
                first = false;
            },
        }
    }
}

fn parse_group_block(ts: &Vec<Token>, p: usize) -> (r: Result<(Vec<CommandGroup>, usize), ParseError>)
    ensures
        agrees(r, sp_group_block(tv(ts), p as int)),
        r matches Ok((_, q)) ==> q <= ts.len(),
{
    if !kind_is(ts, p, TokenKind::LBrace) {
        return Err(err_at(ts, p, ParseErrorKind::Expected(TokenKind::LBrace)));
    }
    let (v, q) = parse_groups(ts, p + 1)?;
    Ok((v, q + 1))
}


// ---- Executable parser: whole specification ----

fn parse_idents(ts: &Vec<Token>, p0: usize) -> (r: Result<(Vec<String>, usize), ParseError>)
    ensures
        agrees(r, sp_idents(tv(ts), p0 as int, Seq::empty(), true)),
        r matches Ok((_, q)) ==> q < ts.len(),
{
    let mut acc: Vec<String> = Vec::new();
    let mut p = p0;
    let mut first = true;
    assert(acc.deep_view() =~= Seq::<Seq<char>>::empty());
    loop
        invariant
            p <= ts.len() || first,
            sp_idents(tv(ts), p0 as int, Seq::empty(), true) == sp_idents(tv(ts), p as int, acc.deep_view(), first),
        decreases if first { ts.len() + 1 } else { ts.len() - p },
    {
        if kind_is(ts, p, TokenKind::RBracket) {
            return Ok((acc, p));
        }
        let f = if first {
            p
        } else {
            if !kind_is(ts, p, TokenKind::Comma) {
                return Err(err_at(ts, p, ParseErrorKind::Expected(TokenKind::Comma)));
            }
            p + 1
        };
        if kind_is(ts, f, TokenKind::RBracket) {
            return Ok((acc, f));
        }
        if !kind_is(ts, f, TokenKind::Ident) {
            return Err(err_at(ts, f, ParseErrorKind::Expected(TokenKind::Ident)));
        }
        push_deep(&mut acc, ts[f].text.clone());
        p = f + 1;
        first = false;
    }
}

fn parse_sections(ts: &Vec<Token>, start: usize, locales: Vec<String>) -> (r: Result<I18nInput, ParseError>)
    ensures
        match r {
            Ok(input) => sp_sections(tv(ts), start as int, SpecInput { locales: locales.deep_view(), commands: Seq::empty(), global: Seq::empty() }, false, false, true) matches Ok((v, _)) && v == input.deep_view(),
            Err(e) => sp_sections(tv(ts), start as int, SpecInput { locales: locales.deep_view(), commands: Seq::empty(), global: Seq::empty() }, false, false, true) == Err::<(SpecInput, int), ParseError>(e),
        },
{
    let ghost init = SpecInput { locales: locales.deep_view(), commands: Seq::empty(), global: Seq::empty() };
    let mut acc = I18nInput { locales, commands: Vec::new(), global: Vec::new() };
    let mut seen_commands = false;
    let mut seen_global = false;
    let mut p: usize = start;
    let mut first = true;
    assert(acc.commands.deep_view() =~= Seq::<SpecGroup>::empty());
    assert(acc.global.deep_view() =~= Seq::<SpecTranslation>::empty());
    loop
        invariant
            p <= ts.len() || first,
            init == (SpecInput { locales: acc.locales.deep_view(), commands: Seq::empty(), global: Seq::empty() }),
            init == (SpecInput { locales: locales.deep_view(), commands: Seq::empty(), global: Seq::empty() }),
            sp_sections(tv(ts), start as int, init, false, false, true)
                == sp_sections(tv(ts), p as int, acc.deep_view(), seen_commands, seen_global, first),
        decreases if first { ts.len() + 1 } else { ts.len() - p },
    {
        if kind_is(ts, p, TokenKind::End) {
            return Ok(acc);
        }
        let f = if first {
            p
        } else {
            if !kind_is(ts, p, TokenKind::Comma) {
                return Err(err_at(ts, p, ParseErrorKind::Expected(TokenKind::Comma)));
            }
            p + 1
        };
        if kind_is(ts, f, TokenKind::End) {
            return Ok(acc);
        }
        if !kind_is(ts, f, TokenKind::Ident) {
            return Err(err_at(ts, f, ParseErrorKind::Expected(TokenKind::Ident)));
        }
        if !kind_is(ts, f + 1, TokenKind::Colon) {
            return Err(err_at(ts, f + 1, ParseErrorKind::Expected(TokenKind::Colon)));
        } else if string_is(&ts[f].text, "commands") {
            if seen_commands {
                return Err(err_at(ts, f, ParseErrorKind::DuplicateSection));
            }
            let (v, q) = parse_group_block(ts, f + 2)?;
            if !(p < q && q <= ts.len()) {
                return Err(err_at(ts, q, ParseErrorKind::Expected(TokenKind::Comma)));
            }
            acc.commands = v;
            seen_commands = true;
            p = q;
        } else if string_is(&ts[f].text, "global") {
            if seen_global {
                return Err(err_at(ts, f, ParseErrorKind::DuplicateSection));
            }
            let (v, q) = parse_translation_block(ts, f + 2)?;
            if !(p < q && q <= ts.len()) {
                return Err(err_at(ts, q, ParseErrorKind::Expected(TokenKind::Comma)));
            }
            acc.global = v;
            seen_global = true;
            p = q;
        } else {
            return Err(err_at(ts, f, ParseErrorKind::UnknownSection));
        }
        first = false;
    }
}

fn parse_tokens(ts: &Vec<Token>) -> (r: Result<I18nInput, ParseError>)
    ensures
        match r {
            Ok(input) => sp_input(tv(ts)) == Ok::<SpecInput, ParseError>(input.deep_view()),
            Err(e) => sp_input(tv(ts)) == Err::<SpecInput, ParseError>(e),
        },
{
    if !(kind_is(ts, 0, TokenKind::Ident) && string_is(&ts[0].text, "locales")) {
        return Err(err_at(ts, 0, ParseErrorKind::ExpectedLocales));
    }
    if !kind_is(ts, 1, TokenKind::Colon) {
        return Err(err_at(ts, 1, ParseErrorKind::Expected(TokenKind::Colon)));
    }
    if !kind_is(ts, 2, TokenKind::LBracket) {
        return Err(err_at(ts, 2, ParseErrorKind::Expected(TokenKind::LBracket)));
    }
    let (locales, q) = parse_idents(ts, 3)?;
    if !kind_is(ts, q + 1, TokenKind::Comma) {
        return Err(err_at(ts, q + 1, ParseErrorKind::Expected(TokenKind::Comma)));
    }
    parse_sections(ts, q + 2, locales)
}

impl I18nInput {
    /// Parses a translation specification.
    pub fn parse(src: &str) -> (r: Result<I18nInput, ParseError>)
        ensures
            match r {
                Ok(input) => spec_parse(src@) == Ok::<SpecInput, ParseError>(input.deep_view()),
                Err(e) => spec_parse(src@) == Err::<SpecInput, ParseError>(e),
            },
    {
        let ts = tokenize(src)?;
        parse_tokens(&ts)
    }
}

} // verus!
