//! Identifier conventions: `snake_case` keys of the translation language
//! become `PascalCase` names in the catalog, and command function names are
//! put into `snake_case`.
use vstd::prelude::*;
use crate::text::{chars_of, push_char, string_of};

verus! {

/// The uppercase mapping of a character.
pub uninterp spec fn char_upper(c: char) -> Seq<char>;

/// Whether a character has the Unicode `Uppercase` property.
pub uninterp spec fn char_is_upper(c: char) -> bool;

/// The first character of the lowercase mapping of a character.
pub uninterp spec fn char_lower_first(c: char) -> char;

/// Relies on `char::to_uppercase`: the uppercase mapping of `c`, collected.
#[verifier::external_body]
fn upper_of(c: char) -> (r: String)
    ensures
        r@ == char_upper(c),
{
    c.to_uppercase().collect::<String>()
}

/// Relies on `char::is_uppercase`.
#[verifier::external_body]
fn is_upper(c: char) -> (r: bool)
    ensures
        r == char_is_upper(c),
{
    c.is_uppercase()
}

/// Relies on `char::to_lowercase`, which yields one or more characters: the first of them.
#[verifier::external_body]
fn lower_first(c: char) -> (r: char)
    ensures
        r == char_lower_first(c),
{
    c.to_lowercase().next().unwrap()
}

/// What the character at `i` becomes in PascalCase: underscores go, the
/// first character of each underscore-separated part is uppercased.
pub open spec fn pascal_piece(s: Seq<char>, i: int) -> Seq<char> {
    if s[i] == '_' {
        Seq::empty()
    } else if i == 0 || s[i - 1] == '_' {
        char_upper(s[i])
    } else {
        seq![s[i]]
    }
}

pub open spec fn pascal_prefix(s: Seq<char>, n: int) -> Seq<char>
    decreases n,
{
    if n <= 0 {
        Seq::empty()
    } else {
        pascal_prefix(s, n - 1) + pascal_piece(s, n - 1)
    }
}

/// `s` in PascalCase.
pub open spec fn spec_pascal(s: Seq<char>) -> Seq<char> {
    pascal_prefix(s, s.len() as int)
}

/// What the character at `i` becomes in snake_case: an uppercase character
/// is lowercased, with an underscore before it unless it comes first.
pub open spec fn snake_piece(s: Seq<char>, i: int) -> Seq<char> {
    if char_is_upper(s[i]) {
        if i > 0 {
            seq!['_', char_lower_first(s[i])]
        } else {
            seq![char_lower_first(s[i])]
        }
    } else {
        seq![s[i]]
    }
}

pub open spec fn snake_prefix(s: Seq<char>, n: int) -> Seq<char>
    decreases n,
{
    if n <= 0 {
        Seq::empty()
    } else {
        snake_prefix(s, n - 1) + snake_piece(s, n - 1)
    }
}

/// `s` in snake_case.
pub open spec fn spec_snake(s: Seq<char>) -> Seq<char> {
    snake_prefix(s, s.len() as int)
}

/// Converts `snake_case` to `PascalCase`.
pub fn to_pascal_case(s: &str) -> (r: String)
    ensures
        r@ == spec_pascal(s@),
{
    let cs = chars_of(s);
    let mut out: Vec<char> = Vec::new();
    let mut i: usize = 0;
    while i < cs.len()
        invariant
            i <= cs.len(),
            cs@ == s@,
            out@ == pascal_prefix(cs@, i as int),
        decreases cs.len() - i,
    {
        let c = cs[i];
        if c == '_' {
        } else if i == 0 || cs[i - 1] == '_' {
            let u = upper_of(c);
            let us = chars_of(u.as_str());
            let mut k: usize = 0;
            while k < us.len()
                invariant
                    k <= us.len(),
                    us@ == char_upper(c),
                    out@ == pascal_prefix(cs@, i as int) + us@.take(k as int),
                decreases us.len() - k,
            {
                out.push(us[k]);
                assert(us@.take(k + 1) == us@.take(k as int).push(us@[k as int]));
                k += 1;
            }
            assert(us@.take(us.len() as int) == us@);
        } else {
            out.push(c);
        }
        i += 1;
    }
    string_of(&out)
}

/// Converts `camelCase` or `PascalCase` to `snake_case`.
pub fn to_snake_case(s: &str) -> (r: String)
    ensures
        r@ == spec_snake(s@),
{
    let cs = chars_of(s);
    let mut result = String::new();
    let mut i: usize = 0;
    while i < cs.len()
        invariant
            i <= cs.len(),
            cs@ == s@,
            result@ == snake_prefix(cs@, i as int),
        decreases cs.len() - i,
    {
        let ch = cs[i];
        if is_upper(ch) {
            if i > 0 {
                push_char(&mut result, '_');
            }
            push_char(&mut result, lower_first(ch));
        } else {
            push_char(&mut result, ch);
        }
        i += 1;
    }
    result
}

/// The lowercase mapping of a string.
pub uninterp spec fn str_lower(s: Seq<char>) -> Seq<char>;

/// Relies on `str::to_lowercase`: the lowercase mapping of `s`.
#[verifier::external_body]
fn lowercase(s: &str) -> (r: String)
    ensures
        r@ == str_lower(s@),
{
    s.to_lowercase()
}

/// Where a command's own keys live in the catalog: the group named by its
/// category in lowercase, and the command named by its function name in
/// snake_case (`("Config", "changeLocale")` gives `("config", "change_locale")`).
pub fn command_scope(category: &str, function_name: &str) -> (r: (String, String))
    ensures
        r.0@ == str_lower(category@),
        r.1@ == spec_snake(function_name@),
{
    (lowercase(category), to_snake_case(function_name))
}

} // verus!
