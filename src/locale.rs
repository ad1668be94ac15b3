//! The closed set of supported locales, and the normalization of platform
//! locale codes (`"en-US"`, `"PT-br"`, ...) into it.
use vstd::prelude::*;

verus! {

/// A supported locale. Declaration order fixes each locale's index.
#[derive(Clone, Copy, Debug, PartialEq, Eq, Structural, Hash)]
pub enum Locale {
    Pt,
    En,
}

/// How many locales there are.
pub const NUM_LOCALES: usize = 2;

/// The locale used when nothing more specific is known.
pub const DEFAULT_LOCALE: Locale = Locale::En;

/// ASCII capitals map to their small letters; every other character is kept.
pub open spec fn ascii_lower(c: char) -> char {
    if 'A' <= c && c <= 'Z' {
        ((c as u32) + 32) as char
    } else {
        c
    }
}

/// ASCII small letters map to their capitals; every other character is kept.
pub open spec fn ascii_upper(c: char) -> char {
    if 'a' <= c && c <= 'z' {
        ((c as u32) - 32) as char
    } else {
        c
    }
}

pub open spec fn seq_ascii_lower(s: Seq<char>) -> Seq<char> {
    s.map_values(|c: char| ascii_lower(c))
}

pub open spec fn seq_ascii_upper(s: Seq<char>) -> Seq<char> {
    s.map_values(|c: char| ascii_upper(c))
}

/// Whether the first two characters of `s`, with ASCII case folded, are `a` and `b`.
pub open spec fn has_prefix_folded(s: Seq<char>, a: char, b: char) -> bool {
    s.len() >= 2 && ascii_lower(s[0]) == a && ascii_lower(s[1]) == b
}

/// The locale that a platform code stands for: the first locale whose
/// two-letter prefix matches the code's first two characters, ignoring ASCII
/// case; the default locale when none does or the code is too short.
pub open spec fn spec_from_code(s: Seq<char>) -> Locale {
    if has_prefix_folded(s, 'p', 't') {
        Locale::Pt
    } else if has_prefix_folded(s, 'e', 'n') {
        Locale::En
    } else {
        DEFAULT_LOCALE
    }
}

impl Locale {
    /// The position of the locale in declaration order.
    pub open spec fn spec_index(self) -> nat {
        match self {
            Locale::Pt => 0,
            Locale::En => 1,
        }
    }

    /// The locale at a position in declaration order.
    pub open spec fn spec_at(i: int) -> Locale {
        if i == 0 {
            Locale::Pt
        } else {
            Locale::En
        }
    }

    /// The locale's declared name.
    pub open spec fn spec_name(self) -> Seq<char> {
        match self {
            Locale::Pt => seq!['P', 't'],
            Locale::En => seq!['E', 'n'],
        }
    }

    /// The locale's code on the chat platform.
    pub open spec fn spec_platform_code(self) -> Seq<char> {
        match self {
            Locale::Pt => seq!['p', 't', '-', 'B', 'R'],
            Locale::En => seq!['e', 'n', '-', 'U', 'S'],
        }
    }

    /// Normalizes a platform locale code. Total: short or unknown codes give
    /// the default locale.
    pub fn from_code(code: &str) -> (r: Locale)
        ensures
            r == spec_from_code(code@),
    {
        let cs = crate::text::chars_of(code);
        if cs.len() < 2 {
            return DEFAULT_LOCALE;
        }
        let a = fold_ascii(cs[0]);
        let b = fold_ascii(cs[1]);
        if a == 'p' && b == 't' {
            Locale::Pt
        } else if a == 'e' && b == 'n' {
            Locale::En
        } else {
            DEFAULT_LOCALE
        }
    }

    /// The locale's declared name (`"Pt"`, `"En"`).
    pub fn code(self) -> (r: &'static str)
        ensures
            r@ == self.spec_name(),
    {
        proof {
            reveal_strlit("Pt");
            reveal_strlit("En");
        }
        assert("Pt"@ =~= Locale::Pt.spec_name());
        assert("En"@ =~= Locale::En.spec_name());
        match self {
            Locale::Pt => "Pt",
            Locale::En => "En",
        }
    }

    /// The locale's code on the chat platform (`"pt-BR"`, `"en-US"`).
    pub fn discord_code(self) -> (r: &'static str)
        ensures
            r@ == self.spec_platform_code(),
    {
        proof {
            reveal_strlit("pt-BR");
            reveal_strlit("en-US");
        }
        assert("pt-BR"@ =~= Locale::Pt.spec_platform_code());
        assert("en-US"@ =~= Locale::En.spec_platform_code());
        match self {
            Locale::Pt => "pt-BR",
            Locale::En => "en-US",
        }
    }

    /// The position of the locale in declaration order.
    pub fn index(self) -> (r: usize)
        ensures
            r == self.spec_index(),
            r < NUM_LOCALES,
    {
        match self {
            Locale::Pt => 0,
            Locale::En => 1,
        }
    }

    /// The locale at position `i` in declaration order.
    pub fn at(i: usize) -> (r: Locale)
        requires
            i < NUM_LOCALES,
        ensures
            r == Locale::spec_at(i as int),
            r.spec_index() == i,
    {
        if i == 0 {
            Locale::Pt
        } else {
            Locale::En
        }
    }

    /// Every locale, in declaration order.
    pub fn all() -> (r: Vec<Locale>)
        ensures
            r@ == seq![Locale::Pt, Locale::En],
    {
        vec![Locale::Pt, Locale::En]
    }

    /// The locale whose declared name is exactly `name`.
    pub fn from_name(name: &str) -> (r: Option<Locale>)
        ensures
            r == spec_locale_named(name@),
    {
        proof {
            reveal_strlit("Pt");
            reveal_strlit("En");
        }
        assert("Pt"@ =~= Locale::Pt.spec_name());
        assert("En"@ =~= Locale::En.spec_name());
        let cs = crate::text::chars_of(name);
        if crate::text::range_equals(&cs, 0, cs.len(), "Pt") {
            assert(cs@.subrange(0, cs@.len() as int) == cs@);
            Some(Locale::Pt)
        } else if crate::text::range_equals(&cs, 0, cs.len(), "En") {
            assert(cs@.subrange(0, cs@.len() as int) == cs@);
            Some(Locale::En)
        } else {
            assert(cs@.subrange(0, cs@.len() as int) == cs@);
            None
        }
    }
}

/// The locale declared under `name`, if any.
pub open spec fn spec_locale_named(name: Seq<char>) -> Option<Locale> {
    if name == Locale::Pt.spec_name() {
        Some(Locale::Pt)
    } else if name == Locale::En.spec_name() {
        Some(Locale::En)
    } else {
        None
    }
}

/// ASCII case folding of one character.
pub fn fold_ascii(c: char) -> (r: char)
    ensures
        r == ascii_lower(c),
{
    if 'A' <= c && c <= 'Z' {
        (((c as u32) + 32) as u8) as char
    } else {
        c
    }
}

/// Normalizing a code does not depend on the ASCII case of its characters.
pub proof fn lemma_from_code_ignores_ascii_case(s: Seq<char>)
    ensures
        spec_from_code(s) == spec_from_code(seq_ascii_upper(s)),
        spec_from_code(s) == spec_from_code(seq_ascii_lower(s)),
{
    assert forall|c: char| ascii_lower(#[trigger] ascii_upper(c)) == ascii_lower(c) by {
        if 'a' <= c && c <= 'z' {
            assert(ascii_upper(c) as u32 == c as u32 - 32);
        }
    }
    assert forall|c: char| ascii_lower(#[trigger] ascii_lower(c)) == ascii_lower(c) by {
        if 'A' <= c && c <= 'Z' {
            assert(ascii_lower(c) as u32 == c as u32 + 32);
        }
    }
}

/// Codes shorter than two characters normalize to the default locale.
pub proof fn lemma_short_code_is_default(s: Seq<char>)
    requires
        s.len() < 2,
    ensures
        spec_from_code(s) == DEFAULT_LOCALE,
{
}

} // verus!
