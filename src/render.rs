//! Substitution of named `{placeholder}`s in a template.
use vstd::prelude::*;
use crate::text::{chars_of, extend_chars, extend_range, range_equals, string_of};

verus! {

/// The arguments of a render call as pairs of character sequences.
pub open spec fn args_view(args: Seq<(&str, &str)>) -> Seq<(Seq<char>, Seq<char>)> {
    args.map_values(|p: (&str, &str)| (p.0@, p.1@))
}

/// The value of the first argument at or after `k` named `name`.
pub open spec fn find_arg(args: Seq<(Seq<char>, Seq<char>)>, name: Seq<char>, k: int) -> Option<Seq<char>>
    decreases args.len() - k,
{
    if k < 0 || k >= args.len() {
        None
    } else if args[k].0 == name {
        Some(args[k].1)
    } else {
        find_arg(args, name, k + 1)
    }
}

/// The value of the first argument named `name`.
pub open spec fn lookup_arg(args: Seq<(Seq<char>, Seq<char>)>, name: Seq<char>) -> Option<Seq<char>> {
    find_arg(args, name, 0)
}

/// The index of the first `}` at or after `j`, or the length of `t` if there is none.
pub open spec fn close_brace(t: Seq<char>, j: int) -> int
    decreases t.len() - j,
{
    if j < 0 || j >= t.len() {
        t.len() as int
    } else if t[j] == '}' {
        j
    } else {
        close_brace(t, j + 1)
    }
}

/// The output of the scan of `t` from position `i` on. A `{` that is not the
/// last character and has a `}` after it opens a placeholder, which is
/// replaced by the first argument of that name, or copied unchanged when
/// there is none; any other character is copied.
pub open spec fn render_from(t: Seq<char>, args: Seq<(Seq<char>, Seq<char>)>, i: int) -> Seq<char>
    decreases t.len() - i,
{
    if i < 0 || i >= t.len() {
        Seq::empty()
    } else if t[i] == '{' && i + 1 < t.len() && i < close_brace(t, i + 1) < t.len() {
        let e = close_brace(t, i + 1);
        let piece = match lookup_arg(args, t.subrange(i + 1, e)) {
            Some(v) => v,
            None => t.subrange(i, e + 1),
        };
        piece + render_from(t, args, e + 1)
    } else {
        seq![t[i]] + render_from(t, args, i + 1)
    }
}

/// A rendered template: unchanged when there are no arguments, else the scan
/// of the whole template.
pub open spec fn spec_render(t: Seq<char>, args: Seq<(Seq<char>, Seq<char>)>) -> Seq<char> {
    if args.len() == 0 {
        t
    } else {
        render_from(t, args, 0)
    }
}

proof fn lemma_close_brace_bounds(t: Seq<char>, j: int)
    requires
        0 <= j,
    ensures
        j <= close_brace(t, j) <= t.len() || (j > t.len() && close_brace(t, j) == t.len()),
        close_brace(t, j) < t.len() ==> t[close_brace(t, j)] == '}',
    decreases t.len() - j,
{
    if j < t.len() && t[j] != '}' {
        lemma_close_brace_bounds(t, j + 1);
    }
}

/// Renders `template`, replacing each `{name}` by the value of the first
/// argument called `name`. Placeholders without a matching argument and
/// unbalanced braces are copied as they stand.
pub fn do_translate(template: &str, args: &[(&str, &str)]) -> (r: String)
    ensures
        r@ == spec_render(template@, args_view(args@)),
{
    if args.len() == 0 {
        return template.to_owned();
    }
    let ghost a = args_view(args@);
    let t = chars_of(template);
    let len = t.len();
    let mut out: Vec<char> = Vec::new();
    let mut i: usize = 0;
    while i < len
        invariant
            len == t@.len(),
            t@ == template@,
            a == args_view(args@),
            i <= len,
            out@ + render_from(t@, a, i as int) == render_from(t@, a, 0),
        decreases len - i,
    {
        if t[i] == '{' && i + 1 < len {
            let start = i + 1;
            let mut end = start;
            while end < len && t[end] != '}'
                invariant
                    start <= end <= len,
                    len == t@.len(),
                    close_brace(t@, start as int) == close_brace(t@, end as int),
                decreases len - end,
            {
                end += 1;
            }
            proof {
                lemma_close_brace_bounds(t@, start as int);
            }
            if end < len {
                match find_arg_exec(args, &t, start, end) {
                    Some(k) => {
                        extend_chars(&mut out, args[k].1);
                    },
                    None => {
                        extend_range(&mut out, &t, i, end + 1);
                    },
                }
                i = end + 1;
            } else {
                out.push('{');
                i += 1;
            }
        } else {
            out.push(t[i]);
            i += 1;
        }
    }
    string_of(&out)
}

/// The index of the first argument named `t[start..end]`.
fn find_arg_exec(args: &[(&str, &str)], t: &Vec<char>, start: usize, end: usize) -> (r: Option<usize>)
    requires
        start <= end <= t.len(),
    ensures
        match r {
            Some(k) => k < args.len() && lookup_arg(args_view(args@), t@.subrange(start as int, end as int))
                == Some(args@[k as int].1@),
            None => lookup_arg(args_view(args@), t@.subrange(start as int, end as int)) is None,
        },
{
    let ghost a = args_view(args@);
    let ghost name = t@.subrange(start as int, end as int);
    let mut k: usize = 0;
    while k < args.len()
        invariant
            k <= args.len(),
            a == args_view(args@),
            start <= end <= t.len(),
            name == t@.subrange(start as int, end as int),
            lookup_arg(a, name) == find_arg(a, name, k as int),
        decreases args.len() - k,
    {
        if range_equals(t, start, end, args[k].0) {
            return Some(k);
        }
        k += 1;
    }
    None
}

} // verus!
