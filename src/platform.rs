//! The host platform as a value, and the joining of path segments.
use vstd::prelude::*;
use vstd::string::*;
use crate::text::push_char;

verus! {

/// The operating-system family the host runs on.
#[derive(Clone, Copy, Debug, PartialEq, Eq, Structural)]
pub enum Platform {
    Linux,
    MacOs,
    Windows,
}

/// The separator that `join_path` inserts.
pub open spec fn separator(p: Platform) -> char {
    if p is Windows {
        '\\'
    } else {
        '/'
    }
}

/// Characters that already end a directory part of a path.
pub open spec fn is_separator(p: Platform, c: char) -> bool {
    c == '/' || (p is Windows && c == '\\')
}

/// `base` followed by the relative segment `seg`, with one separator between
/// them unless `base` is empty or already ends in one.
pub open spec fn join(p: Platform, base: Seq<char>, seg: Seq<char>) -> Seq<char> {
    if base.len() == 0 || is_separator(p, base.last()) {
        base + seg
    } else {
        base + seq![separator(p)] + seg
    }
}

/// Joins the relative segment `seg` onto `base`.
pub fn join_path(p: Platform, base: &str, seg: &str) -> (r: String)
    ensures
        r@ == join(p, base@, seg@),
{
    let n = base.unicode_len();
    let mut out = String::from_str(base);
    if n > 0 {
        let last = base.get_char(n - 1);
        let ends_in_separator = last == '/' || (p == Platform::Windows && last == '\\');
        if !ends_in_separator {
            let sep = if p == Platform::Windows {
                '\\'
            } else {
                '/'
            };
            push_char(&mut out, sep);
        }
    }
    out.append(seg);
    out
}

} // verus!
