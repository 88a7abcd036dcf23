use vstd::prelude::*;

use crate::discovery::opt_str_view;
use crate::text::{chars_of, contains_char, has_prefix, rfind_char, rfind_char_exec, strip_prefix, trim, trim_str};

verus! {

/// A JSR package name without any `@version` suffix: the text before the last
/// `@`, unless that `@` opens the name or is followed by a `/`.
pub open spec fn normalize_jsr_name_spec(name: Seq<char>) -> Option<Seq<char>> {
    let t = trim(name);
    if t.len() == 0 {
        None
    } else {
        match rfind_char(t, '@') {
            Some(idx) => if idx != 0 && !t.subrange(idx + 1, t.len() as int).contains('/') {
                Some(t.subrange(0, idx))
            } else {
                Some(t)
            },
            None => Some(t),
        }
    }
}

/// The package a `jsr:` specifier names.
pub open spec fn parse_jsr_specifier_spec(s: Seq<char>) -> Option<Seq<char>> {
    if has_prefix(s, "jsr:"@) {
        normalize_jsr_name_spec(s.subrange("jsr:"@.len() as int, s.len() as int))
    } else {
        None
    }
}

/// The package name of a `jsr:` specifier, without its version.
#[verifier::spinoff_prover]
pub fn parse_jsr_specifier(specifier: &str) -> (r: Option<String>)
    ensures
        opt_str_view(r) == parse_jsr_specifier_spec(specifier@),
{
    match strip_prefix(specifier, "jsr:") {
        Some(rest) => normalize_jsr_name(rest),
        None => None,
    }
}

/// A JSR package name without its `@version` suffix; none if blank.
#[verifier::spinoff_prover]
pub fn normalize_jsr_name(name: &str) -> (r: Option<String>)
    ensures
        opt_str_view(r) == normalize_jsr_name_spec(name@),
{
    let t = trim_str(name);
    if t.is_empty() {
        return None;
    }
    let c = chars_of(t);
    match rfind_char_exec(&c, '@') {
        Some(idx) => {
            assert(idx < c.len());
            let suffix = chars_of(t.substring_char(idx + 1, c.len()));
            if idx != 0 && !contains_char(&suffix, '/') {
                return Some(String::from_str(t.substring_char(0, idx)));
            }
        },
        None => {},
    }
    Some(String::from_str(t))
}

} // verus!
