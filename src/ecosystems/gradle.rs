use vstd::prelude::*;

use crate::text::{first_word, first_word_of, chars_of, index_of, index_of_exec, trim, trim_str};

verus! {

/// A Maven coordinate: group, artifact and version, none of them empty.
#[derive(Clone, Debug, PartialEq, Eq, PartialOrd, Ord)]
pub struct Coordinate {
    pub group: String,
    pub artifact: String,
    pub version: String,
}

/// `s` up to the first `c`, or all of `s`.
pub open spec fn before_char(s: Seq<char>, c: char) -> Seq<char> {
    match index_of(s, c) {
        Some(k) => s.subrange(0, k),
        None => s,
    }
}

/// `s` after the first `c`, if `s` holds one.
pub open spec fn after_char(s: Seq<char>, c: char) -> Option<Seq<char>> {
    match index_of(s, c) {
        Some(k) => Some(s.subrange(k + 1, s.len() as int)),
        None => None,
    }
}

/// The coordinate a `gradle.lockfile` line names: `group:artifact:version`
/// before any `=configurations` and `@classifier`; none for blank lines,
/// comments, or lines with fewer than three parts or an empty one.
pub open spec fn lockfile_coordinate_spec(line: Seq<char>) -> Option<(Seq<char>, Seq<char>, Seq<char>)> {
    let t = trim(line);
    if t.len() == 0 || t[0] == '#' {
        None
    } else {
        let coords = before_char(
            match index_of(t, '=') {
                Some(k) => trim(t.subrange(0, k)),
                None => t,
            },
            '@',
        );
        match after_char(coords, ':') {
            None => None,
            Some(rest1) => match after_char(rest1, ':') {
                None => None,
                Some(rest2) => {
                    let group = before_char(coords, ':');
                    let artifact = before_char(rest1, ':');
                    let vp = before_char(rest2, ':');
                    let version = if trim(vp).len() > 0 {
                        first_word(trim(vp))
                    } else {
                        vp
                    };
                    if group.len() == 0 || artifact.len() == 0 || version.len() == 0 {
                        None
                    } else {
                        Some((group, artifact, version))
                    }
                },
            },
        }
    }
}

#[verifier::spinoff_prover]
fn before_char_of(s: &str, c: char) -> (r: &str)
    ensures
        r@ == before_char(s@, c),
{
    let v = chars_of(s);
    match index_of_exec(&v, c) {
        Some(k) => s.substring_char(0, k),
        None => s,
    }
}

#[verifier::spinoff_prover]
fn after_char_of(s: &str, c: char) -> (r: Option<&str>)
    ensures
        match r {
            Some(x) => after_char(s@, c) == Some(x@),
            None => after_char(s@, c) is None,
        },
{
    let v = chars_of(s);
    match index_of_exec(&v, c) {
        Some(k) => {
            assert(k < v.len());
            Some(s.substring_char(k + 1, v.len()))
        },
        None => None,
    }
}

pub open spec fn coordinate_view(c: Coordinate) -> (Seq<char>, Seq<char>, Seq<char>) {
    (c.group@, c.artifact@, c.version@)
}

/// The coordinate that a `gradle.lockfile` line names, if any.
#[verifier::spinoff_prover]
pub fn lockfile_coordinate(line: &str) -> (r: Option<Coordinate>)
    ensures
        match r {
            Some(c) => lockfile_coordinate_spec(line@) == Some(coordinate_view(c)),
            None => lockfile_coordinate_spec(line@) is None,
        },
{
    let t = trim_str(line);
    if t.is_empty() {
        return None;
    }
    let tc = chars_of(t);
    if tc[0] == '#' {
        return None;
    }
    let head = match index_of_exec(&tc, '=') {
        Some(k) => trim_str(t.substring_char(0, k)),
        None => t,
    };
    let coords = before_char_of(head, '@');
    let rest1 = match after_char_of(coords, ':') {
        Some(r) => r,
        None => {
            return None;
        },
    };
    let rest2 = match after_char_of(rest1, ':') {
        Some(r) => r,
        None => {
            return None;
        },
    };
    let group = before_char_of(coords, ':');
    let artifact = before_char_of(rest1, ':');
    let vp = before_char_of(rest2, ':');
    let vt = trim_str(vp);
    let version = if !vt.is_empty() {
        first_word_of(vt)
    } else {
        vp
    };
    if group.is_empty() || artifact.is_empty() || version.is_empty() {
        return None;
    }
    Some(
        Coordinate {
            group: String::from_str(group),
            artifact: String::from_str(artifact),
            version: String::from_str(version),
        },
    )
}

/// The `group:artifact:version` strings quoted in a Gradle build script, in
/// order, as the pattern
/// `['"]([A-Za-z0-9_.-]+):([A-Za-z0-9_.-]+):([A-Za-z0-9+_.-]+)['"]` captures them.
pub uninterp spec fn quoted_coordinates_of(content: Seq<char>) -> Seq<(Seq<char>, Seq<char>, Seq<char>)>;

/// Relies on `regex::Regex::new` and `Regex::captures_iter`: the three groups
/// of each match of the quoted-coordinate pattern, in order.
#[verifier::external_body]
fn quoted_coordinates(content: &str) -> (r: Vec<Coordinate>)
    ensures
        r@.map_values(|c: Coordinate| coordinate_view(c)) == quoted_coordinates_of(content@),
{
    let pattern = regex::Regex::new(
        r#"['"]([A-Za-z0-9_.-]+):([A-Za-z0-9_.-]+):([A-Za-z0-9+_.-]+)['"]"#,
    ).unwrap();
    pattern
        .captures_iter(content)
        .map(|caps| Coordinate {
            group: caps[1].to_string(),
            artifact: caps[2].to_string(),
            version: caps[3].to_string(),
        })
        .collect()
}

/// The coordinates with no empty part, in order.
pub open spec fn complete_coordinates(cs: Seq<(Seq<char>, Seq<char>, Seq<char>)>) -> Seq<
    (Seq<char>, Seq<char>, Seq<char>),
>
    decreases cs.len(),
{
    if cs.len() == 0 {
        seq![]
    } else {
        let c = cs.last();
        complete_coordinates(cs.drop_last()) + if c.0.len() > 0 && c.1.len() > 0 && c.2.len() > 0 {
            seq![c]
        } else {
            seq![]
        }
    }
}

/// Keeps the coordinates with no empty part.
#[verifier::spinoff_prover]
pub fn keep_complete(cs: Vec<Coordinate>) -> (r: Vec<Coordinate>)
    ensures
        r@.map_values(|c: Coordinate| coordinate_view(c)) == complete_coordinates(
            cs@.map_values(|c: Coordinate| coordinate_view(c)),
        ),
{
    let ghost all = cs@.map_values(|c: Coordinate| coordinate_view(c));
    let mut out: Vec<Coordinate> = Vec::new();
    let mut rest = cs;
    let ghost n = rest@.len();
    let mut i: usize = 0;
    assert(out@.map_values(|c: Coordinate| coordinate_view(c)) =~= complete_coordinates(all.subrange(0, 0)));
    while i < rest.len()
        invariant
            n == all.len(),
            rest@.len() == n,
            rest@.map_values(|c: Coordinate| coordinate_view(c)) == all,
            i <= n,
            out@.map_values(|c: Coordinate| coordinate_view(c)) == complete_coordinates(all.subrange(0, i as int)),
        decreases n - i,
    {
        assert(all.subrange(0, i + 1).drop_last() =~= all.subrange(0, i as int));
        assert(all[i as int] == coordinate_view(rest@[i as int]));
        let ghost prev = out@;
        let c = &rest[i];
        if !c.group.as_str().is_empty() && !c.artifact.as_str().is_empty() && !c.version.as_str().is_empty() {
            out.push(Coordinate {
                group: c.group.clone(),
                artifact: c.artifact.clone(),
                version: c.version.clone(),
            });
            assert(out@.map_values(|c: Coordinate| coordinate_view(c)) =~= prev.map_values(|c: Coordinate| coordinate_view(c)) + seq![all[i as int]]);
        } else {
            assert(out@.map_values(|c: Coordinate| coordinate_view(c)) =~= prev.map_values(|c: Coordinate| coordinate_view(c)) + Seq::<(Seq<char>, Seq<char>, Seq<char>)>::empty());
        }
        i = i + 1;
    }
    assert(all.subrange(0, n as int) =~= all);
    out
}

/// The complete coordinates quoted in a Gradle build script, in order.
#[verifier::spinoff_prover]
pub fn build_script_coordinates(content: &str) -> (r: Vec<Coordinate>)
    ensures
        r@.map_values(|c: Coordinate| coordinate_view(c)) == complete_coordinates(
            quoted_coordinates_of(content@),
        ),
{
    keep_complete(quoted_coordinates(content))
}

} // verus!
