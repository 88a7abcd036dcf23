use vstd::prelude::*;

use crate::candidates::opt_seq;
use crate::ecosystems::jsr::{
    normalize_jsr_name, normalize_jsr_name_spec, parse_jsr_specifier, parse_jsr_specifier_spec,
};
use crate::text::same_str;
use crate::discovery::{opt_str_view, strings_view};

verus! {

broadcast use vstd::std_specs::vec::axiom_vec_index_decreases;

/// A JSON document as plain values; a number keeps its text.
pub enum Json {
    Null,
    Bool(bool),
    Number(String),
    Str(String),
    Array(Vec<Json>),
    Object(Vec<(String, Json)>),
}

/// Every string of `v` that is a `jsr:` specifier, as a package name, in
/// document order.
pub open spec fn jsr_strings(v: Json) -> Seq<Seq<char>>
    decreases v, 0int,
{
    match v {
        Json::Str(t) => opt_seq(parse_jsr_specifier_spec(t@)),
        Json::Array(items) => jsr_strings_items(items, items@.len() as int),
        Json::Object(entries) => jsr_strings_entries(entries, entries@.len() as int),
        _ => seq![],
    }
}

pub open spec fn jsr_strings_items(items: Vec<Json>, n: int) -> Seq<Seq<char>>
    decreases items, n,
{
    if n <= 0 || n > items@.len() {
        seq![]
    } else {
        jsr_strings_items(items, n - 1) + jsr_strings(items[n - 1])
    }
}

pub open spec fn jsr_strings_entries(entries: Vec<(String, Json)>, n: int) -> Seq<Seq<char>>
    decreases entries, n,
{
    if n <= 0 || n > entries@.len() {
        seq![]
    } else {
        jsr_strings_entries(entries, n - 1) + jsr_strings(entries[n - 1].1)
    }
}

/// Appends the package of every `jsr:` specifier string in `v` to `out`, in
/// document order.
#[verifier::spinoff_prover]
pub fn collect_jsr_strings(v: &Json, out: &mut Vec<String>)
    ensures
        strings_view(final(out)@) == strings_view(old(out)@) + jsr_strings(*v),
    decreases v,
{
    let ghost base = strings_view(out@);
    match v {
        Json::Str(t) => {
            match parse_jsr_specifier(t.as_str()) {
                Some(p) => {
                    out.push(p);
                    assert(strings_view(out@) =~= base + seq![out@.last()@]);
                },
                None => {
                    assert(strings_view(out@) =~= base + Seq::<Seq<char>>::empty());
                },
            }
        },
        Json::Array(items) => {
            let mut i: usize = 0;
            assert(strings_view(out@) =~= base + jsr_strings_items(*items, 0));
            while i < items.len()
                invariant
                    *v == Json::Array(*items),
                    i <= items@.len(),
                    strings_view(out@) == base + jsr_strings_items(*items, i as int),
                decreases items@.len() - i,
            {
                proof {
                    assert(decreases_to!(*v => (*v)->Array_0));
                    assert(decreases_to!(*items => items[i as int]));
                }
                collect_jsr_strings(&items[i], out);
                assert(base + jsr_strings_items(*items, i + 1) =~= base + jsr_strings_items(
                    *items,
                    i as int,
                ) + jsr_strings(items@[i as int]));
                i = i + 1;
            }
        },
        Json::Object(entries) => {
            let mut i: usize = 0;
            assert(strings_view(out@) =~= base + jsr_strings_entries(*entries, 0));
            while i < entries.len()
                invariant
                    *v == Json::Object(*entries),
                    i <= entries@.len(),
                    strings_view(out@) == base + jsr_strings_entries(*entries, i as int),
                decreases entries@.len() - i,
            {
                proof {
                    assert(decreases_to!(*v => (*v)->Object_0));
                    assert(decreases_to!(*entries => entries[i as int]));
                    assert(decreases_to!(entries[i as int] => entries[i as int].1));
                }
                collect_jsr_strings(&entries[i].1, out);
                assert(base + jsr_strings_entries(*entries, i + 1) =~= base
                    + jsr_strings_entries(*entries, i as int) + jsr_strings(entries@[i as int].1));
                i = i + 1;
            }
        },
        _ => {
            assert(strings_view(out@) =~= base + Seq::<Seq<char>>::empty());
        },
    }
}

/// The value stored under `key` in the entries of an object, if any.
pub open spec fn lookup(entries: Seq<(String, Json)>, key: Seq<char>) -> Option<Json>
    decreases entries.len(),
{
    if entries.len() == 0 {
        None
    } else if entries[0].0@ == key {
        Some(entries[0].1)
    } else {
        lookup(entries.drop_first(), key)
    }
}

/// The value stored under `key` in the entries of an object, if any.
#[verifier::spinoff_prover]
pub fn lookup_exec<'a>(entries: &'a Vec<(String, Json)>, key: &str) -> (r: Option<&'a Json>)
    ensures
        match r {
            Some(x) => lookup(entries@, key@) == Some(*x),
            None => lookup(entries@, key@) is None,
        },
{
    let mut i: usize = 0;
    assert(entries@.subrange(0, entries@.len() as int) =~= entries@);
    while i < entries.len()
        invariant
            i <= entries@.len(),
            lookup(entries@, key@) == lookup(entries@.subrange(i as int, entries@.len() as int), key@),
        decreases entries@.len() - i,
    {
        let ghost rest = entries@.subrange(i as int, entries@.len() as int);
        assert(rest.drop_first() =~= entries@.subrange(i + 1, entries@.len() as int));
        if same_str(entries[i].0.as_str(), key) {
            return Some(&entries[i].1);
        }
        i = i + 1;
    }
    None
}

/// The packages an `imports` map names through its keys and string values.
pub open spec fn import_pairs(imports: Seq<(String, Json)>) -> Seq<Seq<char>>
    decreases imports.len(),
{
    if imports.len() == 0 {
        seq![]
    } else {
        let (k, val) = imports.last();
        import_pairs(imports.drop_last()) + opt_seq(parse_jsr_specifier_spec(k@)) + match val {
            Json::Str(t) => opt_seq(parse_jsr_specifier_spec(t@)),
            _ => seq![],
        }
    }
}

pub open spec fn imports_of(o: Option<Json>) -> Seq<Seq<char>> {
    match o {
        Some(Json::Object(imports)) => import_pairs(imports@),
        _ => seq![],
    }
}

/// The packages that every `imports` map inside `v` names, in document order.
pub open spec fn import_specifiers(v: Json) -> Seq<Seq<char>>
    decreases v, 0int,
{
    match v {
        Json::Object(entries) => imports_of(lookup(entries@, "imports"@)) + import_specifiers_entries(
            entries,
            entries@.len() as int,
        ),
        Json::Array(items) => import_specifiers_items(items, items@.len() as int),
        _ => seq![],
    }
}

pub open spec fn import_specifiers_items(items: Vec<Json>, n: int) -> Seq<Seq<char>>
    decreases items, n,
{
    if n <= 0 || n > items@.len() {
        seq![]
    } else {
        import_specifiers_items(items, n - 1) + import_specifiers(items[n - 1])
    }
}

pub open spec fn import_specifiers_entries(entries: Vec<(String, Json)>, n: int) -> Seq<Seq<char>>
    decreases entries, n,
{
    if n <= 0 || n > entries@.len() {
        seq![]
    } else {
        import_specifiers_entries(entries, n - 1) + import_specifiers(entries[n - 1].1)
    }
}

#[verifier::spinoff_prover]
fn push_opt(out: &mut Vec<String>, o: Option<String>)
    ensures
        strings_view(final(out)@) == strings_view(old(out)@) + opt_seq(opt_str_view(o)),
{
    let ghost base = strings_view(out@);
    match o {
        Some(x) => {
            out.push(x);
            assert(strings_view(out@) =~= base + seq![out@.last()@]);
        },
        None => {
            assert(strings_view(out@) =~= base + Seq::<Seq<char>>::empty());
        },
    }
}

#[verifier::spinoff_prover]
fn collect_import_pairs(imports: &Vec<(String, Json)>, out: &mut Vec<String>)
    ensures
        strings_view(final(out)@) == strings_view(old(out)@) + import_pairs(imports@),
{
    let ghost base = strings_view(out@);
    let mut i: usize = 0;
    assert(strings_view(out@) =~= base + import_pairs(imports@.subrange(0, 0)));
    while i < imports.len()
        invariant
            i <= imports@.len(),
            strings_view(out@) == base + import_pairs(imports@.subrange(0, i as int)),
        decreases imports@.len() - i,
    {
        let ghost pre = imports@.subrange(0, i + 1);
        assert(pre.drop_last() =~= imports@.subrange(0, i as int));
        push_opt(out, parse_jsr_specifier(imports[i].0.as_str()));
        match &imports[i].1 {
            Json::Str(t) => push_opt(out, parse_jsr_specifier(t.as_str())),
            _ => {},
        }
        assert(strings_view(out@) =~= base + import_pairs(pre));
        i = i + 1;
    }
    assert(imports@.subrange(0, imports@.len() as int) =~= imports@);
}

/// Appends the packages that every `imports` map inside `v` names, in
/// document order.
#[verifier::spinoff_prover]
pub fn collect_import_specifiers(v: &Json, out: &mut Vec<String>)
    ensures
        strings_view(final(out)@) == strings_view(old(out)@) + import_specifiers(*v),
    decreases v,
{
    let ghost base = strings_view(out@);
    match v {
        Json::Object(entries) => {
            match lookup_exec(entries, "imports") {
                Some(Json::Object(imports)) => collect_import_pairs(imports, out),
                _ => {},
            }
            let ghost mid = strings_view(out@);
            assert(mid == base + imports_of(lookup(entries@, "imports"@))) by {
                if !(lookup(entries@, "imports"@) matches Some(Json::Object(_))) {
                    assert(mid =~= base + Seq::<Seq<char>>::empty());
                }
            }
            let mut i: usize = 0;
            assert(strings_view(out@) =~= mid + import_specifiers_entries(*entries, 0));
            while i < entries.len()
                invariant
                    *v == Json::Object(*entries),
                    i <= entries@.len(),
                    strings_view(out@) == mid + import_specifiers_entries(*entries, i as int),
                decreases entries@.len() - i,
            {
                proof {
                    assert(decreases_to!(*v => (*v)->Object_0));
                    assert(decreases_to!(*entries => entries[i as int]));
                    assert(decreases_to!(entries[i as int] => entries[i as int].1));
                }
                collect_import_specifiers(&entries[i].1, out);
                assert(mid + import_specifiers_entries(*entries, i + 1) =~= mid
                    + import_specifiers_entries(*entries, i as int) + import_specifiers(
                    entries@[i as int].1,
                ));
                i = i + 1;
            }
            assert(strings_view(out@) =~= base + import_specifiers(*v));
        },
        Json::Array(items) => {
            let mut i: usize = 0;
            assert(strings_view(out@) =~= base + import_specifiers_items(*items, 0));
            while i < items.len()
                invariant
                    *v == Json::Array(*items),
                    i <= items@.len(),
                    strings_view(out@) == base + import_specifiers_items(*items, i as int),
                decreases items@.len() - i,
            {
                proof {
                    assert(decreases_to!(*v => (*v)->Array_0));
                    assert(decreases_to!(*items => items[i as int]));
                }
                collect_import_specifiers(&items[i], out);
                assert(base + import_specifiers_items(*items, i + 1) =~= base
                    + import_specifiers_items(*items, i as int) + import_specifiers(
                    items@[i as int],
                ));
                i = i + 1;
            }
        },
        _ => {
            assert(strings_view(out@) =~= base + Seq::<Seq<char>>::empty());
        },
    }
}

/// The packages a dependency section names: each key as a JSR name, then the
/// `jsr:` strings inside its value.
pub open spec fn dependency_pairs(deps: Seq<(String, Json)>) -> Seq<Seq<char>>
    decreases deps.len(),
{
    if deps.len() == 0 {
        seq![]
    } else {
        let (name, spec) = deps.last();
        dependency_pairs(deps.drop_last()) + opt_seq(normalize_jsr_name_spec(name@)) + jsr_strings(
            spec,
        )
    }
}

pub open spec fn section_of(o: Option<Json>) -> Seq<Seq<char>> {
    match o {
        Some(Json::Object(deps)) => dependency_pairs(deps@),
        _ => seq![],
    }
}

/// The packages the `dependencies`, `devDependencies`, `peerDependencies` and
/// `optionalDependencies` sections of one object name.
pub open spec fn sections_of(entries: Seq<(String, Json)>) -> Seq<Seq<char>> {
    section_of(lookup(entries, "dependencies"@)) + section_of(lookup(entries, "devDependencies"@))
        + section_of(lookup(entries, "peerDependencies"@)) + section_of(
        lookup(entries, "optionalDependencies"@),
    )
}

/// The packages that every dependency section inside `v` names, in document
/// order.
pub open spec fn dependency_sections(v: Json) -> Seq<Seq<char>>
    decreases v, 0int,
{
    match v {
        Json::Object(entries) => sections_of(entries@) + dependency_sections_entries(
            entries,
            entries@.len() as int,
        ),
        Json::Array(items) => dependency_sections_items(items, items@.len() as int),
        _ => seq![],
    }
}

pub open spec fn dependency_sections_items(items: Vec<Json>, n: int) -> Seq<Seq<char>>
    decreases items, n,
{
    if n <= 0 || n > items@.len() {
        seq![]
    } else {
        dependency_sections_items(items, n - 1) + dependency_sections(items[n - 1])
    }
}

pub open spec fn dependency_sections_entries(entries: Vec<(String, Json)>, n: int) -> Seq<
    Seq<char>,
>
    decreases entries, n,
{
    if n <= 0 || n > entries@.len() {
        seq![]
    } else {
        dependency_sections_entries(entries, n - 1) + dependency_sections(entries[n - 1].1)
    }
}

#[verifier::spinoff_prover]
fn collect_section(entries: &Vec<(String, Json)>, name: &str, out: &mut Vec<String>)
    ensures
        strings_view(final(out)@) == strings_view(old(out)@) + section_of(lookup(entries@, name@)),
{
    let ghost base = strings_view(out@);
    match lookup_exec(entries, name) {
        Some(Json::Object(deps)) => {
            let mut i: usize = 0;
            assert(strings_view(out@) =~= base + dependency_pairs(deps@.subrange(0, 0)));
            while i < deps.len()
                invariant
                    i <= deps@.len(),
                    strings_view(out@) == base + dependency_pairs(deps@.subrange(0, i as int)),
                decreases deps@.len() - i,
            {
                let ghost pre = deps@.subrange(0, i + 1);
                assert(pre.drop_last() =~= deps@.subrange(0, i as int));
                push_opt(out, normalize_jsr_name(deps[i].0.as_str()));
                collect_jsr_strings(&deps[i].1, out);
                assert(strings_view(out@) =~= base + dependency_pairs(pre));
                i = i + 1;
            }
            assert(deps@.subrange(0, deps@.len() as int) =~= deps@);
        },
        _ => {
            assert(strings_view(out@) =~= base + Seq::<Seq<char>>::empty());
        },
    }
}

/// Appends the packages that every dependency section inside `v` names, in
/// document order.
#[verifier::spinoff_prover]
pub fn collect_dependency_sections(v: &Json, out: &mut Vec<String>)
    ensures
        strings_view(final(out)@) == strings_view(old(out)@) + dependency_sections(*v),
    decreases v,
{
    let ghost base = strings_view(out@);
    match v {
        Json::Object(entries) => {
            collect_section(entries, "dependencies", out);
            collect_section(entries, "devDependencies", out);
            collect_section(entries, "peerDependencies", out);
            collect_section(entries, "optionalDependencies", out);
            let ghost mid = strings_view(out@);
            assert(mid =~= base + sections_of(entries@));
            let mut i: usize = 0;
            assert(strings_view(out@) =~= mid + dependency_sections_entries(*entries, 0));
            while i < entries.len()
                invariant
                    *v == Json::Object(*entries),
                    i <= entries@.len(),
                    strings_view(out@) == mid + dependency_sections_entries(*entries, i as int),
                decreases entries@.len() - i,
            {
                proof {
                    assert(decreases_to!(*v => (*v)->Object_0));
                    assert(decreases_to!(*entries => entries[i as int]));
                    assert(decreases_to!(entries[i as int] => entries[i as int].1));
                }
                collect_dependency_sections(&entries[i].1, out);
                assert(mid + dependency_sections_entries(*entries, i + 1) =~= mid
                    + dependency_sections_entries(*entries, i as int) + dependency_sections(
                    entries@[i as int].1,
                ));
                i = i + 1;
            }
            assert(strings_view(out@) =~= base + dependency_sections(*v));
        },
        Json::Array(items) => {
            let mut i: usize = 0;
            assert(strings_view(out@) =~= base + dependency_sections_items(*items, 0));
            while i < items.len()
                invariant
                    *v == Json::Array(*items),
                    i <= items@.len(),
                    strings_view(out@) == base + dependency_sections_items(*items, i as int),
                decreases items@.len() - i,
            {
                proof {
                    assert(decreases_to!(*v => (*v)->Array_0));
                    assert(decreases_to!(*items => items[i as int]));
                }
                collect_dependency_sections(&items[i], out);
                assert(base + dependency_sections_items(*items, i + 1) =~= base
                    + dependency_sections_items(*items, i as int) + dependency_sections(
                    items@[i as int],
                ));
                i = i + 1;
            }
        },
        _ => {
            assert(strings_view(out@) =~= base + Seq::<Seq<char>>::empty());
        },
    }
}

/// The packages a `jsr.json` manifest names: its dependency sections, its
/// `imports` maps, then every `jsr:` string, each in document order.
#[verifier::spinoff_prover]
pub fn collect_jsr_packages_from_jsr_manifest(v: &Json) -> (r: Vec<String>)
    ensures
        strings_view(r@) == dependency_sections(*v) + import_specifiers(*v) + jsr_strings(*v),
{
    let mut out: Vec<String> = Vec::new();
    assert(strings_view(out@) =~= Seq::<Seq<char>>::empty());
    collect_dependency_sections(v, &mut out);
    collect_import_specifiers(v, &mut out);
    collect_jsr_strings(v, &mut out);
    assert(strings_view(out@) =~= dependency_sections(*v) + import_specifiers(*v) + jsr_strings(*v));
    out
}

/// The packages a `deno.json` configuration names: its `imports` maps, then
/// every `jsr:` string, each in document order.
#[verifier::spinoff_prover]
pub fn collect_jsr_packages_from_deno_config(v: &Json) -> (r: Vec<String>)
    ensures
        strings_view(r@) == import_specifiers(*v) + jsr_strings(*v),
{
    let mut out: Vec<String> = Vec::new();
    assert(strings_view(out@) =~= Seq::<Seq<char>>::empty());
    collect_import_specifiers(v, &mut out);
    collect_jsr_strings(v, &mut out);
    assert(strings_view(out@) =~= import_specifiers(*v) + jsr_strings(*v));
    out
}

/// The value under `key` when `v` is an object.
pub open spec fn member(v: Json, key: Seq<char>) -> Option<Json> {
    match v {
        Json::Object(entries) => lookup(entries@, key),
        _ => None,
    }
}

#[verifier::spinoff_prover]
pub fn member_exec<'a>(v: &'a Json, key: &str) -> (r: Option<&'a Json>)
    ensures
        match r {
            Some(x) => member(*v, key@) == Some(*x),
            None => member(*v, key@) is None,
        },
{
    match v {
        Json::Object(entries) => lookup_exec(entries, key),
        _ => None,
    }
}

/// The packages that the string values of an object name.
pub open spec fn string_values(entries: Seq<(String, Json)>) -> Seq<Seq<char>>
    decreases entries.len(),
{
    if entries.len() == 0 {
        seq![]
    } else {
        string_values(entries.drop_last()) + match entries.last().1 {
            Json::Str(t) => opt_seq(parse_jsr_specifier_spec(t@)),
            _ => seq![],
        }
    }
}

/// The packages of a lockfile's `jsr` section: each key as a JSR name, then
/// the `jsr:` strings among its `dependencies`.
pub open spec fn locked_entries(entries: Seq<(String, Json)>) -> Seq<Seq<char>>
    decreases entries.len(),
{
    if entries.len() == 0 {
        seq![]
    } else {
        let (k, val) = entries.last();
        locked_entries(entries.drop_last()) + opt_seq(normalize_jsr_name_spec(k@)) + match member(
            val,
            "dependencies"@,
        ) {
            Some(Json::Object(deps)) => string_values(deps@),
            _ => seq![],
        }
    }
}

/// The packages a `deno.lock` names: through `packages.specifiers`, then
/// through `packages.jsr`.
pub open spec fn lock_packages(v: Json) -> Seq<Seq<char>> {
    match member(v, "packages"@) {
        Some(p) => imports_of(member(p, "specifiers"@)) + match member(p, "jsr"@) {
            Some(Json::Object(entries)) => locked_entries(entries@),
            _ => seq![],
        },
        None => seq![],
    }
}

#[verifier::spinoff_prover]
fn collect_string_values(entries: &Vec<(String, Json)>, out: &mut Vec<String>)
    ensures
        strings_view(final(out)@) == strings_view(old(out)@) + string_values(entries@),
{
    let ghost base = strings_view(out@);
    let mut i: usize = 0;
    assert(strings_view(out@) =~= base + string_values(entries@.subrange(0, 0)));
    while i < entries.len()
        invariant
            i <= entries@.len(),
            strings_view(out@) == base + string_values(entries@.subrange(0, i as int)),
        decreases entries@.len() - i,
    {
        let ghost pre = entries@.subrange(0, i + 1);
        assert(pre.drop_last() =~= entries@.subrange(0, i as int));
        match &entries[i].1 {
            Json::Str(t) => push_opt(out, parse_jsr_specifier(t.as_str())),
            _ => {},
        }
        assert(strings_view(out@) =~= base + string_values(pre));
        i = i + 1;
    }
    assert(entries@.subrange(0, entries@.len() as int) =~= entries@);
}

#[verifier::spinoff_prover]
fn collect_locked_entries(entries: &Vec<(String, Json)>, out: &mut Vec<String>)
    ensures
        strings_view(final(out)@) == strings_view(old(out)@) + locked_entries(entries@),
{
    let ghost base = strings_view(out@);
    let mut i: usize = 0;
    assert(strings_view(out@) =~= base + locked_entries(entries@.subrange(0, 0)));
    while i < entries.len()
        invariant
            i <= entries@.len(),
            strings_view(out@) == base + locked_entries(entries@.subrange(0, i as int)),
        decreases entries@.len() - i,
    {
        let ghost pre = entries@.subrange(0, i + 1);
        assert(pre.drop_last() =~= entries@.subrange(0, i as int));
        push_opt(out, normalize_jsr_name(entries[i].0.as_str()));
        let ghost mid = strings_view(out@);
        match member_exec(&entries[i].1, "dependencies") {
            Some(Json::Object(deps)) => collect_string_values(deps, out),
            _ => {
                assert(strings_view(out@) =~= mid + Seq::<Seq<char>>::empty());
            },
        }
        assert(strings_view(out@) =~= base + locked_entries(pre));
        i = i + 1;
    }
    assert(entries@.subrange(0, entries@.len() as int) =~= entries@);
}

/// The packages a `deno.lock` names, in document order.
#[verifier::spinoff_prover]
pub fn collect_jsr_packages_from_lock(v: &Json) -> (r: Vec<String>)
    ensures
        strings_view(r@) == lock_packages(*v),
{
    let mut out: Vec<String> = Vec::new();
    assert(strings_view(out@) =~= Seq::<Seq<char>>::empty());
    match member_exec(v, "packages") {
        Some(p) => {
            match member_exec(p, "specifiers") {
                Some(Json::Object(specifiers)) => collect_import_pairs(specifiers, &mut out),
                _ => {},
            }
            let ghost mid = strings_view(out@);
            assert(mid =~= imports_of(member(*p, "specifiers"@)));
            match member_exec(p, "jsr") {
                Some(Json::Object(entries)) => collect_locked_entries(entries, &mut out),
                _ => {},
            }
            assert(strings_view(out@) =~= lock_packages(*v));
        },
        None => {},
    }
    out
}

/// The keys of the object under `key` in `v`, in order.
pub open spec fn member_keys(v: Json, key: Seq<char>) -> Seq<Seq<char>> {
    match member(v, key) {
        Some(Json::Object(entries)) => entries@.map_values(|e: (String, Json)| e.0@),
        _ => seq![],
    }
}

/// The keys of the object under `key` in `v`, in order.
#[verifier::spinoff_prover]
pub fn member_key_names(v: &Json, key: &str) -> (r: Vec<String>)
    ensures
        strings_view(r@) == member_keys(*v, key@),
{
    let mut out: Vec<String> = Vec::new();
    match member_exec(v, key) {
        Some(Json::Object(entries)) => {
            let mut i: usize = 0;
            while i < entries.len()
                invariant
                    i <= entries@.len(),
                    strings_view(out@) == entries@.subrange(0, i as int).map_values(
                        |e: (String, Json)| e.0@,
                    ),
                decreases entries@.len() - i,
            {
                let ghost prev = out@;
                out.push(entries[i].0.clone());
                assert(strings_view(out@) =~= strings_view(prev).push(entries@[i as int].0@));
                assert(entries@.subrange(0, i + 1).map_values(|e: (String, Json)| e.0@)
                    =~= entries@.subrange(0, i as int).map_values(|e: (String, Json)| e.0@).push(
                    entries@[i as int].0@,
                ));
                i = i + 1;
            }
            assert(entries@.subrange(0, entries@.len() as int) =~= entries@);
        },
        _ => {
            assert(strings_view(out@) =~= Seq::<Seq<char>>::empty());
        },
    }
    out
}

/// Where a package manifest points for its sources: a string `repository`, or
/// the `url` of a `repository` object, else a string `homepage`.
pub open spec fn repository_reference(package: Json) -> Option<Seq<char>> {
    let from_repository = match member(package, "repository"@) {
        Some(Json::Str(t)) => Some(t@),
        Some(r) => match member(r, "url"@) {
            Some(Json::Str(u)) => Some(u@),
            _ => None,
        },
        None => None,
    };
    if from_repository is Some {
        from_repository
    } else {
        match member(package, "homepage"@) {
            Some(Json::Str(h)) => Some(h@),
            _ => None,
        }
    }
}

/// Where a package manifest points for its sources, if anywhere.
#[verifier::spinoff_prover]
pub fn repository_from_package(package: &Json) -> (r: Option<String>)
    ensures
        opt_str_view(r) == repository_reference(*package),
{
    match member_exec(package, "repository") {
        Some(Json::Str(t)) => {
            return Some(t.clone());
        },
        Some(r) => {
            if let Some(Json::Str(u)) = member_exec(r, "url") {
                return Some(u.clone());
            }
        },
        None => {},
    }
    match member_exec(package, "homepage") {
        Some(Json::Str(h)) => Some(h.clone()),
        _ => None,
    }
}

} // verus!
