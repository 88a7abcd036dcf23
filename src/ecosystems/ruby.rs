use vstd::prelude::*;

use crate::candidates::{keep_nonblank, opt_seq, push_nonblank};
use crate::discovery::{opt_str_view, strings_view};
use crate::text::{first_word, first_word_of, chars_of, has_prefix, lines_of, next_line, starts_with, trim, trim_char_end, trim_end_char_str, trim_str};

verus! {

/// A gem name as written in a Gemfile or lockfile: trimmed, without trailing
/// `!` marks; none if nothing is left.
pub open spec fn normalize_dependency_name_spec(raw: Seq<char>) -> Option<Seq<char>> {
    let t = trim(raw);
    if t.len() == 0 {
        None
    } else {
        let n = trim(trim_char_end(t, '!'));
        if n.len() == 0 {
            None
        } else {
            Some(n)
        }
    }
}

/// Cleans a gem name: trimmed, trailing `!` marks dropped; none if blank.
#[verifier::spinoff_prover]
pub fn normalize_dependency_name(raw: &str) -> (r: Option<String>)
    ensures
        opt_str_view(r) == normalize_dependency_name_spec(raw@),
{
    let t = trim_str(raw);
    if t.is_empty() {
        return None;
    }
    let n = trim_str(trim_end_char_str(t, '!'));
    if n.is_empty() {
        return None;
    }
    Some(String::from_str(n))
}

/// One line of a `Gemfile.lock` read into the state (gem names so far, inside
/// the `DEPENDENCIES` section, section over): the section ends at a blank or
/// unindented line, and each of its lines names a gem by its first word.
pub open spec fn lock_step(st: (Seq<Seq<char>>, bool, bool), line: Seq<char>) -> (
    Seq<Seq<char>>,
    bool,
    bool,
) {
    if st.2 {
        st
    } else if trim(line).len() == 0 {
        (st.0, st.1, st.1)
    } else if has_prefix(line, "DEPENDENCIES"@) {
        (st.0, true, false)
    } else if st.1 {
        if !(line[0] == ' ' || line[0] == '\t') {
            (st.0, true, true)
        } else {
            match normalize_dependency_name_spec(first_word(trim(line))) {
                Some(n) => (st.0.push(n), true, false),
                None => st,
            }
        }
    } else {
        st
    }
}

pub open spec fn lock_fold(lines: Seq<Seq<char>>, st: (Seq<Seq<char>>, bool, bool)) -> (
    Seq<Seq<char>>,
    bool,
    bool,
)
    decreases lines.len(),
{
    if lines.len() == 0 {
        st
    } else {
        lock_fold(lines.drop_first(), lock_step(st, lines[0]))
    }
}

/// The gems that the `DEPENDENCIES` section of a `Gemfile.lock` lists, in order.
pub open spec fn lock_dependencies_spec(content: Seq<char>) -> Seq<Seq<char>> {
    lock_fold(lines_of(content), (seq![], false, false)).0
}

#[verifier::spinoff_prover]
fn lock_line(names: &mut Vec<String>, in_deps: bool, done: bool, line: &str) -> (r: (bool, bool))
    ensures
        (strings_view(final(names)@), r.0, r.1) == lock_step(
            (strings_view(old(names)@), in_deps, done),
            line@,
        ),
{
    if done {
        return (in_deps, done);
    }
    let t = trim_str(line);
    if t.is_empty() {
        return (in_deps, in_deps);
    }
    if starts_with(line, "DEPENDENCIES") {
        return (true, false);
    }
    if !in_deps {
        return (in_deps, done);
    }
    let c = chars_of(line);
    assert(c@.len() > 0) by {
        if c@.len() == 0 {
            assert(line@ =~= Seq::<char>::empty());
        }
    }
    if !(c[0] == ' ' || c[0] == '\t') {
        return (true, true);
    }
    match normalize_dependency_name(first_word_of(t)) {
        Some(n) => {
            let ghost prev = names@;
            names.push(n);
            assert(strings_view(names@) =~= strings_view(prev).push(names@.last()@));
            (true, false)
        },
        None => (true, false),
    }
}

/// The gem names that the `DEPENDENCIES` section of a `Gemfile.lock` lists.
#[verifier::spinoff_prover]
#[verifier::rlimit(40)]
pub fn gemfile_lock_dependencies(content: &str) -> (r: Vec<String>)
    ensures
        strings_view(r@) == lock_dependencies_spec(content@),
{
    let chars = chars_of(content);
    let n = chars.len();
    let mut pos: usize = 0;
    let mut names: Vec<String> = Vec::new();
    let mut in_deps = false;
    let mut done = false;
    assert(content@.subrange(0, n as int) =~= content@);
    assert(strings_view(names@) =~= Seq::<Seq<char>>::empty());
    let ghost goal = lock_dependencies_spec(content@);
    while pos < n
        invariant
            chars@ == content@,
            n == content@.len(),
            pos <= n,
            goal == lock_fold(
                lines_of(content@.subrange(pos as int, n as int)),
                (strings_view(names@), in_deps, done),
            ).0,
        decreases n - pos,
    {
        let (line, next) = next_line(content, &chars, pos);
        let ghost ls = lines_of(content@.subrange(pos as int, n as int));
        assert(ls.drop_first() =~= lines_of(content@.subrange(next as int, n as int)));
        let (a, b) = lock_line(&mut names, in_deps, done, line);
        in_deps = a;
        done = b;
        pos = next;
    }
    assert(content@.subrange(n as int, n as int) =~= Seq::<char>::empty());
    assert(lines_of(Seq::<char>::empty()) =~= Seq::<Seq<char>>::empty());
    names
}

/// The gem names that the `gem "name"` declarations of a Gemfile quote, in
/// order, as the pattern `(?m)^\s*gem\s+['"]([^'"]+)['"]` captures them.
pub uninterp spec fn gem_declarations_of(content: Seq<char>) -> Seq<Seq<char>>;

/// Relies on `regex::Regex::new` and `Regex::captures_iter`: the first group
/// of each match of the gem-declaration pattern, in order.
#[verifier::external_body]
fn gem_declarations(content: &str) -> (r: Vec<String>)
    ensures
        strings_view(r@) == gem_declarations_of(content@),
{
    let pattern = regex::Regex::new(r#"(?m)^\s*gem\s+['"]([^'"]+)['"]"#).unwrap();
    pattern
        .captures_iter(content)
        .filter_map(|caps| caps.get(1))
        .map(|m| m.as_str().to_string())
        .collect()
}

/// The declared gems that have a name once cleaned, in order.
pub open spec fn declared_names(captures: Seq<Seq<char>>) -> Seq<Seq<char>>
    decreases captures.len(),
{
    if captures.len() == 0 {
        seq![]
    } else {
        declared_names(captures.drop_last()) + match normalize_dependency_name_spec(
            captures.last(),
        ) {
            Some(n) => seq![n],
            None => seq![],
        }
    }
}

/// Cleans the gem names that a Gemfile declares, dropping those left blank.
#[verifier::spinoff_prover]
pub fn names_from_declarations(captures: &Vec<String>) -> (r: Vec<String>)
    ensures
        strings_view(r@) == declared_names(strings_view(captures@)),
{
    let mut out: Vec<String> = Vec::new();
    let mut i: usize = 0;
    assert(strings_view(out@) =~= declared_names(strings_view(captures@.subrange(0, 0))));
    while i < captures.len()
        invariant
            i <= captures@.len(),
            strings_view(out@) == declared_names(strings_view(captures@.subrange(0, i as int))),
        decreases captures@.len() - i,
    {
        assert(strings_view(captures@.subrange(0, i + 1)).drop_last() =~= strings_view(
            captures@.subrange(0, i as int),
        ));
        let ghost prev = out@;
        match normalize_dependency_name(captures[i].as_str()) {
            Some(n) => {
                out.push(n);
                assert(strings_view(out@) =~= strings_view(prev) + seq![out@.last()@]);
            },
            None => {
                assert(strings_view(out@) =~= strings_view(prev) + Seq::<Seq<char>>::empty());
            },
        }
        i = i + 1;
    }
    assert(captures@.subrange(0, captures@.len() as int) =~= captures@);
    out
}

/// The gems a Gemfile declares, cleaned, in order.
#[verifier::spinoff_prover]
pub fn gemfile_dependencies(content: &str) -> (r: Vec<String>)
    ensures
        strings_view(r@) == declared_names(gem_declarations_of(content@)),
{
    names_from_declarations(&gem_declarations(content))
}

/// The links a gem's metadata block lists.
pub struct RubyGemMetadata {
    pub source_code_uri: Option<String>,
    pub homepage_uri: Option<String>,
    pub wiki_uri: Option<String>,
    pub documentation_uri: Option<String>,
    pub bug_tracker_uri: Option<String>,
}

/// What the RubyGems API tells of a gem's links.
pub struct RubyGem {
    pub source_code_uri: Option<String>,
    pub homepage_uri: Option<String>,
    pub wiki_uri: Option<String>,
    pub documentation_uri: Option<String>,
    pub bug_tracker_uri: Option<String>,
    pub metadata: Option<RubyGemMetadata>,
}

/// The links of a metadata block in the order they are tried: source code,
/// home page, bug tracker, documentation, wiki.
pub open spec fn metadata_values(m: RubyGemMetadata) -> Seq<Seq<char>> {
    opt_seq(opt_str_view(m.source_code_uri)) + opt_seq(opt_str_view(m.homepage_uri)) + opt_seq(
        opt_str_view(m.bug_tracker_uri),
    ) + opt_seq(opt_str_view(m.documentation_uri)) + opt_seq(opt_str_view(m.wiki_uri))
}

/// A gem's own links in that order, then those of its metadata.
pub open spec fn gem_values(g: RubyGem) -> Seq<Seq<char>> {
    opt_seq(opt_str_view(g.source_code_uri)) + opt_seq(opt_str_view(g.homepage_uri)) + opt_seq(
        opt_str_view(g.bug_tracker_uri),
    ) + opt_seq(opt_str_view(g.documentation_uri)) + opt_seq(opt_str_view(g.wiki_uri)) + match g.metadata {
        Some(m) => metadata_values(m),
        None => seq![],
    }
}

impl RubyGemMetadata {
    /// Appends the non-blank links of this block to `target`.
    #[verifier::spinoff_prover]
    pub fn extend_urls(&self, target: &mut Vec<String>, vals: Ghost<Seq<Seq<char>>>)
        requires
            strings_view(old(target)@) == keep_nonblank(vals@),
        ensures
            strings_view(final(target)@) == keep_nonblank(vals@ + metadata_values(*self)),
    {
        let ghost v = vals@;
        push_nonblank(target, &self.source_code_uri, Ghost(v));
        proof { v = v + opt_seq(opt_str_view(self.source_code_uri)); }
        push_nonblank(target, &self.homepage_uri, Ghost(v));
        proof { v = v + opt_seq(opt_str_view(self.homepage_uri)); }
        push_nonblank(target, &self.bug_tracker_uri, Ghost(v));
        proof { v = v + opt_seq(opt_str_view(self.bug_tracker_uri)); }
        push_nonblank(target, &self.documentation_uri, Ghost(v));
        proof { v = v + opt_seq(opt_str_view(self.documentation_uri)); }
        push_nonblank(target, &self.wiki_uri, Ghost(v));
        proof { v = v + opt_seq(opt_str_view(self.wiki_uri)); }
        assert(v =~= vals@ + metadata_values(*self));
    }
}

impl RubyGem {
    /// The gem's non-blank links, as written, in the order they are tried.
    #[verifier::spinoff_prover]
    pub fn candidate_urls(&self) -> (r: Vec<String>)
        ensures
            strings_view(r@) == keep_nonblank(gem_values(*self)),
    {
        let mut urls: Vec<String> = Vec::new();
        let ghost v: Seq<Seq<char>> = seq![];
        assert(strings_view(urls@) =~= keep_nonblank(v));
        push_nonblank(&mut urls, &self.source_code_uri, Ghost(v));
        proof { v = v + opt_seq(opt_str_view(self.source_code_uri)); }
        push_nonblank(&mut urls, &self.homepage_uri, Ghost(v));
        proof { v = v + opt_seq(opt_str_view(self.homepage_uri)); }
        push_nonblank(&mut urls, &self.bug_tracker_uri, Ghost(v));
        proof { v = v + opt_seq(opt_str_view(self.bug_tracker_uri)); }
        push_nonblank(&mut urls, &self.documentation_uri, Ghost(v));
        proof { v = v + opt_seq(opt_str_view(self.documentation_uri)); }
        push_nonblank(&mut urls, &self.wiki_uri, Ghost(v));
        proof { v = v + opt_seq(opt_str_view(self.wiki_uri)); }
        match &self.metadata {
            Some(m) => {
                m.extend_urls(&mut urls, Ghost(v));
                proof { v = v + metadata_values(*m); }
            },
            None => {
                assert(v + Seq::<Seq<char>>::empty() =~= v);
            },
        }
        assert(v =~= gem_values(*self));
        urls
    }
}

} // verus!
