use vstd::prelude::*;

use crate::candidates::{lower_of, lowers, CandidateUrls};
use crate::discovery::{opt_str_view, strings_view};
use crate::candidates::contains_string;
use crate::ecosystems::gradle::{coordinate_view, Coordinate};
use crate::text::{chars_of, contains_char, has_prefix, same_str, strip_prefix, trim, trim_str};

verus! {

/// The URLs a POM lists: the project's and its `<scm>` block's `url`,
/// `connection` and `developerConnection`, in document order.
pub struct MavenProject {
    pub urls: Vec<String>,
}

/// `t` without a leading `scm:` and then without a leading `git:`.
pub open spec fn scm_stripped(t: Seq<char>) -> Seq<char> {
    let a = if has_prefix(t, "scm:"@) {
        t.subrange("scm:"@.len() as int, t.len() as int)
    } else {
        t
    };
    if has_prefix(a, "git:"@) {
        a.subrange("git:"@.len() as int, a.len() as int)
    } else {
        a
    }
}

/// The candidate list of a POM's URLs: each trimmed, skipped if blank, stripped
/// of `scm:` and `git:` prefixes, and kept only the first time it appears up
/// to case.
pub open spec fn maven_candidates(raws: Seq<Seq<char>>) -> Seq<Seq<char>>
    decreases raws.len(),
{
    if raws.len() == 0 {
        seq![]
    } else {
        let acc = maven_candidates(raws.drop_last());
        let t = trim(raws.last());
        if t.len() == 0 {
            acc
        } else {
            let v = scm_stripped(t);
            if lowers(acc).contains(lower_of(v)) {
                acc
            } else {
                acc.push(v)
            }
        }
    }
}

impl MavenProject {
    /// The project's candidate repository URLs.
    #[verifier::spinoff_prover]
    pub fn candidate_urls(&self) -> (r: Vec<String>)
        ensures
            strings_view(r@) == maven_candidates(strings_view(self.urls@)),
    {
        let mut c = CandidateUrls::new();
        let mut i: usize = 0;
        while i < self.urls.len()
            invariant
                i <= self.urls@.len(),
                c.well_formed(),
                c.view_urls() == maven_candidates(strings_view(self.urls@.subrange(0, i as int))),
            decreases self.urls@.len() - i,
        {
            assert(strings_view(self.urls@.subrange(0, i + 1)).drop_last() =~= strings_view(
                self.urls@.subrange(0, i as int),
            ));
            let t = trim_str(self.urls[i].as_str());
            if !t.is_empty() {
                let a = match strip_prefix(t, "scm:") {
                    Some(rest) => rest,
                    None => t,
                };
                let v = match strip_prefix(a, "git:") {
                    Some(rest) => rest,
                    None => a,
                };
                c.add_exact(v);
            }
            i = i + 1;
        }
        assert(self.urls@.subrange(0, self.urls@.len() as int) =~= self.urls@);
        c.into_urls()
    }
}

/// One event of an XML reader: an element opens or closes, or text appears.
pub enum XmlEvent {
    Start(String),
    End(String),
    Text(String),
}

/// The element `n` levels above the innermost open one, if any.
pub open spec fn open_at(stack: Seq<Seq<char>>, n: int) -> Option<Seq<char>> {
    if 0 <= n < stack.len() {
        Some(stack[stack.len() - 1 - n])
    } else {
        None
    }
}

/// `stack` after an element closes.
pub open spec fn closed(stack: Seq<Seq<char>>) -> Seq<Seq<char>> {
    if stack.len() > 0 {
        stack.drop_last()
    } else {
        stack
    }
}

/// One event read into the state (open elements, URLs so far): a URL is the
/// text of a `url` element inside `project` or `scm`, or of a `connection` or
/// `developerConnection` element inside `scm`.
pub open spec fn url_step(st: (Seq<Seq<char>>, Seq<Seq<char>>), e: XmlEvent) -> (
    Seq<Seq<char>>,
    Seq<Seq<char>>,
) {
    match e {
        XmlEvent::Start(name) => (st.0.push(name@), st.1),
        XmlEvent::End(_) => (closed(st.0), st.1),
        XmlEvent::Text(raw) => {
            let t = trim(raw@);
            let current = open_at(st.0, 0);
            let parent = open_at(st.0, 1);
            if t.len() == 0 {
                st
            } else if current == Some("url"@) && (parent == Some("project"@) || parent == Some(
                "scm"@,
            )) {
                (st.0, st.1.push(t))
            } else if (current == Some("connection"@) || current == Some("developerConnection"@))
                && parent == Some("scm"@) {
                (st.0, st.1.push(t))
            } else {
                st
            }
        },
    }
}

pub open spec fn url_fold(events: Seq<XmlEvent>) -> (Seq<Seq<char>>, Seq<Seq<char>>)
    decreases events.len(),
{
    if events.len() == 0 {
        (seq![], seq![])
    } else {
        url_step(url_fold(events.drop_last()), events.last())
    }
}

fn is_open(stack: &Vec<String>, n: usize, name: &str) -> (r: bool)
    ensures
        r == (open_at(strings_view(stack@), n as int) == Some(name@)),
{
    if n < stack.len() {
        same_str(stack[stack.len() - 1 - n].as_str(), name)
    } else {
        false
    }
}

fn close_element(stack: &mut Vec<String>)
    ensures
        strings_view(final(stack)@) == closed(strings_view(old(stack)@)),
{
    let ghost prev = strings_view(stack@);
    if stack.len() > 0 {
        stack.pop();
        assert(strings_view(stack@) =~= prev.drop_last());
    }
}

impl MavenProject {
    /// The project and source-control URLs that a POM's events give.
    pub fn from_events(events: &Vec<XmlEvent>) -> (r: MavenProject)
        ensures
            strings_view(r.urls@) == url_fold(events@).1,
    {
        let mut stack: Vec<String> = Vec::new();
        let mut urls: Vec<String> = Vec::new();
        let mut i: usize = 0;
        assert(events@.subrange(0, 0) =~= Seq::<XmlEvent>::empty());
        assert(strings_view(stack@) =~= Seq::<Seq<char>>::empty());
        assert(strings_view(urls@) =~= Seq::<Seq<char>>::empty());
        while i < events.len()
            invariant
                i <= events@.len(),
                (strings_view(stack@), strings_view(urls@)) == url_fold(events@.subrange(0, i as int)),
            decreases events@.len() - i,
        {
            assert(events@.subrange(0, i + 1).drop_last() =~= events@.subrange(0, i as int));
            let ghost su = strings_view(urls@);
            match &events[i] {
                XmlEvent::Start(name) => {
                    let ghost prev = strings_view(stack@);
                    stack.push(name.clone());
                    assert(strings_view(stack@) =~= prev.push(name@));
                },
                XmlEvent::End(_) => close_element(&mut stack),
                XmlEvent::Text(raw) => {
                    let t = trim_str(raw.as_str());
                    if !t.is_empty() {
                        let keep = (is_open(&stack, 0, "url") && (is_open(&stack, 1, "project")
                            || is_open(&stack, 1, "scm"))) || ((is_open(&stack, 0, "connection")
                            || is_open(&stack, 0, "developerConnection")) && is_open(
                            &stack,
                            1,
                            "scm",
                        ));
                        if keep {
                            urls.push(String::from_str(t));
                            assert(strings_view(urls@) =~= su.push(t@));
                        }
                    }
                },
            }
            i = i + 1;
        }
        assert(events@.subrange(0, events@.len() as int) =~= events@);
        MavenProject { urls }
    }
}

/// Where a dependency element stands: outside one, in one to skip, or in one
/// whose group, artifact and version are being read.
pub enum DependencyModel {
    Idle,
    Skip,
    Capture(Option<Seq<char>>, Option<Seq<char>>, Option<Seq<char>>),
}

/// The state of a POM read: open elements, modules, complete dependencies,
/// and the dependency element being read.
pub struct PomModel {
    pub stack: Seq<Seq<char>>,
    pub modules: Seq<Seq<char>>,
    pub dependencies: Seq<(Seq<char>, Seq<char>, Seq<char>)>,
    pub current: DependencyModel,
}

/// One event read into the state: a `dependency` directly inside
/// `dependencies` is read unless it stands in `dependencyManagement` or a
/// `plugin`; it counts when its group, artifact and version were all given.
/// The text of a `module` inside `modules` names a module.
pub open spec fn pom_step(st: PomModel, e: XmlEvent) -> PomModel {
    match e {
        XmlEvent::Start(name) => {
            let current = if name@ == "dependency"@ && open_at(st.stack, 0) == Some(
                "dependencies"@,
            ) {
                if st.stack.contains("dependencyManagement"@) || st.stack.contains("plugin"@) {
                    DependencyModel::Skip
                } else {
                    DependencyModel::Capture(None, None, None)
                }
            } else {
                st.current
            };
            PomModel { stack: st.stack.push(name@), current, ..st }
        },
        XmlEvent::End(name) => {
            let stack = closed(st.stack);
            if name@ == "dependency"@ {
                let dependencies = match st.current {
                    DependencyModel::Capture(Some(g), Some(a), Some(v)) => st.dependencies.push(
                        (g, a, v),
                    ),
                    _ => st.dependencies,
                };
                PomModel { stack, dependencies, current: DependencyModel::Idle, ..st }
            } else {
                PomModel { stack, ..st }
            }
        },
        XmlEvent::Text(raw) => {
            let t = trim(raw@);
            if t.len() == 0 {
                st
            } else {
                let modules = if open_at(st.stack, 0) == Some("module"@) && open_at(st.stack, 1)
                    == Some("modules"@) {
                    st.modules.push(t)
                } else {
                    st.modules
                };
                let current = match st.current {
                    DependencyModel::Capture(g, a, v) => if open_at(st.stack, 0) == Some(
                        "groupId"@,
                    ) {
                        DependencyModel::Capture(Some(t), a, v)
                    } else if open_at(st.stack, 0) == Some("artifactId"@) {
                        DependencyModel::Capture(g, Some(t), v)
                    } else if open_at(st.stack, 0) == Some("version"@) {
                        DependencyModel::Capture(g, a, Some(t))
                    } else {
                        st.current
                    },
                    _ => st.current,
                };
                PomModel { modules, current, ..st }
            }
        },
    }
}

pub open spec fn pom_fold(events: Seq<XmlEvent>) -> PomModel
    decreases events.len(),
{
    if events.len() == 0 {
        PomModel {
            stack: seq![],
            modules: seq![],
            dependencies: seq![],
            current: DependencyModel::Idle,
        }
    } else {
        pom_step(pom_fold(events.drop_last()), events.last())
    }
}

/// What a POM declares: its dependencies and its modules.
pub struct PomContents {
    pub dependencies: Vec<Coordinate>,
    pub modules: Vec<String>,
}

enum DependencyState {
    Idle,
    Skip,
    Capture(Option<String>, Option<String>, Option<String>),
}

spec fn state_view(s: DependencyState) -> DependencyModel {
    match s {
        DependencyState::Idle => DependencyModel::Idle,
        DependencyState::Skip => DependencyModel::Skip,
        DependencyState::Capture(g, a, v) => DependencyModel::Capture(
            opt_str_view(g),
            opt_str_view(a),
            opt_str_view(v),
        ),
    }
}

pub open spec fn coordinates_view(v: Seq<Coordinate>) -> Seq<(Seq<char>, Seq<char>, Seq<char>)> {
    v.map_values(|c: Coordinate| coordinate_view(c))
}

/// Reads the dependencies and modules of a POM from its events.
pub fn parse_pom(events: &Vec<XmlEvent>) -> (r: PomContents)
    ensures
        coordinates_view(r.dependencies@) == pom_fold(events@).dependencies,
        strings_view(r.modules@) == pom_fold(events@).modules,
{
    let mut stack: Vec<String> = Vec::new();
    let mut modules: Vec<String> = Vec::new();
    let mut dependencies: Vec<Coordinate> = Vec::new();
    let mut current = DependencyState::Idle;
    let mut i: usize = 0;
    assert(events@.subrange(0, 0) =~= Seq::<XmlEvent>::empty());
    assert(strings_view(stack@) =~= Seq::<Seq<char>>::empty());
    assert(strings_view(modules@) =~= Seq::<Seq<char>>::empty());
    assert(coordinates_view(dependencies@) =~= Seq::<(Seq<char>, Seq<char>, Seq<char>)>::empty());
    while i < events.len()
        invariant
            i <= events@.len(),
            pom_fold(events@.subrange(0, i as int)) == (PomModel {
                stack: strings_view(stack@),
                modules: strings_view(modules@),
                dependencies: coordinates_view(dependencies@),
                current: state_view(current),
            }),
        decreases events@.len() - i,
    {
        assert(events@.subrange(0, i + 1).drop_last() =~= events@.subrange(0, i as int));
        let ghost sv = strings_view(stack@);
        let ghost mv = strings_view(modules@);
        let ghost dv = coordinates_view(dependencies@);
        match &events[i] {
            XmlEvent::Start(name) => {
                if same_str(name.as_str(), "dependency") && is_open(&stack, 0, "dependencies") {
                    if contains_string(&stack, "dependencyManagement") || contains_string(
                        &stack,
                        "plugin",
                    ) {
                        current = DependencyState::Skip;
                    } else {
                        current = DependencyState::Capture(None, None, None);
                    }
                }
                stack.push(name.clone());
                assert(strings_view(stack@) =~= sv.push(name@));
            },
            XmlEvent::End(name) => {
                if same_str(name.as_str(), "dependency") {
                    match current {
                        DependencyState::Capture(Some(g), Some(a), Some(v)) => {
                            dependencies.push(Coordinate { group: g, artifact: a, version: v });
                            assert(coordinates_view(dependencies@) =~= dv.push(
                                coordinate_view(dependencies@.last()),
                            ));
                        },
                        _ => {},
                    }
                    current = DependencyState::Idle;
                }
                close_element(&mut stack);
            },
            XmlEvent::Text(raw) => {
                let t = trim_str(raw.as_str());
                if !t.is_empty() {
                    if is_open(&stack, 0, "module") && is_open(&stack, 1, "modules") {
                        modules.push(String::from_str(t));
                        assert(strings_view(modules@) =~= mv.push(t@));
                    }
                    match current {
                        DependencyState::Capture(g, a, v) => {
                            if is_open(&stack, 0, "groupId") {
                                current = DependencyState::Capture(Some(String::from_str(t)), a, v);
                            } else if is_open(&stack, 0, "artifactId") {
                                current = DependencyState::Capture(g, Some(String::from_str(t)), v);
                            } else if is_open(&stack, 0, "version") {
                                current = DependencyState::Capture(g, a, Some(String::from_str(t)));
                            } else {
                                current = DependencyState::Capture(g, a, v);
                            }
                        },
                        other => {
                            current = other;
                        },
                    }
                }
            },
        }
        i = i + 1;
    }
    assert(events@.subrange(0, events@.len() as int) =~= events@);
    PomContents { dependencies, modules }
}

/// A dependency version that names one release: not empty, no property
/// reference and no range.
pub open spec fn is_fixed_version(v: Seq<char>) -> bool {
    v.len() > 0 && !v.contains('$') && !v.contains('{') && !v.contains('}') && !v.contains('[')
        && !v.contains('(')
}

/// Whether a dependency can be looked up: group, artifact and a fixed version.
pub fn is_resolvable(c: &Coordinate) -> (r: bool)
    ensures
        r == (c.group@.len() > 0 && c.artifact@.len() > 0 && is_fixed_version(c.version@)),
{
    if c.group.as_str().is_empty() || c.artifact.as_str().is_empty() || c.version.as_str().is_empty() {
        return false;
    }
    let v = chars_of(c.version.as_str());
    !contains_char(&v, '$') && !contains_char(&v, '{') && !contains_char(&v, '}') && !contains_char(
        &v,
        '[',
    ) && !contains_char(&v, '(')
}

} // verus!
