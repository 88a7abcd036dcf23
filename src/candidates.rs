use vstd::prelude::*;

use crate::discovery::{opt_str_view, strings_view};
use crate::text::{chars_of, same_str, trim, trim_str};

verus! {

/// What `str::to_lowercase` makes of a string (full Unicode case mapping).
pub uninterp spec fn lower_of(s: Seq<char>) -> Seq<char>;

/// Relies on `str::to_lowercase`: the result depends on the characters alone,
/// and an empty string stays empty.
#[verifier::external_body]
pub(crate) fn to_lowercase(s: &str) -> (r: String)
    ensures
        r@ == lower_of(s@),
        s@.len() == 0 ==> r@.len() == 0,
{
    s.to_lowercase()
}

/// Relies on `String::push`: appends one character.
#[verifier::external_body]
pub(crate) fn push_char(s: &mut String, c: char)
    ensures
        final(s)@ == old(s)@.push(c),
{
    s.push(c)
}

/// The lower-case forms of `urls`.
pub open spec fn lowers(urls: Seq<Seq<char>>) -> Seq<Seq<char>> {
    urls.map_values(|u: Seq<char>| lower_of(u))
}

/// `urls` with `value` added, trimmed, unless it is blank or already there up
/// to case.
pub open spec fn add_candidate(urls: Seq<Seq<char>>, value: Seq<char>) -> Seq<Seq<char>> {
    let t = trim(value);
    if t.len() > 0 && !lowers(urls).contains(lower_of(t)) {
        urls.push(t)
    } else {
        urls
    }
}

/// The trimmed, non-blank `values`, each kept only the first time it appears up
/// to case.
pub open spec fn candidate_list(values: Seq<Seq<char>>) -> Seq<Seq<char>>
    decreases values.len(),
{
    if values.len() == 0 {
        seq![]
    } else {
        add_candidate(candidate_list(values.drop_last()), values.last())
    }
}

/// The values that are present, in order.
pub open spec fn present(values: Seq<Option<String>>) -> Seq<Seq<char>>
    decreases values.len(),
{
    if values.len() == 0 {
        seq![]
    } else {
        present(values.drop_last()) + match values.last() {
            Some(s) => seq![s@],
            None => seq![],
        }
    }
}

pub open spec fn opt_seq(o: Option<Seq<char>>) -> Seq<Seq<char>> {
    match o {
        Some(s) => seq![s],
        None => seq![],
    }
}

/// The values of `values` that are not blank, untrimmed, in order.
pub open spec fn keep_nonblank(values: Seq<Seq<char>>) -> Seq<Seq<char>>
    decreases values.len(),
{
    if values.len() == 0 {
        seq![]
    } else {
        keep_nonblank(values.drop_last()) + if trim(values.last()).len() > 0 {
            seq![values.last()]
        } else {
            seq![]
        }
    }
}

/// The values that are present, in order.
#[verifier::spinoff_prover]
pub fn push_present(urls: &mut Vec<String>, v: &Option<String>)
    ensures
        strings_view(final(urls)@) == strings_view(old(urls)@) + opt_seq(opt_str_view(*v)),
{
    let ghost prev = urls@;
    match v {
        Some(s) => {
            urls.push(s.clone());
            assert(strings_view(urls@) =~= strings_view(prev) + seq![s@]);
        },
        None => {
            assert(strings_view(urls@) =~= strings_view(prev) + Seq::<Seq<char>>::empty());
        },
    }
}

/// Appends `v` to `urls` when it is present and not blank.
#[verifier::spinoff_prover]
pub fn push_nonblank(urls: &mut Vec<String>, v: &Option<String>, vals: Ghost<Seq<Seq<char>>>)
    requires
        strings_view(old(urls)@) == keep_nonblank(vals@),
    ensures
        strings_view(final(urls)@) == keep_nonblank(vals@ + opt_seq(opt_str_view(*v))),
{
    match v {
        Some(s) => {
            let ghost all = vals@ + seq![s@];
            assert(all.drop_last() =~= vals@);
            let ghost prev = urls@;
            if !trim_str(s.as_str()).is_empty() {
                urls.push(s.clone());
                assert(strings_view(urls@) =~= strings_view(prev).push(s@));
            }
            assert(keep_nonblank(all) =~= keep_nonblank(vals@) + if trim(s@).len() > 0 {
                seq![s@]
            } else {
                Seq::<Seq<char>>::empty()
            });
        },
        None => {
            assert(vals@ + Seq::<Seq<char>>::empty() =~= vals@);
        },
    }
}

/// Whether a string of `v` equals `s`.
#[verifier::spinoff_prover]
pub fn contains_string(v: &Vec<String>, s: &str) -> (r: bool)
    ensures
        r == strings_view(v@).contains(s@),
{
    let mut i: usize = 0;
    while i < v.len()
        invariant
            i <= v@.len(),
            forall|j: int| 0 <= j < i ==> v@[j]@ != s@,
        decreases v@.len() - i,
    {
        if same_str(v[i].as_str(), s) {
            assert(strings_view(v@)[i as int] == s@);
            return true;
        }
        i = i + 1;
    }
    proof {
        if strings_view(v@).contains(s@) {
            let j = choose|j: int| 0 <= j < v@.len() && strings_view(v@)[j] == s@;
            assert(v@[j]@ == s@);
        }
    }
    false
}

/// A growing list of candidate URLs, unique up to case.
pub struct CandidateUrls {
    urls: Vec<String>,
    seen: Vec<String>,
}

impl CandidateUrls {
    pub closed spec fn well_formed(&self) -> bool {
        strings_view(self.seen@) == lowers(strings_view(self.urls@))
    }

    pub closed spec fn view_urls(&self) -> Seq<Seq<char>> {
        strings_view(self.urls@)
    }

    #[verifier::spinoff_prover]
    pub fn new() -> (r: CandidateUrls)
        ensures
            r.well_formed(),
            r.view_urls() == Seq::<Seq<char>>::empty(),
    {
        let r = CandidateUrls { urls: Vec::new(), seen: Vec::new() };
        assert(r.view_urls() =~= Seq::<Seq<char>>::empty());
        assert(strings_view(r.seen@) =~= lowers(strings_view(r.urls@)));
        r
    }

    /// Adds `value`, trimmed, unless it is blank or already present up to case.
    #[verifier::spinoff_prover]
    pub fn add(&mut self, value: &str)
        requires
            old(self).well_formed(),
        ensures
            final(self).well_formed(),
            final(self).view_urls() == add_candidate(old(self).view_urls(), value@),
    {
        let t = trim_str(value);
        if t.is_empty() {
            return;
        }
        self.add_exact(t);
    }

    /// Adds `t` as it stands unless it is already present up to case.
    #[verifier::spinoff_prover]
    pub fn add_exact(&mut self, t: &str)
        requires
            old(self).well_formed(),
        ensures
            final(self).well_formed(),
            final(self).view_urls() == if lowers(old(self).view_urls()).contains(lower_of(t@)) {
                old(self).view_urls()
            } else {
                old(self).view_urls().push(t@)
            },
    {
        let lower = to_lowercase(t);
        if contains_string(&self.seen, lower.as_str()) {
            return;
        }
        let ghost urls0 = self.urls@;
        let ghost seen0 = self.seen@;
        self.urls.push(String::from_str(t));
        self.seen.push(lower);
        assert(strings_view(self.urls@) =~= strings_view(urls0).push(t@));
        assert(strings_view(self.seen@) =~= strings_view(seen0).push(lower@));
        assert(lowers(strings_view(self.urls@)) =~= lowers(strings_view(urls0)).push(lower_of(t@)));
    }

    /// The list built so far.
    #[verifier::spinoff_prover]
    pub fn into_urls(self) -> (r: Vec<String>)
        ensures
            strings_view(r@) == self.view_urls(),
    {
        self.urls
    }

    /// Adds `value` if it is present, extending the values the list was built from.
    #[verifier::spinoff_prover]
    pub fn add_present(&mut self, value: &Option<String>, vals: Ghost<Seq<Seq<char>>>)
        requires
            old(self).well_formed(),
            old(self).view_urls() == candidate_list(vals@),
        ensures
            final(self).well_formed(),
            final(self).view_urls() == candidate_list(vals@ + opt_seq(opt_str_view(*value))),
    {
        match value {
            Some(s) => {
                assert((vals@ + seq![s@]).drop_last() =~= vals@);
                self.add(s.as_str());
            },
            None => {
                assert(vals@ + Seq::<Seq<char>>::empty() =~= vals@);
            },
        }
    }
}

} // verus!
