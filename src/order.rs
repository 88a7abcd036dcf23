use vstd::prelude::*;

use crate::discovery::strings_view;
use crate::text::{chars_of, same_str};

verus! {

/// Strings ordered as `str`'s `Ord` orders them: by the first differing
/// character, a proper prefix first.
pub open spec fn str_lt(a: Seq<char>, b: Seq<char>) -> bool
    decreases a.len(),
{
    if a.len() == 0 {
        b.len() > 0
    } else if b.len() == 0 {
        false
    } else if a[0] != b[0] {
        a[0] < b[0]
    } else {
        str_lt(a.drop_first(), b.drop_first())
    }
}

pub proof fn lemma_str_lt_irreflexive(a: Seq<char>)
    ensures
        !str_lt(a, a),
    decreases a.len(),
{
    if a.len() > 0 {
        lemma_str_lt_irreflexive(a.drop_first());
    }
}

pub proof fn lemma_str_lt_total(a: Seq<char>, b: Seq<char>)
    requires
        a != b,
    ensures
        str_lt(a, b) || str_lt(b, a),
    decreases a.len(),
{
    if a.len() > 0 && b.len() > 0 && a[0] == b[0] {
        if a.drop_first() == b.drop_first() {
            assert(a =~= seq![a[0]] + a.drop_first());
            assert(b =~= seq![b[0]] + b.drop_first());
        }
        lemma_str_lt_total(a.drop_first(), b.drop_first());
    } else if a.len() == 0 && b.len() == 0 {
        assert(a =~= b);
    }
}

pub proof fn lemma_str_lt_transitive(a: Seq<char>, b: Seq<char>, c: Seq<char>)
    requires
        str_lt(a, b),
        str_lt(b, c),
    ensures
        str_lt(a, c),
    decreases a.len(),
{
    if a.len() > 0 && b.len() > 0 && c.len() > 0 && a[0] == b[0] && b[0] == c[0] {
        lemma_str_lt_transitive(a.drop_first(), b.drop_first(), c.drop_first());
    }
}

pub proof fn lemma_str_lt_asymmetric(a: Seq<char>, b: Seq<char>)
    requires
        str_lt(a, b),
    ensures
        !str_lt(b, a),
{
    if str_lt(b, a) {
        lemma_str_lt_transitive(a, b, a);
        lemma_str_lt_irreflexive(a);
    }
}

/// Whether `a` orders before `b`.
pub fn str_less(a: &str, b: &str) -> (r: bool)
    ensures
        r == str_lt(a@, b@),
{
    let x = chars_of(a);
    let y = chars_of(b);
    let mut i: usize = 0;
    assert(a@.subrange(0, a@.len() as int) =~= a@);
    assert(b@.subrange(0, b@.len() as int) =~= b@);
    while i < x.len() && i < y.len() && x[i] == y[i]
        invariant
            x@ == a@,
            y@ == b@,
            i <= x@.len(),
            i <= y@.len(),
            str_lt(a@, b@) == str_lt(a@.subrange(i as int, a@.len() as int), b@.subrange(
                i as int,
                b@.len() as int,
            )),
        decreases x@.len() - i,
    {
        let ghost sa = a@.subrange(i as int, a@.len() as int);
        let ghost sb = b@.subrange(i as int, b@.len() as int);
        assert(sa.drop_first() =~= a@.subrange(i + 1, a@.len() as int));
        assert(sb.drop_first() =~= b@.subrange(i + 1, b@.len() as int));
        i = i + 1;
    }
    if i == x.len() {
        i < y.len()
    } else if i == y.len() {
        false
    } else {
        x[i] < y[i]
    }
}

/// Strictly increasing, hence without repeats.
pub open spec fn sorted(v: Seq<Seq<char>>) -> bool {
    forall|i: int, j: int| 0 <= i < j < v.len() ==> str_lt(#[trigger] v[i], #[trigger] v[j])
}

/// Adds `x` to the strictly increasing `v`, where it is not yet.
pub fn insert_sorted(v: &mut Vec<String>, x: String)
    requires
        sorted(strings_view(old(v)@)),
    ensures
        sorted(strings_view(final(v)@)),
        forall|y: Seq<char>|
            strings_view(final(v)@).contains(y) <==> (strings_view(old(v)@).contains(y) || y
                == x@),
{
    let ghost s = strings_view(v@);
    let mut i: usize = 0;
    while i < v.len() && str_less(v[i].as_str(), x.as_str())
        invariant
            s == strings_view(v@),
            i <= v@.len(),
            forall|j: int| 0 <= j < i ==> str_lt(#[trigger] s[j], x@),
        decreases v@.len() - i,
    {
        i = i + 1;
    }
    if i < v.len() && same_str(v[i].as_str(), x.as_str()) {
        assert(s[i as int] == x@);
        return;
    }
    proof {
        if i < s.len() {
            lemma_str_lt_total(s[i as int], x@);
            assert forall|j: int| i <= j < s.len() implies str_lt(x@, #[trigger] s[j]) by {
                if j > i {
                    lemma_str_lt_transitive(x@, s[i as int], s[j]);
                }
            }
        }
    }
    let ghost xv = x@;
    v.insert(i, x);
    let ghost t = strings_view(v@);
    assert(t =~= s.insert(i as int, xv));
    assert forall|a: int, b: int| 0 <= a < b < t.len() implies str_lt(#[trigger] t[a], #[trigger] t[b]) by {
        if b < i {
        } else if a < i && b == i {
        } else if a < i && b > i {
            assert(str_lt(s[a], xv));
            assert(str_lt(xv, s[b - 1]));
            lemma_str_lt_transitive(s[a], xv, s[b - 1]);
        } else if a == i {
        } else {
        }
    }
    assert forall|y: Seq<char>| t.contains(y) <==> (s.contains(y) || y == xv) by {
        if t.contains(y) {
            let k = choose|k: int| 0 <= k < t.len() && t[k] == y;
            if k < i {
                assert(s[k] == y);
            } else if k > i {
                assert(s[k - 1] == y);
            }
        }
        if s.contains(y) {
            let k = choose|k: int| 0 <= k < s.len() && s[k] == y;
            if k < i {
                assert(t[k] == y);
            } else {
                assert(t[k + 1] == y);
            }
        }
        if y == xv {
            assert(t[i as int] == y);
        }
    }
}

/// The distinct strings of `values`, in increasing order.
#[verifier::spinoff_prover]
pub fn sorted_set(values: &Vec<String>) -> (r: Vec<String>)
    ensures
        sorted(strings_view(r@)),
        forall|y: Seq<char>| strings_view(r@).contains(y) <==> strings_view(values@).contains(y),
{
    let mut out: Vec<String> = Vec::new();
    let mut i: usize = 0;
    while i < values.len()
        invariant
            i <= values@.len(),
            sorted(strings_view(out@)),
            forall|y: Seq<char>|
                strings_view(out@).contains(y) <==> strings_view(values@.subrange(0, i as int)).contains(
                    y,
                ),
        decreases values@.len() - i,
    {
        let ghost prev = strings_view(out@);
        let ghost part = strings_view(values@.subrange(0, i as int));
        assert(forall|y: Seq<char>| #[trigger] prev.contains(y) <==> part.contains(y));
        let v = values[i].clone();
        let ghost x = v@;
        insert_sorted(&mut out, v);
        assert(strings_view(values@.subrange(0, i + 1)) =~= part.push(x));
        assert forall|y: Seq<char>|
            strings_view(out@).contains(y) <==> strings_view(values@.subrange(0, i + 1)).contains(y) by {
            lemma_push_contains(part, x, y);
        }
        i = i + 1;
    }
    assert(values@.subrange(0, values@.len() as int) =~= values@);
    out
}

pub proof fn lemma_push_contains(s: Seq<Seq<char>>, x: Seq<char>, d: Seq<char>)
    ensures
        s.push(x).contains(d) <==> (s.contains(d) || d == x),
{
    let t = s.push(x);
    if t.contains(d) {
        let q = choose|q: int| 0 <= q < t.len() && t[q] == d;
        if q < s.len() {
            assert(s[q] == d);
        }
    }
    if s.contains(d) {
        let q = choose|q: int| 0 <= q < s.len() && s[q] == d;
        assert(t[q] == d);
    }
    if d == x {
        assert(t[s.len() as int] == d);
    }
}

} // verus!
