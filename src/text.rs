use vstd::prelude::*;
use vstd::std_specs::iter::IteratorSpec;

verus! {

/// Unicode `White_Space` characters, the set that `str::trim` removes.
pub open spec fn is_ws(c: char) -> bool {
    ('\u{9}' <= c && c <= '\u{d}') || c == ' ' || c == '\u{85}' || c == '\u{a0}' || c
        == '\u{1680}' || ('\u{2000}' <= c && c <= '\u{200a}') || c == '\u{2028}' || c
        == '\u{2029}' || c == '\u{202f}' || c == '\u{205f}' || c == '\u{3000}'
}

#[verifier::spinoff_prover]
pub fn is_whitespace_char(c: char) -> (r: bool)
    ensures
        r == is_ws(c),
{
    ('\u{9}' <= c && c <= '\u{d}') || c == ' ' || c == '\u{85}' || c == '\u{a0}' || c
        == '\u{1680}' || ('\u{2000}' <= c && c <= '\u{200a}') || c == '\u{2028}' || c
        == '\u{2029}' || c == '\u{202f}' || c == '\u{205f}' || c == '\u{3000}'
}

/// `s` without its leading whitespace.
pub open spec fn trim_start(s: Seq<char>) -> Seq<char>
    decreases s.len(),
{
    if s.len() > 0 && is_ws(s[0]) {
        trim_start(s.drop_first())
    } else {
        s
    }
}

/// `s` without its trailing whitespace.
pub open spec fn trim_end(s: Seq<char>) -> Seq<char>
    decreases s.len(),
{
    if s.len() > 0 && is_ws(s.last()) {
        trim_end(s.drop_last())
    } else {
        s
    }
}

pub open spec fn trim(s: Seq<char>) -> Seq<char> {
    trim_end(trim_start(s))
}

/// `s` without any leading or trailing occurrence of `c`.
pub open spec fn trim_char(s: Seq<char>, c: char) -> Seq<char> {
    trim_char_end(trim_char_start(s, c), c)
}

pub open spec fn trim_char_start(s: Seq<char>, c: char) -> Seq<char>
    decreases s.len(),
{
    if s.len() > 0 && s[0] == c {
        trim_char_start(s.drop_first(), c)
    } else {
        s
    }
}

pub open spec fn trim_char_end(s: Seq<char>, c: char) -> Seq<char>
    decreases s.len(),
{
    if s.len() > 0 && s.last() == c {
        trim_char_end(s.drop_last(), c)
    } else {
        s
    }
}

pub open spec fn has_prefix(s: Seq<char>, p: Seq<char>) -> bool {
    p.len() <= s.len() && s.subrange(0, p.len() as int) == p
}

/// Whether `p` occurs in `s` starting at index `i`.
pub open spec fn occurs_at(s: Seq<char>, p: Seq<char>, i: int) -> bool {
    0 <= i && i + p.len() <= s.len() && s.subrange(i, i + p.len()) == p
}

/// Index of the first occurrence of `p` in `s`, if any.
pub open spec fn find_from(s: Seq<char>, p: Seq<char>, i: int) -> Option<int>
    decreases s.len() + 1 - i,
{
    if i < 0 || i + p.len() > s.len() {
        None
    } else if occurs_at(s, p, i) {
        Some(i)
    } else {
        find_from(s, p, i + 1)
    }
}

/// Where `find_from` finds `p`, `p` fits inside `s`.
pub proof fn lemma_find_from_bounds(s: Seq<char>, p: Seq<char>, i: int)
    ensures
        find_from(s, p, i) matches Some(k) ==> i <= k && k + p.len() <= s.len() && occurs_at(s, p, k),
    decreases s.len() + 1 - i,
{
    if !(i < 0 || i + p.len() > s.len()) && !occurs_at(s, p, i) {
        lemma_find_from_bounds(s, p, i + 1);
    }
}

pub open spec fn find(s: Seq<char>, p: Seq<char>) -> Option<int> {
    find_from(s, p, 0)
}

/// Index of the first occurrence of the character `c` in `s`, if any.
pub open spec fn index_of(s: Seq<char>, c: char) -> Option<int> {
    if exists|i: int| 0 <= i < s.len() && s[i] == c {
        Some(choose|i: int| 0 <= i < s.len() && s[i] == c && forall|j: int| 0 <= j < i ==> s[j] != c)
    } else {
        None
    }
}

/// The code of `c` with ASCII capitals mapped to lower case.
pub open spec fn ascii_lower(c: char) -> u32 {
    if 'A' <= c && c <= 'Z' {
        ((c as u32) + 32) as u32
    } else {
        c as u32
    }
}

#[verifier::spinoff_prover]
pub fn ascii_lower_exec(c: char) -> (r: u32)
    ensures
        r == ascii_lower(c),
{
    if 'A' <= c && c <= 'Z' {
        (c as u32) + 32
    } else {
        c as u32
    }
}

pub open spec fn eq_ignore_ascii_case(a: Seq<char>, b: Seq<char>) -> bool {
    a.len() == b.len() && forall|i: int| 0 <= i < a.len() ==> ascii_lower(a[i]) == ascii_lower(b[i])
}

/// The characters of `s`, one element each.
#[verifier::spinoff_prover]
pub fn chars_of(s: &str) -> (v: Vec<char>)
    ensures
        v@ == s@,
{
    broadcast use vstd::string::axiom_spec_iter, vstd::string::next_postcondition;

    let mut it = s.chars();
    let mut v: Vec<char> = Vec::new();
    loop
        invariant
            v@ + it.remaining() == s@,
            it.decrease() is Some,
        ensures
            v@ == s@,
        decreases it.decrease()->0,
    {
        let ghost before = it.remaining();
        match it.next() {
            Some(c) => {
                v.push(c);
                assert(v@ + it.remaining() =~= s@) by {
                    assert(before =~= seq![c] + before.drop_first());
                }
            },
            None => {
                assert(before.len() == 0);
                assert(v@ + before =~= v@);
                break;
            },
        }
    }
    v
}

/// Bounds `(lo, hi)` of `trim(c[lo..hi])` inside `c`.
#[verifier::spinoff_prover]
pub fn trim_bounds(c: &Vec<char>, lo: usize, hi: usize) -> (r: (usize, usize))
    requires
        lo <= hi <= c@.len(),
    ensures
        lo <= r.0 <= r.1 <= hi,
        c@.subrange(r.0 as int, r.1 as int) == trim(c@.subrange(lo as int, hi as int)),
{
    let mut a = lo;
    while a < hi && is_whitespace_char(c[a])
        invariant
            lo <= a <= hi <= c@.len(),
            trim_start(c@.subrange(lo as int, hi as int)) == trim_start(c@.subrange(a as int, hi as int)),
        decreases hi - a,
    {
        assert(c@.subrange(a as int, hi as int).drop_first() =~= c@.subrange(a + 1, hi as int));
        a = a + 1;
    }
    let mut b = hi;
    while b > a && is_whitespace_char(c[b - 1])
        invariant
            lo <= a <= b <= hi <= c@.len(),
            trim_end(c@.subrange(a as int, hi as int)) == trim_end(c@.subrange(a as int, b as int)),
        decreases b,
    {
        assert(c@.subrange(a as int, b as int).drop_last() =~= c@.subrange(a as int, b - 1));
        b = b - 1;
    }
    (a, b)
}

/// `s` with leading and trailing whitespace removed.
#[verifier::spinoff_prover]
pub fn trim_str(s: &str) -> (r: &str)
    ensures
        r@ == trim(s@),
{
    let c = chars_of(s);
    let (a, b) = trim_bounds(&c, 0, c.len());
    assert(c@.subrange(0, c@.len() as int) =~= c@);
    s.substring_char(a, b)
}

/// Whether `p` occurs in `c` at index `i`.
#[verifier::spinoff_prover]
pub fn occurs_at_exec(c: &Vec<char>, p: &Vec<char>, i: usize) -> (r: bool)
    ensures
        r == occurs_at(c@, p@, i as int),
{
    if i > c.len() || p.len() > c.len() - i {
        return false;
    }
    let mut k: usize = 0;
    while k < p.len()
        invariant
            i + p@.len() <= c@.len(),
            k <= p@.len(),
            forall|j: int| 0 <= j < k ==> c@[i + j] == p@[j],
        decreases p@.len() - k,
    {
        assert(i + k < c.len());
        if c[i + k] != p[k] {
            assert(c@.subrange(i as int, i + p@.len())[k as int] != p@[k as int]);
            return false;
        }
        k = k + 1;
    }
    assert(c@.subrange(i as int, i + p@.len()) =~= p@);
    true
}

/// Whether `s` begins with `p`.
#[verifier::spinoff_prover]
pub fn starts_with(s: &str, p: &str) -> (r: bool)
    ensures
        r == has_prefix(s@, p@),
{
    let c = chars_of(s);
    let q = chars_of(p);
    occurs_at_exec(&c, &q, 0)
}

/// `s` without the prefix `p`, if `s` begins with it.
#[verifier::spinoff_prover]
pub fn strip_prefix<'a>(s: &'a str, p: &str) -> (r: Option<&'a str>)
    ensures
        r is Some <==> has_prefix(s@, p@),
        r is Some ==> r->0@ == s@.subrange(p@.len() as int, s@.len() as int),
{
    let c = chars_of(s);
    let q = chars_of(p);
    if occurs_at_exec(&c, &q, 0) {
        Some(s.substring_char(q.len(), c.len()))
    } else {
        None
    }
}

/// Index of the first occurrence of `p` in `c` at or after `from`.
#[verifier::spinoff_prover]
pub fn find_exec(c: &Vec<char>, p: &Vec<char>, from: usize) -> (r: Option<usize>)
    requires
        from <= c@.len(),
    ensures
        match r {
            Some(i) => find_from(c@, p@, from as int) == Some(i as int),
            None => find_from(c@, p@, from as int) is None,
        },
    decreases c@.len() - from,
{
    if p.len() > c.len() - from {
        return None;
    }
    if occurs_at_exec(c, p, from) {
        return Some(from);
    }
    if from == c.len() {
        assert(p@.len() == 0);
        assert(c@.subrange(from as int, from as int) =~= p@);
        return None;
    }
    find_exec(c, p, from + 1)
}

/// Index of the first occurrence of the character `ch` in `c[from..]`.
#[verifier::spinoff_prover]
pub fn index_of_exec(c: &Vec<char>, ch: char) -> (r: Option<usize>)
    ensures
        match r {
            Some(i) => index_of(c@, ch) == Some(i as int) && i < c@.len() && c@[i as int] == ch
                && forall|j: int| 0 <= j < i ==> c@[j] != ch,
            None => index_of(c@, ch) is None && !c@.contains(ch),
        },
{
    let mut i: usize = 0;
    while i < c.len()
        invariant
            i <= c@.len(),
            forall|j: int| 0 <= j < i ==> c@[j] != ch,
        decreases c@.len() - i,
    {
        if c[i] == ch {
            proof {
                let w = choose|k: int| 0 <= k < c@.len() && c@[k] == ch && forall|j: int| 0 <= j < k ==> c@[j] != ch;
                assert(w == i as int) by {
                    if w < i as int {
                    } else if w > i as int {
                        assert(c@[i as int] != ch);
                    }
                }
            }
            return Some(i);
        }
        i = i + 1;
    }
    None
}

/// Whether the character `ch` occurs in `c`.
#[verifier::spinoff_prover]
pub fn contains_char(c: &Vec<char>, ch: char) -> (r: bool)
    ensures
        r == c@.contains(ch),
{
    match index_of_exec(c, ch) {
        Some(i) => true,
        None => {
            assert(!c@.contains(ch));
            false
        }
    }
}

/// `s` without leading or trailing occurrences of `ch`.
#[verifier::spinoff_prover]
pub fn trim_char_str(s: &str, ch: char) -> (r: &str)
    ensures
        r@ == trim_char(s@, ch),
{
    let c = chars_of(s);
    let n = c.len();
    let mut a: usize = 0;
    assert(c@.subrange(0, n as int) =~= c@);
    while a < n && c[a] == ch
        invariant
            a <= n == c@.len(),
            c@ == s@,
            trim_char_start(s@, ch) == trim_char_start(c@.subrange(a as int, n as int), ch),
        decreases n - a,
    {
        assert(c@.subrange(a as int, n as int).drop_first() =~= c@.subrange(a + 1, n as int));
        a = a + 1;
    }
    assert(c@.subrange(0, n as int) =~= c@);
    let mut b = n;
    while b > a && c[b - 1] == ch
        invariant
            a <= b <= n == c@.len(),
            trim_char_end(c@.subrange(a as int, n as int), ch) == trim_char_end(c@.subrange(a as int, b as int), ch),
        decreases b,
    {
        assert(c@.subrange(a as int, b as int).drop_last() =~= c@.subrange(a as int, b - 1));
        b = b - 1;
    }
    s.substring_char(a, b)
}

/// Whether two strings hold the same characters.
#[verifier::spinoff_prover]
pub fn same_str(a: &str, b: &str) -> (r: bool)
    ensures
        r == (a@ == b@),
{
    let x = chars_of(a);
    let y = chars_of(b);
    if x.len() != y.len() {
        return false;
    }
    let r = occurs_at_exec(&x, &y, 0);
    assert(r ==> x@.subrange(0, y@.len() as int) =~= x@);
    assert(x@ == y@ ==> x@.subrange(0, y@.len() as int) =~= x@);
    r
}

/// Whether `a` and `b` are equal once ASCII capitals are mapped to lower case.
#[verifier::spinoff_prover]
pub fn eq_ignore_ascii_case_exec(a: &Vec<char>, b: &Vec<char>) -> (r: bool)
    ensures
        r == eq_ignore_ascii_case(a@, b@),
{
    if a.len() != b.len() {
        return false;
    }
    let mut i: usize = 0;
    while i < a.len()
        invariant
            a@.len() == b@.len(),
            i <= a@.len(),
            forall|j: int| 0 <= j < i ==> ascii_lower(a@[j]) == ascii_lower(b@[j]),
        decreases a@.len() - i,
    {
        if ascii_lower_exec(a[i]) != ascii_lower_exec(b[i]) {
            return false;
        }
        i = i + 1;
    }
    true
}

/// `s` without trailing occurrences of `ch`.
#[verifier::spinoff_prover]
pub fn trim_end_char_str(s: &str, ch: char) -> (r: &str)
    ensures
        r@ == trim_char_end(s@, ch),
{
    let c = chars_of(s);
    let mut b = c.len();
    assert(c@.subrange(0, b as int) =~= c@);
    while b > 0 && c[b - 1] == ch
        invariant
            b <= c@.len(),
            c@ == s@,
            trim_char_end(s@, ch) == trim_char_end(c@.subrange(0, b as int), ch),
        decreases b,
    {
        assert(c@.subrange(0, b as int).drop_last() =~= c@.subrange(0, b - 1));
        b = b - 1;
    }
    s.substring_char(0, b)
}

/// Index of the last occurrence of `c` in `s`, if any.
pub open spec fn rfind_char(s: Seq<char>, c: char) -> Option<int>
    decreases s.len(),
{
    if s.len() == 0 {
        None
    } else if s.last() == c {
        Some(s.len() - 1)
    } else {
        rfind_char(s.drop_last(), c)
    }
}

#[verifier::spinoff_prover]
pub fn rfind_char_exec(v: &Vec<char>, ch: char) -> (r: Option<usize>)
    ensures
        match r {
            Some(i) => rfind_char(v@, ch) == Some(i as int) && i < v@.len(),
            None => rfind_char(v@, ch) is None,
        },
{
    let mut b = v.len();
    assert(v@.subrange(0, b as int) =~= v@);
    while b > 0
        invariant
            b <= v@.len(),
            rfind_char(v@, ch) == rfind_char(v@.subrange(0, b as int), ch),
        decreases b,
    {
        assert(v@.subrange(0, b as int).drop_last() =~= v@.subrange(0, b - 1));
        if v[b - 1] == ch {
            return Some(b - 1);
        }
        b = b - 1;
    }
    None
}

/// `l` without one trailing carriage return.
pub open spec fn strip_cr(l: Seq<char>) -> Seq<char> {
    if l.len() > 0 && l.last() == '\r' {
        l.drop_last()
    } else {
        l
    }
}

/// The lines of `s` as `str::lines` yields them: split at `\n`, a `\r` before
/// it dropped, no empty line after a final `\n`.
pub open spec fn lines_of(s: Seq<char>) -> Seq<Seq<char>>
    decreases s.len(),
{
    if s.len() == 0 {
        seq![]
    } else {
        match index_of(s, '\n') {
            Some(k) => if 0 <= k < s.len() {
                seq![strip_cr(s.subrange(0, k))] + lines_of(s.subrange(k + 1, s.len() as int))
            } else {
                seq![]
            },
            None => seq![s],
        }
    }
}

/// Index of the first `ch` in `c` at or after `from`.
#[verifier::spinoff_prover]
pub fn index_of_from(c: &Vec<char>, ch: char, from: usize) -> (r: Option<usize>)
    requires
        from <= c@.len(),
    ensures
        match r {
            Some(k) => from <= k < c@.len() && c@[k as int] == ch && forall|j: int|
                from <= j < k ==> c@[j] != ch,
            None => forall|j: int| from <= j < c@.len() ==> c@[j] != ch,
        },
{
    let mut i = from;
    while i < c.len()
        invariant
            from <= i <= c@.len(),
            forall|j: int| from <= j < i ==> c@[j] != ch,
        decreases c@.len() - i,
    {
        if c[i] == ch {
            return Some(i);
        }
        i = i + 1;
    }
    None
}

/// The line that starts at `pos`, and where the line after it starts; `c`
/// holds the characters of `s`.
#[verifier::spinoff_prover]
#[verifier::rlimit(40)]
pub fn next_line<'a>(s: &'a str, c: &Vec<char>, pos: usize) -> (r: (&'a str, usize))
    requires
        c@ == s@,
        pos < s@.len(),
    ensures
        pos < r.1 <= s@.len(),
        lines_of(s@.subrange(pos as int, s@.len() as int)) == seq![r.0@] + lines_of(
            s@.subrange(r.1 as int, s@.len() as int),
        ),
{
    let n = c.len();
    let ghost rest = s@.subrange(pos as int, n as int);
    match index_of_from(c, '\n', pos) {
        Some(k) => {
            let ghost off = (k - pos) as int;
            assert(index_of(rest, '\n') == Some(off)) by {
                assert(rest[off] == '\n');
                let w = choose|i: int|
                    0 <= i < rest.len() && rest[i] == '\n' && forall|j: int| 0 <= j < i ==> rest[j] != '\n';
                assert(w == off) by {
                    if w < off {
                        assert(c@[pos + w] != '\n');
                    } else if w > off {
                        assert(rest[off] == '\n');
                    }
                }
            }
            let line = if k > pos && c[k - 1] == '\r' {
                s.substring_char(pos, k - 1)
            } else {
                s.substring_char(pos, k)
            };
            assert(line@ == strip_cr(rest.subrange(0, off))) by {
                if k > pos && c@[k - 1] == '\r' {
                    assert(rest.subrange(0, off).drop_last() =~= s@.subrange(pos as int, k - 1));
                } else {
                    assert(rest.subrange(0, off) =~= s@.subrange(pos as int, k as int));
                }
            }
            assert(rest.subrange(off + 1, rest.len() as int) =~= s@.subrange(k + 1, n as int));
            (line, k + 1)
        },
        None => {
            assert(index_of(rest, '\n') is None) by {
                if exists|i: int| 0 <= i < rest.len() && rest[i] == '\n' {
                    let i = choose|i: int| 0 <= i < rest.len() && rest[i] == '\n';
                    assert(c@[pos + i] == '\n');
                }
            }
            let line = s.substring_char(pos, n);
            assert(s@.subrange(n as int, n as int) =~= Seq::<char>::empty());
            assert(seq![line@] + Seq::<Seq<char>>::empty() =~= seq![line@]);
            (line, n)
        },
    }
}

/// The lines of `s`, as `lines_of` gives them.
#[verifier::spinoff_prover]
#[verifier::rlimit(40)]
pub fn lines_vec(s: &str) -> (r: Vec<&str>)
    ensures
        r@.map_values(|l: &str| l@) == lines_of(s@),
{
    let c = chars_of(s);
    let n = c.len();
    let mut pos: usize = 0;
    let mut out: Vec<&str> = Vec::new();
    assert(s@.subrange(0, n as int) =~= s@);
    let ghost goal = lines_of(s@);
    assert(goal =~= out@.map_values(|l: &str| l@) + lines_of(s@.subrange(0, n as int)));
    while pos < n
        invariant
            c@ == s@,
            n == s@.len(),
            pos <= n,
            goal == out@.map_values(|l: &str| l@) + lines_of(s@.subrange(pos as int, n as int)),
        decreases n - pos,
    {
        let (line, next) = next_line(s, &c, pos);
        let ghost prev = out@;
        out.push(line);
        assert(out@.map_values(|l: &str| l@) =~= prev.map_values(|l: &str| l@).push(line@));
        assert(prev.map_values(|l: &str| l@) + (seq![line@] + lines_of(s@.subrange(next as int, n as int)))
            =~= prev.map_values(|l: &str| l@).push(line@) + lines_of(s@.subrange(next as int, n as int)));
        pos = next;
    }
    assert(s@.subrange(n as int, n as int) =~= Seq::<char>::empty());
    assert(lines_of(Seq::<char>::empty()) =~= Seq::<Seq<char>>::empty());
    assert(goal =~= out@.map_values(|l: &str| l@));
    out
}

/// `s` up to its first whitespace character.
pub open spec fn first_word(s: Seq<char>) -> Seq<char> {
    if exists|i: int| 0 <= i < s.len() && is_ws(s[i]) {
        s.subrange(
            0,
            choose|i: int|
                0 <= i < s.len() && is_ws(s[i]) && forall|j: int| 0 <= j < i ==> !is_ws(s[j]),
        )
    } else {
        s
    }
}

/// `s` up to its first whitespace character.
#[verifier::spinoff_prover]
pub fn first_word_of(s: &str) -> (r: &str)
    ensures
        r@ == first_word(s@),
{
    let c = chars_of(s);
    let mut i: usize = 0;
    while i < c.len()
        invariant
            c@ == s@,
            i <= c@.len(),
            forall|j: int| 0 <= j < i ==> !is_ws(c@[j]),
        decreases c@.len() - i,
    {
        if is_whitespace_char(c[i]) {
            proof {
                let w = choose|k: int|
                    0 <= k < s@.len() && is_ws(s@[k]) && forall|j: int| 0 <= j < k ==> !is_ws(s@[j]);
                assert(w == i as int) by {
                    if w < i as int {
                    } else if w > i as int {
                        assert(!is_ws(s@[i as int]));
                    }
                }
            }
            return s.substring_char(0, i);
        }
        i = i + 1;
    }
    assert(s@.subrange(0, c@.len() as int) =~= s@);
    s
}

} // verus!
