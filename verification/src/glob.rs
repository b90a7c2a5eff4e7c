use vstd::prelude::*;
use crate::text::{
    chars_of, find_from, first_index, is_first, lemma_first_index_none, lemma_first_index_some,
    lemma_first_unique, lower, lower_char, to_lower,
};

verus! {

/// Whether `name` matches `pat`, ignoring ASCII case.  The pattern is cut at
/// its first `*`: without one, the two texts must be equal; with one, `name`
/// must start with the part before it and end with the part after it, the two
/// parts not overlapping in `name`.  A later `*` is an ordinary character.
pub open spec fn spec_glob_match(name: Seq<char>, pat: Seq<char>) -> bool {
    match first_index(pat, '*') {
        None => lower(name) == lower(pat),
        Some(k) => {
            let pre = pat.take(k);
            let suf = pat.skip(k + 1);
            &&& name.len() >= pre.len() + suf.len()
            &&& lower(name.take(pre.len() as int)) == lower(pre)
            &&& lower(name.skip(name.len() - suf.len())) == lower(suf)
        },
    }
}

/// Whether `a[a_from..a_from+n]` and `b[b_from..b_from+n]` agree up to ASCII case.
fn eq_ignore_case_at(a: &Vec<char>, a_from: usize, b: &Vec<char>, b_from: usize, n: usize) -> (r: bool)
    requires
        a_from + n <= a.len(),
        b_from + n <= b.len(),
    ensures
        r == (lower(a@.subrange(a_from as int, a_from + n)) == lower(
            b@.subrange(b_from as int, b_from + n),
        )),
{
    let ghost la = lower(a@.subrange(a_from as int, a_from + n));
    let ghost lb = lower(b@.subrange(b_from as int, b_from + n));
    let mut i: usize = 0;
    while i < n
        invariant
            a_from + n <= a.len(),
            b_from + n <= b.len(),
            i <= n,
            la == lower(a@.subrange(a_from as int, a_from + n)),
            lb == lower(b@.subrange(b_from as int, b_from + n)),
            la.len() == n,
            lb.len() == n,
            forall|j: int| 0 <= j < i ==> la[j] == lb[j],
        decreases n - i,
    {
        assert(la[i as int] == lower_char(a@[a_from + i]));
        assert(lb[i as int] == lower_char(b@[b_from + i]));
        if to_lower(a[a_from + i]) != to_lower(b[b_from + i]) {
            return false;
        }
        i += 1;
    }
    assert(la =~= lb);
    true
}

/// File-name matching with at most one `*`, ignoring ASCII case (the way the
/// Windows file system compares names).
pub fn glob_match(name: &str, pat: &str) -> (r: bool)
    ensures
        r == spec_glob_match(name@, pat@),
{
    let n = chars_of(name);
    let p = chars_of(pat);
    match find_from(&p, 0, '*') {
        None => {
            assert(p@.skip(0) =~= p@);
            assert(!(exists|i: int| is_first(p@, '*', i)));
            if n.len() != p.len() {
                assert(lower(n@).len() != lower(p@).len());
                false
            } else {
                assert(n@.subrange(0, n.len() as int) =~= n@);
                assert(p@.subrange(0, p.len() as int) =~= p@);
                eq_ignore_case_at(&n, 0, &p, 0, n.len())
            }
        },
        Some(k) => {
            assert(p@.skip(0) =~= p@);
            proof {
                let c = choose|i: int| is_first(p@, '*', i);
                lemma_first_unique(p@, '*', c, k as int);
            }
            let pre_len = k;
            let suf_len = p.len() - k - 1;
            if n.len() < pre_len || n.len() - pre_len < suf_len {
                false
            } else {
                assert(n@.take(pre_len as int) =~= n@.subrange(0, pre_len as int));
                assert(p@.take(pre_len as int) =~= p@.subrange(0, pre_len as int));
                assert(n@.skip(n.len() - suf_len) =~= n@.subrange(
                    n.len() - suf_len,
                    n.len() - suf_len + suf_len,
                ));
                assert(p@.skip(k + 1) =~= p@.subrange(k + 1, k + 1 + suf_len));
                eq_ignore_case_at(&n, 0, &p, 0, pre_len) && eq_ignore_case_at(
                    &n,
                    n.len() - suf_len,
                    &p,
                    k + 1,
                    suf_len,
                )
            }
        },
    }
}

proof fn lemma_lower_twice(s: Seq<char>)
    ensures
        lower(lower(s)) == lower(s),
{
    assert(lower(lower(s)) =~= lower(s));
}

proof fn lemma_lower_star(s: Seq<char>)
    ensures
        first_index(lower(s), '*') == first_index(s, '*'),
{
    let l = lower(s);
    assert forall|i: int| 0 <= i < s.len() implies (l[i] == '*') == (s[i] == '*') by {}
    if exists|i: int| is_first(s, '*', i) {
        let i = choose|i: int| is_first(s, '*', i);
        assert(is_first(l, '*', i));
        lemma_first_index_some(s, '*', i);
        lemma_first_index_some(l, '*', i);
    } else if exists|i: int| is_first(l, '*', i) {
        let i = choose|i: int| is_first(l, '*', i);
        assert(is_first(s, '*', i));
    } else {
        assert forall|j: int| 0 <= j < s.len() implies s[j] != '*' by {
            if s[j] == '*' {
                if exists|i: int| 0 <= i < j && s[i] == '*' {
                    let i = choose|i: int| 0 <= i < j && s[i] == '*';
                    lemma_no_first_means_none(s, i);
                } else {
                    assert(is_first(s, '*', j));
                }
            }
        }
        lemma_first_index_none(s, '*');
        lemma_first_index_none(l, '*');
    }
}

/// A `*` at `i` means there is a first `*`.
proof fn lemma_no_first_means_none(s: Seq<char>, i: int)
    requires
        0 <= i < s.len(),
        s[i] == '*',
    ensures
        exists|k: int| is_first(s, '*', k),
    decreases i,
{
    if exists|j: int| 0 <= j < i && s[j] == '*' {
        let j = choose|j: int| 0 <= j < i && s[j] == '*';
        lemma_no_first_means_none(s, j);
    } else {
        assert(is_first(s, '*', i));
    }
}

/// Matching ignores ASCII case on both sides: lower-casing the name or the
/// pattern first changes nothing.
pub proof fn law_glob_ignores_ascii_case(name: Seq<char>, pat: Seq<char>)
    ensures
        spec_glob_match(name, pat) == spec_glob_match(lower(name), lower(pat)),
{
    lemma_lower_star(pat);
    lemma_lower_twice(name);
    lemma_lower_twice(pat);
    if let Some(k) = first_index(pat, '*') {
        assert(is_first(pat, '*', k)) by {
            assert(exists|i: int| is_first(pat, '*', i));
        }
        let pre = pat.take(k);
        let suf = pat.skip(k + 1);
        let ln = lower(name);
        let lp = lower(pat);
        assert(lp.take(k) =~= lower(pre));
        assert(lp.skip(k + 1) =~= lower(suf));
        assert(lower(lower(pre)) =~= lower(pre));
        assert(lower(lower(suf)) =~= lower(suf));
        if name.len() >= pre.len() + suf.len() {
            assert(lower(ln.take(pre.len() as int)) =~= lower(name.take(pre.len() as int)));
            assert(lower(ln.skip(name.len() - suf.len())) =~= lower(
                name.skip(name.len() - suf.len()),
            ));
        }
    }
}

} // verus!
