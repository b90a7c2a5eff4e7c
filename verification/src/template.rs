use vstd::prelude::*;
use crate::text::{
    append_chars, chars_of, find_from, first_index, is_first, lemma_first_index_none,
    lemma_first_index_some, string_of, sub_chars,
};

verus! {

// A path template names environment variables between two `%` signs, as in
// `%LOCALAPPDATA%\Temp`.  A `%` without a closing partner is kept as it is.

/// Positions of the next `%` pair in `t`: the opening one and, counted from
/// just after it, the closing one.
pub open spec fn percent_pair(t: Seq<char>) -> Option<(int, int)> {
    match first_index(t, '%') {
        None => None,
        Some(i) => match first_index(t.skip(i + 1), '%') {
            None => None,
            Some(j) => Some((i, j)),
        },
    }
}

pub proof fn lemma_percent_pair_bounds(t: Seq<char>)
    ensures
        percent_pair(t) matches Some((i, j)) ==> 0 <= i && 0 <= j && i + j + 2 <= t.len(),
{
    if let Some(i) = first_index(t, '%') {
        assert(is_first(t, '%', i));
        if let Some(j) = first_index(t.skip(i + 1), '%') {
            assert(is_first(t.skip(i + 1), '%', j));
        }
    }
}

/// The variable names that `t` refers to, in order.
pub open spec fn spec_template_vars(t: Seq<char>) -> Seq<Seq<char>>
    decreases t.len(),
{
    match percent_pair(t) {
        None => seq![],
        Some((i, j)) => {
            proof {
                lemma_percent_pair_bounds(t);
            }
            seq![t.subrange(i + 1, i + 1 + j)] + spec_template_vars(t.skip(i + j + 2))
        },
    }
}

/// The value given for the first variable, `None` when it is unset.
pub open spec fn first_value(vals: Seq<Option<Seq<char>>>) -> Option<Seq<char>> {
    if vals.len() > 0 {
        vals[0]
    } else {
        None
    }
}

/// `t` with each `%NAME%` replaced by the next value of `vals`; `None` as soon
/// as a variable is unset.
pub open spec fn spec_substitute(t: Seq<char>, vals: Seq<Option<Seq<char>>>) -> Option<Seq<char>>
    decreases t.len(),
{
    match percent_pair(t) {
        None => Some(t),
        Some((i, j)) => {
            proof {
                lemma_percent_pair_bounds(t);
            }
            match first_value(vals) {
                None => None,
                Some(v) => match spec_substitute(t.skip(i + j + 2), vals.skip(1)) {
                    None => None,
                    Some(r) => Some(t.take(i) + v + r),
                },
            }
        },
    }
}

/// The first `n` variables have values in `vals`.
pub open spec fn all_set(n: int, vals: Seq<Option<Seq<char>>>) -> bool {
    forall|i: int| 0 <= i < n ==> i < vals.len() && #[trigger] vals[i] is Some
}

/// A template can be filled in exactly when every variable it names, in the
/// order [`spec_template_vars`] lists them, has a value.
pub proof fn law_substitute_defined_iff_vars_set(t: Seq<char>, vals: Seq<Option<Seq<char>>>)
    ensures
        spec_substitute(t, vals) is Some <==> all_set(spec_template_vars(t).len() as int, vals),
    decreases t.len(),
{
    lemma_percent_pair_bounds(t);
    if let Some((i, j)) = percent_pair(t) {
        let rest = t.skip(i + j + 2);
        let n = spec_template_vars(rest).len() as int;
        law_substitute_defined_iff_vars_set(rest, vals.skip(1));
        assert(spec_template_vars(t).len() == n + 1);
        if all_set(n + 1, vals) {
            assert(vals[0] is Some);
            assert forall|k: int| 0 <= k < n implies k < vals.skip(1).len() && #[trigger] vals.skip(
                1,
            )[k] is Some by {
                assert(vals[k + 1] is Some);
            }
        }
        if first_value(vals) is Some && all_set(n, vals.skip(1)) {
            assert forall|k: int| 0 <= k < n + 1 implies k < vals.len() && #[trigger] vals[k] is Some by {
                if k > 0 {
                    assert(vals.skip(1)[k - 1] is Some);
                }
            }
        }
    }
}

/// A `c` anywhere in `x` makes one of them the first.
proof fn lemma_first_exists(x: Seq<char>, c: char, k: int)
    requires
        0 <= k < x.len(),
        x[k] == c,
    ensures
        first_index(x, c) is Some,
    decreases k,
{
    if exists|j: int| 0 <= j < k && x[j] == c {
        let j = choose|j: int| 0 <= j < k && x[j] == c;
        lemma_first_exists(x, c, j);
    } else {
        assert(is_first(x, c, k));
        lemma_first_index_some(x, c, k);
    }
}

/// Text without `c` after `x` does not move the first `c`.
proof fn lemma_first_index_append(x: Seq<char>, s: Seq<char>, c: char)
    requires
        forall|j: int| 0 <= j < s.len() ==> s[j] != c,
    ensures
        first_index(x + s, c) == first_index(x, c),
{
    match first_index(x, c) {
        Some(i) => {
            assert(is_first(x, c, i));
            assert(is_first(x + s, c, i));
            lemma_first_index_some(x + s, c, i);
        },
        None => {
            assert forall|j: int| 0 <= j < x.len() implies x[j] != c by {
                if x[j] == c {
                    lemma_first_exists(x, c, j);
                }
            }
            assert forall|j: int| 0 <= j < (x + s).len() implies (x + s)[j] != c by {
                if j >= x.len() {
                    assert((x + s)[j] == s[j - x.len()]);
                }
            }
            lemma_first_index_none(x + s, c);
        },
    }
}

/// Literal text after a template comes through substitution unchanged:
/// filling in `t` followed by text without `%` gives the filled-in `t`
/// followed by that text, and fails exactly when filling in `t` fails.
pub proof fn law_substitute_keeps_literal_text(
    t: Seq<char>,
    s: Seq<char>,
    vals: Seq<Option<Seq<char>>>,
)
    requires
        forall|j: int| 0 <= j < s.len() ==> s[j] != '%',
    ensures
        spec_substitute(t + s, vals) == match spec_substitute(t, vals) {
            None => None,
            Some(r) => Some(r + s),
        },
    decreases t.len(),
{
    let u = t + s;
    lemma_percent_pair_bounds(t);
    lemma_first_index_append(t, s, '%');
    if let Some(i) = first_index(t, '%') {
        assert(is_first(t, '%', i));
        assert(u.skip(i + 1) =~= t.skip(i + 1) + s);
        lemma_first_index_append(t.skip(i + 1), s, '%');
        if let Some(j) = first_index(t.skip(i + 1), '%') {
            assert(percent_pair(u) == Some((i, j)));
            assert(percent_pair(t) == Some((i, j)));
            let rest = t.skip(i + j + 2);
            assert(u.skip(i + j + 2) =~= rest + s);
            assert(u.take(i) =~= t.take(i));
            law_substitute_keeps_literal_text(rest, s, vals.skip(1));
            if let Some(v) = first_value(vals) {
                if let Some(r) = spec_substitute(rest, vals.skip(1)) {
                    assert(t.take(i) + v + (r + s) =~= (t.take(i) + v + r) + s);
                }
            }
        } else {
            assert(percent_pair(u) is None);
        }
    } else {
        assert(percent_pair(u) is None);
    }
}

/// Text without `c` before `x` shifts the first `c` by its length.
proof fn lemma_first_index_prepend(a: Seq<char>, x: Seq<char>, c: char)
    requires
        forall|j: int| 0 <= j < a.len() ==> a[j] != c,
    ensures
        first_index(a + x, c) == match first_index(x, c) {
            None => None,
            Some(i) => Some(a.len() + i),
        },
{
    match first_index(x, c) {
        Some(i) => {
            assert(is_first(x, c, i));
            assert forall|j: int| 0 <= j < a.len() + i implies (a + x)[j] != c by {
                if j >= a.len() {
                    assert((a + x)[j] == x[j - a.len()]);
                }
            }
            assert(is_first(a + x, c, a.len() + i));
            lemma_first_index_some(a + x, c, a.len() + i);
        },
        None => {
            assert forall|j: int| 0 <= j < x.len() implies x[j] != c by {
                if x[j] == c {
                    lemma_first_exists(x, c, j);
                }
            }
            assert forall|j: int| 0 <= j < (a + x).len() implies (a + x)[j] != c by {
                if j >= a.len() {
                    assert((a + x)[j] == x[j - a.len()]);
                }
            }
            lemma_first_index_none(a + x, c);
        },
    }
}

/// Literal text before a template comes through substitution unchanged.
pub proof fn law_substitute_keeps_literal_prefix(
    a: Seq<char>,
    t: Seq<char>,
    vals: Seq<Option<Seq<char>>>,
)
    requires
        forall|j: int| 0 <= j < a.len() ==> a[j] != '%',
    ensures
        spec_substitute(a + t, vals) == match spec_substitute(t, vals) {
            None => None,
            Some(r) => Some(a + r),
        },
{
    let u = a + t;
    let n = a.len() as int;
    lemma_percent_pair_bounds(t);
    lemma_first_index_prepend(a, t, '%');
    if let Some(i) = first_index(t, '%') {
        assert(u.skip(n + i + 1) =~= t.skip(i + 1));
        if let Some(j) = first_index(t.skip(i + 1), '%') {
            assert(percent_pair(u) == Some((n + i, j)));
            assert(u.skip(n + i + j + 2) =~= t.skip(i + j + 2));
            assert(u.take(n + i) =~= a + t.take(i));
            if let Some(v) = first_value(vals) {
                if let Some(r) = spec_substitute(t.skip(i + j + 2), vals.skip(1)) {
                    assert((a + t.take(i)) + v + r =~= a + (t.take(i) + v + r));
                }
            }
        } else {
            assert(percent_pair(u) is None);
        }
    } else {
        assert(percent_pair(u) is None);
    }
}

/// A template that is one variable `%NAME%` becomes the first value given,
/// and cannot be filled in without one.
pub proof fn law_substitute_single_variable(name: Seq<char>, vals: Seq<Option<Seq<char>>>)
    requires
        forall|j: int| 0 <= j < name.len() ==> name[j] != '%',
    ensures
        vals.len() > 0 ==> spec_substitute(seq!['%'] + name + seq!['%'], vals) == vals[0],
        vals.len() == 0 ==> spec_substitute(seq!['%'] + name + seq!['%'], vals) is None,
{
    let t = seq!['%'] + name + seq!['%'];
    let n = name.len() as int;
    assert(is_first(t, '%', 0));
    lemma_first_index_some(t, '%', 0);
    assert(t.skip(1) =~= name + seq!['%']);
    assert(is_first(t.skip(1), '%', n));
    lemma_first_index_some(t.skip(1), '%', n);
    assert(percent_pair(t) == Some((0int, n)));
    let rest = t.skip(n + 2);
    assert(rest =~= Seq::<char>::empty());
    assert(first_index(rest, '%') is None);
    assert(spec_substitute(rest, vals.skip(1)) == Some(rest));
    if let Some(v) = first_value(vals) {
        assert(t.take(0) + v + rest =~= v);
    }
}

/// Where the next `%` pair of `t[pos..]` stands, in absolute positions.
fn next_pair(t: &Vec<char>, pos: usize) -> (r: Option<(usize, usize)>)
    requires
        pos <= t.len(),
    ensures
        match r {
            None => percent_pair(t@.skip(pos as int)) is None,
            Some((a, b)) => pos <= a < b < t.len() && percent_pair(t@.skip(pos as int)) == Some(
                ((a - pos) as int, (b - a - 1) as int),
            ),
        },
{
    let ghost u = t@.skip(pos as int);
    match find_from(t, pos, '%') {
        None => {
            proof {
                assert forall|j: int| 0 <= j < u.len() implies u[j] != '%' by {
                    assert(u[j] == t@[j + pos]);
                }
                lemma_first_index_none(u, '%');
            }
            None
        },
        Some(a) => {
            proof {
                lemma_first_index_some(u, '%', a - pos);
            }
            assert(u.skip(a - pos + 1) =~= t@.skip(a + 1));
            match find_from(t, a + 1, '%') {
                None => {
                    proof {
                        let w = t@.skip(a + 1);
                        assert forall|j: int| 0 <= j < w.len() implies w[j] != '%' by {
                            assert(w[j] == t@[j + a + 1]);
                        }
                        lemma_first_index_none(w, '%');
                    }
                    None
                },
                Some(b) => {
                    proof {
                        lemma_first_index_some(t@.skip(a + 1), '%', b - a - 1);
                    }
                    Some((a, b))
                },
            }
        },
    }
}

/// The names of the environment variables that `template` refers to, in order.
pub fn template_vars(template: &str) -> (r: Vec<String>)
    ensures
        r@.map_values(|s: String| s@) == spec_template_vars(template@),
{
    let t = chars_of(template);
    let mut out: Vec<String> = Vec::new();
    let mut pos: usize = 0;
    assert(t@.skip(0) =~= t@);
    loop
        invariant
            pos <= t.len(),
            t@ == template@,
            spec_template_vars(t@) == out@.map_values(|s: String| s@) + spec_template_vars(
                t@.skip(pos as int),
            ),
        decreases t.len() - pos,
    {
        let ghost u = t@.skip(pos as int);
        match next_pair(&t, pos) {
            None => {
                assert(spec_template_vars(u) == Seq::<Seq<char>>::empty());
                assert(out@.map_values(|s: String| s@) + seq![] =~= out@.map_values(
                    |s: String| s@,
                ));
                return out;
            },
            Some((a, b)) => {
                let name = sub_chars(&t, a + 1, b);
                let ghost old_out = out@.map_values(|s: String| s@);
                assert(name@ =~= u.subrange(a - pos + 1, a - pos + 1 + (b - a - 1)));
                assert(u.skip((a - pos) + (b - a - 1) + 2) =~= t@.skip(b + 1));
                out.push(string_of(&name));
                assert(out@.map_values(|s: String| s@) =~= old_out + seq![name@]);
                pos = b + 1;
            },
        }
    }
}

/// `template` with each `%NAME%` replaced by the matching entry of `values`
/// (given in the order of [`template_vars`]); `None` when one is unset.
pub fn substitute(template: &str, values: &Vec<Option<String>>) -> (r: Option<String>)
    ensures
        match r {
            Some(s) => spec_substitute(template@, values@.map_values(|v: Option<String>| match v {
                Some(s) => Some(s@),
                None => None,
            })) == Some(s@),
            None => spec_substitute(template@, values@.map_values(|v: Option<String>| match v {
                Some(s) => Some(s@),
                None => None,
            })) is None,
        },
{
    let ghost vals = values@.map_values(
        |v: Option<String>| match v {
            Some(s) => Some(s@),
            None => None,
        },
    );
    let t = chars_of(template);
    let mut acc: Vec<char> = Vec::new();
    let mut pos: usize = 0;
    let mut k: usize = 0;
    assert(t@.skip(0) =~= t@);
    assert(vals.skip(0) =~= vals);
    loop
        invariant
            pos <= t.len(),
            t@ == template@,
            k <= values.len(),
            vals == values@.map_values(
                |v: Option<String>| match v {
                    Some(s) => Some(s@),
                    None => None,
                },
            ),
            spec_substitute(t@, vals) == match spec_substitute(
                t@.skip(pos as int),
                vals.skip(k as int),
            ) {
                Some(r) => Some(acc@ + r),
                None => None,
            },
        decreases t.len() - pos,
    {
        let ghost u = t@.skip(pos as int);
        match next_pair(&t, pos) {
            None => {
                let rest = sub_chars(&t, pos, t.len());
                assert(rest@ =~= u);
                assert(spec_substitute(u, vals.skip(k as int)) == Some(u));
                append_chars(&mut acc, &rest);
                return Some(string_of(&acc));
            },
            Some((a, b)) => {
                proof {
                    lemma_percent_pair_bounds(u);
                }
                assert(u.skip((a - pos) + (b - a - 1) + 2) =~= t@.skip(b + 1));
                if k >= values.len() {
                    assert(first_value(vals.skip(k as int)) is None);
                    assert(spec_substitute(u, vals.skip(k as int)) is None);
                    return None;
                }
                assert(first_value(vals.skip(k as int)) == vals[k as int]);
                assert(vals.skip(k as int).skip(1) =~= vals.skip(k + 1));
                match &values[k] {
                    None => {
                        assert(spec_substitute(u, vals.skip(k as int)) is None);
                        return None;
                    },
                    Some(v) => {
                        let lit = sub_chars(&t, pos, a);
                        assert(lit@ =~= u.take(a - pos));
                        let vc = chars_of(v.as_str());
                        let ghost old_acc = acc@;
                        append_chars(&mut acc, &lit);
                        append_chars(&mut acc, &vc);
                        proof {
                            match spec_substitute(t@.skip(b + 1), vals.skip(k + 1)) {
                                Some(r) => {
                                    assert(old_acc + (lit@ + vc@ + r) =~= acc@ + r);
                                },
                                None => {},
                            }
                        }
                        pos = b + 1;
                        k += 1;
                    },
                }
            },
        }
    }
}

} // verus!
