use vstd::prelude::*;
use crate::glob::{glob_match, spec_glob_match};
use crate::text::{append_chars, chars_of, is_sep, string_of, sub_chars};
use crate::winpath::{
    PathParts, PathView, body_start, has_root, has_cur_dir, is_ascii_alpha, kept, names_of, parse_path,
    physical_root, prefix_len, seg_len, sep_of, has_verbatim, spec_parse_path, is_sep_exec,
    verbatim_exec, prefix_end, has_drive, with_seps,
};

verus! {

// Expansion of a path with one `*` component: the directory in front of the
// `*` component is listed, every entry whose name matches that component is
// kept, and the components after it are appended.

/// The components of a parsed path as texts: the prefix, `\` for the root,
/// `.` for a leading current-directory component, then the names.
pub open spec fn component_texts(p: PathView) -> Seq<Seq<char>> {
    (if p.prefix.len() > 0 {
        seq![p.prefix]
    } else {
        seq![]
    }) + (if p.root {
        seq![seq!['\\']]
    } else {
        seq![]
    }) + (if p.cur_dir {
        seq![seq!['.']]
    } else {
        seq![]
    }) + p.names
}

/// `b` is nothing but a drive prefix such as `C:`.
pub open spec fn is_drive_only(b: Seq<char>) -> bool {
    b.len() == 2 && is_ascii_alpha(b[0]) && b[1] == ':'
}

/// A component text that is an ordinary name (not the root, `.` or `..`).
pub open spec fn is_normal_text(t: Seq<char>) -> bool {
    t != seq!['\\'] && t != seq!['.'] && t != seq!['.', '.']
}

/// One component pushed onto the components of a verbatim path: the root
/// keeps only the prefix before it, `.` is dropped, `..` removes a trailing
/// ordinary name, and anything else is appended.
pub open spec fn vpush(buf: Seq<Seq<char>>, c: Seq<char>) -> Seq<Seq<char>> {
    if c == seq!['\\'] {
        buf.take(1).push(c)
    } else if c == seq!['.'] {
        buf
    } else if c == seq!['.', '.'] {
        if buf.len() > 1 && is_normal_text(buf.last()) {
            buf.drop_last()
        } else {
            buf
        }
    } else {
        buf.push(c)
    }
}

pub open spec fn vpush_all(buf: Seq<Seq<char>>, cs: Seq<Seq<char>>) -> Seq<Seq<char>>
    decreases cs.len(),
{
    if cs.len() == 0 {
        buf
    } else {
        vpush_all(vpush(buf, cs[0]), cs.drop_first())
    }
}

/// The text of the components after a verbatim prefix: `\` between them,
/// except right after the root.
pub open spec fn vrender_rest(cs: Seq<Seq<char>>, need_sep: bool) -> Seq<char>
    decreases cs.len(),
{
    if cs.len() == 0 {
        seq![]
    } else {
        let root = cs[0] == seq!['\\'];
        (if need_sep && !root {
            seq!['\\']
        } else {
            seq![]
        }) + cs[0] + vrender_rest(cs.drop_first(), !root)
    }
}

/// The text of the components of a verbatim path.
pub open spec fn vrender(buf: Seq<Seq<char>>) -> Seq<char> {
    buf[0] + vrender_rest(buf.drop_first(), true)
}

/// `base` with the path `c` appended, the way Windows does it: a `c` with a
/// prefix replaces `base`; on a verbatim `base` the components are rebuilt
/// (see [`vpush`]); a `c` that starts with a separator keeps only the prefix
/// of `base`; otherwise a separator goes between them unless `base` is empty,
/// already ends with one, or is a bare drive.
pub open spec fn join(base: Seq<char>, c: Seq<char>) -> Seq<char> {
    if prefix_len(c) > 0 {
        c
    } else if has_verbatim(base) && c.len() > 0 {
        vrender(
            vpush_all(
                component_texts(spec_parse_path(base)),
                component_texts(spec_parse_path(c)),
            ),
        )
    } else if c.len() > 0 && is_sep(c[0]) {
        base.take(prefix_len(base)) + c
    } else if base.len() > 0 && !is_sep(base.last()) && !is_drive_only(base) {
        base + seq!['\\'] + c
    } else {
        base + c
    }
}

/// `base` with the components `comps` appended in order.
pub open spec fn join_all(base: Seq<char>, comps: Seq<Seq<char>>) -> Seq<char>
    decreases comps.len(),
{
    if comps.len() == 0 {
        base
    } else {
        join_all(join(base, comps[0]), comps.drop_first())
    }
}

pub open spec fn has_star(c: Seq<char>) -> bool {
    c.contains('*')
}

/// `k` is the first component that holds a `*`.
pub open spec fn is_first_star(comps: Seq<Seq<char>>, k: int) -> bool {
    &&& 0 <= k < comps.len()
    &&& has_star(comps[k])
    &&& forall|j: int| 0 <= j < k ==> !has_star(#[trigger] comps[j])
}

/// A path cut at its first `*` component.
pub struct WildView {
    pub base: Seq<char>,
    pub pattern: Seq<char>,
    pub rest: Seq<Seq<char>>,
}

/// `s` cut at its first component that holds a `*`: the directory before it,
/// the component itself, and the components after it; `None` when no
/// component holds a `*`.
pub open spec fn spec_split_wildcard(s: Seq<char>) -> Option<WildView> {
    let comps = component_texts(spec_parse_path(s));
    if exists|k: int| is_first_star(comps, k) {
        let k = choose|k: int| is_first_star(comps, k);
        Some(
            WildView {
                base: join_all(seq![], comps.take(k)),
                pattern: comps[k],
                rest: comps.skip(k + 1),
            },
        )
    } else {
        None
    }
}

/// The paths that a listing of `w.base` yields: for each listed name that
/// matches `w.pattern`, in listing order, the name joined to the base and
/// followed by `w.rest`.
pub open spec fn spec_expand_matches(w: WildView, names: Seq<Seq<char>>) -> Seq<Seq<char>>
    decreases names.len(),
{
    if names.len() == 0 {
        seq![]
    } else {
        let prev = spec_expand_matches(w, names.drop_last());
        if spec_glob_match(names.last(), w.pattern) {
            prev.push(join_all(join(w.base, names.last()), w.rest))
        } else {
            prev
        }
    }
}

/// A name with no separator that is not read as a drive.
pub open spec fn bare_name(c: Seq<char>) -> bool {
    &&& c.len() > 0
    &&& forall|i: int| 0 <= i < c.len() ==> !is_sep(c[i])
    &&& !has_drive(c)
}

/// A directory onto which names are joined with one `\` each: not empty, not
/// ending in a separator, not a bare drive, and not verbatim even once a `\`
/// follows it.
pub open spec fn plain_base(x: Seq<char>) -> bool {
    &&& x.len() > 0
    &&& !is_sep(x.last())
    &&& !is_drive_only(x)
    &&& !has_verbatim(x + seq!['\\'])
}

proof fn lemma_join_bare(x: Seq<char>, c: Seq<char>)
    requires
        plain_base(x),
        bare_name(c),
    ensures
        join(x, c) == x + seq!['\\'] + c,
        plain_base(x + seq!['\\'] + c),
{
    assert(!is_sep(c[0]));
    assert(prefix_len(c) == 0);
    if has_verbatim(x) {
        assert((x + seq!['\\'])[3] == x[3]);
    }
    assert(!has_verbatim(x));
    let y = x + seq!['\\'] + c;
    assert(y.last() == c.last());
    let z = y + seq!['\\'];
    if x.len() >= 3 {
        assert(z[0] == (x + seq!['\\'])[0] && z[1] == (x + seq!['\\'])[1] && z[2] == (x
            + seq!['\\'])[2] && z[3] == (x + seq!['\\'])[3]);
    } else if x.len() == 2 {
        assert(z[3] == c[0]);
    } else {
        assert(z[0] == x.last());
    }
}

proof fn lemma_join_all_bare(x: Seq<char>, cs: Seq<Seq<char>>)
    requires
        plain_base(x),
        forall|k: int| 0 <= k < cs.len() ==> bare_name(#[trigger] cs[k]),
    ensures
        join_all(x, cs) == x + with_seps(cs),
    decreases cs.len(),
{
    if cs.len() == 0 {
        assert(x + with_seps(cs) =~= x);
    } else {
        assert(bare_name(cs[0]));
        lemma_join_bare(x, cs[0]);
        let rest = cs.drop_first();
        assert forall|k: int| 0 <= k < rest.len() implies bare_name(#[trigger] rest[k]) by {
            assert(rest[k] == cs[k + 1]);
        }
        lemma_join_all_bare(x + seq!['\\'] + cs[0], rest);
        assert(x + seq!['\\'] + cs[0] + with_seps(rest) =~= x + with_seps(cs));
    }
}

/// Expanding a wildcard onto an ordinary directory gives, for each listed
/// name that matches the pattern and in listing order, the directory followed
/// by that name and then by every component after the wildcard, each after
/// one `\`.
pub proof fn law_expansion_appends_every_component(w: WildView, names: Seq<Seq<char>>)
    requires
        plain_base(w.base),
        forall|k: int| 0 <= k < names.len() ==> bare_name(#[trigger] names[k]),
        forall|k: int| 0 <= k < w.rest.len() ==> bare_name(#[trigger] w.rest[k]),
    ensures
        spec_expand_matches(w, names) == names.filter(|n: Seq<char>| spec_glob_match(n, w.pattern)).map_values(
            |n: Seq<char>| w.base + with_seps(seq![n] + w.rest),
        ),
    decreases names.len(),
{
    reveal(Seq::filter);
    let f = |n: Seq<char>| w.base + with_seps(seq![n] + w.rest);
    let pred = |n: Seq<char>| spec_glob_match(n, w.pattern);
    if names.len() > 0 {
        let init = names.drop_last();
        let n = names.last();
        assert forall|k: int| 0 <= k < init.len() implies bare_name(#[trigger] init[k]) by {
            assert(init[k] == names[k]);
        }
        law_expansion_appends_every_component(w, init);
        assert(bare_name(n));
        lemma_join_bare(w.base, n);
        lemma_join_all_bare(w.base + seq!['\\'] + n, w.rest);
        assert(with_seps(seq![n] + w.rest) =~= seq!['\\'] + n + with_seps(w.rest)) by {
            assert((seq![n] + w.rest).drop_first() =~= w.rest);
        }
        assert(w.base + seq!['\\'] + n + with_seps(w.rest) =~= f(n));
        let sub = init.filter(pred);
        if pred(n) {
            assert(names.filter(pred) == sub.push(n));
            assert(sub.push(n).map_values(f) =~= sub.map_values(f).push(f(n)));
        } else {
            assert(names.filter(pred) == sub);
        }
    } else {
        assert(names.filter(pred) =~= names);
        assert(names.map_values(f) =~= Seq::<Seq<char>>::empty());
    }
}

pub proof fn lemma_seg_len_facts(t: Seq<char>, v: bool)
    ensures
        seg_len(t, v) <= t.len(),
        forall|i: int| 0 <= i < seg_len(t, v) ==> !sep_of(v, t[i]),
        seg_len(t, v) < t.len() ==> sep_of(v, t[seg_len(t, v) as int]),
    decreases t.len(),
{
    if t.len() > 0 && !sep_of(v, t[0]) {
        lemma_seg_len_facts(t.drop_first(), v);
        assert forall|i: int| 0 <= i < seg_len(t, v) implies !sep_of(v, t[i]) by {
            if i > 0 {
                assert(t[i] == t.drop_first()[i - 1]);
            }
        }
    }
}

/// A `*` in `t` lies in one of its names.
pub proof fn lemma_star_in_names(t: Seq<char>, v: bool, m: int)
    requires
        0 <= m < t.len(),
        t[m] == '*',
    ensures
        exists|i: int| 0 <= i < names_of(t, v).len() && has_star(#[trigger] names_of(t, v)[i]),
    decreases t.len(),
{
    lemma_seg_len_facts(t, v);
    let k = seg_len(t, v) as int;
    let seg = t.take(k);
    if m < k {
        assert(seg.len() == k);
        assert(seg[m] == '*');
        if seg =~= seq!['.'] {
            assert(m == 0);
            assert(seg[0] == '.');
        }
        assert(kept(seg, v));
        assert(names_of(t, v)[0] == seg);
    } else {
        assert(m != k);
        let u = t.skip(k + 1);
        assert(u[m - k - 1] == '*');
        lemma_star_in_names(u, v, m - k - 1);
        let i = choose|i: int|
            0 <= i < names_of(u, v).len() && has_star(#[trigger] names_of(u, v)[i]);
        if kept(seg, v) {
            assert(names_of(t, v)[i + 1] == names_of(u, v)[i]);
        } else {
            assert(names_of(t, v)[i] == names_of(u, v)[i]);
        }
    }
}

/// Every `*` of a name of `t` comes from `t`.
pub proof fn lemma_names_star(t: Seq<char>, v: bool, i: int)
    requires
        0 <= i < names_of(t, v).len(),
        has_star(names_of(t, v)[i]),
    ensures
        t.contains('*'),
    decreases t.len(),
{
    lemma_seg_len_facts(t, v);
    let k = seg_len(t, v) as int;
    let seg = t.take(k);
    if kept(seg, v) && i == 0 {
        let m = choose|m: int| 0 <= m < seg.len() && seg[m] == '*';
        assert(t[m] == '*');
    } else {
        let u = t.skip(k + 1);
        let j = if kept(seg, v) {
            i - 1
        } else {
            i
        };
        assert(k < t.len());
        assert(names_of(t, v)[i] == names_of(u, v)[j]);
        lemma_names_star(u, v, j);
        let m = choose|m: int| 0 <= m < u.len() && u[m] == '*';
        assert(t[m + k + 1] == '*');
    }
}

/// Some component holds a `*`: there is a first one.
pub proof fn lemma_first_star_exists(comps: Seq<Seq<char>>, k: int)
    requires
        0 <= k < comps.len(),
        has_star(comps[k]),
    ensures
        exists|f: int| is_first_star(comps, f),
    decreases k,
{
    if exists|j: int| 0 <= j < k && has_star(#[trigger] comps[j]) {
        let j = choose|j: int| 0 <= j < k && has_star(#[trigger] comps[j]);
        lemma_first_star_exists(comps, j);
    } else {
        assert(is_first_star(comps, k));
    }
}

pub proof fn lemma_prefix_len_bounds(s: Seq<char>)
    ensures
        0 <= prefix_len(s) <= s.len(),
        0 <= body_start(s) <= s.len(),
{
    lemma_seg_len_facts(s.skip(2), false);
    lemma_seg_len_facts(s.skip(4), false);
    lemma_seg_len_facts(s.skip(4), true);
    if 2 + seg_len(s.skip(2), false) < s.len() {
        lemma_seg_len_facts(s.skip(2 + seg_len(s.skip(2), false) + 1int), false);
    }
    if s.len() >= 8 {
        lemma_seg_len_facts(s.skip(8), true);
        if 8 + seg_len(s.skip(8), true) < s.len() {
            lemma_seg_len_facts(s.skip(8 + seg_len(s.skip(8), true) + 1int), true);
        }
    }
}

/// A path holds a `*` exactly when one of its components does.
pub proof fn lemma_star_components(s: Seq<char>)
    ensures
        s.contains('*') <==> exists|k: int| is_first_star(component_texts(spec_parse_path(s)), k),
{
    lemma_prefix_len_bounds(s);
    let p = spec_parse_path(s);
    let comps = component_texts(p);
    let np: int = if p.prefix.len() > 0 {
        1
    } else {
        0
    };
    let nr: int = if p.root {
        1
    } else {
        0
    };
    let nc: int = if p.cur_dir {
        1
    } else {
        0
    };
    let off = np + nr + nc;
    let body = s.skip(body_start(s));
    assert(comps.len() == off + p.names.len());
    assert forall|i: int| 0 <= i < p.names.len() implies comps[off + i] == p.names[i] by {}
    if s.contains('*') {
        let m = choose|m: int| 0 <= m < s.len() && s[m] == '*';
        if m < prefix_len(s) {
            assert(p.prefix[m] == '*');
            assert(comps[0] == p.prefix);
            lemma_first_star_exists(comps, 0);
        } else {
            if physical_root(s) {
                assert(m != prefix_len(s));
            }
            assert(m >= body_start(s));
            assert(body[m - body_start(s)] == '*');
            lemma_star_in_names(body, has_verbatim(s), m - body_start(s));
            let i = choose|i: int|
                0 <= i < names_of(body, has_verbatim(s)).len() && has_star(
                    #[trigger] names_of(body, has_verbatim(s))[i],
                );
            lemma_first_star_exists(comps, off + i);
        }
    }
    if exists|k: int| is_first_star(comps, k) {
        let k = choose|k: int| is_first_star(comps, k);
        if k < np {
            let m = choose|m: int| 0 <= m < p.prefix.len() && p.prefix[m] == '*';
            assert(s[m] == '*');
        } else if k < off {
            let c = comps[k];
            assert(c == seq!['\\'] || c == seq!['.']);
            let m = choose|m: int| 0 <= m < c.len() && c[m] == '*';
            assert(c[m] != '*');
        } else {
            lemma_names_star(body, has_verbatim(s), k - off);
            let m = choose|m: int| 0 <= m < body.len() && body[m] == '*';
            assert(s[m + body_start(s)] == '*');
        }
    }
}

pub proof fn lemma_first_star_unique(comps: Seq<Seq<char>>, i: int, k: int)
    requires
        is_first_star(comps, i),
        is_first_star(comps, k),
    ensures
        i == k,
{
    if i < k {
        assert(!has_star(comps[i]));
    } else if k < i {
        assert(!has_star(comps[k]));
    }
}

/// A path cut at its first `*` component.
pub struct WildSplit {
    pub base: String,
    pub pattern: String,
    pub rest: Vec<String>,
}

impl WildSplit {
    pub open spec fn view(&self) -> WildView {
        WildView {
            base: self.base@,
            pattern: self.pattern@,
            rest: self.rest@.map_values(|x: String| x@),
        }
    }
}

fn has_star_exec(c: &Vec<char>) -> (r: bool)
    ensures
        r == has_star(c@),
{
    let mut i: usize = 0;
    while i < c.len()
        invariant
            i <= c.len(),
            forall|j: int| 0 <= j < i ==> c@[j] != '*',
        decreases c.len() - i,
    {
        if c[i] == '*' {
            return true;
        }
        i += 1;
    }
    false
}

/// The components of a parsed path as texts.
fn components_of(parts: PathParts) -> (r: Vec<Vec<char>>)
    ensures
        r@.map_values(|v: Vec<char>| v@) == component_texts(parts.view()),
{
    let ghost pv = parts.view();
    let PathParts { prefix, root, cur_dir, names } = parts;
    let ghost h1: Seq<Seq<char>> = if pv.prefix.len() > 0 {
        seq![pv.prefix]
    } else {
        seq![]
    };
    let ghost h2: Seq<Seq<char>> = if pv.root {
        seq![seq!['\\']]
    } else {
        seq![]
    };
    let ghost h3: Seq<Seq<char>> = if pv.cur_dir {
        seq![seq!['.']]
    } else {
        seq![]
    };
    let mut comps: Vec<Vec<char>> = Vec::new();
    if prefix.len() > 0 {
        comps.push(prefix);
    }
    assert(comps@.map_values(|v: Vec<char>| v@) =~= h1);
    if root {
        let ghost b = comps@.map_values(|v: Vec<char>| v@);
        let rt = vec!['\\'];
        assert(rt@ =~= seq!['\\']);
        comps.push(rt);
        assert(comps@.map_values(|v: Vec<char>| v@) =~= b.push(seq!['\\']));
    }
    assert(comps@.map_values(|v: Vec<char>| v@) =~= h1 + h2);
    if cur_dir {
        let ghost b = comps@.map_values(|v: Vec<char>| v@);
        let cd = vec!['.'];
        assert(cd@ =~= seq!['.']);
        comps.push(cd);
        assert(comps@.map_values(|v: Vec<char>| v@) =~= b.push(seq!['.']));
    }
    assert(comps@.map_values(|v: Vec<char>| v@) =~= h1 + h2 + h3);
    let ghost head = comps@;
    let mut names = names;
    let ghost nm = names@;
    assert(nm.map_values(|v: Vec<char>| v@) == pv.names);
    comps.append(&mut names);
    assert(comps@ =~= head + nm);
    assert(comps@.map_values(|v: Vec<char>| v@) =~= (h1 + h2 + h3) + pv.names);
    comps
}

fn is_text(t: &Vec<char>, a: char) -> (r: bool)
    ensures
        r == (t@ == seq![a]),
{
    let r = t.len() == 1 && t[0] == a;
    proof {
        if r {
            assert(t@ =~= seq![a]);
        }
        if t@ == seq![a] {
            assert(t@.len() == 1);
        }
    }
    r
}

fn is_dotdot(t: &Vec<char>) -> (r: bool)
    ensures
        r == (t@ == seq!['.', '.']),
{
    let r = t.len() == 2 && t[0] == '.' && t[1] == '.';
    proof {
        if r {
            assert(t@ =~= seq!['.', '.']);
        }
        if t@ == seq!['.', '.'] {
            assert(t@.len() == 2);
        }
    }
    r
}

/// Rebuilds the text of verbatim `base` with the path `c` appended.
fn verbatim_join(base: &Vec<char>, c: &Vec<char>) -> (r: Vec<char>)
    requires
        has_verbatim(base@),
        prefix_len(c@) == 0,
        c.len() > 0,
    ensures
        r@ == join(base@, c@),
{
    let mut buf = components_of(parse_path(base));
    let cs = components_of(parse_path(c));
    let ghost cv = cs@.map_values(|v: Vec<char>| v@);
    let ghost target = vpush_all(component_texts(spec_parse_path(base@)), cv);
    proof {
        lemma_prefix_len_bounds(base@);
    }
    assert(prefix_len(base@) >= 4);
    assert(spec_parse_path(base@).prefix.len() > 0);
    assert(component_texts(spec_parse_path(base@)).len() >= 1);
    assert(buf@.map_values(|v: Vec<char>| v@).len() == buf@.len());
    let mut i: usize = 0;
    assert(cv.skip(0) =~= cv);
    while i < cs.len()
        invariant
            i <= cs.len(),
            cv == cs@.map_values(|v: Vec<char>| v@),
            buf@.len() >= 1,
            target == vpush_all(buf@.map_values(|v: Vec<char>| v@), cv.skip(i as int)),
        decreases cs.len() - i,
    {
        let ghost bv = buf@.map_values(|v: Vec<char>| v@);
        assert(cv.skip(i as int)[0] == cs@[i as int]@);
        assert(cv.skip(i as int).drop_first() =~= cv.skip(i + 1));
        let item = &cs[i];
        if is_text(item, '\\') {
            buf.truncate(1);
            let rt = vec!['\\'];
            assert(rt@ =~= seq!['\\']);
            buf.push(rt);
            assert(buf@.map_values(|v: Vec<char>| v@) =~= bv.take(1).push(seq!['\\']));
        } else if is_text(item, '.') {
        } else if is_dotdot(item) {
            let n = buf.len();
            if n > 1 {
                let last_root = is_text(&buf[n - 1], '\\');
                let last_dot = is_text(&buf[n - 1], '.');
                let last_dotdot = is_dotdot(&buf[n - 1]);
                assert(bv.last() == buf@[n - 1]@);
                if !last_root && !last_dot && !last_dotdot {
                    buf.pop();
                    assert(buf@.map_values(|v: Vec<char>| v@) =~= bv.drop_last());
                }
            }
        } else {
            let mut copy: Vec<char> = Vec::new();
            append_chars(&mut copy, item);
            assert(copy@ =~= item@);
            buf.push(copy);
            assert(buf@.map_values(|v: Vec<char>| v@) =~= bv.push(cv[i as int]));
        }
        i += 1;
    }
    assert(cv.skip(cs.len() as int) =~= Seq::<Seq<char>>::empty());
    let ghost fb = buf@.map_values(|v: Vec<char>| v@);
    assert(fb == target);
    let mut out: Vec<char> = Vec::new();
    append_chars(&mut out, &buf[0]);
    let mut need_sep = true;
    let mut j: usize = 1;
    assert(fb.drop_first() =~= fb.skip(1));
    assert(out@ =~= fb[0]);
    while j < buf.len()
        invariant
            1 <= j <= buf.len(),
            fb == buf@.map_values(|v: Vec<char>| v@),
            vrender(fb) == out@ + vrender_rest(fb.skip(j as int), need_sep),
        decreases buf.len() - j,
    {
        let ghost before = out@;
        assert(fb.skip(j as int)[0] == buf@[j as int]@);
        assert(fb.skip(j as int).drop_first() =~= fb.skip(j + 1));
        let root = is_text(&buf[j], '\\');
        if need_sep && !root {
            out.push('\\');
        }
        append_chars(&mut out, &buf[j]);
        proof {
            let sep: Seq<char> = if need_sep && !root {
                seq!['\\']
            } else {
                seq![]
            };
            assert(out@ =~= before + sep + fb[j as int]);
            assert(before + (sep + fb[j as int] + vrender_rest(fb.skip(j + 1), !root)) =~= out@
                + vrender_rest(fb.skip(j + 1), !root));
        }
        need_sep = !root;
        j += 1;
    }
    assert(fb.skip(buf.len() as int) =~= Seq::<Seq<char>>::empty());
    assert(out@ + Seq::<char>::empty() =~= out@);
    out
}

fn join_exec(base: &Vec<char>, c: &Vec<char>) -> (r: Vec<char>)
    ensures
        r@ == join(base@, c@),
{
    let pc = prefix_end(c);
    if pc > 0 {
        let mut r: Vec<char> = Vec::new();
        append_chars(&mut r, c);
        assert(r@ =~= c@);
        return r;
    }
    if verbatim_exec(base) && c.len() > 0 {
        return verbatim_join(base, c);
    }
    let mut r: Vec<char> = Vec::new();
    if c.len() > 0 && is_sep_exec(c[0]) {
        let pb = prefix_end(base);
        let head = sub_chars(base, 0, pb);
        append_chars(&mut r, &head);
        append_chars(&mut r, c);
        assert(head@ =~= base@.take(pb as int));
        return r;
    }
    let n = base.len();
    append_chars(&mut r, base);
    assert(r@ =~= base@);
    if n > 0 && !is_sep_exec(base[n - 1]) && !(n == 2 && base[1] == ':' && (('a' <= base[0]
        && base[0] <= 'z') || ('A' <= base[0] && base[0] <= 'Z'))) {
        r.push('\\');
    }
    append_chars(&mut r, c);
    r
}

fn join_all_exec(base: Vec<char>, comps: &Vec<Vec<char>>, from: usize, to: usize) -> (r: Vec<char>)
    requires
        from <= to <= comps.len(),
    ensures
        r@ == join_all(
            base@,
            comps@.map_values(|v: Vec<char>| v@).subrange(from as int, to as int),
        ),
{
    let ghost all = comps@.map_values(|v: Vec<char>| v@);
    let mut acc = base;
    let mut i = from;
    while i < to
        invariant
            from <= i <= to <= comps.len(),
            all == comps@.map_values(|v: Vec<char>| v@),
            join_all(base@, all.subrange(from as int, to as int)) == join_all(
                acc@,
                all.subrange(i as int, to as int),
            ),
        decreases to - i,
    {
        assert(all.subrange(i as int, to as int).drop_first() =~= all.subrange(
            i + 1,
            to as int,
        ));
        assert(all.subrange(i as int, to as int)[0] == comps@[i as int]@);
        acc = join_exec(&acc, &comps[i]);
        i += 1;
    }
    assert(all.subrange(to as int, to as int).len() == 0);
    acc
}

/// Cuts `s` at its first component that holds a `*` (see
/// [`spec_split_wildcard`]); `None` exactly when `s` holds no `*`.
pub fn split_wildcard(s: &str) -> (r: Option<WildSplit>)
    ensures
        r is None <==> !s@.contains('*'),
        match r {
            Some(w) => spec_split_wildcard(s@) == Some(w.view()),
            None => spec_split_wildcard(s@) is None,
        },
{
    proof {
        lemma_star_components(s@);
    }
    let cs = chars_of(s);
    let parts = parse_path(&cs);
    let ghost pv = spec_parse_path(s@);
    let comps = components_of(parts);
    let ghost cv = comps@.map_values(|v: Vec<char>| v@);
    assert(cv == component_texts(pv));
    let mut k: usize = 0;
    while k < comps.len()
        invariant
            k <= comps.len(),
            cv == comps@.map_values(|v: Vec<char>| v@),
            forall|j: int| 0 <= j < k ==> !has_star(#[trigger] cv[j]),
        ensures
            k <= comps.len(),
            cv == comps@.map_values(|v: Vec<char>| v@),
            forall|j: int| 0 <= j < k ==> !has_star(#[trigger] cv[j]),
            k < comps.len() ==> has_star(cv[k as int]),
        decreases comps.len() - k,
    {
        if has_star_exec(&comps[k]) {
            break;
        }
        k += 1;
    }
    if k == comps.len() {
        assert(!exists|f: int| is_first_star(cv, f));
        return None;
    }
    assert(is_first_star(cv, k as int));
    proof {
        let f = choose|f: int| is_first_star(cv, f);
        lemma_first_star_unique(cv, f, k as int);
    }
    let base_chars = join_all_exec(Vec::new(), &comps, 0, k);
    assert(cv.subrange(0, k as int) =~= cv.take(k as int));
    let base = string_of(&base_chars);
    let pattern = string_of(&comps[k]);
    let mut rest: Vec<String> = Vec::new();
    let mut i = k + 1;
    while i < comps.len()
        invariant
            k < i <= comps.len(),
            cv == comps@.map_values(|v: Vec<char>| v@),
            rest@.map_values(|x: String| x@) == cv.subrange(k + 1, i as int),
        decreases comps.len() - i,
    {
        let ghost before = rest@.map_values(|x: String| x@);
        rest.push(string_of(&comps[i]));
        assert(rest@.map_values(|x: String| x@) =~= before.push(cv[i as int]));
        assert(cv.subrange(k + 1, i + 1) =~= cv.subrange(k + 1, i as int).push(cv[i as int]));
        i += 1;
    }
    assert(cv.subrange(k + 1, comps.len() as int) =~= cv.skip(k + 1));
    let w = WildSplit { base, pattern, rest };
    assert(w.view().rest =~= cv.skip(k + 1));
    Some(w)
}

/// The paths found under `w.base` among the listed entry names `names` (see
/// [`spec_expand_matches`]).
pub fn expand_matches(w: &WildSplit, names: &Vec<String>) -> (r: Vec<String>)
    ensures
        r@.map_values(|x: String| x@) == spec_expand_matches(
            w.view(),
            names@.map_values(|x: String| x@),
        ),
{
    let ghost nv = names@.map_values(|x: String| x@);
    let base = chars_of(w.base.as_str());
    let mut rest: Vec<Vec<char>> = Vec::new();
    let mut j: usize = 0;
    while j < w.rest.len()
        invariant
            j <= w.rest.len(),
            rest@.map_values(|v: Vec<char>| v@) == w.view().rest.take(j as int),
        decreases w.rest.len() - j,
    {
        let ghost before = rest@.map_values(|v: Vec<char>| v@);
        rest.push(chars_of(w.rest[j].as_str()));
        assert(rest@.map_values(|v: Vec<char>| v@) =~= before.push(w.view().rest[j as int]));
        assert(w.view().rest.take(j + 1) =~= w.view().rest.take(j as int).push(
            w.view().rest[j as int],
        ));
        j += 1;
    }
    assert(w.view().rest.take(j as int) =~= w.view().rest);
    assert(rest@.map_values(|v: Vec<char>| v@).subrange(0, rest.len() as int) =~= w.view().rest);
    let mut out: Vec<String> = Vec::new();
    let mut i: usize = 0;
    while i < names.len()
        invariant
            i <= names.len(),
            nv == names@.map_values(|x: String| x@),
            base@ == w.view().base,
            rest@.map_values(|v: Vec<char>| v@).subrange(0, rest.len() as int) == w.view().rest,
            out@.map_values(|x: String| x@) == spec_expand_matches(w.view(), nv.take(i as int)),
        decreases names.len() - i,
    {
        assert(nv.take(i + 1).drop_last() =~= nv.take(i as int));
        assert(nv.take(i + 1).last() == names@[i as int]@);
        if glob_match(names[i].as_str(), w.pattern.as_str()) {
            let n = chars_of(names[i].as_str());
            let first = join_exec(&base, &n);
            let full = join_all_exec(first, &rest, 0, rest.len());
            let ghost before = out@.map_values(|x: String| x@);
            out.push(string_of(&full));
            assert(out@.map_values(|x: String| x@) =~= before.push(full@));
        }
        i += 1;
    }
    assert(nv.take(names.len() as int) =~= nv);
    out
}

} // verus!
