use vstd::prelude::*;
use crate::text::{chars_eq, chars_of, is_sep, lower, lower_char, to_lower};
use crate::winpath::{
    body_start, component_count, has_cur_dir, has_device, has_drive, has_parent_dir,
    has_share, has_verbatim, has_verbatim_disk, has_verbatim_unc, implicit_root, kept,
    lemma_seg_len, names_of, parse_path, physical_root, prefix_len, sep_of, seg_len,
    server_len, share_len, spec_parse_path, starts_double_sep, vunc_server_len, vunc_share_len,
    is_ascii_alpha, plain_name, with_seps,
};

verus! {

/// `s` without its trailing separators.
pub open spec fn trim_end_seps(s: Seq<char>) -> Seq<char>
    decreases s.len(),
{
    if s.len() > 0 && is_sep(s.last()) {
        trim_end_seps(s.drop_last())
    } else {
        s
    }
}

/// The form in which two paths are compared: no trailing separator, ASCII lower case.
pub open spec fn norm(s: Seq<char>) -> Seq<char> {
    lower(trim_end_seps(s))
}

/// Directories that are never cleaned themselves, besides those named by the environment.
pub open spec fn fixed_protected() -> Seq<Seq<char>> {
    seq!["c:\\users"@, "c:\\windows"@, "c:\\"@]
}

/// The guard in front of every deletion: `path` has no `..` component, has at
/// least four components, and is none of the protected directories (compared
/// after [`norm`]).  `env_dirs` are the values of the environment variables
/// that name the user profile, the Windows directory, the application-data
/// directories, the program directories and the public profile.
pub open spec fn spec_is_safe_to_clean(path: Seq<char>, env_dirs: Seq<Seq<char>>) -> bool {
    &&& !has_parent_dir(path)
    &&& component_count(path) >= 4
    &&& forall|i: int| 0 <= i < env_dirs.len() ==> norm(env_dirs[i]) != norm(path)
    &&& forall|i: int| 0 <= i < fixed_protected().len() ==> fixed_protected()[i] != norm(path)
}

/// The text of `s` without trailing separators, lower-cased.
fn normalized(s: &Vec<char>) -> (v: Vec<char>)
    ensures
        v@ == norm(s@),
{
    let mut k = s.len();
    assert(s@.take(k as int) =~= s@);
    while k > 0 && (s[k - 1] == '\\' || s[k - 1] == '/')
        invariant
            k <= s.len(),
            trim_end_seps(s@) == trim_end_seps(s@.take(k as int)),
        decreases k,
    {
        assert(s@.take(k as int).drop_last() =~= s@.take(k - 1));
        k -= 1;
    }
    let ghost t = s@.take(k as int);
    assert(trim_end_seps(t) == t);
    let mut v: Vec<char> = Vec::new();
    let mut i: usize = 0;
    while i < k
        invariant
            k <= s.len(),
            i <= k,
            t == s@.take(k as int),
            v@ == lower(t.take(i as int)),
        decreases k - i,
    {
        v.push(to_lower(s[i]));
        i += 1;
        assert(v@ =~= lower(t.take(i as int)));
    }
    assert(t.take(k as int) =~= t);
    v
}

/// Whether `path` may be cleaned; see [`spec_is_safe_to_clean`].
pub fn is_safe_to_clean(path: &str, env_dirs: &Vec<String>) -> (r: bool)
    ensures
        r == spec_is_safe_to_clean(path@, env_dirs@.map_values(|d: String| d@)),
{
    let ghost envs = env_dirs@.map_values(|d: String| d@);
    let p = chars_of(path);
    let parts = parse_path(&p);
    let mut i: usize = 0;
    while i < parts.names.len()
        invariant
            parts.view() == spec_parse_path(path@),
            i <= parts.names.len(),
            forall|j: int|
                0 <= j < i ==> #[trigger] spec_parse_path(path@).names[j] != seq!['.', '.'],
        decreases parts.names.len() - i,
    {
        let name = &parts.names[i];
        assert(name@ == spec_parse_path(path@).names[i as int]);
        if name.len() == 2 && name[0] == '.' && name[1] == '.' {
            assert(name@ =~= seq!['.', '.']);
            return false;
        }
        i += 1;
    }
    let count = (if parts.prefix.len() > 0 {
        1usize
    } else {
        0usize
    }) + (if parts.root {
        1usize
    } else {
        0usize
    }) + (if parts.cur_dir {
        1usize
    } else {
        0usize
    });
    if parts.names.len() < 4 && count + parts.names.len() < 4 {
        return false;
    }
    let target = normalized(&p);
    let mut j: usize = 0;
    while j < env_dirs.len()
        invariant
            target@ == norm(path@),
            j <= env_dirs.len(),
            envs == env_dirs@.map_values(|d: String| d@),
            forall|m: int| 0 <= m < j ==> norm(envs[m]) != norm(path@),
        decreases env_dirs.len() - j,
    {
        let d = chars_of(env_dirs[j].as_str());
        assert(d@ == envs[j as int]);
        let nd = normalized(&d);
        if chars_eq(&nd, &target) {
            return false;
        }
        j += 1;
    }
    let fixed: Vec<&str> = vec!["c:\\users", "c:\\windows", "c:\\"];
    let mut m: usize = 0;
    while m < fixed.len()
        invariant
            target@ == norm(path@),
            fixed@.len() == 3,
            fixed@.map_values(|f: &str| f@) == fixed_protected(),
            m <= 3,
            forall|q: int| 0 <= q < m ==> fixed_protected()[q] != norm(path@),
        decreases 3 - m,
    {
        let f = chars_of(fixed[m]);
        assert(f@ == fixed_protected()[m as int]);
        if chars_eq(&f, &target) {
            return false;
        }
        m += 1;
    }
    true
}

/// The guard refuses every path with a `..` component, every path of fewer
/// than four components, and every protected directory however it is spelled
/// in letter case or trailing separators.
pub proof fn law_guard_refusals(path: Seq<char>, env_dirs: Seq<Seq<char>>, other: Seq<char>)
    ensures
        has_parent_dir(path) ==> !spec_is_safe_to_clean(path, env_dirs),
        component_count(path) < 4 ==> !spec_is_safe_to_clean(path, env_dirs),
        (exists|i: int| 0 <= i < env_dirs.len() && norm(#[trigger] env_dirs[i]) == norm(path))
            ==> !spec_is_safe_to_clean(path, env_dirs),
        norm(other) == norm(path) && (exists|i: int|
            0 <= i < env_dirs.len() && norm(#[trigger] env_dirs[i]) == norm(other))
            ==> !spec_is_safe_to_clean(path, env_dirs),
        fixed_protected().contains(norm(path)) ==> !spec_is_safe_to_clean(path, env_dirs),
{
}

/// The guard refuses nothing else: a path with no `..` component, with at
/// least four components, that is neither `C:\`, `C:\Users` nor `C:\Windows`
/// nor an environment directory (compared after [`norm`]) may be cleaned,
/// whatever its names hold.
pub proof fn law_guard_allows_the_rest(path: Seq<char>, env_dirs: Seq<Seq<char>>)
    requires
        !has_parent_dir(path),
        component_count(path) >= 4,
        forall|i: int| 0 <= i < env_dirs.len() ==> norm(#[trigger] env_dirs[i]) != norm(path),
        norm(path) != "c:\\users"@,
        norm(path) != "c:\\windows"@,
        norm(path) != "c:\\"@,
    ensures
        spec_is_safe_to_clean(path, env_dirs),
{
    assert forall|i: int| 0 <= i < fixed_protected().len() implies fixed_protected()[i] != norm(
        path,
    ) by {
        if i == 0 {
            assert(fixed_protected()[0] == "c:\\users"@);
        } else if i == 1 {
            assert(fixed_protected()[1] == "c:\\windows"@);
        } else {
            assert(fixed_protected()[2] == "c:\\"@);
        }
    }
}

/// Plain names written each after a `\` read back as those names.
proof fn lemma_names_with_seps(ns: Seq<Seq<char>>)
    requires
        forall|k: int| 0 <= k < ns.len() ==> plain_name(#[trigger] ns[k]),
    ensures
        names_of(with_seps(ns), false) == ns,
    decreases ns.len(),
{
    if ns.len() > 0 {
        let n0 = ns[0];
        let rest = ns.drop_first();
        assert(plain_name(n0));
        assert forall|k: int| 0 <= k < rest.len() implies plain_name(#[trigger] rest[k]) by {
            assert(rest[k] == ns[k + 1]);
        }
        lemma_names_with_seps(rest);
        let w = with_seps(ns);
        let tail = n0 + with_seps(rest);
        assert(w =~= seq!['\\'] + tail);
        lemma_seg_len(w, false, 0);
        assert(w.take(0) =~= Seq::<char>::empty());
        assert(w.skip(1) =~= tail);
        assert(names_of(w, false) == names_of(tail, false));
        let m = n0.len() as int;
        assert forall|i: int| 0 <= i < m implies !sep_of(false, n0[i]) by {}
        assert(kept(n0, false));
        if rest.len() == 0 {
            assert(with_seps(rest) =~= Seq::<char>::empty());
            assert(tail =~= n0);
            lemma_names_single(n0, false);
            assert(ns =~= seq![n0]);
        } else {
            let y = with_seps(rest);
            assert(y[0] == '\\');
            lemma_seg_len_concat(n0, y, false);
            lemma_seg_len(n0, false, m);
            assert(tail.take(m) =~= n0);
            assert(tail.skip(m + 1) =~= y.skip(1));
            // `y` starts with `\`: its first piece is empty and dropped.
            lemma_seg_len(y, false, 0);
            assert(y.take(0) =~= Seq::<char>::empty());
            assert(names_of(y, false) == names_of(y.skip(1), false));
            assert(seg_len(tail, false) == m);
            assert(names_of(tail, false) == seq![n0] + names_of(y.skip(1), false));
            assert(ns =~= seq![n0] + rest);
        }
    }
}

/// An ordinary path `X:\a\b\…` of plain names reads as its drive, a root and
/// exactly those names, so it has two components more than it has names.
pub proof fn law_drive_path_components(d: char, ns: Seq<Seq<char>>)
    requires
        is_ascii_alpha(d),
        ns.len() > 0,
        forall|k: int| 0 <= k < ns.len() ==> plain_name(#[trigger] ns[k]),
    ensures
        spec_parse_path(seq![d, ':'] + with_seps(ns)).prefix == seq![d, ':'],
        spec_parse_path(seq![d, ':'] + with_seps(ns)).root,
        !spec_parse_path(seq![d, ':'] + with_seps(ns)).cur_dir,
        spec_parse_path(seq![d, ':'] + with_seps(ns)).names == ns,
        component_count(seq![d, ':'] + with_seps(ns)) == ns.len() + 2,
        !has_parent_dir(seq![d, ':'] + with_seps(ns)) <==> forall|k: int|
            0 <= k < ns.len() ==> #[trigger] ns[k] != seq!['.', '.'],
{
    let s = seq![d, ':'] + with_seps(ns);
    let w = with_seps(ns);
    assert(w[0] == '\\');
    assert(s[0] == d && s[1] == ':' && s[2] == '\\');
    assert(!has_verbatim(s));
    assert(!starts_double_sep(s));
    assert(prefix_len(s) == 2);
    assert(physical_root(s));
    assert(s.take(2) =~= seq![d, ':']);
    assert(s.skip(3) =~= w.skip(1));
    lemma_seg_len(w, false, 0);
    assert(w.take(0) =~= Seq::<char>::empty());
    lemma_names_with_seps(ns);
    assert(names_of(w, false) == names_of(w.skip(1), false));
    assert(spec_parse_path(s).names == ns);
}

proof fn lemma_trim_append_seps(w: Seq<char>, extra: Seq<char>)
    requires
        forall|i: int| 0 <= i < extra.len() ==> is_sep(extra[i]),
    ensures
        trim_end_seps(w + extra) == trim_end_seps(w),
    decreases extra.len(),
{
    if extra.len() > 0 {
        assert((w + extra).drop_last() =~= w + extra.drop_last());
        assert((w + extra).last() == extra.last());
        lemma_trim_append_seps(w, extra.drop_last());
    } else {
        assert(w + extra =~= w);
    }
}

proof fn lemma_trim_lower(w: Seq<char>, v: Seq<char>)
    requires
        lower(w) == lower(v),
    ensures
        lower(trim_end_seps(w)) == lower(trim_end_seps(v)),
    decreases w.len(),
{
    assert(w.len() == lower(w).len());
    assert(v.len() == lower(v).len());
    if w.len() > 0 {
        assert(lower(w)[w.len() - 1] == lower(v)[v.len() - 1]);
        assert(is_sep(w.last()) == is_sep(v.last()));
        if is_sep(w.last()) {
            assert(lower(w.drop_last()) =~= lower(w).drop_last());
            assert(lower(v.drop_last()) =~= lower(v).drop_last());
            lemma_trim_lower(w.drop_last(), v.drop_last());
        }
    }
}

/// A protected environment directory is refused however it is spelled: in
/// any ASCII letter case and with any trailing separators.
pub proof fn law_protected_dir_refused_in_any_spelling(
    env_dirs: Seq<Seq<char>>,
    k: int,
    w: Seq<char>,
    extra: Seq<char>,
)
    requires
        0 <= k < env_dirs.len(),
        lower(w) == lower(env_dirs[k]),
        forall|i: int| 0 <= i < extra.len() ==> is_sep(extra[i]),
    ensures
        norm(w + extra) == norm(env_dirs[k]),
        !spec_is_safe_to_clean(w + extra, env_dirs),
{
    lemma_trim_append_seps(w, extra);
    lemma_trim_lower(w, env_dirs[k]);
}

proof fn lemma_seg_len_concat(x: Seq<char>, y: Seq<char>, vb: bool)
    requires
        y.len() > 0,
        sep_of(vb, y[0]),
    ensures
        seg_len(x + y, vb) == seg_len(x, vb),
    decreases x.len(),
{
    if x.len() == 0 {
        assert(x + y =~= y);
    } else {
        assert((x + y)[0] == x[0]);
        if !sep_of(vb, x[0]) {
            assert((x + y).drop_first() =~= x.drop_first() + y);
            lemma_seg_len_concat(x.drop_first(), y, vb);
        }
    }
}

proof fn lemma_names_single(t: Seq<char>, vb: bool)
    requires
        forall|i: int| 0 <= i < t.len() ==> !sep_of(vb, t[i]),
        kept(t, vb),
    ensures
        names_of(t, vb) == seq![t],
{
    lemma_seg_len(t, vb, t.len() as int);
    assert(t.take(t.len() as int) =~= t);
}

/// Appending `\` and a plain name appends that name to the names.
proof fn lemma_names_append(x: Seq<char>, t: Seq<char>, vb: bool)
    requires
        forall|i: int| 0 <= i < t.len() ==> !sep_of(vb, t[i]),
        kept(t, vb),
    ensures
        names_of(x + seq!['\\'] + t, vb) == names_of(x, vb) + seq![t],
    decreases x.len(),
{
    let y = seq!['\\'] + t;
    assert(x + seq!['\\'] + t =~= x + y);
    let u = x + y;
    assert(y[0] == '\\');
    lemma_seg_len_concat(x, y, vb);
    lemma_names_single(t, vb);
    if x.len() == 0 {
        assert(u =~= y);
        assert(seg_len(y, vb) == 0);
        assert(y.skip(1) =~= t);
        assert(names_of(x, vb) =~= Seq::<Seq<char>>::empty());
        assert(names_of(u, vb) =~= seq![t]);
    } else {
        let k = seg_len(x, vb) as int;
        crate::expand::lemma_seg_len_facts(x, vb);
        assert(u.take(k) =~= x.take(k));
        if k < x.len() {
            assert(u.skip(k + 1) =~= x.skip(k + 1) + y);
            assert(x.skip(k + 1) + y =~= x.skip(k + 1) + seq!['\\'] + t);
            lemma_names_append(x.skip(k + 1), t, vb);
        } else {
            assert(u.skip(k + 1) =~= t);
        }
    }
}

/// A path has at most as many names as characters.
proof fn lemma_names_len(t: Seq<char>, vb: bool)
    ensures
        names_of(t, vb).len() <= t.len(),
    decreases t.len(),
{
    if t.len() > 0 {
        let k = seg_len(t, vb) as int;
        crate::expand::lemma_seg_len_facts(t, vb);
        if k < t.len() {
            lemma_names_len(t.skip(k + 1), vb);
        }
    }
}

/// A path without separators has at most one name.
proof fn lemma_names_no_sep(t: Seq<char>, vb: bool)
    requires
        forall|i: int| 0 <= i < t.len() ==> !sep_of(vb, t[i]),
    ensures
        names_of(t, vb).len() <= 1,
{
    if t.len() > 0 {
        lemma_seg_len(t, vb, t.len() as int);
    }
}

/// A path has at most as many components as characters.
proof fn lemma_count_le_len(s: Seq<char>)
    ensures
        component_count(s) <= s.len(),
{
    crate::expand::lemma_prefix_len_bounds(s);
    let bs = body_start(s);
    lemma_names_len(s.skip(bs), has_verbatim(s));
    if has_cur_dir(s) {
        assert(bs == 0);
        assert(s.skip(0) =~= s);
        lemma_seg_len(s, false, 1);
        assert(s.take(1) =~= seq!['.']);
        if 1 < s.len() {
            lemma_names_len(s.skip(2), false);
        }
    }
}

/// Appending `\` and a plain name to a path of at least four components
/// leaves its prefix, root and leading `.` as they were, and appends the name
/// to its names.
proof fn lemma_parse_append(v: Seq<char>, t: Seq<char>)
    requires
        component_count(v) >= 4,
        forall|i: int| 0 <= i < t.len() ==> !sep_of(false, t[i]),
        forall|i: int| 0 <= i < t.len() ==> t[i] != '\\',
        kept(t, false),
    ensures
        spec_parse_path(v + seq!['\\'] + t).prefix == spec_parse_path(v).prefix,
        spec_parse_path(v + seq!['\\'] + t).root == spec_parse_path(v).root,
        spec_parse_path(v + seq!['\\'] + t).cur_dir == spec_parse_path(v).cur_dir,
        spec_parse_path(v + seq!['\\'] + t).names == spec_parse_path(v).names + seq![t],
{
    let y = seq!['\\'] + t;
    let u = v + y;
    assert(v + seq!['\\'] + t =~= u);
    let n = v.len() as int;
    lemma_count_le_len(v);
    crate::expand::lemma_prefix_len_bounds(v);
    assert(n >= 4);
    assert(forall|i: int| 0 <= i < n ==> u[i] == v[i]);
    assert(u[n] == '\\');
    assert forall|a: int, vb: bool| 0 <= a <= n implies #[trigger] seg_len(u.skip(a), vb) == seg_len(
        v.skip(a),
        vb,
    ) by {
        assert(u.skip(a) =~= v.skip(a) + y);
        lemma_seg_len_concat(v.skip(a), y, vb);
    }
    // A prefix that reaches the end of `v` leaves no room for four components.
    if prefix_len(v) == n {
        assert(v.skip(body_start(v)) =~= Seq::<char>::empty());
        assert(component_count(v) <= 2);
    }
    assert(prefix_len(v) < n);
    assert(has_verbatim(u) == has_verbatim(v));
    if has_verbatim(v) {
        if n < 8 && has_verbatim_unc(u) {
            assert(!has_verbatim_disk(v));
            assert(forall|i: int| 4 <= i < n ==> v[i] != '\\');
            crate::expand::lemma_seg_len_facts(v.skip(4), true);
            lemma_seg_len(v.skip(4), true, n - 4);
            assert(prefix_len(v) == n);
        }
        assert(has_verbatim_unc(u) == has_verbatim_unc(v));
        assert(has_verbatim_disk(u) == has_verbatim_disk(v));
        if has_verbatim_unc(v) {
            let sv = vunc_server_len(v) as int;
            assert(seg_len(u.skip(8), true) == seg_len(v.skip(8), true));
            assert(vunc_server_len(u) == sv);
            crate::expand::lemma_seg_len_facts(v.skip(8), true);
            if 8 + sv < n {
                assert(seg_len(u.skip(8 + sv + 1), true) == seg_len(v.skip(8 + sv + 1), true));
                assert(vunc_share_len(u) == vunc_share_len(v));
            }
        } else if !has_verbatim_disk(v) {
            assert(seg_len(u.skip(4), true) == seg_len(v.skip(4), true));
        }
        assert(prefix_len(u) == prefix_len(v));
    } else {
        assert(starts_double_sep(u) == starts_double_sep(v));
        assert(has_device(u) == has_device(v));
        assert(has_drive(u) == has_drive(v));
        assert(seg_len(u.skip(2), false) == seg_len(v.skip(2), false));
        assert(server_len(u) == server_len(v));
        let sv = server_len(v) as int;
        crate::expand::lemma_seg_len_facts(v.skip(2), false);
        if starts_double_sep(v) && !has_device(v) && sv > 0 && 2 + sv >= n {
            // `\\server` with nothing after the server: a root and one name.
            assert(prefix_len(v) == 0);
            assert(physical_root(v));
            assert(v.skip(body_start(v)) =~= v.skip(1));
            lemma_seg_len(v.skip(1), false, 0);
            assert(v.skip(1).skip(1) =~= v.skip(2));
            assert forall|i: int| 0 <= i < v.skip(2).len() implies !sep_of(false, v.skip(2)[i]) by {}
            lemma_names_no_sep(v.skip(2), false);
            assert(component_count(v) <= 2);
        }
        if 2 + sv < n {
            assert(seg_len(u.skip(2 + sv + 1), false) == seg_len(v.skip(2 + sv + 1), false));
            assert(share_len(u) == share_len(v));
        }
        assert(has_share(u) == has_share(v));
        if has_device(v) {
            assert(seg_len(u.skip(4), false) == seg_len(v.skip(4), false));
        }
        assert(prefix_len(u) == prefix_len(v));
    }
    let p = prefix_len(v);
    assert(u.take(p) =~= v.take(p));
    assert(physical_root(u) == physical_root(v));
    assert(implicit_root(u) == implicit_root(v));
    assert(has_cur_dir(u) == has_cur_dir(v));
    let bs = body_start(v);
    assert(u.skip(bs) =~= v.skip(bs) + seq!['\\'] + t);
    lemma_names_append(v.skip(bs), t, has_verbatim(v));
}

/// A segment that ends in a separator ends there, whatever follows it.
proof fn lemma_seg_len_ends_in_sep(x: Seq<char>, y: Seq<char>, vb: bool)
    requires
        x.len() > 0,
        sep_of(vb, x.last()),
    ensures
        seg_len(x + y, vb) == seg_len(x, vb),
    decreases x.len(),
{
    assert((x + y)[0] == x[0]);
    if !sep_of(vb, x[0]) {
        assert(x.len() > 1);
        assert((x + y).drop_first() =~= x.drop_first() + y);
        assert(x.drop_first().last() == x.last());
        lemma_seg_len_ends_in_sep(x.drop_first(), y, vb);
    }
}

/// Appending a plain name to a path that is empty or ends in a separator
/// appends that name to the names.
proof fn lemma_names_after_sep(x: Seq<char>, t: Seq<char>, vb: bool)
    requires
        x.len() == 0 || sep_of(vb, x.last()),
        forall|i: int| 0 <= i < t.len() ==> !sep_of(vb, t[i]),
        kept(t, vb),
    ensures
        names_of(x + t, vb) == names_of(x, vb) + seq![t],
    decreases x.len(),
{
    lemma_names_single(t, vb);
    if x.len() == 0 {
        assert(x + t =~= t);
        assert(names_of(x, vb) =~= Seq::<Seq<char>>::empty());
        assert(seq![t] =~= Seq::<Seq<char>>::empty() + seq![t]);
    } else {
        let u = x + t;
        let k = seg_len(x, vb) as int;
        lemma_seg_len_ends_in_sep(x, t, vb);
        crate::expand::lemma_seg_len_facts(x, vb);
        if k == x.len() {
            assert(k > 0 ==> !sep_of(vb, x[x.len() - 1]));
            assert(k == 0);
        }
        assert(k < x.len());
        assert(u.take(k) =~= x.take(k));
        assert(u.skip(k + 1) =~= x.skip(k + 1) + t);
        if k + 1 < x.len() {
            assert(x.skip(k + 1).last() == x.last());
        }
        lemma_names_after_sep(x.skip(k + 1), t, vb);
    }
}

/// Appending a plain name to an ordinary path of at least four components
/// that ends in a separator leaves its prefix, root and leading `.` as they
/// were, and appends the name to its names.
proof fn lemma_parse_append_after_sep(v: Seq<char>, t: Seq<char>)
    requires
        component_count(v) >= 4,
        !has_verbatim(v),
        v.len() > 0,
        is_sep(v.last()),
        forall|i: int| 0 <= i < t.len() ==> !is_sep(t[i]),
        kept(t, false),
    ensures
        spec_parse_path(v + t).prefix == spec_parse_path(v).prefix,
        spec_parse_path(v + t).root == spec_parse_path(v).root,
        spec_parse_path(v + t).cur_dir == spec_parse_path(v).cur_dir,
        spec_parse_path(v + t).names == spec_parse_path(v).names + seq![t],
{
    let u = v + t;
    let n = v.len() as int;
    lemma_count_le_len(v);
    crate::expand::lemma_prefix_len_bounds(v);
    assert(n >= 4);
    assert(forall|i: int| 0 <= i < n ==> u[i] == v[i]);
    assert forall|a: int| 0 <= a < n implies #[trigger] seg_len(u.skip(a), false) == seg_len(
        v.skip(a),
        false,
    ) by {
        assert(u.skip(a) =~= v.skip(a) + t);
        assert(v.skip(a).last() == v.last());
        lemma_seg_len_ends_in_sep(v.skip(a), t, false);
    }
    if prefix_len(v) == n {
        assert(v.skip(body_start(v)) =~= Seq::<char>::empty());
        assert(component_count(v) <= 2);
    }
    assert(prefix_len(v) < n);
    assert(has_verbatim(u) == has_verbatim(v));
    assert(starts_double_sep(u) == starts_double_sep(v));
    assert(has_device(u) == has_device(v));
    assert(has_drive(u) == has_drive(v));
    assert(seg_len(u.skip(2), false) == seg_len(v.skip(2), false));
    assert(server_len(u) == server_len(v));
    let sv = server_len(v) as int;
    crate::expand::lemma_seg_len_facts(v.skip(2), false);
    if 2 + sv >= n {
        assert(!is_sep(v.skip(2)[n - 3]));
    }
    assert(2 + sv < n);
    if starts_double_sep(v) && !has_device(v) && sv > 0 && 3 + sv == n {
        // `\\server\` with nothing after it: a root and one name.
        assert(prefix_len(v) == 0);
        assert(physical_root(v));
        assert(v.skip(body_start(v)) =~= v.skip(1));
        lemma_seg_len(v.skip(1), false, 0);
        assert(v.skip(1).skip(1) =~= v.skip(2));
        let x = v.skip(2);
        assert(x.len() == sv + 1);
        assert(x.skip(sv + 1) =~= Seq::<char>::empty());
        assert(names_of(x.skip(sv + 1), false) =~= Seq::<Seq<char>>::empty());
        assert(names_of(x, false).len() <= 1);
        assert(component_count(v) <= 2);
    }
    if 3 + sv < n {
        assert(seg_len(u.skip(2 + sv + 1), false) == seg_len(v.skip(2 + sv + 1), false));
        assert(share_len(u) == share_len(v));
    }
    assert(has_share(u) == has_share(v));
    if has_device(v) {
        assert(seg_len(u.skip(4), false) == seg_len(v.skip(4), false));
    }
    assert(prefix_len(u) == prefix_len(v));
    let p = prefix_len(v);
    assert(u.take(p) =~= v.take(p));
    assert(physical_root(u) == physical_root(v));
    assert(implicit_root(u) == implicit_root(v));
    assert(has_cur_dir(u) == has_cur_dir(v));
    let bs = body_start(v);
    assert(u.skip(bs) =~= v.skip(bs) + t);
    if bs < n {
        assert(v.skip(bs).last() == v.last());
    }
    lemma_names_after_sep(v.skip(bs), t, false);
}

/// Names that are non-empty and hold no `\`.
pub open spec fn plain_names(ns: Seq<Seq<char>>) -> bool {
    forall|i: int|
        0 <= i < ns.len() ==> #[trigger] ns[i].len() > 0 && forall|j: int|
            0 <= j < ns[i].len() ==> ns[i][j] != '\\'
}

/// The names of a verbatim path are non-empty and hold no `\`.
proof fn lemma_names_plain(x: Seq<char>)
    ensures
        plain_names(names_of(x, true)),
    decreases x.len(),
{
    if x.len() > 0 {
        let k = seg_len(x, true) as int;
        crate::expand::lemma_seg_len_facts(x, true);
        let seg = x.take(k);
        let rest = if k < x.len() {
            names_of(x.skip(k + 1), true)
        } else {
            seq![]
        };
        if k < x.len() {
            lemma_names_plain(x.skip(k + 1));
        }
        if kept(seg, true) {
            let ns = seq![seg] + rest;
            assert forall|i: int| 0 <= i < ns.len() implies #[trigger] ns[i].len() > 0 && forall|
                j: int,
            | 0 <= j < ns[i].len() ==> ns[i][j] != '\\' by {
                if i > 0 {
                    assert(ns[i] == rest[i - 1]);
                }
            }
        }
    }
}

/// Verbatim names rendered with `\` between them read back as those names.
proof fn lemma_vrender_names(ns: Seq<Seq<char>>)
    requires
        ns.len() >= 1,
        plain_names(ns),
    ensures
        ns.len() == 1 ==> crate::expand::vrender_rest(ns, false) == ns[0],
        ns.len() >= 2 ==> crate::expand::vrender_rest(ns, false) == ns[0] + seq!['\\']
            + crate::expand::vrender_rest(ns.drop_first(), false),
        names_of(crate::expand::vrender_rest(ns, false), true) == ns,
        crate::expand::vrender_rest(ns, false).last() == ns.last().last(),
    decreases ns.len(),
{
    let n0 = ns[0];
    assert(n0.len() > 0);
    assert(n0 != seq!['\\']) by {
        if n0 == seq!['\\'] {
            assert(n0[0] == '\\');
        }
    }
    lemma_seg_len(n0, true, n0.len() as int);
    assert(n0.take(n0.len() as int) =~= n0);
    let rest = ns.drop_first();
    if ns.len() == 1 {
        assert(crate::expand::vrender_rest(rest, true) =~= Seq::<char>::empty());
        assert(crate::expand::vrender_rest(ns, false) =~= n0);
        assert forall|i: int| 0 <= i < n0.len() implies !sep_of(true, n0[i]) by {}
        lemma_names_single(n0, true);
        assert(ns =~= seq![n0]);
    } else {
        let n1 = rest[0];
        assert(rest[0] == ns[1]);
        assert(plain_names(rest)) by {
            assert forall|i: int| 0 <= i < rest.len() implies #[trigger] rest[i].len() > 0
                && forall|j: int| 0 <= j < rest[i].len() ==> rest[i][j] != '\\' by {
                assert(rest[i] == ns[i + 1]);
            }
        }
        assert(n1 != seq!['\\']) by {
            if n1 == seq!['\\'] {
                assert(n1[0] == '\\');
            }
        }
        lemma_vrender_names(rest);
        let jr = crate::expand::vrender_rest(rest, false);
        assert(crate::expand::vrender_rest(rest, true) =~= seq!['\\'] + jr);
        let text = crate::expand::vrender_rest(ns, false);
        assert(text =~= n0 + seq!['\\'] + jr);
        let y = seq!['\\'] + jr;
        assert(text =~= n0 + y);
        lemma_seg_len_concat(n0, y, true);
        assert(text.take(n0.len() as int) =~= n0);
        assert(text.skip(n0.len() + 1int) =~= jr);
        assert(kept(n0, true));
        assert(names_of(text, true) =~= seq![n0] + rest);
        assert(ns =~= seq![n0] + rest);
        assert(rest.last() == ns.last());
        assert(jr.len() > 0);
        assert(text.last() == jr.last());
    }
}

/// A verbatim path of at least four components has a `\` right after its
/// prefix, hence a root, and at least two names.
proof fn lemma_verbatim_rooted(v: Seq<char>)
    requires
        has_verbatim(v),
        component_count(v) >= 4,
    ensures
        4 <= prefix_len(v) < v.len(),
        v[prefix_len(v)] == '\\',
        physical_root(v),
        spec_parse_path(v).root,
        !spec_parse_path(v).cur_dir,
        spec_parse_path(v).prefix.len() == prefix_len(v),
        spec_parse_path(v).names.len() >= 2,
        plain_names(spec_parse_path(v).names),
{
    let n = v.len() as int;
    crate::expand::lemma_prefix_len_bounds(v);
    let p = prefix_len(v);
    if p == n {
        assert(v.skip(body_start(v)) =~= Seq::<char>::empty());
        assert(component_count(v) <= 2);
    }
    crate::expand::lemma_seg_len_facts(v.skip(4), true);
    if has_verbatim_unc(v) {
        let sv = vunc_server_len(v) as int;
        crate::expand::lemma_seg_len_facts(v.skip(8), true);
        if 8 + sv < n {
            assert(v.skip(8)[sv] == v[8 + sv]);
            crate::expand::lemma_seg_len_facts(v.skip(8 + sv + 1), true);
            if vunc_share_len(v) > 0 {
                let sh = vunc_share_len(v) as int;
                if p < n {
                    assert(v.skip(8 + sv + 1)[sh] == v[p]);
                }
            }
        }
    } else if !has_verbatim_disk(v) {
        if p < n {
            assert(v.skip(4)[p - 4] == v[p]);
        }
    }
    assert(v[p] == '\\');
    lemma_names_plain(v.skip(body_start(v)));
}

/// A verbatim prefix followed by `\` is read from those characters alone,
/// unless it is a share prefix without a share name, which takes in the
/// next name.
proof fn lemma_verbatim_prefix_local(v: Seq<char>, r: Seq<char>)
    requires
        has_verbatim(v),
        prefix_len(v) < v.len(),
        v[prefix_len(v)] == '\\',
        r.len() > prefix_len(v) + 1,
        r.take(prefix_len(v) + 1) == v.take(prefix_len(v) + 1),
        !(has_verbatim_unc(v) && vunc_share_len(v) == 0),
    ensures
        has_verbatim(r),
        prefix_len(r) == prefix_len(v),
{
    let p = prefix_len(v);
    let n = v.len() as int;
    assert(forall|i: int| 0 <= i <= p ==> r[i] == v.take(p + 1)[i] && v.take(p + 1)[i] == v[i]);
    crate::expand::lemma_seg_len_facts(v.skip(4), true);
    assert(p >= 4);
    assert(has_verbatim(r));
    if has_verbatim_unc(v) {
        let sv = vunc_server_len(v) as int;
        crate::expand::lemma_seg_len_facts(v.skip(8), true);
        assert(has_verbatim_unc(r));
        assert(8 + sv < n);
        assert(v.skip(8)[sv] == v[8 + sv]);
        assert forall|i: int| 0 <= i < sv implies !sep_of(true, r.skip(8)[i]) by {
            assert(v.skip(8)[i] == v[8 + i]);
        }
        lemma_seg_len(r.skip(8), true, sv);
        let sh = vunc_share_len(v) as int;
        crate::expand::lemma_seg_len_facts(v.skip(8 + sv + 1), true);
        assert(v.skip(8 + sv + 1)[sh] == v[p]);
        assert forall|i: int| 0 <= i < sh implies !sep_of(true, #[trigger] r.skip(8 + sv + 1)[i]) by {
            assert(v.skip(8 + sv + 1)[i] == v[8 + sv + 1 + i]);
        }
        lemma_seg_len(r.skip(8 + sv + 1), true, sh);
    } else if has_verbatim_disk(v) {
        assert(!has_verbatim_unc(r));
        assert(has_verbatim_disk(r));
    } else {
        let sp = p - 4;
        assert(v.skip(4)[sp] == v[p]);
        assert forall|i: int| 0 <= i < sp implies !sep_of(true, r.skip(4)[i]) by {
            assert(v.skip(4)[i] == v[4 + i]);
        }
        lemma_seg_len(r.skip(4), true, sp);
        if p >= 7 {
            assert(has_verbatim_unc(r) == has_verbatim_unc(v));
            assert(has_verbatim_disk(r) == has_verbatim_disk(v));
        } else {
            assert(!has_verbatim_unc(r));
            assert(!has_verbatim_disk(r));
        }
    }
}

/// A verbatim share prefix without a share name, followed by `\` and a
/// name, takes that name as its share.
proof fn lemma_verbatim_share_gap(v: Seq<char>, r: Seq<char>, m: int)
    requires
        has_verbatim_unc(v),
        vunc_share_len(v) == 0,
        prefix_len(v) < v.len(),
        v[prefix_len(v)] == '\\',
        r.take(prefix_len(v) + 1) == v.take(prefix_len(v) + 1),
        m > 0,
        r.len() > prefix_len(v) + 1 + m,
        forall|i: int| prefix_len(v) + 1 <= i < prefix_len(v) + 1 + m ==> r[i] != '\\',
        r[prefix_len(v) + 1 + m] == '\\',
    ensures
        has_verbatim(r),
        prefix_len(r) == prefix_len(v) + 1 + m,
{
    let p = prefix_len(v);
    let n = v.len() as int;
    assert(forall|i: int| 0 <= i <= p ==> r[i] == v.take(p + 1)[i] && v.take(p + 1)[i] == v[i]);
    let sv = vunc_server_len(v) as int;
    crate::expand::lemma_seg_len_facts(v.skip(8), true);
    assert(has_verbatim(r));
    assert(has_verbatim_unc(r));
    assert(p == 8 + sv);
    assert forall|i: int| 0 <= i < sv implies !sep_of(true, r.skip(8)[i]) by {
        assert(v.skip(8)[i] == v[8 + i]);
    }
    lemma_seg_len(r.skip(8), true, sv);
    assert forall|i: int| 0 <= i < m implies !sep_of(true, #[trigger] r.skip(p + 1)[i]) by {
        assert(r.skip(p + 1)[i] == r[p + 1 + i]);
    }
    lemma_seg_len(r.skip(p + 1), true, m);
}

/// A plain relative name is read as that one name.
proof fn lemma_plain_name_parse(t: Seq<char>)
    requires
        t.len() > 0,
        forall|i: int| 0 <= i < t.len() ==> !is_sep(t[i]),
        !has_drive(t),
        t != seq!['.'],
    ensures
        prefix_len(t) == 0,
        crate::expand::component_texts(spec_parse_path(t)) == seq![t],
{
    assert(!is_sep(t[0]));
    assert(!has_verbatim(t));
    assert(!starts_double_sep(t));
    assert(prefix_len(t) == 0);
    assert(!physical_root(t));
    assert(!implicit_root(t));
    if t.len() > 1 {
        assert(!is_sep(t[1]));
    }
    if t.len() == 1 && t[0] == '.' {
        assert(t =~= seq!['.']);
    }
    assert(!has_cur_dir(t));
    assert(t.skip(0) =~= t);
    assert forall|i: int| 0 <= i < t.len() implies !sep_of(false, t[i]) by {}
    lemma_names_single(t, false);
    assert(t.take(0) =~= Seq::<char>::empty());
    assert(crate::expand::component_texts(spec_parse_path(t)) =~= seq![t]);
}

/// Joining a plain name onto a verbatim path of at least four components
/// rebuilds it with the name as its last component.  A share prefix without
/// a share name takes in the first name, so the count stays.
proof fn lemma_verbatim_join(v: Seq<char>, t: Seq<char>)
    requires
        has_verbatim(v),
        component_count(v) >= 4,
        t.len() > 0,
        forall|i: int| 0 <= i < t.len() ==> !is_sep(t[i]),
        !has_drive(t),
        t != seq!['.'],
        t != seq!['.', '.'],
    ensures
        ({
            let r = crate::expand::join(v, t);
            let nv = spec_parse_path(v).names;
            let gap = has_verbatim_unc(v) && vunc_share_len(v) == 0;
            &&& spec_parse_path(r).names == (if gap {
                nv.drop_first()
            } else {
                nv
            }).push(t)
            &&& component_count(r) == component_count(v) + (if gap {
                0int
            } else {
                1int
            })
            &&& r.len() > 0
            &&& r.last() == t.last()
        }),
{
    let pv = spec_parse_path(v);
    let nv = pv.names;
    let p = prefix_len(v);
    lemma_verbatim_rooted(v);
    lemma_plain_name_parse(t);
    let cv = crate::expand::component_texts(pv);
    assert(cv =~= seq![pv.prefix, seq!['\\']] + nv);
    assert(t != seq!['\\']) by {
        if t == seq!['\\'] {
            assert(is_sep(t[0]));
        }
    }
    let pushed = crate::expand::vpush_all(cv, seq![t]);
    assert(seq![t].drop_first() =~= Seq::<Seq<char>>::empty());
    assert(seq![t][0] == t);
    assert(crate::expand::vpush(cv, t) == cv.push(t));
    assert(crate::expand::vpush_all(cv.push(t), Seq::<Seq<char>>::empty()) == cv.push(t));
    assert(pushed == cv.push(t));
    let ns = nv.push(t);
    assert(plain_names(ns)) by {
        assert forall|i: int| 0 <= i < ns.len() implies #[trigger] ns[i].len() > 0 && forall|
            j: int,
        | 0 <= j < ns[i].len() ==> ns[i][j] != '\\' by {
            if i < nv.len() {
                assert(ns[i] == nv[i]);
            } else {
                assert(ns[i] == t);
                assert forall|j: int| 0 <= j < t.len() implies t[j] != '\\' by {
                    assert(!is_sep(t[j]));
                }
            }
        }
    }
    lemma_vrender_names(ns);
    let jn = crate::expand::vrender_rest(ns, false);
    assert(cv.push(t).drop_first() =~= seq![seq!['\\']] + ns);
    assert((seq![seq!['\\']] + ns).drop_first() =~= ns);
    assert(crate::expand::vrender_rest(seq![seq!['\\']] + ns, true) =~= seq!['\\'] + jn);
    let r = crate::expand::join(v, t);
    assert(r == crate::expand::vrender(pushed));
    assert(r =~= v.take(p) + seq!['\\'] + jn);
    assert(r.take(p + 1) =~= v.take(p + 1));
    assert(jn.len() > 0);
    assert(r.last() == jn.last());
    if has_verbatim_unc(v) && vunc_share_len(v) == 0 {
        let n0 = ns[0];
        let rest = ns.drop_first();
        let m = n0.len() as int;
        assert(jn =~= n0 + seq!['\\'] + crate::expand::vrender_rest(rest, false));
        assert forall|i: int| p + 1 <= i < p + 1 + m implies r[i] != '\\' by {
            assert(r[i] == n0[i - p - 1]);
        }
        assert(r[p + 1 + m] == '\\');
        lemma_verbatim_share_gap(v, r, m);
        assert(plain_names(rest)) by {
            assert forall|i: int| 0 <= i < rest.len() implies #[trigger] rest[i].len() > 0
                && forall|j: int| 0 <= j < rest[i].len() ==> rest[i][j] != '\\' by {
                assert(rest[i] == ns[i + 1]);
            }
        }
        lemma_vrender_names(rest);
        let q = p + 1 + m;
        assert(physical_root(r));
        assert(!implicit_root(r));
        assert(body_start(r) == q + 1);
        assert(r.skip(q + 1) =~= crate::expand::vrender_rest(rest, false));
        assert(rest =~= nv.drop_first().push(t));
        assert(spec_parse_path(r).prefix.len() == q);
    } else {
        lemma_verbatim_prefix_local(v, r);
        assert(physical_root(r));
        assert(!implicit_root(r));
        assert(body_start(r) == p + 1);
        assert(r.skip(p + 1) =~= jn);
        assert(spec_parse_path(r).prefix.len() == p);
    }
}

/// A subdirectory `Temp` of a directory that passes the depth and `..`
/// checks, joined on the way Windows joins paths, passes them too, and is
/// allowed unless the environment protects it.  It is one component deeper,
/// except under a verbatim share prefix without a share name, where the
/// rebuilt path reads its first name as the share.
pub proof fn law_subdirectory_passes(v: Seq<char>, env_dirs: Seq<Seq<char>>)
    requires
        !has_parent_dir(v),
        component_count(v) >= 4,
        forall|i: int|
            0 <= i < env_dirs.len() ==> norm(env_dirs[i]) != norm(
                crate::expand::join(v, "Temp"@),
            ),
    ensures
        component_count(crate::expand::join(v, "Temp"@)) >= component_count(v),
        !(has_verbatim_unc(v) && vunc_share_len(v) == 0) ==> component_count(
            crate::expand::join(v, "Temp"@),
        ) == component_count(v) + 1,
        spec_is_safe_to_clean(crate::expand::join(v, "Temp"@), env_dirs),
{
    reveal_strlit("Temp");
    reveal_strlit("c:\\users");
    reveal_strlit("c:\\windows");
    reveal_strlit("c:\\");
    let t = seq!['T', 'e', 'm', 'p'];
    assert("Temp"@ =~= t);
    let u = crate::expand::join(v, t);
    let nv = spec_parse_path(v).names;
    assert(kept(t, false));
    assert forall|i: int| 0 <= i < t.len() implies !is_sep(t[i]) && t[i] != '\\' by {}
    assert(t != seq!['.']) by {
        assert(t.len() != seq!['.'].len());
    }
    assert(t != seq!['.', '.']) by {
        assert(t.len() != seq!['.', '.'].len());
    }
    lemma_plain_name_parse(t);
    lemma_count_le_len(v);
    // The names of the joined path: those of `v` (all of them, or all but the
    // first), then `Temp`.
    let mut drop: int = 0;
    if has_verbatim(v) {
        lemma_verbatim_join(v, t);
        if has_verbatim_unc(v) && vunc_share_len(v) == 0 {
            drop = 1;
        }
    } else if !is_sep(v.last()) {
        assert(!crate::expand::is_drive_only(v));
        assert(u == v + seq!['\\'] + t);
        lemma_parse_append(v, t);
    } else {
        assert(u == v + t);
        lemma_parse_append_after_sep(v, t);
    }
    assert(spec_parse_path(u).names == nv.skip(drop).push(t)) by {
        assert(nv.skip(0) =~= nv);
        assert(nv.skip(1) =~= nv.drop_first());
    }
    assert forall|i: int|
        0 <= i < spec_parse_path(u).names.len() implies #[trigger] spec_parse_path(u).names[i]
        != seq!['.', '.'] by {
        if i < nv.len() - drop {
            assert(spec_parse_path(u).names[i] == nv[i + drop]);
        } else {
            assert(spec_parse_path(u).names[i] == t);
            assert(t[0] != seq!['.', '.'][0]);
        }
    }
    assert(u.last() == 'p');
    assert(trim_end_seps(u) == u);
    assert(norm(u).last() == 'p');
    assert forall|i: int| 0 <= i < fixed_protected().len() implies fixed_protected()[i]
        != norm(u) by {
        let f = fixed_protected()[i];
        assert(f.last() != 'p');
    }
}

} // verus!
