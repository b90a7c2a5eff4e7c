use vstd::prelude::*;
use crate::text::{is_sep, sub_chars};

verus! {

// A model of how Windows splits a path into components: an optional prefix,
// an optional root separator, an optional leading `.`, and the names between
// separators.  The prefixes are a drive `X:`, a device `\\.\name`, a share
// `\\server\share`, and the verbatim forms `\\?\UNC\server\share`, `\\?\X:`
// and `\\?\name` (the verbatim marker written with backslashes; the
// separator after `UNC` may also be `/`).  In an
// ordinary path both `\` and `/` separate, empty names and `.` are dropped and
// `..` is kept; a device or share prefix implies a root.  In a verbatim path
// only `\` separates, `.` and `..` are kept, and there is a root only when a
// `\` follows the prefix.

pub open spec fn is_ascii_alpha(c: char) -> bool {
    ('a' <= c && c <= 'z') || ('A' <= c && c <= 'Z')
}

/// `s` starts with a drive prefix such as `C:`.
pub open spec fn has_drive(s: Seq<char>) -> bool {
    s.len() >= 2 && is_ascii_alpha(s[0]) && s[1] == ':'
}

/// A separator: only `\` in a verbatim path, `\` or `/` otherwise.
pub open spec fn sep_of(verbatim: bool, c: char) -> bool {
    if verbatim {
        c == '\\'
    } else {
        is_sep(c)
    }
}

/// Number of characters before the first separator of `s`.
pub open spec fn seg_len(s: Seq<char>, verbatim: bool) -> nat
    decreases s.len(),
{
    if s.len() == 0 || sep_of(verbatim, s[0]) {
        0
    } else {
        1 + seg_len(s.drop_first(), verbatim)
    }
}

/// `s` starts with the verbatim marker `\\?\`.
pub open spec fn has_verbatim(s: Seq<char>) -> bool {
    s.len() >= 4 && s[0] == '\\' && s[1] == '\\' && s[2] == '?' && s[3] == '\\'
}

/// `s` starts with `\\?\UNC` and a separator (`\` or `/`: the marker
/// must be written with backslashes, the separator after `UNC` need not).
pub open spec fn has_verbatim_unc(s: Seq<char>) -> bool {
    has_verbatim(s) && s.len() >= 8 && s[4] == 'U' && s[5] == 'N' && s[6] == 'C' && is_sep(s[7])
}

/// `s` starts with `\\?\X:`, followed by `\` or nothing.
pub open spec fn has_verbatim_disk(s: Seq<char>) -> bool {
    &&& has_verbatim(s)
    &&& s.len() >= 6
    &&& is_ascii_alpha(s[4])
    &&& s[5] == ':'
    &&& (s.len() == 6 || s[6] == '\\')
}

/// Length of the server name of a verbatim share prefix.
pub open spec fn vunc_server_len(s: Seq<char>) -> nat {
    seg_len(s.skip(8), true)
}

/// Length of the share name of a verbatim share prefix (0 when there is none).
pub open spec fn vunc_share_len(s: Seq<char>) -> nat {
    if 8 + vunc_server_len(s) < s.len() {
        seg_len(s.skip(8 + vunc_server_len(s) + 1int), true)
    } else {
        0
    }
}

/// Length of a verbatim prefix.
pub open spec fn verbatim_prefix_len(s: Seq<char>) -> int {
    if has_verbatim_unc(s) {
        8 + vunc_server_len(s) as int + if vunc_share_len(s) > 0 {
            1 + vunc_share_len(s) as int
        } else {
            0int
        }
    } else if has_verbatim_disk(s) {
        6
    } else {
        4 + seg_len(s.skip(4), true) as int
    }
}

/// `s` starts with two separators (a device or share prefix may follow).
pub open spec fn starts_double_sep(s: Seq<char>) -> bool {
    s.len() >= 2 && is_sep(s[0]) && is_sep(s[1])
}

/// `s` starts with a device prefix `\\.\`.
pub open spec fn has_device(s: Seq<char>) -> bool {
    starts_double_sep(s) && s.len() >= 4 && s[2] == '.' && is_sep(s[3])
}

/// Length of the server name of a share prefix.
pub open spec fn server_len(s: Seq<char>) -> nat {
    seg_len(s.skip(2), false)
}

/// Length of the share name of a share prefix.
pub open spec fn share_len(s: Seq<char>) -> nat {
    if 2 + server_len(s) < s.len() {
        seg_len(s.skip(2 + server_len(s) + 1int), false)
    } else {
        0
    }
}

/// `s` starts with a share prefix `\\server\share`, both names non-empty.
pub open spec fn has_share(s: Seq<char>) -> bool {
    &&& starts_double_sep(s)
    &&& !has_verbatim(s)
    &&& !has_device(s)
    &&& server_len(s) > 0
    &&& 2 + server_len(s) < s.len()
    &&& share_len(s) > 0
}

/// Length of the prefix of `s` (0 when there is none).
pub open spec fn prefix_len(s: Seq<char>) -> int {
    if has_verbatim(s) {
        verbatim_prefix_len(s)
    } else if has_device(s) {
        4 + seg_len(s.skip(4), false) as int
    } else if has_share(s) {
        2 + server_len(s) as int + 1 + share_len(s) as int
    } else if !starts_double_sep(s) && has_drive(s) {
        2
    } else {
        0
    }
}

/// A device or share prefix implies a root even without a separator after it.
pub open spec fn implicit_root(s: Seq<char>) -> bool {
    !has_verbatim(s) && (has_device(s) || has_share(s))
}

/// A separator follows the prefix.
pub open spec fn physical_root(s: Seq<char>) -> bool {
    prefix_len(s) < s.len() && sep_of(has_verbatim(s), s[prefix_len(s)])
}

/// `s` has a root component.
pub open spec fn has_root(s: Seq<char>) -> bool {
    physical_root(s) || implicit_root(s)
}

/// `s` starts with a `.` component, kept only when there is no prefix and no root.
pub open spec fn has_cur_dir(s: Seq<char>) -> bool {
    &&& prefix_len(s) == 0
    &&& !physical_root(s)
    &&& s.len() >= 1
    &&& s[0] == '.'
    &&& (s.len() == 1 || is_sep(s[1]))
}

/// The part of `s` after its prefix and root separator.
pub open spec fn body_start(s: Seq<char>) -> int {
    prefix_len(s) + if physical_root(s) {
        1int
    } else {
        0int
    }
}

/// A name between separators that counts as a component.
pub open spec fn kept(seg: Seq<char>, verbatim: bool) -> bool {
    seg.len() > 0 && (verbatim || seg != seq!['.'])
}

/// The names of `t`: its separator-delimited pieces without the empty ones
/// (and, outside verbatim paths, without `.`).
pub open spec fn names_of(t: Seq<char>, verbatim: bool) -> Seq<Seq<char>>
    decreases t.len(),
{
    if t.len() == 0 {
        seq![]
    } else {
        let k = seg_len(t, verbatim);
        let seg = t.take(k as int);
        let rest = if k < t.len() {
            names_of(t.skip(k + 1int), verbatim)
        } else {
            seq![]
        };
        if kept(seg, verbatim) {
            seq![seg] + rest
        } else {
            rest
        }
    }
}

/// `ns` written one after another, each after a `\`.
pub open spec fn with_seps(ns: Seq<Seq<char>>) -> Seq<char>
    decreases ns.len(),
{
    if ns.len() == 0 {
        seq![]
    } else {
        seq!['\\'] + ns[0] + with_seps(ns.drop_first())
    }
}

/// A name that stands as one component of its own in an ordinary path: not
/// empty, no separator, not `.`, and not read as a drive.
pub open spec fn plain_name(c: Seq<char>) -> bool {
    &&& c.len() > 0
    &&& forall|i: int| 0 <= i < c.len() ==> !is_sep(c[i])
    &&& c != seq!['.']
    &&& !has_drive(c)
}

/// The parts of a path, as plain values.
pub struct PathView {
    pub prefix: Seq<char>,
    pub root: bool,
    pub cur_dir: bool,
    pub names: Seq<Seq<char>>,
}

/// How Windows reads `s`.
pub open spec fn spec_parse_path(s: Seq<char>) -> PathView {
    PathView {
        prefix: s.take(prefix_len(s)),
        root: has_root(s),
        cur_dir: has_cur_dir(s),
        names: names_of(s.skip(body_start(s)), has_verbatim(s)),
    }
}

/// Number of components of `s`.
pub open spec fn component_count(s: Seq<char>) -> int {
    let p = spec_parse_path(s);
    (if p.prefix.len() > 0 {
        1int
    } else {
        0int
    }) + (if p.root {
        1int
    } else {
        0int
    }) + (if p.cur_dir {
        1int
    } else {
        0int
    }) + p.names.len()
}

/// `s` has a `..` component.
pub open spec fn has_parent_dir(s: Seq<char>) -> bool {
    exists|i: int|
        0 <= i < spec_parse_path(s).names.len() && #[trigger] spec_parse_path(s).names[i]
            == seq!['.', '.']
}

/// The parts of a path.
pub struct PathParts {
    pub prefix: Vec<char>,
    pub root: bool,
    pub cur_dir: bool,
    pub names: Vec<Vec<char>>,
}

impl PathParts {
    pub open spec fn view(&self) -> PathView {
        PathView {
            prefix: self.prefix@,
            root: self.root,
            cur_dir: self.cur_dir,
            names: self.names@.map_values(|v: Vec<char>| v@),
        }
    }
}

pub proof fn lemma_seg_len(t: Seq<char>, v: bool, k: int)
    requires
        0 <= k <= t.len(),
        forall|i: int| 0 <= i < k ==> !sep_of(v, t[i]),
        k == t.len() || sep_of(v, t[k]),
    ensures
        seg_len(t, v) == k,
    decreases k,
{
    if k > 0 {
        assert forall|i: int| 0 <= i < k - 1 implies !sep_of(v, t.drop_first()[i]) by {
            assert(t.drop_first()[i] == t[i + 1]);
        }
        lemma_seg_len(t.drop_first(), v, k - 1);
    }
}

pub(crate) fn is_sep_exec(c: char) -> (r: bool)
    ensures
        r == is_sep(c),
{
    c == '\\' || c == '/'
}

fn sep_exec(v: bool, c: char) -> (r: bool)
    ensures
        r == sep_of(v, c),
{
    if v {
        c == '\\'
    } else {
        is_sep_exec(c)
    }
}

fn is_alpha_exec(c: char) -> (r: bool)
    ensures
        r == is_ascii_alpha(c),
{
    ('a' <= c && c <= 'z') || ('A' <= c && c <= 'Z')
}

/// End of the segment of `s` that starts at `from`.
fn seg_end(s: &Vec<char>, from: usize, v: bool) -> (r: usize)
    requires
        from <= s.len(),
    ensures
        r == from + seg_len(s@.skip(from as int), v),
        r <= s.len(),
{
    let mut i = from;
    while i < s.len() && !sep_exec(v, s[i])
        invariant
            from <= i <= s.len(),
            forall|j: int| from <= j < i ==> !sep_of(v, s@[j]),
        decreases s.len() - i,
    {
        i += 1;
    }
    proof {
        let t = s@.skip(from as int);
        assert forall|j: int| 0 <= j < i - from implies !sep_of(v, t[j]) by {
            assert(t[j] == s@[j + from]);
        }
        lemma_seg_len(t, v, i - from);
    }
    i
}

/// Whether `s` starts with the verbatim marker.
pub(crate) fn verbatim_exec(s: &Vec<char>) -> (r: bool)
    ensures
        r == has_verbatim(s@),
{
    s.len() >= 4 && s[0] == '\\' && s[1] == '\\' && s[2] == '?' && s[3] == '\\'
}

/// Length of the prefix of `s`.
pub(crate) fn prefix_end(s: &Vec<char>) -> (r: usize)
    ensures
        r == prefix_len(s@),
        r <= s.len(),
{
    let n = s.len();
    if verbatim_exec(s) {
        if n >= 8 && s[4] == 'U' && s[5] == 'N' && s[6] == 'C' && is_sep_exec(s[7]) {
            let a = seg_end(s, 8, true);
            if a < n {
                let b = seg_end(s, a + 1, true);
                if b > a + 1 {
                    b
                } else {
                    a
                }
            } else {
                a
            }
        } else if n >= 6 && is_alpha_exec(s[4]) && s[5] == ':' && (n == 6 || s[6] == '\\') {
            6
        } else {
            seg_end(s, 4, true)
        }
    } else if n >= 2 && is_sep_exec(s[0]) && is_sep_exec(s[1]) {
        if n >= 4 && s[2] == '.' && is_sep_exec(s[3]) {
            seg_end(s, 4, false)
        } else {
            assert(s@.skip(2).len() == n - 2);
            let a = seg_end(s, 2, false);
            if a > 2 && a < n {
                let b = seg_end(s, a + 1, false);
                if b > a + 1 {
                    b
                } else {
                    0
                }
            } else {
                0
            }
        }
    } else if n >= 2 && s[1] == ':' && is_alpha_exec(s[0]) {
        2
    } else {
        0
    }
}

/// The names of `s[start..]`.
fn names_from(s: &Vec<char>, start: usize, v: bool) -> (r: Vec<Vec<char>>)
    requires
        start <= s.len(),
    ensures
        r@.map_values(|w: Vec<char>| w@) == names_of(s@.skip(start as int), v),
{
    let mut names: Vec<Vec<char>> = Vec::new();
    let mut pos = start;
    while pos < s.len()
        invariant
            start <= pos <= s.len(),
            names_of(s@.skip(start as int), v) == names@.map_values(|w: Vec<char>| w@) + names_of(
                s@.skip(pos as int),
                v,
            ),
        decreases s.len() - pos,
    {
        let end = seg_end(s, pos, v);
        let ghost t = s@.skip(pos as int);
        let ghost old_names = names@.map_values(|w: Vec<char>| w@);
        let seg = sub_chars(s, pos, end);
        assert(seg@ =~= t.take(end - pos));
        let keep = seg.len() > 0 && (v || !(seg.len() == 1 && seg[0] == '.'));
        assert(keep == kept(seg@, v)) by {
            if seg.len() == 1 && seg[0] == '.' {
                assert(seg@ =~= seq!['.']);
            }
            if seg@ == seq!['.'] {
                assert(seg@.len() == 1);
            }
        }
        if keep {
            names.push(seg);
            assert(names@.map_values(|w: Vec<char>| w@) =~= old_names + seq![seg@]);
        }
        if end < s.len() {
            assert(t.skip(end - pos + 1) =~= s@.skip(end + 1));
            pos = end + 1;
        } else {
            pos = s.len();
            assert(s@.skip(pos as int) =~= seq![]);
        }
    }
    assert(s@.skip(pos as int) =~= seq![]);
    assert(names_of(s@.skip(pos as int), v) =~= seq![]);
    assert(names@.map_values(|w: Vec<char>| w@) + seq![] =~= names@.map_values(
        |w: Vec<char>| w@,
    ));
    names
}

/// Splits a path into its components the way Windows does.
pub fn parse_path(s: &Vec<char>) -> (r: PathParts)
    ensures
        r.view() == spec_parse_path(s@),
{
    let v = verbatim_exec(s);
    let p = prefix_end(s);
    let physical = p < s.len() && sep_exec(v, s[p]);
    // Device and share prefixes start with a separator, a drive prefix with a letter.
    let implicit = !v && p > 0 && is_sep_exec(s[0]);
    let root = physical || implicit;
    let cur_dir = p == 0 && !physical && s.len() >= 1 && s[0] == '.' && (s.len() == 1
        || is_sep_exec(s[1]));
    let body = if physical {
        p + 1
    } else {
        p
    };
    let prefix = sub_chars(s, 0, p);
    let names = names_from(s, body, v);
    assert(prefix@ =~= s@.take(p as int));
    PathParts { prefix, root, cur_dir, names }
}

} // verus!
