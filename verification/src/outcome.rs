use vstd::prelude::*;
use crate::stats::CleanStats;
use crate::scan::{EntryView, lemma_non_empty_contains, lemma_sort_desc_props, non_empty, sort_desc};

verus! {

/// What a cleanup reports.
pub struct CleanResult {
    pub freed: u64,
    pub files: u64,
    pub errors: u64,
}

impl CleanResult {
    /// The report of a cleanup that ended with the totals `st`.
    pub fn from_stats(st: CleanStats) -> (r: CleanResult)
        ensures
            r.freed == st.freed,
            r.files == st.files,
            r.errors == st.errors,
    {
        CleanResult { freed: st.freed, files: st.files, errors: st.errors }
    }
}

/// The recycle bin is emptied only when it holds something; `info` is its
/// size in bytes and its number of items, `None` when it could not be read.
pub open spec fn spec_needs_emptying(info: Option<(u64, u64)>) -> bool {
    match info {
        Some((_, items)) => items > 0,
        None => false,
    }
}

/// The recycle bin is emptied exactly when it could be read and holds at
/// least one item, whatever its size in bytes.
pub proof fn law_recycle_bin_emptied_when_it_holds_items(bytes: u64, items: u64)
    ensures
        spec_needs_emptying(Some((bytes, items))) <==> items > 0,
        !spec_needs_emptying(None),
{
}

/// Whether the recycle bin is to be emptied.
pub fn needs_emptying(info: Option<(u64, u64)>) -> (r: bool)
    ensures
        r == spec_needs_emptying(info),
        r <==> (info matches Some((_, items)) && items > 0),
{
    match info {
        Some((_, items)) => items > 0,
        None => false,
    }
}

/// The report of emptying the recycle bin: what it held when the emptying
/// succeeded, one error when it failed, nothing when there was nothing to do.
pub fn recycle_outcome(info: Option<(u64, u64)>, emptied: bool) -> (r: CleanResult)
    ensures
        spec_needs_emptying(info) && emptied ==> (info matches Some((bytes, items)) && r.freed
            == bytes && r.files == items && r.errors == 0),
        info matches Some((bytes, items)) ==> (items > 0 && emptied ==> r.freed == bytes
            && r.files == items && r.errors == 0),
        info matches Some((bytes, items)) ==> (items > 0 && !emptied ==> r.freed == 0 && r.files
            == 0 && r.errors == 1),
        (info is None || info matches Some((_, 0u64))) ==> r.freed == 0 && r.files == 0 && r.errors
            == 0,
        spec_needs_emptying(info) && !emptied ==> r.freed == 0 && r.files == 0 && r.errors == 1,
        !spec_needs_emptying(info) ==> r.freed == 0 && r.files == 0 && r.errors == 0,
{
    match info {
        Some((bytes, items)) => {
            if items > 0 {
                if emptied {
                    CleanResult { freed: bytes, files: items, errors: 0 }
                } else {
                    CleanResult { freed: 0, files: 0, errors: 1 }
                }
            } else {
                CleanResult { freed: 0, files: 0, errors: 0 }
            }
        },
        None => CleanResult { freed: 0, files: 0, errors: 0 },
    }
}

/// The report of a system command: the growth of free disk space from
/// `before` to `after` (0 if it shrank), and one error when a size path
/// still exists afterwards.
pub fn system_outcome(before: u64, after: u64, leftover: bool) -> (r: CleanResult)
    ensures
        r.freed == if after >= before {
            (after - before) as u64
        } else {
            0u64
        },
        r.files == 0,
        r.errors == if leftover {
            1u64
        } else {
            0u64
        },
{
    CleanResult {
        freed: after.saturating_sub(before),
        files: 0,
        errors: if leftover {
            1
        } else {
            0
        },
    }
}

/// The report of opening a settings program: nothing deleted, one error when
/// it could not be started.
pub fn settings_outcome(launched: bool) -> (r: CleanResult)
    ensures
        r.freed == 0,
        r.files == 0,
        r.errors == if launched {
            0u64
        } else {
            1u64
        },
{
    CleanResult {
        freed: 0,
        files: 0,
        errors: if launched {
            0
        } else {
            1
        },
    }
}

/// System items run only with administrator rights.
pub fn require_admin(is_admin: bool) -> (r: Result<(), String>)
    ensures
        is_admin <==> r is Ok,
        r matches Err(e) ==> e@ == "需要管理员权限，请以管理员身份运行"@,
{
    if is_admin {
        Ok(())
    } else {
        Err(String::from_str("需要管理员权限，请以管理员身份运行"))
    }
}

/// Free bytes of drive C from its (total, free) usage; 0 when unknown.
pub fn free_bytes(usage: Option<(u64, u64)>) -> (r: u64)
    ensures
        r == match usage {
            Some((_, free)) => free,
            None => 0u64,
        },
{
    match usage {
        Some((_, free)) => free,
        None => 0,
    }
}

pub open spec fn string_views(v: Seq<String>) -> Seq<Seq<char>> {
    v.map_values(|s: String| s@)
}

/// The paths of `all` that `requested` names, in the order of `all`; all of
/// them when nothing is requested.
pub open spec fn spec_select_paths(all: Seq<Seq<char>>, requested: Option<Seq<Seq<char>>>) -> Seq<
    Seq<char>,
>
    decreases all.len(),
{
    match requested {
        None => all,
        Some(req) => if all.len() == 0 {
            seq![]
        } else if req.contains(all.last()) {
            spec_select_paths(all.drop_last(), requested).push(all.last())
        } else {
            spec_select_paths(all.drop_last(), requested)
        },
    }
}

fn contains_string(list: &Vec<String>, s: &String) -> (r: bool)
    ensures
        r == string_views(list@).contains(s@),
{
    let mut i: usize = 0;
    while i < list.len()
        invariant
            i <= list.len(),
            forall|j: int| 0 <= j < i ==> list@[j]@ != s@,
        decreases list.len() - i,
    {
        if list[i] == *s {
            assert(string_views(list@)[i as int] == s@);
            return true;
        }
        i += 1;
    }
    assert forall|j: int| 0 <= j < string_views(list@).len() implies string_views(list@)[j]
        != s@ by {
        assert(string_views(list@)[j] == list@[j]@);
    }
    false
}

/// The expanded paths of an item that a cleanup may touch: those of `all`
/// that the caller asked for, so that no other path can be cleaned.
pub fn select_paths(all: Vec<String>, requested: Option<&Vec<String>>) -> (r: Vec<String>)
    ensures
        string_views(r@) == spec_select_paths(
            string_views(all@),
            match requested {
                Some(v) => Some(string_views(v@)),
                None => None,
            },
        ),
{
    match requested {
        None => all,
        Some(req) => {
            let ghost av = string_views(all@);
            let ghost rq = Some(string_views(req@));
            let mut out: Vec<String> = Vec::new();
            let mut i: usize = 0;
            while i < all.len()
                invariant
                    i <= all.len(),
                    av == string_views(all@),
                    rq == Some(string_views(req@)),
                    string_views(out@) == spec_select_paths(av.take(i as int), rq),
                decreases all.len() - i,
            {
                assert(av.take(i + 1).drop_last() =~= av.take(i as int));
                assert(av.take(i + 1).last() == all@[i as int]@);
                if contains_string(req, &all[i]) {
                    let ghost before = string_views(out@);
                    out.push(all[i].clone());
                    assert(string_views(out@) =~= before.push(all@[i as int]@));
                }
                i += 1;
            }
            assert(av.take(all.len() as int) =~= av);
            out
        },
    }
}

/// Every selected path is one of the item's own paths and one that was
/// asked for.
pub proof fn law_selection_stays_within_item(all: Seq<Seq<char>>, requested: Option<Seq<Seq<char>>>)
    ensures
        forall|i: int|
            0 <= i < spec_select_paths(all, requested).len() ==> all.contains(
                #[trigger] spec_select_paths(all, requested)[i],
            ) && (requested matches Some(req) ==> req.contains(
                spec_select_paths(all, requested)[i],
            )),
    decreases all.len(),
{
    if requested is Some && all.len() > 0 {
        law_selection_stays_within_item(all.drop_last(), requested);
        let prev = spec_select_paths(all.drop_last(), requested);
        let r = spec_select_paths(all, requested);
        assert forall|i: int| 0 <= i < r.len() implies all.contains(#[trigger] r[i]) && (
        requested matches Some(req) ==> req.contains(r[i])) by {
            if i < prev.len() {
                assert(r[i] == prev[i]);
                let k = choose|k: int| 0 <= k < all.drop_last().len() && all.drop_last()[k] == r[i];
                assert(all[k] == r[i]);
            } else {
                assert(all[all.len() - 1] == r[i]);
            }
        }
    }
}

/// The paths of a run of entries.
pub open spec fn paths_of(s: Seq<EntryView>) -> Seq<Seq<char>> {
    s.map_values(|e: EntryView| e.path)
}

proof fn lemma_select_by_flags(found: Seq<EntryView>, listed: Seq<Seq<char>>)
    requires
        forall|i: int|
            0 <= i < found.len() ==> (listed.contains(#[trigger] found[i].path) <==> found[i].size
                > 0),
    ensures
        spec_select_paths(paths_of(found), Some(listed)) == paths_of(non_empty(found)),
    decreases found.len(),
{
    if found.len() > 0 {
        let x = found.drop_last();
        assert forall|i: int| 0 <= i < x.len() implies (listed.contains(#[trigger] x[i].path)
            <==> x[i].size > 0) by {
            assert(x[i] == found[i]);
        }
        lemma_select_by_flags(x, listed);
        assert(paths_of(found).drop_last() =~= paths_of(x));
        assert(paths_of(found).last() == found.last().path);
        assert(listed.contains(found[found.len() - 1].path) <==> found.last().size > 0);
        if found.last().size > 0 {
            assert(paths_of(non_empty(found)) =~= paths_of(non_empty(x)).push(found.last().path));
        }
    }
}

/// Cleaning an item with exactly the paths its scan listed, while the file
/// system is unchanged (a path found twice has the same size both times),
/// cleans exactly the item's paths that hold something, in the order found,
/// and no other path.
pub proof fn law_clean_after_scan_touches_listed(found: Seq<EntryView>)
    requires
        forall|i: int, j: int|
            0 <= i < found.len() && 0 <= j < found.len() && #[trigger] found[i].path
                == #[trigger] found[j].path ==> found[i].size == found[j].size,
    ensures
        spec_select_paths(paths_of(found), Some(paths_of(sort_desc(non_empty(found)))))
            == paths_of(non_empty(found)),
{
    broadcast use vstd::seq_lib::to_multiset_contains;

    let ne = non_empty(found);
    let sorted = sort_desc(ne);
    let listed = paths_of(sorted);
    lemma_sort_desc_props(ne);
    assert forall|i: int| 0 <= i < found.len() implies (listed.contains(#[trigger] found[i].path)
        <==> found[i].size > 0) by {
        if listed.contains(found[i].path) {
            let k = choose|k: int| 0 <= k < listed.len() && listed[k] == found[i].path;
            let e = sorted[k];
            assert(sorted.to_multiset().count(e) > 0);
            assert(ne.contains(e));
            lemma_non_empty_contains(found, e);
            let j = choose|j: int| 0 <= j < found.len() && found[j] == e;
            assert(found[j].path == found[i].path);
        }
        if found[i].size > 0 {
            lemma_non_empty_contains(found, found[i]);
            assert(ne.contains(found[i]));
            assert(ne.to_multiset().count(found[i]) > 0);
            assert(sorted.contains(found[i]));
            let k = choose|k: int| 0 <= k < sorted.len() && sorted[k] == found[i];
            assert(listed[k] == found[i].path);
        }
    }
    lemma_select_by_flags(found, listed);
}

} // verus!
