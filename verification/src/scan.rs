use vstd::prelude::*;

verus! {

/// Sum of a sequence of sizes.
pub open spec fn sum_sizes(s: Seq<u64>) -> int
    decreases s.len(),
{
    if s.len() == 0 {
        0
    } else {
        sum_sizes(s.drop_last()) + s.last()
    }
}

/// The total of `sizes`, or `None` when it does not fit in 64 bits.
pub fn total_size(sizes: &Vec<u64>) -> (r: Option<u64>)
    ensures
        match r {
            Some(t) => t == sum_sizes(sizes@),
            None => sum_sizes(sizes@) > u64::MAX,
        },
{
    let mut acc: u64 = 0;
    let mut i: usize = 0;
    while i < sizes.len()
        invariant
            i <= sizes.len(),
            acc == sum_sizes(sizes@.take(i as int)),
        decreases sizes.len() - i,
    {
        assert(sizes@.take(i + 1).drop_last() =~= sizes@.take(i as int));
        match acc.checked_add(sizes[i]) {
            Some(a) => {
                acc = a;
            },
            None => {
                proof {
                    lemma_sum_prefix_grows(sizes@, i + 1);
                }
                return None;
            },
        }
        i += 1;
    }
    assert(sizes@.take(sizes.len() as int) =~= sizes@);
    Some(acc)
}

/// A longer run of sizes never sums to less.
pub proof fn lemma_sum_prefix_grows(s: Seq<u64>, k: int)
    requires
        0 <= k <= s.len(),
    ensures
        sum_sizes(s.take(k)) <= sum_sizes(s),
    decreases s.len() - k,
{
    if k < s.len() {
        lemma_sum_prefix_grows(s, k + 1);
        assert(s.take(k + 1).drop_last() =~= s.take(k));
    } else {
        assert(s.take(k) =~= s);
    }
}

/// What a path occupies on disk, as the size of the path itself when it is a
/// file, the sum of the sizes of the files below it when it is a directory
/// (links are not followed), and 0 otherwise (missing, or a link itself).
/// `None` when the sum does not fit in 64 bits.
pub fn size_of_kind(is_file: bool, is_dir: bool, len: u64, file_sizes: &Vec<u64>) -> (r: Option<u64>)
    ensures
        is_file ==> r == Some(len),
        !is_file && is_dir ==> match r {
            Some(t) => t == sum_sizes(file_sizes@),
            None => sum_sizes(file_sizes@) > u64::MAX,
        },
        !is_file && !is_dir ==> r == Some(0u64),
{
    if is_file {
        Some(len)
    } else if is_dir {
        total_size(file_sizes)
    } else {
        Some(0)
    }
}

/// One expanded path of a cleanup item with the size found under it.
pub struct Entry {
    pub path: String,
    pub size: u64,
}

/// An entry as plain values.
pub struct EntryView {
    pub path: Seq<char>,
    pub size: u64,
}

impl Entry {
    pub open spec fn view(&self) -> EntryView {
        EntryView { path: self.path@, size: self.size }
    }
}

pub open spec fn entry_views(s: Seq<Entry>) -> Seq<EntryView> {
    s.map_values(|e: Entry| e.view())
}

/// The entries of `s` that hold something, in order.
pub open spec fn non_empty(s: Seq<EntryView>) -> Seq<EntryView>
    decreases s.len(),
{
    if s.len() == 0 {
        seq![]
    } else if s.last().size > 0 {
        non_empty(s.drop_last()).push(s.last())
    } else {
        non_empty(s.drop_last())
    }
}

/// `e` placed into `t` in front of the first entry that is smaller than it.
pub open spec fn insert_desc(t: Seq<EntryView>, e: EntryView) -> Seq<EntryView>
    decreases t.len(),
{
    if t.len() == 0 {
        seq![e]
    } else if t[0].size < e.size {
        seq![e] + t
    } else {
        seq![t[0]] + insert_desc(t.drop_first(), e)
    }
}

/// `s` sorted by size, largest first; entries of equal size keep their order.
pub open spec fn sort_desc(s: Seq<EntryView>) -> Seq<EntryView>
    decreases s.len(),
{
    if s.len() == 0 {
        seq![]
    } else {
        insert_desc(sort_desc(s.drop_last()), s.last())
    }
}

/// The sizes of a run of entries.
pub open spec fn sizes_of(s: Seq<EntryView>) -> Seq<u64> {
    s.map_values(|e: EntryView| e.size)
}

/// What a scan of a cleanup item reports.
pub struct ScanResult {
    pub total: u64,
    pub entries: Vec<Entry>,
}

/// Inserting in front of the first smaller entry is inserting at that position.
proof fn lemma_insert_desc_at(t: Seq<EntryView>, e: EntryView, pos: int)
    requires
        0 <= pos <= t.len(),
        forall|j: int| 0 <= j < pos ==> t[j].size >= e.size,
        pos < t.len() ==> t[pos].size < e.size,
    ensures
        insert_desc(t, e) == t.insert(pos, e),
    decreases t.len(),
{
    if t.len() == 0 {
        assert(t.insert(pos, e) =~= seq![e]);
    } else if pos == 0 {
        assert(t.insert(0, e) =~= seq![e] + t);
    } else {
        let u = t.drop_first();
        assert forall|j: int| 0 <= j < pos - 1 implies u[j].size >= e.size by {
            assert(u[j] == t[j + 1]);
        }
        lemma_insert_desc_at(u, e, pos - 1);
        assert(t.insert(pos, e) =~= seq![t[0]] + u.insert(pos - 1, e));
    }
}

/// Keeps the entries that hold something, sorts them by size (largest first,
/// equal sizes in the order found) and totals them; `None` when the total does
/// not fit in 64 bits.
pub fn scan_entries(found: Vec<Entry>) -> (r: Option<ScanResult>)
    ensures
        match r {
            Some(sr) => {
                &&& entry_views(sr.entries@) == sort_desc(non_empty(entry_views(found@)))
                &&& sr.total == sum_sizes(sizes_of(entry_views(sr.entries@)))
            },
            None => sum_sizes(sizes_of(sort_desc(non_empty(entry_views(found@))))) > u64::MAX,
        },
{
    let ghost fv = entry_views(found@);
    let ghost orig = found@;
    let n = found.len();
    let mut rest = found;
    let mut sorted: Vec<Entry> = Vec::new();
    let mut k: usize = 0;
    assert(orig.skip(0) =~= orig);
    while k < n
        invariant
            k <= n,
            n == orig.len(),
            fv == entry_views(orig),
            rest@ == orig.skip(k as int),
            entry_views(sorted@) == sort_desc(non_empty(fv.take(k as int))),
        decreases n - k,
    {
        let ghost sv = entry_views(sorted@);
        let e = rest.remove(0);
        assert(e == orig[k as int]);
        assert(rest@ =~= orig.skip(k + 1));
        assert(fv.take(k + 1).drop_last() =~= fv.take(k as int));
        assert(fv.take(k + 1).last() == e.view());
        if e.size > 0 {
            let mut j: usize = 0;
            while j < sorted.len() && sorted[j].size >= e.size
                invariant
                    j <= sorted.len(),
                    sv == entry_views(sorted@),
                    forall|q: int| 0 <= q < j ==> sv[q].size >= e.size,
                decreases sorted.len() - j,
            {
                j += 1;
            }
            proof {
                lemma_insert_desc_at(sv, e.view(), j as int);
            }
            let ghost ev = e.view();
            sorted.insert(j, e);
            assert(entry_views(sorted@) =~= sv.insert(j as int, ev));
            let ghost x = non_empty(fv.take(k as int));
            assert(non_empty(fv.take(k + 1)) == x.push(ev));
            assert(x.push(ev).drop_last() =~= x);
            assert(sort_desc(x.push(ev)) == insert_desc(sort_desc(x), ev));
        } else {
            assert(non_empty(fv.take(k + 1)) == non_empty(fv.take(k as int)));
        }
        k += 1;
    }
    assert(fv.take(n as int) =~= fv);
    let mut sizes: Vec<u64> = Vec::new();
    let mut i: usize = 0;
    while i < sorted.len()
        invariant
            i <= sorted.len(),
            sizes@ == sizes_of(entry_views(sorted@)).take(i as int),
        decreases sorted.len() - i,
    {
        sizes.push(sorted[i].size);
        i += 1;
        assert(sizes@ =~= sizes_of(entry_views(sorted@)).take(i as int));
    }
    assert(sizes@ =~= sizes_of(entry_views(sorted@)));
    match total_size(&sizes) {
        Some(total) => Some(ScanResult { total, entries: sorted }),
        None => None,
    }
}

/// Sizes never grow towards the end.
pub open spec fn sorted_desc(t: Seq<EntryView>) -> bool {
    forall|i: int, j: int| 0 <= i < j < t.len() ==> t[i].size >= t[j].size
}

proof fn lemma_insert_desc_len_bound(t: Seq<EntryView>, e: EntryView, b: u64)
    requires
        forall|i: int| 0 <= i < t.len() ==> t[i].size <= b,
        e.size <= b,
    ensures
        insert_desc(t, e).len() == t.len() + 1,
        forall|i: int| 0 <= i < insert_desc(t, e).len() ==> insert_desc(t, e)[i].size <= b,
    decreases t.len(),
{
    if t.len() > 0 && t[0].size >= e.size {
        let u = t.drop_first();
        lemma_insert_desc_len_bound(u, e, b);
        let r = insert_desc(t, e);
        assert forall|i: int| 0 <= i < r.len() implies r[i].size <= b by {
            if i > 0 {
                assert(r[i] == insert_desc(u, e)[i - 1]);
            }
        }
    }
}

proof fn lemma_insert_desc_sorted(t: Seq<EntryView>, e: EntryView)
    requires
        sorted_desc(t),
    ensures
        sorted_desc(insert_desc(t, e)),
    decreases t.len(),
{
    if t.len() > 0 {
        let u = t.drop_first();
        if t[0].size < e.size {
            let r = insert_desc(t, e);
            assert forall|i: int, j: int| 0 <= i < j < r.len() implies r[i].size >= r[j].size by {
                if i > 0 {
                    assert(r[i] == t[i - 1]);
                }
                assert(r[j] == t[j - 1]);
            }
        } else {
            lemma_insert_desc_sorted(u, e);
            lemma_insert_desc_len_bound(u, e, t[0].size);
            let r = insert_desc(t, e);
            assert forall|i: int, j: int| 0 <= i < j < r.len() implies r[i].size >= r[j].size by {
                assert(r[j] == insert_desc(u, e)[j - 1]);
                if i > 0 {
                    assert(r[i] == insert_desc(u, e)[i - 1]);
                }
            }
        }
    }
}

/// Where `insert_desc` puts `e` into `t`.
proof fn lemma_insert_desc_is_insert(t: Seq<EntryView>, e: EntryView) -> (pos: int)
    ensures
        0 <= pos <= t.len(),
        insert_desc(t, e) == t.insert(pos, e),
    decreases t.len(),
{
    if t.len() == 0 {
        assert(t.insert(0, e) =~= seq![e]);
        0
    } else if t[0].size < e.size {
        assert(t.insert(0, e) =~= seq![e] + t);
        0
    } else {
        let u = t.drop_first();
        let p = lemma_insert_desc_is_insert(u, e);
        assert(t.insert(p + 1, e) =~= seq![t[0]] + u.insert(p, e));
        p + 1
    }
}

/// Totals add up: an empty run totals 0, and two runs one after the other
/// total the sum of their totals.
pub proof fn law_totals_add(a: Seq<u64>, b: Seq<u64>)
    ensures
        sum_sizes(Seq::<u64>::empty()) == 0,
        sum_sizes(a + b) == sum_sizes(a) + sum_sizes(b),
{
    lemma_sum_concat(a, b);
}

proof fn lemma_sum_concat(a: Seq<u64>, b: Seq<u64>)
    ensures
        sum_sizes(a + b) == sum_sizes(a) + sum_sizes(b),
    decreases b.len(),
{
    if b.len() == 0 {
        assert(a + b =~= a);
    } else {
        lemma_sum_concat(a, b.drop_last());
        assert((a + b).drop_last() =~= a + b.drop_last());
    }
}

proof fn lemma_sum_insert(t: Seq<EntryView>, pos: int, e: EntryView)
    requires
        0 <= pos <= t.len(),
    ensures
        sum_sizes(sizes_of(t.insert(pos, e))) == sum_sizes(sizes_of(t)) + e.size,
{
    let a = sizes_of(t).take(pos);
    let b = sizes_of(t).skip(pos);
    assert(sizes_of(t) =~= a + b);
    assert(sizes_of(t.insert(pos, e)) =~= (a + seq![e.size]) + b);
    lemma_sum_concat(a, b);
    lemma_sum_concat(a + seq![e.size], b);
    lemma_sum_concat(a, seq![e.size]);
    assert(seq![e.size].drop_last() =~= Seq::<u64>::empty());
    assert(sum_sizes(Seq::<u64>::empty()) == 0);
    assert(sum_sizes(seq![e.size]) == e.size);
}

pub proof fn lemma_sort_desc_props(s: Seq<EntryView>)
    ensures
        sorted_desc(sort_desc(s)),
        sort_desc(s).to_multiset() == s.to_multiset(),
        sum_sizes(sizes_of(sort_desc(s))) == sum_sizes(sizes_of(s)),
    decreases s.len(),
{
    broadcast use vstd::seq_lib::to_multiset_insert, vstd::seq_lib::to_multiset_build;

    if s.len() == 0 {
        assert(sort_desc(s) =~= s);
    } else {
        let x = s.drop_last();
        lemma_sort_desc_props(x);
        lemma_insert_desc_sorted(sort_desc(x), s.last());
        let pos = lemma_insert_desc_is_insert(sort_desc(x), s.last());
        lemma_sum_insert(sort_desc(x), pos, s.last());
        assert(s =~= x.push(s.last()));
        assert(sizes_of(s) =~= sizes_of(x).push(s.last().size));
        assert(sizes_of(s).drop_last() =~= sizes_of(x));
    }
}

proof fn lemma_non_empty_props(s: Seq<EntryView>)
    ensures
        forall|i: int| 0 <= i < non_empty(s).len() ==> non_empty(s)[i].size > 0,
        sum_sizes(sizes_of(non_empty(s))) == sum_sizes(sizes_of(s)),
    decreases s.len(),
{
    if s.len() > 0 {
        let x = s.drop_last();
        lemma_non_empty_props(x);
        assert(sizes_of(s).drop_last() =~= sizes_of(x));
        if s.last().size > 0 {
            assert(sizes_of(non_empty(x).push(s.last())).drop_last() =~= sizes_of(non_empty(x)));
        }
    }
}

/// The entries that hold something are exactly the found entries with a
/// size above 0.
pub proof fn lemma_non_empty_contains(s: Seq<EntryView>, e: EntryView)
    ensures
        non_empty(s).contains(e) <==> (s.contains(e) && e.size > 0),
    decreases s.len(),
{
    if s.len() > 0 {
        let x = s.drop_last();
        lemma_non_empty_contains(x, e);
        let ne = non_empty(s);
        let nx = non_empty(x);
        if ne.contains(e) {
            let k = choose|k: int| 0 <= k < ne.len() && ne[k] == e;
            if k < nx.len() {
                assert(ne[k] == nx[k]);
                let j = choose|j: int| 0 <= j < x.len() && x[j] == e;
                assert(s[j] == e);
            } else {
                assert(s[s.len() - 1] == e);
            }
        }
        if s.contains(e) && e.size > 0 {
            let j = choose|j: int| 0 <= j < s.len() && s[j] == e;
            if j < s.len() - 1 {
                assert(x[j] == e);
                let k = choose|k: int| 0 <= k < nx.len() && nx[k] == e;
                assert(ne[k] == e);
            } else {
                assert(ne[ne.len() - 1] == e);
            }
        }
    }
}

/// A scan lists, largest first, exactly the found entries that hold
/// something, and what it lists adds up to everything that was found.
pub proof fn law_scan_lists_sorted_non_empty(found: Seq<EntryView>)
    ensures
        sorted_desc(sort_desc(non_empty(found))),
        forall|i: int|
            0 <= i < sort_desc(non_empty(found)).len() ==> sort_desc(non_empty(found))[i].size
                > 0,
        sort_desc(non_empty(found)).to_multiset() == non_empty(found).to_multiset(),
        sum_sizes(sizes_of(sort_desc(non_empty(found)))) == sum_sizes(sizes_of(found)),
{
    broadcast use vstd::seq_lib::to_multiset_contains;

    lemma_sort_desc_props(non_empty(found));
    lemma_non_empty_props(found);
    let r = sort_desc(non_empty(found));
    assert forall|i: int| 0 <= i < r.len() implies r[i].size > 0 by {
        assert(r.to_multiset().count(r[i]) > 0);
        assert(non_empty(found).contains(r[i]));
    }
}

} // verus!
