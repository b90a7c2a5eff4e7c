use vstd::prelude::*;
use crate::scan::{lemma_sum_prefix_grows, sum_sizes};

verus! {

/// Running totals of one cleanup: bytes freed, entries removed, failures.
pub struct CleanStats {
    pub freed: u64,
    pub files: u64,
    pub errors: u64,
}

impl CleanStats {
    /// Empty totals.
    pub fn new() -> (st: CleanStats)
        ensures
            st.freed == 0,
            st.files == 0,
            st.errors == 0,
    {
        CleanStats { freed: 0, files: 0, errors: 0 }
    }

    /// Adds the totals of `o` to `self`, field by field.
    pub fn merge(&mut self, o: CleanStats)
        requires
            old(self).freed + o.freed <= u64::MAX,
            old(self).files + o.files <= u64::MAX,
            old(self).errors + o.errors <= u64::MAX,
        ensures
            final(self).freed == old(self).freed + o.freed,
            final(self).files == old(self).files + o.files,
            final(self).errors == old(self).errors + o.errors,
    {
        self.freed += o.freed;
        self.files += o.files;
        self.errors += o.errors;
    }
}

impl Default for CleanStats {
    fn default() -> (st: CleanStats)
        ensures
            st.freed == 0,
            st.files == 0,
            st.errors == 0,
    {
        CleanStats::new()
    }
}

/// What a path turned out to be, read without following links.
pub enum PathKind {
    Missing,
    File,
    Dir,
    /// A link or junction itself.
    Other,
}

/// The first step of cleaning a path.
pub enum CleanStart {
    /// The guard refused the path: nothing is touched and one error is counted.
    Refuse,
    /// Nothing to do (the path is missing, or is a link itself).
    Skip,
    /// Delete the file itself.
    RemoveFile,
    /// Walk the directory, contents before their directory, links not followed.
    Walk,
}

/// Decides how a path is cleaned: a path that fails the guard is refused
/// before anything is read of it; otherwise a missing path or a link is left
/// alone, a file is deleted, and a directory is walked.
pub fn clean_start(safe: bool, kind: PathKind) -> (r: CleanStart)
    ensures
        !safe ==> r is Refuse,
        safe ==> match kind {
            PathKind::Missing => r is Skip,
            PathKind::Other => r is Skip,
            PathKind::File => r is RemoveFile,
            PathKind::Dir => r is Walk,
        },
{
    if !safe {
        CleanStart::Refuse
    } else {
        match kind {
            PathKind::Missing => CleanStart::Skip,
            PathKind::File => CleanStart::RemoveFile,
            PathKind::Dir => CleanStart::Walk,
            PathKind::Other => CleanStart::Skip,
        }
    }
}

/// An entry met while cleaning.
pub enum EntryKind {
    /// A directory, removed once empty; its failure is not counted.
    Dir,
    /// A link or junction: only the link is removed, its size is not counted.
    Link,
    /// A file of the given size.
    File,
}

/// What removing an entry met while walking a directory amounts to: a
/// directory is removed as an (emptied) directory, a link or junction is
/// removed as a link without following it, and anything else as a file.
pub fn walk_step(is_dir: bool, is_symlink: bool) -> (r: EntryKind)
    ensures
        is_dir ==> r is Dir,
        !is_dir && is_symlink ==> r is Link,
        !is_dir && !is_symlink ==> r is File,
{
    if is_dir {
        EntryKind::Dir
    } else if is_symlink {
        EntryKind::Link
    } else {
        EntryKind::File
    }
}

/// The shallowest depth at which a directory walk removes entries, the
/// directory itself being depth 0: with `keep_root` the directory stays and
/// only what it holds goes.
pub fn walk_min_depth(keep_root: bool) -> (d: usize)
    ensures
        keep_root ==> d == 1,
        !keep_root ==> d == 0,
{
    if keep_root {
        1
    } else {
        0
    }
}

/// What follows a failed attempt to delete a file.
pub enum RemoveStep {
    /// Clear the read-only attribute and delete once more.
    ClearReadOnlyThenRetry,
    /// Give up and report the error of the first attempt.
    FailWithFirstError,
}

/// After a failed deletion, a read-only file loses that attribute and is
/// deleted again; any other failure stands.
pub fn after_failed_remove(readonly: bool) -> (r: RemoveStep)
    ensures
        readonly <==> r is ClearReadOnlyThenRetry,
        !readonly <==> r is FailWithFirstError,
{
    if readonly {
        RemoveStep::ClearReadOnlyThenRetry
    } else {
        RemoveStep::FailWithFirstError
    }
}

/// The freed bytes of a run of totals.
pub open spec fn freed_of(s: Seq<CleanStats>) -> Seq<u64> {
    s.map_values(|x: CleanStats| x.freed)
}

/// The removed entries of a run of totals.
pub open spec fn files_of(s: Seq<CleanStats>) -> Seq<u64> {
    s.map_values(|x: CleanStats| x.files)
}

/// The failures of a run of totals.
pub open spec fn errors_of(s: Seq<CleanStats>) -> Seq<u64> {
    s.map_values(|x: CleanStats| x.errors)
}

impl CleanStats {
    /// The totals of a cleanup made of the parts `parts`, field by field;
    /// `None` when one of the three sums does not fit in 64 bits.
    pub fn sum_all(parts: &Vec<CleanStats>) -> (r: Option<CleanStats>)
        ensures
            match r {
                Some(st) => st.freed == sum_sizes(freed_of(parts@)) && st.files == sum_sizes(
                    files_of(parts@),
                ) && st.errors == sum_sizes(errors_of(parts@)),
                None => sum_sizes(freed_of(parts@)) > u64::MAX || sum_sizes(files_of(parts@))
                    > u64::MAX || sum_sizes(errors_of(parts@)) > u64::MAX,
            },
    {
        let ghost fr = freed_of(parts@);
        let ghost fi = files_of(parts@);
        let ghost er = errors_of(parts@);
        let mut acc = CleanStats::new();
        let mut i: usize = 0;
        while i < parts.len()
            invariant
                i <= parts.len(),
                fr == freed_of(parts@),
                fi == files_of(parts@),
                er == errors_of(parts@),
                acc.freed == sum_sizes(fr.take(i as int)),
                acc.files == sum_sizes(fi.take(i as int)),
                acc.errors == sum_sizes(er.take(i as int)),
            decreases parts.len() - i,
        {
            assert(fr.take(i + 1).drop_last() =~= fr.take(i as int));
            assert(fi.take(i + 1).drop_last() =~= fi.take(i as int));
            assert(er.take(i + 1).drop_last() =~= er.take(i as int));
            let p = &parts[i];
            let f = acc.freed.checked_add(p.freed);
            let n = acc.files.checked_add(p.files);
            let e = acc.errors.checked_add(p.errors);
            if f.is_none() || n.is_none() || e.is_none() {
                proof {
                    lemma_sum_prefix_grows(fr, i + 1);
                    lemma_sum_prefix_grows(fi, i + 1);
                    lemma_sum_prefix_grows(er, i + 1);
                }
                return None;
            }
            acc = CleanStats { freed: f.unwrap(), files: n.unwrap(), errors: e.unwrap() };
            i += 1;
        }
        assert(fr.take(parts.len() as int) =~= fr);
        assert(fi.take(parts.len() as int) =~= fi);
        assert(er.take(parts.len() as int) =~= er);
        Some(acc)
    }

    /// The totals of a refused path: one error.
    pub fn refused() -> (st: CleanStats)
        ensures
            st.freed == 0,
            st.files == 0,
            st.errors == 1,
    {
        CleanStats { freed: 0, files: 0, errors: 1 }
    }

    /// Counts the outcome of removing one entry: a removed file adds its size
    /// and one file, a removed link adds one file, a failed removal of either
    /// adds one error, and a directory adds nothing.
    pub fn record_entry(&mut self, kind: EntryKind, len: u64, removed: bool)
        requires
            (kind is File && removed) ==> old(self).freed + len <= u64::MAX,
            (!(kind is Dir) && removed) ==> old(self).files + 1 <= u64::MAX,
            (!(kind is Dir) && !removed) ==> old(self).errors + 1 <= u64::MAX,
        ensures
            match kind {
                EntryKind::Dir => *final(self) == *old(self),
                EntryKind::Link => if removed {
                    final(self).freed == old(self).freed && final(self).files == old(self).files + 1
                        && final(self).errors == old(self).errors
                } else {
                    final(self).freed == old(self).freed && final(self).files == old(self).files
                        && final(self).errors == old(self).errors + 1
                },
                EntryKind::File => if removed {
                    final(self).freed == old(self).freed + len && final(self).files == old(
                        self,
                    ).files + 1 && final(self).errors == old(self).errors
                } else {
                    final(self).freed == old(self).freed && final(self).files == old(self).files
                        && final(self).errors == old(self).errors + 1
                },
            },
    {
        match kind {
            EntryKind::Dir => {},
            EntryKind::Link => {
                if removed {
                    self.files += 1;
                } else {
                    self.errors += 1;
                }
            },
            EntryKind::File => {
                if removed {
                    self.freed += len;
                    self.files += 1;
                } else {
                    self.errors += 1;
                }
            },
        }
    }
}

} // verus!
