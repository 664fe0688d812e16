//! Mark-and-sweep cleanup of the image cache directory.
//!
//! The cleaners decide which files go; the caller lists the directory and deletes them.
use crate::text::str_eq;
use vstd::prelude::*;

verus! {

/// One entry of a directory listing: its path, and whether it is a plain file.
pub struct ListedEntry {
    pub path: String,
    pub is_file: bool,
}

/// The paths of the plain files in `entries` that are not kept, in listing order.
pub open spec fn to_delete(entries: Seq<ListedEntry>, kept: Set<Seq<char>>) -> Seq<Seq<char>>
    decreases entries.len(),
{
    if entries.len() == 0 {
        Seq::empty()
    } else {
        let e = entries.last();
        let rest = to_delete(entries.drop_last(), kept);
        if e.is_file && !kept.contains(e.path@) {
            rest.push(e.path@)
        } else {
            rest
        }
    }
}

/// The set of the paths held in `v`.
pub open spec fn path_set(v: Seq<String>) -> Set<Seq<char>> {
    Set::new(|p: Seq<char>| exists|i: int| 0 <= i < v.len() && (#[trigger] v[i])@ == p)
}

/// Whether `v` holds `p`.
fn holds(v: &Vec<String>, p: &str) -> (r: bool)
    ensures
        r == path_set(v@).contains(p@),
{
    let mut i: usize = 0;
    while i < v.len()
        invariant
            i <= v.len(),
            forall|j: int| 0 <= j < i ==> (#[trigger] v@[j])@ != p@,
        decreases v.len() - i,
    {
        if str_eq(v[i].as_str(), p) {
            return true;
        }
        i = i + 1;
    }
    false
}

/// Tracks, for one cache directory, the files that the current run uses. When the run is
/// over, `finalize` names every other plain file of the directory (sub-directories are
/// left alone), and the cleaner is done: a new run needs a new cleaner.
pub struct CacheCleaner {
    /// All files we want to keep
    files_to_keep: Vec<String>,
    /// The directory we're cleaning (only at root level, no recursion)
    dir: String,
    finalized: bool,
}

impl CacheCleaner {
    /// The paths kept so far.
    pub closed spec fn kept(&self) -> Set<Seq<char>> {
        path_set(self.files_to_keep@)
    }

    /// The directory this cleaner is for.
    pub closed spec fn directory(&self) -> Seq<char> {
        self.dir@
    }

    /// Whether the sweep has been decided.
    pub closed spec fn is_finalized(&self) -> bool {
        self.finalized
    }

    pub fn new(img_path: &str) -> (r: CacheCleaner)
        ensures
            r.directory() == img_path@,
            r.kept() == Set::<Seq<char>>::empty(),
            !r.is_finalized(),
    {
        let r = CacheCleaner {
            files_to_keep: Vec::new(),
            dir: String::from_str(img_path),
            finalized: false,
        };
        assert(r.kept() =~= Set::<Seq<char>>::empty());
        r
    }

    /// The directory this cleaner is for.
    pub fn dir(&self) -> (r: &str)
        ensures
            r@ == self.directory(),
    {
        self.dir.as_str()
    }

    /// Marks `img_path` as used by this run.
    pub fn keep(&mut self, img_path: &str)
        requires
            !old(self).is_finalized(),
        ensures
            final(self).kept() == old(self).kept().insert(img_path@),
            final(self).directory() == old(self).directory(),
            !final(self).is_finalized(),
    {
        if !holds(&self.files_to_keep, img_path) {
            let ghost before = self.files_to_keep@;
            self.files_to_keep.push(String::from_str(img_path));
            proof {
                let after = self.files_to_keep@;
                assert forall|p: Seq<char>| path_set(after).contains(p) implies path_set(
                    before,
                ).insert(img_path@).contains(p) by {
                    let i = choose|i: int| 0 <= i < after.len() && (#[trigger] after[i])@ == p;
                    if i < before.len() {
                        assert(after[i] == before[i]);
                    }
                }
                assert forall|p: Seq<char>| path_set(before).insert(img_path@).contains(
                    p,
                ) implies path_set(after).contains(p) by {
                    if p == img_path@ {
                        assert(after[before.len() as int]@ == p);
                    } else {
                        let i = choose|i: int|
                            0 <= i < before.len() && (#[trigger] before[i])@ == p;
                        assert(after[i] == before[i]);
                    }
                }
                assert(path_set(after) =~= path_set(before).insert(img_path@));
            }
        } else {
            assert(self.kept().insert(img_path@) =~= self.kept());
        }
    }

    /// Ends the run: given the listing of the directory, returns the plain files to delete,
    /// that is every plain file that was not kept, in listing order.
    pub fn finalize(&mut self, entries: &Vec<ListedEntry>) -> (r: Vec<String>)
        requires
            !old(self).is_finalized(),
        ensures
            final(self).is_finalized(),
            final(self).kept() == old(self).kept(),
            final(self).directory() == old(self).directory(),
            r@.map_values(|s: String| s@) == to_delete(entries@, old(self).kept()),
    {
        let mut r: Vec<String> = Vec::new();
        let mut i: usize = 0;
        while i < entries.len()
            invariant
                i <= entries.len(),
                !self.finalized,
                r@.map_values(|s: String| s@) == to_delete(
                    entries@.take(i as int),
                    path_set(self.files_to_keep@),
                ),
            decreases entries.len() - i,
        {
            let e = &entries[i];
            proof {
                assert(entries@.take(i + 1).drop_last() =~= entries@.take(i as int));
            }
            if e.is_file && !holds(&self.files_to_keep, e.path.as_str()) {
                let ghost before = r@.map_values(|s: String| s@);
                r.push(e.path.clone());
                assert(r@.map_values(|s: String| s@) =~= before.push(e.path@));
            }
            i = i + 1;
        }
        assert(entries@.take(entries.len() as int) =~= entries@);
        self.finalized = true;
        r
    }
}

/// The sweep deletes only plain files of the listing that were not kept, and every such
/// file: kept files and sub-directories stay.
pub proof fn lemma_sweep_deletes_exactly_unkept_files(
    entries: Seq<ListedEntry>,
    kept: Set<Seq<char>>,
)
    ensures
        forall|p: Seq<char>| #[trigger]
            to_delete(entries, kept).contains(p) ==> !kept.contains(p) && exists|i: int|
                0 <= i < entries.len() && entries[i].is_file && (#[trigger] entries[i]).path@
                    == p,
        forall|i: int|
            0 <= i < entries.len() && (#[trigger] entries[i]).is_file && !kept.contains(
                entries[i].path@,
            ) ==> to_delete(entries, kept).contains(entries[i].path@),
    decreases entries.len(),
{
    if entries.len() > 0 {
        let d = entries.drop_last();
        lemma_sweep_deletes_exactly_unkept_files(d, kept);
        let e = entries.last();
        let rest = to_delete(d, kept);
        assert forall|p: Seq<char>| #[trigger]
            to_delete(entries, kept).contains(p) implies !kept.contains(p) && exists|i: int|
                0 <= i < entries.len() && entries[i].is_file && (#[trigger] entries[i]).path@
                    == p by {
            if rest.contains(p) {
                let i = choose|i: int|
                    0 <= i < d.len() && d[i].is_file && (#[trigger] d[i]).path@ == p;
                assert(entries[i] == d[i]);
            } else {
                assert(entries[entries.len() - 1] == e);
            }
        }
        assert forall|i: int|
            0 <= i < entries.len() && (#[trigger] entries[i]).is_file && !kept.contains(
                entries[i].path@,
            ) implies to_delete(entries, kept).contains(entries[i].path@) by {
            if i < d.len() {
                assert(entries[i] == d[i]);
                assert(rest.contains(d[i].path@));
                let j = choose|j: int| 0 <= j < rest.len() && rest[j] == d[i].path@;
                if e.is_file && !kept.contains(e.path@) {
                    assert(rest.push(e.path@)[j] == rest[j]);
                }
            } else {
                assert(to_delete(entries, kept).last() == e.path@);
            }
        }
    }
}

/// Remembers the plain files found in a directory when the run started; those that the
/// run does not keep are what remains to delete at its end.
pub struct DirCleaner {
    files: Vec<String>,
}

/// The paths of the plain files in `entries`.
pub open spec fn plain_files(entries: Seq<ListedEntry>) -> Set<Seq<char>> {
    Set::new(
        |p: Seq<char>|
            exists|i: int| 0 <= i < entries.len() && entries[i].is_file && (#[trigger] entries[i]).path@ == p,
    )
}

impl DirCleaner {
    /// The files that would be deleted now.
    pub closed spec fn remaining(&self) -> Set<Seq<char>> {
        path_set(self.files@)
    }

    /// Starts from the listing of the directory: every plain file in it is a candidate.
    pub fn new(entries: &Vec<ListedEntry>) -> (r: DirCleaner)
        ensures
            r.remaining() == plain_files(entries@),
    {
        let mut files: Vec<String> = Vec::new();
        let mut i: usize = 0;
        while i < entries.len()
            invariant
                i <= entries.len(),
                path_set(files@) == plain_files(entries@.take(i as int)),
            decreases entries.len() - i,
        {
            let ghost before = files@;
            if entries[i].is_file {
                files.push(entries[i].path.clone());
            }
            proof {
                let t = entries@.take(i + 1);
                assert forall|p: Seq<char>| path_set(files@).contains(p) implies plain_files(
                    t,
                ).contains(p) by {
                    let j = choose|j: int| 0 <= j < files@.len() && (#[trigger] files@[j])@ == p;
                    if j < before.len() {
                        assert(files@[j] == before[j]);
                        assert(path_set(before).contains(p));
                        let k = choose|k: int|
                            0 <= k < i && entries@.take(i as int)[k].is_file && (
                            #[trigger] entries@.take(i as int)[k]).path@ == p;
                        assert(t[k] == entries@.take(i as int)[k]);
                    } else {
                        assert(t[i as int] == entries@[i as int]);
                    }
                }
                assert forall|p: Seq<char>| plain_files(t).contains(p) implies path_set(
                    files@,
                ).contains(p) by {
                    let k = choose|k: int| 0 <= k < t.len() && t[k].is_file && (#[trigger] t[k]).path@ == p;
                    if k < i {
                        assert(t[k] == entries@.take(i as int)[k]);
                        assert(plain_files(entries@.take(i as int)).contains(p));
                        let j = choose|j: int| 0 <= j < before.len() && (#[trigger] before[j])@ == p;
                        assert(files@[j] == before[j]);
                    } else {
                        assert(files@[before.len() as int]@ == p);
                    }
                }
                assert(path_set(files@) =~= plain_files(t));
            }
            i = i + 1;
        }
        assert(entries@.take(entries.len() as int) =~= entries@);
        DirCleaner { files }
    }

    /// Marks `img_path` as used: it will not be deleted.
    pub fn keep(&mut self, img_path: &str)
        ensures
            final(self).remaining() == old(self).remaining().remove(img_path@),
    {
        let mut kept: Vec<String> = Vec::new();
        let mut i: usize = 0;
        let ghost old_files = self.files@;
        while i < self.files.len()
            invariant
                i <= self.files.len(),
                self.files@ == old_files,
                path_set(kept@) == path_set(old_files.take(i as int)).remove(img_path@),
            decreases self.files.len() - i,
        {
            let ghost before = kept@;
            let f = self.files[i].clone();
            if !str_eq(f.as_str(), img_path) {
                kept.push(f);
            }
            proof {
                let t = old_files.take(i + 1);
                assert forall|p: Seq<char>| path_set(kept@).contains(p) implies path_set(
                    t,
                ).remove(img_path@).contains(p) by {
                    let j = choose|j: int| 0 <= j < kept@.len() && (#[trigger] kept@[j])@ == p;
                    if j < before.len() {
                        assert(kept@[j] == before[j]);
                        assert(path_set(before).contains(p));
                        let k = choose|k: int|
                            0 <= k < i && (#[trigger] old_files.take(i as int)[k])@ == p;
                        assert(t[k] == old_files.take(i as int)[k]);
                    } else {
                        assert(t[i as int] == old_files[i as int]);
                    }
                }
                assert forall|p: Seq<char>| path_set(t).remove(img_path@).contains(
                    p,
                ) implies path_set(kept@).contains(p) by {
                    let k = choose|k: int| 0 <= k < t.len() && (#[trigger] t[k])@ == p;
                    if k < i {
                        assert(t[k] == old_files.take(i as int)[k]);
                        assert(path_set(old_files.take(i as int)).contains(p));
                        assert(path_set(old_files.take(i as int)).remove(img_path@).contains(p));
                        assert(path_set(before).contains(p));
                        let j = choose|j: int| 0 <= j < before.len() && (#[trigger] before[j])@ == p;
                        assert(kept@[j] == before[j]);
                    } else {
                        assert(t[k] == old_files[i as int]);
                        assert(kept@[before.len() as int]@ == p);
                    }
                }
                assert(path_set(kept@) =~= path_set(t).remove(img_path@));
            }
            i = i + 1;
        }
        assert(old_files.take(old_files.len() as int) =~= old_files);
        self.files = kept;
    }

    /// The files to delete at the end of the run.
    pub fn files(&self) -> (r: &Vec<String>)
        ensures
            path_set(r@) == self.remaining(),
    {
        &self.files
    }
}

} // verus!
