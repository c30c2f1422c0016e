use vstd::prelude::*;
use crate::order::{
    is_sorted, keep, lemma_keep_all, lemma_keep_contains, lemma_sorted_by_contains, lemma_keep_concat, lemma_keep_members, lemma_keep_none,
    lemma_keep_of_sorted, lemma_sorted_by_is_sorted, lemma_sorted_by_keeps_sorted_part, lemma_sorted_fixed,
    sort_entries, sorted_by,
};
use crate::path::{hidden, is_absolute, is_hidden, join, join_spec, resolve, resolve_spec};

verus! {

/// The order applied to a directory snapshot.
#[derive(Clone, Copy, PartialEq, Eq, Structural, Debug)]
pub enum Sorting {
    Unsorted,
    SortedBySizeDescending,
    SortedBySizeAscending,
    SortedByNameDescending,
    SortedByNameAscending,
}

/// Where directories are pinned within a snapshot.
#[derive(Clone, Copy, PartialEq, Eq, Structural, Debug)]
pub enum SortDir {
    Unsorted,
    Start,
    End,
}

/// What kind of filesystem object an entry is; `Unknown` marks an entry
/// whose metadata could not be read.
#[derive(Clone, Copy, PartialEq, Eq, Structural, Debug)]
pub enum EntryKind {
    File,
    Directory,
    Symlink,
    Unknown,
}

/// One object of a directory listing, as it was when the listing was taken.
#[derive(Debug)]
pub struct Entry {
    pub name: Vec<char>,
    pub kind: EntryKind,
    pub size: u64,
}

impl Entry {
    pub open spec fn is_dir(self) -> bool {
        self.kind == EntryKind::Directory
    }
}


/// The failures of the engine's own operations.
#[derive(Clone, Copy, PartialEq, Eq, Structural, Debug)]
pub enum FsError {
    /// No entry stands at the requested index.
    NotFound,
    /// The path cannot be made absolute.
    Resolution,
    /// The entry is neither a file, a directory nor a symbolic link.
    UnsupportedKind,
}

/// How an entry is removed from the filesystem.
#[derive(Clone, Copy, PartialEq, Eq, Structural, Debug)]
pub enum Removal {
    /// Remove the directory and everything below it.
    Tree,
    /// Remove the single entry.
    Single,
}

pub open spec fn dir_filter() -> spec_fn(Entry) -> bool {
    |e: Entry| e.is_dir()
}

pub open spec fn other_filter() -> spec_fn(Entry) -> bool {
    |e: Entry| !e.is_dir()
}

pub open spec fn visible(show_hidden: bool) -> spec_fn(Entry) -> bool {
    |e: Entry| show_hidden || !is_hidden(e.name@)
}

/// `s` with its directories pinned as `p` asks, each group in its order in `s`.
pub open spec fn placed(p: SortDir, s: Seq<Entry>) -> Seq<Entry> {
    match p {
        SortDir::Unsorted => s,
        SortDir::Start => keep(s, dir_filter()) + keep(s, other_filter()),
        SortDir::End => keep(s, other_filter()) + keep(s, dir_filter()),
    }
}

/// Sorting under `mode`, then pinning directories as `p` asks.
pub open spec fn arranged(mode: Sorting, p: SortDir, s: Seq<Entry>) -> Seq<Entry> {
    placed(p, sorted_by(mode, s))
}

/// The snapshot built from a fresh `listing` under the given configuration.
pub open spec fn snapshot(listing: Seq<Entry>, show_hidden: bool, mode: Sorting, p: SortDir) -> Seq<Entry> {
    arranged(mode, p, keep(listing, visible(show_hidden)))
}

/// The placement that follows `p` in the cycle none, start, end.
pub open spec fn next_placement(p: SortDir) -> SortDir {
    match p {
        SortDir::Unsorted => SortDir::Start,
        SortDir::Start => SortDir::End,
        SortDir::End => SortDir::Unsorted,
    }
}

/// A path that a selection can hold: resolving it gives a path that fits.
pub open spec fn resolvable(cwd: Seq<char>, path: Seq<char>) -> bool {
    path.len() > 0 && cwd.len() + path.len() + 1 <= usize::MAX
}

/// How an entry of `kind` is removed.
pub open spec fn removal_spec(kind: EntryKind) -> Result<Removal, FsError> {
    match kind {
        EntryKind::Directory => Ok(Removal::Tree),
        EntryKind::File | EntryKind::Symlink => Ok(Removal::Single),
        EntryKind::Unknown => Err(FsError::UnsupportedKind),
    }
}

/// How an entry of `kind` is removed.
pub fn removal_for(kind: EntryKind) -> (r: Result<Removal, FsError>)
    ensures
        r == removal_spec(kind),
{
    match kind {
        EntryKind::Directory => Ok(Removal::Tree),
        EntryKind::File | EntryKind::Symlink => Ok(Removal::Single),
        EntryKind::Unknown => Err(FsError::UnsupportedKind),
    }
}

/// The entries of `v` that the hidden-file filter lets through, in order.
pub fn keep_visible(v: Vec<Entry>, show_hidden: bool) -> (r: Vec<Entry>)
    ensures
        r@ == keep(v@, visible(show_hidden)),
{
    let ghost s = v@;
    let mut v = v;
    let mut out: Vec<Entry> = Vec::new();
    let n = v.len();
    let mut i: usize = 0;
    assert(s.subrange(0, 0) =~= Seq::<Entry>::empty());
    assert(s.subrange(0, n as int) =~= s);
    while i < n
        invariant
            n == s.len(),
            i <= n,
            out@ == keep(s.subrange(0, i as int), visible(show_hidden)),
            v@ == s.subrange(i as int, n as int),
        decreases n - i,
    {
        assert(v@[0] == s[i as int]);
        let e = v.remove(0);
        proof {
            let q = s.subrange(0, i + 1);
            assert(q.drop_last() =~= s.subrange(0, i as int));
            assert(q.last() == e);
            assert(v@ =~= s.subrange(i + 1, n as int));
        }
        if show_hidden || !hidden(&e.name) {
            out.push(e);
        }
        i = i + 1;
    }
    assert(s.subrange(0, n as int) =~= s);
    out
}

/// Splits `v` into its directories and its other entries, each in order.
pub fn split_dirs(v: Vec<Entry>) -> (r: (Vec<Entry>, Vec<Entry>))
    ensures
        r.0@ == keep(v@, dir_filter()),
        r.1@ == keep(v@, other_filter()),
{
    let ghost s = v@;
    let mut v = v;
    let mut dirs: Vec<Entry> = Vec::new();
    let mut others: Vec<Entry> = Vec::new();
    let n = v.len();
    let mut i: usize = 0;
    assert(s.subrange(0, 0) =~= Seq::<Entry>::empty());
    assert(s.subrange(0, n as int) =~= s);
    while i < n
        invariant
            n == s.len(),
            i <= n,
            dirs@ == keep(s.subrange(0, i as int), dir_filter()),
            others@ == keep(s.subrange(0, i as int), other_filter()),
            v@ == s.subrange(i as int, n as int),
        decreases n - i,
    {
        assert(v@[0] == s[i as int]);
        let e = v.remove(0);
        proof {
            let q = s.subrange(0, i + 1);
            assert(q.drop_last() =~= s.subrange(0, i as int));
            assert(q.last() == e);
            assert(v@ =~= s.subrange(i + 1, n as int));
        }
        match e.kind {
            EntryKind::Directory => dirs.push(e),
            _ => others.push(e),
        }
        i = i + 1;
    }
    assert(s.subrange(0, n as int) =~= s);
    (dirs, others)
}

/// Pins the directories of `v` as `p` asks.
pub fn place(p: SortDir, v: Vec<Entry>) -> (r: Vec<Entry>)
    ensures
        r@ == placed(p, v@),
{
    match p {
        SortDir::Unsorted => v,
        SortDir::Start => {
            let (mut dirs, mut others) = split_dirs(v);
            dirs.append(&mut others);
            dirs
        },
        SortDir::End => {
            let (mut dirs, mut others) = split_dirs(v);
            others.append(&mut dirs);
            others
        },
    }
}

/// The directory snapshot engine: the active directory, its current listing
/// in display order, the sort and placement configuration, the hidden-file
/// filter and the selection buffer of absolute paths.
pub struct FileManager {
    cwd: Vec<char>,
    files: Vec<Entry>,
    curr_sort: Sorting,
    show_hidden: bool,
    dir_sorting: SortDir,
    copy_buffer: Vec<Vec<char>>,
}

impl FileManager {
    pub closed spec fn cwd_spec(&self) -> Seq<char> {
        self.cwd@
    }

    pub closed spec fn files_spec(&self) -> Seq<Entry> {
        self.files@
    }

    pub closed spec fn sort_spec(&self) -> Sorting {
        self.curr_sort
    }

    pub closed spec fn hidden_spec(&self) -> bool {
        self.show_hidden
    }

    pub closed spec fn placement_spec(&self) -> SortDir {
        self.dir_sorting
    }

    pub closed spec fn selection_spec(&self) -> Seq<Seq<char>> {
        self.copy_buffer@.map_values(|p: Vec<char>| p@)
    }

    /// The active directory is absolute, and so is every selected path.
    pub open spec fn wf(&self) -> bool {
        &&& is_absolute(self.cwd_spec())
        &&& forall|k: int| 0 <= k < self.selection_spec().len() ==> is_absolute(#[trigger] self.selection_spec()[k])
    }

    /// An engine for the absolute directory `cwd`, whose listing is `listing`.
    pub fn new(cwd: Vec<char>, listing: Vec<Entry>) -> (r: FileManager)
        requires
            is_absolute(cwd@),
        ensures
            r.wf(),
            r.cwd_spec() == cwd@,
            r.files_spec() == snapshot(listing@, false, Sorting::Unsorted, SortDir::Unsorted),
            r.sort_spec() == Sorting::Unsorted,
            r.placement_spec() == SortDir::Unsorted,
            !r.hidden_spec(),
            r.selection_spec() == Seq::<Seq<char>>::empty(),
    {
        let mut fm = FileManager {
            cwd: Vec::new(),
            files: Vec::new(),
            curr_sort: Sorting::Unsorted,
            show_hidden: false,
            dir_sorting: SortDir::Unsorted,
            copy_buffer: Vec::new(),
        };
        assert(fm.selection_spec() =~= Seq::<Seq<char>>::empty());
        fm.change_dir(cwd, listing);
        fm
    }

    /// Makes `target`, whose listing is `listing`, the active directory and
    /// rebuilds the snapshot under the current configuration.
    pub fn change_dir(&mut self, target: Vec<char>, listing: Vec<Entry>)
        requires
            is_absolute(target@),
            forall|k: int| 0 <= k < old(self).selection_spec().len() ==> is_absolute(#[trigger] old(self).selection_spec()[k]),
        ensures
            final(self).wf(),
            final(self).cwd_spec() == target@,
            final(self).files_spec() == snapshot(listing@, old(self).hidden_spec(), old(self).sort_spec(), old(self).placement_spec()),
            final(self).sort_spec() == old(self).sort_spec(),
            final(self).placement_spec() == old(self).placement_spec(),
            final(self).hidden_spec() == old(self).hidden_spec(),
            final(self).selection_spec() == old(self).selection_spec(),
    {
        self.cwd = target;
        let mut files = keep_visible(listing, self.show_hidden);
        sort_entries(self.curr_sort, &mut files);
        self.files = place(self.dir_sorting, files);
        assert(self.selection_spec() == old(self).selection_spec());
    }

    /// Rebuilds the snapshot of the active directory from a fresh `listing`.
    pub fn update(&mut self, listing: Vec<Entry>)
        requires
            old(self).wf(),
        ensures
            final(self).wf(),
            final(self).cwd_spec() == old(self).cwd_spec(),
            final(self).files_spec() == snapshot(listing@, old(self).hidden_spec(), old(self).sort_spec(), old(self).placement_spec()),
            final(self).sort_spec() == old(self).sort_spec(),
            final(self).placement_spec() == old(self).placement_spec(),
            final(self).hidden_spec() == old(self).hidden_spec(),
            final(self).selection_spec() == old(self).selection_spec(),
    {
        let mut files = keep_visible(listing, self.show_hidden);
        sort_entries(self.curr_sort, &mut files);
        self.files = place(self.dir_sorting, files);
        assert(self.selection_spec() == old(self).selection_spec());
    }

    /// The current snapshot, in display order.
    pub fn get_entries(&self) -> (r: &Vec<Entry>)
        ensures
            r@ == self.files_spec(),
    {
        &self.files
    }

    /// Number of entries in the snapshot.
    pub fn num_files(&self) -> (r: usize)
        ensures
            r == self.files_spec().len(),
    {
        self.files.len()
    }

    /// The active directory.
    pub fn cwd(&self) -> (r: &Vec<char>)
        ensures
            r@ == self.cwd_spec(),
    {
        &self.cwd
    }

    pub fn curr_sort(&self) -> (r: Sorting)
        ensures
            r == self.sort_spec(),
    {
        self.curr_sort
    }

    pub fn show_hidden(&self) -> (r: bool)
        ensures
            r == self.hidden_spec(),
    {
        self.show_hidden
    }

    pub fn dir_sorting(&self) -> (r: SortDir)
        ensures
            r == self.placement_spec(),
    {
        self.dir_sorting
    }

    /// The selected absolute paths.
    pub fn selection(&self) -> (r: &Vec<Vec<char>>)
        ensures
            r@.map_values(|p: Vec<char>| p@) == self.selection_spec(),
    {
        &self.copy_buffer
    }

    /// Sorts the snapshot stably under `sort_mode`, then pins directories as
    /// configured.
    pub fn sort(&mut self, sort_mode: Sorting)
        ensures
            final(self).files_spec() == arranged(sort_mode, old(self).placement_spec(), old(self).files_spec()),
            final(self).sort_spec() == sort_mode,
            final(self).placement_spec() == old(self).placement_spec(),
            final(self).hidden_spec() == old(self).hidden_spec(),
            final(self).cwd_spec() == old(self).cwd_spec(),
            final(self).selection_spec() == old(self).selection_spec(),
    {
        let mut files: Vec<Entry> = Vec::new();
        std::mem::swap(&mut files, &mut self.files);
        sort_entries(sort_mode, &mut files);
        self.curr_sort = sort_mode;
        self.files = place(self.dir_sorting, files);
    }

    /// Advances the directory placement and applies it to the snapshot
    /// without sorting again.
    pub fn cycle_dir_placement(&mut self)
        ensures
            final(self).placement_spec() == next_placement(old(self).placement_spec()),
            final(self).files_spec() == placed(next_placement(old(self).placement_spec()), old(self).files_spec()),
            final(self).sort_spec() == old(self).sort_spec(),
            final(self).hidden_spec() == old(self).hidden_spec(),
            final(self).cwd_spec() == old(self).cwd_spec(),
            final(self).selection_spec() == old(self).selection_spec(),
    {
        self.dir_sorting = match self.dir_sorting {
            SortDir::Unsorted => SortDir::Start,
            SortDir::Start => SortDir::End,
            SortDir::End => SortDir::Unsorted,
        };
        let mut files: Vec<Entry> = Vec::new();
        std::mem::swap(&mut files, &mut self.files);
        self.files = place(self.dir_sorting, files);
    }

    /// Flips the hidden-file filter; the snapshot is rebuilt by the next update.
    pub fn toggle_hidden(&mut self)
        ensures
            final(self).hidden_spec() == !old(self).hidden_spec(),
            final(self).files_spec() == old(self).files_spec(),
            final(self).sort_spec() == old(self).sort_spec(),
            final(self).placement_spec() == old(self).placement_spec(),
            final(self).cwd_spec() == old(self).cwd_spec(),
            final(self).selection_spec() == old(self).selection_spec(),
    {
        self.show_hidden = !self.show_hidden;
    }

    /// Adds `path`, resolved against the active directory with its empty and
    /// `.` components dropped, to the selection.
    pub fn add_copy(&mut self, path: Vec<char>) -> (r: Result<(), FsError>)
        requires
            old(self).wf(),
        ensures
            final(self).wf(),
            resolvable(old(self).cwd_spec(), path@) ==> r is Ok && final(self).selection_spec()
                == old(self).selection_spec().push(resolve_spec(old(self).cwd_spec(), path@)),
            !resolvable(old(self).cwd_spec(), path@) ==> r == Err::<(), FsError>(FsError::Resolution)
                && final(self).selection_spec() == old(self).selection_spec(),
            final(self).files_spec() == old(self).files_spec(),
            final(self).cwd_spec() == old(self).cwd_spec(),
            final(self).sort_spec() == old(self).sort_spec(),
            final(self).placement_spec() == old(self).placement_spec(),
            final(self).hidden_spec() == old(self).hidden_spec(),
    {
        if path.len() == 0 || path.len() >= usize::MAX - self.cwd.len() {
            return Err(FsError::Resolution);
        }
        let full = resolve(&self.cwd, &path);
        proof {
            crate::path::lemma_resolve_absolute(self.cwd@, path@);
        }
        let ghost before = self.selection_spec();
        self.copy_buffer.push(full);
        assert(self.selection_spec() =~= before.push(resolve_spec(self.cwd@, path@)));
        Ok(())
    }

    /// Empties the selection.
    pub fn clear_copy(&mut self)
        requires
            old(self).wf(),
        ensures
            final(self).wf(),
            final(self).selection_spec() == Seq::<Seq<char>>::empty(),
            final(self).files_spec() == old(self).files_spec(),
            final(self).cwd_spec() == old(self).cwd_spec(),
            final(self).sort_spec() == old(self).sort_spec(),
            final(self).placement_spec() == old(self).placement_spec(),
            final(self).hidden_spec() == old(self).hidden_spec(),
    {
        self.copy_buffer.clear();
        assert(self.selection_spec() =~= Seq::<Seq<char>>::empty());
    }

    /// Makes `path`, resolved against the active directory, the only
    /// selected path; a path that cannot be resolved leaves the selection as
    /// it was.
    pub fn copy(&mut self, path: Vec<char>) -> (r: Result<(), FsError>)
        requires
            old(self).wf(),
        ensures
            final(self).wf(),
            resolvable(old(self).cwd_spec(), path@) ==> r is Ok && final(self).selection_spec()
                == seq![resolve_spec(old(self).cwd_spec(), path@)],
            !resolvable(old(self).cwd_spec(), path@) ==> r == Err::<(), FsError>(FsError::Resolution)
                && final(self).selection_spec() == old(self).selection_spec(),
            final(self).files_spec() == old(self).files_spec(),
            final(self).cwd_spec() == old(self).cwd_spec(),
            final(self).sort_spec() == old(self).sort_spec(),
            final(self).placement_spec() == old(self).placement_spec(),
            final(self).hidden_spec() == old(self).hidden_spec(),
    {
        if path.len() == 0 || path.len() >= usize::MAX - self.cwd.len() {
            return Err(FsError::Resolution);
        }
        self.clear_copy();
        let r = self.add_copy(path);
        assert(Seq::<Seq<char>>::empty().push(resolve_spec(self.cwd@, path@)) =~= seq![resolve_spec(self.cwd@, path@)]);
        r
    }

    /// The entry at `index` of the snapshot.
    pub fn get_entry_at_index(&self, index: usize) -> (r: Result<&Entry, FsError>)
        ensures
            index < self.files_spec().len() ==> r == Ok::<&Entry, FsError>(&self.files_spec()[index as int]),
            index >= self.files_spec().len() ==> r == Err::<&Entry, FsError>(FsError::NotFound),
    {
        if index < self.files.len() {
            Ok(&self.files[index])
        } else {
            Err(FsError::NotFound)
        }
    }

    /// The absolute path of the entry at `index`, if there is one.
    pub fn entry_path(&self, index: usize) -> (r: Option<Vec<char>>)
        requires
            self.wf(),
        ensures
            index < self.files_spec().len() && self.cwd_spec().len() + self.files_spec()[index as int].name@.len() + 1 <= usize::MAX
                ==> r is Some && r->0@ == join_spec(self.cwd_spec(), self.files_spec()[index as int].name@),
            !(index < self.files_spec().len() && self.cwd_spec().len() + self.files_spec()[index as int].name@.len() + 1 <= usize::MAX)
                ==> r is None,
            r matches Some(p) ==> is_absolute(p@),
    {
        match self.get_entry_at_index(index) {
            Ok(entry) => {
                if entry.name.len() >= usize::MAX - self.cwd.len() {
                    return None;
                }
                proof {
                    crate::path::lemma_join_absolute(self.cwd@, entry.name@);
                }
                Some(join(&self.cwd, &entry.name))
            },
            Err(_) => None,
        }
    }
}


proof fn lemma_split_parts(s: Seq<Entry>)
    ensures
        keep(keep(s, dir_filter()), dir_filter()) == keep(s, dir_filter()),
        keep(keep(s, other_filter()), other_filter()) == keep(s, other_filter()),
        keep(keep(s, dir_filter()), other_filter()) == Seq::<Entry>::empty(),
        keep(keep(s, other_filter()), dir_filter()) == Seq::<Entry>::empty(),
{
    let d = keep(s, dir_filter());
    let o = keep(s, other_filter());
    lemma_keep_members(s, dir_filter());
    lemma_keep_members(s, other_filter());
    assert forall|k: int| 0 <= k < d.len() implies dir_filter()(#[trigger] d[k]) by {}
    assert forall|k: int| 0 <= k < o.len() implies other_filter()(#[trigger] o[k]) by {}
    lemma_keep_all(d, dir_filter());
    lemma_keep_all(o, other_filter());
    lemma_keep_none(d, other_filter());
    lemma_keep_none(o, dir_filter());
}

/// Pinning groups every directory contiguously at the configured end and
/// keeps the relative order within directories and within other entries.
pub proof fn lemma_placement_groups(p: SortDir, s: Seq<Entry>)
    ensures
        keep(placed(p, s), dir_filter()) == keep(s, dir_filter()),
        keep(placed(p, s), other_filter()) == keep(s, other_filter()),
        placed(p, s).len() == s.len(),
        p == SortDir::Start ==> forall|i: int| 0 <= i < s.len() ==>
            (#[trigger] placed(p, s)[i].is_dir() <==> i < keep(s, dir_filter()).len()),
        p == SortDir::End ==> forall|i: int| 0 <= i < s.len() ==>
            (#[trigger] placed(p, s)[i].is_dir() <==> i >= keep(s, other_filter()).len()),
{
    let d = keep(s, dir_filter());
    let o = keep(s, other_filter());
    lemma_split_parts(s);
    lemma_keep_members(s, dir_filter());
    lemma_keep_members(s, other_filter());
    lemma_keep_partition_len(s);
    match p {
        SortDir::Unsorted => {},
        SortDir::Start => {
            lemma_keep_concat(d, o, dir_filter());
            lemma_keep_concat(d, o, other_filter());
            assert(d + Seq::<Entry>::empty() =~= d);
            assert(Seq::<Entry>::empty() + o =~= o);
            assert forall|i: int| 0 <= i < s.len() implies (#[trigger] placed(p, s)[i].is_dir() <==> i < d.len()) by {
                if i < d.len() {
                    assert(dir_filter()(d[i]));
                } else {
                    assert(other_filter()(o[i - d.len()]));
                }
            }
        },
        SortDir::End => {
            lemma_keep_concat(o, d, dir_filter());
            lemma_keep_concat(o, d, other_filter());
            assert(o + Seq::<Entry>::empty() =~= o);
            assert(Seq::<Entry>::empty() + d =~= d);
            assert forall|i: int| 0 <= i < s.len() implies (#[trigger] placed(p, s)[i].is_dir() <==> i >= o.len()) by {
                if i < o.len() {
                    assert(other_filter()(o[i]));
                } else {
                    assert(dir_filter()(d[i - o.len()]));
                }
            }
        },
    }
}

proof fn lemma_keep_partition_len(s: Seq<Entry>)
    ensures
        keep(s, dir_filter()).len() + keep(s, other_filter()).len() == s.len(),
    decreases s.len(),
{
    if s.len() > 0 {
        lemma_keep_partition_len(s.drop_last());
    }
}

/// Sorting and pinning a second time with the same configuration leaves the
/// snapshot as the first time made it.
pub proof fn lemma_arrange_idempotent(mode: Sorting, p: SortDir, s: Seq<Entry>)
    ensures
        arranged(mode, p, arranged(mode, p, s)) == arranged(mode, p, s),
{
    let t = sorted_by(mode, s);
    lemma_sorted_by_is_sorted(mode, s);
    match p {
        SortDir::Unsorted => {
            lemma_sorted_fixed(mode, t);
        },
        _ => {
            let a = placed(p, t);
            lemma_placement_groups(p, t);
            lemma_keep_of_sorted(mode, t, dir_filter());
            lemma_keep_of_sorted(mode, t, other_filter());
            lemma_sorted_by_keeps_sorted_part(mode, a, dir_filter());
            lemma_sorted_by_keeps_sorted_part(mode, a, other_filter());
        },
    }
}

/// Three steps of the placement cycle come back to the start, so the
/// snapshot rebuilt from an unchanged listing is the one before the cycle.
pub proof fn lemma_placement_cycle(listing: Seq<Entry>, show_hidden: bool, mode: Sorting, p: SortDir)
    ensures
        next_placement(next_placement(next_placement(p))) == p,
        snapshot(listing, show_hidden, mode, next_placement(next_placement(next_placement(p))))
            == snapshot(listing, show_hidden, mode, p),
{
}

/// `b` is `a` after a step of the placement cycle that keeps the sort mode
/// and the hidden-file filter.
pub open spec fn placement_stepped(a: FileManager, b: FileManager) -> bool {
    &&& b.placement_spec() == next_placement(a.placement_spec())
    &&& b.sort_spec() == a.sort_spec()
    &&& b.hidden_spec() == a.hidden_spec()
}

/// `b` is `a` after its snapshot was rebuilt from `listing`.
pub open spec fn refreshed(a: FileManager, b: FileManager, listing: Seq<Entry>) -> bool {
    &&& b.files_spec() == snapshot(listing, a.hidden_spec(), a.sort_spec(), a.placement_spec())
    &&& b.placement_spec() == a.placement_spec()
    &&& b.sort_spec() == a.sort_spec()
    &&& b.hidden_spec() == a.hidden_spec()
}

/// Three steps of the placement cycle, each followed by a refresh from the
/// same unchanged `listing`, give back the snapshot that a refresh from it
/// gave before the cycle.
pub proof fn lemma_three_steps_restore(listing: Seq<Entry>, s: Seq<FileManager>)
    requires
        s.len() == 7,
        s[0].files_spec() == snapshot(listing, s[0].hidden_spec(), s[0].sort_spec(), s[0].placement_spec()),
        placement_stepped(s[0], s[1]) && refreshed(s[1], s[2], listing),
        placement_stepped(s[2], s[3]) && refreshed(s[3], s[4], listing),
        placement_stepped(s[4], s[5]) && refreshed(s[5], s[6], listing),
    ensures
        s[6].placement_spec() == s[0].placement_spec(),
        s[6].files_spec() == s[0].files_spec(),
{
    lemma_placement_cycle(listing, s[0].hidden_spec(), s[0].sort_spec(), s[0].placement_spec());
}

/// An entry is in the snapshot rebuilt from `listing` exactly when the
/// listing holds it and the hidden-file filter lets it through: an entry
/// that is gone from the directory is gone from the snapshot.
pub proof fn lemma_snapshot_contains(listing: Seq<Entry>, show_hidden: bool, mode: Sorting, p: SortDir, e: Entry)
    ensures
        snapshot(listing, show_hidden, mode, p).contains(e) <==> (listing.contains(e) && (show_hidden || !is_hidden(e.name@))),
{
    let v = keep(listing, visible(show_hidden));
    let t = sorted_by(mode, v);
    lemma_keep_contains(listing, visible(show_hidden), e);
    lemma_sorted_by_contains(mode, v, e);
    lemma_keep_contains(t, dir_filter(), e);
    lemma_keep_contains(t, other_filter(), e);
    let d = keep(t, dir_filter());
    let o = keep(t, other_filter());
    match p {
        SortDir::Unsorted => {},
        SortDir::Start => lemma_concat_contains(d, o, e),
        SortDir::End => lemma_concat_contains(o, d, e),
    }
}

proof fn lemma_concat_contains(a: Seq<Entry>, b: Seq<Entry>, e: Entry)
    ensures
        (a + b).contains(e) <==> (a.contains(e) || b.contains(e)),
{
    if a.contains(e) {
        let m = choose|m: int| 0 <= m < a.len() && a[m] == e;
        assert((a + b)[m] == e);
    }
    if b.contains(e) {
        let m = choose|m: int| 0 <= m < b.len() && b[m] == e;
        assert((a + b)[a.len() + m] == e);
    }
    if (a + b).contains(e) {
        let m = choose|m: int| 0 <= m < (a + b).len() && (a + b)[m] == e;
        if m < a.len() {
            assert(a[m] == e);
        } else {
            assert(b[m - a.len()] == e);
        }
    }
}

} // verus!
