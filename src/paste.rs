use vstd::prelude::*;
use crate::file_manager::{EntryKind, FsError};
use crate::path::{base_name, base_name_spec, copy_chars, join, join_spec};

verus! {

/// The path of `name` relative to the copied directory, given the path
/// `rel` of the directory that holds it; the empty path is the root.
pub open spec fn rel_join(rel: Seq<char>, name: Seq<char>) -> Seq<char> {
    if rel.len() == 0 {
        name
    } else {
        rel.push('/') + name
    }
}

/// `rel` below `root`.
pub open spec fn under(root: Seq<char>, rel: Seq<char>) -> Seq<char> {
    if rel.len() == 0 {
        root
    } else {
        join_spec(root, rel)
    }
}

/// Where a pasted entry `src` lands in the directory `cwd`.
pub open spec fn paste_target_spec(src: Seq<char>, cwd: Seq<char>) -> Seq<char> {
    join_spec(cwd, base_name_spec(src))
}

/// One filesystem step of a paste.
#[derive(Debug)]
pub enum PasteAction {
    /// Create this directory.
    CreateDir(Vec<char>),
    /// Copy the bytes of the first file to the second path.
    CopyFile(Vec<char>, Vec<char>),
    /// Create at the second path a symbolic link whose target is the target
    /// of the first link, as written.
    Link(Vec<char>, Vec<char>),
}

fn concat_rel(rel: &Vec<char>, name: &Vec<char>) -> (r: Vec<char>)
    requires
        rel@.len() + name@.len() + 1 <= usize::MAX,
    ensures
        r@ == rel_join(rel@, name@),
{
    let mut r = copy_chars(rel, 0, rel.len());
    assert(rel@.subrange(0, rel@.len() as int) =~= rel@);
    if rel.len() > 0 {
        r.push('/');
    }
    let ghost head = r@;
    let mut i: usize = 0;
    while i < name.len()
        invariant
            i <= name@.len(),
            r@ == head + name@.subrange(0, i as int),
        decreases name@.len() - i,
    {
        r.push(name[i]);
        i = i + 1;
    }
    assert(name@.subrange(0, name@.len() as int) =~= name@);
    if rel.len() == 0 {
        assert(r@ =~= name@);
    }
    r
}

fn below(root: &Vec<char>, rel: &Vec<char>) -> (r: Vec<char>)
    requires
        root@.len() + rel@.len() + 1 <= usize::MAX,
    ensures
        r@ == under(root@, rel@),
{
    if rel.len() == 0 {
        let r = copy_chars(root, 0, root.len());
        assert(root@.subrange(0, root@.len() as int) =~= root@);
        r
    } else {
        join(root, rel)
    }
}

/// Where the pasted entry `src` lands in the directory `cwd`, if the path
/// fits.
pub fn paste_target(src: &Vec<char>, cwd: &Vec<char>) -> (r: Option<Vec<char>>)
    ensures
        cwd@.len() + base_name_spec(src@).len() + 1 <= usize::MAX ==> (r matches Some(p) && p@ == paste_target_spec(src@, cwd@)),
        cwd@.len() + base_name_spec(src@).len() + 1 > usize::MAX ==> r is None,
{
    let name = base_name(src);
    if name.len() >= usize::MAX - cwd.len() {
        None
    } else {
        Some(join(cwd, &name))
    }
}

/// The deep copy of one directory, driven as a work list of the relative
/// paths whose contents are still to be copied.
pub struct PasteJob {
    src: Vec<char>,
    dest: Vec<char>,
    stack: Vec<Vec<char>>,
}

impl PasteJob {
    /// The directory copied.
    pub closed spec fn src_spec(&self) -> Seq<char> {
        self.src@
    }

    /// The copy.
    pub closed spec fn dest_spec(&self) -> Seq<char> {
        self.dest@
    }

    /// Relative paths still to visit; the last is visited next.
    pub closed spec fn pending_spec(&self) -> Seq<Seq<char>> {
        self.stack@.map_values(|p: Vec<char>| p@)
    }

    /// Copying the directory `src` into the directory `cwd`, under its own
    /// name; the work list starts at the root of `src`.
    pub fn new(src: &Vec<char>, cwd: &Vec<char>) -> (r: Option<PasteJob>)
        ensures
            cwd@.len() + base_name_spec(src@).len() + 1 <= usize::MAX ==> (r matches Some(job)
                && job.src_spec() == src@
                && job.dest_spec() == paste_target_spec(src@, cwd@)
                && job.pending_spec() == seq![Seq::<char>::empty()]),
            cwd@.len() + base_name_spec(src@).len() + 1 > usize::MAX ==> r is None,
    {
        match paste_target(src, cwd) {
            None => None,
            Some(dest) => {
                let mut stack: Vec<Vec<char>> = Vec::new();
                stack.push(Vec::new());
                let job = PasteJob { src: copy_chars(src, 0, src.len()), dest, stack };
                assert(src@.subrange(0, src@.len() as int) =~= src@);
                assert(job.pending_spec() =~= seq![Seq::<char>::empty()]);
                Some(job)
            },
        }
    }

    /// The copy's root directory, to be created before anything below it.
    pub fn dest_root(&self) -> (r: &Vec<char>)
        ensures
            r@ == self.dest_spec(),
    {
        &self.dest
    }

    /// The next directory to list: its absolute path in the source and its
    /// path relative to the copied directory.
    pub fn next_dir(&mut self) -> (r: Option<(Vec<char>, Vec<char>)>)
        ensures
            final(self).src_spec() == old(self).src_spec(),
            final(self).dest_spec() == old(self).dest_spec(),
            old(self).pending_spec().len() == 0 ==> r is None && final(self).pending_spec() == old(self).pending_spec(),
            old(self).pending_spec().len() > 0 ==> r is Some && final(self).pending_spec() == old(self).pending_spec().drop_last(),
            r matches Some(d) ==> d.1@ == old(self).pending_spec().last() && (
                old(self).src_spec().len() + d.1@.len() + 1 <= usize::MAX ==> d.0@ == under(old(self).src_spec(), d.1@)),
    {
        let ghost before = self.stack@;
        match self.stack.pop() {
            None => None,
            Some(rel) => {
                assert(self.pending_spec() =~= old(self).pending_spec().drop_last());
                assert(rel@ == old(self).pending_spec().last());
                if rel.len() >= usize::MAX - self.src.len() {
                    return Some((Vec::new(), rel));
                }
                let dir = below(&self.src, &rel);
                Some((dir, rel))
            },
        }
    }

    /// The step that copies the entry `name` of kind `kind`, listed in the
    /// directory at `rel`: a directory is created in the copy and queued for
    /// a visit, a file's bytes are copied, and a link is made anew with the
    /// original's target.
    pub fn child(&mut self, rel: &Vec<char>, name: &Vec<char>, kind: EntryKind) -> (r: Result<PasteAction, FsError>)
        ensures
            final(self).src_spec() == old(self).src_spec(),
            final(self).dest_spec() == old(self).dest_spec(),
            kind == EntryKind::Unknown ==> r == Err::<PasteAction, FsError>(FsError::UnsupportedKind)
                && final(self).pending_spec() == old(self).pending_spec(),
            r is Err ==> final(self).pending_spec() == old(self).pending_spec(),
            r matches Ok(PasteAction::CreateDir(d)) ==> kind == EntryKind::Directory
                && d@ == under(old(self).dest_spec(), rel_join(rel@, name@))
                && final(self).pending_spec() == old(self).pending_spec().push(rel_join(rel@, name@)),
            r matches Ok(PasteAction::CopyFile(a, b)) ==> kind == EntryKind::File
                && a@ == under(old(self).src_spec(), rel_join(rel@, name@))
                && b@ == under(old(self).dest_spec(), rel_join(rel@, name@))
                && final(self).pending_spec() == old(self).pending_spec(),
            r matches Ok(PasteAction::Link(a, b)) ==> kind == EntryKind::Symlink
                && a@ == under(old(self).src_spec(), rel_join(rel@, name@))
                && b@ == under(old(self).dest_spec(), rel_join(rel@, name@))
                && final(self).pending_spec() == old(self).pending_spec(),
            kind != EntryKind::Unknown && rel@.len() + name@.len() + 1 + old(self).src_spec().len() + old(self).dest_spec().len() + 2 <= usize::MAX
                ==> r is Ok,
    {
        if kind == EntryKind::Unknown {
            return Err(FsError::UnsupportedKind);
        }
        if name.len() >= usize::MAX - 1 || rel.len() >= usize::MAX - 1 - name.len() {
            return Err(FsError::Resolution);
        }
        let r = concat_rel(rel, name);
        if r.len() >= usize::MAX - self.src.len() || r.len() >= usize::MAX - self.dest.len() {
            return Err(FsError::Resolution);
        }
        let to = below(&self.dest, &r);
        match kind {
            EntryKind::Directory => {
                let ghost before = self.pending_spec();
                self.stack.push(r);
                assert(self.pending_spec() =~= before.push(rel_join(rel@, name@)));
                Ok(PasteAction::CreateDir(to))
            },
            EntryKind::File => Ok(PasteAction::CopyFile(below(&self.src, &r), to)),
            _ => Ok(PasteAction::Link(below(&self.src, &r), to)),
        }
    }
}

/// How one selected path is pasted.
pub enum PasteStart {
    /// Copy the file's bytes to this path.
    File(Vec<char>),
    /// Copy the directory with this job.
    Tree(PasteJob),
    /// Leave the entry out: it is neither a file nor a directory.
    Skip,
}

/// How the selected path `src`, of kind `kind` (links followed), is pasted
/// into the directory `cwd`: a file lands under its own name, a directory
/// is copied as a whole; `None` where the target path does not fit.
pub fn paste_start(src: &Vec<char>, kind: EntryKind, cwd: &Vec<char>) -> (r: Option<PasteStart>)
    ensures
        kind != EntryKind::File && kind != EntryKind::Directory ==> r matches Some(PasteStart::Skip),
        (kind == EntryKind::File || kind == EntryKind::Directory)
            && cwd@.len() + base_name_spec(src@).len() + 1 > usize::MAX ==> r is None,
        kind == EntryKind::File && cwd@.len() + base_name_spec(src@).len() + 1 <= usize::MAX
            ==> (r matches Some(PasteStart::File(p)) && p@ == paste_target_spec(src@, cwd@)),
        kind == EntryKind::Directory && cwd@.len() + base_name_spec(src@).len() + 1 <= usize::MAX
            ==> (r matches Some(PasteStart::Tree(job)) && job.src_spec() == src@
                && job.dest_spec() == paste_target_spec(src@, cwd@)
                && job.pending_spec() == seq![Seq::<char>::empty()]),
{
    match kind {
        EntryKind::File => match paste_target(src, cwd) {
            Some(p) => Some(PasteStart::File(p)),
            None => None,
        },
        EntryKind::Directory => match PasteJob::new(src, cwd) {
            Some(job) => Some(PasteStart::Tree(job)),
            None => None,
        },
        _ => Some(PasteStart::Skip),
    }
}

} // verus!
