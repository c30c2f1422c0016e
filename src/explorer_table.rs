use vstd::prelude::*;
use crate::file_manager::{next_placement, placed, resolvable, FileManager};
use crate::message::{AppEvents, FsRequest, Key, Message};
use crate::path::{resolve_spec, chars_of, copy_chars, is_absolute, join_spec, lemma_join_absolute, lemma_parent_absolute, parent, parent_spec};

verus! {

/// The row highlighted after moving down from `s` in a snapshot of `n`
/// rows: a stale position counts as the last row, and the end wraps.
pub open spec fn row_down(s: int, n: int) -> int {
    if n <= 0 {
        0
    } else {
        let c = if s < n - 1 { s } else { n - 1 };
        if c + 1 >= n { 0 } else { c + 1 }
    }
}

/// The row highlighted after moving up from `s` in a snapshot of `n` rows.
pub open spec fn row_up(s: int, n: int) -> int {
    if n <= 0 {
        0
    } else {
        let c = if s < n - 1 { s } else { n - 1 };
        if c == 0 { n - 1 } else { c - 1 }
    }
}

/// The question asked before the selection is deleted.
pub open spec fn deletion_prompt() -> Seq<char> {
    "The selected files will be deleted permanently, are you sure?"@
}

/// Why the explorer opened the popup whose answer comes back.
#[derive(Clone, Copy, PartialEq, Eq, Structural, Debug)]
pub enum MessageSource {
    Idle,
    DeletionConfirmationPrompt,
}

/// The base view: the listing with one highlighted row.
pub struct ExplorerTable {
    selected: usize,
    message_source: MessageSource,
    message: Option<Message>,
}

/// Copies of the paths in `paths`.
pub fn copy_paths(paths: &Vec<Vec<char>>) -> (r: Vec<Vec<char>>)
    ensures
        r@.map_values(|p: Vec<char>| p@) == paths@.map_values(|p: Vec<char>| p@),
{
    let mut r: Vec<Vec<char>> = Vec::new();
    let mut i: usize = 0;
    while i < paths.len()
        invariant
            i <= paths@.len(),
            r@.len() == i,
            forall|k: int| 0 <= k < i ==> (#[trigger] r@[k])@ == paths@[k]@,
        decreases paths@.len() - i,
    {
        let n = paths[i].len();
        let p = copy_chars(&paths[i], 0, n);
        assert(paths[i as int]@.subrange(0, n as int) =~= paths[i as int]@);
        r.push(p);
        i = i + 1;
    }
    assert(r@.map_values(|p: Vec<char>| p@) =~= paths@.map_values(|p: Vec<char>| p@));
    r
}

impl ExplorerTable {
    pub closed spec fn selected_spec(&self) -> int {
        self.selected as int
    }

    pub closed spec fn source_spec(&self) -> MessageSource {
        self.message_source
    }

    /// The outbound message waiting to be read.
    pub closed spec fn message_spec(&self) -> Option<Message> {
        self.message
    }

    pub open spec fn signal(key: Key) -> AppEvents {
        if key == Key::Char('q') {
            AppEvents::Exit
        } else if key == Key::Char('s') {
            AppEvents::OpenSortingPopupWindow
        } else if key == Key::Char('m') {
            AppEvents::OpenKeyMappingPopupWindow
        } else if key == Key::Char('n') {
            AppEvents::OpenNewFilePopup
        } else if key == Key::Char('x') {
            AppEvents::OpenConfirmationPopup
        } else {
            AppEvents::Nothing
        }
    }

    /// The path of the highlighted directory to descend into, if it is one.
    pub open spec fn descend_target(&self, fm: FileManager) -> Option<Seq<char>> {
        let i = self.selected_spec();
        if 0 <= i < fm.files_spec().len() && fm.files_spec()[i].is_dir()
            && fm.cwd_spec().len() + fm.files_spec()[i].name@.len() + 1 <= usize::MAX {
            Some(join_spec(fm.cwd_spec(), fm.files_spec()[i].name@))
        } else {
            None
        }
    }

    /// What a key press does to the highlight (`sel` after it), to the
    /// engine (`fm0` before, `fm1` after) and which request it gives.
    pub open spec fn key_step(self, sel: int, fm0: FileManager, fm1: FileManager, key: Key, req: FsRequest) -> bool {
        &&& (fm1.cwd_spec() == fm0.cwd_spec())
        &&& (key == Key::Char('d') ==> fm1.placement_spec() == next_placement(fm0.placement_spec())
                    && fm1.files_spec() == placed(next_placement(fm0.placement_spec()), fm0.files_spec())
                    && fm1.selection_spec() == fm0.selection_spec() && fm1.sort_spec() == fm0.sort_spec()
                    && fm1.hidden_spec() == fm0.hidden_spec()
                    && req is Refresh)
        &&& (key == Key::Char('g') ==> fm1.hidden_spec() == !fm0.hidden_spec()
                    && fm1.files_spec() == fm0.files_spec()
                    && fm1.selection_spec() == fm0.selection_spec() && fm1.sort_spec() == fm0.sort_spec()
                    && fm1.placement_spec() == fm0.placement_spec()
                    && req is Refresh)
        &&& (key == Key::Down || key == Key::Char('j') ==> sel
                    == row_down(self.selected_spec(), fm0.files_spec().len() as int))
        &&& (key == Key::Up || key == Key::Char('k') ==> sel
                    == row_up(self.selected_spec(), fm0.files_spec().len() as int))
        &&& (!(key == Key::Down || key == Key::Char('j') || key == Key::Up || key == Key::Char('k'))
                    ==> sel == self.selected_spec())
        &&& (key == Key::Right || key == Key::Char('l') ==> match self.descend_target(fm0) {
                    Some(t) => req matches FsRequest::ChangeDir(p) && p@ == t,
                    None => req is Nothing,
                })
        &&& (key == Key::Left || key == Key::Char('h') ==> (req matches FsRequest::ChangeDir(p)
                    && p@ == parent_spec(fm0.cwd_spec())))
        &&& (req matches FsRequest::ChangeDir(p) ==> is_absolute(p@))
        &&& (key == Key::Char('y') ==> fm1.files_spec() == fm0.files_spec() && fm1.sort_spec() == fm0.sort_spec()
                    && fm1.placement_spec() == fm0.placement_spec()
                    && fm1.hidden_spec() == fm0.hidden_spec() && ({
                    let i = self.selected_spec();
                    if 0 <= i < fm0.files_spec().len()
                        && resolvable(fm0.cwd_spec(), fm0.files_spec()[i].name@) {
                        fm1.selection_spec() == fm0.selection_spec().push(
                            resolve_spec(fm0.cwd_spec(), fm0.files_spec()[i].name@))
                    } else {
                        fm1.selection_spec() == fm0.selection_spec()
                    }
                }) && req is Nothing)
        &&& (key == Key::Char('c') ==> fm1.selection_spec() == Seq::<Seq<char>>::empty()
                    && fm1.files_spec() == fm0.files_spec() && fm1.sort_spec() == fm0.sort_spec()
                    && fm1.placement_spec() == fm0.placement_spec()
                    && fm1.hidden_spec() == fm0.hidden_spec() && req is Nothing)
        &&& (key == Key::Char('v') ==> req is Paste)
        &&& (!(key == Key::Char('d') || key == Key::Char('g') || key == Key::Char('y') || key == Key::Char('c'))
                    ==> fm1 == fm0)
        &&& (!(key == Key::Char('d') || key == Key::Char('g') || key == Key::Char('v') || key == Key::Right
                    || key == Key::Char('l') || key == Key::Left || key == Key::Char('h')) ==> req is Nothing)
    }

    pub fn new() -> (r: ExplorerTable)
        ensures
            r.selected_spec() == 0,
            r.source_spec() == MessageSource::Idle,
            r.message_spec() is None,
    {
        ExplorerTable { selected: 0, message_source: MessageSource::Idle, message: None }
    }

    /// The highlighted row.
    pub fn selected(&self) -> (r: usize)
        ensures
            r == self.selected_spec(),
    {
        self.selected
    }

    /// The absolute path of the highlighted entry, if a row holds one.
    pub fn selected_file_in_table(&self, file_manager: &FileManager) -> (r: Option<Vec<char>>)
        requires
            file_manager.wf(),
        ensures
            r matches Some(p) ==> p@ == join_spec(file_manager.cwd_spec(), file_manager.files_spec()[self.selected_spec()].name@),
            self.selected_spec() < file_manager.files_spec().len() && file_manager.cwd_spec().len()
                + file_manager.files_spec()[self.selected_spec()].name@.len() + 1 <= usize::MAX ==> r is Some,
            self.selected_spec() >= file_manager.files_spec().len() ==> r is None,
    {
        file_manager.entry_path(self.selected)
    }

    /// Hands out the pending message, once.
    pub fn get_message(&mut self) -> (r: Option<Message>)
        ensures
            final(self).message_spec() is None,
            r == old(self).message_spec(),
            final(self).selected_spec() == old(self).selected_spec(),
            final(self).source_spec() == old(self).source_spec(),
    {
        let mut r: Option<Message> = None;
        std::mem::swap(&mut r, &mut self.message);
        r
    }

    /// A Yes to the deletion question asks for every selected path to be
    /// removed and empties the selection.
    pub fn handle_message(&mut self, message: Option<Message>, file_manager: &mut FileManager) -> (r: FsRequest)
        requires
            old(file_manager).wf(),
        ensures
            final(file_manager).wf(),
            final(self).source_spec() == MessageSource::Idle,
            final(self).selected_spec() == old(self).selected_spec(),
            final(self).message_spec() == old(self).message_spec(),
            final(file_manager).files_spec() == old(file_manager).files_spec(),
            final(file_manager).cwd_spec() == old(file_manager).cwd_spec(),
            (old(self).source_spec() == MessageSource::DeletionConfirmationPrompt && (message matches Some(Message::Bool(true))))
                ==> (r matches FsRequest::Delete(paths) && paths@.map_values(|p: Vec<char>| p@) == old(file_manager).selection_spec())
                && final(file_manager).selection_spec() == Seq::<Seq<char>>::empty(),
            !(old(self).source_spec() == MessageSource::DeletionConfirmationPrompt && (message matches Some(Message::Bool(true))))
                ==> r is Nothing && *final(file_manager) == *old(file_manager),
    {
        let source = self.message_source;
        self.message_source = MessageSource::Idle;
        match source {
            MessageSource::DeletionConfirmationPrompt => match message {
                Some(Message::Bool(true)) => {
                    let paths = copy_paths(file_manager.selection());
                    file_manager.clear_copy();
                    FsRequest::Delete(paths)
                },
                _ => FsRequest::Nothing,
            },
            MessageSource::Idle => FsRequest::Nothing,
        }
    }

    /// Reacts to a key press in the base view.
    pub fn handle_key_event(&mut self, key: Key, file_manager: &mut FileManager) -> (r: (AppEvents, FsRequest))
        requires
            old(file_manager).wf(),
        ensures
            final(file_manager).wf(),
            r.0 == Self::signal(key),
            old(self).key_step(final(self).selected_spec(), *old(file_manager), *final(file_manager), key, r.1),
            key == Key::Char('x') ==> (final(self).message_spec() matches Some(Message::String(t)) && t@ == deletion_prompt())
                && final(self).source_spec() == MessageSource::DeletionConfirmationPrompt,
            key != Key::Char('x') ==> final(self).message_spec() == old(self).message_spec()
                && final(self).source_spec() == old(self).source_spec(),

    {
        match key {
            Key::Char('q') => (AppEvents::Exit, FsRequest::Nothing),
            Key::Char('s') => (AppEvents::OpenSortingPopupWindow, FsRequest::Nothing),
            Key::Char('m') => (AppEvents::OpenKeyMappingPopupWindow, FsRequest::Nothing),
            Key::Char('n') => (AppEvents::OpenNewFilePopup, FsRequest::Nothing),
            Key::Char('d') => {
                file_manager.cycle_dir_placement();
                (AppEvents::Nothing, FsRequest::Refresh)
            },
            Key::Down | Key::Char('j') => {
                let n = file_manager.num_files();
                if n == 0 {
                    self.selected = 0;
                } else {
                    let c = if self.selected < n - 1 { self.selected } else { n - 1 };
                    self.selected = if c + 1 >= n { 0 } else { c + 1 };
                }
                (AppEvents::Nothing, FsRequest::Nothing)
            },
            Key::Up | Key::Char('k') => {
                let n = file_manager.num_files();
                if n == 0 {
                    self.selected = 0;
                } else {
                    let c = if self.selected < n - 1 { self.selected } else { n - 1 };
                    self.selected = if c == 0 { n - 1 } else { c - 1 };
                }
                (AppEvents::Nothing, FsRequest::Nothing)
            },
            Key::Right | Key::Char('l') => {
                match file_manager.get_entry_at_index(self.selected) {
                    Ok(entry) => {
                        match entry.kind {
                            crate::file_manager::EntryKind::Directory => {
                                match file_manager.entry_path(self.selected) {
                                    Some(p) => (AppEvents::Nothing, FsRequest::ChangeDir(p)),
                                    None => (AppEvents::Nothing, FsRequest::Nothing),
                                }
                            },
                            _ => (AppEvents::Nothing, FsRequest::Nothing),
                        }
                    },
                    Err(_) => (AppEvents::Nothing, FsRequest::Nothing),
                }
            },
            Key::Left | Key::Char('h') => {
                proof {
                    lemma_parent_absolute(file_manager.cwd_spec());
                }
                (AppEvents::Nothing, FsRequest::ChangeDir(parent(file_manager.cwd())))
            },
            Key::Char('y') => {
                let name = match file_manager.get_entry_at_index(self.selected) {
                    Ok(entry) => copy_chars(&entry.name, 0, entry.name.len()),
                    Err(_) => {
                        return (AppEvents::Nothing, FsRequest::Nothing);
                    },
                };
                proof {
                    let e = file_manager.files_spec()[self.selected as int];
                    assert(e.name@.subrange(0, e.name@.len() as int) =~= e.name@);
                }
                let _ = file_manager.add_copy(name);
                (AppEvents::Nothing, FsRequest::Nothing)
            },
            Key::Char('c') => {
                file_manager.clear_copy();
                (AppEvents::Nothing, FsRequest::Nothing)
            },
            Key::Char('v') => (AppEvents::Nothing, FsRequest::Paste),
            Key::Char('x') => {
                self.message_source = MessageSource::DeletionConfirmationPrompt;
                self.message = Some(Message::String(
                    chars_of("The selected files will be deleted permanently, are you sure?"),
                ));
                (AppEvents::OpenConfirmationPopup, FsRequest::Nothing)
            },
            Key::Char('g') => {
                file_manager.toggle_hidden();
                (AppEvents::Nothing, FsRequest::Refresh)
            },
            _ => (AppEvents::Nothing, FsRequest::Nothing),
        }
    }
}

} // verus!
