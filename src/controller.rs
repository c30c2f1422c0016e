use vstd::prelude::*;
use crate::explorer_table::{deletion_prompt, ExplorerTable, MessageSource};
use crate::file_manager::{arranged, snapshot, Entry, FileManager, SortDir, Sorting};
use crate::message::{AppEvents, FsRequest, Key, Message};
use crate::path::{is_absolute, join_spec};
use crate::popups::{menu_mode, text_of, ConfirmationPopup, KeyMappingPopup, NewFilePopup, SortingPopUp};
use crate::text_field_popup::TextFieldPopup;

verus! {

/// The base views; there is one.
#[derive(Clone, Copy, PartialEq, Eq, Structural, Debug)]
pub enum AppWindows {
    Explorer,
}

/// Which popup a stack slot holds.
#[derive(Clone, Copy, PartialEq, Eq, Structural, Debug)]
pub enum PopupKind {
    Sorting,
    KeyMapping,
    NewFile,
    TextField,
    Confirmation,
}

/// A popup on the stack.
pub enum Popup {
    Sorting(SortingPopUp),
    KeyMapping(KeyMappingPopup),
    NewFile(NewFilePopup),
    TextField(TextFieldPopup),
    Confirmation(ConfirmationPopup),
}

/// The signal that a key gives in the active state: the popup of kind
/// `top`, or the base view where there is none.
pub open spec fn active_signal(top: Option<PopupKind>, key: Key) -> AppEvents {
    match top {
        None => ExplorerTable::signal(key),
        Some(PopupKind::Sorting) => SortingPopUp::signal(key),
        Some(PopupKind::KeyMapping) => AppEvents::ClosePopUp,
        Some(PopupKind::NewFile) => NewFilePopup::signal(key),
        Some(PopupKind::TextField) => TextFieldPopup::signal(key),
        Some(PopupKind::Confirmation) => ConfirmationPopup::signal(key),
    }
}

/// The stack of popup kinds after the controller has acted on `signal`.
pub open spec fn next_stack(stack: Seq<PopupKind>, signal: AppEvents) -> Seq<PopupKind> {
    match signal {
        AppEvents::OpenSortingPopupWindow => stack.push(PopupKind::Sorting),
        AppEvents::OpenKeyMappingPopupWindow => stack.push(PopupKind::KeyMapping),
        AppEvents::OpenNewFilePopup => stack.push(PopupKind::NewFile),
        AppEvents::OpenTextFieldPopup => stack.push(PopupKind::TextField),
        AppEvents::OpenConfirmationPopup => stack.push(PopupKind::Confirmation),
        AppEvents::ClosePopUp => if stack.len() > 0 { stack.drop_last() } else { stack },
        _ => stack,
    }
}

/// `b` is the engine `a` after its snapshot was sorted under `mode` and
/// pinned again, with everything else kept.
pub open spec fn sorted_to(a: FileManager, b: FileManager, mode: Sorting) -> bool {
    &&& b.files_spec() == arranged(mode, a.placement_spec(), a.files_spec())
    &&& b.sort_spec() == mode
    &&& b.placement_spec() == a.placement_spec()
    &&& b.hidden_spec() == a.hidden_spec()
    &&& b.cwd_spec() == a.cwd_spec()
    &&& b.selection_spec() == a.selection_spec()
}

/// The answer a message carries, if it carries one.
pub open spec fn flag_of(m: Option<Message>) -> Option<bool> {
    match m {
        Some(Message::Bool(b)) => Some(b),
        _ => None,
    }
}

/// The signals that push a popup.
pub open spec fn is_open(signal: AppEvents) -> bool {
    signal == AppEvents::OpenSortingPopupWindow || signal == AppEvents::OpenKeyMappingPopupWindow
        || signal == AppEvents::OpenNewFilePopup || signal == AppEvents::OpenTextFieldPopup
        || signal == AppEvents::OpenConfirmationPopup
}

/// The text that the popup `p` hands out as its message.
pub open spec fn sent_text(p: Popup) -> Option<Seq<char>> {
    match p {
        Popup::TextField(t) => if t.message_spec().len() == 0 { None } else { Some(t.message_spec()) },
        Popup::NewFile(n) => Some(if n.selected_spec() == 0 { "File"@ } else { "Folder"@ }),
        _ => None,
    }
}

/// The answer that the popup `p` hands out as its message.
pub open spec fn sent_answer(p: Popup) -> Option<bool> {
    match p {
        Popup::Confirmation(c) => c.result_spec(),
        _ => None,
    }
}

/// The text handed down when `key` closes the popup `p`.
pub open spec fn closing_text(p: Popup, key: Key) -> Option<Seq<char>> {
    match p {
        Popup::TextField(t) => {
            let m = if key == Key::Enter { t.string_spec() } else { t.message_spec() };
            if m.len() == 0 { None } else { Some(m) }
        },
        _ => sent_text(p),
    }
}

/// The answer handed down when `key` closes the popup `p`.
pub open spec fn closing_answer(p: Popup, key: Key) -> Option<bool> {
    match p {
        Popup::Confirmation(c) => if key == Key::Enter { Some(c.selected_spec() == 1) } else { c.result_spec() },
        _ => None,
    }
}

/// `new` is the popup `old` after it was handed a message with text `name`
/// (or none): the text becomes a text field's title or a question's text.
pub open spec fn received(old: Popup, new: Popup, name: Option<Seq<char>>) -> bool {
    match (old, new) {
        (Popup::TextField(a), Popup::TextField(b)) => b.string_spec() == a.string_spec()
            && b.message_spec() == a.message_spec()
            && b.title_spec() == (match name { Some(t) => t, None => a.title_spec() }),
        (Popup::Confirmation(a), Popup::Confirmation(b)) => b.selected_spec() == a.selected_spec()
            && b.result_spec() == a.result_spec()
            && b.text_spec() == (match name { Some(t) => t, None => a.text_spec() }),
        (Popup::NewFile(a), Popup::NewFile(b)) => b.selected_spec() == a.selected_spec(),
        (Popup::Sorting(a), Popup::Sorting(b)) => b.selected_spec() == a.selected_spec(),
        (Popup::KeyMapping(_), Popup::KeyMapping(_)) => true,
        _ => false,
    }
}

/// A popup as it is when just opened.
pub open spec fn fresh(p: Popup) -> bool {
    match p {
        Popup::Sorting(s) => s.selected_spec() == 0,
        Popup::KeyMapping(_) => true,
        Popup::NewFile(n) => n.selected_spec() == 0,
        Popup::TextField(t) => t.string_spec().len() == 0 && t.message_spec().len() == 0,
        Popup::Confirmation(c) => c.selected_spec() == 0 && c.result_spec() == Some(false),
    }
}

pub open spec fn top_of(stack: Seq<PopupKind>) -> Option<PopupKind> {
    if stack.len() == 0 { None } else { Some(stack.last()) }
}

impl Popup {
    pub open spec fn kind_spec(self) -> PopupKind {
        match self {
            Popup::Sorting(_) => PopupKind::Sorting,
            Popup::KeyMapping(_) => PopupKind::KeyMapping,
            Popup::NewFile(_) => PopupKind::NewFile,
            Popup::TextField(_) => PopupKind::TextField,
            Popup::Confirmation(_) => PopupKind::Confirmation,
        }
    }

    /// `r` is what the popup hands out as its message.
    pub open spec fn sends(self, r: Option<Message>) -> bool {
        match self {
            Popup::NewFile(p) => r matches Some(Message::String(t)) && (p.selected_spec() == 0 ==> t@ == "File"@)
                && (p.selected_spec() == 1 ==> t@ == "Folder"@),
            Popup::TextField(p) => if p.message_spec().len() == 0 {
                r is None
            } else {
                r matches Some(Message::String(t)) && t@ == p.message_spec()
            },
            Popup::Confirmation(p) => match p.result_spec() {
                Some(b) => r matches Some(Message::Bool(x)) && x == b,
                None => r is None,
            },
            _ => r is None,
        }
    }

    /// `r` is the request the popup gives when handed a message with text
    /// `name` (or none) in the directory `cwd`.
    pub open spec fn answers(self, name: Option<Seq<char>>, cwd: Seq<char>, r: FsRequest) -> bool {
        match self {
            Popup::NewFile(p) => p.answers(name, cwd, r),
            _ => r is Nothing,
        }
    }

    pub open spec fn wf(self) -> bool {
        match self {
            Popup::Sorting(p) => p.wf(),
            Popup::NewFile(p) => p.wf(),
            Popup::Confirmation(p) => p.wf(),
            _ => true,
        }
    }

    pub fn kind(&self) -> (r: PopupKind)
        ensures
            r == self.kind_spec(),
    {
        match self {
            Popup::Sorting(_) => PopupKind::Sorting,
            Popup::KeyMapping(_) => PopupKind::KeyMapping,
            Popup::NewFile(_) => PopupKind::NewFile,
            Popup::TextField(_) => PopupKind::TextField,
            Popup::Confirmation(_) => PopupKind::Confirmation,
        }
    }

    /// Hands a key press to the popup.
    pub fn handle_key_event(&mut self, key: Key, file_manager: &mut FileManager) -> (r: AppEvents)
        requires
            old(self).wf(),
            old(file_manager).wf(),
        ensures
            final(self).wf(),
            final(file_manager).wf(),
            final(self).kind_spec() == old(self).kind_spec(),
            r == active_signal(Some(old(self).kind_spec()), key),
            !(*old(self) is Sorting && key == Key::Enter) ==> *final(file_manager) == *old(file_manager),
            *old(self) is Sorting && key == Key::Enter ==> sorted_to(*old(file_manager), *final(file_manager),
                menu_mode(old(self)->Sorting_0.selected_spec())->0),
            final(file_manager).cwd_spec() == old(file_manager).cwd_spec(),
            final(file_manager).selection_spec() == old(file_manager).selection_spec(),
            r == AppEvents::ClosePopUp ==> sent_text(*final(self)) == closing_text(*old(self), key)
                && sent_answer(*final(self)) == closing_answer(*old(self), key),
            r == AppEvents::OpenTextFieldPopup ==> sent_text(*final(self)) == sent_text(*old(self)),
    {
        match self {
            Popup::Sorting(p) => p.handle_key_event(key, file_manager),
            Popup::KeyMapping(p) => p.handle_key_event(key),
            Popup::NewFile(p) => p.handle_key_event(key),
            Popup::TextField(p) => p.handle_key_event(key),
            Popup::Confirmation(p) => p.handle_key_event(key),
        }
    }

    /// The popup's outbound message.
    pub fn get_message(&self) -> (r: Option<Message>)
        requires
            self.wf(),
        ensures
            self.sends(r),
            text_of(r) == sent_text(*self),
            flag_of(r) == sent_answer(*self),
    {
        match self {
            Popup::NewFile(p) => p.get_message(),
            Popup::TextField(p) => p.get_message(),
            Popup::Confirmation(p) => p.get_message(),
            _ => None,
        }
    }

    /// Hands an inbound message to the popup.
    pub fn handle_message(&mut self, message: Option<Message>, file_manager: &FileManager) -> (r: FsRequest)
        requires
            old(self).wf(),
        ensures
            final(self).wf(),
            final(self).kind_spec() == old(self).kind_spec(),
            old(self).answers(text_of(message), file_manager.cwd_spec(), r),
            received(*old(self), *final(self), text_of(message)),
    {
        match self {
            Popup::NewFile(p) => p.handle_message(message, file_manager),
            Popup::TextField(p) => {
                p.handle_message(message);
                FsRequest::Nothing
            },
            Popup::Confirmation(p) => {
                p.handle_message(message);
                FsRequest::Nothing
            },
            _ => FsRequest::Nothing,
        }
    }
}

/// The base view, the stack of popups over it, and the engine they share.
pub struct Controller {
    explorer: ExplorerTable,
    current_window_index: AppWindows,
    popup_stack: Vec<Popup>,
    file_manager: FileManager,
}

impl Controller {
    /// The kinds of the popups, bottom to top.
    pub closed spec fn stack_spec(&self) -> Seq<PopupKind> {
        self.popup_stack@.map_values(|p: Popup| p.kind_spec())
    }

    pub closed spec fn explorer_spec(&self) -> ExplorerTable {
        self.explorer
    }

    /// The popups, bottom to top.
    pub closed spec fn popups_spec(&self) -> Seq<Popup> {
        self.popup_stack@
    }

    pub closed spec fn fm_spec(&self) -> FileManager {
        self.file_manager
    }

    pub closed spec fn wf(&self) -> bool {
        &&& self.file_manager.wf()
        &&& forall|k: int| 0 <= k < self.popup_stack@.len() ==> (#[trigger] self.popup_stack@[k]).wf()
    }

    /// A controller over the absolute directory `cwd`, whose listing is
    /// `listing`, with no popup open.
    pub fn new(cwd: Vec<char>, listing: Vec<Entry>) -> (r: Controller)
        requires
            is_absolute(cwd@),
        ensures
            r.wf(),
            r.stack_spec() == Seq::<PopupKind>::empty(),
            r.popups_spec() == Seq::<Popup>::empty(),
            r.fm_spec().cwd_spec() == cwd@,
            r.fm_spec().files_spec() == snapshot(listing@, false, Sorting::Unsorted, SortDir::Unsorted),
            r.fm_spec().selection_spec() == Seq::<Seq<char>>::empty(),
            r.explorer_spec().selected_spec() == 0,
            r.explorer_spec().message_spec() is None,
    {
        let c = Controller {
            explorer: ExplorerTable::new(),
            current_window_index: AppWindows::Explorer,
            popup_stack: Vec::new(),
            file_manager: FileManager::new(cwd, listing),
        };
        assert(c.stack_spec() =~= Seq::<PopupKind>::empty());
        assert(c.popups_spec() =~= Seq::<Popup>::empty());
        c
    }

    /// Leaves the current base view for `new_window`; entering a view asks
    /// for the listing to be refreshed.
    pub fn change_window(&mut self, new_window: AppWindows) -> (r: FsRequest)
        ensures
            r is Refresh,
            final(self).stack_spec() == old(self).stack_spec(),
            final(self).wf() == old(self).wf(),
    {
        self.current_window_index = new_window;
        FsRequest::Refresh
    }

    /// The engine.
    pub fn file_manager(&self) -> (r: &FileManager)
        ensures
            *r == self.fm_spec(),
    {
        &self.file_manager
    }

    /// The base view.
    pub fn explorer(&self) -> (r: &ExplorerTable)
        ensures
            *r == self.explorer_spec(),
    {
        &self.explorer
    }

    /// The popups, bottom to top.
    pub fn popups(&self) -> (r: &Vec<Popup>)
        ensures
            r@ == self.popups_spec(),
            r@.map_values(|p: Popup| p.kind_spec()) == self.stack_spec(),
    {
        &self.popup_stack
    }

    /// Number of popups open.
    pub fn depth(&self) -> (r: usize)
        ensures
            r == self.stack_spec().len(),
    {
        self.popup_stack.len()
    }

    /// The kind of the top popup, if any is open.
    pub fn top_kind(&self) -> (r: Option<PopupKind>)
        ensures
            r == top_of(self.stack_spec()),
    {
        let n = self.popup_stack.len();
        if n == 0 {
            None
        } else {
            Some(self.popup_stack[n - 1].kind())
        }
    }

    /// Hands the listing of `target` to the engine, which makes it the
    /// active directory.
    pub fn change_dir(&mut self, target: Vec<char>, listing: Vec<Entry>)
        requires
            old(self).wf(),
            is_absolute(target@),
        ensures
            final(self).wf(),
            final(self).stack_spec() == old(self).stack_spec(),
            final(self).fm_spec().cwd_spec() == target@,
            final(self).fm_spec().selection_spec() == old(self).fm_spec().selection_spec(),
            final(self).fm_spec().files_spec() == snapshot(listing@, old(self).fm_spec().hidden_spec(),
                old(self).fm_spec().sort_spec(), old(self).fm_spec().placement_spec()),
            final(self).fm_spec().sort_spec() == old(self).fm_spec().sort_spec(),
            final(self).fm_spec().placement_spec() == old(self).fm_spec().placement_spec(),
            final(self).fm_spec().hidden_spec() == old(self).fm_spec().hidden_spec(),
            final(self).popups_spec() == old(self).popups_spec(),
            final(self).explorer_spec() == old(self).explorer_spec(),
    {
        self.file_manager.change_dir(target, listing);
    }

    /// Hands a fresh listing of the active directory to the engine.
    pub fn update(&mut self, listing: Vec<Entry>)
        requires
            old(self).wf(),
        ensures
            final(self).wf(),
            final(self).stack_spec() == old(self).stack_spec(),
            final(self).fm_spec().cwd_spec() == old(self).fm_spec().cwd_spec(),
            final(self).fm_spec().selection_spec() == old(self).fm_spec().selection_spec(),
            final(self).fm_spec().files_spec() == snapshot(listing@, old(self).fm_spec().hidden_spec(),
                old(self).fm_spec().sort_spec(), old(self).fm_spec().placement_spec()),
            final(self).fm_spec().sort_spec() == old(self).fm_spec().sort_spec(),
            final(self).fm_spec().placement_spec() == old(self).fm_spec().placement_spec(),
            final(self).fm_spec().hidden_spec() == old(self).fm_spec().hidden_spec(),
            final(self).popups_spec() == old(self).popups_spec(),
            final(self).explorer_spec() == old(self).explorer_spec(),
    {
        self.file_manager.update(listing);
    }

    /// A paste that completed empties the selection; one that failed keeps it.
    pub fn paste_finished(&mut self, ok: bool)
        requires
            old(self).wf(),
        ensures
            final(self).wf(),
            final(self).stack_spec() == old(self).stack_spec(),
            ok ==> final(self).fm_spec().selection_spec() == Seq::<Seq<char>>::empty(),
            !ok ==> final(self).fm_spec() == old(self).fm_spec(),
    {
        if ok {
            self.file_manager.clear_copy();
        }
    }

    /// The outbound message of the active state.
    pub fn get_current_message(&mut self) -> (r: Option<Message>)
        requires
            old(self).wf(),
        ensures
            final(self).wf(),
            final(self).popups_spec() == old(self).popups_spec(),
            final(self).stack_spec() == old(self).stack_spec(),
            final(self).fm_spec() == old(self).fm_spec(),
            old(self).popups_spec().len() > 0 ==> old(self).popups_spec().last().sends(r)
                && text_of(r) == sent_text(old(self).popups_spec().last())
                && flag_of(r) == sent_answer(old(self).popups_spec().last())
                && final(self).explorer_spec() == old(self).explorer_spec(),
            old(self).popups_spec().len() == 0 ==> r == old(self).explorer_spec().message_spec()
                && final(self).explorer_spec().message_spec() is None
                && final(self).explorer_spec().selected_spec() == old(self).explorer_spec().selected_spec()
                && final(self).explorer_spec().source_spec() == old(self).explorer_spec().source_spec(),
    {
        let n = self.popup_stack.len();
        if n > 0 {
            self.popup_stack[n - 1].get_message()
        } else {
            self.explorer.get_message()
        }
    }

    /// Hands `message` to the active state.
    pub fn send_current_message(&mut self, message: Option<Message>) -> (r: FsRequest)
        requires
            old(self).wf(),
        ensures
            final(self).wf(),
            final(self).stack_spec() == old(self).stack_spec(),
            final(self).popups_spec().len() == old(self).popups_spec().len(),
            final(self).fm_spec().cwd_spec() == old(self).fm_spec().cwd_spec(),
            old(self).popups_spec().len() > 0 ==> old(self).popups_spec().last().answers(
                text_of(message), old(self).fm_spec().cwd_spec(), r)
                && received(old(self).popups_spec().last(), final(self).popups_spec().last(), text_of(message))
                && final(self).popups_spec().drop_last() == old(self).popups_spec().drop_last()
                && final(self).fm_spec() == old(self).fm_spec()
                && final(self).explorer_spec() == old(self).explorer_spec(),
            old(self).popups_spec().len() == 0 ==> final(self).explorer_spec().source_spec() == MessageSource::Idle
                && final(self).explorer_spec().selected_spec() == old(self).explorer_spec().selected_spec()
                && final(self).explorer_spec().message_spec() == old(self).explorer_spec().message_spec(),
            old(self).popups_spec().len() == 0 && old(self).explorer_spec().source_spec() == MessageSource::DeletionConfirmationPrompt
                && flag_of(message) == Some(true) ==> (r matches FsRequest::Delete(paths)
                && paths@.map_values(|p: Vec<char>| p@) == old(self).fm_spec().selection_spec())
                && final(self).fm_spec().selection_spec() == Seq::<Seq<char>>::empty(),
            old(self).popups_spec().len() == 0 && !(old(self).explorer_spec().source_spec() == MessageSource::DeletionConfirmationPrompt
                && flag_of(message) == Some(true)) ==> r is Nothing && final(self).fm_spec() == old(self).fm_spec(),
    {
        let n = self.popup_stack.len();
        if n > 0 {
            let mut top = self.popup_stack.pop().unwrap();
            assert(old(self).popup_stack@[n - 1] == top);
            let r = top.handle_message(message, &self.file_manager);
            self.popup_stack.push(top);
            proof {
                assert forall|k: int| 0 <= k < self.popup_stack@.len() implies (#[trigger] self.popup_stack@[k]).wf() by {
                    if k < n - 1 {
                        assert(self.popup_stack@[k] == old(self).popup_stack@[k]);
                    }
                }
                assert(self.stack_spec() =~= old(self).stack_spec());
                assert(self.popup_stack@.drop_last() =~= old(self).popup_stack@.drop_last());
            }
            r
        } else {
            self.explorer.handle_message(message, &mut self.file_manager)
        }
    }

    fn push_popup(&mut self, popup: Popup)
        requires
            old(self).wf(),
            popup.wf(),
        ensures
            final(self).wf(),
            final(self).stack_spec() == old(self).stack_spec().push(popup.kind_spec()),
            final(self).popups_spec() == old(self).popups_spec().push(popup),
            final(self).fm_spec() == old(self).fm_spec(),
            final(self).explorer_spec() == old(self).explorer_spec(),
    {
        self.popup_stack.push(popup);
        proof {
            assert forall|k: int| 0 <= k < self.popup_stack@.len() implies (#[trigger] self.popup_stack@[k]).wf() by {
                if k < self.popup_stack@.len() - 1 {
                    assert(self.popup_stack@[k] == old(self).popup_stack@[k]);
                }
            }
            assert(self.stack_spec() =~= old(self).stack_spec().push(popup.kind_spec()));
        }
    }

    /// Routes a key press to the active state (the top popup, else the base
    /// view) and acts on the signal it gives: a fresh popup is pushed, and
    /// for a text field or a question it is handed the opener's message; or
    /// the top popup is popped and its message handed to the state below
    /// it. The popups below the active one, and the base view while a popup
    /// is active, are left as they were. Returns `Exit` where the application
    /// is to end, and the filesystem work to be done.
    pub fn handle_events(&mut self, key: Key) -> (r: (AppEvents, FsRequest))
        requires
            old(self).wf(),
        ensures
            final(self).wf(),
            final(self).stack_spec() == next_stack(old(self).stack_spec(), active_signal(top_of(old(self).stack_spec()), key)),
            r.0 == (if active_signal(top_of(old(self).stack_spec()), key) == AppEvents::Exit {
                AppEvents::Exit
            } else {
                AppEvents::Nothing
            }),
            ({
                let ps = old(self).popups_spec();
                let fs = final(self).popups_spec();
                let sig = active_signal(top_of(old(self).stack_spec()), key);
                !is_open(sig) && sig != AppEvents::ClosePopUp ==> fs.len() == ps.len()
                    && (ps.len() > 0 ==> fs.drop_last() == ps.drop_last()
                        && final(self).explorer_spec() == old(self).explorer_spec())
            }),
            ({
                let ps = old(self).popups_spec();
                let fs = final(self).popups_spec();
                let sig = active_signal(top_of(old(self).stack_spec()), key);
                is_open(sig) ==> fs.len() == ps.len() + 1 && fresh(fs.last())
                    && (ps.len() > 0 ==> fs.subrange(0, ps.len() - 1) == ps.drop_last()
                        && final(self).explorer_spec() == old(self).explorer_spec())
                    && (sig == AppEvents::OpenTextFieldPopup ==> fs.last()->TextField_0.title_spec()
                        == match sent_text(ps.last()) { Some(t) => t, None => Seq::<char>::empty() })
                    && (sig == AppEvents::OpenConfirmationPopup ==> fs.last()->Confirmation_0.text_spec() == deletion_prompt())
            }),
            ({
                let ps = old(self).popups_spec();
                let fs = final(self).popups_spec();
                let sig = active_signal(top_of(old(self).stack_spec()), key);
                let text = closing_text(ps.last(), key);
                sig == AppEvents::ClosePopUp && ps.len() >= 2 ==> fs.len() == ps.len() - 1
                    && fs.drop_last() == ps.subrange(0, ps.len() - 2)
                    && received(ps[ps.len() - 2], fs.last(), text)
                    && ps[ps.len() - 2].answers(text, old(self).fm_spec().cwd_spec(), r.1)
                    && final(self).explorer_spec() == old(self).explorer_spec()
            }),
            ({
                let ps = old(self).popups_spec();
                let sig = active_signal(top_of(old(self).stack_spec()), key);
                let yes = closing_answer(ps.last(), key) == Some(true)
                    && old(self).explorer_spec().source_spec() == MessageSource::DeletionConfirmationPrompt;
                sig == AppEvents::ClosePopUp && ps.len() == 1 ==> final(self).popups_spec().len() == 0
                    && final(self).explorer_spec().source_spec() == MessageSource::Idle
                    && final(self).explorer_spec().selected_spec() == old(self).explorer_spec().selected_spec()
                    && (yes ==> (r.1 matches FsRequest::Delete(paths)
                        && paths@.map_values(|p: Vec<char>| p@) == old(self).fm_spec().selection_spec())
                        && final(self).fm_spec().selection_spec() == Seq::<Seq<char>>::empty())
                    && (!yes ==> r.1 is Nothing)
            }),
            ({
                let ps = old(self).popups_spec();
                let sig = active_signal(top_of(old(self).stack_spec()), key);
                ps.len() > 0 ==> final(self).fm_spec().cwd_spec() == old(self).fm_spec().cwd_spec()
                    && (!(ps.last() is Sorting && key == Key::Enter) && !(sig == AppEvents::ClosePopUp && ps.len() == 1)
                        ==> final(self).fm_spec() == old(self).fm_spec())
                    && (ps.last() is Sorting && key == Key::Enter ==> sorted_to(old(self).fm_spec(), final(self).fm_spec(),
                        menu_mode(ps.last()->Sorting_0.selected_spec())->0))
            }),
            old(self).popups_spec().len() == 0 ==> old(self).explorer_spec().key_step(
                final(self).explorer_spec().selected_spec(), old(self).fm_spec(), final(self).fm_spec(), key, r.1),
    {
        let n = self.popup_stack.len();
        let ghost ps = self.popup_stack@;
        let (event, request) = if n > 0 {
            let mut top = self.popup_stack.pop().unwrap();
            assert(old(self).popup_stack@[n - 1] == top);
            assert(old(self).stack_spec().last() == top.kind_spec());
            let e = top.handle_key_event(key, &mut self.file_manager);
            self.popup_stack.push(top);
            assert(self.popup_stack@ =~= old(self).popup_stack@.drop_last().push(top));
            proof {
                assert forall|k: int| 0 <= k < self.popup_stack@.len() implies (#[trigger] self.popup_stack@[k]).wf() by {
                    if k < n - 1 {
                        assert(self.popup_stack@[k] == old(self).popup_stack@[k]);
                    }
                }
                assert(self.stack_spec() =~= old(self).stack_spec());
            }
            (e, FsRequest::Nothing)
        } else {
            self.explorer.handle_key_event(key, &mut self.file_manager)
        };
        let ghost mid = self.popup_stack@;
        let ghost fm1 = self.file_manager;
        proof {
            if n > 0 {
                assert(mid.drop_last() =~= ps.drop_last());
            }
        }
        match event {
            AppEvents::Nothing => (AppEvents::Nothing, request),
            AppEvents::Exit => (AppEvents::Exit, request),
            AppEvents::OpenSortingPopupWindow => {
                self.push_popup(Popup::Sorting(SortingPopUp::new()));
                proof {
                    if n > 0 {
                        assert(self.popup_stack@.subrange(0, n - 1) =~= ps.drop_last());
                    }
                }
                (AppEvents::Nothing, request)
            },
            AppEvents::ChangeToExplorerWindow => {
                let r = self.change_window(AppWindows::Explorer);
                (AppEvents::Nothing, r)
            },
            AppEvents::OpenKeyMappingPopupWindow => {
                self.push_popup(Popup::KeyMapping(KeyMappingPopup::new()));
                proof {
                    if n > 0 {
                        assert(self.popup_stack@.subrange(0, n - 1) =~= ps.drop_last());
                    }
                }
                (AppEvents::Nothing, request)
            },
            AppEvents::OpenTextFieldPopup => {
                let message = self.get_current_message();
                let ghost text = text_of(message);
                self.push_popup(Popup::TextField(TextFieldPopup::new()));
                let r = self.send_current_message(message);
                proof {
                    if n > 0 {
                        assert(self.popup_stack@.subrange(0, n - 1) =~= ps.drop_last());
                    }
                }
                (AppEvents::Nothing, r)
            },
            AppEvents::OpenConfirmationPopup => {
                let message = self.get_current_message();
                self.push_popup(Popup::Confirmation(ConfirmationPopup::new(message)));
                proof {
                    if n > 0 {
                        assert(self.popup_stack@.subrange(0, n - 1) =~= ps.drop_last());
                    }
                }
                (AppEvents::Nothing, request)
            },
            AppEvents::OpenNewFilePopup => {
                self.push_popup(Popup::NewFile(NewFilePopup::new()));
                proof {
                    if n > 0 {
                        assert(self.popup_stack@.subrange(0, n - 1) =~= ps.drop_last());
                    }
                }
                (AppEvents::Nothing, request)
            },
            AppEvents::ClosePopUp => {
                if self.popup_stack.len() == 0 {
                    return (AppEvents::Nothing, request);
                }
                let message = self.get_current_message();
                let _ = self.popup_stack.pop();
                proof {
                    assert forall|k: int| 0 <= k < self.popup_stack@.len() implies (#[trigger] self.popup_stack@[k]).wf() by {
                        assert(self.popup_stack@[k] == mid[k]);
                    }
                    assert(self.stack_spec() =~= mid.map_values(|p: Popup| p.kind_spec()).drop_last());
                    if n >= 2 {
                        assert(self.popup_stack@ =~= ps.subrange(0, n - 1));
                        assert(self.popup_stack@.last() == ps[n - 2]);
                    }
                }
                let r = self.send_current_message(message);
                proof {
                    if n >= 2 {
                        assert(self.popup_stack@.drop_last() =~= ps.subrange(0, n - 2));
                    }
                }
                (AppEvents::Nothing, r)
            },
        }
    }
}

} // verus!
