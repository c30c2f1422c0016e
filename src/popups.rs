use vstd::prelude::*;
use crate::file_manager::{arranged, FileManager, Sorting};
use crate::message::{AppEvents, FsRequest, Key, Message};
use crate::path::{chars_of, join, join_spec};

verus! {

/// The text a message carries, if it carries text.
pub open spec fn text_of(m: Option<Message>) -> Option<Seq<char>> {
    match m {
        Some(Message::String(t)) => Some(t@),
        _ => None,
    }
}

/// The sort mode at position `i` of the sorting menu.
pub open spec fn menu_mode(i: int) -> Option<Sorting> {
    if i == 0 {
        Some(Sorting::SortedBySizeDescending)
    } else if i == 1 {
        Some(Sorting::SortedBySizeAscending)
    } else if i == 2 {
        Some(Sorting::SortedByNameDescending)
    } else if i == 3 {
        Some(Sorting::SortedByNameAscending)
    } else {
        None
    }
}

pub open spec fn is_up(key: Key) -> bool {
    key == Key::Up || key == Key::Char('k')
}

pub open spec fn is_down(key: Key) -> bool {
    key == Key::Down || key == Key::Char('j')
}

/// The menu of sort modes.
pub struct SortingPopUp {
    selected: usize,
}

impl SortingPopUp {
    pub closed spec fn selected_spec(&self) -> int {
        self.selected as int
    }

    /// The menu highlights one of its four items.
    pub open spec fn wf(&self) -> bool {
        0 <= self.selected_spec() <= 3
    }

    /// The signal a key press gives.
    pub open spec fn signal(key: Key) -> AppEvents {
        if key == Key::Enter || key == Key::Esc {
            AppEvents::ClosePopUp
        } else {
            AppEvents::Nothing
        }
    }

    pub fn new() -> (r: SortingPopUp)
        ensures
            r.wf(),
            r.selected_spec() == 0,
    {
        SortingPopUp { selected: 0 }
    }

    /// The highlighted position.
    pub fn selected(&self) -> (r: usize)
        ensures
            r == self.selected_spec(),
    {
        self.selected
    }

    /// The sort mode under the highlight.
    pub fn selected_sort_mode(&self) -> (r: Option<Sorting>)
        ensures
            r == menu_mode(self.selected_spec()),
    {
        match self.selected {
            0 => Some(Sorting::SortedBySizeDescending),
            1 => Some(Sorting::SortedBySizeAscending),
            2 => Some(Sorting::SortedByNameDescending),
            3 => Some(Sorting::SortedByNameAscending),
            _ => None,
        }
    }

    /// Up and down move the highlight without wrapping; Enter applies the
    /// highlighted mode and closes; Escape closes.
    pub fn handle_key_event(&mut self, key: Key, file_manager: &mut FileManager) -> (r: AppEvents)
        requires
            old(self).wf(),
        ensures
            final(self).wf(),
            r == Self::signal(key),
            is_up(key) ==> final(self).selected_spec() == if old(self).selected_spec() == 0 { 0 } else { old(self).selected_spec() - 1 },
            is_down(key) ==> final(self).selected_spec() == if old(self).selected_spec() == 3 { 3 } else { old(self).selected_spec() + 1 },
            !is_up(key) && !is_down(key) ==> final(self).selected_spec() == old(self).selected_spec(),
            key == Key::Enter ==> ({
                let mode = menu_mode(old(self).selected_spec())->0;
                &&& final(file_manager).files_spec() == arranged(mode, old(file_manager).placement_spec(), old(file_manager).files_spec())
                &&& final(file_manager).sort_spec() == mode
                &&& final(file_manager).placement_spec() == old(file_manager).placement_spec()
                &&& final(file_manager).hidden_spec() == old(file_manager).hidden_spec()
                &&& final(file_manager).cwd_spec() == old(file_manager).cwd_spec()
                &&& final(file_manager).selection_spec() == old(file_manager).selection_spec()
            }),
            key != Key::Enter ==> *final(file_manager) == *old(file_manager),
    {
        match key {
            Key::Up | Key::Char('k') => {
                if self.selected > 0 {
                    self.selected = self.selected - 1;
                }
                AppEvents::Nothing
            },
            Key::Down | Key::Char('j') => {
                if self.selected < 3 {
                    self.selected = self.selected + 1;
                }
                AppEvents::Nothing
            },
            Key::Enter => {
                match self.selected_sort_mode() {
                    Some(mode) => file_manager.sort(mode),
                    None => {},
                }
                AppEvents::ClosePopUp
            },
            Key::Esc => AppEvents::ClosePopUp,
            _ => AppEvents::Nothing,
        }
    }
}

/// The help listing of key bindings.
pub struct KeyMappingPopup;

impl KeyMappingPopup {
    pub fn new() -> (r: KeyMappingPopup) {
        KeyMappingPopup
    }

    /// Any key closes the listing.
    pub fn handle_key_event(&mut self, key: Key) -> (r: AppEvents)
        ensures
            r == AppEvents::ClosePopUp,
    {
        AppEvents::ClosePopUp
    }
}

/// The menu that chooses between a new file and a new folder.
pub struct NewFilePopup {
    selected: usize,
}

impl NewFilePopup {
    pub closed spec fn selected_spec(&self) -> int {
        self.selected as int
    }

    /// Position 0 is a file, position 1 a folder.
    pub open spec fn wf(&self) -> bool {
        0 <= self.selected_spec() <= 1
    }

    /// The request that a name handed back (or none) gives in `cwd`.
    pub open spec fn answers(&self, name: Option<Seq<char>>, cwd: Seq<char>, r: FsRequest) -> bool {
        match name {
            Some(name) => {
                if name.len() > 0 && cwd.len() + name.len() + 1 <= usize::MAX {
                    if self.selected_spec() == 0 {
                        r matches FsRequest::CreateFile(p) && p@ == join_spec(cwd, name)
                    } else {
                        r matches FsRequest::CreateFolder(p) && p@ == join_spec(cwd, name)
                    }
                } else {
                    r is Refresh
                }
            },
            None => r is Refresh,
        }
    }

    pub open spec fn signal(key: Key) -> AppEvents {
        if key == Key::Esc {
            AppEvents::ClosePopUp
        } else if key == Key::Enter {
            AppEvents::OpenTextFieldPopup
        } else {
            AppEvents::Nothing
        }
    }

    pub fn new() -> (r: NewFilePopup)
        ensures
            r.wf(),
            r.selected_spec() == 0,
    {
        NewFilePopup { selected: 0 }
    }

    /// The highlighted position.
    pub fn selected(&self) -> (r: usize)
        ensures
            r == self.selected_spec(),
    {
        self.selected
    }

    /// Up and down choose the kind; Enter asks for a name; Escape closes.
    pub fn handle_key_event(&mut self, key: Key) -> (r: AppEvents)
        requires
            old(self).wf(),
        ensures
            final(self).wf(),
            r == Self::signal(key),
            key == Key::Up ==> final(self).selected_spec() == 0,
            key == Key::Down ==> final(self).selected_spec() == 1,
            key != Key::Up && key != Key::Down ==> final(self).selected_spec() == old(self).selected_spec(),
    {
        match key {
            Key::Up => {
                self.selected = 0;
                AppEvents::Nothing
            },
            Key::Down => {
                self.selected = 1;
                AppEvents::Nothing
            },
            Key::Esc => AppEvents::ClosePopUp,
            Key::Enter => AppEvents::OpenTextFieldPopup,
            _ => AppEvents::Nothing,
        }
    }

    /// The chosen kind, as the prompt for the name.
    pub fn get_message(&self) -> (r: Option<Message>)
        requires
            self.wf(),
        ensures
            r matches Some(Message::String(t)) && (self.selected_spec() == 0 ==> t@ == "File"@)
                && (self.selected_spec() == 1 ==> t@ == "Folder"@),
    {
        if self.selected == 0 {
            Some(Message::String(chars_of("File")))
        } else {
            Some(Message::String(chars_of("Folder")))
        }
    }

    /// A name handed back creates an entry of the chosen kind under the
    /// active directory; without one the listing is refreshed.
    pub fn handle_message(&mut self, message: Option<Message>, file_manager: &FileManager) -> (r: FsRequest)
        requires
            old(self).wf(),
        ensures
            *final(self) == *old(self),
            old(self).answers(text_of(message), file_manager.cwd_spec(), r),
    {
        match message {
            Some(Message::String(name)) => {
                let cwd = file_manager.cwd();
                if name.len() == 0 || name.len() >= usize::MAX - cwd.len() {
                    return FsRequest::Refresh;
                }
                let path = join(cwd, &name);
                if self.selected == 0 {
                    FsRequest::CreateFile(path)
                } else {
                    FsRequest::CreateFolder(path)
                }
            },
            _ => FsRequest::Refresh,
        }
    }
}

/// The Yes/No question, defaulting to No; until Enter answers it, the
/// answer handed out is No.
pub struct ConfirmationPopup {
    text: Vec<char>,
    selected: usize,
    confirmation_result: Option<bool>,
}

impl ConfirmationPopup {
    pub closed spec fn text_spec(&self) -> Seq<char> {
        self.text@
    }

    pub closed spec fn selected_spec(&self) -> int {
        self.selected as int
    }

    pub closed spec fn result_spec(&self) -> Option<bool> {
        self.confirmation_result
    }

    /// Position 0 is No, position 1 Yes.
    pub open spec fn wf(&self) -> bool {
        0 <= self.selected_spec() <= 1
    }

    pub open spec fn signal(key: Key) -> AppEvents {
        if key == Key::Enter || key == Key::Esc {
            AppEvents::ClosePopUp
        } else {
            AppEvents::Nothing
        }
    }

    /// A question whose text is the text of `message`, if it holds one.
    pub fn new(message: Option<Message>) -> (r: ConfirmationPopup)
        ensures
            r.wf(),
            r.selected_spec() == 0,
            r.result_spec() == Some(false),
            match message {
                Some(Message::String(t)) => r.text_spec() == t@,
                _ => r.text_spec() == Seq::<char>::empty(),
            },
    {
        let mut popup = ConfirmationPopup { text: Vec::new(), selected: 0, confirmation_result: Some(false) };
        popup.handle_message(message);
        popup
    }

    /// The question shown.
    pub fn text(&self) -> (r: &Vec<char>)
        ensures
            r@ == self.text_spec(),
    {
        &self.text
    }

    /// The highlighted position.
    pub fn selected(&self) -> (r: usize)
        ensures
            r == self.selected_spec(),
    {
        self.selected
    }

    /// A text message becomes the question.
    pub fn handle_message(&mut self, message: Option<Message>)
        ensures
            final(self).selected_spec() == old(self).selected_spec(),
            final(self).result_spec() == old(self).result_spec(),
            match message {
                Some(Message::String(t)) => final(self).text_spec() == t@,
                _ => final(self).text_spec() == old(self).text_spec(),
            },
    {
        match message {
            Some(Message::String(t)) => self.text = t,
            _ => {},
        }
    }

    /// Up highlights No, down highlights Yes; Enter answers with the
    /// highlighted choice and closes; Escape closes and keeps the answer.
    pub fn handle_key_event(&mut self, key: Key) -> (r: AppEvents)
        requires
            old(self).wf(),
        ensures
            final(self).wf(),
            r == Self::signal(key),
            final(self).text_spec() == old(self).text_spec(),
            is_up(key) ==> final(self).selected_spec() == 0,
            is_down(key) ==> final(self).selected_spec() == 1,
            !is_up(key) && !is_down(key) ==> final(self).selected_spec() == old(self).selected_spec(),
            key == Key::Enter ==> final(self).result_spec() == Some(old(self).selected_spec() == 1),
            key != Key::Enter ==> final(self).result_spec() == old(self).result_spec(),
    {
        match key {
            Key::Enter => {
                self.confirmation_result = Some(self.selected == 1);
                AppEvents::ClosePopUp
            },
            Key::Esc => AppEvents::ClosePopUp,
            Key::Up | Key::Char('k') => {
                self.selected = 0;
                AppEvents::Nothing
            },
            Key::Down | Key::Char('j') => {
                self.selected = 1;
                AppEvents::Nothing
            },
            _ => AppEvents::Nothing,
        }
    }

    /// The answer, once given.
    pub fn get_message(&self) -> (r: Option<Message>)
        ensures
            match self.result_spec() {
                Some(b) => r matches Some(Message::Bool(x)) && x == b,
                None => r is None,
            },
    {
        match self.confirmation_result {
            Some(b) => Some(Message::Bool(b)),
            None => None,
        }
    }
}

} // verus!
