use vstd::prelude::*;
use crate::message::{AppEvents, Key, Message};
use crate::path::copy_chars;

verus! {

/// A one-line editor that hands the committed text back to the state that
/// opened it.
pub struct TextFieldPopup {
    title: Vec<char>,
    string: Vec<char>,
    message: Vec<char>,
}

impl TextFieldPopup {
    pub closed spec fn title_spec(&self) -> Seq<char> {
        self.title@
    }

    /// The text being edited.
    pub closed spec fn string_spec(&self) -> Seq<char> {
        self.string@
    }

    /// The committed text.
    pub closed spec fn message_spec(&self) -> Seq<char> {
        self.message@
    }

    pub open spec fn signal(key: Key) -> AppEvents {
        if key == Key::Enter || key == Key::Esc {
            AppEvents::ClosePopUp
        } else {
            AppEvents::Nothing
        }
    }

    pub fn new() -> (r: TextFieldPopup)
        ensures
            r.title_spec() == Seq::<char>::empty(),
            r.string_spec() == Seq::<char>::empty(),
            r.message_spec() == Seq::<char>::empty(),
    {
        TextFieldPopup { title: Vec::new(), string: Vec::new(), message: Vec::new() }
    }

    /// The prompt shown above the text.
    pub fn title(&self) -> (r: &Vec<char>)
        ensures
            r@ == self.title_spec(),
    {
        &self.title
    }

    /// The text being edited.
    pub fn text(&self) -> (r: &Vec<char>)
        ensures
            r@ == self.string_spec(),
    {
        &self.string
    }

    /// A text message becomes the prompt.
    pub fn handle_message(&mut self, message: Option<Message>)
        ensures
            final(self).string_spec() == old(self).string_spec(),
            final(self).message_spec() == old(self).message_spec(),
            match message {
                Some(Message::String(t)) => final(self).title_spec() == t@,
                _ => final(self).title_spec() == old(self).title_spec(),
            },
    {
        match message {
            Some(Message::String(t)) => self.title = t,
            _ => {},
        }
    }

    /// The committed text, where there is any.
    pub fn get_message(&self) -> (r: Option<Message>)
        ensures
            self.message_spec().len() == 0 ==> r is None,
            self.message_spec().len() > 0 ==> (r matches Some(Message::String(t)) && t@ == self.message_spec()),
    {
        if self.message.len() == 0 {
            None
        } else {
            let n = self.message.len();
            let t = copy_chars(&self.message, 0, n);
            assert(self.message@.subrange(0, n as int) =~= self.message@);
            Some(Message::String(t))
        }
    }

    /// Characters are appended; Backspace removes the last one and
    /// Ctrl+Backspace all of them; Escape drops the text and closes; Enter
    /// commits the text and closes.
    pub fn handle_key_event(&mut self, key: Key) -> (r: AppEvents)
        ensures
            r == Self::signal(key),
            final(self).title_spec() == old(self).title_spec(),
            match key {
                Key::Char(c) => final(self).string_spec() == old(self).string_spec().push(c)
                    && final(self).message_spec() == old(self).message_spec(),
                Key::Backspace => final(self).string_spec() == (if old(self).string_spec().len() == 0 {
                    old(self).string_spec()
                } else {
                    old(self).string_spec().drop_last()
                }) && final(self).message_spec() == old(self).message_spec(),
                Key::CtrlBackspace | Key::Esc => final(self).string_spec() == Seq::<char>::empty()
                    && final(self).message_spec() == old(self).message_spec(),
                Key::Enter => final(self).string_spec() == Seq::<char>::empty()
                    && final(self).message_spec() == old(self).string_spec(),
                _ => final(self).string_spec() == old(self).string_spec()
                    && final(self).message_spec() == old(self).message_spec(),
            },
    {
        match key {
            Key::Char(c) => {
                self.string.push(c);
                AppEvents::Nothing
            },
            Key::Backspace => {
                let _ = self.string.pop();
                AppEvents::Nothing
            },
            Key::CtrlBackspace => {
                self.string.clear();
                AppEvents::Nothing
            },
            Key::Esc => {
                self.string.clear();
                AppEvents::ClosePopUp
            },
            Key::Enter => {
                let mut committed: Vec<char> = Vec::new();
                std::mem::swap(&mut committed, &mut self.string);
                self.message = committed;
                AppEvents::ClosePopUp
            },
            _ => AppEvents::Nothing,
        }
    }
}

} // verus!
