use vstd::prelude::*;

verus! {

/// The value handed between a state and the popup it opened.
#[derive(Debug)]
pub enum Message {
    String(Vec<char>),
    Bool(bool),
}

/// A key press, as the states read it.
#[derive(Clone, Copy, PartialEq, Eq, Structural, Debug)]
pub enum Key {
    Char(char),
    Up,
    Down,
    Left,
    Right,
    Enter,
    Esc,
    Backspace,
    CtrlBackspace,
    Other,
}

/// What a state asks the controller to do after a key press.
#[derive(Clone, Copy, PartialEq, Eq, Structural, Debug)]
pub enum AppEvents {
    Nothing,
    Exit,
    OpenSortingPopupWindow,
    ChangeToExplorerWindow,
    OpenKeyMappingPopupWindow,
    OpenTextFieldPopup,
    OpenNewFilePopup,
    OpenConfirmationPopup,
    ClosePopUp,
}

/// Filesystem work that a state hands out, to be done outside the state
/// machine. Each one ends with the snapshot of the active directory rebuilt.
#[derive(Debug)]
pub enum FsRequest {
    /// Nothing to do.
    Nothing,
    /// List the active directory again and hand it to `FileManager::update`.
    Refresh,
    /// List this absolute directory; where that succeeds, hand it to
    /// `FileManager::change_dir`, else change nothing.
    ChangeDir(Vec<char>),
    /// Paste the selection into the active directory.
    Paste,
    /// Remove each of these absolute paths.
    Delete(Vec<Vec<char>>),
    /// Create this absolute path as an empty file, with missing parents.
    CreateFile(Vec<char>),
    /// Create this absolute path as a directory, with missing parents.
    CreateFolder(Vec<char>),
}

} // verus!
