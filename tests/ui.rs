use fexplorer::controller::{Controller, Popup, PopupKind};
use fexplorer::explorer_table::ExplorerTable;
use fexplorer::file_manager::{Entry, EntryKind, FileManager, SortDir, Sorting};
use fexplorer::message::{AppEvents, FsRequest, Key, Message};
use fexplorer::popups::{ConfirmationPopup, NewFilePopup, SortingPopUp};
use fexplorer::text_field_popup::TextFieldPopup;

fn s(x: &str) -> Vec<char> {
    x.chars().collect()
}

fn text(v: &[char]) -> String {
    v.iter().collect()
}

fn file(name: &str, size: u64) -> Entry {
    Entry { name: s(name), kind: EntryKind::File, size }
}

fn dir(name: &str) -> Entry {
    Entry { name: s(name), kind: EntryKind::Directory, size: 4096 }
}

fn press(c: &mut Controller, key: Key) -> (AppEvents, FsRequest) {
    c.handle_events(key)
}

fn type_text(c: &mut Controller, t: &str) {
    for ch in t.chars() {
        let (e, r) = press(c, Key::Char(ch));
        assert_eq!(e, AppEvents::Nothing);
        assert!(matches!(r, FsRequest::Nothing));
    }
}

#[test]
fn new_file_handshake_asks_for_exactly_one_file() {
    let mut c = Controller::new(s("/w"), vec![file("x", 1)]);
    press(&mut c, Key::Char('n'));
    assert_eq!(c.top_kind(), Some(PopupKind::NewFile));
    let (_, r) = press(&mut c, Key::Enter);
    assert!(matches!(r, FsRequest::Nothing));
    assert_eq!(c.depth(), 2);
    match &c.popups()[1] {
        Popup::TextField(t) => assert_eq!(text(t.title()), "File"),
        _ => panic!("text field expected on top"),
    }
    type_text(&mut c, "foo.txt");
    let (e, r) = press(&mut c, Key::Enter);
    assert_eq!(e, AppEvents::Nothing);
    match r {
        FsRequest::CreateFile(p) => assert_eq!(text(&p), "/w/foo.txt"),
        other => panic!("unexpected request {:?}", other),
    }
    assert_eq!(c.top_kind(), Some(PopupKind::NewFile));
    press(&mut c, Key::Esc);
    assert_eq!(c.depth(), 0);
}

#[test]
fn new_folder_handshake_asks_for_a_folder() {
    let mut c = Controller::new(s("/w"), vec![]);
    press(&mut c, Key::Char('n'));
    press(&mut c, Key::Down);
    press(&mut c, Key::Enter);
    type_text(&mut c, "dir");
    match press(&mut c, Key::Enter).1 {
        FsRequest::CreateFolder(p) => assert_eq!(text(&p), "/w/dir"),
        other => panic!("unexpected request {:?}", other),
    }
}

#[test]
fn cancelled_text_field_only_refreshes() {
    let mut c = Controller::new(s("/w"), vec![]);
    press(&mut c, Key::Char('n'));
    press(&mut c, Key::Enter);
    type_text(&mut c, "abc");
    let (_, r) = press(&mut c, Key::Esc);
    assert!(matches!(r, FsRequest::Refresh));
    assert_eq!(c.top_kind(), Some(PopupKind::NewFile));
}

#[test]
fn deleting_a_confirmed_selection() {
    let listing = || vec![dir("gone"), file("stay", 1)];
    let mut c = Controller::new(s("/w"), listing());
    press(&mut c, Key::Char('y'));
    let (e, _) = press(&mut c, Key::Char('x'));
    assert_eq!(e, AppEvents::Nothing);
    assert_eq!(c.top_kind(), Some(PopupKind::Confirmation));
    match &c.popups()[0] {
        Popup::Confirmation(p) => {
            assert_eq!(text(p.text()), "The selected files will be deleted permanently, are you sure?");
            assert_eq!(p.selected(), 0);
        },
        _ => panic!("confirmation expected"),
    }
    press(&mut c, Key::Down);
    let (_, r) = press(&mut c, Key::Enter);
    match r {
        FsRequest::Delete(paths) => {
            let p: Vec<String> = paths.iter().map(|p| text(p)).collect();
            assert_eq!(p, vec!["/w/gone"]);
        },
        other => panic!("unexpected request {:?}", other),
    }
    assert!(c.file_manager().selection().is_empty());
    c.update(vec![file("stay", 1)]);
    let names: Vec<String> = c.file_manager().get_entries().iter().map(|e| text(&e.name)).collect();
    assert_eq!(names, vec!["stay"]);
}

#[test]
fn declined_or_cancelled_deletion_does_nothing() {
    let mut c = Controller::new(s("/w"), vec![file("a", 1)]);
    press(&mut c, Key::Char('y'));
    press(&mut c, Key::Char('x'));
    let (_, r) = press(&mut c, Key::Enter);
    assert!(matches!(r, FsRequest::Nothing));
    assert_eq!(c.file_manager().selection().len(), 1);
    press(&mut c, Key::Char('x'));
    press(&mut c, Key::Down);
    let (_, r) = press(&mut c, Key::Esc);
    assert!(matches!(r, FsRequest::Nothing));
    assert_eq!(c.depth(), 0);
}

#[test]
fn quit_key_exits() {
    let mut c = Controller::new(s("/w"), vec![]);
    assert_eq!(press(&mut c, Key::Char('q')).0, AppEvents::Exit);
}

#[test]
fn key_mapping_closes_on_any_key() {
    let mut c = Controller::new(s("/w"), vec![]);
    press(&mut c, Key::Char('m'));
    assert_eq!(c.top_kind(), Some(PopupKind::KeyMapping));
    press(&mut c, Key::Char('q'));
    assert_eq!(c.depth(), 0);
}

#[test]
fn sorting_popup_applies_the_highlighted_mode() {
    let mut c = Controller::new(s("/w"), vec![file("b", 1), file("a", 2), file("c", 3)]);
    press(&mut c, Key::Char('s'));
    assert_eq!(c.top_kind(), Some(PopupKind::Sorting));
    for _ in 0..5 {
        press(&mut c, Key::Down);
    }
    press(&mut c, Key::Enter);
    assert_eq!(c.depth(), 0);
    assert_eq!(c.file_manager().curr_sort(), Sorting::SortedByNameAscending);
    let names: Vec<String> = c.file_manager().get_entries().iter().map(|e| text(&e.name)).collect();
    assert_eq!(names, vec!["a", "b", "c"]);
}

#[test]
fn sorting_popup_saturates_and_escape_applies_nothing() {
    let mut fm = FileManager::new(s("/w"), vec![]);
    let mut p = SortingPopUp::new();
    p.handle_key_event(Key::Up, &mut fm);
    assert_eq!(p.selected(), 0);
    assert_eq!(p.selected_sort_mode(), Some(Sorting::SortedBySizeDescending));
    for _ in 0..9 {
        p.handle_key_event(Key::Char('j'), &mut fm);
    }
    assert_eq!(p.selected(), 3);
    assert_eq!(p.handle_key_event(Key::Esc, &mut fm), AppEvents::ClosePopUp);
    assert_eq!(fm.curr_sort(), Sorting::Unsorted);
}

#[test]
fn explorer_highlight_wraps_at_both_ends() {
    let mut fm = FileManager::new(s("/w"), vec![file("a", 1), file("b", 1), file("c", 1)]);
    let mut t = ExplorerTable::new();
    assert_eq!(t.selected(), 0);
    t.handle_key_event(Key::Up, &mut fm);
    assert_eq!(t.selected(), 2);
    t.handle_key_event(Key::Down, &mut fm);
    assert_eq!(t.selected(), 0);
    t.handle_key_event(Key::Char('j'), &mut fm);
    assert_eq!(t.selected(), 1);
    t.handle_key_event(Key::Char('k'), &mut fm);
    assert_eq!(t.selected(), 0);
}

#[test]
fn explorer_navigation_requests() {
    let mut fm = FileManager::new(s("/w/x"), vec![file("f", 1), dir("d")]);
    let mut t = ExplorerTable::new();
    assert!(matches!(t.handle_key_event(Key::Right, &mut fm).1, FsRequest::Nothing));
    t.handle_key_event(Key::Down, &mut fm);
    match t.handle_key_event(Key::Char('l'), &mut fm).1 {
        FsRequest::ChangeDir(p) => assert_eq!(text(&p), "/w/x/d"),
        other => panic!("unexpected request {:?}", other),
    }
    match t.handle_key_event(Key::Left, &mut fm).1 {
        FsRequest::ChangeDir(p) => assert_eq!(text(&p), "/w"),
        other => panic!("unexpected request {:?}", other),
    }
    assert!(matches!(t.handle_key_event(Key::Char('v'), &mut fm).1, FsRequest::Paste));
    assert!(matches!(t.handle_key_event(Key::Char('g'), &mut fm).1, FsRequest::Refresh));
    assert!(fm.show_hidden());
    assert!(matches!(t.handle_key_event(Key::Char('d'), &mut fm).1, FsRequest::Refresh));
    assert_eq!(fm.dir_sorting(), SortDir::Start);
    assert_eq!(t.selected_file_in_table(&fm).map(|p| text(&p)), Some("/w/x/f".to_string()));
}

#[test]
fn explorer_on_an_empty_listing() {
    let mut fm = FileManager::new(s("/"), vec![]);
    let mut t = ExplorerTable::new();
    t.handle_key_event(Key::Down, &mut fm);
    t.handle_key_event(Key::Up, &mut fm);
    assert_eq!(t.selected(), 0);
    assert!(matches!(t.handle_key_event(Key::Char('l'), &mut fm).1, FsRequest::Nothing));
    t.handle_key_event(Key::Char('y'), &mut fm);
    assert!(fm.selection().is_empty());
    assert_eq!(t.selected_file_in_table(&fm), None);
}

#[test]
fn paste_success_clears_the_selection() {
    let mut c = Controller::new(s("/w"), vec![file("a", 1)]);
    press(&mut c, Key::Char('y'));
    c.paste_finished(false);
    assert_eq!(c.file_manager().selection().len(), 1);
    c.paste_finished(true);
    assert!(c.file_manager().selection().is_empty());
}

#[test]
fn text_field_editing_keys() {
    let mut t = TextFieldPopup::new();
    assert!(t.get_message().is_none());
    for ch in "abc".chars() {
        t.handle_key_event(Key::Char(ch));
    }
    t.handle_key_event(Key::Backspace);
    assert_eq!(text(t.text()), "ab");
    t.handle_key_event(Key::CtrlBackspace);
    assert_eq!(text(t.text()), "");
    t.handle_key_event(Key::Backspace);
    t.handle_key_event(Key::Char('z'));
    assert_eq!(t.handle_key_event(Key::Enter), AppEvents::ClosePopUp);
    assert_eq!(text(t.text()), "");
    match t.get_message() {
        Some(Message::String(m)) => assert_eq!(text(&m), "z"),
        other => panic!("unexpected message {:?}", other),
    }
    t.handle_message(Some(Message::String(s("Folder"))));
    assert_eq!(text(t.title()), "Folder");
}

#[test]
fn confirmation_defaults_to_no_and_answers_on_enter() {
    let mut p = ConfirmationPopup::new(Some(Message::String(s("sure?"))));
    assert_eq!(text(p.text()), "sure?");
    assert!(matches!(p.get_message(), Some(Message::Bool(false))));
    p.handle_key_event(Key::Down);
    p.handle_key_event(Key::Char('k'));
    assert_eq!(p.handle_key_event(Key::Enter), AppEvents::ClosePopUp);
    assert!(matches!(p.get_message(), Some(Message::Bool(false))));
    let q = ConfirmationPopup::new(None);
    assert_eq!(text(q.text()), "");
}

#[test]
fn new_file_popup_messages() {
    let fm = FileManager::new(s("/w"), vec![]);
    let mut p = NewFilePopup::new();
    match p.get_message() {
        Some(Message::String(m)) => assert_eq!(text(&m), "File"),
        other => panic!("unexpected message {:?}", other),
    }
    p.handle_key_event(Key::Down);
    p.handle_key_event(Key::Down);
    assert_eq!(p.selected(), 1);
    match p.get_message() {
        Some(Message::String(m)) => assert_eq!(text(&m), "Folder"),
        other => panic!("unexpected message {:?}", other),
    }
    assert!(matches!(p.handle_message(None, &fm), FsRequest::Refresh));
    assert!(matches!(p.handle_message(Some(Message::Bool(true)), &fm), FsRequest::Refresh));
    assert_eq!(p.handle_key_event(Key::Enter), AppEvents::OpenTextFieldPopup);
}

#[test]
fn confirmation_escape_hands_down_no() {
    let mut p = ConfirmationPopup::new(None);
    p.handle_key_event(Key::Down);
    assert_eq!(p.handle_key_event(Key::Esc), AppEvents::ClosePopUp);
    assert!(matches!(p.get_message(), Some(Message::Bool(false))));
}

#[test]
fn explorer_hands_out_the_deletion_prompt_once() {
    let mut fm = FileManager::new(s("/w"), vec![]);
    let mut t = ExplorerTable::new();
    assert!(t.get_message().is_none());
    assert_eq!(t.handle_key_event(Key::Char('x'), &mut fm).0, AppEvents::OpenConfirmationPopup);
    match t.get_message() {
        Some(Message::String(m)) => assert_eq!(text(&m), "The selected files will be deleted permanently, are you sure?"),
        other => panic!("unexpected message {:?}", other),
    }
    assert!(t.get_message().is_none());
}

#[test]
fn keys_below_the_top_popup_leave_lower_popups_alone() {
    let mut c = Controller::new(s("/w"), vec![file("a", 1)]);
    press(&mut c, Key::Char('n'));
    press(&mut c, Key::Down);
    press(&mut c, Key::Enter);
    type_text(&mut c, "q");
    match &c.popups()[0] {
        Popup::NewFile(p) => assert_eq!(p.selected(), 1),
        _ => panic!("new-file popup expected at the bottom"),
    }
    match &c.popups()[1] {
        Popup::TextField(t) => {
            assert_eq!(text(t.title()), "Folder");
            assert_eq!(text(t.text()), "q");
        },
        _ => panic!("text field expected on top"),
    }
    assert_eq!(c.explorer().selected(), 0);
}
