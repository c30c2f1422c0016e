use fexplorer::file_manager::{removal_for, Entry, EntryKind, FileManager, FsError, Removal, SortDir, Sorting};
use fexplorer::order::sort_entries;
use fexplorer::path::{base_name, join, parent};

fn s(x: &str) -> Vec<char> {
    x.chars().collect()
}

fn text(v: &[char]) -> String {
    v.iter().collect()
}

fn file(name: &str, size: u64) -> Entry {
    Entry { name: s(name), kind: EntryKind::File, size }
}

fn dir(name: &str) -> Entry {
    Entry { name: s(name), kind: EntryKind::Directory, size: 4096 }
}

fn names(fm: &FileManager) -> Vec<String> {
    fm.get_entries().iter().map(|e| text(&e.name)).collect()
}

fn names_of(v: &[Entry]) -> Vec<String> {
    v.iter().map(|e| text(&e.name)).collect()
}

const MODES: [Sorting; 5] = [
    Sorting::Unsorted,
    Sorting::SortedBySizeDescending,
    Sorting::SortedBySizeAscending,
    Sorting::SortedByNameDescending,
    Sorting::SortedByNameAscending,
];

fn mixed() -> Vec<Entry> {
    vec![file("m.txt", 5), dir("B"), file("b.txt", 5), file("a.txt", 9), dir("A"), file("c.txt", 1)]
}

#[test]
fn sorting_twice_gives_the_order_of_sorting_once() {
    for mode in MODES {
        for place in [SortDir::Unsorted, SortDir::Start, SortDir::End] {
            let mut fm = FileManager::new(s("/w"), mixed());
            while fm.dir_sorting() != place {
                fm.cycle_dir_placement();
            }
            fm.sort(mode);
            let once = names(&fm);
            fm.sort(mode);
            assert_eq!(names(&fm), once);
        }
    }
}

#[test]
fn sorting_by_size_keeps_ties_in_prior_order() {
    let mut v = mixed();
    sort_entries(Sorting::SortedBySizeDescending, &mut v);
    assert_eq!(names_of(&v), vec!["B", "A", "a.txt", "m.txt", "b.txt", "c.txt"]);
    let mut v = mixed();
    sort_entries(Sorting::SortedBySizeAscending, &mut v);
    assert_eq!(names_of(&v), vec!["c.txt", "m.txt", "b.txt", "a.txt", "B", "A"]);
}

#[test]
fn sorting_by_name_orders_by_characters() {
    let mut v = vec![file("b", 1), file("B", 1), file("ab", 1), file("a", 1), file("", 1)];
    sort_entries(Sorting::SortedByNameAscending, &mut v);
    assert_eq!(names_of(&v), vec!["", "B", "a", "ab", "b"]);
    sort_entries(Sorting::SortedByNameDescending, &mut v);
    assert_eq!(names_of(&v), vec!["b", "ab", "a", "B", ""]);
}

#[test]
fn unsorted_mode_keeps_listing_order() {
    let mut v = mixed();
    sort_entries(Sorting::Unsorted, &mut v);
    assert_eq!(names_of(&v), names_of(&mixed()));
}

#[test]
fn sorting_an_empty_listing_gives_nothing() {
    let mut v: Vec<Entry> = Vec::new();
    sort_entries(Sorting::SortedByNameAscending, &mut v);
    assert!(v.is_empty());
}

#[test]
fn placement_groups_directories_at_either_end() {
    let mut fm = FileManager::new(s("/w"), mixed());
    assert_eq!(fm.dir_sorting(), SortDir::Unsorted);
    fm.cycle_dir_placement();
    assert_eq!(fm.dir_sorting(), SortDir::Start);
    assert_eq!(names(&fm), vec!["B", "A", "m.txt", "b.txt", "a.txt", "c.txt"]);
    fm.cycle_dir_placement();
    assert_eq!(fm.dir_sorting(), SortDir::End);
    assert_eq!(names(&fm), vec!["m.txt", "b.txt", "a.txt", "c.txt", "B", "A"]);
    fm.cycle_dir_placement();
    assert_eq!(fm.dir_sorting(), SortDir::Unsorted);
}

#[test]
fn three_placement_cycles_with_refresh_restore_the_snapshot() {
    let mut fm = FileManager::new(s("/w"), mixed());
    fm.sort(Sorting::SortedByNameAscending);
    fm.update(mixed());
    let before = names(&fm);
    for _ in 0..3 {
        fm.cycle_dir_placement();
        fm.update(mixed());
    }
    assert_eq!(fm.dir_sorting(), SortDir::Unsorted);
    assert_eq!(names(&fm), before);
}

#[test]
fn end_to_end_sort_and_placement_scenario() {
    let listing = || vec![dir("B"), dir("A"), file("z.txt", 10), file("a.txt", 5)];
    let mut fm = FileManager::new(s("/w"), listing());
    fm.cycle_dir_placement();
    fm.sort(Sorting::SortedByNameAscending);
    assert_eq!(names(&fm), vec!["A", "B", "a.txt", "z.txt"]);
    fm.cycle_dir_placement();
    fm.sort(Sorting::SortedBySizeDescending);
    let got = names(&fm);
    assert_eq!(&got[..2], &["z.txt".to_string(), "a.txt".to_string()]);
    assert!(got[2..].contains(&"A".to_string()) && got[2..].contains(&"B".to_string()));
}

#[test]
fn hidden_entries_are_listed_only_when_shown() {
    let listing = || vec![file(".hidden", 1), file("seen", 1)];
    let mut fm = FileManager::new(s("/w"), listing());
    assert_eq!(names(&fm), vec!["seen"]);
    assert_eq!(fm.num_files(), 1);
    fm.toggle_hidden();
    fm.update(listing());
    assert_eq!(names(&fm), vec![".hidden", "seen"]);
}

#[test]
fn selection_survives_a_directory_change() {
    let mut fm = FileManager::new(s("/w"), vec![dir("sub")]);
    assert_eq!(fm.add_copy(s("./sub/file.txt")), Ok(()));
    fm.change_dir(s("/w/sub"), vec![file("file.txt", 3)]);
    assert_eq!(text(fm.cwd()), "/w/sub");
    fm.change_dir(s("/w"), vec![dir("sub")]);
    let sel: Vec<String> = fm.selection().iter().map(|p| text(p)).collect();
    assert_eq!(sel, vec!["/w/sub/file.txt"]);
}

#[test]
fn selecting_resolves_against_the_active_directory() {
    let mut fm = FileManager::new(s("/"), vec![]);
    assert_eq!(fm.add_copy(s("etc")), Ok(()));
    assert_eq!(fm.add_copy(s("/abs/x")), Ok(()));
    let sel: Vec<String> = fm.selection().iter().map(|p| text(p)).collect();
    assert_eq!(sel, vec!["/etc", "/abs/x"]);
    assert_eq!(fm.copy(s("one")), Ok(()));
    let sel: Vec<String> = fm.selection().iter().map(|p| text(p)).collect();
    assert_eq!(sel, vec!["/one"]);
    fm.clear_copy();
    assert!(fm.selection().is_empty());
}

#[test]
fn an_empty_path_cannot_be_selected() {
    let mut fm = FileManager::new(s("/w"), vec![]);
    fm.add_copy(s("kept")).unwrap();
    assert_eq!(fm.add_copy(Vec::new()), Err(FsError::Resolution));
    assert_eq!(fm.copy(Vec::new()), Err(FsError::Resolution));
    assert_eq!(fm.selection().len(), 1);
}

#[test]
fn entry_lookup_out_of_range_is_not_found() {
    let fm = FileManager::new(s("/w"), vec![file("a", 1)]);
    assert_eq!(text(&fm.get_entry_at_index(0).unwrap().name), "a");
    assert!(matches!(fm.get_entry_at_index(1), Err(FsError::NotFound)));
    assert_eq!(fm.entry_path(0).map(|p| text(&p)), Some("/w/a".to_string()));
    assert_eq!(fm.entry_path(1), None);
}

#[test]
fn removal_depends_on_the_kind() {
    assert_eq!(removal_for(EntryKind::Directory), Ok(Removal::Tree));
    assert_eq!(removal_for(EntryKind::File), Ok(Removal::Single));
    assert_eq!(removal_for(EntryKind::Symlink), Ok(Removal::Single));
    assert_eq!(removal_for(EntryKind::Unknown), Err(FsError::UnsupportedKind));
}

#[test]
fn paths_join_and_split() {
    assert_eq!(text(&join(&s("/a"), &s("b"))), "/a/b");
    assert_eq!(text(&join(&s("/"), &s("b"))), "/b");
    assert_eq!(text(&join(&s("/a"), &s("/c"))), "/c");
    assert_eq!(text(&parent(&s("/a/b"))), "/a");
    assert_eq!(text(&parent(&s("/a"))), "/");
    assert_eq!(text(&parent(&s("/"))), "/");
    assert_eq!(text(&base_name(&s("/a/b.txt"))), "b.txt");
    assert_eq!(text(&base_name(&s("plain"))), "plain");
}

#[test]
fn selecting_drops_empty_and_current_directory_components() {
    let mut fm = FileManager::new(s("/w"), vec![]);
    fm.add_copy(s(".//./a/b")).unwrap();
    fm.add_copy(s(".")).unwrap();
    fm.add_copy(s("./")).unwrap();
    fm.add_copy(s(".hidden")).unwrap();
    fm.add_copy(s("a/./b//c/")).unwrap();
    fm.add_copy(s("/abs//./x/.")).unwrap();
    fm.add_copy(s("a/../b")).unwrap();
    let sel: Vec<String> = fm.selection().iter().map(|p| text(p)).collect();
    assert_eq!(sel, vec!["/w/a/b", "/w", "/w", "/w/.hidden", "/w/a/b/c", "/abs/x", "/w/a/../b"]);
}
