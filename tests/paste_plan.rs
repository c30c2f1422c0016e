use fexplorer::file_manager::{EntryKind, FsError};
use fexplorer::paste::{paste_start, paste_target, PasteAction, PasteJob, PasteStart};

fn s(x: &str) -> Vec<char> {
    x.chars().collect()
}

fn text(v: &[char]) -> String {
    v.iter().collect()
}

#[test]
fn paste_job_walks_the_tree_with_a_work_list() {
    let mut job = PasteJob::new(&s("/src/tree"), &s("/w")).unwrap();
    assert_eq!(text(job.dest_root()), "/w/tree");
    let (d, rel) = job.next_dir().unwrap();
    assert_eq!(text(&d), "/src/tree");
    assert_eq!(text(&rel), "");
    match job.child(&rel, &s("sub"), EntryKind::Directory).unwrap() {
        PasteAction::CreateDir(p) => assert_eq!(text(&p), "/w/tree/sub"),
        other => panic!("unexpected action {:?}", other),
    }
    match job.child(&rel, &s("f.txt"), EntryKind::File).unwrap() {
        PasteAction::CopyFile(a, b) => {
            assert_eq!(text(&a), "/src/tree/f.txt");
            assert_eq!(text(&b), "/w/tree/f.txt");
        },
        other => panic!("unexpected action {:?}", other),
    }
    let (d, rel) = job.next_dir().unwrap();
    assert_eq!(text(&d), "/src/tree/sub");
    assert_eq!(text(&rel), "sub");
    match job.child(&rel, &s("ln"), EntryKind::Symlink).unwrap() {
        PasteAction::Link(a, b) => {
            assert_eq!(text(&a), "/src/tree/sub/ln");
            assert_eq!(text(&b), "/w/tree/sub/ln");
        },
        other => panic!("unexpected action {:?}", other),
    }
    assert!(matches!(job.child(&rel, &s("dev"), EntryKind::Unknown), Err(FsError::UnsupportedKind)));
    assert!(job.next_dir().is_none());
}

#[test]
fn pasted_file_lands_under_its_own_name() {
    assert_eq!(paste_target(&s("/a/b/c.txt"), &s("/w")).map(|p| text(&p)), Some("/w/c.txt".to_string()));
    assert_eq!(paste_target(&s("/a/b/c.txt"), &s("/")).map(|p| text(&p)), Some("/c.txt".to_string()));
}

#[derive(Clone, Debug, PartialEq)]
enum Node {
    Dir,
    File(Vec<u8>),
    Link(String),
}

type Tree = std::collections::BTreeMap<String, Node>;

fn children(tree: &Tree, dir: &str) -> Vec<(String, EntryKind)> {
    let prefix = format!("{}/", dir);
    tree.iter()
        .filter(|(p, _)| p.starts_with(&prefix) && !p[prefix.len()..].contains('/'))
        .map(|(p, n)| {
            let kind = match n {
                Node::Dir => EntryKind::Directory,
                Node::File(_) => EntryKind::File,
                Node::Link(_) => EntryKind::Symlink,
            };
            (p[prefix.len()..].to_string(), kind)
        })
        .collect()
}

#[test]
fn paste_round_trip_on_a_model_tree() {
    let mut tree = Tree::new();
    tree.insert("/src".into(), Node::Dir);
    tree.insert("/src/tree".into(), Node::Dir);
    tree.insert("/src/tree/a.txt".into(), Node::File(b"alpha".to_vec()));
    tree.insert("/src/tree/sub".into(), Node::Dir);
    tree.insert("/src/tree/sub/b.txt".into(), Node::File(b"beta".to_vec()));
    tree.insert("/src/tree/sub/deeper".into(), Node::Dir);
    tree.insert("/src/tree/sub/ln".into(), Node::Link("../a.txt".into()));
    tree.insert("/w".into(), Node::Dir);

    let mut job = PasteJob::new(&s("/src/tree"), &s("/w")).unwrap();
    tree.insert(text(job.dest_root()), Node::Dir);
    while let Some((dir, rel)) = job.next_dir() {
        for (name, kind) in children(&tree, &text(&dir)) {
            match job.child(&rel, &s(&name), kind).unwrap() {
                PasteAction::CreateDir(d) => {
                    assert!(tree.insert(text(&d), Node::Dir).is_none());
                },
                PasteAction::CopyFile(a, b) => {
                    let bytes = tree[&text(&a)].clone();
                    assert!(tree.insert(text(&b), bytes).is_none());
                },
                PasteAction::Link(a, b) => {
                    let target = tree[&text(&a)].clone();
                    assert!(tree.insert(text(&b), target).is_none());
                },
            }
        }
    }

    let original: Vec<(String, Node)> = tree
        .iter()
        .filter_map(|(p, n)| p.strip_prefix("/src/tree").map(|r| (r.to_string(), n.clone())))
        .collect();
    let copied: Vec<(String, Node)> = tree
        .iter()
        .filter_map(|(p, n)| p.strip_prefix("/w/tree").map(|r| (r.to_string(), n.clone())))
        .collect();
    assert_eq!(original.len(), 6);
    assert_eq!(copied, original);
    assert_eq!(tree["/w/tree/sub/ln"], Node::Link("../a.txt".into()));
}

#[test]
fn paste_start_chooses_by_kind() {
    match paste_start(&s("/a/f.txt"), EntryKind::File, &s("/w")) {
        Some(PasteStart::File(p)) => assert_eq!(text(&p), "/w/f.txt"),
        _ => panic!("file expected"),
    }
    match paste_start(&s("/a/d"), EntryKind::Directory, &s("/w")) {
        Some(PasteStart::Tree(job)) => assert_eq!(text(job.dest_root()), "/w/d"),
        _ => panic!("tree expected"),
    }
    assert!(matches!(paste_start(&s("/a/x"), EntryKind::Unknown, &s("/w")), Some(PasteStart::Skip)));
}
