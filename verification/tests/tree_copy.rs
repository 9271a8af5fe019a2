//! Copies of directories.
use fooocus_plugin::tree_copy::{
    copy_dir_all, CopyError, Failure, TreeAction, TreeCopy, TreeEntry, TreeEvent,
};

type Copy = TreeCopy<&'static str, &'static str, &'static str>;
type Event = TreeEvent<&'static str, &'static str>;

fn entry(name: &'static str, is_dir: bool) -> Event {
    TreeEvent::Entry(Ok(Some(TreeEntry { name, is_dir })))
}

fn end() -> Event {
    TreeEvent::Entry(Ok(None))
}

fn below(top: &str, path: &[&str]) -> String {
    path.iter().fold(top.to_string(), |place, name| format!("{}/{}", place, name))
}

/// Writes an operation down in a line.
fn say(copy: &Copy) -> String {
    match copy.action() {
        None => "end".to_string(),
        Some(TreeAction::MakeDir { top, path }) => format!("make {}", below(top, path)),
        Some(TreeAction::OpenDir { top, path }) => format!("open {}", below(top, path)),
        Some(TreeAction::NextEntry) => "next".to_string(),
        Some(TreeAction::Probe { top, path }) => format!("probe {}", below(top, path)),
        Some(TreeAction::CopyFile { from, to, path }) => {
            format!("copy {} to {}", below(from, path), below(to, path))
        }
    }
}

#[test]
fn missing_files_of_the_whole_tree_are_copied() {
    let events: Vec<Event> = vec![
        TreeEvent::Made(Ok(())),
        TreeEvent::Opened(Ok(())),
        entry("a", false),
        TreeEvent::Probed(false),
        TreeEvent::Copied(Ok(())),
        entry("sub", true),
        TreeEvent::Made(Ok(())),
        TreeEvent::Opened(Ok(())),
        entry("b", false),
        TreeEvent::Probed(true),
        entry("c", false),
        TreeEvent::Probed(false),
        TreeEvent::Copied(Ok(())),
        end(),
        entry("d", false),
        TreeEvent::Probed(false),
        TreeEvent::Copied(Ok(())),
        end(),
    ];
    let mut copy: Copy = copy_dir_all("/disk", "/memory");
    let mut said: Vec<String> = Vec::new();
    for event in events {
        said.push(say(&copy));
        copy = copy.step(event);
    }
    assert!(matches!(copy, TreeCopy::Done(Ok(()))));
    said.retain(|s| s != "next");
    assert_eq!(
        said,
        vec![
            "make /memory",
            "open /disk",
            "probe /memory/a",
            "copy /disk/a to /memory/a",
            "make /memory/sub",
            "open /disk/sub",
            "probe /memory/sub/b",
            "probe /memory/sub/c",
            "copy /disk/sub/c to /memory/sub/c",
            "probe /memory/d",
            "copy /disk/d to /memory/d",
        ]
    );
}

/// Copies a directory in which `entries` are read, next to the files in `held`, and notes the files
/// that are copied there. Gives the number of files that are copied and the directories that are
/// created.
fn copy_next_to(entries: Vec<Event>, held: &mut Vec<String>) -> (usize, Vec<String>) {
    let mut entries = entries.into_iter();
    let mut copies: usize = 0;
    let mut made: Vec<String> = Vec::new();
    let mut copy: Copy = copy_dir_all("/disk", "/memory");
    loop {
        let event: Event = match copy.action() {
            None => break,
            Some(TreeAction::MakeDir { top, path }) => {
                made.push(below(top, path));
                TreeEvent::Made(Ok(()))
            }
            Some(TreeAction::OpenDir { .. }) => TreeEvent::Opened(Ok(())),
            Some(TreeAction::NextEntry) => entries.next().unwrap(),
            Some(TreeAction::Probe { top, path }) => {
                TreeEvent::Probed(held.contains(&below(top, path)))
            }
            Some(TreeAction::CopyFile { to, path, .. }) => {
                copies += 1;
                held.push(below(to, path));
                TreeEvent::Copied(Ok(()))
            }
        };
        copy = copy.step(event);
    }
    assert!(matches!(copy, TreeCopy::Done(Ok(()))));
    (copies, made)
}

/// A file `a` and a directory `sub` with a file `b`, read in this order.
fn file_first() -> Vec<Event> {
    vec![entry("a", false), entry("sub", true), entry("b", false), end(), end()]
}

#[test]
fn second_copy_copies_nothing() {
    let mut held: Vec<String> = vec!["/memory/a".to_string()];
    let dirs: Vec<String> = vec!["/memory".to_string(), "/memory/sub".to_string()];
    assert_eq!(copy_next_to(file_first(), &mut held), (1, dirs.clone()));
    assert_eq!(held, vec!["/memory/a", "/memory/sub/b"]);
    assert_eq!(copy_next_to(file_first(), &mut held), (0, dirs));
}

#[test]
fn second_copy_in_another_order_copies_nothing() {
    let mut held: Vec<String> = vec![];
    let dirs: Vec<String> = vec!["/memory".to_string(), "/memory/sub".to_string()];
    assert_eq!(copy_next_to(file_first(), &mut held), (2, dirs.clone()));
    let dir_first: Vec<Event> =
        vec![entry("sub", true), entry("b", false), end(), entry("a", false), end()];
    assert_eq!(copy_next_to(dir_first, &mut held), (0, dirs.clone()));
    let without_a: Vec<Event> = vec![entry("sub", true), entry("b", false), end(), end()];
    assert_eq!(copy_next_to(without_a, &mut held), (0, dirs));
}

#[test]
fn empty_directory_is_created() {
    let copy: Copy = copy_dir_all("/disk", "/memory");
    assert_eq!(say(&copy), "make /memory");
    let copy: Copy = copy.step(TreeEvent::Made(Ok(())));
    let copy: Copy = copy.step(TreeEvent::Opened(Ok(())));
    assert_eq!(say(&copy), "next");
    assert!(matches!(copy.step(end()), TreeCopy::Done(Ok(()))));
}

#[test]
fn existing_file_is_not_overwritten() {
    let copy: Copy = copy_dir_all("/disk", "/memory");
    let copy: Copy = copy.step(TreeEvent::Made(Ok(())));
    let copy: Copy = copy.step(TreeEvent::Opened(Ok(())));
    let copy: Copy = copy.step(entry("a", false));
    assert_eq!(say(&copy), "probe /memory/a");
    let copy: Copy = copy.step(TreeEvent::Probed(true));
    assert_eq!(say(&copy), "next");
}

#[test]
fn failed_file_operations_are_reported_as_they_came() {
    let copy: Copy = copy_dir_all("/disk", "/memory");
    let copy: Copy = copy.step(TreeEvent::Made(Err("no room")));
    assert!(matches!(copy, TreeCopy::Done(Err(CopyError::Os("no room")))));
    let copy: Copy = copy_dir_all("/disk", "/memory");
    let copy: Copy = copy.step(TreeEvent::Made(Ok(())));
    let copy: Copy = copy.step(TreeEvent::Opened(Ok(())));
    let copy: Copy = copy.step(TreeEvent::Entry(Err("unreadable")));
    assert!(matches!(copy, TreeCopy::Done(Err(CopyError::Os("unreadable")))));
}

fn failure() -> Failure {
    Failure { place: "/disk/x".to_string(), cause: "Denied".to_string() }
}

#[test]
fn failure_to_open_is_described() {
    let copy: Copy = copy_dir_all("/disk", "/memory");
    let copy: Copy = copy.step(TreeEvent::Made(Ok(())));
    match copy.step(TreeEvent::Opened(Err(failure()))) {
        TreeCopy::Done(Err(CopyError::Other(text))) => {
            assert_eq!(text, "failed to open /disk/x, error: Denied")
        }
        _ => panic!("not reported"),
    }
}

#[test]
fn failure_to_copy_is_described() {
    let copy: Copy = copy_dir_all("/disk", "/memory");
    let copy: Copy = copy.step(TreeEvent::Made(Ok(())));
    let copy: Copy = copy.step(TreeEvent::Opened(Ok(())));
    let copy: Copy = copy.step(entry("x", false));
    let copy: Copy = copy.step(TreeEvent::Probed(false));
    match copy.step(TreeEvent::Copied(Err(failure()))) {
        TreeCopy::Done(Err(CopyError::Other(text))) => {
            assert_eq!(text, "copy file /disk/x error: Denied")
        }
        _ => panic!("not reported"),
    }
}

#[test]
fn unexpected_event_changes_no_copy() {
    let copy: Copy = copy_dir_all("/disk", "/memory");
    let copy: Copy = copy.step(TreeEvent::Probed(false));
    assert_eq!(say(&copy), "make /memory");
}
