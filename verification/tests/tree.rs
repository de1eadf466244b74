use rclamp::paths::PathStyle;
use rclamp::failure::IoFailure;
use rclamp::tasks::{DirItem, TaskNodeMetadata, TaskTreeNode};
use rclamp::tree_walk::{DirSnapshot, SnapshotEntry, TaskPredicate, WalkStep};

const POSIX: PathStyle = PathStyle::Posix;

fn task_with(entries: Vec<SnapshotEntry>) -> DirSnapshot {
    DirSnapshot { has_marker: true, listing: Ok(entries) }
}

fn task() -> DirSnapshot {
    task_with(vec![])
}

fn folder(entries: Vec<SnapshotEntry>) -> DirSnapshot {
    DirSnapshot { has_marker: false, listing: Ok(entries) }
}

fn unreadable(e: &IoFailure) -> DirSnapshot {
    DirSnapshot { has_marker: false, listing: Err(e.clone()) }
}

fn dir(path: &str, below: DirSnapshot) -> SnapshotEntry {
    SnapshotEntry {
        item: DirItem { path: String::from(path), is_file: false, is_dir: true },
        below,
    }
}

fn plain_file(path: &str) -> SnapshotEntry {
    SnapshotEntry {
        item: DirItem { path: String::from(path), is_file: true, is_dir: false },
        below: unreadable(&IoFailure::new("not a directory")),
    }
}

fn node(name: &str, path: &str, is_task: bool, children: Vec<TaskTreeNode>) -> TaskTreeNode {
    TaskTreeNode {
        name: String::from(name),
        path: String::from(path),
        metadata: TaskNodeMetadata {
            is_task,
            work_dir_name: String::from("01_work"),
            output_dir_name: String::from("02_output"),
        },
        children,
    }
}

/// Looks up the snapshot of the directory at `path` beneath `root_path`.
fn lookup<'a>(root_path: &str, root: &'a DirSnapshot, path: &str) -> Option<&'a DirSnapshot> {
    if path == root_path {
        return Some(root);
    }
    if let Ok(entries) = &root.listing {
        for e in entries {
            if let Some(found) = lookup(&e.item.path, &e.below, path) {
                return Some(found);
            }
        }
    }
    None
}

/// Answers a walk question by question from a snapshot, as a caller with a
/// disk would, and counts the questions.
fn drive(
    predicate: TaskPredicate,
    root_path: &str,
    root: &DirSnapshot,
) -> (Result<TaskTreeNode, IoFailure>, usize) {
    let mut asked = 0;
    let mut step =
        TaskTreeNode::from_path_by(predicate, String::from(root_path), "01_work", "02_output", POSIX);
    loop {
        step = match step {
            WalkStep::Marker(q) => {
                asked += 1;
                let marker = q.path();
                let dir = marker.strip_suffix("/task.yaml").unwrap();
                let found = lookup(root_path, root, dir).map(|s| s.has_marker).unwrap_or(false);
                q.answer(found)
            }
            WalkStep::Listing(q) => {
                asked += 1;
                let listing = match lookup(root_path, root, &q.path()) {
                    Some(s) => match &s.listing {
                        Ok(entries) => Ok(entries.iter().map(|e| Ok(e.item.clone())).collect()),
                        Err(e) => Err(e.clone()),
                    },
                    None => Err(IoFailure::new("not found")),
                };
                q.answer(listing)
            }
            WalkStep::Done(r) => return (r, asked),
        }
    }
}

fn build(root_path: &str, root: &DirSnapshot) -> Result<TaskTreeNode, IoFailure> {
    let from_snapshot =
        TaskTreeNode::from_snapshot(String::from(root_path), "01_work", "02_output", root, POSIX);
    let (walked, _) = drive(TaskPredicate::MarkerFile, root_path, root);
    assert_eq!(from_snapshot, walked);
    walked
}

fn build_by_pair(root_path: &str, root: &DirSnapshot) -> Result<TaskTreeNode, IoFailure> {
    let from_snapshot = TaskTreeNode::from_snapshot_by(
        TaskPredicate::DirectoryPair,
        String::from(root_path),
        "01_work",
        "02_output",
        root,
        POSIX,
    );
    let (walked, _) = drive(TaskPredicate::DirectoryPair, root_path, root);
    assert_eq!(from_snapshot, walked);
    walked
}

#[test]
fn a_directory_with_the_marker_is_a_leaf() {
    let tree = build("/p/work/comp", &task()).unwrap();
    assert_eq!(tree, node("comp", "/p/work/comp", true, vec![]));
}

#[test]
fn a_task_with_subdirectories_is_still_a_leaf() {
    let snapshot = task_with(vec![
        dir("/p/work/comp/01_work", folder(vec![])),
        dir("/p/work/comp/02_output", folder(vec![dir("/p/work/comp/02_output/v1", task())])),
        dir("/p/work/comp/locked", unreadable(&IoFailure::new("permission denied"))),
        plain_file("/p/work/comp/task.yaml"),
    ]);
    let tree = build("/p/work/comp", &snapshot).unwrap();
    assert_eq!(tree, node("comp", "/p/work/comp", true, vec![]));
    assert_eq!(tree.children.len(), 0);
}

#[test]
fn a_task_is_never_looked_into() {
    let snapshot = task_with(vec![dir("/p/work/comp/01_work", folder(vec![]))]);
    let (tree, asked) = drive(TaskPredicate::MarkerFile, "/p/work/comp", &snapshot);
    assert_eq!(asked, 1);
    let tree = tree.unwrap();
    assert!(tree.metadata.is_task);
    assert!(tree.children.is_empty());
    let unlistable = DirSnapshot { has_marker: true, listing: Err(IoFailure::new("denied")) };
    assert_eq!(build("/t", &unlistable), Ok(node("t", "/t", true, vec![])));
}

#[test]
fn a_walk_begins_by_asking_for_the_marker_of_the_root() {
    let q = TaskTreeNode::from_path(String::from("/p/work"), "01_work", "02_output", POSIX);
    assert_eq!(q.path(), "/p/work/task.yaml");
    match q.answer(false) {
        WalkStep::Listing(l) => assert_eq!(l.path(), "/p/work"),
        _ => panic!("the walk must ask for the entries of the root"),
    }
}

#[test]
fn an_empty_folder_has_no_children() {
    let tree = build("/p/work", &folder(vec![])).unwrap();
    assert_eq!(tree, node("work", "/p/work", false, vec![]));
}

#[test]
fn three_subdirectories_give_three_children() {
    let snapshot = folder(vec![
        dir("/p/work/comp", task()),
        dir("/p/work/seq010", folder(vec![dir("/p/work/seq010/anim", task())])),
        dir("/p/work/light", task()),
    ]);
    let tree = build("/p/work", &snapshot).unwrap();
    assert_eq!(tree.children.len(), 3);
    assert_eq!(
        tree,
        node(
            "work",
            "/p/work",
            false,
            vec![
                node("comp", "/p/work/comp", true, vec![]),
                node(
                    "seq010",
                    "/p/work/seq010",
                    false,
                    vec![node("anim", "/p/work/seq010/anim", true, vec![])]
                ),
                node("light", "/p/work/light", true, vec![]),
            ]
        )
    );
}

#[test]
fn children_keep_the_order_of_the_listing() {
    let snapshot = folder(vec![
        dir("/w/zebra", task()),
        dir("/w/alpha", folder(vec![])),
        dir("/w/middle", task()),
    ]);
    let tree = build("/w", &snapshot).unwrap();
    let names: Vec<&str> = tree.children.iter().map(|c| c.name.as_str()).collect();
    assert_eq!(names, vec!["zebra", "alpha", "middle"]);
}

#[test]
fn regular_files_are_passed_over() {
    let snapshot = folder(vec![
        plain_file("/w/notes.txt"),
        dir("/w/comp", task()),
        plain_file("/w/readme"),
    ]);
    let tree = build("/w", &snapshot).unwrap();
    assert_eq!(tree, node("w", "/w", false, vec![node("comp", "/w/comp", true, vec![])]));
    let only_files = folder(vec![plain_file("/w/a"), plain_file("/w/b")]);
    assert_eq!(build("/w", &only_files).unwrap(), node("w", "/w", false, vec![]));
}

#[test]
fn an_entry_that_is_neither_file_nor_directory_is_passed_over() {
    let dangling = || SnapshotEntry {
        item: DirItem { path: String::from("/w/dangling"), is_file: false, is_dir: false },
        below: unreadable(&IoFailure::new("no such file")),
    };
    let alone = folder(vec![dangling()]);
    assert_eq!(build("/w", &alone), Ok(node("w", "/w", false, vec![])));
    let (_, asked) = drive(TaskPredicate::MarkerFile, "/w", &alone);
    assert_eq!(asked, 2);
    let among = folder(vec![dir("/w/a", task()), dangling(), dir("/w/b", folder(vec![]))]);
    assert_eq!(
        build("/w", &among),
        Ok(node(
            "w",
            "/w",
            false,
            vec![node("a", "/w/a", true, vec![]), node("b", "/w/b", false, vec![])]
        ))
    );
}

#[test]
fn an_entry_that_could_not_be_read_fails_the_tree() {
    let q = TaskTreeNode::from_path(String::from("/w"), "01_work", "02_output", POSIX);
    let lq = match q.answer(false) {
        WalkStep::Listing(lq) => lq,
        _ => panic!("the walk must ask for the entries of the root"),
    };
    let e = IoFailure::new("stale handle");
    let listing = vec![
        Ok(DirItem { path: String::from("/w/a"), is_file: false, is_dir: true }),
        Err(e.clone()),
        Err(IoFailure::new("later")),
    ];
    match lq.answer(Ok(listing)) {
        WalkStep::Done(r) => assert_eq!(r, Err(e)),
        _ => panic!("the walk must end"),
    }
}

#[test]
fn nodes_are_named_by_the_separators_of_the_system() {
    let snapshot = folder(vec![dir("C:\\p\\work\\comp", task())]);
    let tree = TaskTreeNode::from_snapshot(
        String::from("C:\\p\\work"),
        "01_work",
        "02_output",
        &snapshot,
        PathStyle::Windows,
    )
    .unwrap();
    assert_eq!(tree.name, "work");
    assert_eq!(tree.children[0].name, "comp");
    let q = TaskTreeNode::from_path(String::from("C:\\p\\work"), "a", "b", PathStyle::Windows);
    assert_eq!(q.path(), "C:\\p\\work\\task.yaml");
    let posix = TaskTreeNode::from_snapshot(
        String::from("C:\\p\\work"),
        "01_work",
        "02_output",
        &task(),
        POSIX,
    );
    assert_eq!(posix.unwrap().name, "C:\\p\\work");
}

#[test]
fn an_unreadable_root_fails() {
    let e = IoFailure::new("permission denied");
    assert_eq!(build("/w", &unreadable(&e)), Err(e));
}

#[test]
fn one_unreadable_child_fails_the_whole_tree() {
    let e = IoFailure::new("permission denied");
    let snapshot = folder(vec![
        dir("/w/comp", task()),
        dir(
            "/w/seq",
            folder(vec![
                dir("/w/seq/a", task()),
                dir("/w/seq/locked", unreadable(&e)),
                dir("/w/seq/b", task()),
            ]),
        ),
        dir("/w/light", task()),
    ]);
    assert_eq!(build("/w", &snapshot), Err(e));
}

#[test]
fn a_failure_ends_the_walk_at_once() {
    let e = IoFailure::new("permission denied");
    let snapshot = folder(vec![dir("/w/locked", unreadable(&e)), dir("/w/comp", task())]);
    let (r, asked) = drive(TaskPredicate::MarkerFile, "/w", &snapshot);
    assert_eq!(r, Err(e));
    assert_eq!(asked, 4);
}

#[test]
fn the_first_failure_is_the_one_reported() {
    let first = IoFailure::new("first");
    let second = IoFailure::new("second");
    let snapshot = folder(vec![dir("/w/a", unreadable(&first)), dir("/w/b", unreadable(&second))]);
    assert_eq!(build("/w", &snapshot), Err(first));
}

#[test]
fn deep_nesting_is_followed_to_the_leaves() {
    let mut snapshot = task();
    let mut expected = node("d", "/r/d/d/d/d/d/d", true, vec![]);
    let mut path = String::from("/r/d/d/d/d/d/d");
    for _ in 0..6 {
        snapshot = folder(vec![dir(&path, snapshot)]);
        path.truncate(path.len() - 2);
        let name = if path == "/r" { "r" } else { "d" };
        expected = node(name, &path, false, vec![expected]);
    }
    assert_eq!(build("/r", &snapshot), Ok(expected));
}

#[test]
fn the_root_is_named_after_the_final_component_of_its_path() {
    assert_eq!(build("work", &task()).unwrap().name, "work");
    assert_eq!(build("/a/b.c", &task()).unwrap().name, "b.c");
    let unnamed = TaskTreeNode::from_snapshot(String::new(), "01_work", "02_output", &task(), POSIX);
    assert_eq!(unnamed.unwrap().name, "");
    assert_eq!(TaskTreeNode::from_path(String::new(), "a", "b", POSIX).path(), "task.yaml");
}

#[test]
fn the_pair_of_directories_makes_a_task_where_it_is_asked_for() {
    let comp = folder(vec![
        dir("/w/comp/01_work", folder(vec![])),
        plain_file("/w/comp/notes.txt"),
        dir("/w/comp/02_output", folder(vec![])),
    ]);
    let snapshot = folder(vec![dir("/w/comp", comp), dir("/w/seq", folder(vec![]))]);
    assert_eq!(
        build_by_pair("/w", &snapshot),
        Ok(node(
            "w",
            "/w",
            false,
            vec![node("comp", "/w/comp", true, vec![]), node("seq", "/w/seq", false, vec![])]
        ))
    );
}

#[test]
fn the_two_ways_to_tell_a_task_are_never_mixed() {
    let pair = || {
        folder(vec![dir("/w/a/01_work", folder(vec![])), dir("/w/a/02_output", folder(vec![]))])
    };
    let snapshot = folder(vec![dir("/w/a", pair()), dir("/w/b", task())]);
    let by_marker = build("/w", &snapshot).unwrap();
    assert!(!by_marker.children[0].metadata.is_task);
    assert_eq!(by_marker.children[0].children.len(), 2);
    assert!(by_marker.children[1].metadata.is_task);
    let by_pair = build_by_pair("/w", &snapshot).unwrap();
    assert!(by_pair.children[0].metadata.is_task);
    assert!(by_pair.children[0].children.is_empty());
    assert!(!by_pair.children[1].metadata.is_task);
}

#[test]
fn the_pair_must_be_complete_and_made_of_directories() {
    let only_work = folder(vec![dir("/t/01_work", folder(vec![]))]);
    assert!(!build_by_pair("/t", &only_work).unwrap().metadata.is_task);
    let files = folder(vec![plain_file("/t/01_work"), plain_file("/t/02_output")]);
    assert_eq!(build_by_pair("/t", &files), Ok(node("t", "/t", false, vec![])));
    let both = folder(vec![
        dir("/t/02_output", folder(vec![])),
        dir("/t/01_work", unreadable(&IoFailure::new("never read"))),
    ]);
    assert_eq!(build_by_pair("/t", &both), Ok(node("t", "/t", true, vec![])));
}

#[test]
fn by_the_pair_a_walk_asks_for_entries_only() {
    let snapshot = folder(vec![dir("/w/a", folder(vec![]))]);
    let (r, asked) = drive(TaskPredicate::DirectoryPair, "/w", &snapshot);
    assert_eq!(asked, 2);
    assert_eq!(r, Ok(node("w", "/w", false, vec![node("a", "/w/a", false, vec![])])));
    let e = IoFailure::new("denied");
    assert_eq!(build_by_pair("/w", &unreadable(&e)), Err(e));
}

#[test]
fn task_node_new_is_a_folder_without_children() {
    let n = TaskTreeNode::new(String::from("comp"), String::from("/w/comp"), "01_work", "02_output");
    assert_eq!(n, node("comp", "/w/comp", false, vec![]));
    assert_eq!(n.clone(), n);
}

#[test]
fn clone_copies_the_whole_tree() {
    let tree = node(
        "w",
        "/w",
        false,
        vec![
            node("a", "/w/a", true, vec![]),
            node("b", "/w/b", false, vec![node("c", "/w/b/c", true, vec![])]),
        ],
    );
    assert_eq!(tree.clone(), tree);
}
