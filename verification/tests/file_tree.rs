use makepad_core::file_client::{
    starts_recompile, FileClientAction, FileError, FileResponse, FileSystemEffect,
};
use makepad_core::file_system::{FileNodeId, FileSystem, LiveId, UnixPathBuf};
use makepad_core::file_tree::{
    checked_node_count, DirectoryEntry, FileNodeData, FileTree, FileTreeData, FileTreeRow,
    ROOT_NODE_ID,
};

fn path(components: &[&str]) -> UnixPathBuf {
    UnixPathBuf { components: components.iter().map(|c| c.to_string()).collect() }
}

fn file(name: &str) -> DirectoryEntry {
    DirectoryEntry { name: name.to_string(), node: FileNodeData::File { data: None } }
}

fn dir(name: &str, entries: Vec<DirectoryEntry>) -> DirectoryEntry {
    DirectoryEntry { name: name.to_string(), node: FileNodeData::Directory { entries } }
}

/// root / { src / { lib.rs, main.rs }, empty / {}, readme }
fn tree_data() -> FileTreeData {
    FileTreeData {
        root_path: path(&["work"]),
        root: FileNodeData::Directory {
            entries: vec![
                dir("src", vec![file("lib.rs"), file("main.rs")]),
                dir("empty", vec![]),
                file("readme"),
            ],
        },
    }
}

fn child_ids(fs: &FileSystem, id: u64) -> Vec<(String, u64)> {
    fs.file_nodes[&id]
        .child_edges
        .as_ref()
        .unwrap()
        .iter()
        .map(|e| (e.name.clone(), e.file_node_id.0))
        .collect()
}

#[test]
fn loaded_tree_is_numbered_directory_first() {
    let mut fs = FileSystem::new();
    fs.load_file_tree(tree_data());
    assert_eq!(ROOT_NODE_ID, 0);
    assert_eq!(fs.file_nodes.len(), 6);
    assert_eq!(fs.next_node_id, 6);
    assert!(fs.root_path.same_as(&path(&["work"])));
    assert_eq!(fs.file_node_name(FileNodeId(0)), "root");
    assert!(fs.file_nodes[&0].parent_edge.is_none());
    assert_eq!(
        child_ids(&fs, 0),
        vec![("src".to_string(), 1), ("empty".to_string(), 4), ("readme".to_string(), 5)]
    );
    assert_eq!(child_ids(&fs, 1), vec![("lib.rs".to_string(), 2), ("main.rs".to_string(), 3)]);
    assert_eq!(child_ids(&fs, 4), vec![]);
    assert!(fs.file_nodes[&5].is_file());
    assert!(!fs.file_nodes[&4].is_file());
    assert_eq!(fs.file_node_name(FileNodeId(3)), "main.rs");
    let parent = fs.file_nodes[&3].parent_edge.as_ref().unwrap();
    assert_eq!(parent.name, "main.rs");
    assert_eq!(parent.file_node_id, FileNodeId(1));
    let p = fs.file_node_path(FileNodeId(3));
    assert!(p.same_as(&path(&["work", "src", "main.rs"])));
}

#[test]
fn loading_again_replaces_the_tree_and_takes_new_ids() {
    let mut fs = FileSystem::new();
    fs.load_file_tree(tree_data());
    fs.load_file_tree(FileTreeData {
        root_path: path(&["other"]),
        root: FileNodeData::Directory { entries: vec![file("a")] },
    });
    assert_eq!(fs.file_nodes.len(), 2);
    assert_eq!(child_ids(&fs, 0), vec![("a".to_string(), 6)]);
    assert_eq!(fs.next_node_id, 7);
    fs.load_file_tree(FileTreeData { root_path: path(&[]), root: FileNodeData::File { data: None } });
    assert_eq!(fs.file_nodes.len(), 1);
    assert!(fs.file_nodes[&0].is_file());
    assert_eq!(fs.next_node_id, 7);
}

#[test]
fn closed_folders_hide_their_entries() {
    let mut fs = FileSystem::new();
    fs.load_file_tree(tree_data());
    let mut tree = FileTree::new();
    fs.draw_file_node(FileNodeId(0), &mut tree);
    assert_eq!(
        tree.rows,
        vec![FileTreeRow::Folder { depth: 0, file_node_id: FileNodeId(0), is_open: false }]
    );
    let mut tree = FileTree::new();
    tree.open_nodes.insert(0);
    tree.open_nodes.insert(1);
    fs.draw_file_node(FileNodeId(0), &mut tree);
    assert_eq!(
        tree.rows,
        vec![
            FileTreeRow::Folder { depth: 0, file_node_id: FileNodeId(0), is_open: true },
            FileTreeRow::Folder { depth: 1, file_node_id: FileNodeId(1), is_open: true },
            FileTreeRow::File { depth: 2, file_node_id: FileNodeId(2) },
            FileTreeRow::File { depth: 2, file_node_id: FileNodeId(3) },
            FileTreeRow::Folder { depth: 1, file_node_id: FileNodeId(4), is_open: false },
            FileTreeRow::File { depth: 1, file_node_id: FileNodeId(5) },
        ]
    );
    assert_eq!(tree.depth, 0);
    // a node that does not exist draws nothing
    fs.draw_file_node(FileNodeId(77), &mut tree);
    assert_eq!(tree.rows.len(), 6);
    fs.draw_file_node(FileNodeId(5), &mut tree);
    assert_eq!(tree.rows[6], FileTreeRow::File { depth: 0, file_node_id: FileNodeId(5) });
}

#[test]
fn file_tree_rows() {
    let mut tree = FileTree::new();
    tree.open_nodes.insert(3);
    assert_eq!(tree.begin_folder(FileNodeId(3)), Ok(()));
    tree.file(FileNodeId(4));
    assert_eq!(tree.begin_folder(FileNodeId(5)), Err(()));
    tree.end_folder();
    tree.file(FileNodeId(6));
    assert_eq!(
        tree.rows,
        vec![
            FileTreeRow::Folder { depth: 0, file_node_id: FileNodeId(3), is_open: true },
            FileTreeRow::File { depth: 1, file_node_id: FileNodeId(4) },
            FileTreeRow::Folder { depth: 1, file_node_id: FileNodeId(5), is_open: false },
            FileTreeRow::File { depth: 0, file_node_id: FileNodeId(6) },
        ]
    );
}

#[test]
fn answer_with_a_tree_loads_it() {
    let mut fs = FileSystem::new();
    let effects =
        fs.handle_event(FileClientAction::Response(FileResponse::LoadFileTree(Ok(tree_data()))));
    assert_eq!(effects, vec![FileSystemEffect::RedrawFileTree]);
    assert_eq!(fs.file_nodes.len(), 6);
}

#[test]
fn answer_with_a_file_keeps_its_text() {
    let mut fs = FileSystem::new();
    let p = path(&["work", "readme"]);
    fs.request_open_file(LiveId(1), path(&["work", "other"]));
    fs.request_open_file(LiveId(2), p.clone());
    assert!(fs.get_session_mut(LiveId(2)).is_none());
    let effects = fs.handle_event(FileClientAction::Response(FileResponse::OpenFile(Ok((
        p.clone(),
        "text".to_string(),
    )))));
    assert_eq!(effects, vec![FileSystemEffect::RedrawTab(LiveId(2)), FileSystemEffect::RedrawUi]);
    assert_eq!(fs.open_documents.len(), 2);
    assert!(fs.open_documents[0].document.is_none());
    assert_eq!(fs.open_documents[1].document.as_ref().unwrap().text, "text");
    // a file that was never asked for is kept as well
    let q = path(&["work", "new"]);
    fs.handle_event(FileClientAction::Response(FileResponse::OpenFile(Ok((
        q.clone(),
        "new text".to_string(),
    )))));
    assert_eq!(fs.open_documents.len(), 3);
    assert!(fs.open_documents[2].path.same_as(&q));
    // the session of the tab exists from now on
    assert!(fs.tab_id_to_session.is_empty());
    let session = fs.get_session_mut(LiveId(2)).unwrap();
    assert!(session.path.same_as(&p));
    session.path = path(&["changed"]);
    assert_eq!(fs.tab_id_to_session.len(), 1);
    assert!(fs.get_session_mut(LiveId(2)).unwrap().path.same_as(&path(&["changed"])));
    assert!(fs.get_session_mut(LiveId(1)).is_none());
    assert!(fs.get_session_mut(LiveId(3)).is_none());
}

#[test]
fn answers_with_errors_and_notifications() {
    let mut fs = FileSystem::new();
    let cannot = FileResponse::OpenFile(Err(FileError::CannotOpen(path(&["x"]))));
    assert_eq!(fs.handle_event(FileClientAction::Response(cannot)), vec![]);
    let unknown = FileResponse::OpenFile(Err(FileError::Unknown("why".to_string())));
    assert_eq!(
        fs.handle_event(FileClientAction::Response(unknown)),
        vec![FileSystemEffect::LogUnknownError]
    );
    let failed = FileResponse::SaveFile(Err(FileError::Unknown("why".to_string())));
    assert_eq!(fs.handle_event(FileClientAction::Response(failed)), vec![]);
    assert_eq!(fs.handle_event(FileClientAction::Notification), vec![]);
    assert!(fs.open_documents.is_empty());
}

#[test]
fn a_late_first_change_starts_a_rebuild() {
    let head = "a".repeat(10300);
    let old_text = format!("{}xyz", head);
    // first change at byte 10300: not far enough
    assert!(!starts_recompile(&old_text, &format!("{}Xyz", head)));
    // first change at byte 10301
    assert!(starts_recompile(&old_text, &format!("{}xYz", head)));
    // an early change as well as a late one
    assert!(!starts_recompile(&old_text, &format!("b{}xyZ", &head[1..])));
    // no change within the shorter text
    assert!(!starts_recompile(&old_text, &format!("{}xyz and more", head)));
    assert!(!starts_recompile(&old_text, &old_text));
    assert!(!starts_recompile("", "abc"));
    let mut fs = FileSystem::new();
    let saved = FileResponse::SaveFile(Ok((path(&["f"]), old_text.clone(), format!("{}xyZ", head))));
    assert_eq!(
        fs.handle_event(FileClientAction::Response(saved)),
        vec![FileSystemEffect::StartRecompileTimer]
    );
    let saved = FileResponse::SaveFile(Ok((path(&["f"]), old_text.clone(), "b".to_string())));
    assert_eq!(fs.handle_event(FileClientAction::Response(saved)), vec![]);
}

#[test]
fn every_tab_on_an_opened_file_is_redrawn() {
    let mut fs = FileSystem::new();
    let p = path(&["work", "readme"]);
    fs.request_open_file(LiveId(5), p.clone());
    fs.request_open_file(LiveId(9), path(&["work", "other"]));
    fs.request_open_file(LiveId(7), p.clone());
    let mut tabs = fs.tabs_showing(&p);
    tabs.sort_by_key(|t| t.0);
    assert_eq!(tabs, vec![LiveId(5), LiveId(7)]);
    assert!(fs.tabs_showing(&path(&["nowhere"])).is_empty());
    let effects = fs.handle_event(FileClientAction::Response(FileResponse::OpenFile(Ok((
        p.clone(),
        "text".to_string(),
    )))));
    assert_eq!(effects.len(), 3);
    assert_eq!(effects[2], FileSystemEffect::RedrawUi);
    assert!(effects.contains(&FileSystemEffect::RedrawTab(LiveId(5))));
    assert!(effects.contains(&FileSystemEffect::RedrawTab(LiveId(7))));
    // a file that no tab shows
    let effects = fs.handle_event(FileClientAction::Response(FileResponse::OpenFile(Ok((
        path(&["nowhere"]),
        "text".to_string(),
    )))));
    assert_eq!(effects, vec![FileSystemEffect::RedrawUi]);
}

#[test]
fn trees_are_checked() {
    let data = tree_data();
    assert_eq!(checked_node_count(&data.root), Some(6));
    assert_eq!(checked_node_count(&FileNodeData::File { data: None }), Some(1));
    let mut fs = FileSystem::new();
    assert!(fs.can_load(&data));
    fs.next_node_id = u64::MAX - 5;
    assert!(fs.can_load(&data));
    fs.next_node_id = u64::MAX - 4;
    assert!(!fs.can_load(&data));
    fs.next_node_id = 0;
    assert!(!fs.can_load(&data));
    fs.next_node_id = 1;
    fs.load_file_tree(data);
    assert!(fs.subtree_is_ok(FileNodeId(0)));
    assert!(fs.subtree_is_ok(FileNodeId(99)));
    assert!(fs.parent_chain_is_finite(FileNodeId(3)));
    assert!(!fs.parent_chain_is_finite(FileNodeId(99)));
    // an entry that leads back to the root
    fs.file_nodes.get_mut(&4).unwrap().child_edges.as_mut().unwrap().push(
        makepad_core::file_system::FileEdge { name: "up".to_string(), file_node_id: FileNodeId(0) },
    );
    assert!(!fs.subtree_is_ok(FileNodeId(0)));
    assert!(fs.subtree_is_ok(FileNodeId(1)));
    // a parent edge that leads to a node itself
    fs.file_nodes.get_mut(&2).unwrap().parent_edge.as_mut().unwrap().file_node_id = FileNodeId(2);
    assert!(!fs.parent_chain_is_finite(FileNodeId(2)));
    assert!(fs.parent_chain_is_finite(FileNodeId(3)));
}
