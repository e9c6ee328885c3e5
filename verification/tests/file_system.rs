use makepad_core::file_system::{
    FileEdge, FileNode, FileNodeId, FileRequest, FileSystem, LiveId, UnixPathBuf,
};

fn path(components: &[&str]) -> UnixPathBuf {
    UnixPathBuf { components: components.iter().map(|c| c.to_string()).collect() }
}

fn names(path: &UnixPathBuf) -> Vec<&str> {
    path.components.iter().map(|c| c.as_str()).collect()
}

fn edge(name: &str, id: u64) -> FileEdge {
    FileEdge { name: name.to_string(), file_node_id: FileNodeId(id) }
}

/// root(1) / src(2) / lib.rs(3), root / readme(4)
fn tree() -> FileSystem {
    let mut fs = FileSystem::new();
    fs.root_path = path(&["home", "project"]);
    fs.file_nodes.insert(
        1,
        FileNode {
            parent_edge: None,
            name: "root".to_string(),
            child_edges: Some(vec![edge("src", 2), edge("readme", 4)]),
        },
    );
    fs.file_nodes.insert(
        2,
        FileNode {
            parent_edge: Some(edge("src", 1)),
            name: "src".to_string(),
            child_edges: Some(vec![edge("lib.rs", 3)]),
        },
    );
    fs.file_nodes.insert(
        3,
        FileNode { parent_edge: Some(edge("lib.rs", 2)), name: "lib.rs".to_string(), child_edges: None },
    );
    fs.file_nodes.insert(
        4,
        FileNode { parent_edge: Some(edge("readme", 1)), name: "readme".to_string(), child_edges: None },
    );
    fs
}

#[test]
fn a_node_without_entries_is_a_file() {
    let fs = tree();
    assert!(fs.file_nodes[&3].is_file());
    assert!(!fs.file_nodes[&1].is_file());
    let empty_dir = FileNode { parent_edge: None, name: String::new(), child_edges: Some(vec![]) };
    assert!(!empty_dir.is_file());
}

#[test]
fn node_names() {
    let fs = tree();
    assert_eq!(fs.file_node_name(FileNodeId(1)), "root");
    assert_eq!(fs.file_node_name(FileNodeId(3)), "lib.rs");
}

#[test]
fn node_paths_start_at_the_root_path() {
    let fs = tree();
    assert_eq!(names(&fs.file_node_path(FileNodeId(3))), vec!["home", "project", "src", "lib.rs"]);
    assert_eq!(names(&fs.file_node_path(FileNodeId(4))), vec!["home", "project", "readme"]);
    assert_eq!(names(&fs.file_node_path(FileNodeId(1))), vec!["home", "project"]);
}

#[test]
fn joined_components_come_in_reverse() {
    let fs = tree();
    let components = vec!["c".to_string(), "b".to_string(), "a".to_string()];
    assert_eq!(names(&fs._file_path_join(&components)), vec!["home", "project", "a", "b", "c"]);
    assert_eq!(names(&fs._file_path_join(&Vec::new())), vec!["home", "project"]);
}

#[test]
fn paths_compare_by_components() {
    assert!(path(&["a", "b"]).same_as(&path(&["a", "b"])));
    assert!(!path(&["a", "b"]).same_as(&path(&["a"])));
    assert!(!path(&["a", "b"]).same_as(&path(&["a", "c"])));
    assert!(!path(&["ab"]).same_as(&path(&["a", "b"])));
    assert!(UnixPathBuf::new().same_as(&path(&[])));
    let p = path(&["x", "y"]);
    assert!(p.clone().same_as(&p));
}

#[test]
fn start_asks_for_the_tree() {
    let mut fs = FileSystem::new();
    match fs.init() {
        FileRequest::LoadFileTree { with_data } => assert!(!with_data),
        other => panic!("unexpected request {:?}", other),
    }
}

#[test]
fn a_file_is_asked_for_once() {
    let mut fs = tree();
    let p = path(&["home", "project", "readme"]);
    match fs.request_open_file(LiveId(10), p.clone()) {
        Some(FileRequest::OpenFile(asked)) => assert!(asked.same_as(&p)),
        other => panic!("unexpected request {:?}", other),
    }
    assert!(fs.tab_id_to_path[&10].same_as(&p));
    assert_eq!(fs.open_documents.len(), 1);
    assert!(fs.open_documents[0].path.same_as(&p));
    assert!(fs.open_documents[0].document.is_none());
    // a second tab on the same file sends nothing
    assert!(fs.request_open_file(LiveId(11), p.clone()).is_none());
    assert!(fs.tab_id_to_path[&11].same_as(&p));
    assert_eq!(fs.open_documents.len(), 1);
    // another file is asked for
    let q = path(&["home", "project", "src", "lib.rs"]);
    assert!(fs.request_open_file(LiveId(10), q.clone()).is_some());
    assert!(fs.tab_id_to_path[&10].same_as(&q));
    assert_eq!(fs.open_documents.len(), 2);
}

#[test]
fn only_a_loaded_document_is_saved() {
    let mut fs = tree();
    let p = path(&["home", "project", "readme"]);
    assert!(fs.request_save_file(LiveId(10)).is_none());
    fs.request_open_file(LiveId(10), p.clone());
    assert!(fs.request_save_file(LiveId(10)).is_none());
    fs.open_documents[0].document =
        Some(makepad_core::file_system::Document { text: "hello".to_string() });
    match fs.request_save_file(LiveId(10)) {
        Some(FileRequest::SaveFile(saved, text)) => {
            assert!(saved.same_as(&p));
            assert_eq!(text, "hello");
        }
        other => panic!("unexpected request {:?}", other),
    }
    assert!(fs.request_save_file(LiveId(11)).is_none());
}
