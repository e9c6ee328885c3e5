//! Loading the file tree: the tree that the file server sends is stored
//! node by node, each node under an id of its own.

use crate::file_system::{FileEdge, FileNode, FileNodeId, FileSystem, UnixPathBuf};
use std::collections::HashMap;
use std::collections::HashSet;
use vstd::prelude::*;

verus! {

broadcast use vstd::std_specs::hash::group_hash_axioms;

/// The id of the root of the file tree.
pub const ROOT_NODE_ID: u64 = 0;

/// A node as the file server sends it.
#[derive(Debug)]
pub enum FileNodeData {
    Directory { entries: Vec<DirectoryEntry> },
    File { data: Option<Vec<u8>> },
}

/// An entry of a directory as the file server sends it.
#[derive(Debug)]
pub struct DirectoryEntry {
    pub name: String,
    pub node: FileNodeData,
}

/// A file tree as the file server sends it.
#[derive(Debug)]
pub struct FileTreeData {
    pub root_path: UnixPathBuf,
    pub root: FileNodeData,
}

/// The number of nodes of a tree.
pub open spec fn node_count(node: FileNodeData) -> nat
    decreases node,
{
    match node {
        FileNodeData::File { .. } => 1,
        FileNodeData::Directory { entries } => 1 + entries_count(entries@, entries@.len()),
    }
}

/// The number of nodes of the trees of the first `n` entries.
pub open spec fn entries_count(entries: Seq<DirectoryEntry>, n: nat) -> nat
    decreases entries, n,
{
    if n == 0 || n > entries.len() {
        0
    } else {
        entries_count(entries, (n - 1) as nat) + node_count(entries[n - 1].node)
    }
}

/// An edge as a mathematical value: the name and the id at its end.
pub open spec fn edge_view(edge: Option<FileEdge>) -> Option<(Seq<char>, u64)> {
    match edge {
        Some(edge) => Some((edge.name@, edge.file_node_id.0)),
        None => None,
    }
}

/// Whether `nodes` holds the tree `node` under `id`, hanging on
/// `parent_edge`, with the nodes below it numbered from `next` on in the
/// order in which a walk that visits a directory before its entries meets
/// them. A node is named after the edge it hangs on, and the root `root`.
pub open spec fn tree_stored(
    nodes: Map<u64, FileNode>,
    id: u64,
    parent_edge: Option<(Seq<char>, u64)>,
    node: FileNodeData,
    next: int,
) -> bool
    decreases node,
{
    &&& nodes.contains_key(id)
    &&& edge_view(nodes[id].parent_edge) == parent_edge
    &&& nodes[id].name@ == match parent_edge {
        Some((name, _)) => name,
        None => "root"@,
    }
    &&& match node {
        FileNodeData::File { .. } => nodes[id].child_edges is None,
        FileNodeData::Directory { entries } => {
            &&& nodes[id].child_edges is Some
            &&& nodes[id].child_edges.unwrap()@.len() == entries@.len()
            &&& forall|i: int|
                0 <= i < entries@.len() ==> {
                    let child_id = next + entries_count(entries@, i as nat);
                    let edge = #[trigger] nodes[id].child_edges.unwrap()@[i];
                    &&& edge.name@ == entries@[i].name@
                    &&& edge.file_node_id.0 == child_id
                    &&& tree_stored(
                        nodes,
                        child_id as u64,
                        Some((entries@[i].name@, id)),
                        entries@[i].node,
                        child_id + 1,
                    )
                }
        },
    }
}

proof fn lemma_entries_count_grows(entries: Seq<DirectoryEntry>, n: nat, m: nat)
    requires
        n <= m <= entries.len(),
    ensures
        entries_count(entries, n) <= entries_count(entries, m),
    decreases m,
{
    if n < m {
        lemma_entries_count_grows(entries, n, (m - 1) as nat);
    }
}

proof fn lemma_node_count_positive(node: FileNodeData)
    ensures
        node_count(node) >= 1,
{
}

/// A stored tree stays stored when nodes are added under other ids.
proof fn lemma_tree_stored_in_larger(
    nodes: Map<u64, FileNode>,
    larger: Map<u64, FileNode>,
    id: u64,
    parent_edge: Option<(Seq<char>, u64)>,
    node: FileNodeData,
    next: int,
)
    requires
        tree_stored(nodes, id, parent_edge, node, next),
        forall|k: u64| #[trigger]
            nodes.contains_key(k) ==> larger.contains_key(k) && larger[k] == nodes[k],
    ensures
        tree_stored(larger, id, parent_edge, node, next),
    decreases node,
{
    if let FileNodeData::Directory { entries } = node {
        assert forall|i: int| 0 <= i < entries@.len() implies {
            let child_id = next + entries_count(entries@, i as nat);
            let edge = #[trigger] larger[id].child_edges.unwrap()@[i];
            &&& edge.name@ == entries@[i].name@
            &&& edge.file_node_id.0 == child_id
            &&& tree_stored(
                larger,
                child_id as u64,
                Some((entries@[i].name@, id)),
                entries@[i].node,
                child_id + 1,
            )
        } by {
            let child_id = next + entries_count(entries@, i as nat);
            let edge = nodes[id].child_edges.unwrap()@[i];
            assert(edge.file_node_id.0 == child_id);
            lemma_tree_stored_in_larger(
                nodes,
                larger,
                child_id as u64,
                Some((entries@[i].name@, id)),
                entries@[i].node,
                child_id + 1,
            );
        }
    }
}

/// Whether `nodes` holds the trees of the first `n` of `entries` as
/// `tree_stored` asks of the entries of directory `id`, and `edges` are the
/// edges to them.
pub open spec fn entries_stored(
    nodes: Map<u64, FileNode>,
    edges: Seq<FileEdge>,
    entries: Seq<DirectoryEntry>,
    id: u64,
    next: int,
    n: nat,
) -> bool {
    forall|i: int|
        0 <= i < n ==> {
            let child_id = next + entries_count(entries, i as nat);
            &&& (#[trigger] edges[i]).name@ == entries[i].name@
            &&& edges[i].file_node_id.0 == child_id
            &&& tree_stored(nodes, child_id as u64, Some((entries[i].name@, id)), entries[i].node, child_id + 1)
        }
}

proof fn lemma_entries_stored_in_larger(
    nodes: Map<u64, FileNode>,
    larger: Map<u64, FileNode>,
    edges: Seq<FileEdge>,
    entries: Seq<DirectoryEntry>,
    id: u64,
    next: int,
    n: nat,
)
    requires
        entries_stored(nodes, edges, entries, id, next, n),
        forall|k: u64| #[trigger]
            nodes.contains_key(k) ==> larger.contains_key(k) && larger[k] == nodes[k],
    ensures
        entries_stored(larger, edges, entries, id, next, n),
{
    assert forall|i: int| 0 <= i < n implies {
        let child_id = next + entries_count(entries, i as nat);
        &&& (#[trigger] edges[i]).name@ == entries[i].name@
        &&& edges[i].file_node_id.0 == child_id
        &&& tree_stored(larger, child_id as u64, Some((entries[i].name@, id)), entries[i].node, child_id + 1)
    } by {
        let child_id = next + entries_count(entries, i as nat);
        assert(edges[i].file_node_id.0 == child_id);
        lemma_tree_stored_in_larger(
            nodes,
            larger,
            child_id as u64,
            Some((entries[i].name@, id)),
            entries[i].node,
            child_id + 1,
        );
    }
}

/// Stores the tree `node` under `id` and numbers the nodes below it from
/// `next` on.
fn create_file_node(
    file_node_id: u64,
    next: &mut u64,
    file_nodes: &mut HashMap<u64, FileNode>,
    parent_edge: Option<FileEdge>,
    node: &FileNodeData,
)
    requires
        *old(next) + node_count(*node) - 1 <= u64::MAX,
        file_node_id < *old(next),
        !old(file_nodes)@.contains_key(file_node_id),
        forall|k: u64| k >= *old(next) ==> !(#[trigger] old(file_nodes)@.contains_key(k)),
    ensures
        *final(next) == *old(next) + node_count(*node) - 1,
        forall|k: u64|
            #[trigger] final(file_nodes)@.contains_key(k) <==> (old(file_nodes)@.contains_key(k) || k
                == file_node_id || *old(next) <= k < *final(next)),
        forall|k: u64| #[trigger]
            old(file_nodes)@.contains_key(k) ==> final(file_nodes)@[k] == old(file_nodes)@[k],
        tree_stored(
            final(file_nodes)@,
            file_node_id,
            edge_view(parent_edge),
            *node,
            *old(next) as int,
        ),
    decreases *node,
{
    let ghost nodes_before = file_nodes@;
    let ghost next_before = *next;
    let name = match &parent_edge {
        Some(edge) => edge.name.clone(),
        None => "root".to_owned(),
    };
    let child_edges = match node {
        FileNodeData::Directory { entries } => {
            let mut edges: Vec<FileEdge> = Vec::new();
            let mut i: usize = 0;
            while i < entries.len()
                invariant
                    i <= entries.len(),
                    *node == (FileNodeData::Directory { entries: *entries }),
                    next_before + node_count(*node) - 1 <= u64::MAX,
                    file_node_id < next_before,
                    !nodes_before.contains_key(file_node_id),
                    forall|k: u64| k >= next_before ==> !(#[trigger] nodes_before.contains_key(k)),
                    *next == next_before + entries_count(entries@, i as nat),
                    edges@.len() == i,
                    forall|k: u64|
                        #[trigger] file_nodes@.contains_key(k) <==> (nodes_before.contains_key(k)
                            || next_before <= k < *next),
                    forall|k: u64| #[trigger]
                        nodes_before.contains_key(k) ==> file_nodes@[k] == nodes_before[k],
                    entries_stored(
                        file_nodes@,
                        edges@,
                        entries@,
                        file_node_id,
                        next_before as int,
                        i as nat,
                    ),
                decreases entries.len() - i,
            {
                let entry = &entries[i];
                proof {
                    lemma_entries_count_grows(entries@, (i + 1) as nat, entries@.len());
                    lemma_node_count_positive(entry.node);
                }
                let ghost nodes_earlier = file_nodes@;
                let ghost edges_earlier = edges@;
                let child_id = *next;
                *next = *next + 1;
                create_file_node(
                    child_id,
                    next,
                    file_nodes,
                    Some(FileEdge { name: entry.name.clone(), file_node_id: FileNodeId(file_node_id) }),
                    &entry.node,
                );
                edges.push(FileEdge { name: entry.name.clone(), file_node_id: FileNodeId(child_id) });
                proof {
                    assert forall|k: u64| #[trigger] nodes_before.contains_key(k) implies file_nodes@[k]
                        == nodes_before[k] by {
                        assert(nodes_earlier.contains_key(k));
                    }
                    lemma_entries_stored_in_larger(
                        nodes_earlier,
                        file_nodes@,
                        edges_earlier,
                        entries@,
                        file_node_id,
                        next_before as int,
                        i as nat,
                    );
                    assert forall|j: int| 0 <= j < i + 1 implies {
                        let child_id = next_before + entries_count(entries@, j as nat);
                        &&& (#[trigger] edges@[j]).name@ == entries@[j].name@
                        &&& edges@[j].file_node_id.0 == child_id
                        &&& tree_stored(
                            file_nodes@,
                            child_id as u64,
                            Some((entries@[j].name@, file_node_id)),
                            entries@[j].node,
                            child_id + 1,
                        )
                    } by {
                        if j < i {
                            assert(edges@[j] == edges_earlier[j]);
                        }
                    }
                }
                i += 1;
            }
            Some(edges)
        },
        FileNodeData::File { .. } => None,
    };
    let ghost nodes_filled = file_nodes@;
    let ghost parent_view = edge_view(parent_edge);
    assert(match *node {
        FileNodeData::Directory { entries } => child_edges is Some && child_edges.unwrap()@.len()
            == entries@.len() && entries_stored(
            nodes_filled,
            child_edges.unwrap()@,
            entries@,
            file_node_id,
            next_before as int,
            entries@.len(),
        ),
        FileNodeData::File { .. } => child_edges is None,
    });
    let ghost edges_view = if child_edges is Some {
        child_edges.unwrap()@
    } else {
        Seq::empty()
    };
    file_nodes.insert(file_node_id, FileNode { parent_edge, name, child_edges });
    proof {
        let stored = file_nodes@;
        assert(stored[file_node_id].name@ == match parent_view {
            Some((name, _)) => name,
            None => "root"@,
        });
        if let FileNodeData::Directory { entries } = node {
            lemma_entries_stored_in_larger(
                nodes_filled,
                stored,
                edges_view,
                entries@,
                file_node_id,
                next_before as int,
                entries@.len(),
            );
            assert(stored[file_node_id].child_edges.unwrap()@ == edges_view);
        }
    }
}

impl FileSystem {
    /// Replaces the file tree by `tree_data`: the root is stored under
    /// `ROOT_NODE_ID`, every other node under the next id that has not been
    /// used, a directory before its entries.
    pub fn load_file_tree(&mut self, tree_data: FileTreeData)
        requires
            old(self).next_node_id > ROOT_NODE_ID,
            old(self).next_node_id + node_count(tree_data.root) - 1 <= u64::MAX,
        ensures
            final(self).root_path@ == tree_data.root_path@,
            final(self).next_node_id == old(self).next_node_id + node_count(tree_data.root) - 1,
            forall|k: u64|
                #[trigger] final(self).file_nodes@.contains_key(k) <==> (k == ROOT_NODE_ID || old(self).next_node_id <= k < final(self).next_node_id),
            tree_stored(
                final(self).file_nodes@,
                ROOT_NODE_ID,
                None,
                tree_data.root,
                old(self).next_node_id as int,
            ),
            final(self).tab_id_to_path == old(self).tab_id_to_path,
            final(self).tab_id_to_session == old(self).tab_id_to_session,
            final(self).open_documents == old(self).open_documents,
    {
        self.root_path = tree_data.root_path;
        self.file_nodes.clear();
        create_file_node(
            ROOT_NODE_ID,
            &mut self.next_node_id,
            &mut self.file_nodes,
            None,
            &tree_data.root,
        );
    }
}

/// A row of the file tree as it is shown.
#[derive(Clone, Copy, Debug, PartialEq, Eq, Structural)]
pub enum FileTreeRow {
    Folder { depth: usize, file_node_id: FileNodeId, is_open: bool },
    File { depth: usize, file_node_id: FileNodeId },
}

/// The shown file tree: the folders that are open, the rows drawn so far,
/// and the depth of the folder whose entries are being drawn.
pub struct FileTree {
    pub open_nodes: HashSet<u64>,
    pub rows: Vec<FileTreeRow>,
    pub depth: usize,
}

impl FileTree {
    /// A file tree with every folder closed and no row drawn.
    pub fn new() -> (file_tree: FileTree)
        ensures
            file_tree.open_nodes@ == Set::<u64>::empty(),
            file_tree.rows@ == Seq::<FileTreeRow>::empty(),
            file_tree.depth == 0,
    {
        FileTree { open_nodes: HashSet::new(), rows: Vec::new(), depth: 0 }
    }

    /// Draws the row of a folder. When the folder is open its entries
    /// follow, one level deeper, until `end_folder`; when it is closed the
    /// result is an error and nothing follows.
    pub fn begin_folder(&mut self, file_node_id: FileNodeId) -> (r: Result<(), ()>)
        requires
            old(self).depth < usize::MAX,
        ensures
            final(self).open_nodes == old(self).open_nodes,
            r is Ok <==> old(self).open_nodes@.contains(file_node_id.0),
            final(self).rows@ == old(self).rows@.push(
                FileTreeRow::Folder { depth: old(self).depth, file_node_id, is_open: r is Ok },
            ),
            final(self).depth == if r is Ok {
                old(self).depth + 1
            } else {
                old(self).depth as int
            },
    {
        let is_open = self.open_nodes.contains(&file_node_id.0);
        self.rows.push(FileTreeRow::Folder { depth: self.depth, file_node_id, is_open });
        if is_open {
            self.depth += 1;
            Ok(())
        } else {
            Err(())
        }
    }

    /// Ends the entries of the folder begun last.
    pub fn end_folder(&mut self)
        requires
            old(self).depth > 0,
        ensures
            final(self).open_nodes == old(self).open_nodes,
            final(self).rows == old(self).rows,
            final(self).depth == old(self).depth - 1,
    {
        self.depth -= 1;
    }

    /// Draws the row of a file.
    pub fn file(&mut self, file_node_id: FileNodeId)
        ensures
            final(self).open_nodes == old(self).open_nodes,
            final(self).depth == old(self).depth,
            final(self).rows@ == old(self).rows@.push(
                FileTreeRow::File { depth: old(self).depth, file_node_id },
            ),
    {
        self.rows.push(FileTreeRow::File { depth: self.depth, file_node_id });
    }
}

/// Whether the part of the tree below node `id` is at most `fuel`
/// directories deep.
pub open spec fn subtree_ok(nodes: Map<u64, FileNode>, id: u64, fuel: nat) -> bool
    decreases fuel,
{
    !nodes.contains_key(id) || match nodes[id].child_edges {
        Some(edges) => fuel > 0 && forall|i: int|
            0 <= i < edges@.len() ==> subtree_ok(
                nodes,
                (#[trigger] edges@[i]).file_node_id.0,
                (fuel - 1) as nat,
            ),
        None => true,
    }
}

/// The rows of node `id` and what is shown below it: nothing for a node
/// that does not exist, one row for a file or a closed folder, and for an
/// open folder its row and then the rows of its entries, one level deeper.
pub open spec fn node_rows(
    nodes: Map<u64, FileNode>,
    open_nodes: Set<u64>,
    id: u64,
    depth: int,
    fuel: nat,
) -> Seq<FileTreeRow>
    decreases fuel, 0nat, 0nat,
{
    if !nodes.contains_key(id) {
        Seq::empty()
    } else {
        match nodes[id].child_edges {
            Some(edges) => {
                let row = seq![
                    FileTreeRow::Folder {
                        depth: depth as usize,
                        file_node_id: FileNodeId(id),
                        is_open: open_nodes.contains(id),
                    },
                ];
                if open_nodes.contains(id) && fuel > 0 {
                    row + edge_rows(
                        nodes,
                        open_nodes,
                        edges@,
                        edges@.len(),
                        depth + 1,
                        (fuel - 1) as nat,
                    )
                } else {
                    row
                }
            },
            None => seq![FileTreeRow::File { depth: depth as usize, file_node_id: FileNodeId(id) }],
        }
    }
}

/// The rows of the nodes at the end of the first `n` of `edges`.
pub open spec fn edge_rows(
    nodes: Map<u64, FileNode>,
    open_nodes: Set<u64>,
    edges: Seq<FileEdge>,
    n: nat,
    depth: int,
    fuel: nat,
) -> Seq<FileTreeRow>
    decreases fuel, 1nat, n,
{
    if n == 0 || n > edges.len() {
        Seq::empty()
    } else {
        edge_rows(nodes, open_nodes, edges, (n - 1) as nat, depth, fuel) + node_rows(
            nodes,
            open_nodes,
            edges[n - 1].file_node_id.0,
            depth,
            fuel,
        )
    }
}

impl FileSystem {
    fn draw_file_node_rows(
        &self,
        file_node_id: FileNodeId,
        file_tree: &mut FileTree,
        Ghost(fuel): Ghost<nat>,
    )
        requires
            subtree_ok(self.file_nodes@, file_node_id.0, fuel),
            old(file_tree).depth + fuel < usize::MAX,
        ensures
            final(file_tree).open_nodes == old(file_tree).open_nodes,
            final(file_tree).depth == old(file_tree).depth,
            final(file_tree).rows@ == old(file_tree).rows@ + node_rows(
                self.file_nodes@,
                old(file_tree).open_nodes@,
                file_node_id.0,
                old(file_tree).depth as int,
                fuel,
            ),
        decreases fuel,
    {
        let ghost nodes = self.file_nodes@;
        let ghost open_nodes = file_tree.open_nodes@;
        let ghost depth = file_tree.depth as int;
        if let Some(file_node) = self.file_nodes.get(&file_node_id.0) {
            match &file_node.child_edges {
                Some(child_edges) => {
                    if file_tree.begin_folder(file_node_id).is_ok() {
                        let ghost start = file_tree.rows@;
                        let mut i: usize = 0;
                        while i < child_edges.len()
                            invariant
                                i <= child_edges.len(),
                                nodes == self.file_nodes@,
                                nodes.contains_key(file_node_id.0),
                                nodes[file_node_id.0].child_edges == Some(*child_edges),
                                subtree_ok(nodes, file_node_id.0, fuel),
                                depth + fuel < usize::MAX,
                                file_tree.open_nodes == old(file_tree).open_nodes,
                                open_nodes == old(file_tree).open_nodes@,
                                file_tree.depth == depth + 1,
                                file_tree.rows@ == start + edge_rows(
                                    nodes,
                                    open_nodes,
                                    child_edges@,
                                    i as nat,
                                    depth + 1,
                                    (fuel - 1) as nat,
                                ),
                            decreases child_edges.len() - i,
                        {
                            let ghost earlier = edge_rows(
                                nodes,
                                open_nodes,
                                child_edges@,
                                i as nat,
                                depth + 1,
                                (fuel - 1) as nat,
                            );
                            assert(fuel > 0);
                            let ghost edges = nodes[file_node_id.0].child_edges.unwrap();
                            assert(edges@ == child_edges@);
                            assert(subtree_ok(
                                nodes,
                                edges@[i as int].file_node_id.0,
                                (fuel - 1) as nat,
                            ));
                            self.draw_file_node_rows(
                                child_edges[i].file_node_id,
                                file_tree,
                                Ghost((fuel - 1) as nat),
                            );
                            assert(file_tree.rows@ =~= start + (earlier + node_rows(
                                nodes,
                                open_nodes,
                                child_edges@[i as int].file_node_id.0,
                                depth + 1,
                                (fuel - 1) as nat,
                            )));
                            i += 1;
                        }
                        file_tree.end_folder();
                    }
                },
                None => {
                    file_tree.file(file_node_id);
                },
            }
        }
        assert(file_tree.rows@ =~= old(file_tree).rows@ + node_rows(
            nodes,
            open_nodes,
            file_node_id.0,
            depth,
            fuel,
        ));
    }

    /// Draws node `file_node_id` into `file_tree`: a file as one row, a
    /// folder as its row followed, when it is open, by its entries.
    pub fn draw_file_node(&self, file_node_id: FileNodeId, file_tree: &mut FileTree)
        requires
            subtree_ok(self.file_nodes@, file_node_id.0, self.file_nodes@.len()),
            old(file_tree).depth + self.file_nodes@.len() < usize::MAX,
        ensures
            final(file_tree).open_nodes == old(file_tree).open_nodes,
            final(file_tree).depth == old(file_tree).depth,
            final(file_tree).rows@ == old(file_tree).rows@ + node_rows(
                self.file_nodes@,
                old(file_tree).open_nodes@,
                file_node_id.0,
                old(file_tree).depth as int,
                self.file_nodes@.len(),
            ),
    {
        self.draw_file_node_rows(file_node_id, file_tree, Ghost(self.file_nodes@.len()));
    }
}

/// The number of nodes of a tree, when it is a number that can be held.
pub fn checked_node_count(node: &FileNodeData) -> (count: Option<u64>)
    ensures
        match count {
            Some(count) => count == node_count(*node),
            None => node_count(*node) > u64::MAX,
        },
    decreases *node,
{
    match node {
        FileNodeData::File { .. } => Some(1),
        FileNodeData::Directory { entries } => {
            let mut total: u64 = 1;
            let mut i: usize = 0;
            while i < entries.len()
                invariant
                    i <= entries.len(),
                    *node == (FileNodeData::Directory { entries: *entries }),
                    total == 1 + entries_count(entries@, i as nat),
                    node_count(*node) == 1 + entries_count(entries@, entries@.len()),
                decreases entries.len() - i,
            {
                proof {
                    lemma_entries_count_grows(entries@, (i + 1) as nat, entries@.len());
                }
                let entry = &entries[i];
                match checked_node_count(&entry.node) {
                    Some(count) => {
                        if count > u64::MAX - total {
                            return None;
                        }
                        total += count;
                    },
                    None => {
                        return None;
                    },
                }
                i += 1;
            }
            Some(total)
        },
    }
}

impl FileSystem {
    /// Whether `load_file_tree` can take `tree_data`: there are ids left
    /// for all its nodes.
    pub fn can_load(&self, tree_data: &FileTreeData) -> (r: bool)
        ensures
            r == (self.next_node_id > ROOT_NODE_ID && self.next_node_id + node_count(tree_data.root)
                - 1 <= u64::MAX),
    {
        if self.next_node_id == ROOT_NODE_ID {
            return false;
        }
        match checked_node_count(&tree_data.root) {
            Some(count) => {
                proof {
                    lemma_node_count_positive(tree_data.root);
                }
                count - 1 <= u64::MAX - self.next_node_id
            },
            None => false,
        }
    }

    fn subtree_is_ok_within(&self, file_node_id: u64, fuel: usize) -> (r: bool)
        ensures
            r == subtree_ok(self.file_nodes@, file_node_id, fuel as nat),
        decreases fuel,
    {
        match self.file_nodes.get(&file_node_id) {
            Some(file_node) => match &file_node.child_edges {
                Some(child_edges) => {
                    if fuel == 0 {
                        return false;
                    }
                    let mut i: usize = 0;
                    while i < child_edges.len()
                        invariant
                            i <= child_edges.len(),
                            fuel > 0,
                            self.file_nodes@.contains_key(file_node_id),
                            self.file_nodes@[file_node_id].child_edges == Some(*child_edges),
                            forall|k: int|
                                0 <= k < i ==> subtree_ok(
                                    self.file_nodes@,
                                    (#[trigger] child_edges@[k]).file_node_id.0,
                                    (fuel - 1) as nat,
                                ),
                        decreases child_edges.len() - i,
                    {
                        if !self.subtree_is_ok_within(child_edges[i].file_node_id.0, fuel - 1) {
                            proof {
                                let edges = self.file_nodes@[file_node_id].child_edges.unwrap();
                                assert(!subtree_ok(
                                    self.file_nodes@,
                                    edges@[i as int].file_node_id.0,
                                    (fuel - 1) as nat,
                                ));
                            }
                            return false;
                        }
                        i += 1;
                    }
                    true
                },
                None => true,
            },
            None => true,
        }
    }

    /// Whether node `file_node_id` can be drawn: the tree below it is not
    /// deeper than there are nodes.
    pub fn subtree_is_ok(&self, file_node_id: FileNodeId) -> (r: bool)
        ensures
            r == subtree_ok(self.file_nodes@, file_node_id.0, self.file_nodes@.len()),
    {
        self.subtree_is_ok_within(file_node_id.0, self.file_nodes.len())
    }
}

} // verus!
