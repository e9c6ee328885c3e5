//! The file tree of a project and the documents that are open in tabs.
//!
//! The file system decides which requests go to the file server; it does
//! not send them.

use std::collections::HashMap;
use vstd::prelude::*;
use vstd::std_specs::iter::IteratorSpec;

verus! {

broadcast use vstd::std_specs::hash::group_hash_axioms;

/// The id of a tab.
#[derive(Clone, Copy, Debug, PartialEq, Eq, Structural)]
pub struct LiveId(pub u64);

/// The id of a node of the file tree.
#[derive(Clone, Copy, Debug, PartialEq, Eq, Structural)]
pub struct FileNodeId(pub u64);

/// A path, component by component.
#[derive(Debug)]
pub struct UnixPathBuf {
    pub components: Vec<String>,
}

impl View for UnixPathBuf {
    type V = Seq<Seq<char>>;

    open spec fn view(&self) -> Seq<Seq<char>> {
        Seq::new(self.components@.len(), |i: int| self.components@[i]@)
    }
}

impl Clone for UnixPathBuf {
    fn clone(&self) -> (path: UnixPathBuf)
        ensures
            path@ == self@,
    {
        let mut components: Vec<String> = Vec::new();
        let mut i: usize = 0;
        while i < self.components.len()
            invariant
                i <= self.components.len(),
                components.len() == i,
                forall|k: int| 0 <= k < i ==> components@[k]@ == self.components@[k]@,
            decreases self.components.len() - i,
        {
            components.push(self.components[i].clone());
            i += 1;
        }
        let path = UnixPathBuf { components };
        assert(path@ =~= self@);
        path
    }
}

impl UnixPathBuf {
    /// The empty path.
    pub fn new() -> (path: UnixPathBuf)
        ensures
            path@ == Seq::<Seq<char>>::empty(),
    {
        let path = UnixPathBuf { components: Vec::new() };
        assert(path@ =~= Seq::<Seq<char>>::empty());
        path
    }

    /// Whether the two paths have the same components.
    pub fn same_as(&self, other: &UnixPathBuf) -> (r: bool)
        ensures
            r == (self@ == other@),
    {
        if self.components.len() != other.components.len() {
            assert(self@.len() != other@.len());
            return false;
        }
        let mut i: usize = 0;
        while i < self.components.len()
            invariant
                i <= self.components.len(),
                self.components.len() == other.components.len(),
                forall|k: int| 0 <= k < i ==> self.components@[k]@ == other.components@[k]@,
            decreases self.components.len() - i,
        {
            if self.components[i] != other.components[i] {
                assert(self@[i as int] != other@[i as int]);
                return false;
            }
            i += 1;
        }
        assert(self@ =~= other@);
        true
    }

    /// Appends a component.
    pub fn push(&mut self, component: String)
        ensures
            final(self)@ == old(self)@.push(component@),
    {
        self.components.push(component);
        assert(self@ =~= old(self)@.push(component@));
    }
}

/// An edge of the file tree: the name under which a node hangs, and the
/// node at the other end.
#[derive(Debug)]
pub struct FileEdge {
    pub name: String,
    pub file_node_id: FileNodeId,
}

/// A node of the file tree: a file, or a directory with its entries.
#[derive(Debug)]
pub struct FileNode {
    /// The edge to the directory the node lies in; the root has none.
    pub parent_edge: Option<FileEdge>,
    pub name: String,
    /// The entries of a directory; a file has none.
    pub child_edges: Option<Vec<FileEdge>>,
}

impl FileNode {
    /// Whether the node is a file and not a directory.
    pub fn is_file(&self) -> (r: bool)
        ensures
            r == (self.child_edges is None),
    {
        self.child_edges.is_none()
    }
}

/// The text of an open file.
#[derive(Debug)]
pub struct Document {
    pub text: String,
}

/// The editing session of a tab on the document at `path`.
#[derive(Debug)]
pub struct Session {
    pub path: UnixPathBuf,
}

/// A path that was asked for, with its document once that has arrived.
#[derive(Debug)]
pub struct OpenDocument {
    pub path: UnixPathBuf,
    pub document: Option<Document>,
}

/// A request to the file server.
#[derive(Debug)]
pub enum FileRequest {
    LoadFileTree { with_data: bool },
    OpenFile(UnixPathBuf),
    SaveFile(UnixPathBuf, String),
}

/// A request as a mathematical value.
pub enum FileRequestView {
    LoadFileTree { with_data: bool },
    OpenFile(Seq<Seq<char>>),
    SaveFile(Seq<Seq<char>>, Seq<char>),
}

impl View for FileRequest {
    type V = FileRequestView;

    open spec fn view(&self) -> FileRequestView {
        match self {
            FileRequest::LoadFileTree { with_data } => FileRequestView::LoadFileTree {
                with_data: *with_data,
            },
            FileRequest::OpenFile(path) => FileRequestView::OpenFile(path@),
            FileRequest::SaveFile(path, text) => FileRequestView::SaveFile(path@, text@),
        }
    }
}

/// The file tree and the open documents.
pub struct FileSystem {
    pub root_path: UnixPathBuf,
    pub file_nodes: HashMap<u64, FileNode>,
    pub tab_id_to_path: HashMap<u64, UnixPathBuf>,
    pub tab_id_to_session: HashMap<u64, Session>,
    pub open_documents: Vec<OpenDocument>,
    /// The id that the next node gets; ids are never used twice.
    pub next_node_id: u64,
}

/// Whether the walk from node `id` up the parent edges stays inside the
/// tree and arrives at a node without parent after at most `n` edges.
pub open spec fn parent_chain_ends(nodes: Map<u64, FileNode>, id: u64, n: nat) -> bool
    decreases n,
{
    nodes.contains_key(id) && match nodes[id].parent_edge {
        Some(edge) => n > 0 && parent_chain_ends(nodes, edge.file_node_id.0, (n - 1) as nat),
        None => true,
    }
}

/// The names on the way from the root of the tree down to node `id`, `n`
/// names at most.
pub open spec fn names_to(nodes: Map<u64, FileNode>, id: u64, n: nat) -> Seq<Seq<char>>
    decreases n,
{
    match nodes[id].parent_edge {
        Some(edge) => if n > 0 {
            names_to(nodes, edge.file_node_id.0, (n - 1) as nat).push(edge.name@)
        } else {
            Seq::empty()
        },
        None => Seq::empty(),
    }
}

/// The names on the way down to a node do not depend on how far the walk
/// was allowed to go, once it is allowed to go far enough.
pub proof fn lemma_names_to_any_bound(nodes: Map<u64, FileNode>, id: u64, n: nat, m: nat)
    requires
        parent_chain_ends(nodes, id, n),
        parent_chain_ends(nodes, id, m),
    ensures
        names_to(nodes, id, n) == names_to(nodes, id, m),
    decreases n,
{
    if let Some(edge) = nodes[id].parent_edge {
        lemma_names_to_any_bound(nodes, edge.file_node_id.0, (n - 1) as nat, (m - 1) as nat);
    }
}

/// The index of the first entry for `path` in the open documents, or their
/// number when there is none.
pub open spec fn document_index(documents: Seq<OpenDocument>, path: Seq<Seq<char>>, from: int) -> int
    decreases documents.len() - from,
{
    if from >= documents.len() {
        documents.len() as int
    } else if documents[from].path@ == path {
        from
    } else {
        document_index(documents, path, from + 1)
    }
}

/// The index that `document_index` gives is the first entry for the path,
/// also after the entry there has been replaced by one for the same path or,
/// when there was none, such an entry has been added at the end.
pub proof fn lemma_document_found(documents: Seq<OpenDocument>, path: Seq<Seq<char>>, i: int)
    requires
        0 <= i < documents.len(),
        documents[i].path@ == path,
        forall|k: int| 0 <= k < i ==> (#[trigger] documents[k]).path@ != path,
    ensures
        document_index(documents, path, 0) == i,
{
    lemma_document_index(documents, path, 0, i);
}

/// `document_index` is the first entry for the path, or the number of
/// entries.
pub proof fn lemma_document_index_is_first(documents: Seq<OpenDocument>, path: Seq<Seq<char>>, from: int)
    requires
        0 <= from <= documents.len(),
    ensures
        from <= document_index(documents, path, from) <= documents.len(),
        forall|k: int|
            from <= k < document_index(documents, path, from) ==> (#[trigger] documents[k]).path@
                != path,
        document_index(documents, path, from) < documents.len() ==> documents[document_index(
            documents,
            path,
            from,
        )].path@ == path,
    decreases documents.len() - from,
{
    if from < documents.len() && documents[from].path@ != path {
        lemma_document_index_is_first(documents, path, from + 1);
    }
}

proof fn lemma_document_index(documents: Seq<OpenDocument>, path: Seq<Seq<char>>, from: int, i: int)
    requires
        0 <= from <= i <= documents.len(),
        forall|k: int| from <= k < i ==> (#[trigger] documents[k]).path@ != path,
        i < documents.len() ==> documents[i].path@ == path,
    ensures
        document_index(documents, path, from) == i,
    decreases i - from,
{
    if from < i {
        lemma_document_index(documents, path, from + 1, i);
    }
}

impl FileSystem {
    /// An empty file system.
    pub fn new() -> (file_system: FileSystem)
        ensures
            file_system.root_path@ == Seq::<Seq<char>>::empty(),
            file_system.file_nodes@ == Map::<u64, FileNode>::empty(),
            file_system.tab_id_to_path@ == Map::<u64, UnixPathBuf>::empty(),
            file_system.tab_id_to_session@ == Map::<u64, Session>::empty(),
            file_system.open_documents@.len() == 0,
            file_system.next_node_id == 1,
    {
        FileSystem {
            root_path: UnixPathBuf::new(),
            file_nodes: HashMap::new(),
            tab_id_to_path: HashMap::new(),
            tab_id_to_session: HashMap::new(),
            open_documents: Vec::new(),
            next_node_id: 1,
        }
    }

    /// The request that starts a file system: the tree, without file data.
    pub fn init(&mut self) -> (request: FileRequest)
        ensures
            request@ == (FileRequestView::LoadFileTree { with_data: false }),
            *final(self) == *old(self),
    {
        FileRequest::LoadFileTree { with_data: false }
    }

    /// The path of tab `tab_id`, if the tab shows a file.
    pub open spec fn tab_path(&self, tab_id: LiveId) -> Option<Seq<Seq<char>>> {
        if self.tab_id_to_path@.contains_key(tab_id.0) {
            Some(self.tab_id_to_path@[tab_id.0]@)
        } else {
            None
        }
    }

    /// The text of the document at `path`, if the document has arrived.
    pub open spec fn document_text(&self, path: Seq<Seq<char>>) -> Option<Seq<char>> {
        let i = document_index(self.open_documents@, path, 0);
        if i < self.open_documents@.len() {
            match self.open_documents@[i].document {
                Some(document) => Some(document.text@),
                None => None,
            }
        } else {
            None
        }
    }

    /// Whether the document at `path` has been asked for.
    pub open spec fn document_requested(&self, path: Seq<Seq<char>>) -> bool {
        document_index(self.open_documents@, path, 0) < self.open_documents@.len()
    }

    /// The index of the first entry for `path` in the open documents.
    pub fn find_document(&self, path: &UnixPathBuf) -> (i: usize)
        ensures
            i == document_index(self.open_documents@, path@, 0),
            i <= self.open_documents.len(),
    {
        let mut i: usize = 0;
        while i < self.open_documents.len()
            invariant
                i <= self.open_documents.len(),
                forall|k: int| 0 <= k < i ==> (#[trigger] self.open_documents@[k]).path@ != path@,
            decreases self.open_documents.len() - i,
        {
            if self.open_documents[i].path.same_as(path) {
                proof {
                    lemma_document_index(self.open_documents@, path@, 0, i as int);
                }
                return i;
            }
            i += 1;
        }
        proof {
            lemma_document_index(self.open_documents@, path@, 0, i as int);
        }
        i
    }

    /// Shows the file at `path` in tab `tab_id`. Returns the request to
    /// send when the file has not been asked for before.
    pub fn request_open_file(&mut self, tab_id: LiveId, path: UnixPathBuf) -> (request: Option<
        FileRequest,
    >)
        ensures
            final(self).tab_path(tab_id) == Some(path@),
            final(self).tab_id_to_path@.dom() == old(self).tab_id_to_path@.dom().insert(tab_id.0),
            forall|other: u64|
                other != tab_id.0 && old(self).tab_id_to_path@.contains_key(other) ==> final(self).tab_id_to_path@[other] == old(self).tab_id_to_path@[other],
            final(self).root_path == old(self).root_path,
            final(self).file_nodes == old(self).file_nodes,
            final(self).tab_id_to_session == old(self).tab_id_to_session,
            final(self).next_node_id == old(self).next_node_id,
            old(self).document_requested(path@) ==> request is None && final(self).open_documents
                == old(self).open_documents,
            !old(self).document_requested(path@) ==> {
                &&& request is Some
                &&& request.unwrap()@ == FileRequestView::OpenFile(path@)
                &&& final(self).open_documents@.len() == old(self).open_documents@.len() + 1
                &&& final(self).open_documents@.drop_last() == old(self).open_documents@
                &&& final(self).open_documents@.last().path@ == path@
                &&& final(self).open_documents@.last().document is None
            },
    {
        self.tab_id_to_path.insert(tab_id.0, path.clone());
        assert(self.tab_id_to_path@.dom() =~= old(self).tab_id_to_path@.dom().insert(tab_id.0));
        if self.find_document(&path) == self.open_documents.len() {
            self.open_documents.push(OpenDocument { path: path.clone(), document: None });
            assert(self.open_documents@.drop_last() =~= old(self).open_documents@);
            Some(FileRequest::OpenFile(path))
        } else {
            None
        }
    }

    /// Returns the request that saves the document of tab `tab_id`, when
    /// the tab shows a file whose document has arrived.
    pub fn request_save_file(&self, tab_id: LiveId) -> (request: Option<FileRequest>)
        ensures
            match request {
                Some(request) => {
                    &&& self.tab_path(tab_id) is Some
                    &&& self.document_text(self.tab_path(tab_id).unwrap()) is Some
                    &&& request@ == FileRequestView::SaveFile(
                        self.tab_path(tab_id).unwrap(),
                        self.document_text(self.tab_path(tab_id).unwrap()).unwrap(),
                    )
                },
                None => self.tab_path(tab_id) is None || self.document_text(
                    self.tab_path(tab_id).unwrap(),
                ) is None,
            },
    {
        if let Some(path) = self.tab_id_to_path.get(&tab_id.0) {
            let i = self.find_document(path);
            if i < self.open_documents.len() {
                if let Some(doc) = &self.open_documents[i].document {
                    let text = doc.text.clone();
                    return Some(FileRequest::SaveFile(path.clone(), text));
                }
            }
        }
        None
    }

    /// The session of tab `tab_id`, made on first use; none while the tab
    /// shows no file or the document of its file has not arrived.
    pub fn get_session_mut(&mut self, tab_id: LiveId) -> (session: Option<&mut Session>)
        ensures
            session is Some <==> old(self).tab_path(tab_id) is Some && old(self).document_text(
                old(self).tab_path(tab_id).unwrap(),
            ) is Some,
            final(self).root_path == old(self).root_path,
            final(self).file_nodes == old(self).file_nodes,
            final(self).tab_id_to_path == old(self).tab_id_to_path,
            final(self).open_documents == old(self).open_documents,
            final(self).next_node_id == old(self).next_node_id,
            match session {
                Some(session) => {
                    &&& old(self).tab_id_to_session@.contains_key(tab_id.0) ==> *session == old(self).tab_id_to_session@[tab_id.0]
                    &&& !old(self).tab_id_to_session@.contains_key(tab_id.0) ==> session.path@
                        == old(self).tab_path(tab_id).unwrap()
                    &&& final(self).tab_id_to_session@ == old(self).tab_id_to_session@.insert(
                        tab_id.0,
                        *final(session),
                    )
                },
                None => final(self).tab_id_to_session == old(self).tab_id_to_session,
            },
    {
        if let Some(path) = self.tab_id_to_path.get(&tab_id.0) {
            let i = self.find_document(path);
            if i < self.open_documents.len() {
                if self.open_documents[i].document.is_some() {
                    let fresh = Session { path: path.clone() };
                    return Some(self.tab_id_to_session.entry(tab_id.0).or_insert(fresh));
                }
            }
        }
        None
    }

    /// The tabs that show the file at `path`, in no particular order.
    pub fn tabs_showing(&self, path: &UnixPathBuf) -> (tabs: Vec<LiveId>)
        ensures
            forall|tab: LiveId| tabs@.contains(tab) <==> self.tab_path(tab) == Some(path@),
            tabs@.no_duplicates(),
    {
        let mut tabs: Vec<LiveId> = Vec::new();
        for entry in iter: self.tab_id_to_path.iter()
            invariant
                iter.seq() == vstd::std_specs::hash::spec_hash_map_iter(&self.tab_id_to_path).remaining(),
                iter.seq().no_duplicates(),
                tabs@.no_duplicates(),
                forall|tab: LiveId|
                    tabs@.contains(tab) <==> exists|k: int|
                        0 <= k < iter.index() && *(#[trigger] iter.seq()[k]).0 == tab.0
                            && iter.seq()[k].1@ == path@,
        {
            let (tab_id, tab_path) = entry;
            let ghost earlier = tabs@;
            if tab_path.same_as(path) {
                tabs.push(LiveId(*tab_id));
            }
            proof {
                let at = iter.index();
                if tabs@.len() > earlier.len() {
                    let added = LiveId(*iter.seq()[at].0);
                    assert(!earlier.contains(added)) by {
                        if earlier.contains(added) {
                            let k = choose|k: int|
                                0 <= k < at && *(#[trigger] iter.seq()[k]).0 == added.0
                                    && iter.seq()[k].1@ == path@;
                            vstd::std_specs::hash::axiom_spec_hash_map_iter(&self.tab_id_to_path);
                            assert(self.tab_id_to_path@[*iter.seq()[k].0] == *iter.seq()[k].1);
                            assert(self.tab_id_to_path@[*iter.seq()[at].0] == *iter.seq()[at].1);
                            assert(iter.seq()[k] == iter.seq()[at]);
                        }
                    }
                    assert forall|i: int, j: int|
                        0 <= i < tabs@.len() && 0 <= j < tabs@.len() && i != j implies tabs@[i]
                        != tabs@[j] by {
                        if i < earlier.len() {
                            assert(earlier.contains(tabs@[i]));
                        }
                        if j < earlier.len() {
                            assert(earlier.contains(tabs@[j]));
                        }
                    }
                }
                assert forall|tab: LiveId| tabs@.contains(tab) <==> exists|k: int|
                    0 <= k < at + 1 && *(#[trigger] iter.seq()[k]).0 == tab.0 && iter.seq()[k].1@
                        == path@ by {
                    if tabs@.contains(tab) {
                        if earlier.contains(tab) {
                        } else {
                            let j = choose|j: int| 0 <= j < tabs@.len() && tabs@[j] == tab;
                            assert(j == earlier.len());
                            assert(*iter.seq()[at].0 == tab.0);
                        }
                    }
                    if exists|k: int|
                        0 <= k < at + 1 && *(#[trigger] iter.seq()[k]).0 == tab.0 && iter.seq()[k].1@
                            == path@ {
                        let k = choose|k: int|
                            0 <= k < at + 1 && *(#[trigger] iter.seq()[k]).0 == tab.0
                                && iter.seq()[k].1@ == path@;
                        if k < at {
                            assert(earlier.contains(tab));
                            let j = choose|j: int| 0 <= j < earlier.len() && earlier[j] == tab;
                            assert(tabs@[j] == tab);
                        } else {
                            assert(tabs@[earlier.len() as int] == tab);
                        }
                    }
                }
            }
        }
        proof {
            let seq = vstd::std_specs::hash::spec_hash_map_iter(&self.tab_id_to_path).remaining();
            vstd::std_specs::hash::axiom_spec_hash_map_iter(&self.tab_id_to_path);
            assert forall|tab: LiveId| tabs@.contains(tab) <==> self.tab_path(tab) == Some(
                path@,
            ) by {
                if tabs@.contains(tab) {
                    let k = choose|k: int|
                        0 <= k < seq.len() && *(#[trigger] seq[k]).0 == tab.0 && seq[k].1@ == path@;
                    assert(self.tab_id_to_path@.contains_key(*seq[k].0));
                    assert(self.tab_id_to_path@[*seq[k].0] == *seq[k].1);
                }
                if self.tab_path(tab) == Some(path@) {
                    let key = tab.0;
                    assert(self.tab_id_to_path@.contains_key(key));
                    assert(seq.contains((&key, &self.tab_id_to_path@[key])));
                    let k = choose|k: int|
                        0 <= k < seq.len() && seq[k] == (&key, &self.tab_id_to_path@[key]);
                    assert(*seq[k].0 == tab.0);
                }
            }
        }
        tabs
    }

    /// The name of node `file_node_id`.
    pub fn file_node_name(&self, file_node_id: FileNodeId) -> (name: String)
        requires
            self.file_nodes@.contains_key(file_node_id.0),
        ensures
            name@ == self.file_nodes@[file_node_id.0].name@,
    {
        let node = self.file_nodes.get(&file_node_id.0);
        node.unwrap().name.clone()
    }

    /// The path of node `file_node_id`: the root path, and then the names
    /// on the way from the root of the tree down to the node.
    pub fn file_node_path(&self, file_node_id: FileNodeId) -> (path: UnixPathBuf)
        requires
            exists|n: nat| parent_chain_ends(self.file_nodes@, file_node_id.0, n),
        ensures
            forall|n: nat|
                parent_chain_ends(self.file_nodes@, file_node_id.0, n) ==> path@ == self.root_path@
                    + names_to(self.file_nodes@, file_node_id.0, n),
    {
        let ghost nodes = self.file_nodes@;
        let ghost bound: nat = choose|n: nat| parent_chain_ends(nodes, file_node_id.0, n);
        let ghost mut n: nat = bound;
        let mut components: Vec<String> = Vec::new();
        let mut id: u64 = file_node_id.0;
        loop
            invariant_except_break
                parent_chain_ends(nodes, id, n),
                nodes == self.file_nodes@,
                names_to(nodes, file_node_id.0, bound) == names_to(nodes, id, n) + Seq::new(
                    components@.len(),
                    |k: int| components@[components@.len() - 1 - k]@,
                ),
            ensures
                names_to(nodes, file_node_id.0, bound) == Seq::new(
                    components@.len(),
                    |k: int| components@[components@.len() - 1 - k]@,
                ),
            decreases n,
        {
            let file_node = self.file_nodes.get(&id).unwrap();
            match &file_node.parent_edge {
                Some(edge) => {
                    let ghost earlier = components@;
                    components.push(edge.name.clone());
                    proof {
                        let up = names_to(nodes, edge.file_node_id.0, (n - 1) as nat);
                        let reversed_before = Seq::new(
                            earlier.len(),
                            |k: int| earlier[earlier.len() - 1 - k]@,
                        );
                        let reversed_now = Seq::new(
                            components@.len(),
                            |k: int| components@[components@.len() - 1 - k]@,
                        );
                        assert(up.push(edge.name@) + reversed_before =~= up + reversed_now);
                        n = (n - 1) as nat;
                    }
                    id = edge.file_node_id.0;
                },
                None => {
                    proof {
                        let reversed_now = Seq::new(
                            components@.len(),
                            |k: int| components@[components@.len() - 1 - k]@,
                        );
                        assert(Seq::<Seq<char>>::empty() + reversed_now =~= reversed_now);
                    }
                    break ;
                },
            }
        }
        let mut path = self.root_path.clone();
        let mut i: usize = components.len();
        while i > 0
            invariant
                i <= components.len(),
                path@ == self.root_path@ + Seq::new(
                    (components@.len() - i) as nat,
                    |k: int| components@[components@.len() - 1 - k]@,
                ),
            decreases i,
        {
            i -= 1;
            path.push(components[i].clone());
            assert(path@ =~= self.root_path@ + Seq::new(
                (components@.len() - i) as nat,
                |k: int| components@[components@.len() - 1 - k]@,
            ));
        }
        proof {
            assert forall|m: nat| parent_chain_ends(nodes, file_node_id.0, m) implies path@
                == self.root_path@ + names_to(nodes, file_node_id.0, m) by {
                lemma_names_to_any_bound(nodes, file_node_id.0, bound, m);
            }
        }
        path
    }

    /// The root path followed by `components` in reverse order.
    pub fn _file_path_join(&self, components: &Vec<String>) -> (path: UnixPathBuf)
        ensures
            path@ == self.root_path@ + Seq::new(
                components@.len(),
                |k: int| components@[components@.len() - 1 - k]@,
            ),
    {
        let mut path = self.root_path.clone();
        let mut i: usize = components.len();
        while i > 0
            invariant
                i <= components.len(),
                path@ == self.root_path@ + Seq::new(
                    (components@.len() - i) as nat,
                    |k: int| components@[components@.len() - 1 - k]@,
                ),
            decreases i,
        {
            i -= 1;
            path.push(components[i].clone());
            assert(path@ =~= self.root_path@ + Seq::new(
                (components@.len() - i) as nat,
                |k: int| components@[components@.len() - 1 - k]@,
            ));
        }
        path
    }
}

impl FileSystem {
    /// Whether the walk from node `file_node_id` up the parent edges stays
    /// inside the tree and ends before it has gone along more edges than
    /// there are nodes; `file_node_path` can then be asked for the node.
    pub fn parent_chain_is_finite(&self, file_node_id: FileNodeId) -> (r: bool)
        ensures
            r == parent_chain_ends(self.file_nodes@, file_node_id.0, self.file_nodes@.len()),
    {
        let mut id: u64 = file_node_id.0;
        let mut n: usize = self.file_nodes.len();
        loop
            invariant
                parent_chain_ends(self.file_nodes@, file_node_id.0, self.file_nodes@.len())
                    == parent_chain_ends(self.file_nodes@, id, n as nat),
            decreases n,
        {
            match self.file_nodes.get(&id) {
                Some(file_node) => match &file_node.parent_edge {
                    Some(edge) => {
                        if n == 0 {
                            return false;
                        }
                        id = edge.file_node_id.0;
                        n -= 1;
                    },
                    None => {
                        return true;
                    },
                },
                None => {
                    return false;
                },
            }
        }
    }
}

} // verus!
