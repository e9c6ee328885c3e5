//! What the file system makes of the answers of the file server.

use crate::file_system::{Document, FileSystem, LiveId, OpenDocument, UnixPathBuf};
use crate::file_tree::{FileTreeData, ROOT_NODE_ID};
use vstd::prelude::*;
use vstd::string::StringSliceAdditionalSpecFns;

verus! {

/// The first change that is this far into a saved file starts a rebuild.
pub const RECOMPILE_OFFSET: usize = 10300;

/// Why the file server could not do what it was asked.
#[derive(Debug)]
pub enum FileError {
    CannotOpen(UnixPathBuf),
    Unknown(String),
}

/// An answer of the file server.
#[derive(Debug)]
pub enum FileResponse {
    LoadFileTree(Result<FileTreeData, FileError>),
    /// The path and the text of the file.
    OpenFile(Result<(UnixPathBuf, String), FileError>),
    /// The path, the text before and the text after.
    SaveFile(Result<(UnixPathBuf, String, String), FileError>),
}

/// What the file client hands on.
#[derive(Debug)]
pub enum FileClientAction {
    Response(FileResponse),
    Notification,
}

/// What the file system asks of its surroundings.
#[derive(Clone, Copy, Debug, PartialEq, Eq, Structural)]
pub enum FileSystemEffect {
    RedrawFileTree,
    /// Redraw a tab that shows the file that was opened.
    RedrawTab(LiveId),
    RedrawUi,
    /// Report the unknown error of the answer.
    LogUnknownError,
    StartRecompileTimer,
}

/// The first index at or after `from` at which the two texts differ, or the
/// length of the shorter one when they agree up to there.
pub open spec fn first_difference(old_text: Seq<u8>, new_text: Seq<u8>, from: int) -> int
    decreases old_text.len() - from,
{
    if from < 0 || from >= old_text.len() || from >= new_text.len() {
        if old_text.len() <= new_text.len() {
            old_text.len() as int
        } else {
            new_text.len() as int
        }
    } else if old_text[from] != new_text[from] {
        from
    } else {
        first_difference(old_text, new_text, from + 1)
    }
}

/// Whether saving `new_text` over `old_text` starts a rebuild: the texts
/// differ within the length of the shorter one, and for the first time
/// after byte `RECOMPILE_OFFSET`. The texts are given as their bytes.
pub open spec fn save_starts_recompile(old_text: Seq<u8>, new_text: Seq<u8>) -> bool {
    let at = first_difference(old_text, new_text, 0);
    at < old_text.len() && at < new_text.len() && at > RECOMPILE_OFFSET
}

proof fn lemma_first_difference(old_text: Seq<u8>, new_text: Seq<u8>, from: int, i: int)
    requires
        0 <= from <= i,
        i <= old_text.len(),
        i <= new_text.len(),
        forall|k: int| from <= k < i ==> old_text[k] == new_text[k],
        (i < old_text.len() && i < new_text.len()) ==> old_text[i] != new_text[i],
    ensures
        first_difference(old_text, new_text, from) == if i < old_text.len() && i < new_text.len() {
            i
        } else if old_text.len() <= new_text.len() {
            old_text.len() as int
        } else {
            new_text.len() as int
        },
    decreases i - from,
{
    if from < i {
        lemma_first_difference(old_text, new_text, from + 1, i);
    }
}

/// Whether saving `new_text` over `old_text` starts a rebuild.
pub fn starts_recompile(old_text: &str, new_text: &str) -> (r: bool)
    ensures
        r == save_starts_recompile(
            vstd::utf8::encode_utf8(old_text@),
            vstd::utf8::encode_utf8(new_text@),
        ),
{
    let old_bytes = old_text.as_bytes();
    let new_bytes = new_text.as_bytes();
    assert(old_bytes@ == vstd::utf8::encode_utf8(old_text@));
    assert(new_bytes@ == vstd::utf8::encode_utf8(new_text@));
    let len = if old_bytes.len() <= new_bytes.len() {
        old_bytes.len()
    } else {
        new_bytes.len()
    };
    let mut i: usize = 0;
    while i < len
        invariant
            i <= len,
            len <= old_bytes@.len(),
            len <= new_bytes@.len(),
            len == old_bytes@.len() || len == new_bytes@.len(),
            old_bytes@ == vstd::utf8::encode_utf8(old_text@),
            new_bytes@ == vstd::utf8::encode_utf8(new_text@),
            forall|k: int| 0 <= k < i ==> old_bytes@[k] == new_bytes@[k],
        decreases len - i,
    {
        if old_bytes[i] != new_bytes[i] {
            proof {
                lemma_first_difference(old_bytes@, new_bytes@, 0, i as int);
            }
            return i > RECOMPILE_OFFSET;
        }
        i += 1;
    }
    proof {
        lemma_first_difference(old_bytes@, new_bytes@, 0, i as int);
    }
    false
}

impl FileSystem {
    /// Whether `handle_event` can take `action`: an answer to a request for
    /// the file tree has to hold a tree, and there have to be ids left for
    /// its nodes.
    pub open spec fn accepts(&self, action: FileClientAction) -> bool {
        match action {
            FileClientAction::Response(FileResponse::LoadFileTree(tree)) => {
                &&& tree is Ok
                &&& self.next_node_id > ROOT_NODE_ID
                &&& self.next_node_id + crate::file_tree::node_count(tree.unwrap().root) - 1
                    <= u64::MAX
            },
            _ => true,
        }
    }

    /// Whether `effects` is what the arrival of the file at `path` asks for:
    /// a redraw of each tab that shows the file, once and in any order, and
    /// then a redraw of everything.
    pub open spec fn opened_effects(&self, path: Seq<Seq<char>>, effects: Seq<FileSystemEffect>) -> bool {
        &&& effects.len() > 0
        &&& effects.last() == FileSystemEffect::RedrawUi
        &&& effects.no_duplicates()
        &&& forall|i: int|
            0 <= i < effects.len() - 1 ==> match #[trigger] effects[i] {
                FileSystemEffect::RedrawTab(tab) => self.tab_path(tab) == Some(path),
                _ => false,
            }
        &&& forall|tab: LiveId|
            #[trigger] self.tab_path(tab) == Some(path) ==> effects.contains(
                FileSystemEffect::RedrawTab(tab),
            )
    }

    /// What `handle_event` asks for when it is given `action`, but for a
    /// file that arrives.
    pub open spec fn effects_of(action: FileClientAction) -> Seq<FileSystemEffect> {
        match action {
            FileClientAction::Response(FileResponse::LoadFileTree(_)) => seq![
                FileSystemEffect::RedrawFileTree,
            ],
            FileClientAction::Response(FileResponse::OpenFile(Err(FileError::Unknown(_)))) => seq![
                FileSystemEffect::LogUnknownError,
            ],
            FileClientAction::Response(FileResponse::SaveFile(Ok((_, old_text, new_text)))) => {
                if save_starts_recompile(
                    vstd::utf8::encode_utf8(old_text@),
                    vstd::utf8::encode_utf8(new_text@),
                ) {
                    seq![FileSystemEffect::StartRecompileTimer]
                } else {
                    Seq::empty()
                }
            },
            _ => Seq::empty(),
        }
    }

    /// Keeps `text` as the document at `path`.
    pub fn set_document(&mut self, path: UnixPathBuf, text: String)
        ensures
            final(self).root_path == old(self).root_path,
            final(self).file_nodes == old(self).file_nodes,
            final(self).tab_id_to_path == old(self).tab_id_to_path,
            final(self).tab_id_to_session == old(self).tab_id_to_session,
            final(self).next_node_id == old(self).next_node_id,
            final(self).document_text(path@) == Some(text@),
            final(self).open_documents@.len() == if old(self).document_requested(path@) {
                old(self).open_documents@.len()
            } else {
                old(self).open_documents@.len() + 1
            },
            forall|i: int|
                0 <= i < old(self).open_documents@.len() && i != crate::file_system::document_index(
                    old(self).open_documents@,
                    path@,
                    0,
                ) ==> #[trigger] final(self).open_documents@[i] == old(self).open_documents@[i],
    {
        let i = self.find_document(&path);
        let ghost before = self.open_documents@;
        let ghost path_view = path@;
        proof {
            crate::file_system::lemma_document_index_is_first(before, path_view, 0);
        }
        if i < self.open_documents.len() {
            self.open_documents.set(i, OpenDocument { path, document: Some(Document { text }) });
        } else {
            self.open_documents.push(OpenDocument { path, document: Some(Document { text }) });
        }
        proof {
            assert forall|k: int| 0 <= k < i implies (#[trigger] self.open_documents@[k]).path@
                != path_view by {
                assert(self.open_documents@[k] == before[k]);
            }
            crate::file_system::lemma_document_found(self.open_documents@, path_view, i as int);
        }
    }

    /// Takes what the file client hands on: a file tree is loaded, the text
    /// of an opened file is kept, and a saved file starts a rebuild when its
    /// first change lies far enough in. Returns what is to be redrawn,
    /// reported or started, in order.
    pub fn handle_event(&mut self, action: FileClientAction) -> (effects: Vec<FileSystemEffect>)
        requires
            old(self).accepts(action),
        ensures
            match action {
                FileClientAction::Response(FileResponse::OpenFile(Ok((path, _)))) => old(self).opened_effects(path@, effects@),
                _ => effects@ == Self::effects_of(action),
            },
            final(self).tab_id_to_path == old(self).tab_id_to_path,
            final(self).tab_id_to_session == old(self).tab_id_to_session,
            match action {
                FileClientAction::Response(FileResponse::LoadFileTree(tree)) => {
                    &&& final(self).root_path@ == tree.unwrap().root_path@
                    &&& final(self).next_node_id == old(self).next_node_id
                        + crate::file_tree::node_count(tree.unwrap().root) - 1
                    &&& forall|k: u64|
                        #[trigger] final(self).file_nodes@.contains_key(k) <==> (k == ROOT_NODE_ID
                            || old(self).next_node_id <= k < final(self).next_node_id)
                    &&& crate::file_tree::tree_stored(
                        final(self).file_nodes@,
                        ROOT_NODE_ID,
                        None,
                        tree.unwrap().root,
                        old(self).next_node_id as int,
                    )
                    &&& final(self).open_documents == old(self).open_documents
                },
                FileClientAction::Response(FileResponse::OpenFile(Ok((path, text)))) => {
                    &&& final(self).root_path == old(self).root_path
                    &&& final(self).file_nodes == old(self).file_nodes
                    &&& final(self).next_node_id == old(self).next_node_id
                    &&& final(self).document_text(path@) == Some(text@)
                    &&& final(self).open_documents@.len() == if old(self).document_requested(path@) {
                        old(self).open_documents@.len()
                    } else {
                        old(self).open_documents@.len() + 1
                    }
                    &&& forall|i: int|
                        0 <= i < old(self).open_documents@.len() && i
                            != crate::file_system::document_index(old(self).open_documents@, path@, 0)
                            ==> #[trigger] final(self).open_documents@[i] == old(self).open_documents@[i]
                },
                _ => *final(self) == *old(self),
            },
    {
        let mut effects: Vec<FileSystemEffect> = Vec::new();
        match action {
            FileClientAction::Response(response) => match response {
                FileResponse::LoadFileTree(tree) => {
                    self.load_file_tree(tree.unwrap());
                    effects.push(FileSystemEffect::RedrawFileTree);
                },
                FileResponse::OpenFile(result) => match result {
                    Ok((unix_path, data)) => {
                        let tabs = self.tabs_showing(&unix_path);
                        let mut i: usize = 0;
                        while i < tabs.len()
                            invariant
                                i <= tabs.len(),
                                effects@.len() == i,
                                forall|k: int|
                                    0 <= k < i ==> #[trigger] effects@[k] == FileSystemEffect::RedrawTab(
                                        tabs@[k],
                                    ),
                            decreases tabs.len() - i,
                        {
                            effects.push(FileSystemEffect::RedrawTab(tabs[i]));
                            i += 1;
                        }
                        effects.push(FileSystemEffect::RedrawUi);
                        proof {
                            let path = unix_path@;
                            assert forall|tab: LiveId| #[trigger] old(self).tab_path(tab) == Some(
                                path,
                            ) implies effects@.contains(FileSystemEffect::RedrawTab(tab)) by {
                                assert(tabs@.contains(tab));
                                let k = choose|k: int| 0 <= k < tabs@.len() && tabs@[k] == tab;
                                assert(effects@[k] == FileSystemEffect::RedrawTab(tab));
                            }
                            assert forall|k: int| 0 <= k < effects@.len() - 1 implies match #[trigger] effects@[k] {
                                FileSystemEffect::RedrawTab(tab) => old(self).tab_path(tab) == Some(
                                    path,
                                ),
                                _ => false,
                            } by {
                                assert(tabs@.contains(tabs@[k]));
                            }
                            assert(old(self).opened_effects(path, effects@));
                        }
                        self.set_document(unix_path, data);
                    },
                    Err(FileError::CannotOpen(_unix_path)) => {},
                    Err(FileError::Unknown(_err)) => {
                        effects.push(FileSystemEffect::LogUnknownError);
                    },
                },
                FileResponse::SaveFile(result) => match result {
                    Ok((_path, old_text, new_text)) => {
                        if starts_recompile(old_text.as_str(), new_text.as_str()) {
                            effects.push(FileSystemEffect::StartRecompileTimer);
                        }
                    },
                    Err(_) => {},
                },
            },
            FileClientAction::Notification => {},
        }
        assert(!(action matches FileClientAction::Response(FileResponse::OpenFile(Ok(_))))
            ==> effects@ =~= Self::effects_of(action));
        effects
    }
}

} // verus!
