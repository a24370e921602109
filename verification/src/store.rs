use vstd::prelude::*;
use crate::models::{Content, ContentView, Document, DocumentView, Node, NodeView};

verus! {

/// The three tables of the store, held in memory. Rows stand in the order in
/// which they were inserted. Identifiers are handed out in rising order and
/// never twice.
pub struct Store {
    pub(crate) documents: Vec<Document>,
    pub(crate) nodes: Vec<Node>,
    pub(crate) contents: Vec<Content>,
    pub(crate) next_document_id: i64,
    pub(crate) next_node_id: i64,
    pub(crate) next_content_id: i64,
}

/// The store as the contracts see it.
pub struct StoreView {
    pub documents: Seq<DocumentView>,
    pub nodes: Seq<NodeView>,
    pub contents: Seq<ContentView>,
    pub next_document_id: i64,
    pub next_node_id: i64,
    pub next_content_id: i64,
}

/// The rows of the document table as the contracts see them.
pub open spec fn document_views(rows: Seq<Document>) -> Seq<DocumentView> {
    Seq::new(rows.len(), |i: int| rows[i]@)
}

/// The rows of the node table as the contracts see them.
pub open spec fn node_views(rows: Seq<Node>) -> Seq<NodeView> {
    Seq::new(rows.len(), |i: int| rows[i]@)
}

/// The rows of the content table as the contracts see them.
pub open spec fn content_views(rows: Seq<Content>) -> Seq<ContentView> {
    Seq::new(rows.len(), |i: int| rows[i]@)
}

impl View for Store {
    type V = StoreView;

    open(crate) spec fn view(&self) -> StoreView {
        StoreView {
            documents: document_views(self.documents@),
            nodes: node_views(self.nodes@),
            contents: content_views(self.contents@),
            next_document_id: self.next_document_id,
            next_node_id: self.next_node_id,
            next_content_id: self.next_content_id,
        }
    }
}

impl StoreView {
    /// What the store keeps true of itself: within a table no identifier
    /// occurs twice, every identifier in use lies below the next one to be
    /// handed out, and no node has two content rows.
    pub open spec fn wf(self) -> bool {
        &&& self.next_document_id >= 1
        &&& self.next_node_id >= 1
        &&& self.next_content_id >= 1
        &&& forall|i: int|
            0 <= i < self.documents.len() ==> 1 <= (#[trigger] self.documents[i]).id
                < self.next_document_id
        &&& forall|i: int|
            0 <= i < self.nodes.len() ==> 1 <= (#[trigger] self.nodes[i]).id < self.next_node_id
        &&& forall|i: int|
            0 <= i < self.contents.len() ==> 1 <= (#[trigger] self.contents[i]).id
                < self.next_content_id
        &&& forall|i: int, j: int|
            0 <= i < j < self.documents.len() ==> (#[trigger] self.documents[i]).id != (
            #[trigger] self.documents[j]).id
        &&& forall|i: int, j: int|
            0 <= i < j < self.nodes.len() ==> (#[trigger] self.nodes[i]).id != (
            #[trigger] self.nodes[j]).id
        &&& forall|i: int, j: int|
            0 <= i < j < self.contents.len() ==> (#[trigger] self.contents[i]).id != (
            #[trigger] self.contents[j]).id
        &&& forall|i: int, j: int|
            0 <= i < j < self.contents.len() ==> (#[trigger] self.contents[i]).node_id != (
            #[trigger] self.contents[j]).node_id
    }

    /// The store before anything was written to it.
    pub open spec fn empty() -> StoreView {
        StoreView::starting_at(1, 1, 1)
    }

    /// A store without rows whose first identifiers are the given ones.
    pub open spec fn starting_at(document_id: i64, node_id: i64, content_id: i64) -> StoreView {
        StoreView {
            documents: Seq::empty(),
            nodes: Seq::empty(),
            contents: Seq::empty(),
            next_document_id: document_id,
            next_node_id: node_id,
            next_content_id: content_id,
        }
    }
}

impl Store {
    /// Whether the store is in a state that its operations keep up.
    pub open spec fn wf(&self) -> bool {
        self@.wf()
    }

    /// A store with three empty tables, whose first identifiers will be 1.
    pub fn new() -> (store: Store)
        ensures
            store@ == StoreView::empty(),
            store.wf(),
    {
        let store = Store {
            documents: Vec::new(),
            nodes: Vec::new(),
            contents: Vec::new(),
            next_document_id: 1,
            next_node_id: 1,
            next_content_id: 1,
        };
        assert(store@.documents =~= Seq::empty());
        assert(store@.nodes =~= Seq::empty());
        assert(store@.contents =~= Seq::empty());
        store
    }

    /// A store with three empty tables that hands out identifiers from the
    /// given ones on, as one that takes up the count where another left it.
    /// Identifiers begin at 1: there is no store for a lower one.
    pub fn starting_at(document_id: i64, node_id: i64, content_id: i64) -> (store: Option<Store>)
        ensures
            store is Some <==> document_id >= 1 && node_id >= 1 && content_id >= 1,
            store is Some ==> store->Some_0@ == StoreView::starting_at(
                document_id,
                node_id,
                content_id,
            ) && store->Some_0.wf(),
    {
        if document_id < 1 || node_id < 1 || content_id < 1 {
            return None;
        }
        let store = Store {
            documents: Vec::new(),
            nodes: Vec::new(),
            contents: Vec::new(),
            next_document_id: document_id,
            next_node_id: node_id,
            next_content_id: content_id,
        };
        assert(store@.documents =~= Seq::empty());
        assert(store@.nodes =~= Seq::empty());
        assert(store@.contents =~= Seq::empty());
        Some(store)
    }
}

} // verus!
