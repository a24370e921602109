use vstd::prelude::*;

verus! {

/// A document: the top-level container that owns nodes.
#[derive(Debug)]
pub struct Document {
    pub id: i64,
    pub title: String,
    pub created_at: String,
    pub updated_at: String,
}

/// A document as the contracts see it.
pub struct DocumentView {
    pub id: i64,
    pub title: Seq<char>,
    pub created_at: Seq<char>,
    pub updated_at: Seq<char>,
}

impl View for Document {
    type V = DocumentView;

    open spec fn view(&self) -> DocumentView {
        DocumentView {
            id: self.id,
            title: self.title@,
            created_at: self.created_at@,
            updated_at: self.updated_at@,
        }
    }
}

impl Clone for Document {
    fn clone(&self) -> (copy: Self)
        ensures
            copy@ == self@,
    {
        Document {
            id: self.id,
            title: self.title.clone(),
            created_at: self.created_at.clone(),
            updated_at: self.updated_at.clone(),
        }
    }
}

/// The body of a request that creates a document or gives one a new title.
#[derive(Debug, Clone)]
pub struct CreateDocumentRequest {
    pub title: String,
}

/// The view of a text that may be absent.
pub open spec fn text_view(text: Option<String>) -> Option<Seq<char>> {
    match text {
        Some(t) => Some(t@),
        None => None,
    }
}

/// A copy of a text that may be absent.
pub fn clone_text(text: &Option<String>) -> (copy: Option<String>)
    ensures
        text_view(copy) == text_view(*text),
{
    match text {
        Some(t) => Some(t.clone()),
        None => None,
    }
}

/// A node: a titled, typed unit of a document, ordered among its siblings.
/// `parent_id` is a plain identifier; nothing holds it to a node of the same
/// document, or to a node at all.
#[derive(Debug)]
pub struct Node {
    pub id: i64,
    pub document_id: i64,
    pub parent_id: Option<i64>,
    pub node_type: String,
    pub title: String,
    pub order_index: i64,
    pub indent_level: i64,
    pub image_url: Option<String>,
    pub created_at: String,
    pub updated_at: String,
}

/// A node as the contracts see it.
pub struct NodeView {
    pub id: i64,
    pub document_id: i64,
    pub parent_id: Option<i64>,
    pub node_type: Seq<char>,
    pub title: Seq<char>,
    pub order_index: i64,
    pub indent_level: i64,
    pub image_url: Option<Seq<char>>,
    pub created_at: Seq<char>,
    pub updated_at: Seq<char>,
}

impl View for Node {
    type V = NodeView;

    open spec fn view(&self) -> NodeView {
        NodeView {
            id: self.id,
            document_id: self.document_id,
            parent_id: self.parent_id,
            node_type: self.node_type@,
            title: self.title@,
            order_index: self.order_index,
            indent_level: self.indent_level,
            image_url: text_view(self.image_url),
            created_at: self.created_at@,
            updated_at: self.updated_at@,
        }
    }
}

impl Clone for Node {
    fn clone(&self) -> (copy: Self)
        ensures
            copy@ == self@,
    {
        Node {
            id: self.id,
            document_id: self.document_id,
            parent_id: self.parent_id,
            node_type: self.node_type.clone(),
            title: self.title.clone(),
            order_index: self.order_index,
            indent_level: self.indent_level,
            image_url: clone_text(&self.image_url),
            created_at: self.created_at.clone(),
            updated_at: self.updated_at.clone(),
        }
    }
}

/// The body of a request that creates a node.
#[derive(Debug, Clone)]
pub struct CreateNodeRequest {
    pub document_id: i64,
    pub parent_id: Option<i64>,
    pub node_type: String,
    pub title: String,
    pub order_index: i64,
    pub indent_level: i64,
    pub image_url: Option<String>,
}

/// A request to create a node as the contracts see it.
pub struct CreateNodeRequestView {
    pub document_id: i64,
    pub parent_id: Option<i64>,
    pub node_type: Seq<char>,
    pub title: Seq<char>,
    pub order_index: i64,
    pub indent_level: i64,
    pub image_url: Option<Seq<char>>,
}

impl View for CreateNodeRequest {
    type V = CreateNodeRequestView;

    open spec fn view(&self) -> CreateNodeRequestView {
        CreateNodeRequestView {
            document_id: self.document_id,
            parent_id: self.parent_id,
            node_type: self.node_type@,
            title: self.title@,
            order_index: self.order_index,
            indent_level: self.indent_level,
            image_url: text_view(self.image_url),
        }
    }
}

/// The body of a request that updates a node: the fields that are there are
/// written, the others stay as they are.
#[derive(Debug, Clone)]
pub struct UpdateNodeRequest {
    pub title: Option<String>,
    pub order_index: Option<i64>,
    pub indent_level: Option<i64>,
    pub parent_id: Option<i64>,
}

/// A request to update a node as the contracts see it.
pub struct UpdateNodeRequestView {
    pub title: Option<Seq<char>>,
    pub order_index: Option<i64>,
    pub indent_level: Option<i64>,
    pub parent_id: Option<i64>,
}

impl View for UpdateNodeRequest {
    type V = UpdateNodeRequestView;

    open spec fn view(&self) -> UpdateNodeRequestView {
        UpdateNodeRequestView {
            title: text_view(self.title),
            order_index: self.order_index,
            indent_level: self.indent_level,
            parent_id: self.parent_id,
        }
    }
}

/// The content of a node: an opaque text that the client interprets.
#[derive(Debug)]
pub struct Content {
    pub id: i64,
    pub node_id: i64,
    pub content_json: String,
    pub updated_at: String,
}

/// A content row as the contracts see it.
pub struct ContentView {
    pub id: i64,
    pub node_id: i64,
    pub content_json: Seq<char>,
    pub updated_at: Seq<char>,
}

impl View for Content {
    type V = ContentView;

    open spec fn view(&self) -> ContentView {
        ContentView {
            id: self.id,
            node_id: self.node_id,
            content_json: self.content_json@,
            updated_at: self.updated_at@,
        }
    }
}

impl Clone for Content {
    fn clone(&self) -> (copy: Self)
        ensures
            copy@ == self@,
    {
        Content {
            id: self.id,
            node_id: self.node_id,
            content_json: self.content_json.clone(),
            updated_at: self.updated_at.clone(),
        }
    }
}

/// The body of a request that saves the content of a node.
#[derive(Debug, Clone)]
pub struct SaveContentRequest {
    pub content_json: String,
}

/// The body of a request for a PDF export.
#[derive(Debug, Clone)]
pub struct ExportPdfRequest {
    pub document_id: i64,
    pub template: String,
}

} // verus!
