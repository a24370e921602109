use vstd::prelude::*;
use crate::cascade::{delete_cascading, is_node_id, lemma_after_cascade_wf};
use crate::error::ApiError;
use crate::models::{
    clone_text, CreateNodeRequest, CreateNodeRequestView, Node, NodeView, UpdateNodeRequest,
    UpdateNodeRequestView,
};
use crate::store::{node_views, Store, StoreView};

verus! {

impl StoreView {
    /// Whether a node with this identifier is in the store.
    pub open spec fn has_node(self, id: i64) -> bool {
        is_node_id(self.nodes, id)
    }

    /// The place of the node with this identifier in its table.
    pub open spec fn node_index(self, id: i64) -> int {
        choose|i: int| 0 <= i < self.nodes.len() && (#[trigger] self.nodes[i]).id == id
    }

    /// The node with this identifier.
    pub open spec fn node(self, id: i64) -> NodeView {
        self.nodes[self.node_index(id)]
    }

    /// The node that `request` creates at the time `now`.
    pub open spec fn new_node(self, request: CreateNodeRequestView, now: Seq<char>) -> NodeView {
        NodeView {
            id: self.next_node_id,
            document_id: request.document_id,
            parent_id: request.parent_id,
            node_type: request.node_type,
            title: request.title,
            order_index: request.order_index,
            indent_level: request.indent_level,
            image_url: request.image_url,
            created_at: now,
            updated_at: now,
        }
    }

    /// The store after `request` created a node at `now`. Neither the
    /// document nor the parent that the request names need be there.
    pub open spec fn with_node(self, request: CreateNodeRequestView, now: Seq<char>) -> StoreView {
        StoreView {
            nodes: self.nodes.push(self.new_node(request, now)),
            next_node_id: (self.next_node_id + 1) as i64,
            ..self
        }
    }
}

/// In a well-formed store the row that bears an identifier is the one that
/// `node_index` names.
pub proof fn lemma_node_index(store: StoreView, id: i64, i: int)
    requires
        store.wf(),
        0 <= i < store.nodes.len(),
        store.nodes[i].id == id,
    ensures
        store.has_node(id),
        store.node_index(id) == i,
        store.node(id) == store.nodes[i],
{
    let k = store.node_index(id);
    if k < i {
        assert(store.nodes[k].id != store.nodes[i].id);
    } else if k > i {
        assert(store.nodes[i].id != store.nodes[k].id);
    }
}

/// Looks for the node `id` in its table.
pub(crate) fn find_node(store: &Store, id: i64) -> (found: Option<usize>)
    requires
        store.wf(),
    ensures
        match found {
            Some(i) => store@.has_node(id) && i == store@.node_index(id) && i < store.nodes@.len(),
            None => !store@.has_node(id),
        },
{
    let mut i: usize = 0;
    while i < store.nodes.len()
        invariant
            store.wf(),
            i <= store.nodes@.len(),
            forall|j: int| 0 <= j < i ==> (#[trigger] store@.nodes[j]).id != id,
        decreases store.nodes@.len() - i,
    {
        if store.nodes[i].id == id {
            proof {
                lemma_node_index(store@, id, i as int);
            }
            return Some(i);
        }
        i += 1;
    }
    None
}

/// Returns the node `id`, or `NotFound` where the store holds none.
pub fn get_node(store: &Store, id: i64) -> (result: Result<Node, ApiError>)
    requires
        store.wf(),
    ensures
        store@.has_node(id) ==> result is Ok && result->Ok_0@ == store@.node(id),
        !store@.has_node(id) ==> result == Err::<Node, ApiError>(ApiError::NotFound),
{
    match find_node(store, id) {
        Some(i) => Ok(store.nodes[i].clone()),
        None => Err(ApiError::NotFound),
    }
}

/// Creating a node keeps the store well-formed.
pub proof fn lemma_with_node_wf(store: StoreView, request: CreateNodeRequestView, now: Seq<char>)
    requires
        store.wf(),
        store.next_node_id < i64::MAX,
    ensures
        store.with_node(request, now).wf(),
{
    let after = store.with_node(request, now);
    assert forall|i: int| 0 <= i < after.nodes.len() implies 1 <= (#[trigger] after.nodes[i]).id
        < after.next_node_id by {
        if i < store.nodes.len() {
            assert(after.nodes[i] == store.nodes[i]);
        }
    }
    assert forall|i: int, j: int| 0 <= i < j < after.nodes.len() implies (
    #[trigger] after.nodes[i]).id != (#[trigger] after.nodes[j]).id by {
        assert(after.nodes[i] == store.nodes[i]);
        if j < store.nodes.len() {
            assert(after.nodes[j] == store.nodes[j]);
        }
    }
}

/// Creates the node that `payload` describes at the time `now` and returns
/// its row. The store assigns the identifier; the document and the parent
/// that the payload names are not looked up. Where no identifier is left to
/// hand out, the write fails and the store stays as it is.
pub fn create_node(store: &mut Store, payload: &CreateNodeRequest, now: &str) -> (result: Result<
    Node,
    ApiError,
>)
    requires
        old(store).wf(),
    ensures
        final(store).wf(),
        old(store)@.next_node_id < i64::MAX ==> {
            &&& final(store)@ == old(store)@.with_node(payload@, now@)
            &&& result is Ok
            &&& result->Ok_0@ == old(store)@.new_node(payload@, now@)
            &&& final(store)@.has_node(old(store)@.next_node_id)
            &&& final(store)@.node(old(store)@.next_node_id) == result->Ok_0@
        },
        old(store)@.next_node_id == i64::MAX ==> {
            &&& final(store)@ == old(store)@
            &&& result == Err::<Node, ApiError>(ApiError::InternalError)
        },
{
    if store.next_node_id == i64::MAX {
        return Err(ApiError::InternalError);
    }
    let row = Node {
        id: store.next_node_id,
        document_id: payload.document_id,
        parent_id: payload.parent_id,
        node_type: payload.node_type.clone(),
        title: payload.title.clone(),
        order_index: payload.order_index,
        indent_level: payload.indent_level,
        image_url: clone_text(&payload.image_url),
        created_at: String::from_str(now),
        updated_at: String::from_str(now),
    };
    let copy = row.clone();
    store.nodes.push(row);
    store.next_node_id = store.next_node_id + 1;
    proof {
        assert(final(store)@.nodes =~= old(store)@.nodes.push(
            old(store)@.new_node(payload@, now@),
        ));
        lemma_with_node_wf(old(store)@, payload@, now@);
        lemma_node_index(final(store)@, old(store)@.next_node_id, old(store)@.nodes.len() as int);
    }
    Ok(copy)
}

/// Whether `request` names no field at all.
pub open spec fn changes_nothing(request: UpdateNodeRequestView) -> bool {
    request.title is None && request.order_index is None && request.indent_level is None
        && request.parent_id is None
}

/// The row `row` after `request` was written to it at `now`: each field
/// that the request names has the request's value, the others are as they
/// were, and the time of update is `now` if anything was written.
pub open spec fn updated_node(row: NodeView, request: UpdateNodeRequestView, now: Seq<char>) -> NodeView {
    NodeView {
        title: match request.title {
            Some(title) => title,
            None => row.title,
        },
        order_index: match request.order_index {
            Some(order_index) => order_index,
            None => row.order_index,
        },
        indent_level: match request.indent_level {
            Some(indent_level) => indent_level,
            None => row.indent_level,
        },
        parent_id: match request.parent_id {
            Some(parent_id) => Some(parent_id),
            None => row.parent_id,
        },
        updated_at: if changes_nothing(request) {
            row.updated_at
        } else {
            now
        },
        ..row
    }
}

impl StoreView {
    /// The store after `request` was written to the node `id` at `now`.
    /// Where there is no such node the store is the same.
    pub open spec fn with_node_update(
        self,
        id: i64,
        request: UpdateNodeRequestView,
        now: Seq<char>,
    ) -> StoreView {
        if self.has_node(id) {
            StoreView {
                nodes: self.nodes.update(
                    self.node_index(id),
                    updated_node(self.node(id), request, now),
                ),
                ..self
            }
        } else {
            self
        }
    }
}

/// Updating a node keeps the store well-formed.
pub proof fn lemma_with_node_update_wf(
    store: StoreView,
    id: i64,
    request: UpdateNodeRequestView,
    now: Seq<char>,
)
    requires
        store.wf(),
    ensures
        store.with_node_update(id, request, now).wf(),
{
    let after = store.with_node_update(id, request, now);
    if store.has_node(id) {
        assert forall|i: int| 0 <= i < after.nodes.len() implies 1 <= (
        #[trigger] after.nodes[i]).id < after.next_node_id by {
            assert(after.nodes[i].id == store.nodes[i].id);
        }
        assert forall|i: int, j: int| 0 <= i < j < after.nodes.len() implies (
        #[trigger] after.nodes[i]).id != (#[trigger] after.nodes[j]).id by {
            assert(after.nodes[i].id == store.nodes[i].id);
            assert(after.nodes[j].id == store.nodes[j].id);
        }
    }
}

/// Writes the fields that `payload` names to the node `id`, with `now` as
/// the time of update, and returns the row as it then is. Fields that the
/// payload leaves out stay as they are; a payload that names none writes
/// nothing. Where the store holds no such node, the answer is `NotFound`.
pub fn update_node(store: &mut Store, id: i64, payload: &UpdateNodeRequest, now: &str) -> (result:
    Result<Node, ApiError>)
    requires
        old(store).wf(),
    ensures
        final(store).wf(),
        final(store)@ == old(store)@.with_node_update(id, payload@, now@),
        old(store)@.has_node(id) ==> {
            &&& result is Ok
            &&& result->Ok_0@ == updated_node(old(store)@.node(id), payload@, now@)
            &&& final(store)@.has_node(id)
            &&& final(store)@.node(id) == result->Ok_0@
        },
        !old(store)@.has_node(id) ==> result == Err::<Node, ApiError>(ApiError::NotFound),
{
    let at = match find_node(store, id) {
        Some(i) => i,
        None => {
            return Err(ApiError::NotFound);
        },
    };
    let mut row = store.nodes[at].clone();
    let mut written = false;
    match &payload.title {
        Some(title) => {
            row.title = title.clone();
            written = true;
        },
        None => {},
    }
    match payload.order_index {
        Some(order_index) => {
            row.order_index = order_index;
            written = true;
        },
        None => {},
    }
    match payload.indent_level {
        Some(indent_level) => {
            row.indent_level = indent_level;
            written = true;
        },
        None => {},
    }
    match payload.parent_id {
        Some(parent_id) => {
            row.parent_id = Some(parent_id);
            written = true;
        },
        None => {},
    }
    if written {
        row.updated_at = String::from_str(now);
    }
    let copy = row.clone();
    store.nodes.set(at, row);
    proof {
        let before = old(store)@;
        let after = final(store)@;
        assert(after.nodes =~= before.nodes.update(
            at as int,
            updated_node(before.node(id), payload@, now@),
        ));
        lemma_with_node_update_wf(before, id, payload@, now@);
        lemma_node_index(after, id, at as int);
    }
    Ok(copy)
}

impl StoreView {
    /// The node `id` alone, if it is in the store, and else nothing.
    pub open spec fn node_seeds(self, id: i64) -> Set<i64> {
        Set::new(|n: i64| n == id && self.has_node(id))
    }

    /// The store after the node `id` was deleted: the node is gone, and with
    /// it every node that hangs on it by a chain of parents, and the content
    /// of all these. Where there is no such node the store is the same.
    pub open spec fn without_node(self, id: i64) -> StoreView {
        if self.has_node(id) {
            self.after_cascade(self.node_seeds(id))
        } else {
            self
        }
    }
}

/// Deletes the node `id` with the nodes below it and their content. Deleting
/// a node that is not there changes nothing and is no error.
pub fn delete_node(store: &mut Store, id: i64) -> (result: Result<(), ApiError>)
    requires
        old(store).wf(),
    ensures
        final(store).wf(),
        final(store)@ == old(store)@.without_node(id),
        result is Ok,
{
    let at = match find_node(store, id) {
        Some(i) => i,
        None => {
            return Ok(());
        },
    };
    let ghost seeds = store@.node_seeds(id);
    let ghost rows = store@.nodes;
    let mut marks: Vec<bool> = Vec::new();
    let mut i: usize = 0;
    while i < store.nodes.len()
        invariant
            store.wf(),
            rows == store@.nodes,
            seeds == store@.node_seeds(id),
            store@.has_node(id),
            at == store@.node_index(id),
            at < store.nodes@.len(),
            i <= store.nodes@.len(),
            marks@.len() == i,
            forall|k: int| 0 <= k < i ==> marks@[k] == seeds.contains((#[trigger] rows[k]).id),
        decreases store.nodes@.len() - i,
    {
        proof {
            if i != at {
                if rows[i as int].id == id {
                    lemma_node_index(store@, id, i as int);
                }
            }
        }
        marks.push(i == at);
        i += 1;
    }
    proof {
        lemma_after_cascade_wf(store@, seeds);
    }
    let left = delete_cascading(&store.nodes, &store.contents, marks, Ghost(seeds));
    store.nodes = left.0;
    store.contents = left.1;
    Ok(())
}

/// The test that a node passes if the document `document_id` owns it.
pub open spec fn owned_by(document_id: i64) -> spec_fn(NodeView) -> bool {
    |n: NodeView| n.document_id == document_id
}

/// Whether the rows stand by rising order index.
pub open spec fn in_sibling_order(rows: Seq<NodeView>) -> bool {
    forall|i: int, j: int|
        0 <= i < j < rows.len() ==> (#[trigger] rows[i]).order_index <= (
        #[trigger] rows[j]).order_index
}

/// Puts `row` into `rows`, which stand by rising order index, behind the
/// rows whose index is the same or lower.
fn insert_by_order(rows: &mut Vec<Node>, row: Node)
    requires
        in_sibling_order(node_views(old(rows)@)),
    ensures
        in_sibling_order(node_views(final(rows)@)),
        node_views(final(rows)@).to_multiset() == node_views(old(rows)@).to_multiset().insert(
            row@,
        ),
{
    let mut k: usize = 0;
    while k < rows.len() && rows[k].order_index <= row.order_index
        invariant
            k <= rows@.len(),
            forall|i: int| 0 <= i < k ==> (#[trigger] rows@[i])@.order_index <= row@.order_index,
        decreases rows@.len() - k,
    {
        k += 1;
    }
    let ghost before = node_views(rows@);
    rows.insert(k, row);
    proof {
        let after = node_views(rows@);
        assert(after =~= before.insert(k as int, row@));
        vstd::seq_lib::to_multiset_insert(before, k as int, row@);
        assert forall|i: int, j: int| 0 <= i < j < after.len() implies (
        #[trigger] after[i]).order_index <= (#[trigger] after[j]).order_index by {
            if j < k {
                assert(after[i] == before[i] && after[j] == before[j]);
            } else if j == k {
                assert(after[i] == before[i]);
                assert(before[i] == old(rows)@[i]@);
            } else if i == k {
                assert(after[j] == before[j - 1]);
                assert(before[k as int].order_index <= before[j - 1].order_index);
            } else if i < k {
                assert(after[i] == before[i] && after[j] == before[j - 1]);
            } else {
                assert(after[i] == before[i - 1] && after[j] == before[j - 1]);
            }
        }
    }
}

/// Lists the nodes of the document `document_id` as a flat list, by rising
/// order index. Nodes with the same index stand in no particular order.
pub fn list_nodes(store: &Store, document_id: i64) -> (result: Result<Vec<Node>, ApiError>)
    ensures
        result is Ok,
        in_sibling_order(node_views(result->Ok_0@)),
        node_views(result->Ok_0@).to_multiset() == store@.nodes.filter(
            owned_by(document_id),
        ).to_multiset(),
{
    let mut rows: Vec<Node> = Vec::new();
    let mut i: usize = 0;
    assert(store@.nodes.take(0).filter(owned_by(document_id)) =~= node_views(rows@)) by {
        reveal(Seq::filter);
    }
    while i < store.nodes.len()
        invariant
            i <= store.nodes@.len(),
            in_sibling_order(node_views(rows@)),
            node_views(rows@).to_multiset() == store@.nodes.take(i as int).filter(
                owned_by(document_id),
            ).to_multiset(),
        decreases store.nodes@.len() - i,
    {
        proof {
            let all = store@.nodes;
            let seen = all.take(i as int);
            assert(all.take(i + 1) =~= seen.push(all[i as int]));
            seen.lemma_filter_push(all[i as int], owned_by(document_id));
            vstd::seq_lib::to_multiset_build(seen.filter(owned_by(document_id)), all[i as int]);
        }
        if store.nodes[i].document_id == document_id {
            insert_by_order(&mut rows, store.nodes[i].clone());
        }
        i += 1;
    }
    assert(store@.nodes.take(i as int) =~= store@.nodes);
    Ok(rows)
}

/// One write to a node: a field and its new value.
#[derive(Debug)]
pub enum NodeChange {
    Title(String),
    OrderIndex(i64),
    IndentLevel(i64),
    Parent(i64),
}

/// A write to a node as the contracts see it.
pub enum NodeChangeView {
    Title(Seq<char>),
    OrderIndex(i64),
    IndentLevel(i64),
    Parent(i64),
}

impl View for NodeChange {
    type V = NodeChangeView;

    open spec fn view(&self) -> NodeChangeView {
        match self {
            NodeChange::Title(title) => NodeChangeView::Title(title@),
            NodeChange::OrderIndex(order_index) => NodeChangeView::OrderIndex(*order_index),
            NodeChange::IndentLevel(indent_level) => NodeChangeView::IndentLevel(*indent_level),
            NodeChange::Parent(parent_id) => NodeChangeView::Parent(*parent_id),
        }
    }
}

/// The views of a list of writes.
pub open spec fn change_views(changes: Seq<NodeChange>) -> Seq<NodeChangeView> {
    Seq::new(changes.len(), |i: int| changes[i]@)
}

/// The writes that `request` asks for, one for each field that it names, in
/// the order title, order index, indent level, parent.
pub open spec fn planned_changes(request: UpdateNodeRequestView) -> Seq<NodeChangeView> {
    (match request.title {
        Some(title) => seq![NodeChangeView::Title(title)],
        None => seq![],
    }) + (match request.order_index {
        Some(order_index) => seq![NodeChangeView::OrderIndex(order_index)],
        None => seq![],
    }) + (match request.indent_level {
        Some(indent_level) => seq![NodeChangeView::IndentLevel(indent_level)],
        None => seq![],
    }) + (match request.parent_id {
        Some(parent_id) => seq![NodeChangeView::Parent(parent_id)],
        None => seq![],
    })
}

/// The row after one write at `now`: the field has its new value and the
/// time of update is `now`.
pub open spec fn apply_change(row: NodeView, change: NodeChangeView, now: Seq<char>) -> NodeView {
    match change {
        NodeChangeView::Title(title) => NodeView { title, updated_at: now, ..row },
        NodeChangeView::OrderIndex(order_index) => NodeView { order_index, updated_at: now, ..row },
        NodeChangeView::IndentLevel(indent_level) => NodeView {
            indent_level,
            updated_at: now,
            ..row
        },
        NodeChangeView::Parent(parent_id) => NodeView {
            parent_id: Some(parent_id),
            updated_at: now,
            ..row
        },
    }
}

/// The row after the writes `changes`, one after the other, all at `now`.
pub open spec fn apply_changes(row: NodeView, changes: Seq<NodeChangeView>, now: Seq<char>) -> NodeView
    decreases changes.len(),
{
    if changes.len() == 0 {
        row
    } else {
        apply_change(apply_changes(row, changes.drop_last(), now), changes.last(), now)
    }
}

/// The writes that `payload` asks for, in the order in which they are made.
pub fn node_changes(payload: &UpdateNodeRequest) -> (changes: Vec<NodeChange>)
    ensures
        change_views(changes@) == planned_changes(payload@),
{
    let mut changes: Vec<NodeChange> = Vec::new();
    match &payload.title {
        Some(title) => {
            changes.push(NodeChange::Title(title.clone()));
        },
        None => {},
    }
    match payload.order_index {
        Some(order_index) => {
            changes.push(NodeChange::OrderIndex(order_index));
        },
        None => {},
    }
    match payload.indent_level {
        Some(indent_level) => {
            changes.push(NodeChange::IndentLevel(indent_level));
        },
        None => {},
    }
    match payload.parent_id {
        Some(parent_id) => {
            changes.push(NodeChange::Parent(parent_id));
        },
        None => {},
    }
    assert(change_views(changes@) =~= planned_changes(payload@));
    changes
}

} // verus!
