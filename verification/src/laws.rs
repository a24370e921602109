use vstd::prelude::*;
use crate::cascade::{
    content_survives, falls, falls_within, lemma_filter_indices, node_survives,
};
use crate::contents::lemma_content_index;
use crate::documents::lemma_document_index;
use crate::models::{CreateNodeRequestView, NodeView, UpdateNodeRequestView};
use crate::nodes::{apply_change, apply_changes, planned_changes, updated_node, NodeChangeView};
use crate::sorting::text_le;
use crate::store::StoreView;

verus! {

/// Deleting a document removes the document, every node that it owns and
/// every content row of such a node; and no node that is left hangs on a
/// node that went.
pub proof fn lemma_delete_document_cascades(store: StoreView, id: i64)
    requires
        store.wf(),
        store.has_document(id),
    ensures
        !store.without_document(id).has_document(id),
        forall|k: int|
            0 <= k < store.nodes.len() && (#[trigger] store.nodes[k]).document_id == id
                ==> !store.without_document(id).has_node(store.nodes[k].id)
                && !store.without_document(id).has_content(store.nodes[k].id),
        forall|i: int|
            0 <= i < store.without_document(id).nodes.len() ==> (
            #[trigger] store.without_document(id).nodes[i]).document_id != id,
        forall|i: int, k: int|
            0 <= i < store.without_document(id).nodes.len() && 0 <= k < store.nodes.len() && (
            #[trigger] store.nodes[k]).document_id == id ==> (
            #[trigger] store.without_document(id).nodes[i]).parent_id != Some(store.nodes[k].id),
{
    let after = store.without_document(id);
    let seeds = store.document_seeds(id);
    let at = store.document_index(id);
    assert forall|i: int| 0 <= i < after.documents.len() implies (
    #[trigger] after.documents[i]).id != id by {
        if i < at {
            assert(after.documents[i] == store.documents[i]);
            assert(store.documents[i].id != store.documents[at].id);
        } else {
            assert(after.documents[i] == store.documents[i + 1]);
            assert(store.documents[at].id != store.documents[i + 1].id);
        }
    }
    let node_places = lemma_filter_indices(store.nodes, node_survives(store.nodes, seeds));
    let content_places = lemma_filter_indices(
        store.contents,
        content_survives(store.nodes, seeds),
    );
    assert forall|k: int| 0 <= k < store.nodes.len() && (#[trigger] store.nodes[k]).document_id
        == id implies falls(store.nodes, seeds, store.nodes[k].id) by {
        assert(seeds.contains(store.nodes[k].id));
        assert(falls_within(store.nodes, seeds, store.nodes[k].id, 0));
    }
    assert forall|i: int| 0 <= i < after.nodes.len() implies (
    #[trigger] after.nodes[i]).document_id != id by {
        let p = node_places[i];
        assert(after.nodes[i] == store.nodes[p]);
    }
    assert forall|k: int|
        0 <= k < store.nodes.len() && (#[trigger] store.nodes[k]).document_id
            == id implies !after.has_node(store.nodes[k].id) && !after.has_content(
        store.nodes[k].id,
    ) by {
        assert forall|i: int| 0 <= i < after.nodes.len() implies (#[trigger] after.nodes[i]).id
            != store.nodes[k].id by {
            assert(after.nodes[i] == store.nodes[node_places[i]]);
        }
        assert forall|i: int| 0 <= i < after.contents.len() implies (
        #[trigger] after.contents[i]).node_id != store.nodes[k].id by {
            assert(after.contents[i] == store.contents[content_places[i]]);
        }
    }
    assert forall|i: int, k: int|
        0 <= i < after.nodes.len() && 0 <= k < store.nodes.len() && (
        #[trigger] store.nodes[k]).document_id == id implies (#[trigger] after.nodes[i]).parent_id
        != Some(store.nodes[k].id) by {
        let p = node_places[i];
        assert(after.nodes[i] == store.nodes[p]);
        if store.nodes[p].parent_id == Some(store.nodes[k].id) {
            crate::cascade::lemma_child_falls(store.nodes, seeds, p, k);
        }
    }
}

/// Deleting a node removes the node, its content and its children.
pub proof fn lemma_delete_node_cascades(store: StoreView, id: i64)
    requires
        store.wf(),
    ensures
        !store.without_node(id).has_node(id),
        store.has_node(id) ==> !store.without_node(id).has_content(id),
        store.has_node(id) ==> forall|i: int|
            0 <= i < store.without_node(id).nodes.len() ==> (
            #[trigger] store.without_node(id).nodes[i]).parent_id != Some(id),
{
    if store.has_node(id) {
        let after = store.without_node(id);
        let seeds = store.node_seeds(id);
        let at = store.node_index(id);
        let node_places = lemma_filter_indices(store.nodes, node_survives(store.nodes, seeds));
        let content_places = lemma_filter_indices(
            store.contents,
            content_survives(store.nodes, seeds),
        );
        assert(seeds.contains(id));
        assert(falls_within(store.nodes, seeds, id, 0));
        assert forall|i: int| 0 <= i < after.nodes.len() implies (#[trigger] after.nodes[i]).id
            != id && after.nodes[i].parent_id != Some(id) by {
            let p = node_places[i];
            assert(after.nodes[i] == store.nodes[p]);
            if store.nodes[p].parent_id == Some(id) {
                crate::cascade::lemma_child_falls(store.nodes, seeds, p, at);
            }
        }
        assert forall|i: int| 0 <= i < after.contents.len() implies (
        #[trigger] after.contents[i]).node_id != id by {
            assert(after.contents[i] == store.contents[content_places[i]]);
        }
    }
}

/// A document that was given a new title is fetched with that title and
/// with the time of the update, which is no earlier than the time it bore
/// before, as long as the clock did not go back. Its identifier and its
/// time of creation are as they were.
pub proof fn lemma_update_then_get_document(
    store: StoreView,
    id: i64,
    title: Seq<char>,
    now: Seq<char>,
)
    requires
        store.wf(),
        store.has_document(id),
        text_le(store.document(id).updated_at, now),
    ensures
        store.with_document_title(id, title, now).has_document(id),
        store.with_document_title(id, title, now).document(id).id == id,
        store.with_document_title(id, title, now).document(id).title == title,
        store.with_document_title(id, title, now).document(id).updated_at == now,
        store.with_document_title(id, title, now).document(id).created_at == store.document(
            id,
        ).created_at,
        text_le(
            store.document(id).updated_at,
            store.with_document_title(id, title, now).document(id).updated_at,
        ),
{
    let after = store.with_document_title(id, title, now);
    crate::documents::lemma_with_document_title_wf(store, id, title, now);
    lemma_document_index(after, id, store.document_index(id));
}

/// Two saves for one node leave exactly one content row for it, and that
/// row holds the text of the second save.
pub proof fn lemma_save_twice_keeps_one_row(
    store: StoreView,
    node_id: i64,
    first: Seq<char>,
    first_time: Seq<char>,
    second: Seq<char>,
    second_time: Seq<char>,
)
    requires
        store.wf(),
        store.can_save_content(node_id),
    ensures
        ({
            let after = store.with_content(node_id, first, first_time).with_content(
                node_id,
                second,
                second_time,
            );
            &&& after.has_content(node_id)
            &&& after.content(node_id).content_json == second
            &&& after.content(node_id).updated_at == second_time
            &&& forall|i: int|
                0 <= i < after.contents.len() && (#[trigger] after.contents[i]).node_id == node_id
                    ==> i == after.content_index(node_id)
        }),
{
    let once = store.with_content(node_id, first, first_time);
    crate::contents::lemma_with_content_wf(store, node_id, first, first_time);
    if store.has_content(node_id) {
        lemma_content_index(once, node_id, store.content_index(node_id));
    } else {
        lemma_content_index(once, node_id, store.contents.len() as int);
    }
    let after = once.with_content(node_id, second, second_time);
    crate::contents::lemma_with_content_wf(once, node_id, second, second_time);
    lemma_content_index(after, node_id, once.content_index(node_id));
    assert forall|i: int|
        0 <= i < after.contents.len() && (#[trigger] after.contents[i]).node_id
            == node_id implies i == after.content_index(node_id) by {
        lemma_content_index(after, node_id, i);
    }
}

/// A new store holds content for no node.
pub proof fn lemma_empty_store_has_no_content(node_id: i64)
    ensures
        StoreView::empty().wf(),
        !StoreView::empty().has_content(node_id),
{
}

/// Content comes into being by a save for its node and in no other way: a
/// node without content is still without it after any write to documents or
/// nodes, after any delete, and after a save for another node. So the
/// content of a node is not found before the first save for it.
pub proof fn lemma_content_only_by_save(
    store: StoreView,
    node_id: i64,
    id: i64,
    text: Seq<char>,
    now: Seq<char>,
    created: CreateNodeRequestView,
    updated: UpdateNodeRequestView,
)
    requires
        store.wf(),
        !store.has_content(node_id),
    ensures
        !store.with_document(text, now).has_content(node_id),
        !store.with_document_title(id, text, now).has_content(node_id),
        !store.without_document(id).has_content(node_id),
        !store.with_node(created, now).has_content(node_id),
        !store.with_node_update(id, updated, now).has_content(node_id),
        !store.without_node(id).has_content(node_id),
        id != node_id ==> !store.with_content(id, text, now).has_content(node_id),
{
    let by_document = store.without_document(id);
    let document_places = lemma_filter_indices(
        store.contents,
        content_survives(store.nodes, store.document_seeds(id)),
    );
    assert forall|i: int| 0 <= i < by_document.contents.len() implies (
    #[trigger] by_document.contents[i]).node_id != node_id by {
        if store.has_document(id) {
            assert(by_document.contents[i] == store.contents[document_places[i]]);
        }
    }
    let by_node = store.without_node(id);
    let node_places = lemma_filter_indices(
        store.contents,
        content_survives(store.nodes, store.node_seeds(id)),
    );
    assert forall|i: int| 0 <= i < by_node.contents.len() implies (
    #[trigger] by_node.contents[i]).node_id != node_id by {
        if store.has_node(id) {
            assert(by_node.contents[i] == store.contents[node_places[i]]);
        }
    }
    if id != node_id {
        let saved = store.with_content(id, text, now);
        assert forall|i: int| 0 <= i < saved.contents.len() implies (
        #[trigger] saved.contents[i]).node_id != node_id by {
            if i < store.contents.len() {
                assert(saved.contents[i].node_id == store.contents[i].node_id);
            }
        }
    }
}

/// One more write after a list of writes is that write made on the row
/// that the list leaves.
pub proof fn lemma_apply_one_more(
    row: NodeView,
    changes: Seq<NodeChangeView>,
    change: NodeChangeView,
    now: Seq<char>,
)
    ensures
        apply_changes(row, changes.push(change), now) == apply_change(
            apply_changes(row, changes, now),
            change,
            now,
        ),
{
    assert(changes.push(change).drop_last() =~= changes);
}

/// The writes that an update asks for, made one after the other at one
/// time, leave the row that the update is said to leave: the fields that
/// the request names have its values, and the others are untouched.
pub proof fn lemma_changes_make_the_update(
    row: NodeView,
    request: UpdateNodeRequestView,
    now: Seq<char>,
)
    ensures
        apply_changes(row, planned_changes(request), now) == updated_node(row, request, now),
{
    let none = Seq::<NodeChangeView>::empty();
    let first = match request.title {
        Some(title) => none.push(NodeChangeView::Title(title)),
        None => none,
    };
    let second = match request.order_index {
        Some(order_index) => first.push(NodeChangeView::OrderIndex(order_index)),
        None => first,
    };
    let third = match request.indent_level {
        Some(indent_level) => second.push(NodeChangeView::IndentLevel(indent_level)),
        None => second,
    };
    let fourth = match request.parent_id {
        Some(parent_id) => third.push(NodeChangeView::Parent(parent_id)),
        None => third,
    };
    assert(planned_changes(request) =~= fourth);
    if request.title is Some {
        lemma_apply_one_more(row, none, NodeChangeView::Title(request.title->Some_0), now);
    }
    if request.order_index is Some {
        lemma_apply_one_more(
            row,
            first,
            NodeChangeView::OrderIndex(request.order_index->Some_0),
            now,
        );
    }
    if request.indent_level is Some {
        lemma_apply_one_more(
            row,
            second,
            NodeChangeView::IndentLevel(request.indent_level->Some_0),
            now,
        );
    }
    if request.parent_id is Some {
        lemma_apply_one_more(row, third, NodeChangeView::Parent(request.parent_id->Some_0), now);
    }
}

} // verus!
