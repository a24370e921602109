use outline_backend::contents::{get_content, save_content};
use outline_backend::documents::{
    create_document, delete_document, get_document, list_documents, update_document,
};
use outline_backend::error::ApiError;
use outline_backend::models::{
    CreateDocumentRequest, CreateNodeRequest, SaveContentRequest, UpdateNodeRequest,
};
use outline_backend::nodes::{
    create_node, delete_node, get_node, list_nodes, node_changes, update_node, NodeChange,
};
use outline_backend::store::Store;

fn titled(title: &str) -> CreateDocumentRequest {
    CreateDocumentRequest { title: title.to_string() }
}

fn node_in(document_id: i64, parent_id: Option<i64>, title: &str, order_index: i64) -> CreateNodeRequest {
    CreateNodeRequest {
        document_id,
        parent_id,
        node_type: "section".to_string(),
        title: title.to_string(),
        order_index,
        indent_level: 0,
        image_url: None,
    }
}

fn text(content_json: &str) -> SaveContentRequest {
    SaveContentRequest { content_json: content_json.to_string() }
}

fn no_change() -> UpdateNodeRequest {
    UpdateNodeRequest { title: None, order_index: None, indent_level: None, parent_id: None }
}

#[test]
fn a_created_document_has_the_next_id_and_the_time() {
    let mut store = Store::new();
    let first = create_document(&mut store, &titled("One"), "2024-01-01 10:00:00").unwrap();
    let second = create_document(&mut store, &titled("Two"), "2024-01-01 10:00:05").unwrap();
    assert_eq!(first.id, 1);
    assert_eq!(first.title, "One");
    assert_eq!(first.created_at, "2024-01-01 10:00:00");
    assert_eq!(first.updated_at, "2024-01-01 10:00:00");
    assert_eq!(second.id, 2);
    let fetched = get_document(&store, 2).unwrap();
    assert_eq!(fetched.title, "Two");
    assert_eq!(fetched.created_at, "2024-01-01 10:00:05");
}

#[test]
fn a_missing_document_is_not_found() {
    let mut store = Store::new();
    assert!(matches!(get_document(&store, 1), Err(ApiError::NotFound)));
    create_document(&mut store, &titled("One"), "t").unwrap();
    assert!(matches!(get_document(&store, 2), Err(ApiError::NotFound)));
    assert!(matches!(get_document(&store, 0), Err(ApiError::NotFound)));
    assert!(matches!(get_document(&store, -1), Err(ApiError::NotFound)));
}

#[test]
fn an_updated_document_is_fetched_with_its_new_title() {
    let mut store = Store::new();
    create_document(&mut store, &titled("Draft"), "2024-01-01 10:00:00").unwrap();
    let updated = update_document(&mut store, 1, &titled("Final"), "2024-01-02 09:30:00").unwrap();
    assert_eq!(updated.title, "Final");
    let fetched = get_document(&store, 1).unwrap();
    assert_eq!(fetched.id, 1);
    assert_eq!(fetched.title, "Final");
    assert_eq!(fetched.created_at, "2024-01-01 10:00:00");
    assert_eq!(fetched.updated_at, "2024-01-02 09:30:00");
    assert!(fetched.updated_at.as_str() >= "2024-01-01 10:00:00");
}

#[test]
fn updating_a_missing_document_is_not_found_and_writes_nothing() {
    let mut store = Store::new();
    create_document(&mut store, &titled("One"), "t1").unwrap();
    assert!(matches!(update_document(&mut store, 9, &titled("X"), "t2"), Err(ApiError::NotFound)));
    assert_eq!(list_documents(&store).unwrap().len(), 1);
    assert_eq!(get_document(&store, 1).unwrap().title, "One");
    assert_eq!(get_document(&store, 1).unwrap().updated_at, "t1");
}

#[test]
fn documents_are_listed_newest_first() {
    let mut store = Store::new();
    assert!(list_documents(&store).unwrap().is_empty());
    create_document(&mut store, &titled("A"), "2024-01-01 10:00:00").unwrap();
    create_document(&mut store, &titled("B"), "2024-01-03 10:00:00").unwrap();
    create_document(&mut store, &titled("C"), "2024-01-02 10:00:00").unwrap();
    let titles: Vec<String> = list_documents(&store).unwrap().into_iter().map(|d| d.title).collect();
    assert_eq!(titles, vec!["B", "C", "A"]);
    update_document(&mut store, 1, &titled("A2"), "2024-01-04 08:00:00").unwrap();
    let titles: Vec<String> = list_documents(&store).unwrap().into_iter().map(|d| d.title).collect();
    assert_eq!(titles, vec!["A2", "B", "C"]);
}

#[test]
fn deleting_a_document_takes_its_nodes_and_their_content() {
    let mut store = Store::new();
    create_document(&mut store, &titled("Keep"), "t").unwrap();
    create_document(&mut store, &titled("Drop"), "t").unwrap();
    create_node(&mut store, &node_in(1, None, "kept", 0), "t").unwrap();
    create_node(&mut store, &node_in(2, None, "root", 0), "t").unwrap();
    create_node(&mut store, &node_in(2, Some(2), "child", 1), "t").unwrap();
    create_node(&mut store, &node_in(2, Some(3), "grandchild", 2), "t").unwrap();
    for node_id in 1..=4 {
        save_content(&mut store, node_id, &text("{}"), "t").unwrap();
    }
    assert!(delete_document(&mut store, 2).is_ok());
    assert!(matches!(get_document(&store, 2), Err(ApiError::NotFound)));
    assert!(list_nodes(&store, 2).unwrap().is_empty());
    for node_id in 2..=4 {
        assert!(matches!(get_node(&store, node_id), Err(ApiError::NotFound)));
        assert!(matches!(get_content(&store, node_id), Err(ApiError::NotFound)));
    }
    assert_eq!(get_document(&store, 1).unwrap().title, "Keep");
    assert_eq!(get_node(&store, 1).unwrap().title, "kept");
    assert_eq!(get_content(&store, 1).unwrap().content_json, "{}");
}

#[test]
fn deleting_a_document_takes_nodes_of_others_that_hang_on_its_nodes() {
    let mut store = Store::new();
    create_document(&mut store, &titled("One"), "t").unwrap();
    create_document(&mut store, &titled("Two"), "t").unwrap();
    create_node(&mut store, &node_in(1, None, "root of one", 0), "t").unwrap();
    create_node(&mut store, &node_in(2, Some(1), "in two, under one", 0), "t").unwrap();
    create_node(&mut store, &node_in(2, None, "root of two", 1), "t").unwrap();
    save_content(&mut store, 2, &text("x"), "t").unwrap();
    delete_document(&mut store, 1).unwrap();
    assert!(matches!(get_node(&store, 1), Err(ApiError::NotFound)));
    assert!(matches!(get_node(&store, 2), Err(ApiError::NotFound)));
    assert!(matches!(get_content(&store, 2), Err(ApiError::NotFound)));
    assert_eq!(get_node(&store, 3).unwrap().title, "root of two");
    assert_eq!(get_document(&store, 2).unwrap().title, "Two");
}

#[test]
fn deleting_a_missing_document_is_no_error_and_changes_nothing() {
    let mut store = Store::new();
    create_document(&mut store, &titled("One"), "t").unwrap();
    create_node(&mut store, &node_in(7, None, "of no document", 0), "t").unwrap();
    assert!(delete_document(&mut store, 7).is_ok());
    assert!(delete_document(&mut store, 7).is_ok());
    assert_eq!(get_document(&store, 1).unwrap().title, "One");
    assert_eq!(get_node(&store, 1).unwrap().document_id, 7);
}

#[test]
fn identifiers_are_not_handed_out_twice() {
    let mut store = Store::new();
    create_document(&mut store, &titled("One"), "t").unwrap();
    delete_document(&mut store, 1).unwrap();
    let next = create_document(&mut store, &titled("Two"), "t").unwrap();
    assert_eq!(next.id, 2);
    create_node(&mut store, &node_in(2, None, "a", 0), "t").unwrap();
    delete_node(&mut store, 1).unwrap();
    assert_eq!(create_node(&mut store, &node_in(2, None, "b", 0), "t").unwrap().id, 2);
}

#[test]
fn a_created_node_keeps_what_the_request_says() {
    let mut store = Store::new();
    let request = CreateNodeRequest {
        document_id: 5,
        parent_id: Some(99),
        node_type: "figure".to_string(),
        title: "Plot".to_string(),
        order_index: -3,
        indent_level: 2,
        image_url: Some("/uploads/1_plot.png".to_string()),
    };
    let node = create_node(&mut store, &request, "2024-05-05 05:05:05").unwrap();
    assert_eq!(node.id, 1);
    assert_eq!(node.document_id, 5);
    assert_eq!(node.parent_id, Some(99));
    assert_eq!(node.node_type, "figure");
    assert_eq!(node.title, "Plot");
    assert_eq!(node.order_index, -3);
    assert_eq!(node.indent_level, 2);
    assert_eq!(node.image_url, Some("/uploads/1_plot.png".to_string()));
    assert_eq!(node.created_at, "2024-05-05 05:05:05");
    assert_eq!(node.updated_at, "2024-05-05 05:05:05");
    let fetched = get_node(&store, 1).unwrap();
    assert_eq!(fetched.title, "Plot");
    assert_eq!(fetched.parent_id, Some(99));
    assert!(matches!(get_node(&store, 2), Err(ApiError::NotFound)));
}

#[test]
fn nodes_are_listed_flat_by_order_index() {
    let mut store = Store::new();
    create_document(&mut store, &titled("Doc"), "t").unwrap();
    create_node(&mut store, &node_in(1, None, "third", 30), "t").unwrap();
    create_node(&mut store, &node_in(1, Some(1), "first", -10), "t").unwrap();
    create_node(&mut store, &node_in(2, None, "elsewhere", 0), "t").unwrap();
    create_node(&mut store, &node_in(1, Some(2), "second", 20), "t").unwrap();
    let titles: Vec<String> = list_nodes(&store, 1).unwrap().into_iter().map(|n| n.title).collect();
    assert_eq!(titles, vec!["first", "second", "third"]);
    let titles: Vec<String> = list_nodes(&store, 2).unwrap().into_iter().map(|n| n.title).collect();
    assert_eq!(titles, vec!["elsewhere"]);
    assert!(list_nodes(&store, 3).unwrap().is_empty());
}

#[test]
fn an_update_writes_only_the_fields_it_names() {
    let mut store = Store::new();
    create_node(&mut store, &node_in(1, Some(8), "old", 4), "t0").unwrap();
    let request = UpdateNodeRequest { title: Some("new".to_string()), ..no_change() };
    let node = update_node(&mut store, 1, &request, "t1").unwrap();
    assert_eq!(node.title, "new");
    assert_eq!(node.order_index, 4);
    assert_eq!(node.indent_level, 0);
    assert_eq!(node.parent_id, Some(8));
    assert_eq!(node.node_type, "section");
    assert_eq!(node.created_at, "t0");
    assert_eq!(node.updated_at, "t1");

    let request = UpdateNodeRequest {
        title: None,
        order_index: Some(9),
        indent_level: Some(3),
        parent_id: Some(2),
    };
    let node = update_node(&mut store, 1, &request, "t2").unwrap();
    assert_eq!(node.title, "new");
    assert_eq!(node.order_index, 9);
    assert_eq!(node.indent_level, 3);
    assert_eq!(node.parent_id, Some(2));
    assert_eq!(node.updated_at, "t2");
    assert_eq!(get_node(&store, 1).unwrap().order_index, 9);
}

#[test]
fn an_empty_update_writes_nothing() {
    let mut store = Store::new();
    create_node(&mut store, &node_in(1, None, "same", 4), "t0").unwrap();
    let node = update_node(&mut store, 1, &no_change(), "t1").unwrap();
    assert_eq!(node.title, "same");
    assert_eq!(node.updated_at, "t0");
    assert!(matches!(update_node(&mut store, 2, &no_change(), "t1"), Err(ApiError::NotFound)));
    let request = UpdateNodeRequest { title: Some("x".to_string()), ..no_change() };
    assert!(matches!(update_node(&mut store, 2, &request, "t1"), Err(ApiError::NotFound)));
}

#[test]
fn the_writes_of_an_update_come_in_a_fixed_order() {
    assert!(node_changes(&no_change()).is_empty());
    let request = UpdateNodeRequest {
        title: Some("t".to_string()),
        order_index: Some(1),
        indent_level: Some(2),
        parent_id: Some(3),
    };
    let changes = node_changes(&request);
    assert_eq!(changes.len(), 4);
    assert!(matches!(&changes[0], NodeChange::Title(t) if t == "t"));
    assert!(matches!(changes[1], NodeChange::OrderIndex(1)));
    assert!(matches!(changes[2], NodeChange::IndentLevel(2)));
    assert!(matches!(changes[3], NodeChange::Parent(3)));
    let request = UpdateNodeRequest { indent_level: Some(5), ..no_change() };
    let changes = node_changes(&request);
    assert_eq!(changes.len(), 1);
    assert!(matches!(changes[0], NodeChange::IndentLevel(5)));
}

#[test]
fn deleting_a_node_takes_what_is_below_it() {
    let mut store = Store::new();
    create_node(&mut store, &node_in(1, None, "root", 0), "t").unwrap();
    create_node(&mut store, &node_in(1, Some(1), "child", 1), "t").unwrap();
    create_node(&mut store, &node_in(1, Some(2), "grandchild", 2), "t").unwrap();
    create_node(&mut store, &node_in(1, None, "sibling", 3), "t").unwrap();
    create_node(&mut store, &node_in(1, Some(4), "nephew", 4), "t").unwrap();
    for node_id in 1..=5 {
        save_content(&mut store, node_id, &text("c"), "t").unwrap();
    }
    assert!(delete_node(&mut store, 2).is_ok());
    let titles: Vec<String> = list_nodes(&store, 1).unwrap().into_iter().map(|n| n.title).collect();
    assert_eq!(titles, vec!["root", "sibling", "nephew"]);
    assert!(matches!(get_content(&store, 2), Err(ApiError::NotFound)));
    assert!(matches!(get_content(&store, 3), Err(ApiError::NotFound)));
    assert_eq!(get_content(&store, 1).unwrap().content_json, "c");
    assert_eq!(get_content(&store, 5).unwrap().content_json, "c");
    assert!(delete_node(&mut store, 2).is_ok());
    assert_eq!(list_nodes(&store, 1).unwrap().len(), 3);
}

#[test]
fn deleting_a_node_in_a_cycle_of_parents_takes_the_cycle() {
    let mut store = Store::new();
    create_node(&mut store, &node_in(1, Some(3), "a", 0), "t").unwrap();
    create_node(&mut store, &node_in(1, Some(1), "b", 1), "t").unwrap();
    create_node(&mut store, &node_in(1, Some(2), "c", 2), "t").unwrap();
    create_node(&mut store, &node_in(1, Some(42), "dangling", 3), "t").unwrap();
    delete_node(&mut store, 2).unwrap();
    let titles: Vec<String> = list_nodes(&store, 1).unwrap().into_iter().map(|n| n.title).collect();
    assert_eq!(titles, vec!["dangling"]);
}

#[test]
fn deleting_a_missing_node_leaves_its_would_be_children() {
    let mut store = Store::new();
    create_node(&mut store, &node_in(1, Some(42), "dangling", 0), "t").unwrap();
    save_content(&mut store, 42, &text("of no node"), "t").unwrap();
    assert!(delete_node(&mut store, 42).is_ok());
    assert_eq!(get_node(&store, 1).unwrap().title, "dangling");
    assert_eq!(get_content(&store, 42).unwrap().content_json, "of no node");
}

#[test]
fn content_is_not_found_before_the_first_save() {
    let mut store = Store::new();
    assert!(matches!(get_content(&store, 1), Err(ApiError::NotFound)));
    create_document(&mut store, &titled("Doc"), "t").unwrap();
    create_node(&mut store, &node_in(1, None, "n", 0), "t").unwrap();
    update_node(&mut store, 1, &UpdateNodeRequest { order_index: Some(2), ..no_change() }, "t").unwrap();
    assert!(matches!(get_content(&store, 1), Err(ApiError::NotFound)));
    save_content(&mut store, 2, &text("other"), "t").unwrap();
    assert!(matches!(get_content(&store, 1), Err(ApiError::NotFound)));
    save_content(&mut store, 1, &text("mine"), "t").unwrap();
    assert_eq!(get_content(&store, 1).unwrap().content_json, "mine");
}

#[test]
fn a_second_save_overwrites_the_one_row() {
    let mut store = Store::new();
    create_node(&mut store, &node_in(1, None, "n", 0), "t").unwrap();
    let first = save_content(&mut store, 1, &text("{\"v\":1}"), "2024-01-01 00:00:00").unwrap();
    assert_eq!(first.id, 1);
    assert_eq!(first.node_id, 1);
    assert_eq!(first.content_json, "{\"v\":1}");
    assert_eq!(first.updated_at, "2024-01-01 00:00:00");
    let second = save_content(&mut store, 1, &text("{\"v\":2}"), "2024-01-01 00:00:09").unwrap();
    assert_eq!(second.id, 1);
    assert_eq!(second.node_id, 1);
    assert_eq!(second.content_json, "{\"v\":2}");
    assert_eq!(second.updated_at, "2024-01-01 00:00:09");
    let fetched = get_content(&store, 1).unwrap();
    assert_eq!(fetched.id, 1);
    assert_eq!(fetched.content_json, "{\"v\":2}");
    let other = save_content(&mut store, 2, &text("x"), "t").unwrap();
    assert_eq!(other.id, 2);
}

#[test]
fn a_write_fails_when_no_identifier_is_left() {
    let mut store = Store::starting_at(i64::MAX - 1, i64::MAX, i64::MAX).unwrap();
    assert_eq!(create_document(&mut store, &titled("last"), "t").unwrap().id, i64::MAX - 1);
    assert!(matches!(
        create_document(&mut store, &titled("none left"), "t"),
        Err(ApiError::InternalError)
    ));
    assert_eq!(list_documents(&store).unwrap().len(), 1);
    assert!(matches!(
        create_node(&mut store, &node_in(1, None, "none left", 0), "t"),
        Err(ApiError::InternalError)
    ));
    assert!(list_nodes(&store, 1).unwrap().is_empty());
    assert!(matches!(save_content(&mut store, 1, &text("x"), "t"), Err(ApiError::InternalError)));
    assert!(matches!(get_content(&store, 1), Err(ApiError::NotFound)));
}

#[test]
fn a_save_for_a_node_with_content_needs_no_identifier() {
    let mut store = Store::starting_at(1, 1, i64::MAX - 1).unwrap();
    assert_eq!(save_content(&mut store, 5, &text("a"), "t1").unwrap().id, i64::MAX - 1);
    assert!(matches!(save_content(&mut store, 6, &text("b"), "t2"), Err(ApiError::InternalError)));
    let again = save_content(&mut store, 5, &text("c"), "t3").unwrap();
    assert_eq!(again.id, i64::MAX - 1);
    assert_eq!(again.content_json, "c");
    assert_eq!(again.updated_at, "t3");
}

#[test]
fn identifiers_begin_at_one() {
    assert!(Store::starting_at(1, 1, 1).is_some());
    assert!(Store::starting_at(0, 1, 1).is_none());
    assert!(Store::starting_at(1, -5, 1).is_none());
    assert!(Store::starting_at(1, 1, 0).is_none());
    let mut store = Store::starting_at(10, 20, 30).unwrap();
    assert_eq!(create_document(&mut store, &titled("d"), "t").unwrap().id, 10);
    assert_eq!(create_node(&mut store, &node_in(10, None, "n", 0), "t").unwrap().id, 20);
    assert_eq!(save_content(&mut store, 20, &text("c"), "t").unwrap().id, 30);
}
