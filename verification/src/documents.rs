use vstd::prelude::*;
use crate::cascade::{delete_cascading, lemma_after_cascade_wf};
use crate::error::ApiError;
use crate::models::{CreateDocumentRequest, Document, DocumentView};
use crate::sorting::{lemma_text_le_total, lemma_text_le_transitive, text_before_or_equal, text_le};
use crate::store::{document_views, Store, StoreView};

verus! {

impl StoreView {
    /// Whether a document with this identifier is in the store.
    pub open spec fn has_document(self, id: i64) -> bool {
        exists|i: int| 0 <= i < self.documents.len() && (#[trigger] self.documents[i]).id == id
    }

    /// The place of the document with this identifier in its table.
    pub open spec fn document_index(self, id: i64) -> int {
        choose|i: int| 0 <= i < self.documents.len() && (#[trigger] self.documents[i]).id == id
    }

    /// The document with this identifier.
    pub open spec fn document(self, id: i64) -> DocumentView {
        self.documents[self.document_index(id)]
    }

    /// The document that is created with this title at the time `now`.
    pub open spec fn new_document(self, title: Seq<char>, now: Seq<char>) -> DocumentView {
        DocumentView { id: self.next_document_id, title, created_at: now, updated_at: now }
    }

    /// The store after a document with this title was created at `now`.
    pub open spec fn with_document(self, title: Seq<char>, now: Seq<char>) -> StoreView {
        StoreView {
            documents: self.documents.push(self.new_document(title, now)),
            next_document_id: (self.next_document_id + 1) as i64,
            ..self
        }
    }

    /// The store after the document `id` got the title `title` at `now`.
    /// Where there is no such document the store is the same.
    pub open spec fn with_document_title(
        self,
        id: i64,
        title: Seq<char>,
        now: Seq<char>,
    ) -> StoreView {
        if self.has_document(id) {
            StoreView {
                documents: self.documents.update(
                    self.document_index(id),
                    DocumentView { title, updated_at: now, ..self.document(id) },
                ),
                ..self
            }
        } else {
            self
        }
    }
}

/// Looks for the document `id` in its table.
pub(crate) fn find_document(store: &Store, id: i64) -> (found: Option<usize>)
    requires
        store.wf(),
    ensures
        match found {
            Some(i) => store@.has_document(id) && i == store@.document_index(id) && i
                < store.documents@.len(),
            None => !store@.has_document(id),
        },
{
    let mut i: usize = 0;
    while i < store.documents.len()
        invariant
            store.wf(),
            i <= store.documents@.len(),
            forall|j: int| 0 <= j < i ==> (#[trigger] store@.documents[j]).id != id,
        decreases store.documents@.len() - i,
    {
        if store.documents[i].id == id {
            proof {
                let rows = store@.documents;
                assert(rows[i as int].id == id);
                let k = store@.document_index(id);
                if k < i {
                    assert(rows[k].id != rows[i as int].id);
                } else if k > i {
                    assert(rows[i as int].id != rows[k].id);
                }
            }
            return Some(i);
        }
        i += 1;
    }
    None
}

/// Returns the document `id`, or `NotFound` where the store holds none.
pub fn get_document(store: &Store, id: i64) -> (result: Result<Document, ApiError>)
    requires
        store.wf(),
    ensures
        store@.has_document(id) ==> result is Ok && result->Ok_0@ == store@.document(id),
        !store@.has_document(id) ==> result == Err::<Document, ApiError>(ApiError::NotFound),
{
    match find_document(store, id) {
        Some(i) => Ok(store.documents[i].clone()),
        None => Err(ApiError::NotFound),
    }
}

/// Creates a document with the title of `payload` at the time `now` and
/// returns its row. The store assigns the identifier. Where no identifier is
/// left to hand out, the write fails and the store stays as it is.
pub fn create_document(store: &mut Store, payload: &CreateDocumentRequest, now: &str) -> (result:
    Result<Document, ApiError>)
    requires
        old(store).wf(),
    ensures
        final(store).wf(),
        old(store)@.next_document_id < i64::MAX ==> {
            &&& final(store)@ == old(store)@.with_document(payload.title@, now@)
            &&& result is Ok
            &&& result->Ok_0@ == old(store)@.new_document(payload.title@, now@)
            &&& final(store)@.has_document(old(store)@.next_document_id)
            &&& final(store)@.document(old(store)@.next_document_id) == result->Ok_0@
        },
        old(store)@.next_document_id == i64::MAX ==> {
            &&& final(store)@ == old(store)@
            &&& result == Err::<Document, ApiError>(ApiError::InternalError)
        },
{
    if store.next_document_id == i64::MAX {
        return Err(ApiError::InternalError);
    }
    let row = Document {
        id: store.next_document_id,
        title: payload.title.clone(),
        created_at: String::from_str(now),
        updated_at: String::from_str(now),
    };
    let copy = row.clone();
    store.documents.push(row);
    store.next_document_id = store.next_document_id + 1;
    proof {
        assert(final(store)@.documents =~= old(store)@.documents.push(
            old(store)@.new_document(payload.title@, now@),
        ));
        lemma_with_document_wf(old(store)@, payload.title@, now@);
        lemma_document_index(
            final(store)@,
            old(store)@.next_document_id,
            old(store)@.documents.len() as int,
        );
    }
    Ok(copy)
}

/// Gives the document `id` the title of `payload` and the time `now` as its
/// time of update, and returns the row as it then is. Where the store holds
/// no such document, nothing is written and the answer is `NotFound`.
pub fn update_document(
    store: &mut Store,
    id: i64,
    payload: &CreateDocumentRequest,
    now: &str,
) -> (result: Result<Document, ApiError>)
    requires
        old(store).wf(),
    ensures
        final(store).wf(),
        final(store)@ == old(store)@.with_document_title(id, payload.title@, now@),
        old(store)@.has_document(id) ==> {
            &&& result is Ok
            &&& result->Ok_0@ == DocumentView {
                title: payload.title@,
                updated_at: now@,
                ..old(store)@.document(id)
            }
            &&& final(store)@.has_document(id)
            &&& final(store)@.document(id) == result->Ok_0@
        },
        !old(store)@.has_document(id) ==> result == Err::<Document, ApiError>(ApiError::NotFound),
{
    match find_document(store, id) {
        Some(i) => {
            let mut row = store.documents[i].clone();
            row.title = payload.title.clone();
            row.updated_at = String::from_str(now);
            let copy = row.clone();
            store.documents.set(i, row);
            proof {
                let before = old(store)@;
                let after = final(store)@;
                assert(after.documents =~= before.documents.update(
                    i as int,
                    DocumentView { title: payload.title@, updated_at: now@, ..before.document(id) },
                ));
                lemma_with_document_title_wf(before, id, payload.title@, now@);
                lemma_document_index(after, id, i as int);
            }
            Ok(copy)
        },
        None => Err(ApiError::NotFound),
    }
}

/// In a well-formed store the row that bears an identifier is the one that
/// `document_index` names.
pub proof fn lemma_document_index(store: StoreView, id: i64, i: int)
    requires
        store.wf(),
        0 <= i < store.documents.len(),
        store.documents[i].id == id,
    ensures
        store.has_document(id),
        store.document_index(id) == i,
        store.document(id) == store.documents[i],
{
    let k = store.document_index(id);
    if k < i {
        assert(store.documents[k].id != store.documents[i].id);
    } else if k > i {
        assert(store.documents[i].id != store.documents[k].id);
    }
}

/// Creating a document keeps the store well-formed.
pub proof fn lemma_with_document_wf(store: StoreView, title: Seq<char>, now: Seq<char>)
    requires
        store.wf(),
        store.next_document_id < i64::MAX,
    ensures
        store.with_document(title, now).wf(),
{
    let after = store.with_document(title, now);
    assert forall|i: int| 0 <= i < after.documents.len() implies 1 <= (
    #[trigger] after.documents[i]).id < after.next_document_id by {
        if i < store.documents.len() {
            assert(after.documents[i] == store.documents[i]);
        }
    }
    assert forall|i: int, j: int| 0 <= i < j < after.documents.len() implies (
    #[trigger] after.documents[i]).id != (#[trigger] after.documents[j]).id by {
        assert(after.documents[i] == store.documents[i]);
        if j < store.documents.len() {
            assert(after.documents[j] == store.documents[j]);
        }
    }
}

/// Giving a document a new title keeps the store well-formed.
pub proof fn lemma_with_document_title_wf(
    store: StoreView,
    id: i64,
    title: Seq<char>,
    now: Seq<char>,
)
    requires
        store.wf(),
    ensures
        store.with_document_title(id, title, now).wf(),
{
    let after = store.with_document_title(id, title, now);
    if store.has_document(id) {
        assert forall|i: int| 0 <= i < after.documents.len() implies (
        #[trigger] after.documents[i]).id == store.documents[i].id by {}
        assert forall|i: int| 0 <= i < after.documents.len() implies 1 <= (
        #[trigger] after.documents[i]).id < after.next_document_id by {
            assert(after.documents[i].id == store.documents[i].id);
        }
        assert forall|i: int, j: int| 0 <= i < j < after.documents.len() implies (
        #[trigger] after.documents[i]).id != (#[trigger] after.documents[j]).id by {
            assert(after.documents[i].id == store.documents[i].id);
            assert(after.documents[j].id == store.documents[j].id);
        }
    }
}

/// Whether the rows stand with the most recently updated first.
pub open spec fn newest_first(rows: Seq<DocumentView>) -> bool {
    forall|i: int, j: int|
        0 <= i < j < rows.len() ==> text_le(
            (#[trigger] rows[j]).updated_at,
            (#[trigger] rows[i]).updated_at,
        )
}

/// Puts `row` into `rows`, which stand newest first, behind the rows that
/// are as new as it or newer.
fn insert_by_update(rows: &mut Vec<Document>, row: Document)
    requires
        newest_first(document_views(old(rows)@)),
    ensures
        newest_first(document_views(final(rows)@)),
        document_views(final(rows)@).to_multiset() == document_views(
            old(rows)@,
        ).to_multiset().insert(row@),
{
    let mut k: usize = 0;
    while k < rows.len() && text_before_or_equal(
        row.updated_at.as_str(),
        rows[k].updated_at.as_str(),
    )
        invariant
            k <= rows@.len(),
            forall|i: int| 0 <= i < k ==> text_le(row@.updated_at, (#[trigger] rows@[i])@.updated_at),
        decreases rows@.len() - k,
    {
        k += 1;
    }
    let ghost before = document_views(rows@);
    rows.insert(k, row);
    proof {
        let after = document_views(rows@);
        assert(after =~= before.insert(k as int, row@));
        vstd::seq_lib::to_multiset_insert(before, k as int, row@);
        assert forall|i: int, j: int| 0 <= i < j < after.len() implies text_le(
            (#[trigger] after[j]).updated_at,
            (#[trigger] after[i]).updated_at,
        ) by {
            if j < k {
                assert(after[i] == before[i] && after[j] == before[j]);
            } else if j == k {
                assert(after[i] == before[i]);
                assert(before[i] == old(rows)@[i]@);
            } else if i == k {
                assert(after[j] == before[j - 1]);
                lemma_text_le_total(row@.updated_at, before[k as int].updated_at);
                if j - 1 > k {
                    assert(text_le(before[j - 1].updated_at, before[k as int].updated_at));
                    lemma_text_le_transitive(
                        before[j - 1].updated_at,
                        before[k as int].updated_at,
                        row@.updated_at,
                    );
                }
            } else if i < k {
                assert(after[i] == before[i] && after[j] == before[j - 1]);
            } else {
                assert(after[i] == before[i - 1] && after[j] == before[j - 1]);
            }
        }
    }
}

/// Lists all documents, the most recently updated first. Documents that
/// were updated at the same time stand in no particular order.
pub fn list_documents(store: &Store) -> (result: Result<Vec<Document>, ApiError>)
    ensures
        result is Ok,
        newest_first(document_views(result->Ok_0@)),
        document_views(result->Ok_0@).to_multiset() == store@.documents.to_multiset(),
{
    let mut rows: Vec<Document> = Vec::new();
    let mut i: usize = 0;
    assert(store@.documents.take(0) =~= document_views(rows@));
    while i < store.documents.len()
        invariant
            i <= store.documents@.len(),
            newest_first(document_views(rows@)),
            document_views(rows@).to_multiset() == store@.documents.take(i as int).to_multiset(),
        decreases store.documents@.len() - i,
    {
        let row = store.documents[i].clone();
        proof {
            let all = store@.documents;
            assert(all.take(i + 1) =~= all.take(i as int).push(row@));
            vstd::seq_lib::to_multiset_build(all.take(i as int), row@);
        }
        insert_by_update(&mut rows, row);
        i += 1;
    }
    assert(store@.documents.take(i as int) =~= store@.documents);
    Ok(rows)
}

impl StoreView {
    /// The identifiers of the nodes that the document `id` owns.
    pub open spec fn document_seeds(self, id: i64) -> Set<i64> {
        Set::new(
            |n: i64|
                exists|i: int|
                    0 <= i < self.nodes.len() && (#[trigger] self.nodes[i]).id == n
                        && self.nodes[i].document_id == id,
        )
    }

    /// The store after the document `id` was deleted: the document is gone,
    /// and with it its nodes, every node that hangs on one of them, and the
    /// content of all these. Where there is no such document the store is
    /// the same.
    pub open spec fn without_document(self, id: i64) -> StoreView {
        if self.has_document(id) {
            StoreView {
                documents: self.documents.remove(self.document_index(id)),
                ..self.after_cascade(self.document_seeds(id))
            }
        } else {
            self
        }
    }
}

/// Deleting a document keeps the store well-formed.
pub proof fn lemma_without_document_wf(store: StoreView, id: i64)
    requires
        store.wf(),
    ensures
        store.without_document(id).wf(),
{
    if store.has_document(id) {
        let at = store.document_index(id);
        let after = store.without_document(id);
        lemma_after_cascade_wf(store, store.document_seeds(id));
        assert forall|i: int| 0 <= i < after.documents.len() implies 1 <= (
        #[trigger] after.documents[i]).id < after.next_document_id by {
            if i < at {
                assert(after.documents[i] == store.documents[i]);
            } else {
                assert(after.documents[i] == store.documents[i + 1]);
            }
        }
        assert forall|i: int, j: int| 0 <= i < j < after.documents.len() implies (
        #[trigger] after.documents[i]).id != (#[trigger] after.documents[j]).id by {
            let a = if i < at { i } else { i + 1 };
            let b = if j < at { j } else { j + 1 };
            assert(after.documents[i] == store.documents[a]);
            assert(after.documents[j] == store.documents[b]);
        }
    }
}

/// Deletes the document `id` with its nodes and their content. Deleting a
/// document that is not there changes nothing and is no error.
pub fn delete_document(store: &mut Store, id: i64) -> (result: Result<(), ApiError>)
    requires
        old(store).wf(),
    ensures
        final(store).wf(),
        final(store)@ == old(store)@.without_document(id),
        result is Ok,
{
    proof {
        lemma_without_document_wf(old(store)@, id);
    }
    let at = match find_document(store, id) {
        Some(i) => i,
        None => {
            return Ok(());
        },
    };
    let ghost seeds = store@.document_seeds(id);
    let ghost rows = store@.nodes;
    let mut marks: Vec<bool> = Vec::new();
    let mut i: usize = 0;
    while i < store.nodes.len()
        invariant
            store.wf(),
            rows == store@.nodes,
            seeds == store@.document_seeds(id),
            i <= store.nodes@.len(),
            marks@.len() == i,
            forall|k: int| 0 <= k < i ==> marks@[k] == seeds.contains((#[trigger] rows[k]).id),
        decreases store.nodes@.len() - i,
    {
        let owned = store.nodes[i].document_id == id;
        proof {
            if seeds.contains(rows[i as int].id) {
                let k = choose|k: int|
                    0 <= k < rows.len() && (#[trigger] rows[k]).id == rows[i as int].id
                        && rows[k].document_id == id;
                if k < i {
                    assert(rows[k].id != rows[i as int].id);
                } else if k > i {
                    assert(rows[i as int].id != rows[k].id);
                }
            }
        }
        marks.push(owned);
        i += 1;
    }
    let left = delete_cascading(&store.nodes, &store.contents, marks, Ghost(seeds));
    store.nodes = left.0;
    store.contents = left.1;
    let ghost before = document_views(store.documents@);
    store.documents.remove(at);
    assert(document_views(store.documents@) =~= before.remove(at as int));
    Ok(())
}

} // verus!
