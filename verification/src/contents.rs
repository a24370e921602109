use vstd::prelude::*;
use crate::error::ApiError;
use crate::models::{Content, ContentView, SaveContentRequest};
use crate::store::{Store, StoreView};

verus! {

impl StoreView {
    /// Whether content was saved for the node `node_id` and is still there.
    pub open spec fn has_content(self, node_id: i64) -> bool {
        exists|i: int|
            0 <= i < self.contents.len() && (#[trigger] self.contents[i]).node_id == node_id
    }

    /// The place of the content of the node `node_id` in its table.
    pub open spec fn content_index(self, node_id: i64) -> int {
        choose|i: int|
            0 <= i < self.contents.len() && (#[trigger] self.contents[i]).node_id == node_id
    }

    /// The content row of the node `node_id`.
    pub open spec fn content(self, node_id: i64) -> ContentView {
        self.contents[self.content_index(node_id)]
    }

    /// The row that the first save for the node `node_id` creates.
    pub open spec fn new_content(self, node_id: i64, content_json: Seq<char>, now: Seq<char>) -> ContentView {
        ContentView { id: self.next_content_id, node_id, content_json, updated_at: now }
    }

    /// The content row of the node `node_id` once `content_json` was saved
    /// for it at `now`: the row that the node had, with the new text and
    /// time, or a new row where it had none.
    pub open spec fn saved_content(
        self,
        node_id: i64,
        content_json: Seq<char>,
        now: Seq<char>,
    ) -> ContentView {
        if self.has_content(node_id) {
            ContentView { content_json, updated_at: now, ..self.content(node_id) }
        } else {
            self.new_content(node_id, content_json, now)
        }
    }

    /// The store after `content_json` was saved for the node `node_id` at
    /// `now`: the saved row stands in the place of the row that the node
    /// had, or at the end where it had none. No other row changes.
    pub open spec fn with_content(
        self,
        node_id: i64,
        content_json: Seq<char>,
        now: Seq<char>,
    ) -> StoreView {
        if self.has_content(node_id) {
            StoreView {
                contents: self.contents.update(
                    self.content_index(node_id),
                    self.saved_content(node_id, content_json, now),
                ),
                ..self
            }
        } else {
            StoreView {
                contents: self.contents.push(self.saved_content(node_id, content_json, now)),
                next_content_id: (self.next_content_id + 1) as i64,
                ..self
            }
        }
    }

    /// Whether a save for the node `node_id` can be written: the node has a
    /// row already, or an identifier is left for a new one.
    pub open spec fn can_save_content(self, node_id: i64) -> bool {
        self.has_content(node_id) || self.next_content_id < i64::MAX
    }
}

/// In a well-formed store the row that holds the content of a node is the
/// one that `content_index` names.
pub proof fn lemma_content_index(store: StoreView, node_id: i64, i: int)
    requires
        store.wf(),
        0 <= i < store.contents.len(),
        store.contents[i].node_id == node_id,
    ensures
        store.has_content(node_id),
        store.content_index(node_id) == i,
        store.content(node_id) == store.contents[i],
{
    let k = store.content_index(node_id);
    if k < i {
        assert(store.contents[k].node_id != store.contents[i].node_id);
    } else if k > i {
        assert(store.contents[i].node_id != store.contents[k].node_id);
    }
}

/// Looks for the content of the node `node_id` in its table.
pub(crate) fn find_content(store: &Store, node_id: i64) -> (found: Option<usize>)
    requires
        store.wf(),
    ensures
        match found {
            Some(i) => store@.has_content(node_id) && i == store@.content_index(node_id) && i
                < store.contents@.len(),
            None => !store@.has_content(node_id),
        },
{
    let mut i: usize = 0;
    while i < store.contents.len()
        invariant
            store.wf(),
            i <= store.contents@.len(),
            forall|j: int| 0 <= j < i ==> (#[trigger] store@.contents[j]).node_id != node_id,
        decreases store.contents@.len() - i,
    {
        if store.contents[i].node_id == node_id {
            proof {
                lemma_content_index(store@, node_id, i as int);
            }
            return Some(i);
        }
        i += 1;
    }
    None
}

/// Returns the content of the node `node_id`, or `NotFound` where none was
/// saved for it. A node that is not there and a node without content give
/// the same answer.
pub fn get_content(store: &Store, node_id: i64) -> (result: Result<Content, ApiError>)
    requires
        store.wf(),
    ensures
        store@.has_content(node_id) ==> result is Ok && result->Ok_0@ == store@.content(node_id),
        !store@.has_content(node_id) ==> result == Err::<Content, ApiError>(ApiError::NotFound),
{
    match find_content(store, node_id) {
        Some(i) => Ok(store.contents[i].clone()),
        None => Err(ApiError::NotFound),
    }
}

/// Saving content keeps the store well-formed.
pub proof fn lemma_with_content_wf(
    store: StoreView,
    node_id: i64,
    content_json: Seq<char>,
    now: Seq<char>,
)
    requires
        store.wf(),
        store.can_save_content(node_id),
    ensures
        store.with_content(node_id, content_json, now).wf(),
{
    let after = store.with_content(node_id, content_json, now);
    if store.has_content(node_id) {
        assert forall|i: int| 0 <= i < after.contents.len() implies (
        #[trigger] after.contents[i]).id == store.contents[i].id && after.contents[i].node_id
            == store.contents[i].node_id by {}
        assert forall|i: int| 0 <= i < after.contents.len() implies 1 <= (
        #[trigger] after.contents[i]).id < after.next_content_id by {
            assert(after.contents[i].id == store.contents[i].id);
        }
        assert forall|i: int, j: int| 0 <= i < j < after.contents.len() implies (
        #[trigger] after.contents[i]).id != (#[trigger] after.contents[j]).id
            && after.contents[i].node_id != after.contents[j].node_id by {
            assert(after.contents[i].id == store.contents[i].id);
            assert(after.contents[j].id == store.contents[j].id);
            assert(after.contents[i].node_id == store.contents[i].node_id);
            assert(after.contents[j].node_id == store.contents[j].node_id);
        }
    } else {
        assert forall|i: int| 0 <= i < after.contents.len() implies 1 <= (
        #[trigger] after.contents[i]).id < after.next_content_id by {
            if i < store.contents.len() {
                assert(after.contents[i] == store.contents[i]);
            }
        }
        assert forall|i: int, j: int| 0 <= i < j < after.contents.len() implies (
        #[trigger] after.contents[i]).id != (#[trigger] after.contents[j]).id
            && after.contents[i].node_id != after.contents[j].node_id by {
            assert(after.contents[i] == store.contents[i]);
            if j < store.contents.len() {
                assert(after.contents[j] == store.contents[j]);
            }
        }
    }
}

/// Saves the text of `payload` as the content of the node `node_id` at the
/// time `now`, and returns the row as it then is. The first save for a node
/// creates its row; a later one overwrites the text and the time, so that a
/// node never has two rows. The node itself is not looked up. Where a row
/// is to be created and no identifier is left to hand out, the write fails
/// and the store stays as it is.
pub fn save_content(store: &mut Store, node_id: i64, payload: &SaveContentRequest, now: &str) -> (result:
    Result<Content, ApiError>)
    requires
        old(store).wf(),
    ensures
        final(store).wf(),
        old(store)@.can_save_content(node_id) ==> {
            &&& final(store)@ == old(store)@.with_content(node_id, payload.content_json@, now@)
            &&& result is Ok
            &&& result->Ok_0@ == old(store)@.saved_content(node_id, payload.content_json@, now@)
            &&& final(store)@.has_content(node_id)
            &&& final(store)@.content(node_id) == result->Ok_0@
        },
        !old(store)@.can_save_content(node_id) ==> {
            &&& final(store)@ == old(store)@
            &&& result == Err::<Content, ApiError>(ApiError::InternalError)
        },
{
    match find_content(store, node_id) {
        Some(at) => {
            let mut row = store.contents[at].clone();
            row.content_json = payload.content_json.clone();
            row.updated_at = String::from_str(now);
            let copy = row.clone();
            store.contents.set(at, row);
            proof {
                let before = old(store)@;
                let after = final(store)@;
                assert(after.contents =~= before.contents.update(
                    at as int,
                    ContentView {
                        content_json: payload.content_json@,
                        updated_at: now@,
                        ..before.content(node_id)
                    },
                ));
                lemma_with_content_wf(before, node_id, payload.content_json@, now@);
                lemma_content_index(after, node_id, at as int);
            }
            Ok(copy)
        },
        None => {
            if store.next_content_id == i64::MAX {
                return Err(ApiError::InternalError);
            }
            let row = Content {
                id: store.next_content_id,
                node_id,
                content_json: payload.content_json.clone(),
                updated_at: String::from_str(now),
            };
            let copy = row.clone();
            store.contents.push(row);
            store.next_content_id = store.next_content_id + 1;
            proof {
                let before = old(store)@;
                let after = final(store)@;
                assert(after.contents =~= before.contents.push(
                    before.new_content(node_id, payload.content_json@, now@),
                ));
                lemma_with_content_wf(before, node_id, payload.content_json@, now@);
                lemma_content_index(after, node_id, before.contents.len() as int);
            }
            Ok(copy)
        },
    }
}

} // verus!
