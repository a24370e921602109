use vstd::prelude::*;
use crate::models::{Content, ContentView, Node, NodeView};
use crate::store::{content_views, node_views, StoreView};

verus! {

/// Whether some row of `nodes` bears the identifier `id`.
pub open spec fn is_node_id(nodes: Seq<NodeView>, id: i64) -> bool {
    exists|i: int| 0 <= i < nodes.len() && (#[trigger] nodes[i]).id == id
}

/// Whether the deletion of the rows named by `seeds` reaches the identifier
/// `id` in at most `depth` steps from child to parent: `id` is a seed, or
/// its row has a parent that is reached in one step less.
pub open spec fn falls_within(nodes: Seq<NodeView>, seeds: Set<i64>, id: i64, depth: nat) -> bool
    decreases depth,
{
    seeds.contains(id) || (depth > 0 && exists|i: int|
        0 <= i < nodes.len() && (#[trigger] nodes[i]).id == id && nodes[i].parent_id is Some
            && falls_within(nodes, seeds, nodes[i].parent_id->Some_0, (depth - 1) as nat))
}

/// Whether the deletion of the rows named by `seeds` takes the identifier
/// `id` with it: `id` is a seed, or a chain of parents leads from its row to
/// one. A node whose parent is not in the table is held by nothing.
pub open spec fn falls(nodes: Seq<NodeView>, seeds: Set<i64>, id: i64) -> bool {
    exists|depth: nat| falls_within(nodes, seeds, id, depth)
}

/// The test that a node passes if the deletion of the seeds leaves it.
pub open spec fn node_survives(nodes: Seq<NodeView>, seeds: Set<i64>) -> spec_fn(NodeView) -> bool {
    |n: NodeView| !falls(nodes, seeds, n.id)
}

/// The test that a content row passes if the deletion of the seeds leaves
/// its node, or if it has no node.
pub open spec fn content_survives(nodes: Seq<NodeView>, seeds: Set<i64>) -> spec_fn(
    ContentView,
) -> bool {
    |c: ContentView| !falls(nodes, seeds, c.node_id)
}

/// The nodes that are left when the seeds and all that hangs on them go.
pub open spec fn surviving_nodes(nodes: Seq<NodeView>, seeds: Set<i64>) -> Seq<NodeView> {
    nodes.filter(node_survives(nodes, seeds))
}

/// No two rows bear the same identifier.
pub open spec fn distinct_node_ids(nodes: Seq<NodeView>) -> bool {
    forall|i: int, j: int|
        0 <= i < j < nodes.len() ==> (#[trigger] nodes[i]).id != (#[trigger] nodes[j]).id
}

/// How many of the marks are not set.
pub open spec fn unset(marks: Seq<bool>) -> nat
    decreases marks.len(),
{
    if marks.len() == 0 {
        0
    } else if marks.last() {
        unset(marks.drop_last())
    } else {
        unset(marks.drop_last()) + 1
    }
}

/// Setting a mark that was not set leaves one fewer unset.
pub proof fn lemma_set_mark(marks: Seq<bool>, i: int)
    requires
        0 <= i < marks.len(),
        !marks[i],
    ensures
        unset(marks.update(i, true)) + 1 == unset(marks),
    decreases marks.len(),
{
    let after = marks.update(i, true);
    if i == marks.len() - 1 {
        assert(after.drop_last() =~= marks.drop_last());
    } else {
        assert(after.drop_last() =~= marks.drop_last().update(i, true));
        lemma_set_mark(marks.drop_last(), i);
    }
}

/// Every set mark stands on a row that the deletion takes.
pub open spec fn marks_sound(nodes: Seq<NodeView>, seeds: Set<i64>, marks: Seq<bool>) -> bool {
    &&& marks.len() == nodes.len()
    &&& forall|i: int| 0 <= i < nodes.len() && #[trigger] marks[i] ==> falls(nodes, seeds, nodes[i].id)
}

/// Every seed is marked.
pub open spec fn seeds_marked(nodes: Seq<NodeView>, seeds: Set<i64>, marks: Seq<bool>) -> bool {
    &&& marks.len() == nodes.len()
    &&& forall|i: int|
        0 <= i < nodes.len() && seeds.contains((#[trigger] nodes[i]).id) ==> marks[i]
}

/// Whether a marked row bears the identifier `id`.
pub open spec fn marked_id(nodes: Seq<NodeView>, marks: Seq<bool>, id: i64) -> bool {
    exists|j: int| 0 <= j < nodes.len() && marks[j] && (#[trigger] nodes[j]).id == id
}

/// Whether the row `i` is marked, or has no marked parent.
pub open spec fn settled_at(nodes: Seq<NodeView>, marks: Seq<bool>, i: int) -> bool {
    marks[i] || nodes[i].parent_id is None || !marked_id(nodes, marks, nodes[i].parent_id->Some_0)
}

/// No unmarked row has a marked parent.
pub open spec fn marks_settled(nodes: Seq<NodeView>, marks: Seq<bool>) -> bool {
    &&& marks.len() == nodes.len()
    &&& forall|i: int| 0 <= i < nodes.len() ==> settled_at(nodes, marks, i)
}

/// Once every seed is marked and no unmarked row has a marked parent, every
/// row that the deletion takes is marked.
pub proof fn lemma_settled_marks_are_complete(
    nodes: Seq<NodeView>,
    seeds: Set<i64>,
    marks: Seq<bool>,
    i: int,
    depth: nat,
)
    requires
        distinct_node_ids(nodes),
        forall|id: i64| seeds.contains(id) ==> is_node_id(nodes, id),
        seeds_marked(nodes, seeds, marks),
        marks_settled(nodes, marks),
        0 <= i < nodes.len(),
        falls_within(nodes, seeds, nodes[i].id, depth),
    ensures
        marks[i],
    decreases depth,
{
    if !seeds.contains(nodes[i].id) {
        let k = choose|k: int|
            0 <= k < nodes.len() && (#[trigger] nodes[k]).id == nodes[i].id
                && nodes[k].parent_id is Some && falls_within(
                nodes,
                seeds,
                nodes[k].parent_id->Some_0,
                (depth - 1) as nat,
            );
        if k < i {
            assert(nodes[k].id != nodes[i].id);
        } else if i < k {
            assert(nodes[i].id != nodes[k].id);
        }
        let parent = nodes[i].parent_id->Some_0;
        assert(is_node_id(nodes, parent));
        let j = choose|j: int| 0 <= j < nodes.len() && (#[trigger] nodes[j]).id == parent;
        lemma_settled_marks_are_complete(nodes, seeds, marks, j, (depth - 1) as nat);
        assert(marked_id(nodes, marks, parent));
        assert(settled_at(nodes, marks, i));
    }
}

/// Whether a marked row bears the identifier `id`.
fn has_marked_id(nodes: &Vec<Node>, marks: &Vec<bool>, id: i64) -> (found: bool)
    requires
        marks@.len() == nodes@.len(),
    ensures
        found == marked_id(node_views(nodes@), marks@, id),
{
    let mut j: usize = 0;
    while j < nodes.len()
        invariant
            marks@.len() == nodes@.len(),
            j <= nodes@.len(),
            forall|k: int| 0 <= k < j ==> !(marks@[k] && (#[trigger] node_views(nodes@)[k]).id == id),
        decreases nodes@.len() - j,
    {
        if marks[j] && nodes[j].id == id {
            assert(node_views(nodes@)[j as int].id == id);
            return true;
        }
        j += 1;
    }
    false
}

/// A row whose parent is taken by the deletion is taken with it.
pub proof fn lemma_child_falls(nodes: Seq<NodeView>, seeds: Set<i64>, i: int, j: int)
    requires
        0 <= i < nodes.len(),
        0 <= j < nodes.len(),
        nodes[i].parent_id == Some(nodes[j].id),
        falls(nodes, seeds, nodes[j].id),
    ensures
        falls(nodes, seeds, nodes[i].id),
{
    let depth = choose|depth: nat| falls_within(nodes, seeds, nodes[j].id, depth);
    assert(falls_within(nodes, seeds, nodes[i].id, depth + 1));
}

/// Carries the marks from the seeds to all that hangs on them: a row is
/// marked in the end exactly if the deletion of the seeds takes it.
pub(crate) fn spread_marks(nodes: &Vec<Node>, marks: &mut Vec<bool>, Ghost(seeds): Ghost<Set<i64>>)
    requires
        distinct_node_ids(node_views(nodes@)),
        forall|id: i64| seeds.contains(id) ==> is_node_id(node_views(nodes@), id),
        old(marks)@.len() == nodes@.len(),
        forall|i: int|
            0 <= i < nodes@.len() ==> old(marks)@[i] == seeds.contains(
                (#[trigger] node_views(nodes@)[i]).id,
            ),
    ensures
        final(marks)@.len() == nodes@.len(),
        forall|i: int|
            0 <= i < nodes@.len() ==> final(marks)@[i] == falls(
                node_views(nodes@),
                seeds,
                (#[trigger] node_views(nodes@)[i]).id,
            ),
{
    let ghost rows = node_views(nodes@);
    let n = nodes.len();
    proof {
        assert forall|i: int| 0 <= i < rows.len() && #[trigger] marks@[i] implies falls(
            rows,
            seeds,
            rows[i].id,
        ) by {
            assert(falls_within(rows, seeds, rows[i].id, 0));
        }
    }
    let mut changed = true;
    while changed
        invariant
            rows == node_views(nodes@),
            n == nodes@.len(),
            marks_sound(rows, seeds, marks@),
            seeds_marked(rows, seeds, marks@),
            !changed ==> marks_settled(rows, marks@),
        decreases unset(marks@), (if changed { 1nat } else { 0nat }),
    {
        changed = false;
        let ghost start = marks@;
        let mut i: usize = 0;
        while i < n
            invariant
                rows == node_views(nodes@),
                n == nodes@.len(),
                i <= n,
                marks_sound(rows, seeds, marks@),
                seeds_marked(rows, seeds, marks@),
                unset(marks@) <= unset(start),
                changed ==> unset(marks@) < unset(start),
                !changed ==> marks@ == start,
                !changed ==> forall|k: int| 0 <= k < i ==> settled_at(rows, marks@, k),
            decreases n - i,
        {
            if !marks[i] {
                match nodes[i].parent_id {
                    Some(parent) => {
                        if has_marked_id(nodes, marks, parent) {
                            proof {
                                let j = choose|j: int|
                                    0 <= j < rows.len() && marks@[j] && (#[trigger] rows[j]).id
                                        == parent;
                                lemma_child_falls(rows, seeds, i as int, j);
                                lemma_set_mark(marks@, i as int);
                            }
                            marks.set(i, true);
                            changed = true;
                        }
                    },
                    None => {},
                }
            }
            i += 1;
        }
    }
    proof {
        assert forall|i: int| 0 <= i < nodes@.len() implies marks@[i] == falls(
            rows,
            seeds,
            (#[trigger] rows[i]).id,
        ) by {
            if falls(rows, seeds, rows[i].id) {
                let depth = choose|depth: nat| falls_within(rows, seeds, rows[i].id, depth);
                lemma_settled_marks_are_complete(rows, seeds, marks@, i, depth);
            }
        }
    }
}

/// The content rows that are left when the seeds and all that hangs on
/// them go: those of the nodes that are left, and those of no node at all.
pub open spec fn surviving_contents(
    nodes: Seq<NodeView>,
    seeds: Set<i64>,
    contents: Seq<ContentView>,
) -> Seq<ContentView> {
    contents.filter(content_survives(nodes, seeds))
}

/// Where every seed is a row of the table, the deletion takes rows of the
/// table only.
pub proof fn lemma_fallen_is_node(nodes: Seq<NodeView>, seeds: Set<i64>, id: i64)
    requires
        forall|id: i64| seeds.contains(id) ==> is_node_id(nodes, id),
        falls(nodes, seeds, id),
    ensures
        is_node_id(nodes, id),
{
    let depth = choose|depth: nat| falls_within(nodes, seeds, id, depth);
    assert(falls_within(nodes, seeds, id, depth));
}

/// What a filter lets through stands in the order in which it stood before:
/// the result names, for each place of the filtered sequence, the place that
/// its element had, and these places rise.
pub proof fn lemma_filter_indices<A>(s: Seq<A>, pred: spec_fn(A) -> bool) -> (places: Seq<int>)
    ensures
        places.len() == s.filter(pred).len(),
        forall|i: int|
            0 <= i < places.len() ==> 0 <= #[trigger] places[i] < s.len() && s.filter(pred)[i]
                == s[places[i]] && pred(s[places[i]]),
        forall|i: int, j: int|
            0 <= i < j < places.len() ==> #[trigger] places[i] < #[trigger] places[j],
    decreases s.len(),
{
    reveal(Seq::filter);
    if s.len() == 0 {
        Seq::empty()
    } else {
        let rest = s.drop_last();
        let before = lemma_filter_indices(rest, pred);
        assert(s =~= rest.push(s.last()));
        rest.lemma_filter_push(s.last(), pred);
        if pred(s.last()) {
            before.push(s.len() - 1)
        } else {
            before
        }
    }
}

/// Deletes the rows of `nodes` that `marks` names as seeds, every node that
/// hangs on one of them by a chain of parents, and the content of all these
/// nodes. Returns the rows that are left of both tables, in their order.
pub(crate) fn delete_cascading(
    nodes: &Vec<Node>,
    contents: &Vec<Content>,
    marks: Vec<bool>,
    Ghost(seeds): Ghost<Set<i64>>,
) -> (left: (Vec<Node>, Vec<Content>))
    requires
        distinct_node_ids(node_views(nodes@)),
        forall|id: i64| seeds.contains(id) ==> is_node_id(node_views(nodes@), id),
        marks@.len() == nodes@.len(),
        forall|i: int|
            0 <= i < nodes@.len() ==> marks@[i] == seeds.contains(
                (#[trigger] node_views(nodes@)[i]).id,
            ),
    ensures
        node_views(left.0@) == surviving_nodes(node_views(nodes@), seeds),
        content_views(left.1@) == surviving_contents(
            node_views(nodes@),
            seeds,
            content_views(contents@),
        ),
{
    let ghost rows = node_views(nodes@);
    let ghost texts = content_views(contents@);
    let mut marks = marks;
    spread_marks(nodes, &mut marks, Ghost(seeds));

    let mut left_nodes: Vec<Node> = Vec::new();
    let mut i: usize = 0;
    assert(node_views(left_nodes@) =~= rows.take(0).filter(node_survives(rows, seeds))) by {
        reveal(Seq::filter);
    }
    while i < nodes.len()
        invariant
            rows == node_views(nodes@),
            marks@.len() == nodes@.len(),
            i <= nodes@.len(),
            forall|k: int|
                0 <= k < nodes@.len() ==> marks@[k] == falls(rows, seeds, (#[trigger] rows[k]).id),
            node_views(left_nodes@) == rows.take(i as int).filter(node_survives(rows, seeds)),
        decreases nodes@.len() - i,
    {
        proof {
            assert(rows.take(i + 1) =~= rows.take(i as int).push(rows[i as int]));
            rows.take(i as int).lemma_filter_push(rows[i as int], node_survives(rows, seeds));
        }
        if !marks[i] {
            let ghost before = node_views(left_nodes@);
            left_nodes.push(nodes[i].clone());
            assert(node_views(left_nodes@) =~= before.push(rows[i as int]));
        }
        i += 1;
    }
    assert(rows.take(i as int) =~= rows);

    let mut left_contents: Vec<Content> = Vec::new();
    let mut c: usize = 0;
    assert(content_views(left_contents@) =~= texts.take(0).filter(content_survives(rows, seeds)))
        by {
        reveal(Seq::filter);
    }
    while c < contents.len()
        invariant
            rows == node_views(nodes@),
            texts == content_views(contents@),
            marks@.len() == nodes@.len(),
            c <= contents@.len(),
            forall|id: i64| seeds.contains(id) ==> is_node_id(rows, id),
            forall|k: int|
                0 <= k < nodes@.len() ==> marks@[k] == falls(rows, seeds, (#[trigger] rows[k]).id),
            content_views(left_contents@) == texts.take(c as int).filter(
                content_survives(rows, seeds),
            ),
        decreases contents@.len() - c,
    {
        let gone = has_marked_id(nodes, &marks, contents[c].node_id);
        proof {
            let id = texts[c as int].node_id;
            if falls(rows, seeds, id) {
                lemma_fallen_is_node(rows, seeds, id);
                let k = choose|k: int| 0 <= k < rows.len() && (#[trigger] rows[k]).id == id;
                assert(marks@[k]);
            }
            assert(gone == falls(rows, seeds, id));
            assert(texts.take(c + 1) =~= texts.take(c as int).push(texts[c as int]));
            texts.take(c as int).lemma_filter_push(texts[c as int], content_survives(rows, seeds));
        }
        if !gone {
            let ghost before = content_views(left_contents@);
            left_contents.push(contents[c].clone());
            assert(content_views(left_contents@) =~= before.push(texts[c as int]));
        }
        c += 1;
    }
    assert(texts.take(c as int) =~= texts);
    (left_nodes, left_contents)
}

impl StoreView {
    /// The store after the nodes named by `seeds` were deleted, with all
    /// that hangs on them.
    pub open spec fn after_cascade(self, seeds: Set<i64>) -> StoreView {
        StoreView {
            nodes: surviving_nodes(self.nodes, seeds),
            contents: surviving_contents(self.nodes, seeds, self.contents),
            ..self
        }
    }
}

/// A cascading delete keeps the store well-formed.
pub proof fn lemma_after_cascade_wf(store: StoreView, seeds: Set<i64>)
    requires
        store.wf(),
    ensures
        store.after_cascade(seeds).wf(),
{
    let after = store.after_cascade(seeds);
    let node_places = lemma_filter_indices(store.nodes, node_survives(store.nodes, seeds));
    let content_places = lemma_filter_indices(
        store.contents,
        content_survives(store.nodes, seeds),
    );
    assert forall|i: int| 0 <= i < after.nodes.len() implies 1 <= (#[trigger] after.nodes[i]).id
        < after.next_node_id by {
        assert(after.nodes[i] == store.nodes[node_places[i]]);
    }
    assert forall|i: int, j: int| 0 <= i < j < after.nodes.len() implies (
    #[trigger] after.nodes[i]).id != (#[trigger] after.nodes[j]).id by {
        assert(after.nodes[i] == store.nodes[node_places[i]]);
        assert(after.nodes[j] == store.nodes[node_places[j]]);
        assert(node_places[i] < node_places[j]);
    }
    assert forall|i: int| 0 <= i < after.contents.len() implies 1 <= (
    #[trigger] after.contents[i]).id < after.next_content_id by {
        assert(after.contents[i] == store.contents[content_places[i]]);
    }
    assert forall|i: int, j: int| 0 <= i < j < after.contents.len() implies (
    #[trigger] after.contents[i]).id != (#[trigger] after.contents[j]).id && after.contents[i].node_id
        != after.contents[j].node_id by {
        assert(after.contents[i] == store.contents[content_places[i]]);
        assert(after.contents[j] == store.contents[content_places[j]]);
        assert(content_places[i] < content_places[j]);
    }
}

} // verus!
