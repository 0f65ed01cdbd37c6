//! Laws of the fold that builds the story graph.

use crate::graph::{fold_record, fold_records, graph_of, initial_state, BuildState, NodeView};
use crate::record::{RecordView, CHOICE_KIND, NODE_KIND};
use vstd::prelude::*;

verus! {

/// Whether the cursor of `state`, if it has one, names a node of its graph.
pub open spec fn cursor_names_node(state: BuildState) -> bool {
    match state.cursor {
        Some(tag) => state.graph.contains_key(tag),
        None => true,
    }
}

/// Whether every record of `records` is a choice.
pub open spec fn all_choices(records: Seq<RecordView>) -> bool {
    forall|i: int| 0 <= i < records.len() ==> (#[trigger] records[i]).is_choice()
}

/// Whether no record of `records` is a node.
pub open spec fn no_nodes(records: Seq<RecordView>) -> bool {
    forall|i: int| 0 <= i < records.len() ==> !(#[trigger] records[i]).is_node()
}

/// The two kinds are different words, so no record is both a node and a
/// choice.
pub proof fn lemma_kinds_differ()
    ensures
        NODE_KIND@ != CHOICE_KIND@,
        forall|record: RecordView| !(#[trigger] record.is_node() && record.is_choice()),
{
    reveal_strlit("SITUACION");
    reveal_strlit("OPCION");
    assert(NODE_KIND@.len() == 9);
    assert(CHOICE_KIND@.len() == 6);
}

/// Folding a single record is one step of the fold.
pub proof fn lemma_fold_one(state: BuildState, record: RecordView)
    ensures
        fold_records(state, seq![record]) == fold_record(state, record),
{
    let one = seq![record];
    assert(one.drop_last() =~= Seq::<RecordView>::empty());
    assert(fold_records(state, one.drop_last()) == state);
    assert(one.last() == record);
}

/// Folding two runs of records, one after the other, is folding the second
/// from the state in which the first ended.
pub proof fn lemma_fold_concat(state: BuildState, first: Seq<RecordView>, second: Seq<RecordView>)
    ensures
        fold_records(state, first + second) == fold_records(
            fold_records(state, first),
            second,
        ),
    decreases second.len(),
{
    if second.len() == 0 {
        assert(first + second =~= first);
    } else {
        lemma_fold_concat(state, first, second.drop_last());
        assert((first + second).drop_last() =~= first + second.drop_last());
        assert((first + second).last() == second.last());
    }
}

/// Throughout the fold the cursor names a node of the graph: a choice that
/// comes after a node always finds the node to attach to.
pub proof fn lemma_cursor_names_node(state: BuildState, records: Seq<RecordView>)
    requires
        cursor_names_node(state),
    ensures
        cursor_names_node(fold_records(state, records)),
    decreases records.len(),
{
    if records.len() > 0 {
        lemma_cursor_names_node(state, records.drop_last());
    }
}

/// A node record followed by nothing but choices gives a graph of exactly
/// one node, under the node's tag, whose options are those choices in the
/// order in which they came.
pub proof fn lemma_node_then_choices(node: RecordView, choices: Seq<RecordView>)
    requires
        node.is_node(),
        all_choices(choices),
    ensures
        fold_records(initial_state(), seq![node] + choices) == (BuildState {
            graph: Map::<Seq<char>, NodeView>::empty().insert(
                node.tag,
                NodeView { record: node, options: choices },
            ),
            cursor: Some(node.tag),
        }),
        graph_of(seq![node] + choices).dom() == set![node.tag],
        graph_of(seq![node] + choices)[node.tag].options == choices,
    decreases choices.len(),
{
    lemma_kinds_differ();
    let records = seq![node] + choices;
    let empty = Map::<Seq<char>, NodeView>::empty();
    if choices.len() == 0 {
        assert(records =~= seq![node]);
        lemma_fold_one(initial_state(), node);
        assert(choices =~= Seq::<RecordView>::empty());
    } else {
        let earlier = choices.drop_last();
        lemma_node_then_choices(node, earlier);
        assert(records.drop_last() =~= seq![node] + earlier);
        assert(records.last() == choices.last());
        assert(choices.last().is_choice());
        assert(earlier.push(choices.last()) =~= choices);
        assert(empty.insert(node.tag, NodeView { record: node, options: earlier }).insert(
            node.tag,
            NodeView { record: node, options: choices },
        ) =~= empty.insert(node.tag, NodeView { record: node, options: choices }));
    }
    assert(empty.insert(node.tag, NodeView { record: node, options: choices }).dom()
        =~= set![node.tag]);
}

/// Records that come before the first node record and are no nodes
/// themselves, choices among them, leave no trace: the graph is the one
/// that the remaining records describe.
pub proof fn lemma_leading_choices_dropped(lead: Seq<RecordView>, rest: Seq<RecordView>)
    requires
        no_nodes(lead),
    ensures
        fold_records(initial_state(), lead) == initial_state(),
        graph_of(lead + rest) == graph_of(rest),
    decreases lead.len(),
{
    if lead.len() > 0 {
        lemma_leading_choices_dropped(lead.drop_last(), Seq::empty());
        assert(!lead.last().is_node());
    }
    lemma_fold_concat(initial_state(), lead, rest);
}

/// Two states with the same cursor that hold the same node under `tag`
/// still do so after folding the same records from each.
proof fn lemma_fold_keeps_agreement(
    left: BuildState,
    right: BuildState,
    records: Seq<RecordView>,
    tag: Seq<char>,
)
    requires
        left.cursor == right.cursor,
        cursor_names_node(left),
        cursor_names_node(right),
        left.graph.contains_key(tag),
        right.graph.contains_key(tag),
        left.graph[tag] == right.graph[tag],
    ensures
        fold_records(left, records).cursor == fold_records(right, records).cursor,
        cursor_names_node(fold_records(left, records)),
        cursor_names_node(fold_records(right, records)),
        fold_records(left, records).graph.contains_key(tag),
        fold_records(right, records).graph.contains_key(tag),
        fold_records(left, records).graph[tag] == fold_records(right, records).graph[tag],
    decreases records.len(),
{
    if records.len() > 0 {
        lemma_fold_keeps_agreement(left, right, records.drop_last(), tag);
    }
}

/// What the graph holds under a tag is decided by the records from a node
/// record with that tag on. Nothing read before it is left under that tag:
/// neither an earlier node with the same tag nor the choices attached to it.
pub proof fn lemma_entry_decided_by_last_node(
    before: Seq<RecordView>,
    node: RecordView,
    after: Seq<RecordView>,
)
    requires
        node.is_node(),
    ensures
        graph_of(before + seq![node] + after).contains_key(node.tag),
        graph_of(seq![node] + after).contains_key(node.tag),
        graph_of(before + seq![node] + after)[node.tag] == graph_of(seq![node] + after)[node.tag],
{
    let start = initial_state();
    let one = seq![node];
    lemma_fold_concat(start, before + one, after);
    lemma_fold_concat(start, before, one);
    lemma_fold_concat(start, one, after);
    lemma_fold_one(fold_records(start, before), node);
    lemma_fold_one(start, node);
    lemma_cursor_names_node(start, before);
    let left = fold_records(fold_records(start, before), one);
    let right = fold_records(start, one);
    lemma_fold_keeps_agreement(left, right, after, node.tag);
}

/// Of two node records with the same tag, the second replaces the first:
/// where the second is followed by nothing but choices, the graph holds
/// under the tag the second record with exactly those choices, whatever
/// came before it.
pub proof fn lemma_later_node_replaces(
    before: Seq<RecordView>,
    node: RecordView,
    choices: Seq<RecordView>,
)
    requires
        node.is_node(),
        all_choices(choices),
    ensures
        graph_of(before + seq![node] + choices).contains_key(node.tag),
        graph_of(before + seq![node] + choices)[node.tag] == (NodeView {
            record: node,
            options: choices,
        }),
{
    lemma_entry_decided_by_last_node(before, node, choices);
    lemma_node_then_choices(node, choices);
}

} // verus!
