//! The story graph: nodes keyed by tag, each with its choices in the order
//! in which they were read, and the fold that builds it from records.

use crate::record::{RecordView, StoryRecord};
use vstd::hash_map::StringHashMap;
use vstd::prelude::*;

verus! {

/// A story node: the record that introduced it and the choices it offers,
/// in the order in which they were read.
#[derive(Debug, PartialEq, Eq)]
pub struct StoryNode {
    pub record: StoryRecord,
    pub options: Vec<StoryRecord>,
}

/// What a [`StoryNode`] holds, as mathematical values.
pub struct NodeView {
    pub record: RecordView,
    pub options: Seq<RecordView>,
}

impl View for StoryNode {
    type V = NodeView;

    open spec fn view(&self) -> NodeView {
        NodeView { record: self.record@, options: self.options.deep_view() }
    }
}

/// The state of the fold over records: the nodes so far, and the tag of the
/// node read last, to which choices attach.
pub struct BuildState {
    pub graph: Map<Seq<char>, NodeView>,
    pub cursor: Option<Seq<char>>,
}

/// The state before any record: no node and no cursor.
pub open spec fn initial_state() -> BuildState {
    BuildState { graph: Map::empty(), cursor: None }
}

/// One step of the fold. A node record puts a fresh node without choices
/// under its tag, in place of any node that was there, and moves the cursor
/// to it. A choice record is appended to the node under the cursor, and
/// dropped where there is none. A record of any other kind changes nothing.
pub open spec fn fold_record(state: BuildState, record: RecordView) -> BuildState {
    if record.is_node() {
        BuildState {
            graph: state.graph.insert(record.tag, NodeView { record, options: Seq::empty() }),
            cursor: Some(record.tag),
        }
    } else if record.is_choice() {
        match state.cursor {
            Some(tag) => if state.graph.contains_key(tag) {
                let node = state.graph[tag];
                BuildState {
                    graph: state.graph.insert(
                        tag,
                        NodeView { record: node.record, options: node.options.push(record) },
                    ),
                    cursor: state.cursor,
                }
            } else {
                state
            },
            None => state,
        }
    } else {
        state
    }
}

/// The fold of `records`, in order, from `state`.
pub open spec fn fold_records(state: BuildState, records: Seq<RecordView>) -> BuildState
    decreases records.len(),
{
    if records.len() == 0 {
        state
    } else {
        fold_record(fold_records(state, records.drop_last()), records.last())
    }
}

/// The graph that `records` describe.
pub open spec fn graph_of(records: Seq<RecordView>) -> Map<Seq<char>, NodeView> {
    fold_records(initial_state(), records).graph
}

/// The story graph: a mapping from tag to node, fixed once it is built.
pub struct StoryGraph {
    nodes: StringHashMap<StoryNode>,
}

impl View for StoryGraph {
    type V = Map<Seq<char>, NodeView>;

    closed spec fn view(&self) -> Map<Seq<char>, NodeView> {
        self.nodes@.map_values(|node: StoryNode| node@)
    }
}

impl StoryGraph {
    /// A graph without nodes.
    pub fn new() -> (graph: StoryGraph)
        ensures
            graph@ == Map::<Seq<char>, NodeView>::empty(),
    {
        let graph = StoryGraph { nodes: StringHashMap::new() };
        assert(graph@ =~= Map::<Seq<char>, NodeView>::empty());
        graph
    }

    /// Puts `node` under the tag of its record, in place of any node that
    /// was there.
    pub fn insert(&mut self, node: StoryNode)
        ensures
            final(self)@ == old(self)@.insert(node@.record.tag, node@),
    {
        let tag = node.record.tag.clone();
        self.nodes.insert(tag, node);
        assert(self@ =~= old(self)@.insert(node@.record.tag, node@));
    }

    /// The node under `tag`, if there is one.
    pub fn get(&self, tag: &str) -> (r: Option<&StoryNode>)
        ensures
            match r {
                Some(node) => self@.contains_key(tag@) && node@ == self@[tag@],
                None => !self@.contains_key(tag@),
            },
    {
        self.nodes.get(tag)
    }

    /// Whether there is a node under `tag`.
    pub fn contains(&self, tag: &str) -> (r: bool)
        ensures
            r == self@.contains_key(tag@),
    {
        self.nodes.contains_key(tag)
    }

    /// The number of nodes.
    pub fn len(&self) -> (r: usize)
        ensures
            r == self@.len(),
    {
        assert(self@.dom() =~= self.nodes@.dom());
        self.nodes.len()
    }
}

/// The fold over records, one record at a time: the nodes that are
/// finished, and the node read last, which still takes choices.
pub struct GraphBuilder {
    nodes: StringHashMap<StoryNode>,
    pending: Option<StoryNode>,
}

impl View for GraphBuilder {
    type V = BuildState;

    closed spec fn view(&self) -> BuildState {
        let finished = self.nodes@.map_values(|node: StoryNode| node@);
        match self.pending {
            Some(node) => BuildState {
                graph: finished.insert(node@.record.tag, node@),
                cursor: Some(node@.record.tag),
            },
            None => BuildState { graph: finished, cursor: None },
        }
    }
}

impl GraphBuilder {
    /// A builder that has seen no record.
    pub fn new() -> (builder: GraphBuilder)
        ensures
            builder@ == initial_state(),
    {
        let builder = GraphBuilder { nodes: StringHashMap::new(), pending: None };
        assert(builder@.graph =~= Map::<Seq<char>, NodeView>::empty());
        builder
    }

    /// Takes the next record: one step of the fold.
    pub fn push(&mut self, record: StoryRecord)
        ensures
            final(self)@ == fold_record(old(self)@, record@),
    {
        if record.is_node() {
            match self.pending.take() {
                Some(node) => {
                    let tag = node.record.tag.clone();
                    self.nodes.insert(tag, node);
                },
                None => {},
            }
            let fresh = StoryNode { record, options: Vec::new() };
            assert(fresh@.options =~= Seq::<RecordView>::empty());
            self.pending = Some(fresh);
            assert(self@.graph =~= fold_record(old(self)@, record@).graph);
        } else if record.is_choice() {
            match self.pending.take() {
                Some(node) => {
                    let ghost before = node@;
                    let mut node = node;
                    node.options.push(record);
                    assert(node@.options =~= before.options.push(record@));
                    self.pending = Some(node);
                    assert(self@.graph =~= fold_record(old(self)@, record@).graph);
                },
                None => {},
            }
        }
    }

    /// Ends the fold and hands out the graph.
    pub fn finish(self) -> (graph: StoryGraph)
        ensures
            graph@ == self@.graph,
    {
        let mut graph = StoryGraph { nodes: self.nodes };
        match self.pending {
            Some(node) => {
                graph.insert(node);
            },
            None => {},
        }
        graph
    }
}

/// Builds the graph that `records` describe, taking them in order.
pub fn build_graph(records: Vec<StoryRecord>) -> (graph: StoryGraph)
    ensures
        graph@ == graph_of(records.deep_view()),
{
    let ghost all = records.deep_view();
    let mut builder = GraphBuilder::new();
    for record in it: records
        invariant
            it.seq().len() == all.len(),
            forall|i: int| 0 <= i < all.len() ==> (#[trigger] it.seq()[i])@ == all[i],
            builder@ == fold_records(initial_state(), all.subrange(0, it.index() as int)),
    {
        let ghost before = all.subrange(0, it.index() as int);
        let ghost after = all.subrange(0, it.index() + 1);
        assert(after.drop_last() =~= before);
        assert(after.last() == record@);
        builder.push(record);
    }
    assert(all.subrange(0, all.len() as int) =~= all);
    builder.finish()
}

} // verus!
