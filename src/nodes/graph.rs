//! The Graph node: a node that stands for a user-defined graph version and
//! exposes that version's pins.
use vstd::prelude::*;
use crate::catalogue::Catalogue;
use crate::graph::{GraphInfo, GraphRef, PinInfo, VersionInfo};
use crate::ids::{ActorId, INTERNAL_LIBRARY_ID, Id};
use crate::node::{Effect, Node, NodeInstanceInfo, NodeModel, NodeState, Nodeable, OtherMessage};
use crate::nodes::BuiltinNode;
use crate::pin::{Pin, PinDecl, info_decl, info_decls, pin_decl, pin_decls};
use crate::value::Value;

verus! {

/// The Graph graph.
pub const GRAPH_GRAPH_ID: Id = 0x25351e69_098b_4330_9317_37436b03d427;

/// Behaviour of the Graph node, version 1. Evaluating the graph it stands
/// for is not provided: its outputs fail to compute and events are ignored.
pub struct NodeMetaGraphV1 {
    /// The graph version this node stands for.
    pub graph: Option<GraphRef>,
    /// That version's record, once loaded.
    pub instance: Option<VersionInfo>,
    /// Running nodes of the graph, by their instance id within the graph.
    pub nodes: Vec<(Id, ActorId)>,
}

/// Fresh pins for the given descriptors.
fn pins_for(infos: &Vec<PinInfo>, cache: bool) -> (r: Vec<Pin>)
    ensures
        pin_decls(r@) == info_decls(infos@, cache),
        forall|i: int| 0 <= i < r@.len() ==> (#[trigger] r@[i])@.is_fresh() && r@[i]@.wf(),
{
    let mut r: Vec<Pin> = Vec::new();
    let mut i: usize = 0;
    while i < infos.len()
        invariant
            i <= infos@.len(),
            r@.len() == i,
            forall|j: int| 0 <= j < i ==> pin_decl(#[trigger] r@[j]) == info_decl(infos@[j], cache),
            forall|j: int| 0 <= j < i ==> (#[trigger] r@[j])@.is_fresh() && r@[j]@.wf(),
        decreases infos@.len() - i,
    {
        let info = infos[i].clone();
        let p = if cache {
            Pin::new_io_basic(info)
        } else {
            Pin::new_rs_basic(info)
        };
        r.push(p);
        i = i + 1;
    }
    assert(pin_decls(r@) =~= info_decls(infos@, cache));
    r
}

impl NodeMetaGraphV1 {
    /// A Graph node instance, not yet standing for any graph version.
    pub fn new(controller: ActorId, catalogue: &Catalogue, instance_id: Id) -> (r: Node<BuiltinNode>)
        ensures
            crate::nodes::fresh_instance(r, *catalogue, controller, GRAPH_GRAPH_ID, 1, instance_id),
            r.process matches BuiltinNode::Graph(g) && g.graph is None && g.instance is None
                && g.nodes@.len() == 0,
            r.state@.info.graph.name@ == "Graph"@,
    {
        let process = NodeMetaGraphV1 { graph: None, instance: None, nodes: Vec::new() };
        let graph = GraphRef {
            name: "Graph".to_owned(),
            uuid: GRAPH_GRAPH_ID,
            library: Some(INTERNAL_LIBRARY_ID),
            version: 1,
        };
        let info = NodeInstanceInfo::new(instance_id, graph);
        Node::new(info, BuiltinNode::Graph(process), catalogue, controller)
    }
}

impl Nodeable for NodeMetaGraphV1 {
    /// The pins of the loaded version, none before one is loaded.
    open spec fn io_spec(&self, catalogue: Catalogue) -> (Seq<PinDecl>, Seq<PinDecl>) {
        match self.instance {
            Some(v) => (info_decls(v.inputs@, true), info_decls(v.outputs@, true)),
            None => (Seq::empty(), Seq::empty()),
        }
    }

    open spec fn rs_spec(&self, catalogue: Catalogue) -> (Seq<PinDecl>, Seq<PinDecl>) {
        match self.instance {
            Some(v) => (info_decls(v.receives@, false), info_decls(v.sends@, false)),
            None => (Seq::empty(), Seq::empty()),
        }
    }

    open spec fn compute_ok(
        &self,
        node: NodeModel,
        output: PinInfo,
        parameter: Option<Value>,
        after: Self,
        node_after: NodeModel,
        effects: Seq<Effect>,
        result: Result<Option<Value>, String>,
    ) -> bool {
        after == *self && node_after == node && effects.len() == 0 && result is Err
    }

    open spec fn receive_ok(
        &self,
        node: NodeModel,
        receiver: Id,
        message: Option<Value>,
        after: Self,
        node_after: NodeModel,
        effects: Seq<Effect>,
    ) -> bool {
        after == *self && node_after == node && effects.len() == 0
    }

    open spec fn message_ok(
        &self,
        node: NodeModel,
        message: OtherMessage,
        after: Self,
        node_after: NodeModel,
        effects: Seq<Effect>,
    ) -> bool {
        after == *self && node_after == node && effects.len() == 0
    }

    fn get_io(&self, catalogue: &Catalogue) -> (r: (Vec<Pin>, Vec<Pin>)) {
        match &self.instance {
            Some(v) => (pins_for(&v.inputs, true), pins_for(&v.outputs, true)),
            None => {
                let r: (Vec<Pin>, Vec<Pin>) = (Vec::new(), Vec::new());
                assert(pin_decls(r.0@) =~= Seq::<PinDecl>::empty());
                r
            },
        }
    }

    fn get_rs(&self, catalogue: &Catalogue) -> (r: (Vec<Pin>, Vec<Pin>)) {
        match &self.instance {
            Some(v) => (pins_for(&v.receives, false), pins_for(&v.sends, false)),
            None => {
                let r: (Vec<Pin>, Vec<Pin>) = (Vec::new(), Vec::new());
                assert(pin_decls(r.0@) =~= Seq::<PinDecl>::empty());
                r
            },
        }
    }

    fn compute_output(
        &mut self,
        node: &mut NodeState,
        output_info: &PinInfo,
        parameter: &Option<Value>,
    ) -> (r: (Result<Option<Value>, String>, Vec<Effect>)) {
        (Err("the graph node does not evaluate its graph".to_owned()), Vec::new())
    }

    fn handle_receive(&mut self, node: &mut NodeState, receiver: Id, message: &Option<Value>) -> (r:
        Vec<Effect>) {
        Vec::new()
    }

    fn handle_message(&mut self, node: &mut NodeState, message: &OtherMessage) -> (r: Vec<Effect>) {
        Vec::new()
    }
}

/// Registers the Graph graph: its information and its number of versions.
pub fn register() -> (r: (GraphInfo, u64))
    ensures
        r.0.uuid == GRAPH_GRAPH_ID,
        r.0.name@ == "Graph"@,
        r.0.format == 1,
        r.1 == 1,
{
    (GraphInfo { name: "Graph".to_owned(), uuid: GRAPH_GRAPH_ID, format: 1 }, 1)
}

/// A Graph node instance, when `uuid` names the Graph graph and `version` is
/// one it has.
pub fn create(controller: ActorId, catalogue: &Catalogue, uuid: Id, version: u64, instance_id: Id) -> (r:
    Option<Node<BuiltinNode>>)
    ensures
        match r {
            Some(n) => uuid == GRAPH_GRAPH_ID && version == 1 && crate::nodes::fresh_instance(
                n,
                *catalogue,
                controller,
                uuid,
                version,
                instance_id,
            ) && (n.process matches BuiltinNode::Graph(g) && g.graph is None && g.instance is None
                && g.nodes@.len() == 0),
            None => !(uuid == GRAPH_GRAPH_ID && version == 1),
        },
{
    if uuid == GRAPH_GRAPH_ID && version == 1 {
        Some(NodeMetaGraphV1::new(controller, catalogue, instance_id))
    } else {
        None
    }
}

} // verus!
