//! The built-in nodes: Log, Graph and Canvas. They are registered in the
//! built-in library and created by the controller when it boots one.
use vstd::prelude::*;
use crate::catalogue::Catalogue;
use crate::graph::{GraphInfo, PinInfo};
use crate::ids::{ActorId, INTERNAL_LIBRARY_ID, Id};
use crate::node::{Effect, Node, NodeModel, NodeState, Nodeable, OtherMessage};
use crate::pin::{Pin, PinDecl};
use crate::value::Value;

pub mod canvas;
pub mod graph;
pub mod log;

use crate::nodes::canvas::{CANVAS_GRAPH_ID, NodeMetaCanvasV1};
use crate::nodes::graph::{GRAPH_GRAPH_ID, NodeMetaGraphV1};
use crate::nodes::log::{LOG_GRAPH_ID, NodeUtilLogV1};

verus! {

/// The declaration of a pin with the given id, name, datatype and caching,
/// and none of the optional flags.
pub open spec fn basic_decl(id: Id, name: Seq<char>, datatype: Seq<char>, cache: bool) -> PinDecl {
    PinDecl { uuid: id, name, datatype, valuable: None, dimensions: None, expandable: None, cache }
}

/// The behaviour of a built-in node.
pub enum BuiltinNode {
    Log(NodeUtilLogV1),
    Graph(NodeMetaGraphV1),
    Canvas(NodeMetaCanvasV1),
}

impl Nodeable for BuiltinNode {
    open spec fn io_spec(&self, catalogue: Catalogue) -> (Seq<PinDecl>, Seq<PinDecl>) {
        match self {
            BuiltinNode::Log(b) => b.io_spec(catalogue),
            BuiltinNode::Graph(b) => b.io_spec(catalogue),
            BuiltinNode::Canvas(b) => b.io_spec(catalogue),
        }
    }

    open spec fn rs_spec(&self, catalogue: Catalogue) -> (Seq<PinDecl>, Seq<PinDecl>) {
        match self {
            BuiltinNode::Log(b) => b.rs_spec(catalogue),
            BuiltinNode::Graph(b) => b.rs_spec(catalogue),
            BuiltinNode::Canvas(b) => b.rs_spec(catalogue),
        }
    }

    open spec fn compute_ok(
        &self,
        node: NodeModel,
        output: PinInfo,
        parameter: Option<Value>,
        after: Self,
        node_after: NodeModel,
        effects: Seq<Effect>,
        result: Result<Option<Value>, String>,
    ) -> bool {
        match (*self, after) {
            (BuiltinNode::Log(b), BuiltinNode::Log(a)) => b.compute_ok(
                node,
                output,
                parameter,
                a,
                node_after,
                effects,
                result,
            ),
            (BuiltinNode::Graph(b), BuiltinNode::Graph(a)) => b.compute_ok(
                node,
                output,
                parameter,
                a,
                node_after,
                effects,
                result,
            ),
            (BuiltinNode::Canvas(b), BuiltinNode::Canvas(a)) => b.compute_ok(
                node,
                output,
                parameter,
                a,
                node_after,
                effects,
                result,
            ),
            _ => false,
        }
    }

    open spec fn receive_ok(
        &self,
        node: NodeModel,
        receiver: Id,
        message: Option<Value>,
        after: Self,
        node_after: NodeModel,
        effects: Seq<Effect>,
    ) -> bool {
        match (*self, after) {
            (BuiltinNode::Log(b), BuiltinNode::Log(a)) => b.receive_ok(
                node,
                receiver,
                message,
                a,
                node_after,
                effects,
            ),
            (BuiltinNode::Graph(b), BuiltinNode::Graph(a)) => b.receive_ok(
                node,
                receiver,
                message,
                a,
                node_after,
                effects,
            ),
            (BuiltinNode::Canvas(b), BuiltinNode::Canvas(a)) => b.receive_ok(
                node,
                receiver,
                message,
                a,
                node_after,
                effects,
            ),
            _ => false,
        }
    }

    open spec fn message_ok(
        &self,
        node: NodeModel,
        message: OtherMessage,
        after: Self,
        node_after: NodeModel,
        effects: Seq<Effect>,
    ) -> bool {
        match (*self, after) {
            (BuiltinNode::Log(b), BuiltinNode::Log(a)) => b.message_ok(
                node,
                message,
                a,
                node_after,
                effects,
            ),
            (BuiltinNode::Graph(b), BuiltinNode::Graph(a)) => b.message_ok(
                node,
                message,
                a,
                node_after,
                effects,
            ),
            (BuiltinNode::Canvas(b), BuiltinNode::Canvas(a)) => b.message_ok(
                node,
                message,
                a,
                node_after,
                effects,
            ),
            _ => false,
        }
    }

    fn get_io(&self, catalogue: &Catalogue) -> (r: (Vec<Pin>, Vec<Pin>)) {
        match self {
            BuiltinNode::Log(b) => b.get_io(catalogue),
            BuiltinNode::Graph(b) => b.get_io(catalogue),
            BuiltinNode::Canvas(b) => b.get_io(catalogue),
        }
    }

    fn get_rs(&self, catalogue: &Catalogue) -> (r: (Vec<Pin>, Vec<Pin>)) {
        match self {
            BuiltinNode::Log(b) => b.get_rs(catalogue),
            BuiltinNode::Graph(b) => b.get_rs(catalogue),
            BuiltinNode::Canvas(b) => b.get_rs(catalogue),
        }
    }

    fn compute_output(
        &mut self,
        node: &mut NodeState,
        output_info: &PinInfo,
        parameter: &Option<Value>,
    ) -> (r: (Result<Option<Value>, String>, Vec<Effect>)) {
        match self {
            BuiltinNode::Log(b) => b.compute_output(node, output_info, parameter),
            BuiltinNode::Graph(b) => b.compute_output(node, output_info, parameter),
            BuiltinNode::Canvas(b) => b.compute_output(node, output_info, parameter),
        }
    }

    fn handle_receive(&mut self, node: &mut NodeState, receiver: Id, message: &Option<Value>) -> (r:
        Vec<Effect>) {
        match self {
            BuiltinNode::Log(b) => b.handle_receive(node, receiver, message),
            BuiltinNode::Graph(b) => b.handle_receive(node, receiver, message),
            BuiltinNode::Canvas(b) => b.handle_receive(node, receiver, message),
        }
    }

    fn handle_message(&mut self, node: &mut NodeState, message: &OtherMessage) -> (r: Vec<Effect>) {
        match self {
            BuiltinNode::Log(b) => b.handle_message(node, message),
            BuiltinNode::Graph(b) => b.handle_message(node, message),
            BuiltinNode::Canvas(b) => b.handle_message(node, message),
        }
    }
}

/// Whether a graph id and version name a built-in node.
pub open spec fn is_builtin(uuid: Id, version: u64) -> bool {
    (uuid == LOG_GRAPH_ID || uuid == GRAPH_GRAPH_ID || uuid == CANVAS_GRAPH_ID) && version == 1
}

/// Registers the built-in graphs: each one's information and its number of
/// versions.
pub fn register() -> (r: Vec<(GraphInfo, u64)>)
    ensures
        r@.len() == 3,
        r@[0].0.uuid == GRAPH_GRAPH_ID && r@[0].0.name@ == "Graph"@ && r@[0].1 == 1,
        r@[1].0.uuid == CANVAS_GRAPH_ID && r@[1].0.name@ == "Canvas"@ && r@[1].1 == 1,
        r@[2].0.uuid == LOG_GRAPH_ID && r@[2].0.name@ == "Log"@ && r@[2].1 == 1,
        forall|i: int| 0 <= i < 3 ==> (#[trigger] r@[i]).0.format == 1,
{
    let mut nodes: Vec<(GraphInfo, u64)> = Vec::new();
    nodes.push(graph::register());
    nodes.push(canvas::register());
    nodes.push(log::register());
    nodes
}

/// A node just made for an instance of a built-in graph version: well
/// formed, with the given instance id and controller, no data, a reference
/// to that graph version in the built-in library, and the pins its
/// behaviour declares.
pub open spec fn fresh_instance(
    n: Node<BuiltinNode>,
    catalogue: Catalogue,
    controller: ActorId,
    uuid: Id,
    version: u64,
    instance_id: Id,
) -> bool {
    &&& n.state.wf()
    &&& n.state@.info.uuid == instance_id
    &&& n.state@.info.data == Map::<Seq<char>, Value>::empty()
    &&& n.state@.info.graph.uuid == uuid
    &&& n.state@.info.graph.library == Some(INTERNAL_LIBRARY_ID)
    &&& n.state@.info.graph.version == version
    &&& n.state@.controller == controller
    &&& crate::node::refreshed(n.state@, n.process, catalogue, n.state@)
}

/// What a new built-in node is: a fresh instance whose behaviour is the
/// graph's own, in its initial state.
pub open spec fn created(
    n: Node<BuiltinNode>,
    catalogue: Catalogue,
    controller: ActorId,
    uuid: Id,
    version: u64,
    instance_id: Id,
) -> bool {
    &&& fresh_instance(n, catalogue, controller, uuid, version, instance_id)
    &&& uuid == LOG_GRAPH_ID ==> n.process == BuiltinNode::Log(NodeUtilLogV1 {})
    &&& uuid == GRAPH_GRAPH_ID ==> (n.process matches BuiltinNode::Graph(g) && g.graph is None
        && g.instance is None && g.nodes@.len() == 0)
    &&& uuid == CANVAS_GRAPH_ID ==> (n.process matches BuiltinNode::Canvas(c) && c.graph is None
        && c.instance is None && c.nodes@.len() == 0 && !c.editor_open)
}

/// A new built-in node for the graph id and version, if they name one.
pub fn create(controller: ActorId, catalogue: &Catalogue, uuid: Id, version: u64, instance_id: Id) -> (r:
    Option<Node<BuiltinNode>>)
    ensures
        match r {
            Some(n) => is_builtin(uuid, version) && created(
                n,
                *catalogue,
                controller,
                uuid,
                version,
                instance_id,
            ),
            None => !is_builtin(uuid, version),
        },
{
    match graph::create(controller, catalogue, uuid, version, instance_id) {
        Some(n) => {
            return Some(n);
        },
        None => {},
    }
    match canvas::create(controller, catalogue, uuid, version, instance_id) {
        Some(n) => {
            return Some(n);
        },
        None => {},
    }
    log::create(controller, catalogue, uuid, version, instance_id)
}

/// No built-in behaviour changes an input's value or descriptor.
pub proof fn lemma_builtins_keep_inputs(input: Id)
    ensures
        crate::node::keeps_input::<BuiltinNode>(input),
{
}

} // verus!
