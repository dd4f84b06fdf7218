//! The Canvas node: a node that opens the graph editor window when its Edit
//! receiver gets an event, and asks the engine to stop waiting when the
//! window exits.
use vstd::prelude::*;
use crate::catalogue::Catalogue;
use crate::engine::ControllerCommand;
use crate::graph::{GraphInfo, GraphRef, PinInfo, VersionInfo};
use crate::ids::{ActorId, INTERNAL_LIBRARY_ID, Id};
use crate::node::{Effect, Node, NodeInstanceInfo, NodeModel, NodeState, Nodeable, OtherMessage};
use crate::nodes::{BuiltinNode, basic_decl};
use crate::pin::{Pin, PinDecl, pin_decls};
use crate::value::Value;

verus! {

/// The Canvas graph.
pub const CANVAS_GRAPH_ID: Id = 0xa795c3e9_0a2f_48bf_a9e2_03378e8e59b8;

/// The "Graph Folder Path" input.
pub const CANVAS_PATH_INPUT: Id = 0x3db2a9ea_9c77_4b4f_b18b_e5418f0e1f4a;

/// The "Graph Version" input.
pub const CANVAS_VERSION_INPUT: Id = 0xaf58cc69_0db9_4a4a_b715_774bf9e7faa6;

/// The "Modified Graph Folder Path" output.
pub const CANVAS_PATH_OUTPUT: Id = 0x44a986b1_dc09_45d9_ab65_e2c0c7b6f5ce;

/// The "Modified Graph Version" output.
pub const CANVAS_VERSION_OUTPUT: Id = 0xfdbc0064_6aa5_41f5_85f8_be17659821e7;

/// The Edit receiver: opens the editor window.
pub const CANVAS_EDIT_RECEIVER: Id = 0x7c5c2794_eb60_4661_9d25_585e1226233e;

/// The Save receiver.
pub const CANVAS_SAVE_RECEIVER: Id = 0xc0cf0e78_4171_4fbc_ad19_fd6bc372b69e;

/// Messages from the editor window to its Canvas node.
pub enum CanvasMessage {
    /// The window was closed.
    Exit,
}

/// Behaviour of the Canvas node, version 1.
pub struct NodeMetaCanvasV1 {
    /// The graph version being edited.
    pub graph: Option<GraphRef>,
    /// That version's record, once loaded.
    pub instance: Option<VersionInfo>,
    /// Running nodes of the canvas, by their instance id within the graph.
    pub nodes: Vec<(Id, ActorId)>,
    /// Whether the editor window has been opened.
    pub editor_open: bool,
}

/// Whether a message is the editor window's exit message.
pub open spec fn is_exit(message: OtherMessage) -> bool {
    message matches OtherMessage::Canvas(CanvasMessage::Exit)
}

impl NodeMetaCanvasV1 {
    /// A Canvas node instance with its editor closed.
    pub fn new(controller: ActorId, catalogue: &Catalogue, instance_id: Id) -> (r: Node<BuiltinNode>)
        ensures
            crate::nodes::fresh_instance(r, *catalogue, controller, CANVAS_GRAPH_ID, 1, instance_id),
            r.process matches BuiltinNode::Canvas(c) && c.graph is None && c.instance is None
                && c.nodes@.len() == 0 && !c.editor_open,
            r.state@.info.graph.name@ == "Canvas"@,
    {
        let process = NodeMetaCanvasV1 {
            graph: None,
            instance: None,
            nodes: Vec::new(),
            editor_open: false,
        };
        let graph = GraphRef {
            name: "Canvas".to_owned(),
            uuid: CANVAS_GRAPH_ID,
            library: Some(INTERNAL_LIBRARY_ID),
            version: 1,
        };
        let info = NodeInstanceInfo::new(instance_id, graph);
        Node::new(info, BuiltinNode::Canvas(process), catalogue, controller)
    }
}

impl Nodeable for NodeMetaCanvasV1 {
    open spec fn io_spec(&self, catalogue: Catalogue) -> (Seq<PinDecl>, Seq<PinDecl>) {
        (
            seq![
                basic_decl(CANVAS_PATH_INPUT, "Graph Folder Path"@, "string"@, true),
                basic_decl(CANVAS_VERSION_INPUT, "Graph Version"@, "int"@, true),
            ],
            seq![
                basic_decl(CANVAS_PATH_OUTPUT, "Modified Graph Folder Path"@, "string"@, true),
                basic_decl(CANVAS_VERSION_OUTPUT, "Modified Graph Version"@, "int"@, true),
            ],
        )
    }

    open spec fn rs_spec(&self, catalogue: Catalogue) -> (Seq<PinDecl>, Seq<PinDecl>) {
        (
            seq![
                basic_decl(CANVAS_EDIT_RECEIVER, "Edit"@, "none"@, false),
                basic_decl(CANVAS_SAVE_RECEIVER, "Save"@, "none"@, false),
            ],
            Seq::empty(),
        )
    }

    /// Outputs are computed as empty values.
    open spec fn compute_ok(
        &self,
        node: NodeModel,
        output: PinInfo,
        parameter: Option<Value>,
        after: Self,
        node_after: NodeModel,
        effects: Seq<Effect>,
        result: Result<Option<Value>, String>,
    ) -> bool {
        after == *self && node_after == node && effects.len() == 0 && result == Ok::<
            Option<Value>,
            String,
        >(None)
    }

    /// An event on Edit opens the editor window; other events are ignored.
    open spec fn receive_ok(
        &self,
        node: NodeModel,
        receiver: Id,
        message: Option<Value>,
        after: Self,
        node_after: NodeModel,
        effects: Seq<Effect>,
    ) -> bool {
        &&& node_after == node
        &&& if receiver == CANVAS_EDIT_RECEIVER {
            after == NodeMetaCanvasV1 { editor_open: true, ..*self } && effects == seq![
                Effect::OpenEditor,
            ]
        } else {
            after == *self && effects.len() == 0
        }
    }

    /// The window's exit message asks the controller to stop waiting;
    /// other messages are ignored.
    open spec fn message_ok(
        &self,
        node: NodeModel,
        message: OtherMessage,
        after: Self,
        node_after: NodeModel,
        effects: Seq<Effect>,
    ) -> bool {
        &&& after == *self
        &&& node_after == node
        &&& effects == if is_exit(message) {
            seq![Effect::Control(ControllerCommand::StopWaitingForNewMessages)]
        } else {
            Seq::empty()
        }
    }

    fn get_io(&self, catalogue: &Catalogue) -> (r: (Vec<Pin>, Vec<Pin>)) {
        let mut inputs: Vec<Pin> = Vec::new();
        let mut outputs: Vec<Pin> = Vec::new();
        inputs.push(
            Pin::new_io_basic(
                PinInfo::new_basic(
                    "Graph Folder Path".to_owned(),
                    CANVAS_PATH_INPUT,
                    "string".to_owned(),
                ),
            ),
        );
        inputs.push(
            Pin::new_io_basic(
                PinInfo::new_basic("Graph Version".to_owned(), CANVAS_VERSION_INPUT, "int".to_owned()),
            ),
        );
        outputs.push(
            Pin::new_io_basic(
                PinInfo::new_basic(
                    "Modified Graph Folder Path".to_owned(),
                    CANVAS_PATH_OUTPUT,
                    "string".to_owned(),
                ),
            ),
        );
        outputs.push(
            Pin::new_io_basic(
                PinInfo::new_basic(
                    "Modified Graph Version".to_owned(),
                    CANVAS_VERSION_OUTPUT,
                    "int".to_owned(),
                ),
            ),
        );
        assert(pin_decls(inputs@) =~= self.io_spec(*catalogue).0);
        assert(pin_decls(outputs@) =~= self.io_spec(*catalogue).1);
        (inputs, outputs)
    }

    fn get_rs(&self, catalogue: &Catalogue) -> (r: (Vec<Pin>, Vec<Pin>)) {
        let mut receives: Vec<Pin> = Vec::new();
        receives.push(
            Pin::new_rs_basic(
                PinInfo::new_basic("Edit".to_owned(), CANVAS_EDIT_RECEIVER, "none".to_owned()),
            ),
        );
        receives.push(
            Pin::new_rs_basic(
                PinInfo::new_basic("Save".to_owned(), CANVAS_SAVE_RECEIVER, "none".to_owned()),
            ),
        );
        let sends: Vec<Pin> = Vec::new();
        assert(pin_decls(receives@) =~= self.rs_spec(*catalogue).0);
        assert(pin_decls(sends@) =~= self.rs_spec(*catalogue).1);
        (receives, sends)
    }

    fn compute_output(
        &mut self,
        node: &mut NodeState,
        output_info: &PinInfo,
        parameter: &Option<Value>,
    ) -> (r: (Result<Option<Value>, String>, Vec<Effect>)) {
        (Ok(None), Vec::new())
    }

    fn handle_receive(&mut self, node: &mut NodeState, receiver: Id, message: &Option<Value>) -> (r:
        Vec<Effect>) {
        let mut effects: Vec<Effect> = Vec::new();
        if receiver == CANVAS_EDIT_RECEIVER {
            self.editor_open = true;
            effects.push(Effect::OpenEditor);
        }
        effects
    }

    fn handle_message(&mut self, node: &mut NodeState, message: &OtherMessage) -> (r: Vec<Effect>) {
        let mut effects: Vec<Effect> = Vec::new();
        match message {
            OtherMessage::Canvas(CanvasMessage::Exit) => {
                effects.push(Effect::Control(ControllerCommand::StopWaitingForNewMessages));
            },
            OtherMessage::Payload(_) => {},
        }
        effects
    }
}

/// Registers the Canvas graph: its information and its number of versions.
pub fn register() -> (r: (GraphInfo, u64))
    ensures
        r.0.uuid == CANVAS_GRAPH_ID,
        r.0.name@ == "Canvas"@,
        r.0.format == 1,
        r.1 == 1,
{
    (GraphInfo { name: "Canvas".to_owned(), uuid: CANVAS_GRAPH_ID, format: 1 }, 1)
}

/// A Canvas node instance, when `uuid` names the Canvas graph and `version`
/// is one it has.
pub fn create(controller: ActorId, catalogue: &Catalogue, uuid: Id, version: u64, instance_id: Id) -> (r:
    Option<Node<BuiltinNode>>)
    ensures
        match r {
            Some(n) => uuid == CANVAS_GRAPH_ID && version == 1 && crate::nodes::fresh_instance(
                n,
                *catalogue,
                controller,
                uuid,
                version,
                instance_id,
            ) && (n.process matches BuiltinNode::Canvas(c) && c.graph is None && c.instance is None
                && c.nodes@.len() == 0 && !c.editor_open),
            None => !(uuid == CANVAS_GRAPH_ID && version == 1),
        },
{
    if uuid == CANVAS_GRAPH_ID && version == 1 {
        Some(NodeMetaCanvasV1::new(controller, catalogue, instance_id))
    } else {
        None
    }
}

} // verus!
