//! The Log node: each of its outputs passes on the value of the matching
//! input and writes it to the log at that output's level.
use vstd::prelude::*;
use crate::catalogue::Catalogue;
use crate::graph::{GraphInfo, GraphRef, PinInfo};
use crate::ids::{ActorId, INTERNAL_LIBRARY_ID, Id};
use crate::node::{Effect, LogLevel, Node, NodeCommand, NodeInstanceInfo, NodeMessage, NodeModel, NodeResponse, NodeState, Nodeable, OtherMessage, leaves_input, lemma_input_reaches_later_output, run, step};
use crate::nodes::lemma_builtins_keep_inputs;
use crate::nodes::{BuiltinNode, basic_decl};
use crate::pin::{Pin, PinDecl, pin_decl, pin_decls};
use crate::value::{Value, clone_opt_value};

verus! {

/// The Log graph.
pub const LOG_GRAPH_ID: Id = 0xfd41d8ef_d10f_4499_8a90_35b73d8ff246;

/// The Info input.
pub const LOG_INFO_INPUT: Id = 0x5e6ab872_5cca_4e01_8dbb_2df843102dc0;

/// The Warn input.
pub const LOG_WARN_INPUT: Id = 0x2916bcb7_2943_4426_8af4_292bd8b1f417;

/// The Error input.
pub const LOG_ERROR_INPUT: Id = 0xf39a4e33_32f3_485f_b634_e539c98dbe94;

/// The Info output.
pub const LOG_INFO_OUTPUT: Id = 0x44a986b1_dc09_45d9_ab65_e2c0c7b6f5ce;

/// The Warn output.
pub const LOG_WARN_OUTPUT: Id = 0xd792d30a_0986_4f8c_bf6d_5fd0f4ac3d05;

/// The Error output.
pub const LOG_ERROR_OUTPUT: Id = 0x2af8bac9_9d56_4f6f_b997_68b05d1f3e55;

/// The Info receiver.
pub const LOG_INFO_RECEIVER: Id = 0x6b9c6c69_13e8_473a_ac47_818fcdf6d7bd;

/// The Warn receiver.
pub const LOG_WARN_RECEIVER: Id = 0x4eb1bc59_ca1b_4754_be49_0ad13f86421a;

/// The Error receiver.
pub const LOG_ERROR_RECEIVER: Id = 0x3f66f874_b785_4444_b7c6_5007052b531c;

/// The "Log and Pass Through" receiver.
pub const LOG_PASS_RECEIVER: Id = 0xbccf1a26_793d_4c80_ad25_be110c4dc1d7;

/// The Info sender.
pub const LOG_INFO_SENDER: Id = 0xdfc26f11_fa2b_4667_aad3_456edbdd9c84;

/// The Warn sender.
pub const LOG_WARN_SENDER: Id = 0x3982006c_9e32_4e59_a544_58bc9a367daf;

/// The Error sender.
pub const LOG_ERROR_SENDER: Id = 0xab04b49d_ff65_44c6_a70b_8546ecdbc5ba;

/// Behaviour of the Log node, version 1.
pub struct NodeUtilLogV1 {}

/// The input an output of the Log node reads, and the output's level.
pub open spec fn log_source(output: Id) -> Option<(Id, LogLevel)> {
    if output == LOG_INFO_OUTPUT {
        Some((LOG_INFO_INPUT, LogLevel::Info))
    } else if output == LOG_WARN_OUTPUT {
        Some((LOG_WARN_INPUT, LogLevel::Warn))
    } else if output == LOG_ERROR_OUTPUT {
        Some((LOG_ERROR_INPUT, LogLevel::Error))
    } else {
        None
    }
}

/// The log line for a value: text is written, other values are not.
pub open spec fn log_lines(level: LogLevel, value: Option<Value>) -> Seq<Effect> {
    match value {
        Some(Value::Text(s)) => seq![Effect::Log(level, s)],
        _ => Seq::empty(),
    }
}

/// Computing a Log output the node has: the matching input's value, written
/// to the log. An output the node lacks fails. The node and the behaviour
/// are unchanged.
pub open spec fn log_compute(
    node: NodeModel,
    output: Id,
    node_after: NodeModel,
    effects: Seq<Effect>,
    result: Result<Option<Value>, String>,
) -> bool {
    &&& node_after == node
    &&& !node.outputs.contains_key(output) ==> result is Err && effects.len() == 0
    &&& node.outputs.contains_key(output) ==> match log_source(output) {
        Some((input, level)) => if node.inputs.contains_key(input) {
            result == Ok::<Option<Value>, String>(node.inputs[input].value) && effects == log_lines(
                level,
                node.inputs[input].value,
            )
        } else {
            result is Err && effects.len() == 0
        },
        None => result is Err && effects.len() == 0,
    }
}

fn source_of(output: Id) -> (r: Option<(Id, LogLevel)>)
    ensures
        r == log_source(output),
{
    if output == LOG_INFO_OUTPUT {
        Some((LOG_INFO_INPUT, LogLevel::Info))
    } else if output == LOG_WARN_OUTPUT {
        Some((LOG_WARN_INPUT, LogLevel::Warn))
    } else if output == LOG_ERROR_OUTPUT {
        Some((LOG_ERROR_INPUT, LogLevel::Error))
    } else {
        None
    }
}

fn io_pin(name: &str, id: Id) -> (r: Pin)
    ensures
        pin_decl(r) == basic_decl(id, name@, "string"@, true),
        r@.is_fresh(),
        r@.wf(),
{
    Pin::new_io_basic(PinInfo::new_basic(name.to_owned(), id, "string".to_owned()))
}

fn rs_pin(name: &str, id: Id) -> (r: Pin)
    ensures
        pin_decl(r) == basic_decl(id, name@, "string"@, false),
        r@.is_fresh(),
        r@.wf(),
{
    Pin::new_rs_basic(PinInfo::new_basic(name.to_owned(), id, "string".to_owned()))
}

impl NodeUtilLogV1 {
    /// The Log node's input and output pins.
    pub open spec fn io_decls() -> (Seq<PinDecl>, Seq<PinDecl>) {
        (
            seq![
                basic_decl(LOG_INFO_INPUT, "Info"@, "string"@, true),
                basic_decl(LOG_WARN_INPUT, "Warn"@, "string"@, true),
                basic_decl(LOG_ERROR_INPUT, "Error"@, "string"@, true),
            ],
            seq![
                basic_decl(LOG_INFO_OUTPUT, "Info"@, "string"@, true),
                basic_decl(LOG_WARN_OUTPUT, "Warn"@, "string"@, true),
                basic_decl(LOG_ERROR_OUTPUT, "Error"@, "string"@, true),
            ],
        )
    }

    /// The Log node's receive and send pins.
    pub open spec fn rs_decls() -> (Seq<PinDecl>, Seq<PinDecl>) {
        (
            seq![
                basic_decl(LOG_INFO_RECEIVER, "Info"@, "string"@, false),
                basic_decl(LOG_WARN_RECEIVER, "Warn"@, "string"@, false),
                basic_decl(LOG_ERROR_RECEIVER, "Error"@, "string"@, false),
                basic_decl(LOG_PASS_RECEIVER, "Log and Pass Through"@, "string"@, false),
            ],
            seq![
                basic_decl(LOG_INFO_SENDER, "Info"@, "string"@, false),
                basic_decl(LOG_WARN_SENDER, "Warn"@, "string"@, false),
                basic_decl(LOG_ERROR_SENDER, "Error"@, "string"@, false),
            ],
        )
    }

    /// A Log node instance.
    pub fn new(controller: ActorId, catalogue: &Catalogue, instance_id: Id) -> (r: Node<BuiltinNode>)
        ensures
            crate::nodes::fresh_instance(r, *catalogue, controller, LOG_GRAPH_ID, 1, instance_id),
            r.process == BuiltinNode::Log(NodeUtilLogV1 {}),
            r.state@.info.graph.name@ == "Log"@,
    {
        let graph = GraphRef {
            name: "Log".to_owned(),
            uuid: LOG_GRAPH_ID,
            library: Some(INTERNAL_LIBRARY_ID),
            version: 1,
        };
        let info = NodeInstanceInfo::new(instance_id, graph);
        Node::new(info, BuiltinNode::Log(NodeUtilLogV1 {}), catalogue, controller)
    }
}

impl Nodeable for NodeUtilLogV1 {
    open spec fn io_spec(&self, catalogue: Catalogue) -> (Seq<PinDecl>, Seq<PinDecl>) {
        Self::io_decls()
    }

    open spec fn rs_spec(&self, catalogue: Catalogue) -> (Seq<PinDecl>, Seq<PinDecl>) {
        Self::rs_decls()
    }

    open spec fn compute_ok(
        &self,
        node: NodeModel,
        output: PinInfo,
        parameter: Option<Value>,
        after: Self,
        node_after: NodeModel,
        effects: Seq<Effect>,
        result: Result<Option<Value>, String>,
    ) -> bool {
        after == *self && log_compute(node, output.uuid, node_after, effects, result)
    }

    /// Events are accepted and ignored.
    open spec fn receive_ok(
        &self,
        node: NodeModel,
        receiver: Id,
        message: Option<Value>,
        after: Self,
        node_after: NodeModel,
        effects: Seq<Effect>,
    ) -> bool {
        after == *self && node_after == node && effects.len() == 0
    }

    /// Other messages are ignored.
    open spec fn message_ok(
        &self,
        node: NodeModel,
        message: OtherMessage,
        after: Self,
        node_after: NodeModel,
        effects: Seq<Effect>,
    ) -> bool {
        after == *self && node_after == node && effects.len() == 0
    }

    fn get_io(&self, catalogue: &Catalogue) -> (r: (Vec<Pin>, Vec<Pin>)) {
        let mut inputs: Vec<Pin> = Vec::new();
        let mut outputs: Vec<Pin> = Vec::new();
        inputs.push(io_pin("Info", LOG_INFO_INPUT));
        inputs.push(io_pin("Warn", LOG_WARN_INPUT));
        inputs.push(io_pin("Error", LOG_ERROR_INPUT));
        outputs.push(io_pin("Info", LOG_INFO_OUTPUT));
        outputs.push(io_pin("Warn", LOG_WARN_OUTPUT));
        outputs.push(io_pin("Error", LOG_ERROR_OUTPUT));
        assert(pin_decls(inputs@) =~= Self::io_decls().0);
        assert(pin_decls(outputs@) =~= Self::io_decls().1);
        (inputs, outputs)
    }

    fn get_rs(&self, catalogue: &Catalogue) -> (r: (Vec<Pin>, Vec<Pin>)) {
        let mut receives: Vec<Pin> = Vec::new();
        let mut sends: Vec<Pin> = Vec::new();
        receives.push(rs_pin("Info", LOG_INFO_RECEIVER));
        receives.push(rs_pin("Warn", LOG_WARN_RECEIVER));
        receives.push(rs_pin("Error", LOG_ERROR_RECEIVER));
        receives.push(rs_pin("Log and Pass Through", LOG_PASS_RECEIVER));
        sends.push(rs_pin("Info", LOG_INFO_SENDER));
        sends.push(rs_pin("Warn", LOG_WARN_SENDER));
        sends.push(rs_pin("Error", LOG_ERROR_SENDER));
        assert(pin_decls(receives@) =~= Self::rs_decls().0);
        assert(pin_decls(sends@) =~= Self::rs_decls().1);
        (receives, sends)
    }

    fn compute_output(
        &mut self,
        node: &mut NodeState,
        output_info: &PinInfo,
        parameter: &Option<Value>,
    ) -> (r: (Result<Option<Value>, String>, Vec<Effect>)) {
        let mut effects: Vec<Effect> = Vec::new();
        match node.outputs.get(output_info.uuid) {
            Some(_) => {},
            None => {
                return (Err("the log node has no such output".to_owned()), effects);
            },
        }
        match source_of(output_info.uuid) {
            Some((input, level)) => match node.inputs.get(input) {
                Some(pin) => {
                    let value = clone_opt_value(&pin.value);
                    match &value {
                        Some(Value::Text(s)) => {
                            effects.push(Effect::Log(level, s.clone()));
                        },
                        _ => {},
                    }
                    (Ok(value), effects)
                },
                None => (Err("the log node has lost the input of this output".to_owned()), effects),
            },
            None => (Err("the log node has no such output".to_owned()), effects),
        }
    }

    fn handle_receive(&mut self, node: &mut NodeState, receiver: Id, message: &Option<Value>) -> (r:
        Vec<Effect>) {
        Vec::new()
    }

    fn handle_message(&mut self, node: &mut NodeState, message: &OtherMessage) -> (r: Vec<Effect>) {
        Vec::new()
    }
}

/// Registers the Log graph: its information and its number of versions.
pub fn register() -> (r: (GraphInfo, u64))
    ensures
        r.0.uuid == LOG_GRAPH_ID,
        r.0.name@ == "Log"@,
        r.0.format == 1,
        r.1 == 1,
{
    (GraphInfo { name: "Log".to_owned(), uuid: LOG_GRAPH_ID, format: 1 }, 1)
}

/// A Log node instance, when `uuid` names the Log graph and `version` is
/// one it has.
pub fn create(controller: ActorId, catalogue: &Catalogue, uuid: Id, version: u64, instance_id: Id) -> (r:
    Option<Node<BuiltinNode>>)
    ensures
        match r {
            Some(n) => uuid == LOG_GRAPH_ID && version == 1 && crate::nodes::fresh_instance(
                n,
                *catalogue,
                controller,
                uuid,
                version,
                instance_id,
            ) && n.process == BuiltinNode::Log(NodeUtilLogV1 {}),
            None => !(uuid == LOG_GRAPH_ID && version == 1),
        },
{
    if uuid == LOG_GRAPH_ID && version == 1 {
        Some(NodeUtilLogV1::new(controller, catalogue, instance_id))
    } else {
        None
    }
}

/// A Log node stays a Log node, whatever messages it handles.
pub proof fn lemma_log_stays_log(
    node: NodeModel,
    catalogue: Catalogue,
    own: ActorId,
    messages: Seq<NodeMessage>,
    node_after: NodeModel,
    process_after: BuiltinNode,
)
    requires
        run(node, BuiltinNode::Log(NodeUtilLogV1 {}), catalogue, own, messages, node_after, process_after),
    ensures
        process_after == BuiltinNode::Log(NodeUtilLogV1 {}),
    decreases messages.len(),
{
    let process = BuiltinNode::Log(NodeUtilLogV1 {});
    if messages.len() > 0 {
        let (n, p, e) = choose|n: NodeModel, p: BuiltinNode, e: Seq<Effect>|
            #[trigger] step(node, process, catalogue, own, messages[0], n, p, e) && run(
                n,
                p,
                catalogue,
                own,
                messages.skip(1),
                node_after,
                process_after,
            );
        lemma_log_step_stays_log(node, catalogue, own, messages[0], n, p, e);
        lemma_log_stays_log(n, catalogue, own, messages.skip(1), node_after, process_after);
    }
}

proof fn lemma_log_step_stays_log(
    node: NodeModel,
    catalogue: Catalogue,
    own: ActorId,
    message: NodeMessage,
    node1: NodeModel,
    process1: BuiltinNode,
    effects: Seq<Effect>,
)
    requires
        step(node, BuiltinNode::Log(NodeUtilLogV1 {}), catalogue, own, message, node1, process1, effects),
    ensures
        process1 == BuiltinNode::Log(NodeUtilLogV1 {}),
{
    let process = BuiltinNode::Log(NodeUtilLogV1 {});
    match message {
        NodeMessage::Command(command) => match command {
            NodeCommand::ComputeOutputToInput(c, i, output, d, parameter) => {
                if node.outputs.contains_key(output) && node.outputs[output].info.datatype@ == d@
                    && !node.outputs[output].computed {
                    let (n, e, res) = choose|n: NodeModel, e: Seq<Effect>, res: Result<Option<Value>, String>|
                        #[trigger] process.compute_ok(node, node.outputs[output].info, parameter, process1, n, e, res);
                }
            },
            NodeCommand::ComputeOutput(c, output, parameter) => {
                if node.outputs.contains_key(output) && !node.outputs[output].computed {
                    let (n, e, res) = choose|n: NodeModel, e: Seq<Effect>, res: Result<Option<Value>, String>|
                        #[trigger] process.compute_ok(node, node.outputs[output].info, parameter, process1, n, e, res);
                }
            },
            _ => {},
        },
        _ => {},
    }
}

/// A Log output computes its value by reading the matching input. So a
/// value set on that input is what the output delivers when next computed,
/// whatever messages come in between, provided none of them sets that input
/// again or refreshes the pins, and the output holds no computed result by
/// then.
pub proof fn lemma_log_passes_input_on(
    node: NodeModel,
    catalogue: Catalogue,
    own: ActorId,
    sender: ActorId,
    input: Id,
    level: LogLevel,
    datatype: String,
    value: Option<Value>,
    node1: NodeModel,
    process1: BuiltinNode,
    effects1: Seq<Effect>,
    between: Seq<NodeMessage>,
    node_m: NodeModel,
    process_m: BuiltinNode,
    commander: ActorId,
    output: Id,
    parameter: Option<Value>,
    node2: NodeModel,
    process2: BuiltinNode,
    effects2: Seq<Effect>,
)
    requires
        log_source(output) == Some((input, level)),
        node.inputs.contains_key(input),
        node.inputs[input].info.datatype@ == datatype@,
        step(
            node,
            BuiltinNode::Log(NodeUtilLogV1 {}),
            catalogue,
            own,
            NodeMessage::Command(NodeCommand::InputValue(sender, input, datatype, value)),
            node1,
            process1,
            effects1,
        ),
        forall|j: int| 0 <= j < between.len() ==> leaves_input(#[trigger] between[j], input),
        run(node1, process1, catalogue, own, between, node_m, process_m),
        node_m.outputs.contains_key(output),
        node_m.outputs[output].info.uuid == output,
        !node_m.outputs[output].computed,
        step(
            node_m,
            process_m,
            catalogue,
            own,
            NodeMessage::Command(NodeCommand::ComputeOutput(commander, output, parameter)),
            node2,
            process2,
            effects2,
        ),
    ensures
        effects2.len() > 0,
        effects2.last() == Effect::Respond(
            commander,
            NodeResponse::OutputPinValue(own, output, value),
        ),
        node2.outputs[output].value == value,
{
    let process = BuiltinNode::Log(NodeUtilLogV1 {});
    lemma_log_step_stays_log(node, catalogue, own, NodeMessage::Command(NodeCommand::InputValue(sender, input, datatype, value)), node1, process1, effects1);
    lemma_log_stays_log(node1, catalogue, own, between, node_m, process_m);
    lemma_builtins_keep_inputs(input);
    assert forall|
        n: NodeModel,
        out: PinInfo,
        par: Option<Value>,
        p2: BuiltinNode,
        n2: NodeModel,
        e: Seq<Effect>,
        res: Result<Option<Value>, String>,
    |
        #[trigger] process.compute_ok(n, out, par, p2, n2, e, res) && out.uuid == output
            && n.inputs.contains_key(input) && n.outputs.contains_key(output) implies res == Ok::<
            Option<Value>,
            String,
        >(n.inputs[input].value) by {}
    lemma_input_reaches_later_output(
        node,
        process,
        catalogue,
        own,
        sender,
        input,
        datatype,
        value,
        node1,
        process1,
        effects1,
        between,
        node_m,
        process_m,
        commander,
        output,
        parameter,
        node2,
        process2,
        effects2,
    );
}

} // verus!
