//! The node actor: its instance data, its four pin tables, the behaviour
//! that computes its outputs, and the step it takes on each message.
//!
//! A node processes one message at a time. `Node::handle` applies a message
//! to the node and returns the effects that the transport must carry out:
//! messages to send, lines to log, diagnostics to report. Its contract is
//! `step`, which states the protocol for every message.
use vstd::prelude::*;
use crate::catalogue::Catalogue;
use crate::engine::ControllerCommand;
use crate::graph::{Datum, GraphRef, NodeInfo, PinInfo, PinRef};
use crate::nodes::canvas::CanvasMessage;
use crate::ids::{ActorId, Id};
use crate::keyed::{keyed_view, keys_unique, lemma_keyed_contains, lemma_keyed_update, lemma_keyed_push, lemma_keyed_remove, lemma_keyed_value};
use crate::pin::{PROGRESS_SCALE, Pin, PinDecl, PinMap, PinModel, all_fresh, decl_ids, lemma_pins_map_dom, pin_decls, pin_key, pin_models, pins_map, progress_sum, progress_updated};
use crate::value::{Value, clone_opt_value};

verus! {

/// Something with a name.
pub trait Named {
    spec fn name_spec(&self) -> Seq<char>;

    fn get_name(&self) -> (r: String)
        ensures
            r@ == self.name_spec(),
    ;
}

impl Named for Pin {
    open spec fn name_spec(&self) -> Seq<char> {
        self.info.name@
    }

    fn get_name(&self) -> (r: String) {
        self.info.name.clone()
    }
}

/// The key of a datum: its name.
pub open spec fn datum_key() -> spec_fn(Datum) -> Seq<char> {
    |d: Datum| d.name@
}

/// The datum map that a list of data gives, a later datum replacing an
/// earlier one with the same name.
pub open spec fn data_map(data: Seq<Datum>) -> Map<Seq<char>, Value> {
    keyed_view(data, datum_key()).map_values(|d: Datum| d.value)
}

/// Information for a live instance of a node.
pub struct NodeInstanceInfo {
    /// The id of this instance.
    pub uuid: Id,
    /// Whatever the node needs to hold that is not on a pin, by name.
    pub data: Vec<Datum>,
    /// The graph that this instance represents.
    pub graph: GraphRef,
}

/// What an instance's information holds, with its data as a map.
pub struct InstanceModel {
    pub uuid: Id,
    pub data: Map<Seq<char>, Value>,
    pub graph: GraphRef,
}

impl View for NodeInstanceInfo {
    type V = InstanceModel;

    open spec fn view(&self) -> InstanceModel {
        InstanceModel { uuid: self.uuid, data: data_map(self.data@), graph: self.graph }
    }
}

fn clone_datum(d: &Datum) -> (r: Datum)
    ensures
        r == *d,
{
    Datum { name: d.name.clone(), value: d.value.clone() }
}

impl NodeInstanceInfo {
    /// Datum names are unique.
    pub open spec fn wf(&self) -> bool {
        keys_unique(self.data@, datum_key())
    }

    /// Instance information without data.
    pub fn new(uuid: Id, graph: GraphRef) -> (r: Self)
        ensures
            r.wf(),
            r@ == (InstanceModel { uuid, data: Map::empty(), graph }),
    {
        let r = NodeInstanceInfo { uuid, data: Vec::new(), graph };
        assert(data_map(r.data@) =~= Map::<Seq<char>, Value>::empty());
        r
    }

    fn find_datum(&self, name: &String) -> (r: Option<usize>)
        requires
            self.wf(),
        ensures
            match r {
                Some(i) => i < self.data@.len() && self.data@[i as int].name@ == name@,
                None => !keyed_view(self.data@, datum_key()).contains_key(name@),
            },
    {
        let mut i: usize = 0;
        while i < self.data.len()
            invariant
                i <= self.data@.len(),
                forall|j: int| 0 <= j < i ==> self.data@[j].name@ != name@,
            decreases self.data@.len() - i,
        {
            if self.data[i].name == *name {
                return Some(i);
            }
            i = i + 1;
        }
        proof {
            lemma_keyed_contains(self.data@, datum_key(), name@);
        }
        None
    }

    /// Creates or replaces the datum with the given name.
    pub fn update_datum(&mut self, name: String, value: Value)
        requires
            old(self).wf(),
        ensures
            final(self).wf(),
            final(self)@ == (InstanceModel {
                data: old(self)@.data.insert(name@, value),
                ..old(self)@
            }),
    {
        let ghost before = self.data@;
        let ghost d = Datum { name, value };
        match self.find_datum(&name) {
            Some(i) => {
                self.data.remove(i);
                self.data.insert(i, Datum { name, value });
                proof {
                    assert(self.data@ =~= before.update(i as int, d));
                    lemma_keyed_update(before, datum_key(), i as int, d);
                }
            },
            None => {
                self.data.push(Datum { name, value });
                proof {
                    lemma_keyed_push(before, datum_key(), d);
                }
            },
        }
        proof {
            assert(data_map(self.data@) =~= data_map(before).insert(d.name@, d.value));
        }
    }

    /// Removes the datum with the given name, if there is one.
    pub fn remove_datum(&mut self, name: &String)
        requires
            old(self).wf(),
        ensures
            final(self).wf(),
            final(self)@ == (InstanceModel { data: old(self)@.data.remove(name@), ..old(self)@ }),
    {
        let ghost before = self.data@;
        match self.find_datum(name) {
            Some(i) => {
                self.data.remove(i);
                proof {
                    lemma_keyed_remove(before, datum_key(), i as int);
                    assert(data_map(self.data@) =~= data_map(before).remove(name@));
                }
            },
            None => {
                assert(data_map(before) =~= data_map(before).remove(name@));
            },
        }
    }

    /// The instance information of a node placed in a graph version.
    pub fn from_info(info: &NodeInfo) -> (r: Self)
        ensures
            r.wf(),
            r@.uuid == info.uuid,
            r@.graph == info.graph,
            r@.data == (match info.data {
                Some(data) => data_map(data@),
                None => Map::empty(),
            }),
    {
        let mut r = NodeInstanceInfo::new(info.uuid, info.graph.clone());
        match &info.data {
            Some(data) => {
                let mut i: usize = 0;
                while i < data.len()
                    invariant
                        i <= data@.len(),
                        r.wf(),
                        r@.uuid == info.uuid,
                        r@.graph == info.graph,
                        r@.data == data_map(data@.take(i as int)),
                    decreases data@.len() - i,
                {
                    let d = clone_datum(&data[i]);
                    assert(data@.take(i as int + 1).drop_last() =~= data@.take(i as int));
                    assert(data@.take(i as int + 1).last() == d);
                    r.update_datum(d.name, d.value);
                    proof {
                        assert(data_map(data@.take(i as int + 1)) =~= data_map(
                            data@.take(i as int),
                        ).insert(d.name@, d.value));
                    }
                    i = i + 1;
                }
                assert(data@.take(data@.len() as int) =~= data@);
            },
            None => {},
        }
        r
    }
}

/// Each command a node actor accepts.
pub enum NodeCommand {
    /// Computes an output (or takes its cached value) and sends it to the
    /// commander as the value of one of the commander's inputs: commander,
    /// that input pin, the output pin, the datatype expected, a parameter.
    ComputeOutputToInput(ActorId, Id, Id, String, Option<Value>),
    /// Computes an output (or takes its cached value) and sends it back to
    /// the commander: commander, output pin, parameter.
    ComputeOutput(ActorId, Id, Option<Value>),
    /// Sets the value of an input: sender, input pin, datatype, value.
    InputValue(ActorId, Id, String, Option<Value>),
    /// Delivers an event to a receive pin: sender, receive pin, payload.
    ReceiverMessage(ActorId, Id, Option<Value>),
    /// Asks for the progress of an output: requestor, the output.
    RequestProgress(ActorId, PinRef),
    /// Reports the progress of a remote output, in millionths: the remote
    /// node, the output, the progress.
    UpdateProgress(ActorId, PinRef, u32),
    /// Creates or updates a datum: requestor, name, value.
    UpdateDatum(ActorId, String, Value),
    /// Removes a datum: requestor, name.
    RemoveDatum(ActorId, String),
    /// Enumerates the pins afresh: requestor.
    RefreshPins(ActorId),
    /// Asks the controller to stop waiting for new messages.
    StopWaitingForNewMessages,
}

/// Each reply from a node actor.
pub enum NodeResponse {
    /// The value of an output: the node, the output pin, the value.
    OutputPinValue(ActorId, Id, Option<Value>),
    /// An input was set.
    InputPinSet,
    /// An event was received.
    Received,
    /// A datum was created or updated.
    DatumUpdated,
    /// A datum was removed.
    DatumRemoved,
    /// The pins were enumerated afresh.
    PinsRefreshed,
}

/// A message arriving at a node actor.
pub enum NodeMessage {
    Command(NodeCommand),
    Response(NodeResponse),
    /// Any other message; the behaviour decides what it means.
    Other(OtherMessage),
}

/// A message to a node that is neither a command nor a response.
pub enum OtherMessage {
    /// A payload routed to the node.
    Payload(Value),
    /// A message from the editor window a Canvas node opened.
    Canvas(CanvasMessage),
}

/// The severity of a log line.
#[derive(PartialEq, Eq, Structural, Clone, Copy, Debug)]
pub enum LogLevel {
    Info,
    Warn,
    Error,
}

/// A diagnostic about a message that a node dropped or ignored.
pub enum NodeReport {
    /// The node has no output pin with this id.
    MissingOutputPin(Id),
    /// The node has no input pin with this id.
    MissingInputPin(Id),
    /// An output was requested with a datatype other than its own.
    OutputDatatypeMismatch(Id),
    /// An input was sent a value of a datatype other than its own.
    InputDatatypeMismatch(Id),
    /// The behaviour failed to compute the output, for the given reason.
    ComputeFailed(Id, String),
    /// A progress message named no pin.
    MissingProgressPin,
    /// A response arrived that no request of this node awaits.
    ResponseIgnored,
}

/// What a node asks the transport to do after a step.
pub enum Effect {
    /// Send a command to a node actor.
    Command(ActorId, NodeCommand),
    /// Send a response to an actor.
    Respond(ActorId, NodeResponse),
    /// Send a command to this node's controller.
    Control(ControllerCommand),
    /// Write a line to the log.
    Log(LogLevel, String),
    /// Report a diagnostic.
    Report(NodeReport),
    /// Open the graph editor window, which sends its messages to this node.
    OpenEditor,
}

/// The data part of a node actor: everything but its behaviour.
pub struct NodeState {
    /// The instance data for this node.
    pub info: NodeInstanceInfo,
    /// The input pins.
    pub inputs: PinMap,
    /// The output pins.
    pub outputs: PinMap,
    /// The receive pins.
    pub receives: PinMap,
    /// The send pins.
    pub sends: PinMap,
    /// The controller this node belongs to.
    pub controller: ActorId,
}

/// What a node's data holds, with maps for its tables.
pub struct NodeModel {
    pub info: InstanceModel,
    pub inputs: Map<Id, PinModel>,
    pub outputs: Map<Id, PinModel>,
    pub receives: Map<Id, PinModel>,
    pub sends: Map<Id, PinModel>,
    pub controller: ActorId,
}

impl View for NodeState {
    type V = NodeModel;

    open spec fn view(&self) -> NodeModel {
        NodeModel {
            info: self.info@,
            inputs: self.inputs@,
            outputs: self.outputs@,
            receives: self.receives@,
            sends: self.sends@,
            controller: self.controller,
        }
    }
}

impl NodeState {
    pub open spec fn wf(&self) -> bool {
        &&& self.info.wf()
        &&& self.inputs.wf()
        &&& self.outputs.wf()
        &&& self.receives.wf()
        &&& self.sends.wf()
    }
}

impl NodeModel {
    /// The node with a computed result cached on an output, if it has that
    /// output.
    pub open spec fn with_output_value(self, id: Id, value: Option<Value>) -> NodeModel {
        if self.outputs.contains_key(id) {
            NodeModel { outputs: self.outputs.insert(id, self.outputs[id].with_result(value)), ..self }
        } else {
            self
        }
    }
}

/// What computing an output may change: the values of the inputs, and
/// nothing else.
pub open spec fn writes_inputs_only(node: NodeModel, node_after: NodeModel) -> bool {
    &&& node_after.info == node.info
    &&& node_after.outputs == node.outputs
    &&& node_after.receives == node.receives
    &&& node_after.sends == node.sends
    &&& node_after.controller == node.controller
    &&& node_after.inputs.dom() == node.inputs.dom()
    &&& forall|k: Id|
        #[trigger] node.inputs.contains_key(k) ==> node_after.inputs[k] == node.inputs[k].with_value(
            node_after.inputs[k].value,
        )
}

/// The capability surface of a node's behaviour: it enumerates the node's
/// pins, computes its outputs, and reacts to events and other messages.
///
/// Enumeration is a function of the behaviour and the catalogue, stated as
/// pin declarations. Computing and reacting are described by predicates over
/// what they were given and what they returned. The node's protocol is
/// stated over both.
pub trait Nodeable: Sized {
    /// The input and output pins the behaviour declares, in order.
    spec fn io_spec(&self, catalogue: Catalogue) -> (Seq<PinDecl>, Seq<PinDecl>);

    /// The receive and send pins the behaviour declares, in order.
    spec fn rs_spec(&self, catalogue: Catalogue) -> (Seq<PinDecl>, Seq<PinDecl>);

    /// Whether computing `output` may leave the behaviour as `after`, the
    /// node as `node_after`, emit `effects` and give `result`.
    spec fn compute_ok(
        &self,
        node: NodeModel,
        output: PinInfo,
        parameter: Option<Value>,
        after: Self,
        node_after: NodeModel,
        effects: Seq<Effect>,
        result: Result<Option<Value>, String>,
    ) -> bool;

    /// Whether reacting to an event on `receiver` may end so.
    spec fn receive_ok(
        &self,
        node: NodeModel,
        receiver: Id,
        message: Option<Value>,
        after: Self,
        node_after: NodeModel,
        effects: Seq<Effect>,
    ) -> bool;

    /// Whether reacting to any other message may end so.
    spec fn message_ok(
        &self,
        node: NodeModel,
        message: OtherMessage,
        after: Self,
        node_after: NodeModel,
        effects: Seq<Effect>,
    ) -> bool;

    /// Gets the default input and output pins.
    fn get_io(&self, catalogue: &Catalogue) -> (r: (Vec<Pin>, Vec<Pin>))
        ensures
            pin_decls(r.0@) == self.io_spec(*catalogue).0,
            pin_decls(r.1@) == self.io_spec(*catalogue).1,
            all_fresh(r.0@),
            all_fresh(r.1@),
    ;

    /// Gets the default receive and send pins.
    fn get_rs(&self, catalogue: &Catalogue) -> (r: (Vec<Pin>, Vec<Pin>))
        ensures
            pin_decls(r.0@) == self.rs_spec(*catalogue).0,
            pin_decls(r.1@) == self.rs_spec(*catalogue).1,
            all_fresh(r.0@),
            all_fresh(r.1@),
    ;

    /// Computes one of the outputs. Only input values may change.
    fn compute_output(
        &mut self,
        node: &mut NodeState,
        output_info: &PinInfo,
        parameter: &Option<Value>,
    ) -> (r: (Result<Option<Value>, String>, Vec<Effect>))
        requires
            old(node).wf(),
        ensures
            final(node).wf(),
            writes_inputs_only(old(node)@, final(node)@),
            old(self).compute_ok(
                old(node)@,
                *output_info,
                *parameter,
                *final(self),
                final(node)@,
                r.1@,
                r.0,
            ),
    ;

    /// Reacts to an event on a receive pin.
    fn handle_receive(&mut self, node: &mut NodeState, receiver: Id, message: &Option<Value>) -> (r:
        Vec<Effect>)
        requires
            old(node).wf(),
        ensures
            final(node).wf(),
            old(self).receive_ok(old(node)@, receiver, *message, *final(self), final(node)@, r@),
    ;

    /// Reacts to any other message.
    fn handle_message(&mut self, node: &mut NodeState, message: &OtherMessage) -> (r: Vec<Effect>)
        requires
            old(node).wf(),
        ensures
            final(node).wf(),
            old(self).message_ok(old(node)@, *message, *final(self), final(node)@, r@),
    ;
}

/// A node actor's state: its data and its behaviour.
pub struct Node<B> {
    pub state: NodeState,
    pub process: B,
}

impl<B> Named for Node<B> {
    open spec fn name_spec(&self) -> Seq<char> {
        self.state.info.graph.name@
    }

    fn get_name(&self) -> (r: String) {
        self.state.info.graph.name.clone()
    }
}

/// Progress beyond the scale counts as done.
pub open spec fn clamp_progress(progress: u32) -> u32 {
    if progress > PROGRESS_SCALE {
        PROGRESS_SCALE
    } else {
        progress
    }
}

/// Where the value of an output goes.
pub enum Reply {
    /// To an input of the commander, as an `InputValue`: commander, input
    /// pin, the output's datatype.
    ToInput(ActorId, Id, String),
    /// Back to the commander, as an `OutputPinValue`.
    ToCommander(ActorId),
}

/// The effect that delivers an output's value.
pub open spec fn reply_effect(reply: Reply, own: ActorId, output: Id, value: Option<Value>) -> Effect {
    match reply {
        Reply::ToInput(commander, input, datatype) => Effect::Command(
            commander,
            NodeCommand::InputValue(own, input, datatype, value),
        ),
        Reply::ToCommander(commander) => Effect::Respond(
            commander,
            NodeResponse::OutputPinValue(own, output, value),
        ),
    }
}

/// Producing and delivering the value of an output the node has. A result
/// computed earlier, empty or not, is delivered from the cache and the
/// behaviour is not asked. Otherwise the behaviour computes the value, which
/// is cached and delivered; when it fails, nothing is cached or delivered
/// and the failure is reported.
pub open spec fn produce_ok<B: Nodeable>(
    node: NodeModel,
    process: B,
    own: ActorId,
    output: Id,
    parameter: Option<Value>,
    reply: Reply,
    node_after: NodeModel,
    process_after: B,
    effects: Seq<Effect>,
) -> bool {
    let pin = node.outputs[output];
    if pin.computed {
        node_after == node && process_after == process && effects == seq![
            reply_effect(reply, own, output, pin.value),
        ]
    } else {
        exists|n: NodeModel, e: Seq<Effect>, res: Result<Option<Value>, String>|
            #[trigger] process.compute_ok(node, pin.info, parameter, process_after, n, e, res)
                && writes_inputs_only(node, n) && match res {
                Ok(v) => node_after == n.with_output_value(output, v) && effects == e.push(
                    reply_effect(reply, own, output, v),
                ),
                Err(msg) => node_after == n && effects == e.push(
                    Effect::Report(NodeReport::ComputeFailed(output, msg)),
                ),
            }
    }
}

/// The node and behaviour unchanged, with one effect.
pub open spec fn only<B>(
    node: NodeModel,
    process: B,
    effect: Effect,
    node_after: NodeModel,
    process_after: B,
    effects: Seq<Effect>,
) -> bool {
    node_after == node && process_after == process && effects == seq![effect]
}

/// The step a node takes on a command: whether it may leave the node's
/// data as `node_after`, its behaviour as `process_after`, and emit
/// `effects`, in order.
pub open spec fn command_step<B: Nodeable>(
    node: NodeModel,
    process: B,
    catalogue: Catalogue,
    own: ActorId,
    command: NodeCommand,
    node_after: NodeModel,
    process_after: B,
    effects: Seq<Effect>,
) -> bool {
    match command {
        NodeCommand::ComputeOutputToInput(commander, input, output, datatype, parameter) => {
            if !node.outputs.contains_key(output) {
                only(
                    node,
                    process,
                    Effect::Report(NodeReport::MissingOutputPin(output)),
                    node_after,
                    process_after,
                    effects,
                )
            } else if node.outputs[output].info.datatype@ != datatype@ {
                only(
                    node,
                    process,
                    Effect::Report(NodeReport::OutputDatatypeMismatch(output)),
                    node_after,
                    process_after,
                    effects,
                )
            } else {
                produce_ok(
                    node,
                    process,
                    own,
                    output,
                    parameter,
                    Reply::ToInput(commander, input, node.outputs[output].info.datatype),
                    node_after,
                    process_after,
                    effects,
                )
            }
        },
        NodeCommand::ComputeOutput(commander, output, parameter) => {
            if !node.outputs.contains_key(output) {
                only(
                    node,
                    process,
                    Effect::Report(NodeReport::MissingOutputPin(output)),
                    node_after,
                    process_after,
                    effects,
                )
            } else {
                produce_ok(
                    node,
                    process,
                    own,
                    output,
                    parameter,
                    Reply::ToCommander(commander),
                    node_after,
                    process_after,
                    effects,
                )
            }
        },
        NodeCommand::InputValue(commander, input, datatype, value) => {
            if !node.inputs.contains_key(input) {
                only(
                    node,
                    process,
                    Effect::Report(NodeReport::MissingInputPin(input)),
                    node_after,
                    process_after,
                    effects,
                )
            } else if node.inputs[input].info.datatype@ != datatype@ {
                only(
                    node,
                    process,
                    Effect::Report(NodeReport::InputDatatypeMismatch(input)),
                    node_after,
                    process_after,
                    effects,
                )
            } else {
                &&& node_after == NodeModel {
                    inputs: node.inputs.insert(input, node.inputs[input].with_value(value)),
                    ..node
                }
                &&& process_after == process
                &&& effects == if commander == node.controller {
                    seq![Effect::Respond(commander, NodeResponse::InputPinSet)]
                } else {
                    Seq::empty()
                }
            }
        },
        NodeCommand::ReceiverMessage(commander, receiver, message) => {
            &&& effects.len() >= 1
            &&& effects[0] == Effect::Respond(commander, NodeResponse::Received)
            &&& process.receive_ok(node, receiver, message, process_after, node_after, effects.skip(1))
        },
        NodeCommand::RequestProgress(requestor, output_ref) => match output_ref.pin {
            Some(id) => if node.outputs.contains_key(id) {
                only(
                    node,
                    process,
                    Effect::Command(
                        requestor,
                        NodeCommand::UpdateProgress(own, output_ref, node.outputs[id].progress),
                    ),
                    node_after,
                    process_after,
                    effects,
                )
            } else {
                only(
                    node,
                    process,
                    Effect::Report(NodeReport::MissingOutputPin(id)),
                    node_after,
                    process_after,
                    effects,
                )
            },
            None => only(
                node,
                process,
                Effect::Report(NodeReport::MissingProgressPin),
                node_after,
                process_after,
                effects,
            ),
        },
        NodeCommand::UpdateProgress(_, output_ref, progress) => match output_ref.pin {
            Some(id) => {
                &&& node_after == NodeModel {
                    inputs: progress_updated(node.inputs, id, clamp_progress(progress)),
                    ..node
                }
                &&& process_after == process
                &&& effects == Seq::<Effect>::empty()
            },
            None => only(
                node,
                process,
                Effect::Report(NodeReport::MissingProgressPin),
                node_after,
                process_after,
                effects,
            ),
        },
        NodeCommand::UpdateDatum(requestor, name, value) => {
            &&& node_after == NodeModel {
                info: InstanceModel { data: node.info.data.insert(name@, value), ..node.info },
                ..node
            }
            &&& process_after == process
            &&& effects == seq![Effect::Respond(requestor, NodeResponse::DatumUpdated)]
        },
        NodeCommand::RemoveDatum(requestor, name) => {
            &&& node_after == NodeModel {
                info: InstanceModel { data: node.info.data.remove(name@), ..node.info },
                ..node
            }
            &&& process_after == process
            &&& effects == seq![Effect::Respond(requestor, NodeResponse::DatumRemoved)]
        },
        NodeCommand::RefreshPins(requestor) => {
            &&& refreshed(node, process, catalogue, node_after)
            &&& process_after == process
            &&& effects == seq![Effect::Respond(requestor, NodeResponse::PinsRefreshed)]
        },
        NodeCommand::StopWaitingForNewMessages => only(
            node,
            process,
            Effect::Control(ControllerCommand::StopWaitingForNewMessages),
            node_after,
            process_after,
            effects,
        ),
    }
}

/// Whether `node_after` is the node with all four pin tables replaced by
/// fresh pins as the behaviour declares them: each table holds exactly the
/// declared ids.
pub open spec fn refreshed<B: Nodeable>(
    node: NodeModel,
    process: B,
    catalogue: Catalogue,
    node_after: NodeModel,
) -> bool {
    &&& node_after.inputs.dom() == decl_ids(process.io_spec(catalogue).0)
    &&& node_after.outputs.dom() == decl_ids(process.io_spec(catalogue).1)
    &&& node_after.receives.dom() == decl_ids(process.rs_spec(catalogue).0)
    &&& node_after.sends.dom() == decl_ids(process.rs_spec(catalogue).1)
    &&& exists|ins: Seq<Pin>, outs: Seq<Pin>, recvs: Seq<Pin>, sends: Seq<Pin>|
        #[trigger] pin_decls(ins) == process.io_spec(catalogue).0 && #[trigger] pin_decls(outs)
            == process.io_spec(catalogue).1 && #[trigger] pin_decls(recvs) == process.rs_spec(
            catalogue,
        ).0 && #[trigger] pin_decls(sends) == process.rs_spec(catalogue).1 && all_fresh(ins)
            && all_fresh(outs) && all_fresh(recvs) && all_fresh(sends) && node_after == NodeModel {
            inputs: pins_map(ins),
            outputs: pins_map(outs),
            receives: pins_map(recvs),
            sends: pins_map(sends),
            ..node
        }
}

/// The step a node takes on a message: whether it may leave the node's data
/// as `node_after`, its behaviour as `process_after`, and emit `effects`.
pub open spec fn step<B: Nodeable>(
    node: NodeModel,
    process: B,
    catalogue: Catalogue,
    own: ActorId,
    message: NodeMessage,
    node_after: NodeModel,
    process_after: B,
    effects: Seq<Effect>,
) -> bool {
    match message {
        NodeMessage::Command(command) => command_step(
            node,
            process,
            catalogue,
            own,
            command,
            node_after,
            process_after,
            effects,
        ),
        NodeMessage::Response(_) => only(
            node,
            process,
            Effect::Report(NodeReport::ResponseIgnored),
            node_after,
            process_after,
            effects,
        ),
        NodeMessage::Other(v) => process.message_ok(node, v, process_after, node_after, effects),
    }
}

impl<B: Nodeable> Node<B> {
    /// A node whose pins are those its behaviour enumerates.
    pub fn new(info: NodeInstanceInfo, process: B, catalogue: &Catalogue, controller: ActorId) -> (r:
        Self)
        requires
            info.wf(),
        ensures
            r.state.wf(),
            r.process == process,
            r.state@.info == info@,
            r.state@.controller == controller,
            refreshed(r.state@, process, *catalogue, r.state@),
    {
        let (vinputs, voutputs) = process.get_io(catalogue);
        let (vreceives, vsends) = process.get_rs(catalogue);
        let ghost (i, o, rv, sd) = (vinputs@, voutputs@, vreceives@, vsends@);
        let inputs = PinMap::from_pins(vinputs);
        let outputs = PinMap::from_pins(voutputs);
        let receives = PinMap::from_pins(vreceives);
        let sends = PinMap::from_pins(vsends);
        let r = Node {
            state: NodeState { info, inputs, outputs, receives, sends, controller },
            process,
        };
        proof {
            lemma_pins_map_dom(i);
            lemma_pins_map_dom(o);
            lemma_pins_map_dom(rv);
            lemma_pins_map_dom(sd);
        }
        r
    }

    /// The effect that delivers an output's value.
    fn deliver(reply: Reply, own: ActorId, output: Id, value: Option<Value>) -> (r: Effect)
        ensures
            r == reply_effect(reply, own, output, value),
    {
        match reply {
            Reply::ToInput(commander, input, datatype) => Effect::Command(
                commander,
                NodeCommand::InputValue(own, input, datatype, value),
            ),
            Reply::ToCommander(commander) => Effect::Respond(
                commander,
                NodeResponse::OutputPinValue(own, output, value),
            ),
        }
    }

    /// Produces the value of an output the node has and delivers it; see
    /// `produce_ok`. Returns the effects.
    fn produce_output(&mut self, own: ActorId, output: Id, parameter: &Option<Value>, reply: Reply) -> (r:
        Vec<Effect>)
        requires
            old(self).state.wf(),
            old(self).state@.outputs.contains_key(output),
        ensures
            final(self).state.wf(),
            produce_ok(
                old(self).state@,
                old(self).process,
                own,
                output,
                *parameter,
                reply,
                final(self).state@,
                final(self).process,
                r@,
            ),
    {
        let (info, cached, computed) = match self.state.outputs.get(output) {
            Some(pin) => (pin.info.clone(), clone_opt_value(&pin.value), pin.computed),
            None => {
                return Vec::new();
            },
        };
        match computed {
            true => {
                let mut effects: Vec<Effect> = Vec::new();
                effects.push(Self::deliver(reply, own, output, cached));
                effects
            },
            false => {
                let ghost node0 = self.state@;
                let ghost process0 = self.process;
                let (res, mut effects) = self.process.compute_output(
                    &mut self.state,
                    &info,
                    parameter,
                );
                let ghost n = self.state@;
                let ghost e = effects@;
                assert(process0.compute_ok(node0, info, *parameter, self.process, n, e, res));
                match res {
                    Ok(v) => {
                        self.state.outputs.cache_result(output, clone_opt_value(&v));
                        effects.push(Self::deliver(reply, own, output, v));
                    },
                    Err(msg) => {
                        effects.push(Effect::Report(NodeReport::ComputeFailed(output, msg)));
                    },
                }
                effects
            },
        }
    }

    /// Handles one message sent to this node, whose own address is `own`,
    /// and returns the effects for the transport, in order.
    pub fn handle(&mut self, catalogue: &Catalogue, own: ActorId, message: NodeMessage) -> (effects:
        Vec<Effect>)
        requires
            old(self).state.wf(),
        ensures
            final(self).state.wf(),
            step(
                old(self).state@,
                old(self).process,
                *catalogue,
                own,
                message,
                final(self).state@,
                final(self).process,
                effects@,
            ),
    {
        let mut effects: Vec<Effect> = Vec::new();
        match message {
            NodeMessage::Command(command) => {
                match command {
                    NodeCommand::ComputeOutputToInput(
                        commander,
                        input,
                        output,
                        datatype,
                        parameter,
                    ) => {
                        let declared = match self.state.outputs.get(output) {
                            Some(pin) => pin.info.datatype.clone(),
                            None => {
                                effects.push(Effect::Report(NodeReport::MissingOutputPin(output)));
                                return effects;
                            },
                        };
                        if declared != datatype {
                            effects.push(
                                Effect::Report(NodeReport::OutputDatatypeMismatch(output)),
                            );
                            return effects;
                        }
                        effects = self.produce_output(
                            own,
                            output,
                            &parameter,
                            Reply::ToInput(commander, input, declared),
                        );
                    },
                    NodeCommand::ComputeOutput(commander, output, parameter) => {
                        match self.state.outputs.get(output) {
                            Some(_) => {},
                            None => {
                                effects.push(Effect::Report(NodeReport::MissingOutputPin(output)));
                                return effects;
                            },
                        }
                        effects = self.produce_output(
                            own,
                            output,
                            &parameter,
                            Reply::ToCommander(commander),
                        );
                    },
                    NodeCommand::InputValue(commander, input, datatype, value) => {
                        let matches = match self.state.inputs.get(input) {
                            Some(pin) => pin.info.datatype == datatype,
                            None => {
                                effects.push(Effect::Report(NodeReport::MissingInputPin(input)));
                                return effects;
                            },
                        };
                        if !matches {
                            effects.push(Effect::Report(NodeReport::InputDatatypeMismatch(input)));
                            return effects;
                        }
                        self.state.inputs.set_value(input, value);
                        if commander == self.state.controller {
                            effects.push(Effect::Respond(commander, NodeResponse::InputPinSet));
                        }
                    },
                    NodeCommand::ReceiverMessage(commander, receiver, message) => {
                        effects.push(Effect::Respond(commander, NodeResponse::Received));
                        let mut emitted = self.process.handle_receive(
                            &mut self.state,
                            receiver,
                            &message,
                        );
                        let ghost e = emitted@;
                        effects.append(&mut emitted);
                        assert(effects@.skip(1) =~= e);
                    },
                    NodeCommand::RequestProgress(requestor, output_ref) => {
                        match output_ref.pin {
                            Some(id) => match self.state.outputs.get(id) {
                                Some(pin) => {
                                    let progress = pin.progress;
                                    effects.push(
                                        Effect::Command(
                                            requestor,
                                            NodeCommand::UpdateProgress(own, output_ref, progress),
                                        ),
                                    );
                                },
                                None => {
                                    effects.push(Effect::Report(NodeReport::MissingOutputPin(id)));
                                },
                            },
                            None => {
                                effects.push(Effect::Report(NodeReport::MissingProgressPin));
                            },
                        }
                    },
                    NodeCommand::UpdateProgress(_progressor, output_ref, progress) => {
                        match output_ref.pin {
                            Some(id) => {
                                let p = if progress > PROGRESS_SCALE {
                                    PROGRESS_SCALE
                                } else {
                                    progress
                                };
                                self.state.inputs.update_progress(id, p);
                            },
                            None => {
                                effects.push(Effect::Report(NodeReport::MissingProgressPin));
                            },
                        }
                    },
                    NodeCommand::UpdateDatum(requestor, name, value) => {
                        self.state.info.update_datum(name, value);
                        effects.push(Effect::Respond(requestor, NodeResponse::DatumUpdated));
                    },
                    NodeCommand::RemoveDatum(requestor, name) => {
                        self.state.info.remove_datum(&name);
                        effects.push(Effect::Respond(requestor, NodeResponse::DatumRemoved));
                    },
                    NodeCommand::RefreshPins(requestor) => {
                        let (vinputs, voutputs) = self.process.get_io(catalogue);
                        let (vreceives, vsends) = self.process.get_rs(catalogue);
                        let ghost (i, o, rv, sd) = (vinputs@, voutputs@, vreceives@, vsends@);
                        self.state.inputs = PinMap::from_pins(vinputs);
                        self.state.outputs = PinMap::from_pins(voutputs);
                        self.state.receives = PinMap::from_pins(vreceives);
                        self.state.sends = PinMap::from_pins(vsends);
                        effects.push(Effect::Respond(requestor, NodeResponse::PinsRefreshed));
                        proof {
                            lemma_pins_map_dom(i);
                            lemma_pins_map_dom(o);
                            lemma_pins_map_dom(rv);
                            lemma_pins_map_dom(sd);
                        }
                    },
                    NodeCommand::StopWaitingForNewMessages => {
                        effects.push(Effect::Control(ControllerCommand::StopWaitingForNewMessages));
                    },
                }
            },
            NodeMessage::Response(_) => {
                effects.push(Effect::Report(NodeReport::ResponseIgnored));
            },
            NodeMessage::Other(v) => {
                effects = self.process.handle_message(&mut self.state, &v);
            },
        }
        effects
    }
}

/// A cached output is stable: once `ComputeOutput` has delivered a value of
/// an output, empty or not, the next `ComputeOutput` of that output delivers
/// the same value from the cache without asking the behaviour again, and
/// changes nothing.
pub proof fn lemma_cached_output_is_stable<B: Nodeable>(
    node: NodeModel,
    process: B,
    catalogue: Catalogue,
    own: ActorId,
    commander: ActorId,
    output: Id,
    parameter: Option<Value>,
    v: Option<Value>,
    node1: NodeModel,
    process1: B,
    effects1: Seq<Effect>,
    node2: NodeModel,
    process2: B,
    effects2: Seq<Effect>,
)
    requires
        step(
            node,
            process,
            catalogue,
            own,
            NodeMessage::Command(NodeCommand::ComputeOutput(commander, output, parameter)),
            node1,
            process1,
            effects1,
        ),
        effects1.len() > 0,
        effects1.last() == Effect::Respond(commander, NodeResponse::OutputPinValue(own, output, v)),
        step(
            node1,
            process1,
            catalogue,
            own,
            NodeMessage::Command(NodeCommand::ComputeOutput(commander, output, parameter)),
            node2,
            process2,
            effects2,
        ),
    ensures
        node1.outputs.contains_key(output),
        node1.outputs[output].computed,
        node1.outputs[output].value == v,
        node2 == node1,
        process2 == process1,
        effects2 == seq![Effect::Respond(commander, NodeResponse::OutputPinValue(own, output, v))],
{
    assert(node.outputs.contains_key(output));
    if node.outputs[output].computed {
        assert(effects1 == seq![
            reply_effect(Reply::ToCommander(commander), own, output, node.outputs[output].value),
        ]);
    } else {
        let (n, e, res) = choose|n: NodeModel, e: Seq<Effect>, res: Result<Option<Value>, String>|
            #[trigger] process.compute_ok(node, node.outputs[output].info, parameter, process1, n, e, res)
                && writes_inputs_only(node, n) && match res {
                Ok(x) => node1 == n.with_output_value(output, x) && effects1 == e.push(
                    reply_effect(Reply::ToCommander(commander), own, output, x),
                ),
                Err(msg) => node1 == n && effects1 == e.push(
                    Effect::Report(NodeReport::ComputeFailed(output, msg)),
                ),
            };
        match res {
            Ok(x) => {
                assert(effects1.last() == reply_effect(Reply::ToCommander(commander), own, output, x));
                assert(n.outputs.contains_key(output));
            },
            Err(msg) => {
                assert(effects1.last() == Effect::Report(NodeReport::ComputeFailed(output, msg)));
            },
        }
    }
}

/// Refreshing the pins replaces all four tables by what the behaviour
/// declares: each table holds exactly the declared ids, so pins that are no
/// longer declared are gone with their cached values, and no pin keeps a
/// value, a computed result, links or progress.
pub proof fn lemma_refresh_starts_afresh<B: Nodeable>(
    node: NodeModel,
    process: B,
    catalogue: Catalogue,
    own: ActorId,
    requestor: ActorId,
    node1: NodeModel,
    process1: B,
    effects: Seq<Effect>,
)
    requires
        step(
            node,
            process,
            catalogue,
            own,
            NodeMessage::Command(NodeCommand::RefreshPins(requestor)),
            node1,
            process1,
            effects,
        ),
    ensures
        forall|k: Id| #[trigger] node1.inputs.contains_key(k) ==> node1.inputs[k].is_fresh(),
        forall|k: Id| #[trigger] node1.outputs.contains_key(k) ==> node1.outputs[k].is_fresh(),
        forall|k: Id| #[trigger] node1.receives.contains_key(k) ==> node1.receives[k].is_fresh(),
        forall|k: Id| #[trigger] node1.sends.contains_key(k) ==> node1.sends[k].is_fresh(),
        node1.inputs.dom() == decl_ids(process.io_spec(catalogue).0),
        node1.outputs.dom() == decl_ids(process.io_spec(catalogue).1),
        node1.receives.dom() == decl_ids(process.rs_spec(catalogue).0),
        node1.sends.dom() == decl_ids(process.rs_spec(catalogue).1),
        node1.info == node.info,
        node1.controller == node.controller,
        process1 == process,
        effects == seq![Effect::Respond(requestor, NodeResponse::PinsRefreshed)],
{
    let (ins, outs, recvs, sends) = choose|ins: Seq<Pin>, outs: Seq<Pin>, recvs: Seq<Pin>, sends: Seq<Pin>|
        #[trigger] pin_decls(ins) == process.io_spec(catalogue).0 && #[trigger] pin_decls(outs)
            == process.io_spec(catalogue).1 && #[trigger] pin_decls(recvs) == process.rs_spec(
            catalogue,
        ).0 && #[trigger] pin_decls(sends) == process.rs_spec(catalogue).1 && all_fresh(ins)
            && all_fresh(outs) && all_fresh(recvs) && all_fresh(sends) && node1 == NodeModel {
            inputs: pins_map(ins),
            outputs: pins_map(outs),
            receives: pins_map(recvs),
            sends: pins_map(sends),
            ..node
        };
    lemma_fresh_map(ins);
    lemma_fresh_map(outs);
    lemma_fresh_map(recvs);
    lemma_fresh_map(sends);
}

/// Every pin of the map built from fresh pins is fresh.
proof fn lemma_fresh_map(pins: Seq<Pin>)
    requires
        all_fresh(pins),
    ensures
        forall|k: Id| #[trigger] pins_map(pins).contains_key(k) ==> pins_map(pins)[k].is_fresh(),
{
    assert forall|k: Id| #[trigger] pins_map(pins).contains_key(k) implies pins_map(pins)[k].is_fresh() by {
        lemma_keyed_value(pin_models(pins), pin_key(), k);
        let i = choose|i: int|
            0 <= i < pin_models(pins).len() && (pin_key())(pin_models(pins)[i]) == k
                && pins_map(pins)[k] == pin_models(pins)[i];
        assert(pin_models(pins)[i] == pins[i]@);
    }
}

/// In a well-formed node, every input with links has as its progress the
/// arithmetic mean of its links' progress, in millionths rounded down.
/// `Node::handle` keeps nodes well formed.
pub proof fn lemma_input_progress_is_mean(state: NodeState)
    requires
        state.wf(),
    ensures
        forall|k: Id|
            #[trigger] state@.inputs.contains_key(k) && state@.inputs[k].links.len() > 0
                ==> state@.inputs[k].progress == progress_sum(state@.inputs[k].links) / (
            state@.inputs[k].links.len() as int),
{
    state.inputs.lemma_wf();
}

/// A value whose datatype is not the input's own never reaches the input:
/// the node is unchanged and the mismatch is reported, with no reply.
pub proof fn lemma_datatype_mismatch_changes_nothing<B: Nodeable>(
    node: NodeModel,
    process: B,
    catalogue: Catalogue,
    own: ActorId,
    commander: ActorId,
    input: Id,
    datatype: String,
    value: Option<Value>,
    node1: NodeModel,
    process1: B,
    effects: Seq<Effect>,
)
    requires
        node.inputs.contains_key(input),
        node.inputs[input].info.datatype@ != datatype@,
        step(
            node,
            process,
            catalogue,
            own,
            NodeMessage::Command(NodeCommand::InputValue(commander, input, datatype, value)),
            node1,
            process1,
            effects,
        ),
    ensures
        node1 == node,
        node1.inputs[input].value == node.inputs[input].value,
        process1 == process,
        effects == seq![Effect::Report(NodeReport::InputDatatypeMismatch(input))],
{
}

/// Whether a behaviour of type `B` never changes an input's value or
/// descriptor, whatever it computes, receives or is sent.
pub open spec fn keeps_input<B: Nodeable>(input: Id) -> bool {
    &&& forall|
        p: B,
        n: NodeModel,
        out: PinInfo,
        par: Option<Value>,
        p2: B,
        n2: NodeModel,
        e: Seq<Effect>,
        res: Result<Option<Value>, String>,
    |
        #[trigger] p.compute_ok(n, out, par, p2, n2, e, res) && n.inputs.contains_key(input)
            ==> n2.inputs.contains_key(input) && n2.inputs[input].value == n.inputs[input].value
    &&& forall|
        p: B,
        n: NodeModel,
        r: Id,
        m: Option<Value>,
        p2: B,
        n2: NodeModel,
        e: Seq<Effect>,
    |
        #[trigger] p.receive_ok(n, r, m, p2, n2, e) && n.inputs.contains_key(input)
            ==> n2.inputs.contains_key(input) && n2.inputs[input].value == n.inputs[input].value
            && n2.inputs[input].info == n.inputs[input].info
    &&& forall|p: B, n: NodeModel, m: OtherMessage, p2: B, n2: NodeModel, e: Seq<Effect>|
        #[trigger] p.message_ok(n, m, p2, n2, e) && n.inputs.contains_key(input)
            ==> n2.inputs.contains_key(input) && n2.inputs[input].value == n.inputs[input].value
            && n2.inputs[input].info == n.inputs[input].info
}

/// Whether a behaviour computes `output` by reading `input`.
pub open spec fn reads_input<B: Nodeable>(p: B, output: Id, input: Id) -> bool {
    forall|
        n: NodeModel,
        out: PinInfo,
        par: Option<Value>,
        p2: B,
        n2: NodeModel,
        e: Seq<Effect>,
        res: Result<Option<Value>, String>,
    |
        #[trigger] p.compute_ok(n, out, par, p2, n2, e, res) && out.uuid == output
            && n.inputs.contains_key(input) && n.outputs.contains_key(output) ==> res == Ok::<
            Option<Value>,
            String,
        >(n.inputs[input].value)
}

/// Whether a message leaves an input's value alone: it neither sets that
/// input nor refreshes the pins.
pub open spec fn leaves_input(message: NodeMessage, input: Id) -> bool {
    match message {
        NodeMessage::Command(NodeCommand::InputValue(_, i, _, _)) => i != input,
        NodeMessage::Command(NodeCommand::RefreshPins(_)) => false,
        _ => true,
    }
}

/// Whether handling the messages in order may take the node from one state
/// to the other.
pub open spec fn run<B: Nodeable>(
    node: NodeModel,
    process: B,
    catalogue: Catalogue,
    own: ActorId,
    messages: Seq<NodeMessage>,
    node_after: NodeModel,
    process_after: B,
) -> bool
    decreases messages.len(),
{
    if messages.len() == 0 {
        node_after == node && process_after == process
    } else {
        exists|n: NodeModel, p: B, e: Seq<Effect>|
            #[trigger] step(node, process, catalogue, own, messages[0], n, p, e) && run(
                n,
                p,
                catalogue,
                own,
                messages.skip(1),
                node_after,
                process_after,
            )
    }
}

/// One step of a node whose behaviour keeps an input leaves that input's
/// value and descriptor alone, unless the message sets it or refreshes.
pub proof fn lemma_step_keeps_input<B: Nodeable>(
    node: NodeModel,
    process: B,
    catalogue: Catalogue,
    own: ActorId,
    message: NodeMessage,
    input: Id,
    node1: NodeModel,
    process1: B,
    effects: Seq<Effect>,
)
    requires
        keeps_input::<B>(input),
        leaves_input(message, input),
        node.inputs.contains_key(input),
        step(node, process, catalogue, own, message, node1, process1, effects),
    ensures
        node1.inputs.contains_key(input),
        node1.inputs[input].value == node.inputs[input].value,
        node1.inputs[input].info == node.inputs[input].info,
{
    match message {
        NodeMessage::Command(command) => match command {
            NodeCommand::ComputeOutputToInput(c, i, output, d, parameter) => {
                if node.outputs.contains_key(output) && node.outputs[output].info.datatype@ == d@
                    && !node.outputs[output].computed {
                    let reply = Reply::ToInput(c, i, node.outputs[output].info.datatype);
                    let (n, e, res) = choose|n: NodeModel, e: Seq<Effect>, res: Result<Option<Value>, String>|
                        #[trigger] process.compute_ok(node, node.outputs[output].info, parameter, process1, n, e, res)
                            && writes_inputs_only(node, n) && match res {
                            Ok(x) => node1 == n.with_output_value(output, x) && effects == e.push(
                                reply_effect(reply, own, output, x),
                            ),
                            Err(msg) => node1 == n && effects == e.push(
                                Effect::Report(NodeReport::ComputeFailed(output, msg)),
                            ),
                        };
                    assert(n.inputs[input] == node.inputs[input].with_value(n.inputs[input].value));
                }
            },
            NodeCommand::ComputeOutput(c, output, parameter) => {
                if node.outputs.contains_key(output) && !node.outputs[output].computed {
                    let reply = Reply::ToCommander(c);
                    let (n, e, res) = choose|n: NodeModel, e: Seq<Effect>, res: Result<Option<Value>, String>|
                        #[trigger] process.compute_ok(node, node.outputs[output].info, parameter, process1, n, e, res)
                            && writes_inputs_only(node, n) && match res {
                            Ok(x) => node1 == n.with_output_value(output, x) && effects == e.push(
                                reply_effect(reply, own, output, x),
                            ),
                            Err(msg) => node1 == n && effects == e.push(
                                Effect::Report(NodeReport::ComputeFailed(output, msg)),
                            ),
                        };
                    assert(n.inputs[input] == node.inputs[input].with_value(n.inputs[input].value));
                }
            },
            NodeCommand::ReceiverMessage(c, r, m) => {
                assert(process.receive_ok(node, r, m, process1, node1, effects.skip(1)));
            },
            NodeCommand::UpdateProgress(_, output_ref, progress) => {
                if output_ref.pin is Some {
                    assert(node1.inputs[input] == node.inputs[input].with_link_progress(
                        output_ref.pin->0,
                        clamp_progress(progress),
                    ));
                }
            },
            _ => {},
        },
        NodeMessage::Response(_) => {},
        NodeMessage::Other(m) => {
            assert(process.message_ok(node, m, process1, node1, effects));
        },
    }
}

/// Handling messages that leave an input alone keeps its value and
/// descriptor, when the behaviour keeps inputs.
pub proof fn lemma_run_keeps_input<B: Nodeable>(
    node: NodeModel,
    process: B,
    catalogue: Catalogue,
    own: ActorId,
    messages: Seq<NodeMessage>,
    input: Id,
    node_after: NodeModel,
    process_after: B,
)
    requires
        keeps_input::<B>(input),
        forall|j: int| 0 <= j < messages.len() ==> leaves_input(#[trigger] messages[j], input),
        node.inputs.contains_key(input),
        run(node, process, catalogue, own, messages, node_after, process_after),
    ensures
        node_after.inputs.contains_key(input),
        node_after.inputs[input].value == node.inputs[input].value,
        node_after.inputs[input].info == node.inputs[input].info,
    decreases messages.len(),
{
    if messages.len() > 0 {
        let (n, p, e) = choose|n: NodeModel, p: B, e: Seq<Effect>|
            #[trigger] step(node, process, catalogue, own, messages[0], n, p, e) && run(
                n,
                p,
                catalogue,
                own,
                messages.skip(1),
                node_after,
                process_after,
            );
        assert(leaves_input(messages[0], input));
        lemma_step_keeps_input(node, process, catalogue, own, messages[0], input, n, p, e);
        assert forall|j: int| 0 <= j < messages.skip(1).len() implies leaves_input(
            #[trigger] messages.skip(1)[j],
            input,
        ) by {
            assert(messages.skip(1)[j] == messages[j + 1]);
        }
        lemma_run_keeps_input(n, p, catalogue, own, messages.skip(1), input, node_after, process_after);
    }
}

/// A value set on an input is what an output reading that input delivers
/// when it is next computed, whatever messages came in between, provided
/// none of them set that input again or refreshed the pins, the behaviour
/// keeps inputs, and the output holds no computed result by then.
pub proof fn lemma_input_reaches_later_output<B: Nodeable>(
    node: NodeModel,
    process: B,
    catalogue: Catalogue,
    own: ActorId,
    sender: ActorId,
    input: Id,
    datatype: String,
    value: Option<Value>,
    node1: NodeModel,
    process1: B,
    effects1: Seq<Effect>,
    between: Seq<NodeMessage>,
    node_m: NodeModel,
    process_m: B,
    commander: ActorId,
    output: Id,
    parameter: Option<Value>,
    node2: NodeModel,
    process2: B,
    effects2: Seq<Effect>,
)
    requires
        keeps_input::<B>(input),
        reads_input(process_m, output, input),
        node.inputs.contains_key(input),
        node.inputs[input].info.datatype@ == datatype@,
        step(
            node,
            process,
            catalogue,
            own,
            NodeMessage::Command(NodeCommand::InputValue(sender, input, datatype, value)),
            node1,
            process1,
            effects1,
        ),
        forall|j: int| 0 <= j < between.len() ==> leaves_input(#[trigger] between[j], input),
        run(node1, process1, catalogue, own, between, node_m, process_m),
        node_m.outputs.contains_key(output),
        node_m.outputs[output].info.uuid == output,
        !node_m.outputs[output].computed,
        step(
            node_m,
            process_m,
            catalogue,
            own,
            NodeMessage::Command(NodeCommand::ComputeOutput(commander, output, parameter)),
            node2,
            process2,
            effects2,
        ),
    ensures
        effects2.len() > 0,
        effects2.last() == Effect::Respond(
            commander,
            NodeResponse::OutputPinValue(own, output, value),
        ),
        node2.outputs[output].value == value,
        node2.outputs[output].computed,
{
    assert(node1.inputs.contains_key(input) && node1.inputs[input].value == value);
    lemma_run_keeps_input(node1, process1, catalogue, own, between, input, node_m, process_m);
    let (n, e, res) = choose|n: NodeModel, e: Seq<Effect>, res: Result<Option<Value>, String>|
        #[trigger] process_m.compute_ok(node_m, node_m.outputs[output].info, parameter, process2, n, e, res)
            && writes_inputs_only(node_m, n) && match res {
            Ok(x) => node2 == n.with_output_value(output, x) && effects2 == e.push(
                reply_effect(Reply::ToCommander(commander), own, output, x),
            ),
            Err(msg) => node2 == n && effects2 == e.push(
                Effect::Report(NodeReport::ComputeFailed(output, msg)),
            ),
        };
    assert(res == Ok::<Option<Value>, String>(value));
}

} // verus!
