//! The controller: boots graph instances, forwards the facade's requests to
//! node actors, and turns node responses into replies for the facade.
//!
//! The controller processes one message at a time. `Controller::handle`
//! applies a message and returns the effects for the transport; spawning a
//! node actor is one of them, and the transport reports its outcome back as
//! a `Spawned` message.
use vstd::prelude::*;
use crate::catalogue::{Catalogue, any_has_version, find_graph, graph_ref_of};
use crate::ids::{ActorId, INTERNAL_LIBRARY_ID, Id};
use crate::keyed::{keyed_view, keys_unique, lemma_keyed_contains, lemma_keyed_update, lemma_keyed_push};
use crate::node::{Node, NodeCommand, NodeResponse};
use crate::nodes::{BuiltinNode, created, is_builtin};
use crate::value::Value;

verus! {

/// Each command to the controller, from the facade or from a node.
pub enum ControllerCommand {
    /// Boots an instance of a graph: graph id, version, instance id, and the
    /// actor to reply to instead of the facade, if any.
    BootGraph(Id, u64, Id, Option<ActorId>),
    /// Sends a payload to an actor, which may be remote: sender, receiver,
    /// payload.
    RouteMessage(ActorId, ActorId, Value),
    /// Computes or takes the cached value of an output: node actor, output
    /// pin, parameter.
    ComputeOutputPinValue(ActorId, Id, Option<Value>),
    /// Sets the value of an input: node actor, input pin, value, datatype.
    SetInputPinValue(ActorId, Id, Option<Value>, String),
    /// Sends an event to a receive pin: node actor, receive pin, payload.
    SendValue(ActorId, Id, Option<Value>),
    /// Tells the engine it may stop waiting for new messages.
    StopWaitingForNewMessages,
}

/// Each reply from the controller.
pub enum ControllerResponse {
    /// A graph instance was booted, with its actor, or could not be.
    GraphBooted(Id, Option<ActorId>),
    /// The value of an output of a node actor.
    OutputValue(ActorId, Option<Value>),
    /// An input was set.
    InputPinSet,
    /// A value was delivered to a receive pin.
    ValueSent,
    /// The nodes are fine with being shut down.
    CanShutdown,
}

/// A message arriving at the controller.
pub enum ControllerMessage {
    Command(ControllerCommand),
    Response(NodeResponse),
    /// The outcome of a `Spawn`: instance id, the new actor or `None` when
    /// the actor system refused, and the boot's requestor.
    Spawned(Id, Option<ActorId>, Option<ActorId>),
}

/// A diagnostic about a boot.
pub enum ControllerReport {
    /// No library holds the graph.
    GraphMissing(Id),
    /// No library has that version of the graph.
    VersionMissing(Id, u64),
    /// The built-in library lists the graph but no built-in node has it.
    BuiltinUnavailable(Id, u64),
    /// The actor system refused to spawn the instance's actor.
    SpawnFailed(Id),
    /// A user graph version was found; booting user graphs is not provided.
    UserGraphFound(Id, u64),
}

/// What the controller asks the transport to do after a step.
pub enum ControllerEffect {
    /// Reply to the facade.
    ToEngine(ControllerResponse),
    /// Send a reply to an actor.
    Reply(ActorId, ControllerResponse),
    /// Send a command to a node actor.
    ToNode(ActorId, NodeCommand),
    /// Send a payload to an actor, which may be remote.
    Route(ActorId, Value),
    /// Spawn an actor for a new node instance, then report the outcome:
    /// instance id, the node, the boot's requestor.
    Spawn(Id, Node<BuiltinNode>, Option<ActorId>),
    /// Report a diagnostic.
    Report(ControllerReport),
}

/// The controller's state.
pub struct Controller {
    /// The running node actors, by instance id.
    pub nodes: Vec<(Id, ActorId)>,
    /// Whether the engine should keep waiting for new messages.
    pub keep_waiting: bool,
}

/// What the controller holds, with its actors as a map.
pub struct ControllerModel {
    pub nodes: Map<Id, ActorId>,
    pub keep_waiting: bool,
}

/// The key of a running node: its instance id.
pub open spec fn instance_key() -> spec_fn((Id, ActorId)) -> Id {
    |e: (Id, ActorId)| e.0
}

impl View for Controller {
    type V = ControllerModel;

    open spec fn view(&self) -> ControllerModel {
        ControllerModel {
            nodes: keyed_view(self.nodes@, instance_key()).map_values(|e: (Id, ActorId)| e.1),
            keep_waiting: self.keep_waiting,
        }
    }
}

/// A reply to the boot's requestor, or to the facade when there is none.
pub open spec fn reply_to(requestor: Option<ActorId>, response: ControllerResponse) -> ControllerEffect {
    match requestor {
        Some(a) => ControllerEffect::Reply(a, response),
        None => ControllerEffect::ToEngine(response),
    }
}

/// A diagnostic and a failed boot.
pub open spec fn boot_failed(
    report: ControllerReport,
    instance: Id,
    requestor: Option<ActorId>,
) -> Seq<ControllerEffect> {
    seq![
        ControllerEffect::Report(report),
        reply_to(requestor, ControllerResponse::GraphBooted(instance, None)),
    ]
}

/// Booting an instance of a graph version. The graph is looked up in the
/// catalogue and the version checked; a graph of the built-in library is
/// created by its built-in node and handed over for spawning. Booting a user
/// graph is not provided: it is only reported.
pub open spec fn boot_ok(
    catalogue: Catalogue,
    own: ActorId,
    id: Id,
    version: u64,
    instance: Id,
    requestor: Option<ActorId>,
    effects: Seq<ControllerEffect>,
) -> bool {
    match graph_ref_of(find_graph(catalogue.libraries@, id), version) {
        None => effects == boot_failed(ControllerReport::GraphMissing(id), instance, requestor),
        Some(gr) => if !any_has_version(catalogue.libraries@, gr.uuid, version) {
            effects == boot_failed(ControllerReport::VersionMissing(id, version), instance, requestor)
        } else if gr.library == Some(INTERNAL_LIBRARY_ID) {
            if is_builtin(id, version) {
                &&& effects.len() == 1
                &&& effects[0] matches ControllerEffect::Spawn(i, n, r)
                &&& i == instance
                &&& r == requestor
                &&& created(n, catalogue, own, id, version, instance)
            } else {
                effects == boot_failed(
                    ControllerReport::BuiltinUnavailable(id, version),
                    instance,
                    requestor,
                )
            }
        } else {
            effects == seq![ControllerEffect::Report(ControllerReport::UserGraphFound(id, version))]
        },
    }
}

/// The step the controller takes on a message: whether it may leave the
/// controller as `after` and emit `effects`, in order.
pub open spec fn controller_step(
    c: ControllerModel,
    catalogue: Catalogue,
    own: ActorId,
    message: ControllerMessage,
    after: ControllerModel,
    effects: Seq<ControllerEffect>,
) -> bool {
    match message {
        ControllerMessage::Command(command) => match command {
            ControllerCommand::BootGraph(id, version, instance, requestor) => after == c && boot_ok(
                catalogue,
                own,
                id,
                version,
                instance,
                requestor,
                effects,
            ),
            ControllerCommand::RouteMessage(_, receiver, payload) => after == c && effects == seq![
                ControllerEffect::Route(receiver, payload),
            ],
            ControllerCommand::ComputeOutputPinValue(node, pin, parameter) => after == c && effects
                == seq![
                ControllerEffect::ToNode(node, NodeCommand::ComputeOutput(own, pin, parameter)),
            ],
            ControllerCommand::SetInputPinValue(node, pin, value, datatype) => after == c && effects
                == seq![
                ControllerEffect::ToNode(node, NodeCommand::InputValue(own, pin, datatype, value)),
            ],
            ControllerCommand::SendValue(node, pin, value) => after == c && effects == seq![
                ControllerEffect::ToNode(node, NodeCommand::ReceiverMessage(own, pin, value)),
            ],
            ControllerCommand::StopWaitingForNewMessages => after == ControllerModel {
                keep_waiting: false,
                ..c
            } && effects.len() == 0,
        },
        ControllerMessage::Response(response) => after == c && effects == match response {
            NodeResponse::OutputPinValue(node, _, value) => seq![
                ControllerEffect::ToEngine(ControllerResponse::OutputValue(node, value)),
            ],
            NodeResponse::InputPinSet => seq![
                ControllerEffect::ToEngine(ControllerResponse::InputPinSet),
            ],
            NodeResponse::Received => seq![ControllerEffect::ToEngine(ControllerResponse::ValueSent)],
            _ => Seq::empty(),
        },
        ControllerMessage::Spawned(instance, actor, requestor) => match actor {
            Some(a) => after == ControllerModel { nodes: c.nodes.insert(instance, a), ..c }
                && effects == seq![
                reply_to(requestor, ControllerResponse::GraphBooted(instance, Some(a))),
            ],
            None => after == c && effects == boot_failed(
                ControllerReport::SpawnFailed(instance),
                instance,
                requestor,
            ),
        },
    }
}

fn reply(requestor: Option<ActorId>, response: ControllerResponse) -> (r: ControllerEffect)
    ensures
        r == reply_to(requestor, response),
{
    match requestor {
        Some(a) => ControllerEffect::Reply(a, response),
        None => ControllerEffect::ToEngine(response),
    }
}

fn fail_boot(report: ControllerReport, instance: Id, requestor: Option<ActorId>) -> (r: Vec<
    ControllerEffect,
>)
    ensures
        r@ == boot_failed(report, instance, requestor),
{
    let mut effects: Vec<ControllerEffect> = Vec::new();
    effects.push(ControllerEffect::Report(report));
    effects.push(reply(requestor, ControllerResponse::GraphBooted(instance, None)));
    effects
}

impl Controller {
    /// Instance ids are unique.
    pub open spec fn wf(&self) -> bool {
        keys_unique(self.nodes@, instance_key())
    }

    /// A controller with no running nodes that keeps waiting.
    pub fn new() -> (r: Self)
        ensures
            r.wf(),
            r@.nodes == Map::<Id, ActorId>::empty(),
            r@.keep_waiting,
    {
        let r = Controller { nodes: Vec::new(), keep_waiting: true };
        assert(r@.nodes =~= Map::<Id, ActorId>::empty());
        r
    }

    /// Records the actor of an instance, replacing any earlier one.
    fn record(&mut self, instance: Id, actor: ActorId)
        requires
            old(self).wf(),
        ensures
            final(self).wf(),
            final(self)@ == (ControllerModel {
                nodes: old(self)@.nodes.insert(instance, actor),
                ..old(self)@
            }),
    {
        let ghost before = self.nodes@;
        let ghost e = (instance, actor);
        let mut i: usize = 0;
        while i < self.nodes.len()
            invariant
                i <= self.nodes@.len(),
                self.nodes@ == before,
                forall|j: int| 0 <= j < i ==> self.nodes@[j].0 != instance,
            ensures
                i <= self.nodes@.len(),
                self.nodes@ == before,
                forall|j: int| 0 <= j < i ==> self.nodes@[j].0 != instance,
                i < self.nodes@.len() ==> self.nodes@[i as int].0 == instance,
            decreases self.nodes@.len() - i,
        {
            if self.nodes[i].0 == instance {
                break;
            }
            i = i + 1;
        }
        if i < self.nodes.len() {
            self.nodes.remove(i);
            self.nodes.insert(i, (instance, actor));
            proof {
                assert(self.nodes@ =~= before.update(i as int, e));
                lemma_keyed_update(before, instance_key(), i as int, e);
            }
        } else {
            self.nodes.push((instance, actor));
            proof {
                lemma_keyed_contains(before, instance_key(), instance);
                lemma_keyed_push(before, instance_key(), e);
            }
        }
        proof {
            assert(self@.nodes =~= keyed_view(before, instance_key()).map_values(
                |e: (Id, ActorId)| e.1,
            ).insert(instance, actor));
        }
    }

    /// Decides how to boot an instance of a graph version; see `boot_ok`.
    fn boot(
        catalogue: &Catalogue,
        own: ActorId,
        id: Id,
        version: u64,
        instance: Id,
        requestor: Option<ActorId>,
    ) -> (r: Vec<ControllerEffect>)
        requires
            catalogue.wf(),
        ensures
            boot_ok(*catalogue, own, id, version, instance, requestor, r@),
    {
        let graph_ref = match catalogue.get_graph_ref(id, version) {
            Some(g) => g,
            None => {
                return fail_boot(ControllerReport::GraphMissing(id), instance, requestor);
            },
        };
        if !catalogue.has_graph_version(&graph_ref) {
            return fail_boot(ControllerReport::VersionMissing(id, version), instance, requestor);
        }
        if graph_ref.library == Some(INTERNAL_LIBRARY_ID) {
            match crate::nodes::create(own, catalogue, id, version, instance) {
                Some(node) => {
                    let mut effects: Vec<ControllerEffect> = Vec::new();
                    effects.push(ControllerEffect::Spawn(instance, node, requestor));
                    effects
                },
                None => fail_boot(
                    ControllerReport::BuiltinUnavailable(id, version),
                    instance,
                    requestor,
                ),
            }
        } else {
            let mut effects: Vec<ControllerEffect> = Vec::new();
            effects.push(ControllerEffect::Report(ControllerReport::UserGraphFound(id, version)));
            effects
        }
    }

    /// Handles one message sent to the controller, whose own address is
    /// `own`, and returns the effects for the transport, in order.
    pub fn handle(&mut self, catalogue: &Catalogue, own: ActorId, message: ControllerMessage) -> (r:
        Vec<ControllerEffect>)
        requires
            old(self).wf(),
            catalogue.wf(),
        ensures
            final(self).wf(),
            controller_step(old(self)@, *catalogue, own, message, final(self)@, r@),
    {
        let mut effects: Vec<ControllerEffect> = Vec::new();
        match message {
            ControllerMessage::Command(command) => match command {
                ControllerCommand::BootGraph(id, version, instance, requestor) => {
                    effects = Self::boot(catalogue, own, id, version, instance, requestor);
                },
                ControllerCommand::RouteMessage(_sender, receiver, payload) => {
                    effects.push(ControllerEffect::Route(receiver, payload));
                },
                ControllerCommand::ComputeOutputPinValue(node, pin, parameter) => {
                    effects.push(
                        ControllerEffect::ToNode(node, NodeCommand::ComputeOutput(own, pin, parameter)),
                    );
                },
                ControllerCommand::SetInputPinValue(node, pin, value, datatype) => {
                    effects.push(
                        ControllerEffect::ToNode(
                            node,
                            NodeCommand::InputValue(own, pin, datatype, value),
                        ),
                    );
                },
                ControllerCommand::SendValue(node, pin, value) => {
                    effects.push(
                        ControllerEffect::ToNode(node, NodeCommand::ReceiverMessage(own, pin, value)),
                    );
                },
                ControllerCommand::StopWaitingForNewMessages => {
                    self.keep_waiting = false;
                },
            },
            ControllerMessage::Response(response) => match response {
                NodeResponse::OutputPinValue(node, _pin, value) => {
                    effects.push(
                        ControllerEffect::ToEngine(ControllerResponse::OutputValue(node, value)),
                    );
                },
                NodeResponse::InputPinSet => {
                    effects.push(ControllerEffect::ToEngine(ControllerResponse::InputPinSet));
                },
                NodeResponse::Received => {
                    effects.push(ControllerEffect::ToEngine(ControllerResponse::ValueSent));
                },
                _ => {},
            },
            ControllerMessage::Spawned(instance, actor, requestor) => match actor {
                Some(a) => {
                    self.record(instance, a);
                    effects.push(
                        reply(requestor, ControllerResponse::GraphBooted(instance, Some(a))),
                    );
                },
                None => {
                    effects = fail_boot(ControllerReport::SpawnFailed(instance), instance, requestor);
                },
            },
        }
        effects
    }
}

} // verus!
