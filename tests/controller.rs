use proc_flow::catalogue::Catalogue;
use proc_flow::engine::{
    Controller, ControllerCommand, ControllerEffect, ControllerMessage, ControllerReport,
    ControllerResponse,
};
use proc_flow::graph::{GraphInfo, VersionInfo};
use proc_flow::ids::INTERNAL_LIBRARY_ID;
use proc_flow::library::{Library, LibraryGraphInfo, LibraryInfo};
use proc_flow::node::{Effect, Node, NodeCommand, NodeMessage, NodeResponse, OtherMessage};
use proc_flow::nodes::log::{LOG_GRAPH_ID, LOG_INFO_INPUT, LOG_INFO_OUTPUT};
use proc_flow::nodes::BuiltinNode;
use proc_flow::value::Value;

const CONTROLLER: u128 = 0xc0;
const INSTANCE: u128 = 0x1234;

fn catalogue_with(found: Vec<Library>) -> Catalogue {
    let mut c = Catalogue::new();
    c.load_default_libraries(found);
    c
}

fn text(s: &str) -> Value {
    Value::Text(s.to_owned())
}

fn user_library(id: u128, graph: u128, versions: u64) -> Library {
    let info = LibraryInfo { name: "user".to_owned(), uuid: id, author: "someone".to_owned(), format: 1 };
    let mut lib = Library::new(info, "/libs/user".to_owned());
    lib.insert_graph(LibraryGraphInfo {
        info: GraphInfo { name: "Mine".to_owned(), uuid: graph, format: 1 },
        versions: (1..=versions).collect(),
        path: "/libs/user/mine".to_owned(),
        records: Vec::new(),
    });
    lib
}

/// Runs the controller and its node actors in one thread, delivering every
/// message in the order it was sent, and keeps what reached the facade.
struct Harness {
    catalogue: Catalogue,
    controller: Controller,
    nodes: Vec<(u128, Node<BuiltinNode>)>,
    next_actor: u128,
    replies: Vec<ControllerResponse>,
    logged: Vec<String>,
    reports: Vec<ControllerReport>,
}

enum Envelope {
    ToController(ControllerMessage),
    ToNode(u128, NodeMessage),
}

impl Harness {
    fn new() -> Harness {
        Harness {
            catalogue: catalogue_with(Vec::new()),
            controller: Controller::new(),
            nodes: Vec::new(),
            next_actor: 0x100,
            replies: Vec::new(),
            logged: Vec::new(),
            reports: Vec::new(),
        }
    }

    fn send(&mut self, command: ControllerCommand) {
        let mut queue = vec![Envelope::ToController(ControllerMessage::Command(command))];
        while !queue.is_empty() {
            match queue.remove(0) {
                Envelope::ToController(m) => {
                    for e in self.controller.handle(&self.catalogue, CONTROLLER, m) {
                        match e {
                            ControllerEffect::ToEngine(r) => self.replies.push(r),
                            ControllerEffect::Reply(_, r) => self.replies.push(r),
                            ControllerEffect::ToNode(a, c) => queue.push(Envelope::ToNode(a, NodeMessage::Command(c))),
                            ControllerEffect::Route(a, v) => queue.push(Envelope::ToNode(a, NodeMessage::Other(OtherMessage::Payload(v)))),
                            ControllerEffect::Spawn(instance, node, requestor) => {
                                let actor = self.next_actor;
                                self.next_actor += 1;
                                self.nodes.push((actor, node));
                                queue.push(Envelope::ToController(ControllerMessage::Spawned(instance, Some(actor), requestor)));
                            }
                            ControllerEffect::Report(r) => self.reports.push(r),
                        }
                    }
                }
                Envelope::ToNode(a, m) => {
                    let i = self.nodes.iter().position(|(id, _)| *id == a).expect("unknown actor");
                    let effects = self.nodes[i].1.handle(&self.catalogue, a, m);
                    for e in effects {
                        match e {
                            Effect::Respond(to, r) if to == CONTROLLER => queue.push(Envelope::ToController(ControllerMessage::Response(r))),
                            Effect::Respond(to, r) => queue.push(Envelope::ToNode(to, NodeMessage::Response(r))),
                            Effect::Command(to, c) => queue.push(Envelope::ToNode(to, NodeMessage::Command(c))),
                            Effect::Control(c) => queue.push(Envelope::ToController(ControllerMessage::Command(c))),
                            Effect::Log(_, line) => self.logged.push(line),
                            Effect::Report(_) | Effect::OpenEditor => {}
                        }
                    }
                }
            }
        }
    }

    fn boot(&mut self, graph: u128, version: u64) -> Option<u128> {
        self.replies.clear();
        self.send(ControllerCommand::BootGraph(graph, version, INSTANCE, None));
        match self.replies.last() {
            Some(ControllerResponse::GraphBooted(_, actor)) => *actor,
            _ => None,
        }
    }
}

#[test]
fn boot_nonexistent_graph() {
    let c = catalogue_with(Vec::new());
    let mut ctrl = Controller::new();
    let e = ctrl.handle(&c, CONTROLLER, ControllerMessage::Command(ControllerCommand::BootGraph(0, 1, INSTANCE, None)));
    assert!(matches!(
        e[..],
        [
            ControllerEffect::Report(ControllerReport::GraphMissing(0)),
            ControllerEffect::ToEngine(ControllerResponse::GraphBooted(INSTANCE, None))
        ]
    ));
}

#[test]
fn boot_missing_version() {
    let c = catalogue_with(Vec::new());
    let mut ctrl = Controller::new();
    let e = ctrl.handle(&c, CONTROLLER, ControllerMessage::Command(ControllerCommand::BootGraph(LOG_GRAPH_ID, 99, INSTANCE, Some(77))));
    assert!(matches!(
        e[..],
        [
            ControllerEffect::Report(ControllerReport::VersionMissing(LOG_GRAPH_ID, 99)),
            ControllerEffect::Reply(77, ControllerResponse::GraphBooted(INSTANCE, None))
        ]
    ));
}

#[test]
fn boot_log_node_spawns_it() {
    let c = catalogue_with(Vec::new());
    let mut ctrl = Controller::new();
    let e = ctrl.handle(&c, CONTROLLER, ControllerMessage::Command(ControllerCommand::BootGraph(LOG_GRAPH_ID, 1, INSTANCE, None)));
    assert_eq!(e.len(), 1);
    match &e[0] {
        ControllerEffect::Spawn(instance, node, None) => {
            assert_eq!(*instance, INSTANCE);
            assert_eq!(node.state.info.uuid, INSTANCE);
            assert_eq!(node.state.controller, CONTROLLER);
            assert_eq!(node.state.inputs.pins.len(), 3);
        }
        _ => panic!("expected a spawn"),
    }
    let e = ctrl.handle(&c, CONTROLLER, ControllerMessage::Spawned(INSTANCE, Some(0x55), None));
    assert!(matches!(e[..], [ControllerEffect::ToEngine(ControllerResponse::GraphBooted(INSTANCE, Some(0x55)))]));
    assert_eq!(ctrl.nodes, vec![(INSTANCE, 0x55)]);
    ctrl.handle(&c, CONTROLLER, ControllerMessage::Spawned(INSTANCE, Some(0x56), None));
    assert_eq!(ctrl.nodes, vec![(INSTANCE, 0x56)]);
}

#[test]
fn spawn_failure_is_reported() {
    let c = catalogue_with(Vec::new());
    let mut ctrl = Controller::new();
    let e = ctrl.handle(&c, CONTROLLER, ControllerMessage::Spawned(INSTANCE, None, None));
    assert!(matches!(
        e[..],
        [
            ControllerEffect::Report(ControllerReport::SpawnFailed(INSTANCE)),
            ControllerEffect::ToEngine(ControllerResponse::GraphBooted(INSTANCE, None))
        ]
    ));
    assert!(ctrl.nodes.is_empty());
}

#[test]
fn user_graph_is_only_reported() {
    let c = catalogue_with(vec![user_library(0xabc, 0xdef, 2)]);
    let mut ctrl = Controller::new();
    let e = ctrl.handle(&c, CONTROLLER, ControllerMessage::Command(ControllerCommand::BootGraph(0xdef, 2, INSTANCE, None)));
    assert!(matches!(e[..], [ControllerEffect::Report(ControllerReport::UserGraphFound(0xdef, 2))]));
    let e = ctrl.handle(&c, CONTROLLER, ControllerMessage::Command(ControllerCommand::BootGraph(0xdef, 3, INSTANCE, None)));
    assert!(matches!(e[..], [ControllerEffect::Report(ControllerReport::VersionMissing(0xdef, 3)), _]));
}

#[test]
fn unknown_builtin_is_unavailable() {
    // A library found on disk that claims the built-in library's id replaces it.
    let c = catalogue_with(vec![user_library(INTERNAL_LIBRARY_ID, 0xdef, 1)]);
    let mut ctrl = Controller::new();
    let e = ctrl.handle(&c, CONTROLLER, ControllerMessage::Command(ControllerCommand::BootGraph(0xdef, 1, INSTANCE, None)));
    assert!(matches!(
        e[..],
        [
            ControllerEffect::Report(ControllerReport::BuiltinUnavailable(0xdef, 1)),
            ControllerEffect::ToEngine(ControllerResponse::GraphBooted(INSTANCE, None))
        ]
    ));
}

#[test]
fn commands_are_forwarded() {
    let c = catalogue_with(Vec::new());
    let mut ctrl = Controller::new();
    let e = ctrl.handle(&c, CONTROLLER, ControllerMessage::Command(ControllerCommand::SetInputPinValue(9, 8, Some(Value::Int(1)), "int".to_owned())));
    match &e[..] {
        [ControllerEffect::ToNode(9, NodeCommand::InputValue(CONTROLLER, 8, d, Some(Value::Int(1))))] => assert_eq!(d, "int"),
        _ => panic!("expected an input value"),
    }
    let e = ctrl.handle(&c, CONTROLLER, ControllerMessage::Command(ControllerCommand::ComputeOutputPinValue(9, 8, None)));
    assert!(matches!(e[..], [ControllerEffect::ToNode(9, NodeCommand::ComputeOutput(CONTROLLER, 8, None))]));
    let e = ctrl.handle(&c, CONTROLLER, ControllerMessage::Command(ControllerCommand::SendValue(9, 7, None)));
    assert!(matches!(e[..], [ControllerEffect::ToNode(9, NodeCommand::ReceiverMessage(CONTROLLER, 7, None))]));
    let e = ctrl.handle(&c, CONTROLLER, ControllerMessage::Command(ControllerCommand::RouteMessage(1, 2, Value::Bool(true))));
    assert!(matches!(e[..], [ControllerEffect::Route(2, Value::Bool(true))]));
    assert!(ctrl.keep_waiting);
    let e = ctrl.handle(&c, CONTROLLER, ControllerMessage::Command(ControllerCommand::StopWaitingForNewMessages));
    assert!(e.is_empty());
    assert!(!ctrl.keep_waiting);
}

#[test]
fn responses_become_facade_replies() {
    let c = catalogue_with(Vec::new());
    let mut ctrl = Controller::new();
    let e = ctrl.handle(&c, CONTROLLER, ControllerMessage::Response(NodeResponse::OutputPinValue(9, 8, Some(Value::UInt(4)))));
    assert!(matches!(e[..], [ControllerEffect::ToEngine(ControllerResponse::OutputValue(9, Some(Value::UInt(4))))]));
    let e = ctrl.handle(&c, CONTROLLER, ControllerMessage::Response(NodeResponse::InputPinSet));
    assert!(matches!(e[..], [ControllerEffect::ToEngine(ControllerResponse::InputPinSet)]));
    let e = ctrl.handle(&c, CONTROLLER, ControllerMessage::Response(NodeResponse::Received));
    assert!(matches!(e[..], [ControllerEffect::ToEngine(ControllerResponse::ValueSent)]));
    let e = ctrl.handle(&c, CONTROLLER, ControllerMessage::Response(NodeResponse::DatumUpdated));
    assert!(e.is_empty());
}

#[test]
fn calculates_output() {
    let mut h = Harness::new();
    assert_eq!(h.boot(0, 1), None);
    let actor = h.boot(LOG_GRAPH_ID, 1).expect("did not get an actor back from booting the log node");
    h.replies.clear();
    h.send(ControllerCommand::SetInputPinValue(actor, LOG_INFO_INPUT, Some(text("testing log actor")), "string".to_owned()));
    assert!(matches!(h.replies[..], [ControllerResponse::InputPinSet]));
    for _ in 0..2 {
        h.replies.clear();
        h.send(ControllerCommand::ComputeOutputPinValue(actor, LOG_INFO_OUTPUT, None));
        match &h.replies[..] {
            [ControllerResponse::OutputValue(a, Some(Value::Text(s)))] => {
                assert_eq!(*a, actor);
                assert_eq!(s, "testing log actor");
            }
            _ => panic!("retrieved no log actor test message"),
        }
    }
    // The value was written to the log once: the second read came from the cache.
    assert_eq!(h.logged, vec!["testing log actor".to_owned()]);
}

#[test]
fn mismatched_input_is_not_acknowledged() {
    let mut h = Harness::new();
    let actor = h.boot(LOG_GRAPH_ID, 1).unwrap();
    h.replies.clear();
    h.send(ControllerCommand::SetInputPinValue(actor, LOG_INFO_INPUT, Some(Value::Int(42)), "int".to_owned()));
    assert!(h.replies.is_empty());
    h.send(ControllerCommand::ComputeOutputPinValue(actor, LOG_INFO_OUTPUT, None));
    assert!(matches!(h.replies[..], [ControllerResponse::OutputValue(_, None)]));
    h.replies.clear();
    h.send(ControllerCommand::SendValue(actor, 1, None));
    assert!(matches!(h.replies[..], [ControllerResponse::ValueSent]));
}

#[test]
fn version_records_are_loaded() {
    let mut lib = user_library(0xabc, 0xdef, 2);
    let record = VersionInfo {
        format: 1,
        receives: Vec::new(),
        sends: Vec::new(),
        inputs: Vec::new(),
        outputs: Vec::new(),
        nodes: Vec::new(),
        connections: Vec::new(),
    };
    lib.graphs[0].records.push(proc_flow::library::VersionRecord { version: 2, info: record });
    let c = catalogue_with(vec![lib]);
    let r = c.get_graph_ref(0xdef, 2).unwrap();
    assert_eq!(r.library, Some(0xabc));
    assert!(c.get_graph_version(&r).is_some());
    assert!(c.has_graph_version(&r));
    let r1 = c.get_graph_ref(0xdef, 1).unwrap();
    assert!(c.get_graph_version(&r1).is_none());
    assert!(c.has_graph_version(&r1));
}
